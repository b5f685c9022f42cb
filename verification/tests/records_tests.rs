use std::collections::BTreeMap;
use narou_rust_core::model::{DownloadTarget, NovelRecord, ParsedNovel, Section, SectionElement, Subtitle, Toc};
use narou_rust_core::timestamp::{format_timestamp, DateTimeFields};
use narou_rust_core::records::{
    build_file_title, build_record, build_record_at, changed_episodes, detect_site_kind,
    extract_ncode, free_id, next_id, normalize_source_datetime, normalize_target, remove_record,
    replace_filename_special_chars, truncate_folder_title, update_targets, upsert_record, SiteKind,
};
use narou_rust_core::storage::{html_text_length, Workspace};

fn record(id: u64, title: &str, toc_url: &str) -> NovelRecord {
    NovelRecord {
        id,
        author: String::from("作者"),
        title: String::from(title),
        file_title: format!("n{id}x {title}"),
        toc_url: String::from(toc_url),
        sitename: String::from("小説家になろう"),
        novel_type: 1,
        end: false,
        all_episodes: 3,
        last_update: None,
        new_arrivals_date: Some(String::from("2020-01-01 00:00:00.000000000 +09:00")),
        use_subdirectory: true,
        general_firstup: Some(String::from("old-first")),
        novelupdated_at: None,
        general_lastup: Some(String::from("old-last")),
        length: Some(99),
        suspend: true,
        general_all_no: Some(3),
    }
}

fn episode(index: &str, subdate: &str, subupdate: Option<&str>) -> Subtitle {
    Subtitle {
        index: String::from(index),
        href: format!("/n1234ab/{index}/"),
        chapter: String::new(),
        subchapter: String::new(),
        subtitle: format!("{index}話"),
        file_subtitle: format!("{index}話"),
        subdate: String::from(subdate),
        subupdate: subupdate.map(String::from),
    }
}

fn parsed(episodes: Vec<Subtitle>) -> ParsedNovel {
    ParsedNovel {
        title: String::from("新作: 題/名"),
        author: String::from("作者B"),
        sitename: String::from("小説家になろう"),
        story: String::new(),
        toc_url: String::from("https://ncode.syosetu.com/n1234ab/"),
        episodes,
        novel_type: 1,
        end: true,
        general_firstup: None,
        novelupdated_at: None,
        general_lastup: None,
        length: Some(500),
    }
}

#[test]
fn keeps_database_in_key_order() {
    let mut db: BTreeMap<u64, NovelRecord> = BTreeMap::new();
    upsert_record(&mut db, record(5, "五", "https://ncode.syosetu.com/n5a/"));
    upsert_record(&mut db, record(1, "一", "https://ncode.syosetu.com/n1a/"));
    upsert_record(&mut db, record(3, "三", "https://ncode.syosetu.com/n3a/"));
    upsert_record(&mut db, record(3, "三改", "https://ncode.syosetu.com/n3a/"));
    let keys: Vec<u64> = db.keys().copied().collect();
    assert_eq!(keys, vec![1, 3, 5]);
    let ws = Workspace::new(String::from("/w"));
    assert_eq!(ws.find_record(&db, &DownloadTarget::Id(3)).unwrap().title, "三改");
    assert_eq!(
        ws.find_record(&db, &DownloadTarget::Ncode(String::from("n5a"))).unwrap().id,
        5
    );
    assert_eq!(
        ws.find_record(&db, &DownloadTarget::Url(String::from("https://ncode.syosetu.com/n1a/")))
            .unwrap()
            .id,
        1
    );
    assert!(ws.find_record(&db, &DownloadTarget::Id(2)).is_none());
    let removed = remove_record(&mut db, 3).unwrap();
    assert_eq!(removed.title, "三改");
    assert!(ws.find_record(&db, &DownloadTarget::Id(3)).is_none());
    assert!(remove_record(&mut db, 3).is_none());
    assert_eq!(db.len(), 2);
}

#[test]
fn names_novel_folders() {
    assert_eq!(replace_filename_special_chars(" a:b/c "), "a b c");
    assert_eq!(truncate_folder_title(" 短い "), "短い");
    let long: String = std::iter::repeat('あ').take(49).chain(" いう".chars()).collect();
    assert_eq!(truncate_folder_title(&long), std::iter::repeat('あ').take(49).collect::<String>());
    assert_eq!(extract_ncode("https://ncode.syosetu.com/N1234AB/"), Some(String::from("n1234ab")));
    assert_eq!(extract_ncode("https://kakuyomu.jp/works/1"), None);
    let p = parsed(Vec::new());
    assert_eq!(
        build_file_title(None, &p, "https://ncode.syosetu.com/n1234ab/"),
        "n1234ab 新作  題 名"
    );
    assert_eq!(build_file_title(None, &p, "https://kakuyomu.jp/works/1"), "新作  題 名");
    let existing = record(7, "旧", "u");
    assert_eq!(build_file_title(Some(&existing), &p, "x"), "n7x 旧");
}

#[test]
fn detects_site_of_target() {
    let k = DownloadTarget::Url(String::from("https://kakuyomu.jp/works/4852201425154905871"));
    assert_eq!(detect_site_kind(&k, None), SiteKind::Kakuyomu);
    let n = DownloadTarget::Ncode(String::from("n1234ab"));
    assert_eq!(detect_site_kind(&n, None), SiteKind::Syosetu);
    let saved = record(1, "t", "https://kakuyomu.jp/works/12/");
    assert_eq!(detect_site_kind(&DownloadTarget::Url(String::from("x")), Some(&saved)), SiteKind::Kakuyomu);
}

#[test]
fn normalizes_page_dates_to_japan_time() {
    assert_eq!(
        normalize_source_datetime(Some(String::from(" 2024/01/02 03:04 "))),
        Some(String::from("2024-01-02 03:04:00.000000000 +09:00"))
    );
    assert_eq!(
        normalize_source_datetime(Some(String::from("2023年 05月06日 07時08分09秒"))),
        Some(String::from("2023-05-06 07:08:09.000000000 +09:00"))
    );
    assert_eq!(normalize_source_datetime(Some(String::from("昨日"))), None);
    assert_eq!(normalize_source_datetime(None), None);
}

#[test]
fn builds_record_after_download() {
    let eps = vec![
        episode("1", "2024/01/01 10:00", None),
        episode("2", "2024/01/02 10:00", Some("2024/01/05 10:00")),
        episode("3", "2024/01/03 10:00", None),
    ];
    let p = parsed(eps);
    let db = BTreeMap::from([(4u64, record(4, "四", "u4"))]);
    let r = build_record_at(&db, None, &p, "folder", String::from("toc"), Some(1234), String::from("NOW"));
    assert_eq!(r.id, 5);
    assert_eq!(r.general_firstup, Some(String::from("2024-01-01 10:00:00.000000000 +09:00")));
    assert_eq!(r.general_lastup, Some(String::from("2024-01-03 10:00:00.000000000 +09:00")));
    assert_eq!(r.novelupdated_at, Some(String::from("2024-01-05 10:00:00.000000000 +09:00")));
    assert_eq!(r.last_update, Some(String::from("NOW")));
    assert_eq!(r.new_arrivals_date, Some(String::from("NOW")));
    assert_eq!(r.length, Some(1234));
    assert_eq!(r.all_episodes, 3);
    assert_eq!(r.general_all_no, Some(3));
    assert!(!r.suspend);
    assert!(r.end);

    let existing = record(9, "旧", "u9");
    let empty = parsed(Vec::new());
    let r2 = build_record_at(&db, Some(&existing), &empty, "f", String::from("t"), None, String::from("T2"));
    assert_eq!(r2.id, 9);
    assert_eq!(r2.general_firstup, Some(String::from("old-first")));
    assert_eq!(r2.general_lastup, Some(String::from("old-last")));
    assert_eq!(r2.novelupdated_at, Some(String::from("old-last")));
    assert_eq!(r2.new_arrivals_date, existing.new_arrivals_date);
    assert_eq!(r2.length, Some(500));
    assert!(r2.use_subdirectory && r2.suspend);

    let first = build_record(&BTreeMap::new(), None, &empty, "f", String::from("t"), None, 32400).unwrap();
    assert_eq!(first.id, 0);
    let stamp = first.last_update.clone().unwrap();
    assert_eq!(stamp.chars().count(), "2024-01-02 03:04:05.000000000 +09:00".chars().count());
    assert!(stamp.ends_with(" +09:00"));
    assert_eq!(first.last_update, first.new_arrivals_date);
}

#[test]
fn selects_episodes_to_fetch() {
    let old = Toc {
        title: String::new(),
        author: String::new(),
        toc_url: String::new(),
        story: String::new(),
        subtitles: vec![episode("1", "d1", None), episode("2", "d2", None)],
    };
    let p = parsed(vec![episode("1", "d1", None), episode("2", "d2x", None), episode("3", "d3", None)]);
    let changed = changed_episodes(Some(&old), &p, &vec![true, true, true]);
    let idx: Vec<&str> = changed.iter().map(|s| s.index.as_str()).collect();
    assert_eq!(idx, vec!["2", "3"]);
    let missing = changed_episodes(Some(&old), &p, &vec![false, true, true]);
    assert_eq!(missing.len(), 3);
    assert_eq!(changed_episodes(None, &p, &vec![true, true, true]).len(), 3);
    let same = parsed(vec![episode("1", "d1", None), episode("2", "d2", None)]);
    assert!(changed_episodes(Some(&old), &same, &vec![true, true]).is_empty());
}

#[test]
fn resolves_update_and_download_targets() {
    let db = BTreeMap::from([(2u64, record(2, "b", "https://kakuyomu.jp/works/2")), (0u64, record(0, "a", "https://ncode.syosetu.com/n0a/"))]);
    assert_eq!(
        update_targets(Vec::new(), &db),
        vec![
            DownloadTarget::Url(String::from("https://ncode.syosetu.com/n0a/")),
            DownloadTarget::Url(String::from("https://kakuyomu.jp/works/2")),
        ]
    );
    let given = vec![DownloadTarget::Id(2)];
    assert_eq!(update_targets(given.clone(), &db), given);
    assert_eq!(
        normalize_target(&db, &DownloadTarget::Id(2)).unwrap(),
        DownloadTarget::Url(String::from("https://kakuyomu.jp/works/2"))
    );
    assert_eq!(
        normalize_target(&db, &DownloadTarget::Id(1)).unwrap_err().message,
        "record not found for id target"
    );
}

fn section(body: &str) -> Section {
    Section {
        chapter: String::new(),
        subchapter: String::new(),
        subtitle: String::new(),
        element: SectionElement {
            data_type: String::from("html"),
            introduction: String::from("<p>ab</p>"),
            postscript: String::new(),
            body: String::from(body),
        },
    }
}

#[test]
fn counts_novel_length() {
    assert_eq!(html_text_length("<p>a&amp;b</p><br>c"), 4);
    let ws = Workspace::new(String::from("/w"));
    let secs = vec![section("<b>本文</b>"), section("&lt;x&gt;")];
    assert_eq!(ws.calculate_novel_length(&secs), Some(2 + 2 + 2 + 3));
    assert_eq!(ws.calculate_novel_length(&Vec::new()), Some(0));
}

#[test]
fn lays_out_workspace_paths() {
    let ws = Workspace::new(String::from("D:\\work"));
    assert_eq!(ws.root(), "D:\\work");
    assert_eq!(ws.database_path(), vec!["D:\\work", ".narou", "database.yaml"]);
    assert_eq!(ws.novel_dir("site", "title"), vec!["D:\\work", "小説データ", "site", "title"]);
    assert_eq!(ws.toc_path("s", "t"), vec!["D:\\work", "小説データ", "s", "t", "toc.yaml"]);
    let e = episode("12", "d", None);
    assert_eq!(ws.section_path("s", "t", &e), vec!["D:\\work", "小説データ", "s", "t", "本文", "12 12話.yaml"]);
    assert_eq!(ws.raw_html_path("s", "t", &e), vec!["D:\\work", "小説データ", "s", "t", "raw", "12 12話.html"]);
    assert_eq!(ws.workspace_path("a.txt"), vec!["D:\\work", "a.txt"]);
    assert_eq!(ws.txt_path("s", "t"), vec!["D:\\work", "小説データ", "s", "t", "t.txt"]);
}

#[test]
fn writes_timestamps_in_database_layout() {
    let f = DateTimeFields {
        year: 2024, month: 1, day: 2, hour: 3, minute: 4, second: 5, nanosecond: 6, offset_secs: 32400,
    };
    assert_eq!(format_timestamp(f), "2024-01-02 03:04:05.000000006 +09:00");
    let far = DateTimeFields { year: 10000, offset_secs: -19800, ..f };
    assert_eq!(format_timestamp(far), "+10000-01-02 03:04:05.000000006 -05:30");
    let early = DateTimeFields { year: -5, offset_secs: 30, ..f };
    assert_eq!(format_timestamp(early), "-0005-01-02 03:04:05.000000006 +00:01");
    let leap = DateTimeFields { year: 987, second: 59, nanosecond: 1_500_000_000, offset_secs: 0, ..f };
    assert_eq!(format_timestamp(leap), "0987-01-02 03:04:60.1500000000 +00:00");
}

#[test]
fn gives_new_records_the_next_free_id() {
    let mut db: BTreeMap<u64, NovelRecord> = BTreeMap::new();
    assert_eq!(next_id(&db), 0);
    upsert_record(&mut db, record(7, "七", "u7"));
    upsert_record(&mut db, record(2, "二", "u2"));
    assert_eq!(next_id(&db), 8);
    assert_eq!(free_id(&db), Some(8));
    upsert_record(&mut db, record(u64::MAX, "末", "um"));
    assert_eq!(free_id(&db), None);
}
