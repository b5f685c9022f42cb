use narou_rust_core::config::{local_setting_path, normalize_wait_steps};
use narou_rust_core::convert::{ascii_digits, to_zenkaku_digits};
use narou_rust_core::epub::{
    aozora_dir_candidates, detect_created_epub, files_with_extension, find_latest_epub,
    resolve_aozora_dir,
};
use narou_rust_core::menu::{
    answer_or_default, apply_record_filters, menu_choice, optional_answer, parse_id_list,
    parse_single_id, record_listing, session_from_answers, sort_records, yes_no_answer,
    InteractiveSession, RecordSort,
};
use narou_rust_core::model::NovelRecord;
use narou_rust_core::throttle::{fetch_step, FetchStep, RequestOutcome, ThrottleState};

fn rec(id: u64, site: &str, title: &str, author: &str, episodes: usize) -> NovelRecord {
    NovelRecord {
        id,
        author: String::from(author),
        title: String::from(title),
        file_title: String::from(title),
        toc_url: format!("https://ncode.syosetu.com/n{id}ab/"),
        sitename: String::from(site),
        novel_type: 1,
        end: false,
        all_episodes: episodes,
        last_update: None,
        new_arrivals_date: None,
        use_subdirectory: false,
        general_firstup: None,
        novelupdated_at: None,
        general_lastup: None,
        length: None,
        suspend: false,
        general_all_no: None,
    }
}

fn ids(rs: &[NovelRecord]) -> Vec<u64> {
    rs.iter().map(|r| r.id).collect()
}

#[test]
fn reads_typed_answers() {
    assert_eq!(optional_answer("  x "), Some(String::from("x")));
    assert_eq!(optional_answer("   "), None);
    assert_eq!(answer_or_default("", "."), ".");
    assert_eq!(answer_or_default(" D:\\w ", "."), "D:\\w");
    assert_eq!(menu_choice(" 3 ", 10), Some(3));
    assert_eq!(menu_choice("11", 10), None);
    assert_eq!(menu_choice("0", 10), None);
    assert_eq!(menu_choice("x", 10), None);
    assert_eq!(yes_no_answer("", true), Some(true));
    assert_eq!(yes_no_answer(" YES ", false), Some(true));
    assert_eq!(yes_no_answer("n", true), Some(false));
    assert_eq!(yes_no_answer("maybe", true), None);
    let s: InteractiveSession = session_from_answers("", ".", false, "D:\\a");
    assert_eq!(s.workspace, ".");
    assert_eq!(s.aozora_dir, None);
    let t = session_from_answers("W", ".", true, " D:\\a ");
    assert_eq!(t.aozora_dir, Some(String::from("D:\\a")));
}

#[test]
fn parses_id_lists() {
    assert_eq!(parse_id_list(" 1 2\t3 ").unwrap(), vec![1, 2, 3]);
    let e = parse_id_list("1 x2").unwrap_err();
    assert_eq!(e.message, "invalid id: x2");
    assert_eq!(e.cause, Some(String::from("invalid digit found in string")));
    let big = parse_id_list("99999999999999999999").unwrap_err();
    assert_eq!(big.cause, Some(String::from("number too large to fit in target type")));
    assert_eq!(parse_id_list("   ").unwrap_err().message, "id を1つ以上入力してください");
    assert_eq!(parse_single_id(" 7 ").unwrap(), 7);
    assert_eq!(parse_single_id("+").unwrap_err().message, "invalid id: +");
}

#[test]
fn filters_and_sorts_listings() {
    let all = vec![
        rec(2, "カクヨム", "Beta", "zed", 5),
        rec(0, "小説家になろう", "alpha", "Amy", 9),
        rec(1, "小説家になろう", "Alpha", "bob", 9),
    ];
    let mut rs = all.clone();
    apply_record_filters(&mut rs, Some(" カクヨム "), None);
    assert_eq!(ids(&rs), vec![2]);
    let mut rs = all.clone();
    apply_record_filters(&mut rs, None, Some("ALPHA"));
    assert_eq!(ids(&rs), vec![0, 1]);
    let mut rs = all.clone();
    apply_record_filters(&mut rs, Some(""), Some("n1ab"));
    assert_eq!(ids(&rs), vec![1]);

    let mut rs = all.clone();
    sort_records(&mut rs, RecordSort::Id);
    assert_eq!(ids(&rs), vec![0, 1, 2]);
    let mut rs = all.clone();
    sort_records(&mut rs, RecordSort::Title);
    assert_eq!(ids(&rs), vec![0, 1, 2]);
    let mut rs = all.clone();
    sort_records(&mut rs, RecordSort::Author);
    assert_eq!(ids(&rs), vec![0, 1, 2]);
    let mut rs = all.clone();
    sort_records(&mut rs, RecordSort::Episodes);
    assert_eq!(ids(&rs), vec![0, 1, 2]);
    let mut rs = all.clone();
    sort_records(&mut rs, RecordSort::Site);
    assert_eq!(ids(&rs), vec![2, 0, 1]);
}

#[test]
fn lists_saved_records() {
    let rs = vec![rec(3, "s", "t", "a", 4)];
    assert_eq!(
        record_listing(&rs, false),
        vec![String::from("[3] s | t | a | episodes=4"), String::from("total: 1")]
    );
    assert_eq!(
        record_listing(&rs, true)[0],
        "[3] s | t | a | episodes=4 | url=https://ncode.syosetu.com/n3ab/"
    );
}

#[test]
fn paces_requests() {
    let mut t = ThrottleState::new();
    assert_eq!(t.next_wait(None, 700, 5000, 3), None);
    t.mark_requested();
    assert_eq!(t.next_wait(Some(200), 700, 5000, 3), Some(500));
    t.mark_requested();
    t.mark_requested();
    assert_eq!(t.request_count, 3);
    assert_eq!(t.next_wait(Some(1000), 700, 5000, 3), Some(4000));
    assert_eq!(t.next_wait(Some(6000), 700, 5000, 3), None);
    assert_eq!(t.request_count, 0);
}

#[test]
fn reads_settings_paths_and_steps() {
    assert_eq!(local_setting_path("W"), vec!["W", ".narou", "local_setting.yaml"]);
    assert_eq!(normalize_wait_steps(0), 10);
    assert_eq!(normalize_wait_steps(4), 4);
    assert_eq!(normalize_wait_steps(20), 10);
}

#[test]
fn locates_aozora_epub3() {
    let (direct, sibling) = aozora_dir_candidates("/data/ws");
    assert_eq!(direct, vec!["/data/ws", "AozoraEpub3-1.1.1b30Q"]);
    assert_eq!(sibling, Some(vec![String::from("/data"), String::from("AozoraEpub3-1.1.1b30Q")]));
    assert_eq!(resolve_aozora_dir("/data/ws", Some("/tools/a"), false, false).unwrap(), vec!["/tools/a"]);
    assert_eq!(
        resolve_aozora_dir("/data/ws", None, false, true).unwrap(),
        vec!["/data", "AozoraEpub3-1.1.1b30Q"]
    );
    assert_eq!(
        resolve_aozora_dir("/data/ws", None, false, false).unwrap_err(),
        "AozoraEpub3 directory not found. Specify --aozora-dir or place AozoraEpub3-1.1.1b30Q next to the workspace"
    );
}

#[test]
fn picks_created_epub() {
    let before = vec![String::from("a.epub")];
    let after = vec![String::from("a.epub"), String::from("b.epub")];
    assert_eq!(detect_created_epub(&after, &before), Some(String::from("b.epub")));
    assert_eq!(detect_created_epub(&before, &before), None);
    let files = vec![
        (String::from("x.epub"), Some(5u128)),
        (String::from("y.epub"), Some(9u128)),
        (String::from("z.epub"), Some(9u128)),
        (String::from("w.epub"), None),
    ];
    assert_eq!(find_latest_epub(&files), Some(String::from("z.epub")));
    assert_eq!(find_latest_epub(&Vec::new()), None);
    let listing = vec![String::from("a.EPUB"), String::from("b.txt"), String::from("c.epub")];
    assert_eq!(files_with_extension(&listing, "epub"), vec![String::from("a.EPUB"), String::from("c.epub")]);
}

#[test]
fn round_trips_digits() {
    let z = to_zenkaku_digits("第12話 2024");
    assert_eq!(z, "第１２話 ２０２４");
    assert_eq!(ascii_digits(&z), "第12話 2024");
}

#[test]
fn decides_each_fetch_step() {
    let u = "https://ncode.syosetu.com/n1a/";
    match fetch_step(u, true, 2, RequestOutcome::Response(404)) {
        FetchStep::Stop(m) => assert_eq!(m, "request failed: https://ncode.syosetu.com/n1a/ (404)"),
        _ => panic!("expected a stop"),
    }
    assert!(matches!(fetch_step(u, false, 2, RequestOutcome::Response(503)), FetchStep::Accept));
    assert!(matches!(fetch_step(u, true, 2, RequestOutcome::Response(200)), FetchStep::Accept));
    assert!(matches!(fetch_step(u, true, 2, RequestOutcome::SendFailed), FetchStep::Retry(1)));
    assert!(matches!(fetch_step(u, true, 0, RequestOutcome::SendFailed), FetchStep::GiveUp));
}
