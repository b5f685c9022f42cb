use narou_rust_core::diagnostic::{format_error_report, ErrorContext};
use narou_rust_core::doctor::{
    aozora_summary, find_orphans, java_check, java_unavailable, DoctorAozoraSummary,
    DoctorArchiveSummary, DoctorCheck, DoctorConfigSummary, DoctorIssue, DoctorRecordHealth,
    DoctorSummary,
};
use narou_rust_core::epub::EpubSummary;
use narou_rust_core::model::NovelRecord;
use narou_rust_core::repair::{repair_dry_run, repair_finished, split_conversions, RepairOptions, RepairSummary};
use narou_rust_core::summary::{
    batch_targets, join_lines, BatchDownloadItem, BatchDownloadSummary, DownloadSummary,
    InspectSummary,
};

fn issue(level: &str, code: &str, record_id: Option<u64>) -> DoctorIssue {
    DoctorIssue {
        level: String::from(level),
        code: String::from(code),
        summary: String::from("s"),
        record_id,
        suggestions: Vec::new(),
    }
}

fn doctor_summary(issues: Vec<DoctorIssue>) -> DoctorSummary {
    DoctorSummary {
        workspace: String::from("D:\\work"),
        workspace_exists: true,
        narou_dir: String::from("D:\\work\\.narou"),
        narou_dir_exists: true,
        database_path: String::from("D:\\work\\.narou\\database.yaml"),
        database_exists: true,
        local_setting_path: String::from("D:\\work\\.narou\\local_setting.yaml"),
        local_setting_exists: false,
        global_setting_path: String::from("C:\\Users\\user\\.narousetting\\global_setting.yaml"),
        global_setting_exists: true,
        saved_records: 3,
        config: DoctorConfigSummary {
            download_interval_secs: String::from("0.7"),
            update_interval_secs: String::from("0"),
            download_wait_steps: 10,
            retry_limit: 5,
            retry_wait_secs: String::from("10"),
            long_wait_secs: String::from("5"),
        },
        java: DoctorCheck { ok: true, detail: String::from("openjdk version \"21\"") },
        aozora: DoctorAozoraSummary {
            requested_path: None,
            resolved_path: Some(String::from("D:\\AozoraEpub3-1.1.1b30Q")),
            jar_path: Some(String::from("D:\\AozoraEpub3-1.1.1b30Q\\AozoraEpub3.jar")),
            ok: true,
            detail: String::from("AozoraEpub3.jar found"),
        },
        archive: DoctorArchiveSummary {
            archive_root: String::from("D:\\work\\小説データ"),
            archive_root_exists: true,
            orphan_dirs: vec![String::from("D:\\work\\小説データ\\site\\orphan")],
        },
        issues,
        records: vec![DoctorRecordHealth {
            id: 0,
            site: String::from("小説家になろう"),
            title: String::from("作品"),
            novel_dir: String::from("D:\\work\\小説データ\\小説家になろう\\作品"),
            novel_dir_exists: true,
            toc_exists: true,
            expected_episodes: 10,
            section_files: 9,
            raw_files: 0,
            txt_exists: false,
            epub_files: 0,
            ok: false,
            needs_update: true,
            needs_convert: true,
            suggestions: vec![String::from("narou_rust update 0")],
        }],
    }
}

#[test]
fn renders_doctor_summary_text() {
    let mut orphan = issue("warning", "archive.orphan_dir", None);
    orphan.summary = String::from("orphan found");
    orphan.suggestions = vec![String::from("remove orphan dir")];
    let summary = doctor_summary(vec![orphan]);
    let text = summary.to_text();
    assert!(text.contains("issues: total=1 error=0 warning=1"));
    assert!(text.contains("archive.orphan_dir"));
    assert!(text.contains("record_health:"));
    assert!(text.contains("suggestion: narou_rust update 0"));
}

#[test]
fn doctor_exit_code_follows_worst_issue() {
    assert_eq!(doctor_summary(vec![]).exit_code(), 0);
    assert_eq!(doctor_summary(vec![issue("warning", "a", None)]).exit_code(), 2);
    let worst = doctor_summary(vec![issue("warning", "a", None), issue("error", "b", Some(1))]);
    assert_eq!(worst.exit_code(), 3);
    assert_eq!(worst.error_count(), 1);
    assert_eq!(worst.warning_count(), 1);
}

#[test]
fn prints_error_report_of_missing_ncode() {
    let ctx = ErrorContext::new()
        .command(String::from("cli"))
        .workspace(String::from("D:\\work\\narou"));
    let causes = vec![String::from("ncode not found in url: https://ncode.syosetu.com/invalid/")];
    let report = format_error_report(
        "command=download target=https://ncode.syosetu.com/invalid/ workspace=D:\\work\\narou",
        &causes,
        &ctx,
    );
    let expected = [
        "error_report:",
        "  code: invalid_target.url_missing_ncode",
        "  stage: input",
        "  summary: \"command=download target=https://ncode.syosetu.com/invalid/ workspace=D:\\\\work\\\\narou\"",
        "  command: \"cli\"",
        "  workspace: \"D:\\\\work\\\\narou\"",
        "  causes:",
        "    - \"ncode not found in url: https://ncode.syosetu.com/invalid/\"",
        "  hints:",
        "    - \"入力URLに n1234ab の形式のNコードが含まれているか確認する\"",
        "    - \"短縮URLや作品情報URLではなく作品本文/目次URLを使う\"",
    ]
    .join("\n");
    assert_eq!(report, expected);
}

#[test]
fn reports_java_and_aozora_checks() {
    let c = java_check(true, "", "openjdk version \"21\"\nmore");
    assert!(c.ok);
    assert_eq!(c.detail, "openjdk version \"21\"");
    assert_eq!(java_check(false, "", "").detail, "java found");
    assert_eq!(java_check(true, "out line\n", "").detail, "out line");
    let u = java_unavailable("not found");
    assert!(!u.ok);
    assert_eq!(u.detail, "java not available: not found");
    let a = aozora_summary(None, Ok((String::from("D"), String::from("D/j.jar"))), false);
    assert!(!a.ok);
    assert_eq!(a.detail, "AozoraEpub3.jar not found: D/j.jar");
    let b = aozora_summary(Some(String::from("X")), Err(String::from("missing")), true);
    assert!(!b.ok && b.resolved_path.is_none() && b.detail == "missing");
    assert_eq!(b.requested_path, Some(String::from("X")));
}

fn novel(id: u64, site: &str, folder: &str) -> NovelRecord {
    NovelRecord {
        id,
        author: String::from("a"),
        title: String::from("t"),
        file_title: String::from(folder),
        toc_url: String::from("u"),
        sitename: String::from(site),
        novel_type: 1,
        end: false,
        all_episodes: 0,
        last_update: None,
        new_arrivals_date: None,
        use_subdirectory: false,
        general_firstup: None,
        novelupdated_at: None,
        general_lastup: None,
        length: None,
        suspend: false,
        general_all_no: None,
    }
}

#[test]
fn finds_orphan_folders() {
    let found = vec![
        (String::from("s"), String::from("kept"), String::from("W/s/kept")),
        (String::from("s"), String::from("lost"), String::from("W/s/lost")),
    ];
    let (dirs, issues) = find_orphans(&found, &vec![novel(0, "s", "kept")]);
    assert_eq!(dirs, vec![String::from("W/s/lost")]);
    assert_eq!(issues.len(), 1);
    assert_eq!(issues[0].code, "archive.orphan_dir");
    assert_eq!(issues[0].level, "warning");
    assert_eq!(issues[0].summary, "database.yaml に存在しない作品フォルダがあります: W/s/lost");
    assert_eq!(issues[0].suggestions[1], "不要ならディレクトリを削除する: W/s/lost");
}

fn health(id: u64, needs_update: bool, needs_convert: bool) -> DoctorRecordHealth {
    DoctorRecordHealth {
        id,
        site: String::from("s"),
        title: String::from("t"),
        novel_dir: String::from("d"),
        novel_dir_exists: true,
        toc_exists: true,
        expected_episodes: 1,
        section_files: 1,
        raw_files: 0,
        txt_exists: true,
        epub_files: 1,
        ok: !(needs_update || needs_convert),
        needs_update,
        needs_convert,
        suggestions: Vec::new(),
    }
}

#[test]
fn plans_a_dry_run_repair() {
    let options = RepairOptions { dry_run: true, prune: true, ids: vec![1, 2], site: None, query: None };
    let records = vec![health(1, true, true), health(2, false, true), health(3, true, false)];
    let issues = vec![
        issue("error", "record.x", Some(1)),
        issue("error", "record.y", Some(3)),
        issue("warning", "archive.orphan_dir", None),
    ];
    let s = repair_dry_run(String::from("W"), &options, &records, &vec![String::from("W/o")], issues);
    assert!(s.dry_run && s.prune);
    assert_eq!(s.planned_update_ids, vec![1]);
    assert_eq!(s.planned_convert_ids, vec![2]);
    assert_eq!(s.pruned_dirs, vec![String::from("W/o")]);
    assert_eq!(s.unresolved_issues.len(), 2);
    assert_eq!(s.exit_code(), 3);
    let (done, skipped) = split_conversions(&vec![4, 5, 6], &vec![true, false, true]);
    assert_eq!(done, vec![4, 6]);
    assert_eq!(skipped, vec![5]);
    let empty = RepairSummary { skipped_ids: vec![5], unresolved_issues: Vec::new(), ..s };
    assert_eq!(empty.exit_code(), 0);
}

fn record() -> NovelRecord {
    let mut r = novel(7, "カクヨム", "f");
    r.title = String::from("題");
    r.author = String::from("作");
    r.toc_url = String::from("https://kakuyomu.jp/works/1");
    r.all_episodes = 12;
    r
}

#[test]
fn renders_batch_summary() {
    let ok = DownloadSummary { record: record(), episodes_downloaded: 3, epub: None };
    let items = vec![
        BatchDownloadItem { target: String::from("n1a"), result: Ok(ok) },
        BatchDownloadItem { target: String::from("bad"), result: Err(String::from("error_report:")) },
    ];
    let s = BatchDownloadSummary::new(
        String::from("D:\\work\\urls.txt"),
        String::from("D:\\work\\narou_batch\\batch_download_success.txt"),
        String::from("D:\\work\\narou_batch\\batch_download_failed.txt"),
        String::from("D:\\work\\narou_batch\\batch_download_summary.txt"),
        items,
    );
    assert_eq!((s.total, s.success, s.failed), (2, 1, 1));
    assert_eq!(s.targets(true), vec![String::from("n1a")]);
    assert_eq!(s.targets(false), vec![String::from("bad")]);
    assert_eq!(
        s.to_text(),
        "input_file: D:\\work\\urls.txt\ntotal: 2\nsuccess: 1\nfailed: 1\nsuccess_file: D:\\work\\narou_batch\\batch_download_success.txt\nfailed_file: D:\\work\\narou_batch\\batch_download_failed.txt"
    );
    assert_eq!(join_lines(&s.targets(true)), "n1a\n");
    assert_eq!(join_lines(&Vec::new()), "");
}

#[test]
fn reads_batch_file_lines() {
    let text = "https://ncode.syosetu.com/n2839il/\r\n n9669bk \n# comment\n\n  \nhttps://kakuyomu.jp/works/4852201425154905871";
    assert_eq!(
        batch_targets(text),
        vec![
            String::from("https://ncode.syosetu.com/n2839il/"),
            String::from("n9669bk"),
            String::from("https://kakuyomu.jp/works/4852201425154905871"),
        ]
    );
}

#[test]
fn renders_inspect_summary() {
    let mut s = InspectSummary {
        record: record(),
        workspace: String::from("W"),
        novel_dir: String::from("W/d"),
        toc_path: String::from("W/d/toc.yaml"),
        txt_path: String::from("W/d/f.txt"),
        raw_dir: String::from("W/d/raw"),
        section_dir: String::from("W/d/本文"),
        epub_files: Vec::new(),
    };
    assert_eq!(
        s.to_text(),
        "id: 7\nsite: カクヨム\ntitle: 題\nauthor: 作\ntoc_url: https://kakuyomu.jp/works/1\nepisodes: 12\nworkspace: W\nnovel_dir: W/d\ntoc_path: W/d/toc.yaml\ntxt_path: W/d/f.txt\nraw_dir: W/d/raw\nsection_dir: W/d/本文\nepub_files: none"
    );
    s.epub_files = vec![String::from("a.epub"), String::from("b.epub")];
    assert!(s.to_text().ends_with("section_dir: W/d/本文\nepub_files:\n- a.epub\n- b.epub"));
    let e = EpubSummary { txt_path: String::from("t"), epub_path: String::from("e") };
    assert_eq!(e.epub_path, "e");
}

#[test]
fn classifies_errors_without_case() {
    let report = format_error_report("NCODE NOT FOUND IN URL: X", &Vec::new(), &ErrorContext::new());
    assert!(report.starts_with("error_report:\n  code: invalid_target.url_missing_ncode\n  stage: input\n"));
    assert!(report.contains("  causes: []"));
    let empty = format_error_report("Target Is Empty", &Vec::new(), &ErrorContext::new().target(String::from("x")));
    assert!(empty.contains("  code: invalid_target.empty"));
    assert!(empty.contains("  target: \"x\""));
}

#[test]
fn reports_a_finished_repair() {
    let options = RepairOptions { dry_run: false, prune: false, ids: vec![1, 2], site: None, query: None };
    let before = vec![health(1, true, true), health(2, false, true), health(3, true, false)];
    let after_update = vec![health(1, false, true), health(2, false, true), health(3, true, true)];
    let orphans = vec![String::from("W/a"), String::from("W/b")];
    let issues = vec![issue("warning", "record.x", Some(2)), issue("warning", "archive.orphan_dir", None)];
    let s = repair_finished(
        String::from("W"), &options, &before, &after_update, &orphans, &vec![true, false],
        vec![1], &vec![true, false], issues,
    );
    assert!(!s.dry_run && !s.prune);
    assert_eq!(s.planned_update_ids, vec![1]);
    assert_eq!(s.planned_convert_ids, vec![1, 2]);
    assert_eq!(s.updated_ids, vec![1]);
    assert_eq!(s.converted_ids, vec![1]);
    assert_eq!(s.skipped_ids, vec![2]);
    assert!(s.pruned_dirs.is_empty());
    assert_eq!(s.unresolved_issues.len(), 1);
    assert_eq!(s.exit_code(), 2);
    let pruning = RepairOptions { prune: true, ..options };
    let p = repair_finished(
        String::from("W"), &pruning, &before, &after_update, &orphans, &vec![true, false],
        Vec::new(), &vec![true, true], Vec::new(),
    );
    assert_eq!(p.pruned_dirs, vec![String::from("W/a")]);
    assert_eq!(p.exit_code(), 0);
}

#[test]
fn builds_batch_summary_from_outcomes() {
    let ok = DownloadSummary { record: record(), episodes_downloaded: 3, epub: None };
    let targets = batch_targets("n1a\n# skip\nbad\n");
    let s = BatchDownloadSummary::from_outcomes(
        String::from("in"), String::from("ok"), String::from("ng"), String::from("sum"),
        targets, vec![Ok(ok), Err(String::from("error_report:"))],
    );
    assert_eq!(s.items.len(), 2);
    assert_eq!(s.items[0].target, "n1a");
    assert_eq!(s.items[1].target, "bad");
    assert!(s.items[1].result.is_err());
    assert_eq!((s.total, s.success, s.failed), (2, 1, 1));
    assert_eq!(join_lines(&s.targets(false)), "bad\n");
}
