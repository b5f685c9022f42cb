//! Health checks of a workspace: issues found, per-record health, the
//! filters that narrow a report, and its text rendering.

use vstd::prelude::*;
use crate::text::{
    chars_of, decimal, join_lines_with, join_seq, push_all, push_str, string_of, u64_to_decimal,
    views,
};
use crate::convert::string_views;
use crate::model::{ascii_lower, ascii_lower_v, NovelRecord, Toc};
use crate::text::{clone_strings, contains_chars, contains_seq, starts_with, starts_with_chars, trim, trim_chars};

verus! {

/// The result of one environment check.
#[derive(Debug, Clone)]
pub struct DoctorCheck {
    pub ok: bool,
    pub detail: String,
}

/// Where AozoraEpub3 was looked for and found.
#[derive(Debug, Clone)]
pub struct DoctorAozoraSummary {
    pub requested_path: Option<String>,
    pub resolved_path: Option<String>,
    pub jar_path: Option<String>,
    pub ok: bool,
    pub detail: String,
}

/// The archive folder and the novel folders no record points to.
#[derive(Debug, Clone)]
pub struct DoctorArchiveSummary {
    pub archive_root: String,
    pub archive_root_exists: bool,
    pub orphan_dirs: Vec<String>,
}

/// A problem found, with its level (`error` or `warning`), code, the record
/// it concerns if any, and suggested commands.
#[derive(Debug, Clone)]
pub struct DoctorIssue {
    pub level: String,
    pub code: String,
    pub summary: String,
    pub record_id: Option<u64>,
    pub suggestions: Vec<String>,
}

/// The health of one saved novel.
#[derive(Debug, Clone)]
pub struct DoctorRecordHealth {
    pub id: u64,
    pub site: String,
    pub title: String,
    pub novel_dir: String,
    pub novel_dir_exists: bool,
    pub toc_exists: bool,
    pub expected_episodes: usize,
    pub section_files: usize,
    pub raw_files: usize,
    pub txt_exists: bool,
    pub epub_files: usize,
    pub ok: bool,
    pub needs_update: bool,
    pub needs_convert: bool,
    pub suggestions: Vec<String>,
}

/// Which records a report covers: ids (all when empty), a site substring
/// and a query substring, both matched without ASCII case.
#[derive(Debug, Clone, Default)]
pub struct DoctorOptions {
    pub ids: Vec<u64>,
    pub site: Option<String>,
    pub query: Option<String>,
}

/// The settings in effect; the interval settings are kept as the decimal
/// text they print as.
#[derive(Debug, Clone)]
pub struct DoctorConfigSummary {
    pub download_interval_secs: String,
    pub update_interval_secs: String,
    pub download_wait_steps: u64,
    pub retry_limit: usize,
    pub retry_wait_secs: String,
    pub long_wait_secs: String,
}

/// A full health report of a workspace.
#[derive(Debug, Clone)]
pub struct DoctorSummary {
    pub workspace: String,
    pub workspace_exists: bool,
    pub narou_dir: String,
    pub narou_dir_exists: bool,
    pub database_path: String,
    pub database_exists: bool,
    pub local_setting_path: String,
    pub local_setting_exists: bool,
    pub global_setting_path: String,
    pub global_setting_exists: bool,
    pub saved_records: usize,
    pub config: DoctorConfigSummary,
    pub java: DoctorCheck,
    pub aozora: DoctorAozoraSummary,
    pub archive: DoctorArchiveSummary,
    pub issues: Vec<DoctorIssue>,
    pub records: Vec<DoctorRecordHealth>,
}

/// Number of issues of the given level.
pub open spec fn count_level(issues: Seq<DoctorIssue>, level: Seq<char>) -> nat
    decreases issues.len(),
{
    if issues.len() == 0 {
        0
    } else {
        count_level(issues.drop_last(), level) + if issues.last().level@ == level {
            1nat
        } else {
            0nat
        }
    }
}

pub fn count_issues(issues: &Vec<DoctorIssue>, level: &str) -> (res: usize)
    ensures
        res == count_level(issues@, level@),
{
    let lv = chars_of(level);
    let mut n: usize = 0;
    let mut i: usize = 0;
    while i < issues.len()
        invariant
            i <= issues.len(),
            lv@ == level@,
            n == count_level(issues@.take(i as int), level@),
            n <= i,
        decreases issues.len() - i,
    {
        assert(issues@.take(i + 1).drop_last() =~= issues@.take(i as int));
        let l = chars_of(issues[i].level.as_str());
        if crate::text::seq_eq(&l, &lv) {
            n = n + 1;
        }
        i = i + 1;
    }
    assert(issues@.take(issues.len() as int) =~= issues@);
    n
}

pub open spec fn bool_text(b: bool) -> Seq<char> {
    if b {
        "true"@
    } else {
        "false"@
    }
}

pub fn bool_to_string(b: bool) -> (res: &'static str)
    ensures
        res@ == bool_text(b),
{
    if b {
        "true"
    } else {
        "false"
    }
}

/// The exit status of a report: 3 with errors, 2 with warnings, else 0.
pub open spec fn doctor_exit_code_spec(issues: Seq<DoctorIssue>) -> i32 {
    if count_level(issues, "error"@) > 0 {
        3
    } else if count_level(issues, "warning"@) > 0 {
        2
    } else {
        0
    }
}

/// `- [level] code: summary` and the suggestions of each issue.
pub open spec fn issue_detail_lines(issues: Seq<DoctorIssue>, with_suggestions: bool) -> Seq<
    Seq<char>,
>
    decreases issues.len(),
{
    if issues.len() == 0 {
        Seq::empty()
    } else {
        let it = issues.last();
        issue_detail_lines(issues.drop_last(), with_suggestions) + seq![
            "- ["@ + it.level@ + "] "@ + it.code@ + ": "@ + it.summary@,
        ] + if with_suggestions {
            suggestion_lines(string_views(it.suggestions@))
        } else {
            Seq::empty()
        }
    }
}

pub open spec fn suggestion_lines(s: Seq<Seq<char>>) -> Seq<Seq<char>> {
    s.map_values(|x: Seq<char>| "  suggestion: "@ + x)
}

pub(crate) fn push_chars(lines: &mut Vec<Vec<char>>, v: Vec<char>)
    ensures
        views(final(lines)@) == views(old(lines)@).push(v@),
{
    let ghost w = v@;
    lines.push(v);
    assert(views(lines@) =~= views(old(lines)@).push(w));
}

pub(crate) fn labeled(label: &str, value: &str) -> (res: Vec<char>)
    ensures
        res@ == label@ + value@,
{
    let mut out = chars_of(label);
    push_str(&mut out, value);
    out
}

fn push_suggestions(lines: &mut Vec<Vec<char>>, items: &Vec<String>)
    ensures
        views(final(lines)@) == views(old(lines)@) + suggestion_lines(string_views(items@)),
{
    let ghost start = views(lines@);
    let ghost all = suggestion_lines(string_views(items@));
    let mut i: usize = 0;
    while i < items.len()
        invariant
            i <= items.len(),
            all == suggestion_lines(string_views(items@)),
            views(lines@) == start + all.take(i as int),
        decreases items.len() - i,
    {
        push_chars(lines, labeled("  suggestion: ", items[i].as_str()));
        assert(all.take(i + 1) =~= all.take(i as int).push(all[i as int]));
        i = i + 1;
    }
    assert(all.take(items.len() as int) =~= all);
}

pub(crate) fn push_issue_details(
    lines: &mut Vec<Vec<char>>,
    issues: &Vec<DoctorIssue>,
    with_suggestions: bool,
)
    ensures
        views(final(lines)@) == views(old(lines)@) + issue_detail_lines(issues@, with_suggestions),
{
    let ghost start = views(lines@);
    let mut i: usize = 0;
    while i < issues.len()
        invariant
            i <= issues.len(),
            views(lines@) == start + issue_detail_lines(issues@.take(i as int), with_suggestions),
        decreases issues.len() - i,
    {
        assert(issues@.take(i + 1).drop_last() =~= issues@.take(i as int));
        let it = &issues[i];
        let mut line = chars_of("- [");
        push_str(&mut line, it.level.as_str());
        push_str(&mut line, "] ");
        push_str(&mut line, it.code.as_str());
        push_str(&mut line, ": ");
        push_str(&mut line, it.summary.as_str());
        let ghost mid0 = views(lines@);
        push_chars(lines, line);
        let ghost mid = views(lines@);
        if with_suggestions {
            push_suggestions(lines, &it.suggestions);
        }
        assert(views(lines@) =~= start + issue_detail_lines(
            issues@.take(i + 1),
            with_suggestions,
        ));
        i = i + 1;
    }
    assert(issues@.take(issues.len() as int) =~= issues@);
}

pub open spec fn or_text(o: Option<String>, default: Seq<char>) -> Seq<char> {
    match o {
        Some(s) => s@,
        None => default,
    }
}

/// The head of a doctor report: paths, settings, environment and counts.
pub open spec fn doctor_head_lines(d: DoctorSummary) -> Seq<Seq<char>> {
    seq![
        "workspace: "@ + d.workspace@,
        "workspace_exists: "@ + bool_text(d.workspace_exists),
        "narou_dir: "@ + d.narou_dir@,
        "narou_dir_exists: "@ + bool_text(d.narou_dir_exists),
        "database_path: "@ + d.database_path@,
        "database_exists: "@ + bool_text(d.database_exists),
        "local_setting_path: "@ + d.local_setting_path@,
        "local_setting_exists: "@ + bool_text(d.local_setting_exists),
        "global_setting_path: "@ + d.global_setting_path@,
        "global_setting_exists: "@ + bool_text(d.global_setting_exists),
        "saved_records: "@ + decimal(d.saved_records as nat),
        "config:"@,
        "  download_interval_secs: "@ + d.config.download_interval_secs@,
        "  update_interval_secs: "@ + d.config.update_interval_secs@,
        "  download_wait_steps: "@ + decimal(d.config.download_wait_steps as nat),
        "  retry_limit: "@ + decimal(d.config.retry_limit as nat),
        "  retry_wait_secs: "@ + d.config.retry_wait_secs@,
        "  long_wait_secs: "@ + d.config.long_wait_secs@,
        "java_ok: "@ + bool_text(d.java.ok),
        "java_detail: "@ + d.java.detail@,
        "aozora_requested_path: "@ + or_text(d.aozora.requested_path, "(auto)"@),
        "aozora_resolved_path: "@ + or_text(d.aozora.resolved_path, "(not found)"@),
        "aozora_jar_path: "@ + or_text(d.aozora.jar_path, "(not found)"@),
        "aozora_ok: "@ + bool_text(d.aozora.ok),
        "aozora_detail: "@ + d.aozora.detail@,
        "archive_root: "@ + d.archive.archive_root@,
        "archive_root_exists: "@ + bool_text(d.archive.archive_root_exists),
        "orphan_dirs: "@ + decimal(d.archive.orphan_dirs@.len()),
        "issues: total="@ + decimal(d.issues@.len()) + " error="@ + decimal(
            count_level(d.issues@, "error"@),
        ) + " warning="@ + decimal(count_level(d.issues@, "warning"@)),
    ]
}

/// The health line of one record.
pub open spec fn record_health_line(r: DoctorRecordHealth) -> Seq<char> {
    "- id="@ + decimal(r.id as nat) + " ok="@ + bool_text(r.ok) + " site="@ + r.site@
        + " title="@ + r.title@ + " toc="@ + bool_text(r.toc_exists) + " sections="@ + decimal(
        r.section_files as nat,
    ) + "/"@ + decimal(r.expected_episodes as nat) + " raw="@ + decimal(r.raw_files as nat)
        + " txt="@ + bool_text(r.txt_exists) + " epub="@ + decimal(r.epub_files as nat)
        + " needs_update="@ + bool_text(r.needs_update) + " needs_convert="@ + bool_text(
        r.needs_convert,
    )
}

pub open spec fn record_health_lines(rs: Seq<DoctorRecordHealth>) -> Seq<Seq<char>>
    decreases rs.len(),
{
    if rs.len() == 0 {
        Seq::empty()
    } else {
        record_health_lines(rs.drop_last()) + seq![record_health_line(rs.last())]
            + suggestion_lines(string_views(rs.last().suggestions@))
    }
}

/// All lines of the text form of a doctor report.
pub open spec fn doctor_text_lines(d: DoctorSummary) -> Seq<Seq<char>> {
    doctor_head_lines(d) + (if d.issues@.len() > 0 {
        seq!["issue_details:"@] + issue_detail_lines(d.issues@, true)
    } else {
        Seq::empty()
    }) + (if d.records@.len() > 0 {
        seq!["record_health:"@] + record_health_lines(d.records@)
    } else {
        Seq::empty()
    })
}

fn or_default<'a>(o: &'a Option<String>, default: &'a str) -> (res: &'a str)
    ensures
        res@ == or_text(*o, default@),
{
    match o {
        Some(s) => s.as_str(),
        None => default,
    }
}

pub(crate) fn num_text(n: u64) -> (res: String)
    ensures
        res@ == decimal(n as nat),
{
    string_of(&u64_to_decimal(n))
}

fn record_health_line_v(r: &DoctorRecordHealth) -> (res: Vec<char>)
    ensures
        res@ == record_health_line(*r),
{
    let mut l = chars_of("- id=");
    push_str(&mut l, num_text(r.id).as_str());
    push_str(&mut l, " ok=");
    push_str(&mut l, bool_to_string(r.ok));
    push_str(&mut l, " site=");
    push_str(&mut l, r.site.as_str());
    push_str(&mut l, " title=");
    push_str(&mut l, r.title.as_str());
    push_str(&mut l, " toc=");
    push_str(&mut l, bool_to_string(r.toc_exists));
    push_str(&mut l, " sections=");
    push_str(&mut l, num_text(r.section_files as u64).as_str());
    push_str(&mut l, "/");
    push_str(&mut l, num_text(r.expected_episodes as u64).as_str());
    push_str(&mut l, " raw=");
    push_str(&mut l, num_text(r.raw_files as u64).as_str());
    push_str(&mut l, " txt=");
    push_str(&mut l, bool_to_string(r.txt_exists));
    push_str(&mut l, " epub=");
    push_str(&mut l, num_text(r.epub_files as u64).as_str());
    push_str(&mut l, " needs_update=");
    push_str(&mut l, bool_to_string(r.needs_update));
    push_str(&mut l, " needs_convert=");
    push_str(&mut l, bool_to_string(r.needs_convert));
    l
}

fn push_record_health(lines: &mut Vec<Vec<char>>, rs: &Vec<DoctorRecordHealth>)
    ensures
        views(final(lines)@) == views(old(lines)@) + record_health_lines(rs@),
{
    let ghost start = views(lines@);
    let mut i: usize = 0;
    while i < rs.len()
        invariant
            i <= rs.len(),
            views(lines@) == start + record_health_lines(rs@.take(i as int)),
        decreases rs.len() - i,
    {
        assert(rs@.take(i + 1).drop_last() =~= rs@.take(i as int));
        push_chars(lines, record_health_line_v(&rs[i]));
        push_suggestions(lines, &rs[i].suggestions);
        assert(views(lines@) =~= start + record_health_lines(rs@.take(i + 1)));
        i = i + 1;
    }
    assert(rs@.take(rs.len() as int) =~= rs@);
}

impl DoctorSummary {
    /// Number of issues at level `error`.
    pub fn error_count(&self) -> (res: usize)
        ensures
            res == count_level(self.issues@, "error"@),
    {
        count_issues(&self.issues, "error")
    }

    /// Number of issues at level `warning`.
    pub fn warning_count(&self) -> (res: usize)
        ensures
            res == count_level(self.issues@, "warning"@),
    {
        count_issues(&self.issues, "warning")
    }

    /// 3 when there are errors, 2 when there are only warnings, else 0.
    pub fn exit_code(&self) -> (res: i32)
        ensures
            res == doctor_exit_code_spec(self.issues@),
    {
        if self.error_count() > 0 {
            3
        } else if self.warning_count() > 0 {
            2
        } else {
            0
        }
    }

    #[verifier::rlimit(60)]
    fn head_lines(&self) -> (res: Vec<Vec<char>>)
        ensures
            views(res@) == doctor_head_lines(*self),
    {
        let mut lines: Vec<Vec<char>> = Vec::new();
        push_chars(&mut lines, labeled("workspace: ", self.workspace.as_str()));
        push_chars(&mut lines, labeled("workspace_exists: ", bool_to_string(self.workspace_exists)));
        push_chars(&mut lines, labeled("narou_dir: ", self.narou_dir.as_str()));
        push_chars(&mut lines, labeled("narou_dir_exists: ", bool_to_string(self.narou_dir_exists)));
        push_chars(&mut lines, labeled("database_path: ", self.database_path.as_str()));
        push_chars(&mut lines, labeled("database_exists: ", bool_to_string(self.database_exists)));
        push_chars(&mut lines, labeled("local_setting_path: ", self.local_setting_path.as_str()));
        push_chars(
            &mut lines,
            labeled("local_setting_exists: ", bool_to_string(self.local_setting_exists)),
        );
        push_chars(&mut lines, labeled("global_setting_path: ", self.global_setting_path.as_str()));
        push_chars(
            &mut lines,
            labeled("global_setting_exists: ", bool_to_string(self.global_setting_exists)),
        );
        push_chars(&mut lines, labeled("saved_records: ", num_text(self.saved_records as u64).as_str()));
        push_chars(&mut lines, chars_of("config:"));
        push_chars(
            &mut lines,
            labeled("  download_interval_secs: ", self.config.download_interval_secs.as_str()),
        );
        push_chars(
            &mut lines,
            labeled("  update_interval_secs: ", self.config.update_interval_secs.as_str()),
        );
        push_chars(
            &mut lines,
            labeled("  download_wait_steps: ", num_text(self.config.download_wait_steps).as_str()),
        );
        push_chars(
            &mut lines,
            labeled("  retry_limit: ", num_text(self.config.retry_limit as u64).as_str()),
        );
        push_chars(&mut lines, labeled("  retry_wait_secs: ", self.config.retry_wait_secs.as_str()));
        push_chars(&mut lines, labeled("  long_wait_secs: ", self.config.long_wait_secs.as_str()));
        push_chars(&mut lines, labeled("java_ok: ", bool_to_string(self.java.ok)));
        push_chars(&mut lines, labeled("java_detail: ", self.java.detail.as_str()));
        push_chars(
            &mut lines,
            labeled("aozora_requested_path: ", or_default(&self.aozora.requested_path, "(auto)")),
        );
        push_chars(
            &mut lines,
            labeled("aozora_resolved_path: ", or_default(&self.aozora.resolved_path, "(not found)")),
        );
        push_chars(
            &mut lines,
            labeled("aozora_jar_path: ", or_default(&self.aozora.jar_path, "(not found)")),
        );
        push_chars(&mut lines, labeled("aozora_ok: ", bool_to_string(self.aozora.ok)));
        push_chars(&mut lines, labeled("aozora_detail: ", self.aozora.detail.as_str()));
        push_chars(&mut lines, labeled("archive_root: ", self.archive.archive_root.as_str()));
        push_chars(
            &mut lines,
            labeled("archive_root_exists: ", bool_to_string(self.archive.archive_root_exists)),
        );
        push_chars(
            &mut lines,
            labeled("orphan_dirs: ", num_text(self.archive.orphan_dirs.len() as u64).as_str()),
        );
        let mut l = chars_of("issues: total=");
        push_str(&mut l, num_text(self.issues.len() as u64).as_str());
        push_str(&mut l, " error=");
        push_str(&mut l, num_text(self.error_count() as u64).as_str());
        push_str(&mut l, " warning=");
        push_str(&mut l, num_text(self.warning_count() as u64).as_str());
        push_chars(&mut lines, l);
        assert(views(lines@) =~= doctor_head_lines(*self));
        lines
    }

    /// The text form of the report.
    pub fn to_text(&self) -> (res: String)
        ensures
            res@ == join_seq(doctor_text_lines(*self), "\n"@),
    {
        let mut lines = self.head_lines();
        let ghost head = views(lines@);
        if self.issues.len() > 0 {
            push_chars(&mut lines, chars_of("issue_details:"));
            push_issue_details(&mut lines, &self.issues, true);
        }
        let ghost mid = views(lines@);
        if self.records.len() > 0 {
            push_chars(&mut lines, chars_of("record_health:"));
            push_record_health(&mut lines, &self.records);
        }
        assert(views(lines@) =~= doctor_text_lines(*self));
        let nl = chars_of("\n");
        string_of(&join_lines_with(&lines, &nl))
    }
}


/// The site or query filter as applied: trimmed and ASCII lower-cased; no
/// filter when absent or empty.
pub open spec fn filter_text(o: Option<String>) -> Option<Seq<char>> {
    match o {
        Some(x) => if ascii_lower(trim(x@)).len() > 0 {
            Some(ascii_lower(trim(x@)))
        } else {
            None
        },
        None => None,
    }
}

pub open spec fn contains_lower(hay: Seq<char>, needle: Seq<char>) -> bool {
    contains_seq(ascii_lower(hay), needle)
}

/// A record passes the id, site and query filters of `options`.
pub open spec fn keeps_record(r: DoctorRecordHealth, options: DoctorOptions) -> bool {
    &&& (options.ids@.len() == 0 || options.ids@.contains(r.id))
    &&& match filter_text(options.site) {
        Some(site) => contains_lower(r.site@, site),
        None => true,
    }
    &&& match filter_text(options.query) {
        Some(q) => contains_lower(r.title@, q) || contains_lower(r.site@, q) || contains_lower(
            r.novel_dir@,
            q,
        ),
        None => true,
    }
}

pub open spec fn filter_records(rs: Seq<DoctorRecordHealth>, options: DoctorOptions) -> Seq<
    DoctorRecordHealth,
>
    decreases rs.len(),
{
    if rs.len() == 0 {
        Seq::empty()
    } else {
        filter_records(rs.drop_last(), options) + if keeps_record(rs.last(), options) {
            seq![rs.last()]
        } else {
            Seq::empty()
        }
    }
}

pub fn ids_contain(ids: &Vec<u64>, id: u64) -> (r: bool)
    ensures
        r == ids@.contains(id),
{
    let mut i: usize = 0;
    while i < ids.len()
        invariant
            i <= ids.len(),
            forall|k: int| 0 <= k < i ==> ids@[k] != id,
        decreases ids.len() - i,
    {
        if ids[i] == id {
            assert(ids@[i as int] == id);
            return true;
        }
        i = i + 1;
    }
    false
}

fn filter_text_v(o: &Option<String>) -> (res: Option<Vec<char>>)
    ensures
        match res {
            Some(v) => filter_text(*o) == Some(v@),
            None => filter_text(*o) is None,
        },
{
    match o {
        Some(x) => {
            let l = ascii_lower_v(&trim_chars(&chars_of(x.as_str())));
            if l.len() > 0 {
                Some(l)
            } else {
                None
            }
        },
        None => None,
    }
}

fn contains_lower_v(hay: &String, needle: &Vec<char>) -> (r: bool)
    ensures
        r == contains_lower(hay@, needle@),
{
    let l = ascii_lower_v(&chars_of(hay.as_str()));
    contains_chars(&l, needle)
}

fn keeps_record_v(
    r: &DoctorRecordHealth,
    options: &DoctorOptions,
    site: &Option<Vec<char>>,
    query: &Option<Vec<char>>,
) -> (res: bool)
    requires
        match site {
            Some(v) => filter_text(options.site) == Some(v@),
            None => filter_text(options.site) is None,
        },
        match query {
            Some(v) => filter_text(options.query) == Some(v@),
            None => filter_text(options.query) is None,
        },
    ensures
        res == keeps_record(*r, *options),
{
    if options.ids.len() > 0 && !ids_contain(&options.ids, r.id) {
        return false;
    }
    match site {
        Some(s) => {
            if !contains_lower_v(&r.site, s) {
                return false;
            }
        },
        None => {},
    }
    match query {
        Some(q) => contains_lower_v(&r.title, q) || contains_lower_v(&r.site, q)
            || contains_lower_v(&r.novel_dir, q),
        None => true,
    }
}

/// Keeps, in order, the records that pass the filters of `options`.
pub fn apply_record_filters(records: &mut Vec<DoctorRecordHealth>, options: &DoctorOptions)
    ensures
        final(records)@ == filter_records(old(records)@, *options),
{
    let site = filter_text_v(&options.site);
    let query = filter_text_v(&options.query);
    let ghost orig = records@;
    let mut rest: Vec<DoctorRecordHealth> = Vec::new();
    std::mem::swap(records, &mut rest);
    let mut kept: Vec<DoctorRecordHealth> = Vec::new();
    let ghost mut i: int = 0;
    while rest.len() > 0
        invariant
            0 <= i <= orig.len(),
            rest@ == orig.skip(i),
            kept@ == filter_records(orig.take(i), *options),
            match site {
                Some(v) => filter_text(options.site) == Some(v@),
                None => filter_text(options.site) is None,
            },
            match query {
                Some(v) => filter_text(options.query) == Some(v@),
                None => filter_text(options.query) is None,
            },
        decreases rest.len(),
    {
        assert(orig.take(i + 1).drop_last() =~= orig.take(i));
        let r = rest.remove(0);
        assert(r == orig[i]);
        if keeps_record_v(&r, options, &site, &query) {
            kept.push(r);
        }
        proof {
            i = i + 1;
        }
        assert(rest@ =~= orig.skip(i));
        assert(kept@ =~= filter_records(orig.take(i), *options));
    }
    assert(orig.take(i) =~= orig);
    *records = kept;
}


/// An orphan folder passes the site and query filters of `options`.
pub open spec fn orphan_matches_spec(path: Seq<char>, options: DoctorOptions) -> bool {
    &&& match filter_text(options.site) {
        Some(site) => contains_lower(path, site),
        None => true,
    }
    &&& match filter_text(options.query) {
        Some(q) => contains_lower(path, q),
        None => true,
    }
}

pub fn orphan_matches(path: &String, options: &DoctorOptions) -> (r: bool)
    ensures
        r == orphan_matches_spec(path@, *options),
{
    let site = filter_text_v(&options.site);
    match site {
        Some(s) => {
            if !contains_lower_v(path, &s) {
                return false;
            }
        },
        None => {},
    }
    let query = filter_text_v(&options.query);
    match query {
        Some(q) => contains_lower_v(path, &q),
        None => true,
    }
}

pub open spec fn record_ids(rs: Seq<DoctorRecordHealth>) -> Seq<u64> {
    rs.map_values(|r: DoctorRecordHealth| r.id)
}

/// An issue stays in a report: a record issue when its record is listed,
/// an archive issue when some orphan folder passes the filters, any other
/// issue always.
pub open spec fn keeps_issue(
    issue: DoctorIssue,
    records: Seq<DoctorRecordHealth>,
    keep_archive: bool,
) -> bool {
    match issue.record_id {
        Some(id) => record_ids(records).contains(id),
        None => if starts_with(issue.code@, "archive."@) {
            keep_archive
        } else {
            true
        },
    }
}

pub open spec fn filter_issues_spec(
    issues: Seq<DoctorIssue>,
    records: Seq<DoctorRecordHealth>,
    keep_archive: bool,
) -> Seq<DoctorIssue>
    decreases issues.len(),
{
    if issues.len() == 0 {
        Seq::empty()
    } else {
        filter_issues_spec(issues.drop_last(), records, keep_archive) + if keeps_issue(
            issues.last(),
            records,
            keep_archive,
        ) {
            seq![issues.last()]
        } else {
            Seq::empty()
        }
    }
}

pub open spec fn any_orphan_matches(orphans: Seq<String>, options: DoctorOptions) -> bool {
    exists|k: int| 0 <= k < orphans.len() && orphan_matches_spec(#[trigger] orphans[k]@, options)
}

fn record_ids_contain(records: &Vec<DoctorRecordHealth>, id: u64) -> (r: bool)
    ensures
        r == record_ids(records@).contains(id),
{
    let mut i: usize = 0;
    while i < records.len()
        invariant
            i <= records.len(),
            forall|k: int| 0 <= k < i ==> records@[k].id != id,
        decreases records.len() - i,
    {
        if records[i].id == id {
            assert(record_ids(records@)[i as int] == id);
            return true;
        }
        i = i + 1;
    }
    assert forall|k: int| 0 <= k < record_ids(records@).len() implies record_ids(records@)[k]
        != id by {
        assert(record_ids(records@)[k] == records@[k].id);
    }
    false
}

/// Keeps, in order, the issues that concern listed records, archive issues
/// when an orphan folder passes the filters, and all other issues.
pub fn filter_issues(
    issues: Vec<DoctorIssue>,
    records: &Vec<DoctorRecordHealth>,
    archive: &DoctorArchiveSummary,
    options: &DoctorOptions,
) -> (res: Vec<DoctorIssue>)
    ensures
        res@ == filter_issues_spec(
            issues@,
            records@,
            any_orphan_matches(archive.orphan_dirs@, *options),
        ),
{
    let mut keep_archive = false;
    let mut k: usize = 0;
    while k < archive.orphan_dirs.len()
        invariant
            k <= archive.orphan_dirs.len(),
            keep_archive == exists|m: int|
                0 <= m < k && orphan_matches_spec(#[trigger] archive.orphan_dirs@[m]@, *options),
        decreases archive.orphan_dirs.len() - k,
    {
        if orphan_matches(&archive.orphan_dirs[k], options) {
            keep_archive = true;
        }
        k = k + 1;
    }
    let ghost orig = issues@;
    let mut rest = issues;
    let mut kept: Vec<DoctorIssue> = Vec::new();
    let ghost mut i: int = 0;
    let prefix = chars_of("archive.");
    while rest.len() > 0
        invariant
            0 <= i <= orig.len(),
            rest@ == orig.skip(i),
            prefix@ == "archive."@,
            kept@ == filter_issues_spec(orig.take(i), records@, keep_archive),
        decreases rest.len(),
    {
        assert(orig.take(i + 1).drop_last() =~= orig.take(i));
        let issue = rest.remove(0);
        assert(issue == orig[i]);
        let keep = match issue.record_id {
            Some(id) => record_ids_contain(records, id),
            None => if starts_with_chars(&chars_of(issue.code.as_str()), &prefix) {
                keep_archive
            } else {
                true
            },
        };
        if keep {
            kept.push(issue);
        }
        proof {
            i = i + 1;
        }
        assert(rest@ =~= orig.skip(i));
        assert(kept@ =~= filter_issues_spec(orig.take(i), records@, keep_archive));
    }
    assert(orig.take(i) =~= orig);
    kept
}

/// The fields of an issue as plain values.
pub open spec fn issue_view(i: DoctorIssue) -> (Seq<char>, Seq<char>, Seq<char>, Option<u64>, Seq<
    Seq<char>,
>) {
    (i.level@, i.code@, i.summary@, i.record_id, string_views(i.suggestions@))
}

pub open spec fn issue_views(s: Seq<DoctorIssue>) -> Seq<
    (Seq<char>, Seq<char>, Seq<char>, Option<u64>, Seq<Seq<char>>),
> {
    s.map_values(|i: DoctorIssue| issue_view(i))
}

/// The environment issues, in order: missing database (warning), missing
/// Java (error), unavailable AozoraEpub3 (warning).
pub open spec fn environment_issues(
    java: DoctorCheck,
    aozora: DoctorAozoraSummary,
    database_exists: bool,
) -> Seq<(Seq<char>, Seq<char>, Seq<char>, Option<u64>, Seq<Seq<char>>)> {
    (if !database_exists {
        seq![
            (
                "warning"@,
                "workspace.database_missing"@,
                "database.yaml がまだありません"@,
                None,
                seq![
                    "最初の作品を download すると自動で作成されます"@,
                    "既存データがあるはずなら workspace の指定先を見直す"@,
                ],
            ),
        ]
    } else {
        Seq::empty()
    }) + (if !java.ok {
        seq![
            (
                "error"@,
                "environment.java_missing"@,
                "Java が利用できません: "@ + java.detail@,
                None,
                seq!["Java をインストールする"@, "新しいターミナルで PATH を再読み込みする"@],
            ),
        ]
    } else {
        Seq::empty()
    }) + (if !aozora.ok {
        seq![
            (
                "warning"@,
                "environment.aozora_unavailable"@,
                aozora.detail@,
                None,
                seq![
                    "AozoraEpub3-1.1.1b30Q を workspace または親ディレクトリに置く"@,
                    "--aozora-dir で AozoraEpub3 の場所を指定する"@,
                ],
            ),
        ]
    } else {
        Seq::empty()
    })
}

fn two_strings(a: &str, b: &str) -> (res: Vec<String>)
    ensures
        string_views(res@) == seq![a@, b@],
{
    let mut v: Vec<String> = Vec::new();
    v.push(String::from_str(a));
    v.push(String::from_str(b));
    assert(string_views(v@) =~= seq![a@, b@]);
    v
}

fn push_issue(
    issues: &mut Vec<DoctorIssue>,
    level: &str,
    code: &str,
    summary: String,
    record_id: Option<u64>,
    suggestions: Vec<String>,
)
    ensures
        issue_views(final(issues)@) == issue_views(old(issues)@).push(
            (level@, code@, summary@, record_id, string_views(suggestions@)),
        ),
{
    let ghost sv = string_views(suggestions@);
    let ghost sm = summary@;
    issues.push(
        DoctorIssue {
            level: String::from_str(level),
            code: String::from_str(code),
            summary,
            record_id,
            suggestions,
        },
    );
    assert(issue_views(issues@) =~= issue_views(old(issues)@).push(
        (level@, code@, sm, record_id, sv),
    ));
}

/// Appends the issues about the environment: a missing database, a
/// missing Java, an unavailable AozoraEpub3.
pub fn append_environment_issues(
    issues: &mut Vec<DoctorIssue>,
    java: &DoctorCheck,
    aozora: &DoctorAozoraSummary,
    database_exists: bool,
)
    ensures
        issue_views(final(issues)@) == issue_views(old(issues)@) + environment_issues(
            *java,
            *aozora,
            database_exists,
        ),
{
    let ghost start = issue_views(issues@);
    if !database_exists {
        push_issue(
            issues,
            "warning",
            "workspace.database_missing",
            String::from_str("database.yaml がまだありません"),
            None,
            two_strings(
                "最初の作品を download すると自動で作成されます",
                "既存データがあるはずなら workspace の指定先を見直す",
            ),
        );
    }
    let ghost a = issue_views(issues@);
    if !java.ok {
        let mut summary = String::from_str("Java が利用できません: ");
        summary.append(java.detail.as_str());
        push_issue(
            issues,
            "error",
            "environment.java_missing",
            summary,
            None,
            two_strings("Java をインストールする", "新しいターミナルで PATH を再読み込みする"),
        );
    }
    let ghost b = issue_views(issues@);
    if !aozora.ok {
        push_issue(
            issues,
            "warning",
            "environment.aozora_unavailable",
            aozora.detail.clone(),
            None,
            two_strings(
                "AozoraEpub3-1.1.1b30Q を workspace または親ディレクトリに置く",
                "--aozora-dir で AozoraEpub3 の場所を指定する",
            ),
        );
    }
    assert(issue_views(issues@) =~= start + environment_issues(*java, *aozora, database_exists));
}

/// `values.push(value)` unless the value is already there.
pub open spec fn push_unique_spec(values: Seq<Seq<char>>, value: Seq<char>) -> Seq<Seq<char>> {
    if values.contains(value) {
        values
    } else {
        values.push(value)
    }
}

pub fn push_unique(values: &mut Vec<String>, value: String)
    ensures
        string_views(final(values)@) == push_unique_spec(string_views(old(values)@), value@),
{
    let v = chars_of(value.as_str());
    let mut i: usize = 0;
    while i < values.len()
        invariant
            i <= values.len(),
            v@ == value@,
            forall|k: int| 0 <= k < i ==> values@[k]@ != value@,
        decreases values.len() - i,
    {
        let item = chars_of(values[i].as_str());
        if crate::text::seq_eq(&item, &v) {
            assert(string_views(values@)[i as int] == value@);
            return;
        }
        i = i + 1;
    }
    assert(!string_views(values@).contains(value@)) by {
        assert forall|k: int| 0 <= k < string_views(values@).len() implies string_views(
            values@,
        )[k] != value@ by {
            assert(string_views(values@)[k] == values@[k]@);
        }
    }
    let ghost w = value@;
    values.push(value);
    assert(string_views(values@) =~= string_views(old(values)@).push(w));
}


/// What the filesystem shows of one saved novel.
#[derive(Debug, Clone)]
pub struct RecordFacts {
    /// The novel's folder, as displayed.
    pub novel_dir: String,
    pub novel_dir_exists: bool,
    pub toc_exists: bool,
    /// The saved table of contents, when it exists and could be read.
    pub toc: Option<Toc>,
    /// Counts of `.yaml` files in the episode folder, `.html` files in the
    /// raw folder and `.epub` files in the novel's folder.
    pub section_files: usize,
    pub raw_files: usize,
    pub txt_exists: bool,
    pub epub_files: usize,
}

pub open spec fn id_title(r: NovelRecord) -> Seq<char> {
    "id="@ + decimal(r.id as nat) + " title="@ + r.title@
}

pub open spec fn update_cmd(id: u64) -> Seq<char> {
    "narou_rust update "@ + decimal(id as nat)
}

pub open spec fn convert_cmd(id: u64) -> Seq<char> {
    "narou_rust convert "@ + decimal(id as nat)
}

pub open spec fn expected_episodes_spec(r: NovelRecord, f: RecordFacts) -> nat {
    match f.toc {
        Some(t) => t.subtitles@.len(),
        None => r.all_episodes as nat,
    }
}

pub open spec fn missing_sections(r: NovelRecord, f: RecordFacts) -> bool {
    expected_episodes_spec(r, f) > 0 && f.section_files < expected_episodes_spec(r, f)
}

pub open spec fn metadata_mismatch(r: NovelRecord, f: RecordFacts) -> bool {
    match f.toc {
        Some(t) => t.title@ != r.title@ || t.author@ != r.author@ || t.toc_url@ != r.toc_url@,
        None => false,
    }
}

/// The issues found for one record, in order.
pub open spec fn record_issues(r: NovelRecord, f: RecordFacts) -> Seq<
    (Seq<char>, Seq<char>, Seq<char>, Option<u64>, Seq<Seq<char>>),
> {
    (if !f.novel_dir_exists {
        seq![
            (
                "error"@,
                "record.missing_novel_dir"@,
                id_title(r) + " の作品フォルダがありません"@,
                Some(r.id),
                seq![update_cmd(r.id), "不要なら narou_rust remove "@ + decimal(r.id as nat)],
            ),
        ]
    } else {
        Seq::empty()
    }) + (if !f.toc_exists {
        seq![
            (
                "error"@,
                "record.missing_toc"@,
                id_title(r) + " の toc.yaml がありません"@,
                Some(r.id),
                seq![update_cmd(r.id)],
            ),
        ]
    } else {
        Seq::empty()
    }) + (if missing_sections(r, f) {
        seq![
            (
                "error"@,
                "record.missing_sections"@,
                id_title(r) + " の本文ファイルが不足しています ("@ + decimal(
                    f.section_files as nat,
                ) + "/"@ + decimal(expected_episodes_spec(r, f)) + ")"@,
                Some(r.id),
                seq![update_cmd(r.id)],
            ),
        ]
    } else {
        Seq::empty()
    }) + (if metadata_mismatch(r, f) {
        seq![
            (
                "warning"@,
                "record.metadata_mismatch"@,
                id_title(r) + " の database.yaml と toc.yaml のメタデータが一致していません"@,
                Some(r.id),
                seq![update_cmd(r.id)],
            ),
        ]
    } else {
        Seq::empty()
    })
}

/// The suggestions kept in a record's health.
pub open spec fn record_suggestions(r: NovelRecord, f: RecordFacts, aozora_ok: bool) -> Seq<
    Seq<char>,
> {
    let s1: Seq<Seq<char>> = if !f.toc_exists {
        seq![update_cmd(r.id)]
    } else {
        Seq::empty()
    };
    let s2 = if missing_sections(r, f) {
        push_unique_spec(s1, update_cmd(r.id))
    } else {
        s1
    };
    let s3 = if metadata_mismatch(r, f) {
        push_unique_spec(s2, update_cmd(r.id))
    } else {
        s2
    };
    s3 + if (!f.txt_exists && aozora_ok) || (f.txt_exists && f.epub_files == 0 && aozora_ok) {
        seq![convert_cmd(r.id)]
    } else {
        Seq::empty()
    }
}

/// The health of one record.
pub open spec fn record_health_is(
    h: DoctorRecordHealth,
    r: NovelRecord,
    f: RecordFacts,
    aozora_ok: bool,
) -> bool {
    &&& h.id == r.id
    &&& h.site@ == r.sitename@
    &&& h.title@ == r.title@
    &&& h.novel_dir@ == f.novel_dir@
    &&& h.novel_dir_exists == f.novel_dir_exists
    &&& h.toc_exists == f.toc_exists
    &&& h.expected_episodes == expected_episodes_spec(r, f)
    &&& h.section_files == f.section_files
    &&& h.raw_files == f.raw_files
    &&& h.txt_exists == f.txt_exists
    &&& h.epub_files == f.epub_files
    &&& h.ok == (f.novel_dir_exists && f.toc_exists && !missing_sections(r, f))
    &&& h.needs_update == (!f.novel_dir_exists || !f.toc_exists || missing_sections(r, f)
        || metadata_mismatch(r, f))
    &&& h.needs_convert == ((!f.txt_exists || f.epub_files == 0) && aozora_ok
        && f.novel_dir_exists && f.toc_exists)
    &&& string_views(h.suggestions@) == record_suggestions(r, f, aozora_ok)
}

fn cmd(prefix: &str, id: u64) -> (res: String)
    ensures
        res@ == prefix@ + decimal(id as nat),
{
    let mut v = chars_of(prefix);
    let d = u64_to_decimal(id);
    push_all(&mut v, &d);
    string_of(&v)
}

fn one_string(a: String) -> (res: Vec<String>)
    ensures
        string_views(res@) == seq![a@],
{
    let ghost w = a@;
    let mut v: Vec<String> = Vec::new();
    v.push(a);
    assert(string_views(v@) =~= seq![w]);
    v
}

fn id_title_v(r: &NovelRecord) -> (res: Vec<char>)
    ensures
        res@ == id_title(*r),
{
    let mut v = chars_of("id=");
    let d = u64_to_decimal(r.id);
    push_all(&mut v, &d);
    push_str(&mut v, " title=");
    push_str(&mut v, r.title.as_str());
    v
}

fn string_eq(a: &String, b: &String) -> (res: bool)
    ensures
        res == (a@ == b@),
{
    let x = chars_of(a.as_str());
    let y = chars_of(b.as_str());
    crate::text::seq_eq(&x, &y)
}

fn push_record_issues(issues: &mut Vec<DoctorIssue>, r: &NovelRecord, f: &RecordFacts, expected: usize)
    requires
        expected == expected_episodes_spec(*r, *f),
    ensures
        issue_views(final(issues)@) == issue_views(old(issues)@) + record_issues(*r, *f),
{
    let ghost start = issue_views(issues@);
    let it = id_title_v(r);
    if !f.novel_dir_exists {
        let mut sm = it.clone();
        push_str(&mut sm, " の作品フォルダがありません");
        let mut sugg: Vec<String> = Vec::new();
        sugg.push(cmd("narou_rust update ", r.id));
        sugg.push(cmd("不要なら narou_rust remove ", r.id));
        assert(string_views(sugg@) =~= seq![
            update_cmd(r.id),
            "不要なら narou_rust remove "@ + decimal(r.id as nat),
        ]);
        push_issue(issues, "error", "record.missing_novel_dir", string_of(&sm), Some(r.id), sugg);
    }
    let ghost a = issue_views(issues@);
    if !f.toc_exists {
        let mut sm = it.clone();
        push_str(&mut sm, " の toc.yaml がありません");
        push_issue(
            issues,
            "error",
            "record.missing_toc",
            string_of(&sm),
            Some(r.id),
            one_string(cmd("narou_rust update ", r.id)),
        );
    }
    let ghost b = issue_views(issues@);
    if expected > 0 && f.section_files < expected {
        let mut sm = it.clone();
        push_str(&mut sm, " の本文ファイルが不足しています (");
        let d1 = u64_to_decimal(f.section_files as u64);
        push_all(&mut sm, &d1);
        push_str(&mut sm, "/");
        let d2 = u64_to_decimal(expected as u64);
        push_all(&mut sm, &d2);
        push_str(&mut sm, ")");
        push_issue(
            issues,
            "error",
            "record.missing_sections",
            string_of(&sm),
            Some(r.id),
            one_string(cmd("narou_rust update ", r.id)),
        );
    }
    let ghost c = issue_views(issues@);
    let mismatch = match &f.toc {
        Some(t) => !string_eq(&t.title, &r.title) || !string_eq(&t.author, &r.author) || !string_eq(
            &t.toc_url,
            &r.toc_url,
        ),
        None => false,
    };
    if mismatch {
        let mut sm = it.clone();
        push_str(&mut sm, " の database.yaml と toc.yaml のメタデータが一致していません");
        push_issue(
            issues,
            "warning",
            "record.metadata_mismatch",
            string_of(&sm),
            Some(r.id),
            one_string(cmd("narou_rust update ", r.id)),
        );
    }
    assert(issue_views(issues@) =~= start + record_issues(*r, *f));
}

/// Checks one saved novel against what its folder holds: appends the issues
/// found and returns its health.
pub fn inspect_record(
    record: &NovelRecord,
    facts: &RecordFacts,
    aozora_ok: bool,
    issues: &mut Vec<DoctorIssue>,
) -> (res: DoctorRecordHealth)
    ensures
        issue_views(final(issues)@) == issue_views(old(issues)@) + record_issues(*record, *facts),
        record_health_is(res, *record, *facts, aozora_ok),
{
    let expected = match &facts.toc {
        Some(t) => t.subtitles.len(),
        None => record.all_episodes,
    };
    push_record_issues(issues, record, facts, expected);
    let missing = expected > 0 && facts.section_files < expected;
    let mismatch = match &facts.toc {
        Some(t) => !string_eq(&t.title, &record.title) || !string_eq(&t.author, &record.author)
            || !string_eq(&t.toc_url, &record.toc_url),
        None => false,
    };
    assert(missing == missing_sections(*record, *facts));
    assert(mismatch == metadata_mismatch(*record, *facts));
    let mut suggestions: Vec<String> = Vec::new();
    if !facts.toc_exists {
        suggestions.push(cmd("narou_rust update ", record.id));
    }
    let ghost s1: Seq<Seq<char>> = if !facts.toc_exists {
        seq![update_cmd(record.id)]
    } else {
        Seq::empty()
    };
    assert(string_views(suggestions@) =~= s1);
    if missing {
        push_unique(&mut suggestions, cmd("narou_rust update ", record.id));
    }
    let ghost s2 = if missing {
        push_unique_spec(s1, update_cmd(record.id))
    } else {
        s1
    };
    assert(string_views(suggestions@) == s2);
    if mismatch {
        push_unique(&mut suggestions, cmd("narou_rust update ", record.id));
    }
    let ghost s3 = string_views(suggestions@);
    if !facts.txt_exists {
        if aozora_ok {
            suggestions.push(cmd("narou_rust convert ", record.id));
        }
    } else if facts.epub_files == 0 && aozora_ok {
        suggestions.push(cmd("narou_rust convert ", record.id));
    }
    assert(string_views(suggestions@) =~= record_suggestions(*record, *facts, aozora_ok));
    DoctorRecordHealth {
        id: record.id,
        site: record.sitename.clone(),
        title: record.title.clone(),
        novel_dir: facts.novel_dir.clone(),
        novel_dir_exists: facts.novel_dir_exists,
        toc_exists: facts.toc_exists,
        expected_episodes: expected,
        section_files: facts.section_files,
        raw_files: facts.raw_files,
        txt_exists: facts.txt_exists,
        epub_files: facts.epub_files,
        ok: facts.novel_dir_exists && facts.toc_exists && !missing,
        needs_update: !facts.novel_dir_exists || !facts.toc_exists || missing || mismatch,
        needs_convert: (!facts.txt_exists || facts.epub_files == 0) && aozora_ok
            && facts.novel_dir_exists && facts.toc_exists,
        suggestions,
    }
}

/// All issues of records `0..n`, in order.
pub open spec fn records_issues(rs: Seq<NovelRecord>, fs: Seq<RecordFacts>, n: int) -> Seq<
    (Seq<char>, Seq<char>, Seq<char>, Option<u64>, Seq<Seq<char>>),
>
    decreases n,
{
    if n <= 0 {
        Seq::empty()
    } else {
        records_issues(rs, fs, n - 1) + record_issues(rs[n - 1], fs[n - 1])
    }
}

/// Checks every saved novel, in database order, appending the issues
/// found; `facts[i]` is what the filesystem shows of `records[i]`.
pub fn inspect_records(
    records: &Vec<NovelRecord>,
    facts: &Vec<RecordFacts>,
    aozora_ok: bool,
    issues: &mut Vec<DoctorIssue>,
) -> (res: Vec<DoctorRecordHealth>)
    requires
        records.len() == facts.len(),
    ensures
        res.len() == records.len(),
        forall|i: int|
            0 <= i < res.len() ==> record_health_is(
                #[trigger] res@[i],
                records@[i],
                facts@[i],
                aozora_ok,
            ),
        issue_views(final(issues)@) == issue_views(old(issues)@) + records_issues(
            records@,
            facts@,
            records.len() as int,
        ),
{
    let mut out: Vec<DoctorRecordHealth> = Vec::new();
    let mut i: usize = 0;
    while i < records.len()
        invariant
            i <= records.len() == facts.len(),
            out.len() == i,
            forall|k: int|
                0 <= k < i ==> record_health_is(#[trigger] out@[k], records@[k], facts@[k], aozora_ok),
            issue_views(issues@) == issue_views(old(issues)@) + records_issues(
                records@,
                facts@,
                i as int,
            ),
        decreases records.len() - i,
    {
        let h = inspect_record(&records[i], &facts[i], aozora_ok, issues);
        out.push(h);
        i = i + 1;
        assert(issue_views(issues@) =~= issue_views(old(issues)@) + records_issues(
            records@,
            facts@,
            i as int,
        ));
    }
    out
}


/// The first line of a text (`str::lines`), if it has one.
pub open spec fn first_line(s: Seq<char>) -> Option<Seq<char>> {
    if crate::text::lines_of(s).len() > 0 {
        Some(crate::text::lines_of(s)[0])
    } else {
        None
    }
}

fn first_line_exec(s: &str) -> (res: Option<String>)
    ensures
        crate::syosetu::opt_seq(res) == first_line(s@),
{
    let ls = crate::text::split_lines(&chars_of(s));
    if ls.len() > 0 {
        assert(views(ls@)[0] == ls@[0]@);
        Some(string_of(&ls[0]))
    } else {
        None
    }
}

/// What `java -version` tells: whether it exited successfully, and the
/// first line of its error output (or of its output when the error output
/// is empty), `java found` when there is none.
pub open spec fn java_check_spec(success: bool, stdout: Seq<char>, stderr: Seq<char>) -> (bool, Seq<char>) {
    let text = if stderr.len() == 0 {
        stdout
    } else {
        stderr
    };
    (
        success,
        match first_line(text) {
            Some(l) => l,
            None => "java found"@,
        },
    )
}

pub fn java_check(success: bool, stdout: &str, stderr: &str) -> (res: DoctorCheck)
    ensures
        (res.ok, res.detail@) == java_check_spec(success, stdout@, stderr@),
{
    let text = if chars_of(stderr).len() == 0 {
        stdout
    } else {
        stderr
    };
    let detail = match first_line_exec(text) {
        Some(l) => l,
        None => String::from_str("java found"),
    };
    DoctorCheck { ok: success, detail }
}

/// The check when `java` could not be started.
pub fn java_unavailable(error: &str) -> (res: DoctorCheck)
    ensures
        !res.ok,
        res.detail@ == "java not available: "@ + error@,
{
    let mut d = String::from_str("java not available: ");
    d.append(error);
    DoctorCheck { ok: false, detail: d }
}

/// Where AozoraEpub3 is: the folder found (`Ok`, with its jar path and
/// whether the jar exists) or why none was (`Err`).
pub fn aozora_summary(
    requested_path: Option<String>,
    resolved: Result<(String, String), String>,
    jar_exists: bool,
) -> (res: DoctorAozoraSummary)
    ensures
        crate::syosetu::opt_seq(res.requested_path) == crate::syosetu::opt_seq(requested_path),
        match resolved {
            Ok((dir, jar)) => {
                &&& crate::syosetu::opt_seq(res.resolved_path) == Some(dir@)
                &&& crate::syosetu::opt_seq(res.jar_path) == Some(jar@)
                &&& res.ok == jar_exists
                &&& res.detail@ == (if jar_exists {
                    "AozoraEpub3.jar found"@
                } else {
                    "AozoraEpub3.jar not found: "@ + jar@
                })
            },
            Err(m) => {
                &&& res.resolved_path is None
                &&& res.jar_path is None
                &&& !res.ok
                &&& res.detail@ == m@
            },
        },
{
    match resolved {
        Ok((dir, jar)) => {
            let detail = if jar_exists {
                String::from_str("AozoraEpub3.jar found")
            } else {
                let mut d = String::from_str("AozoraEpub3.jar not found: ");
                d.append(jar.as_str());
                d
            };
            DoctorAozoraSummary {
                requested_path,
                resolved_path: Some(dir),
                jar_path: Some(jar),
                ok: jar_exists,
                detail,
            }
        },
        Err(m) => DoctorAozoraSummary {
            requested_path,
            resolved_path: None,
            jar_path: None,
            ok: false,
            detail: m,
        },
    }
}

/// The warning for a novel folder that no record points to.
pub open spec fn orphan_issue_is(i: DoctorIssue, path: Seq<char>) -> bool {
    &&& i.level@ == "warning"@
    &&& i.code@ == "archive.orphan_dir"@
    &&& i.summary@ == "database.yaml に存在しない作品フォルダがあります: "@ + path
    &&& i.record_id is None
    &&& string_views(i.suggestions@) == seq![
        "必要なら database.yaml へ再登録するために download/update を実行する"@,
        "不要ならディレクトリを削除する: "@ + path,
    ]
}

pub fn orphan_issue(path: &str) -> (res: DoctorIssue)
    ensures
        orphan_issue_is(res, path@),
{
    let mut summary = String::from_str("database.yaml に存在しない作品フォルダがあります: ");
    summary.append(path);
    let mut remove = String::from_str("不要ならディレクトリを削除する: ");
    remove.append(path);
    let mut suggestions: Vec<String> = Vec::new();
    suggestions.push(String::from_str("必要なら database.yaml へ再登録するために download/update を実行する"));
    suggestions.push(remove);
    let ghost sv = string_views(suggestions@);
    assert(sv =~= seq![
        "必要なら database.yaml へ再登録するために download/update を実行する"@,
        "不要ならディレクトリを削除する: "@ + path@,
    ]);
    DoctorIssue {
        level: String::from_str("warning"),
        code: String::from_str("archive.orphan_dir"),
        summary,
        record_id: None,
        suggestions,
    }
}

/// A novel folder `(site, folder)` belongs to a record.
pub open spec fn known_dir(records: Seq<NovelRecord>, site: Seq<char>, folder: Seq<char>) -> bool {
    exists|k: int| 0 <= k < records.len() && #[trigger] records[k].sitename@ == site && records[k].file_title@ == folder
}

/// The orphan folders among those found: each as its site folder name,
/// novel folder name and displayed path.
pub open spec fn orphans_from(found: Seq<(String, String, String)>, records: Seq<NovelRecord>) -> Seq<Seq<char>>
    decreases found.len(),
{
    if found.len() == 0 {
        Seq::empty()
    } else if known_dir(records, found.last().0@, found.last().1@) {
        orphans_from(found.drop_last(), records)
    } else {
        orphans_from(found.drop_last(), records).push(found.last().2@)
    }
}

fn is_known(records: &Vec<NovelRecord>, site: &String, folder: &String) -> (r: bool)
    ensures
        r == known_dir(records@, site@, folder@),
{
    let mut i: usize = 0;
    while i < records.len()
        invariant
            i <= records.len(),
            forall|k: int| 0 <= k < i ==> !(#[trigger] records@[k].sitename@ == site@ && records@[k].file_title@ == folder@),
        decreases records.len() - i,
    {
        if crate::text::str_eq(records[i].sitename.as_str(), site.as_str()) && crate::text::str_eq(
            records[i].file_title.as_str(),
            folder.as_str(),
        ) {
            return true;
        }
        i = i + 1;
    }
    false
}

/// The novel folders of the archive that no record points to, with a
/// warning for each.
pub fn find_orphans(found: &Vec<(String, String, String)>, records: &Vec<NovelRecord>) -> (res: (Vec<String>, Vec<DoctorIssue>))
    ensures
        string_views(res.0@) == orphans_from(found@, records@),
        res.1@.len() == res.0@.len(),
        forall|k: int| 0 <= k < res.1@.len() ==> orphan_issue_is(#[trigger] res.1@[k], res.0@[k]@),
{
    let mut dirs: Vec<String> = Vec::new();
    let mut issues: Vec<DoctorIssue> = Vec::new();
    let mut i: usize = 0;
    while i < found.len()
        invariant
            i <= found.len(),
            string_views(dirs@) == orphans_from(found@.take(i as int), records@),
            issues@.len() == dirs@.len(),
            forall|k: int| 0 <= k < issues@.len() ==> orphan_issue_is(#[trigger] issues@[k], dirs@[k]@),
        decreases found.len() - i,
    {
        assert(found@.take(i + 1).drop_last() =~= found@.take(i as int));
        let (site, folder, shown) = (&found[i].0, &found[i].1, &found[i].2);
        if !is_known(records, site, folder) {
            let ghost before = dirs@;
            dirs.push(shown.clone());
            issues.push(orphan_issue(shown.as_str()));
            assert(string_views(dirs@) =~= string_views(before).push(shown@));
        }
        i = i + 1;
    }
    assert(found@.take(found.len() as int) =~= found@);
    (dirs, issues)
}

} // verus!
