//! Repair of a workspace: which records to update or convert, which issues
//! remain, and the text of a repair report.

use vstd::prelude::*;
use crate::text::{chars_of, decimal, join_lines_with, join_seq, push_all, push_str, string_of, u64_to_decimal, views, starts_with, starts_with_chars};
use crate::convert::string_views;
use crate::doctor::{
    bool_text, bool_to_string, count_issues, count_level, ids_contain, issue_detail_lines,
    labeled, num_text, push_chars, push_issue_details, DoctorIssue, DoctorRecordHealth,
};

verus! {

/// What a repair does: only plan (`dry_run`), also remove orphan folders
/// (`prune`), and which records (ids, all when empty; site and query).
#[derive(Debug, Clone)]
pub struct RepairOptions {
    pub dry_run: bool,
    pub prune: bool,
    pub ids: Vec<u64>,
    pub site: Option<String>,
    pub query: Option<String>,
}

impl Default for RepairOptions {
    fn default() -> (res: RepairOptions)
        ensures
            !res.dry_run,
            !res.prune,
            res.ids@.len() == 0,
            res.site is None,
            res.query is None,
    {
        RepairOptions { dry_run: false, prune: false, ids: Vec::new(), site: None, query: None }
    }
}

/// What a repair planned, did, and left unresolved.
#[derive(Debug, Clone)]
pub struct RepairSummary {
    pub workspace: String,
    pub dry_run: bool,
    pub prune: bool,
    pub target_ids: Vec<u64>,
    pub planned_update_ids: Vec<u64>,
    pub planned_convert_ids: Vec<u64>,
    pub updated_ids: Vec<u64>,
    pub converted_ids: Vec<u64>,
    pub pruned_dirs: Vec<String>,
    pub skipped_ids: Vec<u64>,
    pub unresolved_issues: Vec<DoctorIssue>,
}

/// The ids joined by `, `, or `(none)`.
pub open spec fn id_list_text(ids: Seq<u64>) -> Seq<char> {
    if ids.len() == 0 {
        "(none)"@
    } else {
        join_seq(ids.map_values(|id: u64| decimal(id as nat)), ", "@)
    }
}

/// The paths joined by `, `, or `(none)`.
pub open spec fn path_list_text(paths: Seq<Seq<char>>) -> Seq<char> {
    if paths.len() == 0 {
        "(none)"@
    } else {
        join_seq(paths, ", "@)
    }
}

pub fn render_id_list(ids: &Vec<u64>) -> (res: String)
    ensures
        res@ == id_list_text(ids@),
{
    if ids.len() == 0 {
        return String::from_str("(none)");
    }
    let ghost texts = ids@.map_values(|id: u64| decimal(id as nat));
    let mut parts: Vec<Vec<char>> = Vec::new();
    let mut i: usize = 0;
    while i < ids.len()
        invariant
            i <= ids.len(),
            texts == ids@.map_values(|id: u64| decimal(id as nat)),
            views(parts@) == texts.take(i as int),
        decreases ids.len() - i,
    {
        let d = u64_to_decimal(ids[i]);
        let ghost before = views(parts@);
        let ghost w = d@;
        parts.push(d);
        assert(views(parts@) =~= before.push(w));
        assert(texts.take(i + 1) =~= texts.take(i as int).push(texts[i as int]));
        i = i + 1;
    }
    assert(texts.take(ids.len() as int) =~= texts);
    let sep = chars_of(", ");
    string_of(&join_lines_with(&parts, &sep))
}

pub fn render_path_list(paths: &Vec<String>) -> (res: String)
    ensures
        res@ == path_list_text(string_views(paths@)),
{
    if paths.len() == 0 {
        return String::from_str("(none)");
    }
    let mut parts: Vec<Vec<char>> = Vec::new();
    let mut i: usize = 0;
    while i < paths.len()
        invariant
            i <= paths.len(),
            views(parts@) == string_views(paths@).take(i as int),
        decreases paths.len() - i,
    {
        let d = chars_of(paths[i].as_str());
        let ghost before = views(parts@);
        let ghost w = d@;
        parts.push(d);
        assert(views(parts@) =~= before.push(w));
        assert(string_views(paths@).take(i + 1) =~= string_views(paths@).take(i as int).push(
            paths@[i as int]@,
        ));
        i = i + 1;
    }
    assert(string_views(paths@).take(paths.len() as int) =~= string_views(paths@));
    let sep = chars_of(", ");
    string_of(&join_lines_with(&parts, &sep))
}

/// The exit status of a repair: 3 with errors left, 2 with only warnings
/// left, 0 when no issue is left unresolved.
pub open spec fn repair_exit_code_spec(s: RepairSummary) -> i32 {
    if count_level(s.unresolved_issues@, "error"@) > 0 {
        3
    } else if count_level(s.unresolved_issues@, "warning"@) > 0 {
        2
    } else {
        0
    }
}

pub open spec fn repair_text_lines(s: RepairSummary) -> Seq<Seq<char>> {
    seq![
        "workspace: "@ + s.workspace@,
        "dry_run: "@ + bool_text(s.dry_run),
        "prune: "@ + bool_text(s.prune),
        "target_ids: "@ + id_list_text(s.target_ids@),
        "planned_updates: "@ + id_list_text(s.planned_update_ids@),
        "planned_converts: "@ + id_list_text(s.planned_convert_ids@),
        "updated: "@ + id_list_text(s.updated_ids@),
        "converted: "@ + id_list_text(s.converted_ids@),
        "pruned_dirs: "@ + path_list_text(string_views(s.pruned_dirs@)),
        "skipped: "@ + id_list_text(s.skipped_ids@),
        "unresolved_issues: total="@ + decimal(s.unresolved_issues@.len()) + " error="@
            + decimal(count_level(s.unresolved_issues@, "error"@)) + " warning="@ + decimal(
            count_level(s.unresolved_issues@, "warning"@),
        ),
    ] + if s.unresolved_issues@.len() > 0 {
        seq!["issue_details:"@] + issue_detail_lines(s.unresolved_issues@, false)
    } else {
        Seq::empty()
    }
}

impl RepairSummary {
    /// Number of unresolved issues at level `error`.
    pub fn error_count(&self) -> (res: usize)
        ensures
            res == count_level(self.unresolved_issues@, "error"@),
    {
        count_issues(&self.unresolved_issues, "error")
    }

    /// Number of unresolved issues at level `warning`.
    pub fn warning_count(&self) -> (res: usize)
        ensures
            res == count_level(self.unresolved_issues@, "warning"@),
    {
        count_issues(&self.unresolved_issues, "warning")
    }

    /// 3 with errors left, 2 with only warnings left, 0 when no issue is
    /// left unresolved.
    pub fn exit_code(&self) -> (res: i32)
        ensures
            res == repair_exit_code_spec(*self),
    {
        if self.error_count() > 0 {
            3
        } else if self.warning_count() > 0 {
            2
        } else {
            0
        }
    }

    /// The text form of the report.
    pub fn to_text(&self) -> (res: String)
        ensures
            res@ == join_seq(repair_text_lines(*self), "\n"@),
    {
        let mut lines: Vec<Vec<char>> = Vec::new();
        push_chars(&mut lines, labeled("workspace: ", self.workspace.as_str()));
        push_chars(&mut lines, labeled("dry_run: ", bool_to_string(self.dry_run)));
        push_chars(&mut lines, labeled("prune: ", bool_to_string(self.prune)));
        push_chars(&mut lines, labeled("target_ids: ", render_id_list(&self.target_ids).as_str()));
        push_chars(
            &mut lines,
            labeled("planned_updates: ", render_id_list(&self.planned_update_ids).as_str()),
        );
        push_chars(
            &mut lines,
            labeled("planned_converts: ", render_id_list(&self.planned_convert_ids).as_str()),
        );
        push_chars(&mut lines, labeled("updated: ", render_id_list(&self.updated_ids).as_str()));
        push_chars(&mut lines, labeled("converted: ", render_id_list(&self.converted_ids).as_str()));
        push_chars(&mut lines, labeled("pruned_dirs: ", render_path_list(&self.pruned_dirs).as_str()));
        push_chars(&mut lines, labeled("skipped: ", render_id_list(&self.skipped_ids).as_str()));
        let mut l = chars_of("unresolved_issues: total=");
        push_str(&mut l, num_text(self.unresolved_issues.len() as u64).as_str());
        push_str(&mut l, " error=");
        push_str(&mut l, num_text(self.error_count() as u64).as_str());
        push_str(&mut l, " warning=");
        push_str(&mut l, num_text(self.warning_count() as u64).as_str());
        push_chars(&mut lines, l);
        if self.unresolved_issues.len() > 0 {
            push_chars(&mut lines, chars_of("issue_details:"));
            push_issue_details(&mut lines, &self.unresolved_issues, false);
        }
        assert(views(lines@) =~= repair_text_lines(*self));
        let nl = chars_of("\n");
        string_of(&join_lines_with(&lines, &nl))
    }
}


/// A record is among the repair's targets (all records when none given).
pub open spec fn is_selected(r: DoctorRecordHealth, target_ids: Seq<u64>) -> bool {
    target_ids.len() == 0 || target_ids.contains(r.id)
}

/// The ids of the selected records, in order.
pub open spec fn selected_ids_spec(rs: Seq<DoctorRecordHealth>, target_ids: Seq<u64>) -> Seq<u64>
    decreases rs.len(),
{
    if rs.len() == 0 {
        Seq::empty()
    } else {
        selected_ids_spec(rs.drop_last(), target_ids) + if is_selected(rs.last(), target_ids) {
            seq![rs.last().id]
        } else {
            Seq::empty()
        }
    }
}

/// The ids of the selected records that need an update, in order.
pub open spec fn planned_updates_spec(rs: Seq<DoctorRecordHealth>, target_ids: Seq<u64>) -> Seq<
    u64,
>
    decreases rs.len(),
{
    if rs.len() == 0 {
        Seq::empty()
    } else {
        planned_updates_spec(rs.drop_last(), target_ids) + if is_selected(rs.last(), target_ids)
            && rs.last().needs_update {
            seq![rs.last().id]
        } else {
            Seq::empty()
        }
    }
}

/// The ids of records among `selected` that need a conversion (and, when
/// `exclude_updates`, no update), in order.
pub open spec fn planned_converts_spec(
    rs: Seq<DoctorRecordHealth>,
    selected: Seq<u64>,
    exclude_updates: bool,
) -> Seq<u64>
    decreases rs.len(),
{
    if rs.len() == 0 {
        Seq::empty()
    } else {
        planned_converts_spec(rs.drop_last(), selected, exclude_updates) + if selected.contains(
            rs.last().id,
        ) && (!exclude_updates || !rs.last().needs_update) && rs.last().needs_convert {
            seq![rs.last().id]
        } else {
            Seq::empty()
        }
    }
}

/// Ids of the selected records.
pub fn selected_ids(records: &Vec<DoctorRecordHealth>, target_ids: &Vec<u64>) -> (res: Vec<u64>)
    ensures
        res@ == selected_ids_spec(records@, target_ids@),
{
    let mut out: Vec<u64> = Vec::new();
    let mut i: usize = 0;
    while i < records.len()
        invariant
            i <= records.len(),
            out@ == selected_ids_spec(records@.take(i as int), target_ids@),
        decreases records.len() - i,
    {
        assert(records@.take(i + 1).drop_last() =~= records@.take(i as int));
        if target_ids.len() == 0 || ids_contain(target_ids, records[i].id) {
            out.push(records[i].id);
        }
        assert(out@ =~= selected_ids_spec(records@.take(i + 1), target_ids@));
        i = i + 1;
    }
    assert(records@.take(records.len() as int) =~= records@);
    out
}

/// Ids of the selected records that need an update.
pub fn planned_update_ids(records: &Vec<DoctorRecordHealth>, target_ids: &Vec<u64>) -> (res: Vec<
    u64,
>)
    ensures
        res@ == planned_updates_spec(records@, target_ids@),
{
    let mut out: Vec<u64> = Vec::new();
    let mut i: usize = 0;
    while i < records.len()
        invariant
            i <= records.len(),
            out@ == planned_updates_spec(records@.take(i as int), target_ids@),
        decreases records.len() - i,
    {
        assert(records@.take(i + 1).drop_last() =~= records@.take(i as int));
        if (target_ids.len() == 0 || ids_contain(target_ids, records[i].id))
            && records[i].needs_update {
            out.push(records[i].id);
        }
        assert(out@ =~= planned_updates_spec(records@.take(i + 1), target_ids@));
        i = i + 1;
    }
    assert(records@.take(records.len() as int) =~= records@);
    out
}

/// Ids of the records among `selected` that need a conversion (and no
/// update, when `exclude_updates`).
pub fn planned_convert_ids(
    records: &Vec<DoctorRecordHealth>,
    selected: &Vec<u64>,
    exclude_updates: bool,
) -> (res: Vec<u64>)
    ensures
        res@ == planned_converts_spec(records@, selected@, exclude_updates),
{
    let mut out: Vec<u64> = Vec::new();
    let mut i: usize = 0;
    while i < records.len()
        invariant
            i <= records.len(),
            out@ == planned_converts_spec(records@.take(i as int), selected@, exclude_updates),
        decreases records.len() - i,
    {
        assert(records@.take(i + 1).drop_last() =~= records@.take(i as int));
        let r = &records[i];
        if ids_contain(selected, r.id) && (!exclude_updates || !r.needs_update) && r.needs_convert {
            out.push(r.id);
        }
        assert(out@ =~= planned_converts_spec(records@.take(i + 1), selected@, exclude_updates));
        i = i + 1;
    }
    assert(records@.take(records.len() as int) =~= records@);
    out
}

/// An issue stays unresolved in a repair report: a record issue of a
/// selected record, an archive issue only when pruning, any other issue.
pub open spec fn repair_keeps_issue(i: DoctorIssue, ids: Seq<u64>, include_prune: bool) -> bool {
    match i.record_id {
        Some(id) => ids.len() == 0 || ids.contains(id),
        None => include_prune || !starts_with(i.code@, "archive."@),
    }
}

pub open spec fn repair_issues_spec(issues: Seq<DoctorIssue>, ids: Seq<u64>, include_prune: bool) -> Seq<
    DoctorIssue,
>
    decreases issues.len(),
{
    if issues.len() == 0 {
        Seq::empty()
    } else {
        repair_issues_spec(issues.drop_last(), ids, include_prune) + if repair_keeps_issue(
            issues.last(),
            ids,
            include_prune,
        ) {
            seq![issues.last()]
        } else {
            Seq::empty()
        }
    }
}

/// The issues that remain for the selected records, in order.
pub fn filter_issues(issues: Vec<DoctorIssue>, target_ids: &Vec<u64>, include_prune: bool) -> (res:
    Vec<DoctorIssue>)
    ensures
        res@ == repair_issues_spec(issues@, target_ids@, include_prune),
{
    let ghost orig = issues@;
    let mut rest = issues;
    let mut kept: Vec<DoctorIssue> = Vec::new();
    let ghost mut i: int = 0;
    let prefix = chars_of("archive.");
    while rest.len() > 0
        invariant
            0 <= i <= orig.len(),
            rest@ == orig.skip(i),
            prefix@ == "archive."@,
            kept@ == repair_issues_spec(orig.take(i), target_ids@, include_prune),
        decreases rest.len(),
    {
        assert(orig.take(i + 1).drop_last() =~= orig.take(i));
        let issue = rest.remove(0);
        assert(issue == orig[i]);
        let keep = match issue.record_id {
            Some(id) => target_ids.len() == 0 || ids_contain(target_ids, id),
            None => include_prune || !starts_with_chars(&chars_of(issue.code.as_str()), &prefix),
        };
        if keep {
            kept.push(issue);
        }
        proof {
            i = i + 1;
        }
        assert(rest@ =~= orig.skip(i));
        assert(kept@ =~= repair_issues_spec(orig.take(i), target_ids@, include_prune));
    }
    assert(orig.take(i) =~= orig);
    kept
}


/// The report of a dry run: the plan made from the first health check
/// (`records`, `orphan_dirs`, `issues`), nothing done, the orphan folders
/// listed as pruned when pruning was asked.
pub fn repair_dry_run(
    workspace: String,
    options: &RepairOptions,
    records: &Vec<DoctorRecordHealth>,
    orphan_dirs: &Vec<String>,
    issues: Vec<DoctorIssue>,
) -> (res: RepairSummary)
    ensures
        res.workspace@ == workspace@,
        res.dry_run,
        res.prune == options.prune,
        res.target_ids@ == options.ids@,
        res.planned_update_ids@ == planned_updates_spec(records@, options.ids@),
        res.planned_convert_ids@ == planned_converts_spec(
            records@,
            selected_ids_spec(records@, options.ids@),
            true,
        ),
        res.updated_ids@.len() == 0,
        res.converted_ids@.len() == 0,
        res.skipped_ids@.len() == 0,
        string_views(res.pruned_dirs@) == (if options.prune {
            string_views(orphan_dirs@)
        } else {
            Seq::empty()
        }),
        res.unresolved_issues@ == repair_issues_spec(
            issues@,
            selected_ids_spec(records@, options.ids@),
            options.prune,
        ),
{
    let selected = selected_ids(records, &options.ids);
    let pruned_dirs = if options.prune {
        crate::text::clone_strings(orphan_dirs)
    } else {
        Vec::new()
    };
    RepairSummary {
        workspace,
        dry_run: true,
        prune: options.prune,
        target_ids: options.ids.clone(),
        planned_update_ids: planned_update_ids(records, &options.ids),
        planned_convert_ids: planned_convert_ids(records, &selected, true),
        updated_ids: Vec::new(),
        converted_ids: Vec::new(),
        pruned_dirs,
        skipped_ids: Vec::new(),
        unresolved_issues: filter_issues(issues, &selected, options.prune),
    }
}

pub open spec fn ids_where(ids: Seq<u64>, ok: Seq<bool>, want: bool) -> Seq<u64>
    decreases ids.len(),
{
    if ids.len() == 0 {
        Seq::empty()
    } else if ok[ids.len() - 1] == want {
        ids_where(ids.drop_last(), ok, want).push(ids.last())
    } else {
        ids_where(ids.drop_last(), ok, want)
    }
}

/// The conversions that succeeded and those skipped, in order:
/// `converted[i]` says whether the conversion of `ids[i]` succeeded.
pub fn split_conversions(ids: &Vec<u64>, converted: &Vec<bool>) -> (res: (Vec<u64>, Vec<u64>))
    requires
        ids.len() == converted.len(),
    ensures
        res.0@ == ids_where(ids@, converted@, true),
        res.1@ == ids_where(ids@, converted@, false),
{
    let mut done: Vec<u64> = Vec::new();
    let mut skipped: Vec<u64> = Vec::new();
    let mut i: usize = 0;
    while i < ids.len()
        invariant
            i <= ids.len() == converted.len(),
            done@ == ids_where(ids@.take(i as int), converted@, true),
            skipped@ == ids_where(ids@.take(i as int), converted@, false),
        decreases ids.len() - i,
    {
        assert(ids@.take(i + 1).drop_last() =~= ids@.take(i as int));
        if converted[i] {
            done.push(ids[i]);
        } else {
            skipped.push(ids[i]);
        }
        i = i + 1;
    }
    assert(ids@.take(ids.len() as int) =~= ids@);
    (done, skipped)
}


/// The orphan folders that were removed: `removed[i]` says whether
/// `dirs[i]` was, in order.
pub open spec fn dirs_where(dirs: Seq<Seq<char>>, removed: Seq<bool>) -> Seq<Seq<char>>
    decreases dirs.len(),
{
    if dirs.len() == 0 {
        Seq::empty()
    } else if removed[dirs.len() - 1] {
        dirs_where(dirs.drop_last(), removed).push(dirs.last())
    } else {
        dirs_where(dirs.drop_last(), removed)
    }
}

fn removed_dirs(dirs: &Vec<String>, removed: &Vec<bool>) -> (res: Vec<String>)
    requires
        dirs.len() == removed.len(),
    ensures
        string_views(res@) == dirs_where(string_views(dirs@), removed@),
{
    let mut out: Vec<String> = Vec::new();
    let mut i: usize = 0;
    while i < dirs.len()
        invariant
            i <= dirs.len() == removed.len(),
            string_views(out@) == dirs_where(string_views(dirs@).take(i as int), removed@),
        decreases dirs.len() - i,
    {
        assert(string_views(dirs@).take(i + 1).drop_last() =~= string_views(dirs@).take(i as int));
        if removed[i] {
            let ghost before = out@;
            out.push(dirs[i].clone());
            assert(string_views(out@) =~= string_views(before).push(dirs@[i as int]@));
        }
        i = i + 1;
    }
    assert(string_views(dirs@).take(dirs.len() as int) =~= string_views(dirs@));
    out
}

/// The report of a repair that ran: the plan made from the first health
/// check (`before`), the updates done, the conversions planned from the
/// check after the updates (`after_update`) with `converted[i]` telling
/// whether conversion `i` succeeded, the orphan folders removed
/// (`removed[i]` for `orphan_dirs[i]`, none unless pruning), and the
/// issues of the last check that still concern the selection.
pub fn repair_finished(
    workspace: String,
    options: &RepairOptions,
    before: &Vec<DoctorRecordHealth>,
    after_update: &Vec<DoctorRecordHealth>,
    orphan_dirs: &Vec<String>,
    removed: &Vec<bool>,
    updated_ids: Vec<u64>,
    converted: &Vec<bool>,
    issues_after: Vec<DoctorIssue>,
) -> (res: RepairSummary)
    requires
        orphan_dirs.len() == removed.len(),
        converted.len() == planned_converts_spec(
            after_update@,
            selected_ids_spec(before@, options.ids@),
            false,
        ).len(),
    ensures
        res.workspace@ == workspace@,
        !res.dry_run,
        res.prune == options.prune,
        res.target_ids@ == options.ids@,
        res.planned_update_ids@ == planned_updates_spec(before@, options.ids@),
        res.planned_convert_ids@ == planned_converts_spec(
            after_update@,
            selected_ids_spec(before@, options.ids@),
            false,
        ),
        res.updated_ids@ == updated_ids@,
        res.converted_ids@ == ids_where(res.planned_convert_ids@, converted@, true),
        res.skipped_ids@ == ids_where(res.planned_convert_ids@, converted@, false),
        string_views(res.pruned_dirs@) == (if options.prune {
            dirs_where(string_views(orphan_dirs@), removed@)
        } else {
            Seq::empty()
        }),
        res.unresolved_issues@ == repair_issues_spec(
            issues_after@,
            selected_ids_spec(before@, options.ids@),
            options.prune,
        ),
{
    let selected = selected_ids(before, &options.ids);
    let planned_converts = planned_convert_ids(after_update, &selected, false);
    let (converted_ids, skipped_ids) = split_conversions(&planned_converts, converted);
    let pruned_dirs = if options.prune {
        removed_dirs(orphan_dirs, removed)
    } else {
        Vec::new()
    };
    RepairSummary {
        workspace,
        dry_run: false,
        prune: options.prune,
        target_ids: options.ids.clone(),
        planned_update_ids: planned_update_ids(before, &options.ids),
        planned_convert_ids: planned_converts,
        updated_ids,
        converted_ids,
        pruned_dirs,
        skipped_ids,
        unresolved_issues: filter_issues(issues_after, &selected, options.prune),
    }
}

/// Splitting the planned conversions loses and adds nothing: the two lists
/// together are as long as the plan, and every id in either is planned.
pub proof fn lemma_conversions_partition(ids: Seq<u64>, ok: Seq<bool>)
    requires
        ids.len() == ok.len(),
    ensures
        ids_where(ids, ok, true).len() + ids_where(ids, ok, false).len() == ids.len(),
        forall|k: int| 0 <= k < ids_where(ids, ok, true).len() ==> ids.contains(
            #[trigger] ids_where(ids, ok, true)[k],
        ),
        forall|k: int| 0 <= k < ids_where(ids, ok, false).len() ==> ids.contains(
            #[trigger] ids_where(ids, ok, false)[k],
        ),
    decreases ids.len(),
{
    if ids.len() > 0 {
        let d = ids.drop_last();
        let o = ok.drop_last();
        lemma_ids_where_prefix(ids, ok, true);
        lemma_ids_where_prefix(ids, ok, false);
        lemma_conversions_partition(d, o);
        assert forall|k: int| 0 <= k < ids_where(ids, ok, true).len() implies ids.contains(
            #[trigger] ids_where(ids, ok, true)[k],
        ) by {
            if k < ids_where(d, o, true).len() {
                let x = ids_where(d, o, true)[k];
                assert(d.contains(x));
                let w = choose|w: int| 0 <= w < d.len() && d[w] == x;
                assert(ids[w] == x);
            } else {
                assert(ids[ids.len() - 1] == ids.last());
            }
        }
        assert forall|k: int| 0 <= k < ids_where(ids, ok, false).len() implies ids.contains(
            #[trigger] ids_where(ids, ok, false)[k],
        ) by {
            if k < ids_where(d, o, false).len() {
                let x = ids_where(d, o, false)[k];
                assert(d.contains(x));
                let w = choose|w: int| 0 <= w < d.len() && d[w] == x;
                assert(ids[w] == x);
            } else {
                assert(ids[ids.len() - 1] == ids.last());
            }
        }
    }
}

proof fn lemma_ids_where_prefix(ids: Seq<u64>, ok: Seq<bool>, want: bool)
    requires
        ids.len() > 0,
        ids.len() == ok.len(),
    ensures
        ids_where(ids, ok, want) == if ok.last() == want {
            ids_where(ids.drop_last(), ok.drop_last(), want).push(ids.last())
        } else {
            ids_where(ids.drop_last(), ok.drop_last(), want)
        },
{
    lemma_ids_where_ok_prefix(ids.drop_last(), ok, ok.drop_last(), want);
}

/// `ids_where` reads the flags of the ids it is given only.
proof fn lemma_ids_where_ok_prefix(ids: Seq<u64>, ok: Seq<bool>, ok2: Seq<bool>, want: bool)
    requires
        ids.len() <= ok.len(),
        ids.len() <= ok2.len(),
        forall|k: int| 0 <= k < ids.len() ==> ok[k] == ok2[k],
    ensures
        ids_where(ids, ok, want) == ids_where(ids, ok2, want),
    decreases ids.len(),
{
    if ids.len() > 0 {
        lemma_ids_where_ok_prefix(ids.drop_last(), ok, ok2, want);
    }
}

} // verus!
