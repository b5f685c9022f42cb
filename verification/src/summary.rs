//! What the download, batch, inspect and remove commands report, and how
//! a batch file is read.

use vstd::prelude::*;
use crate::convert::string_views;
use crate::doctor::{labeled, num_text, push_chars};
use crate::epub::EpubSummary;
use crate::model::NovelRecord;
use crate::text::{
    chars_of, decimal, join_lines_with, join_seq, lines_of, split_lines, string_of, trim,
    trim_chars, views,
};

verus! {

/// The outcome of downloading one novel.
#[derive(Debug, Clone)]
pub struct DownloadSummary {
    pub record: NovelRecord,
    pub episodes_downloaded: usize,
    pub epub: Option<EpubSummary>,
}

/// One line of a batch file and what became of it: the download, or the
/// error report.
#[derive(Debug)]
pub struct BatchDownloadItem {
    pub target: String,
    pub result: Result<DownloadSummary, String>,
}

/// The outcome of a batch download.
#[derive(Debug)]
pub struct BatchDownloadSummary {
    pub input_file: String,
    pub total: usize,
    pub success: usize,
    pub failed: usize,
    pub success_file: String,
    pub failed_file: String,
    pub summary_file: String,
    pub items: Vec<BatchDownloadItem>,
}

/// Where the files of a saved novel are.
#[derive(Debug, Clone)]
pub struct InspectSummary {
    pub record: NovelRecord,
    pub workspace: String,
    pub novel_dir: String,
    pub toc_path: String,
    pub txt_path: String,
    pub raw_dir: String,
    pub section_dir: String,
    pub epub_files: Vec<String>,
}

/// The outcome of removing a novel.
#[derive(Debug, Clone)]
pub struct RemoveSummary {
    pub record: NovelRecord,
    pub removed_files: bool,
}

pub open spec fn batch_text_lines(s: BatchDownloadSummary) -> Seq<Seq<char>> {
    seq![
        "input_file: "@ + s.input_file@,
        "total: "@ + decimal(s.total as nat),
        "success: "@ + decimal(s.success as nat),
        "failed: "@ + decimal(s.failed as nat),
        "success_file: "@ + s.success_file@,
        "failed_file: "@ + s.failed_file@,
    ]
}

pub open spec fn item_succeeded(i: BatchDownloadItem) -> bool {
    i.result is Ok
}

pub open spec fn succeeded_count(items: Seq<BatchDownloadItem>) -> nat
    decreases items.len(),
{
    if items.len() == 0 {
        0
    } else {
        succeeded_count(items.drop_last()) + if item_succeeded(items.last()) {
            1nat
        } else {
            0nat
        }
    }
}

/// The targets of the items that succeeded (`ok`) or failed (`!ok`), in
/// order.
pub open spec fn targets_where(items: Seq<BatchDownloadItem>, ok: bool) -> Seq<Seq<char>>
    decreases items.len(),
{
    if items.len() == 0 {
        Seq::empty()
    } else if item_succeeded(items.last()) == ok {
        targets_where(items.drop_last(), ok).push(items.last().target@)
    } else {
        targets_where(items.drop_last(), ok)
    }
}

pub proof fn lemma_succeeded_count(items: Seq<BatchDownloadItem>)
    ensures
        succeeded_count(items) <= items.len(),
        targets_where(items, true).len() == succeeded_count(items),
        targets_where(items, false).len() == items.len() - succeeded_count(items),
    decreases items.len(),
{
    if items.len() > 0 {
        lemma_succeeded_count(items.drop_last());
    }
}

impl BatchDownloadSummary {
    /// The summary of a finished batch: the counts follow from the items.
    pub fn new(
        input_file: String,
        success_file: String,
        failed_file: String,
        summary_file: String,
        items: Vec<BatchDownloadItem>,
    ) -> (res: BatchDownloadSummary)
        ensures
            res.input_file@ == input_file@,
            res.success_file@ == success_file@,
            res.failed_file@ == failed_file@,
            res.summary_file@ == summary_file@,
            res.items@ == items@,
            res.total == items@.len(),
            res.success == succeeded_count(items@),
            res.failed == items@.len() - succeeded_count(items@),
    {
        let mut success: usize = 0;
        let mut i: usize = 0;
        while i < items.len()
            invariant
                i <= items.len(),
                success == succeeded_count(items@.take(i as int)),
                success <= i,
            decreases items.len() - i,
        {
            assert(items@.take(i + 1).drop_last() =~= items@.take(i as int));
            if items[i].result.is_ok() {
                success = success + 1;
            }
            i = i + 1;
        }
        assert(items@.take(items.len() as int) =~= items@);
        let total = items.len();
        BatchDownloadSummary {
            input_file,
            total,
            success,
            failed: total - success,
            success_file,
            failed_file,
            summary_file,
            items,
        }
    }

    /// The summary of a batch from its targets (as `batch_targets` reads
    /// them) and the outcome of each: item `i` is target `i` with outcome
    /// `i`, and the counts follow.
    pub fn from_outcomes(
        input_file: String,
        success_file: String,
        failed_file: String,
        summary_file: String,
        targets: Vec<String>,
        results: Vec<Result<DownloadSummary, String>>,
    ) -> (res: BatchDownloadSummary)
        requires
            targets.len() == results.len(),
        ensures
            res.input_file@ == input_file@,
            res.success_file@ == success_file@,
            res.failed_file@ == failed_file@,
            res.summary_file@ == summary_file@,
            res.items.len() == targets.len(),
            forall|i: int|
                0 <= i < targets.len() ==> (#[trigger] res.items@[i]).target@ == targets@[i]@
                    && res.items@[i].result == results@[i],
            res.total == targets.len(),
            res.success == succeeded_count(res.items@),
            res.failed == targets.len() - succeeded_count(res.items@),
    {
        let ghost ts = targets@;
        let ghost rs = results@;
        let mut targets = targets;
        let mut results = results;
        let mut items: Vec<BatchDownloadItem> = Vec::new();
        let n = targets.len();
        let mut i: usize = 0;
        while i < n
            invariant
                n == ts.len(),
                n == rs.len(),
                i <= n,
                targets@ == ts.skip(i as int),
                results@ == rs.skip(i as int),
                items.len() == i,
                forall|k: int|
                    0 <= k < i ==> (#[trigger] items@[k]).target@ == ts[k]@ && items@[k].result
                        == rs[k],
            decreases n - i,
        {
            let target = targets.remove(0);
            let result = results.remove(0);
            assert(target == ts[i as int] && result == rs[i as int]);
            items.push(BatchDownloadItem { target, result });
            assert(targets@ =~= ts.skip(i + 1));
            assert(results@ =~= rs.skip(i + 1));
            i = i + 1;
        }
        BatchDownloadSummary::new(input_file, success_file, failed_file, summary_file, items)
    }

    /// The targets that succeeded (`ok`) or failed (`!ok`), in input order.
    pub fn targets(&self, ok: bool) -> (res: Vec<String>)
        ensures
            string_views(res@) == targets_where(self.items@, ok),
    {
        let mut out: Vec<String> = Vec::new();
        let mut i: usize = 0;
        while i < self.items.len()
            invariant
                i <= self.items.len(),
                string_views(out@) == targets_where(self.items@.take(i as int), ok),
            decreases self.items.len() - i,
        {
            assert(self.items@.take(i + 1).drop_last() =~= self.items@.take(i as int));
            if self.items[i].result.is_ok() == ok {
                let ghost before = out@;
                out.push(self.items[i].target.clone());
                assert(string_views(out@) =~= string_views(before).push(
                    self.items@[i as int].target@,
                ));
            }
            i = i + 1;
        }
        assert(self.items@.take(self.items.len() as int) =~= self.items@);
        out
    }

    /// The summary as the lines written to the summary file.
    pub fn to_text(&self) -> (res: String)
        ensures
            res@ == join_seq(batch_text_lines(*self), "\n"@),
    {
        let mut lines: Vec<Vec<char>> = Vec::new();
        push_chars(&mut lines, labeled("input_file: ", self.input_file.as_str()));
        push_chars(&mut lines, labeled("total: ", num_text(self.total as u64).as_str()));
        push_chars(&mut lines, labeled("success: ", num_text(self.success as u64).as_str()));
        push_chars(&mut lines, labeled("failed: ", num_text(self.failed as u64).as_str()));
        push_chars(&mut lines, labeled("success_file: ", self.success_file.as_str()));
        push_chars(&mut lines, labeled("failed_file: ", self.failed_file.as_str()));
        proof {
            reveal_strlit("\n");
        }
        let sep = chars_of("\n");
        assert(views(lines@) =~= batch_text_lines(*self));
        string_of(&join_lines_with(&lines, &sep))
    }
}

pub open spec fn epub_lines(files: Seq<Seq<char>>) -> Seq<Seq<char>> {
    if files.len() == 0 {
        seq!["epub_files: none"@]
    } else {
        seq!["epub_files:"@] + files.map_values(|f: Seq<char>| "- "@ + f)
    }
}

pub open spec fn inspect_text_lines(s: InspectSummary) -> Seq<Seq<char>> {
    seq![
        "id: "@ + decimal(s.record.id as nat),
        "site: "@ + s.record.sitename@,
        "title: "@ + s.record.title@,
        "author: "@ + s.record.author@,
        "toc_url: "@ + s.record.toc_url@,
        "episodes: "@ + decimal(s.record.all_episodes as nat),
        "workspace: "@ + s.workspace@,
        "novel_dir: "@ + s.novel_dir@,
        "toc_path: "@ + s.toc_path@,
        "txt_path: "@ + s.txt_path@,
        "raw_dir: "@ + s.raw_dir@,
        "section_dir: "@ + s.section_dir@,
    ] + epub_lines(string_views(s.epub_files@))
}

fn push_epub_lines(lines: &mut Vec<Vec<char>>, files: &Vec<String>)
    ensures
        views(final(lines)@) == views(old(lines)@) + epub_lines(string_views(files@)),
{
    proof {
        reveal_strlit("epub_files: none");
        reveal_strlit("epub_files:");
    }
    let ghost start = views(lines@);
    if files.len() == 0 {
        push_chars(lines, chars_of("epub_files: none"));
        return;
    }
    push_chars(lines, chars_of("epub_files:"));
    let ghost all = string_views(files@).map_values(|f: Seq<char>| "- "@ + f);
    let mut i: usize = 0;
    while i < files.len()
        invariant
            i <= files.len(),
            all == string_views(files@).map_values(|f: Seq<char>| "- "@ + f),
            views(lines@) == start + seq!["epub_files:"@] + all.take(i as int),
        decreases files.len() - i,
    {
        push_chars(lines, labeled("- ", files[i].as_str()));
        assert(all.take(i + 1) =~= all.take(i as int).push(all[i as int]));
        i = i + 1;
    }
    assert(all.take(files.len() as int) =~= all);
    assert(start + seq!["epub_files:"@] + all =~= start + (seq!["epub_files:"@] + all));
}

impl InspectSummary {
    /// The report of `inspect`: the record, the paths, and the EPUB files.
    pub fn to_text(&self) -> (res: String)
        ensures
            res@ == join_seq(inspect_text_lines(*self), "\n"@),
    {
        let mut lines: Vec<Vec<char>> = Vec::new();
        push_chars(&mut lines, labeled("id: ", num_text(self.record.id).as_str()));
        push_chars(&mut lines, labeled("site: ", self.record.sitename.as_str()));
        push_chars(&mut lines, labeled("title: ", self.record.title.as_str()));
        push_chars(&mut lines, labeled("author: ", self.record.author.as_str()));
        push_chars(&mut lines, labeled("toc_url: ", self.record.toc_url.as_str()));
        push_chars(
            &mut lines,
            labeled("episodes: ", num_text(self.record.all_episodes as u64).as_str()),
        );
        push_chars(&mut lines, labeled("workspace: ", self.workspace.as_str()));
        push_chars(&mut lines, labeled("novel_dir: ", self.novel_dir.as_str()));
        push_chars(&mut lines, labeled("toc_path: ", self.toc_path.as_str()));
        push_chars(&mut lines, labeled("txt_path: ", self.txt_path.as_str()));
        push_chars(&mut lines, labeled("raw_dir: ", self.raw_dir.as_str()));
        push_chars(&mut lines, labeled("section_dir: ", self.section_dir.as_str()));
        let ghost head = views(lines@);
        push_epub_lines(&mut lines, &self.epub_files);
        proof {
            reveal_strlit("\n");
        }
        let sep = chars_of("\n");
        assert(views(lines@) =~= inspect_text_lines(*self));
        string_of(&join_lines_with(&lines, &sep))
    }
}

/// The lines of a success or failure list file: each followed by a line
/// break, or nothing at all for no lines.
pub open spec fn join_lines_spec(lines: Seq<Seq<char>>) -> Seq<char> {
    if lines.len() == 0 {
        Seq::empty()
    } else {
        join_seq(lines, "\n"@) + "\n"@
    }
}

pub fn join_lines(lines: &Vec<String>) -> (res: String)
    ensures
        res@ == join_lines_spec(string_views(lines@)),
{
    proof {
        reveal_strlit("\n");
    }
    if lines.len() == 0 {
        return String::new();
    }
    let mut parts: Vec<Vec<char>> = Vec::new();
    let mut i: usize = 0;
    while i < lines.len()
        invariant
            i <= lines.len(),
            views(parts@) == string_views(lines@).take(i as int),
        decreases lines.len() - i,
    {
        push_chars(&mut parts, chars_of(lines[i].as_str()));
        assert(string_views(lines@).take(i + 1) =~= string_views(lines@).take(i as int).push(
            lines@[i as int]@,
        ));
        i = i + 1;
    }
    assert(string_views(lines@).take(lines.len() as int) =~= string_views(lines@));
    let sep = chars_of("\n");
    let mut out = join_lines_with(&parts, &sep);
    out.push('\n');
    string_of(&out)
}

/// Whether a batch-file line (trimmed) names a target: not empty, and not
/// a `#` comment.
pub open spec fn is_target_line(t: Seq<char>) -> bool {
    t.len() > 0 && t[0] != '#'
}

pub open spec fn batch_targets_from(ls: Seq<Seq<char>>) -> Seq<Seq<char>>
    decreases ls.len(),
{
    if ls.len() == 0 {
        Seq::empty()
    } else if is_target_line(trim(ls.last())) {
        batch_targets_from(ls.drop_last()).push(trim(ls.last()))
    } else {
        batch_targets_from(ls.drop_last())
    }
}

/// The targets of a batch file: each line trimmed, blank lines and `#`
/// comments skipped.
pub fn batch_targets(text: &str) -> (res: Vec<String>)
    ensures
        string_views(res@) == batch_targets_from(lines_of(text@)),
{
    let ls = split_lines(&chars_of(text));
    let mut out: Vec<String> = Vec::new();
    let mut i: usize = 0;
    while i < ls.len()
        invariant
            i <= ls.len(),
            views(ls@) == lines_of(text@),
            string_views(out@) == batch_targets_from(views(ls@).take(i as int)),
        decreases ls.len() - i,
    {
        assert(views(ls@).take(i + 1).drop_last() =~= views(ls@).take(i as int));
        assert(views(ls@).take(i + 1).last() == ls@[i as int]@);
        let t = trim_chars(&ls[i]);
        if t.len() > 0 && t[0] != '#' {
            let ghost before = out@;
            out.push(string_of(&t));
            assert(string_views(out@) =~= string_views(before).push(t@));
        }
        i = i + 1;
    }
    assert(views(ls@).take(ls.len() as int) =~= views(ls@));
    out
}

} // verus!
