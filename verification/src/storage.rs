//! The layout of a workspace on disk: where the database, the tables of
//! contents, the saved episodes and the raw pages of each novel live, how a
//! record is looked up, and how the length of a saved novel is counted.
//!
//! A path is kept as the list of its components, starting with the
//! workspace root; whoever touches the disk joins them.

use vstd::prelude::*;
use crate::convert::{decode_entities_spec, decode_entities_v, string_views};
use crate::html::{strip_tags_spec, strip_tags_v};
use crate::model::{DownloadTarget, NovelRecord, Section, Subtitle};
use crate::text::{chars_of, ends_with, ends_with_chars, str_eq};
use crate::database::{database_entries, entry_views, key_order, lemma_u64_keys_ordered};
use crate::records::lookup_spec;
use std::collections::BTreeMap;

verus! {

/// A workspace, known by its root directory.
#[derive(Debug, Clone)]
pub struct Workspace {
    root: String,
}

pub open spec fn database_dir() -> Seq<char> {
    ".narou"@
}

pub open spec fn archive_root() -> Seq<char> {
    "小説データ"@
}

/// The name of a saved episode's file, without its extension's dot.
pub open spec fn episode_file_name(s: Subtitle, extension: Seq<char>) -> Seq<char> {
    s.index@ + " "@ + s.file_subtitle@ + extension
}

pub open spec fn novel_dir_spec(root: Seq<char>, sitename: Seq<char>, file_title: Seq<char>) -> Seq<
    Seq<char>,
> {
    seq![root, archive_root(), sitename, file_title]
}

fn push_component(path: &mut Vec<String>, component: &str)
    ensures
        string_views(final(path)@) == string_views(old(path)@).push(component@),
{
    let ghost before = path@;
    path.push(String::from_str(component));
    assert(string_views(path@) =~= string_views(before).push(component@));
}

fn episode_file(subtitle: &Subtitle, extension: &str) -> (res: String)
    ensures
        res@ == episode_file_name(*subtitle, extension@),
{
    let mut name = subtitle.index.clone();
    name.append(" ");
    name.append(subtitle.file_subtitle.as_str());
    name.append(extension);
    name
}

impl Workspace {
    pub closed spec fn root_view(&self) -> Seq<char> {
        self.root@
    }

    /// The workspace rooted at `root`.
    pub fn new(root: String) -> (res: Workspace)
        ensures
            res.root_view() == root@,
    {
        Workspace { root }
    }

    /// The root directory.
    pub fn root(&self) -> (res: &str)
        ensures
            res@ == self.root_view(),
    {
        self.root.as_str()
    }

    /// `<root>/.narou/database.yaml`.
    pub fn database_path(&self) -> (res: Vec<String>)
        ensures
            string_views(res@) == seq![self.root_view(), database_dir(), "database.yaml"@],
    {
        let mut path: Vec<String> = Vec::new();
        push_component(&mut path, self.root.as_str());
        push_component(&mut path, ".narou");
        push_component(&mut path, "database.yaml");
        path
    }

    /// `<root>/小説データ/<sitename>/<file_title>`, the folder of one novel.
    pub fn novel_dir(&self, sitename: &str, file_title: &str) -> (res: Vec<String>)
        ensures
            string_views(res@) == novel_dir_spec(self.root_view(), sitename@, file_title@),
    {
        let mut path: Vec<String> = Vec::new();
        push_component(&mut path, self.root.as_str());
        push_component(&mut path, "小説データ");
        push_component(&mut path, sitename);
        push_component(&mut path, file_title);
        path
    }

    /// The saved table of contents of a novel: `toc.yaml` in its folder.
    pub fn toc_path(&self, sitename: &str, file_title: &str) -> (res: Vec<String>)
        ensures
            string_views(res@) == novel_dir_spec(self.root_view(), sitename@, file_title@).push(
                "toc.yaml"@,
            ),
    {
        let mut path = self.novel_dir(sitename, file_title);
        push_component(&mut path, "toc.yaml");
        path
    }

    /// A saved episode: `本文/<index> <file_subtitle>.yaml` in the novel's folder.
    pub fn section_path(&self, sitename: &str, file_title: &str, subtitle: &Subtitle) -> (res: Vec<
        String,
    >)
        ensures
            string_views(res@) == novel_dir_spec(self.root_view(), sitename@, file_title@).push(
                "本文"@,
            ).push(episode_file_name(*subtitle, ".yaml"@)),
    {
        let mut path = self.novel_dir(sitename, file_title);
        push_component(&mut path, "本文");
        let name = episode_file(subtitle, ".yaml");
        push_component(&mut path, name.as_str());
        path
    }

    /// The raw page of an episode: `raw/<index> <file_subtitle>.html` in the
    /// novel's folder.
    pub fn raw_html_path(&self, sitename: &str, file_title: &str, subtitle: &Subtitle) -> (res: Vec<
        String,
    >)
        ensures
            string_views(res@) == novel_dir_spec(self.root_view(), sitename@, file_title@).push(
                "raw"@,
            ).push(episode_file_name(*subtitle, ".html"@)),
    {
        let mut path = self.novel_dir(sitename, file_title);
        push_component(&mut path, "raw");
        let name = episode_file(subtitle, ".html");
        push_component(&mut path, name.as_str());
        path
    }

    /// A file directly under the workspace root.
    pub fn workspace_path(&self, relative_name: &str) -> (res: Vec<String>)
        ensures
            string_views(res@) == seq![self.root_view(), relative_name@],
    {
        let mut path: Vec<String> = Vec::new();
        push_component(&mut path, self.root.as_str());
        push_component(&mut path, relative_name);
        path
    }

    /// The record that `target` names, if the database holds one (see
    /// `lookup_record`).
    pub fn find_record<'a>(
        &self,
        database: &'a BTreeMap<u64, NovelRecord>,
        target: &DownloadTarget,
    ) -> (res: Option<&'a NovelRecord>)
        ensures
            match lookup_spec(database@, *target) {
                Some(r) => res matches Some(x) && *x == r,
                None => res is None,
            },
    {
        lookup_record(database, target)
    }

    /// The novel's text file for AozoraEpub3: `<file_title>.txt` in its folder.
    pub fn txt_path(&self, sitename: &str, file_title: &str) -> (res: Vec<String>)
        ensures
            string_views(res@) == novel_dir_spec(self.root_view(), sitename@, file_title@).push(
                file_title@ + ".txt"@,
            ),
    {
        let mut path = self.novel_dir(sitename, file_title);
        let mut name = String::from_str(file_title);
        name.append(".txt");
        push_component(&mut path, name.as_str());
        path
    }

    /// A subfolder of the novel's folder (`本文` for the saved episodes,
    /// `raw` for the raw pages).
    pub fn novel_subdir(&self, sitename: &str, file_title: &str, name: &str) -> (res: Vec<String>)
        ensures
            string_views(res@) == novel_dir_spec(self.root_view(), sitename@, file_title@).push(name@),
    {
        let mut path = self.novel_dir(sitename, file_title);
        push_component(&mut path, name);
        path
    }

    /// The length of a saved novel: the characters of every episode's
    /// foreword, body and afterword once tags are dropped and entities
    /// decoded. `None` when the total does not fit in a `usize`.
    pub fn calculate_novel_length(&self, sections: &Vec<Section>) -> (res: Option<usize>)
        ensures
            res == (if novel_length(sections@) <= usize::MAX {
                Some(novel_length(sections@) as usize)
            } else {
                None::<usize>
            }),
    {
        let mut total: usize = 0;
        let mut i: usize = 0;
        while i < sections.len()
            invariant
                i <= sections.len(),
                total == novel_length(sections@.take(i as int)),
            decreases sections.len() - i,
        {
            assert(sections@.take(i + 1).drop_last() =~= sections@.take(i as int));
            let n = match section_length(&sections[i]) {
                Some(n) => n,
                None => {
                    proof {
                        lemma_novel_length_grows(sections@, i as int + 1);
                    }
                    return None;
                },
            };
            if n > usize::MAX - total {
                proof {
                    lemma_novel_length_grows(sections@, i as int + 1);
                }
                return None;
            }
            total = total + n;
            i = i + 1;
        }
        assert(sections@.take(sections.len() as int) =~= sections@);
        Some(total)
    }
}

/// The record that `target` names, if the database holds one: by key for
/// an id (`BTreeMap::get`); otherwise the first record in key order whose
/// table-of-contents URL ends with the ncode and `/`, or is the URL.
pub fn lookup_record<'a>(
    database: &'a BTreeMap<u64, NovelRecord>,
    target: &DownloadTarget,
) -> (res: Option<&'a NovelRecord>)
    ensures
        match lookup_spec(database@, *target) {
            Some(r) => res matches Some(x) && *x == r,
            None => res is None,
        },
{
    broadcast use vstd::std_specs::btree::group_btree_axioms;
    if let DownloadTarget::Id(id) = target {
        proof {
            lemma_u64_keys_ordered();
        }
        return database.get(id);
    }
    let entries = database_entries(database);
    let ghost db = key_order(database@);
    let suffix: Vec<char> = match target {
        DownloadTarget::Ncode(n) => {
            let mut v = chars_of(n.as_str());
            v.push('/');
            v
        },
        _ => Vec::new(),
    };
    proof {
        reveal_strlit("/");
    }
    let mut i: usize = 0;
    while i < entries.len()
        invariant
            i <= entries.len(),
            entry_views(entries@) == db,
            db == key_order(database@),
            !(target is Id),
            (match target {
                DownloadTarget::Ncode(n) => suffix@ == n@ + "/"@,
                _ => true,
            }),
            first_match(db, *target, 0) == first_match(db, *target, i as int),
        decreases entries.len() - i,
    {
        let record = entries[i].1;
        assert(db[i as int] == (entries@[i as int].0, *record));
        let hit = match target {
            DownloadTarget::Id(_) => false,
            DownloadTarget::Ncode(_) => ends_with_chars(&chars_of(record.toc_url.as_str()), &suffix),
            DownloadTarget::Url(u) => str_eq(record.toc_url.as_str(), u.as_str()),
        };
        if hit {
            return Some(record);
        }
        i = i + 1;
    }
    None
}

/// Whether the entry `(key, record)` is the one that `target` names: by key
/// for an id, by the end of the table-of-contents URL for an ncode, by the
/// whole URL for a URL.
pub open spec fn entry_matches(entry: (u64, NovelRecord), target: DownloadTarget) -> bool {
    match target {
        DownloadTarget::Id(id) => entry.0 == id,
        DownloadTarget::Ncode(n) => ends_with(entry.1.toc_url@, n@ + "/"@),
        DownloadTarget::Url(u) => entry.1.toc_url@ == u@,
    }
}

/// The index of the first entry at or after `i` that `target` names.
pub open spec fn first_match(db: Seq<(u64, NovelRecord)>, target: DownloadTarget, i: int) -> Option<
    int,
>
    decreases db.len() - i,
{
    if i < 0 || i >= db.len() {
        None
    } else if entry_matches(db[i], target) {
        Some(i)
    } else {
        first_match(db, target, i + 1)
    }
}

/// The characters of an HTML fragment once tags are dropped and entities
/// decoded.
pub open spec fn html_text_length_spec(s: Seq<char>) -> nat {
    decode_entities_spec(strip_tags_spec(s)).len()
}

pub open spec fn section_length_spec(s: Section) -> nat {
    html_text_length_spec(s.element.introduction@) + html_text_length_spec(s.element.body@)
        + html_text_length_spec(s.element.postscript@)
}

pub open spec fn novel_length(secs: Seq<Section>) -> nat
    decreases secs.len(),
{
    if secs.len() == 0 {
        0
    } else {
        novel_length(secs.drop_last()) + section_length_spec(secs.last())
    }
}

proof fn lemma_novel_length_grows(secs: Seq<Section>, i: int)
    requires
        0 <= i <= secs.len(),
    ensures
        novel_length(secs.take(i)) <= novel_length(secs),
    decreases secs.len() - i,
{
    if i < secs.len() {
        lemma_novel_length_grows(secs, i + 1);
        assert(secs.take(i + 1).drop_last() =~= secs.take(i));
    } else {
        assert(secs.take(i) =~= secs);
    }
}

/// The length of one HTML fragment's text.
pub fn html_text_length(input: &str) -> (res: usize)
    ensures
        res == html_text_length_spec(input@),
{
    decode_entities_v(&strip_tags_v(&chars_of(input))).len()
}

fn section_length(s: &Section) -> (res: Option<usize>)
    ensures
        res == (if section_length_spec(*s) <= usize::MAX {
            Some(section_length_spec(*s) as usize)
        } else {
            None::<usize>
        }),
{
    let a = html_text_length(s.element.introduction.as_str());
    let b = html_text_length(s.element.body.as_str());
    let c = html_text_length(s.element.postscript.as_str());
    if a > usize::MAX - b || a + b > usize::MAX - c {
        return None;
    }
    Some(a + b + c)
}

} // verus!
