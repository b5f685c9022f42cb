//! Where AozoraEpub3 is looked for, and which EPUB file a conversion made.

use vstd::prelude::*;
use crate::convert::string_views;
use crate::syosetu::opt_seq;
use crate::text::str_eq;

verus! {

/// The text file handed to AozoraEpub3 and the EPUB file it made.
#[derive(Debug, Clone)]
pub struct EpubSummary {
    pub txt_path: String,
    pub epub_path: String,
}

pub open spec fn aozora_dir_name() -> Seq<char> {
    "AozoraEpub3-1.1.1b30Q"@
}

pub open spec fn aozora_not_found_message() -> Seq<char> {
    "AozoraEpub3 directory not found. Specify --aozora-dir or place "@ + aozora_dir_name()
        + " next to the workspace"@
}

/// Result of `std::path::Path::parent` on a path, as text.
pub uninterp spec fn path_parent_result(path: Seq<char>) -> Option<Seq<char>>;

/// Calls `std::path::Path::parent`. Claimed: the result is a function of
/// the path's text alone, named above.
#[verifier::external_body]
fn path_parent(path: &str) -> (res: Option<String>)
    ensures
        opt_seq(res) == path_parent_result(path@),
{
    std::path::Path::new(path).parent().map(|p| p.to_string_lossy().into_owned())
}

/// The two places where AozoraEpub3 is looked for when none is given: in
/// the workspace, and beside it (when the workspace has a parent).
pub fn aozora_dir_candidates(workspace_root: &str) -> (res: (Vec<String>, Option<Vec<String>>))
    ensures
        string_views(res.0@) == seq![workspace_root@, aozora_dir_name()],
        match path_parent_result(workspace_root@) {
            Some(parent) => res.1 matches Some(s) && string_views(s@) == seq![
                parent,
                aozora_dir_name(),
            ],
            None => res.1 is None,
        },
{
    let mut direct: Vec<String> = Vec::new();
    direct.push(String::from_str(workspace_root));
    direct.push(String::from_str("AozoraEpub3-1.1.1b30Q"));
    assert(string_views(direct@) =~= seq![workspace_root@, aozora_dir_name()]);
    let sibling = match path_parent(workspace_root) {
        Some(parent) => {
            let mut s: Vec<String> = Vec::new();
            s.push(parent);
            s.push(String::from_str("AozoraEpub3-1.1.1b30Q"));
            assert(string_views(s@) =~= seq![s@[0]@, aozora_dir_name()]);
            Some(s)
        },
        None => None,
    };
    (direct, sibling)
}

/// The AozoraEpub3 folder: the one given, else the one in the workspace if
/// it exists, else the one beside the workspace if it exists. The caller
/// says whether the two candidates of `aozora_dir_candidates` exist.
pub fn resolve_aozora_dir(
    workspace_root: &str,
    explicit_aozora_dir: Option<&str>,
    direct_exists: bool,
    sibling_exists: bool,
) -> (res: Result<Vec<String>, String>)
    ensures
        match explicit_aozora_dir {
            Some(p) => res matches Ok(v) && string_views(v@) == seq![p@],
            None => if direct_exists {
                res matches Ok(v) && string_views(v@) == seq![workspace_root@, aozora_dir_name()]
            } else if sibling_exists && path_parent_result(workspace_root@) is Some {
                res matches Ok(v) && string_views(v@) == seq![
                    path_parent_result(workspace_root@)->0,
                    aozora_dir_name(),
                ]
            } else {
                res matches Err(m) && m@ == aozora_not_found_message()
            },
        },
{
    if let Some(p) = explicit_aozora_dir {
        let mut v: Vec<String> = Vec::new();
        v.push(String::from_str(p));
        assert(string_views(v@) =~= seq![p@]);
        return Ok(v);
    }
    let (direct, sibling) = aozora_dir_candidates(workspace_root);
    if direct_exists {
        return Ok(direct);
    }
    if sibling_exists {
        if let Some(s) = sibling {
            return Ok(s);
        }
    }
    let mut m = String::from_str("AozoraEpub3 directory not found. Specify --aozora-dir or place ");
    m.append("AozoraEpub3-1.1.1b30Q");
    m.append(" next to the workspace");
    Err(m)
}

pub open spec fn contains_view(v: Seq<String>, s: Seq<char>) -> bool {
    exists|k: int| 0 <= k < v.len() && #[trigger] v[k]@ == s
}

fn contains_str(v: &Vec<String>, s: &str) -> (r: bool)
    ensures
        r == contains_view(v@, s@),
{
    let mut i: usize = 0;
    while i < v.len()
        invariant
            i <= v.len(),
            forall|k: int| 0 <= k < i ==> #[trigger] v@[k]@ != s@,
        decreases v.len() - i,
    {
        if str_eq(v[i].as_str(), s) {
            return true;
        }
        i = i + 1;
    }
    false
}

/// The index of the first file of `after` that `before` does not list.
pub open spec fn first_new(after: Seq<String>, before: Seq<String>, i: int) -> Option<int>
    decreases after.len() - i,
{
    if i < 0 || i >= after.len() {
        None
    } else if !contains_view(before, after[i]@) {
        Some(i)
    } else {
        first_new(after, before, i + 1)
    }
}

/// The EPUB file that a conversion made: the first file listed after it
/// that was not listed before it.
pub fn detect_created_epub(after: &Vec<String>, before: &Vec<String>) -> (res: Option<String>)
    ensures
        match first_new(after@, before@, 0) {
            Some(k) => res matches Some(p) && p@ == after@[k]@,
            None => res is None,
        },
{
    let mut i: usize = 0;
    while i < after.len()
        invariant
            i <= after.len(),
            first_new(after@, before@, 0) == first_new(after@, before@, i as int),
        decreases after.len() - i,
    {
        if !contains_str(before, after[i].as_str()) {
            return Some(after[i].clone());
        }
        i = i + 1;
    }
    None
}

/// `a` orders before `b` as modification times do, a missing time first.
pub open spec fn time_less(a: Option<u128>, b: Option<u128>) -> bool {
    match (a, b) {
        (None, Some(_)) => true,
        (Some(x), Some(y)) => x < y,
        _ => false,
    }
}

/// Entry `k` has a latest time, and every entry after it an earlier one.
pub open spec fn is_latest(files: Seq<(String, Option<u128>)>, k: int) -> bool {
    &&& 0 <= k < files.len()
    &&& forall|j: int| 0 <= j < files.len() ==> !time_less(#[trigger] files[k].1, files[j].1)
    &&& forall|j: int| k < j < files.len() ==> time_less(#[trigger] files[j].1, files[k].1)
}

/// The newest EPUB file: of those with the latest modification time, the
/// one listed last (a stable sort by time, then the last element). Each
/// file comes with its modification time, if it could be read.
pub fn find_latest_epub(files: &Vec<(String, Option<u128>)>) -> (res: Option<String>)
    ensures
        files.len() == 0 ==> res is None,
        files.len() > 0 ==> res is Some && exists|k: int|
            is_latest(files@, k) && #[trigger] files@[k].0@ == res->0@,
{
    if files.len() == 0 {
        return None;
    }
    let mut best: usize = 0;
    let mut i: usize = 1;
    while i < files.len()
        invariant
            1 <= i <= files.len(),
            best < i,
            forall|j: int| 0 <= j < i ==> !time_less(#[trigger] files@[best as int].1, files@[j].1),
            forall|j: int| best < j < i ==> time_less(#[trigger] files@[j].1, files@[best as int].1),
        decreases files.len() - i,
    {
        let later = match (&files[best].1, &files[i].1) {
            (None, _) => true,
            (Some(x), Some(y)) => *x <= *y,
            (Some(_), None) => false,
        };
        if later {
            best = i;
        }
        i = i + 1;
    }
    let p = files[best].0.clone();
    assert(is_latest(files@, best as int) && files@[best as int].0@ == p@);
    Some(p)
}


/// Result of `std::path::Path::extension` on a path, as text.
pub uninterp spec fn path_extension_result(path: Seq<char>) -> Option<Seq<char>>;

/// Calls `std::path::Path::extension`. Claimed: the result is a function
/// of the path's text alone, named above.
#[verifier::external_body]
fn path_extension(path: &str) -> (res: Option<String>)
    ensures
        opt_seq(res) == path_extension_result(path@),
{
    std::path::Path::new(path).extension().map(|e| e.to_string_lossy().into_owned())
}

/// The extension equals `ext` in ASCII case-insensitive comparison.
pub open spec fn has_extension(path: Seq<char>, ext: Seq<char>) -> bool {
    match path_extension_result(path) {
        Some(e) => crate::model::ascii_lower(e) == crate::model::ascii_lower(ext),
        None => false,
    }
}

pub fn has_extension_exec(path: &str, ext: &str) -> (r: bool)
    ensures
        r == has_extension(path@, ext@),
{
    match path_extension(path) {
        Some(e) => crate::text::seq_eq(
            &crate::model::ascii_lower_v(&crate::text::chars_of(e.as_str())),
            &crate::model::ascii_lower_v(&crate::text::chars_of(ext)),
        ),
        None => false,
    }
}

pub open spec fn with_extension(paths: Seq<String>, ext: Seq<char>) -> Seq<Seq<char>>
    decreases paths.len(),
{
    if paths.len() == 0 {
        Seq::empty()
    } else if has_extension(paths.last()@, ext) {
        with_extension(paths.drop_last(), ext).push(paths.last()@)
    } else {
        with_extension(paths.drop_last(), ext)
    }
}

/// The paths of a folder listing whose extension is `ext`, in any ASCII
/// case, in order (the EPUB files of a novel's folder, the saved episodes).
pub fn files_with_extension(paths: &Vec<String>, ext: &str) -> (res: Vec<String>)
    ensures
        string_views(res@) == with_extension(paths@, ext@),
{
    let mut out: Vec<String> = Vec::new();
    let mut i: usize = 0;
    while i < paths.len()
        invariant
            i <= paths.len(),
            string_views(out@) == with_extension(paths@.take(i as int), ext@),
        decreases paths.len() - i,
    {
        assert(paths@.take(i + 1).drop_last() =~= paths@.take(i as int));
        if has_extension_exec(paths[i].as_str(), ext) {
            let ghost before = out@;
            out.push(paths[i].clone());
            assert(string_views(out@) =~= string_views(before).push(paths@[i as int]@));
        }
        i = i + 1;
    }
    assert(paths@.take(paths.len() as int) =~= paths@);
    out
}

} // verus!
