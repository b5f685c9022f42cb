//! Reading the pages of a Syosetu novel: the episode list of a
//! table-of-contents page, the link to its next page, the title, the
//! information table, and the parts of an episode page.

use vstd::prelude::*;
use crate::convert::string_views;
use crate::kakuyomu::subtitle_views;
use crate::model::{
    error_is, subtitle_view, ErrorMessage, ParsedNovel, ResolvedNovel, Section, SectionElement,
    Subtitle, SubtitleView,
};
use crate::scrape::{
    extract_attr, extract_html, extract_text, first_attr_spec, first_html_spec, first_match_children,
    first_match_children_result, first_text_spec, named_texts, pair_views, row_view, rows_view,
    select_fragments, select_rows, select_rows_in_tree, selected_fragments_with, selected_rows,
    selected_rows_in_tree, HtmlRow, RowView,
};
use crate::syosetu::{
    absolute_href_spec, assemble_novel, detect_site_name, html_to_story_text, info_get, next_page_url,
    opt_seq, parsed_novel_is, sanitize_filename, sanitize_spec, site_name_spec, story_text_spec,
};
use crate::text::{
    chars_of, push_all, replace_all, replace_chars, seq_eq, slice_chars, string_of, trim, trim_chars,
};

verus! {

pub open spec fn has_class(classes: Seq<Seq<char>>, c: Seq<char>) -> bool {
    exists|k: int| 0 <= k < classes.len() && #[trigger] classes[k] == c
}

fn has_class_v(classes: &Vec<String>, c: &str) -> (r: bool)
    ensures
        r == has_class(string_views(classes@), c@),
{
    let cv = chars_of(c);
    let mut i: usize = 0;
    while i < classes.len()
        invariant
            i <= classes.len(),
            cv@ == c@,
            forall|k: int| 0 <= k < i ==> #[trigger] string_views(classes@)[k] != c@,
        decreases classes.len() - i,
    {
        if seq_eq(&chars_of(classes[i].as_str()), &cv) {
            assert(string_views(classes@)[i as int] == c@);
            return true;
        }
        i = i + 1;
    }
    false
}

/// Start of what follows the last `/` before `j` (0 when there is none).
pub open spec fn after_last_slash(s: Seq<char>, j: int) -> int
    decreases j,
{
    if j <= 0 {
        0
    } else if s[j - 1] == '/' {
        j
    } else {
        after_last_slash(s, j - 1)
    }
}

pub proof fn lemma_after_last_slash(s: Seq<char>, j: int)
    requires
        0 <= j <= s.len(),
    ensures
        0 <= after_last_slash(s, j) <= j,
    decreases j,
{
    if j > 0 && s[j - 1] != '/' {
        lemma_after_last_slash(s, j - 1);
    }
}

/// First index at or after `i` that is not `/`.
pub open spec fn skip_slashes(s: Seq<char>, i: int) -> int
    decreases s.len() - i,
{
    if i < 0 || i >= s.len() {
        s.len() as int
    } else if s[i] == '/' {
        skip_slashes(s, i + 1)
    } else {
        i
    }
}

/// End of `s` once trailing `/` are dropped, not before `lo`.
pub open spec fn end_before_slashes(s: Seq<char>, lo: int, j: int) -> int
    decreases j - lo,
{
    if j <= lo {
        lo
    } else if s[j - 1] == '/' {
        end_before_slashes(s, lo, j - 1)
    } else {
        j
    }
}

pub proof fn lemma_slash_bounds(s: Seq<char>, i: int, j: int)
    requires
        0 <= i <= s.len(),
        0 <= j <= s.len(),
    ensures
        i <= skip_slashes(s, i) <= s.len(),
        i <= j ==> i <= end_before_slashes(s, i, j) <= j,
    decreases s.len() - i + j,
{
    if i < s.len() && s[i] == '/' {
        lemma_slash_bounds(s, i + 1, j);
    }
    if j > i && s[j - 1] == '/' {
        lemma_slash_bounds(s, i, j - 1);
    }
}

/// `href.trim_matches('/').split('/').next_back()`: the last segment of a
/// link once its leading and trailing slashes are dropped.
pub open spec fn href_index_spec(href: Seq<char>) -> Seq<char> {
    let a = skip_slashes(href, 0);
    let t = href.subrange(a, end_before_slashes(href, a, href.len() as int));
    t.subrange(after_last_slash(t, t.len() as int), t.len() as int)
}

proof fn lemma_after_last_slash_at(t: Seq<char>, m: int, j: int)
    requires
        0 <= m <= j <= t.len(),
        m == 0 || t[m - 1] == '/',
        forall|x: int| m <= x < j ==> #[trigger] t[x] != '/',
    ensures
        after_last_slash(t, j) == m,
    decreases j,
{
    if j > m {
        lemma_after_last_slash_at(t, m, j - 1);
    }
}

proof fn lemma_no_slash_suffix(t: Seq<char>, j: int)
    requires
        0 <= j <= t.len(),
    ensures
        forall|x: int| after_last_slash(t, j) <= x < j ==> #[trigger] t[x] != '/',
    decreases j,
{
    if j > 0 && t[j - 1] != '/' {
        lemma_no_slash_suffix(t, j - 1);
    }
}

/// An episode's index is the whole last segment of its link: for a link
/// `p/b/` or `p/b` with `b` a non-empty segment, it is `b`; and it never
/// holds a `/`.
pub proof fn lemma_href_index_last_segment(p: Seq<char>, b: Seq<char>)
    requires
        b.len() > 0,
        forall|x: int| 0 <= x < b.len() ==> #[trigger] b[x] != '/',
    ensures
        href_index_spec(p + seq!['/'] + b + seq!['/']) == b,
        href_index_spec(p + seq!['/'] + b) == b,
        forall|x: int| 0 <= x < href_index_spec(p).len() ==> #[trigger] href_index_spec(p)[x] != '/',
{
    let s = p + seq!['/'] + b + seq!['/'];
    let n = s.len() as int;
    let q = p.len() as int;
    lemma_slash_bounds(s, 0, n);
    let a = skip_slashes(s, 0);
    assert(s[q + 1] == b[0]);
    assert(a <= q + 1) by {
        lemma_skip_slashes_stop(s, 0, q + 1);
    }
    lemma_slash_bounds(s, a, n);
    assert(s[n - 1] == '/');
    assert(s[n - 2] == b[b.len() - 1]);
    assert(end_before_slashes(s, a, n - 1) == n - 1);
    assert(end_before_slashes(s, a, n) == n - 1);
    let t = s.subrange(a, n - 1);
    let m = q + 1 - a;
    assert forall|x: int| m <= x < t.len() implies #[trigger] t[x] != '/' by {
        assert(t[x] == s[a + x]);
        assert(s[a + x] == b[a + x - q - 1]);
    }
    if m > 0 {
        assert(t[m - 1] == s[q]);
    }
    lemma_after_last_slash_at(t, m, t.len() as int);
    assert(t.subrange(m, t.len() as int) =~= b);
    let s3 = p + seq!['/'] + b;
    let n3 = s3.len() as int;
    lemma_slash_bounds(s3, 0, n3);
    let a3 = skip_slashes(s3, 0);
    assert(s3[q + 1] == b[0]);
    lemma_skip_slashes_stop(s3, 0, q + 1);
    lemma_slash_bounds(s3, a3, n3);
    assert(s3[n3 - 1] == b[b.len() - 1]);
    assert(end_before_slashes(s3, a3, n3) == n3);
    let t3 = s3.subrange(a3, n3);
    let m3 = q + 1 - a3;
    assert forall|x: int| m3 <= x < t3.len() implies #[trigger] t3[x] != '/' by {
        assert(t3[x] == s3[a3 + x]);
        assert(s3[a3 + x] == b[a3 + x - q - 1]);
    }
    if m3 > 0 {
        assert(t3[m3 - 1] == s3[q]);
    }
    lemma_after_last_slash_at(t3, m3, t3.len() as int);
    assert(t3.subrange(m3, t3.len() as int) =~= b);
    let a2 = skip_slashes(p, 0);
    lemma_slash_bounds(p, 0, p.len() as int);
    lemma_slash_bounds(p, a2, p.len() as int);
    let t2 = p.subrange(a2, end_before_slashes(p, a2, p.len() as int));
    lemma_no_slash_suffix(t2, t2.len() as int);
    lemma_after_last_slash(t2, t2.len() as int);
}

proof fn lemma_skip_slashes_stop(s: Seq<char>, i: int, k: int)
    requires
        0 <= i <= k < s.len(),
        s[k] != '/',
    ensures
        skip_slashes(s, i) <= k,
    decreases k - i,
{
    if i < k && s[i] == '/' {
        lemma_skip_slashes_stop(s, i + 1, k);
    }
}

fn href_index(href: &Vec<char>) -> (res: Vec<char>)
    ensures
        res@ == href_index_spec(href@),
{
    let mut a: usize = 0;
    while a < href.len() && href[a] == '/'
        invariant
            a <= href.len(),
            skip_slashes(href@, 0) == skip_slashes(href@, a as int),
        decreases href.len() - a,
    {
        a = a + 1;
    }
    proof {
        lemma_slash_bounds(href@, a as int, href.len() as int);
    }
    let mut b: usize = href.len();
    while b > a && href[b - 1] == '/'
        invariant
            a <= b <= href.len(),
            end_before_slashes(href@, a as int, href.len() as int) == end_before_slashes(
                href@,
                a as int,
                b as int,
            ),
        decreases b,
    {
        b = b - 1;
    }
    let t = slice_chars(href, a, b);
    let mut c: usize = t.len();
    while c > 0 && t[c - 1] != '/'
        invariant
            c <= t.len(),
            after_last_slash(t@, t.len() as int) == after_last_slash(t@, c as int),
        decreases c,
    {
        c = c - 1;
    }
    slice_chars(&t, c, t.len())
}

/// Index of the first `（` in `s`, or its length.
pub open spec fn first_paren(s: Seq<char>, i: int) -> int
    decreases s.len() - i,
{
    if i < 0 || i >= s.len() {
        s.len() as int
    } else if s[i] == '（' {
        i
    } else {
        first_paren(s, i + 1)
    }
}

pub proof fn lemma_first_paren(s: Seq<char>, i: int)
    requires
        0 <= i <= s.len(),
    ensures
        i <= first_paren(s, i) <= s.len(),
    decreases s.len() - i,
{
    if i < s.len() && s[i] != '（' {
        lemma_first_paren(s, i + 1);
    }
}

/// The date of an update line: the text before any `（`, trimmed.
pub open spec fn subdate_spec(update: Seq<char>) -> Seq<char> {
    trim(update.subrange(0, first_paren(update, 0)))
}

fn subdate_of(update: &Vec<char>) -> (res: Vec<char>)
    ensures
        res@ == subdate_spec(update@),
{
    let mut i: usize = 0;
    while i < update.len() && update[i] != '（'
        invariant
            i <= update.len(),
            first_paren(update@, 0) == first_paren(update@, i as int),
        decreases update.len() - i,
    {
        i = i + 1;
    }
    proof {
        lemma_first_paren(update@, i as int);
    }
    trim_chars(&slice_chars(update, 0, i))
}

pub open spec fn toc_inner() -> Seq<(Seq<char>, Seq<char>)> {
    seq![
        ("a.p-eplist__subtitle"@, "href"@),
        (".p-eplist__update"@, ""@),
        (".p-eplist__update span[title]"@, "title"@),
    ]
}

/// The first title link has an address.
pub open spec fn linked(o: crate::scrape::InnerView) -> bool {
    o matches Some((_, Some(_)))
}

/// The episode that a sublist row stands for, under `chapter`.
pub open spec fn toc_episode(r: RowView, chapter: Seq<char>) -> SubtitleView {
    let title = match r.2[0] {
        Some((t, _)) => t,
        None => Seq::empty(),
    };
    let href = match r.2[0] {
        Some((_, Some(h))) => h,
        _ => Seq::empty(),
    };
    let update = match r.2[1] {
        Some((u, _)) => u,
        None => Seq::empty(),
    };
    let subupdate = match r.2[2] {
        Some((_, Some(a))) => Some(replace_all(a, " 改稿"@, ""@)),
        _ => None,
    };
    (
        href_index_spec(href),
        href,
        chapter,
        Seq::empty(),
        trim(title),
        sanitize_spec(trim(title)),
        subdate_spec(update),
        subupdate,
    )
}

/// A chapter row sets the current chapter; a sublist row with a titled link
/// is an episode, and the first episode after a new chapter carries it.
pub open spec fn toc_from(rows: Seq<RowView>, i: int, current: Seq<char>, emitted: Seq<char>) -> Seq<
    SubtitleView,
>
    decreases rows.len() - i,
{
    if i < 0 || i >= rows.len() {
        Seq::empty()
    } else {
        let r = rows[i];
        let cur = if has_class(r.0, "p-eplist__chapter-title"@) {
            trim(r.1)
        } else {
            current
        };
        if has_class(r.0, "p-eplist__sublist"@) && linked(r.2[0]) {
            let fresh = cur.len() > 0 && cur != emitted;
            let chapter = if fresh {
                cur
            } else {
                Seq::empty()
            };
            seq![toc_episode(r, chapter)] + toc_from(
                rows,
                i + 1,
                cur,
                if fresh {
                    cur
                } else {
                    emitted
                },
            )
        } else {
            toc_from(rows, i + 1, cur, emitted)
        }
    }
}

pub open spec fn toc_page_spec(html: Seq<char>) -> Seq<SubtitleView> {
    match selected_rows_in_tree(html, "div"@, toc_inner()) {
        Some(rows) => toc_from(rows, 0, Seq::empty(), Seq::empty()),
        None => Seq::empty(),
    }
}

fn episode_of(row: &HtmlRow, chapter: Vec<char>) -> (res: Subtitle)
    requires
        row.inner@.len() == 3,
        linked(row_view(*row).2[0]),
    ensures
        subtitle_view(res) == toc_episode(row_view(*row), chapter@),
{
    let (title, href) = match &row.inner[0] {
        Some((t, Some(h))) => (t.clone(), h.clone()),
        _ => {
            proof {
                assert(false);
            }
            (String::new(), String::new())
        },
    };
    assert(row_view(*row).2[0] == crate::scrape::inner_view(row.inner@[0]));
    assert(row_view(*row).2[1] == crate::scrape::inner_view(row.inner@[1]));
    assert(row_view(*row).2[2] == crate::scrape::inner_view(row.inner@[2]));
    let hv = chars_of(href.as_str());
    let title_t = trim_chars(&chars_of(title.as_str()));
    let update: Vec<char> = match &row.inner[1] {
        Some((u, _)) => chars_of(u.as_str()),
        None => Vec::new(),
    };
    proof {
        reveal_strlit(" 改稿");
        reveal_strlit("");
    }
    let subupdate = match &row.inner[2] {
        Some((_, Some(a))) => Some(string_of(&replace_chars(&chars_of(a.as_str()), &chars_of(" 改稿"), &chars_of("")))),
        _ => None,
    };
    let title_s = string_of(&title_t);
    let file_subtitle = sanitize_filename(title_s.as_str());
    Subtitle {
        index: string_of(&href_index(&hv)),
        href,
        chapter: string_of(&chapter),
        subchapter: String::new(),
        subtitle: title_s,
        file_subtitle,
        subdate: string_of(&subdate_of(&update)),
        subupdate,
    }
}

/// The episodes listed on a table-of-contents page, in page order.
pub fn parse_toc_page(html: &str) -> (res: Vec<Subtitle>)
    ensures
        subtitle_views(res@) == toc_page_spec(html@),
{
    let mut inner: Vec<(&str, &str)> = Vec::new();
    inner.push(("a.p-eplist__subtitle", "href"));
    inner.push((".p-eplist__update", ""));
    inner.push((".p-eplist__update span[title]", "title"));
    assert(pair_views(inner@) =~= toc_inner());
    let rows = match select_rows_in_tree(html, "div", &inner) {
        Some(rows) => rows,
        None => return Vec::new(),
    };
    let ghost rv = rows_view(rows@);
    let mut out: Vec<Subtitle> = Vec::new();
    let mut current: Vec<char> = Vec::new();
    let mut emitted: Vec<char> = Vec::new();
    let mut i: usize = 0;
    while i < rows.len()
        invariant
            i <= rows.len(),
            rv == rows_view(rows@),
            forall|k: int| 0 <= k < rows@.len() ==> #[trigger] rows@[k].inner@.len() == 3,
            toc_page_spec(html@) == subtitle_views(out@) + toc_from(rv, i as int, current@, emitted@),
        decreases rows.len() - i,
    {
        let row = &rows[i];
        assert(rv[i as int] == row_view(*row));
        if has_class_v(&row.classes, "p-eplist__chapter-title") {
            current = trim_chars(&chars_of(row.text.as_str()));
        }
        let linked = match &row.inner[0] {
            Some((_, Some(_))) => true,
            _ => false,
        };
        if has_class_v(&row.classes, "p-eplist__sublist") && linked {
            let fresh = current.len() > 0 && !seq_eq(&current, &emitted);
            let chapter: Vec<char> = if fresh {
                emitted = slice_chars(&current, 0, current.len());
                assert(emitted@ =~= current@);
                slice_chars(&current, 0, current.len())
            } else {
                Vec::new()
            };
            assert(current@.subrange(0, current@.len() as int) =~= current@);
            let ghost before = out@;
            out.push(episode_of(row, chapter));
            assert(subtitle_views(out@) =~= subtitle_views(before).push(subtitle_views(out@).last()));
        }
        i = i + 1;
    }
    out
}


/// The link of the next table-of-contents page, made absolute.
pub open spec fn next_toc_page_spec(html: Seq<char>, base_url: Seq<char>) -> Option<Seq<char>> {
    match selected_fragments_with(html, "a.c-pager__item--next"@, "href"@) {
        Some(fs) => if fs.len() > 0 && fs[0].2 is Some {
            Some(absolute_href_spec(fs[0].2->0, base_url))
        } else {
            None
        },
        None => None,
    }
}

pub fn next_toc_page(html: &str, base_url: &str) -> (res: Option<String>)
    ensures
        opt_seq(res) == next_toc_page_spec(html@, base_url@),
{
    match select_fragments(html, "a.c-pager__item--next", "href") {
        Some(fs) => {
            if fs.len() == 0 {
                return None;
            }
            match &fs[0].2 {
                Some(href) => Some(next_page_url(href.as_str(), base_url)),
                None => None,
            }
        },
        None => None,
    }
}

pub open spec fn or_empty(o: Option<Seq<char>>) -> Seq<char> {
    match o {
        Some(s) => s,
        None => Seq::empty(),
    }
}

fn unwrap_or_empty(o: Option<String>) -> (res: String)
    ensures
        res@ == or_empty(opt_seq(o)),
{
    match o {
        Some(s) => s,
        None => String::new(),
    }
}

/// The novel's title on a table-of-contents page, or nothing.
pub fn page_title(html: &str) -> (res: String)
    ensures
        res@ == or_empty(first_text_spec(html@, ".p-novel__title, .novel_title"@)),
{
    unwrap_or_empty(extract_text(html, ".p-novel__title, .novel_title"))
}

pub open spec fn info_inner() -> Seq<(Seq<char>, Seq<char>)> {
    seq![(".p-infotop-data__title"@, ""@), (".p-infotop-data__value"@, ""@)]
}

/// The key/value rows of the information table, in order: each row with a
/// title and a value gives their trimmed texts.
pub open spec fn info_row_pairs(rows: Seq<RowView>) -> Seq<(Seq<char>, Seq<char>)>
    decreases rows.len(),
{
    if rows.len() == 0 {
        Seq::empty()
    } else {
        let r = rows.last();
        let rest = info_row_pairs(rows.drop_last());
        match (r.2[0], r.2[1]) {
            (Some((k, _)), Some((v, _))) => rest.push((trim(k), trim(v))),
            _ => rest,
        }
    }
}

/// The `dt`/`dd` children of the older information list: a non-empty `dt`
/// names the key that the next `dd` takes.
pub open spec fn dl_pairs(children: Seq<(Seq<char>, Seq<char>)>, i: int, pending: Option<Seq<char>>) -> Seq<
    (Seq<char>, Seq<char>),
>
    decreases children.len() - i,
{
    if i < 0 || i >= children.len() {
        Seq::empty()
    } else {
        let (name, text) = children[i];
        if name == "dt"@ {
            dl_pairs(children, i + 1, if trim(text).len() > 0 {
                Some(trim(text))
            } else {
                pending
            })
        } else if name == "dd"@ {
            match pending {
                Some(k) => seq![(k, trim(text))] + dl_pairs(children, i + 1, None),
                None => dl_pairs(children, i + 1, None),
            }
        } else {
            dl_pairs(children, i + 1, pending)
        }
    }
}

/// The information table as key/value entries in the order they were
/// read (a later entry for a key replaces an earlier one): from the table
/// rows, or when they give none, from the older definition list.
pub open spec fn info_map_spec(html: Seq<char>) -> Seq<(Seq<char>, Seq<char>)> {
    let from_rows = match selected_rows(html, ".p-infotop-data__table dl"@, info_inner()) {
        Some(rows) => info_row_pairs(rows),
        None => Seq::empty(),
    };
    if from_rows.len() > 0 {
        from_rows
    } else {
        match first_match_children_result(html, "dl.p-infotop-data"@) {
            Some(c) => dl_pairs(c, 0, None),
            None => Seq::empty(),
        }
    }
}

pub open spec fn pairs_view(v: Seq<(String, String)>) -> Seq<(Seq<char>, Seq<char>)> {
    crate::scrape::named_texts(v)
}

fn push_pair(out: &mut Vec<(String, String)>, k: Vec<char>, v: Vec<char>)
    ensures
        pairs_view(final(out)@) == pairs_view(old(out)@).push((k@, v@)),
{
    let ghost before = out@;
    out.push((string_of(&k), string_of(&v)));
    assert(pairs_view(out@) =~= pairs_view(before).push((k@, v@)));
}

fn is_named(name: &String, tag: &str) -> (r: bool)
    ensures
        r == (name@ == tag@),
{
    seq_eq(&chars_of(name.as_str()), &chars_of(tag))
}

fn dl_pairs_exec(children: &Vec<(String, String)>) -> (res: Vec<(String, String)>)
    ensures
        pairs_view(res@) == dl_pairs(named_texts(children@), 0, None),
{
    let ghost c = named_texts(children@);
    let mut out: Vec<(String, String)> = Vec::new();
    let mut pending: Option<Vec<char>> = None;
    let mut i: usize = 0;
    while i < children.len()
        invariant
            i <= children.len(),
            c == named_texts(children@),
            dl_pairs(c, 0, None) == pairs_view(out@) + dl_pairs(
                c,
                i as int,
                match pending {
                    Some(p) => Some(p@),
                    None => None,
                },
            ),
        decreases children.len() - i,
    {
        let (name, text) = (&children[i].0, &children[i].1);
        assert(c[i as int] == (name@, text@));
        if is_named(name, "dt") {
            let t = trim_chars(&chars_of(text.as_str()));
            if t.len() > 0 {
                pending = Some(t);
            }
        } else if is_named(name, "dd") {
            match pending {
                Some(k) => {
                    let ghost before = pairs_view(out@);
                    push_pair(&mut out, k, trim_chars(&chars_of(text.as_str())));
                    pending = None;
                    assert(before + (seq![pairs_view(out@).last()] + dl_pairs(c, i + 1, None))
                        =~= pairs_view(out@) + dl_pairs(c, i + 1, None));
                },
                None => {},
            }
        }
        i = i + 1;
    }
    out
}

/// The information table of a novel's information page.
pub fn extract_info_map(html: &str) -> (res: Vec<(String, String)>)
    ensures
        pairs_view(res@) == info_map_spec(html@),
{
    let mut inner: Vec<(&str, &str)> = Vec::new();
    inner.push((".p-infotop-data__title", ""));
    inner.push((".p-infotop-data__value", ""));
    assert(pair_views(inner@) =~= info_inner());
    let mut out: Vec<(String, String)> = Vec::new();
    if let Some(rows) = select_rows(html, ".p-infotop-data__table dl", &inner) {
        let ghost rv = rows_view(rows@);
        let mut i: usize = 0;
        while i < rows.len()
            invariant
                i <= rows.len(),
                rv == rows_view(rows@),
                forall|k: int| 0 <= k < rows@.len() ==> #[trigger] rows@[k].inner@.len() == 2,
                pairs_view(out@) == info_row_pairs(rv.take(i as int)),
            decreases rows.len() - i,
        {
            let row = &rows[i];
            assert(rv.take(i + 1).drop_last() =~= rv.take(i as int));
            assert(rv.take(i + 1).last() == row_view(*row));
            assert(row_view(*row).2[0] == crate::scrape::inner_view(row.inner@[0]));
            assert(row_view(*row).2[1] == crate::scrape::inner_view(row.inner@[1]));
            match (&row.inner[0], &row.inner[1]) {
                (Some((k, _)), Some((v, _))) => {
                    push_pair(&mut out, trim_chars(&chars_of(k.as_str())), trim_chars(&chars_of(v.as_str())));
                },
                _ => {},
            }
            i = i + 1;
        }
        assert(rv.take(rows.len() as int) =~= rv);
    }
    if out.len() > 0 {
        return out;
    }
    match first_match_children(html, "dl.p-infotop-data") {
        Some(children) => dl_pairs_exec(&children),
        None => Vec::new(),
    }
}

pub open spec fn is_preface_or_afterword(classes: Seq<Seq<char>>) -> bool {
    has_class(classes, "p-novel__text--preface"@) || has_class(classes, "p-novel__text--afterword"@)
}

/// The first episode-text block that is neither foreword nor afterword and
/// whose inner HTML, trimmed, is not empty.
pub open spec fn main_body_from(fs: Seq<(Seq<char>, Seq<Seq<char>>, Option<Seq<char>>)>, i: int) -> Option<
    Seq<char>,
>
    decreases fs.len() - i,
{
    if i < 0 || i >= fs.len() {
        None
    } else if is_preface_or_afterword(fs[i].1) || trim(fs[i].0).len() == 0 {
        main_body_from(fs, i + 1)
    } else {
        Some(trim(fs[i].0))
    }
}

pub open spec fn main_body_spec(html: Seq<char>) -> Option<Seq<char>> {
    match selected_fragments_with(html, ".js-novel-text.p-novel__text"@, ""@) {
        Some(fs) => main_body_from(fs, 0),
        None => None,
    }
}

pub fn extract_main_body_html(html: &str) -> (res: Option<String>)
    ensures
        opt_seq(res) == main_body_spec(html@),
{
    let fs = match select_fragments(html, ".js-novel-text.p-novel__text", "") {
        Some(fs) => fs,
        None => return None,
    };
    let ghost fv = fs@.map_values(
        |f: (String, Vec<String>, Option<String>)| crate::scrape::fragment_view(f),
    );
    let mut i: usize = 0;
    while i < fs.len()
        invariant
            i <= fs.len(),
            fv == fs@.map_values(
                |f: (String, Vec<String>, Option<String>)| crate::scrape::fragment_view(f),
            ),
            main_body_from(fv, 0) == main_body_from(fv, i as int),
            main_body_spec(html@) == main_body_from(fv, 0),
        decreases fs.len() - i,
    {
        assert(fv[i as int] == crate::scrape::fragment_view(fs@[i as int]));
        assert(fv[i as int].0 == fs@[i as int].0@);
        assert(fv[i as int].1 == string_views(fs@[i as int].1@));
        let skip = has_class_v(&fs[i].1, "p-novel__text--preface") || has_class_v(
            &fs[i].1,
            "p-novel__text--afterword",
        );
        if !skip {
            let t = trim_chars(&chars_of(fs[i].0.as_str()));
            if t.len() > 0 {
                return Some(string_of(&t));
            }
        }
        i = i + 1;
    }
    None
}

/// What an episode page gives: its foreword, afterword and body, or the
/// error when no body is found.
pub open spec fn section_from_page_spec(html: Seq<char>, s: Subtitle, res: Result<Section, ErrorMessage>) -> bool {
    match main_body_spec(html) {
        None => res matches Err(e) && error_is(e, "body not found"@, None),
        Some(body) => res matches Ok(sec) && {
            &&& sec.chapter@ == s.chapter@
            &&& sec.subchapter@ == s.subchapter@
            &&& sec.subtitle@ == s.subtitle@
            &&& sec.element.data_type@ == "html"@
            &&& sec.element.introduction@ == or_empty(first_html_spec(html, ".p-novel__text--preface"@))
            &&& sec.element.postscript@ == or_empty(first_html_spec(html, ".p-novel__text--afterword"@))
            &&& sec.element.body@ == body
        },
    }
}

pub fn section_from_page(html: &str, subtitle: &Subtitle) -> (res: Result<Section, ErrorMessage>)
    ensures
        section_from_page_spec(html@, *subtitle, res),
{
    let introduction = unwrap_or_empty(extract_html(html, ".p-novel__text--preface"));
    let postscript = unwrap_or_empty(extract_html(html, ".p-novel__text--afterword"));
    let body = match extract_main_body_html(html) {
        Some(b) => b,
        None => return Err(ErrorMessage::new(String::from_str("body not found"))),
    };
    Ok(Section {
        chapter: subtitle.chapter.clone(),
        subchapter: subtitle.subchapter.clone(),
        subtitle: subtitle.subtitle.clone(),
        element: SectionElement {
            data_type: String::from_str("html"),
            introduction,
            postscript,
            body,
        },
    })
}

/// What `fetch_novel` makes of the pages: the title and episodes read from
/// the table of contents, and the author, synopsis, type, dates, length and
/// site read from the information page.
pub fn novel_from_pages(
    title: String,
    episodes: Vec<Subtitle>,
    info_html: &str,
    resolved: &ResolvedNovel,
) -> (res: ParsedNovel)
    ensures
        exists|info: Seq<(String, String)>|
            pairs_view(info) == info_map_spec(info_html@) && #[trigger] parsed_novel_is(
                res,
                title@,
                episodes@,
                or_empty(
                    first_text_spec(
                        info_html@,
                        "a.p-infotop-author__link, dd.p-infotop-data__value a"@,
                    ),
                ),
                story_text_spec(or_empty(first_html_spec(info_html@, "dd.p-infotop-data__value"@))),
                or_empty(first_text_spec(info_html@, ".p-infotop-type__type, #noveltype"@)),
                info,
                site_name_spec(
                    info_get(info, "掲載サイト"@),
                    first_attr_spec(info_html@, "meta[property=\"og:site_name\"]"@, "content"@),
                    resolved.base_url@,
                ),
                resolved.toc_url@,
            ),
{
    let author = unwrap_or_empty(
        extract_text(info_html, "a.p-infotop-author__link, dd.p-infotop-data__value a"),
    );
    let story_html = unwrap_or_empty(extract_html(info_html, "dd.p-infotop-data__value"));
    let story = html_to_story_text(story_html.as_str());
    let type_label = unwrap_or_empty(extract_text(info_html, ".p-infotop-type__type, #noveltype"));
    let info_map = extract_info_map(info_html);
    let og = extract_attr(info_html, "meta[property=\"og:site_name\"]", "content");
    let sitename = detect_site_name(&info_map, og, resolved.base_url.as_str());
    let ghost info = info_map@;
    let res = assemble_novel(
        title,
        episodes,
        author,
        story,
        type_label.as_str(),
        &info_map,
        sitename,
        resolved.toc_url.clone(),
    );
    assert(pairs_view(info) == info_map_spec(info_html@));
    res
}

} // verus!
