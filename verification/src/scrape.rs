//! Queries on an HTML page by CSS selector, through the `scraper` crate,
//! with their answers as plain values; and the small readers built on
//! them: the text, inner HTML or attribute of the first match.
//!
//! Every query parses the page with `Html::parse_document`. `Html::select`
//! visits the matches in the order the parser created their nodes;
//! `select_rows_in_tree` walks the document tree from its root element
//! instead, in tree order.

use vstd::prelude::*;
use scraper::{ElementRef, Html, Selector};
use crate::convert::string_views;
use crate::syosetu::opt_seq;
use crate::text::{chars_of, string_of, trim, trim_chars};

verus! {

/// A match, seen from the outside: its classes, its text, and for each
/// inner selector of the query the first match inside it, as its text and
/// the value of the requested attribute.
#[derive(Debug)]
pub struct HtmlRow {
    pub classes: Vec<String>,
    pub text: String,
    pub inner: Vec<Option<(String, Option<String>)>>,
}

pub type InnerView = Option<(Seq<char>, Option<Seq<char>>)>;

pub type RowView = (Seq<Seq<char>>, Seq<char>, Seq<InnerView>);

pub open spec fn inner_view(o: Option<(String, Option<String>)>) -> InnerView {
    match o {
        Some((t, a)) => Some((t@, opt_seq(a))),
        None => None,
    }
}

pub open spec fn row_view(r: HtmlRow) -> RowView {
    (string_views(r.classes@), r.text@, r.inner@.map_values(|o: Option<(String, Option<String>)>| inner_view(o)))
}

pub open spec fn rows_view(rs: Seq<HtmlRow>) -> Seq<RowView> {
    rs.map_values(|r: HtmlRow| row_view(r))
}

pub open spec fn pair_views(v: Seq<(&str, &str)>) -> Seq<(Seq<char>, Seq<char>)> {
    v.map_values(|p: (&str, &str)| (p.0@, p.1@))
}

/// Result of `select_rows`: `None` when a selector does not parse.
pub uninterp spec fn selected_rows(
    html: Seq<char>,
    outer: Seq<char>,
    inner: Seq<(Seq<char>, Seq<char>)>,
) -> Option<Seq<RowView>>;

/// Parses `html` (`Html::parse_document`) and the selectors
/// (`Selector::parse`), then for each match of `outer` (`Html::select`)
/// reads its classes (`Element::classes`), its text (`ElementRef::text`)
/// and, for each `(selector, attribute)` of `inner`, the first match inside
/// it (`ElementRef::select`) with its text and `Element::attr`. Claimed:
/// the result is a function of the arguments alone, named above, and each
/// row has one entry per inner selector.
#[verifier::external_body]
pub(crate) fn select_rows(html: &str, outer: &str, inner: &Vec<(&str, &str)>) -> (res: Option<Vec<HtmlRow>>)
    ensures
        match res {
            Some(rows) => selected_rows(html@, outer@, pair_views(inner@)) == Some(rows_view(rows@))
                && forall|i: int| 0 <= i < rows@.len() ==> #[trigger] rows@[i].inner@.len() == inner@.len(),
            None => selected_rows(html@, outer@, pair_views(inner@)) is None,
        },
{
    let outer = Selector::parse(outer).ok()?;
    let sels = inner.iter().map(|p| Some((Selector::parse(p.0).ok()?, p.1))).collect::<Option<Vec<_>>>()?;
    Some(Html::parse_document(html).select(&outer).map(|e| HtmlRow {
        classes: e.value().classes().map(String::from).collect(),
        text: e.text().collect(),
        inner: sels.iter().map(|(s, a)| e.select(s).next().map(|m| (m.text().collect(), m.attr(a).map(String::from)))).collect(),
    }).collect())
}

/// Result of `select_rows_in_tree`: `None` when a selector does not parse.
pub uninterp spec fn selected_rows_in_tree(
    html: Seq<char>,
    outer: Seq<char>,
    inner: Seq<(Seq<char>, Seq<char>)>,
) -> Option<Seq<RowView>>;

/// As `select_rows`, but the matches of `outer` are those below the root
/// element (`Html::root_element`, then `ElementRef::select`), visited in
/// tree order. Claimed: the result is a function of the arguments alone,
/// named above, and each row has one entry per inner selector.
#[verifier::external_body]
pub(crate) fn select_rows_in_tree(html: &str, outer: &str, inner: &Vec<(&str, &str)>) -> (res: Option<Vec<HtmlRow>>)
    ensures
        match res {
            Some(rows) => selected_rows_in_tree(html@, outer@, pair_views(inner@)) == Some(rows_view(rows@))
                && forall|i: int| 0 <= i < rows@.len() ==> #[trigger] rows@[i].inner@.len() == inner@.len(),
            None => selected_rows_in_tree(html@, outer@, pair_views(inner@)) is None,
        },
{
    let outer = Selector::parse(outer).ok()?;
    let sels = inner.iter().map(|p| Some((Selector::parse(p.0).ok()?, p.1))).collect::<Option<Vec<_>>>()?;
    Some(Html::parse_document(html).root_element().select(&outer).map(|e| HtmlRow {
        classes: e.value().classes().map(String::from).collect(),
        text: e.text().collect(),
        inner: sels.iter().map(|(s, a)| e.select(s).next().map(|m| (m.text().collect(), m.attr(a).map(String::from)))).collect(),
    }).collect())
}

pub open spec fn fragment_view(f: (String, Vec<String>, Option<String>)) -> (
    Seq<char>,
    Seq<Seq<char>>,
    Option<Seq<char>>,
) {
    (f.0@, string_views(f.1@), opt_seq(f.2))
}

/// Parses `html` (`Html::parse_document`) and the selector
/// (`Selector::parse`), then for each match (`Html::select`) reads its
/// inner HTML (`ElementRef::inner_html`), its classes (`Element::classes`)
/// and its attribute `attr` (`ElementRef::attr`). Claimed: the result is a
/// function of the arguments alone, named below.
#[verifier::external_body]
pub(crate) fn select_fragments(html: &str, selector: &str, attr: &str) -> (res: Option<
    Vec<(String, Vec<String>, Option<String>)>,
>)
    ensures
        match res {
            Some(v) => selected_fragments_with(html@, selector@, attr@) == Some(
                v@.map_values(|f: (String, Vec<String>, Option<String>)| fragment_view(f)),
            ),
            None => selected_fragments_with(html@, selector@, attr@) is None,
        },
{
    let sel = Selector::parse(selector).ok()?;
    Some(Html::parse_document(html).select(&sel).map(|e| {
        (e.inner_html(), e.value().classes().map(String::from).collect(), e.attr(attr).map(String::from))
    }).collect())
}

/// Result of `select_fragments`: `None` when the selector does not parse.
pub uninterp spec fn selected_fragments_with(html: Seq<char>, selector: Seq<char>, attr: Seq<char>) -> Option<
    Seq<(Seq<char>, Seq<Seq<char>>, Option<Seq<char>>)>,
>;

/// Result of `first_match_children`: `None` when the selector does not
/// parse; the element children of the first match, each as its tag name
/// and text (none when nothing matches).
pub uninterp spec fn first_match_children_result(html: Seq<char>, selector: Seq<char>) -> Option<
    Seq<(Seq<char>, Seq<char>)>,
>;

pub open spec fn named_texts(v: Seq<(String, String)>) -> Seq<(Seq<char>, Seq<char>)> {
    v.map_values(|p: (String, String)| (p.0@, p.1@))
}

/// Parses `html` (`Html::parse_document`) and the selector, takes the
/// first match (`Html::select`), and reads its element children
/// (`ego_tree::NodeRef::children` through `ElementRef::wrap`) as tag name
/// (`Element::name`) and text (`ElementRef::text`). Claimed: the result is
/// a function of the two strings alone, named above.
#[verifier::external_body]
pub(crate) fn first_match_children(html: &str, selector: &str) -> (res: Option<Vec<(String, String)>>)
    ensures
        match res {
            Some(v) => first_match_children_result(html@, selector@) == Some(named_texts(v@)),
            None => first_match_children_result(html@, selector@) is None,
        },
{
    let page = Html::parse_document(html);
    let sel = Selector::parse(selector).ok()?;
    Some(page.select(&sel).next().map(|c| {
        c.children().filter_map(ElementRef::wrap).map(|e| (e.value().name().to_string(), e.text().collect())).collect()
    }).unwrap_or_default())
}

/// The first match's text, trimmed; `None` when there is no match, the
/// selector does not parse, or the text is empty.
pub open spec fn first_text_spec(html: Seq<char>, selector: Seq<char>) -> Option<Seq<char>> {
    match selected_rows(html, selector, Seq::empty()) {
        Some(rows) => if rows.len() > 0 && trim(rows[0].1).len() > 0 {
            Some(trim(rows[0].1))
        } else {
            None
        },
        None => None,
    }
}

/// `extract_text`: the trimmed text of the first element that `selector`
/// matches, if not empty.
pub fn extract_text(html: &str, selector: &str) -> (res: Option<String>)
    ensures
        opt_seq(res) == first_text_spec(html@, selector@),
{
    let none: Vec<(&str, &str)> = Vec::new();
    assert(pair_views(none@) =~= Seq::empty());
    match select_rows(html, selector, &none) {
        Some(rows) => {
            if rows.len() == 0 {
                return None;
            }
            let t = trim_chars(&chars_of(rows[0].text.as_str()));
            if t.len() == 0 {
                None
            } else {
                Some(string_of(&t))
            }
        },
        None => None,
    }
}

/// The first match's inner HTML, trimmed; `None` when there is no match,
/// the selector does not parse, or it is empty.
pub open spec fn first_html_spec(html: Seq<char>, selector: Seq<char>) -> Option<Seq<char>> {
    match selected_fragments_with(html, selector, ""@) {
        Some(fs) => if fs.len() > 0 && trim(fs[0].0).len() > 0 {
            Some(trim(fs[0].0))
        } else {
            None
        },
        None => None,
    }
}

/// `extract_html`: the trimmed inner HTML of the first element that
/// `selector` matches, if not empty.
pub fn extract_html(html: &str, selector: &str) -> (res: Option<String>)
    ensures
        opt_seq(res) == first_html_spec(html@, selector@),
{
    match select_fragments(html, selector, "") {
        Some(fs) => {
            if fs.len() == 0 {
                return None;
            }
            let t = trim_chars(&chars_of(fs[0].0.as_str()));
            if t.len() == 0 {
                None
            } else {
                Some(string_of(&t))
            }
        },
        None => None,
    }
}

/// The first match's attribute `attr`, trimmed; `None` when there is no
/// match, no such attribute, the selector does not parse, or it is empty.
pub open spec fn first_attr_spec(html: Seq<char>, selector: Seq<char>, attr: Seq<char>) -> Option<
    Seq<char>,
> {
    match selected_fragments_with(html, selector, attr) {
        Some(fs) => if fs.len() > 0 && fs[0].2 is Some && trim(fs[0].2->0).len() > 0 {
            Some(trim(fs[0].2->0))
        } else {
            None
        },
        None => None,
    }
}

/// `extract_meta_content` and the like: the trimmed attribute `attr` of the
/// first element that `selector` matches, if there and not empty.
pub fn extract_attr(html: &str, selector: &str, attr: &str) -> (res: Option<String>)
    ensures
        opt_seq(res) == first_attr_spec(html@, selector@, attr@),
{
    match select_fragments(html, selector, attr) {
        Some(fs) => {
            if fs.len() == 0 {
                return None;
            }
            match &fs[0].2 {
                Some(a) => {
                    let t = trim_chars(&chars_of(a.as_str()));
                    if t.len() == 0 {
                        None
                    } else {
                        Some(string_of(&t))
                    }
                },
                None => None,
            }
        },
        None => None,
    }
}

} // verus!
