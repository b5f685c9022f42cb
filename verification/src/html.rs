//! The HTML fragments of saved episodes rewritten as plain text with
//! Aozora annotations: ruby, emphasis, illustrations, line breaks, tags
//! removed and entities decoded. The tag patterns are matched by the
//! `regex` crate; the passes, their order and the ruby rewrite are stated
//! here.

use vstd::prelude::*;
use crate::text::{chars_of, string_of, trim};
use crate::convert::{
    decode_entities_spec, decode_entities_v, normalize_blank, normalize_blank_lines_v,
    replace_lit, rewrite_by, rewritten_by, MatchRewrite,
};

verus! {

/// Any tag, `(?is)<[^>]+>`.
pub open spec fn tag_pattern() -> Seq<char> {
    "(?is)<[^>]+>"@
}

/// Every tag removed.
pub open spec fn strip_tags_spec(s: Seq<char>) -> Seq<char> {
    rewritten_by(tag_pattern(), s, MatchRewrite::Remove)
}

pub(crate) fn strip_tags_v(v: &Vec<char>) -> (res: Vec<char>)
    ensures
        res@ == strip_tags_spec(v@),
{
    let s = string_of(v);
    chars_of(rewrite_by("(?is)<[^>]+>", s.as_str(), MatchRewrite::Remove).as_str())
}

/// Removes every tag.
pub fn strip_tags(input: &str) -> (res: String)
    ensures
        res@ == strip_tags_spec(input@),
{
    rewrite_by("(?is)<[^>]+>", input, MatchRewrite::Remove)
}

/// Result of `regex::Regex::new(pattern)` then `splitn(input, 2)`: the text
/// before the first match and, when there is a match, the text after it;
/// `None` when the pattern does not compile.
pub uninterp spec fn regex_split2_result(pattern: Seq<char>, input: Seq<char>) -> Option<
    (Seq<char>, Option<Seq<char>>),
>;

/// Calls `regex::Regex::new` and `Regex::splitn` with a limit of two.
/// Claimed: the result is a function of the two strings alone, named above.
#[verifier::external_body]
fn regex_split2(pattern: &str, input: &str) -> (res: Option<(String, Option<String>)>)
    ensures
        match res {
            Some((a, b)) => regex_split2_result(pattern@, input@) == Some(
                (a@, crate::syosetu::opt_seq(b)),
            ),
            None => regex_split2_result(pattern@, input@) is None,
        },
{
    let re = regex::Regex::new(pattern).ok()?;
    let mut parts = re.splitn(input, 2);
    Some((parts.next().unwrap_or_default().to_string(), parts.next().map(String::from)))
}

/// The first piece of a two-way split (all of `s` when the pattern does not
/// compile).
pub open spec fn split_head(pattern: Seq<char>, s: Seq<char>) -> Seq<char> {
    match regex_split2_result(pattern, s) {
        Some((a, _)) => a,
        None => s,
    }
}

/// The rewrite of the text inside `<ruby>...</ruby>`: split at the first
/// `<rt>`; with no reading, the base with tags removed; otherwise the base
/// and the reading, each cut at its first `<rp>` and stripped of tags, as
/// `｜base《reading》`, or the base alone when the reading is blank.
pub open spec fn ruby_text(inner: Seq<char>) -> Seq<char> {
    let (head, rest) = match regex_split2_result("(?is)<rt>"@, inner) {
        Some(p) => p,
        None => (inner, None),
    };
    match rest {
        None => strip_tags_spec(head),
        Some(r) => {
            let base = strip_tags_spec(split_head("(?is)<rp>"@, head));
            let reading = strip_tags_spec(split_head("(?is)<rp>"@, r));
            if trim(reading).len() == 0 {
                base
            } else {
                "｜"@ + base + "《"@ + reading + "》"@
            }
        },
    }
}

/// In a `<ruby>` element the reading is only what the `<rt>` holds before
/// its first `<rp>`: two elements with the same base whose texts after
/// `<rt>` agree up to their first `<rp>` are rewritten alike, whatever
/// follows that `<rp>` (the closing fallback parenthesis among it).
pub proof fn lemma_ruby_reading_stops_at_rp(
    inner1: Seq<char>,
    inner2: Seq<char>,
    head: Seq<char>,
    rest1: Seq<char>,
    rest2: Seq<char>,
)
    requires
        regex_split2_result("(?is)<rt>"@, inner1) == Some((head, Some(rest1))),
        regex_split2_result("(?is)<rt>"@, inner2) == Some((head, Some(rest2))),
        split_head("(?is)<rp>"@, rest1) == split_head("(?is)<rp>"@, rest2),
    ensures
        ruby_text(inner1) == ruby_text(inner2),
{
}

/// Likewise the base is only what comes before its first `<rp>`.
pub proof fn lemma_ruby_base_stops_at_rp(
    inner1: Seq<char>,
    inner2: Seq<char>,
    head1: Seq<char>,
    head2: Seq<char>,
    rest: Seq<char>,
)
    requires
        regex_split2_result("(?is)<rt>"@, inner1) == Some((head1, Some(rest))),
        regex_split2_result("(?is)<rt>"@, inner2) == Some((head2, Some(rest))),
        split_head("(?is)<rp>"@, head1) == split_head("(?is)<rp>"@, head2),
    ensures
        ruby_text(inner1) == ruby_text(inner2),
{
}

/// The rewrite of a ruby element with a reading: `｜base《reading》`, where
/// the reading is the text after `<rt>` cut at its first `<rp>` with tags
/// removed, or the base alone when that reading is blank.
pub proof fn lemma_ruby_shape(inner: Seq<char>, head: Seq<char>, rest: Seq<char>)
    requires
        regex_split2_result("(?is)<rt>"@, inner) == Some((head, Some(rest))),
    ensures
        ({
            let base = strip_tags_spec(split_head("(?is)<rp>"@, head));
            let reading = strip_tags_spec(split_head("(?is)<rp>"@, rest));
            &&& trim(reading).len() > 0 ==> ruby_text(inner) == "｜"@ + base + "《"@ + reading + "》"@
            &&& trim(reading).len() == 0 ==> ruby_text(inner) == base
        }),
{
}

/// A ruby element without `<rt>` is its text with tags removed.
pub proof fn lemma_ruby_without_reading(inner: Seq<char>, head: Seq<char>)
    requires
        regex_split2_result("(?is)<rt>"@, inner) == Some((head, None::<Seq<char>>)),
    ensures
        ruby_text(inner) == strip_tags_spec(head),
{
}

fn split_head_v(pattern: &str, s: &str) -> (res: String)
    ensures
        res@ == split_head(pattern@, s@),
{
    match regex_split2(pattern, s) {
        Some((a, _)) => a,
        None => String::from_str(s),
    }
}

/// The replacement of one `<ruby>` element, given the text inside it.
pub(crate) fn ruby_replacement(inner: &str) -> (res: String)
    ensures
        res@ == ruby_text(inner@),
{
    let (head, rest) = match regex_split2("(?is)<rt>", inner) {
        Some(p) => p,
        None => (String::from_str(inner), None),
    };
    match rest {
        None => strip_tags(head.as_str()),
        Some(r) => {
            let base = strip_tags(split_head_v("(?is)<rp>", head.as_str()).as_str());
            let reading = strip_tags(split_head_v("(?is)<rp>", r.as_str()).as_str());
            let t = crate::text::trim_chars(&chars_of(reading.as_str()));
            if t.len() == 0 {
                base
            } else {
                proof {
                    reveal_strlit("｜");
                    reveal_strlit("《");
                    reveal_strlit("》");
                }
                let mut out = chars_of("｜");
                crate::text::push_all(&mut out, &chars_of(base.as_str()));
                crate::text::push_all(&mut out, &chars_of("《"));
                crate::text::push_all(&mut out, &chars_of(reading.as_str()));
                crate::text::push_all(&mut out, &chars_of("》"));
                string_of(&out)
            }
        },
    }
}

/// Bold, italic and strike-through tags (lower or upper case) replaced by
/// their Aozora annotations.
pub open spec fn decorations(s: Seq<char>) -> Seq<char> {
    let a = crate::text::replace_all(s, "<b>"@, "［＃太字］"@);
    let b = crate::text::replace_all(a, "</b>"@, "［＃太字終わり］"@);
    let c = crate::text::replace_all(b, "<B>"@, "［＃太字］"@);
    let d = crate::text::replace_all(c, "</B>"@, "［＃太字終わり］"@);
    let e = crate::text::replace_all(d, "<i>"@, "［＃斜体］"@);
    let f = crate::text::replace_all(e, "</i>"@, "［＃斜体終わり］"@);
    let g = crate::text::replace_all(f, "<I>"@, "［＃斜体］"@);
    let h = crate::text::replace_all(g, "</I>"@, "［＃斜体終わり］"@);
    let i = crate::text::replace_all(h, "<s>"@, "［＃取消線］"@);
    let j = crate::text::replace_all(i, "</s>"@, "［＃取消線終わり］"@);
    let k = crate::text::replace_all(j, "<S>"@, "［＃取消線］"@);
    crate::text::replace_all(k, "</S>"@, "［＃取消線終わり］"@)
}

fn decorations_v(v: &Vec<char>) -> (res: Vec<char>)
    ensures
        res@ == decorations(v@),
{
    proof {
        reveal_strlit("<b>");
        reveal_strlit("</b>");
        reveal_strlit("<B>");
        reveal_strlit("</B>");
        reveal_strlit("<i>");
        reveal_strlit("</i>");
        reveal_strlit("<I>");
        reveal_strlit("</I>");
        reveal_strlit("<s>");
        reveal_strlit("</s>");
        reveal_strlit("<S>");
        reveal_strlit("</S>");
    }
    let a = replace_lit(v, "<b>", "［＃太字］");
    let b = replace_lit(&a, "</b>", "［＃太字終わり］");
    let c = replace_lit(&b, "<B>", "［＃太字］");
    let d = replace_lit(&c, "</B>", "［＃太字終わり］");
    let e = replace_lit(&d, "<i>", "［＃斜体］");
    let f = replace_lit(&e, "</i>", "［＃斜体終わり］");
    let g = replace_lit(&f, "<I>", "［＃斜体］");
    let h = replace_lit(&g, "</I>", "［＃斜体終わり］");
    let i = replace_lit(&h, "<s>", "［＃取消線］");
    let j = replace_lit(&i, "</s>", "［＃取消線終わり］");
    let k = replace_lit(&j, "<S>", "［＃取消線］");
    replace_lit(&k, "</S>", "［＃取消線終わり］")
}

/// `html_to_text`, pass by pass: line ends unified, double angle brackets
/// escaped, paragraph ends as line breaks, ruby, decorations, emphasis
/// dots, illustrations, `<br>` and block ends as line breaks, the other
/// tags removed, entities decoded, blank lines normalized.
#[verifier::opaque]
pub open spec fn html_to_text_spec(s: Seq<char>) -> Seq<char> {
    let t0 = crate::text::replace_all(crate::text::replace_all(s, "\r\n"@, "\n"@), "\r"@, "\n"@);
    let t1 = crate::text::replace_all(crate::text::replace_all(t0, "《"@, "≪"@), "》"@, "≫"@);
    let t2 = rewritten_by("(?is)\\n?</p>"@, t1, MatchRewrite::Newline);
    let t3 = rewritten_by("(?is)<ruby>(.+?)</ruby>"@, t2, MatchRewrite::Ruby);
    let t4 = decorations(t3);
    let t5 = rewritten_by(
        "(?is)<em\\s+class=[\"']emphasisDots[\"']>(.+?)</em>"@,
        t4,
        MatchRewrite::Emphasis,
    );
    let t6 = rewritten_by(
        "(?is)<img[^>]+src=[\"'](?P<src>.+?)[\"'][^>]*>"@,
        t5,
        MatchRewrite::Illustration,
    );
    let t7 = rewritten_by("(?is)<br\\s*/?>"@, t6, MatchRewrite::Newline);
    let t8 = rewritten_by("(?is)</(div|li|h[1-6]|tr)>"@, t7, MatchRewrite::Newline);
    normalize_blank(decode_entities_spec(strip_tags_spec(t8)))
}

pub(crate) fn html_to_text_v(v: &Vec<char>) -> (res: Vec<char>)
    ensures
        res@ == html_to_text_spec(v@),
{
    proof {
        reveal(html_to_text_spec);
        reveal_strlit("\r\n");
        reveal_strlit("\r");
        reveal_strlit("《");
        reveal_strlit("》");
    }
    let a = replace_lit(v, "\r\n", "\n");
    let b = replace_lit(&a, "\r", "\n");
    let c = replace_lit(&b, "《", "≪");
    let d = string_of(&replace_lit(&c, "》", "≫"));
    let t2 = rewrite_by("(?is)\\n?</p>", d.as_str(), MatchRewrite::Newline);
    let t3 = rewrite_by("(?is)<ruby>(.+?)</ruby>", t2.as_str(), MatchRewrite::Ruby);
    let t4 = string_of(&decorations_v(&chars_of(t3.as_str())));
    let t5 = rewrite_by(
        "(?is)<em\\s+class=[\"']emphasisDots[\"']>(.+?)</em>",
        t4.as_str(),
        MatchRewrite::Emphasis,
    );
    let t6 = rewrite_by(
        "(?is)<img[^>]+src=[\"'](?P<src>.+?)[\"'][^>]*>",
        t5.as_str(),
        MatchRewrite::Illustration,
    );
    let t7 = rewrite_by("(?is)<br\\s*/?>", t6.as_str(), MatchRewrite::Newline);
    let t8 = rewrite_by("(?is)</(div|li|h[1-6]|tr)>", t7.as_str(), MatchRewrite::Newline);
    let t9 = strip_tags_v(&chars_of(t8.as_str()));
    let t10 = decode_entities_v(&t9);
    normalize_blank_lines_v(&t10)
}

/// An HTML fragment as text with Aozora annotations: paragraphs and breaks
/// as line breaks, ruby as `｜base《reading》`, bold, italic, strike-through
/// and emphasis dots as annotations, images as illustration notes, other
/// tags removed, entities decoded and blank lines normalized.
pub fn html_to_text(input: &str) -> (res: String)
    ensures
        res@ == html_to_text_spec(input@),
{
    string_of(&html_to_text_v(&chars_of(input)))
}

} // verus!
