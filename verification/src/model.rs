//! The data model: what a download target is, the record kept for each
//! saved novel, its table of contents and its episodes.

use vstd::prelude::*;
use crate::text::{chars_of, starts_with, starts_with_chars, string_of, trim, trim_chars};

verus! {

/// A novel named by its ncode (`n1234ab`), by URL, or by its id in the
/// local database.
#[derive(Debug, Clone, PartialEq, Eq)]
pub enum DownloadTarget {
    Ncode(String),
    Url(String),
    Id(u64),
}

/// Why a target could not be parsed.
#[derive(Debug, Clone, PartialEq, Eq)]
pub enum TargetError {
    /// The input was empty or only whitespace.
    Empty,
    /// The input (trimmed) is none of the accepted forms.
    Unsupported(String),
}

impl TargetError {
    /// The error message, as the command line reports it.
    pub fn message(&self) -> (res: String)
        ensures
            res@ == target_error_message(*self),
    {
        match self {
            TargetError::Empty => String::from_str("target is empty"),
            TargetError::Unsupported(t) => {
                let mut m = String::from_str("unsupported target: ");
                m.append(t.as_str());
                m
            },
        }
    }
}

pub open spec fn target_error_message(e: TargetError) -> Seq<char> {
    match e {
        TargetError::Empty => "target is empty"@,
        TargetError::Unsupported(t) => "unsupported target: "@ + t@,
    }
}

/// Result of `regex::Regex::new(pattern)` then `is_match(input)`: `None`
/// when the pattern does not compile.
pub uninterp spec fn regex_is_match_result(pattern: Seq<char>, input: Seq<char>) -> Option<bool>;

/// Calls `regex::Regex::new` and `Regex::is_match`. Claimed: the result is a
/// function of the two strings alone, `None` only when the pattern fails to
/// compile; nothing is claimed of which inputs match.
#[verifier::external_body]
pub(crate) fn regex_is_match(pattern: &str, input: &str) -> (res: Option<bool>)
    ensures
        res == regex_is_match_result(pattern@, input@),
{
    match regex::Regex::new(pattern) {
        Ok(re) => Some(re.is_match(input)),
        Err(_) => None,
    }
}

/// Result of `regex::Regex::new(pattern)` then `find(input)`: the matched
/// text of the leftmost match; `None` when the pattern does not compile.
pub uninterp spec fn regex_find_result(pattern: Seq<char>, input: Seq<char>) -> Option<
    Option<Seq<char>>,
>;

/// Calls `regex::Regex::new` and `Regex::find`, giving the matched text.
/// Claimed: the result is a function of the two strings alone (named
/// above), `None` only when the pattern fails to compile.
#[verifier::external_body]
pub(crate) fn regex_find(pattern: &str, input: &str) -> (res: Option<Option<String>>)
    ensures
        match res {
            Some(Some(m)) => regex_find_result(pattern@, input@) == Some(Some(m@)),
            Some(None) => regex_find_result(pattern@, input@) == Some(None::<Seq<char>>),
            None => regex_find_result(pattern@, input@) is None,
        },
{
    match regex::Regex::new(pattern) {
        Ok(re) => Some(re.find(input).map(|m| m.as_str().to_string())),
        Err(_) => None,
    }
}

/// Result of `regex::Regex::new(pattern)` then `captures(input)` and the
/// group `group`: `Some(None)` when there is no match or the group did not
/// take part; `None` when the pattern does not compile.
pub uninterp spec fn regex_capture_result(
    pattern: Seq<char>,
    input: Seq<char>,
    group: Seq<char>,
) -> Option<Option<Seq<char>>>;

/// Calls `regex::Regex::new`, `Regex::captures` and `Captures::name`.
/// Claimed: the result is a function of the three strings alone (named
/// above), `None` only when the pattern fails to compile.
#[verifier::external_body]
pub(crate) fn regex_capture(pattern: &str, input: &str, group: &str) -> (res: Option<
    Option<String>,
>)
    ensures
        match res {
            Some(Some(m)) => regex_capture_result(pattern@, input@, group@) == Some(Some(m@)),
            Some(None) => regex_capture_result(pattern@, input@, group@) == Some(
                None::<Seq<char>>,
            ),
            None => regex_capture_result(pattern@, input@, group@) is None,
        },
{
    match regex::Regex::new(pattern) {
        Ok(re) => Some(
            re.captures(input).and_then(|c| c.name(group).map(|m| m.as_str().to_string())),
        ),
        Err(_) => None,
    }
}

/// An error as its message and, when it wraps another, the message of the
/// underlying cause.
#[derive(Debug, Clone, PartialEq, Eq)]
pub struct ErrorMessage {
    pub message: String,
    pub cause: Option<String>,
}

impl ErrorMessage {
    pub fn new(message: String) -> (res: ErrorMessage)
        ensures
            res.message == message,
            res.cause is None,
    {
        ErrorMessage { message, cause: None }
    }

    pub fn with_cause(message: String, cause: String) -> (res: ErrorMessage)
        ensures
            res.message == message,
            res.cause == Some(cause),
    {
        ErrorMessage { message, cause: Some(cause) }
    }
}

/// The error has the given message and cause.
pub open spec fn error_is(e: ErrorMessage, message: Seq<char>, cause: Option<Seq<char>>) -> bool {
    &&& e.message@ == message
    &&& match (e.cause, cause) {
        (Some(c), Some(d)) => c@ == d,
        (None, None) => true,
        _ => false,
    }
}

/// Concatenation of a string slice and characters.
pub fn str_plus(a: &str, b: &Vec<char>) -> (res: String)
    ensures
        res@ == a@ + b@,
{
    let mut v = chars_of(a);
    crate::text::push_all(&mut v, b);
    string_of(&v)
}

pub open spec fn ncode_pattern() -> Seq<char> {
    "(?i)^n\\d+[a-z]+$"@
}

pub open spec fn is_ascii_digit_char(c: char) -> bool {
    '0' <= c && c <= '9'
}

/// Value of a run of ASCII digits.
pub open spec fn digits_value(s: Seq<char>) -> int
    decreases s.len(),
{
    if s.len() == 0 {
        0
    } else {
        digits_value(s.drop_last()) * 10 + (s.last() as int - '0' as int)
    }
}

/// The input without a leading `+`.
pub open spec fn unsigned_part(s: Seq<char>) -> Seq<char> {
    if s.len() > 0 && s[0] == '+' {
        s.drop_first()
    } else {
        s
    }
}

pub open spec fn all_ascii_digits(d: Seq<char>) -> bool {
    forall|k: int| 0 <= k < d.len() ==> is_ascii_digit_char(#[trigger] d[k])
}

/// `u64::from_str`: an optional `+`, then one or more ASCII digits whose
/// value fits in a `u64`.
pub open spec fn parse_u64_spec(s: Seq<char>) -> Option<u64> {
    let d = unsigned_part(s);
    if d.len() > 0 && all_ascii_digits(d) && digits_value(d) <= u64::MAX {
        Some(digits_value(d) as u64)
    } else {
        None
    }
}

proof fn lemma_digits_value_nonneg(s: Seq<char>)
    requires
        forall|k: int| 0 <= k < s.len() ==> is_ascii_digit_char(#[trigger] s[k]),
    ensures
        digits_value(s) >= 0,
    decreases s.len(),
{
    if s.len() > 0 {
        lemma_digits_value_nonneg(s.drop_last());
    }
}

/// Parses a decimal `u64` as `str::parse::<u64>` does.
pub fn parse_u64(v: &Vec<char>) -> (r: Option<u64>)
    ensures
        r == parse_u64_spec(v@),
{
    let start: usize = if v.len() > 0 && v[0] == '+' {
        1
    } else {
        0
    };
    let ghost d = unsigned_part(v@);
    assert(d =~= v@.subrange(start as int, v.len() as int));
    if start == v.len() {
        return None;
    }
    let mut value: u64 = 0;
    let mut i: usize = start;
    while i < v.len()
        invariant
            start <= i <= v.len(),
            start as int == (if v@.len() > 0 && v@[0] == '+' {
                1int
            } else {
                0int
            }),
            d == unsigned_part(v@),
            d == v@.subrange(start as int, v.len() as int),
            forall|k: int| start <= k < i ==> is_ascii_digit_char(#[trigger] v@[k]),
            value as int == digits_value(v@.subrange(start as int, i as int)),
        decreases v.len() - i,
    {
        let c = v[i];
        assert(v@.subrange(start as int, i + 1).drop_last() =~= v@.subrange(start as int, i as int));
        if !('0' <= c && c <= '9') {
            assert(d[i - start] == c);
            assert(!is_ascii_digit_char(d[i - start]));
            assert(!(forall|k: int| 0 <= k < d.len() ==> is_ascii_digit_char(#[trigger] d[k])));
            assert(parse_u64_spec(v@) is None);
            return None;
        }
        let digit: u64 = (c as u32 - '0' as u32) as u64;
        if value > (u64::MAX - digit) / 10 {
            assert(digits_value(v@.subrange(start as int, i + 1)) == value * 10 + digit);
            assert(value * 10 + digit > u64::MAX) by (nonlinear_arith)
                requires
                    value > (u64::MAX - digit) / 10,
                    digit <= 9,
            ;
            proof {
                assert(d.take(i + 1 - start) =~= v@.subrange(start as int, i + 1));
                lemma_prefix_value_bound(d, i + 1 - start);
            }
            return None;
        }
        value = value * 10 + digit;
        i = i + 1;
    }
    assert(v@.subrange(start as int, v.len() as int) =~= d);
    Some(value)
}

/// Once a prefix of digits exceeds a bound, the whole run does too.
proof fn lemma_prefix_value_bound(d: Seq<char>, n: int)
    requires
        0 <= n <= d.len(),
        digits_value(d.take(n)) > u64::MAX,
    ensures
        !(all_ascii_digits(d) && digits_value(d) <= u64::MAX),
    decreases d.len() - n,
{
    if all_ascii_digits(d) {
        if n < d.len() {
            let t = d.take(n + 1);
            assert(t.drop_last() =~= d.take(n));
            assert forall|k: int| 0 <= k < n implies is_ascii_digit_char(#[trigger] d.take(n)[k]) by {
                assert(d.take(n)[k] == d[k]);
            }
            lemma_digits_value_nonneg(d.take(n));
            assert(digits_value(t) == digits_value(d.take(n)) * 10 + (d[n] as int - '0' as int));
            assert(digits_value(t) > u64::MAX);
            lemma_prefix_value_bound(d, n + 1);
        } else {
            assert(d.take(n) =~= d);
        }
    }
}

pub open spec fn ascii_lower_char(c: char) -> char {
    if 'A' <= c && c <= 'Z' {
        ((c as u32) + 32) as char
    } else {
        c
    }
}

/// `str::to_ascii_lowercase`.
pub open spec fn ascii_lower(s: Seq<char>) -> Seq<char> {
    s.map_values(|c: char| ascii_lower_char(c))
}

pub fn ascii_lower_v(v: &Vec<char>) -> (res: Vec<char>)
    ensures
        res@ == ascii_lower(v@),
{
    let mut out: Vec<char> = Vec::new();
    let mut i: usize = 0;
    while i < v.len()
        invariant
            i <= v.len(),
            out@ == ascii_lower(v@.take(i as int)),
        decreases v.len() - i,
    {
        let c = v[i];
        let l = if 'A' <= c && c <= 'Z' {
            let code: u32 = (c as u32) + 32;
            match crate::convert::char_from_u32(code) {
                Some(x) => x,
                None => c,
            }
        } else {
            c
        };
        out.push(l);
        i = i + 1;
        assert(out@ =~= ascii_lower(v@.take(i as int)));
    }
    assert(v@.take(v.len() as int) =~= v@);
    out
}

/// `usize::from_str`.
pub open spec fn parse_usize_spec(s: Seq<char>) -> Option<usize> {
    match parse_u64_spec(s) {
        Some(v) => if v <= usize::MAX {
            Some(v as usize)
        } else {
            None
        },
        None => None,
    }
}

pub fn parse_usize(v: &Vec<char>) -> (r: Option<usize>)
    ensures
        r == parse_usize_spec(v@),
{
    match parse_u64(v) {
        Some(x) => if x <= usize::MAX as u64 {
            Some(x as usize)
        } else {
            None
        },
        None => None,
    }
}

/// The outcome of parsing `input`: `ncode_match` is whether the ncode
/// pattern matched the trimmed input (`None`: the pattern did not compile,
/// taken as no match).
pub open spec fn parsed_target(
    input: Seq<char>,
    ncode_match: Option<bool>,
    res: Result<DownloadTarget, TargetError>,
) -> bool {
    let t = trim(input);
    if t.len() == 0 {
        res == Result::<DownloadTarget, TargetError>::Err(TargetError::Empty)
    } else if ncode_match == Some(true) {
        res matches Ok(DownloadTarget::Ncode(s)) && s@ == ascii_lower(t)
    } else if parse_u64_spec(t) is Some {
        res == Result::<DownloadTarget, TargetError>::Ok(
            DownloadTarget::Id(parse_u64_spec(t)->0),
        )
    } else if starts_with(t, "http://"@) || starts_with(t, "https://"@) {
        res matches Ok(DownloadTarget::Url(s)) && s@ == t
    } else {
        res matches Err(TargetError::Unsupported(s)) && s@ == t
    }
}

impl DownloadTarget {
    /// Parses a command-line target: an ncode (case-insensitive, stored in
    /// lower case), a numeric id, or an `http(s)://` URL.
    pub fn parse(input: &str) -> (res: Result<DownloadTarget, TargetError>)
        ensures
            parsed_target(input@, regex_is_match_result(ncode_pattern(), trim(input@)), res),
    {
        let t = trim_chars(&chars_of(input));
        if t.len() == 0 {
            return Err(TargetError::Empty);
        }
        let ts = string_of(&t);
        let m = regex_is_match("(?i)^n\\d+[a-z]+$", ts.as_str());
        if m == Some(true) {
            return Ok(DownloadTarget::Ncode(string_of(&ascii_lower_v(&t))));
        }
        if let Some(id) = parse_u64(&t) {
            return Ok(DownloadTarget::Id(id));
        }
        let http = chars_of("http://");
        let https = chars_of("https://");
        if starts_with_chars(&t, &http) || starts_with_chars(&t, &https) {
            return Ok(DownloadTarget::Url(ts));
        }
        Err(TargetError::Unsupported(ts))
    }
}


/// The database entry of a saved novel.
#[derive(Debug, Clone)]
pub struct NovelRecord {
    pub id: u64,
    pub author: String,
    pub title: String,
    pub file_title: String,
    pub toc_url: String,
    pub sitename: String,
    pub novel_type: u8,
    pub end: bool,
    pub all_episodes: usize,
    pub last_update: Option<String>,
    pub new_arrivals_date: Option<String>,
    pub use_subdirectory: bool,
    pub general_firstup: Option<String>,
    pub novelupdated_at: Option<String>,
    pub general_lastup: Option<String>,
    pub length: Option<usize>,
    pub suspend: bool,
    pub general_all_no: Option<usize>,
}

/// The saved table of contents of a novel.
#[derive(Debug, Clone, Default)]
pub struct Toc {
    pub title: String,
    pub author: String,
    pub toc_url: String,
    pub story: String,
    pub subtitles: Vec<Subtitle>,
}

/// One episode in a table of contents.
#[derive(Debug, Clone, PartialEq, Eq)]
pub struct Subtitle {
    pub index: String,
    pub href: String,
    pub chapter: String,
    pub subchapter: String,
    pub subtitle: String,
    pub file_subtitle: String,
    pub subdate: String,
    pub subupdate: Option<String>,
}

/// The fields of an episode as plain values.
pub type SubtitleView = (
    Seq<char>,
    Seq<char>,
    Seq<char>,
    Seq<char>,
    Seq<char>,
    Seq<char>,
    Seq<char>,
    Option<Seq<char>>,
);

pub open spec fn subtitle_view(s: Subtitle) -> SubtitleView {
    (
        s.index@,
        s.href@,
        s.chapter@,
        s.subchapter@,
        s.subtitle@,
        s.file_subtitle@,
        s.subdate@,
        match s.subupdate {
            Some(u) => Some(u@),
            None => None,
        },
    )
}

/// A saved episode.
#[derive(Debug, Clone, Default)]
pub struct Section {
    pub chapter: String,
    pub subchapter: String,
    pub subtitle: String,
    pub element: SectionElement,
}

/// The HTML parts of a saved episode.
#[derive(Debug, Clone, Default)]
pub struct SectionElement {
    pub data_type: String,
    pub introduction: String,
    pub postscript: String,
    pub body: String,
}

/// Where a novel's table of contents and information page are.
#[derive(Debug, Clone)]
pub struct ResolvedNovel {
    pub toc_url: String,
    pub info_url: String,
    pub base_url: String,
}

/// What was read from a novel's pages.
#[derive(Debug, Clone)]
pub struct ParsedNovel {
    pub title: String,
    pub author: String,
    pub sitename: String,
    pub story: String,
    pub toc_url: String,
    pub episodes: Vec<Subtitle>,
    pub novel_type: u8,
    pub end: bool,
    pub general_firstup: Option<String>,
    pub novelupdated_at: Option<String>,
    pub general_lastup: Option<String>,
    pub length: Option<usize>,
}

} // verus!
