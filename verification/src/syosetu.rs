//! Novels of the Syosetu sites: file names, hosts, site names, URLs, and
//! the metadata read from a novel's information page.

use vstd::prelude::*;
use crate::text::{
    chars_of, contains_chars, contains_seq, is_ws, is_whitespace_char, join_lines_with, join_seq,
    push_all, push_str, slice_chars, starts_with, starts_with_chars, string_of, trim, trim_chars,
    views,
};
use crate::model::{
    ParsedNovel, parse_usize, parse_usize_spec, subtitle_view, SubtitleView,
    ascii_lower, ascii_lower_v, error_is, parse_u64, parse_u64_spec, regex_find,
    regex_find_result, str_plus, DownloadTarget, ErrorMessage, ResolvedNovel, Subtitle,
};

verus! {

/// Characters a file name may not hold.
pub open spec fn is_forbidden_file_char(c: char) -> bool {
    c == '<' || c == '>' || c == ':' || c == '"' || c == '/' || c == '\\' || c == '|' || c == '?'
        || c == '*'
}

pub open spec fn blank_forbidden(s: Seq<char>) -> Seq<char> {
    s.map_values(|c: char| if is_forbidden_file_char(c) { ' ' } else { c })
}

pub fn blank_forbidden_v(v: &Vec<char>) -> (res: Vec<char>)
    ensures
        res@ == blank_forbidden(v@),
{
    let mut out: Vec<char> = Vec::new();
    let mut i: usize = 0;
    while i < v.len()
        invariant
            i <= v.len(),
            out@ == blank_forbidden(v@.take(i as int)),
        decreases v.len() - i,
    {
        let c = v[i];
        let m = if c == '<' || c == '>' || c == ':' || c == '"' || c == '/' || c == '\\' || c == '|'
            || c == '?' || c == '*' {
            ' '
        } else {
            c
        };
        out.push(m);
        i = i + 1;
        assert(out@ =~= blank_forbidden(v@.take(i as int)));
    }
    assert(v@.take(v.len() as int) =~= v@);
    out
}

/// End of the run of non-whitespace characters starting at `i`.
pub open spec fn word_end(s: Seq<char>, i: int) -> int
    decreases s.len() - i,
{
    if 0 <= i < s.len() && !is_ws(s[i]) {
        word_end(s, i + 1)
    } else {
        i
    }
}

pub proof fn lemma_word_end(s: Seq<char>, i: int)
    requires
        0 <= i <= s.len(),
    ensures
        i <= word_end(s, i) <= s.len(),
        word_end(s, i) < s.len() ==> is_ws(s[word_end(s, i)]),
        forall|k: int| i <= k < word_end(s, i) ==> !is_ws(#[trigger] s[k]),
    decreases s.len() - i,
{
    if i < s.len() && !is_ws(s[i]) {
        lemma_word_end(s, i + 1);
    }
}

/// `str::split_whitespace` from index `i`: the maximal runs of
/// non-whitespace characters.
pub open spec fn words_from(s: Seq<char>, i: int) -> Seq<Seq<char>>
    decreases s.len() - i,
{
    if i < 0 || i >= s.len() {
        Seq::empty()
    } else if is_ws(s[i]) {
        words_from(s, i + 1)
    } else {
        let e = word_end(s, i);
        proof {
            lemma_word_end(s, i + 1);
        }
        seq![s.subrange(i, e)] + words_from(s, e)
    }
}

pub fn split_whitespace(v: &Vec<char>) -> (res: Vec<Vec<char>>)
    ensures
        views(res@) == words_from(v@, 0),
{
    let mut out: Vec<Vec<char>> = Vec::new();
    let mut i: usize = 0;
    while i < v.len()
        invariant
            i <= v.len(),
            words_from(v@, 0) == views(out@) + words_from(v@, i as int),
        decreases v.len() - i,
    {
        if is_whitespace_char(v[i]) {
            i = i + 1;
        } else {
            let mut e: usize = i;
            while e < v.len() && !is_whitespace_char(v[e])
                invariant
                    i <= e <= v.len(),
                    word_end(v@, i as int) == word_end(v@, e as int),
                decreases v.len() - e,
            {
                e = e + 1;
            }
            let w = slice_chars(v, i, e);
            let ghost before = views(out@);
            let ghost wv = w@;
            out.push(w);
            assert(views(out@) =~= before.push(wv));
            assert(before + (seq![wv] + words_from(v@, e as int)) =~= views(out@) + words_from(
                v@,
                e as int,
            ));
            i = e;
        }
    }
    assert(words_from(v@, i as int) =~= Seq::<Seq<char>>::empty());
    assert(views(out@) + Seq::<Seq<char>>::empty() =~= views(out@));
    out
}

/// `sanitize_filename`: forbidden characters become spaces, whitespace
/// runs collapse to one space, and the ends are trimmed.
pub open spec fn sanitize_spec(s: Seq<char>) -> Seq<char> {
    trim(join_seq(words_from(blank_forbidden(s), 0), " "@))
}

/// A file-name-safe form of a title.
pub fn sanitize_filename(input: &str) -> (res: String)
    ensures
        res@ == sanitize_spec(input@),
{
    let replaced = blank_forbidden_v(&chars_of(input));
    let words = split_whitespace(&replaced);
    let sp = chars_of(" ");
    let joined = join_lines_with(&words, &sp);
    string_of(&trim_chars(&joined))
}

pub open spec fn supported_hosts() -> Seq<Seq<char>> {
    seq![
        "ncode.syosetu.com"@,
        "novel18.syosetu.com"@,
        "noc.syosetu.com"@,
        "mnlt.syosetu.com"@,
        "mid.syosetu.com"@,
    ]
}

fn str_eq(a: &Vec<char>, b: &str) -> (r: bool)
    ensures
        r == (a@ == b@),
{
    let bv = chars_of(b);
    crate::text::seq_eq(a, &bv)
}

/// One of the five Syosetu hosts.
pub fn is_supported_host(host: &str) -> (r: bool)
    ensures
        r == supported_hosts().contains(host@),
{
    let h = chars_of(host);
    let r = str_eq(&h, "ncode.syosetu.com") || str_eq(&h, "novel18.syosetu.com") || str_eq(
        &h,
        "noc.syosetu.com",
    ) || str_eq(&h, "mnlt.syosetu.com") || str_eq(&h, "mid.syosetu.com");
    assert(supported_hosts()[0] == "ncode.syosetu.com"@);
    assert(supported_hosts()[1] == "novel18.syosetu.com"@);
    assert(supported_hosts()[2] == "noc.syosetu.com"@);
    assert(supported_hosts()[3] == "mnlt.syosetu.com"@);
    assert(supported_hosts()[4] == "mid.syosetu.com"@);
    r
}

/// The base URL names one of the adult hosts.
pub open spec fn is_adult_base_url_spec(u: Seq<char>) -> bool {
    contains_seq(u, "novel18.syosetu.com"@) || contains_seq(u, "noc.syosetu.com"@) || contains_seq(
        u,
        "mnlt.syosetu.com"@,
    ) || contains_seq(u, "mid.syosetu.com"@)
}

pub fn is_adult_base_url(base_url: &str) -> (r: bool)
    ensures
        r == is_adult_base_url_spec(base_url@),
{
    let u = chars_of(base_url);
    contains_chars(&u, &chars_of("novel18.syosetu.com")) || contains_chars(
        &u,
        &chars_of("noc.syosetu.com"),
    ) || contains_chars(&u, &chars_of("mnlt.syosetu.com")) || contains_chars(
        &u,
        &chars_of("mid.syosetu.com"),
    )
}

/// Index of the first `(` or `（` at or after `i`, or the length.
pub open spec fn paren_at_or_after(s: Seq<char>, i: int) -> int
    decreases s.len() - i,
{
    if i < 0 || i >= s.len() {
        s.len() as int
    } else if s[i] == '(' || s[i] == '（' {
        i
    } else {
        paren_at_or_after(s, i + 1)
    }
}

pub proof fn lemma_paren(s: Seq<char>, i: int)
    requires
        0 <= i <= s.len(),
    ensures
        i <= paren_at_or_after(s, i) <= s.len(),
    decreases s.len() - i,
{
    if i < s.len() && !(s[i] == '(' || s[i] == '（') {
        lemma_paren(s, i + 1);
    }
}

/// The site name before any parenthesized audience note, trimmed.
pub open spec fn normalize_site_name_spec(s: Seq<char>) -> Seq<char> {
    trim(s.subrange(0, paren_at_or_after(s, 0)))
}

pub fn normalize_site_name(input: &str) -> (res: String)
    ensures
        res@ == normalize_site_name_spec(input@),
{
    let v = chars_of(input);
    let mut i: usize = 0;
    while i < v.len() && !(v[i] == '(' || v[i] == '（')
        invariant
            i <= v.len(),
            paren_at_or_after(v@, 0) == paren_at_or_after(v@, i as int),
        decreases v.len() - i,
    {
        i = i + 1;
    }
    proof {
        lemma_paren(v@, i as int);
    }
    string_of(&trim_chars(&slice_chars(&v, 0, i)))
}


/// What `url::Url::parse` gives: the scheme, the host (if any) and the
/// path; or the parse error's message.
pub uninterp spec fn url_parts(input: Seq<char>) -> Result<
    (Seq<char>, Option<Seq<char>>, Seq<char>),
    Seq<char>,
>;

pub open spec fn opt_seq(o: Option<String>) -> Option<Seq<char>> {
    match o {
        Some(s) => Some(s@),
        None => None,
    }
}

/// Calls `url::Url::parse` and reads `scheme`, `host_str` and `path`.
/// Claimed: the result is a function of the input alone, named above.
#[verifier::external_body]
pub(crate) fn parse_url(input: &str) -> (res: Result<(String, Option<String>, String), String>)
    ensures
        match res {
            Ok((s, h, p)) => url_parts(input@) == Ok::<
                (Seq<char>, Option<Seq<char>>, Seq<char>),
                Seq<char>,
            >((s@, opt_seq(h), p@)),
            Err(e) => url_parts(input@) == Err::<
                (Seq<char>, Option<Seq<char>>, Seq<char>),
                Seq<char>,
            >(e@),
        },
{
    match url::Url::parse(input) {
        Ok(u) => Ok((u.scheme().to_string(), u.host_str().map(|h| h.to_string()), u.path().to_string())),
        Err(e) => Err(e.to_string()),
    }
}

/// `scheme://host` of a URL, or the error's message and cause: an
/// unparsable URL, a URL without host, and (when `only_supported`) a host
/// other than the Syosetu ones.
pub open spec fn base_url_spec(input: Seq<char>, only_supported: bool) -> Result<
    Seq<char>,
    (Seq<char>, Option<Seq<char>>),
> {
    match url_parts(input) {
        Err(e) => Err(("invalid url: "@ + input, Some(e))),
        Ok((scheme, host, _)) => match host {
            None => Err(("url host not found"@, None)),
            Some(h) => if only_supported && !supported_hosts().contains(h) {
                Err(("unsupported syosetu host: "@ + h, None))
            } else {
                Ok(scheme + "://"@ + h)
            },
        },
    }
}

pub open spec fn base_url_result(
    input: Seq<char>,
    only_supported: bool,
    res: Result<String, ErrorMessage>,
) -> bool {
    match base_url_spec(input, only_supported) {
        Ok(b) => res matches Ok(x) && x@ == b,
        Err((m, c)) => res matches Err(x) && error_is(x, m, c),
    }
}

fn base_url_impl(input: &str, only_supported: bool) -> (res: Result<String, ErrorMessage>)
    ensures
        base_url_result(input@, only_supported, res),
{
    match parse_url(input) {
        Err(e) => Err(ErrorMessage::with_cause(str_plus("invalid url: ", &chars_of(input)), e)),
        Ok((scheme, host, _)) => match host {
            None => Err(ErrorMessage::new(String::from_str("url host not found"))),
            Some(h) => {
                if only_supported && !is_supported_host(h.as_str()) {
                    Err(ErrorMessage::new(str_plus("unsupported syosetu host: ", &chars_of(h.as_str()))))
                } else {
                    let mut v = chars_of(scheme.as_str());
                    push_str(&mut v, "://");
                    push_str(&mut v, h.as_str());
                    Ok(string_of(&v))
                }
            },
        },
    }
}

/// `scheme://host` of a URL on one of the Syosetu hosts.
pub fn parse_supported_base_url(input: &str) -> (res: Result<String, ErrorMessage>)
    ensures
        base_url_result(input@, true, res),
{
    base_url_impl(input, true)
}

/// `scheme://host` of a URL.
pub fn base_url_from_url(input: &str) -> (res: Result<String, ErrorMessage>)
    ensures
        base_url_result(input@, false, res),
{
    base_url_impl(input, false)
}

pub open spec fn syosetu_ncode_pattern() -> Seq<char> {
    "(?i)n\\d+[a-z]+"@
}

pub open spec fn resolved_is(r: ResolvedNovel, base: Seq<char>, ncode: Seq<char>) -> bool {
    &&& r.info_url@ == base + "/novelview/infotop/ncode/"@ + ncode + "/"@
    &&& r.toc_url@ == base + "/"@ + ncode + "/"@
    &&& r.base_url@ == base
}

/// Where a Syosetu target's table of contents and information page are:
/// an ncode on the main host, or a URL holding an ncode on a supported
/// host; an id is refused.
pub open spec fn resolve_target_result(t: DownloadTarget, res: Result<ResolvedNovel, ErrorMessage>) -> bool {
    match t {
        DownloadTarget::Ncode(v) => res matches Ok(r) && resolved_is(
            r,
            "https://ncode.syosetu.com"@,
            v@,
        ),
        DownloadTarget::Url(url) => match regex_find_result(syosetu_ncode_pattern(), url@) {
            Some(Some(m)) => match base_url_spec(url@, true) {
                Ok(base) => res matches Ok(r) && resolved_is(r, base, ascii_lower(m)),
                Err((msg, cause)) => res matches Err(x) && error_is(x, msg, cause),
            },
            _ => res matches Err(x) && error_is(x, "ncode not found in url: "@ + url@, None),
        },
        DownloadTarget::Id(_) => res matches Err(x) && error_is(
            x,
            "id target must be resolved from database first"@,
            None,
        ),
    }
}

fn resolved(base: &Vec<char>, ncode: &Vec<char>) -> (r: ResolvedNovel)
    ensures
        resolved_is(r, base@, ncode@),
{
    let mut info = base.clone();
    push_str(&mut info, "/novelview/infotop/ncode/");
    push_all(&mut info, ncode);
    push_str(&mut info, "/");
    let mut toc = base.clone();
    push_str(&mut toc, "/");
    push_all(&mut toc, ncode);
    push_str(&mut toc, "/");
    ResolvedNovel { info_url: string_of(&info), toc_url: string_of(&toc), base_url: string_of(base) }
}

/// Resolves a Syosetu target to its table-of-contents and information URLs.
pub fn resolve_target(target: &DownloadTarget) -> (res: Result<ResolvedNovel, ErrorMessage>)
    ensures
        resolve_target_result(*target, res),
{
    match target {
        DownloadTarget::Ncode(value) => {
            let base = chars_of("https://ncode.syosetu.com");
            Ok(resolved(&base, &chars_of(value.as_str())))
        },
        DownloadTarget::Url(url) => {
            let found = regex_find("(?i)n\\d+[a-z]+", url.as_str());
            let m = match found {
                Some(Some(m)) => m,
                _ => {
                    return Err(
                        ErrorMessage::new(str_plus("ncode not found in url: ", &chars_of(url.as_str()))),
                    );
                },
            };
            let ncode = ascii_lower_v(&chars_of(m.as_str()));
            match parse_supported_base_url(url.as_str()) {
                Ok(base) => Ok(resolved(&chars_of(base.as_str()), &ncode)),
                Err(e) => Err(e),
            }
        },
        DownloadTarget::Id(_) => Err(
            ErrorMessage::new(String::from_str("id target must be resolved from database first")),
        ),
    }
}


/// The text of the synopsis HTML: breaks as line breaks, tags removed,
/// entities decoded, trimmed.
pub open spec fn story_text_spec(s: Seq<char>) -> Seq<char> {
    trim(
        crate::convert::decode_entities_spec(
            crate::html::strip_tags_spec(crate::convert::br_to_newline(s)),
        ),
    )
}

pub fn html_to_story_text(input: &str) -> (res: String)
    ensures
        res@ == story_text_spec(input@),
{
    let a = crate::convert::br_to_newline_v(&chars_of(input));
    let b = crate::html::strip_tags_v(&a);
    let c = crate::convert::decode_entities_v(&b);
    string_of(&trim_chars(&c))
}

pub open spec fn is_absolute_url(s: Seq<char>) -> bool {
    starts_with(s, "http://"@) || starts_with(s, "https://"@)
}

fn is_absolute_url_v(v: &Vec<char>) -> (r: bool)
    ensures
        r == is_absolute_url(v@),
{
    starts_with_chars(v, &chars_of("http://")) || starts_with_chars(v, &chars_of("https://"))
}

/// A link target made absolute against a base URL.
pub open spec fn absolute_href_spec(href: Seq<char>, base_url: Seq<char>) -> Seq<char> {
    if is_absolute_url(href) {
        href
    } else {
        base_url + href
    }
}

/// The URL of the next table-of-contents page from its link target.
pub fn next_page_url(href: &str, base_url: &str) -> (res: String)
    ensures
        res@ == absolute_href_spec(href@, base_url@),
{
    let h = chars_of(href);
    if is_absolute_url_v(&h) {
        string_of(&h)
    } else {
        let mut v = chars_of(base_url);
        push_all(&mut v, &h);
        string_of(&v)
    }
}

/// `str::trim_end_matches('/')`.
pub open spec fn trim_slashes_len(s: Seq<char>, j: int) -> int
    decreases j,
{
    if j <= 0 {
        0
    } else if s[j - 1] == '/' {
        trim_slashes_len(s, j - 1)
    } else {
        j
    }
}

pub proof fn lemma_trim_slashes(s: Seq<char>, j: int)
    requires
        0 <= j <= s.len(),
    ensures
        0 <= trim_slashes_len(s, j) <= j,
    decreases j,
{
    if j > 0 && s[j - 1] == '/' {
        lemma_trim_slashes(s, j - 1);
    }
}

/// The URL of an episode page: the table of contents itself for a short
/// story, an absolute link as is, a rooted link on the base URL, else the
/// link after the table-of-contents URL.
pub open spec fn section_url_choice(toc_url: Seq<char>, href: Seq<char>, base_url: Seq<char>) -> Seq<
    char,
> {
    if href.len() == 0 {
        toc_url
    } else if is_absolute_url(href) {
        href
    } else if starts_with(href, "/"@) {
        base_url + href
    } else {
        toc_url.subrange(0, trim_slashes_len(toc_url, toc_url.len() as int)) + href
    }
}

/// The URL of an episode page, or the error when the table-of-contents
/// URL has no base.
pub fn section_url(toc_url: &str, href: &str) -> (res: Result<String, ErrorMessage>)
    ensures
        match base_url_spec(toc_url@, false) {
            Ok(b) => res matches Ok(u) && u@ == section_url_choice(toc_url@, href@, b),
            Err((m, c)) => res matches Err(x) && error_is(x, m, c),
        },
{
    let base = match base_url_from_url(toc_url) {
        Ok(b) => b,
        Err(e) => return Err(e),
    };
    let h = chars_of(href);
    let t = chars_of(toc_url);
    if h.len() == 0 {
        Ok(string_of(&t))
    } else if is_absolute_url_v(&h) {
        Ok(string_of(&h))
    } else if starts_with_chars(&h, &chars_of("/")) {
        let mut v = chars_of(base.as_str());
        push_all(&mut v, &h);
        Ok(string_of(&v))
    } else {
        let mut j: usize = t.len();
        while j > 0 && t[j - 1] == '/'
            invariant
                j <= t.len(),
                trim_slashes_len(t@, t.len() as int) == trim_slashes_len(t@, j as int),
            decreases j,
        {
            j = j - 1;
        }
        let mut v = slice_chars(&t, 0, j);
        push_all(&mut v, &h);
        Ok(string_of(&v))
    }
}

/// The value under `key` in a key/value list where a later entry replaces
/// an earlier one.
pub open spec fn info_get(pairs: Seq<(String, String)>, key: Seq<char>) -> Option<Seq<char>>
    decreases pairs.len(),
{
    if pairs.len() == 0 {
        None
    } else if pairs.last().0@ == key {
        Some(pairs.last().1@)
    } else {
        info_get(pairs.drop_last(), key)
    }
}

pub fn info_lookup(pairs: &Vec<(String, String)>, key: &str) -> (res: Option<String>)
    ensures
        opt_seq(res) == info_get(pairs@, key@),
{
    let k = chars_of(key);
    let mut i: usize = pairs.len();
    assert(pairs@.take(i as int) =~= pairs@);
    while i > 0
        invariant
            i <= pairs.len(),
            k@ == key@,
            info_get(pairs@, key@) == info_get(pairs@.take(i as int), key@),
        decreases i,
    {
        let ghost t = pairs@.take(i as int);
        assert(t.drop_last() =~= pairs@.take(i - 1));
        let name = chars_of(pairs[i - 1].0.as_str());
        if crate::text::seq_eq(&name, &k) {
            return Some(pairs[i - 1].1.clone());
        }
        i = i - 1;
    }
    None
}

pub open spec fn or_else(a: Option<Seq<char>>, b: Option<Seq<char>>) -> Option<Seq<char>> {
    match a {
        Some(x) => Some(x),
        None => b,
    }
}

/// The site name of a novel: the information page's site entry (without
/// audience note) when not empty, else the page's `og:site_name`, else by
/// host.
pub open spec fn site_name_spec(site_entry: Option<Seq<char>>, og_site_name: Option<Seq<char>>, base_url: Seq<char>) -> Seq<char> {
    match site_entry {
        Some(v) if normalize_site_name_spec(v).len() > 0 => normalize_site_name_spec(v),
        _ => match og_site_name {
            Some(o) => o,
            None => if is_adult_base_url_spec(base_url) {
                "ノクターン・ムーンライト"@
            } else {
                "小説家になろう"@
            },
        },
    }
}

pub fn detect_site_name(
    info_map: &Vec<(String, String)>,
    og_site_name: Option<String>,
    base_url: &str,
) -> (res: String)
    ensures
        res@ == site_name_spec(info_get(info_map@, "掲載サイト"@), opt_seq(og_site_name), base_url@),
{
    match info_lookup(info_map, "掲載サイト") {
        Some(v) => {
            let site = normalize_site_name(v.as_str());
            if chars_of(site.as_str()).len() > 0 {
                return site;
            }
        },
        None => {},
    }
    match og_site_name {
        Some(o) => o,
        None => if is_adult_base_url(base_url) {
            String::from_str("ノクターン・ムーンライト")
        } else {
            String::from_str("小説家になろう")
        },
    }
}


/// `s.replace(',', "")`.
pub open spec fn without_commas(s: Seq<char>) -> Seq<char>
    decreases s.len(),
{
    if s.len() == 0 {
        Seq::empty()
    } else {
        without_commas(s.drop_last()) + if s.last() == ',' {
            Seq::empty()
        } else {
            seq![s.last()]
        }
    }
}

fn without_commas_v(v: &Vec<char>) -> (res: Vec<char>)
    ensures
        res@ == without_commas(v@),
{
    let mut out: Vec<char> = Vec::new();
    let mut i: usize = 0;
    while i < v.len()
        invariant
            i <= v.len(),
            out@ == without_commas(v@.take(i as int)),
        decreases v.len() - i,
    {
        assert(v@.take(i + 1).drop_last() =~= v@.take(i as int));
        if v[i] != ',' {
            out.push(v[i]);
        }
        i = i + 1;
        assert(out@ =~= without_commas(v@.take(i as int)));
    }
    assert(v@.take(v.len() as int) =~= v@);
    out
}

/// The character count of the information page, digits grouped by commas.
pub open spec fn length_spec(info: Seq<(String, String)>) -> Option<usize> {
    match info_get(info, "文字数"@) {
        Some(v) => parse_usize_spec(without_commas(v)),
        None => None,
    }
}

/// The last publication date: latest, else last posted, else last updated.
pub open spec fn general_lastup_spec(info: Seq<(String, String)>) -> Option<Seq<char>> {
    or_else(
        info_get(info, "最新掲載日"@),
        or_else(info_get(info, "最終掲載日"@), info_get(info, "最終更新日"@)),
    )
}

/// The episode that stands for a short story: index 1, the page itself.
pub open spec fn short_story_subtitle_spec(title: Seq<char>, info: Seq<(String, String)>) -> SubtitleView {
    (
        "1"@,
        Seq::empty(),
        Seq::empty(),
        Seq::empty(),
        title,
        crate::syosetu::sanitize_spec(title),
        match info_get(info, "掲載日"@) {
            Some(d) => d,
            None => Seq::empty(),
        },
        or_else(
            info_get(info, "最終更新日"@),
            or_else(info_get(info, "最新掲載日"@), info_get(info, "最終掲載日"@)),
        ),
    )
}

fn or_else_v(a: Option<String>, b: Option<String>) -> (res: Option<String>)
    ensures
        opt_seq(res) == or_else(opt_seq(a), opt_seq(b)),
{
    match a {
        Some(x) => Some(x),
        None => b,
    }
}

pub fn create_short_story_subtitle(title: &str, info_map: &Vec<(String, String)>) -> (res: Subtitle)
    ensures
        subtitle_view(res) == short_story_subtitle_spec(title@, info_map@),
{
    let subdate = match info_lookup(info_map, "掲載日") {
        Some(d) => d,
        None => String::new(),
    };
    let subupdate = or_else_v(
        info_lookup(info_map, "最終更新日"),
        or_else_v(info_lookup(info_map, "最新掲載日"), info_lookup(info_map, "最終掲載日")),
    );
    Subtitle {
        index: String::from_str("1"),
        href: String::new(),
        chapter: String::new(),
        subchapter: String::new(),
        subtitle: String::from_str(title),
        file_subtitle: sanitize_filename(title),
        subdate,
        subupdate,
    }
}

/// What `fetch_novel` makes of a novel's pages: type 2 (short story) when
/// the type label says 短編, finished when it says 完結; a short story
/// without episodes gets one standing for the whole page.
pub open spec fn parsed_novel_is(
    p: ParsedNovel,
    title: Seq<char>,
    episodes: Seq<Subtitle>,
    author: Seq<char>,
    story: Seq<char>,
    type_label: Seq<char>,
    info: Seq<(String, String)>,
    sitename: Seq<char>,
    toc_url: Seq<char>,
) -> bool {
    let short = contains_seq(type_label, "短編"@);
    &&& p.title@ == title
    &&& p.author@ == author
    &&& p.sitename@ == sitename
    &&& p.story@ == story
    &&& p.toc_url@ == toc_url
    &&& p.novel_type == (if short {
        2u8
    } else {
        1u8
    })
    &&& p.end == contains_seq(type_label, "完結"@)
    &&& (if episodes.len() == 0 && short {
        p.episodes@.len() == 1 && subtitle_view(p.episodes@[0]) == short_story_subtitle_spec(
            title,
            info,
        )
    } else {
        p.episodes@ == episodes
    })
    &&& opt_seq(p.general_firstup) == info_get(info, "掲載日"@)
    &&& opt_seq(p.novelupdated_at) == info_get(info, "最終更新日"@)
    &&& opt_seq(p.general_lastup) == general_lastup_spec(info)
    &&& p.length == length_spec(info)
}

/// Puts together what was read from a novel's table of contents and
/// information page. `story` is the synopsis already as text.
pub fn assemble_novel(
    title: String,
    episodes: Vec<Subtitle>,
    author: String,
    story: String,
    type_label: &str,
    info_map: &Vec<(String, String)>,
    sitename: String,
    toc_url: String,
) -> (res: ParsedNovel)
    ensures
        parsed_novel_is(
            res,
            title@,
            episodes@,
            author@,
            story@,
            type_label@,
            info_map@,
            sitename@,
            toc_url@,
        ),
{
    let label = chars_of(type_label);
    let short = contains_chars(&label, &chars_of("短編"));
    let novel_type: u8 = if short {
        2
    } else {
        1
    };
    let end = contains_chars(&label, &chars_of("完結"));
    let mut episodes = episodes;
    if episodes.len() == 0 && short {
        episodes.push(create_short_story_subtitle(title.as_str(), info_map));
    }
    let length = match info_lookup(info_map, "文字数") {
        Some(v) => parse_usize(&without_commas_v(&chars_of(v.as_str()))),
        None => None,
    };
    ParsedNovel {
        title,
        author,
        sitename,
        story,
        toc_url,
        episodes,
        novel_type,
        end,
        general_firstup: info_lookup(info_map, "掲載日"),
        novelupdated_at: info_lookup(info_map, "最終更新日"),
        general_lastup: or_else_v(
            info_lookup(info_map, "最新掲載日"),
            or_else_v(info_lookup(info_map, "最終掲載日"), info_lookup(info_map, "最終更新日")),
        ),
        length,
    }
}


pub open spec fn no_forbidden(s: Seq<char>) -> bool {
    forall|k: int| 0 <= k < s.len() ==> !is_forbidden_file_char(#[trigger] s[k])
}

proof fn lemma_words_no_forbidden(t: Seq<char>, i: int)
    requires
        no_forbidden(t),
        0 <= i <= t.len(),
    ensures
        forall|w: int| 0 <= w < words_from(t, i).len() ==> no_forbidden(#[trigger] words_from(t, i)[w]),
    decreases t.len() - i,
{
    if i < t.len() {
        if is_ws(t[i]) {
            lemma_words_no_forbidden(t, i + 1);
            assert(words_from(t, i) == words_from(t, i + 1));
        } else {
            lemma_word_end(t, i);
            let e = word_end(t, i);
            lemma_words_no_forbidden(t, e);
            let first = t.subrange(i, e);
            assert(no_forbidden(first));
            assert(words_from(t, i) == seq![first] + words_from(t, e));
            assert forall|w: int| 0 <= w < words_from(t, i).len() implies no_forbidden(
                #[trigger] words_from(t, i)[w],
            ) by {
                if w > 0 {
                    assert(words_from(t, i)[w] == words_from(t, e)[w - 1]);
                } else {
                    assert(words_from(t, i)[w] == first);
                }
            }
        }
    }
}

proof fn lemma_join_no_forbidden(ws: Seq<Seq<char>>)
    requires
        forall|w: int| 0 <= w < ws.len() ==> no_forbidden(#[trigger] ws[w]),
    ensures
        no_forbidden(join_seq(ws, " "@)),
    decreases ws.len(),
{
    reveal_strlit(" ");
    if ws.len() > 1 {
        lemma_join_no_forbidden(ws.drop_last());
        let a = join_seq(ws.drop_last(), " "@);
        assert(no_forbidden(ws.last()));
        assert forall|k: int| 0 <= k < (a + " "@ + ws.last()).len() implies !is_forbidden_file_char(
            #[trigger] (a + " "@ + ws.last())[k],
        ) by {
            if k < a.len() {
            } else if k == a.len() {
            } else {
                assert((a + " "@ + ws.last())[k] == ws.last()[k - a.len() - 1]);
            }
        }
    }
}

/// A name made by `sanitize_filename` holds none of the characters that
/// file systems refuse.
pub proof fn lemma_sanitized_has_no_forbidden(s: Seq<char>)
    ensures
        no_forbidden(sanitize_spec(s)),
{
    let t = blank_forbidden(s);
    assert(no_forbidden(t));
    lemma_words_no_forbidden(t, 0);
    let j = join_seq(words_from(t, 0), " "@);
    lemma_join_no_forbidden(words_from(t, 0));
    crate::text::lemma_trim_end_bounds(j, j.len() as int);
    let e = j.subrange(0, crate::text::trim_end_len(j, j.len() as int));
    crate::text::lemma_skip_ws_bounds(e, 0);
    assert forall|k: int| 0 <= k < sanitize_spec(s).len() implies !is_forbidden_file_char(
        #[trigger] sanitize_spec(s)[k],
    ) by {
        assert(sanitize_spec(s)[k] == j[crate::text::skip_ws_from(e, 0) + k]);
    }
}


/// The error that a Syosetu page status stops on at once: not found, or
/// restricted access and maintenance; other statuses are left to the
/// general check.
pub open spec fn status_error_spec(url: Seq<char>, status: u16) -> Option<Seq<char>> {
    if status == 404 {
        Some("request failed: "@ + url + " (404)"@)
    } else if status == 503 {
        Some("request failed: "@ + url + " (503: access restricted or maintenance)"@)
    } else {
        None
    }
}

pub fn status_error(url: &str, status: u16) -> (res: Option<String>)
    ensures
        opt_seq(res) == status_error_spec(url@, status),
{
    if status == 404 || status == 503 {
        let mut m = String::from_str("request failed: ");
        m.append(url);
        if status == 404 {
            m.append(" (404)");
        } else {
            m.append(" (503: access restricted or maintenance)");
        }
        Some(m)
    } else {
        None
    }
}

} // verus!
