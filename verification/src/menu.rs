//! The decisions of the command line: how typed answers are read, how id
//! lists parse, and how saved records are filtered, sorted and listed.

use vstd::prelude::*;
use crate::model::{
    all_ascii_digits, ascii_lower, ascii_lower_v, error_is, parse_u64, parse_u64_spec,
    unsigned_part, ErrorMessage, NovelRecord,
};
use crate::syosetu::{opt_seq, split_whitespace, words_from};
use crate::text::{
    chars_of, contains_chars, contains_seq, decimal, push_all, push_str, seq_eq, string_of, trim,
    trim_chars, u64_to_decimal, views,
};

verus! {

/// The options that the interactive menu asks before a download.
#[derive(Debug, Clone)]
pub struct InteractiveSession {
    pub workspace: String,
    pub epub: bool,
    pub aozora_dir: Option<String>,
}

/// A typed answer, trimmed, or `None` when blank.
pub open spec fn optional_answer_spec(input: Seq<char>) -> Option<Seq<char>> {
    if trim(input).len() == 0 {
        None
    } else {
        Some(trim(input))
    }
}

pub fn optional_answer(input: &str) -> (res: Option<String>)
    ensures
        opt_seq(res) == optional_answer_spec(input@),
{
    let t = trim_chars(&chars_of(input));
    if t.len() == 0 {
        None
    } else {
        Some(string_of(&t))
    }
}

/// A typed answer, trimmed, or the default when blank.
pub fn answer_or_default(input: &str, default: &str) -> (res: String)
    ensures
        res@ == (match optional_answer_spec(input@) {
            Some(a) => a,
            None => default@,
        }),
{
    match optional_answer(input) {
        Some(a) => a,
        None => String::from_str(default),
    }
}

/// A menu number from 1 to `max`, if the trimmed answer is one.
pub open spec fn menu_choice_spec(input: Seq<char>, max: usize) -> Option<usize> {
    match parse_u64_spec(trim(input)) {
        Some(n) => if 1 <= n <= max {
            Some(n as usize)
        } else {
            None
        },
        None => None,
    }
}

pub fn menu_choice(input: &str, max: usize) -> (res: Option<usize>)
    ensures
        res == menu_choice_spec(input@, max),
{
    let t = trim_chars(&chars_of(input));
    match parse_u64(&t) {
        Some(n) => if 1 <= n && n <= max as u64 {
            Some(n as usize)
        } else {
            None
        },
        None => None,
    }
}

/// A yes/no answer: blank takes the default, `y`/`yes` and `n`/`no` in any
/// ASCII case decide, anything else asks again (`None`).
pub open spec fn yes_no_spec(input: Seq<char>, default: bool) -> Option<bool> {
    let a = ascii_lower(trim(input));
    if a.len() == 0 {
        Some(default)
    } else if a == "y"@ || a == "yes"@ {
        Some(true)
    } else if a == "n"@ || a == "no"@ {
        Some(false)
    } else {
        None
    }
}

pub fn yes_no_answer(input: &str, default: bool) -> (res: Option<bool>)
    ensures
        res == yes_no_spec(input@, default),
{
    let a = ascii_lower_v(&trim_chars(&chars_of(input)));
    if a.len() == 0 {
        Some(default)
    } else if seq_eq(&a, &chars_of("y")) || seq_eq(&a, &chars_of("yes")) {
        Some(true)
    } else if seq_eq(&a, &chars_of("n")) || seq_eq(&a, &chars_of("no")) {
        Some(false)
    } else {
        None
    }
}

/// The options of a session: the workspace typed (or the default), and the
/// AozoraEpub3 folder only when an EPUB is wanted and a folder was typed.
pub fn session_from_answers(
    workspace_answer: &str,
    default_workspace: &str,
    epub: bool,
    aozora_answer: &str,
) -> (res: InteractiveSession)
    ensures
        res.workspace@ == (match optional_answer_spec(workspace_answer@) {
            Some(a) => a,
            None => default_workspace@,
        }),
        res.epub == epub,
        opt_seq(res.aozora_dir) == (if epub {
            optional_answer_spec(aozora_answer@)
        } else {
            None
        }),
{
    InteractiveSession {
        workspace: answer_or_default(workspace_answer, default_workspace),
        epub,
        aozora_dir: if epub {
            optional_answer(aozora_answer)
        } else {
            None
        },
    }
}

/// The message of `u64::from_str`'s error for a token.
pub open spec fn parse_u64_error(t: Seq<char>) -> Seq<char> {
    if t.len() == 0 {
        "cannot parse integer from empty string"@
    } else if unsigned_part(t).len() > 0 && all_ascii_digits(unsigned_part(t)) {
        "number too large to fit in target type"@
    } else {
        "invalid digit found in string"@
    }
}

fn parse_u64_error_exec(t: &Vec<char>) -> (res: String)
    ensures
        res@ == parse_u64_error(t@),
{
    if t.len() == 0 {
        return String::from_str("cannot parse integer from empty string");
    }
    let start: usize = if t[0] == '+' {
        1
    } else {
        0
    };
    assert(unsigned_part(t@) =~= t@.subrange(start as int, t.len() as int));
    let mut all = start < t.len();
    let mut i: usize = start;
    while i < t.len()
        invariant
            start <= i <= t.len(),
            all == (start < t.len() && forall|k: int| start <= k < i ==> '0' <= #[trigger] t@[k] && t@[k] <= '9'),
        decreases t.len() - i,
    {
        if !('0' <= t[i] && t[i] <= '9') {
            all = false;
        }
        i = i + 1;
    }
    if all {
        assert(all_ascii_digits(unsigned_part(t@))) by {
            assert forall|k: int| 0 <= k < unsigned_part(t@).len() implies crate::model::is_ascii_digit_char(
                #[trigger] unsigned_part(t@)[k],
            ) by {
                assert(unsigned_part(t@)[k] == t@[start + k]);
            }
        }
        String::from_str("number too large to fit in target type")
    } else {
        assert(!(unsigned_part(t@).len() > 0 && all_ascii_digits(unsigned_part(t@)))) by {
            if unsigned_part(t@).len() > 0 && all_ascii_digits(unsigned_part(t@)) {
                assert forall|k: int| start <= k < t.len() implies '0' <= #[trigger] t@[k] && t@[k]
                    <= '9' by {
                    assert(crate::model::is_ascii_digit_char(unsigned_part(t@)[k - start]));
                }
            }
        }
        String::from_str("invalid digit found in string")
    }
}

/// The error for an id that does not parse.
pub fn invalid_id(token: &Vec<char>) -> (res: ErrorMessage)
    ensures
        error_is(res, "invalid id: "@ + token@, Some(parse_u64_error(token@))),
{
    let mut m = chars_of("invalid id: ");
    push_all(&mut m, token);
    ErrorMessage::with_cause(string_of(&m), parse_u64_error_exec(token))
}

/// Ids separated by whitespace: the first token that is not a `u64` is
/// the error; no token at all is an error too.
pub open spec fn id_list_spec(words: Seq<Seq<char>>, i: int) -> Result<Seq<u64>, Seq<char>>
    decreases words.len() - i,
{
    if i < 0 || i >= words.len() {
        Ok(Seq::empty())
    } else {
        match parse_u64_spec(words[i]) {
            None => Err(words[i]),
            Some(n) => match id_list_spec(words, i + 1) {
                Ok(rest) => Ok(seq![n] + rest),
                Err(e) => Err(e),
            },
        }
    }
}

pub open spec fn no_ids_message() -> Seq<char> {
    "id を1つ以上入力してください"@
}

pub fn parse_id_list(raw: &str) -> (res: Result<Vec<u64>, ErrorMessage>)
    ensures
        match id_list_spec(words_from(raw@, 0), 0) {
            Ok(ids) => if ids.len() == 0 {
                res matches Err(e) && error_is(e, no_ids_message(), None)
            } else {
                res matches Ok(v) && v@ == ids
            },
            Err(token) => res matches Err(e) && error_is(
                e,
                "invalid id: "@ + token,
                Some(parse_u64_error(token)),
            ),
        },
{
    let words = split_whitespace(&chars_of(raw));
    let ghost ws = words_from(raw@, 0);
    let mut ids: Vec<u64> = Vec::new();
    let mut i: usize = 0;
    while i < words.len()
        invariant
            i <= words.len(),
            views(words@) == ws,
            ws == words_from(raw@, 0),
            id_list_spec(ws, 0) == (match id_list_spec(ws, i as int) {
                Ok(rest) => Ok(ids@ + rest),
                Err(e) => Err(e),
            }),
        decreases words.len() - i,
    {
        assert(ws[i as int] == words@[i as int]@);
        match parse_u64(&words[i]) {
            Some(n) => {
                let ghost before = ids@;
                ids.push(n);
                proof {
                    match id_list_spec(ws, i + 1) {
                        Ok(rest) => {
                            assert(before + (seq![n] + rest) =~= ids@ + rest);
                        },
                        Err(_) => {},
                    }
                }
            },
            None => {
                return Err(invalid_id(&words[i]));
            },
        }
        i = i + 1;
    }
    assert(ids@ + Seq::<u64>::empty() =~= ids@);
    if ids.len() == 0 {
        return Err(ErrorMessage::new(String::from_str("id を1つ以上入力してください")));
    }
    Ok(ids)
}

/// A single id typed alone (trimmed), or the error naming it.
pub fn parse_single_id(raw: &str) -> (res: Result<u64, ErrorMessage>)
    ensures
        match parse_u64_spec(trim(raw@)) {
            Some(n) => res == Ok::<u64, ErrorMessage>(n),
            None => res matches Err(e) && error_is(
                e,
                "invalid id: "@ + trim(raw@),
                Some(parse_u64_error(trim(raw@))),
            ),
        },
{
    let t = trim_chars(&chars_of(raw));
    match parse_u64(&t) {
        Some(n) => Ok(n),
        None => Err(invalid_id(&t)),
    }
}

// ---------------------------------------------------------------------------
// Listing saved records.

/// Whether a record stays under the site and query filters: the site name
/// contains the site filter, and the title, author or URL contains the
/// query, all compared in ASCII lower case after trimming the filters.
pub open spec fn record_kept(r: NovelRecord, site: Option<Seq<char>>, query: Option<Seq<char>>) -> bool {
    &&& (site matches Some(s) ==> contains_seq(ascii_lower(r.sitename@), ascii_lower(trim(s))))
    &&& (query matches Some(q) ==> {
        let ql = ascii_lower(trim(q));
        contains_seq(ascii_lower(r.title@), ql) || contains_seq(ascii_lower(r.author@), ql)
            || contains_seq(ascii_lower(r.toc_url@), ql)
    })
}

pub open spec fn kept_records(rs: Seq<NovelRecord>, site: Option<Seq<char>>, query: Option<Seq<char>>) -> Seq<
    NovelRecord,
>
    decreases rs.len(),
{
    if rs.len() == 0 {
        Seq::empty()
    } else if record_kept(rs.last(), site, query) {
        kept_records(rs.drop_last(), site, query).push(rs.last())
    } else {
        kept_records(rs.drop_last(), site, query)
    }
}

/// The filters keep every record whose site name contains the site filter
/// and whose title, author or table-of-contents URL contains the query,
/// in ASCII lower case after trimming the filters; and no other.
pub proof fn lemma_filters_keep_matches(
    rs: Seq<NovelRecord>,
    site: Option<Seq<char>>,
    query: Option<Seq<char>>,
    k: int,
)
    requires
        0 <= k < rs.len(),
    ensures
        ({
            let r = rs[k];
            let site_ok = site matches Some(s) ==> contains_seq(ascii_lower(r.sitename@), ascii_lower(trim(s)));
            let query_ok = query matches Some(q) ==> {
                let ql = ascii_lower(trim(q));
                ||| contains_seq(ascii_lower(r.title@), ql)
                ||| contains_seq(ascii_lower(r.author@), ql)
                ||| contains_seq(ascii_lower(r.toc_url@), ql)
            };
            site_ok && query_ok ==> kept_records(rs, site, query).contains(r)
        }),
        forall|j: int| 0 <= j < kept_records(rs, site, query).len() ==> rs.contains(
            #[trigger] kept_records(rs, site, query)[j],
        ),
        forall|j: int| 0 <= j < kept_records(rs, site, query).len() ==> {
            let r = #[trigger] kept_records(rs, site, query)[j];
            &&& site matches Some(s) ==> contains_seq(ascii_lower(r.sitename@), ascii_lower(trim(s)))
            &&& query matches Some(q) ==> {
                let ql = ascii_lower(trim(q));
                ||| contains_seq(ascii_lower(r.title@), ql)
                ||| contains_seq(ascii_lower(r.author@), ql)
                ||| contains_seq(ascii_lower(r.toc_url@), ql)
            }
        },
    decreases rs.len(),
{
    let kept = kept_records(rs, site, query);
    let prev = kept_records(rs.drop_last(), site, query);
    if k < rs.len() - 1 {
        lemma_filters_keep_matches(rs.drop_last(), site, query, k);
        assert(rs.drop_last()[k] == rs[k]);
        if prev.contains(rs[k]) {
            let j = choose|j: int| 0 <= j < prev.len() && prev[j] == rs[k];
            assert(kept[j] == rs[k]);
        }
    } else if rs.len() > 1 {
        lemma_filters_keep_matches(rs.drop_last(), site, query, 0);
    }
    if rs.len() > 0 {
        if kept.len() > 0 && k == rs.len() - 1 && record_kept(rs.last(), site, query) {
            assert(kept[kept.len() - 1] == rs[k]);
        }
        assert forall|j: int| 0 <= j < kept.len() implies rs.contains(#[trigger] kept[j]) by {
            if j < prev.len() {
                if rs.len() > 1 {
                    let x = prev[j];
                    assert(rs.drop_last().contains(x));
                    let w = choose|w: int| 0 <= w < rs.drop_last().len() && rs.drop_last()[w] == x;
                    assert(rs[w] == x);
                }
            } else {
                assert(kept[j] == rs.last());
                assert(rs[rs.len() - 1] == rs.last());
            }
        }
    }
}

pub open spec fn opt_str_view(o: Option<&str>) -> Option<Seq<char>> {
    match o {
        Some(s) => Some(s@),
        None => None,
    }
}

fn lower_of(s: &String) -> (res: Vec<char>)
    ensures
        res@ == ascii_lower(s@),
{
    ascii_lower_v(&chars_of(s.as_str()))
}

/// Keeps the records that match the site and query filters, in order.
pub fn apply_record_filters(records: &mut Vec<NovelRecord>, site: Option<&str>, query: Option<&str>)
    ensures
        final(records)@ == kept_records(old(records)@, opt_str_view(site), opt_str_view(query)),
{
    let site_l: Option<Vec<char>> = match site {
        Some(s) => Some(ascii_lower_v(&trim_chars(&chars_of(s)))),
        None => None,
    };
    let query_l: Option<Vec<char>> = match query {
        Some(q) => Some(ascii_lower_v(&trim_chars(&chars_of(q)))),
        None => None,
    };
    let ghost input = records@;
    let mut kept: Vec<NovelRecord> = Vec::new();
    let mut rest: Vec<NovelRecord> = Vec::new();
    std::mem::swap(&mut rest, records);
    let mut i: usize = 0;
    let n = rest.len();
    while i < n
        invariant
            n == input.len(),
            i <= n,
            rest@ == input.skip(i as int),
            kept@ == kept_records(input.take(i as int), opt_str_view(site), opt_str_view(query)),
            match site {
                Some(s) => site_l matches Some(l) && l@ == ascii_lower(trim(s@)),
                None => site_l is None,
            },
            match query {
                Some(q) => query_l matches Some(l) && l@ == ascii_lower(trim(q@)),
                None => query_l is None,
            },
        decreases n - i,
    {
        let r = rest.remove(0);
        assert(input.take(i + 1).drop_last() =~= input.take(i as int));
        assert(input.take(i + 1).last() == r);
        assert(rest@ =~= input.skip(i + 1));
        let site_ok = match &site_l {
            Some(l) => contains_chars(&lower_of(&r.sitename), l),
            None => true,
        };
        let query_ok = match &query_l {
            Some(l) => contains_chars(&lower_of(&r.title), l) || contains_chars(
                &lower_of(&r.author),
                l,
            ) || contains_chars(&lower_of(&r.toc_url), l),
            None => true,
        };
        if site_ok && query_ok {
            kept.push(r);
        }
        i = i + 1;
    }
    assert(input.take(n as int) =~= input);
    *records = kept;
}

/// How a listing is ordered.
#[derive(Debug, Clone, Copy, PartialEq, Eq, Structural)]
pub enum RecordSort {
    Id,
    Title,
    Site,
    Author,
    Episodes,
}

/// Lexicographic order of strings by code point (`String`'s `Ord`).
pub open spec fn seq_lt(a: Seq<char>, b: Seq<char>) -> bool
    decreases a.len(),
{
    if b.len() == 0 {
        false
    } else if a.len() == 0 {
        true
    } else if (a[0] as int) < (b[0] as int) {
        true
    } else if a[0] == b[0] {
        seq_lt(a.drop_first(), b.drop_first())
    } else {
        false
    }
}

pub proof fn lemma_seq_lt_irreflexive(a: Seq<char>)
    ensures
        !seq_lt(a, a),
    decreases a.len(),
{
    if a.len() > 0 {
        lemma_seq_lt_irreflexive(a.drop_first());
    }
}

pub proof fn lemma_seq_lt_transitive(a: Seq<char>, b: Seq<char>, c: Seq<char>)
    requires
        seq_lt(a, b),
        seq_lt(b, c),
    ensures
        seq_lt(a, c),
    decreases a.len(),
{
    if a.len() > 0 && b.len() > 0 && c.len() > 0 && a[0] == b[0] && b[0] == c[0] {
        lemma_seq_lt_transitive(a.drop_first(), b.drop_first(), c.drop_first());
    }
}

/// Two different strings are ordered one way or the other.
pub proof fn lemma_seq_lt_total(a: Seq<char>, b: Seq<char>)
    requires
        a != b,
    ensures
        seq_lt(a, b) || seq_lt(b, a),
    decreases a.len(),
{
    if a.len() > 0 && b.len() > 0 && a[0] == b[0] {
        if a.drop_first() == b.drop_first() {
            assert(a =~= seq![a[0]] + a.drop_first());
            assert(b =~= seq![b[0]] + b.drop_first());
        }
        lemma_seq_lt_total(a.drop_first(), b.drop_first());
    } else if a.len() == 0 && b.len() == 0 {
        assert(a =~= b);
    } else if a.len() > 0 && b.len() > 0 {
        assert(a[0] as int != b[0] as int);
    }
}

fn seq_less(a: &Vec<char>, b: &Vec<char>) -> (r: bool)
    ensures
        r == seq_lt(a@, b@),
{
    let mut i: usize = 0;
    assert(a@.skip(0) =~= a@ && b@.skip(0) =~= b@);
    while i < a.len() && i < b.len() && a[i] == b[i]
        invariant
            i <= a.len(),
            i <= b.len(),
            seq_lt(a@, b@) == seq_lt(a@.skip(i as int), b@.skip(i as int)),
        decreases a.len() - i,
    {
        assert(a@.skip(i as int).drop_first() =~= a@.skip(i + 1));
        assert(b@.skip(i as int).drop_first() =~= b@.skip(i + 1));
        i = i + 1;
    }
    if i == b.len() {
        assert(b@.skip(i as int).len() == 0);
        false
    } else if i == a.len() {
        assert(a@.skip(i as int).len() == 0);
        true
    } else {
        assert(a@.skip(i as int)[0] == a@[i as int] && b@.skip(i as int)[0] == b@[i as int]);
        a[i] < b[i]
    }
}

/// `a` before `b` by the key pairs `(x, id)`: the string first, the id on a
/// tie.
pub open spec fn lt_then_id(x: Seq<char>, xid: u64, y: Seq<char>, yid: u64) -> bool {
    seq_lt(x, y) || (x == y && xid < yid)
}

/// The strict order of a listing: by id; by title (lower case), then id;
/// by site, then title, then id; by author, then title, then id; or by
/// episode count (most first), then title, then id.
pub open spec fn record_lt(sort: RecordSort, x: NovelRecord, y: NovelRecord) -> bool {
    let tx = ascii_lower(x.title@);
    let ty = ascii_lower(y.title@);
    match sort {
        RecordSort::Id => x.id < y.id,
        RecordSort::Title => lt_then_id(tx, x.id, ty, y.id),
        RecordSort::Site => seq_lt(ascii_lower(x.sitename@), ascii_lower(y.sitename@)) || (
        ascii_lower(x.sitename@) == ascii_lower(y.sitename@) && lt_then_id(tx, x.id, ty, y.id)),
        RecordSort::Author => seq_lt(ascii_lower(x.author@), ascii_lower(y.author@)) || (
        ascii_lower(x.author@) == ascii_lower(y.author@) && lt_then_id(tx, x.id, ty, y.id)),
        RecordSort::Episodes => x.all_episodes > y.all_episodes || (x.all_episodes
            == y.all_episodes && lt_then_id(tx, x.id, ty, y.id)),
    }
}

proof fn lemma_lt_then_id_transitive(x: Seq<char>, xi: u64, y: Seq<char>, yi: u64, z: Seq<char>, zi: u64)
    requires
        lt_then_id(x, xi, y, yi),
        lt_then_id(y, yi, z, zi),
    ensures
        lt_then_id(x, xi, z, zi),
{
    if seq_lt(x, y) && seq_lt(y, z) {
        lemma_seq_lt_transitive(x, y, z);
    }
}

pub proof fn lemma_record_lt_irreflexive(sort: RecordSort, x: NovelRecord)
    ensures
        !record_lt(sort, x, x),
{
    lemma_seq_lt_irreflexive(ascii_lower(x.title@));
    lemma_seq_lt_irreflexive(ascii_lower(x.sitename@));
    lemma_seq_lt_irreflexive(ascii_lower(x.author@));
}

pub proof fn lemma_record_lt_transitive(sort: RecordSort, x: NovelRecord, y: NovelRecord, z: NovelRecord)
    requires
        record_lt(sort, x, y),
        record_lt(sort, y, z),
    ensures
        record_lt(sort, x, z),
{
    let (tx, ty, tz) = (ascii_lower(x.title@), ascii_lower(y.title@), ascii_lower(z.title@));
    lemma_seq_lt_irreflexive(ascii_lower(x.sitename@));
    lemma_seq_lt_irreflexive(ascii_lower(y.sitename@));
    lemma_seq_lt_irreflexive(ascii_lower(x.author@));
    lemma_seq_lt_irreflexive(ascii_lower(y.author@));
    match sort {
        RecordSort::Id => {},
        RecordSort::Title => {
            lemma_lt_then_id_transitive(tx, x.id, ty, y.id, tz, z.id);
        },
        RecordSort::Site => {
            let (a, b, c) = (ascii_lower(x.sitename@), ascii_lower(y.sitename@), ascii_lower(z.sitename@));
            if seq_lt(a, b) && seq_lt(b, c) {
                lemma_seq_lt_transitive(a, b, c);
            }
            if a == b && b == c {
                lemma_lt_then_id_transitive(tx, x.id, ty, y.id, tz, z.id);
            }
        },
        RecordSort::Author => {
            let (a, b, c) = (ascii_lower(x.author@), ascii_lower(y.author@), ascii_lower(z.author@));
            if seq_lt(a, b) && seq_lt(b, c) {
                lemma_seq_lt_transitive(a, b, c);
            }
            if a == b && b == c {
                lemma_lt_then_id_transitive(tx, x.id, ty, y.id, tz, z.id);
            }
        },
        RecordSort::Episodes => {
            if x.all_episodes == y.all_episodes && y.all_episodes == z.all_episodes {
                lemma_lt_then_id_transitive(tx, x.id, ty, y.id, tz, z.id);
            }
        },
    }
}

/// Of two records with different ids, one comes first in every listing
/// order: only records that share an id can tie.
pub proof fn lemma_record_lt_total(sort: RecordSort, x: NovelRecord, y: NovelRecord)
    requires
        x.id != y.id,
    ensures
        record_lt(sort, x, y) || record_lt(sort, y, x),
{
    let (tx, ty) = (ascii_lower(x.title@), ascii_lower(y.title@));
    if tx != ty {
        lemma_seq_lt_total(tx, ty);
    }
    let (sx, sy) = (ascii_lower(x.sitename@), ascii_lower(y.sitename@));
    if sx != sy {
        lemma_seq_lt_total(sx, sy);
    }
    let (ax, ay) = (ascii_lower(x.author@), ascii_lower(y.author@));
    if ax != ay {
        lemma_seq_lt_total(ax, ay);
    }
}

fn lt_then_id_exec(x: &Vec<char>, xid: u64, y: &Vec<char>, yid: u64) -> (r: bool)
    ensures
        r == lt_then_id(x@, xid, y@, yid),
{
    seq_less(x, y) || (seq_eq(x, y) && xid < yid)
}

fn record_less(sort: RecordSort, x: &NovelRecord, y: &NovelRecord) -> (r: bool)
    ensures
        r == record_lt(sort, *x, *y),
{
    let tx = lower_of(&x.title);
    let ty = lower_of(&y.title);
    match sort {
        RecordSort::Id => x.id < y.id,
        RecordSort::Title => lt_then_id_exec(&tx, x.id, &ty, y.id),
        RecordSort::Site => {
            let (a, b) = (lower_of(&x.sitename), lower_of(&y.sitename));
            seq_less(&a, &b) || (seq_eq(&a, &b) && lt_then_id_exec(&tx, x.id, &ty, y.id))
        },
        RecordSort::Author => {
            let (a, b) = (lower_of(&x.author), lower_of(&y.author));
            seq_less(&a, &b) || (seq_eq(&a, &b) && lt_then_id_exec(&tx, x.id, &ty, y.id))
        },
        RecordSort::Episodes => x.all_episodes > y.all_episodes || (x.all_episodes
            == y.all_episodes && lt_then_id_exec(&tx, x.id, &ty, y.id)),
    }
}

/// No record comes before one placed ahead of it.
pub open spec fn sorted_by(sort: RecordSort, rs: Seq<NovelRecord>) -> bool {
    forall|a: int, b: int| 0 <= a < b < rs.len() ==> !record_lt(sort, #[trigger] rs[b], #[trigger] rs[a])
}

/// Sorts the records in the listing's order: the same records, none
/// placed after one it comes before, so that of two records with
/// different ids the first one listed is the one that comes first.
pub fn sort_records(records: &mut Vec<NovelRecord>, sort: RecordSort)
    ensures
        final(records)@.to_multiset() == old(records)@.to_multiset(),
        sorted_by(sort, final(records)@),
        forall|a: int, b: int|
            0 <= a < b < final(records)@.len() && final(records)@[a].id != final(records)@[b].id
                ==> record_lt(sort, #[trigger] final(records)@[a], #[trigger] final(records)@[b]),
{
    broadcast use vstd::seq_lib::group_to_multiset_ensures;

    let ghost input = records@;
    let mut rest: Vec<NovelRecord> = Vec::new();
    std::mem::swap(&mut rest, records);
    let mut out: Vec<NovelRecord> = Vec::new();
    let n = rest.len();
    let mut i: usize = 0;
    while i < n
        invariant
            n == input.len(),
            i <= n,
            rest@ == input.skip(i as int),
            out@.to_multiset() == input.take(i as int).to_multiset(),
            sorted_by(sort, out@),
        decreases n - i,
    {
        let r = rest.remove(0);
        assert(input.take(i + 1) =~= input.take(i as int).push(r));
        assert(rest@ =~= input.skip(i + 1));
        let mut p: usize = 0;
        while p < out.len() && !record_less(sort, &r, &out[p])
            invariant
                p <= out.len(),
                forall|k: int| 0 <= k < p ==> !record_lt(sort, r, #[trigger] out@[k]),
            decreases out.len() - p,
        {
            p = p + 1;
        }
        let ghost before = out@;
        proof {
            vstd::seq_lib::to_multiset_insert(before, p as int, r);
            vstd::seq_lib::to_multiset_build(input.take(i as int), r);
            lemma_record_lt_irreflexive(sort, r);
        }
        out.insert(p, r);
        assert(out@ == before.insert(p as int, r));
        assert forall|a: int, b: int| 0 <= a < b < out@.len() implies !record_lt(
            sort,
            #[trigger] out@[b],
            #[trigger] out@[a],
        ) by {
            if a < p && b == p {
                assert(out@[a] == before[a] && out@[b] == r);
            } else if a == p && b > p {
                assert(out@[a] == r && out@[b] == before[b - 1]);
                assert(record_lt(sort, r, before[p as int]));
                if record_lt(sort, before[b - 1], r) {
                    lemma_record_lt_transitive(sort, before[b - 1], r, before[p as int]);
                    if b - 1 == p {
                        lemma_record_lt_irreflexive(sort, before[p as int]);
                    } else {
                        assert(!record_lt(sort, before[b - 1], before[p as int]));
                    }
                }
            } else if a < p && b > p {
                assert(out@[a] == before[a] && out@[b] == before[b - 1]);
                assert(!record_lt(sort, before[b - 1], before[a]));
            } else if a > p {
                assert(out@[a] == before[a - 1] && out@[b] == before[b - 1]);
                assert(!record_lt(sort, before[b - 1], before[a - 1]));
            } else {
                assert(out@[a] == before[a] && out@[b] == before[b]);
                assert(!record_lt(sort, before[b], before[a]));
            }
        }
        i = i + 1;
    }
    assert(input.take(n as int) =~= input);
    assert forall|a: int, b: int|
        0 <= a < b < out@.len() && out@[a].id != out@[b].id implies record_lt(
        sort,
        #[trigger] out@[a],
        #[trigger] out@[b],
    ) by {
        lemma_record_lt_total(sort, out@[a], out@[b]);
    }
    *records = out;
}

/// One line of a listing: `[id] site | title | author | episodes=N`, with
/// `| url=...` when verbose.
pub open spec fn record_line_spec(r: NovelRecord, verbose: bool) -> Seq<char> {
    let base = "["@ + decimal(r.id as nat) + "] "@ + r.sitename@ + " | "@ + r.title@ + " | "@
        + r.author@ + " | episodes="@ + decimal(r.all_episodes as nat);
    if verbose {
        base + " | url="@ + r.toc_url@
    } else {
        base
    }
}

pub fn record_line(r: &NovelRecord, verbose: bool) -> (res: String)
    ensures
        res@ == record_line_spec(*r, verbose),
{
    let mut v = chars_of("[");
    push_all(&mut v, &u64_to_decimal(r.id));
    push_str(&mut v, "] ");
    push_str(&mut v, r.sitename.as_str());
    push_str(&mut v, " | ");
    push_str(&mut v, r.title.as_str());
    push_str(&mut v, " | ");
    push_str(&mut v, r.author.as_str());
    push_str(&mut v, " | episodes=");
    push_all(&mut v, &u64_to_decimal(r.all_episodes as u64));
    if verbose {
        push_str(&mut v, " | url=");
        push_str(&mut v, r.toc_url.as_str());
    }
    string_of(&v)
}

pub open spec fn listing_spec(rs: Seq<NovelRecord>, verbose: bool) -> Seq<Seq<char>> {
    rs.map_values(|r: NovelRecord| record_line_spec(r, verbose)).push(
        "total: "@ + decimal(rs.len() as nat),
    )
}

/// The lines of a listing: one per record, then the count.
pub fn record_listing(records: &Vec<NovelRecord>, verbose: bool) -> (res: Vec<String>)
    ensures
        crate::convert::string_views(res@) == listing_spec(records@, verbose),
{
    let ghost lines = records@.map_values(|r: NovelRecord| record_line_spec(r, verbose));
    let mut out: Vec<String> = Vec::new();
    let mut i: usize = 0;
    while i < records.len()
        invariant
            i <= records.len(),
            lines == records@.map_values(|r: NovelRecord| record_line_spec(r, verbose)),
            crate::convert::string_views(out@) == lines.take(i as int),
        decreases records.len() - i,
    {
        let ghost before = out@;
        let line = record_line(&records[i], verbose);
        assert(line@ == lines[i as int]);
        out.push(line);
        assert(crate::convert::string_views(out@) =~= crate::convert::string_views(before).push(line@));
        assert(lines.take(i + 1) =~= lines.take(i as int).push(lines[i as int]));
        i = i + 1;
    }
    let mut total = chars_of("total: ");
    push_all(&mut total, &u64_to_decimal(records.len() as u64));
    let ghost before = out@;
    out.push(string_of(&total));
    assert(lines.take(records.len() as int) =~= lines);
    assert(crate::convert::string_views(out@) =~= listing_spec(records@, verbose));
    out
}

} // verus!
