//! Character-level helpers shared by the other modules: trimming, line
//! splitting, searching and replacing, all stated over `Seq<char>`.

use vstd::prelude::*;

verus! {

/// The characters of a string slice, in order.
pub(crate) fn chars_of(s: &str) -> (res: Vec<char>)
    ensures
        res@ == s@,
{
    broadcast use vstd::string::axiom_spec_iter;

    let mut out: Vec<char> = Vec::new();
    for c in it: s.chars()
        invariant
            it.seq() == s@,
            out@ == it.seq().take(it.index() as int),
    {
        assert(it.seq().take(it.index() + 1) =~= it.seq().take(it.index() as int).push(c));
        out.push(c);
    }
    assert(s@.take(s@.len() as int) =~= s@);
    out
}

/// Builds a `String` from characters (`Iterator::collect` into `String`).
/// Claimed: the string holds exactly the given characters, in order.
#[verifier::external_body]
pub(crate) fn string_of(v: &Vec<char>) -> (res: String)
    ensures
        res@ == v@,
{
    v.iter().collect()
}

/// Unicode `White_Space` characters, the set that `char::is_whitespace`
/// and `str::trim` use.
pub open spec fn is_ws(c: char) -> bool {
    ||| ('\u{9}' <= c && c <= '\u{d}')
    ||| c == ' '
    ||| c == '\u{85}'
    ||| c == '\u{a0}'
    ||| c == '\u{1680}'
    ||| ('\u{2000}' <= c && c <= '\u{200a}')
    ||| c == '\u{2028}'
    ||| c == '\u{2029}'
    ||| c == '\u{202f}'
    ||| c == '\u{205f}'
    ||| c == '\u{3000}'
}

pub fn is_whitespace_char(c: char) -> (r: bool)
    ensures
        r == is_ws(c),
{
    ('\u{9}' <= c && c <= '\u{d}') || c == ' ' || c == '\u{85}' || c == '\u{a0}'
        || c == '\u{1680}' || ('\u{2000}' <= c && c <= '\u{200a}') || c == '\u{2028}'
        || c == '\u{2029}' || c == '\u{202f}' || c == '\u{205f}' || c == '\u{3000}'
}


/// Index of the first non-whitespace character at or after `i`.
pub open spec fn skip_ws_from(s: Seq<char>, i: int) -> int
    decreases s.len() - i,
{
    if i >= s.len() {
        s.len() as int
    } else if is_ws(s[i]) {
        skip_ws_from(s, i + 1)
    } else {
        i
    }
}

/// End of `s.take(j)` once trailing whitespace is dropped.
pub open spec fn trim_end_len(s: Seq<char>, j: int) -> int
    decreases j,
{
    if j <= 0 {
        0
    } else if is_ws(s[j - 1]) {
        trim_end_len(s, j - 1)
    } else {
        j
    }
}

/// `str::trim_end`.
pub open spec fn trim_end(s: Seq<char>) -> Seq<char> {
    s.subrange(0, trim_end_len(s, s.len() as int))
}

/// `str::trim_start`.
pub open spec fn trim_start(s: Seq<char>) -> Seq<char> {
    s.subrange(skip_ws_from(s, 0), s.len() as int)
}

/// `str::trim`.
pub open spec fn trim(s: Seq<char>) -> Seq<char> {
    trim_start(trim_end(s))
}

pub proof fn lemma_skip_ws_bounds(s: Seq<char>, i: int)
    requires
        0 <= i <= s.len(),
    ensures
        i <= skip_ws_from(s, i) <= s.len(),
        forall|k: int| i <= k < skip_ws_from(s, i) ==> is_ws(#[trigger] s[k]),
        skip_ws_from(s, i) < s.len() ==> !is_ws(s[skip_ws_from(s, i)]),
    decreases s.len() - i,
{
    if i < s.len() && is_ws(s[i]) {
        lemma_skip_ws_bounds(s, i + 1);
    }
}

pub proof fn lemma_trim_end_bounds(s: Seq<char>, j: int)
    requires
        0 <= j <= s.len(),
    ensures
        0 <= trim_end_len(s, j) <= j,
        forall|k: int| trim_end_len(s, j) <= k < j ==> is_ws(#[trigger] s[k]),
        trim_end_len(s, j) > 0 ==> !is_ws(s[trim_end_len(s, j) - 1]),
    decreases j,
{
    if j > 0 && is_ws(s[j - 1]) {
        lemma_trim_end_bounds(s, j - 1);
    }
}


pub fn trim_end_chars(v: &Vec<char>) -> (res: Vec<char>)
    ensures
        res@ == trim_end(v@),
{
    let mut j: usize = v.len();
    while j > 0 && is_whitespace_char(v[j - 1])
        invariant
            j <= v.len(),
            trim_end_len(v@, v.len() as int) == trim_end_len(v@, j as int),
        decreases j,
    {
        j = j - 1;
    }
    proof {
        lemma_trim_end_bounds(v@, j as int);
    }
    slice_chars(v, 0, j)
}

pub fn trim_start_chars(v: &Vec<char>) -> (res: Vec<char>)
    ensures
        res@ == trim_start(v@),
{
    let mut i: usize = 0;
    while i < v.len() && is_whitespace_char(v[i])
        invariant
            i <= v.len(),
            skip_ws_from(v@, 0) == skip_ws_from(v@, i as int),
        decreases v.len() - i,
    {
        i = i + 1;
    }
    slice_chars(v, i, v.len())
}

pub fn trim_chars(v: &Vec<char>) -> (res: Vec<char>)
    ensures
        res@ == trim(v@),
{
    let e = trim_end_chars(v);
    trim_start_chars(&e)
}

/// Copies `v[from..to]`.
pub fn slice_chars(v: &Vec<char>, from: usize, to: usize) -> (res: Vec<char>)
    requires
        from <= to <= v.len(),
    ensures
        res@ == v@.subrange(from as int, to as int),
{
    let mut out: Vec<char> = Vec::new();
    let mut i: usize = from;
    while i < to
        invariant
            from <= i <= to <= v.len(),
            out@ == v@.subrange(from as int, i as int),
        decreases to - i,
    {
        out.push(v[i]);
        i = i + 1;
        assert(out@ =~= v@.subrange(from as int, i as int));
    }
    out
}

/// Appends all of `src` to `dst`.
pub fn push_all(dst: &mut Vec<char>, src: &Vec<char>)
    ensures
        final(dst)@ == old(dst)@ + src@,
{
    let mut i: usize = 0;
    while i < src.len()
        invariant
            i <= src.len(),
            dst@ == old(dst)@ + src@.subrange(0, i as int),
        decreases src.len() - i,
    {
        dst.push(src[i]);
        i = i + 1;
        assert(dst@ =~= old(dst)@ + src@.subrange(0, i as int));
    }
    assert(src@.subrange(0, src.len() as int) =~= src@);
}


/// `pat` occurs in `s` at index `i`.
pub open spec fn occurs_at(s: Seq<char>, i: int, pat: Seq<char>) -> bool {
    0 <= i && i + pat.len() <= s.len() && s.subrange(i, i + pat.len()) == pat
}

/// `str::starts_with` with a string pattern.
pub open spec fn starts_with(s: Seq<char>, pat: Seq<char>) -> bool {
    occurs_at(s, 0, pat)
}

/// `str::contains` with a string pattern.
pub open spec fn contains_seq(s: Seq<char>, pat: Seq<char>) -> bool {
    exists|i: int| #[trigger] occurs_at(s, i, pat)
}

pub fn matches_at(v: &Vec<char>, i: usize, pat: &Vec<char>) -> (r: bool)
    ensures
        r == occurs_at(v@, i as int, pat@),
{
    if i > v.len() || pat.len() > v.len() - i {
        return false;
    }
    let mut k: usize = 0;
    while k < pat.len()
        invariant
            i + pat.len() <= v.len(),
            k <= pat.len(),
            forall|m: int| 0 <= m < k ==> v@[i + m] == pat@[m],
        decreases pat.len() - k,
    {
        if v[i + k] != pat[k] {
            assert(v@.subrange(i as int, i + pat.len())[k as int] != pat@[k as int]);
            return false;
        }
        k = k + 1;
    }
    assert(v@.subrange(i as int, i + pat.len()) =~= pat@);
    true
}

pub fn starts_with_chars(v: &Vec<char>, pat: &Vec<char>) -> (r: bool)
    ensures
        r == starts_with(v@, pat@),
{
    matches_at(v, 0, pat)
}

/// First index at or after `i` where `pat` occurs, if any.
pub open spec fn find_from(s: Seq<char>, pat: Seq<char>, i: int) -> Option<int>
    decreases s.len() + 1 - i,
{
    if i < 0 || i > s.len() {
        None
    } else if occurs_at(s, i, pat) {
        Some(i)
    } else {
        find_from(s, pat, i + 1)
    }
}

pub proof fn lemma_find_from(s: Seq<char>, pat: Seq<char>, i: int)
    requires
        0 <= i,
    ensures
        match find_from(s, pat, i) {
            Some(k) => i <= k && occurs_at(s, k, pat) && forall|m: int|
                i <= m < k ==> !#[trigger] occurs_at(s, m, pat),
            None => forall|m: int| i <= m ==> !#[trigger] occurs_at(s, m, pat),
        },
    decreases s.len() + 1 - i,
{
    if i <= s.len() && !occurs_at(s, i, pat) {
        lemma_find_from(s, pat, i + 1);
    }
}

pub fn find_chars(v: &Vec<char>, pat: &Vec<char>, from: usize) -> (r: Option<usize>)
    ensures
        match r {
            Some(k) => find_from(v@, pat@, from as int) == Some(k as int),
            None => find_from(v@, pat@, from as int) is None,
        },
{
    if from > v.len() {
        return None;
    }
    let mut i: usize = from;
    loop
        invariant
            from <= i <= v.len(),
            find_from(v@, pat@, from as int) == find_from(v@, pat@, i as int),
        decreases v.len() - i,
    {
        if matches_at(v, i, pat) {
            return Some(i);
        }
        if i == v.len() {
            assert(find_from(v@, pat@, i + 1) is None);
            return None;
        }
        i = i + 1;
    }
}

pub fn contains_chars(v: &Vec<char>, pat: &Vec<char>) -> (r: bool)
    ensures
        r == contains_seq(v@, pat@),
{
    let f = find_chars(v, pat, 0);
    proof {
        lemma_find_from(v@, pat@, 0);
    }
    f.is_some()
}

/// Last index `k` with `k + pat.len() <= j` where `pat` occurs.
pub open spec fn rfind_before(s: Seq<char>, pat: Seq<char>, j: int) -> Option<int>
    decreases j + 1,
{
    if j < 0 {
        None
    } else if j - pat.len() >= 0 && occurs_at(s, j - pat.len(), pat) {
        Some(j - pat.len())
    } else {
        rfind_before(s, pat, j - 1)
    }
}

pub fn rfind_chars(v: &Vec<char>, pat: &Vec<char>, end: usize) -> (r: Option<usize>)
    requires
        end <= v.len(),
    ensures
        match r {
            Some(k) => rfind_before(v@, pat@, end as int) == Some(k as int),
            None => rfind_before(v@, pat@, end as int) is None,
        },
{
    let mut j: usize = end;
    loop
        invariant
            j <= end <= v.len(),
            rfind_before(v@, pat@, end as int) == rfind_before(v@, pat@, j as int),
        decreases j,
    {
        if j >= pat.len() && matches_at(v, j - pat.len(), pat) {
            return Some(j - pat.len());
        }
        if j == 0 {
            assert(rfind_before(v@, pat@, -1) is None);
            return None;
        }
        j = j - 1;
    }
}

/// `str::replace`: non-overlapping matches of `pat`, leftmost first, each
/// replaced by `rep`; scanning starts at index `i`.
pub open spec fn replace_from(s: Seq<char>, pat: Seq<char>, rep: Seq<char>, i: int) -> Seq<char>
    recommends
        pat.len() > 0,
    decreases s.len() - i,
{
    if i < 0 || i >= s.len() || pat.len() == 0 {
        Seq::empty()
    } else if occurs_at(s, i, pat) {
        rep + replace_from(s, pat, rep, i + pat.len())
    } else {
        seq![s[i]] + replace_from(s, pat, rep, i + 1)
    }
}

pub open spec fn replace_all(s: Seq<char>, pat: Seq<char>, rep: Seq<char>) -> Seq<char> {
    replace_from(s, pat, rep, 0)
}

pub fn replace_chars(v: &Vec<char>, pat: &Vec<char>, rep: &Vec<char>) -> (res: Vec<char>)
    requires
        pat.len() > 0,
    ensures
        res@ == replace_all(v@, pat@, rep@),
{
    let mut out: Vec<char> = Vec::new();
    let mut i: usize = 0;
    while i < v.len()
        invariant
            pat.len() > 0,
            i <= v.len() + pat.len(),
            replace_all(v@, pat@, rep@) == out@ + replace_from(v@, pat@, rep@, i as int),
        decreases v.len() + pat.len() - i,
    {
        if matches_at(v, i, pat) {
            let ghost before = out@;
            push_all(&mut out, rep);
            assert(before + (rep@ + replace_from(v@, pat@, rep@, i + pat.len())) =~= out@
                + replace_from(v@, pat@, rep@, i + pat.len()));
            i = i + pat.len();
        } else {
            let ghost before = out@;
            out.push(v[i]);
            assert(before + (seq![v@[i as int]] + replace_from(v@, pat@, rep@, i + 1)) =~= out@
                + replace_from(v@, pat@, rep@, i + 1));
            i = i + 1;
        }
    }
    assert(replace_from(v@, pat@, rep@, i as int) =~= Seq::<char>::empty());
    assert(out@ + Seq::<char>::empty() =~= out@);
    out
}

/// `str::lines`: pieces separated by `'\n'`, a trailing `'\r'` removed from
/// each piece that ended in `'\n'`, and no empty piece after a final `'\n'`.
pub open spec fn next_newline(s: Seq<char>, i: int) -> int
    decreases s.len() - i,
{
    if i >= s.len() {
        s.len() as int
    } else if s[i] == '\n' {
        i
    } else {
        next_newline(s, i + 1)
    }
}

pub open spec fn strip_cr(s: Seq<char>) -> Seq<char> {
    if s.len() > 0 && s.last() == '\r' {
        s.drop_last()
    } else {
        s
    }
}

pub open spec fn lines_from(s: Seq<char>, i: int) -> Seq<Seq<char>>
    decreases s.len() - i,
{
    if i < 0 || i >= s.len() {
        Seq::empty()
    } else {
        let j = next_newline(s, i);
        proof {
            lemma_next_newline(s, i);
        }
        if j < s.len() {
            seq![strip_cr(s.subrange(i, j))] + lines_from(s, j + 1)
        } else {
            seq![s.subrange(i, s.len() as int)]
        }
    }
}

pub open spec fn lines_of(s: Seq<char>) -> Seq<Seq<char>> {
    lines_from(s, 0)
}

/// No line of `lines_from(s, i)` holds a line break.
pub proof fn lemma_lines_have_no_newline(s: Seq<char>, i: int)
    ensures
        forall|n: int, k: int|
            0 <= n < lines_from(s, i).len() && 0 <= k < lines_from(s, i)[n].len()
                ==> #[trigger] lines_from(s, i)[n][k] != '\n',
    decreases s.len() - i,
{
    if 0 <= i < s.len() {
        let j = next_newline(s, i);
        lemma_next_newline(s, i);
        if j < s.len() {
            lemma_lines_have_no_newline(s, j + 1);
            let first = strip_cr(s.subrange(i, j));
            assert forall|n: int, k: int|
                0 <= n < lines_from(s, i).len() && 0 <= k < lines_from(s, i)[n].len()
                    implies #[trigger] lines_from(s, i)[n][k] != '\n' by {
                if n == 0 {
                    assert(lines_from(s, i)[n] == first);
                    assert(first[k] == s[i + k]);
                } else {
                    assert(lines_from(s, i)[n] == lines_from(s, j + 1)[n - 1]);
                }
            }
        } else {
            assert forall|n: int, k: int|
                0 <= n < lines_from(s, i).len() && 0 <= k < lines_from(s, i)[n].len()
                    implies #[trigger] lines_from(s, i)[n][k] != '\n' by {
                assert(lines_from(s, i)[n] == s.subrange(i, s.len() as int));
                assert(s.subrange(i, s.len() as int)[k] == s[i + k]);
            }
        }
    }
}

/// A text that neither starts nor ends with whitespace is its own trim.
pub proof fn lemma_trim_fixed(y: Seq<char>)
    requires
        y.len() > 0 ==> !is_ws(y[0]) && !is_ws(y.last()),
    ensures
        trim(y) == y,
{
    if y.len() > 0 {
        assert(trim_end_len(y, y.len() as int) == y.len());
        assert(trim_end(y) =~= y);
        assert(skip_ws_from(y, 0) == 0);
        assert(trim_start(y) =~= y);
    } else {
        assert(trim_end(y) =~= y);
        assert(trim_start(y) =~= y);
    }
}

/// `trim` leaves text that neither starts nor ends with whitespace, and
/// takes the slice of its argument that starts at the position returned.
pub proof fn lemma_trim_shape(s: Seq<char>) -> (a: int)
    ensures
        trim(s).len() > 0 ==> !is_ws(trim(s)[0]) && !is_ws(trim(s).last()),
        0 <= a && a + trim(s).len() <= s.len(),
        s.subrange(a, a + trim(s).len()) == trim(s),
{
    let e = trim_end_len(s, s.len() as int);
    lemma_trim_end_bounds(s, s.len() as int);
    let t = trim_end(s);
    lemma_skip_ws_bounds(t, 0);
    let a = skip_ws_from(t, 0);
    assert(trim(s) =~= s.subrange(a, e));
    if trim(s).len() > 0 {
        assert(trim(s)[0] == t[a]);
        assert(trim(s).last() == s[e - 1]);
    }
    a
}

pub proof fn lemma_next_newline(s: Seq<char>, i: int)
    requires
        0 <= i <= s.len(),
    ensures
        i <= next_newline(s, i) <= s.len(),
        next_newline(s, i) < s.len() ==> s[next_newline(s, i)] == '\n',
        forall|k: int| i <= k < next_newline(s, i) ==> #[trigger] s[k] != '\n',
    decreases s.len() - i,
{
    if i < s.len() && s[i] != '\n' {
        lemma_next_newline(s, i + 1);
    }
}

/// The views of a vector of character vectors.
pub open spec fn views(v: Seq<Vec<char>>) -> Seq<Seq<char>> {
    v.map_values(|x: Vec<char>| x@)
}

pub fn split_lines(v: &Vec<char>) -> (res: Vec<Vec<char>>)
    ensures
        views(res@) == lines_of(v@),
{
    let mut out: Vec<Vec<char>> = Vec::new();
    let mut i: usize = 0;
    while i < v.len()
        invariant
            i <= v.len(),
            lines_of(v@) == views(out@) + lines_from(v@, i as int),
        decreases v.len() - i,
    {
        let mut j: usize = i;
        while j < v.len() && v[j] != '\n'
            invariant
                i <= j <= v.len(),
                next_newline(v@, i as int) == next_newline(v@, j as int),
            decreases v.len() - j,
        {
            j = j + 1;
        }
        let ghost before = views(out@);
        if j < v.len() {
            let mut line = slice_chars(v, i, j);
            if line.len() > 0 && line[line.len() - 1] == '\r' {
                line.pop();
            }
            assert(line@ =~= strip_cr(v@.subrange(i as int, j as int)));
            out.push(line);
            assert(views(out@) =~= before + seq![strip_cr(v@.subrange(i as int, j as int))]);
            assert(before + (seq![strip_cr(v@.subrange(i as int, j as int))] + lines_from(
                v@,
                j + 1,
            )) =~= views(out@) + lines_from(v@, j + 1));
            i = j + 1;
        } else {
            let line = slice_chars(v, i, j);
            out.push(line);
            assert(views(out@) =~= before + seq![v@.subrange(i as int, v.len() as int)]);
            assert(lines_from(v@, v.len() as int) =~= Seq::<Seq<char>>::empty());
            assert(views(out@) + lines_from(v@, v.len() as int) =~= views(out@));
            i = v.len();
        }
    }
    assert(lines_from(v@, i as int) =~= Seq::<Seq<char>>::empty());
    assert(views(out@) + Seq::<Seq<char>>::empty() =~= views(out@));
    out
}

/// `join(sep)` over a sequence of pieces.
pub open spec fn join_seq(ls: Seq<Seq<char>>, sep: Seq<char>) -> Seq<char>
    decreases ls.len(),
{
    if ls.len() == 0 {
        Seq::empty()
    } else if ls.len() == 1 {
        ls[0]
    } else {
        join_seq(ls.drop_last(), sep) + sep + ls.last()
    }
}

pub fn join_lines_with(ls: &Vec<Vec<char>>, sep: &Vec<char>) -> (res: Vec<char>)
    ensures
        res@ == join_seq(views(ls@), sep@),
{
    let mut out: Vec<char> = Vec::new();
    let mut i: usize = 0;
    while i < ls.len()
        invariant
            i <= ls.len(),
            out@ == join_seq(views(ls@).take(i as int), sep@),
        decreases ls.len() - i,
    {
        assert(views(ls@).take(i + 1).drop_last() =~= views(ls@).take(i as int));
        if i > 0 {
            push_all(&mut out, sep);
        }
        push_all(&mut out, &ls[i]);
        i = i + 1;
    }
    assert(views(ls@).take(ls.len() as int) =~= views(ls@));
    out
}


/// Equality of two character vectors.
pub fn seq_eq(a: &Vec<char>, b: &Vec<char>) -> (r: bool)
    ensures
        r == (a@ == b@),
{
    if a.len() != b.len() {
        return false;
    }
    let mut i: usize = 0;
    while i < a.len()
        invariant
            i <= a.len() == b.len(),
            forall|k: int| 0 <= k < i ==> a@[k] == b@[k],
        decreases a.len() - i,
    {
        if a[i] != b[i] {
            return false;
        }
        i = i + 1;
    }
    assert(a@ =~= b@);
    true
}


/// Decimal digits of `n`, as `u64`'s `Display` writes them.
pub open spec fn decimal(n: nat) -> Seq<char>
    decreases n,
{
    if n < 10 {
        seq![(n + 48) as char]
    } else {
        decimal(n / 10) + seq![((n % 10) + 48) as char]
    }
}

pub fn u64_to_decimal(n: u64) -> (res: Vec<char>)
    ensures
        res@ == decimal(n as nat),
    decreases n,
{
    if n < 10 {
        let mut out: Vec<char> = Vec::new();
        out.push(digit_char(n));
        out
    } else {
        let mut out = u64_to_decimal(n / 10);
        out.push(digit_char(n % 10));
        out
    }
}

fn digit_char(d: u64) -> (c: char)
    requires
        d < 10,
    ensures
        c == (d + 48) as char,
{
    match d {
        0 => '0',
        1 => '1',
        2 => '2',
        3 => '3',
        4 => '4',
        5 => '5',
        6 => '6',
        7 => '7',
        8 => '8',
        _ => '9',
    }
}



/// Appends a string slice's characters.
pub fn push_str(dst: &mut Vec<char>, s: &str)
    ensures
        final(dst)@ == old(dst)@ + s@,
{
    let v = chars_of(s);
    push_all(dst, &v);
}


pub open spec fn concat_views(parts: Seq<&str>) -> Seq<char>
    decreases parts.len(),
{
    if parts.len() == 0 {
        Seq::empty()
    } else {
        concat_views(parts.drop_last()) + parts.last()@
    }
}


/// A copy of a vector of strings.
pub fn clone_strings(v: &Vec<String>) -> (res: Vec<String>)
    ensures
        res@ == v@,
{
    let mut out: Vec<String> = Vec::new();
    let mut i: usize = 0;
    while i < v.len()
        invariant
            i <= v.len(),
            out@ == v@.take(i as int),
        decreases v.len() - i,
    {
        out.push(v[i].clone());
        i = i + 1;
        assert(out@ =~= v@.take(i as int));
    }
    assert(v@.take(v.len() as int) =~= v@);
    out
}

/// A copy of an optional string.
pub fn clone_opt(o: &Option<String>) -> (res: Option<String>)
    ensures
        res == *o,
{
    match o {
        Some(s) => Some(s.clone()),
        None => None,
    }
}


/// Equality of two string slices.
pub fn str_eq(a: &str, b: &str) -> (r: bool)
    ensures
        r == (a@ == b@),
{
    seq_eq(&chars_of(a), &chars_of(b))
}

/// `str::ends_with` with a string pattern.
pub open spec fn ends_with(s: Seq<char>, pat: Seq<char>) -> bool {
    occurs_at(s, s.len() - pat.len(), pat)
}

pub fn ends_with_chars(v: &Vec<char>, pat: &Vec<char>) -> (r: bool)
    ensures
        r == ends_with(v@, pat@),
{
    if pat.len() > v.len() {
        return false;
    }
    matches_at(v, v.len() - pat.len(), pat)
}

} // verus!
