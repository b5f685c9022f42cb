//! Conversion of saved episodes (HTML fragments) into Aozora Bunko markup
//! text, the input format of AozoraEpub3.

use vstd::prelude::*;
use crate::html::{ruby_replacement, ruby_text};
use crate::text::{
    join_lines_with, join_seq, lines_of, next_newline, split_lines, starts_with,
    starts_with_chars, trim, trim_chars, trim_end, trim_end_chars, views, lemma_next_newline,
    is_ws, trim_end_len, lemma_trim_end_bounds, lemma_lines_have_no_newline, lemma_trim_fixed,
    lemma_trim_shape, lines_from, strip_cr, skip_ws_from, trim_start,
    chars_of, find_chars, rfind_before, rfind_chars, find_from, lemma_find_from, occurs_at, push_all, replace_all,
    replace_chars, slice_chars, string_of,
};

verus! {

/// `char::from_u32`. Claimed, as std documents it: `Some` exactly for a
/// Unicode scalar value, and then the character with that code.
#[verifier::external_body]
pub(crate) fn char_from_u32(v: u32) -> (r: Option<char>)
    ensures
        r is Some <==> (v <= 0xD7FF || (0xE000 <= v && v <= 0x10FFFF)),
        r matches Some(c) ==> c as u32 == v && c == v as char,
{
    char::from_u32(v)
}

/// Full-width form of a printable ASCII symbol, or `None`.
pub open spec fn zenkaku_symbol(c: char) -> Option<char> {
    if c == '!' { Some('！') }
    else if c == '"' { Some('”') }
    else if c == '#' { Some('＃') }
    else if c == '$' { Some('＄') }
    else if c == '%' { Some('％') }
    else if c == '&' { Some('＆') }
    else if c == '\'' { Some('’') }
    else if c == '(' { Some('（') }
    else if c == ')' { Some('）') }
    else if c == '*' { Some('＊') }
    else if c == '+' { Some('＋') }
    else if c == ',' { Some('，') }
    else if c == '-' { Some('－') }
    else if c == '.' { Some('．') }
    else if c == '/' { Some('／') }
    else if c == ':' { Some('：') }
    else if c == ';' { Some('；') }
    else if c == '<' { Some('＜') }
    else if c == '=' { Some('＝') }
    else if c == '>' { Some('＞') }
    else if c == '?' { Some('？') }
    else if c == '@' { Some('＠') }
    else { None }
}

fn zenkaku_symbol_exec(c: char) -> (r: Option<char>)
    ensures
        r == zenkaku_symbol(c),
{
    match c {
        '!' => Some('！'),
        '"' => Some('”'),
        '#' => Some('＃'),
        '$' => Some('＄'),
        '%' => Some('％'),
        '&' => Some('＆'),
        '\'' => Some('’'),
        '(' => Some('（'),
        ')' => Some('）'),
        '*' => Some('＊'),
        '+' => Some('＋'),
        ',' => Some('，'),
        '-' => Some('－'),
        '.' => Some('．'),
        '/' => Some('／'),
        ':' => Some('：'),
        ';' => Some('；'),
        '<' => Some('＜'),
        '=' => Some('＝'),
        '>' => Some('＞'),
        '?' => Some('？'),
        '@' => Some('＠'),
        _ => None,
    }
}

pub open spec fn is_ascii_letter(c: char) -> bool {
    ('A' <= c && c <= 'Z') || ('a' <= c && c <= 'z')
}

pub open spec fn is_ascii_digit(c: char) -> bool {
    '0' <= c && c <= '9'
}

/// The full-width form of an ASCII letter or digit (code point + 0xFEE0).
pub open spec fn shift_full_width(c: char) -> char {
    ((c as u32) + 0xFEE0) as char
}

fn shift_full_width_exec(c: char) -> (r: char)
    requires
        is_ascii_letter(c) || is_ascii_digit(c),
    ensures
        r == shift_full_width(c),
{
    let v: u32 = (c as u32) + 0xFEE0;
    match char_from_u32(v) {
        Some(x) => x,
        None => c,
    }
}

/// Character map of `to_zenkaku_ascii_general`: letters, digits and ASCII
/// symbols become full-width.
pub open spec fn zenkaku_general_char(c: char) -> char {
    if is_ascii_letter(c) || is_ascii_digit(c) {
        shift_full_width(c)
    } else {
        match zenkaku_symbol(c) {
            Some(z) => z,
            None => c,
        }
    }
}

/// Character map of `to_zenkaku_ascii`: like the general one, but digits
/// stay ASCII.
pub open spec fn zenkaku_ascii_char(c: char) -> char {
    match zenkaku_symbol(c) {
        Some(z) => z,
        None => if is_ascii_letter(c) {
            shift_full_width(c)
        } else {
            c
        },
    }
}

pub open spec fn full_width_digit(c: char) -> bool {
    '０' <= c && c <= '９'
}

/// Character map of `ascii_digits`.
pub open spec fn ascii_digit_char(c: char) -> char {
    if full_width_digit(c) {
        ((c as u32) - 0xFEE0) as char
    } else {
        c
    }
}

/// Character map of `to_zenkaku_digits`.
pub open spec fn zenkaku_digit_char(c: char) -> char {
    if is_ascii_digit(c) {
        shift_full_width(c)
    } else {
        c
    }
}

/// Character map of `number_to_kanji`.
pub open spec fn kanji_digit_char(c: char) -> char {
    if c == '0' { '〇' }
    else if c == '1' { '一' }
    else if c == '2' { '二' }
    else if c == '3' { '三' }
    else if c == '4' { '四' }
    else if c == '5' { '五' }
    else if c == '6' { '六' }
    else if c == '7' { '七' }
    else if c == '8' { '八' }
    else if c == '9' { '九' }
    else { c }
}

fn zenkaku_general_char_exec(c: char) -> (r: char)
    ensures
        r == zenkaku_general_char(c),
{
    if ('A' <= c && c <= 'Z') || ('a' <= c && c <= 'z') || ('0' <= c && c <= '9') {
        shift_full_width_exec(c)
    } else {
        match zenkaku_symbol_exec(c) {
            Some(z) => z,
            None => c,
        }
    }
}

fn zenkaku_ascii_char_exec(c: char) -> (r: char)
    ensures
        r == zenkaku_ascii_char(c),
{
    match zenkaku_symbol_exec(c) {
        Some(z) => z,
        None => if ('A' <= c && c <= 'Z') || ('a' <= c && c <= 'z') {
            shift_full_width_exec(c)
        } else {
            c
        },
    }
}

fn ascii_digit_char_exec(c: char) -> (r: char)
    ensures
        r == ascii_digit_char(c),
{
    if '０' <= c && c <= '９' {
        let v: u32 = (c as u32) - 0xFEE0;
        match char_from_u32(v) {
            Some(x) => x,
            None => c,
        }
    } else {
        c
    }
}

fn zenkaku_digit_char_exec(c: char) -> (r: char)
    ensures
        r == zenkaku_digit_char(c),
{
    if '0' <= c && c <= '9' {
        shift_full_width_exec(c)
    } else {
        c
    }
}

fn kanji_digit_char_exec(c: char) -> (r: char)
    ensures
        r == kanji_digit_char(c),
{
    match c {
        '0' => '〇',
        '1' => '一',
        '2' => '二',
        '3' => '三',
        '4' => '四',
        '5' => '五',
        '6' => '六',
        '7' => '七',
        '8' => '八',
        '9' => '九',
        _ => c,
    }
}

/// Which of the character maps above a pass applies.
#[derive(Clone, Copy, PartialEq, Eq, Structural)]
pub enum CharMap {
    ZenkakuGeneral,
    ZenkakuAscii,
    AsciiDigits,
    ZenkakuDigits,
    KanjiDigits,
}

pub open spec fn apply_char_map(m: CharMap, c: char) -> char {
    match m {
        CharMap::ZenkakuGeneral => zenkaku_general_char(c),
        CharMap::ZenkakuAscii => zenkaku_ascii_char(c),
        CharMap::AsciiDigits => ascii_digit_char(c),
        CharMap::ZenkakuDigits => zenkaku_digit_char(c),
        CharMap::KanjiDigits => kanji_digit_char(c),
    }
}

pub open spec fn map_seq(m: CharMap, s: Seq<char>) -> Seq<char> {
    s.map_values(|c: char| apply_char_map(m, c))
}

fn apply_char_map_exec(m: CharMap, c: char) -> (r: char)
    ensures
        r == apply_char_map(m, c),
{
    match m {
        CharMap::ZenkakuGeneral => zenkaku_general_char_exec(c),
        CharMap::ZenkakuAscii => zenkaku_ascii_char_exec(c),
        CharMap::AsciiDigits => ascii_digit_char_exec(c),
        CharMap::ZenkakuDigits => zenkaku_digit_char_exec(c),
        CharMap::KanjiDigits => kanji_digit_char_exec(c),
    }
}

pub(crate) fn map_chars(m: CharMap, v: &Vec<char>) -> (res: Vec<char>)
    ensures
        res@ == map_seq(m, v@),
{
    let mut out: Vec<char> = Vec::new();
    let mut i: usize = 0;
    while i < v.len()
        invariant
            i <= v.len(),
            out@ == map_seq(m, v@.take(i as int)),
        decreases v.len() - i,
    {
        out.push(apply_char_map_exec(m, v[i]));
        i = i + 1;
        assert(out@ =~= map_seq(m, v@.take(i as int)));
    }
    assert(v@.take(v.len() as int) =~= v@);
    out
}

/// Letters, digits and ASCII symbols to their full-width forms.
pub fn to_zenkaku_ascii_general(input: &str) -> (res: String)
    ensures
        res@ == map_seq(CharMap::ZenkakuGeneral, input@),
{
    string_of(&map_chars(CharMap::ZenkakuGeneral, &chars_of(input)))
}

/// Letters and ASCII symbols to their full-width forms; digits are kept.
pub fn to_zenkaku_ascii(input: &str) -> (res: String)
    ensures
        res@ == map_seq(CharMap::ZenkakuAscii, input@),
{
    string_of(&map_chars(CharMap::ZenkakuAscii, &chars_of(input)))
}

/// Full-width digits to ASCII digits.
pub fn ascii_digits(input: &str) -> (res: String)
    ensures
        res@ == map_seq(CharMap::AsciiDigits, input@),
{
    string_of(&map_chars(CharMap::AsciiDigits, &chars_of(input)))
}

/// ASCII digits to full-width digits.
pub fn to_zenkaku_digits(input: &str) -> (res: String)
    ensures
        res@ == map_seq(CharMap::ZenkakuDigits, input@),
{
    string_of(&map_chars(CharMap::ZenkakuDigits, &chars_of(input)))
}

/// ASCII digits to kanji numerals, one per digit.
pub fn number_to_kanji(input: &str) -> (res: String)
    ensures
        res@ == map_seq(CharMap::KanjiDigits, input@),
{
    string_of(&map_chars(CharMap::KanjiDigits, &chars_of(input)))
}


pub open spec fn is_sentence_punctuation(c: char) -> bool {
    c == '!' || c == '?' || c == '！' || c == '？'
}

/// Characters after which no separating space is inserted.
pub open spec fn no_space_after_punctuation(c: char) -> bool {
    ||| is_sentence_punctuation(c)
    ||| c == '」' || c == '］' || c == '｝' || c == '}' || c == ']' || c == '』' || c == '】'
    ||| c == '〉' || c == '》' || c == '〕' || c == '＞' || c == '>' || c == '≫'
    ||| c == '）' || c == '"' || c == '”' || c == '’' || c == '〟'
    ||| c == '　' || c == '☆' || c == '★' || c == '♪' || c == '［' || c == '―' || c == '\n'
}

/// Characters after which no space follows a tate-chu-yoko end marker.
pub open spec fn no_space_after_tcy(c: char) -> bool {
    ||| c == '　' || c == '\n' || c == '」' || c == '』' || c == '）' || c == '］' || c == '】'
    ||| c == '〉' || c == '》' || c == '〕' || c == '!' || c == '?' || c == '！' || c == '？'
}

fn is_sentence_punctuation_exec(c: char) -> (r: bool)
    ensures
        r == is_sentence_punctuation(c),
{
    c == '!' || c == '?' || c == '！' || c == '？'
}

fn no_space_after_punctuation_exec(c: char) -> (r: bool)
    ensures
        r == no_space_after_punctuation(c),
{
    matches!(
        c,
        '!' | '?' | '！' | '？' | '」' | '］' | '｝' | '}' | ']' | '』' | '】' | '〉' | '》' | '〕'
            | '＞' | '>' | '≫' | '）' | '"' | '”' | '’' | '〟' | '　' | '☆' | '★' | '♪' | '［'
            | '―' | '\n'
    )
}

fn no_space_after_tcy_exec(c: char) -> (r: bool)
    ensures
        r == no_space_after_tcy(c),
{
    matches!(
        c,
        '　' | '\n' | '」' | '』' | '）' | '］' | '】' | '〉' | '》' | '〕' | '!' | '?' | '！' | '？'
    )
}

/// End of the run of sentence punctuation starting at `i`.
pub open spec fn punctuation_run_end(s: Seq<char>, i: int) -> int
    decreases s.len() - i,
{
    if i < s.len() && is_sentence_punctuation(s[i]) {
        punctuation_run_end(s, i + 1)
    } else {
        i
    }
}

pub proof fn lemma_punctuation_run_end(s: Seq<char>, i: int)
    requires
        0 <= i <= s.len(),
    ensures
        i <= punctuation_run_end(s, i) <= s.len(),
    decreases s.len() - i,
{
    if i < s.len() && is_sentence_punctuation(s[i]) {
        lemma_punctuation_run_end(s, i + 1);
    }
}

/// `insert_separate_space` from index `i`: after each run of `!?！？`
/// that is followed by a character not in the exclusion set, a full-width
/// space is inserted.
pub open spec fn separate_space_from(s: Seq<char>, i: int) -> Seq<char>
    decreases s.len() - i,
{
    if i < 0 || i >= s.len() {
        Seq::empty()
    } else if is_sentence_punctuation(s[i]) {
        let e = punctuation_run_end(s, i + 1);
        proof {
            lemma_punctuation_run_end(s, i + 1);
        }
        s.subrange(i, e) + (if e < s.len() && !no_space_after_punctuation(s[e]) {
            seq!['　']
        } else {
            Seq::empty()
        }) + separate_space_from(s, e)
    } else {
        seq![s[i]] + separate_space_from(s, i + 1)
    }
}

pub open spec fn separate_space(s: Seq<char>) -> Seq<char> {
    separate_space_from(s, 0)
}

fn insert_separate_space_v(v: &Vec<char>) -> (res: Vec<char>)
    ensures
        res@ == separate_space(v@),
{
    let mut out: Vec<char> = Vec::new();
    let mut index: usize = 0;
    while index < v.len()
        invariant
            index <= v.len(),
            separate_space(v@) == out@ + separate_space_from(v@, index as int),
        decreases v.len() - index,
    {
        let ch = v[index];
        let ghost before = out@;
        if is_sentence_punctuation_exec(ch) {
            out.push(ch);
            let mut run_end: usize = index + 1;
            while run_end < v.len() && is_sentence_punctuation_exec(v[run_end])
                invariant
                    index < run_end <= v.len(),
                    punctuation_run_end(v@, index + 1) == punctuation_run_end(v@, run_end as int),
                    out@ == before + v@.subrange(index as int, run_end as int),
                decreases v.len() - run_end,
            {
                out.push(v[run_end]);
                run_end = run_end + 1;
                assert(out@ =~= before + v@.subrange(index as int, run_end as int));
            }
            let ghost mid = out@;
            if run_end < v.len() {
                let next = v[run_end];
                if !no_space_after_punctuation_exec(next) {
                    out.push('　');
                }
            }
            let ghost sp: Seq<char> = if run_end < v.len() && !no_space_after_punctuation(
                v@[run_end as int],
            ) {
                seq!['　']
            } else {
                Seq::empty()
            };
            assert(out@ =~= mid + sp);
            assert(separate_space_from(v@, index as int) == v@.subrange(index as int, run_end as int)
                + sp + separate_space_from(v@, run_end as int));
            assert(before + (v@.subrange(index as int, run_end as int) + sp + separate_space_from(
                v@,
                run_end as int,
            )) =~= out@ + separate_space_from(v@, run_end as int));
            index = run_end;
        } else {
            out.push(ch);
            assert(before + (seq![ch] + separate_space_from(v@, index + 1)) =~= out@
                + separate_space_from(v@, index + 1));
            index = index + 1;
        }
    }
    assert(out@ + separate_space_from(v@, index as int) =~= out@);
    out
}

/// Inserts a full-width space after each run of `!?！？` unless the next
/// character is a closing bracket, another mark, a space or a line break.
pub fn insert_separate_space(input: &str) -> (res: String)
    ensures
        res@ == separate_space(input@),
{
    string_of(&insert_separate_space_v(&chars_of(input)))
}

/// Copies `s` from `i`, and after each occurrence of `marker` inserts a
/// full-width space when the next character exists and `no_space_after_tcy`
/// does not hold of it.
pub open spec fn space_after_marker_from(s: Seq<char>, marker: Seq<char>, i: int) -> Seq<char>
    decreases s.len() + 1 - i,
{
    if i < 0 || i > s.len() || marker.len() == 0 {
        Seq::empty()
    } else {
        match find_from(s, marker, i) {
            None => s.subrange(i, s.len() as int),
            Some(k) => {
                proof {
                    lemma_find_from(s, marker, i);
                }
                let after = k + marker.len();
                s.subrange(i, k) + marker + (if after < s.len() && !no_space_after_tcy(s[after]) {
                    seq!['　']
                } else {
                    Seq::empty()
                }) + space_after_marker_from(s, marker, after)
            },
        }
    }
}

pub open spec fn tcy_open() -> Seq<char> {
    "［＃縦中横］"@
}

pub open spec fn tcy_close() -> Seq<char> {
    "［＃縦中横終わり］"@
}

/// `insert_space_after_tcy_marker` on character sequences.
pub open spec fn space_after_tcy(s: Seq<char>) -> Seq<char> {
    space_after_marker_from(s, tcy_close(), 0)
}

fn space_after_marker_v(v: &Vec<char>, marker: &Vec<char>) -> (res: Vec<char>)
    requires
        marker.len() > 0,
    ensures
        res@ == space_after_marker_from(v@, marker@, 0),
{
    let mut out: Vec<char> = Vec::new();
    let mut i: usize = 0;
    loop
        invariant
            i <= v.len(),
            marker.len() > 0,
            space_after_marker_from(v@, marker@, 0) == out@ + space_after_marker_from(
                v@,
                marker@,
                i as int,
            ),
        decreases v.len() + 1 - i,
    {
        proof {
            lemma_find_from(v@, marker@, i as int);
        }
        match find_chars(v, marker, i) {
            None => {
                let rest = slice_chars(v, i, v.len());
                push_all(&mut out, &rest);
                return out;
            },
            Some(k) => {
                let ghost before = out@;
                let part = slice_chars(v, i, k);
                push_all(&mut out, &part);
                push_all(&mut out, marker);
                let after: usize = k + marker.len();
                let ghost mid = out@;
                if after < v.len() && !no_space_after_tcy_exec(v[after]) {
                    out.push('　');
                }
                let ghost sp: Seq<char> = if after < v.len() && !no_space_after_tcy(
                    v@[after as int],
                ) {
                    seq!['　']
                } else {
                    Seq::empty()
                };
                assert(out@ =~= before + v@.subrange(i as int, k as int) + marker@ + sp);
                assert(before + (v@.subrange(i as int, k as int) + marker@ + sp
                    + space_after_marker_from(v@, marker@, after as int)) =~= out@
                    + space_after_marker_from(v@, marker@, after as int));
                i = after;
            },
        }
    }
}

/// Inserts a full-width space after each tate-chu-yoko end marker that is
/// followed by an ordinary character.
pub fn insert_space_after_tcy_marker(input: &str) -> (res: String)
    ensures
        res@ == space_after_tcy(input@),
{
    let marker = chars_of("［＃縦中横終わり］");
    proof {
        reveal_strlit("［＃縦中横終わり］");
    }
    string_of(&space_after_marker_v(&chars_of(input), &marker))
}

pub open spec fn kome() -> Seq<char> {
    "※"@
}

pub open spec fn kome_marked() -> Seq<char> {
    "※［＃米印、1-2-8］"@
}

/// Every `※` followed by its Aozora gaiji note.
pub fn rebuild_kome(input: &str) -> (res: String)
    ensures
        res@ == replace_all(input@, kome(), kome_marked()),
{
    let pat = chars_of("※");
    let rep = chars_of("※［＃米印、1-2-8］");
    proof {
        reveal_strlit("※");
    }
    string_of(&replace_chars(&chars_of(input), &pat, &rep))
}

/// Wraps text in tate-chu-yoko markers.
pub open spec fn tcy(s: Seq<char>) -> Seq<char> {
    tcy_open() + s + tcy_close()
}

fn tcy_v(v: &Vec<char>) -> (res: Vec<char>)
    ensures
        res@ == tcy(v@),
{
    let mut out = chars_of("［＃縦中横］");
    push_all(&mut out, v);
    let close = chars_of("［＃縦中横終わり］");
    push_all(&mut out, &close);
    out
}






pub open spec fn is_ascii_alnum(c: char) -> bool {
    is_ascii_letter(c) || is_ascii_digit(c)
}

/// How a run of digits is rewritten.
#[derive(Clone, Copy, PartialEq, Eq, Structural)]
pub enum NumberMode {
    /// Two digits become tate-chu-yoko, others full-width digits.
    Story,
    /// Two or three digits become tate-chu-yoko, others full-width digits.
    Subtitle,
}

#[derive(Clone, Copy, PartialEq, Eq, Structural)]
pub enum DigitRule {
    Numbers(NumberMode),
    Kanji,
}

/// `n` copies of `x`, concatenated.
pub open spec fn repeat_seq(x: Seq<char>, n: nat) -> Seq<char>
    decreases n,
{
    if n == 0 {
        Seq::empty()
    } else {
        repeat_seq(x, (n - 1) as nat) + x
    }
}

/// Rewrite of a run of `len` full-width exclamation marks.
pub open spec fn bang_piece(len: int) -> Seq<char> {
    if len < 3 {
        Seq::new(len as nat, |k: int| '！')
    } else if len == 3 {
        tcy("!!!"@)
    } else {
        repeat_seq(tcy("!!"@), ((len + 1) / 2) as nat)
    }
}


pub open spec fn half_punct_char(c: char) -> char {
    if c == '！' {
        '!'
    } else if c == '？' {
        '?'
    } else {
        c
    }
}

pub open spec fn mixed_piece(t: Seq<char>) -> Seq<char> {
    if t.len() == 2 || t == "！！？"@ || t == "？！！"@ {
        tcy(t.map_values(|c: char| half_punct_char(c)))
    } else {
        t
    }
}

fn bang_piece_v(len: usize) -> (res: Vec<char>)
    ensures
        res@ == bang_piece(len as int),
{
    if len < 3 {
        let mut out: Vec<char> = Vec::new();
        let mut k: usize = 0;
        while k < len
            invariant
                k <= len < 3,
                out@ == Seq::new(k as nat, |m: int| '！'),
            decreases len - k,
        {
            out.push('！');
            k = k + 1;
            assert(out@ =~= Seq::new(k as nat, |m: int| '！'));
        }
        out
    } else if len == 3 {
        tcy_v(&chars_of("!!!"))
    } else {
        let unit = tcy_v(&chars_of("!!"));
        let count: usize = len / 2 + len % 2;
        assert(count == (len + 1) / 2);
        let mut out: Vec<char> = Vec::new();
        let mut k: usize = 0;
        while k < count
            invariant
                k <= count,
                unit@ == tcy("!!"@),
                out@ == repeat_seq(unit@, k as nat),
            decreases count - k,
        {
            push_all(&mut out, &unit);
            k = k + 1;
        }
        out
    }
}

fn mixed_piece_v(t: &Vec<char>) -> (res: Vec<char>)
    requires
        t.len() == 2 || t.len() == 3,
    ensures
        res@ == mixed_piece(t@),
{
    let a = chars_of("！！？");
    let b = chars_of("？！！");
    proof {
        reveal_strlit("！！？");
        reveal_strlit("？！！");
    }
    let is_a = t.len() == 3 && t[0] == '！' && t[1] == '！' && t[2] == '？';
    let is_b = t.len() == 3 && t[0] == '？' && t[1] == '！' && t[2] == '！';
    assert(is_a <==> t@ == a@) by {
        if t@ == a@ {
            assert(t@[0] == a@[0] && t@[1] == a@[1] && t@[2] == a@[2]);
        }
        if is_a {
            assert(t@ =~= a@);
        }
    }
    assert(is_b <==> t@ == b@) by {
        if t@ == b@ {
            assert(t@[0] == b@[0] && t@[1] == b@[1] && t@[2] == b@[2]);
        }
        if is_b {
            assert(t@ =~= b@);
        }
    }
    if t.len() == 2 || is_a || is_b {
        let mut half: Vec<char> = Vec::new();
        let mut k: usize = 0;
        while k < t.len()
            invariant
                k <= t.len(),
                half@ == t@.take(k as int).map_values(|c: char| half_punct_char(c)),
            decreases t.len() - k,
        {
            let c = t[k];
            let h = if c == '！' {
                '!'
            } else if c == '？' {
                '?'
            } else {
                c
            };
            half.push(h);
            k = k + 1;
            assert(half@ =~= t@.take(k as int).map_values(|c: char| half_punct_char(c)));
        }
        assert(t@.take(t.len() as int) =~= t@);
        tcy_v(&half)
    } else {
        slice_chars(t, 0, t.len())
    }
}


/// A tate-chu-yoko span is open around a match: the text before it holds an
/// opening marker not closed after it, and a closing marker follows.
pub open spec fn inside_tcy(before: Seq<char>, after: Seq<char>) -> bool {
    match (
        rfind_before(before, tcy_open(), before.len() as int),
        rfind_before(before, tcy_close(), before.len() as int),
    ) {
        (Some(open), Some(close)) => if close > open {
            false
        } else {
            find_from(after, tcy_close(), 0) is Some
        },
        (Some(_), None) => find_from(after, tcy_close(), 0) is Some,
        _ => false,
    }
}

/// The character just before or just after a match is an ASCII letter or
/// digit.
pub open spec fn surrounded_by_ascii(before: Seq<char>, after: Seq<char>) -> bool {
    (before.len() > 0 && is_ascii_alnum(before.last())) || (after.len() > 0 && is_ascii_alnum(
        after[0],
    ))
}

/// The rewrite of a run of digits `run` between `before` and `after`.
pub open spec fn digit_piece(before: Seq<char>, run: Seq<char>, after: Seq<char>, rule: DigitRule) -> Seq<
    char,
> {
    let n = map_seq(CharMap::AsciiDigits, run);
    if inside_tcy(before, after) {
        run
    } else {
        match rule {
            DigitRule::Numbers(mode) => if n.len() == 2 || (n.len() == 3 && mode
                == NumberMode::Subtitle) {
                tcy(n)
            } else {
                map_seq(CharMap::ZenkakuDigits, n)
            },
            DigitRule::Kanji => if surrounded_by_ascii(before, after) {
                run
            } else {
                map_seq(CharMap::KanjiDigits, n)
            },
        }
    }
}

fn is_inside_tcy(before: &Vec<char>, after: &Vec<char>) -> (r: bool)
    ensures
        r == inside_tcy(before@, after@),
{
    let open = chars_of("［＃縦中横］");
    let close = chars_of("［＃縦中横終わり］");
    let last_open = rfind_chars(before, &open, before.len());
    let last_close = rfind_chars(before, &close, before.len());
    match (last_open, last_close) {
        (Some(o), Some(c)) => if c > o {
            false
        } else {
            find_chars(after, &close, 0).is_some()
        },
        (Some(_), None) => find_chars(after, &close, 0).is_some(),
        _ => false,
    }
}

fn is_ascii_alnum_exec(c: char) -> (r: bool)
    ensures
        r == is_ascii_alnum(c),
{
    ('A' <= c && c <= 'Z') || ('a' <= c && c <= 'z') || ('0' <= c && c <= '9')
}

fn digit_piece_v(before: &Vec<char>, run: &Vec<char>, after: &Vec<char>, rule: DigitRule) -> (res: Vec<
    char,
>)
    ensures
        res@ == digit_piece(before@, run@, after@, rule),
{
    if is_inside_tcy(before, after) {
        return slice_chars(run, 0, run.len());
    }
    let n = map_chars(CharMap::AsciiDigits, run);
    match rule {
        DigitRule::Numbers(mode) => {
            if n.len() == 2 || (n.len() == 3 && mode == NumberMode::Subtitle) {
                tcy_v(&n)
            } else {
                map_chars(CharMap::ZenkakuDigits, &n)
            }
        },
        DigitRule::Kanji => {
            let near = (before.len() > 0 && is_ascii_alnum_exec(before[before.len() - 1])) || (
            after.len() > 0 && is_ascii_alnum_exec(after[0]));
            if near {
                slice_chars(run, 0, run.len())
            } else {
                map_chars(CharMap::KanjiDigits, &n)
            }
        },
    }
}

/// How the closure handed to `Regex::replace_all` rewrites a match.
#[derive(Clone, Copy, PartialEq, Eq, Structural)]
pub enum MatchRewrite {
    /// `<ruby>` elements, by their first group.
    Ruby,
    /// Runs of digits, by their context.
    Digits(DigitRule),
    /// Year and month (groups one and two).
    YearMonth,
    /// Runs of three or more `！`.
    Bangs,
    /// Two or three `！`/`？`.
    Marks,
    /// A line break.
    Newline,
    /// Nothing: the match is removed.
    Remove,
    /// Side dots around the first group.
    Emphasis,
    /// An illustration note naming the first group.
    Illustration,
    /// The half-width indent annotation before the first group.
    HalfIndent,
    /// A full-width space between the two groups.
    StoryNote,
}

/// The replacement of one match: the text before it, the match, the text
/// after it, and its first two groups.
pub open spec fn match_rewrite(
    how: MatchRewrite,
    before: Seq<char>,
    whole: Seq<char>,
    after: Seq<char>,
    g1: Seq<char>,
    g2: Seq<char>,
) -> Seq<char> {
    match how {
        MatchRewrite::Ruby => ruby_text(g1),
        MatchRewrite::Digits(rule) => digit_piece(before, whole, after, rule),
        MatchRewrite::YearMonth => map_seq(
            CharMap::ZenkakuDigits,
            map_seq(CharMap::AsciiDigits, g1),
        ) + seq!['・'] + tcy(map_seq(CharMap::AsciiDigits, g2)),
        MatchRewrite::Bangs => bang_piece(whole.len() as int),
        MatchRewrite::Marks => mixed_piece(whole),
        MatchRewrite::Newline => seq!['\n'],
        MatchRewrite::Remove => Seq::empty(),
        MatchRewrite::Emphasis => "［＃傍点］"@ + g1 + "［＃傍点終わり］"@,
        MatchRewrite::Illustration => "［＃挿絵（"@ + g1 + "）入る］"@,
        MatchRewrite::HalfIndent => "［＃二分アキ］"@ + g1,
        MatchRewrite::StoryNote => g1 + seq!['　'] + g2,
    }
}

/// The replacement of one match, as `match_rewrite` states it.
pub(crate) fn rewrite_match(
    how: MatchRewrite,
    before: &str,
    whole: &str,
    after: &str,
    g1: &str,
    g2: &str,
) -> (res: String)
    ensures
        res@ == match_rewrite(how, before@, whole@, after@, g1@, g2@),
{
    match how {
        MatchRewrite::Ruby => ruby_replacement(g1),
        MatchRewrite::Digits(rule) => string_of(
            &digit_piece_v(&chars_of(before), &chars_of(whole), &chars_of(after), rule),
        ),
        MatchRewrite::YearMonth => {
            let year = map_chars(CharMap::ZenkakuDigits, &map_chars(CharMap::AsciiDigits, &chars_of(g1)));
            let month = tcy_v(&map_chars(CharMap::AsciiDigits, &chars_of(g2)));
            let mut out = year;
            let ghost y = out@;
            out.push('・');
            push_all(&mut out, &month);
            assert(out@ =~= y + seq!['・'] + month@);
            string_of(&out)
        },
        MatchRewrite::Bangs => {
            let n = chars_of(whole).len();
            string_of(&bang_piece_v(n))
        },
        MatchRewrite::Marks => {
            let t = chars_of(whole);
            if t.len() == 2 || t.len() == 3 {
                string_of(&mixed_piece_v(&t))
            } else {
                proof {
                    reveal_strlit("！！？");
                    reveal_strlit("？！！");
                }
                assert(t@ != "！！？"@ && t@ != "？！！"@);
                String::from_str(whole)
            }
        },
        MatchRewrite::Newline => {
            let mut out: Vec<char> = Vec::new();
            out.push('\n');
            string_of(&out)
        },
        MatchRewrite::Remove => String::new(),
        MatchRewrite::Emphasis => around("［＃傍点］", g1, "［＃傍点終わり］"),
        MatchRewrite::Illustration => around("［＃挿絵（", g1, "）入る］"),
        MatchRewrite::HalfIndent => {
            proof {
                reveal_strlit("");
            }
            let r = around("［＃二分アキ］", g1, "");
            assert(r@ =~= "［＃二分アキ］"@ + g1@);
            r
        },
        MatchRewrite::StoryNote => {
            proof {
                reveal_strlit("");
                reveal_strlit("　");
            }
            let x = around("", g1, "　");
            let r = around(x.as_str(), g2, "");
            assert(r@ =~= g1@ + seq!['　'] + g2@);
            r
        },
    }
}

fn around(a: &str, b: &str, c: &str) -> (res: String)
    ensures
        res@ == a@ + b@ + c@,
{
    let mut out = chars_of(a);
    push_all(&mut out, &chars_of(b));
    push_all(&mut out, &chars_of(c));
    string_of(&out)
}

/// Result of `regex::Regex::new(pattern)` then `replace_all(input, f)`, where
/// `f` replaces each match by `rewrite_match(how, ..)` of the text before
/// it, the match, the text after it and its first two groups (empty when
/// absent); `None` when the pattern does not compile.
pub uninterp spec fn regex_rewrite_result(pattern: Seq<char>, input: Seq<char>, how: MatchRewrite) -> Option<
    Seq<char>,
>;

/// Calls `regex::Regex::new` and `Regex::replace_all` with a closure that
/// hands each match to `rewrite_match`. Claimed: the result is a function
/// of the pattern, the input and `how` alone, named above.
#[verifier::external_body]
pub(crate) fn regex_rewrite(pattern: &str, input: &str, how: MatchRewrite) -> (res: Option<String>)
    ensures
        crate::syosetu::opt_seq(res) == regex_rewrite_result(pattern@, input@, how),
{
    let re = regex::Regex::new(pattern).ok()?;
    Some(re.replace_all(input, |caps: &regex::Captures<'_>| {
        let g = |i: usize| caps.get(i).map_or("", |m| m.as_str());
        let (start, end) = caps.get(0).map_or((0, 0), |m| (m.start(), m.end()));
        rewrite_match(how, &input[..start], g(0), &input[end..], g(1), g(2))
    }).into_owned())
}

/// A closure rewrite, or the text unchanged when the pattern does not
/// compile.
pub open spec fn rewritten_by(pattern: Seq<char>, s: Seq<char>, how: MatchRewrite) -> Seq<char> {
    match regex_rewrite_result(pattern, s, how) {
        Some(r) => r,
        None => s,
    }
}

pub(crate) fn rewrite_by(pattern: &str, input: &str, how: MatchRewrite) -> (res: String)
    ensures
        res@ == rewritten_by(pattern@, input@, how),
{
    match regex_rewrite(pattern, input, how) {
        Some(r) => r,
        None => String::from_str(input),
    }
}

/// Every run of `[0-9０-９]` rewritten by `rule`.
pub open spec fn digit_runs(s: Seq<char>, rule: DigitRule) -> Seq<char> {
    rewritten_by("[0-9０-９]+"@, s, MatchRewrite::Digits(rule))
}

fn digit_runs_v(v: &Vec<char>, rule: DigitRule) -> (res: Vec<char>)
    ensures
        res@ == digit_runs(v@, rule),
{
    let s = string_of(v);
    chars_of(rewrite_by("[0-9０-９]+", s.as_str(), MatchRewrite::Digits(rule)).as_str())
}

/// Runs of digits outside tate-chu-yoko: two digits (or three, for
/// subtitles) become tate-chu-yoko, other runs full-width digits.
pub fn convert_numbers(input: &str, mode: NumberMode) -> (res: String)
    ensures
        res@ == digit_runs(input@, DigitRule::Numbers(mode)),
{
    rewrite_by("[0-9０-９]+", input, MatchRewrite::Digits(DigitRule::Numbers(mode)))
}

/// Runs of digits outside tate-chu-yoko and not touching ASCII letters or
/// digits become kanji numerals, digit by digit.
pub fn convert_body_numbers(input: &str) -> (res: String)
    ensures
        res@ == digit_runs(input@, DigitRule::Kanji),
{
    rewrite_by("[0-9０-９]+", input, MatchRewrite::Digits(DigitRule::Kanji))
}

/// `2024.11`-style dates: full-width year, `・`, month in tate-chu-yoko.
pub open spec fn year_month(s: Seq<char>) -> Seq<char> {
    rewritten_by(
        "(?P<year>[0-9０-９]{4})[\\.．](?P<month>[0-9０-９]{2})"@,
        s,
        MatchRewrite::YearMonth,
    )
}

fn year_month_v(v: &Vec<char>) -> (res: Vec<char>)
    ensures
        res@ == year_month(v@),
{
    let s = string_of(v);
    chars_of(convert_year_month_tcy(s.as_str()).as_str())
}

/// `2024.11`-style dates: full-width year, `・`, month in tate-chu-yoko.
pub fn convert_year_month_tcy(input: &str) -> (res: String)
    ensures
        res@ == year_month(input@),
{
    rewrite_by(
        "(?P<year>[0-9０-９]{4})[\\.．](?P<month>[0-9０-９]{2})",
        input,
        MatchRewrite::YearMonth,
    )
}

/// Exclamation and question marks in tate-chu-yoko: runs of three or more
/// `！` first, then groups of two or three marks.
pub open spec fn punctuation_tcy(s: Seq<char>) -> Seq<char> {
    rewritten_by("[！？]{2,3}"@, rewritten_by("！{3,}"@, s, MatchRewrite::Bangs), MatchRewrite::Marks)
}

fn punctuation_tcy_v(v: &Vec<char>) -> (res: Vec<char>)
    ensures
        res@ == punctuation_tcy(v@),
{
    let s = string_of(v);
    chars_of(convert_punctuation_tcy(s.as_str()).as_str())
}

/// Exclamation and question marks in tate-chu-yoko: runs of three or more
/// `！` become `!!!` or pairs `!!`, and two- or three-mark groups are set
/// upright.
pub fn convert_punctuation_tcy(input: &str) -> (res: String)
    ensures
        res@ == punctuation_tcy(input@),
{
    let first = rewrite_by("！{3,}", input, MatchRewrite::Bangs);
    rewrite_by("[！？]{2,3}", first.as_str(), MatchRewrite::Marks)
}


/// One line of `normalize_blank_lines`'s output, from line `i` on;
/// `in_blank_run` tells whether the previous line was blank.
pub open spec fn blank_lines_from(ls: Seq<Seq<char>>, i: int, in_blank_run: bool) -> Seq<char>
    decreases ls.len() - i,
{
    if i < 0 || i >= ls.len() {
        Seq::empty()
    } else if trim_end(ls[i]).len() == 0 {
        (if in_blank_run {
            Seq::empty()
        } else {
            seq!['\n']
        }) + blank_lines_from(ls, i + 1, true)
    } else {
        trim_end(ls[i]) + seq!['\n'] + blank_lines_from(ls, i + 1, false)
    }
}

/// `normalize_blank_lines`: trailing whitespace removed from every line,
/// each run of blank lines collapsed to one, and the whole text trimmed.
pub open spec fn normalize_blank(s: Seq<char>) -> Seq<char> {
    trim(blank_lines_from(lines_of(s), 0, false))
}

pub(crate) fn normalize_blank_lines_v(v: &Vec<char>) -> (res: Vec<char>)
    ensures
        res@ == normalize_blank(v@),
{
    let ls = split_lines(v);
    let ghost lv = views(ls@);
    let mut out: Vec<char> = Vec::new();
    let mut blank = false;
    let mut i: usize = 0;
    while i < ls.len()
        invariant
            i <= ls.len(),
            lv == views(ls@),
            lv == lines_of(v@),
            blank_lines_from(lv, 0, false) == out@ + blank_lines_from(lv, i as int, blank),
        decreases ls.len() - i,
    {
        let ghost before = out@;
        let t = trim_end_chars(&ls[i]);
        assert(lv[i as int] == ls@[i as int]@);
        if t.len() == 0 {
            if !blank {
                out.push('\n');
            }
            assert(before + ((if blank {
                Seq::empty()
            } else {
                seq!['\n']
            }) + blank_lines_from(lv, i + 1, true)) =~= out@ + blank_lines_from(lv, i + 1, true));
            blank = true;
        } else {
            push_all(&mut out, &t);
            out.push('\n');
            assert(before + (t@ + seq!['\n'] + blank_lines_from(lv, i + 1, false)) =~= out@
                + blank_lines_from(lv, i + 1, false));
            blank = false;
        }
        i = i + 1;
    }
    assert(out@ + blank_lines_from(lv, i as int, blank) =~= out@);
    trim_chars(&out)
}

/// Every line break that ends a non-empty line follows a character that
/// is not whitespace.
pub open spec fn no_trailing_space_in_lines(r: Seq<char>) -> bool {
    forall|k: int| 1 <= k < r.len() && #[trigger] r[k] == '\n' ==> r[k - 1] == '\n' || !is_ws(r[k - 1])
}

/// No two blank lines in a row: never three line breaks in a row.
pub open spec fn no_triple_newline(r: Seq<char>) -> bool {
    forall|k: int| 2 <= k < r.len() ==> !(#[trigger] r[k] == '\n' && r[k - 1] == '\n' && r[k - 2] == '\n')
}

proof fn lemma_blank_lines_from(ls: Seq<Seq<char>>, i: int, flag: bool)
    requires
        0 <= i,
        forall|n: int, k: int| 0 <= n < ls.len() && 0 <= k < ls[n].len() ==> #[trigger] ls[n][k] != '\n',
    ensures
        no_trailing_space_in_lines(blank_lines_from(ls, i, flag)),
        no_triple_newline(blank_lines_from(ls, i, flag)),
        blank_lines_from(ls, i, flag).len() > 0 && blank_lines_from(ls, i, flag)[0] == '\n' ==> !flag,
        blank_lines_from(ls, i, flag).len() > 1 && blank_lines_from(ls, i, flag)[0] == '\n'
            ==> blank_lines_from(ls, i, flag)[1] != '\n',
    decreases ls.len() - i,
{
    let b = blank_lines_from(ls, i, flag);
    if i < ls.len() {
        let line = ls[i];
        let t = trim_end(line);
        lemma_trim_end_bounds(line, line.len() as int);
        if t.len() == 0 {
            lemma_blank_lines_from(ls, i + 1, true);
            let r = blank_lines_from(ls, i + 1, true);
            if !flag {
                assert(b == seq!['\n'] + r);
                assert forall|k: int| 1 <= k < b.len() && #[trigger] b[k] == '\n' implies b[k - 1] == '\n'
                    || !is_ws(b[k - 1]) by {
                    assert(b[k] == r[k - 1]);
                    if k >= 2 {
                        assert(b[k - 1] == r[k - 2]);
                    }
                }
                assert forall|k: int| 2 <= k < b.len() implies !(#[trigger] b[k] == '\n' && b[k - 1]
                    == '\n' && b[k - 2] == '\n') by {
                    assert(b[k] == r[k - 1] && b[k - 1] == r[k - 2]);
                    if k >= 3 {
                        assert(b[k - 2] == r[k - 3]);
                    }
                }
            } else {
                assert(b == r);
            }
        } else {
            lemma_blank_lines_from(ls, i + 1, false);
            let r = blank_lines_from(ls, i + 1, false);
            let m = t.len() as int;
            assert(b == t + seq!['\n'] + r);
            assert(!is_ws(t[m - 1]));
            assert forall|k: int| 0 <= k < m implies #[trigger] t[k] != '\n' by {
                assert(t[k] == line[k]);
            }
            assert(b[m] == '\n');
            assert forall|k: int| 1 <= k < b.len() && #[trigger] b[k] == '\n' implies b[k - 1] == '\n'
                || !is_ws(b[k - 1]) by {
                if k < m {
                    assert(b[k] == t[k]);
                } else if k == m {
                    assert(b[k - 1] == t[m - 1]);
                } else if k == m + 1 {
                    assert(b[k - 1] == '\n');
                } else {
                    assert(b[k] == r[k - m - 1] && b[k - 1] == r[k - m - 2]);
                }
            }
            assert forall|k: int| 2 <= k < b.len() implies !(#[trigger] b[k] == '\n' && b[k - 1]
                == '\n' && b[k - 2] == '\n') by {
                if k <= m {
                    assert(b[k - 1] == t[k - 1]);
                } else if k == m + 1 {
                    assert(b[k - 2] == t[m - 1]);
                } else if k == m + 2 {
                    assert(b[k] == r[1] && b[k - 1] == r[0]);
                } else {
                    assert(b[k] == r[k - m - 1] && b[k - 1] == r[k - m - 2] && b[k - 2] == r[k - m
                        - 3]);
                }
            }
            assert(b[0] == t[0]);
        }
    }
}

/// What `normalize_blank_lines` gives back is trimmed, holds no line that
/// ends in whitespace, and never two blank lines in a row.
pub proof fn lemma_normalized_blank_lines(s: Seq<char>)
    ensures
        trim(normalize_blank(s)) == normalize_blank(s),
        no_trailing_space_in_lines(normalize_blank(s)),
        no_triple_newline(normalize_blank(s)),
{
    let ls = lines_of(s);
    lemma_lines_have_no_newline(s, 0);
    lemma_blank_lines_from(ls, 0, false);
    let b = blank_lines_from(ls, 0, false);
    let r = normalize_blank(s);
    let a = lemma_trim_shape(b);
    lemma_trim_fixed(r);
    assert forall|k: int| 1 <= k < r.len() && #[trigger] r[k] == '\n' implies r[k - 1] == '\n'
        || !is_ws(r[k - 1]) by {
        assert(r[k] == b[a + k] && r[k - 1] == b[a + k - 1]);
    }
    assert forall|k: int| 2 <= k < r.len() implies !(#[trigger] r[k] == '\n' && r[k - 1] == '\n'
        && r[k - 2] == '\n') by {
        assert(r[k] == b[a + k] && r[k - 1] == b[a + k - 1] && r[k - 2] == b[a + k - 2]);
    }
}

/// A text as `normalize_blank_lines` leaves it: non-empty, not starting or
/// ending with whitespace, no line ending in whitespace, no two blank
/// lines in a row.
pub open spec fn blank_normal(r: Seq<char>) -> bool {
    &&& r.len() > 0
    &&& !is_ws(r[0])
    &&& !is_ws(r.last())
    &&& no_trailing_space_in_lines(r)
    &&& no_triple_newline(r)
}

/// In such a text a line that starts with a character other than a line
/// break is a whole slice of the text, ends in non-whitespace, and is its
/// own `trim_end`.
proof fn lemma_normal_line(r: Seq<char>, ls: Seq<Seq<char>>, m: int, p: int)
    requires
        blank_normal(r),
        0 <= p < r.len(),
        r[p] != '\n',
        0 <= m <= ls.len(),
        ls.skip(m) == lines_from(r, p),
    ensures
        m < ls.len(),
        ls[m] == r.subrange(p, next_newline(r, p)),
        ls[m].len() > 0,
        trim_end(ls[m]) == ls[m],
        next_newline(r, p) < r.len() ==> next_newline(r, p) + 1 < r.len() && ls.skip(m + 1)
            == lines_from(r, next_newline(r, p) + 1),
        next_newline(r, p) == r.len() ==> m + 1 == ls.len(),
{
    lemma_next_newline(r, p);
    let j = next_newline(r, p);
    assert(ls.skip(m).len() > 0);
    assert(ls[m] == ls.skip(m)[0]);
    let line = r.subrange(p, j);
    assert(j > p);
    if j < r.len() {
        assert(r[j] == '\n');
        assert(r[j - 1] != '\n');
        assert(!is_ws(r[j - 1]));
        assert(line.last() == r[j - 1]);
        assert(strip_cr(line) == line);
        assert(lines_from(r, p) == seq![line] + lines_from(r, j + 1));
        assert(ls.skip(m + 1) =~= ls.skip(m).skip(1));
        assert(ls.skip(m).skip(1) =~= lines_from(r, j + 1));
        assert(j + 1 < r.len());
    } else {
        assert(line.last() == r.last());
        assert(lines_from(r, p) == seq![r.subrange(p, r.len() as int)]);
    }
    assert(trim_end_len(line, line.len() as int) == line.len());
    assert(trim_end(line) =~= line);
}

proof fn lemma_normal_blank_from(r: Seq<char>, ls: Seq<Seq<char>>, n: int, i: int)
    requires
        blank_normal(r),
        0 <= i < r.len(),
        0 <= n <= ls.len(),
        ls.skip(n) == lines_from(r, i),
        i > 0 ==> r[i - 1] == '\n',
    ensures
        blank_lines_from(ls, n, false) == r.subrange(i, r.len() as int) + seq!['\n'],
    decreases r.len() - i,
{
    lemma_next_newline(r, i);
    if r[i] == '\n' {
        assert(i > 0);
        assert(i + 1 < r.len());
        assert(!(r[i + 1] == '\n' && r[i] == '\n' && r[i - 1] == '\n'));
        assert(next_newline(r, i) == i);
        assert(lines_from(r, i) == seq![strip_cr(r.subrange(i, i))] + lines_from(r, i + 1));
        assert(ls.skip(n).len() > 0);
        assert(ls[n] == ls.skip(n)[0]);
        assert(ls[n] =~= Seq::<char>::empty());
        assert(ls.skip(n + 1) =~= ls.skip(n).skip(1));
        assert(ls.skip(n).skip(1) =~= lines_from(r, i + 1));
        lemma_normal_line(r, ls, n + 1, i + 1);
        lemma_normal_blank_from(r, ls, n + 1, i + 1);
        assert(blank_lines_from(ls, n + 1, true) == blank_lines_from(ls, n + 1, false));
        assert(trim_end(ls[n]).len() == 0);
        assert(blank_lines_from(ls, n, false) == seq!['\n'] + blank_lines_from(ls, n + 1, true));
        assert(r.subrange(i, r.len() as int) + seq!['\n'] =~= seq!['\n'] + (r.subrange(
            i + 1,
            r.len() as int,
        ) + seq!['\n']));
    } else {
        lemma_normal_line(r, ls, n, i);
        let j = next_newline(r, i);
        assert(blank_lines_from(ls, n, false) == ls[n] + seq!['\n'] + blank_lines_from(ls, n + 1, false));
        if j < r.len() {
            lemma_normal_blank_from(r, ls, n + 1, j + 1);
            assert(r.subrange(i, r.len() as int) + seq!['\n'] =~= r.subrange(i, j) + seq!['\n']
                + (r.subrange(j + 1, r.len() as int) + seq!['\n']));
        } else {
            assert(r.subrange(i, r.len() as int) + seq!['\n'] =~= r.subrange(i, j) + seq!['\n']
                + Seq::<char>::empty());
        }
    }
}

/// Normalizing twice changes nothing: `normalize_blank_lines` leaves a
/// text that it maps to itself.
pub proof fn lemma_normalize_blank_idempotent(s: Seq<char>)
    ensures
        normalize_blank(normalize_blank(s)) == normalize_blank(s),
{
    let r = normalize_blank(s);
    lemma_normalized_blank_lines(s);
    lemma_trim_shape(r);
    if r.len() == 0 {
        assert(lines_of(r) =~= Seq::<Seq<char>>::empty());
        assert(blank_lines_from(lines_of(r), 0, false) =~= Seq::<char>::empty());
        lemma_trim_fixed(Seq::<char>::empty());
    } else {
        let ls = lines_of(r);
        assert(ls.skip(0) =~= ls);
        lemma_normal_blank_from(r, ls, 0, 0);
        assert(r.subrange(0, r.len() as int) =~= r);
        let b = r + seq!['\n'];
        assert(trim_end_len(b, b.len() - 1) == r.len()) by {
            assert(b[r.len() - 1] == r.last());
        }
        assert(trim_end_len(b, b.len() as int) == r.len());
        assert(trim_end(b) =~= r);
        assert(skip_ws_from(r, 0) == 0);
        assert(trim_start(r) =~= r);
    }
}

/// Trailing whitespace removed from each line, runs of blank lines
/// collapsed to one blank line, and the result trimmed.
pub fn normalize_blank_lines(input: &str) -> (res: String)
    ensures
        res@ == normalize_blank(input@),
{
    string_of(&normalize_blank_lines_v(&chars_of(input)))
}

pub open spec fn is_indent_char(c: char) -> bool {
    c == ' ' || c == '\t' || c == '　'
}

/// Index of the first character at or after `i` that is not `' '`, `'\t'`
/// or `'　'`.
pub open spec fn skip_indent_from(s: Seq<char>, i: int) -> int
    decreases s.len() - i,
{
    if 0 <= i < s.len() && is_indent_char(s[i]) {
        skip_indent_from(s, i + 1)
    } else {
        i
    }
}

pub proof fn lemma_skip_indent(s: Seq<char>, i: int)
    requires
        0 <= i <= s.len(),
    ensures
        i <= skip_indent_from(s, i) <= s.len(),
    decreases s.len() - i,
{
    if i < s.len() && is_indent_char(s[i]) {
        lemma_skip_indent(s, i + 1);
    }
}

pub open spec fn annotation_open() -> Seq<char> {
    "［＃"@
}

pub open spec fn half_indent_marker() -> Seq<char> {
    "［＃二分アキ］"@
}

/// One line of `auto_indent_lines`.
pub open spec fn indent_line(l: Seq<char>) -> Seq<char> {
    let t = l.subrange(skip_indent_from(l, 0), l.len() as int);
    if t.len() == 0 || starts_with(t, annotation_open()) || starts_with(t, "　"@) || starts_with(
        t,
        half_indent_marker(),
    ) {
        l
    } else {
        seq!['　'] + t
    }
}

pub open spec fn auto_indent(s: Seq<char>) -> Seq<char> {
    join_seq(lines_of(s).map_values(|l: Seq<char>| indent_line(l)), "\n"@)
}

fn indent_line_v(l: &Vec<char>) -> (res: Vec<char>)
    ensures
        res@ == indent_line(l@),
{
    let mut i: usize = 0;
    while i < l.len() && (l[i] == ' ' || l[i] == '\t' || l[i] == '　')
        invariant
            i <= l.len(),
            skip_indent_from(l@, 0) == skip_indent_from(l@, i as int),
        decreases l.len() - i,
    {
        i = i + 1;
    }
    let t = slice_chars(l, i, l.len());
    let ann = chars_of("［＃");
    let sp = chars_of("　");
    let half = chars_of("［＃二分アキ］");
    if t.len() == 0 || starts_with_chars(&t, &ann) || starts_with_chars(&t, &sp)
        || starts_with_chars(&t, &half) {
        slice_chars(l, 0, l.len())
    } else {
        let mut out: Vec<char> = Vec::new();
        out.push('　');
        push_all(&mut out, &t);
        out
    }
}

fn auto_indent_v(v: &Vec<char>) -> (res: Vec<char>)
    ensures
        res@ == auto_indent(v@),
{
    let ls = split_lines(v);
    let ghost lv = lines_of(v@);
    let ghost mapped = lv.map_values(|l: Seq<char>| indent_line(l));
    let mut out: Vec<Vec<char>> = Vec::new();
    let mut i: usize = 0;
    while i < ls.len()
        invariant
            i <= ls.len(),
            views(ls@) == lv,
            mapped == lv.map_values(|l: Seq<char>| indent_line(l)),
            views(out@) == mapped.take(i as int),
        decreases ls.len() - i,
    {
        let line = indent_line_v(&ls[i]);
        assert(views(ls@).len() == ls@.len());
        assert(lv[i as int] == ls@[i as int]@);
        assert(mapped[i as int] == indent_line(lv[i as int]));
        let ghost before = views(out@);
        out.push(line);
        assert(views(out@) =~= before.push(line@));
        assert(mapped.take(i + 1) =~= mapped.take(i as int).push(mapped[i as int]));
        i = i + 1;
    }
    assert(mapped.take(ls.len() as int) =~= mapped);
    let nl = chars_of("\n");
    join_lines_with(&out, &nl)
}

/// Indents narrative lines with a full-width space; blank lines, lines
/// already indented and annotation lines are kept.
pub fn auto_indent_lines(input: &str) -> (res: String)
    ensures
        res@ == auto_indent(input@),
{
    string_of(&auto_indent_v(&chars_of(input)))
}

/// Leading blanks of a line before an opening bracket replaced by the
/// half-width indent annotation.
pub open spec fn half_indent(s: Seq<char>) -> Seq<char> {
    rewritten_by("(?m)^[ \\t　]*([〔「『\\(（【〈《≪〝])"@, s, MatchRewrite::HalfIndent)
}

fn half_indent_v(v: &Vec<char>) -> (res: Vec<char>)
    ensures
        res@ == half_indent(v@),
{
    let s = string_of(v);
    chars_of(add_half_indent_bracket(s.as_str()).as_str())
}

/// Leading spaces before an opening bracket replaced by the half-width
/// indent annotation, line by line.
pub fn add_half_indent_bracket(input: &str) -> (res: String)
    ensures
        res@ == half_indent(input@),
{
    rewrite_by("(?m)^[ \\t　]*([〔「『\\(（【〈《≪〝])", input, MatchRewrite::HalfIndent)
}

/// One line of `convert_kome_ascii`.
pub open spec fn kome_ascii_line(l: Seq<char>) -> Seq<char> {
    if starts_with(l, kome_marked()) {
        kome_marked() + map_seq(
            CharMap::ZenkakuAscii,
            l.subrange(kome_marked().len() as int, l.len() as int),
        )
    } else {
        l
    }
}

pub open spec fn kome_ascii(s: Seq<char>) -> Seq<char> {
    join_seq(lines_of(s).map_values(|l: Seq<char>| kome_ascii_line(l)), "\n"@)
}

fn kome_ascii_line_v(l: &Vec<char>) -> (res: Vec<char>)
    ensures
        res@ == kome_ascii_line(l@),
{
    let prefix = chars_of("※［＃米印、1-2-8］");
    if starts_with_chars(l, &prefix) {
        let rest = slice_chars(l, prefix.len(), l.len());
        let conv = map_chars(CharMap::ZenkakuAscii, &rest);
        let mut out = slice_chars(&prefix, 0, prefix.len());
        push_all(&mut out, &conv);
        out
    } else {
        slice_chars(l, 0, l.len())
    }
}

fn kome_ascii_v(v: &Vec<char>) -> (res: Vec<char>)
    ensures
        res@ == kome_ascii(v@),
{
    let ls = split_lines(v);
    let ghost lv = lines_of(v@);
    let ghost mapped = lv.map_values(|l: Seq<char>| kome_ascii_line(l));
    let mut out: Vec<Vec<char>> = Vec::new();
    let mut i: usize = 0;
    while i < ls.len()
        invariant
            i <= ls.len(),
            views(ls@) == lv,
            mapped == lv.map_values(|l: Seq<char>| kome_ascii_line(l)),
            views(out@) == mapped.take(i as int),
        decreases ls.len() - i,
    {
        let line = kome_ascii_line_v(&ls[i]);
        assert(views(ls@).len() == ls@.len());
        assert(lv[i as int] == ls@[i as int]@);
        assert(mapped[i as int] == kome_ascii_line(lv[i as int]));
        let ghost before = views(out@);
        out.push(line);
        assert(views(out@) =~= before.push(line@));
        assert(mapped.take(i + 1) =~= mapped.take(i as int).push(mapped[i as int]));
        i = i + 1;
    }
    assert(mapped.take(ls.len() as int) =~= mapped);
    let nl = chars_of("\n");
    join_lines_with(&out, &nl)
}

/// On lines that open with the kome-mark note, ASCII letters and symbols
/// after it become full-width.
pub fn convert_kome_ascii(input: &str) -> (res: String)
    ensures
        res@ == kome_ascii(input@),
{
    string_of(&kome_ascii_v(&chars_of(input)))
}


pub open spec fn is_dialogue_line(t: Seq<char>) -> bool {
    ||| starts_with(t, half_indent_marker())
    ||| starts_with(t, "「"@)
    ||| starts_with(t, "『"@)
    ||| starts_with(t, "（"@)
    ||| starts_with(t, "〈"@)
}

pub open spec fn is_narrative_line(t: Seq<char>) -> bool {
    t.len() > 0 && !starts_with(t, annotation_open())
}

pub open spec fn is_story_line(t: Seq<char>) -> bool {
    is_dialogue_line(t) || is_narrative_line(t)
}

/// Line `i` is blank and lies between two dialogue or narrative lines.
pub open spec fn drops_line(ls: Seq<Seq<char>>, i: int) -> bool {
    let prev = if i > 0 {
        trim(ls[i - 1])
    } else {
        Seq::empty()
    };
    let next = if i + 1 < ls.len() {
        trim(ls[i + 1])
    } else {
        Seq::empty()
    };
    trim(ls[i]).len() == 0 && is_story_line(prev) && is_story_line(next)
}

pub open spec fn kept_lines_from(ls: Seq<Seq<char>>, i: int) -> Seq<Seq<char>>
    decreases ls.len() - i,
{
    if i < 0 || i >= ls.len() {
        Seq::empty()
    } else if drops_line(ls, i) {
        kept_lines_from(ls, i + 1)
    } else {
        seq![ls[i]] + kept_lines_from(ls, i + 1)
    }
}

/// `normalize_dialogue_spacing`: blank lines between dialogue or narrative
/// lines are dropped, then blank lines are normalized.
pub open spec fn dialogue_spacing(s: Seq<char>) -> Seq<char> {
    normalize_blank(join_seq(kept_lines_from(lines_of(s), 0), "\n"@))
}

fn is_dialogue_line_v(t: &Vec<char>) -> (r: bool)
    ensures
        r == is_dialogue_line(t@),
{
    let a = chars_of("［＃二分アキ］");
    let b = chars_of("「");
    let c = chars_of("『");
    let d = chars_of("（");
    let e = chars_of("〈");
    starts_with_chars(t, &a) || starts_with_chars(t, &b) || starts_with_chars(t, &c)
        || starts_with_chars(t, &d) || starts_with_chars(t, &e)
}

fn is_story_line_v(t: &Vec<char>) -> (r: bool)
    ensures
        r == is_story_line(t@),
{
    let ann = chars_of("［＃");
    is_dialogue_line_v(t) || (t.len() > 0 && !starts_with_chars(t, &ann))
}

fn normalize_dialogue_spacing_v(v: &Vec<char>) -> (res: Vec<char>)
    ensures
        res@ == dialogue_spacing(v@),
{
    let ls = split_lines(v);
    let ghost lv = lines_of(v@);
    let mut kept: Vec<Vec<char>> = Vec::new();
    let mut i: usize = 0;
    while i < ls.len()
        invariant
            i <= ls.len(),
            views(ls@) == lv,
            kept_lines_from(lv, 0) == views(kept@) + kept_lines_from(lv, i as int),
        decreases ls.len() - i,
    {
        assert(views(ls@).len() == ls@.len());
        let ghost before = views(kept@);
        let trimmed = trim_chars(&ls[i]);
        let mut drop = false;
        if trimmed.len() == 0 {
            let prev_ok = if i > 0 {
                let p = trim_chars(&ls[i - 1]);
                assert(lv[i - 1] == ls@[i - 1]@);
                is_story_line_v(&p)
            } else {
                let empty: Vec<char> = Vec::new();
                assert(empty@ =~= Seq::<char>::empty());
                is_story_line_v(&empty)
            };
            let next_ok = if i + 1 < ls.len() {
                let n = trim_chars(&ls[i + 1]);
                assert(lv[i + 1] == ls@[i + 1]@);
                is_story_line_v(&n)
            } else {
                let empty: Vec<char> = Vec::new();
                assert(empty@ =~= Seq::<char>::empty());
                is_story_line_v(&empty)
            };
            drop = prev_ok && next_ok;
        }
        assert(lv[i as int] == ls@[i as int]@);
        assert(drop == drops_line(lv, i as int));
        if drop {
            assert(kept_lines_from(lv, i as int) == kept_lines_from(lv, i + 1));
        } else {
            let line = slice_chars(&ls[i], 0, ls[i].len());
            assert(line@ =~= lv[i as int]);
            kept.push(line);
            assert(views(kept@) =~= before.push(lv[i as int]));
            assert(before + (seq![lv[i as int]] + kept_lines_from(lv, i + 1)) =~= views(kept@)
                + kept_lines_from(lv, i + 1));
        }
        i = i + 1;
    }
    assert(kept_lines_from(lv, i as int) =~= Seq::<Seq<char>>::empty());
    assert(views(kept@) + Seq::<Seq<char>>::empty() =~= views(kept@));
    let nl = chars_of("\n");
    let joined = join_lines_with(&kept, &nl);
    normalize_blank_lines_v(&joined)
}

/// Blank lines between two dialogue or narrative lines are removed, then
/// blank lines are normalized.
pub fn normalize_dialogue_spacing(input: &str) -> (res: String)
    ensures
        res@ == dialogue_spacing(input@),
{
    string_of(&normalize_dialogue_spacing_v(&chars_of(input)))
}



/// The whole of `t` matches `^［＃挿絵（.+?）入る］$` (as the `regex` crate
/// decides).
pub open spec fn is_illust_marker(t: Seq<char>) -> bool {
    crate::model::regex_is_match_result("^［＃挿絵（.+?）入る］$"@, t) == Some(true)
}

fn is_illust_marker_v(t: &Vec<char>) -> (r: bool)
    ensures
        r == is_illust_marker(t@),
{
    let s = string_of(t);
    match crate::model::regex_is_match("^［＃挿絵（.+?）入る］$", s.as_str()) {
        Some(b) => b,
        None => false,
    }
}

/// Lines (trimmed) that are illustration markers.
pub open spec fn marker_lines_from(ls: Seq<Seq<char>>, i: int) -> Seq<Seq<char>>
    decreases ls.len() - i,
{
    if i < 0 || i >= ls.len() {
        Seq::empty()
    } else if is_illust_marker(trim(ls[i])) {
        seq![trim(ls[i])] + marker_lines_from(ls, i + 1)
    } else {
        marker_lines_from(ls, i + 1)
    }
}

/// Lines that are not illustration markers, untouched.
pub open spec fn body_lines_from(ls: Seq<Seq<char>>, i: int) -> Seq<Seq<char>>
    decreases ls.len() - i,
{
    if i < 0 || i >= ls.len() {
        Seq::empty()
    } else if is_illust_marker(trim(ls[i])) {
        body_lines_from(ls, i + 1)
    } else {
        seq![ls[i]] + body_lines_from(ls, i + 1)
    }
}

pub open spec fn string_views(v: Seq<String>) -> Seq<Seq<char>> {
    v.map_values(|x: String| x@)
}

pub(crate) fn extract_illustration_markers_v(v: &Vec<char>) -> (res: (Vec<char>, Vec<Vec<char>>))
    ensures
        res.0@ == normalize_blank(join_seq(body_lines_from(lines_of(v@), 0), "\n"@)),
        views(res.1@) == marker_lines_from(lines_of(v@), 0),
{
    let ls = split_lines(v);
    let ghost lv = lines_of(v@);
    let mut body: Vec<Vec<char>> = Vec::new();
    let mut markers: Vec<Vec<char>> = Vec::new();
    let mut i: usize = 0;
    while i < ls.len()
        invariant
            i <= ls.len(),
            views(ls@) == lv,
            body_lines_from(lv, 0) == views(body@) + body_lines_from(lv, i as int),
            marker_lines_from(lv, 0) == views(markers@) + marker_lines_from(lv, i as int),
        decreases ls.len() - i,
    {
        assert(views(ls@).len() == ls@.len());
        assert(lv[i as int] == ls@[i as int]@);
        let ghost b0 = views(body@);
        let ghost m0 = views(markers@);
        let trimmed = trim_chars(&ls[i]);
        if is_illust_marker_v(&trimmed) {
            markers.push(trimmed);
            assert(views(markers@) =~= m0.push(trim(lv[i as int])));
            assert(m0 + (seq![trim(lv[i as int])] + marker_lines_from(lv, i + 1)) =~= views(
                markers@,
            ) + marker_lines_from(lv, i + 1));
        } else {
            let line = slice_chars(&ls[i], 0, ls[i].len());
            assert(line@ =~= lv[i as int]);
            body.push(line);
            assert(views(body@) =~= b0.push(lv[i as int]));
            assert(b0 + (seq![lv[i as int]] + body_lines_from(lv, i + 1)) =~= views(body@)
                + body_lines_from(lv, i + 1));
        }
        i = i + 1;
    }
    assert(body_lines_from(lv, i as int) =~= Seq::<Seq<char>>::empty());
    assert(marker_lines_from(lv, i as int) =~= Seq::<Seq<char>>::empty());
    assert(views(body@) + Seq::<Seq<char>>::empty() =~= views(body@));
    assert(views(markers@) + Seq::<Seq<char>>::empty() =~= views(markers@));
    let nl = chars_of("\n");
    let joined = join_lines_with(&body, &nl);
    (normalize_blank_lines_v(&joined), markers)
}

fn strings_of(v: &Vec<Vec<char>>) -> (res: Vec<String>)
    ensures
        string_views(res@) == views(v@),
{
    let mut out: Vec<String> = Vec::new();
    let mut i: usize = 0;
    while i < v.len()
        invariant
            i <= v.len(),
            string_views(out@) == views(v@).take(i as int),
        decreases v.len() - i,
    {
        let ghost before = string_views(out@);
        out.push(string_of(&v[i]));
        assert(string_views(out@) =~= before.push(v@[i as int]@));
        assert(views(v@).take(i + 1) =~= views(v@).take(i as int).push(v@[i as int]@));
        i = i + 1;
    }
    assert(views(v@).take(v.len() as int) =~= views(v@));
    out
}

/// Splits off illustration marker lines: the other lines (blank lines
/// normalized) and the markers, trimmed, in order.
pub fn extract_illustration_markers(input: &str) -> (res: (String, Vec<String>))
    ensures
        res.0@ == normalize_blank(join_seq(body_lines_from(lines_of(input@), 0), "\n"@)),
        string_views(res.1@) == marker_lines_from(lines_of(input@), 0),
{
    let (body, markers) = extract_illustration_markers_v(&chars_of(input));
    (string_of(&body), strings_of(&markers))
}


/// `normalize_story_note_spacing`: in a kome-mark note line, a full-width
/// space after the first `！` before a `２０NN・` date (the input itself when
/// the pattern does not compile).
pub open spec fn story_note_spacing(s: Seq<char>) -> Seq<char> {
    rewritten_by("(?m)^(※［＃米印、1-2-8］.+?！)(２０\\d\\d・)"@, s, MatchRewrite::StoryNote)
}

/// In a kome-mark note line, a full-width space goes between the first `！`
/// and a following `２０NN・` date.
pub fn normalize_story_note_spacing(input: &str) -> (res: String)
    ensures
        res@ == story_note_spacing(input@),
{
    rewrite_by("(?m)^(※［＃米印、1-2-8］.+?！)(２０\\d\\d・)", input, MatchRewrite::StoryNote)
}

pub(crate) fn replace_lit(v: &Vec<char>, pat: &str, rep: &str) -> (res: Vec<char>)
    requires
        pat@.len() > 0,
    ensures
        res@ == replace_all(v@, pat@, rep@),
{
    let p = chars_of(pat);
    let r = chars_of(rep);
    replace_chars(v, &p, &r)
}

/// `decode_entities`: the eight entity replacements, in order.
pub open spec fn decode_entities_spec(s: Seq<char>) -> Seq<char> {
    let s1 = replace_all(s, "&nbsp;"@, " "@);
    let s2 = replace_all(s1, "&#160;"@, " "@);
    let s3 = replace_all(s2, "&lt;"@, "<"@);
    let s4 = replace_all(s3, "&gt;"@, ">"@);
    let s5 = replace_all(s4, "&amp;"@, "&"@);
    let s6 = replace_all(s5, "&quot;"@, "\""@);
    let s7 = replace_all(s6, "&#39;"@, "'"@);
    replace_all(s7, "&apos;"@, "'"@)
}

pub fn decode_entities_v(v: &Vec<char>) -> (res: Vec<char>)
    ensures
        res@ == decode_entities_spec(v@),
{
    proof {
        reveal_strlit("&nbsp;");
        reveal_strlit("&#160;");
        reveal_strlit("&lt;");
        reveal_strlit("&gt;");
        reveal_strlit("&amp;");
        reveal_strlit("&quot;");
        reveal_strlit("&#39;");
        reveal_strlit("&apos;");
    }
    let s1 = replace_lit(v, "&nbsp;", " ");
    let s2 = replace_lit(&s1, "&#160;", " ");
    let s3 = replace_lit(&s2, "&lt;", "<");
    let s4 = replace_lit(&s3, "&gt;", ">");
    let s5 = replace_lit(&s4, "&amp;", "&");
    let s6 = replace_lit(&s5, "&quot;", "\"");
    let s7 = replace_lit(&s6, "&#39;", "'");
    replace_lit(&s7, "&apos;", "'")
}

/// The common HTML entities decoded, in a fixed order of replacements.
pub fn decode_entities(input: &str) -> (res: String)
    ensures
        res@ == decode_entities_spec(input@),
{
    string_of(&decode_entities_v(&chars_of(input)))
}

/// `<br>`, `<br/>` and `<br />` replaced by line breaks, in that order.
pub open spec fn br_to_newline(s: Seq<char>) -> Seq<char> {
    replace_all(replace_all(replace_all(s, "<br>"@, "\n"@), "<br/>"@, "\n"@), "<br />"@, "\n"@)
}

pub fn br_to_newline_v(v: &Vec<char>) -> (res: Vec<char>)
    ensures
        res@ == br_to_newline(v@),
{
    proof {
        reveal_strlit("<br>");
        reveal_strlit("<br/>");
        reveal_strlit("<br />");
    }
    let a = replace_lit(v, "<br>", "\n");
    let b = replace_lit(&a, "<br/>", "\n");
    replace_lit(&b, "<br />", "\n")
}

/// `postprocess_story`, step by step.
#[verifier::opaque]
pub open spec fn postprocess_story_spec(s: Seq<char>) -> Seq<char> {
    let a = br_to_newline(s);
    let b = map_seq(CharMap::ZenkakuGeneral, a);
    let c = year_month(b);
    let d = digit_runs(c, DigitRule::Numbers(NumberMode::Story));
    let e = replace_all(d, kome(), kome_marked());
    let f = kome_ascii(e);
    let g = punctuation_tcy(f);
    let h = story_note_spacing(g);
    let i = separate_space(h);
    normalize_blank(i)
}

fn rebuild_kome_v(v: &Vec<char>) -> (res: Vec<char>)
    ensures
        res@ == replace_all(v@, kome(), kome_marked()),
{
    proof {
        reveal_strlit("※");
    }
    replace_lit(v, "※", "※［＃米印、1-2-8］")
}

fn story_note_spacing_v(v: &Vec<char>) -> (res: Vec<char>)
    ensures
        res@ == story_note_spacing(v@),
{
    let s = string_of(v);
    let r = normalize_story_note_spacing(s.as_str());
    chars_of(r.as_str())
}

/// The synopsis of a novel in Aozora markup: full-width ASCII, dates and
/// numbers, kome-mark notes, upright punctuation, separating spaces and
/// normalized blank lines.
pub fn postprocess_story(input: &str) -> (res: String)
    ensures
        res@ == postprocess_story_spec(input@),
{
    string_of(&postprocess_story_v(&chars_of(input)))
}

pub(crate) fn postprocess_story_v(v: &Vec<char>) -> (res: Vec<char>)
    ensures
        res@ == postprocess_story_spec(v@),
{
    proof {
        reveal(postprocess_story_spec);
    }
    let a = br_to_newline_v(v);
    let b = map_chars(CharMap::ZenkakuGeneral, &a);
    let c = year_month_v(&b);
    let d = digit_runs_v(&c, DigitRule::Numbers(NumberMode::Story));
    let e = rebuild_kome_v(&d);
    let f = kome_ascii_v(&e);
    let g = punctuation_tcy_v(&f);
    let h = story_note_spacing_v(&g);
    let i = insert_separate_space_v(&h);
    normalize_blank_lines_v(&i)
}

/// `postprocess_subtitle`, step by step.
#[verifier::opaque]
pub open spec fn postprocess_subtitle_spec(s: Seq<char>) -> Seq<char> {
    let a = replace_all(trim_end(s), kome(), kome_marked());
    let b = map_seq(CharMap::ZenkakuGeneral, a);
    let c = digit_runs(b, DigitRule::Numbers(NumberMode::Subtitle));
    trim_end(punctuation_tcy(c))
}

pub(crate) fn postprocess_subtitle_v(v: &Vec<char>) -> (res: Vec<char>)
    ensures
        res@ == postprocess_subtitle_spec(v@),
{
    proof {
        reveal(postprocess_subtitle_spec);
    }
    let t = trim_end_chars(v);
    let a = rebuild_kome_v(&t);
    let b = map_chars(CharMap::ZenkakuGeneral, &a);
    let c = digit_runs_v(&b, DigitRule::Numbers(NumberMode::Subtitle));
    let d = punctuation_tcy_v(&c);
    trim_end_chars(&d)
}

/// An episode title in Aozora markup.
pub fn postprocess_subtitle(input: &str) -> (res: String)
    ensures
        res@ == postprocess_subtitle_spec(input@),
{
    string_of(&postprocess_subtitle_v(&chars_of(input)))
}

/// `postprocess_body`, step by step.
#[verifier::opaque]
pub open spec fn postprocess_body_spec(s: Seq<char>) -> Seq<char> {
    let a = map_seq(CharMap::ZenkakuGeneral, s);
    let b = year_month(a);
    let c = digit_runs(b, DigitRule::Kanji);
    let d = replace_all(c, kome(), kome_marked());
    let e = punctuation_tcy(d);
    let f = half_indent(e);
    let g = separate_space(f);
    let h = space_after_tcy(g);
    let i = auto_indent(h);
    dialogue_spacing(normalize_blank(i))
}

pub(crate) fn postprocess_body_v(v: &Vec<char>) -> (res: Vec<char>)
    ensures
        res@ == postprocess_body_spec(v@),
{
    proof {
        reveal(postprocess_body_spec);
    }
    let a = map_chars(CharMap::ZenkakuGeneral, v);
    let b = year_month_v(&a);
    let c = digit_runs_v(&b, DigitRule::Kanji);
    let d = rebuild_kome_v(&c);
    let e = punctuation_tcy_v(&d);
    let f = half_indent_v(&e);
    let g = insert_separate_space_v(&f);
    let marker = chars_of("［＃縦中横終わり］");
    proof {
        reveal_strlit("［＃縦中横終わり］");
    }
    let h = space_after_marker_v(&g, &marker);
    let i = auto_indent_v(&h);
    let j = normalize_blank_lines_v(&i);
    normalize_dialogue_spacing_v(&j)
}

/// Episode text in Aozora markup: full-width ASCII, kanji numerals,
/// upright punctuation, half indents before brackets, separating spaces,
/// paragraph indents, and tidied blank lines.
pub fn postprocess_body(input: &str) -> (res: String)
    ensures
        res@ == postprocess_body_spec(input@),
{
    string_of(&postprocess_body_v(&chars_of(input)))
}


/// Digits turned full-width come back as they were: `ascii_digits` undoes
/// `to_zenkaku_digits` on a text with no full-width digits.
pub proof fn lemma_digits_round_trip(s: Seq<char>)
    requires
        forall|k: int| 0 <= k < s.len() ==> !full_width_digit(#[trigger] s[k]),
    ensures
        map_seq(CharMap::AsciiDigits, map_seq(CharMap::ZenkakuDigits, s)) == s,
{
    assert forall|k: int| 0 <= k < s.len() implies ascii_digit_char(zenkaku_digit_char(#[trigger] s[k]))
        == s[k] by {
        let c = s[k];
        if is_ascii_digit(c) {
            let v = (c as u32) + 0xFEE0;
            assert(0xFF10 <= v <= 0xFF19);
            assert((v as char) as u32 == v);
        }
    }
    assert(map_seq(CharMap::AsciiDigits, map_seq(CharMap::ZenkakuDigits, s)) =~= s);
}

/// And the other way: `to_zenkaku_digits` undoes `ascii_digits` on a text
/// with no ASCII digits.
pub proof fn lemma_full_width_round_trip(s: Seq<char>)
    requires
        forall|k: int| 0 <= k < s.len() ==> !is_ascii_digit(#[trigger] s[k]),
    ensures
        map_seq(CharMap::ZenkakuDigits, map_seq(CharMap::AsciiDigits, s)) == s,
{
    assert forall|k: int| 0 <= k < s.len() implies zenkaku_digit_char(ascii_digit_char(#[trigger] s[k]))
        == s[k] by {
        let c = s[k];
        if full_width_digit(c) {
            let v = (c as u32) - 0xFEE0;
            assert(0x30 <= v <= 0x39);
            assert((v as char) as u32 == v);
        }
    }
    assert(map_seq(CharMap::ZenkakuDigits, map_seq(CharMap::AsciiDigits, s)) =~= s);
}

} // verus!
