//! The bookkeeping of a download: the database and its lookups,
//! the folder name of a new novel, which episodes must be fetched again,
//! which site a target belongs to, and the record written afterwards.

use vstd::prelude::*;
use crate::kakuyomu::{subtitle_views, supports, supports_spec};
use crate::model::{
    ascii_lower, ascii_lower_v, regex_capture, regex_capture_result, subtitle_view, DownloadTarget,
    NovelRecord, ParsedNovel, Subtitle, SubtitleView, Toc,
};
use crate::storage::{entry_matches, first_match};
use crate::database::{database_entries, entry_views, key_order, listed_in_order};
use std::collections::BTreeMap;
use crate::timestamp::{
    current_datetime, fields_in_range, format_timestamp, local_datetime_fields, local_datetime_result,
    timestamp_text, DateTimeFields,
};
use crate::syosetu::{blank_forbidden, blank_forbidden_v, opt_seq, or_else};
use crate::text::{
    chars_of, clone_opt, contains_chars, contains_seq, seq_eq, slice_chars, string_of, trim,
    trim_chars,
};

verus! {

// ---------------------------------------------------------------------------
// The database as entries in key order.

/// Keys strictly increase along the entries, as a `BTreeMap` yields them.
pub open spec fn keys_increasing(db: Seq<(u64, NovelRecord)>) -> bool {
    forall|i: int, j: int| 0 <= i < j < db.len() ==> #[trigger] db[i].0 < #[trigger] db[j].0
}

proof fn lemma_first_match_scan(db: Seq<(u64, NovelRecord)>, id: u64, p: int, i: int)
    requires
        keys_increasing(db),
        0 <= i <= p < db.len(),
        db[p].0 == id,
    ensures
        first_match(db, DownloadTarget::Id(id), i) == Some(p),
    decreases p - i,
{
    if i < p {
        assert(db[i].0 < db[p].0);
        lemma_first_match_scan(db, id, p, i + 1);
    }
}

/// The record that `target` names in the database `m`: by key for an id;
/// for an ncode or a URL, the first in key order whose table-of-contents
/// URL fits.
pub open spec fn lookup_spec(m: Map<u64, NovelRecord>, target: DownloadTarget) -> Option<NovelRecord> {
    match target {
        DownloadTarget::Id(id) => if m.contains_key(id) {
            Some(m[id])
        } else {
            None
        },
        _ => match first_match(key_order(m), target, 0) {
            Some(k) => Some(key_order(m)[k].1),
            None => None,
        },
    }
}

/// Writes `record` under its id (`BTreeMap::insert`).
pub fn upsert_record(db: &mut BTreeMap<u64, NovelRecord>, record: NovelRecord)
    ensures
        final(db)@ == old(db)@.insert(record.id, record),
{
    db.insert(record.id, record);
}

/// Takes the record with key `id` out of the database (`BTreeMap::remove`).
pub fn remove_record(db: &mut BTreeMap<u64, NovelRecord>, id: u64) -> (res: Option<NovelRecord>)
    ensures
        final(db)@ == old(db)@.remove(id),
        res == lookup_spec(old(db)@, DownloadTarget::Id(id)),
{
    db.remove(&id)
}

/// In a database listed in key order, looking a record up by the key of
/// an entry finds that entry first.
pub proof fn lemma_find_by_id(db: Seq<(u64, NovelRecord)>, k: int)
    requires
        keys_increasing(db),
        0 <= k < db.len(),
    ensures
        first_match(db, DownloadTarget::Id(db[k].0), 0) == Some(k),
{
    lemma_first_match_scan(db, db[k].0, k, 0);
}

/// Read after write: after `upsert_record`, a lookup by the record's id
/// finds the record written.
pub proof fn lemma_upsert_then_find(m: Map<u64, NovelRecord>, record: NovelRecord)
    ensures
        lookup_spec(m.insert(record.id, record), DownloadTarget::Id(record.id)) == Some(record),
{
}

/// After `remove_record`, a lookup by the removed id finds nothing, and
/// the other records stay.
pub proof fn lemma_remove_then_find(m: Map<u64, NovelRecord>, id: u64, other: u64)
    requires
        other != id,
    ensures
        lookup_spec(m.remove(id), DownloadTarget::Id(id)) is None,
        lookup_spec(m.remove(id), DownloadTarget::Id(other)) == lookup_spec(m, DownloadTarget::Id(other)),
{
}

pub proof fn lemma_first_match_is_match(db: Seq<(u64, NovelRecord)>, t: DownloadTarget, i: int)
    ensures
        first_match(db, t, i) matches Some(k) ==> i <= k < db.len() && entry_matches(db[k], t),
    decreases db.len() - i,
{
    if 0 <= i < db.len() && !entry_matches(db[i], t) {
        lemma_first_match_is_match(db, t, i + 1);
    }
}

// ---------------------------------------------------------------------------
// Episodes.

/// A copy of an episode.
pub fn clone_subtitle(s: &Subtitle) -> (res: Subtitle)
    ensures
        res == *s,
{
    Subtitle {
        index: s.index.clone(),
        href: s.href.clone(),
        chapter: s.chapter.clone(),
        subchapter: s.subchapter.clone(),
        subtitle: s.subtitle.clone(),
        file_subtitle: s.file_subtitle.clone(),
        subdate: s.subdate.clone(),
        subupdate: clone_opt(&s.subupdate),
    }
}

fn opt_str_eq(a: &Option<String>, b: &Option<String>) -> (r: bool)
    ensures
        r == (opt_seq(*a) == opt_seq(*b)),
{
    match (a, b) {
        (Some(x), Some(y)) => seq_eq(&chars_of(x.as_str()), &chars_of(y.as_str())),
        (None, None) => true,
        _ => false,
    }
}

fn str_same(a: &String, b: &String) -> (r: bool)
    ensures
        r == (a@ == b@),
{
    seq_eq(&chars_of(a.as_str()), &chars_of(b.as_str()))
}

/// Two episodes are equal field by field.
pub fn subtitle_eq(a: &Subtitle, b: &Subtitle) -> (r: bool)
    ensures
        r == (subtitle_view(*a) == subtitle_view(*b)),
{
    str_same(&a.index, &b.index) && str_same(&a.href, &b.href) && str_same(&a.chapter, &b.chapter)
        && str_same(&a.subchapter, &b.subchapter) && str_same(&a.subtitle, &b.subtitle)
        && str_same(&a.file_subtitle, &b.file_subtitle) && str_same(&a.subdate, &b.subdate)
        && opt_str_eq(&a.subupdate, &b.subupdate)
}

/// The first episode of `old`, from `i` on, with the given index.
pub open spec fn old_by_index(old: Seq<Subtitle>, index: Seq<char>, i: int) -> Option<Subtitle>
    decreases old.len() - i,
{
    if i < 0 || i >= old.len() {
        None
    } else if old[i].index@ == index {
        Some(old[i])
    } else {
        old_by_index(old, index, i + 1)
    }
}

/// An episode is fetched when there is no old table of contents, when the
/// old one lacks its index, when it changed, or when its saved file is
/// missing (`present` is false).
pub open spec fn needs_download(old: Option<Seq<Subtitle>>, e: Subtitle, present: bool) -> bool {
    match old {
        None => true,
        Some(o) => match old_by_index(o, e.index@, 0) {
            None => true,
            Some(x) => subtitle_view(x) != subtitle_view(e) || !present,
        },
    }
}

pub open spec fn changed_from(
    old: Option<Seq<Subtitle>>,
    eps: Seq<Subtitle>,
    present: Seq<bool>,
) -> Seq<SubtitleView>
    decreases eps.len(),
{
    if eps.len() == 0 {
        Seq::empty()
    } else if needs_download(old, eps.last(), present[eps.len() - 1]) {
        changed_from(old, eps.drop_last(), present).push(subtitle_view(eps.last()))
    } else {
        changed_from(old, eps.drop_last(), present)
    }
}

pub open spec fn toc_subtitles(t: Option<&Toc>) -> Option<Seq<Subtitle>> {
    match t {
        Some(toc) => Some(toc.subtitles@),
        None => None,
    }
}

fn find_by_index<'a>(old: &'a Vec<Subtitle>, index: &String) -> (res: Option<&'a Subtitle>)
    ensures
        res == (match old_by_index(old@, index@, 0) {
            Some(x) => Some(&x),
            None => None,
        }),
{
    let mut i: usize = 0;
    while i < old.len()
        invariant
            i <= old.len(),
            old_by_index(old@, index@, 0) == old_by_index(old@, index@, i as int),
        decreases old.len() - i,
    {
        if str_same(&old[i].index, index) {
            return Some(&old[i]);
        }
        i = i + 1;
    }
    None
}

/// The episodes to fetch, in order. `section_present[i]` says whether the
/// saved file of episode `i` exists.
pub fn changed_episodes(old_toc: Option<&Toc>, parsed: &ParsedNovel, section_present: &Vec<bool>) -> (res: Vec<Subtitle>)
    requires
        section_present.len() == parsed.episodes.len(),
    ensures
        subtitle_views(res@) == changed_from(toc_subtitles(old_toc), parsed.episodes@, section_present@),
{
    let eps = &parsed.episodes;
    let mut out: Vec<Subtitle> = Vec::new();
    let mut i: usize = 0;
    while i < eps.len()
        invariant
            i <= eps.len() == section_present.len(),
            eps@ == parsed.episodes@,
            subtitle_views(out@) == changed_from(
                toc_subtitles(old_toc),
                eps@.take(i as int),
                section_present@,
            ),
        decreases eps.len() - i,
    {
        assert(eps@.take(i + 1).drop_last() =~= eps@.take(i as int));
        let e = &eps[i];
        let needed = match old_toc {
            None => true,
            Some(t) => match find_by_index(&t.subtitles, &e.index) {
                None => true,
                Some(x) => !subtitle_eq(x, e) || !section_present[i],
            },
        };
        if needed {
            let ghost before = out@;
            out.push(clone_subtitle(e));
            assert(subtitle_views(out@) =~= subtitle_views(before).push(subtitle_view(*e)));
        }
        i = i + 1;
    }
    assert(eps@.take(eps.len() as int) =~= eps@);
    out
}

// ---------------------------------------------------------------------------
// Which site.

/// The two sites a novel can come from.
#[derive(Debug, Clone, Copy, PartialEq, Eq, Structural)]
pub enum SiteKind {
    Syosetu,
    Kakuyomu,
}

pub open spec fn site_kind_spec(target: DownloadTarget, existing: Option<NovelRecord>) -> SiteKind {
    if supports_spec(target) {
        SiteKind::Kakuyomu
    } else if existing matches Some(r) && contains_seq(r.toc_url@, "kakuyomu.jp/works/"@) {
        SiteKind::Kakuyomu
    } else {
        SiteKind::Syosetu
    }
}

pub open spec fn opt_record(o: Option<&NovelRecord>) -> Option<NovelRecord> {
    match o {
        Some(r) => Some(*r),
        None => None,
    }
}

/// Kakuyomu for a Kakuyomu work URL, or for a saved record whose table of
/// contents is on Kakuyomu; otherwise Syosetu.
pub fn detect_site_kind(target: &DownloadTarget, existing: Option<&NovelRecord>) -> (res: SiteKind)
    ensures
        res == site_kind_spec(*target, opt_record(existing)),
{
    if supports(target) {
        return SiteKind::Kakuyomu;
    }
    if let Some(record) = existing {
        if contains_chars(&chars_of(record.toc_url.as_str()), &chars_of("kakuyomu.jp/works/")) {
            return SiteKind::Kakuyomu;
        }
    }
    SiteKind::Syosetu
}

// ---------------------------------------------------------------------------
// The folder name of a novel.

/// Characters that file systems refuse become spaces; the ends are trimmed.
pub open spec fn replace_filename_special_spec(s: Seq<char>) -> Seq<char> {
    trim(blank_forbidden(s))
}

pub fn replace_filename_special_chars(input: &str) -> (res: String)
    ensures
        res@ == replace_filename_special_spec(input@),
{
    string_of(&trim_chars(&blank_forbidden_v(&chars_of(input))))
}

/// At most fifty characters, trimmed.
pub open spec fn truncate_folder_title_spec(s: Seq<char>) -> Seq<char> {
    if s.len() <= 50 {
        trim(s)
    } else {
        trim(s.take(50))
    }
}

pub fn truncate_folder_title(input: &str) -> (res: String)
    ensures
        res@ == truncate_folder_title_spec(input@),
{
    let v = chars_of(input);
    if v.len() <= 50 {
        return string_of(&trim_chars(&v));
    }
    let head = slice_chars(&v, 0, 50);
    assert(head@ =~= v@.take(50));
    string_of(&trim_chars(&head))
}

pub open spec fn ncode_capture_pattern() -> Seq<char> {
    "(?i)(?P<ncode>n\\d+[a-z]+)"@
}

/// The ncode in a table-of-contents URL, in lower case.
pub open spec fn extract_ncode_spec(toc_url: Seq<char>) -> Option<Seq<char>> {
    match regex_capture_result(ncode_capture_pattern(), toc_url, "ncode"@) {
        Some(Some(m)) => Some(ascii_lower(m)),
        _ => None,
    }
}

pub fn extract_ncode(toc_url: &str) -> (res: Option<String>)
    ensures
        opt_seq(res) == extract_ncode_spec(toc_url@),
{
    match regex_capture("(?i)(?P<ncode>n\\d+[a-z]+)", toc_url, "ncode") {
        Some(Some(m)) => Some(string_of(&ascii_lower_v(&chars_of(m.as_str())))),
        _ => None,
    }
}

/// The folder name of a novel: the saved one, or the title (with the ncode
/// before it when the URL has one) made safe and cut to fifty characters.
pub open spec fn file_title_spec(existing: Option<NovelRecord>, title: Seq<char>, toc_url: Seq<char>) -> Seq<
    char,
> {
    match existing {
        Some(r) => r.file_title@,
        None => {
            let t = replace_filename_special_spec(title);
            match extract_ncode_spec(toc_url) {
                Some(n) => truncate_folder_title_spec(n + " "@ + t),
                None => truncate_folder_title_spec(t),
            }
        },
    }
}

pub fn build_file_title(existing: Option<&NovelRecord>, parsed: &ParsedNovel, toc_url: &str) -> (res: String)
    ensures
        res@ == file_title_spec(opt_record(existing), parsed.title@, toc_url@),
{
    if let Some(r) = existing {
        return r.file_title.clone();
    }
    let title = replace_filename_special_chars(parsed.title.as_str());
    match extract_ncode(toc_url) {
        Some(n) => {
            let mut s = n;
            s.append(" ");
            s.append(title.as_str());
            truncate_folder_title(s.as_str())
        },
        None => truncate_folder_title(title.as_str()),
    }
}


// ---------------------------------------------------------------------------
// Dates.

/// Japan Standard Time, UTC+9.
pub open spec fn jst_offset_secs() -> i32 {
    32400
}

/// The date layouts of the novel pages, tried in this order.
pub open spec fn source_formats() -> Seq<Seq<char>> {
    seq![
        "%Y/%m/%d %H:%M:%S"@,
        "%Y/%m/%d %H:%M"@,
        "%Y年 %m月%d日 %H時%M分%S秒"@,
        "%Y年 %m月%d日 %H時%M分"@,
    ]
}

/// The first layout that reads `t` decides.
pub open spec fn parse_source_from(t: Seq<char>, i: int) -> Option<Seq<char>>
    decreases 4 - i,
{
    if i < 0 || i >= 4 {
        None
    } else {
        match local_datetime_result(t, source_formats()[i], jst_offset_secs()) {
            Some(Some(f)) => Some(timestamp_text(f)),
            Some(None) => None,
            None => parse_source_from(t, i + 1),
        }
    }
}

pub open spec fn normalize_source_spec(o: Option<Seq<char>>) -> Option<Seq<char>> {
    match o {
        Some(v) => parse_source_from(trim(v), 0),
        None => None,
    }
}

fn timestamp_of(r: Option<DateTimeFields>) -> (res: Option<String>)
    ensures
        opt_seq(res) == (match r {
            Some(f) => Some(timestamp_text(f)),
            None => None,
        }),
{
    match r {
        Some(f) => Some(format_timestamp(f)),
        None => None,
    }
}

/// A date from a novel page, in Japan time, rewritten in the database's
/// layout; `None` when no layout reads it.
pub fn normalize_source_datetime(input: Option<String>) -> (res: Option<String>)
    ensures
        opt_seq(res) == normalize_source_spec(opt_seq(input)),
{
    let v = match input {
        Some(v) => v,
        None => return None,
    };
    let t = string_of(&trim_chars(&chars_of(v.as_str())));
    let ts = t.as_str();
    proof {
        reveal_with_fuel(parse_source_from, 5);
    }
    if let Some(r) = local_datetime_fields(ts, "%Y/%m/%d %H:%M:%S", 32400) {
        return timestamp_of(r);
    }
    if let Some(r) = local_datetime_fields(ts, "%Y/%m/%d %H:%M", 32400) {
        return timestamp_of(r);
    }
    if let Some(r) = local_datetime_fields(ts, "%Y年 %m月%d日 %H時%M分%S秒", 32400) {
        return timestamp_of(r);
    }
    if let Some(r) = local_datetime_fields(ts, "%Y年 %m月%d日 %H時%M分", 32400) {
        return timestamp_of(r);
    }
    None
}

// ---------------------------------------------------------------------------
// The record written after a download.

pub open spec fn first_subdate(eps: Seq<Subtitle>) -> Option<Seq<char>> {
    if eps.len() > 0 {
        Some(eps[0].subdate@)
    } else {
        None
    }
}

pub open spec fn last_subdate(eps: Seq<Subtitle>) -> Option<Seq<char>> {
    if eps.len() > 0 {
        Some(eps.last().subdate@)
    } else {
        None
    }
}

/// The revision date of the last revised episode.
pub open spec fn last_subupdate(eps: Seq<Subtitle>) -> Option<Seq<char>>
    decreases eps.len(),
{
    if eps.len() == 0 {
        None
    } else {
        match eps.last().subupdate {
            Some(u) => Some(u@),
            None => last_subupdate(eps.drop_last()),
        }
    }
}

pub open spec fn existing_field(
    existing: Option<NovelRecord>,
    f: spec_fn(NovelRecord) -> Option<String>,
) -> Option<Seq<char>> {
    match existing {
        Some(r) => opt_seq(f(r)),
        None => None,
    }
}

pub open spec fn record_firstup(p: ParsedNovel, existing: Option<NovelRecord>) -> Option<Seq<char>> {
    or_else(
        normalize_source_spec(or_else(opt_seq(p.general_firstup), first_subdate(p.episodes@))),
        existing_field(existing, |r: NovelRecord| r.general_firstup),
    )
}

pub open spec fn record_lastup(p: ParsedNovel, existing: Option<NovelRecord>) -> Option<Seq<char>> {
    or_else(
        normalize_source_spec(or_else(opt_seq(p.general_lastup), last_subdate(p.episodes@))),
        existing_field(existing, |r: NovelRecord| r.general_lastup),
    )
}

pub open spec fn record_updated(p: ParsedNovel, existing: Option<NovelRecord>) -> Option<Seq<char>> {
    or_else(
        or_else(
            normalize_source_spec(
                or_else(
                    or_else(opt_seq(p.novelupdated_at), last_subupdate(p.episodes@)),
                    last_subdate(p.episodes@),
                ),
            ),
            existing_field(existing, |r: NovelRecord| r.novelupdated_at),
        ),
        record_lastup(p, existing),
    )
}

/// The id of a new record: one past the largest key, or 0.
pub open spec fn new_id(db: Seq<(u64, NovelRecord)>) -> int {
    if db.len() == 0 {
        0
    } else {
        db.last().0 + 1
    }
}

pub open spec fn record_length(
    calculated: Option<usize>,
    p: ParsedNovel,
    existing: Option<NovelRecord>,
) -> Option<usize> {
    match calculated {
        Some(n) => Some(n),
        None => match p.length {
            Some(n) => Some(n),
            None => match existing {
                Some(r) => r.length,
                None => None,
            },
        },
    }
}

/// What `build_record` writes, field by field, at time `ts`.
pub open spec fn record_built(
    res: NovelRecord,
    db: Seq<(u64, NovelRecord)>,
    existing: Option<NovelRecord>,
    p: ParsedNovel,
    file_title: Seq<char>,
    toc_url: Seq<char>,
    calculated: Option<usize>,
    ts: Seq<char>,
) -> bool {
    &&& res.id == (match existing {
        Some(r) => r.id as int,
        None => new_id(db),
    })
    &&& res.author@ == p.author@
    &&& res.title@ == p.title@
    &&& res.file_title@ == file_title
    &&& res.toc_url@ == toc_url
    &&& res.sitename@ == p.sitename@
    &&& res.novel_type == p.novel_type
    &&& res.end == p.end
    &&& res.all_episodes == p.episodes@.len()
    &&& opt_seq(res.last_update) == Some(ts)
    &&& opt_seq(res.new_arrivals_date) == or_else(
        existing_field(existing, |r: NovelRecord| r.new_arrivals_date),
        Some(ts),
    )
    &&& res.use_subdirectory == (existing matches Some(r) && r.use_subdirectory)
    &&& opt_seq(res.general_firstup) == record_firstup(p, existing)
    &&& opt_seq(res.novelupdated_at) == record_updated(p, existing)
    &&& opt_seq(res.general_lastup) == record_lastup(p, existing)
    &&& res.length == record_length(calculated, p, existing)
    &&& res.suspend == (existing matches Some(r) && r.suspend)
    &&& res.general_all_no == Some(p.episodes@.len() as usize)
}

fn or_opt(a: Option<String>, b: Option<String>) -> (res: Option<String>)
    ensures
        opt_seq(res) == or_else(opt_seq(a), opt_seq(b)),
{
    match a {
        Some(x) => Some(x),
        None => b,
    }
}

fn first_subdate_exec(eps: &Vec<Subtitle>) -> (res: Option<String>)
    ensures
        opt_seq(res) == first_subdate(eps@),
{
    if eps.len() > 0 {
        Some(eps[0].subdate.clone())
    } else {
        None
    }
}

fn last_subdate_exec(eps: &Vec<Subtitle>) -> (res: Option<String>)
    ensures
        opt_seq(res) == last_subdate(eps@),
{
    if eps.len() > 0 {
        Some(eps[eps.len() - 1].subdate.clone())
    } else {
        None
    }
}

fn last_subupdate_exec(eps: &Vec<Subtitle>) -> (res: Option<String>)
    ensures
        opt_seq(res) == last_subupdate(eps@),
{
    let mut i: usize = eps.len();
    assert(eps@.take(i as int) =~= eps@);
    while i > 0
        invariant
            i <= eps.len(),
            last_subupdate(eps@) == last_subupdate(eps@.take(i as int)),
        decreases i,
    {
        assert(eps@.take(i as int).drop_last() =~= eps@.take(i - 1));
        assert(eps@.take(i as int).last() == eps@[i - 1]);
        if let Some(u) = &eps[i - 1].subupdate {
            return Some(u.clone());
        }
        i = i - 1;
    }
    assert(eps@.take(0) =~= Seq::<Subtitle>::empty());
    None
}

fn existing_opt(existing: Option<&NovelRecord>, which: u8) -> (res: Option<String>)
    ensures
        opt_seq(res) == (match which {
            0 => existing_field(opt_record(existing), |r: NovelRecord| r.general_firstup),
            1 => existing_field(opt_record(existing), |r: NovelRecord| r.general_lastup),
            2 => existing_field(opt_record(existing), |r: NovelRecord| r.novelupdated_at),
            _ => existing_field(opt_record(existing), |r: NovelRecord| r.new_arrivals_date),
        }),
{
    match existing {
        None => None,
        Some(r) => match which {
            0 => clone_opt(&r.general_firstup),
            1 => clone_opt(&r.general_lastup),
            2 => clone_opt(&r.novelupdated_at),
            _ => clone_opt(&r.new_arrivals_date),
        },
    }
}

/// The record of a downloaded novel at time `timestamp`: what the pages
/// said, the dates rewritten in the database's layout, and what the saved
/// record (if any) keeps.
pub fn build_record_at(
    database: &BTreeMap<u64, NovelRecord>,
    existing: Option<&NovelRecord>,
    parsed: &ParsedNovel,
    file_title: &str,
    toc_url: String,
    calculated_length: Option<usize>,
    timestamp: String,
) -> (res: NovelRecord)
    requires
        existing is None ==> new_id(key_order(database@)) <= u64::MAX,
    ensures
        record_built(
            res,
            key_order(database@),
            opt_record(existing),
            *parsed,
            file_title@,
            toc_url@,
            calculated_length,
            timestamp@,
        ),
{
    let eps = &parsed.episodes;
    let general_firstup = or_opt(
        normalize_source_datetime(or_opt(clone_opt(&parsed.general_firstup), first_subdate_exec(eps))),
        existing_opt(existing, 0),
    );
    let general_lastup = or_opt(
        normalize_source_datetime(or_opt(clone_opt(&parsed.general_lastup), last_subdate_exec(eps))),
        existing_opt(existing, 1),
    );
    let updated_source = or_opt(
        or_opt(clone_opt(&parsed.novelupdated_at), last_subupdate_exec(eps)),
        last_subdate_exec(eps),
    );
    let novelupdated_at = or_opt(
        or_opt(normalize_source_datetime(updated_source), existing_opt(existing, 2)),
        clone_opt(&general_lastup),
    );
    let id: u64 = match existing {
        Some(r) => r.id,
        None => next_id(database),
    };
    let new_arrivals_date = or_opt(existing_opt(existing, 3), Some(timestamp.clone()));
    let length = match calculated_length {
        Some(n) => Some(n),
        None => match parsed.length {
            Some(n) => Some(n),
            None => match existing {
                Some(r) => r.length,
                None => None,
            },
        },
    };
    NovelRecord {
        id,
        author: parsed.author.clone(),
        title: parsed.title.clone(),
        file_title: String::from_str(file_title),
        toc_url,
        sitename: parsed.sitename.clone(),
        novel_type: parsed.novel_type,
        end: parsed.end,
        all_episodes: eps.len(),
        last_update: Some(timestamp),
        new_arrivals_date,
        use_subdirectory: match existing {
            Some(r) => r.use_subdirectory,
            None => false,
        },
        general_firstup,
        novelupdated_at,
        general_lastup,
        length,
        suspend: match existing {
            Some(r) => r.suspend,
            None => false,
        },
        general_all_no: Some(eps.len()),
    }
}

/// The record of a downloaded novel, stamped with the clock's time at UTC
/// offset `local_offset_secs` in the database's layout; see
/// `build_record_at`. `None` when the clock cannot be read.
pub fn build_record(
    database: &BTreeMap<u64, NovelRecord>,
    existing: Option<&NovelRecord>,
    parsed: &ParsedNovel,
    file_title: &str,
    toc_url: String,
    calculated_length: Option<usize>,
    local_offset_secs: i32,
) -> (res: Option<NovelRecord>)
    requires
        existing is None ==> new_id(key_order(database@)) <= u64::MAX,
    ensures
        res matches Some(r) ==> exists|f: DateTimeFields|
            #[trigger] fields_in_range(f) && f.offset_secs == local_offset_secs && record_built(
                r,
                key_order(database@),
                opt_record(existing),
                *parsed,
                file_title@,
                toc_url@,
                calculated_length,
                timestamp_text(f),
            ),
{
    let now = match current_datetime(local_offset_secs) {
        Some(f) => f,
        None => return None,
    };
    let timestamp = format_timestamp(now);
    let r = build_record_at(database, existing, parsed, file_title, toc_url, calculated_length, timestamp);
    assert(fields_in_range(now));
    Some(r)
}

/// The id a new record takes: one past the largest key, or 0.
pub fn next_id(database: &BTreeMap<u64, NovelRecord>) -> (res: u64)
    requires
        new_id(key_order(database@)) <= u64::MAX,
    ensures
        res == new_id(key_order(database@)),
{
    let entries = database_entries(database);
    if entries.len() == 0 {
        0
    } else {
        let last = entries[entries.len() - 1].0;
        assert(entry_views(entries@).last().0 == last);
        last + 1
    }
}

/// The key a new record takes, if one is left: `None` when the largest
/// key is `u64::MAX`.
pub fn free_id(database: &BTreeMap<u64, NovelRecord>) -> (res: Option<u64>)
    ensures
        match res {
            Some(id) => id == new_id(key_order(database@)),
            None => new_id(key_order(database@)) > u64::MAX,
        },
{
    let entries = database_entries(database);
    if entries.len() == 0 {
        Some(0)
    } else {
        let last = entries[entries.len() - 1].0;
        assert(entry_views(entries@).last().0 == last);
        if last == u64::MAX {
            None
        } else {
            Some(last + 1)
        }
    }
}

/// A new record takes an id that no saved record has: every key of the
/// database is below it.
pub proof fn lemma_new_id_fresh(m: Map<u64, NovelRecord>, k: u64)
    requires
        listed_in_order(key_order(m), m),
        m.contains_key(k),
    ensures
        k < new_id(key_order(m)),
{
    let db = key_order(m);
    let i = choose|i: int| 0 <= i < db.len() && db[i].0 == k;
    if i < db.len() - 1 {
        assert(db[i].0 < db[db.len() - 1].0);
    }
}

// ---------------------------------------------------------------------------
// Targets.

pub open spec fn update_targets_spec(targets: Seq<DownloadTarget>, db: Seq<(u64, NovelRecord)>) -> Seq<
    DownloadTarget,
> {
    if targets.len() == 0 {
        db.map_values(|e: (u64, NovelRecord)| DownloadTarget::Url(e.1.toc_url))
    } else {
        targets
    }
}

/// The targets of an update: the ones given, or every saved novel by its
/// table-of-contents URL, in id order.
pub fn update_targets(targets: Vec<DownloadTarget>, database: &BTreeMap<u64, NovelRecord>) -> (res: Vec<
    DownloadTarget,
>)
    ensures
        res@ == update_targets_spec(targets@, key_order(database@)),
{
    if targets.len() > 0 {
        return targets;
    }
    let entries = database_entries(database);
    let ghost all = key_order(database@).map_values(
        |e: (u64, NovelRecord)| DownloadTarget::Url(e.1.toc_url),
    );
    let mut out: Vec<DownloadTarget> = Vec::new();
    let mut i: usize = 0;
    while i < entries.len()
        invariant
            i <= entries.len(),
            entry_views(entries@) == key_order(database@),
            all == key_order(database@).map_values(
                |e: (u64, NovelRecord)| DownloadTarget::Url(e.1.toc_url),
            ),
            out@ == all.take(i as int),
        decreases entries.len() - i,
    {
        assert(entry_views(entries@)[i as int].1 == *entries@[i as int].1);
        out.push(DownloadTarget::Url(entries[i].1.toc_url.clone()));
        assert(out@ =~= all.take(i + 1));
        i = i + 1;
    }
    assert(all.take(entries.len() as int) =~= all);
    out
}

/// The target a download works on: an id becomes the URL of the record it
/// names; any other target stays as it is.
pub fn normalize_target(database: &BTreeMap<u64, NovelRecord>, target: &DownloadTarget) -> (res: Result<
    DownloadTarget,
    crate::model::ErrorMessage,
>)
    ensures
        match target {
            DownloadTarget::Id(_) => match lookup_spec(database@, *target) {
                Some(r) => res matches Ok(DownloadTarget::Url(u)) && u@ == r.toc_url@,
                None => res matches Err(e) && crate::model::error_is(
                    e,
                    "record not found for id target"@,
                    None,
                ),
            },
            DownloadTarget::Ncode(n) => res matches Ok(DownloadTarget::Ncode(m)) && m@ == n@,
            DownloadTarget::Url(u) => res matches Ok(DownloadTarget::Url(v)) && v@ == u@,
        },
{
    match target {
        DownloadTarget::Id(_) => {
            match crate::storage::lookup_record(database, target) {
                Some(r) => Ok(DownloadTarget::Url(r.toc_url.clone())),
                None => Err(
                    crate::model::ErrorMessage::new(String::from_str("record not found for id target")),
                ),
            }
        },
        DownloadTarget::Ncode(n) => Ok(DownloadTarget::Ncode(n.clone())),
        DownloadTarget::Url(u) => Ok(DownloadTarget::Url(u.clone())),
    }
}


/// No two episodes share an index.
pub open spec fn indexes_unique(eps: Seq<Subtitle>) -> bool {
    forall|a: int, b: int| 0 <= a < b < eps.len() ==> #[trigger] eps[a].index@ != #[trigger] eps[b].index@
}

proof fn lemma_old_by_index_finds(eps: Seq<Subtitle>, k: int, i: int)
    requires
        indexes_unique(eps),
        0 <= i <= k < eps.len(),
    ensures
        old_by_index(eps, eps[k].index@, i) == Some(eps[k]),
    decreases k - i,
{
    if i < k {
        assert(eps[i].index@ != eps[k].index@);
        lemma_old_by_index_finds(eps, k, i + 1);
    }
}

/// An update fetches nothing when the table of contents did not change
/// and every episode's file is saved (indexes being unique).
pub proof fn lemma_unchanged_toc_fetches_nothing(eps: Seq<Subtitle>, present: Seq<bool>)
    requires
        indexes_unique(eps),
        present.len() == eps.len(),
        forall|k: int| 0 <= k < present.len() ==> #[trigger] present[k],
    ensures
        changed_from(Some(eps), eps, present).len() == 0,
{
    lemma_unchanged_prefix(eps, present, eps.len() as int);
    assert(eps.take(eps.len() as int) =~= eps);
}

proof fn lemma_unchanged_prefix(eps: Seq<Subtitle>, present: Seq<bool>, n: int)
    requires
        indexes_unique(eps),
        present.len() == eps.len(),
        forall|k: int| 0 <= k < present.len() ==> #[trigger] present[k],
        0 <= n <= eps.len(),
    ensures
        changed_from(Some(eps), eps.take(n), present).len() == 0,
    decreases n,
{
    if n > 0 {
        lemma_unchanged_prefix(eps, present, n - 1);
        assert(eps.take(n).drop_last() =~= eps.take(n - 1));
        assert(eps.take(n).last() == eps[n - 1]);
        lemma_old_by_index_finds(eps, n - 1, 0);
    }
}

/// A first download fetches every episode, in order.
pub proof fn lemma_first_download_fetches_all(eps: Seq<Subtitle>, present: Seq<bool>)
    ensures
        changed_from(None, eps, present) == subtitle_views(eps),
    decreases eps.len(),
{
    if eps.len() > 0 {
        lemma_first_download_fetches_all(eps.drop_last(), present);
        assert(subtitle_views(eps) =~= subtitle_views(eps.drop_last()).push(subtitle_view(eps.last())));
    } else {
        assert(subtitle_views(eps) =~= Seq::empty());
    }
}


proof fn lemma_old_by_index_in(old: Seq<Subtitle>, index: Seq<char>, i: int)
    requires
        0 <= i,
    ensures
        old_by_index(old, index, i) matches Some(x) ==> exists|j: int| 0 <= j < old.len() && old[j] == x,
    decreases old.len() - i,
{
    if i < old.len() && old[i].index@ != index {
        lemma_old_by_index_in(old, index, i + 1);
    }
}

/// An update fetches every episode that the saved table of contents does
/// not hold exactly as it is listed now (a new episode, or one that
/// changed in any field, its revision date included), and every episode
/// whose saved file is missing.
pub proof fn lemma_changed_episode_fetched(
    old: Option<Seq<Subtitle>>,
    eps: Seq<Subtitle>,
    present: Seq<bool>,
    k: int,
)
    requires
        0 <= k < eps.len(),
        eps.len() <= present.len(),
        !present[k] || match old {
            Some(o) => forall|j: int| 0 <= j < o.len() ==> subtitle_view(#[trigger] o[j]) != subtitle_view(eps[k]),
            None => true,
        },
    ensures
        changed_from(old, eps, present).contains(subtitle_view(eps[k])),
    decreases eps.len(),
{
    if k == eps.len() - 1 {
        if let Some(o) = old {
            lemma_old_by_index_in(o, eps[k].index@, 0);
        }
        assert(needs_download(old, eps.last(), present[eps.len() - 1]));
        let r = changed_from(old, eps, present);
        assert(r[r.len() - 1] == subtitle_view(eps[k]));
    } else {
        lemma_changed_episode_fetched(old, eps.drop_last(), present, k);
        assert(eps.drop_last()[k] == eps[k]);
        let prev = changed_from(old, eps.drop_last(), present);
        let j = choose|j: int| 0 <= j < prev.len() && prev[j] == subtitle_view(eps[k]);
        let r = changed_from(old, eps, present);
        assert(r[j] == subtitle_view(eps[k]));
    }
}


/// Whether an update must fetch episode `e`: the saved table of contents
/// does not hold it exactly as listed, or its file is missing.
pub open spec fn not_saved_as_listed(old: Option<Seq<Subtitle>>, e: Subtitle, present: bool) -> bool {
    !present || match old {
        Some(o) => forall|j: int| 0 <= j < o.len() ==> subtitle_view(#[trigger] o[j]) != subtitle_view(e),
        None => true,
    }
}

proof fn lemma_needs_download_means(old: Option<Seq<Subtitle>>, e: Subtitle, present: bool)
    requires
        old matches Some(o) ==> indexes_unique(o),
        needs_download(old, e, present),
    ensures
        not_saved_as_listed(old, e, present),
{
    if let Some(o) = old {
        if present {
            assert forall|j: int| 0 <= j < o.len() implies subtitle_view(#[trigger] o[j]) != subtitle_view(e) by {
                if subtitle_view(o[j]) == subtitle_view(e) {
                    lemma_old_by_index_finds(o, j, 0);
                }
            }
        }
    }
}

/// An update fetches only listed episodes, each one that the saved table
/// of contents (its indexes unique) does not hold exactly as listed, or
/// whose file is missing; in listing order.
pub proof fn lemma_fetched_only_changed(old: Option<Seq<Subtitle>>, eps: Seq<Subtitle>, present: Seq<bool>)
    requires
        eps.len() <= present.len(),
        old matches Some(o) ==> indexes_unique(o),
    ensures
        forall|i: int| 0 <= i < changed_from(old, eps, present).len() ==> exists|k: int|
            0 <= k < eps.len() && #[trigger] changed_from(old, eps, present)[i] == subtitle_view(eps[k])
                && not_saved_as_listed(old, eps[k], present[k]),
    decreases eps.len(),
{
    if eps.len() > 0 {
        let d = eps.drop_last();
        lemma_fetched_only_changed(old, d, present);
        let r = changed_from(old, eps, present);
        let prev = changed_from(old, d, present);
        assert forall|i: int| 0 <= i < r.len() implies exists|k: int|
            0 <= k < eps.len() && #[trigger] r[i] == subtitle_view(eps[k])
                && not_saved_as_listed(old, eps[k], present[k]) by {
            if i < prev.len() {
                assert(r[i] == prev[i]);
                let k = choose|k: int| 0 <= k < d.len() && prev[i] == subtitle_view(d[k])
                    && not_saved_as_listed(old, d[k], present[k]);
                assert(d[k] == eps[k]);
            } else {
                let k = eps.len() - 1;
                lemma_needs_download_means(old, eps[k], present[k]);
                assert(r[i] == subtitle_view(eps[k]));
            }
        }
    }
}

} // verus!
