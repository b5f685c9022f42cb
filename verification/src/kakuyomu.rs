//! Novels of Kakuyomu: work ids from URLs, where a work's pages are, and
//! the episode list built from a work's table of contents.

use vstd::prelude::*;
use crate::text::{chars_of, push_all, push_str, string_of, starts_with, starts_with_chars, views};
use crate::model::{
    error_is, regex_capture, regex_capture_result, str_plus, subtitle_view, DownloadTarget,
    ErrorMessage, ParsedNovel, ResolvedNovel, Section, SectionElement, Subtitle, SubtitleView,
};
use crate::scrape::{extract_html, first_html_spec};
use crate::syosetu::{
    is_absolute_url, opt_seq, parse_url, sanitize_filename, sanitize_spec, trim_slashes_len,
    url_parts,
};

verus! {

pub open spec fn work_path_pattern() -> Seq<char> {
    "^/works/(?P<id>\\d+)(?:/episodes/\\d+)?$"@
}

/// The work id in a Kakuyomu URL, or the error's message and cause: an
/// unparsable URL, another host, or a path that is not a work or episode.
pub open spec fn work_id_spec(input: Seq<char>) -> Result<Seq<char>, (Seq<char>, Option<Seq<char>>)> {
    match url_parts(input) {
        Err(e) => Err(("invalid url: "@ + input, Some(e))),
        Ok((_, host, path)) => if host != Some("kakuyomu.jp"@) {
            Err(("unsupported kakuyomu host"@, None))
        } else {
            match regex_capture_result(
                work_path_pattern(),
                path.subrange(0, trim_slashes_len(path, path.len() as int)),
                "id"@,
            ) {
                Some(Some(id)) => Ok(id),
                _ => Err(("kakuyomu work id not found in url: "@ + input, None)),
            }
        },
    }
}

pub open spec fn work_id_result(input: Seq<char>, res: Result<String, ErrorMessage>) -> bool {
    match work_id_spec(input) {
        Ok(id) => res matches Ok(x) && x@ == id,
        Err((m, c)) => res matches Err(x) && error_is(x, m, c),
    }
}

fn is_kakuyomu_host(h: &Option<String>) -> (r: bool)
    ensures
        r == (opt_seq(*h) == Some("kakuyomu.jp"@)),
{
    match h {
        Some(x) => {
            let a = chars_of(x.as_str());
            let b = chars_of("kakuyomu.jp");
            crate::text::seq_eq(&a, &b)
        },
        None => false,
    }
}

/// The work id of a Kakuyomu work or episode URL.
pub fn parse_work_id(input: &str) -> (res: Result<String, ErrorMessage>)
    ensures
        work_id_result(input@, res),
{
    let (host, path) = match parse_url(input) {
        Err(e) => {
            return Err(ErrorMessage::with_cause(str_plus("invalid url: ", &chars_of(input)), e));
        },
        Ok((_, h, p)) => (h, p),
    };
    if !is_kakuyomu_host(&host) {
        return Err(ErrorMessage::new(String::from_str("unsupported kakuyomu host")));
    }
    let p = chars_of(path.as_str());
    let mut j: usize = p.len();
    while j > 0 && p[j - 1] == '/'
        invariant
            j <= p.len(),
            trim_slashes_len(p@, p.len() as int) == trim_slashes_len(p@, j as int),
        decreases j,
    {
        j = j - 1;
    }
    proof {
        crate::syosetu::lemma_trim_slashes(p@, j as int);
    }
    let trimmed = string_of(&crate::text::slice_chars(&p, 0, j));
    match regex_capture("^/works/(?P<id>\\d+)(?:/episodes/\\d+)?$", trimmed.as_str(), "id") {
        Some(Some(id)) => Ok(id),
        _ => Err(
            ErrorMessage::new(str_plus("kakuyomu work id not found in url: ", &chars_of(input))),
        ),
    }
}

/// A target is a Kakuyomu work: a URL with a work id.
pub open spec fn supports_spec(t: DownloadTarget) -> bool {
    match t {
        DownloadTarget::Url(u) => work_id_spec(u@) is Ok,
        _ => false,
    }
}

pub fn supports(target: &DownloadTarget) -> (r: bool)
    ensures
        r == supports_spec(*target),
{
    match target {
        DownloadTarget::Url(u) => parse_work_id(u.as_str()).is_ok(),
        _ => false,
    }
}

pub open spec fn work_url(id: Seq<char>) -> Seq<char> {
    "https://kakuyomu.jp/works/"@ + id
}

/// Where a Kakuyomu work's pages are; ncode and id targets are refused.
pub open spec fn kakuyomu_resolve_result(t: DownloadTarget, res: Result<ResolvedNovel, ErrorMessage>) -> bool {
    match t {
        DownloadTarget::Url(u) => match work_id_spec(u@) {
            Ok(id) => res matches Ok(r) && r.toc_url@ == work_url(id) && r.info_url@ == work_url(
                id,
            ) && r.base_url@ == "https://kakuyomu.jp"@,
            Err((m, c)) => res matches Err(x) && error_is(x, m, c),
        },
        DownloadTarget::Ncode(_) => res matches Err(x) && error_is(
            x,
            "kakuyomu target must be specified by URL"@,
            None,
        ),
        DownloadTarget::Id(_) => res matches Err(x) && error_is(
            x,
            "id target must be resolved from database first"@,
            None,
        ),
    }
}

pub fn resolve_target(target: &DownloadTarget) -> (res: Result<ResolvedNovel, ErrorMessage>)
    ensures
        kakuyomu_resolve_result(*target, res),
{
    match target {
        DownloadTarget::Url(u) => match parse_work_id(u.as_str()) {
            Ok(id) => {
                let url = str_plus("https://kakuyomu.jp/works/", &chars_of(id.as_str()));
                Ok(
                    ResolvedNovel {
                        toc_url: url.clone(),
                        info_url: url,
                        base_url: String::from_str("https://kakuyomu.jp"),
                    },
                )
            },
            Err(e) => Err(e),
        },
        DownloadTarget::Ncode(_) => Err(
            ErrorMessage::new(String::from_str("kakuyomu target must be specified by URL")),
        ),
        DownloadTarget::Id(_) => Err(
            ErrorMessage::new(String::from_str("id target must be resolved from database first")),
        ),
    }
}

/// The URL of an episode page: an absolute link as is, else on the site.
pub fn episode_url(href: &str) -> (res: String)
    ensures
        res@ == (if is_absolute_url(href@) {
            href@
        } else {
            "https://kakuyomu.jp"@ + href@
        }),
{
    let h = chars_of(href);
    if starts_with_chars(&h, &chars_of("http://")) || starts_with_chars(&h, &chars_of("https://")) {
        string_of(&h)
    } else {
        str_plus("https://kakuyomu.jp", &h)
    }
}

/// The author as shown: `alternate／activity` when the work names an
/// alternate author, else the activity name.
pub fn author_name(activity_name: &str, alternate: &Option<String>) -> (res: String)
    ensures
        res@ == match alternate {
            Some(a) => a@ + "／"@ + activity_name@,
            None => activity_name@,
        },
{
    match alternate {
        Some(a) => {
            let mut v = chars_of(a.as_str());
            push_str(&mut v, "／");
            push_str(&mut v, activity_name);
            string_of(&v)
        },
        None => String::from_str(activity_name),
    }
}

pub open spec fn next_data_pattern() -> Seq<char> {
    "(?s)<script id=\"__NEXT_DATA__\" type=\"application/json\">(?P<json>.+?)</script>"@
}

/// The JSON text of a work page's `__NEXT_DATA__` script.
pub fn next_data_json(html: &str) -> (res: Result<String, ErrorMessage>)
    ensures
        match regex_capture_result(next_data_pattern(), html@, "json"@) {
            Some(Some(j)) => res matches Ok(x) && x@ == j,
            _ => res matches Err(x) && error_is(x, "__NEXT_DATA__ not found"@, None),
        },
{
    match regex_capture(
        "(?s)<script id=\"__NEXT_DATA__\" type=\"application/json\">(?P<json>.+?)</script>",
        html,
        "json",
    ) {
        Some(Some(j)) => Ok(j),
        _ => Err(ErrorMessage::new(String::from_str("__NEXT_DATA__ not found"))),
    }
}

/// One entry of a work's table of contents: its chapter (title and level,
/// if it names one) and its episodes (id, title, publication time).
#[derive(Debug, Clone)]
pub struct TocEntry {
    pub chapter: Option<(String, Option<u64>)>,
    pub episodes: Vec<(String, String, String)>,
}

/// The chapter and subchapter titles an entry sets: a level-2 chapter is a
/// subchapter, any other a chapter.
pub open spec fn entry_titles(e: TocEntry) -> (Seq<char>, Seq<char>) {
    match e.chapter {
        Some((t, level)) => if level == Some(2u64) {
            (Seq::empty(), t@)
        } else {
            (t@, Seq::empty())
        },
        None => (Seq::empty(), Seq::empty()),
    }
}

pub open spec fn episode_view(
    work_id: Seq<char>,
    ep: (String, String, String),
    chapter: Seq<char>,
    subchapter: Seq<char>,
) -> SubtitleView {
    (
        ep.0@,
        "/works/"@ + work_id + "/episodes/"@ + ep.0@,
        chapter,
        subchapter,
        ep.1@,
        sanitize_spec(ep.1@),
        ep.2@,
        Some(ep.2@),
    )
}

/// The episodes of entries `i..`, given the chapter title last written: a
/// chapter title goes on the first episode after it changes.
pub open spec fn entries_from(
    work_id: Seq<char>,
    es: Seq<TocEntry>,
    i: int,
    k: int,
    emitted: Seq<char>,
) -> Seq<SubtitleView>
    decreases es.len() - i, if 0 <= i < es.len() {
        es[i].episodes@.len() - k
    } else {
        0
    },
{
    if i < 0 || i >= es.len() {
        Seq::empty()
    } else if k < 0 || k >= es[i].episodes@.len() {
        entries_from(work_id, es, i + 1, 0, emitted)
    } else {
        let (ch, sub) = entry_titles(es[i]);
        let shown = if ch.len() > 0 && ch != emitted {
            ch
        } else {
            Seq::empty()
        };
        let next_emitted = if ch.len() > 0 && ch != emitted {
            ch
        } else {
            emitted
        };
        seq![episode_view(work_id, es[i].episodes@[k], shown, sub)] + entries_from(
            work_id,
            es,
            i,
            k + 1,
            next_emitted,
        )
    }
}

pub open spec fn subtitle_views(s: Seq<Subtitle>) -> Seq<SubtitleView> {
    s.map_values(|x: Subtitle| subtitle_view(x))
}

/// The episode list of a work from its table of contents.
pub fn extract_subtitles(entries: &Vec<TocEntry>, work_id: &str) -> (res: Vec<Subtitle>)
    ensures
        subtitle_views(res@) == entries_from(work_id@, entries@, 0, 0, Seq::empty()),
{
    let mut out: Vec<Subtitle> = Vec::new();
    let mut emitted: Vec<char> = Vec::new();
    let mut i: usize = 0;
    while i < entries.len()
        invariant
            i <= entries.len(),
            entries_from(work_id@, entries@, 0, 0, Seq::empty()) == subtitle_views(out@)
                + entries_from(work_id@, entries@, i as int, 0, emitted@),
        decreases entries.len() - i,
    {
        let e = &entries[i];
        let (chapter, subchapter) = match &e.chapter {
            Some((t, level)) => if *level == Some(2u64) {
                (Vec::new(), chars_of(t.as_str()))
            } else {
                (chars_of(t.as_str()), Vec::new())
            },
            None => (Vec::new(), Vec::new()),
        };
        assert(chapter@ =~= entry_titles(*e).0 && subchapter@ =~= entry_titles(*e).1);
        let mut k: usize = 0;
        while k < e.episodes.len()
            invariant
                i < entries.len(),
                e == entries@[i as int],
                k <= e.episodes.len(),
                chapter@ == entry_titles(*e).0,
                subchapter@ == entry_titles(*e).1,
                entries_from(work_id@, entries@, 0, 0, Seq::empty()) == subtitle_views(out@)
                    + entries_from(work_id@, entries@, i as int, k as int, emitted@),
            decreases e.episodes.len() - k,
        {
            let ep = &e.episodes[k];
            let changes = chapter.len() > 0 && !crate::text::seq_eq(&chapter, &emitted);
            let shown = if changes {
                emitted = chapter.clone();
                chapter.clone()
            } else {
                Vec::new()
            };
            let ghost before = subtitle_views(out@);
            let mut href = chars_of("/works/");
            push_str(&mut href, work_id);
            push_str(&mut href, "/episodes/");
            push_str(&mut href, ep.0.as_str());
            let s = Subtitle {
                index: ep.0.clone(),
                href: string_of(&href),
                chapter: string_of(&shown),
                subchapter: string_of(&subchapter),
                subtitle: ep.1.clone(),
                file_subtitle: sanitize_filename(ep.1.as_str()),
                subdate: ep.2.clone(),
                subupdate: Some(ep.2.clone()),
            };
            assert(subtitle_view(s) == episode_view(work_id@, e.episodes@[k as int], shown@, subchapter@));
            out.push(s);
            assert(subtitle_views(out@) =~= before.push(subtitle_view(s)));
            assert(before + (seq![subtitle_view(s)] + entries_from(
                work_id@,
                entries@,
                i as int,
                k + 1,
                emitted@,
            )) =~= subtitle_views(out@) + entries_from(
                work_id@,
                entries@,
                i as int,
                k + 1,
                emitted@,
            ));
            k = k + 1;
        }
        i = i + 1;
    }
    assert(subtitle_views(out@) + entries_from(work_id@, entries@, i as int, 0, emitted@)
        =~= subtitle_views(out@));
    out
}


/// A JSON value as plain values: what the work page's `__NEXT_DATA__`
/// holds. A number keeps its value as a `u64` when it is one.
#[derive(Debug)]
pub enum Json {
    Null,
    Bool(bool),
    Number(Option<u64>),
    Str(String),
    Array(Vec<Json>),
    Object(Vec<(String, Json)>),
}

/// The value under `key` in an object's fields (the first, keys being
/// unique in a parsed object).
pub open spec fn obj_get(fields: Seq<(String, Json)>, key: Seq<char>) -> Option<Json>
    decreases fields.len(),
{
    if fields.len() == 0 {
        None
    } else if fields[0].0@ == key {
        Some(fields[0].1)
    } else {
        obj_get(fields.drop_first(), key)
    }
}

/// `Value::get` with a key: only an object has members.
pub open spec fn json_get(v: Option<Json>, key: Seq<char>) -> Option<Json> {
    match v {
        Some(Json::Object(f)) => obj_get(f@, key),
        _ => None,
    }
}

pub open spec fn as_str(v: Option<Json>) -> Option<Seq<char>> {
    match v {
        Some(Json::Str(s)) => Some(s@),
        _ => None,
    }
}

pub open spec fn as_object(v: Option<Json>) -> Option<Seq<(String, Json)>> {
    match v {
        Some(Json::Object(f)) => Some(f@),
        _ => None,
    }
}

pub open spec fn as_array(v: Option<Json>) -> Option<Seq<Json>> {
    match v {
        Some(Json::Array(a)) => Some(a@),
        _ => None,
    }
}

pub open spec fn as_u64(v: Option<Json>) -> Option<u64> {
    match v {
        Some(Json::Number(n)) => n,
        _ => None,
    }
}

fn fields_get<'a>(fields: &'a Vec<(String, Json)>, key: &str) -> (res: Option<&'a Json>)
    ensures
        match obj_get(fields@, key@) {
            Some(x) => res matches Some(r) && *r == x,
            None => res is None,
        },
{
    let k = chars_of(key);
    let mut i: usize = 0;
    assert(fields@.skip(0) =~= fields@);
    while i < fields.len()
        invariant
            i <= fields.len(),
            k@ == key@,
            obj_get(fields@, key@) == obj_get(fields@.skip(i as int), key@),
        decreases fields.len() - i,
    {
        assert(fields@.skip(i as int)[0] == fields@[i as int]);
        assert(fields@.skip(i as int).drop_first() =~= fields@.skip(i + 1));
        if crate::text::seq_eq(&chars_of(fields[i].0.as_str()), &k) {
            return Some(&fields[i].1);
        }
        i = i + 1;
    }
    None
}

fn value_get<'a>(v: Option<&'a Json>, key: &str) -> (res: Option<&'a Json>)
    ensures
        match json_get(opt_json(v), key@) {
            Some(x) => res matches Some(r) && *r == x,
            None => res is None,
        },
{
    match v {
        Some(Json::Object(f)) => fields_get(f, key),
        _ => None,
    }
}

pub open spec fn opt_json(v: Option<&Json>) -> Option<Json> {
    match v {
        Some(x) => Some(*x),
        None => None,
    }
}

/// `get_string`: a member that is a string.
pub open spec fn get_string_spec(fields: Seq<(String, Json)>, key: Seq<char>) -> Option<Seq<char>> {
    as_str(obj_get(fields, key))
}

fn get_string(fields: &Vec<(String, Json)>, key: &str) -> (res: Option<String>)
    ensures
        opt_seq(res) == get_string_spec(fields@, key@),
{
    match fields_get(fields, key) {
        Some(Json::Str(s)) => Some(s.clone()),
        _ => None,
    }
}

fn string_or_empty(o: Option<String>) -> (res: String)
    ensures
        res@ == (match opt_seq(o) {
            Some(s) => s,
            None => Seq::empty(),
        }),
{
    match o {
        Some(s) => s,
        None => String::new(),
    }
}

pub open spec fn or_empty_seq(o: Option<Seq<char>>) -> Seq<char> {
    match o {
        Some(s) => s,
        None => Seq::empty(),
    }
}

/// The author of a work from the page state: its author's activity name,
/// after the alternate name when the work has one.
pub open spec fn author_spec(state: Seq<(String, Json)>, work: Seq<(String, Json)>) -> Result<
    Seq<char>,
    Seq<char>,
> {
    match as_str(json_get(obj_get(work, "author"@), "__ref"@)) {
        None => Err("author ref not found"@),
        Some(r) => match as_object(obj_get(state, r)) {
            None => Err("author data not found"@),
            Some(a) => {
                let activity = or_empty_seq(get_string_spec(a, "activityName"@));
                match get_string_spec(work, "alternateAuthorName"@) {
                    Some(alt) => Ok(alt + "／"@ + activity),
                    None => Ok(activity),
                }
            },
        },
    }
}

pub fn extract_author(state: &Vec<(String, Json)>, work: &Vec<(String, Json)>) -> (res: Result<
    String,
    ErrorMessage,
>)
    ensures
        match author_spec(state@, work@) {
            Ok(a) => res matches Ok(x) && x@ == a,
            Err(m) => res matches Err(e) && error_is(e, m, None),
        },
{
    let author_ref = match value_get(fields_get(work, "author"), "__ref") {
        Some(Json::Str(r)) => r,
        _ => return Err(ErrorMessage::new(String::from_str("author ref not found"))),
    };
    let author = match fields_get(state, author_ref.as_str()) {
        Some(Json::Object(a)) => a,
        _ => return Err(ErrorMessage::new(String::from_str("author data not found"))),
    };
    let activity = string_or_empty(get_string(author, "activityName"));
    let alternate = get_string(work, "alternateAuthorName");
    Ok(author_name(activity.as_str(), &alternate))
}

pub open spec fn toc_entry_view(e: TocEntry) -> (Option<(Seq<char>, Option<u64>)>, Seq<(Seq<char>, Seq<char>, Seq<char>)>) {
    (
        match e.chapter {
            Some((t, l)) => Some((t@, l)),
            None => None,
        },
        e.episodes@.map_values(|p: (String, String, String)| (p.0@, p.1@, p.2@)),
    )
}

pub type TocEntryView = (Option<(Seq<char>, Option<u64>)>, Seq<(Seq<char>, Seq<char>, Seq<char>)>);

/// The chapter of a table-of-contents entry: its title and level, when the
/// entry refers to a chapter that the state holds.
pub open spec fn entry_chapter(state: Seq<(String, Json)>, entry: Seq<(String, Json)>) -> Option<
    (Seq<char>, Option<u64>),
> {
    match as_str(json_get(obj_get(entry, "chapter"@), "__ref"@)) {
        Some(r) => match as_object(obj_get(state, r)) {
            Some(c) => Some(
                (or_empty_seq(get_string_spec(c, "title"@)), as_u64(obj_get(c, "level"@))),
            ),
            None => None,
        },
        None => None,
    }
}

/// The episodes of an entry's `episodeUnions` from index `k`: id, title
/// and publication time, or the first reference that fails.
pub open spec fn entry_episodes(state: Seq<(String, Json)>, refs: Seq<Json>, k: int) -> Result<
    Seq<(Seq<char>, Seq<char>, Seq<char>)>,
    Seq<char>,
>
    decreases refs.len() - k,
{
    if k < 0 || k >= refs.len() {
        Ok(Seq::empty())
    } else {
        match as_str(json_get(Some(refs[k]), "__ref"@)) {
            None => Err("episode ref not found"@),
            Some(r) => match as_object(obj_get(state, r)) {
                None => Err("episode not found: "@ + r),
                Some(ep) => match entry_episodes(state, refs, k + 1) {
                    Ok(rest) => Ok(
                        seq![
                            (
                                or_empty_seq(get_string_spec(ep, "id"@)),
                                or_empty_seq(get_string_spec(ep, "title"@)),
                                or_empty_seq(get_string_spec(ep, "publishedAt"@)),
                            ),
                        ] + rest,
                    ),
                    Err(e) => Err(e),
                },
            },
        }
    }
}

/// The entries of a table of contents from index `i`, or the first
/// reference that fails.
pub open spec fn toc_entries_spec(state: Seq<(String, Json)>, toc: Seq<Json>, i: int) -> Result<
    Seq<TocEntryView>,
    Seq<char>,
>
    decreases toc.len() - i,
{
    if i < 0 || i >= toc.len() {
        Ok(Seq::empty())
    } else {
        match as_str(json_get(Some(toc[i]), "__ref"@)) {
            None => Err("tableOfContents ref not found"@),
            Some(r) => match as_object(obj_get(state, r)) {
                None => Err("toc entry not found: "@ + r),
                Some(entry) => {
                    let eps = match as_array(obj_get(entry, "episodeUnions"@)) {
                        Some(refs) => entry_episodes(state, refs, 0),
                        None => Ok(Seq::empty()),
                    };
                    match eps {
                        Err(e) => Err(e),
                        Ok(es) => match toc_entries_spec(state, toc, i + 1) {
                            Ok(rest) => Ok(seq![(entry_chapter(state, entry), es)] + rest),
                            Err(e) => Err(e),
                        },
                    }
                },
            },
        }
    }
}

fn error_with(prefix: &str, r: &String) -> (res: ErrorMessage)
    ensures
        error_is(res, prefix@ + r@, None),
{
    let mut m = String::from_str(prefix);
    m.append(r.as_str());
    ErrorMessage::new(m)
}

fn chapter_of(state: &Vec<(String, Json)>, entry: &Vec<(String, Json)>) -> (res: Option<(String, Option<u64>)>)
    ensures
        (match res {
            Some((t, l)) => Some((t@, l)),
            None => None,
        }) == entry_chapter(state@, entry@),
{
    match value_get(fields_get(entry, "chapter"), "__ref") {
        Some(Json::Str(r)) => match fields_get(state, r.as_str()) {
            Some(Json::Object(c)) => {
                let title = string_or_empty(get_string(c, "title"));
                let level = match fields_get(c, "level") {
                    Some(Json::Number(n)) => *n,
                    _ => None,
                };
                Some((title, level))
            },
            _ => None,
        },
        _ => None,
    }
}

pub open spec fn episode_triples(v: Seq<(String, String, String)>) -> Seq<(Seq<char>, Seq<char>, Seq<char>)> {
    v.map_values(|p: (String, String, String)| (p.0@, p.1@, p.2@))
}

fn episodes_of(state: &Vec<(String, Json)>, refs: &Vec<Json>) -> (res: Result<Vec<(String, String, String)>, ErrorMessage>)
    ensures
        match entry_episodes(state@, refs@, 0) {
            Ok(es) => res matches Ok(v) && episode_triples(v@) == es,
            Err(m) => res matches Err(e) && error_is(e, m, None),
        },
{
    let mut out: Vec<(String, String, String)> = Vec::new();
    let mut k: usize = 0;
    while k < refs.len()
        invariant
            k <= refs.len(),
            entry_episodes(state@, refs@, 0) == (match entry_episodes(state@, refs@, k as int) {
                Ok(rest) => Ok(episode_triples(out@) + rest),
                Err(e) => Err(e),
            }),
        decreases refs.len() - k,
    {
        let r = match value_get(Some(&refs[k]), "__ref") {
            Some(Json::Str(r)) => r,
            _ => return Err(ErrorMessage::new(String::from_str("episode ref not found"))),
        };
        let ep = match fields_get(state, r.as_str()) {
            Some(Json::Object(ep)) => ep,
            _ => return Err(error_with("episode not found: ", r)),
        };
        let t = (
            string_or_empty(get_string(ep, "id")),
            string_or_empty(get_string(ep, "title")),
            string_or_empty(get_string(ep, "publishedAt")),
        );
        let ghost before = out@;
        out.push(t);
        proof {
            assert(episode_triples(out@) =~= episode_triples(before).push((t.0@, t.1@, t.2@)));
            match entry_episodes(state@, refs@, k + 1) {
                Ok(rest) => {
                    assert(episode_triples(before) + (seq![(t.0@, t.1@, t.2@)] + rest)
                        =~= episode_triples(out@) + rest);
                },
                Err(_) => {},
            }
        }
        k = k + 1;
    }
    assert(episode_triples(out@) + Seq::<(Seq<char>, Seq<char>, Seq<char>)>::empty() =~= episode_triples(out@));
    Ok(out)
}

pub open spec fn entry_views(v: Seq<TocEntry>) -> Seq<TocEntryView> {
    v.map_values(|e: TocEntry| toc_entry_view(e))
}

/// The entries of a work's table of contents, read through the page state.
pub fn toc_entries(state: &Vec<(String, Json)>, work: &Vec<(String, Json)>) -> (res: Result<Vec<TocEntry>, ErrorMessage>)
    ensures
        match as_array(obj_get(work@, "tableOfContents"@)) {
            None => res matches Err(e) && error_is(e, "tableOfContents not found"@, None),
            Some(toc) => match toc_entries_spec(state@, toc, 0) {
                Ok(es) => res matches Ok(v) && entry_views(v@) == es,
                Err(m) => res matches Err(e) && error_is(e, m, None),
            },
        },
{
    let toc = match fields_get(work, "tableOfContents") {
        Some(Json::Array(a)) => a,
        _ => return Err(ErrorMessage::new(String::from_str("tableOfContents not found"))),
    };
    let mut out: Vec<TocEntry> = Vec::new();
    let mut i: usize = 0;
    while i < toc.len()
        invariant
            i <= toc.len(),
            as_array(obj_get(work@, "tableOfContents"@)) == Some(toc@),
            toc_entries_spec(state@, toc@, 0) == (match toc_entries_spec(state@, toc@, i as int) {
                Ok(rest) => Ok(entry_views(out@) + rest),
                Err(e) => Err(e),
            }),
        decreases toc.len() - i,
    {
        let r = match value_get(Some(&toc[i]), "__ref") {
            Some(Json::Str(r)) => r,
            _ => return Err(ErrorMessage::new(String::from_str("tableOfContents ref not found"))),
        };
        let entry = match fields_get(state, r.as_str()) {
            Some(Json::Object(e)) => e,
            _ => return Err(error_with("toc entry not found: ", r)),
        };
        let episodes = match fields_get(entry, "episodeUnions") {
            Some(Json::Array(refs)) => match episodes_of(state, refs) {
                Ok(v) => v,
                Err(e) => return Err(e),
            },
            _ => Vec::new(),
        };
        proof {
            let es = match as_array(obj_get(entry@, "episodeUnions"@)) {
                Some(refs) => entry_episodes(state@, refs, 0),
                None => Ok(Seq::empty()),
            };
            assert(es == Ok::<Seq<(Seq<char>, Seq<char>, Seq<char>)>, Seq<char>>(episode_triples(episodes@))) by {
                if as_array(obj_get(entry@, "episodeUnions"@)) is None {
                    assert(episode_triples(episodes@) =~= Seq::empty());
                }
            }
        }
        let e = TocEntry { chapter: chapter_of(state, entry), episodes };
        assert(toc_entry_view(e).1 =~= episode_triples(e.episodes@));
        let ghost before = out@;
        out.push(e);
        proof {
            assert(entry_views(out@) =~= entry_views(before).push(toc_entry_view(e)));
            match toc_entries_spec(state@, toc@, i + 1) {
                Ok(rest) => {
                    assert(entry_views(before) + (seq![toc_entry_view(e)] + rest)
                        =~= entry_views(out@) + rest);
                },
                Err(_) => {},
            }
        }
        i = i + 1;
    }
    assert(entry_views(out@) + Seq::<TocEntryView>::empty() =~= entry_views(out@));
    Ok(out)
}


/// The page state's `__APOLLO_STATE__` object.
pub open spec fn apollo_state(next_data: Json) -> Option<Seq<(String, Json)>> {
    as_object(json_get(json_get(json_get(Some(next_data), "props"@), "pageProps"@), "__APOLLO_STATE__"@))
}

/// What `fetch_novel` reads from a work page's state, for a work id.
pub open spec fn kakuyomu_novel_is(
    p: ParsedNovel,
    state: Seq<(String, Json)>,
    work: Seq<(String, Json)>,
    author: Seq<char>,
    entries: Seq<TocEntryView>,
    work_id: Seq<char>,
    toc_url: Seq<char>,
) -> bool {
    &&& p.title@ == or_empty_seq(get_string_spec(work, "title"@))
    &&& p.author@ == author
    &&& p.sitename@ == "カクヨム"@
    &&& p.story@ == or_empty_seq(get_string_spec(work, "introduction"@))
    &&& p.toc_url@ == toc_url
    &&& exists|es: Seq<TocEntry>|
        entry_views(es) == entries && #[trigger] entries_from(work_id, es, 0, 0, Seq::empty())
            == subtitle_views(p.episodes@)
    &&& p.novel_type == 1
    &&& p.end == (or_empty_seq(get_string_spec(work, "serialStatus"@)) == "COMPLETED"@)
    &&& p.general_firstup is None
    &&& p.novelupdated_at is None
    &&& p.general_lastup is None
    &&& p.length is None
}

/// The outcome of reading a work from its page state: the first lookup
/// that fails gives the error.
pub open spec fn novel_from_state_result(next_data: Json, toc_url: Seq<char>, res: Result<ParsedNovel, ErrorMessage>) -> bool {
    match work_id_spec(toc_url) {
        Err((m, c)) => res matches Err(e) && error_is(e, m, c),
        Ok(id) => match apollo_state(next_data) {
            None => res matches Err(e) && error_is(e, "__APOLLO_STATE__ not found"@, None),
            Some(state) => match as_object(obj_get(state, "Work:"@ + id)) {
                None => res matches Err(e) && error_is(e, "work data not found: "@ + ("Work:"@ + id), None),
                Some(work) => match author_spec(state, work) {
                    Err(m) => res matches Err(e) && error_is(e, m, None),
                    Ok(author) => match as_array(obj_get(work, "tableOfContents"@)) {
                        None => res matches Err(e) && error_is(e, "tableOfContents not found"@, None),
                        Some(toc) => match toc_entries_spec(state, toc, 0) {
                            Err(m) => res matches Err(e) && error_is(e, m, None),
                            Ok(entries) => res matches Ok(p) && kakuyomu_novel_is(
                                p,
                                state,
                                work,
                                author,
                                entries,
                                id,
                                toc_url,
                            ),
                        },
                    },
                },
            },
        },
    }
}

/// What `fetch_novel` makes of a work page's parsed `__NEXT_DATA__`.
pub fn novel_from_state(next_data: &Json, toc_url: &str) -> (res: Result<ParsedNovel, ErrorMessage>)
    ensures
        novel_from_state_result(*next_data, toc_url@, res),
{
    let work_id = match parse_work_id(toc_url) {
        Ok(id) => id,
        Err(e) => return Err(e),
    };
    let state = match value_get(value_get(value_get(Some(next_data), "props"), "pageProps"), "__APOLLO_STATE__") {
        Some(Json::Object(f)) => f,
        _ => return Err(ErrorMessage::new(String::from_str("__APOLLO_STATE__ not found"))),
    };
    let mut key = String::from_str("Work:");
    key.append(work_id.as_str());
    let work = match fields_get(state, key.as_str()) {
        Some(Json::Object(w)) => w,
        _ => return Err(error_with("work data not found: ", &key)),
    };
    let title = string_or_empty(get_string(work, "title"));
    let author = match extract_author(state, work) {
        Ok(a) => a,
        Err(e) => return Err(e),
    };
    let story = string_or_empty(get_string(work, "introduction"));
    let serial = string_or_empty(get_string(work, "serialStatus"));
    let end = crate::text::str_eq(serial.as_str(), "COMPLETED");
    let entries = match toc_entries(state, work) {
        Ok(v) => v,
        Err(e) => return Err(e),
    };
    let episodes = extract_subtitles(&entries, work_id.as_str());
    let p = ParsedNovel {
        title,
        author,
        sitename: String::from_str("カクヨム"),
        story,
        toc_url: String::from_str(toc_url),
        episodes,
        novel_type: 1,
        end,
        general_firstup: None,
        novelupdated_at: None,
        general_lastup: None,
        length: None,
    };
    assert(entries_from(work_id@, entries@, 0, 0, Seq::empty()) == subtitle_views(p.episodes@));
    Ok(p)
}

/// What an episode page gives: its body, or the error when none is found.
pub fn section_from_page(html: &str, subtitle: &Subtitle) -> (res: Result<Section, ErrorMessage>)
    ensures
        match first_html_spec(html@, ".widget-episodeBody.js-episode-body, .widget-episodeBody"@) {
            None => res matches Err(e) && error_is(e, "body not found"@, None),
            Some(body) => res matches Ok(sec) && {
                &&& sec.chapter@ == subtitle.chapter@
                &&& sec.subchapter@ == subtitle.subchapter@
                &&& sec.subtitle@ == subtitle.subtitle@
                &&& sec.element.data_type@ == "html"@
                &&& sec.element.introduction@.len() == 0
                &&& sec.element.postscript@.len() == 0
                &&& sec.element.body@ == body
            },
        },
{
    let body = match extract_html(html, ".widget-episodeBody.js-episode-body, .widget-episodeBody") {
        Some(b) => b,
        None => return Err(ErrorMessage::new(String::from_str("body not found"))),
    };
    Ok(Section {
        chapter: subtitle.chapter.clone(),
        subchapter: subtitle.subchapter.clone(),
        subtitle: subtitle.subtitle.clone(),
        element: SectionElement {
            data_type: String::from_str("html"),
            introduction: String::new(),
            postscript: String::new(),
            body,
        },
    })
}

} // verus!
