//! Assembly of the Aozora Bunko text of a saved novel: header, synopsis,
//! one block per episode, and the closing note.

use vstd::prelude::*;
use crate::text::{
    chars_of, join_lines_with, join_seq, lines_of, push_all, string_of, trim, trim_chars,
    trim_end, trim_end_chars, views,
};
use crate::convert::{
    body_lines_from, extract_illustration_markers_v, is_illust_marker, marker_lines_from,
    normalize_blank,
    postprocess_body_spec, postprocess_body_v, postprocess_story_spec,
    postprocess_story_v, postprocess_subtitle_spec, postprocess_subtitle_v,
    string_views,
};
use crate::html::{html_to_text_spec, html_to_text_v};
use crate::model::{Section, Toc};

verus! {

pub open spec fn kaipage() -> Seq<char> {
    "［＃改ページ］"@
}

/// The chapter title of an episode, trailing whitespace removed.
pub open spec fn chapter_of(sec: Section) -> Seq<char> {
    trim_end(sec.chapter@)
}

/// The episode opens a new chapter: it has a chapter title different from
/// the last one written.
pub open spec fn opens_chapter(last_chapter: Seq<char>, sec: Section) -> bool {
    chapter_of(sec).len() > 0 && last_chapter != chapter_of(sec)
}

/// The last chapter written once the episode is appended.
pub open spec fn next_chapter(last_chapter: Seq<char>, sec: Section) -> Seq<char> {
    if opens_chapter(last_chapter, sec) {
        chapter_of(sec)
    } else {
        last_chapter
    }
}

pub open spec fn heading_lines(title: Seq<char>, last_chapter: Seq<char>, sec: Section) -> Seq<
    Seq<char>,
> {
    if opens_chapter(last_chapter, sec) {
        seq![
            kaipage(),
            "［＃ページの左右中央］"@,
            "［＃ここから柱］"@ + trim_end(title) + "［＃ここで柱終わり］"@,
            "［＃３字下げ］［＃大見出し］"@ + chapter_of(sec) + "［＃大見出し終わり］"@,
            kaipage(),
        ]
    } else {
        seq![kaipage()]
    }
}

pub open spec fn subchapter_lines(sec: Section) -> Seq<Seq<char>> {
    if trim(sec.subchapter@).len() > 0 {
        seq![
            "［＃１字下げ］［＃１段階大きな文字］"@ + trim(sec.subchapter@)
                + "［＃大きな文字終わり］"@,
        ]
    } else {
        Seq::empty()
    }
}

pub open spec fn subtitle_lines(sec: Section) -> Seq<Seq<char>> {
    seq![
        Seq::empty(),
        "［＃３字下げ］［＃中見出し］"@ + postprocess_subtitle_spec(trim_end(sec.subtitle@))
            + "［＃中見出し終わり］"@,
        Seq::empty(),
        Seq::empty(),
    ]
}

/// An author's note (foreword or afterword) block: the note without its
/// illustration lines between the open and close annotations, then the
/// illustration lines, then a blank line; nothing when the note is blank.
pub open spec fn note_lines(html: Seq<char>, open: Seq<char>, close: Seq<char>) -> Seq<
    Seq<char>,
> {
    let text = postprocess_body_spec(html_to_text_spec(html));
    let body = normalize_blank(join_seq(body_lines_from(lines_of(text), 0), "\n"@));
    let markers = marker_lines_from(lines_of(text), 0);
    if trim(body).len() > 0 {
        seq![open, body, close] + markers + seq![Seq::empty()]
    } else {
        Seq::empty()
    }
}

proof fn lemma_marker_listed(ls: Seq<Seq<char>>, i: int, k: int)
    requires
        0 <= i <= k < ls.len(),
        is_illust_marker(trim(ls[k])),
    ensures
        marker_lines_from(ls, i).contains(trim(ls[k])),
    decreases k - i,
{
    if i < k {
        lemma_marker_listed(ls, i + 1, k);
        let rest = marker_lines_from(ls, i + 1);
        let j = choose|j: int| 0 <= j < rest.len() && rest[j] == trim(ls[k]);
        if is_illust_marker(trim(ls[i])) {
            assert(marker_lines_from(ls, i)[j + 1] == trim(ls[k]));
        } else {
            assert(marker_lines_from(ls, i)[j] == trim(ls[k]));
        }
    } else {
        assert(marker_lines_from(ls, i)[0] == trim(ls[k]));
    }
}

/// No illustration is lost from a foreword or afterword: every line of
/// the converted note that is an illustration marker is written, trimmed,
/// after the note's closing annotation.
pub proof fn lemma_note_keeps_illustrations(html: Seq<char>, open: Seq<char>, close: Seq<char>, k: int)
    requires
        note_lines(html, open, close).len() > 0,
        0 <= k < lines_of(postprocess_body_spec(html_to_text_spec(html))).len(),
        is_illust_marker(trim(lines_of(postprocess_body_spec(html_to_text_spec(html)))[k])),
    ensures
        note_lines(html, open, close)[2] == close,
        exists|j: int|
            2 < j < note_lines(html, open, close).len() && note_lines(html, open, close)[j] == trim(
                lines_of(postprocess_body_spec(html_to_text_spec(html)))[k],
            ),
{
    let ls = lines_of(postprocess_body_spec(html_to_text_spec(html)));
    lemma_marker_listed(ls, 0, k);
    let markers = marker_lines_from(ls, 0);
    let m = choose|m: int| 0 <= m < markers.len() && markers[m] == trim(ls[k]);
    let nl = note_lines(html, open, close);
    assert(nl[3 + m] == trim(ls[k]));
}

pub open spec fn body_part_lines(html: Seq<char>) -> Seq<Seq<char>> {
    let body = postprocess_body_spec(html_to_text_spec(html));
    if trim(body).len() > 0 {
        seq![body, Seq::empty()]
    } else {
        Seq::empty()
    }
}

/// The lines `append_section` adds for one episode.
pub open spec fn section_lines(title: Seq<char>, last_chapter: Seq<char>, sec: Section) -> Seq<
    Seq<char>,
> {
    heading_lines(title, last_chapter, sec) + subchapter_lines(sec) + subtitle_lines(sec)
        + note_lines(sec.element.introduction@, "［＃ここから前書き］"@, "［＃ここで前書き終わり］"@)
        + body_part_lines(sec.element.body@) + note_lines(
        sec.element.postscript@,
        "［＃ここから後書き］"@,
        "［＃ここで後書き終わり］"@,
    )
}

fn push_line(lines: &mut Vec<String>, v: &Vec<char>)
    ensures
        string_views(final(lines)@) == string_views(old(lines)@).push(v@),
{
    lines.push(string_of(v));
    assert(string_views(lines@) =~= string_views(old(lines)@).push(v@));
}

fn push_lit(lines: &mut Vec<String>, s: &str)
    ensures
        string_views(final(lines)@) == string_views(old(lines)@).push(s@),
{
    lines.push(String::from_str(s));
    assert(string_views(lines@) =~= string_views(old(lines)@).push(s@));
}

fn push_empty(lines: &mut Vec<String>)
    ensures
        string_views(final(lines)@) == string_views(old(lines)@).push(Seq::empty()),
{
    lines.push(String::new());
    assert(string_views(lines@) =~= string_views(old(lines)@).push(Seq::empty()));
}

fn concat3(a: &str, b: &Vec<char>, c: &str) -> (res: Vec<char>)
    ensures
        res@ == a@ + b@ + c@,
{
    let mut out = chars_of(a);
    push_all(&mut out, b);
    let tail = chars_of(c);
    push_all(&mut out, &tail);
    out
}

fn push_note(lines: &mut Vec<String>, html: &String, open: &str, close: &str)
    ensures
        string_views(final(lines)@) == string_views(old(lines)@) + note_lines(html@, open@, close@),
{
    let text = postprocess_body_v(&html_to_text_v(&chars_of(html.as_str())));
    let (body, markers) = extract_illustration_markers_v(&text);
    if trim_chars(&body).len() > 0 {
        let ghost before = string_views(lines@);
        push_lit(lines, open);
        push_line(lines, &body);
        push_lit(lines, close);
        let mut k: usize = 0;
        while k < markers.len()
            invariant
                k <= markers.len(),
                string_views(lines@) == before + seq![open@, body@, close@] + views(
                    markers@,
                ).take(k as int),
            decreases markers.len() - k,
        {
            push_line(lines, &markers[k]);
            k = k + 1;
            assert(views(markers@).take(k as int) =~= views(markers@).take(k - 1).push(
                markers@[k - 1]@,
            ));
            assert(string_views(lines@) =~= before + seq![open@, body@, close@] + views(
                markers@,
            ).take(k as int));
        }
        assert(views(markers@).take(markers.len() as int) =~= views(markers@));
        push_empty(lines);
        assert(string_views(lines@) =~= before + (seq![open@, body@, close@] + views(markers@)
            + seq![Seq::<char>::empty()]));
    } else {
        assert(string_views(lines@) =~= string_views(lines@) + Seq::<Seq<char>>::empty());
    }
}

fn push_heading(lines: &mut Vec<String>, title: &str, last_chapter: &mut String, section: &Section)
    ensures
        string_views(final(lines)@) == string_views(old(lines)@) + heading_lines(
            title@,
            old(last_chapter)@,
            *section,
        ),
        final(last_chapter)@ == next_chapter(old(last_chapter)@, *section),
{
    let ghost start = string_views(lines@);
    let chapter = trim_end_chars(&chars_of(section.chapter.as_str()));
    let last = chars_of(last_chapter.as_str());
    let differs = !crate::text::seq_eq(&last, &chapter);
    if chapter.len() > 0 && differs {
        push_lit(lines, "［＃改ページ］");
        push_lit(lines, "［＃ページの左右中央］");
        let t = trim_end_chars(&chars_of(title));
        push_line(lines, &concat3("［＃ここから柱］", &t, "［＃ここで柱終わり］"));
        push_line(lines, &concat3("［＃３字下げ］［＃大見出し］", &chapter, "［＃大見出し終わり］"));
        push_lit(lines, "［＃改ページ］");
        *last_chapter = string_of(&chapter);
    } else {
        push_lit(lines, "［＃改ページ］");
    }
    assert(string_views(lines@) =~= start + heading_lines(title@, old(last_chapter)@, *section));
}

fn push_titles(lines: &mut Vec<String>, section: &Section)
    ensures
        string_views(final(lines)@) == string_views(old(lines)@) + subchapter_lines(*section)
            + subtitle_lines(*section),
{
    let ghost start = string_views(lines@);
    let sub = trim_chars(&chars_of(section.subchapter.as_str()));
    if sub.len() > 0 {
        push_line(
            lines,
            &concat3("［＃１字下げ］［＃１段階大きな文字］", &sub, "［＃大きな文字終わり］"),
        );
    }
    assert(string_views(lines@) =~= start + subchapter_lines(*section));
    let ghost after_sub = string_views(lines@);
    push_empty(lines);
    let st = postprocess_subtitle_v(&trim_end_chars(&chars_of(section.subtitle.as_str())));
    push_line(lines, &concat3("［＃３字下げ］［＃中見出し］", &st, "［＃中見出し終わり］"));
    push_empty(lines);
    push_empty(lines);
    assert(string_views(lines@) =~= after_sub + subtitle_lines(*section));
}

fn push_body(lines: &mut Vec<String>, html: &String)
    ensures
        string_views(final(lines)@) == string_views(old(lines)@) + body_part_lines(html@),
{
    let ghost start = string_views(lines@);
    let body = postprocess_body_v(&html_to_text_v(&chars_of(html.as_str())));
    if trim_chars(&body).len() > 0 {
        push_line(lines, &body);
        push_empty(lines);
    }
    assert(string_views(lines@) =~= start + body_part_lines(html@));
}

/// Appends the Aozora lines of one episode: a page break (with a chapter
/// title page when the episode opens a new chapter), the subchapter and
/// episode headings, foreword, body and afterword.
pub fn append_section(
    lines: &mut Vec<String>,
    title: &str,
    last_chapter: &mut String,
    section: &Section,
)
    ensures
        string_views(final(lines)@) == string_views(old(lines)@) + section_lines(
            title@,
            old(last_chapter)@,
            *section,
        ),
        final(last_chapter)@ == next_chapter(old(last_chapter)@, *section),
{
    let ghost start = string_views(lines@);
    push_heading(lines, title, last_chapter, section);
    let ghost a = string_views(lines@);
    push_titles(lines, section);
    let ghost b = string_views(lines@);
    push_note(lines, &section.element.introduction, "［＃ここから前書き］", "［＃ここで前書き終わり］");
    let ghost c = string_views(lines@);
    push_body(lines, &section.element.body);
    let ghost d = string_views(lines@);
    push_note(lines, &section.element.postscript, "［＃ここから後書き］", "［＃ここで後書き終わり］");
    let ghost e = string_views(lines@);
    let ghost h = heading_lines(title@, old(last_chapter)@, *section);
    let ghost t = subchapter_lines(*section) + subtitle_lines(*section);
    let ghost n1 = note_lines(
        section.element.introduction@,
        "［＃ここから前書き］"@,
        "［＃ここで前書き終わり］"@,
    );
    let ghost bd = body_part_lines(section.element.body@);
    let ghost n2 = note_lines(
        section.element.postscript@,
        "［＃ここから後書き］"@,
        "［＃ここで後書き終わり］"@,
    );
    assert(e == start + h + t + n1 + bd + n2);
    assert(section_lines(title@, old(last_chapter)@, *section) == h + t + n1 + bd + n2) by {
        assert(subchapter_lines(*section) + subtitle_lines(*section) == t);
    }
    assert(start + h + t + n1 + bd + n2 =~= start + (h + t + n1 + bd + n2));
}


/// The illustration note of the first cover image present, trying
/// `cover.jpg`, `cover.png` and `cover.jpeg` in that order.
pub open spec fn cover_chuki_spec(jpg: bool, png: bool, jpeg: bool) -> Option<Seq<char>> {
    if jpg {
        Some("［＃挿絵（cover.jpg）入る］"@)
    } else if png {
        Some("［＃挿絵（cover.png）入る］"@)
    } else if jpeg {
        Some("［＃挿絵（cover.jpeg）入る］"@)
    } else {
        None
    }
}

/// The cover illustration note, given which cover files the novel's
/// folder holds.
pub fn create_cover_chuki(jpg: bool, png: bool, jpeg: bool) -> (res: Option<String>)
    ensures
        match res {
            Some(s) => cover_chuki_spec(jpg, png, jpeg) == Some(s@),
            None => cover_chuki_spec(jpg, png, jpeg) is None,
        },
{
    if jpg {
        Some(String::from_str("［＃挿絵（cover.jpg）入る］"))
    } else if png {
        Some(String::from_str("［＃挿絵（cover.png）入る］"))
    } else if jpeg {
        Some(String::from_str("［＃挿絵（cover.jpeg）入る］"))
    } else {
        None
    }
}

pub open spec fn story_lines(story_html: Seq<char>) -> Seq<Seq<char>> {
    let st = postprocess_story_spec(html_to_text_spec(story_html));
    if trim(st).len() > 0 {
        seq!["あらすじ："@, st, Seq::empty()]
    } else {
        Seq::empty()
    }
}

pub open spec fn header_lines(toc: Toc, cover: Option<Seq<char>>) -> Seq<Seq<char>> {
    seq![trim_end(toc.title@), toc.author@, Seq::empty()] + (match cover {
        Some(c) => seq![c],
        None => Seq::empty(),
    }) + seq!["［＃区切り線］"@] + story_lines(toc.story@) + seq![
        "掲載ページ:"@,
        "<a href=\""@ + toc.toc_url@ + "\">"@ + toc.toc_url@ + "</a>"@,
        "［＃区切り線］"@,
        Seq::empty(),
    ]
}

/// The lines of the episodes from `i` on, `last` being the last chapter
/// written before episode `i`.
pub open spec fn sections_lines_from(
    title: Seq<char>,
    secs: Seq<Section>,
    i: int,
    last: Seq<char>,
) -> Seq<Seq<char>>
    decreases secs.len() - i,
{
    if i < 0 || i >= secs.len() {
        Seq::empty()
    } else {
        section_lines(title, last, secs[i]) + sections_lines_from(
            title,
            secs,
            i + 1,
            next_chapter(last, secs[i]),
        )
    }
}

pub open spec fn closing_line() -> Seq<char> {
    "［＃ここから地付き］［＃小書き］（本を読み終わりました）［＃小書き終わり］［＃ここで地付き終わり］"@
}

/// The whole Aozora text of a novel.
pub open spec fn aozora_text_spec(toc: Toc, secs: Seq<Section>, cover: Option<Seq<char>>) -> Seq<
    char,
> {
    join_seq(
        header_lines(toc, cover) + sections_lines_from(toc.title@, secs, 0, Seq::empty())
            + seq![Seq::empty(), closing_line()],
        "\n"@,
    )
}

fn push_header(lines: &mut Vec<String>, toc: &Toc, cover: &Option<String>)
    ensures
        string_views(final(lines)@) == string_views(old(lines)@) + header_lines(
            *toc,
            match cover {
                Some(c) => Some(c@),
                None => None,
            },
        ),
{
    let ghost start = string_views(lines@);
    push_line(lines, &trim_end_chars(&chars_of(toc.title.as_str())));
    push_line(lines, &chars_of(toc.author.as_str()));
    push_empty(lines);
    match cover {
        Some(c) => push_line(lines, &chars_of(c.as_str())),
        None => {},
    }
    push_lit(lines, "［＃区切り線］");
    let ghost mid = string_views(lines@);
    let story = postprocess_story_v(&html_to_text_v(&chars_of(toc.story.as_str())));
    if trim_chars(&story).len() > 0 {
        push_lit(lines, "あらすじ：");
        push_line(lines, &story);
        push_empty(lines);
    }
    assert(string_views(lines@) =~= mid + story_lines(toc.story@));
    push_lit(lines, "掲載ページ:");
    let url = chars_of(toc.toc_url.as_str());
    let mut link = concat3("<a href=\"", &url, "\">");
    push_all(&mut link, &url);
    let close = chars_of("</a>");
    push_all(&mut link, &close);
    push_line(lines, &link);
    push_lit(lines, "［＃区切り線］");
    push_empty(lines);
    assert(string_views(lines@) =~= start + header_lines(
        *toc,
        match cover {
            Some(c) => Some(c@),
            None => None,
        },
    ));
}

fn string_to_vec(s: &String) -> (res: Vec<char>)
    ensures
        res@ == s@,
{
    chars_of(s.as_str())
}

/// The Aozora text of a novel from its table of contents, its saved
/// episodes in order, and the cover note if any.
pub fn build_aozora_text(toc: &Toc, sections: &Vec<Section>, cover_chuki: Option<String>) -> (res:
    String)
    ensures
        res@ == aozora_text_spec(
            *toc,
            sections@,
            match cover_chuki {
                Some(c) => Some(c@),
                None => None,
            },
        ),
{
    let mut lines: Vec<String> = Vec::new();
    push_header(&mut lines, toc, &cover_chuki);
    let ghost after_header = string_views(lines@);
    let mut last_chapter = String::new();
    let mut i: usize = 0;
    while i < sections.len()
        invariant
            i <= sections.len(),
            after_header + sections_lines_from(toc.title@, sections@, 0, Seq::empty())
                == string_views(lines@) + sections_lines_from(
                toc.title@,
                sections@,
                i as int,
                last_chapter@,
            ),
        decreases sections.len() - i,
    {
        let ghost before = string_views(lines@);
        let ghost last = last_chapter@;
        append_section(&mut lines, toc.title.as_str(), &mut last_chapter, &sections[i]);
        assert(before + (section_lines(toc.title@, last, sections@[i as int])
            + sections_lines_from(toc.title@, sections@, i + 1, last_chapter@)) =~= string_views(
            lines@,
        ) + sections_lines_from(toc.title@, sections@, i + 1, last_chapter@));
        i = i + 1;
    }
    assert(string_views(lines@) + sections_lines_from(
        toc.title@,
        sections@,
        i as int,
        last_chapter@,
    ) =~= string_views(lines@));
    let ghost body = string_views(lines@);
    push_empty(&mut lines);
    push_lit(&mut lines, "［＃ここから地付き］［＃小書き］（本を読み終わりました）［＃小書き終わり］［＃ここで地付き終わり］");
    assert(string_views(lines@) =~= after_header + sections_lines_from(toc.title@, sections@, 0, Seq::empty()) + seq![Seq::<char>::empty(), closing_line()]);
    let mut vlines: Vec<Vec<char>> = Vec::new();
    let mut k: usize = 0;
    while k < lines.len()
        invariant
            k <= lines.len(),
            views(vlines@) == string_views(lines@).take(k as int),
        decreases lines.len() - k,
    {
        let ghost b = views(vlines@);
        vlines.push(string_to_vec(&lines[k]));
        assert(views(vlines@) =~= b.push(lines@[k as int]@));
        assert(string_views(lines@).take(k + 1) =~= string_views(lines@).take(k as int).push(
            lines@[k as int]@,
        ));
        k = k + 1;
    }
    assert(string_views(lines@).take(lines.len() as int) =~= string_views(lines@));
    let nl = chars_of("\n");
    string_of(&join_lines_with(&vlines, &nl))
}

} // verus!
