use narou_rust_core::convert::{
    add_half_indent_bracket, auto_indent_lines, convert_body_numbers, convert_numbers,
    convert_year_month_tcy, extract_illustration_markers, insert_separate_space,
    normalize_blank_lines, postprocess_body, postprocess_story, to_zenkaku_ascii, NumberMode,
};
use narou_rust_core::html::html_to_text;

#[test]
fn converts_ruby_to_aozora_style() {
    let input = "<ruby>魔法<rt>まほう</rt></ruby>";
    assert_eq!(html_to_text(input), "｜魔法《まほう》");
}

#[test]
fn converts_decorations_and_images() {
    let input = "<b>太字</b><br><i>斜体</i><br><s>取消</s><br><em class=\"emphasisDots\">傍点</em><br><img src=\"https://example.com/a.png\">";
    assert_eq!(
        html_to_text(input),
        "［＃太字］太字［＃太字終わり］\n［＃斜体］斜体［＃斜体終わり］\n［＃取消線］取消［＃取消線終わり］\n［＃傍点］傍点［＃傍点終わり］\n［＃挿絵（https://example.com/a.png）入る］"
    );
}

#[test]
fn extracts_illustration_markers_from_author_comment() {
    let input = "本文\n［＃挿絵（cover.jpg）入る］\nあとがき";
    let (body, markers) = extract_illustration_markers(input);
    assert_eq!(body, "本文\nあとがき");
    assert_eq!(markers, vec!["［＃挿絵（cover.jpg）入る］"]);
}

#[test]
fn adds_half_indent_to_dialogue_line() {
    assert_eq!(
        add_half_indent_bracket("「こんにちは」\n本文"),
        "［＃二分アキ］「こんにちは」\n本文"
    );
}

#[test]
fn converts_year_month_to_ruby_style() {
    assert_eq!(
        convert_year_month_tcy("2024.11"),
        "２０２４・［＃縦中横］11［＃縦中横終わり］"
    );
}

#[test]
fn converts_two_digit_numbers_to_tcy() {
    assert_eq!(
        convert_numbers("11", NumberMode::Story),
        "［＃縦中横］11［＃縦中横終わり］"
    );
}

#[test]
fn postprocesses_story_notes() {
    let input = "※comicスピラ様にコミカライズしていただきました！2024.11";
    assert_eq!(
        postprocess_story(input),
        "※［＃米印、1-2-8］ｃｏｍｉｃスピラ様にコミカライズしていただきました！　２０２４・［＃縦中横］11［＃縦中横終わり］"
    );
}

#[test]
fn converts_body_numbers_like_ruby() {
    assert_eq!(convert_body_numbers("17歳と2つ上"), "一七歳と二つ上");
    assert_eq!(convert_body_numbers("２つ上"), "二つ上");
}

#[test]
fn converts_ascii_note_to_zenkaku() {
    assert_eq!(to_zenkaku_ascii("comic 2024"), "ｃｏｍｉｃ 2024");
}

#[test]
fn adds_half_indent_in_body_postprocess() {
    assert_eq!(
        postprocess_body("「こんにちは」\n\n本文"),
        "［＃二分アキ］「こんにちは」\n　本文"
    );
}

#[test]
fn auto_indents_narrative_lines() {
    assert_eq!(auto_indent_lines("本文\n［＃二分アキ］「台詞」"), "　本文\n［＃二分アキ］「台詞」");
}

#[test]
fn inserts_space_after_punctuation() {
    assert_eq!(insert_separate_space("えっ！？あ"), "えっ！？　あ");
}

#[test]
fn normalizes_blank_lines_once_for_all() {
    let input = "  \n\nfirst  \r\n\n \n\n  second\t\n\n\n";
    let once = normalize_blank_lines(input);
    assert_eq!(once, "first\n\n  second");
    assert_eq!(normalize_blank_lines(&once), once);
}
