use narou_rust_core::kakuyomu::{novel_from_state, parse_work_id, section_from_page as kakuyomu_section, Json};
use narou_rust_core::model::{DownloadTarget, ResolvedNovel, Subtitle};
use narou_rust_core::pages::{
    extract_info_map, extract_main_body_html, next_toc_page, novel_from_pages, page_title,
    parse_toc_page, section_from_page,
};
use narou_rust_core::syosetu::{
    normalize_site_name, parse_supported_base_url, resolve_target, sanitize_filename,
};

#[test]
fn parses_work_url() {
    let id = parse_work_id("https://kakuyomu.jp/works/4852201425154905871").unwrap();
    assert_eq!(id, "4852201425154905871");
}

#[test]
fn parses_episode_url() {
    let id = parse_work_id(
        "https://kakuyomu.jp/works/4852201425154905871/episodes/4852201425154905928",
    )
    .unwrap();
    assert_eq!(id, "4852201425154905871");
}

#[test]
fn resolves_supported_r18_host() {
    let base_url = parse_supported_base_url("https://novel18.syosetu.com/n1610bw/").unwrap();
    assert_eq!(base_url, "https://novel18.syosetu.com");
}

#[test]
fn strips_audience_suffix_from_site_name() {
    assert_eq!(normalize_site_name("ムーンライトノベルズ(女性向け)"), "ムーンライトノベルズ");
}

#[test]
fn rejects_unsupported_syosetu_host() {
    let err = parse_supported_base_url("https://example.com/n1610bw/").unwrap_err();
    assert_eq!(err.message, "unsupported syosetu host: example.com");
}

#[test]
fn rejects_other_kakuyomu_host() {
    let err = parse_work_id("https://example.com/works/1").unwrap_err();
    assert_eq!(err.message, "unsupported kakuyomu host");
}

#[test]
fn sanitizes_file_names() {
    assert_eq!(sanitize_filename("  a<b>c:d  \"e\"/f\\g|h?i*j  "), "a b c d e f g h i j");
    assert_eq!(sanitize_filename("第1話　始まり"), "第1話 始まり");
}

const TOC_PAGE: &str = r#"<html><head><title>t</title></head><body>
<h1 class="p-novel__title">  作品タイトル  </h1>
<div class="p-eplist">
<div class="p-eplist__chapter-title">第一章</div>
<div class="p-eplist__sublist"><a href="/n1234ab/1/" class="p-eplist__subtitle"> 一話 </a>
<div class="p-eplist__update"> 2024/01/02 03:04 <span title="2024/02/03 04:05 改稿">（改）</span></div></div>
<div class="p-eplist__sublist"><a href="/n1234ab/2/" class="p-eplist__subtitle">二話?</a>
<div class="p-eplist__update">2024/01/03 03:04</div></div>
<div class="p-eplist__chapter-title">第二章</div>
<div class="p-eplist__sublist"><a href="/n1234ab/3/" class="p-eplist__subtitle">三話</a>
<div class="p-eplist__update">2024/01/04 03:04</div></div>
</div>
<a class="c-pager__item--next" href="/n1234ab/?p=2">次へ</a>
</body></html>"#;

#[test]
fn reads_episode_list_of_toc_page() {
    let eps = parse_toc_page(TOC_PAGE);
    assert_eq!(eps.len(), 3);
    assert_eq!(eps[0].index, "1");
    assert_eq!(eps[0].href, "/n1234ab/1/");
    assert_eq!(eps[0].chapter, "第一章");
    assert_eq!(eps[0].subtitle, "一話");
    assert_eq!(eps[0].subdate, "2024/01/02 03:04");
    assert_eq!(eps[0].subupdate, Some(String::from("2024/02/03 04:05")));
    assert_eq!(eps[1].chapter, "");
    assert_eq!(eps[1].file_subtitle, "二話");
    assert_eq!(eps[1].subupdate, None);
    assert_eq!(eps[2].index, "3");
    assert_eq!(eps[2].chapter, "第二章");
}

#[test]
fn reads_title_and_next_page() {
    assert_eq!(page_title(TOC_PAGE), "作品タイトル");
    assert_eq!(
        next_toc_page(TOC_PAGE, "https://ncode.syosetu.com"),
        Some(String::from("https://ncode.syosetu.com/n1234ab/?p=2"))
    );
    assert_eq!(next_toc_page("<p>none</p>", "https://ncode.syosetu.com"), None);
}

const INFO_PAGE: &str = r#"<html><head><meta property="og:site_name" content=" 小説家になろう "></head><body>
<div class="p-infotop-data__table">
<dl><dt class="p-infotop-data__title">作者名</dt><dd class="p-infotop-data__value"><a class="p-infotop-author__link">作者A</a></dd></dl>
<dl><dt class="p-infotop-data__title">掲載日</dt><dd class="p-infotop-data__value"> 2023年 01月02日 03時04分 </dd></dl>
<dl><dt class="p-infotop-data__title">文字数</dt><dd class="p-infotop-data__value">12,345文字</dd></dl>
<dl><dt class="p-infotop-data__title">掲載サイト</dt><dd class="p-infotop-data__value">ムーンライトノベルズ(女性向け)</dd></dl>
</div>
<span class="p-infotop-type__type">連載中</span>
</body></html>"#;

#[test]
fn reads_information_table() {
    let info = extract_info_map(INFO_PAGE);
    assert_eq!(info.len(), 4);
    assert_eq!(info[0], (String::from("作者名"), String::from("作者A")));
    assert_eq!(info[1], (String::from("掲載日"), String::from("2023年 01月02日 03時04分")));
}

#[test]
fn reads_information_list_of_older_pages() {
    let html = r#"<dl class="p-infotop-data"><dt> 掲載日 </dt><dd> 2020年 </dd><dt></dt><dd>x</dd><dd>y</dd></dl>"#;
    let info = extract_info_map(html);
    assert_eq!(info, vec![(String::from("掲載日"), String::from("2020年"))]);
}

#[test]
fn builds_novel_from_information_page() {
    let resolved = ResolvedNovel {
        toc_url: String::from("https://noc.syosetu.com/n1234ab/"),
        info_url: String::from("https://noc.syosetu.com/novelview/infotop/ncode/n1234ab/"),
        base_url: String::from("https://noc.syosetu.com"),
    };
    let novel = novel_from_pages(String::from("題"), Vec::new(), INFO_PAGE, &resolved);
    assert_eq!(novel.author, "作者A");
    assert_eq!(novel.sitename, "ムーンライトノベルズ");
    assert_eq!(novel.novel_type, 1);
    assert!(!novel.end);
    assert_eq!(novel.length, None);
    assert_eq!(novel.general_firstup, Some(String::from("2023年 01月02日 03時04分")));
    assert_eq!(novel.toc_url, "https://noc.syosetu.com/n1234ab/");
}

fn subtitle(index: &str) -> Subtitle {
    Subtitle {
        index: String::from(index),
        href: format!("/n1234ab/{index}/"),
        chapter: String::from("章"),
        subchapter: String::new(),
        subtitle: String::from("話"),
        file_subtitle: String::from("話"),
        subdate: String::from("2024/01/01 00:00"),
        subupdate: None,
    }
}

#[test]
fn reads_parts_of_episode_page() {
    let html = r#"<div class="js-novel-text p-novel__text p-novel__text--preface"><p>前書き</p></div>
<div class="js-novel-text p-novel__text"> <p>本文</p> </div>
<div class="js-novel-text p-novel__text p-novel__text--afterword"><p>後書き</p></div>"#;
    assert_eq!(extract_main_body_html(html), Some(String::from("<p>本文</p>")));
    let section = section_from_page(html, &subtitle("1")).unwrap();
    assert_eq!(section.element.introduction, "<p>前書き</p>");
    assert_eq!(section.element.postscript, "<p>後書き</p>");
    assert_eq!(section.element.body, "<p>本文</p>");
    assert_eq!(section.element.data_type, "html");
    assert_eq!(section.chapter, "章");
    let err = section_from_page("<p>nothing</p>", &subtitle("1")).unwrap_err();
    assert_eq!(err.message, "body not found");
}

#[test]
fn reads_kakuyomu_episode_body() {
    let html = r#"<div class="widget-episodeBody js-episode-body"><p>本文</p></div>"#;
    let section = kakuyomu_section(html, &subtitle("2")).unwrap();
    assert_eq!(section.element.body, "<p>本文</p>");
    assert_eq!(section.element.introduction, "");
    assert!(kakuyomu_section("<p>x</p>", &subtitle("2")).is_err());
}

fn s(v: &str) -> Json {
    Json::Str(String::from(v))
}

fn obj(fields: Vec<(&str, Json)>) -> Json {
    Json::Object(fields.into_iter().map(|(k, v)| (String::from(k), v)).collect())
}

fn reference(r: &str) -> Json {
    obj(vec![("__ref", s(r))])
}

fn next_data(state: Json) -> Json {
    obj(vec![("props", obj(vec![("pageProps", obj(vec![("__APOLLO_STATE__", state)]))]))])
}

#[test]
fn reads_kakuyomu_work_state() {
    let state = obj(vec![
        (
            "Work:100",
            obj(vec![
                ("title", s("作品")),
                ("introduction", s("紹介")),
                ("serialStatus", s("COMPLETED")),
                ("author", reference("UserAccount:1")),
                ("alternateAuthorName", s("別名")),
                ("tableOfContents", Json::Array(vec![reference("TOC:1"), reference("TOC:2")])),
            ]),
        ),
        ("UserAccount:1", obj(vec![("activityName", s("作者"))])),
        (
            "TOC:1",
            obj(vec![
                ("chapter", reference("Chapter:1")),
                ("episodeUnions", Json::Array(vec![reference("Episode:1"), reference("Episode:2")])),
            ]),
        ),
        (
            "TOC:2",
            obj(vec![
                ("chapter", reference("Chapter:2")),
                ("episodeUnions", Json::Array(vec![reference("Episode:3")])),
            ]),
        ),
        ("Chapter:1", obj(vec![("title", s("第一章")), ("level", Json::Number(Some(1)))])),
        ("Chapter:2", obj(vec![("title", s("節")), ("level", Json::Number(Some(2)))])),
        ("Episode:1", obj(vec![("id", s("1")), ("title", s("一話")), ("publishedAt", s("2024-01-01"))])),
        ("Episode:2", obj(vec![("id", s("2")), ("title", s("二話")), ("publishedAt", s("2024-01-02"))])),
        ("Episode:3", obj(vec![("id", s("3")), ("title", s("三話")), ("publishedAt", s("2024-01-03"))])),
    ]);
    let novel = novel_from_state(&next_data(state), "https://kakuyomu.jp/works/100").unwrap();
    assert_eq!(novel.title, "作品");
    assert_eq!(novel.author, "別名／作者");
    assert_eq!(novel.sitename, "カクヨム");
    assert!(novel.end);
    assert_eq!(novel.episodes.len(), 3);
    assert_eq!(novel.episodes[0].chapter, "第一章");
    assert_eq!(novel.episodes[0].href, "/works/100/episodes/1");
    assert_eq!(novel.episodes[1].chapter, "");
    assert_eq!(novel.episodes[2].chapter, "");
    assert_eq!(novel.episodes[2].subchapter, "節");
    assert_eq!(novel.episodes[2].subupdate, Some(String::from("2024-01-03")));
}

#[test]
fn reports_missing_kakuyomu_state() {
    let err = novel_from_state(&obj(vec![]), "https://kakuyomu.jp/works/100").unwrap_err();
    assert_eq!(err.message, "__APOLLO_STATE__ not found");
    let state = obj(vec![("Work:100", obj(vec![("author", reference("U:1"))]))]);
    let err = novel_from_state(&next_data(state), "https://kakuyomu.jp/works/100").unwrap_err();
    assert_eq!(err.message, "author data not found");
    let err = novel_from_state(&next_data(obj(vec![])), "https://kakuyomu.jp/works/100").unwrap_err();
    assert_eq!(err.message, "work data not found: Work:100");
}

#[test]
fn resolves_syosetu_targets() {
    let r = resolve_target(&DownloadTarget::Url(String::from("https://novel18.syosetu.com/N1610BW/"))).unwrap();
    assert_eq!(r.toc_url, "https://novel18.syosetu.com/n1610bw/");
    assert_eq!(r.info_url, "https://novel18.syosetu.com/novelview/infotop/ncode/n1610bw/");
    assert_eq!(r.base_url, "https://novel18.syosetu.com");
    let n = resolve_target(&DownloadTarget::Ncode(String::from("n2839il"))).unwrap();
    assert_eq!(n.toc_url, "https://ncode.syosetu.com/n2839il/");
    let err = resolve_target(&DownloadTarget::Url(String::from("https://ncode.syosetu.com/invalid/"))).unwrap_err();
    assert_eq!(err.message, "ncode not found in url: https://ncode.syosetu.com/invalid/");
    assert!(resolve_target(&DownloadTarget::Id(1)).is_err());
}

#[test]
fn lists_episodes_in_tree_order_on_misnested_pages() {
    let page = "<html><body><table><tr><td><div class=\"p-eplist__sublist\"><a class=\"p-eplist__subtitle\" href=\"/n1ab/2/\">二</a></div></td></tr><div class=\"p-eplist__sublist\"><a class=\"p-eplist__subtitle\" href=\"/n1ab/1/\">一</a></div></table></body></html>";
    let eps = parse_toc_page(page);
    assert_eq!(eps.len(), 2);
    assert_eq!(eps[0].index, "1");
    assert_eq!(eps[1].index, "2");
}
