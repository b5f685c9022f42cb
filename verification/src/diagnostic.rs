//! Structured error reports (`error_report:` blocks): a code and a stage
//! classified from the error messages, the context of the command, the
//! causes, and hints for the user.

use vstd::prelude::*;
use crate::text::{
    chars_of, contains_chars, contains_seq, join_lines_with, join_seq, push_all, push_str,
    string_of, views,
};
use crate::convert::string_views;

verus! {

/// The command, target and workspace an error happened in.
#[derive(Debug, Clone, Default)]
pub struct ErrorContext {
    pub command: Option<String>,
    pub target: Option<String>,
    pub workspace: Option<String>,
}


impl ErrorContext {
    /// An empty context.
    pub fn new() -> (res: ErrorContext)
        ensures
            res.command is None,
            res.target is None,
            res.workspace is None,
    {
        ErrorContext { command: None, target: None, workspace: None }
    }

    /// The context with the command set, the rest unchanged.
    pub fn command(self, value: String) -> (res: ErrorContext)
        ensures
            res.command == Some(value),
            res.target == self.target,
            res.workspace == self.workspace,
    {
        ErrorContext { command: Some(value), target: self.target, workspace: self.workspace }
    }

    /// The context with the target set, the rest unchanged.
    pub fn target(self, value: String) -> (res: ErrorContext)
        ensures
            res.target == Some(value),
            res.command == self.command,
            res.workspace == self.workspace,
    {
        ErrorContext { command: self.command, target: Some(value), workspace: self.workspace }
    }

    /// The context with the workspace set, the rest unchanged.
    pub fn workspace(self, value: String) -> (res: ErrorContext)
        ensures
            res.workspace == Some(value),
            res.command == self.command,
            res.target == self.target,
    {
        ErrorContext { command: self.command, target: self.target, workspace: Some(value) }
    }
}

/// What `str::to_lowercase` returns (Unicode lower-case mapping).
pub uninterp spec fn lowercase_of(s: Seq<char>) -> Seq<char>;

/// `str::to_lowercase`. Claimed: the result is a function of the input
/// alone (Unicode's locale-independent mapping), named above.
#[verifier::external_body]
fn to_lowercase(s: &str) -> (res: String)
    ensures
        res@ == lowercase_of(s@),
{
    s.to_lowercase()
}

/// What `format!("{:?}", s)` gives for a string slice: the quoted, escaped
/// form.
pub uninterp spec fn debug_quoted(s: Seq<char>) -> Seq<char>;

/// `<str as Debug>::fmt` through `format!`. Claimed: the result is a
/// function of the input alone, named above.
#[verifier::external_body]
fn yaml_quote(value: &str) -> (res: String)
    ensures
        res@ == debug_quoted(value@),
{
    format!("{:?}", value)
}

/// The lower-cased causes, each after a line break.
pub open spec fn causes_text(causes: Seq<Seq<char>>) -> Seq<char>
    decreases causes.len(),
{
    if causes.len() == 0 {
        Seq::empty()
    } else {
        causes_text(causes.drop_last()) + seq!['\n'] + lowercase_of(causes.last())
    }
}

/// The text the classification looks at.
pub open spec fn combined_text_spec(primary: Seq<char>, causes: Seq<Seq<char>>) -> Seq<char> {
    lowercase_of(primary) + causes_text(causes)
}

fn combined_text(primary: &str, causes: &Vec<String>) -> (res: Vec<char>)
    ensures
        res@ == combined_text_spec(primary@, string_views(causes@)),
{
    let mut text = chars_of(to_lowercase(primary).as_str());
    let ghost p = text@;
    let mut i: usize = 0;
    while i < causes.len()
        invariant
            i <= causes.len(),
            p == lowercase_of(primary@),
            text@ == p + causes_text(string_views(causes@).take(i as int)),
        decreases causes.len() - i,
    {
        assert(string_views(causes@).take(i + 1).drop_last() =~= string_views(causes@).take(
            i as int,
        ));
        text.push('\n');
        let lower = chars_of(to_lowercase(causes[i].as_str()).as_str());
        push_all(&mut text, &lower);
        i = i + 1;
        assert(text@ =~= p + causes_text(string_views(causes@).take(i as int)));
    }
    assert(string_views(causes@).take(causes.len() as int) =~= string_views(causes@));
    text
}

pub open spec fn has(text: Seq<char>, pat: &str) -> bool {
    contains_seq(text, pat@)
}

fn has_exec(text: &Vec<char>, pat: &str) -> (r: bool)
    ensures
        r == has(text@, pat),
{
    let p = chars_of(pat);
    contains_chars(text, &p)
}

/// The error code for a classified text, first match wins.
pub open spec fn code_of(text: Seq<char>) -> Seq<char> {
    if has(text, "target is empty") {
        "invalid_target.empty"@
    } else if has(text, "unsupported target") {
        "invalid_target.unsupported"@
    } else if has(text, "ncode not found in url") {
        "invalid_target.url_missing_ncode"@
    } else if has(text, "record not found for id target") {
        "database.id_not_found"@
    } else if has(text, "(404)") {
        "http.not_found"@
    } else if has(text, "(503") {
        "http.access_restricted"@
    } else if has(text, "request failed after retries") {
        "http.retry_exhausted"@
    } else if has(text, "body not found") {
        "parse.section_body_missing"@
    } else if has(text, "failed to read") {
        "filesystem.read_failed"@
    } else if has(text, "failed to write") {
        "filesystem.write_failed"@
    } else if has(text, "failed to parse") {
        "serialization.parse_failed"@
    } else {
        "unknown"@
    }
}

fn classify_code(text: &Vec<char>) -> (res: &'static str)
    ensures
        res@ == code_of(text@),
{
    if has_exec(text, "target is empty") {
        "invalid_target.empty"
    } else if has_exec(text, "unsupported target") {
        "invalid_target.unsupported"
    } else if has_exec(text, "ncode not found in url") {
        "invalid_target.url_missing_ncode"
    } else if has_exec(text, "record not found for id target") {
        "database.id_not_found"
    } else if has_exec(text, "(404)") {
        "http.not_found"
    } else if has_exec(text, "(503") {
        "http.access_restricted"
    } else if has_exec(text, "request failed after retries") {
        "http.retry_exhausted"
    } else if has_exec(text, "body not found") {
        "parse.section_body_missing"
    } else if has_exec(text, "failed to read") {
        "filesystem.read_failed"
    } else if has_exec(text, "failed to write") {
        "filesystem.write_failed"
    } else if has_exec(text, "failed to parse") {
        "serialization.parse_failed"
    } else {
        "unknown"
    }
}

/// The stage of the failure, first match wins.
pub open spec fn stage_of(text: Seq<char>) -> Seq<char> {
    if has(text, "target") || has(text, "ncode") {
        "input"@
    } else if has(text, "request failed") || has(text, "(404)") || has(text, "(503") {
        "network"@
    } else if has(text, "body not found") {
        "html_parse"@
    } else if has(text, "failed to read") || has(text, "failed to write") {
        "filesystem"@
    } else if has(text, "failed to parse") {
        "serialization"@
    } else {
        "application"@
    }
}

fn classify_stage(text: &Vec<char>) -> (res: &'static str)
    ensures
        res@ == stage_of(text@),
{
    if has_exec(text, "target") || has_exec(text, "ncode") {
        "input"
    } else if has_exec(text, "request failed") || has_exec(text, "(404)") || has_exec(text, "(503") {
        "network"
    } else if has_exec(text, "body not found") {
        "html_parse"
    } else if has_exec(text, "failed to read") || has_exec(text, "failed to write") {
        "filesystem"
    } else if has_exec(text, "failed to parse") {
        "serialization"
    } else {
        "application"
    }
}

pub open spec fn when(cond: bool, hints: Seq<Seq<char>>) -> Seq<Seq<char>> {
    if cond {
        hints
    } else {
        Seq::empty()
    }
}

/// The hints for a classified text, in order; two general hints when no
/// rule applies.
pub open spec fn hints_of(text: Seq<char>) -> Seq<Seq<char>> {
    let found = when(
        has(text, "target is empty") || has(text, "unsupported target"),
        seq![
            "CLI に渡した target が空でないか、URL / Nコード / ID のいずれかになっているか確認する"@,
        ],
    ) + when(
        has(text, "ncode not found in url"),
        seq![
            "入力URLに n1234ab の形式のNコードが含まれているか確認する"@,
            "短縮URLや作品情報URLではなく作品本文/目次URLを使う"@,
        ],
    ) + when(
        has(text, "record not found for id target"),
        seq!["指定した ID が .narou/database.yaml に存在するか確認する"@],
    ) + when(has(text, "(404)"), seq!["作品が削除・非公開・URL変更されていないか確認する"@])
        + when(
        has(text, "(503"),
        seq![
            "アクセス規制またはメンテナンスの可能性があるので時間を空けて再試行する"@,
            "download.interval と download.wait-steps を大きめに設定する"@,
        ],
    ) + when(
        has(text, "request failed after retries"),
        seq![
            "ネットワーク接続、TLS、対象サイトの応答状況を確認する"@,
            "download.retry-limit と download.retry-wait-seconds を調整する"@,
        ],
    ) + when(
        has(text, "body not found"),
        seq![
            "対象ページのHTML構造が変わっていないか確認する"@,
            "syosetu.rs の本文 selector を実ページHTMLに合わせて更新する"@,
        ],
    ) + when(
        has(text, "failed to read") || has(text, "failed to write"),
        seq!["workspace 配下のファイル/ディレクトリ権限とパスを確認する"@],
    ) + when(
        has(text, "failed to parse"),
        seq!["YAML の内容が壊れていないか、期待する形式か確認する"@],
    );
    if found.len() == 0 {
        seq![
            "summary と causes を見て、失敗が input / network / html_parse / filesystem のどこで起きたか切り分ける"@,
            "再現入力、対象URL、保存先workspace を添えてAIに渡すと修正しやすい"@,
        ]
    } else {
        found
    }
}

fn push_hints(hints: &mut Vec<String>, cond: bool, a: &str, b: Option<&str>)
    ensures
        string_views(final(hints)@) == string_views(old(hints)@) + when(
            cond,
            match b {
                Some(b) => seq![a@, b@],
                None => seq![a@],
            },
        ),
{
    let ghost start = string_views(hints@);
    if cond {
        hints.push(String::from_str(a));
        match b {
            Some(b) => {
                hints.push(String::from_str(b));
            },
            None => {},
        }
    }
    assert(string_views(hints@) =~= start + when(
        cond,
        match b {
            Some(b) => seq![a@, b@],
            None => seq![a@],
        },
    ));
}

fn build_hints(text: &Vec<char>) -> (res: Vec<String>)
    ensures
        string_views(res@) == hints_of(text@),
{
    let mut hints: Vec<String> = Vec::new();
    assert(string_views(hints@) =~= Seq::<Seq<char>>::empty());
    let c1 = has_exec(text, "target is empty") || has_exec(text, "unsupported target");
    push_hints(
        &mut hints,
        c1,
        "CLI に渡した target が空でないか、URL / Nコード / ID のいずれかになっているか確認する",
        None,
    );
    let c2 = has_exec(text, "ncode not found in url");
    push_hints(
        &mut hints,
        c2,
        "入力URLに n1234ab の形式のNコードが含まれているか確認する",
        Some("短縮URLや作品情報URLではなく作品本文/目次URLを使う"),
    );
    let c3 = has_exec(text, "record not found for id target");
    push_hints(&mut hints, c3, "指定した ID が .narou/database.yaml に存在するか確認する", None);
    let c4 = has_exec(text, "(404)");
    push_hints(&mut hints, c4, "作品が削除・非公開・URL変更されていないか確認する", None);
    let c5 = has_exec(text, "(503");
    push_hints(
        &mut hints,
        c5,
        "アクセス規制またはメンテナンスの可能性があるので時間を空けて再試行する",
        Some("download.interval と download.wait-steps を大きめに設定する"),
    );
    let c6 = has_exec(text, "request failed after retries");
    push_hints(
        &mut hints,
        c6,
        "ネットワーク接続、TLS、対象サイトの応答状況を確認する",
        Some("download.retry-limit と download.retry-wait-seconds を調整する"),
    );
    let c7 = has_exec(text, "body not found");
    push_hints(
        &mut hints,
        c7,
        "対象ページのHTML構造が変わっていないか確認する",
        Some("syosetu.rs の本文 selector を実ページHTMLに合わせて更新する"),
    );
    let c8 = has_exec(text, "failed to read") || has_exec(text, "failed to write");
    push_hints(&mut hints, c8, "workspace 配下のファイル/ディレクトリ権限とパスを確認する", None);
    let c9 = has_exec(text, "failed to parse");
    push_hints(&mut hints, c9, "YAML の内容が壊れていないか、期待する形式か確認する", None);
    if hints.len() == 0 {
        hints.push(
            String::from_str(
                "summary と causes を見て、失敗が input / network / html_parse / filesystem のどこで起きたか切り分ける",
            ),
        );
        hints.push(
            String::from_str("再現入力、対象URL、保存先workspace を添えてAIに渡すと修正しやすい"),
        );
        assert(string_views(hints@) =~= seq![
            "summary と causes を見て、失敗が input / network / html_parse / filesystem のどこで起きたか切り分ける"@,
            "再現入力、対象URL、保存先workspace を添えてAIに渡すと修正しやすい"@,
        ]);
    }
    hints
}


pub open spec fn opt_line(label: Seq<char>, value: Option<String>) -> Seq<Seq<char>> {
    match value {
        Some(v) => seq![label + debug_quoted(v@)],
        None => Seq::empty(),
    }
}

/// `    - "item"` lines.
pub open spec fn item_lines(items: Seq<Seq<char>>) -> Seq<Seq<char>> {
    items.map_values(|x: Seq<char>| "    - "@ + debug_quoted(x))
}

/// The lines of an error report.
pub open spec fn report_lines(primary: Seq<char>, causes: Seq<Seq<char>>, ctx: ErrorContext) -> Seq<
    Seq<char>,
> {
    let text = combined_text_spec(primary, causes);
    seq![
        "error_report:"@,
        "  code: "@ + code_of(text),
        "  stage: "@ + stage_of(text),
        "  summary: "@ + debug_quoted(primary),
    ] + opt_line("  command: "@, ctx.command) + opt_line("  target: "@, ctx.target) + opt_line(
        "  workspace: "@,
        ctx.workspace,
    ) + (if causes.len() == 0 {
        seq!["  causes: []"@]
    } else {
        seq!["  causes:"@] + item_lines(causes)
    }) + seq!["  hints:"@] + item_lines(hints_of(text))
}

fn push_chars(lines: &mut Vec<Vec<char>>, v: Vec<char>)
    ensures
        views(final(lines)@) == views(old(lines)@).push(v@),
{
    let ghost w = v@;
    lines.push(v);
    assert(views(lines@) =~= views(old(lines)@).push(w));
}

fn labeled(label: &str, value: &str) -> (res: Vec<char>)
    ensures
        res@ == label@ + value@,
{
    let mut out = chars_of(label);
    push_str(&mut out, value);
    out
}

fn push_opt(lines: &mut Vec<Vec<char>>, label: &str, value: &Option<String>)
    ensures
        views(final(lines)@) == views(old(lines)@) + opt_line(label@, *value),
{
    match value {
        Some(v) => {
            let q = yaml_quote(v.as_str());
            push_chars(lines, labeled(label, q.as_str()));
            assert(views(lines@) =~= views(old(lines)@) + opt_line(label@, *value));
        },
        None => {
            assert(views(lines@) =~= views(old(lines)@) + opt_line(label@, *value));
        },
    }
}

fn push_items(lines: &mut Vec<Vec<char>>, items: &Vec<String>)
    ensures
        views(final(lines)@) == views(old(lines)@) + item_lines(string_views(items@)),
{
    let ghost start = views(lines@);
    let ghost all = item_lines(string_views(items@));
    let mut i: usize = 0;
    while i < items.len()
        invariant
            i <= items.len(),
            all == item_lines(string_views(items@)),
            views(lines@) == start + all.take(i as int),
        decreases items.len() - i,
    {
        let q = yaml_quote(items[i].as_str());
        push_chars(lines, labeled("    - ", q.as_str()));
        assert(all[i as int] == "    - "@ + debug_quoted(items@[i as int]@));
        assert(all.take(i + 1) =~= all.take(i as int).push(all[i as int]));
        i = i + 1;
    }
    assert(all.take(items.len() as int) =~= all);
}

/// The `error_report:` block for an error, given its message, the messages
/// of its causes (outermost first) and the context.
pub fn format_error_report(primary: &str, causes: &Vec<String>, context: &ErrorContext) -> (res:
    String)
    ensures
        res@ == join_seq(report_lines(primary@, string_views(causes@), *context), "\n"@),
{
    let text = combined_text(primary, causes);
    let code = classify_code(&text);
    let stage = classify_stage(&text);
    let hints = build_hints(&text);
    let mut lines: Vec<Vec<char>> = Vec::new();
    push_chars(&mut lines, chars_of("error_report:"));
    push_chars(&mut lines, labeled("  code: ", code));
    push_chars(&mut lines, labeled("  stage: ", stage));
    let q = yaml_quote(primary);
    push_chars(&mut lines, labeled("  summary: ", q.as_str()));
    push_opt(&mut lines, "  command: ", &context.command);
    push_opt(&mut lines, "  target: ", &context.target);
    push_opt(&mut lines, "  workspace: ", &context.workspace);
    let ghost before_causes = views(lines@);
    if causes.len() == 0 {
        push_chars(&mut lines, chars_of("  causes: []"));
    } else {
        push_chars(&mut lines, chars_of("  causes:"));
        push_items(&mut lines, causes);
    }
    push_chars(&mut lines, chars_of("  hints:"));
    push_items(&mut lines, &hints);
    assert(views(lines@) =~= report_lines(primary@, string_views(causes@), *context));
    let nl = chars_of("\n");
    string_of(&join_lines_with(&lines, &nl))
}

} // verus!
