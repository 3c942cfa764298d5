use yomiage::filter::{
    filter, is_admitted, legacy_command_compatibility, legacy_ping_command_compatibility, normalize,
    replace_codeblock, replace_emoji, replace_external_emoji, replace_uri, suppress_by_semicolon,
    suppress_whitespaces, ChatMessage,
};
use yomiage::mention::{mentions_resolvable, MentionContext, Named};

#[test]
fn replace_rule_unit_test() {
    assert_eq!(legacy_command_compatibility("~join"), None);
    assert_eq!(legacy_command_compatibility("hello"), Some("hello"));

    assert_eq!(legacy_ping_command_compatibility("ping"), None);
    assert_eq!(legacy_ping_command_compatibility("hello"), Some("hello"));

    assert_eq!(suppress_by_semicolon("hello"), Some("hello"));
    assert_eq!(suppress_by_semicolon(";hello"), None);
    assert_eq!(suppress_by_semicolon(";;hello"), Some(";;hello"));

    assert_eq!(replace_uri("hello"), "hello");
    assert_eq!(replace_uri("ms-settings:privacy-microphone"), "。URI省略。");
    assert_eq!(
        replace_uri("some.strange-protocol+ver2:pathpathpath"),
        "。URI省略。"
    );
    assert_eq!(
        replace_uri("20:40に秋葉原にて待つ"),
        "20:40に秋葉原にて待つ"
    );
    assert_eq!(replace_uri("abc,def://nyan.com:22/mofu"), "abc,。URI省略。");
    assert_eq!(
        replace_uri("そこから ms-settings:privacy-microphone を開いて"),
        "そこから 。URI省略。 を開いて"
    );
    assert_eq!(
        replace_uri("そこから http://metaba.su を開いて"),
        "そこから 。URI省略。 を開いて"
    );

    assert_eq!(replace_emoji("hello!"), "hello!");
    assert_eq!(replace_emoji("hello:emoji:!"), "hello!");
    assert_eq!(
        replace_external_emoji("hello<:emoji:012345678901234567>!"),
        "hello!"
    );

    assert_eq!(
        replace_codeblock("Codeblock ```Inline``` !"),
        "Codeblock 。コード省略。 !"
    );
    assert_eq!(
        replace_codeblock("Codeblock\n```\nMultiline\n```\n!"),
        "Codeblock\n。コード省略。\n!"
    );
}

fn norm(s: &str) -> Option<String> {
    normalize(s)
}

#[test]
fn single_semicolon_halts() {
    assert_eq!(norm(";hello"), None);
    assert_eq!(norm(";"), None);
    assert_eq!(norm("; x"), None);
}

#[test]
fn doubled_semicolon_keeps_whole_text() {
    assert_eq!(norm(";;hello"), Some(";;hello".to_string()));
    assert_eq!(norm(";;see http://a.b"), Some(";;see 。URI省略。".to_string()));
}

#[test]
fn legacy_keyword_halts_only_when_exact() {
    assert_eq!(norm("ping"), None);
    assert_eq!(norm("ping "), Some("ping ".to_string()));
    assert_eq!(norm("pingpong"), Some("pingpong".to_string()));
    assert_eq!(norm("Ping"), Some("Ping".to_string()));
}

#[test]
fn legacy_prefix_halts() {
    assert_eq!(norm("~join"), None);
    assert_eq!(norm("a~join"), Some("a~join".to_string()));
}

#[test]
fn uri_scenarios() {
    assert_eq!(norm("ms-settings:privacy-microphone"), Some("。URI省略。".to_string()));
    assert_eq!(
        norm("20:40に秋葉原にて待つ"),
        Some("20:40に秋葉原にて待つ".to_string())
    );
    assert_eq!(replace_uri("a: b"), "a: b");
    assert_eq!(replace_uri("x:y\tz:w"), "。URI省略。\t。URI省略。");
    assert_eq!(replace_uri("1a:b"), "1。URI省略。");
}

#[test]
fn uri_then_short_emoji_order() {
    assert_eq!(norm("see protocol:host:23 now"), Some("see 。URI省略。 now".to_string()));
}

#[test]
fn external_emoji_removed_before_uri() {
    assert_eq!(replace_external_emoji("<a:crime:1238318711>"), "");
    assert_eq!(replace_uri(&replace_external_emoji("<a:crime:1238318711>")), "");
    assert_eq!(norm("<a:crime:1238318711>"), None);
    assert_eq!(norm("hi <a:crime:1238318711>!"), Some("hi !".to_string()));
    assert_eq!(replace_external_emoji("<b:crime:12>"), "<b:crime:12>");
    assert_eq!(replace_external_emoji("<a:crime:>"), "<a:crime:>");
    assert_eq!(replace_external_emoji("<:x:1>"), "");
    assert_eq!(replace_external_emoji("<:x:\u{661}>"), "");
    assert_eq!(replace_external_emoji("a<a:y:\u{967}2>b"), "ab");
    assert_eq!(replace_external_emoji("<:x:\u{2460}>"), "<:x:\u{2460}>");
}

#[test]
fn code_block_scenarios() {
    assert_eq!(
        norm("before\n```rust\nfn main() {}\n```\nafter"),
        Some("before\n。コード省略。\nafter".to_string())
    );
    assert_eq!(replace_codeblock("``````"), "``````");
    assert_eq!(replace_codeblock("```a```"), "。コード省略。");
    assert_eq!(replace_codeblock("x```a``` y ```b``` z"), "x。コード省略。 z");
    assert_eq!(replace_codeblock("```a"), "```a");
}

#[test]
fn short_emoji_scenarios() {
    assert_eq!(replace_emoji(":絵文字:"), "");
    assert_eq!(replace_emoji("a:b:c:"), "ac:");
    assert_eq!(replace_emoji("::"), "::");
    assert_eq!(replace_emoji(":a b:"), ":a b:");
}

#[test]
fn blank_text_halts() {
    assert_eq!(suppress_whitespaces(" \n\t\u{3000}"), None);
    assert_eq!(suppress_whitespaces(""), None);
    assert_eq!(suppress_whitespaces(" a "), Some(" a "));
    assert_eq!(norm(":smile:"), None);
    assert_eq!(norm(" "), None);
}

fn named(id: u64, name: &str) -> Named {
    Named { id, name: name.to_string() }
}

fn empty_ctx() -> MentionContext {
    MentionContext { users: vec![], roles: vec![], channels: vec![] }
}

fn msg(channel_id: u64, bot: bool, content: &str) -> ChatMessage {
    ChatMessage { channel_id, author_is_bot: bot, content: content.to_string() }
}

#[test]
fn filter_gates_on_channel_and_sender() {
    let ctx = empty_ctx();
    assert_eq!(filter(&msg(5, false, "hello"), Some(5), &ctx), Some("hello".to_string()));
    assert_eq!(filter(&msg(5, false, "hello"), Some(6), &ctx), None);
    assert_eq!(filter(&msg(5, false, "hello"), None, &ctx), None);
    assert_eq!(filter(&msg(5, true, "hello"), Some(5), &ctx), None);
    assert_eq!(filter(&msg(5, false, ";hello"), Some(5), &ctx), None);
    assert!(is_admitted(&msg(5, false, "x"), Some(5)));
    assert!(!is_admitted(&msg(5, true, "x"), Some(5)));
    assert!(!is_admitted(&msg(5, false, "x"), Some(4)));
}

#[test]
fn filter_resolves_mentions() {
    let ctx = MentionContext {
        users: vec![named(42, "alice")],
        roles: vec![named(7, "mods")],
        channels: vec![named(900, "general")],
    };
    assert_eq!(
        filter(&msg(1, false, "<@42> <@&7> in <#900>"), Some(1), &ctx),
        Some("。宛、alice。 。宛、mods。 in 。宛、general。".to_string())
    );
    assert!(mentions_resolvable("see <#900>", &ctx));
    assert!(!mentions_resolvable("see <#901>", &ctx));
    assert_eq!(filter(&msg(1, false, "see <#901>"), Some(2), &ctx), None);
}
