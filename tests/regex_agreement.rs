use regex::Regex;
use yomiage::filter::{replace_codeblock, replace_emoji, replace_external_emoji, replace_uri};

const SAMPLES: &[&str] = &[
    "",
    "hello",
    "ms-settings:privacy-microphone",
    "abc,def://nyan.com:22/mofu",
    "20:40に秋葉原にて待つ",
    "a:b c:d:e f: g",
    "x<a:crime:1238318711>y<:ok:1> <a:bad:> <a:no:12",
    ":smile: :_: :ü: :: :a b: :日本:",
    "z+.-9:Ω\u{3000}next:one",
    "```a``` ```b``` ````",
    "pre\n```\nmid\n```\npost",
    "``` ```",
    "\u{A0}u:v\u{2003}w:x",
    "<:x:\u{661}> <a:y:\u{967}\u{968}3> <:z:\u{FF11}> :n\u{661}: <:q:\u{2460}>",
];

#[test]
fn uri_agrees_with_regex() {
    let re = Regex::new(r"[A-Za-z][A-Za-z0-9+\-.]*:\S+").unwrap();
    for s in SAMPLES {
        assert_eq!(replace_uri(s), re.replace_all(s, "。URI省略。"), "{s:?}");
    }
}

#[test]
fn external_emoji_agrees_with_regex() {
    let re = Regex::new(r"<a?:\w+:\d+>").unwrap();
    for s in SAMPLES {
        assert_eq!(replace_external_emoji(s), re.replace_all(s, ""), "{s:?}");
    }
}

#[test]
fn short_emoji_agrees_with_regex() {
    let re = Regex::new(r":\w+:").unwrap();
    for s in SAMPLES {
        assert_eq!(replace_emoji(s), re.replace_all(s, ""), "{s:?}");
    }
}

#[test]
fn code_block_agrees_with_regex() {
    let re = Regex::new(r"(?sm)```.+```").unwrap();
    for s in SAMPLES {
        assert_eq!(replace_codeblock(s), re.replace_all(s, "。コード省略。"), "{s:?}");
    }
}
