use yomiage::dict::{dict_subcommand, DictSubcommand};
use yomiage::mention::{
    display_name, mentions_resolvable, replace_literal_str, resolve_channel_mentions,
    resolve_mentions, MentionContext, Named,
};

fn named(id: u64, name: &str) -> Named {
    Named { id, name: name.to_string() }
}

#[test]
fn display_name_fallbacks() {
    assert_eq!(
        display_name(Some("nick".to_string()), Some("glob".to_string()), "user".to_string()),
        "nick"
    );
    assert_eq!(display_name(None, Some("glob".to_string()), "user".to_string()), "glob");
    assert_eq!(display_name(None, None, "user".to_string()), "user");
}

#[test]
fn literal_replacement() {
    let p: Vec<char> = "ab".chars().collect();
    assert_eq!(replace_literal_str("xababy", &p, "Z"), "xZZy");
    assert_eq!(replace_literal_str("aaa", &"aa".chars().collect(), "b"), "ba");
    assert_eq!(replace_literal_str("abc", &vec![], "Q"), "abc");
}

#[test]
fn user_and_role_mentions() {
    let ctx = MentionContext {
        users: vec![named(1234567890123, "太郎")],
        roles: vec![named(5, "admins")],
        channels: vec![],
    };
    assert_eq!(
        resolve_mentions("hi <@1234567890123>, <@&5>!", &ctx),
        "hi 。宛、太郎。, 。宛、admins。!"
    );
    assert_eq!(resolve_mentions("<@!1234567890123>", &ctx), "<@!1234567890123>");
    assert_eq!(resolve_mentions("<@0>", &ctx), "<@0>");
}

#[test]
fn channel_mentions() {
    let chans = vec![named(10, "ten"), named(0, "zero"), named(10, "other")];
    assert_eq!(resolve_channel_mentions("<#10><#0>", &chans), "。宛、ten。。宛、zero。");
    assert_eq!(resolve_channel_mentions("<#010>", &chans), "。宛、ten。");
    assert_eq!(resolve_channel_mentions("<#000>", &chans), "。宛、zero。");
    assert_eq!(resolve_channel_mentions("<#007>", &vec![named(7, "seven")]), "。宛、seven。");
    assert_eq!(resolve_channel_mentions("<#> <#x>", &chans), "<#> <#x>");
    let max = vec![named(u64::MAX, "max")];
    assert_eq!(resolve_channel_mentions("<#18446744073709551615>", &max), "。宛、max。");
}

#[test]
fn unresolvable_channel_mentions() {
    let ctx = |channels: Vec<Named>| MentionContext { users: vec![], roles: vec![], channels };
    assert!(mentions_resolvable("<#10> and <#00>", &ctx(vec![named(10, "ten"), named(0, "zero")])));
    assert!(!mentions_resolvable("<#11>", &ctx(vec![named(10, "ten"), named(0, "zero")])));
    assert!(!mentions_resolvable("<#18446744073709551616>", &ctx(vec![named(u64::MAX, "max")])));
    assert!(mentions_resolvable("no mentions", &ctx(vec![])));
}

#[test]
fn dict_subcommands() {
    assert_eq!(dict_subcommand("add"), DictSubcommand::Add);
    assert_eq!(dict_subcommand("remove"), DictSubcommand::Remove);
    assert_eq!(dict_subcommand("Add"), DictSubcommand::Unknown);
    assert_eq!(dict_subcommand("adds"), DictSubcommand::Unknown);
    assert_eq!(dict_subcommand(""), DictSubcommand::Unknown);
}
