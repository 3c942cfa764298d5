//! The message normalizer: an ordered chain of guards, which halt, and
//! transforms, which rewrite the text and go on.

use vstd::prelude::*;
use vstd::string::StrSliceExecFns;
use crate::chars::{is_white_space, white_space};
use crate::tokens::{TokenKind, replace_tokens, replace_all_tokens};
use crate::mention::{MentionContext, resolved, resolve_mentions};

verus! {

/// What stands in the spoken text for an elided URI: `。URI省略。`.
pub open spec fn uri_marker() -> Seq<char> {
    seq!['。', 'U', 'R', 'I', '省', '略', '。']
}

/// What stands in the spoken text for an elided code block: `。コード省略。`.
pub open spec fn code_marker() -> Seq<char> {
    seq!['。', 'コ', 'ー', 'ド', '省', '略', '。']
}

/// The legacy keyword that is never read aloud: `ping`.
pub open spec fn legacy_keyword() -> Seq<char> {
    seq!['p', 'i', 'n', 'g']
}

pub open spec fn starts_with_char(s: Seq<char>, c: char) -> bool {
    s.len() > 0 && s[0] == c
}

/// Text that begins with one `;` but not with `;;`.
pub open spec fn single_semicolon(s: Seq<char>) -> bool {
    starts_with_char(s, ';') && !(s.len() >= 2 && s[1] == ';')
}

/// Text that holds nothing but whitespace.
pub open spec fn is_blank(s: Seq<char>) -> bool {
    forall|i: int| 0 <= i < s.len() ==> is_white_space(#[trigger] s[i])
}

/// The transforms of the pipeline, in order: external emoji are removed, URIs
/// elided, short emoji removed, code blocks elided.
pub open spec fn elided(s: Seq<char>) -> Seq<char> {
    let a = replace_tokens(s, TokenKind::ExternalEmoji, Seq::empty());
    let b = replace_tokens(a, TokenKind::Uri, uri_marker());
    let c = replace_tokens(b, TokenKind::ShortEmoji, Seq::empty());
    replace_tokens(c, TokenKind::CodeBlock, code_marker())
}

/// The guards that come before the transforms: the legacy prefix `~`, the
/// legacy keyword, and a single leading `;`.
pub open spec fn passes_guards(s: Seq<char>) -> bool {
    !starts_with_char(s, '~') && s != legacy_keyword() && !single_semicolon(s)
}

/// What is spoken of a message whose mentions are resolved: `None` when a
/// guard halts or nothing but whitespace is left.
pub open spec fn normalized(s: Seq<char>) -> Option<Seq<char>> {
    if !passes_guards(s) {
        None
    } else if is_blank(elided(s)) {
        None
    } else {
        Some(elided(s))
    }
}

/// Halts on text that begins with the legacy command prefix `~`.
pub fn legacy_command_compatibility<'a>(mes: &'a str) -> (r: Option<&'a str>)
    ensures
        r == (if starts_with_char(mes@, '~') { None } else { Some(mes) }),
{
    if mes.unicode_len() > 0 && mes.get_char(0) == '~' {
        None
    } else {
        Some(mes)
    }
}

/// Halts on text equal to the legacy keyword `ping`.
pub fn legacy_ping_command_compatibility<'a>(mes: &'a str) -> (r: Option<&'a str>)
    ensures
        r == (if mes@ == legacy_keyword() { None } else { Some(mes) }),
{
    let n = mes.unicode_len();
    if n == 4 && mes.get_char(0) == 'p' && mes.get_char(1) == 'i' && mes.get_char(2) == 'n'
        && mes.get_char(3) == 'g' {
        assert(mes@ =~= legacy_keyword());
        None
    } else {
        proof {
            if mes@ == legacy_keyword() {
                assert(mes@[0] == 'p' && mes@[1] == 'i' && mes@[2] == 'n' && mes@[3] == 'g');
            }
        }
        Some(mes)
    }
}

/// Halts on text that begins with `;`, unless it begins with `;;`.
pub fn suppress_by_semicolon<'a>(mes: &'a str) -> (r: Option<&'a str>)
    ensures
        r == (if single_semicolon(mes@) { None } else { Some(mes) }),
{
    let n = mes.unicode_len();
    if n > 0 && mes.get_char(0) == ';' && !(n >= 2 && mes.get_char(1) == ';') {
        None
    } else {
        Some(mes)
    }
}

/// Halts on text that holds nothing but whitespace.
pub fn suppress_whitespaces<'a>(mes: &'a str) -> (r: Option<&'a str>)
    ensures
        r == (if is_blank(mes@) { None } else { Some(mes) }),
{
    let n = mes.unicode_len();
    let mut i: usize = 0;
    while i < n
        invariant
            n == mes@.len(),
            i <= n,
            forall|k: int| 0 <= k < i ==> is_white_space(#[trigger] mes@[k]),
        decreases n - i,
    {
        if !white_space(mes.get_char(i)) {
            return Some(mes);
        }
        i = i + 1;
    }
    None
}

/// Elides every URI.
pub fn replace_uri(mes: &str) -> (r: String)
    ensures
        r@ == replace_tokens(mes@, TokenKind::Uri, uri_marker()),
{
    let marker = "。URI省略。";
    proof {
        reveal_strlit("。URI省略。");
    }
    assert(marker@ =~= uri_marker());
    replace_all_tokens(mes, TokenKind::Uri, marker)
}

/// Removes every external emoji.
pub fn replace_external_emoji(mes: &str) -> (r: String)
    ensures
        r@ == replace_tokens(mes@, TokenKind::ExternalEmoji, Seq::empty()),
{
    let none = "";
    proof {
        reveal_strlit("");
    }
    assert(none@ =~= Seq::<char>::empty());
    replace_all_tokens(mes, TokenKind::ExternalEmoji, none)
}

/// Removes every short emoji.
pub fn replace_emoji(mes: &str) -> (r: String)
    ensures
        r@ == replace_tokens(mes@, TokenKind::ShortEmoji, Seq::empty()),
{
    let none = "";
    proof {
        reveal_strlit("");
    }
    assert(none@ =~= Seq::<char>::empty());
    replace_all_tokens(mes, TokenKind::ShortEmoji, none)
}

/// Elides the code block.
pub fn replace_codeblock(mes: &str) -> (r: String)
    ensures
        r@ == replace_tokens(mes@, TokenKind::CodeBlock, code_marker()),
{
    let marker = "。コード省略。";
    proof {
        reveal_strlit("。コード省略。");
    }
    assert(marker@ =~= code_marker());
    replace_all_tokens(mes, TokenKind::CodeBlock, marker)
}

/// Runs the guards and transforms on text whose mentions are resolved.
pub fn normalize(s: &str) -> (r: Option<String>)
    ensures
        match r {
            Some(t) => normalized(s@) == Some(t@),
            None => normalized(s@) is None,
        },
{
    let s = match legacy_command_compatibility(s) {
        Some(s) => s,
        None => return None,
    };
    let s = match legacy_ping_command_compatibility(s) {
        Some(s) => s,
        None => return None,
    };
    let s = match suppress_by_semicolon(s) {
        Some(s) => s,
        None => return None,
    };
    let s = replace_external_emoji(s);
    let s = replace_uri(s.as_str());
    let s = replace_emoji(s.as_str());
    let s = replace_codeblock(s.as_str());
    match suppress_whitespaces(s.as_str()) {
        Some(_) => Some(s),
        None => None,
    }
}

/// A chat message as the normalizer sees it.
pub struct ChatMessage {
    pub channel_id: u64,
    pub author_is_bot: bool,
    pub content: String,
}

/// Whether a message is to be read at all: it comes from the channel that is
/// active for its guild, and not from an automated sender.
pub open spec fn admitted(msg: ChatMessage, active_channel: Option<u64>) -> bool {
    active_channel == Some(msg.channel_id) && !msg.author_is_bot
}

/// Whether `msg` is to be read at all, given the channel that is active for
/// its guild.
pub fn is_admitted(msg: &ChatMessage, active_channel: Option<u64>) -> (r: bool)
    ensures
        r == admitted(*msg, active_channel),
{
    match active_channel {
        Some(c) => c == msg.channel_id && !msg.author_is_bot,
        None => false,
    }
}

/// The whole pipeline: `None` when the message is not to be spoken. The
/// context must resolve every mention of an admitted message.
pub fn filter(msg: &ChatMessage, active_channel: Option<u64>, ctx: &MentionContext) -> (r: Option<
    String,
>)
    requires
        admitted(*msg, active_channel) ==> resolved(msg.content@, *ctx) is Some,
    ensures
        !admitted(*msg, active_channel) ==> r is None,
        admitted(*msg, active_channel) ==> match r {
            None => resolved(msg.content@, *ctx) matches Some(t) && normalized(t) is None,
            Some(o) => resolved(msg.content@, *ctx) matches Some(t) && normalized(t) == Some(o@),
        },
{
    if !is_admitted(msg, active_channel) {
        return None;
    }
    let s = resolve_mentions(msg.content.as_str(), ctx);
    normalize(s.as_str())
}

/// Text that begins with a single `;` is never spoken.
pub proof fn lemma_single_semicolon_halts(t: Seq<char>)
    requires
        single_semicolon(t),
    ensures
        normalized(t) is None,
{
}

/// Text that begins with `;;` passes the guards whole: what is spoken is the
/// transforms applied to all of it, the semicolons included.
pub proof fn lemma_doubled_semicolon_continues(t: Seq<char>)
    requires
        t.len() >= 2,
        t[0] == ';',
        t[1] == ';',
    ensures
        normalized(t) == (if is_blank(elided(t)) { None } else { Some(elided(t)) }),
{
    assert(t != legacy_keyword());
}

/// The legacy keyword is never spoken.
pub proof fn lemma_legacy_keyword_halts()
    ensures
        normalized(legacy_keyword()) is None,
{
}

/// The keyword guard lets every other text through unchanged: whether and
/// what it is spoken is decided by the other stages alone.
pub proof fn lemma_other_text_passes_keyword(t: Seq<char>)
    requires
        t != legacy_keyword(),
    ensures
        normalized(t) == (if starts_with_char(t, '~') || single_semicolon(t) || is_blank(
            elided(t),
        ) {
            None
        } else {
            Some(elided(t))
        }),
{
}

/// An external emoji at the front of the text is removed whole by the first
/// transform: none of its characters reaches URI elision.
pub proof fn lemma_external_emoji_removed_whole(s: Seq<char>)
    requires
        crate::tokens::external_emoji_len(s) > 0,
    ensures
        crate::tokens::external_emoji_len(s) <= s.len(),
        replace_tokens(s, TokenKind::ExternalEmoji, Seq::empty()) == replace_tokens(
            s.skip(crate::tokens::external_emoji_len(s) as int),
            TokenKind::ExternalEmoji,
            Seq::empty(),
        ),
{
    assert(Seq::<char>::empty() + replace_tokens(
        s.skip(crate::tokens::external_emoji_len(s) as int),
        TokenKind::ExternalEmoji,
        Seq::empty(),
    ) =~= replace_tokens(
        s.skip(crate::tokens::external_emoji_len(s) as int),
        TokenKind::ExternalEmoji,
        Seq::empty(),
    ));
}

/// A message that is nothing but one external emoji is not spoken at all; in
/// particular no URI elision marker comes of it.
pub proof fn lemma_lone_external_emoji_silent(s: Seq<char>)
    requires
        crate::tokens::external_emoji_len(s) == s.len(),
        s.len() > 0,
    ensures
        elided(s) == Seq::<char>::empty(),
        normalized(s) is None,
{
    let e = Seq::<char>::empty();
    lemma_external_emoji_removed_whole(s);
    assert(s.skip(s.len() as int) =~= e);
    assert(replace_tokens(s, TokenKind::ExternalEmoji, e) == e);
    assert(replace_tokens(e, TokenKind::Uri, uri_marker()) == e);
    assert(replace_tokens(e, TokenKind::ShortEmoji, e) == e);
    assert(replace_tokens(e, TokenKind::CodeBlock, code_marker()) == e);
    assert(s[0] == '<');
    assert(s != legacy_keyword());
}

/// URI elision leaves text without ASCII letters as it is: a scheme must
/// begin with one, whatever colons the text holds.
pub proof fn lemma_no_letter_no_uri(s: Seq<char>, marker: Seq<char>)
    requires
        forall|i: int| 0 <= i < s.len() ==> !crate::chars::is_ascii_alpha(#[trigger] s[i]),
    ensures
        replace_tokens(s, TokenKind::Uri, marker) == s,
    decreases s.len(),
{
    if s.len() > 0 {
        assert(forall|i: int|
            0 <= i < s.skip(1).len() ==> #[trigger] s.skip(1)[i] == s[i + 1]);
        lemma_no_letter_no_uri(s.skip(1), marker);
        assert(seq![s[0]] + s.skip(1) =~= s);
    }
}

/// Text that is one URI, from its scheme to its last character, becomes the
/// marker alone.
pub proof fn lemma_whole_uri_elided(s: Seq<char>, marker: Seq<char>)
    requires
        s.len() > 0,
        crate::tokens::uri_len(s) == s.len(),
    ensures
        replace_tokens(s, TokenKind::Uri, marker) == marker,
{
    let e = Seq::<char>::empty();
    assert(s.skip(s.len() as int) =~= e);
    assert(replace_tokens(e, TokenKind::Uri, marker) == e);
    assert(marker + e =~= marker);
}

} // verus!
