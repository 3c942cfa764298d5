//! Mention resolution: user, role and channel mentions in chat text become a
//! spoken form around the display name of what they point at.

use vstd::prelude::*;
use vstd::string::StrSliceExecFns;
use vstd::string::StringExecFns;
use crate::chars::{CharClass, class_run, run_len, chars_of};

verus! {

/// An id of the chat platform with the name that is spoken for it.
pub struct Named {
    pub id: u64,
    pub name: String,
}

/// What one message needs to resolve its mentions: the users and roles it
/// mentions and the channels of its guild, each with its name.
pub struct MentionContext {
    pub users: Vec<Named>,
    pub roles: Vec<Named>,
    pub channels: Vec<Named>,
}

/// The name under which a user is spoken: the guild nickname, else the
/// platform-wide display name, else the user name.
pub open spec fn display_name_of(
    nick: Option<Seq<char>>,
    global_name: Option<Seq<char>>,
    user_name: Seq<char>,
) -> Seq<char> {
    match nick {
        Some(n) => n,
        None => match global_name {
            Some(g) => g,
            None => user_name,
        },
    }
}

pub fn display_name(nick: Option<String>, global_name: Option<String>, user_name: String) -> (r:
    String)
    ensures
        r@ == display_name_of(
            match nick { Some(n) => Some(n@), None => None },
            match global_name { Some(g) => Some(g@), None => None },
            user_name@,
        ),
{
    match nick {
        Some(n) => n,
        None => match global_name {
            Some(g) => g,
            None => user_name,
        },
    }
}

pub open spec fn digit_char(d: nat) -> char {
    if d == 0 { '0' }
    else if d == 1 { '1' }
    else if d == 2 { '2' }
    else if d == 3 { '3' }
    else if d == 4 { '4' }
    else if d == 5 { '5' }
    else if d == 6 { '6' }
    else if d == 7 { '7' }
    else if d == 8 { '8' }
    else { '9' }
}

/// The decimal digits of `n`, without leading zeros.
pub open spec fn decimal(n: nat) -> Seq<char>
    decreases n,
{
    if n < 10 {
        seq![digit_char(n)]
    } else {
        decimal(n / 10).push(digit_char(n % 10))
    }
}

fn digit(d: u64) -> (c: char)
    requires
        d < 10,
    ensures
        c == digit_char(d as nat),
{
    if d == 0 { '0' }
    else if d == 1 { '1' }
    else if d == 2 { '2' }
    else if d == 3 { '3' }
    else if d == 4 { '4' }
    else if d == 5 { '5' }
    else if d == 6 { '6' }
    else if d == 7 { '7' }
    else if d == 8 { '8' }
    else { '9' }
}

/// Appends the decimal digits of `n` to `v`.
fn push_decimal(v: &mut Vec<char>, n: u64)
    ensures
        final(v)@ == old(v)@ + decimal(n as nat),
    decreases n,
{
    if n < 10 {
        v.push(digit(n));
        assert(old(v)@.push(digit_char(n as nat)) =~= old(v)@ + decimal(n as nat));
    } else {
        push_decimal(v, n / 10);
        v.push(digit(n % 10));
        assert(old(v)@ + decimal((n / 10) as nat) + seq![digit_char((n % 10) as nat)]
            =~= old(v)@ + decimal(n as nat));
    }
}

/// How a user is mentioned: `<@id>`.
pub open spec fn user_token(id: nat) -> Seq<char> {
    seq!['<', '@'] + decimal(id) + seq!['>']
}

/// How a role is mentioned: `<@&id>`.
pub open spec fn role_token(id: nat) -> Seq<char> {
    seq!['<', '@', '&'] + decimal(id) + seq!['>']
}

pub open spec fn mention_token(id: nat, role: bool) -> Seq<char> {
    if role { role_token(id) } else { user_token(id) }
}

/// The spoken form of a mention of `name`: `。宛、name。`.
pub open spec fn spoken(name: Seq<char>) -> Seq<char> {
    seq!['。', '宛', '、'] + name + seq!['。']
}

fn token_chars(id: u64, role: bool) -> (r: Vec<char>)
    ensures
        r@ == mention_token(id as nat, role),
{
    let mut v: Vec<char> = Vec::new();
    v.push('<');
    v.push('@');
    if role {
        v.push('&');
    }
    push_decimal(&mut v, id);
    v.push('>');
    if role {
        assert(v@ =~= role_token(id as nat));
    } else {
        assert(v@ =~= user_token(id as nat));
    }
    v
}

/// `s` with every occurrence of `p`, found left to right without overlap,
/// replaced by `r`.
pub open spec fn replace_literal(s: Seq<char>, p: Seq<char>, r: Seq<char>) -> Seq<char>
    decreases s.len(),
{
    if s.len() == 0 || p.len() == 0 {
        s
    } else if p.len() <= s.len() && s.take(p.len() as int) == p {
        r + replace_literal(s.skip(p.len() as int), p, r)
    } else {
        seq![s[0]] + replace_literal(s.skip(1), p, r)
    }
}

fn occurs_at(cs: &Vec<char>, i: usize, p: &Vec<char>) -> (r: bool)
    requires
        i <= cs@.len(),
    ensures
        r == (p@.len() <= cs@.len() - i && cs@.skip(i as int).take(p@.len() as int) == p@),
{
    if p.len() > cs.len() - i {
        return false;
    }
    let mut k: usize = 0;
    while k < p.len()
        invariant
            i + p@.len() <= cs@.len(),
            cs@.len() == cs.len(),
            k <= p@.len(),
            forall|m: int| 0 <= m < k ==> cs@[i + m] == p@[m],
        decreases p@.len() - k,
    {
        if cs[i + k] != p[k] {
            assert(cs@.skip(i as int).take(p@.len() as int)[k as int] != p@[k as int]);
            return false;
        }
        k = k + 1;
    }
    assert(cs@.skip(i as int).take(p@.len() as int) =~= p@);
    true
}

/// Replaces every occurrence of `p` in `s` by `r`.
pub fn replace_literal_str(s: &str, p: &Vec<char>, r: &str) -> (out: String)
    ensures
        out@ == replace_literal(s@, p@, r@),
{
    let cs = chars_of(s);
    let n = cs.len();
    let mut out = String::new();
    if p.len() == 0 {
        out.append(s);
        assert(out@ =~= s@);
        return out;
    }
    let mut i: usize = 0;
    assert(s@.skip(0) =~= s@);
    assert(out@ + s@ =~= s@);
    while i < n
        invariant
            n == cs@.len(),
            cs@ == s@,
            p@.len() > 0,
            i <= n,
            out@ + replace_literal(s@.skip(i as int), p@, r@) == replace_literal(s@, p@, r@),
        decreases n - i,
    {
        let ghost rest = s@.skip(i as int);
        let ghost before = out@;
        if occurs_at(&cs, i, p) {
            out.append(r);
            let len = p.len();
            assert(rest.skip(len as int) =~= s@.skip(i + len));
            let ghost tail = replace_literal(rest.skip(len as int), p@, r@);
            assert(before + (r@ + tail) =~= out@ + tail);
            i = i + len;
        } else {
            out.append(s.substring_char(i, i + 1));
            assert(rest.skip(1) =~= s@.skip(i + 1));
            assert(s@.subrange(i as int, i + 1) =~= seq![rest[0]]);
            let ghost tail = replace_literal(rest.skip(1), p@, r@);
            assert(before + (seq![rest[0]] + tail) =~= out@ + tail);
            i = i + 1;
        }
    }
    assert(s@.skip(n as int) =~= Seq::<char>::empty());
    assert(out@ + Seq::<char>::empty() =~= out@);
    out
}

/// `s` after replacing the mention of each entry of `es`, in order, by the
/// spoken form of its name.
pub open spec fn replace_mentions(s: Seq<char>, es: Seq<Named>, role: bool) -> Seq<char>
    decreases es.len(),
{
    if es.len() == 0 {
        s
    } else {
        replace_mentions(
            replace_literal(s, mention_token(es[0].id as nat, role), spoken(es[0].name@)),
            es.skip(1),
            role,
        )
    }
}

fn spoken_str(name: &String) -> (r: String)
    ensures
        r@ == spoken(name@),
{
    let mut r = String::new();
    let open = "。宛、";
    let close = "。";
    proof {
        reveal_strlit("。宛、");
        reveal_strlit("。");
    }
    r.append(open);
    r.append(name.as_str());
    r.append(close);
    assert(r@ =~= spoken(name@));
    r
}

fn replace_mention_list(s: String, es: &Vec<Named>, role: bool) -> (r: String)
    ensures
        r@ == replace_mentions(s@, es@, role),
{
    let mut cur = s;
    let mut k: usize = 0;
    assert(es@.skip(0) =~= es@);
    while k < es.len()
        invariant
            k <= es@.len(),
            replace_mentions(cur@, es@.skip(k as int), role) == replace_mentions(s@, es@, role),
        decreases es@.len() - k,
    {
        let tok = token_chars(es[k].id, role);
        let rep = spoken_str(&es[k].name);
        assert(es@.skip(k as int).skip(1) =~= es@.skip(k + 1));
        cur = replace_literal_str(cur.as_str(), &tok, rep.as_str());
        k = k + 1;
    }
    cur
}

/// Length of the channel mention `<#digits>` at the front of `s`, or 0.
pub open spec fn channel_token_len(s: Seq<char>) -> nat {
    if s.len() >= 2 && s[0] == '<' && s[1] == '#' {
        let d = run_len(s.skip(2), CharClass::Digit);
        if d > 0 && 2 + d < s.len() && s[2 + d as int] == '>' {
            d + 3
        } else {
            0
        }
    } else {
        0
    }
}

/// `d` without its leading zeros, the last digit kept: the canonical decimal
/// form of the number that `d` spells, which [`decimal`] gives for each id.
pub open spec fn without_leading_zeros(d: Seq<char>) -> Seq<char>
    decreases d.len(),
{
    if d.len() > 1 && d[0] == '0' {
        without_leading_zeros(d.skip(1))
    } else {
        d
    }
}

/// The first channel of `cs` whose decimal id is `digits`.
pub open spec fn find_channel(cs: Seq<Named>, digits: Seq<char>) -> Option<Named>
    decreases cs.len(),
{
    if cs.len() == 0 {
        None
    } else if decimal(cs[0].id as nat) == digits {
        Some(cs[0])
    } else {
        find_channel(cs.skip(1), digits)
    }
}

/// `s` with each channel mention replaced by the spoken form of the
/// channel's name, or `None` when some mention names no channel of `cs`. A
/// mention names the channel whose id is the number its digits spell, so
/// leading zeros do not count.
pub open spec fn resolve_channels(s: Seq<char>, cs: Seq<Named>) -> Option<Seq<char>>
    decreases s.len(),
{
    if s.len() == 0 {
        Some(s)
    } else if channel_token_len(s) > 0 {
        let n = channel_token_len(s);
        match find_channel(cs, without_leading_zeros(s.subrange(2, n - 1))) {
            Some(c) => match resolve_channels(s.skip(n as int), cs) {
                Some(t) => Some(spoken(c.name@) + t),
                None => None,
            },
            None => None,
        }
    } else {
        match resolve_channels(s.skip(1), cs) {
            Some(t) => Some(seq![s[0]] + t),
            None => None,
        }
    }
}

fn channel_token_at(cs: &Vec<char>, i: usize) -> (r: usize)
    requires
        i <= cs@.len(),
    ensures
        r == channel_token_len(cs@.skip(i as int)),
        r <= cs@.len() - i,
{
    let ghost s = cs@.skip(i as int);
    let n = cs.len();
    if n - i < 2 || cs[i] != '<' || cs[i + 1] != '#' {
        return 0;
    }
    let d = class_run(cs, i + 2, CharClass::Digit);
    assert(cs@.skip((i + 2) as int) =~= s.skip(2));
    if d == 0 || 2 + d >= n - i || cs[i + 2 + d] != '>' {
        return 0;
    }
    d + 3
}

fn lookup_channel(channels: &Vec<Named>, digits: &Vec<char>) -> (r: Option<usize>)
    ensures
        match r {
            Some(k) => k < channels@.len() && find_channel(channels@, digits@) == Some(
                channels@[k as int],
            ),
            None => find_channel(channels@, digits@) is None,
        },
{
    let mut k: usize = 0;
    assert(channels@.skip(0) =~= channels@);
    while k < channels.len()
        invariant
            k <= channels@.len(),
            find_channel(channels@, digits@) == find_channel(channels@.skip(k as int), digits@),
        decreases channels@.len() - k,
    {
        let mut d: Vec<char> = Vec::new();
        push_decimal(&mut d, channels[k].id);
        assert(d@ =~= decimal(channels@[k as int].id as nat));
        assert(channels@.skip(k as int)[0] == channels@[k as int]);
        if vec_eq(&d, digits) {
            return Some(k);
        }
        assert(channels@.skip(k as int).skip(1) =~= channels@.skip(k + 1));
        k = k + 1;
    }
    None
}

fn vec_eq(a: &Vec<char>, b: &Vec<char>) -> (r: bool)
    ensures
        r == (a@ == b@),
{
    if a.len() != b.len() {
        return false;
    }
    let mut k: usize = 0;
    while k < a.len()
        invariant
            a@.len() == b@.len(),
            k <= a@.len(),
            forall|m: int| 0 <= m < k ==> a@[m] == b@[m],
        decreases a@.len() - k,
    {
        if a[k] != b[k] {
            return false;
        }
        k = k + 1;
    }
    assert(a@ =~= b@);
    true
}

fn slice_chars(cs: &Vec<char>, from: usize, to: usize) -> (r: Vec<char>)
    requires
        from <= to <= cs@.len(),
    ensures
        r@ == cs@.subrange(from as int, to as int),
{
    let mut r: Vec<char> = Vec::new();
    let mut k: usize = from;
    while k < to
        invariant
            from <= k <= to <= cs@.len(),
            r@ == cs@.subrange(from as int, k as int),
        decreases to - k,
    {
        r.push(cs[k]);
        assert(cs@.subrange(from as int, k + 1) =~= cs@.subrange(from as int, k as int).push(cs@[k as int]));
        k = k + 1;
    }
    r
}

/// The digits `cs[from..to]` without leading zeros.
fn canonical_digits(cs: &Vec<char>, from: usize, to: usize) -> (r: Vec<char>)
    requires
        from < to <= cs@.len(),
    ensures
        r@ == without_leading_zeros(cs@.subrange(from as int, to as int)),
{
    let mut z: usize = from;
    while z + 1 < to && cs[z] == '0'
        invariant
            from <= z < to <= cs@.len(),
            without_leading_zeros(cs@.subrange(from as int, to as int)) == without_leading_zeros(
                cs@.subrange(z as int, to as int),
            ),
        decreases to - z,
    {
        assert(cs@.subrange(z as int, to as int).skip(1) =~= cs@.subrange(z + 1, to as int));
        z = z + 1;
    }
    slice_chars(cs, z, to)
}

/// Replaces each channel mention of `s` by the spoken name of the channel,
/// or answers `None` when some mention names no channel of `channels`.
fn try_resolve_channels(s: &str, channels: &Vec<Named>) -> (r: Option<String>)
    ensures
        match r {
            Some(t) => resolve_channels(s@, channels@) == Some(t@),
            None => resolve_channels(s@, channels@) is None,
        },
{
    let cs = chars_of(s);
    let n = cs.len();
    let mut out = String::new();
    let mut i: usize = 0;
    assert(s@.skip(0) =~= s@);
    assert(out@ + s@ =~= s@);
    while i < n
        invariant
            n == cs@.len(),
            cs@ == s@,
            i <= n,
            resolve_channels(s@, channels@) == match resolve_channels(s@.skip(i as int), channels@) {
                Some(t) => Some(out@ + t),
                None => None,
            },
        decreases n - i,
    {
        let ghost rest = s@.skip(i as int);
        let ghost before = out@;
        let len = channel_token_at(&cs, i);
        if len > 0 {
            let digits = canonical_digits(&cs, i + 2, i + len - 1);
            assert(cs@.subrange(i + 2, i + len - 1) =~= rest.subrange(2, len - 1));
            match lookup_channel(channels, &digits) {
                Some(k) => {
                    let rep = spoken_str(&channels[k].name);
                    out.append(rep.as_str());
                    assert(rest.skip(len as int) =~= s@.skip(i + len));
                    assert forall|t: Seq<char>| before + (rep@ + t) == out@ + t by {
                        assert(before + (rep@ + t) =~= out@ + t);
                    }
                    i = i + len;
                },
                None => {
                    return None;
                },
            }
        } else {
            out.append(s.substring_char(i, i + 1));
            assert(rest.skip(1) =~= s@.skip(i + 1));
            assert(s@.subrange(i as int, i + 1) =~= seq![rest[0]]);
            assert forall|t: Seq<char>| before + (seq![rest[0]] + t) == out@ + t by {
                assert(before + (seq![rest[0]] + t) =~= out@ + t);
            }
            i = i + 1;
        }
    }
    assert(s@.skip(n as int) =~= Seq::<char>::empty());
    assert(out@ + Seq::<char>::empty() =~= out@);
    Some(out)
}

/// Replaces each channel mention of `s` by the spoken name of the channel;
/// every mention must name a channel of `channels`.
pub fn resolve_channel_mentions(s: &str, channels: &Vec<Named>) -> (r: String)
    requires
        resolve_channels(s@, channels@) is Some,
    ensures
        resolve_channels(s@, channels@) == Some(r@),
{
    match try_resolve_channels(s, channels) {
        Some(t) => t,
        None => {
            assert(false);
            String::new()
        },
    }
}

/// The text of a message after every mention is resolved: users first, then
/// roles, then channels; `None` when a channel mention names no channel.
pub open spec fn resolved(s: Seq<char>, ctx: MentionContext) -> Option<Seq<char>> {
    resolve_channels(
        replace_mentions(replace_mentions(s, ctx.users@, false), ctx.roles@, true),
        ctx.channels@,
    )
}

fn replace_user_and_role_mentions(content: &str, ctx: &MentionContext) -> (r: String)
    ensures
        r@ == replace_mentions(replace_mentions(content@, ctx.users@, false), ctx.roles@, true),
{
    let s = String::from_str(content);
    let s = replace_mention_list(s, &ctx.users, false);
    replace_mention_list(s, &ctx.roles, true)
}

/// Whether every channel mention of `content` names a channel of the
/// context, once user and role mentions are resolved.
pub fn mentions_resolvable(content: &str, ctx: &MentionContext) -> (r: bool)
    ensures
        r == resolved(content@, *ctx) is Some,
{
    let s = replace_user_and_role_mentions(content, ctx);
    match try_resolve_channels(s.as_str(), &ctx.channels) {
        Some(_) => true,
        None => false,
    }
}

/// Resolves every user, role and channel mention of `content`; the context
/// must know every channel that it mentions.
pub fn resolve_mentions(content: &str, ctx: &MentionContext) -> (r: String)
    requires
        resolved(content@, *ctx) is Some,
    ensures
        resolved(content@, *ctx) == Some(r@),
{
    let s = replace_user_and_role_mentions(content, ctx);
    resolve_channel_mentions(s.as_str(), &ctx.channels)
}

} // verus!
