//! The token grammar of chat text: custom emoji, URIs, short emoji and code
//! fences, and leftmost-first replacement of every token of one kind.

use vstd::prelude::*;
use vstd::string::StrSliceExecFns;
use vstd::string::StringExecFns;
use crate::chars::{CharClass, chars_of, class_run, run_len};

verus! {

/// The shapes of token that the normalizer removes or elides.
#[derive(Clone, Copy, PartialEq, Eq, Structural, Debug)]
pub enum TokenKind {
    /// `<` then an optional `a`, then `:name:digits>`, the digits being any
    /// Unicode decimal digits.
    ExternalEmoji,
    /// A letter, then letters, digits, `+`, `-` or `.`, then `:` and a
    /// non-empty run of non-whitespace.
    Uri,
    /// `:word:`.
    ShortEmoji,
    /// From the first triple backtick to the last one, with at least one
    /// character between them.
    CodeBlock,
}

pub open spec fn fence_at(s: Seq<char>, k: int) -> bool {
    0 <= k && k + 3 <= s.len() && s[k] == '`' && s[k + 1] == '`' && s[k + 2] == '`'
}

/// The greatest `j < k` at which a triple backtick starts.
pub open spec fn last_fence_before(s: Seq<char>, k: nat) -> Option<nat>
    decreases k,
{
    if k == 0 {
        None
    } else if fence_at(s, k - 1) {
        Some((k - 1) as nat)
    } else {
        last_fence_before(s, (k - 1) as nat)
    }
}

pub open spec fn external_emoji_len(s: Seq<char>) -> nat {
    if s.len() >= 2 && s[0] == '<' {
        let p: nat = if s[1] == 'a' { 2 } else { 1 };
        if p < s.len() && s[p as int] == ':' {
            let w = run_len(s.skip(p + 1 as int), CharClass::Word);
            let q = p + 1 + w;
            if w > 0 && q < s.len() && s[q as int] == ':' {
                let d = run_len(s.skip(q + 1 as int), CharClass::Decimal);
                let e = q + 1 + d;
                if d > 0 && e < s.len() && s[e as int] == '>' {
                    e + 1
                } else {
                    0
                }
            } else {
                0
            }
        } else {
            0
        }
    } else {
        0
    }
}

pub open spec fn uri_len(s: Seq<char>) -> nat {
    if s.len() > 0 && crate::chars::is_ascii_alpha(s[0]) {
        let k = 1 + run_len(s.skip(1), CharClass::Scheme);
        if k < s.len() && s[k as int] == ':' {
            let m = run_len(s.skip(k + 1 as int), CharClass::NonSpace);
            if m > 0 {
                k + 1 + m
            } else {
                0
            }
        } else {
            0
        }
    } else {
        0
    }
}

pub open spec fn short_emoji_len(s: Seq<char>) -> nat {
    if s.len() > 0 && s[0] == ':' {
        let w = run_len(s.skip(1), CharClass::Word);
        if w > 0 && 1 + w < s.len() && s[1 + w as int] == ':' {
            w + 2
        } else {
            0
        }
    } else {
        0
    }
}

pub open spec fn code_block_len(s: Seq<char>) -> nat {
    if fence_at(s, 0) {
        match last_fence_before(s, s.len()) {
            Some(j) => if j >= 4 { j + 3 } else { 0 },
            None => 0,
        }
    } else {
        0
    }
}

/// Length of the token of kind `t` that starts at the front of `s`, or 0
/// when none starts there.
pub open spec fn token_len(t: TokenKind, s: Seq<char>) -> nat {
    match t {
        TokenKind::ExternalEmoji => external_emoji_len(s),
        TokenKind::Uri => uri_len(s),
        TokenKind::ShortEmoji => short_emoji_len(s),
        TokenKind::CodeBlock => code_block_len(s),
    }
}

/// `s` with every token of kind `t`, found leftmost first and without
/// overlap, replaced by `rep`.
pub open spec fn replace_tokens(s: Seq<char>, t: TokenKind, rep: Seq<char>) -> Seq<char>
    decreases s.len(),
{
    if s.len() == 0 {
        s
    } else if 0 < token_len(t, s) <= s.len() {
        rep + replace_tokens(s.skip(token_len(t, s) as int), t, rep)
    } else {
        seq![s[0]] + replace_tokens(s.skip(1), t, rep)
    }
}

fn fence_start(cs: &Vec<char>, k: usize) -> (r: bool)
    ensures
        r == fence_at(cs@, k as int),
{
    k < cs.len() && cs.len() - k >= 3 && cs[k] == '`' && cs[k + 1] == '`' && cs[k + 2] == '`'
}

fn external_emoji_at(cs: &Vec<char>, i: usize) -> (r: usize)
    requires
        i <= cs@.len(),
    ensures
        r == external_emoji_len(cs@.skip(i as int)),
{
    let ghost s = cs@.skip(i as int);
    let n = cs.len();
    if n - i < 2 || cs[i] != '<' {
        return 0;
    }
    let p: usize = if cs[i + 1] == 'a' { 2 } else { 1 };
    if p >= n - i || cs[i + p] != ':' {
        return 0;
    }
    let w = class_run(cs, i + p + 1, CharClass::Word);
    assert(cs@.skip((i + p + 1) as int) =~= s.skip(p + 1 as int));
    let q = p + 1 + w;
    if w == 0 || q >= n - i || cs[i + q] != ':' {
        return 0;
    }
    let d = class_run(cs, i + q + 1, CharClass::Decimal);
    assert(cs@.skip((i + q + 1) as int) =~= s.skip(q + 1));
    let e = q + 1 + d;
    if d == 0 || e >= n - i || cs[i + e] != '>' {
        return 0;
    }
    e + 1
}

fn uri_at(cs: &Vec<char>, i: usize) -> (r: usize)
    requires
        i <= cs@.len(),
    ensures
        r == uri_len(cs@.skip(i as int)),
{
    let ghost s = cs@.skip(i as int);
    let n = cs.len();
    if i >= n || !(('a' <= cs[i] && cs[i] <= 'z') || ('A' <= cs[i] && cs[i] <= 'Z')) {
        return 0;
    }
    let k = 1 + class_run(cs, i + 1, CharClass::Scheme);
    assert(cs@.skip((i + 1) as int) =~= s.skip(1));
    if k >= n - i || cs[i + k] != ':' {
        return 0;
    }
    let m = class_run(cs, i + k + 1, CharClass::NonSpace);
    assert(cs@.skip((i + k + 1) as int) =~= s.skip(k + 1));
    if m == 0 {
        return 0;
    }
    k + 1 + m
}

fn short_emoji_at(cs: &Vec<char>, i: usize) -> (r: usize)
    requires
        i <= cs@.len(),
    ensures
        r == short_emoji_len(cs@.skip(i as int)),
{
    let ghost s = cs@.skip(i as int);
    let n = cs.len();
    if i >= n || cs[i] != ':' {
        return 0;
    }
    let w = class_run(cs, i + 1, CharClass::Word);
    assert(cs@.skip((i + 1) as int) =~= s.skip(1));
    if w == 0 || 1 + w >= n - i || cs[i + 1 + w] != ':' {
        return 0;
    }
    w + 2
}

proof fn lemma_last_fence_shift(cs: Seq<char>, i: int, k: nat)
    requires
        0 <= i <= cs.len(),
        i + k <= cs.len(),
    ensures
        last_fence_before(cs.skip(i), k) == (match last_fence_before(cs, (i + k) as nat) {
            Some(j) => if j >= i { Some((j - i) as nat) } else { None },
            None => None,
        }),
    decreases k,
{
    if k > 0 {
        lemma_last_fence_shift(cs, i, (k - 1) as nat);
        assert(fence_at(cs.skip(i), k - 1) == fence_at(cs, i + k - 1));
    } else {
        lemma_no_fence_below(cs, i as nat);
    }
}

proof fn lemma_no_fence_below(cs: Seq<char>, k: nat)
    ensures
        match last_fence_before(cs, k) {
            Some(j) => j < k,
            None => true,
        },
    decreases k,
{
    if k > 0 {
        lemma_no_fence_below(cs, (k - 1) as nat);
    }
}

fn code_block_at(cs: &Vec<char>, i: usize) -> (r: usize)
    requires
        i <= cs@.len(),
    ensures
        r == code_block_len(cs@.skip(i as int)),
{
    let ghost s = cs@.skip(i as int);
    let n = cs.len();
    if !fence_start(cs, i) {
        assert(fence_at(s, 0) == fence_at(cs@, i as int));
        return 0;
    }
    assert(fence_at(s, 0));
    let mut k: usize = n;
    while k > i && !fence_start(cs, k - 1)
        invariant
            i <= k <= n,
            n == cs@.len(),
            last_fence_before(cs@, n as nat) == last_fence_before(cs@, k as nat),
        decreases k,
    {
        k = k - 1;
    }
    proof {
        lemma_last_fence_shift(cs@, i as int, (n - i) as nat);
        assert(s.len() == n - i);
    }
    if k == i {
        proof {
            lemma_no_fence_below(cs@, i as nat);
        }
        return 0;
    }
    let j = k - 1 - i;
    if j >= 4 {
        j + 3
    } else {
        0
    }
}

/// Executable [`token_len`] of the suffix of `cs` that starts at `i`.
pub fn token_at(t: TokenKind, cs: &Vec<char>, i: usize) -> (r: usize)
    requires
        i <= cs@.len(),
    ensures
        r == token_len(t, cs@.skip(i as int)),
{
    match t {
        TokenKind::ExternalEmoji => external_emoji_at(cs, i),
        TokenKind::Uri => uri_at(cs, i),
        TokenKind::ShortEmoji => short_emoji_at(cs, i),
        TokenKind::CodeBlock => code_block_at(cs, i),
    }
}

/// Replaces every token of kind `t` in `s` by `rep`.
pub fn replace_all_tokens(s: &str, t: TokenKind, rep: &str) -> (r: String)
    ensures
        r@ == replace_tokens(s@, t, rep@),
{
    let cs = chars_of(s);
    let n = cs.len();
    let mut out = String::new();
    let mut i: usize = 0;
    assert(s@.skip(0) =~= s@);
    assert(out@ + s@ =~= s@) by {
        assert(out@ =~= Seq::<char>::empty());
    }
    while i < n
        invariant
            n == cs@.len(),
            cs@ == s@,
            i <= n,
            out@ + replace_tokens(s@.skip(i as int), t, rep@) == replace_tokens(s@, t, rep@),
        decreases n - i,
    {
        let ghost rest = s@.skip(i as int);
        let len = token_at(t, &cs, i);
        if 0 < len && len <= n - i {
            let ghost before = out@;
            out.append(rep);
            assert(rest.skip(len as int) =~= s@.skip(i + len));
            let ghost tail = replace_tokens(rest.skip(len as int), t, rep@);
            assert(before + (rep@ + tail) =~= out@ + tail);
            i = i + len;
        } else {
            let ghost before = out@;
            out.append(s.substring_char(i, i + 1));
            assert(rest.skip(1) =~= s@.skip(i + 1));
            assert(s@.subrange(i as int, i + 1) =~= seq![rest[0]]);
            let ghost tail = replace_tokens(rest.skip(1), t, rep@);
            assert(before + (seq![rest[0]] + tail) =~= out@ + tail);
            i = i + 1;
        }
    }
    assert(s@.skip(n as int) =~= Seq::<char>::empty());
    assert(out@ + Seq::<char>::empty() =~= out@);
    out
}

pub open spec fn fence() -> Seq<char> {
    seq!['`', '`', '`']
}

pub open spec fn has_no_backtick(s: Seq<char>) -> bool {
    forall|i: int| 0 <= i < s.len() ==> #[trigger] s[i] != '`'
}

proof fn lemma_backtick_free_prefix(pre: Seq<char>, rest: Seq<char>, rep: Seq<char>)
    requires
        has_no_backtick(pre),
    ensures
        replace_tokens(pre + rest, TokenKind::CodeBlock, rep) == pre + replace_tokens(
            rest,
            TokenKind::CodeBlock,
            rep,
        ),
    decreases pre.len(),
{
    if pre.len() == 0 {
        assert(pre + rest =~= rest);
        assert(pre + replace_tokens(rest, TokenKind::CodeBlock, rep) =~= replace_tokens(
            rest,
            TokenKind::CodeBlock,
            rep,
        ));
    } else {
        let s = pre + rest;
        assert(s[0] == pre[0]);
        assert(!fence_at(s, 0));
        assert(s.skip(1) =~= pre.skip(1) + rest);
        assert(has_no_backtick(pre.skip(1))) by {
            assert forall|i: int| 0 <= i < pre.skip(1).len() implies #[trigger] pre.skip(1)[i]
                != '`' by {
                assert(pre.skip(1)[i] == pre[i + 1]);
            }
        }
        lemma_backtick_free_prefix(pre.skip(1), rest, rep);
        assert(seq![s[0]] + (pre.skip(1) + replace_tokens(rest, TokenKind::CodeBlock, rep))
            =~= pre + replace_tokens(rest, TokenKind::CodeBlock, rep));
    }
}

proof fn lemma_last_fence_is_closing(t: Seq<char>, j: nat, k: nat)
    requires
        fence_at(t, j as int),
        j < k <= t.len(),
        forall|i: int| j + 3 <= i < t.len() ==> #[trigger] t[i] != '`',
    ensures
        last_fence_before(t, k) == Some(j),
    decreases k - j,
{
    if k > j + 1 {
        assert(!fence_at(t, k - 1)) by {
            if k - 1 + 3 <= t.len() {
                assert(t[k - 1 + 2] != '`');
            }
        }
        lemma_last_fence_is_closing(t, j, (k - 1) as nat);
    }
}

/// A fenced block with text around it that holds no backtick collapses to
/// the replacement, and the text around it is kept as it is.
pub proof fn lemma_fenced_block_collapses(
    pre: Seq<char>,
    body: Seq<char>,
    post: Seq<char>,
    rep: Seq<char>,
)
    requires
        body.len() > 0,
        has_no_backtick(pre),
        has_no_backtick(post),
    ensures
        replace_tokens(pre + fence() + body + fence() + post, TokenKind::CodeBlock, rep) == pre
            + rep + post,
{
    let t = fence() + body + fence() + post;
    let j = 3 + body.len();
    assert(pre + fence() + body + fence() + post =~= pre + t);
    lemma_backtick_free_prefix(pre, t, rep);
    assert(fence_at(t, 0));
    assert(fence_at(t, j as int));
    assert forall|i: int| j + 3 <= i < t.len() implies #[trigger] t[i] != '`' by {
        assert(t[i] == post[i - j - 3]);
    }
    lemma_last_fence_is_closing(t, j, t.len());
    assert(code_block_len(t) == j + 3);
    assert(t.skip(j + 3 as int) =~= post);
    lemma_backtick_free_prefix(post, Seq::empty(), rep);
    assert(post + Seq::<char>::empty() =~= post);
    assert(replace_tokens(Seq::<char>::empty(), TokenKind::CodeBlock, rep) == Seq::<char>::empty());
    assert(pre + (rep + post) =~= pre + rep + post);
}

} // verus!
