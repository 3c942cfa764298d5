//! The subcommands of the dictionary command.

use vstd::prelude::*;
use vstd::string::StrSliceExecFns;

verus! {

/// What a dictionary command asks for.
#[derive(Clone, Copy, PartialEq, Eq, Structural, Debug)]
pub enum DictSubcommand {
    /// `add word replacement`
    Add,
    /// `remove word`
    Remove,
    /// Anything else.
    Unknown,
}

pub open spec fn add_name() -> Seq<char> {
    seq!['a', 'd', 'd']
}

pub open spec fn remove_name() -> Seq<char> {
    seq!['r', 'e', 'm', 'o', 'v', 'e']
}

/// Whether two strings hold the same characters.
pub fn same_text(a: &str, b: &str) -> (r: bool)
    ensures
        r == (a@ == b@),
{
    let n = a.unicode_len();
    if n != b.unicode_len() {
        return false;
    }
    let mut i: usize = 0;
    while i < n
        invariant
            n == a@.len(),
            n == b@.len(),
            i <= n,
            forall|k: int| 0 <= k < i ==> a@[k] == b@[k],
        decreases n - i,
    {
        if a.get_char(i) != b.get_char(i) {
            return false;
        }
        i = i + 1;
    }
    assert(a@ =~= b@);
    true
}

/// The subcommand named `name`.
pub fn dict_subcommand(name: &str) -> (r: DictSubcommand)
    ensures
        r == (if name@ == add_name() {
            DictSubcommand::Add
        } else if name@ == remove_name() {
            DictSubcommand::Remove
        } else {
            DictSubcommand::Unknown
        }),
{
    let add = "add";
    let remove = "remove";
    proof {
        reveal_strlit("add");
        reveal_strlit("remove");
    }
    assert(add@ =~= add_name());
    assert(remove@ =~= remove_name());
    if same_text(name, add) {
        DictSubcommand::Add
    } else if same_text(name, remove) {
        DictSubcommand::Remove
    } else {
        DictSubcommand::Unknown
    }
}

} // verus!
