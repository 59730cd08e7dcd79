//! Short symbolic names, as the ledger host packs them into one machine word.

use vstd::prelude::*;

verus! {

/// The longest name that fits the packed form.
pub const SHORT_NAME_MAX: usize = 9;

/// Whether `c` may occur in a symbolic name: a letter, a digit or `_`.
pub open spec fn is_name_char(c: char) -> bool {
    ||| c == '_'
    ||| ('0' <= c && c <= '9')
    ||| ('A' <= c && c <= 'Z')
    ||| ('a' <= c && c <= 'z')
}

/// Whether `name` can be packed: at most nine characters, each a letter, a
/// digit or `_`.
pub open spec fn is_short_name(name: Seq<char>) -> bool {
    &&& name.len() <= SHORT_NAME_MAX
    &&& forall|i: int| 0 <= i < name.len() ==> is_name_char(#[trigger] name[i])
}

/// The machine word that the host's small-symbol encoding gives to `name`.
/// It is only meaningful where `is_short_name(name)` holds.
pub uninterp spec fn packed_symbol(name: Seq<char>) -> u64;

/// Calls `soroban_sdk::Symbol::short` and reads the 64-bit payload of the
/// value it returns (`Symbol::to_val`, then `Val::get_payload`).
///
/// Trusted: the SDK panics on a name that is too long or holds another
/// character, which the precondition rules out; for every other name the
/// payload is a function of the name alone, here called `packed_symbol`.
#[allow(deprecated)]
#[verifier::external_body]
fn pack_short_name(name: &str) -> (code: u64)
    requires
        is_short_name(name@),
    ensures
        code == packed_symbol(name@),
{
    soroban_sdk::Symbol::short(name).to_val().get_payload()
}

/// A short symbolic name (a badge, a nickname), held in its packed form.
/// Symbols are told apart by their codes.
#[derive(Clone, Copy, Debug, PartialEq, Eq, Structural)]
pub struct Symbol {
    pub code: u64,
}

/// Tests one character of a name.
fn name_char_ok(c: char) -> (ok: bool)
    ensures
        ok == is_name_char(c),
{
    c == '_' || ('0' <= c && c <= '9') || ('A' <= c && c <= 'Z') || ('a' <= c && c <= 'z')
}

impl Symbol {
    /// The symbol for `name`, or `None` where `name` is longer than nine
    /// characters or holds a character other than a letter, a digit or `_`.
    pub fn short(name: &str) -> (r: Option<Symbol>)
        ensures
            r is Some <==> is_short_name(name@),
            r matches Some(s) ==> s.code == packed_symbol(name@),
    {
        let n: usize = name.unicode_len();
        if n > SHORT_NAME_MAX {
            return None;
        }
        let mut i: usize = 0;
        while i < n
            invariant
                n == name@.len(),
                n <= SHORT_NAME_MAX,
                i <= n,
                forall|j: int| 0 <= j < i ==> is_name_char(#[trigger] name@[j]),
            decreases n - i,
        {
            let c = name.get_char(i);
            if !name_char_ok(c) {
                return None;
            }
            i += 1;
        }
        Some(Symbol { code: pack_short_name(name) })
    }
}

} // verus!
