//! What the rendering code takes from `String` beyond what vstd specifies.

use vstd::prelude::*;

verus! {

/// `String::push` of the standard library, for which vstd states no
/// contract. Its documentation says that it appends the given character to
/// the end of the string; the contract claims that and nothing else: the
/// characters that were there stay, in their order, and `ch` follows them.
/// Verus takes this on trust.
pub assume_specification[ String::push ](s: &mut String, ch: char)
    ensures
        final(s)@ == old(s)@.push(ch),
;

} // verus!
