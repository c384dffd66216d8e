//! The two character classes the engine asks about.
//!
//! Both are Unicode properties whose tables live in the standard library.
//! They are given a name each, and the standard methods are taken to compute
//! exactly that; nothing else is assumed about which characters belong.

use vstd::prelude::*;

verus! {

/// `c` is alphabetic or numeric, as `char::is_alphanumeric` decides it.
pub uninterp spec fn alphanumeric(c: char) -> bool;

/// `c` has the Unicode property `White_Space`, as `char::is_whitespace`
/// decides it.
pub uninterp spec fn whitespace(c: char) -> bool;

/// `char::is_alphanumeric` is a function of the character alone, named
/// [`alphanumeric`].
pub assume_specification[ char::is_alphanumeric ](c: char) -> (b: bool)
    ensures
        b == alphanumeric(c),
;

/// `char::is_whitespace` is a function of the character alone, named
/// [`whitespace`].
pub assume_specification[ char::is_whitespace ](c: char) -> (b: bool)
    ensures
        b == whitespace(c),
;

} // verus!
