//! Comparisons of names read from level data.
use vstd::prelude::*;
use vstd::string::StringExecFns;

verus! {

/// `s` reads exactly `lit`.
pub fn text_is(s: &String, lit: &str) -> (r: bool)
    ensures
        r == (s@ == lit@),
{
    let t = <String as StringExecFns>::from_str(lit);
    s.eq(&t)
}

/// `name` is `base` followed by `suffix`.
pub fn text_is_suffixed(name: &String, base: &String, suffix: &str) -> (r: bool)
    ensures
        r == (name@ == base@ + suffix@),
{
    let t = base.clone().concat(suffix);
    name.eq(&t)
}

} // verus!
