//! Comparison of names.
use vstd::prelude::*;

verus! {

/// Whether an owned name and a borrowed one spell the same text.
pub fn same_text(a: &String, b: &str) -> (r: bool)
    ensures
        r == (a@ == b@),
{
    let key = b.to_owned();
    *a == key
}

/// An owned copy of a borrowed name.
pub fn owned_text(b: &str) -> (r: String)
    ensures
        r@ == b@,
{
    b.to_owned()
}

} // verus!
