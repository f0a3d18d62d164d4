use vstd::prelude::*;

verus! {

/// `s` in lowerCamelCase, as heck spells it.
pub uninterp spec fn lower_camel_of(s: Seq<char>) -> Seq<char>;

/// `s` in UpperCamelCase, as heck spells it.
pub uninterp spec fn upper_camel_of(s: Seq<char>) -> Seq<char>;

/// Relies on heck's `ToLowerCamelCase::to_lower_camel_case` for `str`: its
/// result depends on the characters alone.
#[verifier::external_body]
pub(crate) fn to_lower_camel(s: &str) -> (r: String)
    ensures
        r@ == lower_camel_of(s@),
{
    heck::ToLowerCamelCase::to_lower_camel_case(s)
}

/// Relies on heck's `ToUpperCamelCase::to_upper_camel_case` for `str`: its
/// result depends on the characters alone.
#[verifier::external_body]
pub(crate) fn to_upper_camel(s: &str) -> (r: String)
    ensures
        r@ == upper_camel_of(s@),
{
    heck::ToUpperCamelCase::to_upper_camel_case(s)
}

} // verus!
