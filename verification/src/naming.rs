//! Names that are derived from other names.

use crate::text::{ascii_upper, chars_of, string_of};
use vstd::prelude::*;
use vstd::string::*;

verus! {

/// The upper-case form of a character that is no ASCII character.
pub uninterp spec fn upper_of(c: char) -> Seq<char>;

/// `char::to_uppercase`: the upper-case form of `c`, of one or more
/// characters. Of an ASCII character it is the ASCII upper-case letter, or the
/// character itself where it is no lower-case letter. Of other characters it is
/// not stated.
#[verifier::external_body]
fn uppercase(c: char) -> (r: String)
    ensures
        (c as u32) < 128 ==> r@ == seq![ascii_upper(c)],
        (c as u32) >= 128 ==> r@ == upper_of(c),
{
    c.to_uppercase().to_string()
}

/// The upper-case form of a character.
pub open spec fn upper(c: char) -> Seq<char> {
    if (c as u32) < 128 {
        seq![ascii_upper(c)]
    } else {
        upper_of(c)
    }
}

/// `s` with its first character in upper case.
pub open spec fn capitalized(s: Seq<char>) -> Seq<char> {
    if s.len() == 0 {
        Seq::empty()
    } else {
        upper(s[0]) + s.subrange(1, s.len() as int)
    }
}

/// Puts the first character of `s` in upper case and keeps the rest.
pub fn capitalize_first(s: &str) -> (r: String)
    ensures
        r@ == capitalized(s@),
{
    let v = chars_of(s);
    if v.len() == 0 {
        return String::new();
    }
    let first = uppercase(v[0]);
    let rest = string_of(&v, 1, v.len());
    first.concat(rest.as_str())
}

/// `prefix` followed by the capitalized property name; by `_` where the name
/// is empty.
pub open spec fn prefixed_name(prefix: Seq<char>, prop_name: Seq<char>) -> Seq<char> {
    if prop_name.len() == 0 {
        prefix + "_"@
    } else {
        prefix + capitalized(prop_name)
    }
}

fn prefixed(prefix: &str, prop_name: &str) -> (r: String)
    ensures
        r@ == prefixed_name(prefix@, prop_name@),
{
    if prop_name.is_empty() {
        return prefix.to_owned().concat("_");
    }
    prefix.to_owned().concat(capitalize_first(prop_name).as_str())
}

/// The setter of a property: `text` has `setText`.
pub fn setter_name(prop_name: &str) -> (r: String)
    ensures
        r@ == prefixed_name("set"@, prop_name@),
{
    prefixed("set", prop_name)
}

/// The bindable getter of a property: `text` has `bindableText`.
pub fn bindable_getter_name(prop_name: &str) -> (r: String)
    ensures
        r@ == prefixed_name("bindable"@, prop_name@),
{
    prefixed("bindable", prop_name)
}

/// The re-evaluation method of a computed property: `ratio` has
/// `computeRatio`.
pub fn compute_method_name(prop_name: &str) -> (r: String)
    ensures
        r@ == "compute"@ + capitalized(prop_name@),
{
    "compute".to_owned().concat(capitalize_first(prop_name).as_str())
}

} // verus!
