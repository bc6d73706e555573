//! Size estimates for values whose allocation was never observed.

use vstd::prelude::*;
use crate::text::{chars_contain, is_substring, to_chars};

verus! {

/// The estimate for a type name, by the most specific pattern that occurs in it:
/// boxed containers first, then reference-counted handles, then bare containers.
pub open spec fn estimated_size(name: Seq<char>) -> usize {
    if is_substring(name, "Box<"@) {
        if is_substring(name, "Vec"@) {
            64
        } else if is_substring(name, "String"@) {
            48
        } else if is_substring(name, "HashMap"@) {
            128
        } else {
            32
        }
    } else if is_substring(name, "Rc<"@) || is_substring(name, "Arc<"@) {
        if is_substring(name, "RefCell"@) {
            72
        } else {
            56
        }
    } else if is_substring(name, "Vec<"@) {
        48
    } else if is_substring(name, "String"@) {
        32
    } else if is_substring(name, "HashMap"@) {
        96
    } else {
        24
    }
}

/// Whether the literal `pattern` occurs in `name`.
fn mentions(name: &Vec<char>, pattern: &str) -> (found: bool)
    ensures
        found == is_substring(name@, pattern@),
{
    let p = to_chars(pattern);
    chars_contain(name, &p)
}

/// Estimates the size in bytes of a value from the name of its type.
pub fn estimate_type_size(type_label: &str) -> (size: usize)
    ensures
        size == estimated_size(type_label@),
{
    let name = to_chars(type_label);
    if mentions(&name, "Box<") {
        if mentions(&name, "Vec") {
            64
        } else if mentions(&name, "String") {
            48
        } else if mentions(&name, "HashMap") {
            128
        } else {
            32
        }
    } else if mentions(&name, "Rc<") || mentions(&name, "Arc<") {
        if mentions(&name, "RefCell") {
            72
        } else {
            56
        }
    } else if mentions(&name, "Vec<") {
        48
    } else if mentions(&name, "String") {
        32
    } else if mentions(&name, "HashMap") {
        96
    } else {
        24
    }
}

} // verus!
