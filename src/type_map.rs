//! Mapping of C type names to the names the Rust bindings use.
use vstd::prelude::*;
use crate::outside::{char_to_uppercase, pascal_case_of, to_pascal_case, uppercase_of};
use crate::text::{has_prefix, owned, skip, slice, starts_with, str_eq};

verus! {

/// The fixed table of C primitives with a Rust counterpart.
pub open spec fn primitive_rust_type(c: Seq<char>) -> Option<Seq<char>> {
    if c == "float"@ {
        Some("f32"@)
    } else if c == "double"@ {
        Some("f64"@)
    } else if c == "char"@ {
        Some("i8"@)
    } else if c == "int"@ {
        Some("i32"@)
    } else if c == "unsigned char"@ {
        Some("u8"@)
    } else if c == "unsigned int"@ {
        Some("u32"@)
    } else {
        None
    }
}

/// The generic foreign-primitive name for a C type token.
pub open spec fn ffi_type(c: Seq<char>) -> Seq<char> {
    "std::ffi::c_"@ + c
}

/// The Rust name of a C type: library C names (prefix `mj`) in PascalCase,
/// names already in that form (prefix `Mj`) unchanged, then the primitive
/// table, then the foreign-primitive fallback.
pub open spec fn rust_type_of(c: Seq<char>) -> Seq<char> {
    if has_prefix(c, "mj"@) {
        pascal_case_of(c)
    } else if has_prefix(c, "Mj"@) {
        c
    } else {
        match primitive_rust_type(c) {
            Some(t) => t,
            None => ffi_type(c),
        }
    }
}

/// `s` with its first character upper-cased.
pub open spec fn capitalized(s: Seq<char>) -> Seq<char> {
    uppercase_of(s[0]) + skip(s, 1)
}

pub fn capitalize(s: &str) -> (r: String)
    requires
        s@.len() > 0,
    ensures
        r@ == capitalized(s@),
        'A' <= s@[0] && s@[0] <= 'Z' ==> r@ == s@,
        'a' <= s@[0] && s@[0] <= 'z' ==> r@.len() == s@.len() && 'A' <= r@[0] && r@[0] <= 'Z'
            && skip(r@, 1) == skip(s@, 1),
{
    let n = s.unicode_len();
    let mut r = char_to_uppercase(s.get_char(0));
    let ghost u = r@;
    let rest = slice(s, 1, n);
    r.append(rest.as_str());
    proof {
        if 'A' <= s@[0] && s@[0] <= 'Z' {
            assert(r@ =~= s@);
        }
        if 'a' <= s@[0] && s@[0] <= 'z' {
            assert(skip(r@, 1) =~= rest@);
        }
    }
    r
}

pub fn primitive_type(c: &str) -> (r: Option<String>)
    ensures
        r.deep_view() == primitive_rust_type(c@),
{
    if str_eq(c, "float") {
        Some(owned("f32"))
    } else if str_eq(c, "double") {
        Some(owned("f64"))
    } else if str_eq(c, "char") {
        Some(owned("i8"))
    } else if str_eq(c, "int") {
        Some(owned("i32"))
    } else if str_eq(c, "unsigned char") {
        Some(owned("u8"))
    } else if str_eq(c, "unsigned int") {
        Some(owned("u32"))
    } else {
        None
    }
}

pub fn ffi_type_name(c: &str) -> (r: String)
    ensures
        r@ == ffi_type(c@),
{
    let mut r = owned("std::ffi::c_");
    r.append(c);
    r
}

/// The Rust type name for the C type `datatype`.
pub fn convert_type(datatype: &str) -> (r: String)
    ensures
        r@ == rust_type_of(datatype@),
{
    if starts_with(datatype, "mj") {
        to_pascal_case(datatype)
    } else if starts_with(datatype, "Mj") {
        owned(datatype)
    } else {
        match primitive_type(datatype) {
            Some(t) => t,
            None => ffi_type_name(datatype),
        }
    }
}

/// A name already in the bindings' capitalized form (`Mj...`) maps to itself,
/// so mapping such a name again changes nothing.
pub proof fn lemma_canonical_name_maps_to_itself(s: Seq<char>)
    requires
        has_prefix(s, "Mj"@),
    ensures
        rust_type_of(s) == s,
        rust_type_of(rust_type_of(s)) == rust_type_of(s),
{
    reveal_strlit("Mj");
    reveal_strlit("mj");
    assert(!has_prefix(s, "mj"@)) by {
        if has_prefix(s, "mj"@) {
            assert(s.subrange(0, 2)[0] == "mj"@[0]);
            assert(s.subrange(0, 2)[0] == "Mj"@[0]);
        }
    }
}

} // verus!
