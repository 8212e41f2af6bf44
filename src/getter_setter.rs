//! Getter, setter and builder entries for the fields of a struct.
use vstd::prelude::*;
use crate::GenError;
use crate::array_slice::{enum_override, enum_split_of, struct_pattern, RE_STRUCT_HEAD, RE_STRUCT_TAIL};
use crate::outside::{find_captures, regex_captures};
use crate::text::{all_digits, cat, has_prefix, is_all_digits, owned, starts_with, trim, trim_str};
use crate::type_map::{convert_type, rust_type_of};

verus! {

/// A scalar field `type name; // comment`.
pub const ATTR_NORMAL_REGEX: &'static str = r"(?m)((?:unsigned\s+)?[^\s*]+)(?:\s+([^\s\[]+));\s+//\s*(.*)$";

/// An array field `type name[size]; // comment`.
pub const ATTR_ARRAY_REGEX: &'static str = r"(?m)((?:unsigned\s+)?[^\s*]+)(?:\s+([^\s]+)\[(.+)\]);\s+//\s*(.*)$";

/// The entry of a scalar field: library structs (not enums) by reference, and
/// a note where the comment named an enum type.
pub open spec fn scalar_entry(datatype: Seq<char>, name: Seq<char>, comment: Seq<char>) -> Seq<char> {
    let (c, t, was_enum) = enum_override(comment, datatype);
    let ty = rust_type_of(t);
    let head = if has_prefix(ty, "Mj"@) && !has_prefix(t, "Mjt"@) {
        name + ": &"@ + ty
    } else {
        name + ": "@ + ty
    };
    let note = if was_enum {
        " // force type coercion!"@
    } else {
        Seq::<char>::empty()
    };
    head + "; \""@ + trim(c) + ".\";"@ + note
}

/// The entry of an array field; a size that is not a literal gets a cast.
pub open spec fn array_entry(datatype: Seq<char>, name: Seq<char>, size: Seq<char>, comment: Seq<char>) -> Seq<char> {
    let (c, t, _) = enum_override(comment, datatype);
    let cast = if all_digits(size) {
        Seq::<char>::empty()
    } else {
        " as usize"@
    };
    name + ": &["@ + rust_type_of(t) + "; "@ + size + cast + "]; \""@ + trim(c) + ".\";"@
}

/// The entries of the scalar matches (rows of four groups), in order.
pub open spec fn scalar_entries(rows: Seq<Seq<Seq<char>>>) -> Seq<Seq<char>>
    decreases rows.len(),
{
    if rows.len() == 0 {
        Seq::<Seq<char>>::empty()
    } else {
        let row = rows.last();
        let more = if row.len() == 4 {
            seq![scalar_entry(row[1], row[2], row[3])]
        } else {
            Seq::<Seq<char>>::empty()
        };
        scalar_entries(rows.drop_last()) + more
    }
}

/// The entries of the array matches (rows of five groups), in order.
pub open spec fn array_entries(rows: Seq<Seq<Seq<char>>>) -> Seq<Seq<char>>
    decreases rows.len(),
{
    if rows.len() == 0 {
        Seq::<Seq<char>>::empty()
    } else {
        let row = rows.last();
        let more = if row.len() == 5 {
            seq![array_entry(row[1], row[2], row[3], row[4])]
        } else {
            Seq::<Seq<char>>::empty()
        };
        array_entries(rows.drop_last()) + more
    }
}

pub open spec fn entries_in(pattern: Seq<char>, body: Seq<char>, array: bool) -> Seq<Seq<char>> {
    match regex_captures(pattern, body) {
        Some(rows) => if array {
            array_entries(rows)
        } else {
            scalar_entries(rows)
        },
        None => Seq::<Seq<char>>::empty(),
    }
}

/// Splits an enum type out of a comment, and says whether there was one.
pub fn extract_possible_enum(docstring: &str, datatype: &str) -> (r: (String, String, bool))
    ensures
        (r.0@, r.1@, r.2) == enum_override(docstring@, datatype@),
{
    enum_split_of(docstring, datatype)
}

/// The entry of the scalar field `datatype name; // comment`.
pub fn scalar_entry_text(datatype: &str, name: &str, comment: &str) -> (r: String)
    ensures
        r@ == scalar_entry(datatype@, name@, comment@),
{
    let (c, t, was_enum) = extract_possible_enum(comment, datatype);
    let ty = convert_type(t.as_str());
    let mut r = owned(name);
    if starts_with(ty.as_str(), "Mj") && !starts_with(t.as_str(), "Mjt") {
        r.append(": &");
    } else {
        r.append(": ");
    }
    r.append(ty.as_str());
    r.append("; \"");
    r.append(trim_str(c.as_str()).as_str());
    r.append(".\";");
    if was_enum {
        r.append(" // force type coercion!");
    }
    proof {
        assert(Seq::<char>::empty() + Seq::<char>::empty() =~= Seq::<char>::empty());
    }
    r
}

/// The entry of the array field `datatype name[size]; // comment`.
pub fn array_entry_text(datatype: &str, name: &str, size: &str, comment: &str) -> (r: String)
    ensures
        r@ == array_entry(datatype@, name@, size@, comment@),
{
    let (c, t, _) = extract_possible_enum(comment, datatype);
    let mut r = owned(name);
    r.append(": &[");
    r.append(convert_type(t.as_str()).as_str());
    r.append("; ");
    r.append(size);
    if !is_all_digits(size) {
        r.append(" as usize");
    }
    r.append("]; \"");
    r.append(trim_str(c.as_str()).as_str());
    r.append(".\";");
    proof {
        assert(Seq::<char>::empty() + Seq::<char>::empty() =~= Seq::<char>::empty());
    }
    r
}

/// The entries for the matches of the scalar (`array == false`) or array
/// pattern, in order.
pub fn entries_from(rows: &Vec<Vec<String>>, array: bool) -> (r: Vec<String>)
    ensures
        r.deep_view() == if array {
            array_entries(rows.deep_view())
        } else {
            scalar_entries(rows.deep_view())
        },
{
    let mut out: Vec<String> = Vec::new();
    let mut i: usize = 0;
    while i < rows.len()
        invariant
            i <= rows.len(),
            out.deep_view() == if array {
                array_entries(rows.deep_view().subrange(0, i as int))
            } else {
                scalar_entries(rows.deep_view().subrange(0, i as int))
            },
        decreases rows.len() - i,
    {
        let ghost rv = rows.deep_view();
        assert(rv.subrange(0, i + 1).drop_last() =~= rv.subrange(0, i as int));
        let row = &rows[i];
        assert(row.deep_view() == rv[i as int]);
        let ghost before = out.deep_view();
        if array && row.len() == 5 {
            let e = array_entry_text(row[1].as_str(), row[2].as_str(), row[3].as_str(), row[4].as_str());
            out.push(e);
            assert(out.deep_view() =~= before + seq![e@]);
        } else if !array && row.len() == 4 {
            let e = scalar_entry_text(row[1].as_str(), row[2].as_str(), row[3].as_str());
            out.push(e);
            assert(out.deep_view() =~= before + seq![e@]);
        } else {
            assert(out.deep_view() =~= before + Seq::<Seq<char>>::empty());
        }
        i += 1;
    }
    assert(rows.deep_view().subrange(0, i as int) =~= rows.deep_view());
    out
}

/// The getter/setter/builder entries for the struct `struct_name` in a
/// header's text: the scalar fields, then the array fields.
pub fn create_getters_setters(filedata: &str, struct_name: &str) -> (r: Result<
    (Vec<String>, Vec<String>),
    GenError,
>)
    ensures
        match regex_captures(struct_pattern(struct_name@), filedata@) {
            None => r == Err::<(Vec<String>, Vec<String>), GenError>(GenError::InvalidPattern),
            Some(found) => if found.len() > 0 && found[0].len() > 0 {
                r matches Ok((scalars, arrays)) && scalars.deep_view() == entries_in(
                    ATTR_NORMAL_REGEX@,
                    found[0][0],
                    false,
                ) && arrays.deep_view() == entries_in(ATTR_ARRAY_REGEX@, found[0][0], true)
            } else {
                r == Err::<(Vec<String>, Vec<String>), GenError>(GenError::AnchorNotFound)
            },
        },
{
    let mut pattern = cat(RE_STRUCT_HEAD, struct_name);
    pattern.append(RE_STRUCT_TAIL);
    match find_captures(pattern.as_str(), filedata) {
        None => Err(GenError::InvalidPattern),
        Some(found) => {
            if found.len() > 0 && found[0].len() > 0 {
                assert(found[0].deep_view() == found.deep_view()[0]);
                let body = found[0][0].as_str();
                let scalars = match find_captures(ATTR_NORMAL_REGEX, body) {
                    Some(rows) => entries_from(&rows, false),
                    None => Vec::new(),
                };
                let arrays = match find_captures(ATTR_ARRAY_REGEX, body) {
                    Some(rows) => entries_from(&rows, true),
                    None => Vec::new(),
                };
                Ok((scalars, arrays))
            } else {
                Err(GenError::AnchorNotFound)
            }
        },
    }
}

} // verus!
