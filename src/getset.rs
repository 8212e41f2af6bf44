//! `impl_getter_setter!` invocations for the commented fields of a struct.
use vstd::prelude::*;
use crate::GenError;
use crate::info_method::skip_pieces;
use crate::outside::{find_captures, regex_captures};
use crate::text::{
    cat, ends_with, find_char, first_index_of, has_prefix, has_suffix, join_range, join_seq,
    lemma_first_index, lines, lines_of, owned, slice, starts_with, str_eq, words, words_of,
};
use crate::type_map::{capitalize, capitalized, ffi_type, ffi_type_name};

verus! {

/// The start and the end of the pattern that finds a struct around its name.
pub const RE_STRUCT_CONTENT_LEFT: &'static str = r"(?s)struct\s*";

pub const RE_STRUCT_CONTENT_RIGHT: &'static str = r"+\s*\{.*?\}";

pub open spec fn content_pattern(struct_name: Seq<char>) -> Seq<char> {
    RE_STRUCT_CONTENT_LEFT@ + struct_name + RE_STRUCT_CONTENT_RIGHT@
}

/// The Rust type of a field's C type: the table, library types capitalized,
/// and the foreign-primitive name for any other type.
pub open spec fn accessor_type(t: Seq<char>) -> Seq<char> {
    if t == "int"@ {
        "u32"@
    } else if t == "uint64_t"@ {
        "u64"@
    } else if t == "size_t"@ {
        "usize"@
    } else if has_prefix(t, "mj"@) {
        capitalized(t)
    } else {
        ffi_type(t)
    }
}

/// `s` without one trailing `p`, if it ends with it.
pub open spec fn strip_one_suffix(s: Seq<char>, p: Seq<char>) -> Seq<char> {
    if has_suffix(s, p) {
        s.subrange(0, s.len() - p.len())
    } else {
        s
    }
}

/// A field's name from the word after its type: up to a `[`, or without a `;`.
pub open spec fn field_name(w: Seq<char>) -> Seq<char> {
    match first_index_of(w, '[') {
        Some(k) => w.subrange(0, k),
        None => strip_one_suffix(w, ";"@),
    }
}

/// The output for one line of the struct: an invocation for a field line
/// `type name // comment`, nothing for any other line.
pub open spec fn getset_line(line: Seq<char>, accessor: Seq<char>) -> Option<Seq<char>> {
    let w = words_of(line);
    if w.len() < 3 || has_suffix(w[0], "*"@) || w[2] != "//"@ {
        None
    } else {
        let rest = join_seq(skip_pieces(w, 3), " "@);
        Some(
            "impl_getter_setter!(get, "@ + field_name(w[1]) + ", \""@ + rest + "\", "@
                + accessor_type(w[0]) + ", "@ + accessor + ");"@,
        )
    }
}

/// The outputs for the lines of a struct, in order.
pub open spec fn getset_lines(ls: Seq<Seq<char>>, accessor: Seq<char>) -> Seq<Seq<char>>
    decreases ls.len(),
{
    if ls.len() == 0 {
        Seq::<Seq<char>>::empty()
    } else {
        let more = match getset_line(ls.last(), accessor) {
            Some(l) => seq![l],
            None => Seq::<Seq<char>>::empty(),
        };
        getset_lines(ls.drop_last(), accessor) + more
    }
}

fn accessor_type_text(t: &str) -> (r: String)
    ensures
        r@ == accessor_type(t@),
{
    proof {
        reveal_strlit("mj");
    }
    if str_eq(t, "int") {
        owned("u32")
    } else if str_eq(t, "uint64_t") {
        owned("u64")
    } else if str_eq(t, "size_t") {
        owned("usize")
    } else if starts_with(t, "mj") {
        capitalize(t)
    } else {
        ffi_type_name(t)
    }
}

fn field_name_text(w: &str) -> (r: String)
    ensures
        r@ == field_name(w@),
{
    proof {
        lemma_first_index(w@, '[');
        reveal_strlit(";");
    }
    let n = w.unicode_len();
    match find_char(w, '[') {
        Some(k) => slice(w, 0, k),
        None => if ends_with(w, ";") {
            slice(w, 0, n - 1)
        } else {
            owned(w)
        },
    }
}

/// The output for one line of a struct, as `getset_line` describes it.
pub fn getset_line_text(line: &str, accessor: &str) -> (r: Option<String>)
    ensures
        r.deep_view() == getset_line(line@, accessor@),
{
    let w = words(line);
    if w.len() < 3 || ends_with(w[0].as_str(), "*") || !str_eq(w[2].as_str(), "//") {
        return None;
    }
    assert(skip_pieces(w.deep_view(), 3) =~= w.deep_view().subrange(3, w.len() as int));
    let rest = join_range(&w, 3, w.len(), " ");
    let mut r = cat("impl_getter_setter!(get, ", field_name_text(w[1].as_str()).as_str());
    r.append(", \"");
    r.append(rest.as_str());
    r.append("\", ");
    r.append(accessor_type_text(w[0].as_str()).as_str());
    r.append(", ");
    r.append(accessor);
    r.append(");");
    Some(r)
}

/// The outputs for the lines of a struct's text, in order.
pub fn getset_lines_from(content: &str, accessor: &str) -> (r: Vec<String>)
    ensures
        r.deep_view() == getset_lines(lines_of(content@), accessor@),
{
    let ls = lines(content);
    let mut out: Vec<String> = Vec::new();
    let mut i: usize = 0;
    while i < ls.len()
        invariant
            i <= ls.len(),
            ls.deep_view() == lines_of(content@),
            out.deep_view() == getset_lines(ls.deep_view().subrange(0, i as int), accessor@),
        decreases ls.len() - i,
    {
        let ghost lv = ls.deep_view();
        assert(lv.subrange(0, i + 1).drop_last() =~= lv.subrange(0, i as int));
        let ghost before = out.deep_view();
        match getset_line_text(ls[i].as_str(), accessor) {
            Some(l) => {
                out.push(l);
                assert(out.deep_view() =~= before + seq![l@]);
            },
            None => {
                assert(out.deep_view() =~= before + Seq::<Seq<char>>::empty());
            },
        }
        i += 1;
    }
    assert(ls.deep_view().subrange(0, i as int) =~= ls.deep_view());
    out
}

/// The `impl_getter_setter!` invocations for the struct `struct_name` in a
/// header's text, each reading through `accessor`.
pub fn create_impl_getter_setter(filedata: &str, struct_name: &str, accessor: &str) -> (r: Result<Vec<String>, GenError>)
    ensures
        match regex_captures(content_pattern(struct_name@), filedata@) {
            None => r == Err::<Vec<String>, GenError>(GenError::InvalidPattern),
            Some(found) => if found.len() > 0 && found[0].len() > 0 {
                r matches Ok(v) && v.deep_view() == getset_lines(lines_of(found[0][0]), accessor@)
            } else {
                r == Err::<Vec<String>, GenError>(GenError::AnchorNotFound)
            },
        },
{
    let mut pattern = cat(RE_STRUCT_CONTENT_LEFT, struct_name);
    pattern.append(RE_STRUCT_CONTENT_RIGHT);
    match find_captures(pattern.as_str(), filedata) {
        None => Err(GenError::InvalidPattern),
        Some(found) => {
            if found.len() > 0 && found[0].len() > 0 {
                assert(found[0].deep_view() == found.deep_view()[0]);
                Ok(getset_lines_from(found[0][0].as_str(), accessor))
            } else {
                Err(GenError::AnchorNotFound)
            }
        },
    }
}

} // verus!
