//! Safe wrappers for C functions whose parameters are fixed-size arrays.
use vstd::prelude::*;
use crate::outside::{find_captures, regex_captures};
use crate::text::{
    lemma_first_index,
    cat, ends_with, find_char, first_index_of, has_prefix, has_suffix, join, join_seq,
    owned, slice, split_char, split_on, starts_with, str_eq, words, words_of,
};
use crate::type_map::{capitalize, capitalized, ffi_type, ffi_type_name};

verus! {

/// A declaration: `MJAPI`, the return type, the name and the parameter list.
pub const RE_FUNCTION_DECL: &'static str = r"MJAPI\s+((?:const)?\s*(?:[A-z0-9_*]+))\s+(\w+)\s*\((.+)\)";

/// The Rust type of a parameter's C type: library types capitalized, the
/// rest as foreign primitives.
pub open spec fn param_type_of(ty: Seq<char>) -> Seq<char> {
    if has_prefix(ty, "mj"@) {
        capitalized(ty)
    } else {
        ffi_type(ty)
    }
}

/// One parameter, as its Rust declaration and the argument forwarded to the
/// C function; `None` where the parameter cannot be wrapped.
pub open spec fn fixed_param(p: Seq<char>) -> Option<(Seq<char>, Seq<char>)> {
    let parts = words_of(p);
    if parts.len() < 2 {
        None
    } else if has_suffix(parts.last(), "]"@) {
        fixed_param_array(parts)
    } else {
        Some((parts[1] + ": "@ + param_type_of(parts[0]), parts[1]))
    }
}

/// An array parameter `[const] type name[len]`, from its words.
pub open spec fn fixed_param_array(parts: Seq<Seq<char>>) -> Option<(Seq<char>, Seq<char>)> {
    let end = parts.last();
    match first_index_of(end, '[') {
            None => None,
            Some(k) => {
                let len = end.subrange(k + 1, end.len() - 1);
                let name = end.subrange(0, k);
                let is_const = parts[0] == "const"@;
                let ty = if is_const {
                    parts[1]
                } else {
                    parts[0]
                };
                let arg = if is_const {
                    name + ".as_ptr()"@
                } else {
                    name + ".as_mut_ptr()"@
                };
                let reference = if is_const {
                    "&"@
                } else {
                    "&mut "@
                };
                Some((name + ": "@ + reference + "["@ + param_type_of(ty) + "; "@ + len + "]"@, arg))
            },
        }
}

/// All parameters of a list, or `None` where one of them cannot be wrapped.
pub open spec fn fixed_params(ps: Seq<Seq<char>>) -> Option<(Seq<Seq<char>>, Seq<Seq<char>>)>
    decreases ps.len(),
{
    if ps.len() == 0 {
        Some((Seq::<Seq<char>>::empty(), Seq::<Seq<char>>::empty()))
    } else {
        match (fixed_params(ps.drop_last()), fixed_param(ps.last())) {
            (Some((d, a)), Some((d1, a1))) => Some((d.push(d1), a.push(a1))),
            _ => None,
        }
    }
}

/// A list that fails to wrap at some point fails as a whole.
pub proof fn lemma_fixed_params_fail(ps: Seq<Seq<char>>, j: int)
    requires
        0 <= j <= ps.len(),
        fixed_params(ps.subrange(0, j)) is None,
    ensures
        fixed_params(ps) is None,
    decreases ps.len() - j,
{
    if j < ps.len() {
        assert(ps.subrange(0, j + 1).drop_last() =~= ps.subrange(0, j));
        lemma_fixed_params_fail(ps, j + 1);
    } else {
        assert(ps.subrange(0, j) =~= ps);
    }
}

/// The `-> T` part of a wrapper for a C return type.
pub open spec fn return_suffix(ret: Seq<char>) -> Seq<char> {
    if ret == "void"@ {
        Seq::<char>::empty()
    } else if has_prefix(ret, "mjt"@) {
        " -> "@ + capitalized(ret)
    } else {
        " -> "@ + ffi_type(ret)
    }
}

/// The wrapper for one declaration, or `None` where it holds a pointer or a
/// parameter that cannot be wrapped.
pub open spec fn fixed_wrapper(ret: Seq<char>, name: Seq<char>, params: Seq<char>) -> Option<
    Seq<char>,
> {
    if has_suffix(ret, "*"@) || params.contains('*') {
        None
    } else {
        match fixed_params(split_on(params, ',')) {
            None => None,
            Some((d, a)) => Some(
                "\n        pub fn "@ + name + "("@ + join_seq(d, ", "@) + ")"@ + return_suffix(ret)
                    + "  {\n            unsafe { "@ + name + "("@ + join_seq(a, ", "@)
                    + ") }\n        }\n        "@,
            ),
        }
    }
}

/// The wrappers for the matched declarations, in order: a row holds the whole
/// match, the return type, the name and the parameter list.
pub open spec fn fixed_wrappers(rows: Seq<Seq<Seq<char>>>) -> Seq<Seq<char>>
    decreases rows.len(),
{
    if rows.len() == 0 {
        Seq::<Seq<char>>::empty()
    } else {
        let row = rows.last();
        let more = if row.len() == 4 {
            match fixed_wrapper(row[1], row[2], row[3]) {
                Some(w) => seq![w],
                None => Seq::<Seq<char>>::empty(),
            }
        } else {
            Seq::<Seq<char>>::empty()
        };
        fixed_wrappers(rows.drop_last()) + more
    }
}

fn param_type_name(ty: &str) -> (r: String)
    ensures
        r@ == param_type_of(ty@),
{
    proof {
        reveal_strlit("mj");
    }
    if starts_with(ty, "mj") && ty.unicode_len() > 0 {
        capitalize(ty)
    } else {
        ffi_type_name(ty)
    }
}

fn array_param(parts: &Vec<String>) -> (r: Option<(String, String)>)
    requires
        parts.len() >= 2,
        has_suffix(parts.deep_view().last(), "]"@),
    ensures
        r.deep_view() == fixed_param_array(parts.deep_view()),
{
    let n = parts.len();
    let end = parts[n - 1].as_str();
    let ghost pv = parts.deep_view();
    assert(end@ == pv.last());
    proof {
        lemma_first_index(end@, '[');
    }
    match find_char(end, '[') {
        None => None,
        Some(k) => {
            let m = end.unicode_len();
            proof {
                reveal_strlit("]");
                assert(end@.subrange(m - 1, m as int)[0] == ']');
            }
            let len = slice(end, k + 1, m - 1);
            let name = slice(end, 0, k);
            let is_const = str_eq(parts[0].as_str(), "const");
            let ty = if is_const {
                parts[1].as_str()
            } else {
                parts[0].as_str()
            };
            let arg = if is_const {
                cat(name.as_str(), ".as_ptr()")
            } else {
                cat(name.as_str(), ".as_mut_ptr()")
            };
            let mut decl = cat(name.as_str(), ": ");
            if is_const {
                decl.append("&");
            } else {
                decl.append("&mut ");
            }
            decl.append("[");
            decl.append(param_type_name(ty).as_str());
            decl.append("; ");
            decl.append(len.as_str());
            decl.append("]");
            Some((decl, arg))
        },
    }
}

pub fn fixed_array_param(p: &str) -> (r: Option<(String, String)>)
    ensures
        r.deep_view() == fixed_param(p@),
{
    let parts = words(p);
    let n = parts.len();
    if n < 2 {
        return None;
    }
    if ends_with(parts[n - 1].as_str(), "]") {
        array_param(&parts)
    } else {
        let mut decl = cat(parts[1].as_str(), ": ");
        decl.append(param_type_name(parts[0].as_str()).as_str());
        Some((decl, owned(parts[1].as_str())))
    }
}

pub fn return_type_suffix(ret: &str) -> (r: String)
    ensures
        r@ == return_suffix(ret@),
{
    if str_eq(ret, "void") {
        String::new()
    } else if starts_with(ret, "mjt") {
        proof {
            reveal_strlit("mjt");
        }
        cat(" -> ", capitalize(ret).as_str())
    } else {
        cat(" -> ", ffi_type_name(ret).as_str())
    }
}

/// The wrapper for the declaration `ret name(params)`, if it can be made.
pub fn fixed_array_wrapper(ret: &str, name: &str, params: &str) -> (r: Option<String>)
    ensures
        r.deep_view() == fixed_wrapper(ret@, name@, params@),
        params@.contains('*') ==> r is None,
{
    proof {
        lemma_first_index(params@, '*');
    }
    if ends_with(ret, "*") || find_char(params, '*').is_some() {
        return None;
    }
    let pieces = split_char(params, ',');
    let mut decls: Vec<String> = Vec::new();
    let mut args: Vec<String> = Vec::new();
    let mut i: usize = 0;
    while i < pieces.len()
        invariant
            i <= pieces.len(),
            pieces.deep_view() == split_on(params@, ','),
            fixed_params(pieces.deep_view().subrange(0, i as int)) == Some(
                (decls.deep_view(), args.deep_view()),
            ),
        decreases pieces.len() - i,
    {
        let ghost pv = pieces.deep_view();
        assert(pv.subrange(0, i + 1).drop_last() =~= pv.subrange(0, i as int));
        match fixed_array_param(pieces[i].as_str()) {
            None => {
                proof {
                    lemma_fixed_params_fail(pv, i + 1);
                }
                return None;
            },
            Some((d, a)) => {
                let ghost (d0, a0) = (decls.deep_view(), args.deep_view());
                decls.push(d);
                args.push(a);
                assert(decls.deep_view() =~= d0.push(d@));
                assert(args.deep_view() =~= a0.push(a@));
            },
        }
        i += 1;
    }
    assert(pieces.deep_view().subrange(0, i as int) =~= pieces.deep_view());
    let mut out = cat("\n        pub fn ", name);
    out.append("(");
    out.append(join(&decls, ", ").as_str());
    out.append(")");
    out.append(return_type_suffix(ret).as_str());
    out.append("  {\n            unsafe { ");
    out.append(name);
    out.append("(");
    out.append(join(&args, ", ").as_str());
    out.append(") }\n        }\n        ");
    Some(out)
}

/// The wrappers for the declarations that the pattern matched (see
/// `RE_FUNCTION_DECL`), in order.
pub fn fixed_array_wrappers_from(rows: &Vec<Vec<String>>) -> (r: Vec<String>)
    ensures
        r.deep_view() == fixed_wrappers(rows.deep_view()),
{
    let mut out: Vec<String> = Vec::new();
    let mut i: usize = 0;
    while i < rows.len()
        invariant
            i <= rows.len(),
            out.deep_view() == fixed_wrappers(rows.deep_view().subrange(0, i as int)),
        decreases rows.len() - i,
    {
        let ghost rv = rows.deep_view();
        assert(rv.subrange(0, i + 1).drop_last() =~= rv.subrange(0, i as int));
        let row = &rows[i];
        assert(row.deep_view() == rv[i as int]);
        let ghost before = out.deep_view();
        if row.len() == 4 {
            match fixed_array_wrapper(row[1].as_str(), row[2].as_str(), row[3].as_str()) {
                Some(w) => {
                    out.push(w);
                    assert(out.deep_view() =~= before + seq![w@]);
                },
                None => {
                    assert(out.deep_view() =~= before + Seq::<Seq<char>>::empty());
                },
            }
        } else {
            assert(out.deep_view() =~= before + Seq::<Seq<char>>::empty());
        }
        i += 1;
    }
    assert(rows.deep_view().subrange(0, i as int) =~= rows.deep_view());
    out
}

/// The wrappers for the fixed-array functions declared in a header's text.
pub fn create_fixed_array_fn_wrappers(filedata: &str) -> (r: Vec<String>)
    ensures
        regex_captures(RE_FUNCTION_DECL@, filedata@) matches Some(rows) ==> r.deep_view()
            == fixed_wrappers(rows),
        regex_captures(RE_FUNCTION_DECL@, filedata@) is None ==> r.len() == 0,
{
    match find_captures(RE_FUNCTION_DECL, filedata) {
        Some(rows) => fixed_array_wrappers_from(&rows),
        None => Vec::new(),
    }
}

/// A declaration with a `*` in its parameter list adds no wrapper, wherever it
/// stands among the others.
pub proof fn lemma_pointer_declaration_skipped(rows: Seq<Seq<Seq<char>>>, row: Seq<Seq<char>>)
    requires
        row.len() == 4,
        row[3].contains('*'),
    ensures
        fixed_wrappers(rows.push(row)) == fixed_wrappers(rows),
{
    assert(rows.push(row).drop_last() =~= rows);
    assert(fixed_wrappers(rows) + Seq::<Seq<char>>::empty() =~= fixed_wrappers(rows));
}

/// Each wrapper comes from a matched declaration whose return type and
/// parameters hold no `*`.
pub proof fn lemma_wrappers_are_pointer_free(rows: Seq<Seq<Seq<char>>>)
    ensures
        forall|k: int|
            0 <= k < fixed_wrappers(rows).len() ==> exists|i: int|
                0 <= i < rows.len() && (#[trigger] rows[i]).len() == 4 && !rows[i][3].contains('*')
                    && !has_suffix(rows[i][1], "*"@) && fixed_wrapper(rows[i][1], rows[i][2], rows[i][3])
                    == Some(#[trigger] fixed_wrappers(rows)[k]),
    decreases rows.len(),
{
    if rows.len() > 0 {
        let dl = rows.drop_last();
        lemma_wrappers_are_pointer_free(dl);
        let w = fixed_wrappers(rows);
        let p = fixed_wrappers(dl);
        assert forall|k: int| #![trigger w[k]] 0 <= k < w.len() implies exists|i: int|
            0 <= i < rows.len() && (#[trigger] rows[i]).len() == 4 && !rows[i][3].contains('*')
                && !has_suffix(rows[i][1], "*"@) && fixed_wrapper(rows[i][1], rows[i][2], rows[i][3])
                == Some(w[k]) by {
            if k < p.len() {
                assert(w[k] == p[k]);
                let i = choose|i: int|
                    0 <= i < dl.len() && (#[trigger] dl[i]).len() == 4 && !dl[i][3].contains('*')
                        && !has_suffix(dl[i][1], "*"@) && fixed_wrapper(dl[i][1], dl[i][2], dl[i][3])
                        == Some(#[trigger] p[k]);
                assert(rows[i] == dl[i]);
            } else {
                let i = rows.len() - 1;
                assert(rows[i] == rows.last());
            }
        }
    }
}

} // verus!
