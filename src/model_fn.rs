//! Methods on a binding struct for the C functions that take that struct.
use vstd::prelude::*;
use crate::GenError;
use crate::outside::{find_captures, regex_captures, snake_case_of, to_pascal_case, to_snake_case, pascal_case_of};
use crate::text::{
    cat, concat, concat_seq, ends_with, find_char, first_index_of, has_prefix, has_suffix, join,
    join_seq, lemma_first_index, lines, lines_of, owned, replace_all, replace_str, slice,
    split_char, split_on, starts_with, str_eq, strip_prefix_all, strip_prefix_all_str,
    strip_suffix_all, strip_suffix_all_str, words, words_of,
};
use crate::type_map::{ffi_type, ffi_type_name};

verus! {

/// Text before the struct name in the declaration pattern: the comment lines
/// above the declaration, the return type, the name and the opening of the
/// parameter list.
pub const RE_METHOD_HEAD: &'static str = r"(?s)((?://[^\r\n]*?\r?\n)+?)\s*MJAPI\s+((?:const\s+)?[\w*]+)\s+(\w+)\s*\(([^)]*?";

/// Text after the struct name in the declaration pattern.
pub const RE_METHOD_TAIL: &'static str = r"[^)]*?)\)\s*;";

pub open spec fn method_pattern(self_name: Seq<char>) -> Seq<char> {
    RE_METHOD_HEAD@ + self_name + RE_METHOD_TAIL@
}

/// An array parameter `[const] type name[len]` of a method, from its words:
/// whether it is the receiver (never), its declaration and its argument.
pub open spec fn method_array_param(parts: Seq<Seq<char>>) -> Option<(bool, Seq<char>, Seq<char>)> {
    let end = parts.last();
    match first_index_of(end, '[') {
        None => None,
        Some(k) => {
            let len = end.subrange(k + 1, end.len() - 1);
            let pname = snake_case_of(end.subrange(0, k));
            let is_const = parts[0] == "const"@;
            let ty = if is_const {
                parts[1]
            } else {
                parts[0]
            };
            if is_const && parts.len() < 2 {
                None
            } else if has_prefix(ty, "void"@) {
                None
            } else {
                let arg = if is_const {
                    pname + ".as_ptr()"@
                } else {
                    pname + ".as_mut_ptr()"@
                };
                let reference = if is_const {
                    "&"@
                } else {
                    "&mut "@
                };
                let elem = if has_prefix(ty, "mj"@) {
                    pascal_case_of(ty)
                } else {
                    ffi_type(ty)
                };
                Some((false, pname + ": "@ + reference + "["@ + elem + "; "@ + len + "]"@, arg))
            }
        },
    }
}

/// One parameter of a method: whether it becomes the receiver, its
/// declaration and its argument; `None` where it cannot be wrapped.
pub open spec fn method_param(p: Seq<char>, self_name: Seq<char>) -> Option<(bool, Seq<char>, Seq<char>)> {
    let parts = words_of(p);
    if parts.len() == 0 {
        None
    } else if has_suffix(parts.last(), "]"@) {
        method_array_param(parts)
    } else if parts[0] == "const"@ && parts.len() < 2 {
        None
    } else if parts[0] == "const"@ && parts[1] == self_name {
        Some((true, "&self"@, "self.ffi()"@))
    } else if parts[0] == self_name {
        Some((true, "&mut self"@, "self.ffi_mut()"@))
    } else {
        let is_const = parts[0] == "const"@;
        let ty = if is_const {
            parts[1]
        } else {
            parts[0]
        };
        let reference = if is_const {
            "&"@
        } else {
            "&mut "@
        };
        let name = parts.last();
        let is_pointer = has_suffix(ty, "*"@) || has_prefix(name, "*"@);
        let base = if has_prefix(ty, "mj"@) {
            pascal_case_of(ty)
        } else {
            ffi_type(strip_suffix_all(ty, "*"@))
        };
        let ty_out = if is_pointer {
            reference + base
        } else {
            base
        };
        let pname = snake_case_of(name);
        Some((false, pname + ": "@ + ty_out, pname))
    }
}

/// The declarations and arguments of a parameter list, the receiver first.
pub open spec fn method_params(ps: Seq<Seq<char>>, self_name: Seq<char>) -> Option<
    (Seq<Seq<char>>, Seq<Seq<char>>),
>
    decreases ps.len(),
{
    if ps.len() == 0 {
        Some((Seq::<Seq<char>>::empty(), Seq::<Seq<char>>::empty()))
    } else {
        match (method_params(ps.drop_last(), self_name), method_param(ps.last(), self_name)) {
            (Some((d, a)), Some((receiver, d1, a1))) => Some(
                (
                    if receiver {
                        seq![d1] + d
                    } else {
                        d.push(d1)
                    },
                    a.push(a1),
                ),
            ),
            _ => None,
        }
    }
}

/// A parameter list with a parameter type on the block list: a word of the
/// list, without trailing `*`, equal to an entry.
pub open spec fn mentions_blocked(params: Seq<char>, blacklist: Seq<Seq<char>>) -> bool {
    exists|i: int, j: int|
        0 <= i < words_of(params).len() && 0 <= j < blacklist.len() && strip_suffix_all(
            #[trigger] words_of(params)[i],
            "*"@,
        ) == #[trigger] blacklist[j]
}

/// The comment lines above a declaration as documentation lines.
pub open spec fn doc_lines(doc: Seq<char>) -> Seq<char> {
    concat_seq(lines_of(doc).map_values(|l: Seq<char>| replace_all(l, "//"@, "\n///"@)))
}

/// A function name without the library's module prefixes.
pub open spec fn strip_api_prefixes(name: Seq<char>) -> Seq<char> {
    strip_prefix_all(
        strip_prefix_all(
            strip_prefix_all(strip_prefix_all(strip_prefix_all(name, "mj_"@), "mjv_"@), "mjr_"@),
            "mjd_"@,
        ),
        "mju_"@,
    )
}

/// The method for one declaration, or `None` where it cannot be wrapped.
pub open spec fn method_wrapper(
    doc: Seq<char>,
    name: Seq<char>,
    params: Seq<char>,
    self_name: Seq<char>,
    blacklist: Seq<Seq<char>>,
) -> Option<Seq<char>> {
    if mentions_blocked(params, blacklist) {
        None
    } else {
        match method_params(split_on(params, ','), self_name) {
            None => None,
            Some((d, a)) => Some(
                doc_lines(doc) + "\npub fn "@ + snake_case_of(strip_api_prefixes(name)) + "("@
                    + join_seq(d, ", "@) + ") {\n    unsafe { "@ + name + "("@ + join_seq(a, ", "@)
                    + ") }\n}"@,
            ),
        }
    }
}

/// The methods for the matched declarations, in order: a row holds the whole
/// match, the comment lines, the return type, the name and the parameters.
pub open spec fn method_wrappers(
    rows: Seq<Seq<Seq<char>>>,
    self_name: Seq<char>,
    blacklist: Seq<Seq<char>>,
) -> Seq<Seq<char>>
    decreases rows.len(),
{
    if rows.len() == 0 {
        Seq::<Seq<char>>::empty()
    } else {
        let row = rows.last();
        let more = if row.len() == 5 {
            match method_wrapper(row[1], row[3], row[4], self_name, blacklist) {
                Some(w) => seq![w],
                None => Seq::<Seq<char>>::empty(),
            }
        } else {
            Seq::<Seq<char>>::empty()
        };
        method_wrappers(rows.drop_last(), self_name, blacklist) + more
    }
}

fn method_array_param_text(parts: &Vec<String>) -> (r: Option<(bool, String, String)>)
    requires
        parts.len() >= 1,
        has_suffix(parts.deep_view().last(), "]"@),
    ensures
        r.deep_view() == method_array_param(parts.deep_view()),
{
    let n = parts.len();
    let end = parts[n - 1].as_str();
    assert(end@ == parts.deep_view().last());
    let m = end.unicode_len();
    proof {
        lemma_first_index(end@, '[');
    }
    match find_char(end, '[') {
        None => None,
        Some(k) => {
            proof {
                reveal_strlit("]");
                assert(end@.subrange(m - 1, m as int)[0] == ']');
            }
            let len = slice(end, k + 1, m - 1);
            let pname = to_snake_case(slice(end, 0, k).as_str());
            let is_const = str_eq(parts[0].as_str(), "const");
            if is_const && n < 2 {
                return None;
            }
            let ty = if is_const {
                parts[1].as_str()
            } else {
                parts[0].as_str()
            };
            if starts_with(ty, "void") {
                return None;
            }
            let arg = if is_const {
                cat(pname.as_str(), ".as_ptr()")
            } else {
                cat(pname.as_str(), ".as_mut_ptr()")
            };
            let mut decl = cat(pname.as_str(), ": ");
            if is_const {
                decl.append("&");
            } else {
                decl.append("&mut ");
            }
            decl.append("[");
            if starts_with(ty, "mj") {
                decl.append(to_pascal_case(ty).as_str());
            } else {
                decl.append(ffi_type_name(ty).as_str());
            }
            decl.append("; ");
            decl.append(len.as_str());
            decl.append("]");
            Some((false, decl, arg))
        },
    }
}
fn plain_param_text(parts: &Vec<String>) -> (r: (bool, String, String))
    requires
        parts.len() >= 1,
        parts.deep_view()[0] == "const"@ ==> parts.len() >= 2,
    ensures
        ({
            let pv = parts.deep_view();
            let is_const = pv[0] == "const"@;
            let ty = if is_const {
                pv[1]
            } else {
                pv[0]
            };
            let reference = if is_const {
                "&"@
            } else {
                "&mut "@
            };
            let name = pv.last();
            let is_pointer = has_suffix(ty, "*"@) || has_prefix(name, "*"@);
            let base = if has_prefix(ty, "mj"@) {
                pascal_case_of(ty)
            } else {
                ffi_type(strip_suffix_all(ty, "*"@))
            };
            let ty_out = if is_pointer {
                reference + base
            } else {
                base
            };
            let pname = snake_case_of(name);
            r.deep_view() == (false, pname + ": "@ + ty_out, pname)
        }),
{
    let n = parts.len();
    let is_const = str_eq(parts[0].as_str(), "const");
    let ty = if is_const {
        parts[1].as_str()
    } else {
        parts[0].as_str()
    };
    let name = parts[n - 1].as_str();
    let is_pointer = ends_with(ty, "*") || starts_with(name, "*");
    let pname = to_snake_case(name);
    let mut decl = cat(pname.as_str(), ": ");
    if is_pointer {
        if is_const {
            decl.append("&");
        } else {
            decl.append("&mut ");
        }
    }
    if starts_with(ty, "mj") {
        decl.append(to_pascal_case(ty).as_str());
    } else {
        decl.append(ffi_type_name(strip_suffix_all_str(ty, "*").as_str()).as_str());
    }
    proof {
        assert(Seq::<char>::empty() + Seq::<char>::empty() =~= Seq::<char>::empty());
    }
    (false, decl, pname)
}

/// One parameter of a method, as `method_param` describes it.
pub fn method_param_text(p: &str, self_name: &str) -> (r: Option<(bool, String, String)>)
    ensures
        r.deep_view() == method_param(p@, self_name@),
{
    let parts = words(p);
    let n = parts.len();
    if n == 0 {
        return None;
    }
    if ends_with(parts[n - 1].as_str(), "]") {
        return method_array_param_text(&parts);
    }
    let is_const = str_eq(parts[0].as_str(), "const");
    if is_const && n < 2 {
        None
    } else if is_const && str_eq(parts[1].as_str(), self_name) {
        Some((true, owned("&self"), owned("self.ffi()")))
    } else if str_eq(parts[0].as_str(), self_name) {
        Some((true, owned("&mut self"), owned("self.ffi_mut()")))
    } else {
        Some(plain_param_text(&parts))
    }
}

/// The declarations and arguments of the parameter list `param_string` of a
/// method on `self_name`, the receiver first; `None` where a parameter cannot
/// be wrapped.
pub fn process_arguments(param_string: &str, self_name: &str) -> (r: Option<(Vec<String>, Vec<String>)>)
    ensures
        r.deep_view() == method_params(split_on(param_string@, ','), self_name@),
{
    let pieces = split_char(param_string, ',');
    let ghost pv = pieces.deep_view();
    let mut decls: Vec<String> = Vec::new();
    let mut args: Vec<String> = Vec::new();
    let mut i: usize = 0;
    while i < pieces.len()
        invariant
            i <= pieces.len(),
            pv == pieces.deep_view(),
            pv == split_on(param_string@, ','),
            method_params(pv.subrange(0, i as int), self_name@) == Some(
                (decls.deep_view(), args.deep_view()),
            ),
        decreases pieces.len() - i,
    {
        assert(pv.subrange(0, i + 1).drop_last() =~= pv.subrange(0, i as int));
        match method_param_text(pieces[i].as_str(), self_name) {
            None => {
                proof {
                    lemma_method_params_fail(pv, i + 1, self_name@);
                }
                return None;
            },
            Some((receiver, d, a)) => {
                let ghost (d0, a0) = (decls.deep_view(), args.deep_view());
                let ghost dv = d@;
                if receiver {
                    decls.insert(0, d);
                    assert(decls.deep_view() =~= seq![dv] + d0);
                } else {
                    decls.push(d);
                    assert(decls.deep_view() =~= d0.push(dv));
                }
                let ghost av = a@;
                args.push(a);
                assert(args.deep_view() =~= a0.push(av));
            },
        }
        i += 1;
    }
    assert(pv.subrange(0, i as int) =~= pv);
    Some((decls, args))
}

/// A list that fails to wrap at some point fails as a whole.
pub proof fn lemma_method_params_fail(ps: Seq<Seq<char>>, j: int, self_name: Seq<char>)
    requires
        0 <= j <= ps.len(),
        method_params(ps.subrange(0, j), self_name) is None,
    ensures
        method_params(ps, self_name) is None,
    decreases ps.len() - j,
{
    if j < ps.len() {
        assert(ps.subrange(0, j + 1).drop_last() =~= ps.subrange(0, j));
        lemma_method_params_fail(ps, j + 1, self_name);
    } else {
        assert(ps.subrange(0, j) =~= ps);
    }
}

/// Whether a word of `params`, without trailing `*`, is on the block list.
pub fn mentions_blocked_type(params: &str, blacklist: &Vec<String>) -> (r: bool)
    ensures
        r == mentions_blocked(params@, blacklist.deep_view()),
{
    let ws = words(params);
    let mut i: usize = 0;
    while i < ws.len()
        invariant
            i <= ws.len(),
            ws.deep_view() == words_of(params@),
            forall|a: int, b: int|
                0 <= a < i && 0 <= b < blacklist.len() ==> strip_suffix_all(
                    words_of(params@)[a],
                    "*"@,
                ) != blacklist.deep_view()[b],
        decreases ws.len() - i,
    {
        let w = strip_suffix_all_str(ws[i].as_str(), "*");
        let mut j: usize = 0;
        while j < blacklist.len()
            invariant
                i < ws.len(),
                j <= blacklist.len(),
                ws.deep_view() == words_of(params@),
                w@ == strip_suffix_all(words_of(params@)[i as int], "*"@),
                forall|a: int, b: int|
                    0 <= a < i && 0 <= b < blacklist.len() ==> strip_suffix_all(
                        words_of(params@)[a],
                        "*"@,
                    ) != blacklist.deep_view()[b],
                forall|b: int| 0 <= b < j ==> w@ != blacklist.deep_view()[b],
            decreases blacklist.len() - j,
        {
            if str_eq(w.as_str(), blacklist[j].as_str()) {
                assert(strip_suffix_all(words_of(params@)[i as int], "*"@) == blacklist.deep_view()[j as int]);
                return true;
            }
            j += 1;
        }
        i += 1;
    }
    false
}

/// The comment lines above a declaration, as documentation lines.
pub fn doc_lines_text(doc: &str) -> (r: String)
    ensures
        r@ == doc_lines(doc@),
{
    let ls = lines(doc);
    let mut out: Vec<String> = Vec::new();
    let mut i: usize = 0;
    while i < ls.len()
        invariant
            i <= ls.len(),
            ls.deep_view() == lines_of(doc@),
            out.deep_view() == ls.deep_view().subrange(0, i as int).map_values(
                |l: Seq<char>| replace_all(l, "//"@, "\n///"@),
            ),
        decreases ls.len() - i,
    {
        let ghost before = out.deep_view();
        let l = replace_str(ls[i].as_str(), "//", "\n///");
        out.push(l);
        assert(out.deep_view() =~= before.push(l@));
        assert(out.deep_view() =~= ls.deep_view().subrange(0, i + 1).map_values(
            |l: Seq<char>| replace_all(l, "//"@, "\n///"@),
        ));
        i += 1;
    }
    assert(ls.deep_view().subrange(0, i as int) =~= ls.deep_view());
    concat(&out)
}

/// A function name without the library's module prefixes.
pub fn strip_api_prefixes_text(name: &str) -> (r: String)
    ensures
        r@ == strip_api_prefixes(name@),
{
    let a = strip_prefix_all_str(name, "mj_");
    let b = strip_prefix_all_str(a.as_str(), "mjv_");
    let c = strip_prefix_all_str(b.as_str(), "mjr_");
    let d = strip_prefix_all_str(c.as_str(), "mjd_");
    strip_prefix_all_str(d.as_str(), "mju_")
}

/// The method for the declaration `name(params)` with comment lines `doc`.
pub fn method_wrapper_text(
    doc: &str,
    name: &str,
    params: &str,
    self_name: &str,
    blacklist: &Vec<String>,
) -> (r: Option<String>)
    ensures
        r.deep_view() == method_wrapper(doc@, name@, params@, self_name@, blacklist.deep_view()),
{
    if mentions_blocked_type(params, blacklist) {
        return None;
    }
    match process_arguments(params, self_name) {
        None => None,
        Some((d, a)) => {
            let mut out = doc_lines_text(doc);
            out.append("\npub fn ");
            out.append(to_snake_case(strip_api_prefixes_text(name).as_str()).as_str());
            out.append("(");
            out.append(join(&d, ", ").as_str());
            out.append(") {\n    unsafe { ");
            out.append(name);
            out.append("(");
            out.append(join(&a, ", ").as_str());
            out.append(") }\n}");
            Some(out)
        },
    }
}

/// The methods for the declarations that the method pattern matched, in order.
pub fn method_wrappers_from(rows: &Vec<Vec<String>>, self_name: &str, blacklist: &Vec<String>) -> (r: Vec<String>)
    ensures
        r.deep_view() == method_wrappers(rows.deep_view(), self_name@, blacklist.deep_view()),
{
    let mut out: Vec<String> = Vec::new();
    let mut i: usize = 0;
    while i < rows.len()
        invariant
            i <= rows.len(),
            out.deep_view() == method_wrappers(
                rows.deep_view().subrange(0, i as int),
                self_name@,
                blacklist.deep_view(),
            ),
        decreases rows.len() - i,
    {
        let ghost rv = rows.deep_view();
        assert(rv.subrange(0, i + 1).drop_last() =~= rv.subrange(0, i as int));
        let row = &rows[i];
        assert(row.deep_view() == rv[i as int]);
        let ghost before = out.deep_view();
        if row.len() == 5 {
            match method_wrapper_text(row[1].as_str(), row[3].as_str(), row[4].as_str(), self_name, blacklist) {
                Some(w) => {
                    out.push(w);
                    assert(out.deep_view() =~= before + seq![w@]);
                },
                None => {
                    assert(out.deep_view() =~= before + Seq::<Seq<char>>::empty());
                },
            }
        } else {
            assert(out.deep_view() =~= before + Seq::<Seq<char>>::empty());
        }
        i += 1;
    }
    assert(rows.deep_view().subrange(0, i as int) =~= rows.deep_view());
    out
}

/// The methods on `self_name` for the C functions of a header's text that
/// take it, skipping those with a parameter type on the block list.
pub fn create_mj_self_methods(filedata: &str, self_name: &str, blacklist: &Vec<String>) -> (r: Result<Vec<String>, GenError>)
    ensures
        match regex_captures(method_pattern(self_name@), filedata@) {
            Some(rows) => r matches Ok(v) && v.deep_view() == method_wrappers(
                rows,
                self_name@,
                blacklist.deep_view(),
            ),
            None => r == Err::<Vec<String>, GenError>(GenError::InvalidPattern),
        },
{
    let mut pattern = cat(RE_METHOD_HEAD, self_name);
    pattern.append(RE_METHOD_TAIL);
    match find_captures(pattern.as_str(), filedata) {
        Some(rows) => Ok(method_wrappers_from(&rows, self_name, blacklist)),
        None => Err(GenError::InvalidPattern),
    }
}

} // verus!
