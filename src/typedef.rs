//! PascalCase type aliases for the library's types named in its API reference.
use vstd::prelude::*;
use crate::GenError;
use crate::outside::{find_captures, pascal_case_of, regex_captures, to_pascal_case};
use crate::text::{cat, lines, lines_of, owned, strip_suffix_all, strip_suffix_all_str, trim, trim_str};

verus! {

/// Text before the prefix filter: the description, then the include directive.
pub const RE_TYPE_HEAD: &'static str = r"(\w+[\w\s`:<> \->.]*?)\.\.\s+mujoco-include::\s*(";

/// Text after the prefix filter: the rest of the type name.
pub const RE_TYPE_TAIL: &'static str = r"[A-z]+)";

pub open spec fn type_pattern(prefix: Seq<char>) -> Seq<char> {
    RE_TYPE_HEAD@ + prefix + RE_TYPE_TAIL@
}

/// The lines for one documented type: its description as doc lines, the alias,
/// and an empty line.
pub open spec fn type_alias(doc: Seq<char>, name: Seq<char>) -> Seq<Seq<char>> {
    let n = strip_suffix_all(name, "_"@);
    lines_of(trim(doc)).map_values(|l: Seq<char>| "/// "@ + l) + seq![
        "type "@ + pascal_case_of(n) + " = "@ + n + ";"@,
        Seq::<char>::empty(),
    ]
}

pub open spec fn type_aliases(rows: Seq<Seq<Seq<char>>>) -> Seq<Seq<char>>
    decreases rows.len(),
{
    if rows.len() == 0 {
        Seq::<Seq<char>>::empty()
    } else {
        let row = rows.last();
        let more = if row.len() == 3 {
            type_alias(row[1], row[2])
        } else {
            Seq::<Seq<char>>::empty()
        };
        type_aliases(rows.drop_last()) + more
    }
}

/// The lines for one documented type, as `type_alias` describes them.
pub fn type_alias_lines(doc: &str, name: &str) -> (r: Vec<String>)
    ensures
        r.deep_view() == type_alias(doc@, name@),
{
    let n = strip_suffix_all_str(name, "_");
    let ls = lines(trim_str(doc).as_str());
    let ghost lv = ls.deep_view();
    let mut out: Vec<String> = Vec::new();
    let mut i: usize = 0;
    while i < ls.len()
        invariant
            i <= ls.len(),
            lv == ls.deep_view(),
            out.deep_view() == lv.subrange(0, i as int).map_values(|l: Seq<char>| "/// "@ + l),
        decreases ls.len() - i,
    {
        let ghost before = out.deep_view();
        let x = cat("/// ", ls[i].as_str());
        out.push(x);
        assert(out.deep_view() =~= before.push(x@));
        assert(out.deep_view() =~= lv.subrange(0, i + 1).map_values(|l: Seq<char>| "/// "@ + l));
        i += 1;
    }
    assert(lv.subrange(0, i as int) =~= lv);
    let ghost before = out.deep_view();
    let mut alias = cat("type ", to_pascal_case(n.as_str()).as_str());
    alias.append(" = ");
    alias.append(n.as_str());
    alias.append(";");
    let ghost av = alias@;
    out.push(alias);
    out.push(String::new());
    assert(out.deep_view() =~= before + seq![av, Seq::<char>::empty()]);
    out
}

/// The lines for the documented types that the type pattern matched, in order.
pub fn type_aliases_from(rows: &Vec<Vec<String>>) -> (r: Vec<String>)
    ensures
        r.deep_view() == type_aliases(rows.deep_view()),
{
    let mut out: Vec<String> = Vec::new();
    let mut i: usize = 0;
    while i < rows.len()
        invariant
            i <= rows.len(),
            out.deep_view() == type_aliases(rows.deep_view().subrange(0, i as int)),
        decreases rows.len() - i,
    {
        let ghost rv = rows.deep_view();
        assert(rv.subrange(0, i + 1).drop_last() =~= rv.subrange(0, i as int));
        let row = &rows[i];
        assert(row.deep_view() == rv[i as int]);
        let ghost before = out.deep_view();
        if row.len() == 3 {
            let mut more = type_alias_lines(row[1].as_str(), row[2].as_str());
            let ghost mv = more.deep_view();
            out.append(&mut more);
            assert(out.deep_view() =~= before + mv);
        } else {
            assert(out.deep_view() =~= before + Seq::<Seq<char>>::empty());
        }
        i += 1;
    }
    assert(rows.deep_view().subrange(0, i as int) =~= rows.deep_view());
    out
}

/// The type aliases for the types of an API reference's text whose names
/// start with `prefix` (any name where it is `None`).
pub fn create_types(filedata: &str, prefix: Option<&str>) -> (r: Result<Vec<String>, GenError>)
    ensures
        ({
            let p = match prefix {
                Some(p) => p@,
                None => Seq::<char>::empty(),
            };
            match regex_captures(type_pattern(p), filedata@) {
                Some(rows) => r matches Ok(v) && v.deep_view() == type_aliases(rows),
                None => r == Err::<Vec<String>, GenError>(GenError::InvalidPattern),
            }
        }),
{
    let mut pattern = owned(RE_TYPE_HEAD);
    match prefix {
        Some(p) => {
            pattern.append(p);
        },
        None => {},
    }
    pattern.append(RE_TYPE_TAIL);
    proof {
        assert(RE_TYPE_HEAD@ + Seq::<char>::empty() =~= RE_TYPE_HEAD@);
    }
    match find_captures(pattern.as_str(), filedata) {
        Some(rows) => Ok(type_aliases_from(&rows)),
        None => Err(GenError::InvalidPattern),
    }
}

} // verus!
