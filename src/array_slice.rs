//! Array-slice accessor entries for the fields of a struct whose length
//! comments name the field that holds their length.
use vstd::prelude::*;
use crate::GenError;
use crate::outside::{find_captures, regex_captures};
use crate::text::{
    all_digits, cat, has_prefix, is_all_digits, lines, lines_of, owned, starts_with, str_eq, trim,
    trim_str,
};
use crate::type_map::{convert_type, rust_type_of};

verus! {

/// A comment `<description> (mjtSomething)` naming an enum type.
pub const ENUM_REGEX: &'static str = r"(.*?)\((mjt[A-z]+)\)";

/// Shape (a): a length comment `(name x count)`.
pub const RE_NAME_TIMES_COUNT: &'static str = r"(?m)((?:unsigned\s+)?[^\s]+)(?:\*\s+([^\s]+)|\s+([^\s]+)\[.+\]);\s+//(.*)\(([A-z]+)\s*(?:x|\*)\s*(\w+)\)$";

/// Shape (b): a length comment `(count x name)`.
pub const RE_COUNT_TIMES_NAME: &'static str = r"(?m)((?:unsigned\s+)?[^\s]+)(?:\*\s+([^\s]+)|\s+([^\s]+)\[.+\]);\s+//(.*)\(([0-9]*)\s*(?:\*|x)\s*(\w+)\)$";

/// Shape (c): a length comment `(name)`.
pub const RE_NAME_ONLY: &'static str = r"(?m)((?:unsigned\s+)?[^\s]+)(?:\*\s+([^\s]+)|\s+([^\s]+)\[\w*\]);\s+//(.*)\((\w+)\)$";

/// A pointer whose length comment is `(count x sum(name))`.
pub const RE_SUMMED: &'static str = r"(?m)((?:unsigned\s+)?[^\s]+)(?:\*\s+([^\s]+));\s+//(.*)\(\s*([0-9]+)\s*[*x]\s*sum\((\w+)\)\s*\)$";

/// The start and the end of the pattern that finds a struct's body around its name.
pub const RE_STRUCT_HEAD: &'static str = r"(?s)struct\s+";

pub const RE_STRUCT_TAIL: &'static str = r"\s*\{.*?\n};";

/// The shapes of length comment that are recognized, in the order they are tried.
#[derive(PartialEq, Eq, Structural, Debug, Clone, Copy)]
pub enum FieldShape {
    NameTimesCount,
    CountTimesName,
    NameOnly,
    Summed,
}

pub open spec fn shape_pattern(shape: FieldShape) -> Seq<char> {
    match shape {
        FieldShape::NameTimesCount => RE_NAME_TIMES_COUNT@,
        FieldShape::CountTimesName => RE_COUNT_TIMES_NAME@,
        FieldShape::NameOnly => RE_NAME_ONLY@,
        FieldShape::Summed => RE_SUMMED@,
    }
}

/// The enum split of a comment from the matches of `ENUM_REGEX` in it: the
/// description and the enum type of the first match, or the comment and the
/// declared type where nothing matched; and whether it matched.
pub open spec fn enum_split(found: Seq<Seq<Seq<char>>>, docstring: Seq<char>, datatype: Seq<char>) -> (
    Seq<char>,
    Seq<char>,
    bool,
) {
    if found.len() > 0 && found[0].len() == 3 {
        (found[0][1], found[0][2], true)
    } else {
        (docstring, datatype, false)
    }
}

/// The enum split of a comment.
pub open spec fn enum_override(docstring: Seq<char>, datatype: Seq<char>) -> (Seq<char>, Seq<char>, bool) {
    match regex_captures(ENUM_REGEX@, docstring) {
        Some(found) => enum_split(found, docstring, datatype),
        None => (docstring, datatype, false),
    }
}

/// Enum types that need a cast: library enums other than the two plain ones.
pub open spec fn needs_enum_cast(ty: Seq<char>) -> bool {
    has_prefix(ty, "Mjt"@) && ty != "MjtNum"@ && ty != "MjtByte"@
}

/// The accessor entry of a field.
pub open spec fn slice_entry(
    datatype: Seq<char>,
    name: Seq<char>,
    comment: Seq<char>,
    size_var: Seq<char>,
    size_mul: Seq<char>,
    prefix: Seq<char>,
    summed: bool,
) -> Seq<char> {
    let ty = rust_type_of(datatype);
    if summed {
        name + ": &["@ + ty + "; \""@ + comment + "\"; ["@ + size_mul + "; ("@ + prefix + "."@
            + size_var + "); ("@ + prefix + ".)]],"@
    } else if size_mul == "1"@ || size_mul.len() == 0 {
        let cast = if needs_enum_cast(ty) {
            " [cast]"@
        } else {
            Seq::<char>::empty()
        };
        name + ": &["@ + ty + cast + "; \""@ + comment + "\"; "@ + prefix + "."@ + size_var + "],"@
    } else {
        let index_cast = if all_digits(size_mul) {
            Seq::<char>::empty()
        } else {
            " as usize"@
        };
        name + ": &[["@ + ty + "; "@ + size_mul + index_cast + "] [cast]; \""@ + comment + "\"; "@
            + prefix + "."@ + size_var + "],"@
    }
}

/// The first of two alternative groups that took part in a match.
pub open spec fn either(a: Seq<char>, b: Seq<char>) -> Seq<char> {
    if a.len() > 0 {
        a
    } else {
        b
    }
}

/// The field of a match of a shape's pattern: type, name, comment, length
/// field and multiplier.
pub open spec fn row_field(shape: FieldShape, row: Seq<Seq<char>>) -> Option<
    (Seq<char>, Seq<char>, Seq<char>, Seq<char>, Seq<char>),
> {
    match shape {
        FieldShape::NameTimesCount => if row.len() == 7 {
            Some((row[1], either(row[2], row[3]), row[4], row[5], row[6]))
        } else {
            None
        },
        FieldShape::CountTimesName => if row.len() == 7 {
            Some((row[1], either(row[2], row[3]), row[4], row[6], row[5]))
        } else {
            None
        },
        FieldShape::NameOnly => if row.len() == 6 {
            Some((row[1], either(row[2], row[3]), row[4], row[5], Seq::<char>::empty()))
        } else {
            None
        },
        FieldShape::Summed => if row.len() == 6 {
            Some((row[1], row[2], row[3], row[5], row[4]))
        } else {
            None
        },
    }
}

/// The entry of one match of a shape's pattern.
pub open spec fn row_entry(shape: FieldShape, row: Seq<Seq<char>>, prefix: Seq<char>) -> Option<Seq<char>> {
    match row_field(shape, row) {
        Some((dt, name, comment, var, mul)) => {
            let (c, t, _) = enum_override(comment, dt);
            Some(slice_entry(t, name, trim(c), var, mul, prefix, shape == FieldShape::Summed))
        },
        None => None,
    }
}

/// The entry that a shape gives for one line: that of its first match, if any.
pub open spec fn shape_line_entry(shape: FieldShape, line: Seq<char>, prefix: Seq<char>) -> Option<Seq<char>> {
    match regex_captures(shape_pattern(shape), line) {
        Some(rows) => if rows.len() > 0 {
            row_entry(shape, rows[0], prefix)
        } else {
            None
        },
        None => None,
    }
}

/// The entry of a body line whose length is read from one field: that of the
/// first of the shapes (a), (b) and (c) that fits the line.
pub open spec fn line_entry(line: Seq<char>, prefix: Seq<char>) -> Option<Seq<char>> {
    match shape_line_entry(FieldShape::NameTimesCount, line, prefix) {
        Some(e) => Some(e),
        None => match shape_line_entry(FieldShape::CountTimesName, line, prefix) {
            Some(e) => Some(e),
            None => shape_line_entry(FieldShape::NameOnly, line, prefix),
        },
    }
}

/// The entries of the body lines, in the order of the lines.
pub open spec fn line_entries(ls: Seq<Seq<char>>, prefix: Seq<char>) -> Seq<Seq<char>>
    decreases ls.len(),
{
    if ls.len() == 0 {
        Seq::<Seq<char>>::empty()
    } else {
        let more = match line_entry(ls.last(), prefix) {
            Some(e) => seq![e],
            None => Seq::<Seq<char>>::empty(),
        };
        line_entries(ls.drop_last(), prefix) + more
    }
}

/// The body lines that give an entry, in their order.
pub open spec fn matched_lines(ls: Seq<Seq<char>>, prefix: Seq<char>) -> Seq<Seq<char>>
    decreases ls.len(),
{
    if ls.len() == 0 {
        Seq::<Seq<char>>::empty()
    } else if line_entry(ls.last(), prefix) is Some {
        matched_lines(ls.drop_last(), prefix).push(ls.last())
    } else {
        matched_lines(ls.drop_last(), prefix)
    }
}

/// The entries of the matches of a shape's pattern, in order.
pub open spec fn shape_entries(shape: FieldShape, rows: Seq<Seq<Seq<char>>>, prefix: Seq<char>) -> Seq<
    Seq<char>,
>
    decreases rows.len(),
{
    if rows.len() == 0 {
        Seq::<Seq<char>>::empty()
    } else {
        let more = match row_entry(shape, rows.last(), prefix) {
            Some(e) => seq![e],
            None => Seq::<Seq<char>>::empty(),
        };
        shape_entries(shape, rows.drop_last(), prefix) + more
    }
}

/// The entries for a shape in a struct body.
pub open spec fn shape_lines(shape: FieldShape, body: Seq<char>, prefix: Seq<char>) -> Seq<Seq<char>> {
    match regex_captures(shape_pattern(shape), body) {
        Some(rows) => shape_entries(shape, rows, prefix),
        None => Seq::<Seq<char>>::empty(),
    }
}

pub open spec fn struct_pattern(struct_name: Seq<char>) -> Seq<char> {
    RE_STRUCT_HEAD@ + struct_name + RE_STRUCT_TAIL@
}

/// The entries of consecutive runs of lines are the entries of each run, one
/// after the other: each line gives its own entry, and the order is kept.
pub proof fn lemma_line_entries_concat(a: Seq<Seq<char>>, b: Seq<Seq<char>>, prefix: Seq<char>)
    ensures
        line_entries(a + b, prefix) == line_entries(a, prefix) + line_entries(b, prefix),
    decreases b.len(),
{
    if b.len() == 0 {
        assert(a + b =~= a);
        assert(line_entries(a, prefix) + line_entries(b, prefix) =~= line_entries(a, prefix));
    } else {
        assert((a + b).drop_last() =~= a + b.drop_last());
        lemma_line_entries_concat(a, b.drop_last(), prefix);
        let more = match line_entry(b.last(), prefix) {
            Some(e) => seq![e],
            None => Seq::<Seq<char>>::empty(),
        };
        assert(line_entries(a, prefix) + line_entries(b.drop_last(), prefix) + more
            =~= line_entries(a, prefix) + (line_entries(b.drop_last(), prefix) + more));
    }
}

/// The entries of a body are those of its matched lines alone.
pub proof fn lemma_line_entries_of_matched(ls: Seq<Seq<char>>, prefix: Seq<char>)
    ensures
        line_entries(ls, prefix) == line_entries(matched_lines(ls, prefix), prefix),
    decreases ls.len(),
{
    if ls.len() > 0 {
        lemma_line_entries_of_matched(ls.drop_last(), prefix);
        let m = matched_lines(ls.drop_last(), prefix);
        if line_entry(ls.last(), prefix) is Some {
            assert(m.push(ls.last()).drop_last() =~= m);
        } else {
            assert(line_entries(ls.drop_last(), prefix) + Seq::<Seq<char>>::empty()
                =~= line_entries(ls.drop_last(), prefix));
        }
    }
}

/// Two bodies whose matched lines are the same, in the same order, give the
/// same entries, wherever their other lines stand.
pub proof fn lemma_unrelated_lines_do_not_matter(l1: Seq<Seq<char>>, l2: Seq<Seq<char>>, prefix: Seq<char>)
    requires
        matched_lines(l1, prefix) == matched_lines(l2, prefix),
    ensures
        line_entries(l1, prefix) == line_entries(l2, prefix),
{
    lemma_line_entries_of_matched(l1, prefix);
    lemma_line_entries_of_matched(l2, prefix);
}

/// The enum split of a comment, from the matches of `ENUM_REGEX` in it.
pub fn split_enum_comment(found: &Vec<Vec<String>>, docstring: &str, datatype: &str) -> (r: (String, String, bool))
    ensures
        (r.0@, r.1@, r.2) == enum_split(found.deep_view(), docstring@, datatype@),
{
    if found.len() > 0 && found[0].len() == 3 {
        assert(found[0].deep_view() == found.deep_view()[0]);
        (owned(found[0][1].as_str()), owned(found[0][2].as_str()), true)
    } else {
        (owned(docstring), owned(datatype), false)
    }
}

/// Splits an enum type out of a comment: `dynamics type (mjtDyn)` gives
/// `dynamics type ` and `mjtDyn`; a comment without one is handed back with
/// the declared type.
pub fn extract_possible_enum(docstring: &str, datatype: &str) -> (r: (String, String))
    ensures
        (r.0@, r.1@) == ({
            let (c, t, _) = enum_override(docstring@, datatype@);
            (c, t)
        }),
{
    let (c, t, _) = enum_split_of(docstring, datatype);
    (c, t)
}

/// The enum split of a comment and whether it found an enum type.
pub fn enum_split_of(docstring: &str, datatype: &str) -> (r: (String, String, bool))
    ensures
        (r.0@, r.1@, r.2) == enum_override(docstring@, datatype@),
{
    match find_captures(ENUM_REGEX, docstring) {
        Some(found) => split_enum_comment(&found, docstring, datatype),
        None => (owned(docstring), owned(datatype), false),
    }
}

/// The accessor entry of a field: a scalar entry for a multiplier of one or
/// none, an array entry otherwise, or the summed-length form.
pub fn display_parsed(
    datatype: &str,
    name: &str,
    comment: &str,
    size_var: &str,
    size_mul: &str,
    accessor_prefix: &str,
    summed_type: bool,
) -> (r: String)
    ensures
        r@ == slice_entry(datatype@, name@, comment@, size_var@, size_mul@, accessor_prefix@, summed_type),
{
    let ty = convert_type(datatype);
    let mut r = owned(name);
    if summed_type {
        r.append(": &[");
        r.append(ty.as_str());
        r.append("; \"");
        r.append(comment);
        r.append("\"; [");
        r.append(size_mul);
        r.append("; (");
        r.append(accessor_prefix);
        r.append(".");
        r.append(size_var);
        r.append("); (");
        r.append(accessor_prefix);
        r.append(".)]],");
    } else if str_eq(size_mul, "1") || size_mul.unicode_len() == 0 {
        r.append(": &[");
        r.append(ty.as_str());
        if starts_with(ty.as_str(), "Mjt") && !str_eq(ty.as_str(), "MjtNum") && !str_eq(
            ty.as_str(),
            "MjtByte",
        ) {
            r.append(" [cast]");
        }
        r.append("; \"");
        r.append(comment);
        r.append("\"; ");
        r.append(accessor_prefix);
        r.append(".");
        r.append(size_var);
        r.append("],");
    } else {
        r.append(": &[[");
        r.append(ty.as_str());
        r.append("; ");
        r.append(size_mul);
        if !is_all_digits(size_mul) {
            r.append(" as usize");
        }
        r.append("] [cast]; \"");
        r.append(comment);
        r.append("\"; ");
        r.append(accessor_prefix);
        r.append(".");
        r.append(size_var);
        r.append("],");
    }
    proof {
        assert(Seq::<char>::empty() + Seq::<char>::empty() =~= Seq::<char>::empty());
    }
    r
}

fn either_text(a: &str, b: &str) -> (r: String)
    ensures
        r@ == either(a@, b@),
{
    if a.unicode_len() > 0 {
        owned(a)
    } else {
        owned(b)
    }
}

/// The field of a match of a shape's pattern, as `row_field` describes it.
pub fn field_of_row(shape: FieldShape, row: &Vec<String>) -> (r: Option<(String, String, String, String, String)>)
    ensures
        r.deep_view() == row_field(shape, row.deep_view()),
{
    match shape {
        FieldShape::NameTimesCount => if row.len() == 7 {
            Some((owned(row[1].as_str()), either_text(row[2].as_str(), row[3].as_str()), owned(row[4].as_str()), owned(row[5].as_str()), owned(row[6].as_str())))
        } else {
            None
        },
        FieldShape::CountTimesName => if row.len() == 7 {
            Some((owned(row[1].as_str()), either_text(row[2].as_str(), row[3].as_str()), owned(row[4].as_str()), owned(row[6].as_str()), owned(row[5].as_str())))
        } else {
            None
        },
        FieldShape::NameOnly => if row.len() == 6 {
            Some((owned(row[1].as_str()), either_text(row[2].as_str(), row[3].as_str()), owned(row[4].as_str()), owned(row[5].as_str()), String::new()))
        } else {
            None
        },
        FieldShape::Summed => if row.len() == 6 {
            Some((owned(row[1].as_str()), owned(row[2].as_str()), owned(row[3].as_str()), owned(row[5].as_str()), owned(row[4].as_str())))
        } else {
            None
        },
    }
}

/// The entry of one match of a shape's pattern.
pub fn row_entry_text(shape: FieldShape, row: &Vec<String>, accessor_prefix: &str) -> (r: Option<String>)
    ensures
        r.deep_view() == row_entry(shape, row.deep_view(), accessor_prefix@),
{
    match field_of_row(shape, row) {
        Some((dt, name, comment, var, mul)) => {
            let (c, t, _) = enum_split_of(comment.as_str(), dt.as_str());
            Some(
                display_parsed(
                    t.as_str(),
                    name.as_str(),
                    trim_str(c.as_str()).as_str(),
                    var.as_str(),
                    mul.as_str(),
                    accessor_prefix,
                    shape == FieldShape::Summed,
                ),
            )
        },
        None => None,
    }
}

/// The entries for the matches of a shape's pattern, in order.
pub fn shape_entries_from(shape: FieldShape, rows: &Vec<Vec<String>>, accessor_prefix: &str) -> (r: Vec<String>)
    ensures
        r.deep_view() == shape_entries(shape, rows.deep_view(), accessor_prefix@),
{
    let mut out: Vec<String> = Vec::new();
    let mut i: usize = 0;
    while i < rows.len()
        invariant
            i <= rows.len(),
            out.deep_view() == shape_entries(shape, rows.deep_view().subrange(0, i as int), accessor_prefix@),
        decreases rows.len() - i,
    {
        let ghost rv = rows.deep_view();
        assert(rv.subrange(0, i + 1).drop_last() =~= rv.subrange(0, i as int));
        assert(rows[i as int].deep_view() == rv[i as int]);
        let ghost before = out.deep_view();
        match row_entry_text(shape, &rows[i], accessor_prefix) {
            Some(entry) => {
                out.push(entry);
                assert(out.deep_view() =~= before + seq![entry@]);
            },
            None => {
                assert(out.deep_view() =~= before + Seq::<Seq<char>>::empty());
            },
        }
        i += 1;
    }
    assert(rows.deep_view().subrange(0, i as int) =~= rows.deep_view());
    out
}

fn shape_pattern_text(shape: FieldShape) -> (r: &'static str)
    ensures
        r@ == shape_pattern(shape),
{
    match shape {
        FieldShape::NameTimesCount => RE_NAME_TIMES_COUNT,
        FieldShape::CountTimesName => RE_COUNT_TIMES_NAME,
        FieldShape::NameOnly => RE_NAME_ONLY,
        FieldShape::Summed => RE_SUMMED,
    }
}

/// The entries for a shape in a struct body.
pub fn shape_lines_of(shape: FieldShape, body: &str, accessor_prefix: &str) -> (r: Vec<String>)
    ensures
        r.deep_view() == shape_lines(shape, body@, accessor_prefix@),
{
    match find_captures(shape_pattern_text(shape), body) {
        Some(rows) => shape_entries_from(shape, &rows, accessor_prefix),
        None => Vec::new(),
    }
}

/// The entry that a shape gives for one line.
pub fn shape_line_entry_text(shape: FieldShape, line: &str, accessor_prefix: &str) -> (r: Option<String>)
    ensures
        r.deep_view() == shape_line_entry(shape, line@, accessor_prefix@),
{
    match find_captures(shape_pattern_text(shape), line) {
        Some(rows) => if rows.len() > 0 {
            assert(rows[0].deep_view() == rows.deep_view()[0]);
            row_entry_text(shape, &rows[0], accessor_prefix)
        } else {
            None
        },
        None => None,
    }
}

/// The entry of a body line, from the first of the shapes (a), (b) and (c)
/// that fits it.
pub fn line_entry_text(line: &str, accessor_prefix: &str) -> (r: Option<String>)
    ensures
        r.deep_view() == line_entry(line@, accessor_prefix@),
{
    match shape_line_entry_text(FieldShape::NameTimesCount, line, accessor_prefix) {
        Some(e) => Some(e),
        None => match shape_line_entry_text(FieldShape::CountTimesName, line, accessor_prefix) {
            Some(e) => Some(e),
            None => shape_line_entry_text(FieldShape::NameOnly, line, accessor_prefix),
        },
    }
}

/// The entries of the lines of a struct body, in the order of the lines.
pub fn line_entries_from(body: &str, accessor_prefix: &str) -> (r: Vec<String>)
    ensures
        r.deep_view() == line_entries(lines_of(body@), accessor_prefix@),
{
    let ls = lines(body);
    let ghost lv = ls.deep_view();
    let mut out: Vec<String> = Vec::new();
    let mut i: usize = 0;
    while i < ls.len()
        invariant
            i <= ls.len(),
            lv == ls.deep_view(),
            lv == lines_of(body@),
            out.deep_view() == line_entries(lv.subrange(0, i as int), accessor_prefix@),
        decreases ls.len() - i,
    {
        assert(lv.subrange(0, i + 1).drop_last() =~= lv.subrange(0, i as int));
        let ghost before = out.deep_view();
        match line_entry_text(ls[i].as_str(), accessor_prefix) {
            Some(e) => {
                out.push(e);
                assert(out.deep_view() =~= before + seq![e@]);
            },
            None => {
                assert(out.deep_view() =~= before + Seq::<Seq<char>>::empty());
            },
        }
        i += 1;
    }
    assert(lv.subrange(0, i as int) =~= lv);
    out
}

/// The accessor entries for the fields of the struct `struct_name` in a
/// header's text: first those whose length is read from one field, in the
/// order of their lines, then those whose length is a sum.
pub fn create_array_slice(filedata: &str, accessor_prefix: &str, struct_name: &str) -> (r: Result<
    (Vec<String>, Vec<String>),
    GenError,
>)
    ensures
        match regex_captures(struct_pattern(struct_name@), filedata@) {
            None => r == Err::<(Vec<String>, Vec<String>), GenError>(GenError::InvalidPattern),
            Some(found) => if found.len() > 0 && found[0].len() > 0 {
                let body = found[0][0];
                r matches Ok((single, summed)) && single.deep_view() == line_entries(
                    lines_of(body),
                    accessor_prefix@,
                ) && summed.deep_view() == shape_lines(FieldShape::Summed, body, accessor_prefix@)
            } else {
                r == Err::<(Vec<String>, Vec<String>), GenError>(GenError::AnchorNotFound)
            },
        },
{
    let mut pattern = cat(RE_STRUCT_HEAD, struct_name);
    pattern.append(RE_STRUCT_TAIL);
    match find_captures(pattern.as_str(), filedata) {
        None => Err(GenError::InvalidPattern),
        Some(found) => {
            if found.len() > 0 && found[0].len() > 0 {
                assert(found[0].deep_view() == found.deep_view()[0]);
                let body = found[0][0].as_str();
                let single = line_entries_from(body, accessor_prefix);
                let summed = shape_lines_of(FieldShape::Summed, body, accessor_prefix);
                Ok((single, summed))
            } else {
                Err(GenError::AnchorNotFound)
            }
        },
    }
}

} // verus!
