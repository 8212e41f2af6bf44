//! Info-method and view declarations for the attribute tables of `MjModel`
//! and `MjData`, read from the X-macro blocks of the indexer header.
use vstd::prelude::*;
use crate::outside::{
    find_captures, lowercase_of, pascal_case_of, regex_captures, to_lowercase, to_pascal_case,
};
use crate::text::{
    cat, find_char, first_index_of, has_prefix, join_range, join_seq, last_index_of, lemma_first_index, lemma_last_index,
    lemma_split_nonempty, lines, lines_of, owned, replace_at, rfind_char, skip, slice, split_char,
    split_on, starts_with, str_eq, trim, trim_all, trim_str,
};

verus! {

/// A table block: `#define MJ<Class>_<Item>` up to the first line ending in `)`.
pub const RE_DEFINE_PATTERN: &'static str = r"(?sm)#define MJ(?<class>[A-z]+)_(?<item>[A-z]+).*?\)$";

/// An `info_method!` invocation: the struct type, the accessor, the item and
/// the three lists of attribute lengths.
pub const RE_INFO_METHOD_MATCH: &'static str = r"info_method!\s*\{\s*(?<struct_type>\w+)\s*,\s*(?<ffi>.+?)\s*,\s*(?<view_of>\w+)\s*,\s*\[\s*(?<fixed_size_fields>[\w:\s*,]*)\s*\]\s*,\s*\[\s*(?<ffi_obtained_size_fields>[\w:\s*,]*)\s*\]\s*,\s*\[\s*(?<instance_dependent_size_fields>[\w:\s*,]*)\s*\]\s*\}";

/// Where the length of an attribute's array comes from.
#[derive(PartialEq, Eq, Structural, Debug, Clone, Copy)]
pub enum SizeSource {
    /// The per-item dimension is the length.
    Fixed,
    /// The length is a formula that the binding evaluates (`MJ_M(...)`).
    External,
    /// The length is read from the model field named by the total dimension.
    InstanceDependent,
}

/// Whether `dim` is wrapped in the `MJ_M(...)` helper.
pub open spec fn is_helper_wrapped(dim: Seq<char>) -> bool {
    has_prefix(dim, "MJ_M("@) && skip(dim, 5).contains(')')
}

/// The total dimensions that name a direct length although they are short.
pub open spec fn is_allowed_direct(ntotaldim: Seq<char>) -> bool {
    ntotaldim == "nu"@
}

pub open spec fn size_source_of(ntotaldim: Seq<char>, dim: Seq<char>) -> SizeSource {
    if is_helper_wrapped(dim) {
        SizeSource::External
    } else if ntotaldim.len() > 2 || is_allowed_direct(ntotaldim) {
        SizeSource::Fixed
    } else {
        SizeSource::InstanceDependent
    }
}

/// The length formula of a helper-wrapped dimension: the inner expression
/// followed by the trimmed text after the closing parenthesis.
pub open spec fn helper_formula(dim: Seq<char>) -> Seq<char> {
    let inner = skip(dim, 5);
    match first_index_of(inner, ')') {
        Some(k) => inner.subrange(0, k) + trim(skip(inner, k + 1)),
        None => inner,
    }
}

/// The entry `name: length` of an attribute in its length list.
pub open spec fn length_entry_of(name: Seq<char>, ntotaldim: Seq<char>, dim: Seq<char>) -> Seq<
    char,
> {
    match size_source_of(ntotaldim, dim) {
        SizeSource::External => name + ": "@ + helper_formula(dim),
        SizeSource::Fixed => name + ": "@ + dim,
        SizeSource::InstanceDependent => name + ": "@ + ntotaldim,
    }
}

/// The Rust element type of a table row's C type.
pub open spec fn view_type_of(t: Seq<char>) -> Seq<char> {
    if t == "float"@ {
        "f32"@
    } else if t == "double"@ {
        "f64"@
    } else if t == "int"@ {
        "i32"@
    } else if has_prefix(t, "mjt"@) {
        pascal_case_of(t)
    } else {
        t
    }
}

/// Element types that are library enums and need a cast.
pub open spec fn needs_cast(ty: Seq<char>) -> bool {
    has_prefix(ty, "Mjt"@) && ty != "MjtByte"@ && ty != "MjtSize"@ && ty != "MjtNum"@
}

/// The attribute name as written in Rust: `r#` before a keyword.
pub open spec fn attribute_ident(attr: Seq<char>) -> Seq<char> {
    if attr == "type"@ {
        "r#"@ + attr
    } else {
        attr
    }
}

/// An attribute without its leading underscore, if it has one.
pub open spec fn bare_attribute(attribute: Seq<char>) -> Seq<char> {
    if has_prefix(attribute, "_"@) {
        skip(attribute, 1)
    } else {
        attribute
    }
}

/// The view declaration of an attribute: `[prefix] name: Type [cast]`, where
/// a leading underscore of the attribute moves to the end of the prefix.
pub open spec fn view_decl_of(ty: Seq<char>, prefix: Seq<char>, attribute: Seq<char>) -> Seq<char> {
    let extra = if has_prefix(attribute, "_"@) {
        "_"@
    } else {
        Seq::<char>::empty()
    };
    let rty = view_type_of(ty);
    let prefix_str = if prefix.len() > 0 {
        "["@ + prefix + extra + "] "@
    } else {
        Seq::<char>::empty()
    };
    let cast = if needs_cast(rty) {
        " [cast]"@
    } else {
        Seq::<char>::empty()
    };
    prefix_str + attribute_ident(bare_attribute(attribute)) + ": "@ + rty + cast
}

/// The first field of a row, after its opening parenthesis.
pub open spec fn open_part(p: Seq<char>) -> Option<Seq<char>> {
    match first_index_of(p, '(') {
        Some(k) => Some(trim(skip(p, k + 1))),
        None => None,
    }
}

/// The last field of a row, before its last closing parenthesis.
pub open spec fn close_part(p: Seq<char>) -> Option<Seq<char>> {
    match last_index_of(p, ')') {
        Some(k) => Some(trim(p.subrange(0, k))),
        None => None,
    }
}

/// The trimmed comma-separated fields of a row `X(a, b, ...)`, or `None`
/// where the line is not wrapped in parentheses.
pub open spec fn row_fields(line: Seq<char>) -> Option<Seq<Seq<char>>> {
    let t = split_on(line, ',').map_values(|p: Seq<char>| trim(p));
    match open_part(t[0]) {
        None => None,
        Some(f) => {
            let t1 = t.update(0, f);
            match close_part(t1.last()) {
                None => None,
                Some(l) => Some(t1.update(t1.len() - 1, l)),
            }
        },
    }
}

/// What one table line adds: its size source, its length entry and its view
/// declaration; `None` for a line that is not a row of five fields.
pub open spec fn table_line(line: Seq<char>) -> Option<(SizeSource, Seq<char>, Seq<char>)> {
    match row_fields(line) {
        Some(f) => if f.len() == 5 {
            let name = attribute_ident(bare_attribute(f[2]));
            Some(
                (
                    size_source_of(f[3], f[4]),
                    length_entry_of(name, f[3], f[4]),
                    view_decl_of(f[0], f[1], f[2]),
                ),
            )
        } else {
            None
        },
        None => None,
    }
}

/// The lists that the rows of a block build: fixed, externally computed and
/// instance-dependent length entries, and the view declarations.
pub open spec fn table_lists(ls: Seq<Seq<char>>) -> (
    Seq<Seq<char>>,
    Seq<Seq<char>>,
    Seq<Seq<char>>,
    Seq<Seq<char>>,
)
    decreases ls.len(),
{
    if ls.len() == 0 {
        (
            Seq::<Seq<char>>::empty(),
            Seq::<Seq<char>>::empty(),
            Seq::<Seq<char>>::empty(),
            Seq::<Seq<char>>::empty(),
        )
    } else {
        let (f, e, d, v) = table_lists(ls.drop_last());
        match table_line(ls.last()) {
            None => (f, e, d, v),
            Some((src, entry, decl)) => match src {
                SizeSource::Fixed => (f.push(entry), e, d, v.push(decl)),
                SizeSource::External => (f, e.push(entry), d, v.push(decl)),
                SizeSource::InstanceDependent => (f, e, d.push(entry), v.push(decl)),
            },
        }
    }
}

/// A row whose per-item dimension is wrapped in `MJ_M(...)` goes to the
/// externally computed list, as `name: ` and its formula, and to neither other
/// list, whatever its total dimension.
pub proof fn lemma_helper_row_is_external(before: Seq<Seq<char>>, line: Seq<char>)
    requires
        row_fields(line) is Some,
        row_fields(line).unwrap().len() == 5,
        is_helper_wrapped(row_fields(line).unwrap()[4]),
    ensures
        ({
            let f = row_fields(line).unwrap();
            let (f0, e0, d0, v0) = table_lists(before);
            let (f1, e1, d1, v1) = table_lists(before.push(line));
            &&& f1 == f0
            &&& d1 == d0
            &&& e1 == e0.push(attribute_ident(bare_attribute(f[2])) + ": "@ + helper_formula(f[4]))
        }),
{
    assert(before.push(line).drop_last() =~= before);
}

/// Pieces joined with `", "` in runs of `k`, the runs joined with `",\n\t "`.
pub open spec fn chunked_join(data: Seq<Seq<char>>, k: int) -> Seq<char>
    decreases data.len(),
{
    if k <= 0 || data.len() <= k {
        join_seq(data, ", "@)
    } else {
        join_seq(data.subrange(0, k), ", "@) + ",\n\t "@ + chunked_join(skip_pieces(data, k), k)
    }
}

pub open spec fn skip_pieces(data: Seq<Seq<char>>, k: int) -> Seq<Seq<char>> {
    data.subrange(k, data.len() as int)
}

/// The run length for about `n_lines_target` lines.
pub open spec fn chunk_len(len: nat, n_lines_target: nat) -> int {
    if len / n_lines_target >= 1 {
        (len / n_lines_target) as int
    } else {
        1
    }
}

/// The `info_method!` invocation and the `info_with_view!` invocation for one
/// block, or `None` where no row of the block was recognized.
pub open spec fn info_block(class: Seq<char>, item: Seq<char>, block: Seq<char>) -> Option<
    (Seq<char>, Seq<char>),
> {
    let ls = lines_of(block);
    let (f, e, d, v) = table_lists(skip_pieces(ls, if ls.len() > 0 { 1 } else { 0 }));
    if f.len() > 0 || e.len() > 0 || d.len() > 0 {
        let cls = pascal_case_of(lowercase_of(class));
        let itm = lowercase_of(item);
        let bound = if cls == "Data"@ {
            ", M: Deref<Target = MjModel>"@
        } else {
            Seq::<char>::empty()
        };
        Some(
            (
                "info_method! { "@ + cls + ", ffi(), "@ + itm + ",\n\t["@ + chunked_join(
                    f,
                    chunk_len(f.len(), 3),
                ) + "],\n\t["@ + chunked_join(e, chunk_len(e.len(), 3)) + "],\n\t["@
                    + chunked_join(d, chunk_len(d.len(), 3)) + "]\n}"@,
                "info_with_view!("@ + cls + ", "@ + itm + ",\n\t["@ + chunked_join(
                    v,
                    chunk_len(v.len(), 10),
                ) + "],\n\t[]"@ + bound + ");"@,
            ),
        )
    } else {
        None
    }
}

/// The invocations for the matched blocks, in order: a row holds the whole
/// block, its class and its item.
pub open spec fn info_blocks(rows: Seq<Seq<Seq<char>>>) -> (Seq<Seq<char>>, Seq<Seq<char>>)
    decreases rows.len(),
{
    if rows.len() == 0 {
        (Seq::<Seq<char>>::empty(), Seq::<Seq<char>>::empty())
    } else {
        let (a, b) = info_blocks(rows.drop_last());
        let row = rows.last();
        if row.len() == 3 {
            match info_block(row[1], row[2], row[0]) {
                Some((x, y)) => (a.push(x), b.push(y)),
                None => (a, b),
            }
        } else {
            (a, b)
        }
    }
}

/// Which of the three sources gives the length of an attribute with total
/// dimension `ntotaldim` and per-item dimension `dim`.
pub fn size_source(ntotaldim: &str, dim: &str) -> (r: SizeSource)
    ensures
        r == size_source_of(ntotaldim@, dim@),
        is_helper_wrapped(dim@) ==> r == SizeSource::External,
{
    proof {
        reveal_strlit("MJ_M(");
    }
    if starts_with(dim, "MJ_M(") {
        let inner = slice(dim, 5, dim.unicode_len());
        proof {
            lemma_first_index(inner@, ')');
        }
        if find_char(inner.as_str(), ')').is_some() {
            return SizeSource::External;
        }
    }
    if ntotaldim.unicode_len() > 2 || str_eq(ntotaldim, "nu") {
        SizeSource::Fixed
    } else {
        SizeSource::InstanceDependent
    }
}

fn helper_formula_text(dim: &str) -> (r: String)
    requires
        is_helper_wrapped(dim@),
    ensures
        r@ == helper_formula(dim@),
{
    proof {
        reveal_strlit("MJ_M(");
    }
    let inner = slice(dim, 5, dim.unicode_len());
    proof {
        lemma_first_index(inner@, ')');
    }
    match find_char(inner.as_str(), ')') {
        Some(k) => {
            let n = inner.unicode_len();
            let rest = slice(inner.as_str(), k + 1, n);
            let mut r = slice(inner.as_str(), 0, k);
            r.append(trim_str(rest.as_str()).as_str());
            r
        },
        None => inner,
    }
}

/// The entry of an attribute in the length list of its size source.
pub fn length_entry(name: &str, ntotaldim: &str, dim: &str) -> (r: String)
    ensures
        r@ == length_entry_of(name@, ntotaldim@, dim@),
{
    let mut r = cat(name, ": ");
    match size_source(ntotaldim, dim) {
        SizeSource::External => {
            r.append(helper_formula_text(dim).as_str());
        },
        SizeSource::Fixed => {
            r.append(dim);
        },
        SizeSource::InstanceDependent => {
            r.append(ntotaldim);
        },
    }
    r
}

pub fn view_type(t: &str) -> (r: String)
    ensures
        r@ == view_type_of(t@),
{
    if str_eq(t, "float") {
        owned("f32")
    } else if str_eq(t, "double") {
        owned("f64")
    } else if str_eq(t, "int") {
        owned("i32")
    } else if starts_with(t, "mjt") {
        to_pascal_case(t)
    } else {
        owned(t)
    }
}

fn attribute_ident_text(attr: &str) -> (r: String)
    ensures
        r@ == attribute_ident(attr@),
{
    if str_eq(attr, "type") {
        cat("r#", attr)
    } else {
        owned(attr)
    }
}

fn bare_attribute_text(attribute: &str) -> (r: String)
    ensures
        r@ == bare_attribute(attribute@),
{
    if starts_with(attribute, "_") {
        proof {
            reveal_strlit("_");
        }
        slice(attribute, 1, attribute.unicode_len())
    } else {
        owned(attribute)
    }
}

/// The view declaration of the attribute of a row `(ty, prefix, attribute, ..)`.
pub fn view_decl(ty: &str, prefix: &str, attribute: &str) -> (r: String)
    ensures
        r@ == view_decl_of(ty@, prefix@, attribute@),
{
    let underscored = starts_with(attribute, "_");
    let rty = view_type(ty);
    let mut r = String::new();
    if prefix.unicode_len() > 0 {
        r.append("[");
        r.append(prefix);
        if underscored {
            r.append("_");
        }
        r.append("] ");
    }
    let bare = bare_attribute_text(attribute);
    r.append(attribute_ident_text(bare.as_str()).as_str());
    r.append(": ");
    r.append(rty.as_str());
    if starts_with(rty.as_str(), "Mjt") && !str_eq(rty.as_str(), "MjtByte") && !str_eq(
        rty.as_str(),
        "MjtSize",
    ) && !str_eq(rty.as_str(), "MjtNum") {
        r.append(" [cast]");
    }
    proof {
        assert(Seq::<char>::empty() + Seq::<char>::empty() =~= Seq::<char>::empty());
    }
    r
}

/// The fields of a table row, as `row_fields` describes them.
pub fn table_row_fields(line: &str) -> (r: Option<Vec<String>>)
    ensures
        r.deep_view() == row_fields(line@),
{
    let pieces = split_char(line, ',');
    proof {
        lemma_split_nonempty(line@, ',');
    }
    let t = trim_all(&pieces);
    let n = t.len();
    let first = t[0].as_str();
    let m = first.unicode_len();
    proof {
        lemma_first_index(first@, '(');
    }
    let opened = match find_char(first, '(') {
        Some(k) => trim_str(slice(first, k + 1, m).as_str()),
        None => {
            return None;
        },
    };
    let t1 = replace_at(&t, 0, opened.as_str());
    let last = t1[n - 1].as_str();
    proof {
        lemma_last_index(last@, ')');
    }
    let closed = match rfind_char(last, ')') {
        Some(k) => trim_str(slice(last, 0, k).as_str()),
        None => {
            return None;
        },
    };
    Some(replace_at(&t1, n - 1, closed.as_str()))
}

/// What a table line adds to the lists of its block.
pub fn table_line_entry(line: &str) -> (r: Option<(SizeSource, String, String)>)
    ensures
        r matches Some((src, entry, decl)) ==> table_line(line@) == Some((src, entry@, decl@)),
        r is None ==> table_line(line@) is None,
{
    match table_row_fields(line) {
        Some(f) => {
            if f.len() == 5 {
                let bare = bare_attribute_text(f[2].as_str());
                let name = attribute_ident_text(bare.as_str());
                let src = size_source(f[3].as_str(), f[4].as_str());
                let entry = length_entry(name.as_str(), f[3].as_str(), f[4].as_str());
                let decl = view_decl(f[0].as_str(), f[1].as_str(), f[2].as_str());
                Some((src, entry, decl))
            } else {
                None
            }
        },
        None => None,
    }
}

/// Joins the pieces of `data` in runs, so that they fill about
/// `n_lines_target` lines.
pub fn join_attributes_chunked_pretty(data: &Vec<String>, n_lines_target: usize) -> (r: String)
    requires
        n_lines_target > 0,
    ensures
        r@ == chunked_join(data.deep_view(), chunk_len(data.len() as nat, n_lines_target as nat)),
{
    let n = data.len();
    let k: usize = if n / n_lines_target >= 1 {
        n / n_lines_target
    } else {
        1
    };
    let ghost dv = data.deep_view();
    let mut out = String::new();
    let mut start: usize = 0;
    assert(skip_pieces(dv, 0) =~= dv);
    while n - start > k
        invariant
            n == data.len(),
            dv == data.deep_view(),
            k >= 1,
            start <= n,
            out@ + chunked_join(skip_pieces(dv, start as int), k as int) == chunked_join(dv, k as int),
        decreases n - start,
    {
        let ghost rest = skip_pieces(dv, start as int);
        assert(rest.subrange(0, k as int) =~= dv.subrange(start as int, start + k));
        assert(skip_pieces(rest, k as int) =~= skip_pieces(dv, start + k));
        out.append(join_range(data, start, start + k, ", ").as_str());
        out.append(",\n\t ");
        start = start + k;
    }
    assert(skip_pieces(dv, start as int) =~= dv.subrange(start as int, n as int));
    out.append(join_range(data, start, n, ", ").as_str());
    out
}

/// The four lists that the lines `from..` of `ls` build.
fn table_lists_of(ls: &Vec<String>, from: usize) -> (r: (Vec<String>, Vec<String>, Vec<String>, Vec<String>))
    requires
        from <= ls.len(),
    ensures
        (r.0.deep_view(), r.1.deep_view(), r.2.deep_view(), r.3.deep_view()) == table_lists(
            skip_pieces(ls.deep_view(), from as int),
        ),
{
    let mut f: Vec<String> = Vec::new();
    let mut e: Vec<String> = Vec::new();
    let mut d: Vec<String> = Vec::new();
    let mut v: Vec<String> = Vec::new();
    let ghost dv = ls.deep_view();
    let mut i: usize = from;
    assert(dv.subrange(from as int, from as int) =~= Seq::<Seq<char>>::empty());
    while i < ls.len()
        invariant
            from <= i <= ls.len(),
            dv == ls.deep_view(),
            (f.deep_view(), e.deep_view(), d.deep_view(), v.deep_view()) == table_lists(
                dv.subrange(from as int, i as int),
            ),
        decreases ls.len() - i,
    {
        assert(dv.subrange(from as int, i + 1).drop_last() =~= dv.subrange(from as int, i as int));
        let ghost (f0, e0, d0, v0) = (f.deep_view(), e.deep_view(), d.deep_view(), v.deep_view());
        match table_line_entry(ls[i].as_str()) {
            None => {},
            Some((src, entry, decl)) => {
                let ghost (ev, dcv) = (entry@, decl@);
                match src {
                    SizeSource::Fixed => {
                        f.push(entry);
                        assert(f.deep_view() =~= f0.push(ev));
                    },
                    SizeSource::External => {
                        e.push(entry);
                        assert(e.deep_view() =~= e0.push(ev));
                    },
                    SizeSource::InstanceDependent => {
                        d.push(entry);
                        assert(d.deep_view() =~= d0.push(ev));
                    },
                }
                v.push(decl);
                assert(v.deep_view() =~= v0.push(dcv));
            },
        }
        i += 1;
    }
    assert(dv.subrange(from as int, i as int) =~= skip_pieces(dv, from as int));
    (f, e, d, v)
}

/// The two invocations for one table block, from its class, item and text.
pub fn info_block_calls(class: &str, item: &str, block: &str) -> (r: Option<(String, String)>)
    ensures
        r.deep_view() == info_block(class@, item@, block@),
{
    let ls = lines(block);
    let from: usize = if ls.len() > 0 {
        1
    } else {
        0
    };
    let (f, e, d, v) = table_lists_of(&ls, from);
    if f.len() > 0 || e.len() > 0 || d.len() > 0 {
        let cls = to_pascal_case(to_lowercase(class).as_str());
        let itm = to_lowercase(item);
        let mut info = cat("info_method! { ", cls.as_str());
        info.append(", ffi(), ");
        info.append(itm.as_str());
        info.append(",\n\t[");
        info.append(join_attributes_chunked_pretty(&f, 3).as_str());
        info.append("],\n\t[");
        info.append(join_attributes_chunked_pretty(&e, 3).as_str());
        info.append("],\n\t[");
        info.append(join_attributes_chunked_pretty(&d, 3).as_str());
        info.append("]\n}");
        let mut view = cat("info_with_view!(", cls.as_str());
        view.append(", ");
        view.append(itm.as_str());
        view.append(",\n\t[");
        view.append(join_attributes_chunked_pretty(&v, 10).as_str());
        view.append("],\n\t[]");
        if str_eq(cls.as_str(), "Data") {
            view.append(", M: Deref<Target = MjModel>");
        }
        view.append(");");
        Some((info, view))
    } else {
        None
    }
}

/// The invocations for the blocks that `RE_DEFINE_PATTERN` matched, in order:
/// the `info_method!` ones, then the `info_with_view!` ones.
pub fn info_method_calls_from(rows: &Vec<Vec<String>>) -> (r: (Vec<String>, Vec<String>))
    ensures
        (r.0.deep_view(), r.1.deep_view()) == info_blocks(rows.deep_view()),
{
    let mut a: Vec<String> = Vec::new();
    let mut b: Vec<String> = Vec::new();
    let mut i: usize = 0;
    while i < rows.len()
        invariant
            i <= rows.len(),
            (a.deep_view(), b.deep_view()) == info_blocks(rows.deep_view().subrange(0, i as int)),
        decreases rows.len() - i,
    {
        let ghost rv = rows.deep_view();
        assert(rv.subrange(0, i + 1).drop_last() =~= rv.subrange(0, i as int));
        let row = &rows[i];
        assert(row.deep_view() == rv[i as int]);
        if row.len() == 3 {
            match info_block_calls(row[1].as_str(), row[2].as_str(), row[0].as_str()) {
                Some((x, y)) => {
                    let ghost (a0, b0) = (a.deep_view(), b.deep_view());
                    let ghost (xv, yv) = (x@, y@);
                    a.push(x);
                    b.push(y);
                    assert(a.deep_view() =~= a0.push(xv));
                    assert(b.deep_view() =~= b0.push(yv));
                },
                None => {},
            }
        }
        i += 1;
    }
    assert(rows.deep_view().subrange(0, i as int) =~= rows.deep_view());
    (a, b)
}

/// The `info_method!` and `info_with_view!` invocations for the table blocks
/// of an indexer header's text.
pub fn create_views(filedata: &str) -> (r: (Vec<String>, Vec<String>))
    ensures
        regex_captures(RE_DEFINE_PATTERN@, filedata@) matches Some(rows) ==> (
        r.0.deep_view(),
        r.1.deep_view(),
        ) == info_blocks(rows),
        regex_captures(RE_DEFINE_PATTERN@, filedata@) is None ==> r.0.len() == 0 && r.1.len() == 0,
{
    match find_captures(RE_DEFINE_PATTERN, filedata) {
        Some(rows) => info_method_calls_from(&rows),
        None => (Vec::new(), Vec::new()),
    }
}

} // verus!
