//! View index bindings for the attribute tables of the indexer header.
use vstd::prelude::*;
use crate::info_method::{skip_pieces, RE_DEFINE_PATTERN};
use crate::outside::{find_captures, lowercase_of, regex_captures, to_lowercase};
use crate::text::{
    cat, find_char, first_index_of, lemma_first_index, lines, lines_of, owned,
    skip, slice, split_char, split_on, str_eq, trim, trim_str,
};

verus! {

/// A field of a row: the text after a `(` and before a `)`, trimmed.
pub open spec fn view_part(p: Seq<char>) -> Seq<char> {
    let opened = match first_index_of(p, '(') {
        Some(k) => skip(p, k + 1),
        None => p,
    };
    let closed = match first_index_of(opened, ')') {
        Some(k) => opened.subrange(0, k),
        None => opened,
    };
    trim(closed)
}

/// The binding of one row `(_, _, suffix, ntotaldim, dim)`.
pub open spec fn view_binding(line: Seq<char>) -> Option<Seq<char>> {
    let parts = split_on(line, ',').map_values(|p: Seq<char>| view_part(p));
    if parts.len() == 5 {
        let (suffix, nt, dim) = (parts[2], parts[3], parts[4]);
        if dim != "1"@ {
            Some("      let "@ + suffix + " = (id * "@ + dim + ", "@ + dim + ");"@)
        } else {
            Some(
                "      let "@ + suffix + " = mj_view_indices!(id, mj_model_nx_to_mapping!(model_ffi, "@
                    + nt + "), mj_model_nx_to_nitem!(model_ffi, "@ + nt + "), model_ffi."@ + nt
                    + ");"@,
            )
        }
    } else {
        None
    }
}

pub open spec fn view_bindings(ls: Seq<Seq<char>>) -> Seq<Seq<char>>
    decreases ls.len(),
{
    if ls.len() == 0 {
        Seq::<Seq<char>>::empty()
    } else {
        let more = match view_binding(ls.last()) {
            Some(b) => seq![b],
            None => Seq::<Seq<char>>::empty(),
        };
        view_bindings(ls.drop_last()) + more
    }
}

/// The lines for one block: `class: item`, then the binding of each row.
pub open spec fn view_block(class: Seq<char>, item: Seq<char>, block: Seq<char>) -> Seq<Seq<char>> {
    let ls = lines_of(block);
    seq![lowercase_of(class) + ": "@ + item] + view_bindings(
        skip_pieces(ls, if ls.len() > 0 { 1 } else { 0 }),
    )
}

pub open spec fn view_blocks(rows: Seq<Seq<Seq<char>>>) -> Seq<Seq<char>>
    decreases rows.len(),
{
    if rows.len() == 0 {
        Seq::<Seq<char>>::empty()
    } else {
        let row = rows.last();
        let more = if row.len() == 3 {
            view_block(row[1], row[2], row[0])
        } else {
            Seq::<Seq<char>>::empty()
        };
        view_blocks(rows.drop_last()) + more
    }
}

fn view_part_text(p: &str) -> (r: String)
    ensures
        r@ == view_part(p@),
{
    proof {
        lemma_first_index(p@, '(');
    }
    let n = p.unicode_len();
    let opened = match find_char(p, '(') {
        Some(k) => slice(p, k + 1, n),
        None => owned(p),
    };
    proof {
        lemma_first_index(opened@, ')');
    }
    let closed = match find_char(opened.as_str(), ')') {
        Some(k) => slice(opened.as_str(), 0, k),
        None => opened,
    };
    trim_str(closed.as_str())
}

/// The binding of one table row, as `view_binding` describes it.
pub fn view_binding_text(line: &str) -> (r: Option<String>)
    ensures
        r.deep_view() == view_binding(line@),
{
    let pieces = split_char(line, ',');
    let mut parts: Vec<String> = Vec::new();
    let mut i: usize = 0;
    while i < pieces.len()
        invariant
            i <= pieces.len(),
            pieces.deep_view() == split_on(line@, ','),
            parts.deep_view() == pieces.deep_view().subrange(0, i as int).map_values(
                |p: Seq<char>| view_part(p),
            ),
        decreases pieces.len() - i,
    {
        let ghost before = parts.deep_view();
        let x = view_part_text(pieces[i].as_str());
        parts.push(x);
        assert(parts.deep_view() =~= before.push(x@));
        assert(parts.deep_view() =~= pieces.deep_view().subrange(0, i + 1).map_values(
            |p: Seq<char>| view_part(p),
        ));
        i += 1;
    }
    assert(pieces.deep_view().subrange(0, i as int) =~= pieces.deep_view());
    if parts.len() != 5 {
        return None;
    }
    let suffix = parts[2].as_str();
    let nt = parts[3].as_str();
    let dim = parts[4].as_str();
    let mut r = cat("      let ", suffix);
    if !str_eq(dim, "1") {
        r.append(" = (id * ");
        r.append(dim);
        r.append(", ");
        r.append(dim);
        r.append(");");
    } else {
        r.append(" = mj_view_indices!(id, mj_model_nx_to_mapping!(model_ffi, ");
        r.append(nt);
        r.append("), mj_model_nx_to_nitem!(model_ffi, ");
        r.append(nt);
        r.append("), model_ffi.");
        r.append(nt);
        r.append(");");
    }
    Some(r)
}

/// The lines for one table block, from its class, item and text.
pub fn view_block_lines(class: &str, item: &str, block: &str) -> (r: Vec<String>)
    ensures
        r.deep_view() == view_block(class@, item@, block@),
{
    let ls = lines(block);
    let mut head = to_lowercase(class);
    head.append(": ");
    head.append(item);
    let mut out: Vec<String> = Vec::new();
    out.push(head);
    let ghost first = seq![head@];
    assert(out.deep_view() =~= first);
    let from: usize = if ls.len() > 0 {
        1
    } else {
        0
    };
    let ghost lv = ls.deep_view();
    let mut i: usize = from;
    assert(lv.subrange(from as int, from as int) =~= Seq::<Seq<char>>::empty());
    assert(first + Seq::<Seq<char>>::empty() =~= first);
    while i < ls.len()
        invariant
            from <= i <= ls.len(),
            lv == ls.deep_view(),
            out.deep_view() == first + view_bindings(lv.subrange(from as int, i as int)),
        decreases ls.len() - i,
    {
        assert(lv.subrange(from as int, i + 1).drop_last() =~= lv.subrange(from as int, i as int));
        let ghost before = out.deep_view();
        match view_binding_text(ls[i].as_str()) {
            Some(b) => {
                let ghost bv = b@;
                out.push(b);
                assert(out.deep_view() =~= before.push(bv));
                assert(out.deep_view() =~= first + (view_bindings(lv.subrange(from as int, i as int)) + seq![bv]));
            },
            None => {
                assert(view_bindings(lv.subrange(from as int, i + 1)) =~= view_bindings(lv.subrange(from as int, i as int)) + Seq::<Seq<char>>::empty());
            },
        }
        i += 1;
    }
    assert(lv.subrange(from as int, i as int) =~= skip_pieces(lv, from as int));
    out
}

/// The lines for the blocks that `RE_DEFINE_PATTERN` matched, in order.
pub fn view_lines_from(rows: &Vec<Vec<String>>) -> (r: Vec<String>)
    ensures
        r.deep_view() == view_blocks(rows.deep_view()),
{
    let mut out: Vec<String> = Vec::new();
    let mut i: usize = 0;
    while i < rows.len()
        invariant
            i <= rows.len(),
            out.deep_view() == view_blocks(rows.deep_view().subrange(0, i as int)),
        decreases rows.len() - i,
    {
        let ghost rv = rows.deep_view();
        assert(rv.subrange(0, i + 1).drop_last() =~= rv.subrange(0, i as int));
        let row = &rows[i];
        assert(row.deep_view() == rv[i as int]);
        let ghost before = out.deep_view();
        if row.len() == 3 {
            let mut more = view_block_lines(row[1].as_str(), row[2].as_str(), row[0].as_str());
            let ghost mv = more.deep_view();
            out.append(&mut more);
            assert(out.deep_view() =~= before + mv);
        } else {
            assert(out.deep_view() =~= before + Seq::<Seq<char>>::empty());
        }
        i += 1;
    }
    assert(rows.deep_view().subrange(0, i as int) =~= rows.deep_view());
    out
}

/// The view index bindings for the table blocks of an indexer header's text.
pub fn create_views(filedata: &str) -> (r: Vec<String>)
    ensures
        regex_captures(RE_DEFINE_PATTERN@, filedata@) matches Some(rows) ==> r.deep_view()
            == view_blocks(rows),
        regex_captures(RE_DEFINE_PATTERN@, filedata@) is None ==> r.len() == 0,
{
    match find_captures(RE_DEFINE_PATTERN, filedata) {
        Some(rows) => view_lines_from(&rows),
        None => Vec::new(),
    }
}

} // verus!
