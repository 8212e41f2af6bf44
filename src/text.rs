//! Verified string operations over the character view of `str` and `String`.
use vstd::prelude::*;

verus! {

/// ASCII whitespace, as `char::is_ascii_whitespace` classifies it.
pub open spec fn is_space(c: char) -> bool {
    c == ' ' || c == '\t' || c == '\n' || c == '\r' || c == '\x0C'
}

/// Unicode `White_Space`, as `char::is_whitespace` classifies it.
pub open spec fn is_white(c: char) -> bool {
    ('\t' <= c && c <= '\r') || c == ' ' || c == '\u{85}' || c == '\u{A0}' || c == '\u{1680}' || (
    '\u{2000}' <= c && c <= '\u{200A}') || c == '\u{2028}' || c == '\u{2029}' || c == '\u{202F}'
        || c == '\u{205F}' || c == '\u{3000}'
}

pub open spec fn is_digit(c: char) -> bool {
    '0' <= c && c <= '9'
}

pub open spec fn all_digits(s: Seq<char>) -> bool {
    forall|i: int| 0 <= i < s.len() ==> is_digit(#[trigger] s[i])
}

pub open spec fn has_prefix(s: Seq<char>, p: Seq<char>) -> bool {
    p.len() <= s.len() && s.subrange(0, p.len() as int) == p
}

pub open spec fn has_suffix(s: Seq<char>, p: Seq<char>) -> bool {
    p.len() <= s.len() && s.subrange(s.len() - p.len(), s.len() as int) == p
}

/// The text after the first `n` characters.
pub open spec fn skip(s: Seq<char>, n: int) -> Seq<char> {
    s.subrange(n, s.len() as int)
}

/// Index of the first occurrence of `c` in `s`, if any.
pub open spec fn first_index_of(s: Seq<char>, c: char) -> Option<int> {
    if exists|i: int| 0 <= i < s.len() && s[i] == c {
        Some(choose|i: int| 0 <= i < s.len() && s[i] == c && forall|j: int| 0 <= j < i ==> s[j] != c)
    } else {
        None
    }
}

/// Index of the last occurrence of `c` in `s`, if any.
pub open spec fn last_index_of(s: Seq<char>, c: char) -> Option<int> {
    if exists|i: int| 0 <= i < s.len() && s[i] == c {
        Some(choose|i: int| 0 <= i < s.len() && s[i] == c && forall|j: int| i < j < s.len() ==> s[j] != c)
    } else {
        None
    }
}

/// The pieces of `s` between occurrences of `sep` (always at least one piece).
pub open spec fn split_on(s: Seq<char>, sep: char) -> Seq<Seq<char>>
    decreases s.len(),
{
    if s.len() == 0 {
        seq![Seq::<char>::empty()]
    } else {
        let p = split_on(s.drop_last(), sep);
        if s.last() == sep {
            p.push(Seq::<char>::empty())
        } else {
            p.update(p.len() - 1, p.last().push(s.last()))
        }
    }
}

/// The maximal runs of non-whitespace characters of `s`, in order.
pub open spec fn words_of(s: Seq<char>) -> Seq<Seq<char>>
    decreases s.len(),
{
    if s.len() == 0 {
        Seq::<Seq<char>>::empty()
    } else {
        let p = words_of(s.drop_last());
        if is_space(s.last()) {
            p
        } else if s.len() >= 2 && !is_space(s[s.len() - 2]) {
            p.update(p.len() - 1, p.last().push(s.last()))
        } else {
            p.push(seq![s.last()])
        }
    }
}

/// A line without the carriage return that may end it.
pub open spec fn strip_cr(s: Seq<char>) -> Seq<char> {
    if s.len() > 0 && s.last() == '\r' {
        s.drop_last()
    } else {
        s
    }
}

/// The lines of `s`: pieces between newlines, without a final empty piece,
/// each without a carriage return at its end.
pub open spec fn lines_of(s: Seq<char>) -> Seq<Seq<char>> {
    let parts = split_on(s, '\n');
    let kept = if parts.last().len() == 0 {
        parts.drop_last()
    } else {
        parts
    };
    kept.map_values(|l: Seq<char>| strip_cr(l))
}

pub open spec fn trim_start(s: Seq<char>) -> Seq<char>
    decreases s.len(),
{
    if s.len() > 0 && is_white(s[0]) {
        trim_start(skip(s, 1))
    } else {
        s
    }
}

pub open spec fn trim_end(s: Seq<char>) -> Seq<char>
    decreases s.len(),
{
    if s.len() > 0 && is_white(s.last()) {
        trim_end(s.drop_last())
    } else {
        s
    }
}

/// `s` without leading and trailing whitespace.
pub open spec fn trim(s: Seq<char>) -> Seq<char> {
    trim_end(trim_start(s))
}

/// The pieces of `v` with `sep` between each two.
pub open spec fn join_seq(v: Seq<Seq<char>>, sep: Seq<char>) -> Seq<char>
    decreases v.len(),
{
    if v.len() == 0 {
        Seq::<char>::empty()
    } else if v.len() == 1 {
        v[0]
    } else {
        join_seq(v.drop_last(), sep) + sep + v.last()
    }
}

/// The concatenation of the pieces of `v`.
pub open spec fn concat_seq(v: Seq<Seq<char>>) -> Seq<char>
    decreases v.len(),
{
    if v.len() == 0 {
        Seq::<char>::empty()
    } else {
        concat_seq(v.drop_last()) + v.last()
    }
}

/// `s` with each occurrence of `pat`, read from the left, replaced by `rep`.
pub open spec fn replace_all(s: Seq<char>, pat: Seq<char>, rep: Seq<char>) -> Seq<char>
    decreases s.len(),
{
    if s.len() == 0 {
        s
    } else if pat.len() > 0 && has_prefix(s, pat) {
        rep + replace_all(skip(s, pat.len() as int), pat, rep)
    } else {
        seq![s[0]] + replace_all(skip(s, 1), pat, rep)
    }
}

/// `s` with every leading repetition of `p` removed.
pub open spec fn strip_prefix_all(s: Seq<char>, p: Seq<char>) -> Seq<char>
    decreases s.len(),
{
    if p.len() > 0 && has_prefix(s, p) {
        strip_prefix_all(skip(s, p.len() as int), p)
    } else {
        s
    }
}

/// `s` with every trailing repetition of `p` removed.
pub open spec fn strip_suffix_all(s: Seq<char>, p: Seq<char>) -> Seq<char>
    decreases s.len(),
{
    if p.len() > 0 && has_suffix(s, p) {
        strip_suffix_all(s.subrange(0, s.len() - p.len()), p)
    } else {
        s
    }
}

/// Splitting always yields at least one piece.
pub proof fn lemma_split_nonempty(s: Seq<char>, sep: char)
    ensures
        split_on(s, sep).len() >= 1,
    decreases s.len(),
{
    if s.len() > 0 {
        lemma_split_nonempty(s.drop_last(), sep);
    }
}

/// The index that `first_index_of` gives is the first occurrence.
pub proof fn lemma_first_index(s: Seq<char>, c: char)
    ensures
        first_index_of(s, c) matches Some(k) ==> 0 <= k < s.len() && s[k] == c && forall|j: int|
            0 <= j < k ==> s[j] != c,
        first_index_of(s, c) is None <==> !s.contains(c),
{
    if exists|i: int| 0 <= i < s.len() && s[i] == c {
        let i = choose|i: int| 0 <= i < s.len() && s[i] == c;
        assert(exists|m: int| 0 <= m <= i && s[m] == c && forall|j: int| 0 <= j < m ==> s[j] != c)
            by {
            lemma_first_occurrence_exists(s, c, i);
        }
    }
}

/// The index that `last_index_of` gives is the last occurrence.
pub proof fn lemma_last_index(s: Seq<char>, c: char)
    ensures
        last_index_of(s, c) matches Some(k) ==> 0 <= k < s.len() && s[k] == c && forall|j: int|
            k < j < s.len() ==> s[j] != c,
        last_index_of(s, c) is None <==> !s.contains(c),
{
    if exists|i: int| 0 <= i < s.len() && s[i] == c {
        let i = choose|i: int| 0 <= i < s.len() && s[i] == c;
        assert(exists|m: int| i <= m < s.len() && s[m] == c && forall|j: int| m < j < s.len() ==> s[j] != c)
            by {
            lemma_last_occurrence_exists(s, c, i);
        }
    }
}

proof fn lemma_last_occurrence_exists(s: Seq<char>, c: char, i: int)
    requires
        0 <= i < s.len(),
        s[i] == c,
    ensures
        exists|m: int| i <= m < s.len() && s[m] == c && forall|j: int| m < j < s.len() ==> s[j] != c,
    decreases s.len() - i,
{
    if exists|j: int| i < j < s.len() && s[j] == c {
        let j = choose|j: int| i < j < s.len() && s[j] == c;
        lemma_last_occurrence_exists(s, c, j);
    } else {
        assert(forall|j: int| i < j < s.len() ==> s[j] != c);
    }
}

proof fn lemma_first_occurrence_exists(s: Seq<char>, c: char, i: int)
    requires
        0 <= i < s.len(),
        s[i] == c,
    ensures
        exists|m: int| 0 <= m <= i && s[m] == c && forall|j: int| 0 <= j < m ==> s[j] != c,
    decreases i,
{
    if exists|j: int| 0 <= j < i && s[j] == c {
        let j = choose|j: int| 0 <= j < i && s[j] == c;
        lemma_first_occurrence_exists(s, c, j);
    } else {
        assert(forall|j: int| 0 <= j < i ==> s[j] != c);
    }
}

pub fn is_white_char(c: char) -> (r: bool)
    ensures
        r == is_white(c),
{
    ('\t' <= c && c <= '\r') || c == ' ' || c == '\u{85}' || c == '\u{A0}' || c == '\u{1680}' || (
    '\u{2000}' <= c && c <= '\u{200A}') || c == '\u{2028}' || c == '\u{2029}' || c == '\u{202F}'
        || c == '\u{205F}' || c == '\u{3000}'
}

pub fn is_space_char(c: char) -> (r: bool)
    ensures
        r == is_space(c),
{
    c == ' ' || c == '\t' || c == '\n' || c == '\r' || c == '\x0C'
}

/// Whether `p` occurs in `s` at character position `at`.
pub fn matches_at(s: &str, at: usize, p: &str) -> (r: bool)
    requires
        at <= s@.len(),
    ensures
        r == has_prefix(skip(s@, at as int), p@),
{
    let n = s.unicode_len();
    let m = p.unicode_len();
    if m > n - at {
        return false;
    }
    let mut i: usize = 0;
    while i < m
        invariant
            n == s@.len(),
            m == p@.len(),
            at + m <= n,
            i <= m,
            forall|j: int| 0 <= j < i ==> s@[at + j] == p@[j],
        decreases m - i,
    {
        if s.get_char(at + i) != p.get_char(i) {
            assert(skip(s@, at as int).subrange(0, m as int)[i as int] != p@[i as int]);
            return false;
        }
        i += 1;
    }
    assert(skip(s@, at as int).subrange(0, m as int) =~= p@);
    true
}

pub fn str_eq(a: &str, b: &str) -> (r: bool)
    ensures
        r == (a@ == b@),
{
    if a.unicode_len() != b.unicode_len() {
        return false;
    }
    let r = matches_at(a, 0, b);
    assert(skip(a@, 0) =~= a@);
    assert(a@.subrange(0, b@.len() as int) =~= a@);
    r
}

pub fn starts_with(s: &str, p: &str) -> (r: bool)
    ensures
        r == has_prefix(s@, p@),
{
    assert(skip(s@, 0) =~= s@);
    matches_at(s, 0, p)
}

pub fn ends_with(s: &str, p: &str) -> (r: bool)
    ensures
        r == has_suffix(s@, p@),
{
    let n = s.unicode_len();
    let m = p.unicode_len();
    if m > n {
        return false;
    }
    let r = matches_at(s, n - m, p);
    assert(skip(s@, n - m).subrange(0, m as int) =~= s@.subrange(n - m, n as int));
    r
}

pub fn find_char(s: &str, c: char) -> (r: Option<usize>)
    ensures
        r matches Some(i) ==> first_index_of(s@, c) == Some(i as int),
        r is None ==> first_index_of(s@, c) is None,
{
    let n = s.unicode_len();
    let mut i: usize = 0;
    while i < n
        invariant
            n == s@.len(),
            i <= n,
            forall|j: int| 0 <= j < i ==> s@[j] != c,
        decreases n - i,
    {
        if s.get_char(i) == c {
            let ghost k = choose|k: int|
                0 <= k < s@.len() && s@[k] == c && forall|j: int| 0 <= j < k ==> s@[j] != c;
            assert(k == i) by {
                if k < i {
                } else if k > i {
                    assert(s@[i as int] != c);
                }
            }
            return Some(i);
        }
        i += 1;
    }
    None
}

pub fn rfind_char(s: &str, c: char) -> (r: Option<usize>)
    ensures
        r matches Some(i) ==> last_index_of(s@, c) == Some(i as int),
        r is None ==> last_index_of(s@, c) is None,
{
    let n = s.unicode_len();
    let mut i: usize = n;
    while i > 0
        invariant
            n == s@.len(),
            i <= n,
            forall|j: int| i <= j < n ==> s@[j] != c,
        decreases i,
    {
        if s.get_char(i - 1) == c {
            let ghost k = choose|k: int|
                0 <= k < s@.len() && s@[k] == c && forall|j: int| k < j < s@.len() ==> s@[j] != c;
            assert(k == i - 1) by {
                if k > i - 1 {
                } else if k < i - 1 {
                    assert(s@[i - 1] != c);
                }
            }
            return Some(i - 1);
        }
        i -= 1;
    }
    None
}

pub fn is_all_digits(s: &str) -> (r: bool)
    ensures
        r == all_digits(s@),
{
    let n = s.unicode_len();
    let mut i: usize = 0;
    while i < n
        invariant
            n == s@.len(),
            i <= n,
            forall|j: int| 0 <= j < i ==> is_digit(s@[j]),
        decreases n - i,
    {
        let c = s.get_char(i);
        if !('0' <= c && c <= '9') {
            return false;
        }
        i += 1;
    }
    true
}

pub fn owned(s: &str) -> (r: String)
    ensures
        r@ == s@,
{
    String::from_str(s)
}

/// The characters of `s` from position `from` up to `to`, as a new string.
pub fn slice(s: &str, from: usize, to: usize) -> (r: String)
    requires
        from <= to <= s@.len(),
    ensures
        r@ == s@.subrange(from as int, to as int),
{
    String::from_str(s.substring_char(from, to))
}

pub fn cat(a: &str, b: &str) -> (r: String)
    ensures
        r@ == a@ + b@,
{
    let mut r = String::from_str(a);
    r.append(b);
    r
}

pub fn trim_str(s: &str) -> (r: String)
    ensures
        r@ == trim(s@),
{
    let n = s.unicode_len();
    let mut a: usize = 0;
    assert(skip(s@, 0) =~= s@);
    while a < n && is_white_char(s.get_char(a))
        invariant
            n == s@.len(),
            a <= n,
            trim_start(s@) == trim_start(skip(s@, a as int)),
        decreases n - a,
    {
        assert(skip(skip(s@, a as int), 1) =~= skip(s@, a + 1));
        a += 1;
    }
    assert(trim_start(skip(s@, a as int)) == skip(s@, a as int));
    let mut b: usize = n;
    while b > a && is_white_char(s.get_char(b - 1))
        invariant
            n == s@.len(),
            a <= b <= n,
            trim_start(s@) == s@.subrange(a as int, n as int),
            trim(s@) == trim_end(s@.subrange(a as int, b as int)),
        decreases b,
    {
        assert(s@.subrange(a as int, b as int).drop_last() =~= s@.subrange(a as int, b - 1));
        b -= 1;
    }
    slice(s, a, b)
}

pub fn split_char(s: &str, sep: char) -> (r: Vec<String>)
    ensures
        r.deep_view() == split_on(s@, sep),
{
    let n = s.unicode_len();
    let mut parts: Vec<String> = Vec::new();
    let mut start: usize = 0;
    let mut i: usize = 0;
    assert(s@.subrange(0, 0) =~= Seq::<char>::empty());
    assert(parts.deep_view() =~= Seq::<Seq<char>>::empty());
    assert(parts.deep_view().push(s@.subrange(0, 0)) =~= split_on(s@.subrange(0, 0), sep));
    while i < n
        invariant
            n == s@.len(),
            start <= i <= n,
            parts.deep_view().push(s@.subrange(start as int, i as int)) == split_on(
                s@.subrange(0, i as int),
                sep,
            ),
        decreases n - i,
    {
        let ghost pre = s@.subrange(0, i + 1);
        let ghost before = parts.deep_view();
        assert(pre.drop_last() =~= s@.subrange(0, i as int));
        assert(pre.last() == s@[i as int]);
        if s.get_char(i) == sep {
            let piece = slice(s, start, i);
            parts.push(piece);
            assert(parts.deep_view() =~= before.push(piece@));
            start = i + 1;
            assert(s@.subrange(start as int, i + 1) =~= Seq::<char>::empty());
        } else {
            assert(s@.subrange(start as int, i as int).push(s@[i as int]) =~= s@.subrange(
                start as int,
                i + 1,
            ));
            assert(before.push(s@.subrange(start as int, i + 1)) =~= before.push(
                s@.subrange(start as int, i as int),
            ).update(before.len() as int, s@.subrange(start as int, i as int).push(s@[i as int])));
        }
        i += 1;
    }
    let ghost before = parts.deep_view();
    let last = slice(s, start, n);
    parts.push(last);
    assert(parts.deep_view() =~= before.push(last@));
    assert(s@.subrange(0, n as int) =~= s@);
    parts
}

pub fn words(s: &str) -> (r: Vec<String>)
    ensures
        r.deep_view() == words_of(s@),
{
    let n = s.unicode_len();
    let mut parts: Vec<String> = Vec::new();
    let mut start: usize = 0;
    let mut in_word = false;
    let mut i: usize = 0;
    assert(s@.subrange(0, 0) =~= Seq::<char>::empty());
    assert(parts.deep_view() =~= words_of(s@.subrange(0, 0)));
    while i < n
        invariant
            n == s@.len(),
            start <= i <= n,
            in_word == (i > 0 && !is_space(s@[i - 1])),
            in_word ==> start < i,
            in_word ==> parts.deep_view().push(s@.subrange(start as int, i as int)) == words_of(
                s@.subrange(0, i as int),
            ),
            !in_word ==> parts.deep_view() == words_of(s@.subrange(0, i as int)),
        decreases n - i,
    {
        let ghost pre = s@.subrange(0, i + 1);
        let ghost before = parts.deep_view();
        assert(pre.drop_last() =~= s@.subrange(0, i as int));
        assert(pre.last() == s@[i as int]);
        let c = s.get_char(i);
        if is_space_char(c) {
            if in_word {
                let piece = slice(s, start, i);
                parts.push(piece);
                assert(parts.deep_view() =~= before.push(piece@));
            }
            in_word = false;
        } else if in_word {
            assert(pre[pre.len() - 2] == s@[i - 1]);
            assert(s@.subrange(start as int, i as int).push(c) =~= s@.subrange(start as int, i + 1));
            assert(before.push(s@.subrange(start as int, i + 1)) =~= before.push(
                s@.subrange(start as int, i as int),
            ).update(before.len() as int, s@.subrange(start as int, i as int).push(c)));
        } else {
            if i > 0 {
                assert(pre[pre.len() - 2] == s@[i - 1]);
            }
            start = i;
            in_word = true;
            assert(s@.subrange(start as int, i + 1) =~= seq![c]);
        }
        i += 1;
    }
    if in_word {
        let ghost before = parts.deep_view();
        let last = slice(s, start, n);
        parts.push(last);
        assert(parts.deep_view() =~= before.push(last@));
    }
    assert(s@.subrange(0, n as int) =~= s@);
    parts
}

pub fn strip_cr_str(s: &str) -> (r: String)
    ensures
        r@ == strip_cr(s@),
{
    let n = s.unicode_len();
    if n > 0 && s.get_char(n - 1) == '\r' {
        slice(s, 0, n - 1)
    } else {
        owned(s)
    }
}

pub fn lines(s: &str) -> (r: Vec<String>)
    ensures
        r.deep_view() == lines_of(s@),
{
    let parts = split_char(s, '\n');
    let ghost pv = parts.deep_view();
    proof {
        lemma_split_nonempty(s@, '\n');
    }
    let mut count = parts.len();
    if parts[count - 1].unicode_len() == 0 {
        count = count - 1;
    }
    let ghost kept = if pv.last().len() == 0 {
        pv.drop_last()
    } else {
        pv
    };
    assert(kept.len() == count);
    let mut out: Vec<String> = Vec::new();
    let mut i: usize = 0;
    while i < count
        invariant
            count <= parts.len(),
            pv == parts.deep_view(),
            kept.len() == count,
            forall|j: int| 0 <= j < count ==> kept[j] == pv[j],
            i <= count,
            out.deep_view() == kept.subrange(0, i as int).map_values(|l: Seq<char>| strip_cr(l)),
        decreases count - i,
    {
        let ghost before = out.deep_view();
        let l = strip_cr_str(parts[i].as_str());
        assert(l@ == strip_cr(kept[i as int]));
        out.push(l);
        assert(out.deep_view() =~= before.push(l@));
        assert(out.deep_view() =~= kept.subrange(0, i + 1).map_values(|l: Seq<char>| strip_cr(l)));
        i += 1;
    }
    assert(kept.subrange(0, count as int) =~= kept);
    out
}

/// The pieces `from..to` of `v`, joined with `sep`.
pub fn join_range(v: &Vec<String>, from: usize, to: usize, sep: &str) -> (r: String)
    requires
        from <= to <= v.len(),
    ensures
        r@ == join_seq(v.deep_view().subrange(from as int, to as int), sep@),
{
    if from == to {
        return String::new();
    }
    let mut out = owned(v[from].as_str());
    let mut i: usize = from + 1;
    assert(v.deep_view().subrange(from as int, i as int).len() == 1);
    while i < to
        invariant
            to <= v.len(),
            from < i <= to,
            out@ == join_seq(v.deep_view().subrange(from as int, i as int), sep@),
        decreases to - i,
    {
        assert(v.deep_view().subrange(from as int, i + 1).drop_last() =~= v.deep_view().subrange(
            from as int,
            i as int,
        ));
        out.append(sep);
        out.append(v[i].as_str());
        i += 1;
    }
    out
}

pub fn join(v: &Vec<String>, sep: &str) -> (r: String)
    ensures
        r@ == join_seq(v.deep_view(), sep@),
{
    assert(v.deep_view().subrange(0, v.len() as int) =~= v.deep_view());
    join_range(v, 0, v.len(), sep)
}

/// `v` with each piece trimmed.
pub fn trim_all(v: &Vec<String>) -> (r: Vec<String>)
    ensures
        r.deep_view() == v.deep_view().map_values(|p: Seq<char>| trim(p)),
{
    let mut out: Vec<String> = Vec::new();
    let mut i: usize = 0;
    while i < v.len()
        invariant
            i <= v.len(),
            out.deep_view() == v.deep_view().subrange(0, i as int).map_values(|p: Seq<char>| trim(p)),
        decreases v.len() - i,
    {
        let ghost before = out.deep_view();
        let t = trim_str(v[i].as_str());
        out.push(t);
        assert(out.deep_view() =~= before.push(t@));
        assert(out.deep_view() =~= v.deep_view().subrange(0, i + 1).map_values(|p: Seq<char>| trim(p)));
        i += 1;
    }
    assert(v.deep_view().subrange(0, i as int) =~= v.deep_view());
    out
}

/// `v` with the piece at `idx` replaced by `s`.
pub fn replace_at(v: &Vec<String>, idx: usize, s: &str) -> (r: Vec<String>)
    requires
        idx < v.len(),
    ensures
        r.deep_view() == v.deep_view().update(idx as int, s@),
{
    let mut out: Vec<String> = Vec::new();
    let mut i: usize = 0;
    let ghost target = v.deep_view().update(idx as int, s@);
    while i < v.len()
        invariant
            i <= v.len(),
            idx < v.len(),
            target == v.deep_view().update(idx as int, s@),
            out.deep_view() == target.subrange(0, i as int),
        decreases v.len() - i,
    {
        let ghost before = out.deep_view();
        let x = if i == idx {
            owned(s)
        } else {
            owned(v[i].as_str())
        };
        out.push(x);
        assert(out.deep_view() =~= before.push(x@));
        assert(out.deep_view() =~= target.subrange(0, i + 1));
        i += 1;
    }
    assert(target.subrange(0, i as int) =~= target);
    out
}

pub fn concat(v: &Vec<String>) -> (r: String)
    ensures
        r@ == concat_seq(v.deep_view()),
{
    let n = v.len();
    let mut out = String::new();
    let mut i: usize = 0;
    while i < n
        invariant
            n == v.len(),
            i <= n,
            out@ == concat_seq(v.deep_view().subrange(0, i as int)),
        decreases n - i,
    {
        assert(v.deep_view().subrange(0, i + 1).drop_last() =~= v.deep_view().subrange(0, i as int));
        out.append(v[i].as_str());
        i += 1;
    }
    assert(v.deep_view().subrange(0, n as int) =~= v.deep_view());
    out
}

pub fn replace_str(s: &str, pat: &str, rep: &str) -> (r: String)
    ensures
        r@ == replace_all(s@, pat@, rep@),
{
    let n = s.unicode_len();
    let m = pat.unicode_len();
    let mut out = String::new();
    let mut i: usize = 0;
    assert(skip(s@, 0) =~= s@);
    while i < n
        invariant
            n == s@.len(),
            m == pat@.len(),
            i <= n,
            out@ + replace_all(skip(s@, i as int), pat@, rep@) == replace_all(s@, pat@, rep@),
        decreases n - i,
    {
        let ghost rest = skip(s@, i as int);
        if m > 0 && matches_at(s, i, pat) {
            assert(skip(rest, m as int) =~= skip(s@, i + m));
            out.append(rep);
            assert(out@ + replace_all(skip(s@, i + m), pat@, rep@) =~= replace_all(
                s@,
                pat@,
                rep@,
            ));
            i = i + m;
        } else {
            assert(skip(rest, 1) =~= skip(s@, i + 1));
            assert(s@.subrange(i as int, i + 1) =~= seq![rest[0]]);
            out.append(s.substring_char(i, i + 1));
            assert(out@ + replace_all(skip(s@, i + 1), pat@, rep@) =~= replace_all(
                s@,
                pat@,
                rep@,
            ));
            i = i + 1;
        }
    }
    assert(out@ + replace_all(skip(s@, i as int), pat@, rep@) =~= out@);
    out
}

pub fn strip_prefix_all_str(s: &str, p: &str) -> (r: String)
    ensures
        r@ == strip_prefix_all(s@, p@),
{
    let n = s.unicode_len();
    let m = p.unicode_len();
    let mut i: usize = 0;
    assert(skip(s@, 0) =~= s@);
    while m > 0 && i <= n && matches_at(s, i, p)
        invariant
            n == s@.len(),
            m == p@.len(),
            i <= n,
            strip_prefix_all(skip(s@, i as int), p@) == strip_prefix_all(s@, p@),
        decreases n - i,
    {
        assert(skip(skip(s@, i as int), m as int) =~= skip(s@, i + m));
        i = i + m;
    }
    slice(s, i, n)
}

pub fn strip_suffix_all_str(s: &str, p: &str) -> (r: String)
    ensures
        r@ == strip_suffix_all(s@, p@),
{
    let n = s.unicode_len();
    let m = p.unicode_len();
    let mut k: usize = n;
    assert(s@.subrange(0, n as int) =~= s@);
    while m > 0 && m <= k && matches_at(s, k - m, p)
        invariant
            n == s@.len(),
            m == p@.len(),
            k <= n,
            strip_suffix_all(s@.subrange(0, k as int), p@) == strip_suffix_all(s@, p@),
        decreases k,
    {
        let ghost t = s@.subrange(0, k as int);
        assert(skip(s@, k - m).subrange(0, m as int) =~= t.subrange(t.len() - m, t.len() as int));
        assert(t.subrange(0, t.len() - m) =~= s@.subrange(0, k - m));
        k = k - m;
    }
    if m > 0 && m <= k {
        let ghost t = s@.subrange(0, k as int);
        assert(skip(s@, k - m).subrange(0, m as int) =~= t.subrange(t.len() - m, t.len() as int));
    }
    slice(s, 0, k)
}

} // verus!
