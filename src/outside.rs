//! The calls into other crates, each behind a contract that names its result.
use vstd::prelude::*;

verus! {

/// What `regex` finds for `pattern` in `text`: `None` where the pattern does
/// not compile, else one row per successive non-overlapping match, holding the
/// text of each capture group (group 0 is the whole match).
pub uninterp spec fn regex_captures(pattern: Seq<char>, text: Seq<char>) -> Option<
    Seq<Seq<Seq<char>>>,
>;

/// What inflector's `to_pascal_case` makes of a text.
pub uninterp spec fn pascal_case_of(s: Seq<char>) -> Seq<char>;

/// What inflector's `to_snake_case` makes of a text.
pub uninterp spec fn snake_case_of(s: Seq<char>) -> Seq<char>;

/// What `str::to_lowercase` makes of a text.
pub uninterp spec fn lowercase_of(s: Seq<char>) -> Seq<char>;

/// What `char::to_uppercase` makes of a character.
pub uninterp spec fn uppercase_of(c: char) -> Seq<char>;

/// Relies on `regex::Regex::new`, which refuses an ill-formed pattern, and on
/// `Regex::captures_iter`, which yields the matches of the pattern in the text;
/// a group that took no part in a match is handed back as an empty string.
#[verifier::external_body]
pub(crate) fn find_captures(pattern: &str, text: &str) -> (r: Option<Vec<Vec<String>>>)
    ensures
        r.deep_view() == regex_captures(pattern@, text@),
{
    match regex::Regex::new(pattern) {
        Ok(re) => Some(
            re.captures_iter(text).map(
                |c| c.iter().map(|g| g.map_or(String::new(), |m| m.as_str().to_string())).collect(),
            ).collect(),
        ),
        Err(_) => None,
    }
}

/// Relies on `inflector::cases::pascalcase::to_pascal_case`.
#[verifier::external_body]
pub(crate) fn to_pascal_case(s: &str) -> (r: String)
    ensures
        r@ == pascal_case_of(s@),
{
    inflector::cases::pascalcase::to_pascal_case(s)
}

/// Relies on `inflector::cases::snakecase::to_snake_case`.
#[verifier::external_body]
pub(crate) fn to_snake_case(s: &str) -> (r: String)
    ensures
        r@ == snake_case_of(s@),
{
    inflector::cases::snakecase::to_snake_case(s)
}

/// Relies on `str::to_lowercase`.
#[verifier::external_body]
pub(crate) fn to_lowercase(s: &str) -> (r: String)
    ensures
        r@ == lowercase_of(s@),
{
    s.to_lowercase()
}

/// Relies on `char::to_uppercase`, collected into a string: an ASCII lower-case
/// letter gives its ASCII upper-case letter, and a character without an
/// upper-case mapping (an ASCII upper-case letter among them) gives itself.
#[verifier::external_body]
pub(crate) fn char_to_uppercase(c: char) -> (r: String)
    ensures
        r@ == uppercase_of(c),
        'a' <= c && c <= 'z' ==> r@.len() == 1 && 'A' <= r@[0] && r@[0] <= 'Z',
        'A' <= c && c <= 'Z' ==> r@ == seq![c],
{
    c.to_uppercase().collect()
}

} // verus!
