//! Text helpers, and the calls into `std` and `syn` that work on text.
use vstd::prelude::*;

verus! {

/// What `str::to_lowercase` returns for a string.
pub uninterp spec fn lowercase(s: Seq<char>) -> Seq<char>;

/// What `syn` decodes a string literal token to: the literal's value when the
/// text is one string literal (escapes resolved, any suffix dropped), and
/// nothing when it is not.
pub uninterp spec fn string_literal_value(raw: Seq<char>) -> Option<Seq<char>>;

/// Calls `str::to_lowercase`; the result is named [`lowercase`]. Which
/// characters map to which (Unicode's lowercase mapping) is left to `std`.
#[verifier::external_body]
pub fn to_lowercase(s: &str) -> (res: String)
    ensures
        res@ == lowercase(s@),
{
    s.to_lowercase()
}

/// Calls `syn::parse_str::<syn::LitStr>` on the text of a literal token and,
/// when it parses, takes the literal's value with `LitStr::value`; the
/// result is named [`string_literal_value`]. What that value is for a given
/// text (escape sequences, raw strings, suffixes) is left to `syn`.
#[verifier::external_body]
pub fn parse_string_literal(raw: &str) -> (res: Option<String>)
    ensures
        match res {
            Some(v) => string_literal_value(raw@) == Some(v@),
            None => string_literal_value(raw@) is None,
        },
{
    match syn::parse_str::<syn::LitStr>(raw) {
        Ok(lit) => Some(lit.value()),
        Err(_) => None,
    }
}

/// Whether `s` is the text `word`.
pub fn is_word(s: &String, word: &str) -> (res: bool)
    ensures
        res == (s@ == word@),
{
    let w = String::from_str(word);
    *s == w
}

/// Whether an optional text is present and is the text `word`.
pub fn is_some_word(s: &Option<String>, word: &str) -> (res: bool)
    ensures
        res == (s matches Some(t) && t@ == word@),
{
    match s {
        Some(t) => is_word(t, word),
        None => false,
    }
}

/// The view of an optional string.
pub open spec fn opt_view(s: Option<String>) -> Option<Seq<char>> {
    match s {
        Some(t) => Some(t@),
        None => None,
    }
}

/// Whether a character is an ASCII digit.
pub open spec fn is_digit(c: char) -> bool {
    '0' <= c && c <= '9'
}

/// A character in ASCII upper case; any other character is kept.
pub open spec fn ascii_upper(c: char) -> char {
    if 'a' <= c && c <= 'z' {
        ((c as u32) - 32) as char
    } else {
        c
    }
}

/// A character in ASCII lower case; any other character is kept.
pub open spec fn ascii_lower(c: char) -> char {
    if 'A' <= c && c <= 'Z' {
        ((c as u32) + 32) as char
    } else {
        c
    }
}

/// The character in ASCII upper case.
pub fn to_ascii_upper(c: char) -> (res: char)
    ensures
        res == ascii_upper(c),
{
    if 'a' <= c && c <= 'z' {
        ((c as u8) - 32) as char
    } else {
        c
    }
}

/// The character in ASCII lower case.
pub fn to_ascii_lower(c: char) -> (res: char)
    ensures
        res == ascii_lower(c),
{
    if 'A' <= c && c <= 'Z' {
        ((c as u8) + 32) as char
    } else {
        c
    }
}

/// Calls `String::push`, which appends a character.
#[verifier::external_body]
pub fn push_char(s: &mut String, c: char)
    ensures
        final(s)@ == old(s)@.push(c),
{
    s.push(c);
}

} // verus!
