//! The nested-attribute grammar of `#[path(items)]`.
//!
//! The arguments of an attribute are a comma-separated list of items, with
//! an optional trailing comma. An item starts with a path (an identifier or
//! keyword, optionally led by `::` and continued by `::ident` segments); a
//! key that takes a value is followed by `= "string literal"`. Which keys
//! take a value, and which keys are accepted at all, is fixed by the
//! [`Scope`] that reads the attribute. Reading stops at the first error; the
//! items read before it are kept.
use vstd::prelude::*;
use crate::input::{Attribute, Meta, Token};
use crate::text::{
    is_digit, is_some_word, opt_view, parse_string_literal, string_literal_value,
};

verus! {

/// Who reads an attribute's items.
#[derive(Debug, Clone, Copy, PartialEq, Eq, Structural)]
pub enum Scope {
    /// `#[jsonapi(..)]` on the struct: `resource_type` takes a value, `type`
    /// takes one when `=` follows it; any other bare key is ignored.
    Struct,
    /// `#[jsonapi(..)]` on a field: `skip`, `has_one` and `has_many` are
    /// flags, `rename` takes a value, and any other key is an error.
    Field,
}

/// Why an attribute's arguments could not be read.
#[derive(Debug, Clone, Copy, PartialEq, Eq, Structural)]
pub enum MetaError {
    /// The attribute is a bare path, `#[jsonapi]`.
    ExpectedArgumentsInParentheses,
    /// The attribute has the form `#[jsonapi = ..]`.
    ExpectedParentheses,
    /// The arguments end where an item (or a segment after `::`) should start.
    ExpectedNestedAttribute,
    /// An item starts with a literal.
    UnexpectedLiteral,
    /// An item starts with a token that is neither an identifier nor a literal.
    UnexpectedToken,
    /// `::` is not followed by an identifier.
    ExpectedIdent,
    /// An item is not followed by `,` or by the end of the arguments.
    ExpectedComma,
    /// A key that takes a value is not followed by `=`.
    ExpectedEq,
    /// The value after `=` is not a string literal.
    ExpectedStringLiteral,
    /// A field-level `jsonapi` key other than `skip`, `rename`, `has_one`, `has_many`.
    UnknownFieldAttribute,
}

/// An item as read: its key when the path is one plain identifier, and its
/// value when the key takes one.
pub struct MetaItemView {
    pub key: Option<Seq<char>>,
    pub value: Option<Seq<char>>,
}

/// An item of an attribute's arguments.
#[derive(Debug, Clone)]
pub struct MetaItem {
    /// The key, when the item's path is a single identifier without a
    /// leading `::`; `None` for any other path.
    pub key: Option<String>,
    /// The value given after `=`, for a key that takes one.
    pub value: Option<String>,
}

impl View for MetaItem {
    type V = MetaItemView;

    open spec fn view(&self) -> MetaItemView {
        MetaItemView { key: opt_view(self.key), value: opt_view(self.value) }
    }
}

/// The views of a list of items.
pub open spec fn items_view(v: Seq<MetaItem>) -> Seq<MetaItemView> {
    v.map_values(|m: MetaItem| m@)
}

/// Whether a token is the punctuation character `c`.
pub open spec fn punct_is(t: Token, c: char) -> bool {
    t matches Token::Punct(ch, _) && ch == c
}

/// Whether `::` starts at position `i`.
pub open spec fn colon2_at(toks: Seq<Token>, i: int) -> bool {
    &&& 0 <= i && i + 1 < toks.len()
    &&& toks[i] matches Token::Punct(c, joint) && c == ':' && joint
    &&& punct_is(toks[i + 1], ':')
}

/// Whether a literal starts at position `j`: a literal token, or `-`
/// followed by a numeric literal.
pub open spec fn literal_at(toks: Seq<Token>, j: int) -> bool {
    ||| toks[j] is Literal
    ||| {
        &&& punct_is(toks[j], '-')
        &&& j + 1 < toks.len()
        &&& toks[j + 1] matches Token::Literal(raw) && raw@.len() > 0 && is_digit(raw@[0])
    }
}

/// The `::ident` segments of a path from position `k`: whether there was
/// at least one, and where the path ends.
pub open spec fn path_tail(toks: Seq<Token>, k: int) -> Result<(bool, int), MetaError>
    decreases toks.len() - k,
{
    if colon2_at(toks, k) {
        if k + 2 < toks.len() && toks[k + 2] is Ident {
            match path_tail(toks, k + 3) {
                Ok((_, e)) => Ok((true, e)),
                Err(x) => Err(x),
            }
        } else {
            Err(MetaError::ExpectedIdent)
        }
    } else {
        Ok((false, k))
    }
}

/// The path of the item at position `i`: its key (the identifier, when the
/// path is one plain identifier) and where it ends.
pub open spec fn path_at(toks: Seq<Token>, i: int) -> Result<(Option<Seq<char>>, int), MetaError> {
    let lead = colon2_at(toks, i);
    let j = if lead { i + 2 } else { i };
    if j >= toks.len() {
        Err(MetaError::ExpectedNestedAttribute)
    } else {
        match toks[j] {
            Token::Ident(name) => match path_tail(toks, j + 1) {
                Ok((ext, e)) => Ok((if !lead && !ext { Some(name@) } else { None }, e)),
                Err(x) => Err(x),
            },
            _ => if literal_at(toks, j) {
                Err(MetaError::UnexpectedLiteral)
            } else {
                Err(MetaError::UnexpectedToken)
            },
        }
    }
}

/// Whether a key is present and is `word`.
pub open spec fn key_is(key: Option<Seq<char>>, word: &str) -> bool {
    key matches Some(k) && k == word@
}

/// Whether `scope` reads a value after this key.
pub open spec fn takes_value(scope: Scope, key: Option<Seq<char>>) -> bool {
    match scope {
        Scope::Struct => key_is(key, "resource_type"),
        Scope::Field => key_is(key, "rename"),
    }
}

/// Whether `scope` reads a value after this key when `=` follows it.
pub open spec fn may_take_value(scope: Scope, key: Option<Seq<char>>) -> bool {
    match scope {
        Scope::Struct => key_is(key, "type"),
        Scope::Field => false,
    }
}

/// Whether position `j` holds `=`.
pub open spec fn eq_at(toks: Seq<Token>, j: int) -> bool {
    0 <= j < toks.len() && punct_is(toks[j], '=')
}

/// Whether `scope` accepts this key.
pub open spec fn accepts_key(scope: Scope, key: Option<Seq<char>>) -> bool {
    match scope {
        Scope::Field => {
            ||| key_is(key, "skip")
            ||| key_is(key, "rename")
            ||| key_is(key, "has_one")
            ||| key_is(key, "has_many")
        },
        _ => true,
    }
}

/// The value `= "literal"` at position `k`, and where it ends.
pub open spec fn value_at(toks: Seq<Token>, k: int) -> Result<(Seq<char>, int), MetaError> {
    if 0 <= k < toks.len() && punct_is(toks[k], '=') {
        if k + 1 < toks.len() {
            match toks[k + 1] {
                Token::Literal(raw) => match string_literal_value(raw@) {
                    Some(v) => Ok((v, k + 2)),
                    None => Err(MetaError::ExpectedStringLiteral),
                },
                _ => Err(MetaError::ExpectedStringLiteral),
            }
        } else {
            Err(MetaError::ExpectedStringLiteral)
        }
    } else {
        Err(MetaError::ExpectedEq)
    }
}

/// The item at position `i`, and where it ends.
pub open spec fn item_at(scope: Scope, toks: Seq<Token>, i: int) -> Result<(MetaItemView, int), MetaError> {
    match path_at(toks, i) {
        Err(e) => Err(e),
        Ok((key, j)) => if !accepts_key(scope, key) {
            Err(MetaError::UnknownFieldAttribute)
        } else if takes_value(scope, key) || (may_take_value(scope, key) && eq_at(toks, j)) {
            match value_at(toks, j) {
                Ok((v, k)) => Ok((MetaItemView { key, value: Some(v) }, k)),
                Err(e) => Err(e),
            }
        } else {
            Ok((MetaItemView { key, value: None }, j))
        },
    }
}

/// A path's tail ends after where it starts, within the tokens.
pub proof fn lemma_path_tail_bounds(toks: Seq<Token>, k: int)
    requires
        0 <= k <= toks.len(),
    ensures
        path_tail(toks, k) matches Ok((_, e)) ==> k <= e <= toks.len(),
    decreases toks.len() - k,
{
    if colon2_at(toks, k) && k + 2 < toks.len() && toks[k + 2] is Ident {
        lemma_path_tail_bounds(toks, k + 3);
    }
}

/// An item ends after where it starts, within the tokens.
pub proof fn lemma_item_bounds(scope: Scope, toks: Seq<Token>, i: int)
    requires
        0 <= i < toks.len(),
    ensures
        path_at(toks, i) matches Ok((_, j)) ==> i < j <= toks.len(),
        item_at(scope, toks, i) matches Ok((_, k)) ==> i < k <= toks.len(),
{
    let lead = colon2_at(toks, i);
    let j = if lead { i + 2 } else { i };
    if j < toks.len() {
        lemma_path_tail_bounds(toks, j + 1);
    }
}

/// The items of an argument list from position `i`, and the error that
/// stopped the reading, if any.
pub open spec fn items_from(scope: Scope, toks: Seq<Token>, i: int) -> (Seq<MetaItemView>, Option<MetaError>)
    decreases toks.len() - i,
{
    if i < 0 || i >= toks.len() {
        (seq![], None)
    } else {
        match item_at(scope, toks, i) {
            Err(e) => (seq![], Some(e)),
            Ok((item, k)) => {
                if k >= toks.len() {
                    (seq![item], None)
                } else if punct_is(toks[k], ',') {
                    proof {
                        lemma_item_bounds(scope, toks, i);
                    }
                    let rest = items_from(scope, toks, k + 1);
                    (seq![item] + rest.0, rest.1)
                } else {
                    (seq![item], Some(MetaError::ExpectedComma))
                }
            },
        }
    }
}

/// The items of an attribute, read by `scope`, and the error that stopped
/// the reading, if any.
pub open spec fn attr_items(scope: Scope, attr: Attribute) -> (Seq<MetaItemView>, Option<MetaError>) {
    match attr.meta {
        Meta::Path => (seq![], Some(MetaError::ExpectedArgumentsInParentheses)),
        Meta::NameValue => (seq![], Some(MetaError::ExpectedParentheses)),
        Meta::List(toks) => items_from(scope, toks@, 0),
    }
}

/// The value of the last item that has one.
pub open spec fn last_value(items: Seq<MetaItemView>) -> Option<Seq<char>>
    decreases items.len(),
{
    if items.len() == 0 {
        None
    } else if items.last().value is Some {
        items.last().value
    } else {
        last_value(items.drop_last())
    }
}

/// Whether some item has the key `word`.
pub open spec fn has_key(items: Seq<MetaItemView>, word: &str) -> bool {
    exists|j: int| 0 <= j < items.len() && key_is(#[trigger] items[j].key, word)
}

fn is_punct(t: &Token, c: char) -> (res: bool)
    ensures
        res == punct_is(*t, c),
{
    match t {
        Token::Punct(ch, _) => *ch == c,
        _ => false,
    }
}

fn is_colon2(toks: &Vec<Token>, i: usize) -> (res: bool)
    ensures
        res == colon2_at(toks@, i as int),
{
    if i < toks.len() && toks.len() - i > 1 {
        match &toks[i] {
            Token::Punct(c, joint) => *c == ':' && *joint && is_punct(&toks[i + 1], ':'),
            _ => false,
        }
    } else {
        false
    }
}

fn starts_with_digit(s: &String) -> (res: bool)
    ensures
        res == (s@.len() > 0 && is_digit(s@[0])),
{
    let t = s.as_str();
    if t.unicode_len() > 0 {
        let c = t.get_char(0);
        '0' <= c && c <= '9'
    } else {
        false
    }
}

fn is_literal_at(toks: &Vec<Token>, j: usize) -> (res: bool)
    requires
        j < toks.len(),
    ensures
        res == literal_at(toks@, j as int),
{
    match &toks[j] {
        Token::Literal(_) => true,
        Token::Punct(c, _) => {
            if *c == '-' && toks.len() - j > 1 {
                match &toks[j + 1] {
                    Token::Literal(raw) => starts_with_digit(raw),
                    _ => false,
                }
            } else {
                false
            }
        },
        _ => false,
    }
}

/// Reads the path of the item at position `i`.
pub fn parse_path(toks: &Vec<Token>, i: usize) -> (res: Result<(Option<String>, usize), MetaError>)
    requires
        i <= toks.len(),
    ensures
        match res {
            Ok((key, e)) => path_at(toks@, i as int) == Ok::<(Option<Seq<char>>, int), MetaError>(
                (opt_view(key), e as int),
            ),
            Err(x) => path_at(toks@, i as int) == Err::<(Option<Seq<char>>, int), MetaError>(x),
        },
{
    let lead = is_colon2(toks, i);
    let j = if lead { i + 2 } else { i };
    if j >= toks.len() {
        return Err(MetaError::ExpectedNestedAttribute);
    }
    match &toks[j] {
        Token::Ident(name) => {
            let ghost start = (j + 1) as int;
            let mut k = j + 1;
            let mut ext = false;
            proof {
                lemma_path_tail_bounds(toks@, start);
            }
            while is_colon2(toks, k)
                invariant
                    i <= toks.len(),
                    lead == colon2_at(toks@, i as int),
                    j == (if lead { i + 2 } else { i as int }),
                    j < toks.len(),
                    toks@[j as int] == Token::Ident(*name),
                    start == j + 1,
                    start <= k <= toks.len(),
                    ext == (k > start),
                    match path_tail(toks@, start) {
                        Ok((x, e)) => path_tail(toks@, k as int) matches Ok((y, e2)) && e2 == e
                            && x == (ext || y),
                        Err(err) => path_tail(toks@, k as int) == Err::<(bool, int), MetaError>(
                            err,
                        ),
                    },
                decreases toks.len() - k,
            {
                if toks.len() - k > 2 {
                    match &toks[k + 2] {
                        Token::Ident(_) => {
                            proof {
                                lemma_path_tail_bounds(toks@, k + 3);
                            }
                            k = k + 3;
                            ext = true;
                        },
                        _ => {
                            return Err(MetaError::ExpectedIdent);
                        },
                    }
                } else {
                    return Err(MetaError::ExpectedIdent);
                }
            }
            let key = if !lead && !ext {
                Some(name.clone())
            } else {
                None
            };
            Ok((key, k))
        },
        _ => {
            if is_literal_at(toks, j) {
                Err(MetaError::UnexpectedLiteral)
            } else {
                Err(MetaError::UnexpectedToken)
            }
        },
    }
}

/// Reads the value `= "literal"` at position `k`.
pub fn parse_value(toks: &Vec<Token>, k: usize) -> (res: Result<(String, usize), MetaError>)
    requires
        k <= toks.len(),
    ensures
        match res {
            Ok((v, e)) => value_at(toks@, k as int) == Ok::<(Seq<char>, int), MetaError>(
                (v@, e as int),
            ),
            Err(x) => value_at(toks@, k as int) == Err::<(Seq<char>, int), MetaError>(x),
        },
{
    if k < toks.len() && is_punct(&toks[k], '=') {
        if toks.len() - k > 1 {
            match &toks[k + 1] {
                Token::Literal(raw) => match parse_string_literal(raw.as_str()) {
                    Some(v) => Ok((v, k + 2)),
                    None => Err(MetaError::ExpectedStringLiteral),
                },
                _ => Err(MetaError::ExpectedStringLiteral),
            }
        } else {
            Err(MetaError::ExpectedStringLiteral)
        }
    } else {
        Err(MetaError::ExpectedEq)
    }
}

/// Whether `scope` accepts this key.
pub fn scope_accepts(scope: Scope, key: &Option<String>) -> (res: bool)
    ensures
        res == accepts_key(scope, opt_view(*key)),
{
    match scope {
        Scope::Field => {
            is_some_word(key, "skip") || is_some_word(key, "rename") || is_some_word(key, "has_one")
                || is_some_word(key, "has_many")
        },
        _ => true,
    }
}

/// Whether `scope` reads a value after this key.
pub fn scope_takes_value(scope: Scope, key: &Option<String>) -> (res: bool)
    ensures
        res == takes_value(scope, opt_view(*key)),
{
    match scope {
        Scope::Struct => is_some_word(key, "resource_type"),
        Scope::Field => is_some_word(key, "rename"),
    }
}

/// Whether `scope` reads a value after this key when `=` follows it.
pub fn scope_may_take_value(scope: Scope, key: &Option<String>) -> (res: bool)
    ensures
        res == may_take_value(scope, opt_view(*key)),
{
    match scope {
        Scope::Struct => is_some_word(key, "type"),
        Scope::Field => false,
    }
}

/// Reads the item at position `i`.
pub fn parse_item(scope: Scope, toks: &Vec<Token>, i: usize) -> (res: Result<(MetaItem, usize), MetaError>)
    requires
        i <= toks.len(),
    ensures
        match res {
            Ok((item, e)) => item_at(scope, toks@, i as int) == Ok::<(MetaItemView, int), MetaError>(
                (item@, e as int),
            ),
            Err(x) => item_at(scope, toks@, i as int) == Err::<(MetaItemView, int), MetaError>(x),
        },
{
    let (key, j) = match parse_path(toks, i) {
        Ok(p) => p,
        Err(e) => {
            return Err(e);
        },
    };
    if !scope_accepts(scope, &key) {
        return Err(MetaError::UnknownFieldAttribute);
    }
    proof {
        if i < toks.len() {
            lemma_item_bounds(scope, toks@, i as int);
        }
    }
    let eq_next = j < toks.len() && is_punct(&toks[j], '=');
    if scope_takes_value(scope, &key) || (scope_may_take_value(scope, &key) && eq_next) {
        match parse_value(toks, j) {
            Ok((v, k)) => Ok((MetaItem { key, value: Some(v) }, k)),
            Err(e) => Err(e),
        }
    } else {
        Ok((MetaItem { key, value: None }, j))
    }
}

/// Reads the items of an argument list, as `scope` does: the items read and
/// the error that stopped the reading, if any.
pub fn parse_items(scope: Scope, toks: &Vec<Token>) -> (res: (Vec<MetaItem>, Option<MetaError>))
    ensures
        items_view(res.0@) == items_from(scope, toks@, 0).0,
        res.1 == items_from(scope, toks@, 0).1,
{
    let mut out: Vec<MetaItem> = Vec::new();
    let mut i: usize = 0;
    assert(items_view(out@) + items_from(scope, toks@, 0).0 =~= items_from(scope, toks@, 0).0);
    loop
        invariant
            i <= toks.len(),
            items_from(scope, toks@, 0).0 == items_view(out@) + items_from(scope, toks@, i as int).0,
            items_from(scope, toks@, 0).1 == items_from(scope, toks@, i as int).1,
        decreases toks.len() - i,
    {
        if i >= toks.len() {
            assert(items_view(out@) + items_from(scope, toks@, i as int).0 =~= items_view(out@));
            return (out, None);
        }
        proof {
            lemma_item_bounds(scope, toks@, i as int);
        }
        let (item, k) = match parse_item(scope, toks, i) {
            Ok(p) => p,
            Err(e) => {
                assert(items_view(out@) + items_from(scope, toks@, i as int).0 =~= items_view(out@));
                return (out, Some(e));
            },
        };
        let ghost before = out@;
        out.push(item);
        assert(items_view(out@) =~= items_view(before) + seq![item@]);
        if k >= toks.len() {
            return (out, None);
        }
        if is_punct(&toks[k], ',') {
            assert(items_view(before) + (seq![item@] + items_from(scope, toks@, k + 1).0)
                =~= items_view(out@) + items_from(scope, toks@, k + 1).0);
            i = k + 1;
        } else {
            return (out, Some(MetaError::ExpectedComma));
        }
    }
}

/// Reads an attribute's items, as `scope` does.
pub fn parse_attr(scope: Scope, attr: &Attribute) -> (res: (Vec<MetaItem>, Option<MetaError>))
    ensures
        items_view(res.0@) == attr_items(scope, *attr).0,
        res.1 == attr_items(scope, *attr).1,
{
    match &attr.meta {
        Meta::Path => (Vec::new(), Some(MetaError::ExpectedArgumentsInParentheses)),
        Meta::NameValue => (Vec::new(), Some(MetaError::ExpectedParentheses)),
        Meta::List(toks) => parse_items(scope, toks),
    }
}

/// The value of the last item that has one.
pub fn last_item_value(items: &Vec<MetaItem>) -> (res: Option<String>)
    ensures
        opt_view(res) == last_value(items_view(items@)),
{
    let mut n = items.len();
    assert(items@.subrange(0, n as int) =~= items@);
    while n > 0
        invariant
            n <= items.len(),
            last_value(items_view(items@)) == last_value(items_view(items@.subrange(0, n as int))),
        decreases n,
    {
        let ghost pre = items_view(items@.subrange(0, n as int));
        assert(pre.drop_last() =~= items_view(items@.subrange(0, n - 1)));
        match &items[n - 1].value {
            Some(v) => {
                return Some(v.clone());
            },
            None => {},
        }
        n = n - 1;
    }
    None
}

/// Whether some item has the key `word`.
pub fn items_have_key(items: &Vec<MetaItem>, word: &str) -> (res: bool)
    ensures
        res == has_key(items_view(items@), word),
{
    let mut n: usize = 0;
    while n < items.len()
        invariant
            n <= items.len(),
            forall|j: int| 0 <= j < n ==> !key_is(#[trigger] items_view(items@)[j].key, word),
        decreases items.len() - n,
    {
        if is_some_word(&items[n].key, word) {
            assert(key_is(items_view(items@)[n as int].key, word));
            return true;
        }
        n = n + 1;
    }
    false
}

} // verus!
