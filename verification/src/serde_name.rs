//! The key that serde writes a field under.
//!
//! A field is serialized under its `serde(rename)`: `rename = "name"`, or
//! the `serialize` name of `rename(serialize = "name", ..)`. Without one, it
//! is serialized under its name (with a raw identifier's `r#` removed),
//! cased by the struct's `serde(rename_all)` rule when there is one
//! (`rename_all = "rule"`, or the `serialize` rule of
//! `rename_all(serialize = "rule", ..)`). These are serde's naming rules as
//! `serde_derive` applies them. Serde refuses, at compile time, a struct that
//! gives a field two renames or the struct two rules; for such input the
//! first `serde` attribute that gives a value is read, and within it the last
//! item that gives one.
//!
//! Every item of a `serde` attribute is read, whatever other keys (with or
//! without values) stand before or after the one looked for; an item is what
//! stands between two commas of the argument list, and `key = "value"` gives
//! its value whatever follows the literal within the item.
use vstd::prelude::*;
use crate::attrs::is_serde;
use crate::input::{Attribute, Delimiter, Field, Meta, Token};
use crate::meta::punct_is;
use crate::text::{
    ascii_lower, ascii_upper, is_word, opt_view, parse_string_literal, push_char,
    string_literal_value, to_ascii_lower, to_ascii_upper,
};

verus! {

/// Where the item that starts at `i` ends: at the next comma, or at the end.
pub open spec fn seg_end(toks: Seq<Token>, i: int) -> int
    decreases toks.len() - i,
{
    if i < 0 || i >= toks.len() {
        toks.len() as int
    } else if punct_is(toks[i], ',') {
        i
    } else {
        seg_end(toks, i + 1)
    }
}

/// An item ends within the tokens, not before it starts.
pub proof fn lemma_seg_end(toks: Seq<Token>, i: int)
    requires
        0 <= i <= toks.len(),
    ensures
        i <= seg_end(toks, i) <= toks.len(),
        seg_end(toks, i) < toks.len() ==> punct_is(toks[seg_end(toks, i)], ','),
    decreases toks.len() - i,
{
    if i < toks.len() && !punct_is(toks[i], ',') {
        lemma_seg_end(toks, i + 1);
    }
}

/// The value of the item `key = "value" ..` that spans `[i, e)`.
pub open spec fn direct_value(toks: Seq<Token>, i: int, e: int, key: Seq<char>) -> Option<Seq<char>> {
    if e - i >= 3 && 0 <= i && e <= toks.len() && (toks[i] matches Token::Ident(k) && k@ == key)
        && punct_is(toks[i + 1], '=') {
        match toks[i + 2] {
            Token::Literal(raw) => string_literal_value(raw@),
            _ => None,
        }
    } else {
        None
    }
}

/// The first of two values, or the second when there is no first.
pub open spec fn or_else(a: Option<Seq<char>>, b: Option<Seq<char>>) -> Option<Seq<char>> {
    match a {
        Some(v) => Some(v),
        None => b,
    }
}

/// The value of the last item `key = "value"` from position `i` on.
pub open spec fn last_direct_value(toks: Seq<Token>, i: int, key: Seq<char>) -> Option<Seq<char>>
    decreases toks.len() - i,
{
    if i < 0 || i >= toks.len() {
        None
    } else {
        let e = seg_end(toks, i);
        let rest = if i <= e < toks.len() {
            last_direct_value(toks, e + 1, key)
        } else {
            None
        };
        or_else(rest, direct_value(toks, i, e, key))
    }
}

/// The serialization value that the item spanning `[i, e)` gives `key`:
/// `key = "value"`, or the `serialize` value of `key(serialize = "value", ..)`.
pub open spec fn ser_value(toks: Seq<Token>, i: int, e: int, key: Seq<char>) -> Option<Seq<char>> {
    match direct_value(toks, i, e, key) {
        Some(v) => Some(v),
        None => if e - i == 2 && 0 <= i && e <= toks.len() && (toks[i] matches Token::Ident(k) && k@
            == key) {
            match toks[i + 1] {
                Token::Group(Delimiter::Parenthesis, inner) => last_direct_value(
                    inner@,
                    0,
                    "serialize"@,
                ),
                _ => None,
            }
        } else {
            None
        },
    }
}

/// The last serialization value given to `key` from position `i` on.
pub open spec fn last_ser_value(toks: Seq<Token>, i: int, key: Seq<char>) -> Option<Seq<char>>
    decreases toks.len() - i,
{
    if i < 0 || i >= toks.len() {
        None
    } else {
        let e = seg_end(toks, i);
        let rest = if i <= e < toks.len() {
            last_ser_value(toks, e + 1, key)
        } else {
            None
        };
        or_else(rest, ser_value(toks, i, e, key))
    }
}

/// The serialization value given to `key` by the first `serde` attribute,
/// from index `n` on, that gives it one (the last it gives within it).
pub open spec fn serde_value_from(attrs: Seq<Attribute>, n: int, key: Seq<char>) -> Option<Seq<char>>
    decreases attrs.len() - n,
{
    if n < 0 || n >= attrs.len() {
        None
    } else {
        match attrs[n].meta {
            Meta::List(toks) => if is_serde(attrs[n]) && last_ser_value(toks@, 0, key) is Some {
                last_ser_value(toks@, 0, key)
            } else {
                serde_value_from(attrs, n + 1, key)
            },
            _ => serde_value_from(attrs, n + 1, key),
        }
    }
}

/// The serialization value given to `key` by these `serde` attributes.
pub open spec fn serde_value(attrs: Seq<Attribute>, key: Seq<char>) -> Option<Seq<char>> {
    serde_value_from(attrs, 0, key)
}

/// A `serde(rename_all)` rule.
#[derive(Debug, Clone, Copy, PartialEq, Eq, Structural)]
pub enum RenameRule {
    LowerCase,
    UpperCase,
    PascalCase,
    CamelCase,
    SnakeCase,
    ScreamingSnakeCase,
    KebabCase,
    ScreamingKebabCase,
}

/// The rule a `rename_all` value names, if any.
pub open spec fn rule_named(s: Seq<char>) -> Option<RenameRule> {
    if s == "lowercase"@ {
        Some(RenameRule::LowerCase)
    } else if s == "UPPERCASE"@ {
        Some(RenameRule::UpperCase)
    } else if s == "PascalCase"@ {
        Some(RenameRule::PascalCase)
    } else if s == "camelCase"@ {
        Some(RenameRule::CamelCase)
    } else if s == "snake_case"@ {
        Some(RenameRule::SnakeCase)
    } else if s == "SCREAMING_SNAKE_CASE"@ {
        Some(RenameRule::ScreamingSnakeCase)
    } else if s == "kebab-case"@ {
        Some(RenameRule::KebabCase)
    } else if s == "SCREAMING-KEBAB-CASE"@ {
        Some(RenameRule::ScreamingKebabCase)
    } else {
        None
    }
}

/// The text in ASCII upper case.
pub open spec fn upper_all(s: Seq<char>) -> Seq<char> {
    s.map_values(|c: char| ascii_upper(c))
}

/// The text with every `_` made `-`.
pub open spec fn dashes(s: Seq<char>) -> Seq<char> {
    s.map_values(|c: char| if c == '_' { '-' } else { c })
}

/// `PascalCase` of a field name: `_` dropped, and the character after each
/// `_` (and, when `cap` holds, the first one) in ASCII upper case.
pub open spec fn pascal(s: Seq<char>, cap: bool) -> Seq<char>
    decreases s.len(),
{
    if s.len() == 0 {
        seq![]
    } else if s[0] == '_' {
        pascal(s.drop_first(), true)
    } else if cap {
        seq![ascii_upper(s[0])] + pascal(s.drop_first(), false)
    } else {
        seq![s[0]] + pascal(s.drop_first(), false)
    }
}

/// `camelCase` of a field name: its `PascalCase` with the first character
/// in ASCII lower case.
pub open spec fn camel(s: Seq<char>) -> Seq<char> {
    let p = pascal(s, true);
    if p.len() == 0 {
        p
    } else {
        seq![ascii_lower(p[0])] + p.drop_first()
    }
}

/// A field name cased by a rule.
pub open spec fn apply_rule(rule: Option<RenameRule>, f: Seq<char>) -> Seq<char> {
    match rule {
        None => f,
        Some(RenameRule::LowerCase) => f,
        Some(RenameRule::SnakeCase) => f,
        Some(RenameRule::UpperCase) => upper_all(f),
        Some(RenameRule::ScreamingSnakeCase) => upper_all(f),
        Some(RenameRule::PascalCase) => pascal(f, true),
        Some(RenameRule::CamelCase) => camel(f),
        Some(RenameRule::KebabCase) => dashes(f),
        Some(RenameRule::ScreamingKebabCase) => dashes(upper_all(f)),
    }
}

/// An identifier without its leading `r#` markers.
pub open spec fn unraw(s: Seq<char>) -> Seq<char>
    decreases s.len(),
{
    if s.len() >= 2 && s[0] == 'r' && s[1] == '#' {
        unraw(s.skip(2))
    } else {
        s
    }
}

/// The struct's `rename_all` rule, if it names one.
pub open spec fn struct_rename_rule(attrs: Seq<Attribute>) -> Option<RenameRule> {
    match serde_value(attrs, "rename_all"@) {
        Some(r) => rule_named(r),
        None => None,
    }
}

/// The key serde writes a field under, given the struct's rule.
pub open spec fn serde_key(f: Field, rule: Option<RenameRule>) -> Seq<char> {
    match serde_value(f.attrs@, "rename"@) {
        Some(s) => s,
        None => apply_rule(rule, unraw(f.name@)),
    }
}

fn is_punct_token(t: &Token, c: char) -> (res: bool)
    ensures
        res == punct_is(*t, c),
{
    match t {
        Token::Punct(ch, _) => *ch == c,
        _ => false,
    }
}

/// Where the item that starts at `i` ends.
pub fn item_end(toks: &Vec<Token>, i: usize) -> (res: usize)
    requires
        i <= toks.len(),
    ensures
        res as int == seg_end(toks@, i as int),
{
    let mut j = i;
    while j < toks.len() && !is_punct_token(&toks[j], ',')
        invariant
            i <= j <= toks.len(),
            seg_end(toks@, i as int) == seg_end(toks@, j as int),
        decreases toks.len() - j,
    {
        j = j + 1;
    }
    j
}

fn get_direct_value(toks: &Vec<Token>, i: usize, e: usize, key: &str) -> (res: Option<String>)
    requires
        i <= e <= toks.len(),
    ensures
        opt_view(res) == direct_value(toks@, i as int, e as int, key@),
{
    if e - i >= 3 {
        let is_key = match &toks[i] {
            Token::Ident(k) => is_word(k, key),
            _ => false,
        };
        if is_key && is_punct_token(&toks[i + 1], '=') {
            match &toks[i + 2] {
                Token::Literal(raw) => parse_string_literal(raw.as_str()),
                _ => None,
            }
        } else {
            None
        }
    } else {
        None
    }
}

fn get_last_direct_value(toks: &Vec<Token>, key: &str) -> (res: Option<String>)
    ensures
        opt_view(res) == last_direct_value(toks@, 0, key@),
{
    let mut found: Option<String> = None;
    let mut i: usize = 0;
    while i < toks.len()
        invariant
            i <= toks.len(),
            last_direct_value(toks@, 0, key@) == or_else(last_direct_value(toks@, i as int, key@), opt_view(found)),
        decreases toks.len() - i,
    {
        let e = item_end(toks, i);
        proof {
            lemma_seg_end(toks@, i as int);
        }
        let v = get_direct_value(toks, i, e, key);
        if v.is_some() {
            found = v;
        }
        if e >= toks.len() {
            return found;
        }
        i = e + 1;
    }
    found
}

fn get_ser_value(toks: &Vec<Token>, i: usize, e: usize, key: &str) -> (res: Option<String>)
    requires
        i <= e <= toks.len(),
    ensures
        opt_view(res) == ser_value(toks@, i as int, e as int, key@),
{
    let direct = get_direct_value(toks, i, e, key);
    if direct.is_some() {
        return direct;
    }
    if e - i == 2 {
        let is_key = match &toks[i] {
            Token::Ident(k) => is_word(k, key),
            _ => false,
        };
        if is_key {
            match &toks[i + 1] {
                Token::Group(Delimiter::Parenthesis, inner) => get_last_direct_value(inner, "serialize"),
                _ => None,
            }
        } else {
            None
        }
    } else {
        None
    }
}

/// The last serialization value given to `key` in a `serde` argument list.
pub fn get_last_ser_value(toks: &Vec<Token>, key: &str) -> (res: Option<String>)
    ensures
        opt_view(res) == last_ser_value(toks@, 0, key@),
{
    let mut found: Option<String> = None;
    let mut i: usize = 0;
    while i < toks.len()
        invariant
            i <= toks.len(),
            last_ser_value(toks@, 0, key@) == or_else(last_ser_value(toks@, i as int, key@), opt_view(found)),
        decreases toks.len() - i,
    {
        let e = item_end(toks, i);
        proof {
            lemma_seg_end(toks@, i as int);
        }
        let v = get_ser_value(toks, i, e, key);
        if v.is_some() {
            found = v;
        }
        if e >= toks.len() {
            return found;
        }
        i = e + 1;
    }
    found
}

/// The serialization value that the first `serde` attribute giving `key`
/// one gives it.
pub fn get_serde_value(attrs: &Vec<Attribute>, key: &str) -> (res: Option<String>)
    ensures
        opt_view(res) == serde_value(attrs@, key@),
{
    let mut n: usize = 0;
    while n < attrs.len()
        invariant
            n <= attrs.len(),
            serde_value_from(attrs@, 0, key@) == serde_value_from(attrs@, n as int, key@),
        decreases attrs.len() - n,
    {
        if is_word(&attrs[n].path, "serde") {
            match &attrs[n].meta {
                Meta::List(toks) => {
                    let v = get_last_ser_value(toks, key);
                    if v.is_some() {
                        return v;
                    }
                },
                _ => {},
            }
        }
        n = n + 1;
    }
    None
}

/// The rule a `rename_all` value names, if any.
pub fn parse_rule(s: &String) -> (res: Option<RenameRule>)
    ensures
        res == rule_named(s@),
{
    if is_word(s, "lowercase") {
        Some(RenameRule::LowerCase)
    } else if is_word(s, "UPPERCASE") {
        Some(RenameRule::UpperCase)
    } else if is_word(s, "PascalCase") {
        Some(RenameRule::PascalCase)
    } else if is_word(s, "camelCase") {
        Some(RenameRule::CamelCase)
    } else if is_word(s, "snake_case") {
        Some(RenameRule::SnakeCase)
    } else if is_word(s, "SCREAMING_SNAKE_CASE") {
        Some(RenameRule::ScreamingSnakeCase)
    } else if is_word(s, "kebab-case") {
        Some(RenameRule::KebabCase)
    } else if is_word(s, "SCREAMING-KEBAB-CASE") {
        Some(RenameRule::ScreamingKebabCase)
    } else {
        None
    }
}

/// The struct's `serde(rename_all)` rule, if it names one.
pub fn get_rename_rule(attrs: &Vec<Attribute>) -> (res: Option<RenameRule>)
    ensures
        res == struct_rename_rule(attrs@),
{
    match get_serde_value(attrs, "rename_all") {
        Some(r) => parse_rule(&r),
        None => None,
    }
}

fn upper_text(s: &str) -> (res: String)
    ensures
        res@ == upper_all(s@),
{
    let n = s.unicode_len();
    let mut out = String::new();
    let mut i: usize = 0;
    while i < n
        invariant
            n == s@.len(),
            i <= n,
            out@ =~= upper_all(s@.subrange(0, i as int)),
        decreases n - i,
    {
        let c = s.get_char(i);
        push_char(&mut out, to_ascii_upper(c));
        assert(s@.subrange(0, i + 1) =~= s@.subrange(0, i as int).push(c));
        i = i + 1;
    }
    assert(s@.subrange(0, n as int) =~= s@);
    out
}

fn dash_text(s: &str) -> (res: String)
    ensures
        res@ == dashes(s@),
{
    let n = s.unicode_len();
    let mut out = String::new();
    let mut i: usize = 0;
    while i < n
        invariant
            n == s@.len(),
            i <= n,
            out@ =~= dashes(s@.subrange(0, i as int)),
        decreases n - i,
    {
        let c = s.get_char(i);
        push_char(&mut out, if c == '_' { '-' } else { c });
        assert(s@.subrange(0, i + 1) =~= s@.subrange(0, i as int).push(c));
        i = i + 1;
    }
    assert(s@.subrange(0, n as int) =~= s@);
    out
}

fn pascal_text(s: &str) -> (res: String)
    ensures
        res@ == pascal(s@, true),
{
    let n = s.unicode_len();
    let mut out = String::new();
    let mut cap = true;
    let mut i: usize = 0;
    assert(s@.skip(0) =~= s@);
    while i < n
        invariant
            n == s@.len(),
            i <= n,
            pascal(s@, true) == out@ + pascal(s@.skip(i as int), cap),
        decreases n - i,
    {
        let c = s.get_char(i);
        let ghost rest = s@.skip(i as int);
        assert(rest[0] == c);
        assert(rest.drop_first() =~= s@.skip(i + 1));
        if c == '_' {
            cap = true;
        } else if cap {
            let ghost pre = out@;
            push_char(&mut out, to_ascii_upper(c));
            assert(pre + (seq![ascii_upper(c)] + pascal(s@.skip(i + 1), false)) =~= out@ + pascal(
                s@.skip(i + 1),
                false,
            ));
            cap = false;
        } else {
            let ghost pre = out@;
            push_char(&mut out, c);
            assert(pre + (seq![c] + pascal(s@.skip(i + 1), false)) =~= out@ + pascal(
                s@.skip(i + 1),
                false,
            ));
        }
        i = i + 1;
    }
    assert(s@.skip(n as int) =~= Seq::<char>::empty());
    assert(out@ + pascal(s@.skip(n as int), cap) =~= out@);
    out
}

fn camel_text(s: &str) -> (res: String)
    ensures
        res@ == camel(s@),
{
    let p = pascal_text(s);
    let t = p.as_str();
    let n = t.unicode_len();
    if n == 0 {
        return p;
    }
    let mut out = String::new();
    push_char(&mut out, to_ascii_lower(t.get_char(0)));
    let mut i: usize = 1;
    while i < n
        invariant
            n == t@.len(),
            t@ == pascal(s@, true),
            1 <= i <= n,
            out@ =~= seq![ascii_lower(t@[0])] + t@.subrange(1, i as int),
        decreases n - i,
    {
        let c = t.get_char(i);
        push_char(&mut out, c);
        i = i + 1;
    }
    assert(t@.subrange(1, n as int) =~= t@.drop_first());
    out
}

/// A field name cased by a rule.
pub fn apply_rename_rule(rule: Option<RenameRule>, f: &str) -> (res: String)
    ensures
        res@ == apply_rule(rule, f@),
{
    match rule {
        None => String::from_str(f),
        Some(RenameRule::LowerCase) => String::from_str(f),
        Some(RenameRule::SnakeCase) => String::from_str(f),
        Some(RenameRule::UpperCase) => upper_text(f),
        Some(RenameRule::ScreamingSnakeCase) => upper_text(f),
        Some(RenameRule::PascalCase) => pascal_text(f),
        Some(RenameRule::CamelCase) => camel_text(f),
        Some(RenameRule::KebabCase) => dash_text(f),
        Some(RenameRule::ScreamingKebabCase) => {
            let u = upper_text(f);
            dash_text(u.as_str())
        },
    }
}

/// A field name without its leading `r#` markers.
pub fn unraw_name(s: &String) -> (res: String)
    ensures
        res@ == unraw(s@),
{
    let t = s.as_str();
    let n = t.unicode_len();
    let mut i: usize = 0;
    assert(t@.skip(0) =~= t@);
    while n - i >= 2 && t.get_char(i) == 'r' && t.get_char(i + 1) == '#'
        invariant
            n == t@.len(),
            t@ == s@,
            i <= n,
            unraw(s@) == unraw(t@.skip(i as int)),
        decreases n - i,
    {
        assert(t@.skip(i as int).skip(2) =~= t@.skip(i + 2));
        i = i + 2;
    }
    let rest = t.substring_char(i, n);
    assert(rest@ =~= t@.skip(i as int));
    String::from_str(rest)
}

/// The key serde writes a field under, given the struct's rule.
pub fn field_serde_key(f: &Field, rule: Option<RenameRule>) -> (res: String)
    ensures
        res@ == serde_key(*f, rule),
{
    match get_serde_value(&f.attrs, "rename") {
        Some(s) => s,
        None => {
            let u = unraw_name(&f.name);
            apply_rename_rule(rule, u.as_str())
        },
    }
}

} // verus!
