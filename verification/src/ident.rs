use crate::text::{
    ascii_lower, ascii_upper, chars_of, is_numeric, is_numeric_char, is_uppercase,
    is_uppercase_char, lowercase_of, push_char, same_text, to_ascii_lower, to_ascii_upper,
    to_lowercase,
};
use vstd::prelude::*;
use vstd::string::*;

verus! {

/// The words that cannot stand as an identifier in emitted code.
pub open spec fn is_reserved(s: Seq<char>) -> bool {
    ||| s == "type"@
    ||| s == "match"@
    ||| s == "move"@
    ||| s == "use"@
    ||| s == "self"@
    ||| s == "in"@
    ||| s == "where"@
    ||| s == "macro"@
    ||| s == "impl"@
    ||| s == "box"@
    ||| s == "mod"@
    ||| s == "ref"@
    ||| s == "as"@
    ||| s == "true"@
    ||| s == "false"@
    ||| s == "continue"@
}

/// A candidate identifier needs the guard where it is a reserved word or
/// starts with a numeric character.
pub open spec fn needs_guard(s: Seq<char>) -> bool {
    is_reserved(s) || (s.len() > 0 && is_numeric_char(s[0]))
}

/// The candidate with the guard applied: the prefix goes in front of it where
/// it needs the guard, and it stays as it is where it does not.
pub open spec fn guarded(s: Seq<char>, prefix: Seq<char>) -> Seq<char> {
    if needs_guard(s) {
        prefix + s
    } else {
        s
    }
}

/// What the character at place `i` contributes to the snake-case form: an
/// upper-case letter becomes its ASCII lower-case form, after an underscore
/// unless it is the first character.
pub open spec fn snake_piece(s: Seq<char>, i: int) -> Seq<char> {
    if is_uppercase_char(s[i]) {
        if i == 0 {
            seq![ascii_lower(s[i])]
        } else {
            seq!['_', ascii_lower(s[i])]
        }
    } else {
        seq![s[i]]
    }
}

/// The snake-case form of the first `n` characters of a camel-case name.
pub open spec fn snake_prefix(s: Seq<char>, n: nat) -> Seq<char>
    decreases n,
{
    if n == 0 {
        Seq::empty()
    } else {
        snake_prefix(s, (n - 1) as nat) + snake_piece(s, n - 1)
    }
}

/// The snake-case form of a camel-case name.
pub open spec fn snake_case(s: Seq<char>) -> Seq<char> {
    snake_prefix(s, s.len())
}

/// What the character at place `i` of a snake-case name contributes to its
/// camel-case form: underscores go, and the character that starts a segment
/// is capitalized (the very first one only if `capitalize_first`).
pub open spec fn camel_piece(s: Seq<char>, i: int, capitalize_first: bool) -> Seq<char> {
    if s[i] == '_' {
        Seq::empty()
    } else if (i == 0 && capitalize_first) || (i > 0 && s[i - 1] == '_') {
        seq![ascii_upper(s[i])]
    } else {
        seq![s[i]]
    }
}

/// The camel-case form of the first `n` characters of a snake-case name.
pub open spec fn camel_prefix(s: Seq<char>, n: nat, capitalize_first: bool) -> Seq<char>
    decreases n,
{
    if n == 0 {
        Seq::empty()
    } else {
        camel_prefix(s, (n - 1) as nat, capitalize_first) + camel_piece(
            s,
            n - 1,
            capitalize_first,
        )
    }
}

/// The segments of a snake-case name joined without their underscores, each
/// with its first character capitalized.
pub open spec fn camel_case(s: Seq<char>, capitalize_first: bool) -> Seq<char> {
    camel_prefix(s, s.len(), capitalize_first)
}

/// Every character in its ASCII lower-case form.
pub open spec fn ascii_lowered(s: Seq<char>) -> Seq<char> {
    Seq::new(s.len(), |i: int| ascii_lower(s[i]))
}

/// The name under which a field with an upper-case first letter, or a
/// camel-case field, is emitted.
pub open spec fn field_case(s: Seq<char>) -> Seq<char> {
    if s.len() > 0 && is_uppercase_char(s[0]) {
        ascii_lowered(s)
    } else {
        snake_case(s)
    }
}

/// The law of identifier safety: each reserved word needs the guard, so the
/// prefix goes in front of it; a text that is no reserved word and does not
/// start with a numeric character needs none and stays as it is.
pub proof fn lemma_identifier_safety(s: Seq<char>, prefix: Seq<char>)
    ensures
        is_reserved("type"@) && is_reserved("match"@) && is_reserved("move"@) && is_reserved(
            "use"@,
        ) && is_reserved("self"@) && is_reserved("in"@) && is_reserved("where"@) && is_reserved(
            "macro"@,
        ) && is_reserved("impl"@) && is_reserved("box"@) && is_reserved("mod"@) && is_reserved(
            "ref"@,
        ) && is_reserved("as"@) && is_reserved("true"@) && is_reserved("false"@) && is_reserved(
            "continue"@,
        ),
        is_reserved(s) ==> needs_guard(s) && guarded(s, prefix) == prefix + s,
        !is_reserved(s) && !(s.len() > 0 && is_numeric_char(s[0])) ==> !needs_guard(s) && guarded(
            s,
            prefix,
        ) == s,
{
}

/// Whether the text is one of the reserved words.
pub fn is_reserved_word(s: &str) -> (r: bool)
    ensures
        r == is_reserved(s@),
{
    same_text(s, "type") || same_text(s, "match") || same_text(s, "move") || same_text(s, "use")
        || same_text(s, "self") || same_text(s, "in") || same_text(s, "where") || same_text(
        s,
        "macro",
    ) || same_text(s, "impl") || same_text(s, "box") || same_text(s, "mod") || same_text(s, "ref")
        || same_text(s, "as") || same_text(s, "true") || same_text(s, "false") || same_text(
        s,
        "continue",
    )
}

/// The keyword and digit guard: where `s` is a reserved word or starts with
/// a numeric character, `insert` is put in front of it and the collision is
/// reported; any other text is left as it is.
pub fn normalize(s: &mut String, insert: &str) -> (collision: bool)
    ensures
        collision == needs_guard(old(s)@),
        final(s)@ == guarded(old(s)@, insert@),
        collision ==> final(s)@ == insert@ + old(s)@,
        !collision ==> final(s)@ == old(s)@,
{
    let reserved = is_reserved_word(s.as_str());
    let numeric = !s.as_str().is_empty() && is_numeric(s.as_str().get_char(0));
    if reserved || numeric {
        let mut r = String::from_str(insert);
        r.append(s.as_str());
        *s = r;
        true
    } else {
        false
    }
}

/// Joins the segments of an already lower-cased snake-case name without
/// their underscores, capitalizing the first character of each segment (of
/// the first segment only if `capitalize_first`).
pub fn join_segments(lowered: &str, capitalize_first: bool) -> (r: String)
    ensures
        r@ == camel_case(lowered@, capitalize_first),
{
    let v = chars_of(lowered);
    let mut r = String::new();
    let mut i: usize = 0;
    while i < v.len()
        invariant
            i <= v.len(),
            v@ == lowered@,
            r@ == camel_prefix(v@, i as nat, capitalize_first),
        decreases v.len() - i,
    {
        let c = v[i];
        if c == '_' {
        } else if (i == 0 && capitalize_first) || (i > 0 && v[i - 1] == '_') {
            push_char(&mut r, to_ascii_upper(c));
        } else {
            push_char(&mut r, c);
        }
        i += 1;
    }
    r
}

/// The type-style form of a snake-case name: lower-cased, split on `_`, each
/// segment's first letter capitalized, and joined.
pub fn to_rust_convention(s: &str) -> (r: String)
    ensures
        r@ == camel_case(lowercase_of(s@), true),
{
    let lowered = to_lowercase(s);
    join_segments(lowered.as_str(), true)
}

/// The same conversion as [`to_rust_convention`].
pub fn method_to_java_convention(s: &str) -> (r: String)
    ensures
        r@ == camel_case(lowercase_of(s@), true),
{
    to_rust_convention(s)
}

/// The camel-case member name that a snake-case identifier stands for: the
/// first segment stays lower-case, every later segment is capitalized.
pub fn rust_to_java_method(s: &str) -> (r: String)
    ensures
        r@ == camel_case(lowercase_of(s@), false),
{
    let lowered = to_lowercase(s);
    join_segments(lowered.as_str(), false)
}

/// The snake-case form of a camel-case name.
pub fn to_snake_case(s: &str) -> (r: String)
    ensures
        r@ == snake_case(s@),
{
    let v = chars_of(s);
    let mut r = String::new();
    let mut i: usize = 0;
    while i < v.len()
        invariant
            i <= v.len(),
            v@ == s@,
            r@ == snake_prefix(v@, i as nat),
        decreases v.len() - i,
    {
        let c = v[i];
        if is_uppercase(c) {
            if i != 0 {
                push_char(&mut r, '_');
            }
            push_char(&mut r, to_ascii_lower(c));
        } else {
            push_char(&mut r, c);
        }
        i += 1;
    }
    r
}

/// The identifier of the type that stands for a class: the class's own name,
/// guarded with the prefix `Class`.
pub fn java_to_rust_class(s: &str) -> (r: String)
    ensures
        r@ == guarded(s@, "Class"@),
{
    let mut result = String::from_str(s);
    normalize(&mut result, "Class");
    result
}

/// The identifier of the operation that stands for a method: the snake-case
/// form of its name, guarded with the prefix `method_`.
pub fn java_to_rust_method(s: &str) -> (r: String)
    ensures
        r@ == guarded(snake_case(s@), "method_"@),
{
    let mut result = to_snake_case(s);
    normalize(&mut result, "method_");
    result
}

/// The identifier of the namespace that stands for a package: the snake-case
/// form of its name, guarded with the prefix `package_`.
pub fn java_to_rust_package(s: &str) -> (r: String)
    ensures
        r@ == guarded(snake_case(s@), "package_"@),
{
    let mut result = to_snake_case(s);
    normalize(&mut result, "package_");
    result
}

/// The identifier that stands for a field: a name that starts with an
/// upper-case letter is lower-cased character by character, any other name is
/// put in snake case.
pub fn java_to_rust_field(s: &str) -> (r: String)
    ensures
        r@ == field_case(s@),
{
    if !s.is_empty() && is_uppercase(s.get_char(0)) {
        let v = chars_of(s);
        let mut r = String::new();
        let mut i: usize = 0;
        while i < v.len()
            invariant
                i <= v.len(),
                v@ == s@,
                r@ == ascii_lowered(v@).take(i as int),
            decreases v.len() - i,
        {
            push_char(&mut r, to_ascii_lower(v[i]));
            i += 1;
        }
        r
    } else {
        to_snake_case(s)
    }
}

} // verus!
