use vstd::prelude::*;
use vstd::string::*;
use vstd::utf8::encode_utf8_decode_utf8;

verus! {

/// Whether `char::is_uppercase` holds of the character.
pub uninterp spec fn is_uppercase_char(c: char) -> bool;

/// Whether `char::is_numeric` holds of the character.
pub uninterp spec fn is_numeric_char(c: char) -> bool;

/// What `str::to_lowercase` makes of the text.
pub uninterp spec fn lowercase_of(s: Seq<char>) -> Seq<char>;

/// `char::is_uppercase`, a function of the character alone: the result is
/// given the name [`is_uppercase_char`].
#[verifier::external_body]
pub(crate) fn is_uppercase(c: char) -> (r: bool)
    ensures
        r == is_uppercase_char(c),
{
    c.is_uppercase()
}

/// `char::is_numeric`, a function of the character alone: the result is given
/// the name [`is_numeric_char`].
#[verifier::external_body]
pub(crate) fn is_numeric(c: char) -> (r: bool)
    ensures
        r == is_numeric_char(c),
{
    c.is_numeric()
}

/// `str::to_lowercase`, a function of the text alone: the result is given the
/// name [`lowercase_of`].
#[verifier::external_body]
pub(crate) fn to_lowercase(s: &str) -> (r: String)
    ensures
        r@ == lowercase_of(s@),
{
    s.to_lowercase()
}

/// `String::push`: the string grows by exactly the given character at its end.
#[verifier::external_body]
pub(crate) fn push_char(s: &mut String, c: char)
    ensures
        final(s)@ == old(s)@.push(c),
{
    s.push(c)
}

/// Whether the character is whitespace: one of the 25 characters that have
/// the Unicode property White_Space.
pub open spec fn is_whitespace_char(c: char) -> bool {
    let n = c as u32;
    ||| (0x9 <= n && n <= 0xd)
    ||| n == 0x20
    ||| n == 0x85
    ||| n == 0xa0
    ||| n == 0x1680
    ||| (0x2000 <= n && n <= 0x200a)
    ||| n == 0x2028
    ||| n == 0x2029
    ||| n == 0x202f
    ||| n == 0x205f
    ||| n == 0x3000
}

/// Whether the character is whitespace.
pub fn is_whitespace(c: char) -> (r: bool)
    ensures
        r == is_whitespace_char(c),
{
    let n: u32 = c as u32;
    (0x9 <= n && n <= 0xd) || n == 0x20 || n == 0x85 || n == 0xa0 || n == 0x1680 || (0x2000 <= n
        && n <= 0x200a) || n == 0x2028 || n == 0x2029 || n == 0x202f || n == 0x205f || n
        == 0x3000
}

/// Whether two string slices hold the same characters.
pub fn same_text(a: &str, b: &str) -> (r: bool)
    ensures
        r == (a@ == b@),
{
    let x = a.as_bytes();
    let y = b.as_bytes();
    proof {
        encode_utf8_decode_utf8(a@);
        encode_utf8_decode_utf8(b@);
    }
    if x.len() != y.len() {
        return false;
    }
    let mut i: usize = 0;
    while i < x.len()
        invariant
            i <= x.len(),
            x.len() == y.len(),
            x@ == a.spec_bytes(),
            y@ == b.spec_bytes(),
            forall|k: int| 0 <= k < i ==> x@[k] == y@[k],
        decreases x.len() - i,
    {
        if x[i] != y[i] {
            return false;
        }
        i += 1;
    }
    assert(x@ =~= y@);
    true
}

/// The lower-case form of an ASCII capital letter; every other character is
/// its own lower-case form.
pub open spec fn ascii_lower(c: char) -> char {
    if 'A' <= c && c <= 'Z' {
        ((c as u8) + 32) as char
    } else {
        c
    }
}

/// The capital of an ASCII small letter; every other character is its own.
pub open spec fn ascii_upper(c: char) -> char {
    if 'a' <= c && c <= 'z' {
        ((c as u8) - 32) as char
    } else {
        c
    }
}

/// Computes [`ascii_lower`].
pub fn to_ascii_lower(c: char) -> (r: char)
    ensures
        r == ascii_lower(c),
{
    if 'A' <= c && c <= 'Z' {
        let b: u8 = c as u8;
        (b + 32) as char
    } else {
        c
    }
}

/// Computes [`ascii_upper`].
pub fn to_ascii_upper(c: char) -> (r: char)
    ensures
        r == ascii_upper(c),
{
    if 'a' <= c && c <= 'z' {
        let b: u8 = c as u8;
        (b - 32) as char
    } else {
        c
    }
}

/// The characters of a string slice, in order.
pub fn chars_of(s: &str) -> (v: Vec<char>)
    ensures
        v@ == s@,
{
    let mut v: Vec<char> = Vec::new();
    for c in it: s.chars()
        invariant
            it.seq() == s@,
            v@ == s@.take(it.index() as int),
    {
        v.push(c);
    }
    v
}

/// Appends the characters `v[from..to]` to `s`.
pub fn push_chars(s: &mut String, v: &Vec<char>, from: usize, to: usize)
    requires
        from <= to <= v.len(),
    ensures
        final(s)@ == old(s)@ + v@.subrange(from as int, to as int),
{
    let mut i: usize = from;
    while i < to
        invariant
            from <= i <= to <= v.len(),
            s@ == old(s)@ + v@.subrange(from as int, i as int),
        decreases to - i,
    {
        push_char(s, v[i]);
        i += 1;
        assert(v@.subrange(from as int, i as int) == v@.subrange(from as int, i - 1).push(
            v@[i - 1],
        ));
    }
}

/// The string made of the characters `v[from..to]`.
pub fn string_of(v: &Vec<char>, from: usize, to: usize) -> (s: String)
    requires
        from <= to <= v.len(),
    ensures
        s@ == v@.subrange(from as int, to as int),
{
    let mut s = String::new();
    push_chars(&mut s, v, from, to);
    s
}

/// The string made of the characters of `v`.
pub fn text_of(v: &Vec<char>) -> (s: String)
    ensures
        s@ == v@,
{
    let s = string_of(v, 0, v.len());
    assert(v@.subrange(0, v.len() as int) == v@);
    s
}

/// Whether the characters `v[from..to]` spell `word`.
pub fn spells(v: &Vec<char>, from: usize, to: usize, word: &str) -> (r: bool)
    requires
        from <= to <= v.len(),
    ensures
        r == (v@.subrange(from as int, to as int) == word@),
{
    let w = chars_of(word);
    if w.len() != to - from {
        return false;
    }
    let mut i: usize = 0;
    while i < w.len()
        invariant
            from <= to <= v.len(),
            w.len() == to - from,
            i <= w.len(),
            w@ == word@,
            forall|j: int| 0 <= j < i ==> v@[from + j] == w@[j],
        decreases w.len() - i,
    {
        if v[from + i] != w[i] {
            assert(v@.subrange(from as int, to as int)[i as int] != word@[i as int]);
            return false;
        }
        i += 1;
    }
    assert(v@.subrange(from as int, to as int) =~= word@);
    true
}

/// The place of the first `c` at or after `from`, or the length of the text
/// where there is none.
pub open spec fn find_char(s: Seq<char>, c: char, from: int) -> int
    decreases s.len() - from,
{
    if from < 0 || from >= s.len() {
        s.len() as int
    } else if s[from] == c {
        from
    } else {
        find_char(s, c, from + 1)
    }
}

/// [`find_char`] is the first place of the character at or after `from`.
pub proof fn lemma_find_char(s: Seq<char>, c: char, from: int)
    requires
        0 <= from <= s.len(),
    ensures
        from <= find_char(s, c, from) <= s.len(),
        find_char(s, c, from) < s.len() ==> s[find_char(s, c, from)] == c,
        forall|k: int| from <= k < find_char(s, c, from) ==> s[k] != c,
    decreases s.len() - from,
{
    if from < s.len() && s[from] != c {
        lemma_find_char(s, c, from + 1);
    }
}

/// The text before the first `c` and the text after it, where the text
/// holds `c`.
pub open spec fn split_once(s: Seq<char>, c: char) -> Option<(Seq<char>, Seq<char>)> {
    let i = find_char(s, c, 0);
    if i < s.len() {
        Some((s.take(i), s.skip(i + 1)))
    } else {
        None
    }
}

/// The place of the first character at or after `from` that is no
/// whitespace, or the length of the text.
pub open spec fn skip_space(s: Seq<char>, from: int) -> int
    decreases s.len() - from,
{
    if from < 0 || from >= s.len() {
        s.len() as int
    } else if is_whitespace_char(s[from]) {
        skip_space(s, from + 1)
    } else {
        from
    }
}

/// The place behind the last character before `to` that is no whitespace,
/// and at least `low`.
pub open spec fn drop_space(s: Seq<char>, low: int, to: int) -> int
    decreases to,
{
    if to <= low || to <= 0 || to > s.len() {
        low
    } else if is_whitespace_char(s[to - 1]) {
        drop_space(s, low, to - 1)
    } else {
        to
    }
}

/// The text without the whitespace at its start and at its end.
pub open spec fn trim(s: Seq<char>) -> Seq<char> {
    let from = skip_space(s, 0);
    s.subrange(from, drop_space(s, from, s.len() as int))
}

/// Whether the text starts with `n` tab characters.
pub open spec fn has_indent(s: Seq<char>, n: int) -> bool {
    n <= s.len() && forall|i: int| 0 <= i < n ==> s[i] == '\t'
}

/// The value of a decimal digit.
pub open spec fn digit_value(c: char) -> Option<int> {
    if '0' <= c && c <= '9' {
        Some(c as int - 48)
    } else {
        None
    }
}

/// The number that the first `n` characters spell in decimal digits.
pub open spec fn decimal_value(s: Seq<char>, n: nat) -> Option<int>
    decreases n,
{
    if n == 0 {
        Some(0)
    } else {
        match (decimal_value(s, (n - 1) as nat), digit_value(s[n - 1])) {
            (Some(v), Some(d)) => Some(10 * v + d),
            _ => None,
        }
    }
}

/// The number that the text spells: decimal digits, at least one, after an
/// optional `+`, of a value that fits in 16 bits.
pub open spec fn parse_u16(s: Seq<char>) -> Option<u16> {
    if s.len() > 0 && s[0] == '+' {
        digits_u16(s.skip(1))
    } else {
        digits_u16(s)
    }
}

/// The number that decimal digits spell, at least one, of a value that fits
/// in 16 bits.
pub open spec fn digits_u16(digits: Seq<char>) -> Option<u16> {
    if digits.len() == 0 {
        None
    } else {
        match decimal_value(digits, digits.len()) {
            Some(v) => if v <= 0xffff {
                Some(v as u16)
            } else {
                None
            },
            None => None,
        }
    }
}

/// A number spelt by more digits is no smaller than the number spelt by
/// fewer of them, and digits up to a place that is none spell nothing.
pub proof fn lemma_decimal_value_grows(s: Seq<char>, n: nat, m: nat)
    requires
        n <= m,
    ensures
        decimal_value(s, n).is_none() ==> decimal_value(s, m).is_none(),
        decimal_value(s, m).is_some() ==> decimal_value(s, n).unwrap() <= decimal_value(
            s,
            m,
        ).unwrap() && 0 <= decimal_value(s, n).unwrap(),
    decreases m,
{
    if n < m {
        lemma_decimal_value_grows(s, n, (m - 1) as nat);
    } else if n > 0 {
        lemma_decimal_value_grows(s, (n - 1) as nat, (n - 1) as nat);
    }
}

/// The characters `v[from..to]`.
pub fn slice_of(v: &Vec<char>, from: usize, to: usize) -> (r: Vec<char>)
    requires
        from <= to <= v.len(),
    ensures
        r@ == v@.subrange(from as int, to as int),
{
    let mut r: Vec<char> = Vec::new();
    let mut i: usize = from;
    while i < to
        invariant
            from <= i <= to <= v.len(),
            r@ == v@.subrange(from as int, i as int),
        decreases to - i,
    {
        r.push(v[i]);
        i += 1;
        assert(v@.subrange(from as int, i as int) == v@.subrange(from as int, i - 1).push(
            v@[i - 1],
        ));
    }
    r
}

/// Whether the characters spell `word`.
pub fn is_word(v: &Vec<char>, word: &str) -> (r: bool)
    ensures
        r == (v@ == word@),
{
    let r = spells(v, 0, v.len(), word);
    assert(v@.subrange(0, v.len() as int) == v@);
    r
}

/// The place of the first `c` at or after `from`.
pub fn find_char_from(v: &Vec<char>, c: char, from: usize) -> (i: usize)
    requires
        from <= v.len(),
    ensures
        i == find_char(v@, c, from as int),
        from <= i <= v.len(),
{
    let mut i: usize = from;
    while i < v.len() && v[i] != c
        invariant
            from <= i <= v.len(),
            find_char(v@, c, from as int) == find_char(v@, c, i as int),
        decreases v.len() - i,
    {
        i += 1;
    }
    i
}

/// Splits the text at its first `c`.
pub fn split_once_at(v: &Vec<char>, c: char) -> (r: Option<(Vec<char>, Vec<char>)>)
    ensures
        match r {
            Some((before, after)) => split_once(v@, c) == Some((before@, after@)),
            None => split_once(v@, c).is_none(),
        },
{
    let i = find_char_from(v, c, 0);
    if i < v.len() {
        let before = slice_of(v, 0, i);
        let after = slice_of(v, i + 1, v.len());
        Some((before, after))
    } else {
        None
    }
}

/// The text without the whitespace at its start and at its end.
pub fn trim_chars(v: &Vec<char>) -> (r: Vec<char>)
    ensures
        r@ == trim(v@),
{
    let mut from: usize = 0;
    while from < v.len() && is_whitespace(v[from])
        invariant
            from <= v.len(),
            skip_space(v@, 0) == skip_space(v@, from as int),
        decreases v.len() - from,
    {
        from += 1;
    }
    let mut to: usize = v.len();
    while to > from && is_whitespace(v[to - 1])
        invariant
            from <= to <= v.len(),
            drop_space(v@, from as int, v.len() as int) == drop_space(v@, from as int, to as int),
        decreases to,
    {
        to -= 1;
    }
    slice_of(v, from, to)
}

/// Whether the text starts with `n` tab characters.
pub fn starts_with_tabs(v: &Vec<char>, n: usize) -> (r: bool)
    ensures
        r == has_indent(v@, n as int),
{
    if n > v.len() {
        return false;
    }
    let mut i: usize = 0;
    while i < n
        invariant
            i <= n <= v.len(),
            forall|k: int| 0 <= k < i ==> v@[k] == '\t',
        decreases n - i,
    {
        if v[i] != '\t' {
            return false;
        }
        i += 1;
    }
    true
}

/// Reads a number of 16 bits in decimal digits.
pub fn parse_u16_chars(v: &Vec<char>) -> (r: Option<u16>)
    ensures
        r == parse_u16(v@),
{
    let start: usize = if v.len() > 0 && v[0] == '+' {
        1
    } else {
        0
    };
    if start == v.len() {
        return None;
    }
    let ghost digits = v@.skip(start as int);
    assert(v@.skip(0) =~= v@);
    let mut value: u32 = 0;
    let mut i: usize = start;
    while i < v.len()
        invariant
            start <= i <= v.len(),
            digits == v@.skip(start as int),
            parse_u16(v@) == digits_u16(digits),
            decimal_value(digits, (i - start) as nat) == Some(value as int),
            value <= 0xffff,
        decreases v.len() - i,
    {
        let c = v[i];
        assert(digits[i - start] == c);
        if !('0' <= c && c <= '9') {
            proof {
                assert(decimal_value(digits, (i - start + 1) as nat).is_none());
                lemma_decimal_value_grows(digits, (i - start + 1) as nat, digits.len());
            }
            return None;
        }
        let d: u32 = (c as u32) - 48;
        let next: u32 = 10 * value + d;
        assert(decimal_value(digits, (i - start + 1) as nat) == Some(next as int));
        if next > 0xffff {
            proof {
                lemma_decimal_value_grows(digits, (i - start + 1) as nat, digits.len());
            }
            return None;
        }
        value = next;
        i += 1;
    }
    Some(value as u16)
}

} // verus!
