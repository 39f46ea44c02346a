use crate::ident::{guarded, java_to_rust_class, java_to_rust_package, snake_case};
use crate::sig::{SigType, SigTypeView};
use crate::text::{chars_of, push_char, string_of};
use vstd::prelude::*;
use vstd::string::*;

verus! {

/// Whether `pattern` occurs in `s`.
pub open spec fn contains_text(s: Seq<char>, pattern: Seq<char>) -> bool {
    exists|i: int|
        0 <= i && i + pattern.len() <= s.len() && #[trigger] s.subrange(i, i + pattern.len())
            == pattern
}

/// Whether `pattern` stands in `s` at place `at`.
pub fn occurs_at(s: &Vec<char>, pattern: &Vec<char>, at: usize) -> (r: bool)
    requires
        at + pattern.len() <= s.len(),
    ensures
        r == (s@.subrange(at as int, at + pattern.len()) == pattern@),
{
    let mut k: usize = 0;
    while k < pattern.len()
        invariant
            k <= pattern.len(),
            at + pattern.len() <= s.len(),
            forall|j: int| 0 <= j < k ==> s@[at + j] == pattern@[j],
        decreases pattern.len() - k,
    {
        if s[at + k] != pattern[k] {
            assert(s@.subrange(at as int, at + pattern.len())[k as int] != pattern@[k as int]);
            return false;
        }
        k += 1;
    }
    assert(s@.subrange(at as int, at + pattern.len()) =~= pattern@);
    true
}

/// Whether `pattern` occurs in `s`.
pub fn contains(s: &Vec<char>, pattern: &Vec<char>) -> (r: bool)
    ensures
        r == contains_text(s@, pattern@),
{
    if pattern.len() > s.len() {
        return false;
    }
    let last: usize = s.len() - pattern.len();
    let mut i: usize = 0;
    loop
        invariant
            i <= last,
            last == s.len() - pattern.len(),
            pattern.len() <= s.len(),
            forall|j: int| 0 <= j < i ==> #[trigger] s@.subrange(j, j + pattern.len()) != pattern@,
        decreases last - i,
    {
        if occurs_at(s, pattern, i) {
            return true;
        }
        if i == last {
            return false;
        }
        i += 1;
    }
}

/// The place of the first `/` or `$` at or after `from`, or the length of
/// the text where there is none.
pub open spec fn find_separator(s: Seq<char>, from: int) -> int
    decreases s.len() - from,
{
    if from < 0 || from >= s.len() {
        s.len() as int
    } else if s[from] == '/' || s[from] == '$' {
        from
    } else {
        find_separator(s, from + 1)
    }
}

/// The place of the first `/` or `$` at or after `from`.
pub fn find_separator_from(v: &Vec<char>, from: usize) -> (i: usize)
    requires
        from <= v.len(),
    ensures
        i == find_separator(v@, from as int),
        from <= i <= v.len(),
{
    let mut i: usize = from;
    while i < v.len() && !(v[i] == '/' || v[i] == '$')
        invariant
            from <= i <= v.len(),
            find_separator(v@, from as int) == find_separator(v@, i as int),
        decreases v.len() - i,
    {
        i += 1;
    }
    i
}

/// Where the last segment of a name starts, looking from `from` on: behind
/// its last `/` or `$`.
pub open spec fn last_segment_start(s: Seq<char>, from: int) -> int
    decreases s.len() - from,
{
    let end = find_separator(s, from);
    if from <= end < s.len() {
        last_segment_start(s, end + 1)
    } else {
        from
    }
}

/// The last segment of a name: what stands behind its last `/` or `$`.
pub open spec fn last_segment(s: Seq<char>) -> Seq<char> {
    s.skip(last_segment_start(s, 0))
}

/// The identifier that stands for a package.
pub open spec fn package_ident(segment: Seq<char>) -> Seq<char> {
    guarded(snake_case(segment), "package_"@)
}

/// The identifier that stands for a class.
pub open spec fn class_ident(segment: Seq<char>) -> Seq<char> {
    guarded(segment, "Class"@)
}

/// The path of the accessor type of a class below the root of the emitted
/// unit, from the segment that starts at `from` on, behind `before`: `::`
/// and an identifier for each segment of the class's name, the last one as a
/// class and the others as packages.
pub open spec fn path_from(name: Seq<char>, from: int, before: Seq<char>) -> Seq<char>
    decreases name.len() - from,
{
    let end = find_separator(name, from);
    if 0 <= from <= end < name.len() {
        path_from(name, end + 1, before + "::"@ + package_ident(name.subrange(from, end)))
    } else {
        before + "::"@ + class_ident(name.skip(from))
    }
}

/// The path of the accessor type of a class in the emitted unit.
pub open spec fn constructor_text(name: Seq<char>) -> Seq<char> {
    path_from(name, 0, "crate"@)
}

/// The type by which emitted code holds a value of the described type.
pub open spec fn type_text(t: SigTypeView) -> Seq<char>
    decreases t,
{
    match t {
        SigTypeView::Boolean => "bool"@,
        SigTypeView::Byte => "i8"@,
        SigTypeView::Char => "u16"@,
        SigTypeView::Short => "i16"@,
        SigTypeView::Int => "i32"@,
        SigTypeView::Long => "i64"@,
        SigTypeView::Float => "f32"@,
        SigTypeView::Double => "f64"@,
        SigTypeView::Void => "()"@,
        SigTypeView::Array(inner) => "Vec<"@ + type_text(*inner) + ">"@,
        SigTypeView::Object(name) => constructor_text(name) + "<'a>"@,
    }
}

/// What a character contributes to a string literal.
pub open spec fn escaped_char(c: char) -> Seq<char> {
    if c == '"' {
        seq!['\\', '"']
    } else if c == '\\' {
        seq!['\\', '\\']
    } else if c == '\n' {
        seq!['\\', 'n']
    } else if c == '\r' {
        seq!['\\', 'r']
    } else if c == '\t' {
        seq!['\\', 't']
    } else {
        seq![c]
    }
}

/// The first `n` characters of a text as they stand inside a string literal.
pub open spec fn escaped(s: Seq<char>, n: nat) -> Seq<char>
    decreases n,
{
    if n == 0 {
        Seq::empty()
    } else {
        escaped(s, (n - 1) as nat) + escaped_char(s[n - 1])
    }
}

/// The string literal that spells a text.
pub open spec fn quoted(s: Seq<char>) -> Seq<char> {
    seq!['"'] + escaped(s, s.len()) + seq!['"']
}

/// What a character of a signature contributes to an identifier: an ASCII
/// letter or digit stands for itself, each of `_ ; [ ( ) $ /` for an
/// underscore and a digit of its own, and any other character for `_0`.
pub open spec fn mangled_char(c: char) -> Seq<char> {
    if ('a' <= c && c <= 'z') || ('A' <= c && c <= 'Z') || ('0' <= c && c <= '9') {
        seq![c]
    } else if c == '_' {
        seq!['_', '1']
    } else if c == ';' {
        seq!['_', '2']
    } else if c == '[' {
        seq!['_', '3']
    } else if c == '(' {
        seq!['_', '4']
    } else if c == ')' {
        seq!['_', '5']
    } else if c == '$' {
        seq!['_', '6']
    } else if c == '/' {
        seq!['_', '7']
    } else {
        seq!['_', '0']
    }
}

/// The first `n` characters of a signature as they stand in an identifier.
pub open spec fn mangled(s: Seq<char>, n: nat) -> Seq<char>
    decreases n,
{
    if n == 0 {
        Seq::empty()
    } else {
        mangled(s, (n - 1) as nat) + mangled_char(s[n - 1])
    }
}

/// The signature as it stands in an identifier.
pub fn mangle(s: &str) -> (r: String)
    ensures
        r@ == mangled(s@, s@.len()),
{
    let v = chars_of(s);
    let mut r = String::new();
    let mut i: usize = 0;
    while i < v.len()
        invariant
            i <= v.len(),
            v@ == s@,
            r@ == mangled(v@, i as nat),
        decreases v.len() - i,
    {
        let c = v[i];
        let ghost before = r@;
        if ('a' <= c && c <= 'z') || ('A' <= c && c <= 'Z') || ('0' <= c && c <= '9') {
            push_char(&mut r, c);
        } else {
            push_char(&mut r, '_');
            let digit = if c == '_' {
                '1'
            } else if c == ';' {
                '2'
            } else if c == '[' {
                '3'
            } else if c == '(' {
                '4'
            } else if c == ')' {
                '5'
            } else if c == '$' {
                '6'
            } else if c == '/' {
                '7'
            } else {
                '0'
            };
            push_char(&mut r, digit);
        }
        assert(r@ =~= before + mangled_char(c));
        i += 1;
    }
    r
}

/// Appends the string literal that spells `s`.
pub fn push_quoted(out: &mut String, s: &str)
    ensures
        final(out)@ == old(out)@ + quoted(s@),
{
    let v = chars_of(s);
    let mut lit = String::new();
    push_char(&mut lit, '"');
    let mut i: usize = 0;
    while i < v.len()
        invariant
            i <= v.len(),
            v@ == s@,
            lit@ == seq!['"'] + escaped(v@, i as nat),
        decreases v.len() - i,
    {
        let c = v[i];
        let ghost before = lit@;
        if c == '"' {
            push_char(&mut lit, '\\');
            push_char(&mut lit, '"');
        } else if c == '\\' {
            push_char(&mut lit, '\\');
            push_char(&mut lit, '\\');
        } else if c == '\n' {
            push_char(&mut lit, '\\');
            push_char(&mut lit, 'n');
        } else if c == '\r' {
            push_char(&mut lit, '\\');
            push_char(&mut lit, 'r');
        } else if c == '\t' {
            push_char(&mut lit, '\\');
            push_char(&mut lit, 't');
        } else {
            push_char(&mut lit, c);
        }
        assert(lit@ =~= before + escaped_char(c));
        i += 1;
        assert(lit@ =~= seq!['"'] + escaped(v@, i as nat));
    }
    push_char(&mut lit, '"');
    assert(lit@ =~= quoted(s@));
    out.append(lit.as_str());
}

/// The last segment of a name.
pub fn last_segment_of(name: &str) -> (r: String)
    ensures
        r@ == last_segment(name@),
{
    let v = chars_of(name);
    let mut from: usize = 0;
    loop
        invariant
            from <= v.len(),
            v@ == name@,
            last_segment_start(v@, 0) == last_segment_start(v@, from as int),
        ensures
            from <= v.len(),
            last_segment_start(v@, 0) == from,
        decreases v.len() - from,
    {
        let end = find_separator_from(&v, from);
        if end >= v.len() {
            break ;
        }
        from = end + 1;
    }
    let r = string_of(&v, from, v.len());
    assert(v@.subrange(from as int, v.len() as int) == v@.skip(from as int));
    r
}

/// The path of the accessor type of the class named `name`.
pub fn constructor_path(name: &str) -> (r: String)
    ensures
        r@ == constructor_text(name@),
{
    let v = chars_of(name);
    let mut r = String::from_str("crate");
    let mut from: usize = 0;
    loop
        invariant_except_break
            constructor_text(name@) == path_from(v@, from as int, r@),
        invariant
            from <= v.len(),
            v@ == name@,
        ensures
            r@ == constructor_text(name@),
        decreases v.len() - from,
    {
        let end = find_separator_from(&v, from);
        r.append("::");
        if end >= v.len() {
            let segment = string_of(&v, from, v.len());
            assert(v@.subrange(from as int, v.len() as int) == v@.skip(from as int));
            let ident = java_to_rust_class(segment.as_str());
            r.append(ident.as_str());
            break ;
        }
        let segment = string_of(&v, from, end);
        let ident = java_to_rust_package(segment.as_str());
        r.append(ident.as_str());
        from = end + 1;
    }
    r
}

impl SigType {
    /// The path by which emitted code makes the accessor of an object type
    /// out of a value of the runtime bridge. Only an object type has one.
    pub fn get_constructor(&self) -> (r: Option<String>)
        ensures
            match r {
                Some(path) => self@ matches SigTypeView::Object(name) && path@
                    == constructor_text(name),
                None => !(self@ is Object),
            },
    {
        match self {
            SigType::Object(name) => Some(constructor_path(name.as_str())),
            _ => None,
        }
    }

    /// The type by which emitted code holds a value of this type.
    pub fn to_tokens(&self) -> (r: String)
        ensures
            r@ == type_text(self@),
        decreases self,
    {
        match self {
            SigType::Boolean => String::from_str("bool"),
            SigType::Byte => String::from_str("i8"),
            SigType::Char => String::from_str("u16"),
            SigType::Short => String::from_str("i16"),
            SigType::Int => String::from_str("i32"),
            SigType::Long => String::from_str("i64"),
            SigType::Float => String::from_str("f32"),
            SigType::Double => String::from_str("f64"),
            SigType::Void => String::from_str("()"),
            SigType::Array(inner) => {
                let mut r = String::from_str("Vec<");
                let element = inner.to_tokens();
                r.append(element.as_str());
                r.append(">");
                r
            },
            SigType::Object(name) => {
                let mut r = constructor_path(name.as_str());
                r.append("<'a>");
                r
            },
        }
    }
}

} // verus!
