use crate::text::{chars_of, find_char, find_char_from, string_of};
use vstd::prelude::*;

verus! {

/// A type as a descriptor names it.
#[derive(Debug)]
pub enum SigType {
    Boolean,
    Byte,
    Char,
    Short,
    Int,
    Long,
    Float,
    Double,
    Void,
    Array(Box<SigType>),
    Object(String),
}

/// The mathematical value of a [`SigType`].
pub enum SigTypeView {
    Boolean,
    Byte,
    Char,
    Short,
    Int,
    Long,
    Float,
    Double,
    Void,
    Array(Box<SigTypeView>),
    Object(Seq<char>),
}

/// The mathematical value of a type.
pub open spec fn sig_type_view(t: SigType) -> SigTypeView
    decreases t,
{
    match t {
        SigType::Boolean => SigTypeView::Boolean,
        SigType::Byte => SigTypeView::Byte,
        SigType::Char => SigTypeView::Char,
        SigType::Short => SigTypeView::Short,
        SigType::Int => SigTypeView::Int,
        SigType::Long => SigTypeView::Long,
        SigType::Float => SigTypeView::Float,
        SigType::Double => SigTypeView::Double,
        SigType::Void => SigTypeView::Void,
        SigType::Array(inner) => SigTypeView::Array(Box::new(sig_type_view(*inner))),
        SigType::Object(name) => SigTypeView::Object(name@),
    }
}

impl View for SigType {
    type V = SigTypeView;

    open spec fn view(&self) -> SigTypeView {
        sig_type_view(*self)
    }
}

/// The types of a method's arguments, in order, and the type it returns.
#[derive(Debug)]
pub struct Signature {
    pub ret: SigType,
    pub args: Vec<SigType>,
}

/// The mathematical value of a [`Signature`].
pub struct SignatureView {
    pub ret: SigTypeView,
    pub args: Seq<SigTypeView>,
}

impl View for Signature {
    type V = SignatureView;

    open spec fn view(&self) -> SignatureView {
        SignatureView { ret: self.ret@, args: self.args@.map_values(|t: SigType| t@) }
    }
}

/// The letter by which the runtime bridge's value accessor for the type is
/// named.
pub open spec fn jni_letter(t: SigTypeView) -> char {
    match t {
        SigTypeView::Boolean => 'z',
        SigTypeView::Byte => 'b',
        SigTypeView::Char => 'c',
        SigTypeView::Short => 's',
        SigTypeView::Int => 'i',
        SigTypeView::Long => 'j',
        SigTypeView::Float => 'f',
        SigTypeView::Double => 'd',
        SigTypeView::Void => 'v',
        SigTypeView::Array(_) => 'l',
        SigTypeView::Object(_) => 'l',
    }
}

/// The type that the letter of a primitive descriptor stands for.
pub open spec fn primitive_of(c: char) -> Option<SigTypeView> {
    if c == 'Z' {
        Some(SigTypeView::Boolean)
    } else if c == 'B' {
        Some(SigTypeView::Byte)
    } else if c == 'C' {
        Some(SigTypeView::Char)
    } else if c == 'S' {
        Some(SigTypeView::Short)
    } else if c == 'I' {
        Some(SigTypeView::Int)
    } else if c == 'J' {
        Some(SigTypeView::Long)
    } else if c == 'F' {
        Some(SigTypeView::Float)
    } else if c == 'D' {
        Some(SigTypeView::Double)
    } else if c == 'V' {
        Some(SigTypeView::Void)
    } else {
        None
    }
}

/// The type whose descriptor starts at `pos`, with the place behind that
/// descriptor. A primitive is one letter, `[` makes an array of the type that
/// follows, and `L` starts the name of an object type, which runs up to the
/// next `;` (or to the end of the text). Nothing else starts a descriptor.
pub open spec fn parse_type_at(s: Seq<char>, pos: int) -> Option<(SigTypeView, int)>
    decreases s.len() - pos,
{
    if pos < 0 || pos >= s.len() {
        None
    } else if s[pos] == '[' {
        match parse_type_at(s, pos + 1) {
            Some((inner, next)) => Some((SigTypeView::Array(Box::new(inner)), next)),
            None => None,
        }
    } else if s[pos] == 'L' {
        let end = find_char(s, ';', pos + 1);
        Some(
            (
                SigTypeView::Object(s.subrange(pos + 1, end)),
                if end < s.len() {
                    end + 1
                } else {
                    end
                },
            ),
        )
    } else {
        match primitive_of(s[pos]) {
            Some(t) => Some((t, pos + 1)),
            None => None,
        }
    }
}

/// The argument types from `pos` up to the `)` that closes them, after the
/// types in `before`, with the place of that `)`.
pub open spec fn parse_args_at(s: Seq<char>, pos: int, before: Seq<SigTypeView>) -> Option<
    (Seq<SigTypeView>, int),
>
    decreases s.len() - pos,
{
    if 0 <= pos < s.len() && s[pos] == ')' {
        Some((before, pos))
    } else {
        match parse_type_at(s, pos) {
            Some((t, next)) => if pos < next <= s.len() {
                parse_args_at(s, next, before.push(t))
            } else {
                None
            },
            None => None,
        }
    }
}

/// The signature that a method descriptor spells: after its first character,
/// argument types up to `)`, then the return type. What follows the return
/// type is not read.
pub open spec fn parse_signature(s: Seq<char>) -> Option<SignatureView> {
    match parse_args_at(s, 1, Seq::empty()) {
        Some((args, close)) => match parse_type_at(s, close + 1) {
            Some((ret, _)) => Some(SignatureView { ret, args }),
            None => None,
        },
        None => None,
    }
}

impl SigType {
    /// The letter by which the runtime bridge's value accessor for the type
    /// is named.
    pub fn jni_name(&self) -> (c: char)
        ensures
            c == jni_letter(self@),
    {
        match self {
            SigType::Boolean => 'z',
            SigType::Byte => 'b',
            SigType::Char => 'c',
            SigType::Short => 's',
            SigType::Int => 'i',
            SigType::Long => 'j',
            SigType::Float => 'f',
            SigType::Double => 'd',
            SigType::Void => 'v',
            SigType::Array(_) => 'l',
            SigType::Object(_) => 'l',
        }
    }
}

/// Reads the type whose descriptor starts at `pos`, and says where the
/// descriptor ends. `None` where no descriptor starts there.
pub fn try_parse_type(letters: &Vec<char>, pos: usize) -> (r: Option<(SigType, usize)>)
    ensures
        match r {
            Some((t, next)) => parse_type_at(letters@, pos as int) == Some((t@, next as int))
                && pos < next <= letters.len(),
            None => parse_type_at(letters@, pos as int).is_none(),
        },
    decreases letters.len() - pos,
{
    if pos >= letters.len() {
        return None;
    }
    let c = letters[pos];
    if c == '[' {
        match try_parse_type(letters, pos + 1) {
            Some((inner, next)) => Some((SigType::Array(Box::new(inner)), next)),
            None => None,
        }
    } else if c == 'L' {
        let end = find_char_from(letters, ';', pos + 1);
        let name = string_of(letters, pos + 1, end);
        let next: usize = if end < letters.len() {
            end + 1
        } else {
            end
        };
        Some((SigType::Object(name), next))
    } else if c == 'Z' {
        Some((SigType::Boolean, pos + 1))
    } else if c == 'B' {
        Some((SigType::Byte, pos + 1))
    } else if c == 'C' {
        Some((SigType::Char, pos + 1))
    } else if c == 'S' {
        Some((SigType::Short, pos + 1))
    } else if c == 'I' {
        Some((SigType::Int, pos + 1))
    } else if c == 'J' {
        Some((SigType::Long, pos + 1))
    } else if c == 'F' {
        Some((SigType::Float, pos + 1))
    } else if c == 'D' {
        Some((SigType::Double, pos + 1))
    } else if c == 'V' {
        Some((SigType::Void, pos + 1))
    } else {
        None
    }
}

/// Reads the type whose descriptor starts at `pos`, and says where the
/// descriptor ends. A descriptor has to start there; [`try_parse_type`]
/// tells whether one does.
pub fn parse_type(letters: &Vec<char>, pos: usize) -> (r: (SigType, usize))
    requires
        parse_type_at(letters@, pos as int).is_some(),
    ensures
        parse_type_at(letters@, pos as int) == Some((r.0@, r.1 as int)),
        pos < r.1 <= letters.len(),
{
    match try_parse_type(letters, pos) {
        Some(read) => read,
        None => vstd::pervasive::unreached(),
    }
}

/// Reads a method descriptor. `None` where an argument or the return type is
/// no descriptor, or where the `)` is missing.
pub fn try_parse_java_signature(s: &str) -> (r: Option<Signature>)
    ensures
        match r {
            Some(sig) => parse_signature(s@) == Some(sig@),
            None => parse_signature(s@).is_none(),
        },
{
    let letters = chars_of(s);
    let mut args: Vec<SigType> = Vec::new();
    let mut pos: usize = 1;
    let ghost mut seen: Seq<SigTypeView> = Seq::empty();
    loop
        invariant
            1 <= pos,
            letters@ == s@,
            seen == args@.map_values(|t: SigType| t@),
            parse_args_at(s@, 1, Seq::empty()) == parse_args_at(s@, pos as int, seen),
        ensures
            pos < letters.len(),
            letters@[pos as int] == ')',
        decreases letters.len() - pos,
    {
        if pos < letters.len() && letters[pos] == ')' {
            break ;
        }
        match try_parse_type(&letters, pos) {
            Some((t, next)) => {
                proof {
                    seen = seen.push(t@);
                    assert(args@.push(t).map_values(|t: SigType| t@) =~= seen);
                }
                args.push(t);
                pos = next;
            },
            None => {
                return None;
            },
        }
    }
    match try_parse_type(&letters, pos + 1) {
        Some((ret, _)) => Some(Signature { ret, args }),
        None => None,
    }
}

/// Reads a method descriptor. The text has to spell one;
/// [`try_parse_java_signature`] tells whether it does.
pub fn parse_java_signature(s: &str) -> (signature: Signature)
    requires
        parse_signature(s@).is_some(),
    ensures
        parse_signature(s@) == Some(signature@),
{
    match try_parse_java_signature(s) {
        Some(signature) => signature,
        None => vstd::pervasive::unreached(),
    }
}

/// Reads the type that a descriptor starts with. What follows the type is
/// not read. `None` where the text starts with no descriptor.
pub fn parse_descriptor(s: &str) -> (r: Option<SigType>)
    ensures
        match r {
            Some(t) => parse_type_at(s@, 0) matches Some((v, _)) && v == t@,
            None => parse_type_at(s@, 0).is_none(),
        },
{
    let letters = chars_of(s);
    match try_parse_type(&letters, 0) {
        Some((t, _)) => Some(t),
        None => None,
    }
}

} // verus!
