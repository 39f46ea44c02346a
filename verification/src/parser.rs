use crate::index::{aliases_resolve, with_class, Mappings, MappingsView};
use crate::model::{
    with_field, with_method, Arg, ArgView, Class, ClassView, Field, FieldView, Method, MethodView,
};
use crate::text::{
    chars_of, find_char, find_char_from, has_indent, is_word, lemma_find_char, parse_u16,
    parse_u16_chars, push_chars, slice_of, split_once, split_once_at, starts_with_tabs, text_of,
    trim, trim_chars,
};
use vstd::prelude::*;
use vstd::string::*;

verus! {

/// A line of the corpus that the grammar does not allow, with its content.
#[derive(Debug)]
pub struct CorpusSyntaxError {
    pub line: String,
}

impl View for CorpusSyntaxError {
    type V = Seq<char>;

    open spec fn view(&self) -> Seq<char> {
        self.line@
    }
}

/// The lines as texts.
pub open spec fn lines_view(lines: &Vec<Vec<char>>) -> Seq<Seq<char>> {
    lines@.map_values(|l: Vec<char>| l@)
}

/// The line that starts at `from`: the text up to the next line feed, without
/// the carriage return that stands before that line feed.
pub open spec fn line_at(s: Seq<char>, from: int) -> Seq<char> {
    let end = find_char(s, '\n', from);
    let raw = s.subrange(from, end);
    if end < s.len() && raw.len() > 0 && raw.last() == '\r' {
        raw.drop_last()
    } else {
        raw
    }
}

/// The lines of the text from `from` on, after the lines in `before`.
pub open spec fn lines_from(s: Seq<char>, from: int, before: Seq<Seq<char>>) -> Seq<Seq<char>>
    decreases s.len() - from,
{
    if from < 0 || from >= s.len() {
        before
    } else {
        let end = find_char(s, '\n', from);
        if from <= end < s.len() {
            lines_from(s, end + 1, before.push(line_at(s, from)))
        } else {
            before.push(line_at(s, from))
        }
    }
}

/// The lines of a text. A line ends at a line feed or at the end of the
/// text; a text that ends with a line feed has no empty last line.
pub open spec fn lines_of(s: Seq<char>) -> Seq<Seq<char>> {
    lines_from(s, 0, Seq::empty())
}

/// The leading word of a line: its content, without the whitespace around
/// it, up to the first space.
pub open spec fn keyword_of(line: Seq<char>) -> Seq<char> {
    match split_once(trim(line), ' ') {
        Some((keyword, _)) => keyword,
        None => trim(line),
    }
}

/// What follows the leading word of a line and the space behind it.
pub open spec fn rest_of(line: Seq<char>) -> Option<Seq<char>> {
    match split_once(trim(line), ' ') {
        Some((_, rest)) => Some(rest),
        None => None,
    }
}

/// The text that a `COMMENT` line carries.
pub open spec fn comment_text(line: Seq<char>) -> Seq<char> {
    match rest_of(line) {
        Some(rest) => trim(rest),
        None => Seq::empty(),
    }
}

/// The texts of the `COMMENT` lines that stand at `pos` and directly after
/// it, joined in order behind `before`, and the place of the first line that
/// is no `COMMENT` line.
pub open spec fn comments_at(lines: Seq<Seq<char>>, pos: int, before: Seq<char>) -> (
    Seq<char>,
    int,
)
    decreases lines.len() - pos,
{
    if 0 <= pos < lines.len() && keyword_of(lines[pos]) == "COMMENT"@ {
        comments_at(lines, pos + 1, before + comment_text(lines[pos]))
    } else {
        (before, pos)
    }
}

/// The position and the name that an `ARG` line gives.
pub open spec fn arg_head(line: Seq<char>) -> Option<(u16, Seq<char>)> {
    match rest_of(line) {
        Some(rest) => match split_once(trim(rest), ' ') {
            Some((position, name)) => match parse_u16(position) {
                Some(p) => Some((p, name)),
                None => None,
            },
            None => None,
        },
        None => None,
    }
}

/// The arguments that the `ARG` lines at `pos` and after it declare, each
/// with the comments that follow its line, behind the arguments in `before`,
/// and the place of the first line that belongs to none of them. An `ARG`
/// line without a position of 16 bits and a name is an error.
pub open spec fn args_at(lines: Seq<Seq<char>>, pos: int, before: Seq<ArgView>) -> Result<
    (Seq<ArgView>, int),
    Seq<char>,
>
    decreases lines.len() - pos,
{
    if 0 <= pos < lines.len() && keyword_of(lines[pos]) == "ARG"@ {
        match arg_head(lines[pos]) {
            Some((position, name)) => {
                let (comment, next) = comments_at(lines, pos + 1, Seq::empty());
                if pos < next <= lines.len() {
                    args_at(
                        lines,
                        next,
                        before.push(ArgView { position, name, comment, modifiers: 0 }),
                    )
                } else {
                    Err(lines[pos])
                }
            },
            None => Err(lines[pos]),
        }
    } else {
        Ok((before, pos))
    }
}

/// The intermediary name, the mapped name and the descriptor that a `FIELD`
/// or `METHOD` line gives. A member without a mapped name goes by its
/// intermediary name.
pub open spec fn member_head(line: Seq<char>) -> Option<(Seq<char>, Seq<char>, Seq<char>)> {
    match rest_of(line) {
        Some(rest) => match split_once(rest, ' ') {
            Some((first, more)) => match split_once(more, ' ') {
                Some((second, descriptor)) => Some((first, second, descriptor)),
                None => Some((first, first, more)),
            },
            None => None,
        },
        None => None,
    }
}

/// The intermediary name and the mapped name that a `CLASS` line gives, by
/// what follows its leading word: two words are the two names, anything else
/// gives the first word for both.
pub open spec fn class_names(rest: Seq<char>) -> (Seq<char>, Seq<char>) {
    match split_once(rest, ' ') {
        Some((first, more)) => if split_once(more, ' ').is_none() {
            (first, more)
        } else {
            (first, first)
        },
        None => (rest, rest),
    }
}

/// A name below an enclosing class: the name of that class, `$`, and the
/// name itself.
pub open spec fn nested_name(outer: Option<Seq<char>>, own: Seq<char>) -> Seq<char> {
    match outer {
        Some(name) => name + seq!['$'] + own,
        None => own,
    }
}

/// The field that a `FIELD` line and the comments that follow it declare.
pub open spec fn field_of(head: (Seq<char>, Seq<char>, Seq<char>), comments: Seq<char>)
    -> FieldView {
    FieldView {
        intermediary_name: head.0,
        mapped_name: head.1,
        field_type: head.2,
        mapped_field_type: Seq::empty(),
        comments,
        modifiers: 0,
    }
}

/// The method that a `METHOD` line, the comments that follow it and the
/// arguments after those declare.
pub open spec fn method_of(
    head: (Seq<char>, Seq<char>, Seq<char>),
    comments: Seq<char>,
    args: Seq<ArgView>,
) -> MethodView {
    MethodView {
        intermediary_name: head.0,
        mapped_name: head.1,
        signature: head.2,
        mapped_signature: Seq::empty(),
        comments,
        args,
        modifiers: 0,
    }
}

/// The index after a class whose members were read was stored in it.
pub open spec fn finish_class(read: Result<(ClassView, MappingsView, int), Seq<char>>) -> Result<
    (MappingsView, int),
    Seq<char>,
> {
    match read {
        Ok((c, filled, end)) => Ok(
            (with_class(filled, c.mapped_name, c.intermediary_name, c), end),
        ),
        Err(line) => Err(line),
    }
}

/// The two names of an enclosing class.
pub open spec fn outer_names(parent: Option<&Class>) -> Option<(Seq<char>, Seq<char>)> {
    match parent {
        Some(c) => Some((c.intermediary_name@, c.mapped_name@)),
        None => None,
    }
}

/// The index after the files were read from file `from` on, each from its
/// first line.
pub open spec fn corpus_at(files: Seq<Seq<char>>, from: int, m: MappingsView) -> Result<
    MappingsView,
    Seq<char>,
>
    decreases files.len() - from,
{
    if !(0 <= from < files.len()) {
        Ok(m)
    } else {
        match file_at(lines_of(files[from]), 0, m) {
            Ok(filled) => corpus_at(files, from + 1, filled),
            Err(line) => Err(line),
        }
    }
}

/// The index after the class whose `CLASS` line stands at `pos` was read,
/// with the classes nested in it, and the place of the first line behind it.
/// `outer` holds the two names of the enclosing class, and `indent` is the
/// number of tabs that the class's members start with. A line that is no
/// `CLASS` line with a name is an error, and so is any error below it.
pub open spec fn class_at(
    lines: Seq<Seq<char>>,
    indent: int,
    outer: Option<(Seq<char>, Seq<char>)>,
    pos: int,
    m: MappingsView,
) -> Result<(MappingsView, int), Seq<char>>
    decreases lines.len() - pos, 0int,
{
    if !(0 <= pos < lines.len()) {
        Err(Seq::empty())
    } else if keyword_of(lines[pos]) != "CLASS"@ {
        Err(lines[pos])
    } else {
        match rest_of(lines[pos]) {
            Some(rest) => {
                let own = class_names(rest);
                let (comments, next) = comments_at(lines, pos + 1, Seq::empty());
                let class = ClassView {
                    intermediary_name: nested_name(
                        match outer {
                            Some(names) => Some(names.0),
                            None => None,
                        },
                        own.0,
                    ),
                    mapped_name: nested_name(
                        match outer {
                            Some(names) => Some(names.1),
                            None => None,
                        },
                        own.1,
                    ),
                    comments,
                    fields: Seq::empty(),
                    methods_nosig: Seq::empty(),
                    methods: Seq::empty(),
                };
                if pos < next <= lines.len() {
                    finish_class(members_at(lines, indent, next, class, m))
                } else {
                    Err(lines[pos])
                }
            },
            None => Err(lines[pos]),
        }
    }
}

/// The class `c` and the index `m` after the member lines at `pos` and
/// after it were read, and the place of the first line that is no member:
/// the first one that does not start with `indent` tabs, or the end. A
/// `FIELD` line adds a field, a `METHOD` line a method with its arguments,
/// and a `CLASS` line adds a nested class to the index. A member line with
/// any other leading word, or without its names, is an error.
pub open spec fn members_at(
    lines: Seq<Seq<char>>,
    indent: int,
    pos: int,
    c: ClassView,
    m: MappingsView,
) -> Result<(ClassView, MappingsView, int), Seq<char>>
    decreases lines.len() - pos, 1int,
{
    if !(0 <= pos < lines.len()) || !has_indent(lines[pos], indent) {
        Ok((c, m, pos))
    } else if keyword_of(lines[pos]) == "FIELD"@ {
        match member_head(lines[pos]) {
            Some(head) => {
                let (comments, next) = comments_at(lines, pos + 1, Seq::empty());
                if pos < next <= lines.len() {
                    members_at(lines, indent, next, with_field(c, field_of(head, comments)), m)
                } else {
                    Err(lines[pos])
                }
            },
            None => Err(lines[pos]),
        }
    } else if keyword_of(lines[pos]) == "METHOD"@ {
        match member_head(lines[pos]) {
            Some(head) => {
                let (comments, next) = comments_at(lines, pos + 1, Seq::empty());
                match args_at(lines, next, Seq::empty()) {
                    Ok((args, end)) => if pos < end <= lines.len() {
                        members_at(
                            lines,
                            indent,
                            end,
                            with_method(c, method_of(head, comments, args)),
                            m,
                        )
                    } else {
                        Err(lines[pos])
                    },
                    Err(line) => Err(line),
                }
            },
            None => Err(lines[pos]),
        }
    } else if keyword_of(lines[pos]) == "CLASS"@ {
        match class_at(lines, indent + 1, Some((c.intermediary_name, c.mapped_name)), pos, m) {
            Ok((filled, next)) => if pos < next <= lines.len() {
                members_at(lines, indent, next, c, filled)
            } else {
                Err(lines[pos])
            },
            Err(line) => Err(line),
        }
    } else {
        Err(lines[pos])
    }
}

/// The index after the classes of a file were read from line `pos` on.
/// Blank lines between classes are passed over; any other line outside a
/// class has to be a `CLASS` line.
pub open spec fn file_at(lines: Seq<Seq<char>>, pos: int, m: MappingsView) -> Result<
    MappingsView,
    Seq<char>,
>
    decreases lines.len() - pos,
{
    if !(0 <= pos < lines.len()) {
        Ok(m)
    } else if trim(lines[pos]).len() == 0 {
        file_at(lines, pos + 1, m)
    } else {
        match class_at(lines, 1, None, pos, m) {
            Ok((filled, next)) => if pos < next <= lines.len() {
                file_at(lines, next, filled)
            } else {
                Err(lines[pos])
            },
            Err(line) => Err(line),
        }
    }
}

/// The error that names the line.
pub fn syntax_error(line: &Vec<char>) -> (e: CorpusSyntaxError)
    ensures
        e@ == line@,
{
    CorpusSyntaxError { line: text_of(line) }
}

/// Splits a text into its lines.
pub fn split_lines(text: &str) -> (lines: Vec<Vec<char>>)
    ensures
        lines_view(&lines) == lines_of(text@),
{
    let s = chars_of(text);
    let mut lines: Vec<Vec<char>> = Vec::new();
    let mut from: usize = 0;
    assert(lines_view(&lines) =~= Seq::<Seq<char>>::empty());
    while from < s.len()
        invariant
            s@ == text@,
            lines_of(text@) == lines_from(s@, from as int, lines_view(&lines)),
        decreases s.len() - from,
    {
        let end = find_char_from(&s, '\n', from);
        proof {
            lemma_find_char(s@, '\n', from as int);
        }
        let ghost before = lines_view(&lines);
        let stop: usize = if end < s.len() && end > from && s[end - 1] == '\r' {
            end - 1
        } else {
            end
        };
        let line = slice_of(&s, from, stop);
        proof {
            let raw = s@.subrange(from as int, end as int);
            if end < s.len() && raw.len() > 0 && raw.last() == '\r' {
                assert(raw.drop_last() =~= s@.subrange(from as int, stop as int));
            }
            assert(line@ == line_at(s@, from as int));
        }
        lines.push(line);
        assert(lines_view(&lines) =~= before.push(line_at(s@, from as int)));
        if end >= s.len() {
            return lines;
        }
        from = end + 1;
    }
    lines
}

/// The leading word of a line, and what follows the space behind it.
pub fn line_words(line: &Vec<char>) -> (r: (Vec<char>, Option<Vec<char>>))
    ensures
        r.0@ == keyword_of(line@),
        match r.1 {
            Some(rest) => rest_of(line@) == Some(rest@),
            None => rest_of(line@).is_none(),
        },
{
    let trimmed = trim_chars(line);
    match split_once_at(&trimmed, ' ') {
        Some((keyword, rest)) => (keyword, Some(rest)),
        None => (trimmed, None),
    }
}

/// Reads the `COMMENT` lines at `pos` and directly after it, and says where
/// the first line stands that is none.
pub fn parse_comments(lines: &Vec<Vec<char>>, pos: usize) -> (r: (String, usize))
    ensures
        (r.0@, r.1 as int) == comments_at(lines_view(lines), pos as int, Seq::empty()),
        pos <= r.1,
        pos <= lines.len() ==> r.1 <= lines.len(),
{
    let mut text = String::new();
    let mut at: usize = pos;
    while at < lines.len()
        invariant
            pos <= at,
            pos <= lines.len() ==> at <= lines.len(),
            comments_at(lines_view(lines), pos as int, Seq::empty()) == comments_at(
                lines_view(lines),
                at as int,
                text@,
            ),
        decreases lines.len() - at,
    {
        let (keyword, rest) = line_words(&lines[at]);
        if !is_word(&keyword, "COMMENT") {
            return (text, at);
        }
        let ghost before = text@;
        match rest {
            Some(rest) => {
                let content = trim_chars(&rest);
                push_chars(&mut text, &content, 0, content.len());
                assert(content@.subrange(0, content.len() as int) == content@);
            },
            None => {
                assert(before + Seq::<char>::empty() == before);
            },
        }
        assert(text@ == before + comment_text(lines_view(lines)[at as int]));
        at += 1;
    }
    (text, at)
}

/// Reads the `ARG` lines at `pos` and after it, each with its comments, and
/// says where the first line stands that belongs to none of them. The error
/// is the first `ARG` line without a position of 16 bits and a name.
pub fn try_parse_method_args(lines: &Vec<Vec<char>>, pos: usize) -> (r: Result<
    (Vec<Arg>, usize),
    CorpusSyntaxError,
>)
    ensures
        match r {
            Ok((args, end)) => args_at(lines_view(lines), pos as int, Seq::empty()) == Ok::<
                (Seq<ArgView>, int),
                Seq<char>,
            >((args@.map_values(|a: Arg| a@), end as int)) && pos <= end && (pos <= lines.len()
                ==> end <= lines.len()),
            Err(e) => args_at(lines_view(lines), pos as int, Seq::empty()) == Err::<
                (Seq<ArgView>, int),
                Seq<char>,
            >(e@),
        },
{
    let mut args: Vec<Arg> = Vec::new();
    let mut at: usize = pos;
    assert(args@.map_values(|a: Arg| a@) =~= Seq::<ArgView>::empty());
    while at < lines.len()
        invariant
            pos <= at,
            pos <= lines.len() ==> at <= lines.len(),
            args_at(lines_view(lines), pos as int, Seq::empty()) == args_at(
                lines_view(lines),
                at as int,
                args@.map_values(|a: Arg| a@),
            ),
        decreases lines.len() - at,
    {
        let line = &lines[at];
        let (keyword, rest) = line_words(line);
        if !is_word(&keyword, "ARG") {
            return Ok((args, at));
        }
        let rest = match rest {
            Some(rest) => rest,
            None => {
                return Err(syntax_error(line));
            },
        };
        let content = trim_chars(&rest);
        let (position_text, name) = match split_once_at(&content, ' ') {
            Some(parts) => parts,
            None => {
                return Err(syntax_error(line));
            },
        };
        let position = match parse_u16_chars(&position_text) {
            Some(p) => p,
            None => {
                return Err(syntax_error(line));
            },
        };
        let (comment, next) = parse_comments(lines, at + 1);
        let ghost before = args@.map_values(|a: Arg| a@);
        let arg = Arg { position, name: text_of(&name), comment, modifiers: 0 };
        assert(arg@ == (ArgView { position, name: name@, comment: comment@, modifiers: 0 }));
        args.push(arg);
        assert(args@.map_values(|a: Arg| a@) =~= before.push(arg@));
        at = next;
    }
    Ok((args, at))
}

/// Reads the `ARG` lines at `pos` and after it, each with its comments, and
/// says where the first line stands that belongs to none of them. Each of
/// the `ARG` lines has to give a position and a name;
/// [`try_parse_method_args`] tells whether they do.
pub fn parse_method_args(lines: &Vec<Vec<char>>, pos: usize) -> (r: (Vec<Arg>, usize))
    requires
        args_at(lines_view(lines), pos as int, Seq::empty()).is_ok(),
    ensures
        args_at(lines_view(lines), pos as int, Seq::empty()) == Ok::<
            (Seq<ArgView>, int),
            Seq<char>,
        >((r.0@.map_values(|a: Arg| a@), r.1 as int)),
        pos <= r.1,
        pos <= lines.len() ==> r.1 <= lines.len(),
{
    match try_parse_method_args(lines, pos) {
        Ok(read) => read,
        Err(_) => vstd::pervasive::unreached(),
    }
}

/// The names and the descriptor that a `FIELD` or `METHOD` line gives.
pub fn read_member_head(line: &Vec<char>) -> (r: Option<(String, String, String)>)
    ensures
        match r {
            Some((first, second, descriptor)) => member_head(line@) == Some(
                (first@, second@, descriptor@),
            ),
            None => member_head(line@).is_none(),
        },
{
    let (_, rest) = line_words(line);
    let rest = match rest {
        Some(rest) => rest,
        None => {
            return None;
        },
    };
    match split_once_at(&rest, ' ') {
        Some((first, more)) => match split_once_at(&more, ' ') {
            Some((second, descriptor)) => Some(
                (text_of(&first), text_of(&second), text_of(&descriptor)),
            ),
            None => Some((text_of(&first), text_of(&first), text_of(&more))),
        },
        None => None,
    }
}

/// The two names that a `CLASS` line gives.
pub fn read_class_names(line: &Vec<char>) -> (r: Option<(String, String)>)
    ensures
        match r {
            Some((intermediary, mapped)) => rest_of(line@).is_some() && class_names(
                rest_of(line@).unwrap(),
            ) == (intermediary@, mapped@),
            None => rest_of(line@).is_none(),
        },
{
    let (_, rest) = line_words(line);
    let rest = match rest {
        Some(rest) => rest,
        None => {
            return None;
        },
    };
    match split_once_at(&rest, ' ') {
        Some((first, more)) => {
            let n = find_char_from(&more, ' ', 0);
            if n < more.len() {
                Some((text_of(&first), text_of(&first)))
            } else {
                Some((text_of(&first), text_of(&more)))
            }
        },
        None => Some((text_of(&rest), text_of(&rest))),
    }
}

/// The name `own` below the enclosing class named `outer`.
pub fn nest_name(outer: &String, own: &String) -> (r: String)
    ensures
        r@ == nested_name(Some(outer@), own@),
{
    let mut r = outer.clone();
    r.append("$");
    r.append(own.as_str());
    proof {
        reveal_strlit("$");
        assert("$"@ =~= seq!['$']);
    }
    r
}

/// The number of tabs that `indent_level`, and one more where `beyond`,
/// stand for.
pub open spec fn indent_of(indent_level: usize, beyond: bool) -> int {
    if beyond {
        indent_level + 1
    } else {
        indent_level as int
    }
}

/// Reads the class whose `CLASS` line stands at `pos`, with its comments,
/// its members and the classes nested in it, stores each class read in the
/// index, and says where the first line behind the class stands. The members
/// start with `indent_of(indent_level, beyond)` tabs; `beyond` stands for the
/// one indent that no number of the machine holds, which no line can have.
fn parse_class_block(
    indent_level: usize,
    beyond: bool,
    parent: Option<&Class>,
    lines: &Vec<Vec<char>>,
    pos: usize,
    mappings: &mut Mappings,
) -> (r: Result<usize, CorpusSyntaxError>)
    requires
        beyond ==> indent_level == usize::MAX,
    ensures
        match r {
            Ok(next) => class_at(
                lines_view(lines),
                indent_of(indent_level, beyond),
                outer_names(parent),
                pos as int,
                old(mappings)@,
            ) == Ok::<(MappingsView, int), Seq<char>>((final(mappings)@, next as int)) && pos < next
                <= lines.len(),
            Err(e) => class_at(
                lines_view(lines),
                indent_of(indent_level, beyond),
                outer_names(parent),
                pos as int,
                old(mappings)@,
            ) == Err::<(MappingsView, int), Seq<char>>(e@),
        },
        aliases_resolve(old(mappings)@) ==> aliases_resolve(final(mappings)@),
    decreases lines.len() - pos,
{
    let ghost all = lines_view(lines);
    let ghost outer = outer_names(parent);
    let ghost m_old = mappings@;
    if pos >= lines.len() {
        return Err(CorpusSyntaxError { line: String::new() });
    }
    let header = &lines[pos];
    let (keyword, _) = line_words(header);
    if !is_word(&keyword, "CLASS") {
        return Err(syntax_error(header));
    }
    let (own_intermediary, own_mapped) = match read_class_names(header) {
        Some(names) => names,
        None => {
            return Err(syntax_error(header));
        },
    };
    let (intermediary_name, mapped_name) = match parent {
        Some(p) => (
            nest_name(&p.intermediary_name, &own_intermediary),
            nest_name(&p.mapped_name, &own_mapped),
        ),
        None => (own_intermediary, own_mapped),
    };
    let (comments, first) = parse_comments(lines, pos + 1);
    let mut class = Class::new(intermediary_name, mapped_name);
    class.comments = comments;
    let ghost c0 = class@;
    let mut at: usize = first;
    assert(class_at(all, indent_of(indent_level, beyond), outer, pos as int, m_old) == finish_class(
        members_at(all, indent_of(indent_level, beyond), first as int, c0, m_old),
    ));
    while at < lines.len()
        invariant
            pos < at <= lines.len(),
            beyond ==> indent_level == usize::MAX,
            all == lines_view(lines),
            outer == outer_names(parent),
            m_old == old(mappings)@,
            class_at(all, indent_of(indent_level, beyond), outer, pos as int, m_old) == finish_class(
                members_at(all, indent_of(indent_level, beyond), at as int, class@, mappings@),
            ),
            aliases_resolve(m_old) ==> aliases_resolve(mappings@),
        ensures
            pos < at <= lines.len(),
            class_at(all, indent_of(indent_level, beyond), outer, pos as int, m_old) == finish_class(
                Ok((class@, mappings@, at as int)),
            ),
            aliases_resolve(m_old) ==> aliases_resolve(mappings@),
        decreases lines.len() - at,
    {
        let line = &lines[at];
        if beyond || !starts_with_tabs(line, indent_level) {
            proof {
                if beyond {
                    assert(line.len() <= usize::MAX);
                    assert(!has_indent(all[at as int], indent_of(indent_level, beyond)));
                }
            }
            break ;
        }
        let (keyword, _) = line_words(line);
        if is_word(&keyword, "FIELD") {
            let (intermediary_name, mapped_name, field_type) = match read_member_head(line) {
                Some(head) => head,
                None => {
                    return Err(syntax_error(line));
                },
            };
            let (comments, next) = parse_comments(lines, at + 1);
            class.add_field(
                Field {
                    intermediary_name,
                    mapped_name,
                    field_type,
                    mapped_field_type: String::new(),
                    comments,
                    modifiers: 0,
                },
            );
            at = next;
        } else if is_word(&keyword, "METHOD") {
            let (intermediary_name, mapped_name, signature) = match read_member_head(line) {
                Some(head) => head,
                None => {
                    return Err(syntax_error(line));
                },
            };
            let (comments, next) = parse_comments(lines, at + 1);
            let (args, end) = match try_parse_method_args(lines, next) {
                Ok(read) => read,
                Err(e) => {
                    return Err(e);
                },
            };
            class.add_method(
                Method {
                    intermediary_name,
                    mapped_name,
                    signature,
                    mapped_signature: String::new(),
                    comments,
                    args,
                    modifiers: 0,
                },
            );
            at = end;
        } else if is_word(&keyword, "CLASS") {
            let nested = if indent_level == usize::MAX {
                parse_class_block(indent_level, true, Some(&class), lines, at, mappings)
            } else {
                parse_class_block(indent_level + 1, false, Some(&class), lines, at, mappings)
            };
            match nested {
                Ok(next) => {
                    at = next;
                },
                Err(e) => {
                    return Err(e);
                },
            }
        } else {
            return Err(syntax_error(line));
        }
    }
    let mapped_name = class.mapped_name.clone();
    let intermediary_name = class.intermediary_name.clone();
    mappings.insert_class(mapped_name, intermediary_name, class);
    Ok(at)
}

/// Reads the class whose `CLASS` line stands at `pos`, with its comments,
/// its members and the classes nested in it, stores each class read in the
/// index, and says where the first line behind the class stands. The error
/// is the first line that the grammar does not allow, with its content.
pub fn try_parse_class_inner(
    indent_level: usize,
    parent: Option<&Class>,
    lines: &Vec<Vec<char>>,
    pos: usize,
    mappings: &mut Mappings,
) -> (r: Result<usize, CorpusSyntaxError>)
    ensures
        match r {
            Ok(next) => class_at(
                lines_view(lines),
                indent_level as int,
                outer_names(parent),
                pos as int,
                old(mappings)@,
            ) == Ok::<(MappingsView, int), Seq<char>>((final(mappings)@, next as int)) && pos < next
                <= lines.len(),
            Err(e) => class_at(
                lines_view(lines),
                indent_level as int,
                outer_names(parent),
                pos as int,
                old(mappings)@,
            ) == Err::<(MappingsView, int), Seq<char>>(e@),
        },
        aliases_resolve(old(mappings)@) ==> aliases_resolve(final(mappings)@),
{
    parse_class_block(indent_level, false, parent, lines, pos, mappings)
}

/// Reads the class whose `CLASS` line stands at `pos`, with its comments,
/// its members and the classes nested in it, stores each class read in the
/// index, and says where the first line behind the class stands. The lines
/// of the class have to follow the grammar; [`try_parse_class_inner`] tells
/// whether they do.
pub fn parse_class_inner(
    indent_level: usize,
    parent: Option<&Class>,
    lines: &Vec<Vec<char>>,
    pos: usize,
    mappings: &mut Mappings,
) -> (next: usize)
    requires
        class_at(
            lines_view(lines),
            indent_level as int,
            outer_names(parent),
            pos as int,
            old(mappings)@,
        ).is_ok(),
    ensures
        class_at(
            lines_view(lines),
            indent_level as int,
            outer_names(parent),
            pos as int,
            old(mappings)@,
        ) == Ok::<(MappingsView, int), Seq<char>>((final(mappings)@, next as int)),
        pos < next <= lines.len(),
        aliases_resolve(old(mappings)@) ==> aliases_resolve(final(mappings)@),
{
    match parse_class_block(indent_level, false, parent, lines, pos, mappings) {
        Ok(next) => next,
        Err(_) => vstd::pervasive::unreached(),
    }
}

/// Reads the classes of one file into the index.
pub fn parse_file(text: &str, mappings: &mut Mappings) -> (r: Result<(), CorpusSyntaxError>)
    ensures
        match r {
            Ok(_) => file_at(lines_of(text@), 0, old(mappings)@) == Ok::<MappingsView, Seq<char>>(
                final(mappings)@,
            ),
            Err(e) => file_at(lines_of(text@), 0, old(mappings)@) == Err::<
                MappingsView,
                Seq<char>,
            >(e@),
        },
        aliases_resolve(old(mappings)@) ==> aliases_resolve(final(mappings)@),
{
    let lines = split_lines(text);
    let ghost all = lines_view(&lines);
    let ghost m_old = mappings@;
    let mut at: usize = 0;
    while at < lines.len()
        invariant
            at <= lines.len(),
            all == lines_view(&lines),
            all == lines_of(text@),
            m_old == old(mappings)@,
            file_at(all, 0, m_old) == file_at(all, at as int, mappings@),
            aliases_resolve(m_old) ==> aliases_resolve(mappings@),
        decreases lines.len() - at,
    {
        let content = trim_chars(&lines[at]);
        if content.len() == 0 {
            at += 1;
        } else {
            match try_parse_class_inner(1, None, &lines, at, mappings) {
                Ok(next) => {
                    at = next;
                },
                Err(e) => {
                    return Err(e);
                },
            }
        }
    }
    Ok(())
}

/// Reads the classes of all files, in the order of the files, into a new
/// index.
pub fn parse_corpus(files: &Vec<String>) -> (r: Result<Mappings, CorpusSyntaxError>)
    ensures
        match r {
            Ok(m) => corpus_at(
                files@.map_values(|f: String| f@),
                0,
                MappingsView { mapped_map: Seq::empty(), intermediary_map: Seq::empty() },
            ) == Ok::<MappingsView, Seq<char>>(m@) && aliases_resolve(m@),
            Err(e) => corpus_at(
                files@.map_values(|f: String| f@),
                0,
                MappingsView { mapped_map: Seq::empty(), intermediary_map: Seq::empty() },
            ) == Err::<MappingsView, Seq<char>>(e@),
        },
{
    let mut mappings = Mappings::new();
    let ghost texts = files@.map_values(|f: String| f@);
    let ghost start = mappings@;
    let mut i: usize = 0;
    while i < files.len()
        invariant
            i <= files.len(),
            texts == files@.map_values(|f: String| f@),
            start == (MappingsView { mapped_map: Seq::empty(), intermediary_map: Seq::empty() }),
            corpus_at(texts, 0, start) == corpus_at(texts, i as int, mappings@),
            aliases_resolve(mappings@),
        decreases files.len() - i,
    {
        match parse_file(files[i].as_str(), &mut mappings) {
            Ok(_) => {},
            Err(e) => {
                return Err(e);
            },
        }
        i += 1;
    }
    Ok(mappings)
}

} // verus!
