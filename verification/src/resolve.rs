use crate::index::{aliases_resolve, Mappings, MappingsView};
use crate::model::{
    ArgView, BareMethod, BareMethodView, Class, ClassView, Field, FieldView, Method, MethodView,
};
use crate::parser::{corpus_at, parse_corpus, CorpusSyntaxError};
use crate::table::{lookup, with_entry, NameTable};
use crate::text::{
    chars_of, find_char, find_char_from, push_char, split_once, split_once_at, text_of,
};
use vstd::prelude::*;
use vstd::string::*;

verus! {

/// The mapped name that the alias table gives for a name, or the name itself
/// where the table has none.
pub open spec fn alias_or_same(aliases: Seq<(Seq<char>, Seq<char>)>, name: Seq<char>) -> Seq<
    char,
> {
    match lookup(aliases, name) {
        Some(mapped) => mapped,
        None => name,
    }
}

/// The descriptor `t` from `pos` on, behind `before`, with the name in every
/// object reference `L<name>;` replaced by what the alias table gives for
/// it. An `L` without a `;` after it ends the result.
pub open spec fn resolved_from(
    aliases: Seq<(Seq<char>, Seq<char>)>,
    t: Seq<char>,
    pos: int,
    before: Seq<char>,
) -> Seq<char>
    decreases t.len() - pos,
{
    if pos < 0 || pos >= t.len() {
        before
    } else if t[pos] != 'L' {
        resolved_from(aliases, t, pos + 1, before.push(t[pos]))
    } else {
        let end = find_char(t, ';', pos + 1);
        if pos < end < t.len() {
            resolved_from(
                aliases,
                t,
                end + 1,
                before.push('L') + alias_or_same(aliases, t.subrange(pos + 1, end)) + seq![';'],
            )
        } else {
            before.push('L')
        }
    }
}

/// The resolved form of a descriptor.
pub open spec fn resolved(aliases: Seq<(Seq<char>, Seq<char>)>, t: Seq<char>) -> Seq<char> {
    resolved_from(aliases, t, 0, Seq::empty())
}

/// The resolved form of a method key: the name before the first `#` stays,
/// the signature behind it is resolved.
pub open spec fn resolved_key(aliases: Seq<(Seq<char>, Seq<char>)>, key: Seq<char>) -> Seq<char> {
    match split_once(key, '#') {
        Some((name, signature)) => name + seq!['#'] + resolved(aliases, signature),
        None => key,
    }
}

/// The field with its resolved descriptor filled in.
pub open spec fn resolved_field(aliases: Seq<(Seq<char>, Seq<char>)>, f: FieldView) -> FieldView {
    FieldView { mapped_field_type: resolved(aliases, f.field_type), ..f }
}

/// The method with its resolved signature filled in.
pub open spec fn resolved_method(aliases: Seq<(Seq<char>, Seq<char>)>, m: MethodView)
    -> MethodView {
    MethodView { mapped_signature: resolved(aliases, m.signature), ..m }
}

/// What a bare name stands for, with the key resolved.
pub open spec fn resolved_bare(aliases: Seq<(Seq<char>, Seq<char>)>, b: BareMethodView)
    -> BareMethodView {
    match b {
        BareMethodView::Resolved(key) => BareMethodView::Resolved(resolved_key(aliases, key)),
        BareMethodView::Ambiguous => BareMethodView::Ambiguous,
    }
}

/// The fields, the first `n` of them resolved.
pub open spec fn resolved_fields(
    aliases: Seq<(Seq<char>, Seq<char>)>,
    fields: Seq<(Seq<char>, FieldView)>,
    n: int,
) -> Seq<(Seq<char>, FieldView)> {
    Seq::new(
        fields.len(),
        |i: int|
            if i < n {
                (fields[i].0, resolved_field(aliases, fields[i].1))
            } else {
                fields[i]
            },
    )
}

/// The bare names, the first `n` of them with their keys resolved.
pub open spec fn resolved_bares(
    aliases: Seq<(Seq<char>, Seq<char>)>,
    bares: Seq<(Seq<char>, BareMethodView)>,
    n: int,
) -> Seq<(Seq<char>, BareMethodView)> {
    Seq::new(
        bares.len(),
        |i: int|
            if i < n {
                (bares[i].0, resolved_bare(aliases, bares[i].1))
            } else {
                bares[i]
            },
    )
}

/// The table of the first `n` methods, each resolved and stored under its
/// resolved key, in their order.
pub open spec fn resolved_methods(
    aliases: Seq<(Seq<char>, Seq<char>)>,
    methods: Seq<(Seq<char>, MethodView)>,
    n: nat,
) -> Seq<(Seq<char>, MethodView)>
    decreases n,
{
    if n == 0 {
        Seq::empty()
    } else {
        with_entry(
            resolved_methods(aliases, methods, (n - 1) as nat),
            resolved_key(aliases, methods[n - 1].0),
            resolved_method(aliases, methods[n - 1].1),
        )
    }
}

/// The class with every descriptor, signature and method key resolved.
pub open spec fn resolved_class(aliases: Seq<(Seq<char>, Seq<char>)>, c: ClassView) -> ClassView {
    ClassView {
        fields: resolved_fields(aliases, c.fields, c.fields.len() as int),
        methods_nosig: resolved_bares(aliases, c.methods_nosig, c.methods_nosig.len() as int),
        methods: resolved_methods(aliases, c.methods, c.methods.len()),
        ..c
    }
}

/// The classes, the first `n` of them resolved.
pub open spec fn resolved_classes(
    aliases: Seq<(Seq<char>, Seq<char>)>,
    classes: Seq<(Seq<char>, ClassView)>,
    n: int,
) -> Seq<(Seq<char>, ClassView)> {
    Seq::new(
        classes.len(),
        |i: int|
            if i < n {
                (classes[i].0, resolved_class(aliases, classes[i].1))
            } else {
                classes[i]
            },
    )
}

/// The index with every class resolved against its own alias table.
pub open spec fn resolved_mappings(m: MappingsView) -> MappingsView {
    MappingsView {
        mapped_map: resolved_classes(m.intermediary_map, m.mapped_map, m.mapped_map.len() as int),
        intermediary_map: m.intermediary_map,
    }
}

/// The index that a corpus stands for: its files read in order, then every
/// class resolved.
pub open spec fn corpus_mappings(files: Seq<Seq<char>>) -> Result<MappingsView, Seq<char>> {
    match corpus_at(
        files,
        0,
        MappingsView { mapped_map: Seq::empty(), intermediary_map: Seq::empty() },
    ) {
        Ok(m) => Ok(resolved_mappings(m)),
        Err(line) => Err(line),
    }
}

/// Rewrites a descriptor: the name in every object reference `L<name>;` is
/// replaced by the mapped name that the alias table gives for it, and stays
/// where the table has none.
pub fn replace_mappings(mappings: &NameTable<String>, t: &str) -> (r: String)
    ensures
        r@ == resolved(mappings@, t@),
{
    let letters = chars_of(t);
    let mut result = String::new();
    let mut pos: usize = 0;
    while pos < letters.len()
        invariant
            pos <= letters.len(),
            letters@ == t@,
            resolved(mappings@, t@) == resolved_from(mappings@, t@, pos as int, result@),
        decreases letters.len() - pos,
    {
        let c = letters[pos];
        let ghost before = result@;
        push_char(&mut result, c);
        if c != 'L' {
            pos += 1;
        } else {
            let end = find_char_from(&letters, ';', pos + 1);
            if end >= letters.len() {
                return result;
            }
            let ghost name_view = t@.subrange(pos + 1, end as int);
            let name = crate::text::string_of(&letters, pos + 1, end);
            match mappings.get(name.as_str()) {
                Some(mapped) => {
                    result.append(mapped.as_str());
                },
                None => {
                    result.append(name.as_str());
                },
            }
            push_char(&mut result, ';');
            assert(result@ =~= before.push('L') + alias_or_same(mappings@, name_view) + seq![';']);
            pos = end + 1;
        }
    }
    result
}

/// Rewrites a method key: the signature behind the first `#` is resolved.
pub fn resolve_key(aliases: &NameTable<String>, key: &str) -> (r: String)
    ensures
        r@ == resolved_key(aliases@, key@),
{
    let letters = chars_of(key);
    match split_once_at(&letters, '#') {
        Some((name, signature)) => {
            let mut r = text_of(&name);
            let signature = text_of(&signature);
            let rewritten = replace_mappings(aliases, signature.as_str());
            r.append("#");
            r.append(rewritten.as_str());
            proof {
                reveal_strlit("#");
                assert("#"@ =~= seq!['#']);
            }
            r
        },
        None => String::from_str(key),
    }
}

/// A field without content, to stand in a table while its field is worked
/// on.
pub(crate) fn blank_field() -> (f: Field)
    ensures
        f@ == (FieldView {
            intermediary_name: Seq::empty(),
            mapped_name: Seq::empty(),
            field_type: Seq::empty(),
            mapped_field_type: Seq::empty(),
            comments: Seq::empty(),
            modifiers: 0,
        }),
{
    Field {
        intermediary_name: String::new(),
        mapped_name: String::new(),
        field_type: String::new(),
        mapped_field_type: String::new(),
        comments: String::new(),
        modifiers: 0,
    }
}

/// A method without content, to stand in a table while its method is
/// worked on.
pub(crate) fn blank_method() -> (m: Method)
    ensures
        m@ == (MethodView {
            intermediary_name: Seq::empty(),
            mapped_name: Seq::empty(),
            signature: Seq::empty(),
            mapped_signature: Seq::empty(),
            comments: Seq::empty(),
            args: Seq::empty(),
            modifiers: 0,
        }),
{
    let m = Method {
        intermediary_name: String::new(),
        mapped_name: String::new(),
        signature: String::new(),
        mapped_signature: String::new(),
        comments: String::new(),
        args: Vec::new(),
        modifiers: 0,
    };
    assert(m@.args =~= Seq::<ArgView>::empty());
    m
}

/// Fills in the resolved descriptor of every field.
pub fn resolve_fields(aliases: &NameTable<String>, fields: &mut NameTable<Field>)
    ensures
        final(fields)@ == resolved_fields(aliases@, old(fields)@, old(fields)@.len() as int),
{
    let ghost orig = fields@;
    let n = fields.len();
    let mut i: usize = 0;
    assert(fields@ =~= resolved_fields(aliases@, orig, 0));
    while i < n
        invariant
            i <= n,
            n == orig.len(),
            fields@ == resolved_fields(aliases@, orig, i as int),
        decreases n - i,
    {
        let mut f = fields.replace_at(i, blank_field());
        let rewritten = replace_mappings(aliases, f.field_type.as_str());
        f.mapped_field_type = rewritten;
        let _ = fields.replace_at(i, f);
        i += 1;
        assert(fields@ =~= resolved_fields(aliases@, orig, i as int));
    }
}

/// Resolves the key that every bare method name stands for.
pub fn resolve_bares(aliases: &NameTable<String>, bares: &mut NameTable<BareMethod>)
    ensures
        final(bares)@ == resolved_bares(aliases@, old(bares)@, old(bares)@.len() as int),
{
    let ghost orig = bares@;
    let n = bares.len();
    let mut i: usize = 0;
    assert(bares@ =~= resolved_bares(aliases@, orig, 0));
    while i < n
        invariant
            i <= n,
            n == orig.len(),
            bares@ == resolved_bares(aliases@, orig, i as int),
        decreases n - i,
    {
        let rewritten = match bares.value_at(i) {
            BareMethod::Resolved(key) => BareMethod::Resolved(resolve_key(aliases, key.as_str())),
            BareMethod::Ambiguous => BareMethod::Ambiguous,
        };
        let _ = bares.replace_at(i, rewritten);
        i += 1;
        assert(bares@ =~= resolved_bares(aliases@, orig, i as int));
    }
}

/// Fills in the resolved signature of every method and stores each method
/// under its resolved key.
pub fn resolve_methods(aliases: &NameTable<String>, methods: &mut NameTable<Method>)
    ensures
        final(methods)@ == resolved_methods(aliases@, old(methods)@, old(methods)@.len()),
{
    let ghost orig = methods@;
    let n = methods.len();
    let mut rewritten: NameTable<Method> = NameTable::new();
    let mut i: usize = 0;
    while i < n
        invariant
            i <= n,
            n == orig.len(),
            methods@.len() == n,
            forall|k: int| i <= k < n ==> methods@[k] == orig[k],
            rewritten@ == resolved_methods(aliases@, orig, i as nat),
        decreases n - i,
    {
        let key = resolve_key(aliases, methods.key_at(i).as_str());
        let mut m = methods.replace_at(i, blank_method());
        let signature = replace_mappings(aliases, m.signature.as_str());
        m.mapped_signature = signature;
        rewritten.insert(key, m);
        i += 1;
    }
    *methods = rewritten;
}

/// Resolves every descriptor, signature and method key of a class.
pub fn resolve_class(aliases: &NameTable<String>, class: &mut Class)
    ensures
        final(class)@ == resolved_class(aliases@, old(class)@),
{
    resolve_fields(aliases, &mut class.fields);
    resolve_methods(aliases, &mut class.methods);
    resolve_bares(aliases, &mut class.methods_nosig);
}

/// The second pass over a corpus that was read in full: every class gets the
/// resolved form of its descriptors, signatures and method keys, by the
/// index's own alias table.
pub fn resolve_signatures(mappings: &mut Mappings)
    ensures
        final(mappings)@ == resolved_mappings(old(mappings)@),
        aliases_resolve(old(mappings)@) ==> aliases_resolve(final(mappings)@),
{
    let ghost orig = mappings@;
    let n = mappings.mapped_map.len();
    let mut i: usize = 0;
    assert(mappings.mapped_map@ =~= resolved_classes(orig.intermediary_map, orig.mapped_map, 0));
    while i < n
        invariant
            i <= n,
            n == orig.mapped_map.len(),
            mappings.intermediary_map@ == orig.intermediary_map,
            mappings.mapped_map@ == resolved_classes(
                orig.intermediary_map,
                orig.mapped_map,
                i as int,
            ),
        decreases n - i,
    {
        let mut class = mappings.mapped_map.replace_at(
            i,
            Class::new(String::new(), String::new()),
        );
        resolve_class(&mappings.intermediary_map, &mut class);
        let _ = mappings.mapped_map.replace_at(i, class);
        i += 1;
        assert(mappings.mapped_map@ =~= resolved_classes(
            orig.intermediary_map,
            orig.mapped_map,
            i as int,
        ));
    }
    proof {
        lemma_resolved_keeps_aliases(orig);
    }
}

/// Resolving keeps every intermediary name leading to a class.
pub proof fn lemma_resolved_keeps_aliases(m: MappingsView)
    ensures
        aliases_resolve(m) ==> aliases_resolve(resolved_mappings(m)),
{
    let after = resolved_mappings(m);
    if aliases_resolve(m) {
        assert forall|i: int| 0 <= i < after.intermediary_map.len() implies lookup(
            after.mapped_map,
            (#[trigger] after.intermediary_map[i]).1,
        ).is_some() by {
            let target = m.intermediary_map[i].1;
            crate::table::lemma_same_names(m.mapped_map, after.mapped_map, target);
        }
    }
}

/// Reads a corpus, file by file, and resolves it. The error is the first
/// line that the grammar does not allow, with its content.
pub fn try_parse_mappings(files: &Vec<String>) -> (r: Result<Mappings, CorpusSyntaxError>)
    ensures
        match r {
            Ok(m) => corpus_mappings(files@.map_values(|f: String| f@)) == Ok::<
                MappingsView,
                Seq<char>,
            >(m@) && aliases_resolve(m@),
            Err(e) => corpus_mappings(files@.map_values(|f: String| f@)) == Err::<
                MappingsView,
                Seq<char>,
            >(e@),
        },
{
    match parse_corpus(files) {
        Ok(mut mappings) => {
            resolve_signatures(&mut mappings);
            Ok(mappings)
        },
        Err(e) => Err(e),
    }
}

/// Reads a corpus, file by file, and resolves it. Every line of the corpus
/// has to follow the grammar; [`try_parse_mappings`] tells whether it does.
pub fn parse_mappings(files: &Vec<String>) -> (m: Mappings)
    requires
        corpus_mappings(files@.map_values(|f: String| f@)).is_ok(),
    ensures
        corpus_mappings(files@.map_values(|f: String| f@)) == Ok::<MappingsView, Seq<char>>(m@),
        aliases_resolve(m@),
{
    match try_parse_mappings(files) {
        Ok(m) => m,
        Err(_) => vstd::pervasive::unreached(),
    }
}

/// The resolved form of a descriptor, by the index's alias table.
pub fn convert_sig(mappings: &Mappings, sig: &str) -> (r: String)
    ensures
        r@ == resolved(mappings@.intermediary_map, sig@),
{
    replace_mappings(&mappings.intermediary_map, sig)
}

} // verus!
