use crate::index::{aliases_resolve, Mappings, MappingsView};
use crate::model::{
    Arg, ArgView, BareMethod, BareMethodView, Class, ClassView, Field, FieldView, Method,
    MethodView,
};
use crate::parser::CorpusSyntaxError;
use crate::resolve::{corpus_mappings, try_parse_mappings};
use crate::table::{distinct_names, lemma_position_of, position_of, with_entry};
use vstd::prelude::*;

verus! {

/// An argument as plain values: position, name, comment, modifier set.
pub type ArgRecord = (u16, String, String, u8);

/// A field as plain values: intermediary name, mapped name, raw descriptor,
/// resolved descriptor, comments, modifier set.
pub type FieldRecord = (String, String, String, String, String, u8);

/// A method as plain values: intermediary name, mapped name, raw signature,
/// resolved signature, comments, arguments, modifier set.
pub type MethodRecord = (String, String, String, String, String, Vec<ArgRecord>, u8);

/// A class as plain values: intermediary name, mapped name, comments, fields
/// by key, what each bare method name stands for (a key, or nothing where it
/// is ambiguous), methods by key.
pub type ClassRecord = (
    String,
    String,
    String,
    Vec<(String, FieldRecord)>,
    Vec<(String, Option<String>)>,
    Vec<(String, MethodRecord)>,
);

/// An index as plain values: classes by mapped name, mapped names by
/// intermediary name.
pub type MappingsRecord = (Vec<(String, ClassRecord)>, Vec<(String, String)>);

/// The mathematical value of an [`ArgRecord`].
pub type ArgRecordView = (u16, Seq<char>, Seq<char>, u8);

/// The mathematical value of a [`FieldRecord`].
pub type FieldRecordView = (Seq<char>, Seq<char>, Seq<char>, Seq<char>, Seq<char>, u8);

/// The mathematical value of a [`MethodRecord`].
pub type MethodRecordView = (
    Seq<char>,
    Seq<char>,
    Seq<char>,
    Seq<char>,
    Seq<char>,
    Seq<ArgRecordView>,
    u8,
);

/// The mathematical value of a [`ClassRecord`].
pub type ClassRecordView = (
    Seq<char>,
    Seq<char>,
    Seq<char>,
    Seq<(Seq<char>, FieldRecordView)>,
    Seq<(Seq<char>, Option<Seq<char>>)>,
    Seq<(Seq<char>, MethodRecordView)>,
);

/// The mathematical value of a [`MappingsRecord`].
pub type MappingsRecordView = (Seq<(Seq<char>, ClassRecordView)>, Seq<(Seq<char>, Seq<char>)>);

/// The bytes that `bitcode::encode` makes of an index in plain values.
pub uninterp spec fn cache_bytes(record: MappingsRecordView) -> Seq<u8>;

/// The index in plain values that `bitcode::decode` reads from the bytes, if
/// it reads one.
pub uninterp spec fn cache_record(bytes: Seq<u8>) -> Option<MappingsRecordView>;

/// `bitcode::encode` on an index in plain values. The bytes are a function
/// of the values alone and go by the name [`cache_bytes`].
#[verifier::external_body]
pub(crate) fn encode_record(record: &MappingsRecord) -> (bytes: Vec<u8>)
    ensures
        bytes@ == cache_bytes(record.deep_view()),
{
    bitcode::encode(record)
}

/// The error of `bitcode::decode`.
#[verifier::external_type_specification]
#[verifier::external_body]
pub struct ExDecodeError(bitcode::Error);

/// `bitcode::decode` to an index in plain values. Whether the bytes decode,
/// and to what, is a function of the bytes alone and goes by the name
/// [`cache_record`].
#[verifier::external_body]
pub(crate) fn decode_record(bytes: &Vec<u8>) -> (r: Result<MappingsRecord, bitcode::Error>)
    ensures
        match r {
            Ok(record) => cache_record(bytes@) == Some(record.deep_view()),
            Err(_) => cache_record(bytes@).is_none(),
        },
{
    bitcode::decode(bytes.as_slice())
}

/// The argument that plain values stand for.
pub open spec fn arg_of(r: ArgRecordView) -> ArgView {
    ArgView { position: r.0, name: r.1, comment: r.2, modifiers: r.3 }
}

/// The plain values of an argument.
pub open spec fn record_of_arg(a: ArgView) -> ArgRecordView {
    (a.position, a.name, a.comment, a.modifiers)
}

/// The field that plain values stand for.
pub open spec fn field_of(r: FieldRecordView) -> FieldView {
    FieldView {
        intermediary_name: r.0,
        mapped_name: r.1,
        field_type: r.2,
        mapped_field_type: r.3,
        comments: r.4,
        modifiers: r.5,
    }
}

/// The plain values of a field.
pub open spec fn record_of_field(f: FieldView) -> FieldRecordView {
    (
        f.intermediary_name,
        f.mapped_name,
        f.field_type,
        f.mapped_field_type,
        f.comments,
        f.modifiers,
    )
}

/// The method that plain values stand for.
pub open spec fn method_of(r: MethodRecordView) -> MethodView {
    MethodView {
        intermediary_name: r.0,
        mapped_name: r.1,
        signature: r.2,
        mapped_signature: r.3,
        comments: r.4,
        args: Seq::new(r.5.len(), |i: int| arg_of(r.5[i])),
        modifiers: r.6,
    }
}

/// The plain values of a method.
pub open spec fn record_of_method(m: MethodView) -> MethodRecordView {
    (
        m.intermediary_name,
        m.mapped_name,
        m.signature,
        m.mapped_signature,
        m.comments,
        Seq::new(m.args.len(), |i: int| record_of_arg(m.args[i])),
        m.modifiers,
    )
}

/// What a bare name stands for, by its plain value.
pub open spec fn bare_of(r: Option<Seq<char>>) -> BareMethodView {
    match r {
        Some(key) => BareMethodView::Resolved(key),
        None => BareMethodView::Ambiguous,
    }
}

/// The plain value of what a bare name stands for.
pub open spec fn record_of_bare(b: BareMethodView) -> Option<Seq<char>> {
    match b {
        BareMethodView::Resolved(key) => Some(key),
        BareMethodView::Ambiguous => None,
    }
}

/// The plain values of an argument.
pub fn arg_record(a: &Arg) -> (r: ArgRecord)
    ensures
        r.deep_view() == record_of_arg(a@),
{
    (a.position, a.name.clone(), a.comment.clone(), a.modifiers)
}

/// The argument that plain values stand for.
pub fn arg_from(r: ArgRecord) -> (a: Arg)
    ensures
        a@ == arg_of(r.deep_view()),
{
    Arg { position: r.0, name: r.1, comment: r.2, modifiers: r.3 }
}

/// The plain values of a field.
pub fn field_record(f: &Field) -> (r: FieldRecord)
    ensures
        r.deep_view() == record_of_field(f@),
{
    (
        f.intermediary_name.clone(),
        f.mapped_name.clone(),
        f.field_type.clone(),
        f.mapped_field_type.clone(),
        f.comments.clone(),
        f.modifiers,
    )
}

/// The field that plain values stand for.
pub fn field_from(r: FieldRecord) -> (f: Field)
    ensures
        f@ == field_of(r.deep_view()),
{
    Field {
        intermediary_name: r.0,
        mapped_name: r.1,
        field_type: r.2,
        mapped_field_type: r.3,
        comments: r.4,
        modifiers: r.5,
    }
}

/// The plain values of a method.
pub fn method_record(m: &Method) -> (r: MethodRecord)
    ensures
        r.deep_view() == record_of_method(m@),
{
    let mut args: Vec<ArgRecord> = Vec::new();
    let mut i: usize = 0;
    while i < m.args.len()
        invariant
            i <= m.args.len(),
            args.len() == i,
            forall|k: int| 0 <= k < i ==> (#[trigger] args@[k]).deep_view() == record_of_arg(
                m.args@[k]@,
            ),
        decreases m.args.len() - i,
    {
        args.push(arg_record(&m.args[i]));
        i += 1;
    }
    let r = (
        m.intermediary_name.clone(),
        m.mapped_name.clone(),
        m.signature.clone(),
        m.mapped_signature.clone(),
        m.comments.clone(),
        args,
        m.modifiers,
    );
    assert(r.deep_view().5 =~= record_of_method(m@).5);
    r
}

/// The method that plain values stand for.
pub fn method_from(r: MethodRecord) -> (m: Method)
    ensures
        m@ == method_of(r.deep_view()),
{
    let ghost given = r.deep_view();
    let (intermediary_name, mapped_name, signature, mapped_signature, comments, records, modifiers) =
        r;
    let mut args: Vec<Arg> = Vec::new();
    let ghost held = records@;
    for record in it: records
        invariant
            it.seq() == held,
            args.len() == it.index(),
            forall|k: int|
                0 <= k < args.len() ==> (#[trigger] args@[k])@ == arg_of(held[k].deep_view()),
    {
        args.push(arg_from(record));
    }
    let m = Method {
        intermediary_name,
        mapped_name,
        signature,
        mapped_signature,
        comments,
        args,
        modifiers,
    };
    assert(m@.args =~= method_of(given).args);
    m
}

/// The table that the first `n` entries make when they are stored one by
/// one, in their order.
pub open spec fn stored<T>(entries: Seq<(Seq<char>, T)>, n: nat) -> Seq<(Seq<char>, T)>
    decreases n,
{
    if n == 0 {
        Seq::empty()
    } else {
        with_entry(stored(entries, (n - 1) as nat), entries[n - 1].0, entries[n - 1].1)
    }
}

/// Entries with distinct names make the table that holds just them, in
/// their order.
pub proof fn lemma_stored_distinct<T>(entries: Seq<(Seq<char>, T)>, n: nat)
    requires
        distinct_names(entries),
        n <= entries.len(),
    ensures
        stored(entries, n) == entries.take(n as int),
    decreases n,
{
    if n == 0 {
        assert(entries.take(0) =~= Seq::<(Seq<char>, T)>::empty());
    } else {
        lemma_stored_distinct(entries, (n - 1) as nat);
        let before = entries.take(n - 1);
        lemma_position_of(before, entries[n - 1].0);
        match position_of(before, entries[n - 1].0) {
            Some(i) => {
                assert(before[i] == entries[i]);
                assert(entries[i].0 != entries[n - 1].0);
            },
            None => {},
        }
        assert(before.push(entries[n - 1]) =~= entries.take(n as int));
    }
}

/// A table that entries make when they are stored one by one holds no name
/// twice, and each of its entries is one of the entries stored.
pub proof fn lemma_stored_is_table<T>(entries: Seq<(Seq<char>, T)>, n: nat)
    requires
        n <= entries.len(),
    ensures
        distinct_names(stored(entries, n)),
        forall|i: int|
            0 <= i < stored(entries, n).len() ==> exists|k: int|
                0 <= k < n && #[trigger] stored(entries, n)[i] == #[trigger] entries[k],
    decreases n,
{
    if n > 0 {
        let before = stored(entries, (n - 1) as nat);
        let after = stored(entries, n);
        let last = entries[n - 1];
        lemma_stored_is_table(entries, (n - 1) as nat);
        crate::table::lemma_with_entry(before, last.0, last.1);
        lemma_position_of(before, last.0);
        assert forall|i: int| 0 <= i < after.len() implies exists|k: int|
            0 <= k < n && #[trigger] after[i] == #[trigger] entries[k] by {
            if after[i] == last {
                assert(after[i] == entries[n - 1]);
            } else {
                assert(after[i] == before[i]);
                let k = choose|k: int| 0 <= k < n - 1 && before[i] == entries[k];
                assert(after[i] == entries[k]);
            }
        }
    }
}

/// The class that plain values stand for holds no key twice.
pub proof fn lemma_class_of_is_valid(r: ClassRecordView)
    ensures
        valid_class(class_of(r)),
{
    lemma_stored_is_table(fields_of(r.3), r.3.len());
    lemma_stored_is_table(bares_of(r.4), r.4.len());
    lemma_stored_is_table(methods_of(r.5), r.5.len());
}

/// The index that plain values stand for holds no name twice, in any of its
/// tables.
pub proof fn lemma_mappings_of_is_valid(r: MappingsRecordView)
    ensures
        valid_index(mappings_of(r)),
{
    let m = mappings_of(r);
    lemma_stored_is_table(classes_of(r.0), r.0.len());
    lemma_stored_is_table(r.1, r.1.len());
    assert forall|i: int| 0 <= i < m.mapped_map.len() implies valid_class(
        (#[trigger] m.mapped_map[i]).1,
    ) by {
        let k = choose|k: int| 0 <= k < r.0.len() && m.mapped_map[i] == classes_of(r.0)[k];
        lemma_class_of_is_valid(r.0[k].1);
    }
}

/// The fields that plain values stand for, by key.
pub open spec fn fields_of(r: Seq<(Seq<char>, FieldRecordView)>) -> Seq<(Seq<char>, FieldView)> {
    Seq::new(r.len(), |i: int| (r[i].0, field_of(r[i].1)))
}

/// What plain values say that bare names stand for.
pub open spec fn bares_of(r: Seq<(Seq<char>, Option<Seq<char>>)>) -> Seq<
    (Seq<char>, BareMethodView),
> {
    Seq::new(r.len(), |i: int| (r[i].0, bare_of(r[i].1)))
}

/// The methods that plain values stand for, by key.
pub open spec fn methods_of(r: Seq<(Seq<char>, MethodRecordView)>) -> Seq<
    (Seq<char>, MethodView),
> {
    Seq::new(r.len(), |i: int| (r[i].0, method_of(r[i].1)))
}

/// The class that plain values stand for: its members are stored one by
/// one, so that no key occurs twice.
pub open spec fn class_of(r: ClassRecordView) -> ClassView {
    ClassView {
        intermediary_name: r.0,
        mapped_name: r.1,
        comments: r.2,
        fields: stored(fields_of(r.3), r.3.len()),
        methods_nosig: stored(bares_of(r.4), r.4.len()),
        methods: stored(methods_of(r.5), r.5.len()),
    }
}

/// The plain values of a class.
pub open spec fn record_of_class(c: ClassView) -> ClassRecordView {
    (
        c.intermediary_name,
        c.mapped_name,
        c.comments,
        Seq::new(c.fields.len(), |i: int| (c.fields[i].0, record_of_field(c.fields[i].1))),
        Seq::new(
            c.methods_nosig.len(),
            |i: int| (c.methods_nosig[i].0, record_of_bare(c.methods_nosig[i].1)),
        ),
        Seq::new(c.methods.len(), |i: int| (c.methods[i].0, record_of_method(c.methods[i].1))),
    )
}

/// The classes that plain values stand for, by name.
pub open spec fn classes_of(r: Seq<(Seq<char>, ClassRecordView)>) -> Seq<(Seq<char>, ClassView)> {
    Seq::new(r.len(), |i: int| (r[i].0, class_of(r[i].1)))
}

/// The index that plain values stand for.
pub open spec fn mappings_of(r: MappingsRecordView) -> MappingsView {
    MappingsView {
        mapped_map: stored(classes_of(r.0), r.0.len()),
        intermediary_map: stored(r.1, r.1.len()),
    }
}

/// The plain values of an index.
pub open spec fn record_of_mappings(m: MappingsView) -> MappingsRecordView {
    (
        Seq::new(
            m.mapped_map.len(),
            |i: int| (m.mapped_map[i].0, record_of_class(m.mapped_map[i].1)),
        ),
        m.intermediary_map,
    )
}

/// No key occurs twice in a table of the class.
pub open spec fn valid_class(c: ClassView) -> bool {
    distinct_names(c.fields) && distinct_names(c.methods_nosig) && distinct_names(c.methods)
}

/// No name occurs twice in a table of the index or of one of its classes.
pub open spec fn valid_index(m: MappingsView) -> bool {
    &&& distinct_names(m.mapped_map)
    &&& distinct_names(m.intermediary_map)
    &&& forall|i: int| 0 <= i < m.mapped_map.len() ==> valid_class((#[trigger] m.mapped_map[i]).1)
}

/// A method is what its plain values stand for.
pub proof fn lemma_method_round_trip(m: MethodView)
    ensures
        method_of(record_of_method(m)) == m,
{
    assert(method_of(record_of_method(m)).args =~= m.args);
}

/// A class without a key that occurs twice is what its plain values stand
/// for.
pub proof fn lemma_class_round_trip(c: ClassView)
    requires
        valid_class(c),
    ensures
        class_of(record_of_class(c)) == c,
{
    let r = record_of_class(c);
    assert(fields_of(r.3) =~= c.fields);
    assert(bares_of(r.4) =~= c.methods_nosig);
    assert forall|i: int| 0 <= i < c.methods.len() implies methods_of(r.5)[i] == c.methods[i] by {
        lemma_method_round_trip(c.methods[i].1);
    }
    assert(methods_of(r.5) =~= c.methods);
    lemma_stored_distinct(c.fields, c.fields.len());
    lemma_stored_distinct(c.methods_nosig, c.methods_nosig.len());
    lemma_stored_distinct(c.methods, c.methods.len());
    assert(c.fields.take(c.fields.len() as int) =~= c.fields);
    assert(c.methods_nosig.take(c.methods_nosig.len() as int) =~= c.methods_nosig);
    assert(c.methods.take(c.methods.len() as int) =~= c.methods);
}

/// An index without a name that occurs twice is what its plain values stand
/// for.
pub proof fn lemma_record_round_trip(m: MappingsView)
    requires
        valid_index(m),
    ensures
        mappings_of(record_of_mappings(m)) == m,
{
    let r = record_of_mappings(m);
    assert forall|i: int| 0 <= i < m.mapped_map.len() implies classes_of(r.0)[i]
        == m.mapped_map[i] by {
        lemma_class_round_trip(m.mapped_map[i].1);
    }
    assert(classes_of(r.0) =~= m.mapped_map);
    lemma_stored_distinct(m.mapped_map, m.mapped_map.len());
    lemma_stored_distinct(m.intermediary_map, m.intermediary_map.len());
    assert(m.mapped_map.take(m.mapped_map.len() as int) =~= m.mapped_map);
    assert(m.intermediary_map.take(m.intermediary_map.len() as int) =~= m.intermediary_map);
}

/// The plain values of a class.
pub fn class_record(c: &Class) -> (r: ClassRecord)
    ensures
        r.deep_view() == record_of_class(c@),
        valid_class(c@),
{
    let field_count = c.fields.len();
    let bare_count = c.methods_nosig.len();
    let method_count = c.methods.len();
    let mut fields: Vec<(String, FieldRecord)> = Vec::new();
    let mut i: usize = 0;
    while i < field_count
        invariant
            i <= c.fields@.len(),
            field_count == c.fields@.len(),
            valid_class(c@),
            fields.len() == i,
            forall|k: int|
                0 <= k < i ==> (#[trigger] fields@[k]).deep_view() == (
                    c.fields@[k].0,
                    record_of_field(c.fields@[k].1),
                ),
        decreases c.fields@.len() - i,
    {
        fields.push((c.fields.key_at(i).clone(), field_record(c.fields.value_at(i))));
        i += 1;
    }
    let mut bares: Vec<(String, Option<String>)> = Vec::new();
    let mut j: usize = 0;
    while j < bare_count
        invariant
            j <= c.methods_nosig@.len(),
            bare_count == c.methods_nosig@.len(),
            valid_class(c@),
            bares.len() == j,
            forall|k: int|
                0 <= k < j ==> (#[trigger] bares@[k]).deep_view() == (
                    c.methods_nosig@[k].0,
                    record_of_bare(c.methods_nosig@[k].1),
                ),
        decreases c.methods_nosig@.len() - j,
    {
        let bare = match c.methods_nosig.value_at(j) {
            BareMethod::Resolved(key) => Some(key.clone()),
            BareMethod::Ambiguous => None,
        };
        bares.push((c.methods_nosig.key_at(j).clone(), bare));
        j += 1;
    }
    let mut methods: Vec<(String, MethodRecord)> = Vec::new();
    let mut k: usize = 0;
    while k < method_count
        invariant
            k <= c.methods@.len(),
            method_count == c.methods@.len(),
            valid_class(c@),
            methods.len() == k,
            forall|n: int|
                0 <= n < k ==> (#[trigger] methods@[n]).deep_view() == (
                    c.methods@[n].0,
                    record_of_method(c.methods@[n].1),
                ),
        decreases c.methods@.len() - k,
    {
        methods.push((c.methods.key_at(k).clone(), method_record(c.methods.value_at(k))));
        k += 1;
    }
    let r = (
        c.intermediary_name.clone(),
        c.mapped_name.clone(),
        c.comments.clone(),
        fields,
        bares,
        methods,
    );
    assert(r.deep_view().3 =~= record_of_class(c@).3);
    assert(r.deep_view().4 =~= record_of_class(c@).4);
    assert(r.deep_view().5 =~= record_of_class(c@).5);
    r
}

/// The class that plain values stand for.
pub fn class_from(r: ClassRecord) -> (c: Class)
    ensures
        c@ == class_of(r.deep_view()),
{
    let ghost given = r.deep_view();
    let (intermediary_name, mapped_name, comments, fields, bares, methods) = r;
    let mut c = Class::new(intermediary_name, mapped_name);
    c.comments = comments;
    let ghost held_fields = fields@;
    for entry in it: fields
        invariant
            it.seq() == held_fields,
            given.3 == Seq::new(held_fields.len(), |i: int| held_fields[i].deep_view()),
            c@.intermediary_name == given.0,
            c@.mapped_name == given.1,
            c@.comments == given.2,
            c@.methods_nosig == Seq::<(Seq<char>, BareMethodView)>::empty(),
            c@.methods == Seq::<(Seq<char>, MethodView)>::empty(),
            c@.fields == stored(fields_of(given.3), it.index() as nat),
    {
        let (key, record) = entry;
        c.fields.insert(key, field_from(record));
    }
    let ghost held_bares = bares@;
    for entry in it: bares
        invariant
            it.seq() == held_bares,
            given.4 == Seq::new(held_bares.len(), |i: int| held_bares[i].deep_view()),
            c@.intermediary_name == given.0,
            c@.mapped_name == given.1,
            c@.comments == given.2,
            c@.fields == stored(fields_of(given.3), given.3.len()),
            c@.methods == Seq::<(Seq<char>, MethodView)>::empty(),
            c@.methods_nosig == stored(bares_of(given.4), it.index() as nat),
    {
        let (key, record) = entry;
        let bare = match record {
            Some(target) => BareMethod::Resolved(target),
            None => BareMethod::Ambiguous,
        };
        c.methods_nosig.insert(key, bare);
    }
    let ghost held_methods = methods@;
    for entry in it: methods
        invariant
            it.seq() == held_methods,
            given.5 == Seq::new(held_methods.len(), |i: int| held_methods[i].deep_view()),
            c@.intermediary_name == given.0,
            c@.mapped_name == given.1,
            c@.comments == given.2,
            c@.fields == stored(fields_of(given.3), given.3.len()),
            c@.methods_nosig == stored(bares_of(given.4), given.4.len()),
            c@.methods == stored(methods_of(given.5), it.index() as nat),
    {
        let (key, record) = entry;
        c.methods.insert(key, method_from(record));
    }
    c
}

/// The plain values of an index.
pub fn mappings_record(m: &Mappings) -> (r: MappingsRecord)
    ensures
        r.deep_view() == record_of_mappings(m@),
        valid_index(m@),
{
    let class_count = m.mapped_map.len();
    let alias_count = m.intermediary_map.len();
    let mut classes: Vec<(String, ClassRecord)> = Vec::new();
    let mut i: usize = 0;
    while i < class_count
        invariant
            i <= m.mapped_map@.len(),
            class_count == m.mapped_map@.len(),
            distinct_names(m@.mapped_map),
            distinct_names(m@.intermediary_map),
            classes.len() == i,
            forall|k: int|
                0 <= k < i ==> (#[trigger] classes@[k]).deep_view() == (
                    m.mapped_map@[k].0,
                    record_of_class(m.mapped_map@[k].1),
                ) && valid_class(m.mapped_map@[k].1),
        decreases m.mapped_map@.len() - i,
    {
        classes.push((m.mapped_map.key_at(i).clone(), class_record(m.mapped_map.value_at(i))));
        i += 1;
    }
    let mut aliases: Vec<(String, String)> = Vec::new();
    let mut j: usize = 0;
    while j < alias_count
        invariant
            j <= m.intermediary_map@.len(),
            alias_count == m.intermediary_map@.len(),
            classes.len() == m.mapped_map@.len(),
            distinct_names(m@.mapped_map),
            distinct_names(m@.intermediary_map),
            forall|k: int|
                0 <= k < classes.len() ==> (#[trigger] classes@[k]).deep_view() == (
                    m.mapped_map@[k].0,
                    record_of_class(m.mapped_map@[k].1),
                ) && valid_class(m.mapped_map@[k].1),
            aliases.len() == j,
            forall|k: int|
                0 <= k < j ==> (#[trigger] aliases@[k]).deep_view() == m.intermediary_map@[k],
        decreases m.intermediary_map@.len() - j,
    {
        aliases.push(
            (m.intermediary_map.key_at(j).clone(), m.intermediary_map.value_at(j).clone()),
        );
        j += 1;
    }
    assert forall|k: int| 0 <= k < m@.mapped_map.len() implies valid_class(
        (#[trigger] m@.mapped_map[k]).1,
    ) by {
        assert(classes@[k].deep_view().0 == m.mapped_map@[k].0);
    }
    let r = (classes, aliases);
    assert(r.deep_view().0 =~= record_of_mappings(m@).0);
    assert(r.deep_view().1 =~= record_of_mappings(m@).1);
    r
}

/// The index that plain values stand for.
pub fn mappings_from(r: MappingsRecord) -> (m: Mappings)
    ensures
        m@ == mappings_of(r.deep_view()),
{
    let ghost given = r.deep_view();
    let (classes, aliases) = r;
    let mut m = Mappings::new();
    let ghost held_classes = classes@;
    for entry in it: classes
        invariant
            it.seq() == held_classes,
            given.0 == Seq::new(held_classes.len(), |i: int| held_classes[i].deep_view()),
            m@.intermediary_map == Seq::<(Seq<char>, Seq<char>)>::empty(),
            m@.mapped_map == stored(classes_of(given.0), it.index() as nat),
    {
        let (key, record) = entry;
        m.mapped_map.insert(key, class_from(record));
    }
    let ghost held_aliases = aliases@;
    for entry in it: aliases
        invariant
            it.seq() == held_aliases,
            given.1 == Seq::new(held_aliases.len(), |i: int| held_aliases[i].deep_view()),
            m@.mapped_map == stored(classes_of(given.0), given.0.len()),
            m@.intermediary_map == stored(given.1, it.index() as nat),
    {
        let (key, target) = entry;
        m.intermediary_map.insert(key, target);
    }
    m
}

/// The index that the bytes of a cache stand for: the one that the decoded
/// plain values stand for, where the bytes decode and every intermediary
/// name of that index leads to a class.
pub open spec fn cache_mappings(bytes: Seq<u8>) -> Option<MappingsView> {
    match cache_record(bytes) {
        Some(record) => if aliases_resolve(mappings_of(record)) {
            Some(mappings_of(record))
        } else {
            None
        },
        None => None,
    }
}

/// The bytes of the cache that holds the index.
pub fn encode_mappings(mappings: &Mappings) -> (bytes: Vec<u8>)
    ensures
        bytes@ == cache_bytes(record_of_mappings(mappings@)),
        valid_index(mappings@),
{
    let record = mappings_record(mappings);
    encode_record(&record)
}

/// The index that a cache holds. `None` where the bytes do not decode, or
/// decode to an index in which an intermediary name leads nowhere.
pub fn decode_mappings(bytes: &Vec<u8>) -> (r: Option<Mappings>)
    ensures
        match r {
            Some(m) => cache_mappings(bytes@) == Some(m@) && aliases_resolve(m@) && valid_index(
                m@,
            ),
            None => cache_mappings(bytes@).is_none(),
        },
{
    match decode_record(bytes) {
        Ok(record) => {
            proof {
                lemma_mappings_of_is_valid(record.deep_view());
            }
            let m = mappings_from(record);
            if m.is_consistent() {
                Some(m)
            } else {
                None
            }
        },
        Err(_) => None,
    }
}

/// The law of the cache. Take an index without a name that occurs twice, in
/// which every intermediary name leads to a class, and bytes that decode to
/// the plain values they were encoded from. Then the index that the cache
/// holds is the index that was put in it.
pub proof fn lemma_cache_round_trip(m: MappingsView)
    requires
        valid_index(m),
        aliases_resolve(m),
        cache_record(cache_bytes(record_of_mappings(m))) == Some(record_of_mappings(m)),
    ensures
        cache_mappings(cache_bytes(record_of_mappings(m))) == Some(m),
{
    lemma_record_round_trip(m);
}

/// The index to work with, and the bytes of a fresh cache where one is to be
/// written. An index that a cache held is used as it is and the corpus is
/// not read. Without one, the corpus is read and resolved, and a fresh cache
/// of the result is handed back; if its bytes decode to what they were
/// encoded from, that cache holds the very index that was read.
pub fn load_mappings(cached: Option<Mappings>, files: &Vec<String>) -> (r: Result<
    (Mappings, Option<Vec<u8>>),
    CorpusSyntaxError,
>)
    ensures
        match r {
            Ok((m, written)) => match written {
                None => cached matches Some(held) && m@ == held@,
                Some(fresh) => cached.is_none() && corpus_mappings(
                    files@.map_values(|f: String| f@),
                ) == Ok::<MappingsView, Seq<char>>(m@) && aliases_resolve(m@) && valid_index(m@)
                    && fresh@ == cache_bytes(record_of_mappings(m@)) && (cache_record(fresh@)
                    == Some(record_of_mappings(m@)) ==> cache_mappings(fresh@) == Some(m@)),
            },
            Err(e) => cached.is_none() && corpus_mappings(files@.map_values(|f: String| f@))
                == Err::<MappingsView, Seq<char>>(e@),
        },
{
    match cached {
        Some(held) => Ok((held, None)),
        None => match try_parse_mappings(files) {
            Ok(m) => {
                let fresh = encode_mappings(&m);
                proof {
                    lemma_record_round_trip(m@);
                }
                Ok((m, Some(fresh)))
            },
            Err(e) => Err(e),
        },
    }
}

} // verus!
