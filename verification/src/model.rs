use crate::ident::{camel_case, to_rust_convention};
use crate::table::{lookup, with_entry, NameTable};
use crate::text::lowercase_of;
use vstd::prelude::*;
use vstd::string::*;

verus! {

/// One bit of a modifier set.
#[derive(Clone, Copy, Debug)]
pub enum Modifier {
    NoModifier,
    Static,
    Nullable,
}

impl Modifier {
    /// The bit that stands for the modifier in a modifier set.
    pub open spec fn mask(self) -> u8 {
        match self {
            Modifier::NoModifier => 0u8,
            Modifier::Static => 1u8,
            Modifier::Nullable => 2u8,
        }
    }

    /// Whether a modifier set holds the modifier.
    pub open spec fn in_set(self, modifiers: u8) -> bool {
        self.mask() & modifiers != 0
    }

    /// The bit that stands for the modifier in a modifier set.
    pub fn bits(&self) -> (b: u8)
        ensures
            b == self.mask(),
    {
        match self {
            Modifier::NoModifier => 0u8,
            Modifier::Static => 1u8,
            Modifier::Nullable => 2u8,
        }
    }

    /// Whether the modifier set `modifiers` holds the modifier.
    pub fn is_set(&self, modifiers: u8) -> (r: bool)
        ensures
            r == self.in_set(modifiers),
    {
        (self.bits() & modifiers) != 0
    }
}

impl core::ops::BitAnd<u8> for Modifier {
    type Output = bool;

    /// Whether the modifier set `rhs` holds the modifier.
    fn bitand(self, rhs: u8) -> (r: bool) {
        (self.bits() & rhs) != 0
    }
}

impl vstd::std_specs::ops::BitAndSpecImpl<u8> for Modifier {
    open spec fn obeys_bitand_spec() -> bool {
        true
    }

    open spec fn bitand_req(self, rhs: u8) -> bool {
        true
    }

    open spec fn bitand_spec(self, rhs: u8) -> bool {
        self.in_set(rhs)
    }
}

impl core::ops::BitAnd<Modifier> for u8 {
    type Output = bool;

    /// Whether the modifier set holds the modifier `rhs`.
    fn bitand(self, rhs: Modifier) -> (r: bool) {
        (rhs.bits() & self) != 0
    }
}

impl vstd::std_specs::ops::BitAndSpecImpl<Modifier> for u8 {
    open spec fn obeys_bitand_spec() -> bool {
        true
    }

    open spec fn bitand_req(self, rhs: Modifier) -> bool {
        true
    }

    open spec fn bitand_spec(self, rhs: Modifier) -> bool {
        rhs.in_set(self)
    }
}

/// An argument of a method.
#[derive(Clone, Debug)]
pub struct Arg {
    pub position: u16,
    pub name: String,
    pub comment: String,
    pub modifiers: u8,
}

/// The mathematical value of an [`Arg`].
pub struct ArgView {
    pub position: u16,
    pub name: Seq<char>,
    pub comment: Seq<char>,
    pub modifiers: u8,
}

impl View for Arg {
    type V = ArgView;

    open spec fn view(&self) -> ArgView {
        ArgView {
            position: self.position,
            name: self.name@,
            comment: self.comment@,
            modifiers: self.modifiers,
        }
    }
}

/// A field of a class, under both of its names and with both forms of its
/// descriptor.
#[derive(Clone, Debug)]
pub struct Field {
    pub intermediary_name: String,
    pub mapped_name: String,
    pub field_type: String,
    pub mapped_field_type: String,
    pub comments: String,
    pub modifiers: u8,
}

/// The mathematical value of a [`Field`].
pub struct FieldView {
    pub intermediary_name: Seq<char>,
    pub mapped_name: Seq<char>,
    pub field_type: Seq<char>,
    pub mapped_field_type: Seq<char>,
    pub comments: Seq<char>,
    pub modifiers: u8,
}

impl View for Field {
    type V = FieldView;

    open spec fn view(&self) -> FieldView {
        FieldView {
            intermediary_name: self.intermediary_name@,
            mapped_name: self.mapped_name@,
            field_type: self.field_type@,
            mapped_field_type: self.mapped_field_type@,
            comments: self.comments@,
            modifiers: self.modifiers,
        }
    }
}

/// A method of a class, under both of its names and with both forms of its
/// signature.
#[derive(Clone, Debug)]
pub struct Method {
    pub intermediary_name: String,
    pub mapped_name: String,
    pub signature: String,
    pub mapped_signature: String,
    pub comments: String,
    pub args: Vec<Arg>,
    pub modifiers: u8,
}

/// The mathematical value of a [`Method`].
pub struct MethodView {
    pub intermediary_name: Seq<char>,
    pub mapped_name: Seq<char>,
    pub signature: Seq<char>,
    pub mapped_signature: Seq<char>,
    pub comments: Seq<char>,
    pub args: Seq<ArgView>,
    pub modifiers: u8,
}

impl View for Method {
    type V = MethodView;

    open spec fn view(&self) -> MethodView {
        MethodView {
            intermediary_name: self.intermediary_name@,
            mapped_name: self.mapped_name@,
            signature: self.signature@,
            mapped_signature: self.mapped_signature@,
            comments: self.comments@,
            args: self.args@.map_values(|a: Arg| a@),
            modifiers: self.modifiers,
        }
    }
}

/// What a bare method name stands for in a class: the key of the one method
/// of that name, or nothing that can be told without a signature.
#[derive(Clone, Debug)]
pub enum BareMethod {
    Resolved(String),
    Ambiguous,
}

/// The mathematical value of a [`BareMethod`].
pub enum BareMethodView {
    Resolved(Seq<char>),
    Ambiguous,
}

impl View for BareMethod {
    type V = BareMethodView;

    open spec fn view(&self) -> BareMethodView {
        match self {
            BareMethod::Resolved(key) => BareMethodView::Resolved(key@),
            BareMethod::Ambiguous => BareMethodView::Ambiguous,
        }
    }
}

/// A class under both of its names, with its fields by field key, its methods
/// by `name#signature`, and what each bare method name stands for.
#[derive(Clone, Debug)]
pub struct Class {
    pub intermediary_name: String,
    pub mapped_name: String,
    pub comments: String,
    pub fields: NameTable<Field>,
    pub methods_nosig: NameTable<BareMethod>,
    pub methods: NameTable<Method>,
}

/// The mathematical value of a [`Class`].
pub struct ClassView {
    pub intermediary_name: Seq<char>,
    pub mapped_name: Seq<char>,
    pub comments: Seq<char>,
    pub fields: Seq<(Seq<char>, FieldView)>,
    pub methods_nosig: Seq<(Seq<char>, BareMethodView)>,
    pub methods: Seq<(Seq<char>, MethodView)>,
}

impl View for Class {
    type V = ClassView;

    open spec fn view(&self) -> ClassView {
        ClassView {
            intermediary_name: self.intermediary_name@,
            mapped_name: self.mapped_name@,
            comments: self.comments@,
            fields: self.fields@,
            methods_nosig: self.methods_nosig@,
            methods: self.methods@,
        }
    }
}

/// The key under which a class holds a method: its mapped name, `#`, and its
/// signature.
pub open spec fn method_key(name: Seq<char>, signature: Seq<char>) -> Seq<char> {
    name + seq!['#'] + signature
}

/// The key under which a class holds a field: the type-style form of its
/// mapped name.
pub open spec fn field_key(mapped_name: Seq<char>) -> Seq<char> {
    camel_case(lowercase_of(mapped_name), true)
}

/// The class after a method was added to it. A bare name that comes for the
/// first time stands for the method's key; one that was there already stands
/// for nothing any more.
pub open spec fn with_method(c: ClassView, m: MethodView) -> ClassView {
    let key = method_key(m.mapped_name, m.signature);
    let bare = if lookup(c.methods_nosig, m.mapped_name).is_some() {
        BareMethodView::Ambiguous
    } else {
        BareMethodView::Resolved(key)
    };
    ClassView {
        methods_nosig: with_entry(c.methods_nosig, m.mapped_name, bare),
        methods: with_entry(c.methods, key, m),
        ..c
    }
}

/// The class after a field was added to it.
pub open spec fn with_field(c: ClassView, f: FieldView) -> ClassView {
    ClassView { fields: with_entry(c.fields, field_key(f.mapped_name), f), ..c }
}

/// The method that `name` stands for in the class: the method stored under
/// `name` where `name` is a key, else the method that the bare name `name`
/// resolves to. A bare name that several methods share stands for none.
pub open spec fn find_method(c: ClassView, name: Seq<char>) -> Option<MethodView> {
    match lookup(c.methods, name) {
        Some(m) => Some(m),
        None => match lookup(c.methods_nosig, name) {
            Some(BareMethodView::Resolved(key)) => lookup(c.methods, key),
            _ => None,
        },
    }
}

impl Field {
    /// The field's name as the runtime bridge knows it: the mapped name under
    /// the development resolution mode, the intermediary name otherwise.
    pub fn get_java_name(&self, dev: bool) -> (name: &str)
        ensures
            name@ == (if dev {
                self.mapped_name@
            } else {
                self.intermediary_name@
            }),
    {
        if dev {
            self.mapped_name.as_str()
        } else {
            self.intermediary_name.as_str()
        }
    }

    /// The field's descriptor as the runtime bridge knows it: the resolved
    /// form under the development resolution mode, the raw form otherwise.
    pub fn get_java_type(&self, dev: bool) -> (descriptor: &str)
        ensures
            descriptor@ == (if dev {
                self.mapped_field_type@
            } else {
                self.field_type@
            }),
    {
        if dev {
            self.mapped_field_type.as_str()
        } else {
            self.field_type.as_str()
        }
    }
}

impl Method {
    /// The method's name as the runtime bridge knows it: the mapped name
    /// under the development resolution mode, the intermediary name otherwise.
    pub fn get_java_name(&self, dev: bool) -> (name: &str)
        ensures
            name@ == (if dev {
                self.mapped_name@
            } else {
                self.intermediary_name@
            }),
    {
        if dev {
            self.mapped_name.as_str()
        } else {
            self.intermediary_name.as_str()
        }
    }

    /// The method's signature as the runtime bridge knows it: the resolved
    /// form under the development resolution mode, the raw form otherwise.
    pub fn get_java_sig(&self, dev: bool) -> (signature: &str)
        ensures
            signature@ == (if dev {
                self.mapped_signature@
            } else {
                self.signature@
            }),
    {
        if dev {
            self.mapped_signature.as_str()
        } else {
            self.signature.as_str()
        }
    }
}

impl Class {
    /// A class of the given names without comments and members.
    pub fn new(intermediary_name: String, mapped_name: String) -> (c: Class)
        ensures
            c@ == (ClassView {
                intermediary_name: intermediary_name@,
                mapped_name: mapped_name@,
                comments: Seq::empty(),
                fields: Seq::empty(),
                methods_nosig: Seq::empty(),
                methods: Seq::empty(),
            }),
    {
        Class {
            intermediary_name,
            mapped_name,
            comments: String::new(),
            fields: NameTable::new(),
            methods_nosig: NameTable::new(),
            methods: NameTable::new(),
        }
    }

    /// The class's name as the runtime bridge knows it: the mapped name under
    /// the development resolution mode, the intermediary name otherwise.
    pub fn get_java_name(&self, dev: bool) -> (name: &str)
        ensures
            name@ == (if dev {
                self.mapped_name@
            } else {
                self.intermediary_name@
            }),
    {
        if dev {
            self.mapped_name.as_str()
        } else {
            self.intermediary_name.as_str()
        }
    }

    /// The method that `method` stands for, be it a `name#signature` key or a
    /// bare name that one method alone has.
    pub fn get_method(&self, method: &str) -> (r: Option<&Method>)
        ensures
            match r {
                Some(m) => find_method(self@, method@) == Some(m@),
                None => find_method(self@, method@).is_none(),
            },
    {
        match self.methods.get(method) {
            Some(m) => Some(m),
            None => match self.methods_nosig.get(method) {
                Some(BareMethod::Resolved(key)) => self.methods.get(key.as_str()),
                _ => None,
            },
        }
    }

    /// Adds a method under its key and records what its bare name now stands
    /// for.
    pub fn add_method(&mut self, method: Method)
        ensures
            final(self)@ == with_method(old(self)@, method@),
    {
        let mut key = method.mapped_name.clone();
        key.append("#");
        key.append(method.signature.as_str());
        proof {
            reveal_strlit("#");
            assert("#"@ =~= seq!['#']);
        }
        let bare = if self.methods_nosig.contains_key(method.mapped_name.as_str()) {
            BareMethod::Ambiguous
        } else {
            BareMethod::Resolved(key.clone())
        };
        self.methods_nosig.insert(method.mapped_name.clone(), bare);
        self.methods.insert(key, method);
    }

    /// Adds a field under its field key.
    pub fn add_field(&mut self, field: Field)
        ensures
            final(self)@ == with_field(old(self)@, field@),
    {
        let key = to_rust_convention(field.mapped_name.as_str());
        self.fields.insert(key, field);
    }
}

/// The class `base` after the first `n` of the methods were added to it,
/// in their order.
pub open spec fn with_methods(base: ClassView, methods: Seq<MethodView>, n: nat) -> ClassView
    decreases n,
{
    if n == 0 {
        base
    } else {
        with_method(with_methods(base, methods, (n - 1) as nat), methods[n - 1])
    }
}

/// How many of the first `n` methods have the mapped name `name`.
pub open spec fn count_named(methods: Seq<MethodView>, name: Seq<char>, n: nat) -> nat
    decreases n,
{
    if n == 0 {
        0
    } else {
        count_named(methods, name, (n - 1) as nat) + if methods[n - 1].mapped_name == name {
            1nat
        } else {
            0nat
        }
    }
}

/// The place of the last of the first `n` methods that has the mapped name
/// `name`, or -1.
pub open spec fn last_named(methods: Seq<MethodView>, name: Seq<char>, n: nat) -> int
    decreases n,
{
    if n == 0 {
        -1
    } else if methods[n - 1].mapped_name == name {
        n - 1
    } else {
        last_named(methods, name, (n - 1) as nat)
    }
}

/// Two keys made of names without `#` are equal only where the names are.
pub proof fn lemma_key_names(
    name_a: Seq<char>,
    signature_a: Seq<char>,
    name_b: Seq<char>,
    signature_b: Seq<char>,
)
    requires
        !name_a.contains('#'),
        !name_b.contains('#'),
        method_key(name_a, signature_a) == method_key(name_b, signature_b),
    ensures
        name_a == name_b,
{
    let key_a = method_key(name_a, signature_a);
    let key_b = method_key(name_b, signature_b);
    if name_a.len() < name_b.len() {
        assert(key_a[name_a.len() as int] == '#');
        assert(key_b[name_a.len() as int] == name_b[name_a.len() as int]);
        assert(name_b.contains('#'));
    } else if name_b.len() < name_a.len() {
        assert(key_b[name_b.len() as int] == '#');
        assert(key_a[name_b.len() as int] == name_a[name_b.len() as int]);
        assert(name_a.contains('#'));
    } else {
        assert forall|i: int| 0 <= i < name_a.len() implies name_a[i] == name_b[i] by {
            assert(key_a[i] == name_a[i]);
            assert(key_b[i] == name_b[i]);
        }
        assert(name_a =~= name_b);
    }
}

/// What holds of a class made of methods whose names hold no `#`, after the
/// first `n` of them: every key holds a `#`; a bare name that no method has
/// stands for nothing; one that a single method has stands for that
/// method's key, under which the method is stored; one that several have is
/// ambiguous.
pub open spec fn bare_names_kept(
    base: ClassView,
    methods: Seq<MethodView>,
    name: Seq<char>,
    n: nat,
) -> bool {
    let c = with_methods(base, methods, n);
    let count = count_named(methods, name, n);
    let last = last_named(methods, name, n);
    &&& forall|j: int| 0 <= j < c.methods.len() ==> (#[trigger] c.methods[j]).0.contains('#')
    &&& count == 0 ==> lookup(c.methods_nosig, name).is_none()
    &&& count == 1 ==> 0 <= last < n && methods[last].mapped_name == name && lookup(
        c.methods_nosig,
        name,
    ) == Some(
        BareMethodView::Resolved(method_key(methods[last].mapped_name, methods[last].signature)),
    ) && lookup(c.methods, method_key(methods[last].mapped_name, methods[last].signature))
        == Some(methods[last])
    &&& count >= 2 ==> lookup(c.methods_nosig, name) == Some(BareMethodView::Ambiguous)
}

/// [`bare_names_kept`] holds after any number of methods.
pub proof fn lemma_bare_names_kept(
    base: ClassView,
    methods: Seq<MethodView>,
    name: Seq<char>,
    n: nat,
)
    requires
        base.methods.len() == 0,
        base.methods_nosig.len() == 0,
        n <= methods.len(),
        forall|i: int| 0 <= i < methods.len() ==> !(#[trigger] methods[i]).mapped_name.contains('#'),
    ensures
        bare_names_kept(base, methods, name, n),
    decreases n,
{
    if n == 0 {
    } else {
        let k = (n - 1) as nat;
        lemma_bare_names_kept(base, methods, name, k);
        let before = with_methods(base, methods, k);
        let m = methods[k as int];
        let key = method_key(m.mapped_name, m.signature);
        let after = with_methods(base, methods, n);
        let bare = if lookup(before.methods_nosig, m.mapped_name).is_some() {
            BareMethodView::Ambiguous
        } else {
            BareMethodView::Resolved(key)
        };
        crate::table::lemma_with_entry(before.methods_nosig, m.mapped_name, bare);
        crate::table::lemma_with_entry(before.methods, key, m);
        crate::table::lemma_position_of(before.methods, key);
        assert(key[m.mapped_name.len() as int] == '#');
        assert(key.contains('#'));
        assert forall|j: int| 0 <= j < after.methods.len() implies (#[trigger] after.methods[j]).0.contains(
            '#',
        ) by {
            match crate::table::position_of(before.methods, key) {
                Some(i) => {
                    if j != i {
                        assert(after.methods[j] == before.methods[j]);
                    }
                },
                None => {
                    if j < before.methods.len() {
                        assert(after.methods[j] == before.methods[j]);
                    }
                },
            }
        }
        let count = count_named(methods, name, k);
        let last = last_named(methods, name, k);
        if m.mapped_name != name {
            if count == 1 {
                let kept = methods[last];
                let kept_key = method_key(kept.mapped_name, kept.signature);
                if kept_key == key {
                    lemma_key_names(kept.mapped_name, kept.signature, m.mapped_name, m.signature);
                }
            }
        }
    }
}

/// The law of overloads. Take a class that starts without methods and gets
/// methods added one by one, none with a `#` in its name. Then a bare name
/// without `#` that two or more of the methods share stands for no method,
/// and a bare name that exactly one of them has stands for that method.
pub proof fn lemma_overload_sentinel(base: ClassView, methods: Seq<MethodView>, name: Seq<char>)
    requires
        base.methods.len() == 0,
        base.methods_nosig.len() == 0,
        !name.contains('#'),
        forall|i: int| 0 <= i < methods.len() ==> !(#[trigger] methods[i]).mapped_name.contains('#'),
    ensures
        count_named(methods, name, methods.len()) >= 2 ==> find_method(
            with_methods(base, methods, methods.len()),
            name,
        ).is_none(),
        count_named(methods, name, methods.len()) == 1 ==> find_method(
            with_methods(base, methods, methods.len()),
            name,
        ) == Some(methods[last_named(methods, name, methods.len())]),
{
    lemma_bare_names_kept(base, methods, name, methods.len());
    let c = with_methods(base, methods, methods.len());
    crate::table::lemma_position_of(c.methods, name);
    match crate::table::position_of(c.methods, name) {
        Some(i) => {
            assert(c.methods[i].0.contains('#'));
            assert(false);
        },
        None => {},
    }
}

} // verus!
