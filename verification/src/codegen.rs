use crate::emit::{
    class_ident, constructor_path, constructor_text, contains, contains_text, find_separator,
    find_separator_from, last_segment, last_segment_of, mangle, mangled, package_ident,
    push_quoted, quoted, type_text,
};
use crate::ident::{
    field_case, guarded, java_to_rust_class, java_to_rust_field, java_to_rust_method,
    java_to_rust_package, needs_guard, normalize, snake_case,
};
use crate::index::{Mappings, MappingsView};
use crate::resolve::{corpus_mappings, try_parse_mappings};
use crate::model::{
    BareMethod, BareMethodView, Class, ClassView, Field, FieldView, Method, MethodView, Modifier,
};
use crate::sig::{
    jni_letter, parse_descriptor, parse_signature, parse_type_at, try_parse_java_signature,
    SigType, SigTypeView,
};
use crate::table::{lemma_position_is, lemma_position_of, lookup, position_of, with_entry, NameTable};
use crate::text::{chars_of, push_char, same_text, string_of};
use vstd::prelude::*;
use vstd::string::*;

verus! {

/// The namespaces for whose classes no accessor is emitted: a member whose
/// type names a class with one of these texts in its name is left out. The
/// one set of thirteen holds for the return type of a method and for the
/// type of a field alike.
pub open spec fn foreign_namespaces() -> Seq<Seq<char>> {
    seq![
        "com/mojang"@,
        "java/"@,
        "org/"@,
        "javax/"@,
        "google/"@,
        "it/"@,
        "io/"@,
        "jcraft/"@,
        "ibm/"@,
        "microsoft/"@,
        "sun/"@,
        "jdk/"@,
        "oshi/"@,
    ]
}

/// What generation depends on besides the index: the resolution mode, and
/// the namespaces that count as foreign.
#[derive(Clone, Debug)]
pub struct GenConfig {
    pub dev: bool,
    pub foreign: Vec<String>,
}

/// The mathematical value of a [`GenConfig`].
pub struct GenConfigView {
    pub dev: bool,
    pub foreign: Seq<Seq<char>>,
}

impl View for GenConfig {
    type V = GenConfigView;

    open spec fn view(&self) -> GenConfigView {
        GenConfigView { dev: self.dev, foreign: self.foreign@.map_values(|s: String| s@) }
    }
}

impl GenConfig {
    /// The configuration with the given resolution mode and the standard
    /// foreign namespaces, the same thirteen for methods and for fields.
    pub fn standard(dev: bool) -> (c: GenConfig)
        ensures
            c@ == (GenConfigView { dev, foreign: foreign_namespaces() }),
    {
        let mut foreign: Vec<String> = Vec::new();
        foreign.push(String::from_str("com/mojang"));
        foreign.push(String::from_str("java/"));
        foreign.push(String::from_str("org/"));
        foreign.push(String::from_str("javax/"));
        foreign.push(String::from_str("google/"));
        foreign.push(String::from_str("it/"));
        foreign.push(String::from_str("io/"));
        foreign.push(String::from_str("jcraft/"));
        foreign.push(String::from_str("ibm/"));
        foreign.push(String::from_str("microsoft/"));
        foreign.push(String::from_str("sun/"));
        foreign.push(String::from_str("jdk/"));
        foreign.push(String::from_str("oshi/"));
        let c = GenConfig { dev, foreign };
        assert(c@.foreign =~= foreign_namespaces());
        c
    }
}

/// A descriptor of the index that spells no type or signature.
#[derive(Debug)]
pub struct DescriptorError {
    pub descriptor: String,
}

impl View for DescriptorError {
    type V = Seq<char>;

    open spec fn view(&self) -> Seq<char> {
        self.descriptor@
    }
}

/// The capability of the runtime bridge through which an operation goes.
#[derive(Clone, Copy, Debug, PartialEq, Eq)]
pub enum Dispatch {
    CallStatic,
    CallInstance,
    GetStatic,
    GetInstance,
}

/// One operation of an accessor type: the member it reaches and how.
#[derive(Debug)]
pub struct Operation {
    pub name: String,
    pub dispatch: Dispatch,
    pub class_name: String,
    pub java_name: String,
    pub descriptor: String,
    pub result: SigType,
}

/// The mathematical value of an [`Operation`].
pub struct OperationView {
    pub name: Seq<char>,
    pub dispatch: Dispatch,
    pub class_name: Seq<char>,
    pub java_name: Seq<char>,
    pub descriptor: Seq<char>,
    pub result: SigTypeView,
}

impl View for Operation {
    type V = OperationView;

    open spec fn view(&self) -> OperationView {
        OperationView {
            name: self.name@,
            dispatch: self.dispatch,
            class_name: self.class_name@,
            java_name: self.java_name@,
            descriptor: self.descriptor@,
            result: self.result@,
        }
    }
}

/// Whether the name of a class has the text of a foreign namespace in it.
pub open spec fn is_foreign(foreign: Seq<Seq<char>>, name: Seq<char>) -> bool {
    exists|k: int| 0 <= k < foreign.len() && contains_text(name, #[trigger] foreign[k])
}

/// Whether a member of this type is left out: one of an array type, or of
/// the type of a foreign class.
pub open spec fn excluded_type(foreign: Seq<Seq<char>>, t: SigTypeView) -> bool {
    match t {
        SigTypeView::Array(_) => true,
        SigTypeView::Object(name) => is_foreign(foreign, name),
        _ => false,
    }
}

/// Whether several methods of the class share the bare name.
pub open spec fn is_overloaded(c: ClassView, name: Seq<char>) -> bool {
    lookup(c.methods_nosig, name) == Some(BareMethodView::Ambiguous)
}

/// The identifier of the operation that stands for a method of the class:
/// the snake-case form of its name behind the guard, and for a method whose
/// bare name several methods of the class share, its mapped signature behind
/// that, by which the overloads are told apart.
pub open spec fn method_ident(m: MethodView, c: ClassView) -> Seq<char> {
    if is_overloaded(c, m.mapped_name) {
        guarded(snake_case(m.mapped_name), "method_"@) + mangled(
            m.mapped_signature,
            m.mapped_signature.len(),
        )
    } else {
        guarded(snake_case(m.mapped_name), "method_"@)
    }
}

/// The operation that stands for a method of the class, if it has one: none
/// for a method of an excluded return type, for a constructor and for a
/// lambda body; every other method has one, an overloaded one too. A mapped
/// signature that spells no signature is an error.
pub open spec fn method_operation(
    cfg: GenConfigView,
    m: MethodView,
    c: ClassView,
    class_name: Seq<char>,
) -> Result<Option<OperationView>, Seq<char>> {
    match parse_signature(m.mapped_signature) {
        Some(signature) => if excluded_type(cfg.foreign, signature.ret) || m.mapped_name
            == "<init>"@ || contains_text(m.mapped_name, "lambda$"@) {
            Ok(None)
        } else {
            Ok(
                Some(
                    OperationView {
                        name: method_ident(m, c),
                        dispatch: if Modifier::Static.in_set(m.modifiers) {
                            Dispatch::CallStatic
                        } else {
                            Dispatch::CallInstance
                        },
                        class_name,
                        java_name: if cfg.dev {
                            m.mapped_name
                        } else {
                            m.intermediary_name
                        },
                        descriptor: if cfg.dev {
                            m.mapped_signature
                        } else {
                            m.signature
                        },
                        result: signature.ret,
                    },
                ),
            )
        },
        None => Err(m.mapped_signature),
    }
}

/// The identifier of the operation that stands for a field of the class. A
/// name that starts with an ASCII capital is kept, any other is put in field
/// case; where the class has a method of the field's name, or the identifier
/// needs the guard, `_FIELD` is put behind a kept name and `_field` behind
/// any other.
pub open spec fn field_ident(f: FieldView, c: ClassView) -> Seq<char> {
    if f.mapped_name.len() > 0 && 'A' <= f.mapped_name[0] && f.mapped_name[0] <= 'Z' {
        if lookup(c.methods_nosig, f.mapped_name).is_some() || needs_guard(f.mapped_name) {
            f.mapped_name + "_FIELD"@
        } else {
            f.mapped_name
        }
    } else {
        if lookup(c.methods_nosig, f.mapped_name).is_some() || needs_guard(
            field_case(f.mapped_name),
        ) {
            field_case(f.mapped_name) + "_field"@
        } else {
            field_case(f.mapped_name)
        }
    }
}

/// The operation that stands for a field, if it has one: none for a field of
/// an excluded type. A resolved descriptor that spells no type is an error.
pub open spec fn field_operation(
    cfg: GenConfigView,
    f: FieldView,
    c: ClassView,
    class_name: Seq<char>,
) -> Result<Option<OperationView>, Seq<char>> {
    match parse_type_at(f.mapped_field_type, 0) {
        Some((t, _)) => if excluded_type(cfg.foreign, t) {
            Ok(None)
        } else {
            Ok(
                Some(
                    OperationView {
                        name: field_ident(f, c),
                        dispatch: if Modifier::Static.in_set(f.modifiers) {
                            Dispatch::GetStatic
                        } else {
                            Dispatch::GetInstance
                        },
                        class_name,
                        java_name: if cfg.dev {
                            f.mapped_name
                        } else {
                            f.intermediary_name
                        },
                        descriptor: if cfg.dev {
                            f.mapped_field_type
                        } else {
                            f.field_type
                        },
                        result: t,
                    },
                ),
            )
        },
        None => Err(f.mapped_field_type),
    }
}

/// Whether the operation goes to the class and not to an object.
pub open spec fn on_class(d: Dispatch) -> bool {
    d == Dispatch::CallStatic || d == Dispatch::GetStatic
}

/// Whether the operation calls a method.
pub open spec fn is_call(d: Dispatch) -> bool {
    d == Dispatch::CallStatic || d == Dispatch::CallInstance
}

/// What an operation takes: the runtime bridge, or the accessor itself.
pub open spec fn receiver_text(d: Dispatch) -> Seq<char> {
    if on_class(d) {
        "api: &'a mut crate::api::ModApi<'a>"@
    } else {
        "&'a self"@
    }
}

/// The capability of the runtime bridge by its name.
pub open spec fn bridge_text(d: Dispatch) -> Seq<char> {
    match d {
        Dispatch::CallStatic => "call_static_method"@,
        Dispatch::CallInstance => "call_method_class"@,
        Dispatch::GetStatic => "get_static_field"@,
        Dispatch::GetInstance => "get_field_class"@,
    }
}

/// What the bridge is asked for the member on: the class that was looked up,
/// or the class by name and the object held.
pub open spec fn subject_text(op: OperationView) -> Seq<char> {
    if on_class(op.dispatch) {
        "&class"@
    } else {
        "Some("@ + quoted(op.class_name) + "), Some(&self.inner)"@
    }
}

/// The statements before the bridge is asked.
pub open spec fn prelude_text(op: OperationView) -> Seq<char> {
    if on_class(op.dispatch) {
        "let class = api.get_class("@ + quoted(op.class_name) + ");\n"@
    } else {
        "let api = &self.api;\n"@
    }
}

/// What an operation hands back: the value itself, or for an object the
/// accessor made of it.
pub open spec fn result_text(t: SigTypeView) -> Seq<char> {
    match t {
        SigTypeView::Object(name) => constructor_text(name) + "::new(api.clone(), value)\n"@,
        _ => "value\n"@,
    }
}

/// The emitted text of an operation.
pub open spec fn operation_text(op: OperationView) -> Seq<char> {
    "pub fn "@ + op.name + "("@ + receiver_text(op.dispatch) + ") -> "@ + type_text(op.result)
        + " {\n"@ + prelude_text(op) + "let value = api."@ + bridge_text(op.dispatch) + "("@
        + subject_text(op) + ", ("@ + quoted(op.java_name) + ", "@ + quoted(op.descriptor) + ")"@
        + (if is_call(op.dispatch) {
        ", &[]"@
    } else {
        Seq::<char>::empty()
    }) + ")."@ + seq![jni_letter(op.result)] + "().unwrap();\n"@ + result_text(op.result) + "}\n"@
}

/// The emitted text of what may be an operation.
pub open spec fn member_text(planned: Result<Option<OperationView>, Seq<char>>) -> Result<
    Seq<char>,
    Seq<char>,
> {
    match planned {
        Ok(Some(op)) => Ok(operation_text(op)),
        Ok(None) => Ok(Seq::empty()),
        Err(descriptor) => Err(descriptor),
    }
}

/// Whether a text of the list occurs in the name.
pub fn is_foreign_name(foreign: &Vec<String>, name: &str) -> (r: bool)
    ensures
        r == is_foreign(foreign@.map_values(|s: String| s@), name@),
{
    let letters = chars_of(name);
    let ghost list = foreign@.map_values(|s: String| s@);
    let mut k: usize = 0;
    while k < foreign.len()
        invariant
            k <= foreign.len(),
            letters@ == name@,
            list == foreign@.map_values(|s: String| s@),
            forall|j: int| 0 <= j < k ==> !contains_text(name@, #[trigger] list[j]),
        decreases foreign.len() - k,
    {
        let pattern = chars_of(foreign[k].as_str());
        if contains(&letters, &pattern) {
            assert(contains_text(name@, list[k as int]));
            return true;
        }
        k += 1;
    }
    false
}

/// Whether a member of this type is left out.
pub fn is_excluded_type(foreign: &Vec<String>, t: &SigType) -> (r: bool)
    ensures
        r == excluded_type(foreign@.map_values(|s: String| s@), t@),
{
    match t {
        SigType::Array(_) => true,
        SigType::Object(name) => is_foreign_name(foreign, name.as_str()),
        _ => false,
    }
}

impl Operation {
    /// The emitted text of the operation.
    pub fn render(&self) -> (r: String)
        ensures
            r@ == operation_text(self@),
    {
        let on_class = match self.dispatch {
            Dispatch::CallStatic => true,
            Dispatch::GetStatic => true,
            _ => false,
        };
        let is_call = match self.dispatch {
            Dispatch::CallStatic => true,
            Dispatch::CallInstance => true,
            _ => false,
        };
        let mut r = String::from_str("pub fn ");
        r.append(self.name.as_str());
        r.append("(");
        if on_class {
            r.append("api: &'a mut crate::api::ModApi<'a>");
        } else {
            r.append("&'a self");
        }
        r.append(") -> ");
        let result_type = self.result.to_tokens();
        r.append(result_type.as_str());
        r.append(" {\n");
        let mut prelude = String::new();
        if on_class {
            prelude.append("let class = api.get_class(");
            push_quoted(&mut prelude, self.class_name.as_str());
            prelude.append(");\n");
            assert(prelude@ =~= prelude_text(self@));
        } else {
            prelude.append("let api = &self.api;\n");
            assert(prelude@ =~= prelude_text(self@));
        }
        r.append(prelude.as_str());
        r.append("let value = api.");
        match self.dispatch {
            Dispatch::CallStatic => r.append("call_static_method"),
            Dispatch::CallInstance => r.append("call_method_class"),
            Dispatch::GetStatic => r.append("get_static_field"),
            Dispatch::GetInstance => r.append("get_field_class"),
        }
        r.append("(");
        let mut subject = String::new();
        if on_class {
            subject.append("&class");
            assert(subject@ =~= subject_text(self@));
        } else {
            subject.append("Some(");
            push_quoted(&mut subject, self.class_name.as_str());
            subject.append("), Some(&self.inner)");
            assert(subject@ =~= subject_text(self@));
        }
        r.append(subject.as_str());
        r.append(", (");
        push_quoted(&mut r, self.java_name.as_str());
        r.append(", ");
        push_quoted(&mut r, self.descriptor.as_str());
        r.append(")");
        if is_call {
            r.append(", &[]");
        } else {
            assert(r@ + Seq::<char>::empty() =~= r@);
        }
        r.append(").");
        let ghost before = r@;
        push_char(&mut r, self.result.jni_name());
        assert(r@ =~= before + seq![jni_letter(self.result@)]);
        r.append("().unwrap();\n");
        let mut handed = String::new();
        match &self.result {
            SigType::Object(name) => {
                let path = constructor_path(name.as_str());
                handed.append(path.as_str());
                handed.append("::new(api.clone(), value)\n");
                assert(handed@ =~= result_text(self.result@));
            },
            _ => {
                handed.append("value\n");
                assert(handed@ =~= result_text(self.result@));
            },
        }
        r.append(handed.as_str());
        r.append("}\n");
        r
    }
}

/// The emitted text of what may be an operation.
pub fn render_member(planned: Result<Option<Operation>, DescriptorError>) -> (r: Result<
    String,
    DescriptorError,
>)
    ensures
        match r {
            Ok(text) => match planned {
                Ok(Some(op)) => text@ == operation_text(op@),
                Ok(None) => text@ == Seq::<char>::empty(),
                Err(_) => false,
            },
            Err(e) => planned matches Err(d) && e@ == d@,
        },
{
    match planned {
        Ok(Some(op)) => Ok(op.render()),
        Ok(None) => Ok(String::new()),
        Err(e) => Err(e),
    }
}

impl Method {
    /// The identifier of the operation that stands for the method in the
    /// accessor of `class`.
    pub fn operation_name(&self, class: &Class) -> (r: String)
        ensures
            r@ == method_ident(self@, class@),
    {
        let overloaded = match class.methods_nosig.get(self.mapped_name.as_str()) {
            Some(BareMethod::Ambiguous) => true,
            _ => false,
        };
        let mut name = java_to_rust_method(self.mapped_name.as_str());
        if overloaded {
            let suffix = mangle(self.mapped_signature.as_str());
            name.append(suffix.as_str());
        }
        name
    }

    /// The operation that stands for the method in the accessor of `class`,
    /// which the runtime bridge knows as `class_name`, if it has one.
    pub fn operation(&self, class_name: &str, class: &Class, cfg: &GenConfig) -> (r: Result<
        Option<Operation>,
        DescriptorError,
    >)
        ensures
            match r {
                Ok(Some(op)) => method_operation(cfg@, self@, class@, class_name@) == Ok::<
                    Option<OperationView>,
                    Seq<char>,
                >(Some(op@)),
                Ok(None) => method_operation(cfg@, self@, class@, class_name@) == Ok::<
                    Option<OperationView>,
                    Seq<char>,
                >(None),
                Err(e) => method_operation(cfg@, self@, class@, class_name@) == Err::<
                    Option<OperationView>,
                    Seq<char>,
                >(e@),
            },
    {
        let signature = match try_parse_java_signature(self.mapped_signature.as_str()) {
            Some(signature) => signature,
            None => {
                return Err(DescriptorError { descriptor: self.mapped_signature.clone() });
            },
        };
        if is_excluded_type(&cfg.foreign, &signature.ret) {
            return Ok(None);
        }
        if same_text(self.mapped_name.as_str(), "<init>") {
            return Ok(None);
        }
        let name = chars_of(self.mapped_name.as_str());
        let lambda = chars_of("lambda$");
        if contains(&name, &lambda) {
            return Ok(None);
        }
        let dispatch = if Modifier::Static.is_set(self.modifiers) {
            Dispatch::CallStatic
        } else {
            Dispatch::CallInstance
        };
        Ok(
            Some(
                Operation {
                    name: self.operation_name(class),
                    dispatch,
                    class_name: String::from_str(class_name),
                    java_name: String::from_str(self.get_java_name(cfg.dev)),
                    descriptor: String::from_str(self.get_java_sig(cfg.dev)),
                    result: signature.ret,
                },
            ),
        )
    }

    /// The emitted text of the method's operation, or no text where the
    /// method has none.
    pub fn to_tokens(&self, class_name: &str, class: &Class, cfg: &GenConfig) -> (r: Result<
        String,
        DescriptorError,
    >)
        ensures
            match r {
                Ok(text) => member_text(method_operation(cfg@, self@, class@, class_name@))
                    == Ok::<Seq<char>, Seq<char>>(text@),
                Err(e) => member_text(method_operation(cfg@, self@, class@, class_name@))
                    == Err::<Seq<char>, Seq<char>>(e@),
            },
    {
        render_member(self.operation(class_name, class, cfg))
    }
}

impl Field {
    /// The identifier of the operation that stands for the field in the
    /// accessor of `class`.
    pub fn operation_name(&self, class: &Class) -> (r: String)
        ensures
            r@ == field_ident(self@, class@),
    {
        let taken = class.methods_nosig.contains_key(self.mapped_name.as_str());
        let capital = if self.mapped_name.as_str().is_empty() {
            false
        } else {
            let first = self.mapped_name.as_str().get_char(0);
            'A' <= first && first <= 'Z'
        };
        if capital {
            let mut name = self.mapped_name.clone();
            let collides = normalize(&mut name, "");
            proof {
                reveal_strlit("");
                assert(""@ + self.mapped_name@ =~= self.mapped_name@);
            }
            if taken || collides {
                name.append("_FIELD");
            }
            name
        } else {
            let mut name = java_to_rust_field(self.mapped_name.as_str());
            let ghost plain = name@;
            let collides = normalize(&mut name, "");
            proof {
                reveal_strlit("");
                assert(""@ + plain =~= plain);
            }
            if taken || collides {
                name.append("_field");
            }
            name
        }
    }

    /// The operation that stands for the field in the accessor of `class`,
    /// which the runtime bridge knows as `class_name`, if it has one.
    pub fn operation(&self, class_name: &str, class: &Class, cfg: &GenConfig) -> (r: Result<
        Option<Operation>,
        DescriptorError,
    >)
        ensures
            match r {
                Ok(Some(op)) => field_operation(cfg@, self@, class@, class_name@) == Ok::<
                    Option<OperationView>,
                    Seq<char>,
                >(Some(op@)),
                Ok(None) => field_operation(cfg@, self@, class@, class_name@) == Ok::<
                    Option<OperationView>,
                    Seq<char>,
                >(None),
                Err(e) => field_operation(cfg@, self@, class@, class_name@) == Err::<
                    Option<OperationView>,
                    Seq<char>,
                >(e@),
            },
    {
        let field_type = match parse_descriptor(self.mapped_field_type.as_str()) {
            Some(t) => t,
            None => {
                return Err(DescriptorError { descriptor: self.mapped_field_type.clone() });
            },
        };
        if is_excluded_type(&cfg.foreign, &field_type) {
            return Ok(None);
        }
        let dispatch = if Modifier::Static.is_set(self.modifiers) {
            Dispatch::GetStatic
        } else {
            Dispatch::GetInstance
        };
        Ok(
            Some(
                Operation {
                    name: self.operation_name(class),
                    dispatch,
                    class_name: String::from_str(class_name),
                    java_name: String::from_str(self.get_java_name(cfg.dev)),
                    descriptor: String::from_str(self.get_java_type(cfg.dev)),
                    result: field_type,
                },
            ),
        )
    }

    /// The emitted text of the field's operation, or no text where the field
    /// has none.
    pub fn to_tokens(&self, class_name: &str, class: &Class, cfg: &GenConfig) -> (r: Result<
        String,
        DescriptorError,
    >)
        ensures
            match r {
                Ok(text) => member_text(field_operation(cfg@, self@, class@, class_name@)) == Ok::<
                    Seq<char>,
                    Seq<char>,
                >(text@),
                Err(e) => member_text(field_operation(cfg@, self@, class@, class_name@)) == Err::<
                    Seq<char>,
                    Seq<char>,
                >(e@),
            },
    {
        render_member(self.operation(class_name, class, cfg))
    }
}

/// The name of the class as the runtime bridge knows it.
pub open spec fn bridge_class_name(c: ClassView, dev: bool) -> Seq<char> {
    if dev {
        c.mapped_name
    } else {
        c.intermediary_name
    }
}

/// The text `before` with what the methods from place `from` on add to it,
/// in their order, or the first descriptor among them that is none.
pub open spec fn methods_from(cfg: GenConfigView, c: ClassView, from: int, before: Seq<char>)
    -> Result<Seq<char>, Seq<char>>
    decreases c.methods.len() - from,
{
    if !(0 <= from < c.methods.len()) {
        Ok(before)
    } else {
        match member_text(
            method_operation(cfg, c.methods[from].1, c, bridge_class_name(c, cfg.dev)),
        ) {
            Ok(piece) => methods_from(cfg, c, from + 1, before + piece),
            Err(descriptor) => Err(descriptor),
        }
    }
}

/// The text `before` with what the fields from place `from` on add to it, in
/// their order, or the first descriptor among them that is none.
pub open spec fn fields_from(cfg: GenConfigView, c: ClassView, from: int, before: Seq<char>)
    -> Result<Seq<char>, Seq<char>>
    decreases c.fields.len() - from,
{
    if !(0 <= from < c.fields.len()) {
        Ok(before)
    } else {
        match member_text(
            field_operation(cfg, c.fields[from].1, c, bridge_class_name(c, cfg.dev)),
        ) {
            Ok(piece) => fields_from(cfg, c, from + 1, before + piece),
            Err(descriptor) => Err(descriptor),
        }
    }
}

/// The declaration of an accessor type and the start of its operations: the
/// type holds the runtime bridge and the object, and is made of the two.
pub open spec fn class_head(name: Seq<char>) -> Seq<char> {
    "#[derive(Debug)]\npub struct "@ + name
        + "<'a> {\npub api: crate::api::ModApi<'a>,\npub inner: jni::objects::JObject<'a>,\n}\nimpl<'a> "@
        + name
        + "<'a> {\npub fn new(api: crate::api::ModApi<'a>, inner: jni::objects::JObject<'a>) -> Self {\n"@
        + name + " { api, inner }\n}\n"@
}

/// The name of the accessor type of a class.
pub open spec fn accessor_name(c: ClassView) -> Seq<char> {
    class_ident(last_segment(c.mapped_name))
}

/// Finishes the text of an accessor.
pub open spec fn closed_text(body: Result<Seq<char>, Seq<char>>) -> Result<Seq<char>, Seq<char>> {
    match body {
        Ok(text) => Ok(text + "}\n"@),
        Err(descriptor) => Err(descriptor),
    }
}

/// The emitted text for a class: its accessor type with one operation for
/// each method that has one, overloads included, then one for each field
/// that has one.
pub open spec fn class_text(cfg: GenConfigView, c: ClassView) -> Result<Seq<char>, Seq<char>> {
    match methods_from(cfg, c, 0, class_head(accessor_name(c))) {
        Ok(text) => closed_text(fields_from(cfg, c, 0, text)),
        Err(descriptor) => Err(descriptor),
    }
}

/// The emitted text for a class.
pub fn gen_class(class: &Class, cfg: &GenConfig) -> (r: Result<String, DescriptorError>)
    ensures
        match r {
            Ok(text) => class_text(cfg@, class@) == Ok::<Seq<char>, Seq<char>>(text@),
            Err(e) => class_text(cfg@, class@) == Err::<Seq<char>, Seq<char>>(e@),
        },
{
    let segment = last_segment_of(class.mapped_name.as_str());
    let name = java_to_rust_class(segment.as_str());
    let class_name = class.get_java_name(cfg.dev);
    let mut out = String::from_str("#[derive(Debug)]\npub struct ");
    out.append(name.as_str());
    out.append(
        "<'a> {\npub api: crate::api::ModApi<'a>,\npub inner: jni::objects::JObject<'a>,\n}\nimpl<'a> ",
    );
    out.append(name.as_str());
    out.append(
        "<'a> {\npub fn new(api: crate::api::ModApi<'a>, inner: jni::objects::JObject<'a>) -> Self {\n",
    );
    out.append(name.as_str());
    out.append(" { api, inner }\n}\n");
    let mut i: usize = 0;
    while i < class.methods.len()
        invariant
            i <= class.methods@.len(),
            class_name@ == bridge_class_name(class@, cfg@.dev),
            methods_from(cfg@, class@, 0, class_head(accessor_name(class@))) == methods_from(
                cfg@,
                class@,
                i as int,
                out@,
            ),
        decreases class.methods@.len() - i,
    {
        let method = class.methods.value_at(i);
        match method.to_tokens(class_name, class, cfg) {
            Ok(piece) => {
                out.append(piece.as_str());
            },
            Err(e) => {
                return Err(e);
            },
        }
        i += 1;
    }
    let ghost with_methods = out@;
    let mut j: usize = 0;
    while j < class.fields.len()
        invariant
            j <= class.fields@.len(),
            class_name@ == bridge_class_name(class@, cfg@.dev),
            class_text(cfg@, class@) == closed_text(fields_from(cfg@, class@, 0, with_methods)),
            fields_from(cfg@, class@, 0, with_methods) == fields_from(
                cfg@,
                class@,
                j as int,
                out@,
            ),
        decreases class.fields@.len() - j,
    {
        let field = class.fields.value_at(j);
        match field.to_tokens(class_name, class, cfg) {
            Ok(piece) => {
                out.append(piece.as_str());
            },
            Err(e) => {
                return Err(e);
            },
        }
        j += 1;
    }
    out.append("}\n");
    Ok(out)
}

/// A namespace of the emitted unit: the text of each class that stands in
/// it, by the class's own name, and the namespaces below it by their
/// identifiers.
#[derive(Debug)]
pub struct Package {
    pub current: NameTable<String>,
    pub sub_packages: Vec<(String, Package)>,
}

/// The mathematical value of a [`Package`].
pub struct PackageView {
    pub current: Seq<(Seq<char>, Seq<char>)>,
    pub sub_packages: Seq<(Seq<char>, PackageView)>,
}

/// The namespace without classes and namespaces below it.
pub open spec fn empty_package() -> PackageView {
    PackageView { current: Seq::empty(), sub_packages: Seq::empty() }
}

/// The mathematical value of a namespace.
pub open spec fn package_view(p: Package) -> PackageView
    decreases p,
{
    PackageView {
        current: p.current@,
        sub_packages: Seq::new(
            p.sub_packages.len() as nat,
            |i: int|
                (
                    p.sub_packages[i].0@,
                    if 0 <= i < p.sub_packages.len() {
                        package_view(p.sub_packages[i].1)
                    } else {
                        empty_package()
                    },
                ),
        ),
    }
}

impl View for Package {
    type V = PackageView;

    open spec fn view(&self) -> PackageView {
        package_view(*self)
    }
}

/// The namespace after the text of a class was put in it under the class's
/// name: each segment of the name before a `/` or `$` leads into the
/// namespace of that segment's package identifier, which is made where it is
/// missing, and the last segment names the class in the namespace reached.
pub open spec fn package_with(p: PackageView, name: Seq<char>, content: Seq<char>) -> PackageView
    decreases name.len(),
{
    let end = find_separator(name, 0);
    if 0 <= end < name.len() {
        let head = package_ident(name.take(end));
        let rest = name.skip(end + 1);
        match position_of(p.sub_packages, head) {
            Some(i) => PackageView {
                sub_packages: p.sub_packages.update(
                    i,
                    (head, package_with(p.sub_packages[i].1, rest, content)),
                ),
                ..p
            },
            None => PackageView {
                sub_packages: p.sub_packages.push(
                    (head, package_with(empty_package(), rest, content)),
                ),
                ..p
            },
        }
    } else {
        PackageView { current: with_entry(p.current, name, content), ..p }
    }
}

/// The texts of the first `n` classes of a namespace, in order.
pub open spec fn classes_text(current: Seq<(Seq<char>, Seq<char>)>, n: nat) -> Seq<char>
    decreases n,
{
    if n == 0 {
        Seq::empty()
    } else {
        classes_text(current, (n - 1) as nat) + current[n - 1].1
    }
}

/// The emitted modules of the first `n` namespaces below a namespace, in
/// order.
pub open spec fn modules_text(p: PackageView, n: nat) -> Seq<char>
    decreases p, n,
{
    if n == 0 || n > p.sub_packages.len() {
        Seq::empty()
    } else {
        modules_text(p, (n - 1) as nat) + "pub mod "@ + p.sub_packages[n - 1].0 + " {\n"@
            + package_text(p.sub_packages[n - 1].1) + "}\n"@
    }
}

/// The emitted text of a namespace: a module for each namespace below it,
/// then the texts of its classes.
pub open spec fn package_text(p: PackageView) -> Seq<char>
    decreases p, p.sub_packages.len() + 1,
{
    modules_text(p, p.sub_packages.len()) + classes_text(p.current, p.current.len())
}

impl Package {
    /// The namespace without classes and namespaces below it.
    pub fn new() -> (p: Package)
        ensures
            p@ == empty_package(),
    {
        let p = Package { current: NameTable::new(), sub_packages: Vec::new() };
        assert(p@.sub_packages =~= Seq::empty());
        p
    }

    /// Where the namespace of the given identifier stands below this one.
    pub fn position(&self, ident: &str) -> (r: Option<usize>)
        ensures
            match r {
                Some(i) => i < self.sub_packages.len() && position_of(self@.sub_packages, ident@)
                    == Some(i as int),
                None => position_of(self@.sub_packages, ident@).is_none(),
            },
    {
        let mut i: usize = 0;
        while i < self.sub_packages.len()
            invariant
                i <= self.sub_packages.len(),
                forall|j: int| 0 <= j < i ==> (#[trigger] self@.sub_packages[j]).0 != ident@,
            decreases self.sub_packages.len() - i,
        {
            if same_text(self.sub_packages[i].0.as_str(), ident) {
                proof {
                    lemma_position_is(self@.sub_packages, ident@, i as int);
                }
                return Some(i);
            }
            i += 1;
        }
        proof {
            lemma_position_of(self@.sub_packages, ident@);
        }
        None
    }

    /// Puts the text of a class in the namespace that its name leads to.
    pub fn insert(&mut self, class_name: &str, content: String)
        ensures
            final(self)@ == package_with(old(self)@, class_name@, content@),
        decreases class_name@.len(),
    {
        let letters = chars_of(class_name);
        let end = find_separator_from(&letters, 0);
        if end < letters.len() {
            let segment = string_of(&letters, 0, end);
            let head = java_to_rust_package(segment.as_str());
            let rest = string_of(&letters, end + 1, letters.len());
            assert(letters@.subrange(0, end as int) == class_name@.take(end as int));
            assert(letters@.subrange(end + 1, letters.len() as int) == class_name@.skip(end + 1));
            let ghost before = self@;
            match self.position(head.as_str()) {
                Some(i) => {
                    proof {
                        lemma_position_of(before.sub_packages, head@);
                    }
                    let ghost held = self.sub_packages@;
                    self.sub_packages[i].1.insert(rest.as_str(), content);
                    assert(self.sub_packages@.len() == held.len());
                    assert(self.sub_packages@[i as int].0 == held[i as int].0);
                    assert(package_view(self.sub_packages@[i as int].1) == package_with(
                        package_view(held[i as int].1),
                        rest@,
                        content@,
                    ));
                    assert(forall|k: int|
                        0 <= k < held.len() && k != i ==> self.sub_packages@[k] == held[k]);
                    assert(self@.sub_packages =~= before.sub_packages.update(
                        i as int,
                        (head@, package_with(before.sub_packages[i as int].1, rest@, content@)),
                    ));
                },
                None => {
                    let mut below = Package::new();
                    below.insert(rest.as_str(), content);
                    self.sub_packages.push((head, below));
                    assert(self@.sub_packages =~= before.sub_packages.push(
                        (head@, package_with(empty_package(), rest@, content@)),
                    ));
                },
            }
        } else {
            self.current.insert(String::from_str(class_name), content);
            assert(self@.sub_packages =~= old(self)@.sub_packages);
        }
    }

    /// The emitted text of the namespace.
    pub fn to_tokens(&self) -> (r: String)
        ensures
            r@ == package_text(self@),
        decreases self,
    {
        let mut out = String::new();
        let mut i: usize = 0;
        while i < self.sub_packages.len()
            invariant
                i <= self.sub_packages.len(),
                out@ == modules_text(self@, i as nat),
            decreases self.sub_packages.len() - i,
        {
            out.append("pub mod ");
            out.append(self.sub_packages[i].0.as_str());
            out.append(" {\n");
            let inner = self.sub_packages[i].1.to_tokens();
            out.append(inner.as_str());
            out.append("}\n");
            i += 1;
        }
        let mut classes = String::new();
        let mut j: usize = 0;
        while j < self.current.len()
            invariant
                j <= self.current@.len(),
                classes@ == classes_text(self.current@, j as nat),
            decreases self.current@.len() - j,
        {
            classes.append(self.current.value_at(j).as_str());
            j += 1;
        }
        out.append(classes.as_str());
        out
    }
}

/// The namespace `p` after the texts of the classes from place `from` on
/// were put in it, in their order, or the first descriptor among them that
/// is none.
pub open spec fn packages_from(cfg: GenConfigView, m: MappingsView, from: int, p: PackageView)
    -> Result<PackageView, Seq<char>>
    decreases m.mapped_map.len() - from,
{
    if !(0 <= from < m.mapped_map.len()) {
        Ok(p)
    } else {
        match class_text(cfg, m.mapped_map[from].1) {
            Ok(text) => packages_from(
                cfg,
                m,
                from + 1,
                package_with(p, m.mapped_map[from].1.mapped_name, text),
            ),
            Err(descriptor) => Err(descriptor),
        }
    }
}

/// The emitted unit for an index: the accessors of all its classes in the
/// namespaces that their mapped names lead to, below a line that silences
/// the warnings on names.
pub open spec fn unit_text(cfg: GenConfigView, m: MappingsView) -> Result<Seq<char>, Seq<char>> {
    match packages_from(cfg, m, 0, empty_package()) {
        Ok(p) => Ok("#![allow(non_snake_case, dead_code)]\n"@ + package_text(p)),
        Err(descriptor) => Err(descriptor),
    }
}

/// Emits the unit for an index. Nothing is emitted where a descriptor of the
/// index spells no type.
pub fn auto_gen_impl(mappings: &Mappings, cfg: &GenConfig) -> (r: Result<String, DescriptorError>)
    ensures
        match r {
            Ok(text) => unit_text(cfg@, mappings@) == Ok::<Seq<char>, Seq<char>>(text@),
            Err(e) => unit_text(cfg@, mappings@) == Err::<Seq<char>, Seq<char>>(e@),
        },
{
    let mut packages = Package::new();
    let mut i: usize = 0;
    while i < mappings.mapped_map.len()
        invariant
            i <= mappings.mapped_map@.len(),
            packages_from(cfg@, mappings@, 0, empty_package()) == packages_from(
                cfg@,
                mappings@,
                i as int,
                packages@,
            ),
        decreases mappings.mapped_map@.len() - i,
    {
        let class = mappings.mapped_map.value_at(i);
        match gen_class(class, cfg) {
            Ok(text) => {
                packages.insert(class.mapped_name.as_str(), text);
            },
            Err(e) => {
                return Err(e);
            },
        }
        i += 1;
    }
    let mut out = String::from_str("#![allow(non_snake_case, dead_code)]\n");
    let body = packages.to_tokens();
    out.append(body.as_str());
    Ok(out)
}

/// The unit that is emitted for a corpus: the unit for the index that the
/// corpus stands for. A line of the corpus that the grammar does not allow,
/// or a descriptor that spells no type, is the error.
pub open spec fn corpus_unit(cfg: GenConfigView, files: Seq<Seq<char>>) -> Result<
    Seq<char>,
    Seq<char>,
> {
    match corpus_mappings(files) {
        Ok(m) => unit_text(cfg, m),
        Err(line) => Err(line),
    }
}

/// Reads a corpus and emits the unit for it.
pub fn generate(files: &Vec<String>, cfg: &GenConfig) -> (r: Result<String, String>)
    ensures
        match r {
            Ok(text) => corpus_unit(cfg@, files@.map_values(|f: String| f@)) == Ok::<
                Seq<char>,
                Seq<char>,
            >(text@),
            Err(e) => corpus_unit(cfg@, files@.map_values(|f: String| f@)) == Err::<
                Seq<char>,
                Seq<char>,
            >(e@),
        },
{
    match try_parse_mappings(files) {
        Ok(m) => match auto_gen_impl(&m, cfg) {
            Ok(text) => Ok(text),
            Err(e) => Err(e.descriptor),
        },
        Err(e) => Err(e.line),
    }
}

/// The law of idempotence: generation is a function of its input. Two runs
/// under the same configuration, on the same index or on the same corpus,
/// emit the same text or fail on the same line or descriptor.
pub proof fn lemma_generation_is_deterministic(
    cfg_a: GenConfigView,
    cfg_b: GenConfigView,
    index_a: MappingsView,
    index_b: MappingsView,
    files_a: Seq<Seq<char>>,
    files_b: Seq<Seq<char>>,
)
    requires
        cfg_a == cfg_b,
        index_a == index_b,
        files_a == files_b,
    ensures
        unit_text(cfg_a, index_a) == unit_text(cfg_b, index_b),
        corpus_unit(cfg_a, files_a) == corpus_unit(cfg_b, files_b),
{
}

} // verus!
