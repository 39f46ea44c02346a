use rustcraft_mappings::text::same_text;
use rustcraft_mappings::{
    get_class, get_multiple_class, parse_mappings, Class, Field, Mappings, Method, Modifier,
};

fn method(name: &str, signature: &str) -> Method {
    Method {
        intermediary_name: format!("method_{}", name),
        mapped_name: name.to_string(),
        signature: signature.to_string(),
        mapped_signature: signature.to_string(),
        comments: String::new(),
        args: vec![],
        modifiers: 0,
    }
}

fn field(intermediary: &str, mapped: &str) -> Field {
    Field {
        intermediary_name: intermediary.to_string(),
        mapped_name: mapped.to_string(),
        field_type: "I".to_string(),
        mapped_field_type: "J".to_string(),
        comments: String::new(),
        modifiers: 0,
    }
}

#[test]
fn the_java_name_follows_the_resolution_mode() {
    let f = field("field_1", "MY_FIELD");
    assert_eq!(f.get_java_name(true), "MY_FIELD");
    assert_eq!(f.get_java_name(false), "field_1");
    assert_eq!(f.get_java_type(true), "J");
    assert_eq!(f.get_java_type(false), "I");
    let mut m = method("doThing", "(Lclass_1;)V");
    m.mapped_signature = "(LExample;)V".to_string();
    assert_eq!(m.get_java_name(true), "doThing");
    assert_eq!(m.get_java_name(false), "method_doThing");
    assert_eq!(m.get_java_sig(true), "(LExample;)V");
    assert_eq!(m.get_java_sig(false), "(Lclass_1;)V");
    let c = Class::new("net/minecraft/class_1".to_string(), "ExampleClass".to_string());
    assert_eq!(c.get_java_name(true), "ExampleClass");
    assert_eq!(c.get_java_name(false), "net/minecraft/class_1");
}

#[test]
fn a_bare_name_that_one_method_has_stands_for_it() {
    let mut c = Class::new("a".to_string(), "A".to_string());
    c.add_method(method("run", "()V"));
    c.add_method(method("stop", "(I)V"));
    assert_eq!(c.get_method("run").unwrap().signature, "()V");
    assert_eq!(c.get_method("stop").unwrap().signature, "(I)V");
    assert!(c.get_method("walk").is_none());
}

#[test]
fn a_bare_name_that_methods_share_stands_for_none() {
    let mut c = Class::new("a".to_string(), "A".to_string());
    c.add_method(method("run", "()V"));
    c.add_method(method("run", "(I)V"));
    c.add_method(method("stop", "()V"));
    assert!(c.get_method("run").is_none());
    assert_eq!(c.get_method("run#()V").unwrap().signature, "()V");
    assert_eq!(c.get_method("run#(I)V").unwrap().signature, "(I)V");
    assert!(c.get_method("run#(J)V").is_none());
    assert!(c.get_method("stop").is_some());
    c.add_method(method("run", "(J)V"));
    assert!(c.get_method("run").is_none());
    assert_eq!(c.methods.len(), 4);
    assert_eq!(c.methods_nosig.len(), 2);
}

#[test]
fn a_method_added_twice_is_stored_once_and_is_ambiguous() {
    let mut c = Class::new("a".to_string(), "A".to_string());
    c.add_method(method("run", "()V"));
    c.add_method(method("run", "()V"));
    assert_eq!(c.methods.len(), 1);
    assert!(c.get_method("run").is_none());
    assert!(c.get_method("run#()V").is_some());
}

#[test]
fn a_field_is_stored_under_its_type_style_key() {
    let mut c = Class::new("a".to_string(), "A".to_string());
    c.add_field(field("field_1", "MY_FIELD"));
    c.add_field(field("field_2", "my_field"));
    assert_eq!(c.fields.len(), 1);
    assert_eq!(c.fields.get("MyField").unwrap().intermediary_name, "field_2");
}

#[test]
fn a_class_is_found_by_both_names() {
    let mut m = Mappings::new();
    m.insert_class(
        "ExampleClass".to_string(),
        "net/minecraft/class_1".to_string(),
        Class::new("net/minecraft/class_1".to_string(), "ExampleClass".to_string()),
    );
    assert_eq!(m.get("ExampleClass").mapped_name, "ExampleClass");
    assert_eq!(m.get("net/minecraft/class_1").mapped_name, "ExampleClass");
    assert_eq!(get_class(&m, "net/minecraft/class_1").mapped_name, "ExampleClass");
    assert!(m.find("net/minecraft/class_2").is_none());
    assert!(m.find("ExampleClass").is_some());
    assert!(m.is_consistent());
}

#[test]
fn an_alias_without_a_class_leads_nowhere() {
    let mut m = Mappings::new();
    m.insert("Missing".to_string(), "class_7".to_string());
    assert!(m.find("class_7").is_none());
    assert!(!m.is_consistent());
}

#[test]
fn the_first_class_of_the_list_that_has_the_method_gives_it() {
    let corpus = "CLASS a/class_1 a/Block\n\tMETHOD m_1 onUse ()V\nCLASS a/class_2 a/AbstractBlock\n\tMETHOD m_2 onUse ()V\n\tMETHOD m_3 onSteppedOn (I)V\n";
    let m = parse_mappings(&vec![corpus.to_string()]);
    let getter = get_multiple_class(&m, &["a/Block", "a/AbstractBlock"]);
    assert_eq!(getter.get_method("onUse").unwrap().intermediary_name, "m_1");
    assert_eq!(getter.get_method("onSteppedOn").unwrap().intermediary_name, "m_3");
    assert!(getter.get_method("onBreak").is_none());
    let other = get_multiple_class(&m, &["a/class_2", "a/class_1"]);
    assert_eq!(other.get_method("onUse").unwrap().intermediary_name, "m_2");
    let none = get_multiple_class(&m, &[]);
    assert!(none.get_method("onUse").is_none());
}

#[test]
fn a_modifier_is_a_bit_of_the_set() {
    assert_eq!(Modifier::NoModifier.bits(), 0);
    assert_eq!(Modifier::Static.bits(), 1);
    assert_eq!(Modifier::Nullable.bits(), 2);
    assert!(Modifier::Static.is_set(1));
    assert!(Modifier::Static.is_set(3));
    assert!(!Modifier::Static.is_set(2));
    assert!(Modifier::Nullable.is_set(2));
    assert!(!Modifier::NoModifier.is_set(255));
    assert!(Modifier::Static & 1u8);
    assert!(!(Modifier::Nullable & 1u8));
    assert!(3u8 & Modifier::Nullable);
    assert!(!(0u8 & Modifier::Static));
}

#[test]
fn names_are_told_apart_character_by_character() {
    assert!(same_text("", ""));
    assert!(same_text("net/minecraft/\u{e9}t\u{e9}", "net/minecraft/\u{e9}t\u{e9}"));
    assert!(!same_text("net/minecraft/\u{e9}", "net/minecraft/\u{e8}"));
    assert!(!same_text("ab", "abc"));
    assert!(!same_text("\u{e9}", "e\u{301}"));
    let mut m = Mappings::new();
    m.insert_class(
        "caf\u{e9}".to_string(),
        "class_1".to_string(),
        Class::new("class_1".to_string(), "caf\u{e9}".to_string()),
    );
    assert!(m.find("caf\u{e9}").is_some());
    assert!(m.find("cafe").is_none());
}
