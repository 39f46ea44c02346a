use rustcraft_mappings::codegen::{Dispatch, GenConfig, Operation, Package};
use rustcraft_mappings::emit::mangle;
use rustcraft_mappings::{
    auto_gen_impl, gen_class, parse_mappings, try_parse_mappings, Class, Field, Method, SigType,
};

const EXAMPLE: &str = "CLASS net/minecraft/class_1 ExampleClass\n\tCOMMENT An example\n\tFIELD field_1 MY_FIELD I\n\tMETHOD method_1 doThing (I)V\n\t\tARG 0 value\n";

fn method(name: &str, signature: &str, modifiers: u8) -> Method {
    Method {
        intermediary_name: "method_1".to_string(),
        mapped_name: name.to_string(),
        signature: signature.to_string(),
        mapped_signature: signature.to_string(),
        comments: String::new(),
        args: vec![],
        modifiers,
    }
}

fn field(name: &str, descriptor: &str, modifiers: u8) -> Field {
    Field {
        intermediary_name: "field_1".to_string(),
        mapped_name: name.to_string(),
        field_type: descriptor.to_string(),
        mapped_field_type: descriptor.to_string(),
        comments: String::new(),
        modifiers,
    }
}

fn head(name: &str) -> String {
    format!(
        "#[derive(Debug)]\npub struct {n}<'a> {{\npub api: crate::api::ModApi<'a>,\npub inner: jni::objects::JObject<'a>,\n}}\nimpl<'a> {n}<'a> {{\npub fn new(api: crate::api::ModApi<'a>, inner: jni::objects::JObject<'a>) -> Self {{\n{n} {{ api, inner }}\n}}\n",
        n = name
    )
}

const DO_THING: &str = "pub fn do_thing(&'a self) -> () {\nlet api = &self.api;\nlet value = api.call_method_class(Some(\"net/minecraft/class_1\"), Some(&self.inner), (\"method_1\", \"(I)V\"), &[]).v().unwrap();\nvalue\n}\n";

const MY_FIELD: &str = "pub fn MY_FIELD(&'a self) -> i32 {\nlet api = &self.api;\nlet value = api.get_field_class(Some(\"net/minecraft/class_1\"), Some(&self.inner), (\"field_1\", \"I\")).i().unwrap();\nvalue\n}\n";

#[test]
fn the_example_emits_a_dispatch_that_returns_nothing() {
    let m = parse_mappings(&vec![EXAMPLE.to_string()]);
    let cfg = GenConfig::standard(false);
    let class = m.get("ExampleClass");
    let method = class.get_method("doThing").unwrap();
    assert_eq!(method.to_tokens("net/minecraft/class_1", class, &cfg).unwrap(), DO_THING);
    let field = class.fields.get("MyField").unwrap();
    assert_eq!(field.to_tokens("net/minecraft/class_1", class, &cfg).unwrap(), MY_FIELD);
    let expected = format!("{}{}{}}}\n", head("ExampleClass"), DO_THING, MY_FIELD);
    assert_eq!(gen_class(class, &cfg).unwrap(), expected);
    let unit = auto_gen_impl(&m, &cfg).unwrap();
    assert_eq!(unit, format!("#![allow(non_snake_case, dead_code)]\n{}", expected));
}

#[test]
fn the_resolution_mode_picks_the_names_handed_to_the_bridge() {
    let m = parse_mappings(&vec![EXAMPLE.to_string()]);
    let class = m.get("ExampleClass");
    let dev = gen_class(class, &GenConfig::standard(true)).unwrap();
    assert!(dev.contains("Some(\"ExampleClass\"), Some(&self.inner), (\"doThing\", \"(I)V\")"));
    assert!(dev.contains("(\"MY_FIELD\", \"I\")"));
    let plain = gen_class(class, &GenConfig::standard(false)).unwrap();
    assert!(plain.contains("Some(\"net/minecraft/class_1\"), Some(&self.inner), (\"method_1\", \"(I)V\")"));
    assert!(plain.contains("(\"field_1\", \"I\")"));
}

#[test]
fn two_runs_emit_the_same_text() {
    let corpus = "CLASS net/minecraft/class_1 net/minecraft/block/Block\n\tFIELD field_1 hardness F\n\tMETHOD method_1 getHardness ()F\n\tCLASS class_2 Settings\n\t\tMETHOD method_2 strength (F)Lnet/minecraft/class_1$class_2;\nCLASS net/minecraft/class_3 net/minecraft/world/World\n\tMETHOD method_3 getBlock ()Lnet/minecraft/class_1;\n";
    let files = vec![corpus.to_string()];
    let first = auto_gen_impl(&parse_mappings(&files), &GenConfig::standard(true)).unwrap();
    let second = auto_gen_impl(&parse_mappings(&files), &GenConfig::standard(true)).unwrap();
    assert_eq!(first, second);
    assert!(first.starts_with("#![allow(non_snake_case, dead_code)]\npub mod net {\npub mod minecraft {\npub mod block {\n"));
    assert!(first.contains("pub mod block {\npub mod block {\n#[derive(Debug)]\npub struct Settings<'a>"));
    assert!(first.contains("pub fn strength(&'a self) -> crate::net::minecraft::block::block::Settings<'a> {"));
    assert!(first.contains("crate::net::minecraft::block::block::Settings::new(api.clone(), value)\n"));
    assert!(first.contains("pub mod world {\n#[derive(Debug)]\npub struct World<'a>"));
    assert!(first.contains("pub fn get_block(&'a self) -> crate::net::minecraft::block::Block<'a> {"));
    assert!(first.ends_with("}\n}\n}\n"));
}

#[test]
fn a_static_method_goes_to_the_class() {
    let cfg = GenConfig::standard(true);
    let class = Class::new("a".to_string(), "a/Text".to_string());
    let m = method("of", "()J", 1);
    let op = m.operation("a/Text", &class, &cfg).unwrap().unwrap();
    assert_eq!(op.dispatch, Dispatch::CallStatic);
    assert_eq!(op.java_name, "of");
    assert_eq!(
        op.render(),
        "pub fn of(api: &'a mut crate::api::ModApi<'a>) -> i64 {\nlet class = api.get_class(\"a/Text\");\nlet value = api.call_static_method(&class, (\"of\", \"()J\"), &[]).j().unwrap();\nvalue\n}\n"
    );
    let nullable = method("of", "()J", 2);
    assert_eq!(nullable.operation("a/Text", &class, &cfg).unwrap().unwrap().dispatch, Dispatch::CallInstance);
}

#[test]
fn a_static_field_is_got_on_the_class() {
    let cfg = GenConfig::standard(true);
    let class = Class::new("a".to_string(), "a/A".to_string());
    let f = field("count", "La/B;", 3);
    let op = f.operation("a/A", &class, &cfg).unwrap().unwrap();
    assert_eq!(op.dispatch, Dispatch::GetStatic);
    assert_eq!(
        op.render(),
        "pub fn count(api: &'a mut crate::api::ModApi<'a>) -> crate::a::B<'a> {\nlet class = api.get_class(\"a/A\");\nlet value = api.get_static_field(&class, (\"count\", \"La/B;\")).l().unwrap();\ncrate::a::B::new(api.clone(), value)\n}\n"
    );
    let plain = field("count", "Z", 0);
    assert_eq!(plain.operation("a/A", &class, &cfg).unwrap().unwrap().dispatch, Dispatch::GetInstance);
}

#[test]
fn excluded_methods_emit_nothing() {
    let cfg = GenConfig::standard(true);
    let class = Class::new("a".to_string(), "a/A".to_string());
    assert!(method("<init>", "()V", 0).operation("a/A", &class, &cfg).unwrap().is_none());
    assert!(method("lambda$run$0", "()V", 0).operation("a/A", &class, &cfg).unwrap().is_none());
    assert!(method("list", "()[I", 0).operation("a/A", &class, &cfg).unwrap().is_none());
    for foreign in [
        "com/mojang/Brigadier", "java/lang/String", "org/slf4j/Logger", "javax/x/Y",
        "com/google/gson/Gson", "it/unimi/dsi/List", "io/netty/Channel", "com/jcraft/Z",
        "com/ibm/icu/Text", "com/microsoft/X", "sun/misc/Unsafe", "jdk/internal/X", "oshi/Info",
    ] {
        let m = method("get", &format!("()L{};", foreign), 0);
        assert!(m.operation("a/A", &class, &cfg).unwrap().is_none(), "{}", foreign);
        assert_eq!(m.to_tokens("a/A", &class, &cfg).unwrap(), "");
    }
    assert!(method("get", "()Lnet/minecraft/A;", 0).operation("a/A", &class, &cfg).unwrap().is_some());
    assert!(method("get", "(Ljava/lang/String;)V", 0).operation("a/A", &class, &cfg).unwrap().is_some());
}

#[test]
fn excluded_fields_emit_nothing() {
    let cfg = GenConfig::standard(true);
    let class = Class::new("a".to_string(), "a/A".to_string());
    assert!(field("names", "[Ljava/lang/String;", 0).operation("a/A", &class, &cfg).unwrap().is_none());
    assert!(field("name", "Ljava/lang/String;", 0).operation("a/A", &class, &cfg).unwrap().is_none());
    assert_eq!(field("name", "Ljdk/X;", 0).to_tokens("a/A", &class, &cfg).unwrap(), "");
    assert!(field("name", "La/B;", 0).operation("a/A", &class, &cfg).unwrap().is_some());
}

#[test]
fn the_foreign_namespaces_can_be_chosen() {
    let cfg = GenConfig { dev: true, foreign: vec!["net/".to_string()] };
    let class = Class::new("a".to_string(), "a/A".to_string());
    assert!(method("get", "()Lnet/minecraft/A;", 0).operation("a/A", &class, &cfg).unwrap().is_none());
    assert!(method("get", "()Ljava/lang/String;", 0).operation("a/A", &class, &cfg).unwrap().is_some());
}

#[test]
fn a_descriptor_that_spells_no_type_is_an_error() {
    let cfg = GenConfig::standard(true);
    let class = Class::new("a".to_string(), "a/A".to_string());
    assert_eq!(method("run", "(Q)V", 0).operation("a/A", &class, &cfg).unwrap_err().descriptor, "(Q)V");
    assert_eq!(method("<init>", "", 0).to_tokens("a/A", &class, &cfg).unwrap_err().descriptor, "");
    assert_eq!(field("x", "?", 0).operation("a/A", &class, &cfg).unwrap_err().descriptor, "?");
    let m = parse_mappings(&vec!["CLASS a a/A\n\tMETHOD m run (Q)V\n".to_string()]);
    assert_eq!(auto_gen_impl(&m, &cfg).unwrap_err().descriptor, "(Q)V");
}

#[test]
fn every_overload_has_an_operation_of_its_own() {
    let corpus = "CLASS a a/A\n\tMETHOD m_1 run ()V\n\tMETHOD m_2 run (I[La/B_c$D;)V\n\tMETHOD m_3 stop ()V\n";
    let m = parse_mappings(&vec![corpus.to_string()]);
    let class = m.get("a/A");
    let cfg = GenConfig::standard(true);
    let first = class.get_method("run#()V").unwrap();
    let second = class.get_method("run#(I[La/B_c$D;)V").unwrap();
    assert_eq!(first.operation_name(class), "run_4_5V");
    assert_eq!(second.operation_name(class), "run_4I_3La_7B_1c_6D_2_5V");
    assert_eq!(class.get_method("stop").unwrap().operation_name(class), "stop");
    let text = gen_class(class, &cfg).unwrap();
    assert!(text.contains("pub fn run_4_5V(&'a self) -> () {\nlet api = &self.api;\nlet value = api.call_method_class(Some(\"a/A\"), Some(&self.inner), (\"run\", \"()V\"), &[]).v().unwrap();\nvalue\n}\n"));
    assert!(text.contains("pub fn run_4I_3La_7B_1c_6D_2_5V(&'a self) -> () {"));
    assert!(text.contains("(\"run\", \"(I[La/B_c$D;)V\")"));
    assert!(text.contains("pub fn stop(&'a self) -> () {"));
    assert!(!text.contains("pub fn run("));
    assert_eq!(text.matches("pub fn ").count(), 4);
}

#[test]
fn an_overload_is_left_out_only_by_the_rules_for_every_method() {
    let corpus = "CLASS a a/A\n\tMETHOD m_1 <init> ()V\n\tMETHOD m_2 <init> (I)V\n\tMETHOD m_3 get ()[I\n\tMETHOD m_4 get (I)Ljava/lang/String;\n\tMETHOD m_5 get (J)I\n";
    let m = parse_mappings(&vec![corpus.to_string()]);
    let text = gen_class(m.get("a/A"), &GenConfig::standard(true)).unwrap();
    assert_eq!(text.matches("pub fn ").count(), 2);
    assert!(text.contains("pub fn get_4J_5I(&'a self) -> i32 {"));
    let bad = parse_mappings(&vec!["CLASS a a/A\n\tMETHOD m run ()V\n\tMETHOD n run (Q)V\n".to_string()]);
    assert_eq!(gen_class(bad.get("a/A"), &GenConfig::standard(true)).unwrap_err().descriptor, "(Q)V");
}

#[test]
fn a_signature_stands_in_an_identifier() {
    assert_eq!(mangle(""), "");
    assert_eq!(mangle("(I)V"), "_4I_5V");
    assert_eq!(mangle("az_AZ09;[()$/"), "az_1AZ09_2_3_4_5_6_7");
    assert_eq!(mangle("a-b\u{e9}"), "a_0b_0");
}

#[test]
fn a_field_name_is_told_apart_from_methods_and_reserved_words() {
    let mut class = Class::new("a".to_string(), "a/A".to_string());
    class.add_method(method("size", "()I", 0));
    class.add_method(method("MAX", "()I", 0));
    assert_eq!(field("MAX", "I", 0).operation_name(&class), "MAX_FIELD");
    assert_eq!(field("MIN", "I", 0).operation_name(&class), "MIN");
    assert_eq!(field("size", "I", 0).operation_name(&class), "size_field");
    assert_eq!(field("type", "I", 0).operation_name(&class), "type_field");
    assert_eq!(field("isClient", "Z", 0).operation_name(&class), "is_client");
    assert_eq!(field("1st", "Z", 0).operation_name(&class), "1st_field");
    assert_eq!(field("", "Z", 0).operation_name(&class), "");
}

#[test]
fn texts_are_quoted_for_the_emitted_code() {
    let op = Operation {
        name: "odd".to_string(),
        dispatch: Dispatch::GetInstance,
        class_name: "a\"b".to_string(),
        java_name: "c\\d".to_string(),
        descriptor: "Z".to_string(),
        result: SigType::Boolean,
    };
    assert!(op.render().contains("Some(\"a\\\"b\"), Some(&self.inner), (\"c\\\\d\", \"Z\")"));
}

#[test]
fn a_namespace_nests_by_the_segments_of_the_name() {
    let mut p = Package::new();
    p.insert("net/minecraft/Foo", "foo;\n".to_string());
    p.insert("net/minecraft/Foo$Bar", "bar;\n".to_string());
    p.insert("net/Mod", "mod;\n".to_string());
    p.insert("Top", "top;\n".to_string());
    p.insert("type/X", "x;\n".to_string());
    p.insert("net/minecraft/Foo", "foo2;\n".to_string());
    assert_eq!(
        p.to_tokens(),
        "pub mod net {\npub mod minecraft {\npub mod foo {\nbar;\n}\nfoo2;\n}\nmod;\n}\npub mod package_type {\nx;\n}\ntop;\n"
    );
    assert_eq!(p.position("net"), Some(0));
    assert_eq!(p.position("package_type"), Some(1));
    assert_eq!(p.position("minecraft"), None);
    assert_eq!(Package::new().to_tokens(), "");
}

#[test]
fn a_corpus_is_read_and_its_unit_emitted() {
    let files = vec![EXAMPLE.to_string()];
    let cfg = GenConfig::standard(false);
    let unit = rustcraft_mappings::codegen::generate(&files, &cfg).unwrap();
    assert_eq!(unit, auto_gen_impl(&parse_mappings(&files), &cfg).unwrap());
    assert_eq!(unit, rustcraft_mappings::codegen::generate(&files, &cfg).unwrap());
    assert!(try_parse_mappings(&files).is_ok());
    let bad_line = vec!["CLASS a A\n\tWHAT is this\n".to_string()];
    assert_eq!(rustcraft_mappings::codegen::generate(&bad_line, &cfg).unwrap_err(), "\tWHAT is this");
    let bad_type = vec!["CLASS a A\n\tFIELD f x Q\n".to_string()];
    assert_eq!(rustcraft_mappings::codegen::generate(&bad_type, &cfg).unwrap_err(), "Q");
}
