use rustcraft_mappings::{
    java_to_rust_class, java_to_rust_field, java_to_rust_method, java_to_rust_package,
    method_to_java_convention, normalize, rust_to_java_method, to_rust_convention,
};

fn guard(word: &str, prefix: &str) -> (bool, String) {
    let mut s = word.to_string();
    let collision = normalize(&mut s, prefix);
    (collision, s)
}

#[test]
fn every_reserved_word_triggers_the_guard() {
    let words = [
        "type", "match", "move", "use", "self", "in", "where", "macro", "impl", "box", "mod",
        "ref", "as", "true", "false", "continue",
    ];
    for word in words {
        let (collision, s) = guard(word, "method_");
        assert!(collision, "{} is reserved", word);
        assert_eq!(s, format!("method_{}", word));
    }
}

#[test]
fn a_leading_digit_triggers_the_guard() {
    assert_eq!(guard("1abc", "package_"), (true, "package_1abc".to_string()));
    assert_eq!(guard("9", "Class"), (true, "Class9".to_string()));
}

#[test]
fn other_text_is_left_as_it_is() {
    assert_eq!(guard("value", "method_"), (false, "value".to_string()));
    assert_eq!(guard("types", "method_"), (false, "types".to_string()));
    assert_eq!(guard("a1", "method_"), (false, "a1".to_string()));
    assert_eq!(guard("Type", "method_"), (false, "Type".to_string()));
}

#[test]
fn the_empty_text_needs_no_guard() {
    assert_eq!(guard("", "method_"), (false, String::new()));
}

#[test]
fn the_guard_with_an_empty_prefix_only_reports() {
    assert_eq!(guard("type", ""), (true, "type".to_string()));
}

#[test]
fn snake_case_becomes_type_style() {
    assert_eq!(to_rust_convention("MY_FIELD"), "MyField");
    assert_eq!(to_rust_convention("field_1234"), "Field1234");
    assert_eq!(to_rust_convention("isClient"), "Isclient");
    assert_eq!(to_rust_convention("SUCCESS"), "Success");
    assert_eq!(method_to_java_convention("CONSUME_PARTIAL"), "ConsumePartial");
}

#[test]
fn empty_segments_add_nothing() {
    assert_eq!(to_rust_convention(""), "");
    assert_eq!(to_rust_convention("a__b"), "AB");
    assert_eq!(to_rust_convention("_a_"), "A");
}

#[test]
fn snake_case_becomes_a_camel_case_member() {
    assert_eq!(rust_to_java_method("on_stepped_on"), "onSteppedOn");
    assert_eq!(rust_to_java_method("on_use"), "onUse");
    assert_eq!(rust_to_java_method("tick"), "tick");
    assert_eq!(rust_to_java_method("Get_X"), "getX");
}

#[test]
fn a_class_keeps_its_name_behind_the_guard() {
    assert_eq!(java_to_rust_class("ExampleClass"), "ExampleClass");
    assert_eq!(java_to_rust_class("type"), "Classtype");
    assert_eq!(java_to_rust_class("1"), "Class1");
}

#[test]
fn a_method_is_put_in_snake_case() {
    assert_eq!(java_to_rust_method("doThing"), "do_thing");
    assert_eq!(java_to_rust_method("getPlayerManager"), "get_player_manager");
    assert_eq!(java_to_rust_method("DoThing"), "do_thing");
    assert_eq!(java_to_rust_method("getX"), "get_x");
    assert_eq!(java_to_rust_method("type"), "method_type");
    assert_eq!(java_to_rust_method("method_1234"), "method_1234");
}

#[test]
fn a_package_is_put_in_snake_case() {
    assert_eq!(java_to_rust_package("minecraft"), "minecraft");
    assert_eq!(java_to_rust_package("AbstractBlock"), "abstract_block");
    assert_eq!(java_to_rust_package("mod"), "package_mod");
    assert_eq!(java_to_rust_package("Type"), "package_type");
}

#[test]
fn a_field_is_lower_cased_or_put_in_snake_case() {
    assert_eq!(java_to_rust_field("MY_FIELD"), "my_field");
    assert_eq!(java_to_rust_field("isClient"), "is_client");
    assert_eq!(java_to_rust_field("Mixed"), "mixed");
    assert_eq!(java_to_rust_field(""), "");
}
