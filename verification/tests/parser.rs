use rustcraft_mappings::codegen::{Dispatch, GenConfig};
use rustcraft_mappings::parser::{parse_corpus, parse_file};
use rustcraft_mappings::text::is_whitespace;
use rustcraft_mappings::{
    parse_class_inner, parse_comments, parse_mappings, parse_method_args, split_lines,
    try_parse_class_inner, try_parse_mappings, try_parse_method_args, BareMethod, Mappings,
    SigType,
};

const EXAMPLE: &str = "CLASS net/minecraft/class_1 ExampleClass\n\tCOMMENT An example\n\tFIELD field_1 MY_FIELD I\n\tMETHOD method_1 doThing (I)V\n\t\tARG 0 value\n";

fn text(line: &Vec<char>) -> String {
    line.iter().collect()
}

#[test]
fn end_to_end_example() {
    let m = parse_mappings(&vec![EXAMPLE.to_string()]);
    assert_eq!(m.mapped_map.len(), 1);
    assert_eq!(m.mapped_map.key_at(0), "ExampleClass");
    assert_eq!(m.intermediary_map.len(), 1);
    assert_eq!(m.intermediary_map.key_at(0), "net/minecraft/class_1");
    assert_eq!(m.intermediary_map.value_at(0), "ExampleClass");

    let class = m.get("ExampleClass");
    assert_eq!(class.mapped_name, "ExampleClass");
    assert_eq!(class.intermediary_name, "net/minecraft/class_1");
    assert_eq!(class.comments, "An example");
    assert_eq!(m.get("net/minecraft/class_1").mapped_name, "ExampleClass");

    assert_eq!(class.fields.len(), 1);
    let field = class.fields.get("MyField").unwrap();
    assert_eq!(field.mapped_name, "MY_FIELD");
    assert_eq!(field.intermediary_name, "field_1");
    assert_eq!(field.field_type, "I");
    assert_eq!(field.mapped_field_type, "I");
    assert_eq!(field.modifiers, 0);
    assert!(matches!(
        rustcraft_mappings::sig::parse_descriptor(&field.mapped_field_type),
        Some(SigType::Int)
    ));

    assert_eq!(class.methods.len(), 1);
    let method = class.methods.get("doThing#(I)V").unwrap();
    assert_eq!(method.mapped_name, "doThing");
    assert_eq!(method.intermediary_name, "method_1");
    assert_eq!(method.signature, "(I)V");
    assert_eq!(method.mapped_signature, "(I)V");
    assert_eq!(method.args.len(), 1);
    assert_eq!(method.args[0].position, 0);
    assert_eq!(method.args[0].name, "value");
    assert_eq!(method.args[0].comment, "");
    match class.methods_nosig.get("doThing").unwrap() {
        BareMethod::Resolved(key) => assert_eq!(key, "doThing#(I)V"),
        BareMethod::Ambiguous => panic!("doThing is not overloaded"),
    }

    let cfg = GenConfig::standard(false);
    let operation = method.operation("net/minecraft/class_1", class, &cfg).unwrap().unwrap();
    assert_eq!(operation.name, "do_thing");
    assert_eq!(operation.dispatch, Dispatch::CallInstance);
    assert!(matches!(operation.result, SigType::Void));
    assert_eq!(operation.java_name, "method_1");
    assert_eq!(operation.descriptor, "(I)V");
}

#[test]
fn lines_end_at_line_feeds() {
    let lines = split_lines("a\nb\r\n\nc\r");
    let texts: Vec<String> = lines.iter().map(text).collect();
    assert_eq!(texts, vec!["a", "b", "", "c\r"]);
    assert_eq!(split_lines("").len(), 0);
    assert_eq!(split_lines("\n").len(), 1);
    assert_eq!(split_lines("x\n").len(), 1);
}

#[test]
fn comments_are_joined_in_order() {
    let lines = split_lines("\tCOMMENT first \n\tCOMMENT\n\t\tCOMMENT   second\n\tFIELD a I\n");
    let (comment, next) = parse_comments(&lines, 0);
    assert_eq!(comment, "firstsecond");
    assert_eq!(next, 3);
    let (none, at) = parse_comments(&lines, 3);
    assert_eq!(none, "");
    assert_eq!(at, 3);
    let (past, end) = parse_comments(&lines, 9);
    assert_eq!(past, "");
    assert_eq!(end, 9);
}

#[test]
fn a_comment_keeps_its_words() {
    let lines = split_lines("\tCOMMENT see the COMMENT above\n");
    let (comment, next) = parse_comments(&lines, 0);
    assert_eq!(comment, "see the COMMENT above");
    assert_eq!(next, 1);
}

#[test]
fn a_member_with_comment_in_its_name_is_no_comment() {
    let corpus = "CLASS a/b C\n\tFIELD f_1 COMMENT_PREFIX I\n\tFIELD f_2 TARGET I\n";
    let m = parse_mappings(&vec![corpus.to_string()]);
    let class = m.get("C");
    assert_eq!(class.fields.len(), 2);
    assert_eq!(class.fields.get("CommentPrefix").unwrap().intermediary_name, "f_1");
    assert_eq!(class.fields.get("Target").unwrap().intermediary_name, "f_2");
}

#[test]
fn arguments_carry_their_comments() {
    let lines = split_lines(
        "\t\tARG 1 first\n\t\t\tCOMMENT about first\n\t\tARG +12 second one\n\tMETHOD m ()V\n",
    );
    let (args, next) = parse_method_args(&lines, 0);
    assert_eq!(next, 3);
    assert_eq!(args.len(), 2);
    assert_eq!(args[0].position, 1);
    assert_eq!(args[0].name, "first");
    assert_eq!(args[0].comment, "about first");
    assert_eq!(args[0].modifiers, 0);
    assert_eq!(args[1].position, 12);
    assert_eq!(args[1].name, "second one");
    assert_eq!(args[1].comment, "");
}

#[test]
fn an_argument_needs_a_position_of_16_bits() {
    for bad in ["\t\tARG x name", "\t\tARG 65536 name", "\t\tARG -1 name", "\t\tARG 7", "\t\tARG"] {
        let lines = split_lines(bad);
        let e = try_parse_method_args(&lines, 0).unwrap_err();
        assert_eq!(e.line, bad);
    }
    let lines = split_lines("\t\tARG 65535 last\n\t\tARG 007 bond");
    let (args, _) = try_parse_method_args(&lines, 0).unwrap();
    assert_eq!(args[0].position, 65535);
    assert_eq!(args[1].position, 7);
}

#[test]
fn a_member_without_a_mapped_name_goes_by_its_intermediary_name() {
    let corpus = "CLASS a/class_9\n\tFIELD field_7 Z\n\tMETHOD method_8 ()V\n";
    let m = parse_mappings(&vec![corpus.to_string()]);
    let class = m.get("a/class_9");
    assert_eq!(class.intermediary_name, "a/class_9");
    let field = class.fields.get("Field7").unwrap();
    assert_eq!(field.mapped_name, "field_7");
    assert_eq!(field.intermediary_name, "field_7");
    assert_eq!(field.field_type, "Z");
    let method = class.get_method("method_8").unwrap();
    assert_eq!(method.mapped_name, "method_8");
    assert_eq!(method.signature, "()V");
}

#[test]
fn nested_classes_are_stored_flat_under_joined_names() {
    let corpus = "CLASS a/class_1 a/Outer\n\tCLASS class_2 Inner\n\t\tCOMMENT inside\n\t\tFIELD f_1 x I\n\t\tCLASS class_3 Deep\n\t\t\tMETHOD m_1 run ()V\n\tFIELD f_2 y J\n";
    let m = parse_mappings(&vec![corpus.to_string()]);
    assert_eq!(m.mapped_map.len(), 3);
    assert_eq!(m.mapped_map.key_at(0), "a/Outer$Inner$Deep");
    assert_eq!(m.mapped_map.key_at(1), "a/Outer$Inner");
    assert_eq!(m.mapped_map.key_at(2), "a/Outer");
    let deep = m.get("a/class_1$class_2$class_3");
    assert_eq!(deep.mapped_name, "a/Outer$Inner$Deep");
    assert!(deep.get_method("run").is_some());
    let inner = m.get("a/Outer$Inner");
    assert_eq!(inner.intermediary_name, "a/class_1$class_2");
    assert_eq!(inner.comments, "inside");
    assert_eq!(inner.fields.len(), 1);
    let outer = m.get("a/Outer");
    assert_eq!(outer.fields.len(), 1);
    assert_eq!(outer.fields.get("Y").unwrap().field_type, "J");
    assert!(m.is_consistent());
}

#[test]
fn a_line_with_too_little_indentation_ends_the_members() {
    let lines = split_lines("CLASS a A\n\tFIELD f x I\nFIELD g y I\n");
    let mut m = Mappings::new();
    let next = parse_class_inner(1, None, &lines, 0, &mut m);
    assert_eq!(next, 2);
    assert_eq!(m.get("A").fields.len(), 1);
}

#[test]
fn an_unknown_leading_word_is_fatal() {
    let corpus = "CLASS a A\n\tFIELD f x I\n\tTHING f x I\n";
    let e = try_parse_mappings(&vec![corpus.to_string()]).unwrap_err();
    assert_eq!(e.line, "\tTHING f x I");
    let e = try_parse_mappings(&vec!["KLASS a A\n".to_string()]).unwrap_err();
    assert_eq!(e.line, "KLASS a A");
    let e = try_parse_mappings(&vec!["CLASS a A\nFIELD g y I\n".to_string()]).unwrap_err();
    assert_eq!(e.line, "FIELD g y I");
}

#[test]
fn a_malformed_line_is_fatal() {
    let e = try_parse_mappings(&vec!["CLASS a A\n\tFIELD f\n".to_string()]).unwrap_err();
    assert_eq!(e.line, "\tFIELD f");
    let e = try_parse_mappings(&vec!["CLASS a A\n\tMETHOD\n".to_string()]).unwrap_err();
    assert_eq!(e.line, "\tMETHOD");
    let e = try_parse_mappings(&vec!["CLASS\n".to_string()]).unwrap_err();
    assert_eq!(e.line, "CLASS");
    let e = try_parse_mappings(&vec!["CLASS a A\n\tMETHOD m ()V\n\t\tARG one x\n".to_string()]).unwrap_err();
    assert_eq!(e.line, "\t\tARG one x");
    let lines = split_lines("");
    let mut m = Mappings::new();
    let e = try_parse_class_inner(1, None, &lines, 0, &mut m).unwrap_err();
    assert_eq!(e.line, "");
}

#[test]
fn a_file_may_hold_several_classes() {
    let corpus = "CLASS a A\n\tFIELD f x I\n\nCLASS b B\n\tMETHOD m run ()V\n\n";
    let mut m = Mappings::new();
    parse_file(corpus, &mut m).unwrap();
    assert_eq!(m.mapped_map.len(), 2);
    assert_eq!(m.get("a").mapped_name, "A");
    assert_eq!(m.get("b").mapped_name, "B");
}

#[test]
fn files_are_read_in_their_order() {
    let files = vec!["CLASS a A\n".to_string(), String::new(), "CLASS b B\n".to_string()];
    let m = parse_corpus(&files).unwrap();
    assert_eq!(m.mapped_map.key_at(0), "A");
    assert_eq!(m.mapped_map.key_at(1), "B");
}

#[test]
fn three_words_behind_class_give_the_first_for_both_names() {
    let m = parse_mappings(&vec!["CLASS a B c\n".to_string()]);
    assert_eq!(m.get("a").mapped_name, "a");
    assert_eq!(m.get("a").intermediary_name, "a");
}

#[test]
fn a_class_may_be_read_with_any_indent() {
    let lines = split_lines("CLASS a A\n\t\t\tFIELD f x I\n\t\t\t\tCOMMENT deep\n\t\tFIELD g y I\n");
    let mut m = Mappings::new();
    let next = parse_class_inner(3, None, &lines, 0, &mut m);
    assert_eq!(next, 3);
    assert_eq!(m.get("A").fields.len(), 1);
    assert_eq!(m.get("A").fields.get("X").unwrap().comments, "deep");
    let mut n = Mappings::new();
    assert_eq!(try_parse_class_inner(usize::MAX, None, &lines, 0, &mut n).unwrap(), 1);
    assert_eq!(n.get("A").fields.len(), 0);
    let mut o = Mappings::new();
    assert_eq!(try_parse_class_inner(0, None, &lines, 0, &mut o).unwrap(), 4);
    assert_eq!(o.get("A").fields.len(), 2);
}

#[test]
fn whitespace_is_what_the_standard_library_takes_for_it() {
    for n in 0..=0x10ffffu32 {
        if let Some(c) = char::from_u32(n) {
            assert_eq!(is_whitespace(c), c.is_whitespace(), "{:x}", n);
        }
    }
}

#[test]
fn whitespace_around_a_line_is_dropped() {
    let lines = split_lines("\u{3000}\tCOMMENT \u{a0} wide \u{2003}\n");
    let (comment, next) = parse_comments(&lines, 0);
    assert_eq!(comment, "wide");
    assert_eq!(next, 1);
}
