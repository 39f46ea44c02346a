use rustcraft_mappings::resolve::resolve_key;
use rustcraft_mappings::{convert_sig, parse_mappings, replace_mappings, BareMethod, NameTable};

fn aliases() -> NameTable<String> {
    let mut t = NameTable::new();
    t.insert("net/minecraft/class_1".to_string(), "net/minecraft/Example".to_string());
    t.insert("net/minecraft/class_2".to_string(), "net/minecraft/Other".to_string());
    t
}

#[test]
fn object_references_are_rewritten() {
    let t = aliases();
    assert_eq!(
        replace_mappings(&t, "(Lnet/minecraft/class_1;I[Lnet/minecraft/class_2;)Lnet/minecraft/class_1;"),
        "(Lnet/minecraft/Example;I[Lnet/minecraft/Other;)Lnet/minecraft/Example;"
    );
    assert_eq!(replace_mappings(&t, "(IZ)V"), "(IZ)V");
    assert_eq!(replace_mappings(&t, ""), "");
}

#[test]
fn a_name_without_an_alias_stays() {
    let t = aliases();
    assert_eq!(
        replace_mappings(&t, "(Ljava/lang/String;)Lnet/minecraft/class_3;"),
        "(Ljava/lang/String;)Lnet/minecraft/class_3;"
    );
}

#[test]
fn a_reference_without_its_end_is_cut_off() {
    let t = aliases();
    assert_eq!(replace_mappings(&t, "(ILnet/minecraft/class_1"), "(IL");
    assert_eq!(replace_mappings(&t, "L"), "L");
}

#[test]
fn a_method_key_is_rewritten_behind_its_name() {
    let t = aliases();
    assert_eq!(
        resolve_key(&t, "doThing#(Lnet/minecraft/class_1;)V"),
        "doThing#(Lnet/minecraft/Example;)V"
    );
    assert_eq!(resolve_key(&t, "plain"), "plain");
    assert_eq!(resolve_key(&t, "Lnet/minecraft/class_1;#I"), "Lnet/minecraft/class_1;#I");
}

#[test]
fn forward_references_are_resolved() {
    let corpus = "CLASS net/minecraft/class_1 net/minecraft/First\n\tFIELD field_1 next Lnet/minecraft/class_2;\n\tMETHOD method_1 make (Lnet/minecraft/class_2;)Lnet/minecraft/class_1;\nCLASS net/minecraft/class_2 net/minecraft/Second\n";
    let m = parse_mappings(&vec![corpus.to_string()]);
    let first = m.get("net/minecraft/First");
    let field = first.fields.get("Next").unwrap();
    assert_eq!(field.field_type, "Lnet/minecraft/class_2;");
    assert_eq!(field.mapped_field_type, "Lnet/minecraft/Second;");
    assert_eq!(first.methods.len(), 1);
    assert_eq!(
        first.methods.key_at(0),
        "make#(Lnet/minecraft/Second;)Lnet/minecraft/First;"
    );
    let method = first.get_method("make").unwrap();
    assert_eq!(method.signature, "(Lnet/minecraft/class_2;)Lnet/minecraft/class_1;");
    assert_eq!(method.mapped_signature, "(Lnet/minecraft/Second;)Lnet/minecraft/First;");
    match first.methods_nosig.get("make").unwrap() {
        BareMethod::Resolved(key) => {
            assert_eq!(key, "make#(Lnet/minecraft/Second;)Lnet/minecraft/First;")
        }
        BareMethod::Ambiguous => panic!("make is not overloaded"),
    }
    assert_eq!(
        convert_sig(&m, "(Lnet/minecraft/class_1;)V"),
        "(Lnet/minecraft/First;)V"
    );
}
