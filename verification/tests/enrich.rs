use rustcraft_mappings::{parse_mappings, ClassModifiers, Mappings, MethodModifiers, Modifier};

const CORPUS: &str = "CLASS a a/A\n\tFIELD f_1 x I\n\tFIELD f_2 y I\n\tMETHOD m_1 run (II)V\n\t\tARG 0 first\n\t\tARG 1 second\n\tMETHOD m_2 stop ()V\nCLASS b b/B\n";

fn index() -> Mappings {
    parse_mappings(&vec![CORPUS.to_string()])
}

fn answers() -> Vec<ClassModifiers> {
    vec![
        ClassModifiers {
            methods: vec![
                MethodModifiers { method: 1, args: vec![2, 0x0103] },
                MethodModifiers { method: 0x0200, args: vec![] },
            ],
            fields: vec![3, 0xffff],
        },
        ClassModifiers { methods: vec![], fields: vec![] },
    ]
}

#[test]
fn every_member_takes_its_answer() {
    let mut m = index();
    assert!(m.fits(&answers()));
    assert!(m.set_modifiers(&answers()));
    let class = m.get("a/A");
    let run = class.get_method("run").unwrap();
    assert_eq!(run.modifiers, 1);
    assert!(Modifier::Static.is_set(run.modifiers));
    assert_eq!(run.args[0].modifiers, 2);
    assert_eq!(run.args[1].modifiers, 3);
    assert_eq!(run.args[1].name, "second");
    assert_eq!(run.mapped_name, "run");
    assert_eq!(class.get_method("stop").unwrap().modifiers, 0);
    assert_eq!(class.fields.get("X").unwrap().modifiers, 3);
    assert_eq!(class.fields.get("Y").unwrap().modifiers, 255);
    assert_eq!(class.fields.get("Y").unwrap().intermediary_name, "f_2");
    assert!(m.is_consistent());
}

#[test]
fn answers_of_another_shape_change_nothing() {
    let before = format!("{:?}", index());
    let mut short = answers();
    short.pop();
    let mut m = index();
    assert!(!m.set_modifiers(&short));
    assert_eq!(format!("{:?}", m), before);

    let mut wrong_args = answers();
    wrong_args[0].methods[1].args.push(1);
    let mut m = index();
    assert!(!m.fits(&wrong_args));
    assert!(!m.set_modifiers(&wrong_args));
    assert_eq!(format!("{:?}", m), before);

    let mut wrong_fields = answers();
    wrong_fields[0].fields.pop();
    let mut m = index();
    assert!(!m.set_modifiers(&wrong_fields));
    assert_eq!(format!("{:?}", m), before);
}

#[test]
fn a_method_takes_an_answer_with_one_set_for_each_argument() {
    let m = index();
    let mut run = m.get("a/A").get_method("run").unwrap().clone();
    assert!(!run.set_modifiers(&MethodModifiers { method: 1, args: vec![1] }));
    assert_eq!(run.modifiers, 0);
    assert!(run.set_modifiers(&MethodModifiers { method: 257, args: vec![1, 2] }));
    assert_eq!(run.modifiers, 1);
    assert_eq!(run.args[0].modifiers, 1);
    assert_eq!(run.args[1].modifiers, 2);
}
