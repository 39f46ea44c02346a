use rustcraft_mappings::cache::{mappings_from, mappings_record};
use rustcraft_mappings::{
    decode_mappings, encode_mappings, load_mappings, parse_mappings, try_parse_mappings,
};

const CORPUS: &str = "CLASS net/minecraft/class_1 net/minecraft/block/Block\n\tCOMMENT A block\n\tFIELD field_1 hardness F\n\t\tCOMMENT how hard\n\tMETHOD method_1 getHardness ()F\n\tMETHOD method_4 of (I)V\n\t\tARG 0 amount\n\t\t\tCOMMENT how many\n\tMETHOD method_5 of (J)V\n\tCLASS class_2 Settings\n\t\tMETHOD method_2 strength (F)Lnet/minecraft/class_1$class_2;\nCLASS net/minecraft/class_3 net/minecraft/world/World\n\tMETHOD method_3 getBlock ()Lnet/minecraft/class_1;\n";

#[test]
fn a_cache_holds_the_index_that_was_put_in_it() {
    let parsed = parse_mappings(&vec![CORPUS.to_string()]);
    let bytes = encode_mappings(&parsed);
    assert!(!bytes.is_empty());
    let loaded = decode_mappings(&bytes).unwrap();
    assert_eq!(format!("{:?}", loaded), format!("{:?}", parsed));
    assert_eq!(encode_mappings(&loaded), bytes);
}

#[test]
fn plain_values_stand_for_the_index_they_were_made_of() {
    let parsed = parse_mappings(&vec![CORPUS.to_string()]);
    let record = mappings_record(&parsed);
    assert_eq!(record.0.len(), 3);
    assert_eq!(record.1.len(), 3);
    let back = mappings_from(record);
    assert_eq!(format!("{:?}", back), format!("{:?}", parsed));
}

#[test]
fn bytes_that_hold_no_index_are_refused() {
    assert!(decode_mappings(&vec![1, 2, 3, 4, 5, 6, 7]).is_none());
    let parsed = parse_mappings(&vec![CORPUS.to_string()]);
    let mut bytes = encode_mappings(&parsed);
    bytes.truncate(bytes.len() / 2);
    assert!(decode_mappings(&bytes).is_none());
}

#[test]
fn a_cache_with_an_alias_that_leads_nowhere_is_refused() {
    let mut index = parse_mappings(&vec![CORPUS.to_string()]);
    index.insert("net/minecraft/Missing".to_string(), "net/minecraft/class_9".to_string());
    let bytes = encode_mappings(&index);
    assert!(decode_mappings(&bytes).is_none());
}

#[test]
fn an_index_from_the_cache_is_used_and_the_corpus_is_not_read() {
    let parsed = parse_mappings(&vec![CORPUS.to_string()]);
    let bytes = encode_mappings(&parsed);
    let broken = vec!["NOT A CORPUS".to_string()];
    let (index, written) = load_mappings(decode_mappings(&bytes), &broken).unwrap();
    assert!(written.is_none());
    assert_eq!(format!("{:?}", index), format!("{:?}", parsed));
}

#[test]
fn without_a_cache_the_corpus_is_read_and_a_cache_is_written() {
    let files = vec![CORPUS.to_string()];
    let parsed = parse_mappings(&files);
    let (index, written) = load_mappings(None, &files).unwrap();
    assert_eq!(format!("{:?}", index), format!("{:?}", parsed));
    assert_eq!(written.unwrap(), encode_mappings(&parsed));
    let corrupt = vec![9u8, 9, 9];
    let (again, fresh) = load_mappings(decode_mappings(&corrupt), &files).unwrap();
    assert_eq!(format!("{:?}", again), format!("{:?}", parsed));
    assert_eq!(fresh.unwrap(), encode_mappings(&parsed));
    let e = load_mappings(decode_mappings(&corrupt), &vec!["NOT A CORPUS".to_string()]).unwrap_err();
    assert_eq!(e.line, "NOT A CORPUS");
    assert_eq!(
        try_parse_mappings(&vec!["NOT A CORPUS".to_string()]).unwrap_err().line,
        "NOT A CORPUS"
    );
}
