use std::rc::Rc;

use classfile::components::{
    AccessFlags, Attribute, ClassInfo, ConstantPoolItem, ConstantPoolResolver, LongOrDoubleInfo,
    Utf8Info,
};
use classfile::primitives::{ByteReader, PrimitiveIterator};
use classfile::{ClassFile, ParserError};

fn be2(bytes: &mut Vec<u8>, value: u16) {
    bytes.push((value >> 8) as u8);
    bytes.push(value as u8);
}

fn be4(bytes: &mut Vec<u8>, value: u32) {
    be2(bytes, (value >> 16) as u16);
    be2(bytes, value as u16);
}

fn utf8_entry(bytes: &mut Vec<u8>, text: &str) {
    bytes.push(1);
    be2(bytes, text.len() as u16);
    bytes.extend_from_slice(text.as_bytes());
}

fn utf8_item(text: &str) -> ConstantPoolItem {
    ConstantPoolItem::Utf8(Rc::new(Utf8Info {
        tag: 1,
        length: text.len() as u16,
        value: text.to_string(),
    }))
}

#[test]
fn unknown_tag_yields_unknown_constant_pool_tag() {
    // The failure consumes exactly the one tag byte: the next read hands
    // out the byte right behind it.
    let mut reader = ByteReader::new(vec![2, 0xAB, 0xCD]);
    let result = ConstantPoolItem::from(&mut reader);

    assert!(matches!(result, Err(ParserError::UnknownConstantPoolTag(2))));
    assert!(matches!(reader.next_u1(), Ok(0xAB)));
}

#[test]
fn zero_constant_pool_count_is_malformed() {
    // A declared constant-pool count of zero cannot describe any pool:
    // decoding fails even though the rest of the stream would parse.
    let mut bytes: Vec<u8> = Vec::new();
    be4(&mut bytes, 0xCAFEBABE);
    be2(&mut bytes, 0);
    be2(&mut bytes, 52);
    be2(&mut bytes, 0); // constant_pool_count
    be2(&mut bytes, 0x0001); // access_flags
    be2(&mut bytes, 0); // this_class
    be2(&mut bytes, 0); // super_class
    be2(&mut bytes, 0); // interfaces_count
    be2(&mut bytes, 0); // fields_count
    be2(&mut bytes, 0); // methods_count
    be2(&mut bytes, 0); // attributes_count

    let mut reader = ByteReader::new(bytes);
    let result = ClassFile::from(&mut reader);

    assert!(matches!(result, Err(ParserError::UnexpectedEndOfInput)));
}

#[test]
fn failed_attribute_name_resolution_stops_after_the_index() {
    // The name index names a Class entry, not a Utf8 one: the failure
    // consumes exactly the two index bytes and nothing of the length field.
    let pool = vec![ConstantPoolItem::Class(Rc::new(ClassInfo { tag: 7, name_index: 1 }))];

    let mut bytes: Vec<u8> = Vec::new();
    be2(&mut bytes, 1);
    be4(&mut bytes, 0x1234_5678);

    let mut reader = ByteReader::new(bytes);
    let result = Attribute::from(&mut reader, &pool);

    match result {
        Err(ParserError::UnexpectedConstantPoolItem(found)) => assert_eq!(found, "Class"),
        other => panic!("expected an unexpected-item failure, found {:?}", other),
    }
    assert!(matches!(reader.next_u4(), Ok(0x1234_5678)));
}

#[test]
fn truncated_pool_entry_yields_unexpected_end_of_input() {
    // The header declares two pool slots but the stream ends inside the
    // first entry's payload.
    let mut bytes: Vec<u8> = Vec::new();
    be4(&mut bytes, 0xCAFEBABE);
    be2(&mut bytes, 0);
    be2(&mut bytes, 52);
    be2(&mut bytes, 3);
    bytes.push(7); // a Class entry, but only one of its two payload bytes
    bytes.push(0);

    let mut reader = ByteReader::new(bytes);
    let result = ClassFile::from(&mut reader);

    assert!(matches!(result, Err(ParserError::UnexpectedEndOfInput)));
}

#[test]
fn empty_input_yields_unexpected_end_of_input() {
    let mut reader = ByteReader::new(Vec::new());
    let result = ClassFile::from(&mut reader);

    assert!(matches!(result, Err(ParserError::UnexpectedEndOfInput)));
}

#[test]
fn malformed_text_yields_invalid_utf8() {
    let mut bytes: Vec<u8> = vec![1];
    be2(&mut bytes, 2);
    bytes.push(0xFF);
    bytes.push(0xFE);

    let mut reader = ByteReader::new(bytes);
    let result = ConstantPoolItem::from(&mut reader);

    assert!(matches!(result, Err(ParserError::InvalidUtf8)));
}

#[test]
fn multibyte_text_is_decoded_from_its_bytes() {
    let mut bytes: Vec<u8> = vec![1];
    be2(&mut bytes, 2);
    bytes.push(0xC3);
    bytes.push(0xA9);

    let mut reader = ByteReader::new(bytes);
    let item = ConstantPoolItem::from(&mut reader).unwrap();

    match item {
        ConstantPoolItem::Utf8(info) => {
            assert_eq!(info.length, 2);
            assert_eq!(info.as_str(), "\u{e9}");
        },
        other => panic!("expected a Utf8 entry, found {:?}", other),
    }
}

#[test]
fn integer_entry_reads_big_endian_payload() {
    let mut reader = ByteReader::new(vec![3, 0x12, 0x34, 0x56, 0x78]);
    let item = ConstantPoolItem::from(&mut reader).unwrap();

    match item {
        ConstantPoolItem::Integer(info) => {
            assert_eq!(info.tag, 3);
            assert_eq!(info.bytes, 0x12345678);
        },
        other => panic!("expected an Integer entry, found {:?}", other),
    }
}

#[test]
fn long_entry_reads_both_words() {
    let mut reader = ByteReader::new(vec![5, 0, 0, 0, 1, 0xCA, 0xFE, 0xBA, 0xBE]);
    let item = ConstantPoolItem::from(&mut reader).unwrap();

    match item {
        ConstantPoolItem::Long(info) => {
            assert_eq!(info.high_bytes, 1);
            assert_eq!(info.low_bytes, 0xCAFEBABE);
        },
        other => panic!("expected a Long entry, found {:?}", other),
    }
}

#[test]
fn resolving_declared_index_zero_is_out_of_bounds() {
    let pool = vec![utf8_item("anything")];
    let result = ConstantPoolItem::retrieve_utf8_info(0, &pool);

    assert!(matches!(result, Err(ParserError::ConstantPoolIndexOutOfBounds(0))));
}

#[test]
fn resolving_an_index_past_the_pool_is_out_of_bounds() {
    let pool = vec![utf8_item("anything")];
    let result = ConstantPoolItem::retrieve_utf8_info(3, &pool);

    assert!(matches!(result, Err(ParserError::ConstantPoolIndexOutOfBounds(2))));
}

#[test]
fn resolving_a_utf8_entry_as_a_class_is_an_unexpected_item() {
    let pool = vec![utf8_item("HelloWorld")];
    let result = ConstantPoolItem::retrieve_class_info(1, &pool);

    match result {
        Err(ParserError::UnexpectedConstantPoolItem(found)) => assert_eq!(found, "Utf8"),
        other => panic!("expected an unexpected-item failure, found {:?}", other),
    }
}

#[test]
fn long_entries_are_followed_by_a_placeholder_slot() {
    // Three declared slots: a Long (which fills two) and an Integer.
    let mut bytes: Vec<u8> = Vec::new();
    bytes.push(5);
    be4(&mut bytes, 0);
    be4(&mut bytes, 42);
    bytes.push(3);
    be4(&mut bytes, 7);

    let mut reader = ByteReader::new(bytes);
    let pool = ClassFile::build_constant_pool(3, &mut reader).unwrap();

    assert_eq!(pool.len(), 3);
    assert!(matches!(pool[0], ConstantPoolItem::Long(..)));
    assert!(matches!(pool[1], ConstantPoolItem::Empty));
    assert!(matches!(pool[2], ConstantPoolItem::Integer(..)));
}

#[test]
fn nothing_resolves_to_the_placeholder_slot() {
    let pool = vec![
        ConstantPoolItem::Long(Rc::new(LongOrDoubleInfo { tag: 5, high_bytes: 0, low_bytes: 42 })),
        ConstantPoolItem::Empty,
    ];

    let as_long = ConstantPoolItem::retrieve_long_info(2, &pool);
    match as_long {
        Err(ParserError::UnexpectedConstantPoolItem(found)) => assert_eq!(found, "Empty"),
        other => panic!("expected an unexpected-item failure, found {:?}", other),
    }
    let as_class = ConstantPoolItem::retrieve_class_info(2, &pool);
    assert!(matches!(as_class, Err(ParserError::UnexpectedConstantPoolItem(..))));
}

#[test]
fn retrieve_item_hands_back_the_shifted_slot() {
    let pool = vec![
        utf8_item("first"),
        ConstantPoolItem::Class(Rc::new(ClassInfo { tag: 7, name_index: 1 })),
    ];

    let item = ConstantPoolItem::retrieve_item(2, &pool).unwrap();
    assert!(matches!(item, &ConstantPoolItem::Class(..)));
    assert!(matches!(ConstantPoolItem::retrieve_item(0, &pool), Err(..)));
}

#[test]
fn friendly_names_describe_the_kind_found() {
    assert_eq!(ConstantPoolItem::Empty.to_friendly_name(), "Empty");
    assert_eq!(utf8_item("x").to_friendly_name(), "Utf8");
    assert_eq!(
        ConstantPoolItem::Class(Rc::new(ClassInfo { tag: 7, name_index: 1 })).to_friendly_name(),
        "Class",
    );
    assert_eq!(
        ConstantPoolItem::Long(Rc::new(LongOrDoubleInfo { tag: 5, high_bytes: 0, low_bytes: 0 }))
            .to_friendly_name(),
        "Not yet implemented",
    );
}

#[test]
fn unknown_attributes_consume_exactly_their_declared_length() {
    // Two opaque attributes in a row: the second decodes correctly only if
    // the first advanced the cursor by exactly its declared length.
    let pool = vec![utf8_item("First"), utf8_item("Second")];

    let mut bytes: Vec<u8> = Vec::new();
    be2(&mut bytes, 1);
    be4(&mut bytes, 3);
    bytes.extend_from_slice(&[10, 11, 12]);
    be2(&mut bytes, 2);
    be4(&mut bytes, 2);
    bytes.extend_from_slice(&[13, 14]);

    let mut reader = ByteReader::new(bytes);
    let first = Attribute::from(&mut reader, &pool).unwrap();
    let second = Attribute::from(&mut reader, &pool).unwrap();

    match first {
        Attribute::Unknown { attribute_name, info } => {
            assert_eq!(attribute_name.as_str(), "First");
            assert_eq!(info, vec![10, 11, 12]);
        },
        other => panic!("expected an opaque attribute, found {:?}", other),
    }
    match second {
        Attribute::Unknown { attribute_name, info } => {
            assert_eq!(attribute_name.as_str(), "Second");
            assert_eq!(info, vec![13, 14]);
        },
        other => panic!("expected an opaque attribute, found {:?}", other),
    }
    assert!(matches!(
        reader.next_u1(),
        Err(ParserError::UnexpectedEndOfInput)
    ));
}

#[test]
fn code_attribute_reads_its_own_structure() {
    let pool = vec![utf8_item("Code"), utf8_item("Opaque")];

    let mut bytes: Vec<u8> = Vec::new();
    be2(&mut bytes, 1); // name: "Code"
    be4(&mut bytes, 18); // declared length
    be2(&mut bytes, 2); // max_stack
    be2(&mut bytes, 3); // max_locals
    be4(&mut bytes, 2); // code_length
    bytes.extend_from_slice(&[0x12, 0xb1]);
    be2(&mut bytes, 1); // exception_table_length
    be2(&mut bytes, 0); // start_pc
    be2(&mut bytes, 2); // end_pc
    be2(&mut bytes, 2); // handler_pc
    be2(&mut bytes, 0); // catch_type: catch-all
    be2(&mut bytes, 0); // nested attributes_count

    let mut reader = ByteReader::new(bytes);
    let attribute = Attribute::from(&mut reader, &pool).unwrap();

    match attribute {
        Attribute::Code(code) => {
            assert_eq!(code.max_stack, 2);
            assert_eq!(code.max_locals, 3);
            assert_eq!(code.code_length, 2);
            assert_eq!(code.code, vec![0x12, 0xb1]);
            assert_eq!(code.exception_table_length, 1);
            assert_eq!(code.exception_table.len(), 1);
            assert_eq!(code.exception_table[0].start_pc, 0);
            assert_eq!(code.exception_table[0].end_pc, 2);
            assert_eq!(code.exception_table[0].handler_pc, 2);
            assert_eq!(code.exception_table[0].catch_type, 0);
            assert_eq!(code.attributes_count, 0);
            assert_eq!(code.attributes.len(), 0);
        },
        other => panic!("expected a code attribute, found {:?}", other),
    }
}

#[test]
fn resolve_string_constant_follows_both_indices() {
    let mut pool_bytes: Vec<u8> = Vec::new();
    utf8_entry(&mut pool_bytes, "hello world");
    pool_bytes.push(8);
    be2(&mut pool_bytes, 1);

    let mut reader = ByteReader::new(pool_bytes);
    let first = ConstantPoolItem::from(&mut reader).unwrap();
    let second = ConstantPoolItem::from(&mut reader).unwrap();
    let pool = vec![first, second];

    let resolver = ConstantPoolResolver { constant_pool: &pool };
    assert_eq!(resolver.resolve_string_constant(2).unwrap(), "hello world");
    assert!(matches!(
        resolver.resolve_string_constant(1),
        Err(ParserError::UnexpectedConstantPoolItem(..))
    ));
}

#[test]
fn absent_method_resolves_to_none() {
    let mut bytes: Vec<u8> = Vec::new();
    be4(&mut bytes, 0xCAFEBABE);
    be2(&mut bytes, 0);
    be2(&mut bytes, 52);
    be2(&mut bytes, 2);
    utf8_entry(&mut bytes, "NoMethods");
    be2(&mut bytes, 0x0001); // access_flags
    be2(&mut bytes, 0); // this_class (left dangling on purpose)
    be2(&mut bytes, 0); // super_class
    be2(&mut bytes, 0); // interfaces_count
    be2(&mut bytes, 0); // fields_count
    be2(&mut bytes, 0); // methods_count
    be2(&mut bytes, 0); // attributes_count

    let mut reader = ByteReader::new(bytes);
    let classfile = ClassFile::from(&mut reader).unwrap();

    assert!(classfile.maybe_resolve_method("main").is_none());
    assert!(classfile.maybe_resolve_main_method().is_none());
    assert!(matches!(
        classfile.classname(),
        Err(ParserError::ConstantPoolIndexOutOfBounds(0))
    ));
}

#[test]
fn access_flag_bits_are_read_exactly() {
    assert!(AccessFlags::is_public(0x0001));
    assert!(!AccessFlags::is_public(0x0020));
    assert!(AccessFlags::is_private(0x0002));
    assert!(AccessFlags::is_protected(0x0004));
    assert!(AccessFlags::is_static(0x0008));
    assert!(AccessFlags::is_final(0x0010));
    assert!(AccessFlags::is_super(0x0021));
    assert!(AccessFlags::is_volatile(0x0040));
    assert!(AccessFlags::is_bridge(0x0040));
    assert!(AccessFlags::is_transient(0x0080));
    assert!(AccessFlags::is_varargs(0x0080));
    assert!(AccessFlags::is_native(0x0100));
    assert!(AccessFlags::is_interface(0x0200));
    assert!(AccessFlags::is_abstract(0x0400));
    assert!(AccessFlags::is_strict(0x0800));
    assert!(AccessFlags::is_synthetic(0x1000));
    assert!(AccessFlags::is_annotation(0x2000));
    assert!(AccessFlags::is_enum(0x4000));
    assert!(!AccessFlags::is_enum(0x3FFF));
}

#[test]
fn method_resolution_returns_the_first_match() {
    let mut bytes: Vec<u8> = Vec::new();
    be4(&mut bytes, 0xCAFEBABE);
    be2(&mut bytes, 0);
    be2(&mut bytes, 52);
    be2(&mut bytes, 4); // three usable pool slots
    utf8_entry(&mut bytes, "dup");
    utf8_entry(&mut bytes, "()V");
    utf8_entry(&mut bytes, "(I)V");
    be2(&mut bytes, 0x0001); // access_flags
    be2(&mut bytes, 0); // this_class
    be2(&mut bytes, 0); // super_class
    be2(&mut bytes, 0); // interfaces_count
    be2(&mut bytes, 0); // fields_count
    be2(&mut bytes, 2); // methods_count: two methods sharing one name
    be2(&mut bytes, 0x0001);
    be2(&mut bytes, 1);
    be2(&mut bytes, 2);
    be2(&mut bytes, 0);
    be2(&mut bytes, 0x0001);
    be2(&mut bytes, 1);
    be2(&mut bytes, 3);
    be2(&mut bytes, 0);
    be2(&mut bytes, 0); // attributes_count

    let mut reader = ByteReader::new(bytes);
    let classfile = ClassFile::from(&mut reader).unwrap();

    let found = classfile.maybe_resolve_method("dup").unwrap();
    assert_eq!(found.descriptor.as_str(), "()V");
}

#[test]
fn method_handle_entry_reads_kind_and_index() {
    let mut reader = ByteReader::new(vec![15, 6, 0x01, 0x02]);
    let item = ConstantPoolItem::from(&mut reader).unwrap();

    match item {
        ConstantPoolItem::MethodHandle { tag, reference_kind, reference_index } => {
            assert_eq!(tag, 15);
            assert_eq!(reference_kind, 6);
            assert_eq!(reference_index, 0x0102);
        },
        other => panic!("expected a MethodHandle entry, found {:?}", other),
    }

    let mut truncated = ByteReader::new(vec![15, 6]);
    assert!(matches!(
        ConstantPoolItem::from(&mut truncated),
        Err(ParserError::UnexpectedEndOfInput)
    ));
}

#[test]
fn method_type_entry_reads_its_descriptor_index() {
    let mut reader = ByteReader::new(vec![16, 0x00, 0x2A]);
    let item = ConstantPoolItem::from(&mut reader).unwrap();

    match item {
        ConstantPoolItem::MethodType { tag, descriptor_index } => {
            assert_eq!(tag, 16);
            assert_eq!(descriptor_index, 42);
        },
        other => panic!("expected a MethodType entry, found {:?}", other),
    }
}

#[test]
fn invoke_dynamic_entry_reads_both_indices() {
    let mut reader = ByteReader::new(vec![18, 0x00, 0x03, 0x00, 0x13]);
    let item = ConstantPoolItem::from(&mut reader).unwrap();

    match item {
        ConstantPoolItem::InvokeDynamic { tag, bootstrap_method_attr_index, name_and_type_index } => {
            assert_eq!(tag, 18);
            assert_eq!(bootstrap_method_attr_index, 3);
            assert_eq!(name_and_type_index, 0x13);
        },
        other => panic!("expected an InvokeDynamic entry, found {:?}", other),
    }
}
