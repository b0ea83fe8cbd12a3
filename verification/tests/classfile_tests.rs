use classfile::components::{AccessFlags, Attribute, ConstantPoolItem};
use classfile::primitives::{ByteReader, U2};
use classfile::ClassFile;

fn push_u2(bytes: &mut Vec<u8>, value: u16) {
    bytes.push((value >> 8) as u8);
    bytes.push(value as u8);
}

fn push_u4(bytes: &mut Vec<u8>, value: u32) {
    push_u2(bytes, (value >> 16) as u16);
    push_u2(bytes, value as u16);
}

fn push_utf8(bytes: &mut Vec<u8>, text: &str) {
    bytes.push(1);
    push_u2(bytes, text.len() as u16);
    bytes.extend_from_slice(text.as_bytes());
}

fn push_class(bytes: &mut Vec<u8>, name_index: u16) {
    bytes.push(7);
    push_u2(bytes, name_index);
}

fn push_code_attribute(bytes: &mut Vec<u8>, name_index: u16) {
    push_u2(bytes, name_index);
    push_u4(bytes, 13);
    push_u2(bytes, 1); // max_stack
    push_u2(bytes, 1); // max_locals
    push_u4(bytes, 1); // code_length
    bytes.push(0xb1); // the single instruction byte
    push_u2(bytes, 0); // exception_table_length
    push_u2(bytes, 0); // attributes_count
}

fn push_method(bytes: &mut Vec<u8>, flags: u16, name_index: u16, descriptor_index: u16, code: bool) {
    push_u2(bytes, flags);
    push_u2(bytes, name_index);
    push_u2(bytes, descriptor_index);
    if code {
        push_u2(bytes, 1);
        push_code_attribute(bytes, 11);
    } else {
        push_u2(bytes, 0);
    }
}

/// A small in-memory class image: public super class `HelloWorld` with no
/// interfaces, no fields, three methods (`<init>`, `main`, `println`), one
/// string constant `"hello world"`, one `Long` constant (so one slot pair
/// collapses into entry plus placeholder), and one `SourceFile` attribute.
fn hello_world_class_bytes() -> Vec<u8> {
    let mut bytes: Vec<u8> = Vec::new();
    push_u4(&mut bytes, 0xCAFEBABE);
    push_u2(&mut bytes, 0); // minor_version
    push_u2(&mut bytes, 52); // major_version

    push_u2(&mut bytes, 26); // constant_pool_count: 25 usable slots
    push_utf8(&mut bytes, "HelloWorld"); // 1
    push_class(&mut bytes, 1); // 2
    push_utf8(&mut bytes, "java/lang/Object"); // 3
    push_class(&mut bytes, 3); // 4
    push_utf8(&mut bytes, "<init>"); // 5
    push_utf8(&mut bytes, "()V"); // 6
    push_utf8(&mut bytes, "main"); // 7
    push_utf8(&mut bytes, "([Ljava/lang/String;)V"); // 8
    push_utf8(&mut bytes, "println"); // 9
    push_utf8(&mut bytes, "(Ljava/lang/String;)V"); // 10
    push_utf8(&mut bytes, "Code"); // 11
    push_utf8(&mut bytes, "hello world"); // 12
    bytes.push(8); // 13: String
    push_u2(&mut bytes, 12);
    bytes.push(5); // 14: Long, and 15 is its placeholder slot
    push_u4(&mut bytes, 0);
    push_u4(&mut bytes, 42);
    push_utf8(&mut bytes, "SourceFile"); // 16
    push_utf8(&mut bytes, "HelloWorld.java"); // 17
    bytes.push(3); // 18: Integer
    push_u4(&mut bytes, 42);
    bytes.push(12); // 19: NameAndType
    push_u2(&mut bytes, 5);
    push_u2(&mut bytes, 6);
    bytes.push(10); // 20: Method
    push_u2(&mut bytes, 4);
    push_u2(&mut bytes, 19);
    push_utf8(&mut bytes, "LineNumberTable"); // 21
    push_class(&mut bytes, 3); // 22
    bytes.push(3); // 23: Integer
    push_u4(&mut bytes, 7);
    bytes.push(4); // 24: Float (raw bytes)
    push_u4(&mut bytes, 0x3F800000);
    push_utf8(&mut bytes, "Extra"); // 25

    push_u2(&mut bytes, 0x0021); // access_flags: public | super
    push_u2(&mut bytes, 2); // this_class
    push_u2(&mut bytes, 4); // super_class

    push_u2(&mut bytes, 0); // interfaces_count
    push_u2(&mut bytes, 0); // fields_count

    push_u2(&mut bytes, 3); // methods_count
    push_method(&mut bytes, 0x0001, 5, 6, true); // <init>
    push_method(&mut bytes, 0x0009, 7, 8, true); // main
    push_method(&mut bytes, 0x0002, 9, 10, false); // println

    push_u2(&mut bytes, 1); // attributes_count
    push_u2(&mut bytes, 16); // SourceFile
    push_u4(&mut bytes, 2);
    push_u2(&mut bytes, 17);

    bytes
}

fn parse_hello_world() -> ClassFile {
    let mut reader = ByteReader::new(hello_world_class_bytes());
    ClassFile::from(&mut reader).unwrap()
}

#[test]
fn can_successfully_parse_magic() {
    let classfile = parse_hello_world();

    assert_eq!(classfile.magic, 0xCAFEBABE);
}

#[test]
fn can_successfully_parse_version() {
    let classfile = parse_hello_world();

    assert_eq!(classfile.minor_version, 0);
    assert_eq!(classfile.major_version, 52);
}

#[test]
fn can_successfully_parse_constant_pool() {
    let classfile = parse_hello_world();

    assert_eq!(classfile.constant_pool_count, 26);
    assert_eq!(classfile.constant_pool.len(), 25);
}

#[test]
fn can_successfully_parse_access_flags() {
    let classfile = parse_hello_world();

    let access_flags = classfile.access_flags;
    assert!(AccessFlags::is_public(access_flags), "class is public");
    assert!(AccessFlags::is_super(access_flags), "class is super");
}

#[test]
fn can_successfully_parse_class_references() {
    let classfile = parse_hello_world();

    let this_class = classfile.this_class;
    let super_class = classfile.super_class;
    let constant_pool = classfile.constant_pool;

    assert!(ConstantPoolItem::retrieve_class_info(this_class, &constant_pool).is_ok());
    assert!(ConstantPoolItem::retrieve_class_info(super_class, &constant_pool).is_ok());
}

#[test]
fn can_successfully_parse_interfaces() {
    let classfile = parse_hello_world();

    assert_eq!(classfile.interfaces_count, 0);
    assert_eq!(classfile.interfaces.len(), 0);
}

#[test]
fn can_successfully_parse_fields() {
    let classfile = parse_hello_world();

    assert_eq!(classfile.fields_count, 0);
    assert_eq!(classfile.fields.len(), 0);
}

#[test]
fn can_successfully_parse_methods() {
    let classfile = parse_hello_world();

    assert_eq!(classfile.methods_count, 3);
    assert_eq!(classfile.methods.len(), 3);
    let names: Vec<&str> = classfile.methods.iter().map(|m| m.name.as_str()).collect();
    assert!(names.contains(&"<init>"));
    assert!(names.contains(&"main"));
    assert!(names.contains(&"println"));

    let has_code = classfile
        .methods
        .iter()
        .flat_map(|m| &m.attributes)
        .any(|a| matches!(**a, Attribute::Code(..)));
    assert!(has_code, "at least one method has the code attribute");
}

#[test]
fn can_successfully_parse_class_attributes() {
    let classfile = parse_hello_world();

    assert_eq!(classfile.attributes_count, 1);
    assert_eq!(classfile.attributes.len(), 1);
}

#[test]
fn can_resolve_main_method_if_present() {
    let classfile = parse_hello_world();

    assert!(classfile.maybe_resolve_main_method().is_some());
}

#[test]
fn can_retrieve_classname() {
    let classfile = parse_hello_world();

    let classname = classfile.classname().unwrap();
    assert_eq!(classname.as_str(), "HelloWorld");
}

#[test]
fn can_resolve_string_from_constant_pool() {
    let classfile = parse_hello_world();

    let resolver = classfile.constant_pool_resolver();

    let string_indexes: Vec<U2> = classfile
        .constant_pool
        .iter()
        .enumerate()
        .filter(|&(_, item)| matches!(item, &ConstantPoolItem::String(..)))
        .map(|(i, _)| (i + 1) as U2)
        .collect();

    let strings: Vec<String> = string_indexes
        .iter()
        .map(|i| resolver.resolve_string_constant(*i).unwrap())
        .collect();

    assert_eq!(strings.len(), 1);
    assert!(strings.contains(&"hello world".to_string()));
}
