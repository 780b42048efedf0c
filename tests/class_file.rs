use jom::attribute::{CodeAttribute, FieldAttribute};
use jom::class_file::ClassFile;
use jom::constant_pool::ConstantPoolIndex;
use jom::error::{Expected, JomError, PoolKind};
use jom::instruction::Instruction;
use jom::method::MethodAttribute;

fn u16be(out: &mut Vec<u8>, v: u16) {
    out.extend_from_slice(&v.to_be_bytes());
}

fn utf8(out: &mut Vec<u8>, s: &str) {
    out.push(1);
    u16be(out, s.len() as u16);
    out.extend_from_slice(s.as_bytes());
}

fn class_ref(out: &mut Vec<u8>, i: u16) {
    out.push(7);
    u16be(out, i);
}

/// Magic, versions 0/63, and the pool {Utf8 Foo, Class 1, Utf8 java/lang/Object, Class 3}
/// followed by `extra` entries; `count` is the pool count to write.
fn head(extra: &[u8], count: u16) -> Vec<u8> {
    let mut b = vec![0xCA, 0xFE, 0xBA, 0xBE, 0, 0, 0, 63];
    u16be(&mut b, count);
    utf8(&mut b, "Foo");
    class_ref(&mut b, 1);
    utf8(&mut b, "java/lang/Object");
    class_ref(&mut b, 3);
    b.extend_from_slice(extra);
    u16be(&mut b, 0);
    u16be(&mut b, 2);
    u16be(&mut b, 4);
    u16be(&mut b, 0);
    b
}

fn minimal() -> Vec<u8> {
    let mut b = head(&[], 5);
    u16be(&mut b, 0);
    u16be(&mut b, 0);
    b
}

#[test]
fn minimal_file() {
    let cf = ClassFile::read(&minimal()).unwrap();
    assert_eq!(cf.this_class(), "Foo");
    assert_eq!(cf.super_class(), "java/lang/Object");
    assert!(cf.interfaces().is_empty());
    assert!(cf.fields().is_empty());
    assert!(cf.methods().is_empty());
    assert_eq!(cf.minor(), 0);
    assert_eq!(cf.major(), 63);
    assert_eq!(cf.access_flags(), 0);
    assert_eq!(cf.constant_pool().len(), 5);
    assert!(matches!(cf.constant_pool()[0], ConstantPoolIndex::Unusable));
    assert!(matches!(&cf.constant_pool()[2], ConstantPoolIndex::Class(s) if s == "Foo"));
}

#[test]
fn minimal_file_round_trip() {
    let bytes = minimal();
    let cf = ClassFile::read(&bytes).unwrap();
    assert_eq!(cf.encode().unwrap(), bytes);
}

#[test]
fn bad_magic_is_malformed() {
    let mut b = minimal();
    b[0] = 0xCB;
    assert!(matches!(ClassFile::read(&b), Err(JomError::Malformed)));
}

#[test]
fn truncated_file_is_malformed() {
    let b = minimal();
    assert!(matches!(ClassFile::read(&b[..b.len() - 1]), Err(JomError::Malformed)));
}

#[test]
fn trailing_bytes_are_malformed() {
    let mut b = minimal();
    b.push(0);
    assert!(matches!(ClassFile::read(&b), Err(JomError::Malformed)));
}

#[test]
fn this_class_out_of_bounds() {
    let mut b = minimal();
    // this_class sits after the pool and the access flags.
    let at = b.len() - 10;
    b[at] = 0;
    b[at + 1] = 9;
    assert!(matches!(ClassFile::read(&b), Err(JomError::OutOfBounds(9))));
}

fn with_method_attribute() -> Vec<u8> {
    let mut extra = Vec::new();
    utf8(&mut extra, "m");
    utf8(&mut extra, "()V");
    utf8(&mut extra, "FooBar");
    let mut b = head(&extra, 8);
    u16be(&mut b, 0);
    u16be(&mut b, 1);
    u16be(&mut b, 0x0001);
    u16be(&mut b, 5);
    u16be(&mut b, 6);
    u16be(&mut b, 1);
    u16be(&mut b, 7);
    b.extend_from_slice(&[0, 0, 0, 3, 0xAA, 0xBB, 0xCC]);
    // One class attribute, also named "FooBar", with two payload bytes.
    u16be(&mut b, 1);
    u16be(&mut b, 7);
    b.extend_from_slice(&[0, 0, 0, 2, 0x01, 0x02]);
    b
}

#[test]
fn unknown_attribute_preserved() {
    let bytes = with_method_attribute();
    let cf = ClassFile::read(&bytes).unwrap();
    let m = &cf.methods()[0];
    assert_eq!(m.name, "m");
    assert_eq!(m.descriptor, "()V");
    match &m.attributes[0] {
        MethodAttribute::Unknown(name, payload) => {
            assert_eq!(name, "FooBar");
            assert_eq!(payload, &vec![0xAA, 0xBB, 0xCC]);
        }
        _ => panic!("expected an unknown attribute"),
    }
    assert_eq!(cf.attributes.len(), 1);
    assert_eq!(cf.attributes[0].name, "FooBar");
    assert_eq!(cf.attributes[0].info, vec![0x01, 0x02]);
    let out = cf.encode().unwrap();
    assert_eq!(out, bytes);
}

#[test]
fn constant_value_mismatch() {
    let mut extra = Vec::new();
    utf8(&mut extra, "x");
    utf8(&mut extra, "I");
    utf8(&mut extra, "ConstantValue");
    let mut b = head(&extra, 8);
    u16be(&mut b, 1);
    u16be(&mut b, 0);
    u16be(&mut b, 5);
    u16be(&mut b, 6);
    u16be(&mut b, 1);
    u16be(&mut b, 7);
    b.extend_from_slice(&[0, 0, 0, 2, 0, 5]);
    u16be(&mut b, 0);
    u16be(&mut b, 0);
    match ClassFile::read(&b) {
        Err(JomError::ConstantPoolIndexError(Expected::Loadable, found)) => {
            assert_eq!(found, PoolKind::Utf8);
            assert_eq!(found.name(), "Utf8");
        }
        _ => panic!("expected a type mismatch"),
    }
}

#[test]
fn constant_value_integer() {
    let mut extra = Vec::new();
    utf8(&mut extra, "x");
    utf8(&mut extra, "I");
    utf8(&mut extra, "ConstantValue");
    extra.extend_from_slice(&[3, 0, 0, 0, 42]);
    let mut b = head(&extra, 9);
    u16be(&mut b, 1);
    u16be(&mut b, 0);
    u16be(&mut b, 5);
    u16be(&mut b, 6);
    u16be(&mut b, 1);
    u16be(&mut b, 7);
    b.extend_from_slice(&[0, 0, 0, 2, 0, 8]);
    u16be(&mut b, 0);
    u16be(&mut b, 0);
    let cf = ClassFile::read(&b).unwrap();
    match &cf.fields()[0].attributes[0] {
        FieldAttribute::ConstantValue(jom::attribute::ConstantValue::Integer(v)) => assert_eq!(*v, 42),
        _ => panic!("expected an integer constant"),
    }
    assert_eq!(cf.encode().unwrap(), b);
}

#[test]
fn read() {
    // A class with one method whose body is `aload_0; invokespecial #1; return`
    // and carries a line number table.
    let mut extra = Vec::new();
    utf8(&mut extra, "<init>");
    utf8(&mut extra, "()V");
    utf8(&mut extra, "Code");
    utf8(&mut extra, "LineNumberTable");
    let mut b = head(&extra, 9);
    u16be(&mut b, 0);
    u16be(&mut b, 1);
    u16be(&mut b, 0x0001);
    u16be(&mut b, 5);
    u16be(&mut b, 6);
    u16be(&mut b, 1);
    u16be(&mut b, 7);
    let mut code = Vec::new();
    u16be(&mut code, 1);
    u16be(&mut code, 1);
    code.extend_from_slice(&[0, 0, 0, 5, 0x2a, 0xb7, 0x00, 0x01, 0xb1]);
    u16be(&mut code, 0);
    u16be(&mut code, 1);
    u16be(&mut code, 8);
    code.extend_from_slice(&[0, 0, 0, 6, 0, 1, 0, 0, 0, 7]);
    b.extend_from_slice(&(code.len() as u32).to_be_bytes());
    b.extend_from_slice(&code);
    u16be(&mut b, 0);
    let cf = ClassFile::read(&b).unwrap();
    let m = &cf.methods()[0];
    assert_eq!(m.name, "<init>");
    match &m.attributes[0] {
        MethodAttribute::Code(c) => {
            assert_eq!(c.max_stack, 1);
            assert_eq!(c.instructions.len(), 3);
            assert!(matches!(c.instructions[0], (0, Instruction::ALoad0)));
            assert!(matches!(c.instructions[1], (1, Instruction::InvokeSpecial(1))));
            assert!(matches!(c.instructions[2], (4, Instruction::Return)));
            match &c.attributes[0] {
                CodeAttribute::LineNumberTable(t) => {
                    assert_eq!(t.len(), 1);
                    assert_eq!(t[0].start_pc, 0);
                    assert_eq!(t[0].line_number, 7);
                }
                _ => panic!("expected a line number table"),
            }
        }
        _ => panic!("expected a code attribute"),
    }
    assert_eq!(cf.encode().unwrap(), b);
}

#[test]
fn new_class() {
    let cf = ClassFile::new("Bar".to_owned());
    assert_eq!(cf.this_class(), "Bar");
    assert_eq!(cf.super_class(), "java/lang/Object");
    assert_eq!(cf.major(), 63);
    assert_eq!(cf.constant_pool().len(), 5);
    let bytes = cf.encode().unwrap();
    let back = ClassFile::read(&bytes).unwrap();
    assert_eq!(back.this_class(), "Bar");
    assert_eq!(back.super_class(), "java/lang/Object");
}

#[test]
fn encode_interns_new_names() {
    let mut cf = ClassFile::new("Bar".to_owned());
    cf.interfaces.push("java/io/Serializable".to_owned());
    let bytes = cf.encode().unwrap();
    let back = ClassFile::read(&bytes).unwrap();
    assert_eq!(back.interfaces(), &["java/io/Serializable".to_owned()]);
    assert_eq!(back.constant_pool().len(), 7);
}

#[test]
fn writing_against_a_pool_without_the_names_fails() {
    let cf = ClassFile::new("Bar".to_owned());
    let pool = jom::pool_builder::PoolBuilder::new().into_pool();
    assert!(matches!(cf.write_with_pool(&pool), Err(JomError::ValueNotInConstantPool(PoolKind::Class))));
}

#[test]
fn entry_points_agree_with_methods() {
    let bytes = minimal();
    let cf = jom::class_file::decode(&bytes).unwrap();
    assert_eq!(cf.this_class(), "Foo");
    assert_eq!(jom::encode::encode(&cf).unwrap(), bytes);
}

#[test]
fn names_with_nul_round_trip() {
    let mut cf = ClassFile::new("Bar".to_owned());
    cf.interfaces.push("a\u{0}b".to_owned());
    let bytes = cf.encode().unwrap();
    let back = ClassFile::read(&bytes).unwrap();
    assert_eq!(back.interfaces(), &["a\u{0}b".to_owned()]);
}

#[test]
fn minimal_file_exact_bytes() {
    let mut b = vec![0xCA, 0xFE, 0xBA, 0xBE, 0, 0, 0, 63, 0, 5, 1, 0, 3, b'F', b'o', b'o', 7, 0, 1, 1, 0, 16];
    b.extend_from_slice(b"java/lang/Object");
    b.extend_from_slice(&[7, 0, 3, 0, 0, 0, 2, 0, 4, 0, 0, 0, 0, 0, 0]);
    let cf = ClassFile::read(&b).unwrap();
    assert_eq!(cf.this_class(), "Foo");
    assert_eq!(cf.super_class(), "java/lang/Object");
    assert!(!cf.has_attribute_table);
    assert_eq!(cf.encode().unwrap(), b);
}

#[test]
fn class_name_pointing_at_integer_is_a_type_mismatch() {
    let b = vec![0xCA, 0xFE, 0xBA, 0xBE, 0, 0, 0, 63, 0, 3, 3, 0, 0, 0, 7, 7, 0, 1, 0, 0, 0, 2, 0, 2, 0, 0, 0, 0, 0, 0];
    assert!(matches!(ClassFile::read(&b),
        Err(JomError::ConstantPoolIndexError(Expected::Kind(PoolKind::Utf8), PoolKind::Integer))));
}

#[test]
fn empty_class_attribute_table_round_trips() {
    let mut b = minimal();
    u16be(&mut b, 0);
    let cf = ClassFile::read(&b).unwrap();
    assert!(cf.has_attribute_table);
    assert_eq!(cf.encode().unwrap(), b);
}
