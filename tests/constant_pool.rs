use jom::constant_pool::{ConstantPool, ConstantPoolIndex};
use jom::error::{Expected, JomError, PoolKind};
use jom::pool_builder::PoolBuilder;
use jom::raw_pool::{constant_pool_parser, MethodHandleReferenceKind, RawConstantPoolIndex};
use jom::resolve::{process_cp, resolve_index};
use jom::utf8::{decode_text, ModifiedUtf8};

fn raw_pool() -> Vec<RawConstantPoolIndex> {
    vec![
        RawConstantPoolIndex::Unusable,
        RawConstantPoolIndex::Utf8("A".to_owned()),
        RawConstantPoolIndex::Class(1),
        RawConstantPoolIndex::Utf8("f".to_owned()),
        RawConstantPoolIndex::Utf8("I".to_owned()),
        RawConstantPoolIndex::NameAndType(3, 4),
        RawConstantPoolIndex::Fieldref(2, 5),
        RawConstantPoolIndex::MethodHandle(MethodHandleReferenceKind::GetField, 6),
        RawConstantPoolIndex::Long(7),
        RawConstantPoolIndex::Unusable,
    ]
}

#[test]
fn resolves_references() {
    let cp = process_cp(&raw_pool()).unwrap();
    let e = cp.entries();
    assert_eq!(e.len(), 10);
    assert!(matches!(&e[2], ConstantPoolIndex::Class(s) if s == "A"));
    assert!(matches!(&e[5], ConstantPoolIndex::NameAndType(n, d) if n == "f" && d == "I"));
    assert!(matches!(&e[6], ConstantPoolIndex::Fieldref { class, name, descriptor }
        if class == "A" && name == "f" && descriptor == "I"));
    assert!(matches!(&e[7], ConstantPoolIndex::MethodHandle { kind: MethodHandleReferenceKind::GetField, class, .. } if class == "A"));
    assert!(matches!(e[8], ConstantPoolIndex::Long(7)));
}

#[test]
fn eager_and_lazy_resolution_agree() {
    let raw = raw_pool();
    let eager = process_cp(&raw).unwrap();
    let again = process_cp(&raw).unwrap();
    for i in 0..raw.len() {
        let lazy = resolve_index(i, &raw).unwrap();
        assert!(lazy.same(&eager.entries()[i]));
        assert!(again.entries()[i].same(&eager.entries()[i]));
    }
}

#[test]
fn class_name_type_mismatch() {
    let raw = vec![
        RawConstantPoolIndex::Unusable,
        RawConstantPoolIndex::Integer(5),
        RawConstantPoolIndex::Class(1),
    ];
    assert!(matches!(resolve_index(2, &raw),
        Err(JomError::ConstantPoolIndexError(Expected::Kind(PoolKind::Utf8), PoolKind::Integer))));
    assert!(matches!(process_cp(&raw),
        Err(JomError::ConstantPoolIndexError(Expected::Kind(PoolKind::Utf8), PoolKind::Integer))));
}

#[test]
fn self_reference_is_a_cycle() {
    let raw = vec![RawConstantPoolIndex::Unusable, RawConstantPoolIndex::Class(1)];
    assert!(matches!(process_cp(&raw), Err(JomError::ConstantPoolCycle(1))));
}

#[test]
fn mutual_reference_is_a_cycle() {
    let raw = vec![
        RawConstantPoolIndex::Unusable,
        RawConstantPoolIndex::String(2),
        RawConstantPoolIndex::String(1),
    ];
    assert!(matches!(resolve_index(1, &raw), Err(JomError::ConstantPoolCycle(1))));
    assert!(matches!(resolve_index(2, &raw), Err(JomError::ConstantPoolCycle(2))));
    assert!(matches!(process_cp(&raw), Err(JomError::ConstantPoolCycle(1))));
}

#[test]
fn reference_out_of_bounds() {
    let raw = vec![RawConstantPoolIndex::Unusable, RawConstantPoolIndex::String(9)];
    assert!(matches!(process_cp(&raw), Err(JomError::OutOfBounds(9))));
}

#[test]
fn invoke_static_accepts_interface_method() {
    let raw = vec![
        RawConstantPoolIndex::Unusable,
        RawConstantPoolIndex::Utf8("I".to_owned()),
        RawConstantPoolIndex::Class(1),
        RawConstantPoolIndex::NameAndType(1, 1),
        RawConstantPoolIndex::InterfaceMethodref(2, 3),
        RawConstantPoolIndex::MethodHandle(MethodHandleReferenceKind::InvokeStatic, 4),
        RawConstantPoolIndex::MethodHandle(MethodHandleReferenceKind::InvokeVirtual, 4),
    ];
    assert!(resolve_index(5, &raw).is_ok());
    assert!(matches!(resolve_index(6, &raw),
        Err(JomError::ConstantPoolIndexError(Expected::Kind(PoolKind::Methodref), PoolKind::InterfaceMethodref))));
}

#[test]
fn parser_reserves_slot_after_long() {
    // count 4: a Long (slots 1 and 2) then an Integer (slot 3).
    let bytes = vec![0, 4, 5, 0, 0, 0, 0, 0, 0, 0, 9, 3, 0, 0, 0, 1];
    let (raw, end) = constant_pool_parser(&bytes, 0).unwrap();
    assert_eq!(end, bytes.len());
    assert_eq!(raw.len(), 4);
    assert!(matches!(raw[0], RawConstantPoolIndex::Unusable));
    assert!(matches!(raw[1], RawConstantPoolIndex::Long(9)));
    assert!(matches!(raw[2], RawConstantPoolIndex::Unusable));
    assert!(matches!(raw[3], RawConstantPoolIndex::Integer(1)));
    let cp = process_cp(&raw).unwrap();
    assert!(cp.is_well_formed());
}

#[test]
fn parser_rejects_bad_tag() {
    let bytes = vec![0, 2, 2, 0];
    assert!(matches!(constant_pool_parser(&bytes, 0), Err(JomError::Malformed)));
}

#[test]
fn parser_rejects_nul_in_text() {
    let bytes = vec![0, 2, 1, 0, 2, b'a', 0];
    assert!(matches!(constant_pool_parser(&bytes, 0), Err(JomError::InvalidText)));
}

#[test]
fn modified_utf8_nul_and_supplementary() {
    assert_eq!(decode_text(&[0xC0, 0x80]).unwrap(), "\u{0}");
    assert_eq!(decode_text(&[0xED, 0xA0, 0xBD, 0xED, 0xB8, 0x80]).unwrap(), "\u{1F600}");
    assert!(matches!(decode_text(&[0xF0, 0x9F, 0x98, 0x80]), Err(JomError::InvalidText)));
    assert!(matches!(decode_text(&[0xED, 0xA0, 0xBD]), Err(JomError::InvalidText)));
    let m = ModifiedUtf8::try_from("x\u{1F600}".to_owned()).unwrap();
    let mut out = Vec::new();
    m.write_options(&mut out);
    assert_eq!(out, vec![0, 7, b'x', 0xED, 0xA0, 0xBD, 0xED, 0xB8, 0x80]);
    let (back, _) = ModifiedUtf8::read_options(&out, 0).unwrap();
    assert_eq!(back.to_string(), "x\u{1F600}");
}

#[test]
fn text_decodes_multibyte() {
    let s = decode_text("é".as_bytes()).unwrap();
    assert_eq!(s, "é");
    assert!(matches!(decode_text(&[0xC3]), Err(JomError::InvalidText)));
}

#[test]
fn modified_utf8_limits() {
    assert!(ModifiedUtf8::try_from("ok".to_owned()).is_ok());
    let nul = ModifiedUtf8::try_from("a\u{0}b".to_owned()).unwrap();
    let mut out = Vec::new();
    nul.write_options(&mut out);
    assert_eq!(out, vec![0, 4, b'a', 0xC0, 0x80, b'b']);
    assert!(matches!(ModifiedUtf8::try_from("x".repeat(70000)), Err(JomError::TooLarge)));
    let m = ModifiedUtf8::try_from("héllo".to_owned()).unwrap();
    assert_eq!(m.to_string(), "héllo");
    let mut out = Vec::new();
    m.write_options(&mut out);
    let (back, end) = ModifiedUtf8::read_options(&out, 0).unwrap();
    assert_eq!(back.to_string(), "héllo");
    assert_eq!(end, out.len());
}

#[test]
fn interning_twice_gives_same_index() {
    let mut b = PoolBuilder::new();
    let i = b.intern(ConstantPoolIndex::Utf8("x".to_owned())).unwrap();
    let j = b.intern(ConstantPoolIndex::Utf8("x".to_owned())).unwrap();
    assert_eq!(i, 1);
    assert_eq!(i, j);
    assert_eq!(b.pool().len(), 2);
    let k = b.intern(ConstantPoolIndex::Utf8("y".to_owned())).unwrap();
    assert_eq!(k, 2);
    b.intern(ConstantPoolIndex::Utf8("x".to_owned())).unwrap();
    b.intern(ConstantPoolIndex::Utf8("y".to_owned())).unwrap();
    // Two distinct values went in, so the pool grew by two.
    assert_eq!(b.pool().len(), 3);
}

#[test]
fn interning_composite_adds_dependencies_first() {
    let mut b = PoolBuilder::new();
    let i = b
        .intern(ConstantPoolIndex::Fieldref {
            class: "A".to_owned(),
            name: "f".to_owned(),
            descriptor: "I".to_owned(),
        })
        .unwrap();
    let e = b.pool().entries();
    assert_eq!(i as usize, e.len() - 1);
    assert!(matches!(&e[1], ConstantPoolIndex::Utf8(s) if s == "A"));
    assert!(matches!(&e[2], ConstantPoolIndex::Class(s) if s == "A"));
    assert!(matches!(&e[5], ConstantPoolIndex::NameAndType(n, d) if n == "f" && d == "I"));
    assert_eq!(e.len(), 7);
}

#[test]
fn interning_long_reserves_two_slots() {
    let mut b = PoolBuilder::new();
    let i = b.intern(ConstantPoolIndex::Long(1)).unwrap();
    let j = b.intern(ConstantPoolIndex::Integer(2)).unwrap();
    assert_eq!(i, 1);
    assert_eq!(j, 3);
    assert!(matches!(b.pool().entries()[2], ConstantPoolIndex::Unusable));
    assert!(b.pool().is_well_formed());
}

#[test]
fn pool_lookups() {
    let cp = process_cp(&raw_pool()).unwrap();
    assert_eq!(cp.get_utf8(1).unwrap(), "A");
    assert_eq!(cp.get_class(2).unwrap(), "A");
    assert!(matches!(cp.get_class(1), Err(JomError::ConstantPoolIndexError(Expected::Kind(PoolKind::Class), PoolKind::Utf8))));
    assert!(matches!(cp.get(40), Err(JomError::OutOfBounds(40))));
    assert_eq!(cp.find_utf8("I".to_owned()).unwrap(), 4);
    assert_eq!(cp.find_class("A".to_owned()).unwrap(), 2);
    assert!(matches!(cp.find_utf8("zz".to_owned()), Err(JomError::ValueNotInConstantPool(PoolKind::Utf8))));
    assert_eq!(cp.len(), 10);
    let copy: ConstantPool = cp.duplicate();
    assert_eq!(copy.len(), 10);
}

#[test]
fn entry_conversions() {
    assert_eq!(ConstantPoolIndex::Integer(3).into_integer().unwrap(), 3);
    assert_eq!(ConstantPoolIndex::Float(0x3f80_0000).into_float().unwrap(), 0x3f80_0000);
    assert!(matches!(ConstantPoolIndex::Integer(3).into_utf8(),
        Err(JomError::ConstantPoolIndexError(Expected::Kind(PoolKind::Utf8), PoolKind::Integer))));
    assert_eq!(ConstantPoolIndex::Package("p".to_owned()).name(), "Package");
    assert_eq!(ConstantPoolIndex::Unusable.name(), "Unusable");
}

#[test]
fn long_cycle_is_a_cycle() {
    let raw = vec![
        RawConstantPoolIndex::Unusable,
        RawConstantPoolIndex::String(2),
        RawConstantPoolIndex::String(3),
        RawConstantPoolIndex::String(4),
        RawConstantPoolIndex::String(5),
        RawConstantPoolIndex::String(1),
    ];
    assert!(matches!(resolve_index(1, &raw), Err(JomError::ConstantPoolCycle(1))));
    assert!(matches!(process_cp(&raw), Err(JomError::ConstantPoolCycle(1))));
}

#[test]
fn reaching_a_cycle_is_not_being_on_it() {
    let raw = vec![
        RawConstantPoolIndex::Unusable,
        RawConstantPoolIndex::String(2),
        RawConstantPoolIndex::String(2),
    ];
    assert!(matches!(resolve_index(1, &raw),
        Err(JomError::ConstantPoolIndexError(Expected::Kind(PoolKind::Utf8), PoolKind::String))));
    assert!(matches!(resolve_index(2, &raw), Err(JomError::ConstantPoolCycle(2))));
}
