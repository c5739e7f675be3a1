use rlass::parser::constant_pool::{ReferenceKind, Tag};
use rlass::pool::MethodHandleKind;

#[test]
fn every_tag_code_maps_to_its_tag() {
    assert_eq!(Tag::from(1), Tag::Utf8);
    assert_eq!(Tag::from(3), Tag::Integer);
    assert_eq!(Tag::from(4), Tag::Float);
    assert_eq!(Tag::from(5), Tag::Long);
    assert_eq!(Tag::from(6), Tag::Double);
    assert_eq!(Tag::from(7), Tag::Class);
    assert_eq!(Tag::from(8), Tag::String);
    assert_eq!(Tag::from(9), Tag::FieldRef);
    assert_eq!(Tag::from(10), Tag::MethodRef);
    assert_eq!(Tag::from(11), Tag::InterfaceMethodRef);
    assert_eq!(Tag::from(12), Tag::NameAndType);
    assert_eq!(Tag::from(15), Tag::MethodHandle);
    assert_eq!(Tag::from(16), Tag::MethodType);
    assert_eq!(Tag::from(17), Tag::Dynamic);
    assert_eq!(Tag::from(18), Tag::InvokeDynamic);
    assert_eq!(Tag::from(19), Tag::Module);
    assert_eq!(Tag::from(20), Tag::Package);
}

#[test]
fn every_other_byte_maps_to_the_invalid_tag() {
    let known = [1u8, 3, 4, 5, 6, 7, 8, 9, 10, 11, 12, 15, 16, 17, 18, 19, 20];
    let mut valid = 0;
    for byte in 0..=255u8 {
        if known.contains(&byte) {
            assert_ne!(Tag::from(byte), Tag::Invalid);
            valid += 1;
        } else {
            assert_eq!(Tag::from(byte), Tag::Invalid);
        }
    }
    assert_eq!(valid, 17);
}

#[test]
fn tag_codes_map_to_distinct_tags() {
    let known = [1u8, 3, 4, 5, 6, 7, 8, 9, 10, 11, 12, 15, 16, 17, 18, 19, 20];
    for a in known {
        for b in known {
            if a != b {
                assert_ne!(Tag::from(a), Tag::from(b));
            }
        }
    }
}

#[test]
fn every_reference_kind_code_maps_to_its_kind() {
    assert_eq!(ReferenceKind::from(1), ReferenceKind::GetField);
    assert_eq!(ReferenceKind::from(2), ReferenceKind::GetStatic);
    assert_eq!(ReferenceKind::from(3), ReferenceKind::PutField);
    assert_eq!(ReferenceKind::from(4), ReferenceKind::PutStatic);
    assert_eq!(ReferenceKind::from(5), ReferenceKind::InvokeVirtual);
    assert_eq!(ReferenceKind::from(6), ReferenceKind::InvokeStatic);
    assert_eq!(ReferenceKind::from(7), ReferenceKind::InvokeSpecial);
    assert_eq!(ReferenceKind::from(8), ReferenceKind::NewInvokeSpecial);
    assert_eq!(ReferenceKind::from(9), ReferenceKind::InvokeInterface);
}

#[test]
fn every_other_byte_maps_to_the_invalid_reference_kind() {
    assert_eq!(ReferenceKind::from(0), ReferenceKind::Invalid);
    for byte in 10..=255u8 {
        assert_eq!(ReferenceKind::from(byte), ReferenceKind::Invalid);
    }
}

#[test]
fn reference_kinds_make_the_handle_kinds_of_the_same_name() {
    assert_eq!(ReferenceKind::GetField.handle_kind(), Some(MethodHandleKind::GetField));
    assert_eq!(ReferenceKind::GetStatic.handle_kind(), Some(MethodHandleKind::GetStatic));
    assert_eq!(ReferenceKind::PutField.handle_kind(), Some(MethodHandleKind::PutField));
    assert_eq!(ReferenceKind::PutStatic.handle_kind(), Some(MethodHandleKind::PutStatic));
    assert_eq!(ReferenceKind::InvokeVirtual.handle_kind(), Some(MethodHandleKind::InvokeVirtual));
    assert_eq!(ReferenceKind::InvokeStatic.handle_kind(), Some(MethodHandleKind::InvokeStatic));
    assert_eq!(ReferenceKind::InvokeSpecial.handle_kind(), Some(MethodHandleKind::InvokeSpecial));
    assert_eq!(
        ReferenceKind::NewInvokeSpecial.handle_kind(),
        Some(MethodHandleKind::NewInvokeSpecial)
    );
    assert_eq!(
        ReferenceKind::InvokeInterface.handle_kind(),
        Some(MethodHandleKind::InvokeInterface)
    );
    assert_eq!(ReferenceKind::Invalid.handle_kind(), None);
}
