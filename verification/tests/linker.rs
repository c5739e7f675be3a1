use rlass::linker::{link_constant_pool, try_link_constant_pool, Linker};
use rlass::pool::{
    ConstantPoolEntry, MethodHandleKind, UnlinkedConstantPoolEntry, UnlinkedRefEntry,
};
use rlass::Error;
use std::rc::Rc;

fn utf8(text: &str) -> UnlinkedConstantPoolEntry {
    UnlinkedConstantPoolEntry::Utf8(String::from(text))
}

fn member(class: u16, name_and_ty: u16) -> UnlinkedRefEntry {
    UnlinkedRefEntry { class, name_and_ty }
}

fn invalid(index: u16, referrer: u16) -> Error {
    Error::InvalidIndex { index, referrer }
}

#[test]
fn a_class_is_linked_to_its_name() {
    let pool = link_constant_pool(vec![utf8("Add"), UnlinkedConstantPoolEntry::Class(1)]).unwrap();
    assert_eq!(pool.len(), 2);
    let direct = match pool.get(1) {
        Some(ConstantPoolEntry::Utf8(text)) => text,
        other => panic!("{:?}", other),
    };
    let through_class = match pool.get(2) {
        Some(ConstantPoolEntry::Class(name)) => name,
        other => panic!("{:?}", other),
    };
    assert_eq!(through_class.bytes, "Add");
    assert_eq!(direct.bytes, "Add");
    assert!(Rc::ptr_eq(direct, through_class));
}

#[test]
fn a_reference_may_point_forward() {
    let pool = link_constant_pool(vec![UnlinkedConstantPoolEntry::Class(2), utf8("Add")]).unwrap();
    let through_class = match pool.get(1) {
        Some(ConstantPoolEntry::Class(name)) => name,
        other => panic!("{:?}", other),
    };
    let direct = match pool.get(2) {
        Some(ConstantPoolEntry::Utf8(text)) => text,
        other => panic!("{:?}", other),
    };
    assert_eq!(through_class.bytes, "Add");
    assert!(Rc::ptr_eq(direct, through_class));
}

#[test]
fn the_same_index_is_the_same_value_and_equal_text_is_not() {
    let pool = link_constant_pool(vec![
        utf8("x"),
        utf8("x"),
        UnlinkedConstantPoolEntry::Class(1),
        UnlinkedConstantPoolEntry::String(1),
        UnlinkedConstantPoolEntry::Module(2),
    ])
    .unwrap();
    let class = match pool.get(3) {
        Some(ConstantPoolEntry::Class(name)) => name,
        other => panic!("{:?}", other),
    };
    let string = match pool.get(4) {
        Some(ConstantPoolEntry::String(text)) => text,
        other => panic!("{:?}", other),
    };
    let module = match pool.get(5) {
        Some(ConstantPoolEntry::Module(name)) => name,
        other => panic!("{:?}", other),
    };
    assert!(Rc::ptr_eq(class, string));
    assert_eq!(class.bytes, module.bytes);
    assert!(!Rc::ptr_eq(class, module));
}

#[test]
fn the_slot_behind_a_long_is_no_entry() {
    let table = vec![
        UnlinkedConstantPoolEntry::Long(7),
        UnlinkedConstantPoolEntry::Unusable,
        utf8("after"),
    ];
    let mut linker = Linker::new(table);
    assert!(matches!(linker.resolve(2), Err(e) if e == invalid(2, 0)));
    match linker.resolve(3) {
        Ok(ConstantPoolEntry::Utf8(text)) => assert_eq!(text.bytes, "after"),
        other => panic!("{:?}", other),
    }
    match linker.resolve(1) {
        Ok(ConstantPoolEntry::Long(v)) => assert_eq!(v.val, 7),
        other => panic!("{:?}", other),
    }
}

#[test]
fn a_pool_with_a_long_links_with_an_empty_slot() {
    let pool = link_constant_pool(vec![
        UnlinkedConstantPoolEntry::Double(0x4000_0000_0000_0000),
        UnlinkedConstantPoolEntry::Unusable,
        utf8("after"),
    ])
    .unwrap();
    assert_eq!(pool.len(), 3);
    match pool.get(1) {
        Some(ConstantPoolEntry::Double(v)) => assert_eq!(f64::from_bits(v.val), 2.0),
        other => panic!("{:?}", other),
    }
    assert!(pool.get(2).is_none());
    assert!(matches!(pool.get(3), Some(ConstantPoolEntry::Utf8(_))));
    assert!(pool.get(0).is_none());
    assert!(pool.get(4).is_none());
}

#[test]
fn a_reference_to_the_slot_behind_a_long_is_invalid() {
    let r = link_constant_pool(vec![
        UnlinkedConstantPoolEntry::Long(7),
        UnlinkedConstantPoolEntry::Unusable,
        utf8("after"),
        UnlinkedConstantPoolEntry::Class(2),
    ]);
    assert!(matches!(r, Err(e) if e == invalid(2, 4)));
    let r = link_constant_pool(vec![
        UnlinkedConstantPoolEntry::Long(7),
        UnlinkedConstantPoolEntry::Unusable,
        utf8("after"),
        UnlinkedConstantPoolEntry::Class(3),
    ]);
    assert!(r.is_ok());
}

#[test]
fn index_zero_and_indices_past_the_end_are_invalid() {
    let mut linker = Linker::new(vec![utf8("a"), utf8("b")]);
    assert!(matches!(linker.resolve(0), Err(e) if e == invalid(0, 0)));
    assert!(matches!(linker.resolve(3), Err(e) if e == invalid(3, 0)));
    assert!(matches!(linker.resolve(u16::MAX), Err(e) if e == invalid(u16::MAX, 0)));
    assert!(linker.resolve(1).is_ok());
    assert!(linker.resolve(2).is_ok());

    let mut empty = Linker::new(Vec::new());
    assert!(matches!(empty.resolve(0), Err(e) if e == invalid(0, 0)));
    assert!(matches!(empty.resolve(1), Err(e) if e == invalid(1, 0)));
}

#[test]
fn an_entry_that_names_an_index_out_of_range_is_invalid() {
    let r = link_constant_pool(vec![utf8("a"), UnlinkedConstantPoolEntry::Class(0)]);
    assert!(matches!(r, Err(e) if e == invalid(0, 2)));
    let r = link_constant_pool(vec![utf8("a"), UnlinkedConstantPoolEntry::String(3)]);
    assert!(matches!(r, Err(e) if e == invalid(3, 2)));
    let r = link_constant_pool(vec![
        utf8("a"),
        UnlinkedConstantPoolEntry::NameAndType { name: 1, descriptor: 9 },
    ]);
    assert!(matches!(r, Err(e) if e == invalid(9, 2)));
    // the first reference is looked at first
    let r = link_constant_pool(vec![
        utf8("a"),
        UnlinkedConstantPoolEntry::NameAndType { name: 8, descriptor: 9 },
    ]);
    assert!(matches!(r, Err(e) if e == invalid(8, 2)));
}

#[test]
fn an_entry_of_another_kind_is_an_invalid_index() {
    // a class whose name is an integer
    let r = link_constant_pool(vec![
        UnlinkedConstantPoolEntry::Integer(1),
        UnlinkedConstantPoolEntry::Class(1),
    ]);
    assert!(matches!(r, Err(e) if e == invalid(1, 2)));
    // a member whose class is a text
    let r = link_constant_pool(vec![
        utf8("a"),
        UnlinkedConstantPoolEntry::NameAndType { name: 1, descriptor: 1 },
        UnlinkedConstantPoolEntry::FieldRef(member(1, 2)),
    ]);
    assert!(matches!(r, Err(e) if e == invalid(1, 3)));
    // a method handle that refers to a class
    let r = link_constant_pool(vec![
        utf8("a"),
        UnlinkedConstantPoolEntry::Class(1),
        UnlinkedConstantPoolEntry::MethodHandle {
            ref_kind: MethodHandleKind::GetField,
            ref_entry: 2,
        },
    ]);
    assert!(matches!(r, Err(e) if e == invalid(2, 3)));
    // a dynamic constant whose name and type is a member
    let r = link_constant_pool(vec![
        utf8("a"),
        UnlinkedConstantPoolEntry::Class(1),
        UnlinkedConstantPoolEntry::NameAndType { name: 1, descriptor: 1 },
        UnlinkedConstantPoolEntry::MethodRef(member(2, 3)),
        UnlinkedConstantPoolEntry::Dynamic(0, 4),
    ]);
    assert!(matches!(r, Err(e) if e == invalid(4, 5)));
}

#[test]
fn an_entry_that_refers_to_itself_is_a_cycle() {
    let r = link_constant_pool(vec![
        UnlinkedConstantPoolEntry::NameAndType { name: 1, descriptor: 1 },
    ]);
    assert!(matches!(r, Err(Error::CyclicReference)));
    let r = link_constant_pool(vec![UnlinkedConstantPoolEntry::Class(1)]);
    assert!(matches!(r, Err(Error::CyclicReference)));
    // the name resolves, the descriptor leads back
    let r = link_constant_pool(vec![
        utf8("a"),
        UnlinkedConstantPoolEntry::NameAndType { name: 1, descriptor: 2 },
    ]);
    assert!(matches!(r, Err(Error::CyclicReference)));
}

#[test]
fn entries_that_refer_to_each_other_are_a_cycle() {
    let r = link_constant_pool(vec![
        UnlinkedConstantPoolEntry::NameAndType { name: 2, descriptor: 2 },
        UnlinkedConstantPoolEntry::Class(1),
    ]);
    assert!(matches!(r, Err(Error::CyclicReference)));
    let r = link_constant_pool(vec![
        UnlinkedConstantPoolEntry::NameAndType { name: 2, descriptor: 2 },
        UnlinkedConstantPoolEntry::MethodHandle {
            ref_kind: MethodHandleKind::InvokeStatic,
            ref_entry: 3,
        },
        UnlinkedConstantPoolEntry::MethodRef(member(1, 1)),
    ]);
    assert!(matches!(r, Err(Error::CyclicReference)));
    let mut linker = Linker::new(vec![
        UnlinkedConstantPoolEntry::Class(2),
        UnlinkedConstantPoolEntry::Class(3),
        UnlinkedConstantPoolEntry::Class(1),
        utf8("free of it"),
    ]);
    assert!(matches!(linker.resolve(1), Err(Error::CyclicReference)));
    assert!(matches!(linker.resolve(2), Err(Error::CyclicReference)));
    assert!(matches!(linker.resolve(3), Err(Error::CyclicReference)));
    assert!(linker.resolve(4).is_ok());
}

#[test]
fn a_fault_deep_down_is_met_before_a_fault_higher_up() {
    // 1 names 2, which is of the wrong kind for it; but 2 names 3, which does not exist
    let r = link_constant_pool(vec![
        UnlinkedConstantPoolEntry::Class(2),
        UnlinkedConstantPoolEntry::Class(3),
    ]);
    assert!(matches!(r, Err(e) if e == invalid(3, 2)));
    // 1 names 2, which resolves to a class: the wrong kind for a name
    let r = link_constant_pool(vec![
        UnlinkedConstantPoolEntry::Class(2),
        UnlinkedConstantPoolEntry::Class(3),
        utf8("a"),
    ]);
    assert!(matches!(r, Err(e) if e == invalid(2, 1)));
    // the same with the wrong kinds three deep
    let r = link_constant_pool(vec![
        UnlinkedConstantPoolEntry::Class(2),
        UnlinkedConstantPoolEntry::Class(3),
        UnlinkedConstantPoolEntry::Class(4),
        utf8("a"),
    ]);
    assert!(matches!(r, Err(e) if e == invalid(3, 2)));
}

#[test]
fn the_first_entry_that_fails_decides() {
    let r = link_constant_pool(vec![
        utf8("a"),
        UnlinkedConstantPoolEntry::Class(9),
        UnlinkedConstantPoolEntry::Class(3),
    ]);
    assert!(matches!(r, Err(e) if e == invalid(9, 2)));
    let r = link_constant_pool(vec![
        utf8("a"),
        UnlinkedConstantPoolEntry::Class(3),
        UnlinkedConstantPoolEntry::Class(9),
    ]);
    assert!(matches!(r, Err(e) if e == invalid(9, 3)));
}

#[test]
fn a_member_is_linked_to_its_class_and_its_name_and_type() {
    let pool = link_constant_pool(vec![
        UnlinkedConstantPoolEntry::MethodRef(member(2, 3)),
        UnlinkedConstantPoolEntry::Class(4),
        UnlinkedConstantPoolEntry::NameAndType { name: 5, descriptor: 6 },
        utf8("java/lang/Object"),
        utf8("<init>"),
        utf8("()V"),
        UnlinkedConstantPoolEntry::FieldRef(member(2, 3)),
        UnlinkedConstantPoolEntry::InterfaceMethodRef(member(2, 3)),
    ])
    .unwrap();
    let method = match pool.get(1) {
        Some(ConstantPoolEntry::MethodRef(m)) => m,
        other => panic!("{:?}", other),
    };
    assert_eq!(method.class.bytes, "java/lang/Object");
    assert_eq!(method.name_and_ty.name.bytes, "<init>");
    assert_eq!(method.name_and_ty.descriptor.bytes, "()V");
    let class_name = match pool.get(2) {
        Some(ConstantPoolEntry::Class(name)) => name,
        other => panic!("{:?}", other),
    };
    let name_and_type = match pool.get(3) {
        Some(ConstantPoolEntry::NameAndType(n)) => n,
        other => panic!("{:?}", other),
    };
    let name = match pool.get(5) {
        Some(ConstantPoolEntry::Utf8(t)) => t,
        other => panic!("{:?}", other),
    };
    assert!(Rc::ptr_eq(&method.class, class_name));
    assert!(Rc::ptr_eq(&method.name_and_ty, name_and_type));
    assert!(Rc::ptr_eq(&name_and_type.name, name));
    let field = match pool.get(7) {
        Some(ConstantPoolEntry::FieldRef(m)) => m,
        other => panic!("{:?}", other),
    };
    let interface_method = match pool.get(8) {
        Some(ConstantPoolEntry::InterfaceMethodRef(m)) => m,
        other => panic!("{:?}", other),
    };
    assert!(Rc::ptr_eq(&field.name_and_ty, &method.name_and_ty));
    assert!(Rc::ptr_eq(&interface_method.class, &method.class));
}

#[test]
fn method_handles_of_one_member_share_it() {
    let pool = link_constant_pool(vec![
        UnlinkedConstantPoolEntry::MethodHandle {
            ref_kind: MethodHandleKind::InvokeStatic,
            ref_entry: 3,
        },
        UnlinkedConstantPoolEntry::MethodHandle {
            ref_kind: MethodHandleKind::InvokeVirtual,
            ref_entry: 3,
        },
        UnlinkedConstantPoolEntry::MethodRef(member(4, 5)),
        UnlinkedConstantPoolEntry::Class(6),
        UnlinkedConstantPoolEntry::NameAndType { name: 6, descriptor: 6 },
        utf8("t"),
        UnlinkedConstantPoolEntry::MethodHandle {
            ref_kind: MethodHandleKind::GetField,
            ref_entry: 8,
        },
        UnlinkedConstantPoolEntry::FieldRef(member(4, 5)),
        UnlinkedConstantPoolEntry::MethodHandle {
            ref_kind: MethodHandleKind::InvokeInterface,
            ref_entry: 10,
        },
        UnlinkedConstantPoolEntry::InterfaceMethodRef(member(4, 5)),
    ])
    .unwrap();
    let first = match pool.get(1) {
        Some(ConstantPoolEntry::MethodHandle(h)) => h,
        other => panic!("{:?}", other),
    };
    let second = match pool.get(2) {
        Some(ConstantPoolEntry::MethodHandle(h)) => h,
        other => panic!("{:?}", other),
    };
    assert_eq!(first.ref_kind, MethodHandleKind::InvokeStatic);
    assert_eq!(second.ref_kind, MethodHandleKind::InvokeVirtual);
    assert!(Rc::ptr_eq(&first.ref_entry, &second.ref_entry));
    assert_eq!(first.ref_entry.class.bytes, "t");
    let method = match pool.get(3) {
        Some(ConstantPoolEntry::MethodRef(m)) => m,
        other => panic!("{:?}", other),
    };
    assert!(Rc::ptr_eq(&first.ref_entry.class, &method.class));
    assert!(Rc::ptr_eq(&first.ref_entry.name_and_ty, &method.name_and_ty));
    assert!(matches!(
        pool.get(7),
        Some(ConstantPoolEntry::MethodHandle(h)) if h.ref_kind == MethodHandleKind::GetField
    ));
    assert!(matches!(
        pool.get(9),
        Some(ConstantPoolEntry::MethodHandle(h)) if h.ref_kind == MethodHandleKind::InvokeInterface
    ));
}

#[test]
fn every_kind_of_entry_links() {
    let pool = link_constant_pool(vec![
        utf8("text"),
        UnlinkedConstantPoolEntry::Integer(-5),
        UnlinkedConstantPoolEntry::Float(0x3F80_0000),
        UnlinkedConstantPoolEntry::Long(-6),
        UnlinkedConstantPoolEntry::Unusable,
        UnlinkedConstantPoolEntry::Double(0x3FF0_0000_0000_0000),
        UnlinkedConstantPoolEntry::Unusable,
        UnlinkedConstantPoolEntry::Class(1),
        UnlinkedConstantPoolEntry::String(1),
        UnlinkedConstantPoolEntry::NameAndType { name: 1, descriptor: 1 },
        UnlinkedConstantPoolEntry::MethodType(1),
        UnlinkedConstantPoolEntry::Module(1),
        UnlinkedConstantPoolEntry::Package(1),
        UnlinkedConstantPoolEntry::Dynamic(3, 10),
        UnlinkedConstantPoolEntry::InvokeDynamic(65535, 10),
    ])
    .unwrap();
    assert_eq!(pool.len(), 15);
    assert!(matches!(pool.get(1), Some(ConstantPoolEntry::Utf8(t)) if t.bytes == "text"));
    assert!(matches!(pool.get(2), Some(ConstantPoolEntry::Integer(v)) if v.val == -5));
    assert!(
        matches!(pool.get(3), Some(ConstantPoolEntry::Float(v)) if f32::from_bits(v.val) == 1.0)
    );
    assert!(matches!(pool.get(4), Some(ConstantPoolEntry::Long(v)) if v.val == -6));
    assert!(pool.get(5).is_none());
    assert!(
        matches!(pool.get(6), Some(ConstantPoolEntry::Double(v)) if f64::from_bits(v.val) == 1.0)
    );
    assert!(pool.get(7).is_none());
    assert!(matches!(pool.get(8), Some(ConstantPoolEntry::Class(t)) if t.bytes == "text"));
    assert!(matches!(pool.get(9), Some(ConstantPoolEntry::String(t)) if t.bytes == "text"));
    assert!(matches!(
        pool.get(10),
        Some(ConstantPoolEntry::NameAndType(n)) if n.name.bytes == "text" && n.descriptor.bytes == "text"
    ));
    assert!(matches!(
        pool.get(11),
        Some(ConstantPoolEntry::MethodType(t)) if t.descriptor.bytes == "text"
    ));
    assert!(matches!(pool.get(12), Some(ConstantPoolEntry::Module(t)) if t.bytes == "text"));
    assert!(matches!(pool.get(13), Some(ConstantPoolEntry::Package(t)) if t.bytes == "text"));
    assert!(matches!(
        pool.get(14),
        Some(ConstantPoolEntry::Dynamic(d)) if d.bootstrap_attr_idx == 3 && d.name_and_ty.name.bytes == "text"
    ));
    assert!(matches!(
        pool.get(15),
        Some(ConstantPoolEntry::InvokeDynamic(d)) if d.bootstrap_attr_idx == 65535
    ));
    let name_and_type = match pool.get(10) {
        Some(ConstantPoolEntry::NameAndType(n)) => n,
        other => panic!("{:?}", other),
    };
    match pool.get(14) {
        Some(ConstantPoolEntry::Dynamic(d)) => assert!(Rc::ptr_eq(&d.name_and_ty, name_and_type)),
        other => panic!("{:?}", other),
    }
}

#[test]
fn an_empty_table_links_to_an_empty_pool() {
    let pool = link_constant_pool(Vec::new()).unwrap();
    assert_eq!(pool.len(), 0);
    assert!(pool.get(0).is_none());
    assert!(pool.get(1).is_none());
}

#[test]
fn a_linker_goes_on_after_an_error() {
    let mut linker = Linker::new(vec![
        UnlinkedConstantPoolEntry::FieldRef(member(2, 3)),
        UnlinkedConstantPoolEntry::Class(4),
        UnlinkedConstantPoolEntry::NameAndType { name: 4, descriptor: 1 },
        utf8("a"),
    ]);
    // 1 -> 2 (fine), 1 -> 3 -> 4 (fine), 3 -> 1: cycle
    assert!(matches!(linker.resolve(1), Err(Error::CyclicReference)));
    // what was resolved on the way is kept, and nothing is left in progress
    assert!(matches!(linker.resolve(2), Ok(ConstantPoolEntry::Class(_))));
    assert!(matches!(linker.resolve(1), Err(Error::CyclicReference)));
    assert!(matches!(linker.resolve(3), Err(Error::CyclicReference)));
    assert!(matches!(linker.resolve(4), Ok(ConstantPoolEntry::Utf8(_))));
    assert!(matches!(linker.link(), Err(Error::CyclicReference)));
}

#[test]
fn resolving_twice_gives_the_same_value() {
    let mut linker = Linker::new(vec![UnlinkedConstantPoolEntry::Class(2), utf8("a")]);
    let first = match linker.resolve(1) {
        Ok(ConstantPoolEntry::Class(name)) => name,
        other => panic!("{:?}", other),
    };
    let second = match linker.resolve(1) {
        Ok(ConstantPoolEntry::Class(name)) => name,
        other => panic!("{:?}", other),
    };
    assert!(Rc::ptr_eq(&first, &second));
    let pool = linker.link().unwrap();
    match pool.get(2) {
        Some(ConstantPoolEntry::Utf8(text)) => assert!(Rc::ptr_eq(text, &first)),
        other => panic!("{:?}", other),
    }
}

#[test]
fn a_copy_of_an_entry_shares_what_it_refers_to() {
    let pool = link_constant_pool(vec![UnlinkedConstantPoolEntry::Class(2), utf8("a")]).unwrap();
    let entry = pool.get(1).unwrap();
    let copy = entry.clone();
    match (entry, &copy) {
        (ConstantPoolEntry::Class(a), ConstantPoolEntry::Class(b)) => assert!(Rc::ptr_eq(a, b)),
        other => panic!("{:?}", other),
    }
}

#[test]
fn a_long_chain_of_wrong_kinds_does_not_exhaust_the_stack() {
    // entry i names entry i + 1, the last names itself
    let n: u16 = 65535;
    let mut table = Vec::new();
    for i in 1..n {
        table.push(UnlinkedConstantPoolEntry::Class(i + 1));
    }
    table.push(UnlinkedConstantPoolEntry::Class(n));
    assert!(matches!(link_constant_pool(table), Err(Error::CyclicReference)));

    // the same chain ending in a text: the entry before the last is a
    // class, and the one before that names a class where it needs a text
    let mut table = Vec::new();
    for i in 1..n {
        table.push(UnlinkedConstantPoolEntry::Class(i + 1));
    }
    table.push(utf8("end"));
    assert!(matches!(link_constant_pool(table), Err(e) if e == invalid(n - 1, n - 2)));

    // the same chain ending in an index past the end
    let mut table = Vec::new();
    for i in 1..n {
        table.push(UnlinkedConstantPoolEntry::Class(i + 1));
    }
    table.push(UnlinkedConstantPoolEntry::Class(0));
    assert!(matches!(link_constant_pool(table), Err(e) if e == invalid(0, n)));
}

#[test]
fn a_large_pool_links() {
    let n: u16 = 65535;
    let mut table = vec![utf8("shared")];
    for _ in 1..n {
        table.push(UnlinkedConstantPoolEntry::Class(1));
    }
    let pool = link_constant_pool(table).unwrap();
    assert_eq!(pool.len(), 65535);
    let text = match pool.get(1) {
        Some(ConstantPoolEntry::Utf8(t)) => t,
        other => panic!("{:?}", other),
    };
    assert_eq!(Rc::strong_count(text), 65535);
    match pool.get(n) {
        Some(ConstantPoolEntry::Class(name)) => assert!(Rc::ptr_eq(name, text)),
        other => panic!("{:?}", other),
    }
}

#[test]
fn a_table_of_any_length_is_answered() {
    assert!(matches!(try_link_constant_pool(Vec::new()), Some(Ok(_))));
    let r = try_link_constant_pool(vec![UnlinkedConstantPoolEntry::Class(1)]);
    assert!(matches!(r, Some(Err(Error::CyclicReference))));
    let mut table = Vec::new();
    for _ in 0..65535 {
        table.push(UnlinkedConstantPoolEntry::Integer(0));
    }
    assert!(matches!(try_link_constant_pool(table), Some(Ok(pool)) if pool.len() == 65535));
    let mut table = Vec::new();
    for _ in 0..65536 {
        table.push(UnlinkedConstantPoolEntry::Integer(0));
    }
    assert!(try_link_constant_pool(table).is_none());
}

#[test]
fn a_new_linker_has_resolved_nothing() {
    // resolving one entry does not touch the others: the text at 3 is
    // first made when it is asked for, and shared from then on
    let mut linker = Linker::new(vec![UnlinkedConstantPoolEntry::Class(2), utf8("a"), utf8("b")]);
    let class = match linker.resolve(1) {
        Ok(ConstantPoolEntry::Class(name)) => name,
        other => panic!("{:?}", other),
    };
    // the class, the kept class entry and the kept text hold the name
    assert_eq!(Rc::strong_count(&class), 3);
    let other = match linker.resolve(3) {
        Ok(ConstantPoolEntry::Utf8(text)) => text,
        other => panic!("{:?}", other),
    };
    assert_eq!(Rc::strong_count(&other), 2);
}
