use objc_messages::classes::{ClassHostObject, HostObject, HostObjects, Lookup};
use objc_messages::mem::Mem;
use objc_messages::names::NameTable;
use objc_messages::text::{is_text, same_text};
use objc_messages::types::{id, nil, objc_super, GuestFunction, SuperPtr, IMP, SEL};

fn guest(address: u32) -> IMP {
    IMP::Guest(GuestFunction { address })
}

fn class(name: &str, superclass: u32, methods: &[(u32, u32)]) -> HostObject {
    let mut class = ClassHostObject::new(name, id::from_bits(superclass), false);
    for (selector, address) in methods {
        class.add_method(SEL::from_bits(*selector), guest(*address));
    }
    HostObject::Class(class)
}

fn found_at(lookup: Lookup) -> Option<(u32, u32)> {
    match lookup {
        Lookup::Method { class, imp: IMP::Guest(function) } => Some((class.bits, function.address)),
        _ => None,
    }
}

#[test]
fn texts_are_compared_byte_by_byte() {
    assert!(is_text(b"retain", "retain"));
    assert!(!is_text(b"retain", "retail"));
    assert!(!is_text(b"retain", "retains"));
    assert!(is_text(b"", ""));
    assert!(same_text("GrowButton", "GrowButton"));
    assert!(!same_text("GrowButton", "GrowStarButton"));
}

#[test]
fn memory_starts_out_as_zeros() {
    let mem = Mem::new();
    assert_eq!(mem.read_u8(0), 0);
    assert_eq!(mem.read_u32(u32::MAX), 0);
}

#[test]
fn words_are_little_endian() {
    let mut mem = Mem::new();
    mem.write_u32(0x1000, 0x0403_0201);
    assert_eq!(mem.read_u8(0x1000), 1);
    assert_eq!(mem.read_u8(0x1001), 2);
    assert_eq!(mem.read_u8(0x1002), 3);
    assert_eq!(mem.read_u8(0x1003), 4);
    assert_eq!(mem.read_u32(0x1000), 0x0403_0201);
    assert_eq!(mem.read_u32(0x1001), 0x0004_0302);
    assert_eq!(mem.read_u32(0x1004), 0);
    assert_eq!(mem.read_u32(0x0ffc), 0);
}

#[test]
fn addresses_wrap_around() {
    let mut mem = Mem::new();
    mem.write_u32(u32::MAX - 1, 0x0403_0201);
    assert_eq!(mem.read_u8(0), 3);
    assert_eq!(mem.read_u8(1), 4);
    assert_eq!(mem.read_u32(u32::MAX - 1), 0x0403_0201);
}

#[test]
fn several_words_are_read_back() {
    let mut mem = Mem::new();
    mem.write_words(0x2000, &vec![9, 8, 7, 6], 1);
    assert_eq!(mem.read_words(0x2000, 4), vec![8, 7, 6, 0]);
    assert_eq!(mem.read_words(0x2000, 0), Vec::<u32>::new());
}

#[test]
fn words_beside_those_that_are_written_are_kept() {
    let mut mem = Mem::new();
    mem.write_u32(0x2000 - 4, 5);
    mem.write_u32(0x2000 + 12, 6);
    mem.write_words(0x2000, &vec![1, 2, 3], 0);
    assert_eq!(mem.read_words(0x2000 - 4, 5), vec![5, 1, 2, 3, 6]);
}

#[test]
fn selector_names_end_at_the_first_zero() {
    let mut mem = Mem::new();
    for (i, byte) in b"init\0With".iter().enumerate() {
        mem.write_u8(0x3000 + i as u32, *byte);
    }
    assert_eq!(mem.selector_name(SEL::from_bits(0x3000)), b"init".to_vec());
    assert_eq!(mem.selector_name(SEL::from_bits(0x3004)), Vec::<u8>::new());
    mem.write_u8(u32::MAX, b'x');
    assert_eq!(mem.selector_name(SEL::from_bits(u32::MAX)), b"x".to_vec());
}

#[test]
fn super_structs_are_read_back() {
    let mut mem = Mem::new();
    let value = objc_super { receiver: id::from_bits(0x11), class: id::from_bits(0x22) };
    let ptr = SuperPtr { bits: 0x4000 };
    mem.write_super(ptr, value);
    assert_eq!(mem.read_super(ptr), value);
    assert_eq!(mem.read_u32(0x4000), 0x11);
    assert_eq!(mem.read_u32(0x4004), 0x22);
    assert_eq!(mem.read_isa(id::from_bits(0x4000)), id::from_bits(0x11));
}

#[test]
fn the_first_entry_of_a_name_counts() {
    let mut table = NameTable::new();
    assert_eq!(table.find("init"), None);
    table.push("init", 1);
    table.push("retain", 2);
    table.push("init", 3);
    assert_eq!(table.find("init"), Some(1));
    assert_eq!(table.find("retain"), Some(2));
    assert_eq!(table.find("release"), None);
}

#[test]
fn no_class_becomes_its_own_superclass() {
    let mut objects = HostObjects::new();
    assert!(!objects.insert(id::from_bits(1), class("A", 1, &[])));
    assert!(objects.insert(id::from_bits(1), class("A", 2, &[])));
    assert!(objects.insert(id::from_bits(2), class("B", 3, &[])));
    assert!(!objects.insert(id::from_bits(3), class("C", 1, &[])));
    assert!(objects.get(id::from_bits(3)).is_none());
    assert!(objects.insert(id::from_bits(3), class("C", 0, &[])));
    // What is no class ends the chain.
    assert!(objects.insert(id::from_bits(2), HostObject::Instance));
    assert!(objects.insert(id::from_bits(3), class("C", 1, &[])));
}

#[test]
fn methods_are_inherited_from_the_nearest_class() {
    let mut objects = HostObjects::new();
    assert!(objects.insert(id::from_bits(1), class("Root", 0, &[(10, 100), (11, 101)])));
    assert!(objects.insert(id::from_bits(2), class("Middle", 1, &[(11, 201)])));
    assert!(objects.insert(id::from_bits(3), class("Leaf", 2, &[(12, 302)])));
    let leaf = id::from_bits(3);
    assert_eq!(found_at(objects.lookup(leaf, SEL::from_bits(10))), Some((1, 100)));
    assert_eq!(found_at(objects.lookup(leaf, SEL::from_bits(11))), Some((2, 201)));
    assert_eq!(found_at(objects.lookup(leaf, SEL::from_bits(12))), Some((3, 302)));
    assert!(matches!(objects.lookup(leaf, SEL::from_bits(13)), Lookup::NotFound));
    assert!(objects.class_has_method(leaf, SEL::from_bits(10)));
    assert!(!objects.class_has_method(leaf, SEL::from_bits(13)));
    assert!(!objects.class_has_method(nil(), SEL::from_bits(10)));
}

#[test]
fn messages_to_super_skip_the_classs_own_methods() {
    let mut objects = HostObjects::new();
    assert!(objects.insert(id::from_bits(1), class("Root", 0, &[(10, 100)])));
    assert!(objects.insert(id::from_bits(2), class("Leaf", 1, &[(10, 200), (11, 201)])));
    let leaf = id::from_bits(2);
    let ten = SEL::from_bits(10);
    assert_eq!(found_at(objects.lookup_from(leaf, ten, false)), Some((2, 200)));
    assert_eq!(found_at(objects.lookup_from(leaf, ten, true)), Some((1, 100)));
    let eleven = SEL::from_bits(11);
    assert!(matches!(objects.lookup_from(leaf, eleven, true), Lookup::NotFound));
}

#[test]
fn the_search_ends_at_what_is_no_ordinary_class() {
    let mut objects = HostObjects::new();
    let selector = SEL::from_bits(10);
    let unimplemented =
        HostObject::UnimplementedClass { name: String::from("U"), is_metaclass: false };
    let faked = HostObject::FakeClass { name: String::from("F"), is_metaclass: true };
    assert!(objects.insert(id::from_bits(1), unimplemented));
    assert!(objects.insert(id::from_bits(2), faked));
    assert!(objects.insert(id::from_bits(3), HostObject::Instance));
    for superclass in 1..5 {
        assert!(objects.insert(id::from_bits(10 + superclass), class("C", superclass, &[])));
    }
    let at = |class: u32| objects.lookup(id::from_bits(class), selector);
    assert!(matches!(at(11), Lookup::Unimplemented { class } if class.bits == 1));
    assert!(matches!(at(12), Lookup::Faked { class } if class.bits == 2));
    assert!(matches!(at(13), Lookup::NoClass { class } if class.bits == 3));
    assert!(matches!(at(14), Lookup::NoHostObject { class } if class.bits == 4));
    assert_eq!(objects.get_class_name(id::from_bits(1)), "U");
    assert_eq!(objects.get_class_name(id::from_bits(2)), "F");
    assert_eq!(objects.get_class_name(id::from_bits(3)), "");
    assert_eq!(objects.get_class_name(id::from_bits(11)), "C");
}
