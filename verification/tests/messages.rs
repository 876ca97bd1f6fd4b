use std::cell::RefCell;

use objc_messages::classes::{ClassHostObject, HostObject};
use objc_messages::environment::{Environment, HostCall, Notice, LR, SP};
use objc_messages::messages::{
    autorelease, ensure_class_initialized, msg, msg_class, msg_send, msg_send_no_type_checking,
    msg_send_super2, msg_super, objc_msgSend, objc_msgSendSuper2, objc_msgSendSuper2_stret,
    objc_msgSend_stret, release, retain, _touchHLE_objc_msgSend_stret_tolerant,
    _touchHLE_objc_msgSend_tolerant,
};
use objc_messages::signature::MsgSendSignature;
use objc_messages::runner::Runner;
use objc_messages::types::{
    id, nil, objc_super, GuestFunction, HostIMP, SuperPtr, TypeInfo, IMP, SEL,
};

const ROOT: u32 = 0x1000;
const ROOT_META: u32 = 0x1100;
const LEAF: u32 = 0x2000;
const LEAF_META: u32 = 0x2100;
const OBJECT: u32 = 0x3000;
const STACK: u32 = 0x8000_0000;

const INITIALIZE: u32 = 0x5000;
const RUN: u32 = 0x5100;
const RETAIN: u32 = 0x5200;
const RELEASE: u32 = 0x5300;
const AUTORELEASE: u32 = 0x5400;
const ALLOC: u32 = 0x5500;
const MISSING: u32 = 0x5600;

fn guest(address: u32) -> IMP {
    IMP::Guest(GuestFunction { address })
}

fn write_name(env: &mut Environment, address: u32, name: &str) {
    for (i, byte) in name.bytes().enumerate() {
        env.mem.write_u8(address + i as u32, byte);
    }
    env.mem.write_u8(address + name.len() as u32, 0);
    env.objc.selectors.push(name, address);
}

fn add_class(env: &mut Environment, name: &str, at: u32, meta: u32, superclass: u32, super_meta: u32) {
    let class = ClassHostObject::new(name, id::from_bits(superclass), false);
    assert!(env.objc.objects.insert(id::from_bits(at), HostObject::Class(class)));
    let metaclass = ClassHostObject::new(name, id::from_bits(super_meta), true);
    assert!(env.objc.objects.insert(id::from_bits(meta), HostObject::Class(metaclass)));
    env.mem.write_u32(at, meta);
    env.objc.known_classes.push(name, at);
}

/// Replaces a class by one with the given methods.
fn set_methods(
    env: &mut Environment,
    name: &str,
    at: u32,
    superclass: u32,
    is_metaclass: bool,
    methods: &[(u32, IMP)],
) {
    let mut class = ClassHostObject::new(name, id::from_bits(superclass), is_metaclass);
    for (selector, imp) in methods {
        class.add_method(SEL::from_bits(*selector), *imp);
    }
    assert!(env.objc.objects.insert(id::from_bits(at), HostObject::Class(class)));
}

/// An environment with a root class, a leaf class and an instance of the leaf.
fn world() -> Environment {
    let mut env = Environment::new();
    env.cpu.regs[SP] = STACK;
    env.cpu.regs[LR] = 0x1234;
    write_name(&mut env, RUN, "run:");
    write_name(&mut env, RETAIN, "retain");
    write_name(&mut env, RELEASE, "release");
    write_name(&mut env, AUTORELEASE, "autorelease");
    write_name(&mut env, ALLOC, "allocWithZone:");
    write_name(&mut env, MISSING, "missing");
    add_class(&mut env, "Root", ROOT, ROOT_META, 0, ROOT);
    add_class(&mut env, "Leaf", LEAF, LEAF_META, ROOT, ROOT_META);
    env.mem.write_u32(OBJECT, LEAF);
    env
}

fn nothing(_call: HostCall, env: Environment) -> (Environment, u32) {
    (env, 0)
}

fn invoked(call: HostCall) -> u32 {
    match call {
        HostCall::Invoke(IMP::Guest(function)) => function.address,
        HostCall::Invoke(IMP::Host(host)) => host.number,
        _ => panic!("unexpected call"),
    }
}

#[test]
fn messages_to_nil_return_zero() {
    let mut env = world();
    env.cpu.regs[0] = 5;
    env.cpu.regs[1] = 6;
    env.cpu.regs[2] = 7;
    let run = |_call: HostCall, _env: Environment| -> (Environment, u32) { panic!("no call") };
    objc_msgSend(&mut env, &mut Runner::new(&run), nil(), SEL::from_bits(RUN));
    assert_eq!(env.cpu.regs[0..3], [0, 0, 7]);
    assert!(env.notices.is_empty());
}

#[test]
fn methods_get_their_arguments_and_give_their_result() {
    let mut env = world();
    set_methods(&mut env, "Leaf", LEAF, ROOT, false, &[(RUN, guest(42))]);
    env.cpu.regs[0] = OBJECT;
    env.cpu.regs[1] = RUN;
    env.cpu.regs[2] = 20;
    env.cpu.regs[3] = 30;
    let run = |call: HostCall, mut env: Environment| {
        assert_eq!(invoked(call), 42);
        assert_eq!(env.cpu.regs[0..4], [OBJECT, RUN, 20, 30]);
        assert_eq!(env.cpu.regs[SP], STACK);
        env.cpu.regs[0] = 99;
        env.cpu.regs[1] = 98;
        (env, 0)
    };
    objc_msgSend(&mut env, &mut Runner::new(&run), id::from_bits(OBJECT), SEL::from_bits(RUN));
    assert_eq!(env.cpu.regs[0..2], [99, 98]);
    assert!(env.objc.initialized_classes.contains(&LEAF));
    assert!(env.objc.initialized_classes.contains(&ROOT));
}

#[test]
fn methods_are_inherited_and_super_skips_them() {
    let mut env = world();
    set_methods(&mut env, "Root", ROOT, 0, false, &[(RUN, guest(1))]);
    let log = RefCell::new(Vec::new());
    let run = |call: HostCall, env: Environment| {
        log.borrow_mut().push(invoked(call));
        (env, 0)
    };
    objc_msgSend(&mut env, &mut Runner::new(&run), id::from_bits(OBJECT), SEL::from_bits(RUN));
    set_methods(&mut env, "Leaf", LEAF, ROOT, false, &[(RUN, guest(2))]);
    objc_msgSend(&mut env, &mut Runner::new(&run), id::from_bits(OBJECT), SEL::from_bits(RUN));
    let ptr = SuperPtr { bits: 0x6000 };
    env.mem.write_super(
        ptr,
        objc_super { receiver: id::from_bits(OBJECT), class: id::from_bits(LEAF) },
    );
    env.cpu.regs[0] = ptr.bits;
    objc_msgSendSuper2(&mut env, &mut Runner::new(&run), ptr, SEL::from_bits(RUN));
    assert_eq!(*log.borrow(), vec![1, 2, 1]);
    // The receiver took the place of the pointer.
    assert_eq!(env.cpu.regs[0], OBJECT);
}

#[test]
fn superclasses_are_initialized_first_and_once() {
    let mut env = world();
    write_name(&mut env, INITIALIZE, "initialize");
    set_methods(&mut env, "Root", ROOT_META, ROOT, true, &[(INITIALIZE, guest(1))]);
    set_methods(&mut env, "Leaf", LEAF_META, ROOT_META, true, &[(INITIALIZE, guest(2))]);
    set_methods(&mut env, "Leaf", LEAF, ROOT, false, &[(RUN, guest(3))]);
    let log = RefCell::new(Vec::new());
    let run = |call: HostCall, mut env: Environment| {
        let number = invoked(call);
        log.borrow_mut().push((number, env.cpu.regs[0]));
        match number {
            1 => {
                assert!(env.objc.initialized_classes.contains(&ROOT));
                assert!(!env.objc.initialized_classes.contains(&LEAF));
            }
            2 => assert!(env.objc.initialized_classes.contains(&LEAF)),
            _ => {}
        }
        if number != 3 {
            env.cpu.regs[0] = 1000;
            env.cpu.regs[1] = 1001;
            env.cpu.regs[2] = 1002;
            env.cpu.regs[3] = 1003;
            env.cpu.regs[SP] = 1004;
            env.cpu.regs[LR] = 1005;
        } else {
            assert_eq!(env.cpu.regs[0..4], [OBJECT, RUN, 7, 8]);
            assert_eq!(env.cpu.regs[SP], STACK);
            assert_eq!(env.cpu.regs[LR], 0x1234);
        }
        (env, 0)
    };
    for _ in 0..2 {
        env.cpu.regs[0] = OBJECT;
        env.cpu.regs[1] = RUN;
        env.cpu.regs[2] = 7;
        env.cpu.regs[3] = 8;
        objc_msgSend(&mut env, &mut Runner::new(&run), id::from_bits(OBJECT), SEL::from_bits(RUN));
    }
    assert_eq!(*log.borrow(), vec![(1, ROOT), (2, LEAF), (3, OBJECT), (3, OBJECT)]);
}

#[test]
fn an_inherited_initialize_is_sent_to_each_class() {
    let mut env = world();
    write_name(&mut env, INITIALIZE, "initialize");
    set_methods(&mut env, "Root", ROOT_META, ROOT, true, &[(INITIALIZE, guest(1))]);
    let log = RefCell::new(Vec::new());
    let run = |call: HostCall, env: Environment| {
        assert_eq!(invoked(call), 1);
        log.borrow_mut().push(env.cpu.regs[0]);
        (env, 0)
    };
    // A message to the class itself initializes the class, not the metaclass.
    objc_msgSend(&mut env, &mut Runner::new(&run), id::from_bits(LEAF), SEL::from_bits(MISSING));
    assert_eq!(*log.borrow(), vec![ROOT, LEAF]);
    assert!(!env.objc.initialized_classes.contains(&LEAF_META));
}

#[test]
fn classes_without_initialize_are_only_marked() {
    let mut env = world();
    let run = |_call: HostCall, _env: Environment| -> (Environment, u32) { panic!("no call") };
    ensure_class_initialized(&mut env, &mut Runner::new(&run), id::from_bits(LEAF));
    assert!(env.objc.initialized_classes.contains(&LEAF));
    assert!(env.objc.initialized_classes.contains(&ROOT));
    // The same with the selector registered and no method for it.
    let mut env = world();
    write_name(&mut env, INITIALIZE, "initialize");
    ensure_class_initialized(&mut env, &mut Runner::new(&run), id::from_bits(LEAF));
    assert!(env.objc.initialized_classes.contains(&LEAF));
    // What is no class is marked too; nil is not.
    ensure_class_initialized(&mut env, &mut Runner::new(&run), id::from_bits(0x7777));
    assert!(env.objc.initialized_classes.contains(&0x7777));
    ensure_class_initialized(&mut env, &mut Runner::new(&run), nil());
    assert!(!env.objc.initialized_classes.contains(&0));
}

/// Sends the message that is being dispatched again, forever.
fn recurse(call: HostCall, mut env: Environment) -> (Environment, u32) {
    match call {
        HostCall::Invoke(_) => {
            let rounds = env.mem.read_u32(0x100);
            env.mem.write_u32(0x100, rounds + 1);
            let receiver = id::from_bits(env.cpu.regs[0]);
            let selector = SEL::from_bits(env.cpu.regs[1]);
            env.cpu.regs[2] = 77;
            objc_msgSend(&mut env, &mut Runner::new(&recurse), receiver, selector);
            (env, 0)
        }
        HostCall::AllocObject(class) => {
            env.mem.write_u32(0x104, class.bits);
            // Only memory and the tables are taken back.
            env.cpu.regs = [1; 16];
            env.notices.clear();
            env.objc.initialized_classes.clear();
            (env, 0xa110c)
        }
        _ => panic!("unexpected call"),
    }
}

#[test]
fn recursion_is_limited() {
    let mut env = world();
    set_methods(&mut env, "Leaf", LEAF, ROOT, false, &[(RUN, guest(1))]);
    for round in 1..3 {
        env.cpu.regs[0] = OBJECT;
        env.cpu.regs[1] = RUN;
        objc_msgSend(&mut env, &mut Runner::new(&recurse), id::from_bits(OBJECT), SEL::from_bits(RUN));
        // The count of nested messages is back at what it was.
        assert_eq!(env.mem.read_u32(0x100), 128 * round);
        assert_eq!(env.cpu.regs[0..3], [0, 0, 77]);
        assert_eq!(env.notices.len() as u32, round);
        match env.notices[0] {
            Notice::RecursionLimit { receiver, selector } => {
                assert_eq!(receiver.bits, OBJECT);
                assert_eq!(selector.bits, RUN);
            }
            _ => panic!("wrong notice"),
        }
    }
}

#[test]
fn allocations_are_made_beyond_the_limit() {
    let mut env = world();
    set_methods(&mut env, "Leaf", LEAF_META, ROOT_META, true, &[(ALLOC, guest(1))]);
    env.cpu.regs[0] = LEAF;
    env.cpu.regs[1] = ALLOC;
    objc_msgSend(&mut env, &mut Runner::new(&recurse), id::from_bits(LEAF), SEL::from_bits(ALLOC));
    assert_eq!(env.mem.read_u32(0x100), 128);
    assert_eq!(env.mem.read_u32(0x104), LEAF);
    assert_eq!(env.cpu.regs[0..4], [0xa110c, ALLOC, 77, 0]);
    assert_eq!(env.cpu.regs[SP], STACK);
    assert_eq!(env.notices.len(), 1);
    assert!(env.objc.initialized_classes.contains(&LEAF));
}

#[test]
fn receivers_without_a_class_are_reported_a_few_times() {
    let mut env = world();
    for _ in 0..20 {
        env.cpu.regs[0] = 1;
        env.cpu.regs[1] = 1;
        objc_msgSend(&mut env, &mut Runner::new(&nothing), id::from_bits(0x4444), SEL::from_bits(RUN));
        assert_eq!(env.cpu.regs[0..2], [0, 0]);
    }
    assert_eq!(env.notices.len(), 9);
    for (i, notice) in env.notices.iter().enumerate() {
        match notice {
            Notice::NilIsa { receiver, count, .. } => {
                assert!(i < 8);
                assert_eq!(receiver.bits, 0x4444);
                assert_eq!(*count, i + 1);
            }
            Notice::NilIsaSuppressed => assert_eq!(i, 8),
            _ => panic!("wrong notice"),
        }
    }
    assert_eq!(env.nil_isa_count, 20);
}

#[test]
fn messages_that_nothing_responds_to_return_zero() {
    let mut env = world();
    env.cpu.regs[0] = 1;
    env.cpu.regs[1] = 1;
    objc_msgSend(&mut env, &mut Runner::new(&nothing), id::from_bits(OBJECT), SEL::from_bits(MISSING));
    assert_eq!(env.cpu.regs[0..2], [0, 0]);
    assert_eq!(env.notices.len(), 1);
    match env.notices[0] {
        Notice::DoesNotRespond { receiver, selector, class, to_super } => {
            assert_eq!(receiver.bits, OBJECT);
            assert_eq!(selector.bits, MISSING);
            assert_eq!(class.bits, LEAF);
            assert!(!to_super);
        }
        _ => panic!("wrong notice"),
    }
}

#[test]
fn classes_that_are_not_there_behave_like_nil() {
    let mut env = world();
    let faked = HostObject::FakeClass { name: String::from("Fake"), is_metaclass: false };
    let unimplemented =
        HostObject::UnimplementedClass { name: String::from("Un"), is_metaclass: false };
    assert!(env.objc.objects.insert(id::from_bits(0x9000), faked));
    assert!(env.objc.objects.insert(id::from_bits(0x9100), unimplemented));
    assert!(env.objc.objects.insert(id::from_bits(0x9200), HostObject::Instance));
    for (i, class) in [0x9000u32, 0x9100, 0x9200, 0x9300].iter().enumerate() {
        let object = 0xa000 + i as u32 * 4;
        env.mem.write_u32(object, *class);
        env.cpu.regs[0] = 1;
        env.cpu.regs[1] = 1;
        objc_msgSend(&mut env, &mut Runner::new(&nothing), id::from_bits(object), SEL::from_bits(RUN));
        assert_eq!(env.cpu.regs[0..2], [0, 0]);
        assert!(!env.objc.initialized_classes.contains(class));
    }
    // A class without any host object is not reported.
    assert_eq!(env.notices.len(), 3);
    assert!(matches!(env.notices[0], Notice::FakedClass { class, .. } if class.bits == 0x9000));
    assert!(
        matches!(env.notices[1], Notice::UnimplementedClass { class, .. } if class.bits == 0x9100)
    );
    assert!(matches!(
        env.notices[2],
        Notice::UnexpectedHostObject { class, receiver, .. }
            if class.bits == 0x9200 && receiver.bits == 0xa008
    ));
}

fn host(number: u32, type_info: TypeInfo) -> IMP {
    IMP::Host(HostIMP { number, type_info })
}

#[test]
fn signatures_that_match_are_not_reported() {
    let mut env = world();
    let info = <(u32, (id, SEL, u32)) as MsgSendSignature>::type_info();
    set_methods(&mut env, "Leaf", LEAF, ROOT, false, &[(RUN, host(5, info))]);
    let run = |call: HostCall, mut env: Environment| {
        assert_eq!(invoked(call), 5);
        assert!(env.objc.message_type_info.is_none());
        env.cpu.regs[0] = env.cpu.regs[2] + 1;
        (env, 0)
    };
    let args = (id::from_bits(OBJECT), SEL::from_bits(RUN), 41u32);
    let value: u32 = msg_send(&mut env, &mut Runner::new(&run), args);
    assert_eq!(value, 42);
    assert!(env.notices.is_empty());
    assert!(env.objc.message_type_info.is_none());
}

#[test]
fn signatures_that_do_not_match_are_reported() {
    let mut env = world();
    let info = <((), (id, SEL, i32)) as MsgSendSignature>::type_info();
    set_methods(&mut env, "Leaf", LEAF, ROOT, false, &[(RUN, host(5, info)), (MISSING, guest(6))]);
    let object = id::from_bits(OBJECT);
    let _: u32 = msg_send(&mut env, &mut Runner::new(&nothing), (object, SEL::from_bits(RUN), 41u32));
    assert_eq!(env.notices.len(), 1);
    match env.notices[0] {
        Notice::TypeMismatch { receiver, selector, sent, expected, tolerated } => {
            assert_eq!(receiver, object);
            assert_eq!(selector.bits, RUN);
            assert!(sent.0 == <(u32, (id, SEL, u32)) as MsgSendSignature>::type_info().0);
            assert!(expected.0 == info.0);
            assert_eq!(expected.1, "[description unavailable in release builds]");
            assert!(!tolerated);
        }
        _ => panic!("wrong notice"),
    }
    // Neither a message that is not to be checked nor a guest method is.
    let _: u32 = msg_send_no_type_checking(&mut env, &mut Runner::new(&nothing), (object, SEL::from_bits(RUN), 1u32));
    let _: u32 = msg_send(&mut env, &mut Runner::new(&nothing), (object, SEL::from_bits(MISSING), 1u32));
    assert_eq!(env.notices.len(), 1);
}

#[test]
fn mismatches_can_be_tolerated() {
    let mut env = world();
    let info = <((), (id, SEL)) as MsgSendSignature>::type_info();
    set_methods(&mut env, "Leaf", LEAF, ROOT, false, &[(RUN, host(5, info))]);
    env.objc.message_type_info = Some(<(u32, (id, SEL)) as MsgSendSignature>::type_info());
    let object = id::from_bits(OBJECT);
    _touchHLE_objc_msgSend_tolerant(&mut env, &mut Runner::new(&nothing), object, SEL::from_bits(RUN));
    assert_eq!(env.notices.len(), 1);
    assert!(matches!(env.notices[0], Notice::TypeMismatch { tolerated: true, .. }));
}

#[test]
fn a_dispatched_message_takes_its_signature() {
    let mut env = world();
    let info = <((), (id, SEL)) as MsgSendSignature>::type_info();
    env.objc.message_type_info = Some(info);
    objc_msgSend_stret(&mut env, &mut Runner::new(&nothing), 0, nil(), SEL::from_bits(RUN));
    assert!(env.objc.message_type_info.is_none());
}

#[test]
fn arguments_that_do_not_fit_in_registers_go_to_the_stack() {
    let mut env = world();
    set_methods(&mut env, "Leaf", LEAF, ROOT, false, &[(RUN, guest(1))]);
    let run = |_call: HostCall, mut env: Environment| {
        assert_eq!(env.cpu.regs[0..4], [OBJECT, RUN, 3, 0xffff_fffc]);
        let sp = env.cpu.regs[SP];
        assert_eq!(sp, STACK - 12);
        assert_eq!(env.mem.read_words(sp, 4), vec![5, 6, 7, 0]);
        env.cpu.regs[0] = 0x89ab_cdef;
        env.cpu.regs[1] = 0x0123_4567;
        env.cpu.regs[SP] = 0;
        env.cpu.regs[LR] = 0;
        (env, 0)
    };
    let args = (
        id::from_bits(OBJECT),
        SEL::from_bits(RUN),
        3u32,
        -4i32,
        5u32,
        id::from_bits(6),
        SEL::from_bits(7),
    );
    let value: u64 = msg_send(&mut env, &mut Runner::new(&run), args);
    assert_eq!(value, 0x0123_4567_89ab_cdef);
    assert_eq!(env.cpu.regs[SP], STACK);
    assert_eq!(env.cpu.regs[LR], 0x1234);
}

#[test]
fn structs_are_returned_in_memory() {
    let mut env = world();
    set_methods(&mut env, "Leaf", LEAF, ROOT, false, &[(RUN, guest(1))]);
    let run = |_call: HostCall, mut env: Environment| {
        let at = env.cpu.regs[0];
        assert_eq!(at, STACK - 16);
        assert_eq!(env.cpu.regs[1..4], [OBJECT, RUN, 9]);
        env.mem.write_words(at, &vec![10, 20, 30, 40], 0);
        (env, 0)
    };
    let args = (id::from_bits(OBJECT), SEL::from_bits(RUN), 9u32);
    let value: (u32, u32, u32, u32) = msg_send(&mut env, &mut Runner::new(&run), args);
    assert_eq!(value, (10, 20, 30, 40));
    assert_eq!(env.cpu.regs[SP], STACK);
}

#[test]
fn messages_to_super_can_be_sent_from_the_host() {
    let mut env = world();
    set_methods(&mut env, "Root", ROOT, 0, false, &[(RUN, guest(1))]);
    set_methods(&mut env, "Leaf", LEAF, ROOT, false, &[(RUN, guest(2))]);
    let run = |call: HostCall, mut env: Environment| {
        assert_eq!(invoked(call), 1);
        assert_eq!(env.cpu.regs[0..3], [OBJECT, RUN, 9]);
        env.cpu.regs[0] = 11;
        env.cpu.regs[1] = 12;
        (env, 0)
    };
    let value: u32 =
        msg_super(&mut env, &mut Runner::new(&run), "Leaf", id::from_bits(OBJECT), "run:", (9u32,));
    assert_eq!(value, 11);
    assert_eq!(env.cpu.regs[SP], STACK);
    assert_eq!(env.mem.read_words(STACK - 8, 2), vec![OBJECT, LEAF]);
    assert!(env.notices.is_empty());
    // A class whose superclasses have no such method does not respond.
    let ptr = SuperPtr { bits: STACK - 8 };
    let _: () = msg_send_super2(&mut env, &mut Runner::new(&run), (ptr, SEL::from_bits(MISSING)));
    assert!(matches!(env.notices[0], Notice::DoesNotRespond { to_super: true, .. }));
}

#[test]
fn structs_from_super_are_reported_and_zero() {
    let mut env = world();
    set_methods(&mut env, "Root", ROOT, 0, false, &[(RUN, guest(1))]);
    env.mem.write_words(STACK - 16, &vec![1, 2, 3, 4], 0);
    let run = |_call: HostCall, mut env: Environment| {
        assert_eq!(env.cpu.regs[0..2], [OBJECT, RUN]);
        env.cpu.regs[0] = 11;
        (env, 0)
    };
    let value: (u32, u32) = msg_super(&mut env, &mut Runner::new(&run), "Leaf", id::from_bits(OBJECT), "run:", ());
    assert_eq!(value, (0, 0));
    assert_eq!(env.notices.len(), 1);
    assert!(matches!(env.notices[0], Notice::StructFromSuper { selector } if selector.bits == RUN));
}

#[test]
fn messages_can_be_sent_by_name() {
    let mut env = world();
    set_methods(&mut env, "Leaf", LEAF, ROOT, false, &[(RUN, guest(1))]);
    set_methods(&mut env, "Leaf", LEAF_META, ROOT_META, true, &[(RUN, guest(2))]);
    let run = |call: HostCall, mut env: Environment| {
        env.cpu.regs[0] = invoked(call) * 100 + env.cpu.regs[2];
        (env, 0)
    };
    let value: u32 = msg(&mut env, &mut Runner::new(&run), id::from_bits(OBJECT), "run:", (5u32,));
    assert_eq!(value, 105);
    let value: u32 = msg_class(&mut env, &mut Runner::new(&run), "Leaf", "run:", (6u32,));
    assert_eq!(value, 206);
}

#[test]
fn nil_is_neither_retained_nor_released() {
    let mut env = Environment::new();
    let run = |_call: HostCall, _env: Environment| -> (Environment, u32) { panic!("no call") };
    env.cpu.regs[0] = 3;
    assert_eq!(retain(&mut env, &mut Runner::new(&run), nil()), nil());
    release(&mut env, &mut Runner::new(&run), nil());
    assert_eq!(autorelease(&mut env, &mut Runner::new(&run), nil()), nil());
    assert_eq!(env.cpu.regs[0], 3);
}

#[test]
fn objects_are_retained_and_released_by_messages() {
    let mut env = world();
    set_methods(
        &mut env,
        "Root",
        ROOT,
        0,
        false,
        &[(RETAIN, guest(1)), (RELEASE, guest(2)), (AUTORELEASE, guest(3))],
    );
    let log = RefCell::new(Vec::new());
    let run = |call: HostCall, mut env: Environment| {
        log.borrow_mut().push((invoked(call), env.cpu.regs[0], env.cpu.regs[1]));
        env.cpu.regs[0] += 0x10;
        (env, 0)
    };
    let object = id::from_bits(OBJECT);
    assert_eq!(retain(&mut env, &mut Runner::new(&run), object), id::from_bits(OBJECT + 0x10));
    release(&mut env, &mut Runner::new(&run), object);
    assert_eq!(autorelease(&mut env, &mut Runner::new(&run), object), id::from_bits(OBJECT + 0x10));
    assert_eq!(
        *log.borrow(),
        vec![(1, OBJECT, RETAIN), (2, OBJECT, RELEASE), (3, OBJECT, AUTORELEASE)]
    );
}

/// Sends the message that is being dispatched again, with its signature.
fn recurse_with_signature(_call: HostCall, mut env: Environment) -> (Environment, u32) {
    let args = (id::from_bits(env.cpu.regs[0]), SEL::from_bits(env.cpu.regs[1]));
    let _: u32 = msg_send(&mut env, &mut Runner::new(&recurse_with_signature), args);
    (env, 0)
}

#[test]
fn a_message_beyond_the_limit_leaves_its_signature() {
    let mut env = world();
    set_methods(&mut env, "Leaf", LEAF, ROOT, false, &[(RUN, guest(1))]);
    env.cpu.regs[0] = OBJECT;
    env.cpu.regs[1] = RUN;
    let object = id::from_bits(OBJECT);
    objc_msgSend(&mut env, &mut Runner::new(&recurse_with_signature), object, SEL::from_bits(RUN));
    assert_eq!(env.notices.len(), 1);
    assert!(matches!(env.notices[0], Notice::RecursionLimit { .. }));
    let expected = <(u32, (id, SEL)) as MsgSendSignature>::type_info();
    assert!(env.objc.message_type_info.unwrap().0 == expected.0);
}

#[test]
fn classes_are_made_known_when_they_are_needed() {
    let mut env = world();
    const NEW: u32 = 0xb000;
    const NEW_META: u32 = 0xb100;
    let log = RefCell::new(Vec::new());
    let run = |call: HostCall, mut env: Environment| match call {
        HostCall::LinkClass(name) => {
            log.borrow_mut().push(name);
            add_class(&mut env, name, NEW, NEW_META, LEAF, LEAF_META);
            set_methods(&mut env, name, NEW_META, LEAF_META, true, &[(RUN, guest(7))]);
            (env, NEW)
        }
        _ => {
            env.cpu.regs[0] = invoked(call) + env.cpu.regs[0];
            (env, 0)
        }
    };
    for _ in 0..2 {
        let value: u32 = msg_class(&mut env, &mut Runner::new(&run), "New", "run:", (1u32,));
        assert_eq!(value, 7 + NEW);
    }
    assert_eq!(*log.borrow(), vec!["New"]);
}

#[test]
fn super_is_looked_up_from_a_class_that_was_not_known() {
    let mut env = world();
    set_methods(&mut env, "Leaf", LEAF, ROOT, false, &[(RUN, guest(2))]);
    let run = |call: HostCall, mut env: Environment| match call {
        HostCall::LinkClass(name) => {
            assert_eq!(name, "Below");
            add_class(&mut env, name, 0xb000, 0xb100, LEAF, LEAF_META);
            (env, 0xb000)
        }
        _ => {
            assert_eq!(invoked(call), 2);
            env.cpu.regs[0] = 12;
            (env, 0)
        }
    };
    let value: u32 = msg_super(&mut env, &mut Runner::new(&run), "Below", id::from_bits(OBJECT), "run:", (1u32,));
    assert_eq!(value, 12);
    assert_eq!(env.cpu.regs[SP], STACK);
}

#[test]
fn super_is_not_disturbed_by_stack_arguments() {
    let mut env = world();
    set_methods(&mut env, "Root", ROOT, 0, false, &[(RUN, guest(1))]);
    let run = |call: HostCall, mut env: Environment| {
        assert_eq!(invoked(call), 1);
        assert_eq!(env.cpu.regs[0..4], [OBJECT, RUN, 1, 2]);
        let sp = env.cpu.regs[SP];
        assert_eq!(sp, STACK - 8 - 28);
        let expected = vec![3, 4, 5, 6, 7, 8, 9, OBJECT, LEAF];
        assert_eq!(env.mem.read_words(sp, 9), expected);
        env.cpu.regs[0] = 0xffff_fffe;
        (env, 0)
    };
    let own = (1u32, 2u32, 3u32, 4u32, 5u32, 6u32, 7u32, 8u32, 9u32);
    let value: i32 = msg_super(&mut env, &mut Runner::new(&run), "Leaf", id::from_bits(OBJECT), "run:", own);
    assert_eq!(value, -2);
    assert!(env.notices.is_empty());
    assert!(!env.objc.initialized_classes.contains(&LEAF));
}

#[test]
fn structs_can_be_returned_without_checking() {
    let mut env = world();
    set_methods(&mut env, "Leaf", LEAF, ROOT, false, &[(RUN, guest(1))]);
    let run = |_call: HostCall, mut env: Environment| {
        assert_eq!(env.cpu.regs[1..3], [OBJECT, RUN]);
        let at = env.cpu.regs[0];
        assert_eq!(env.mem.read_words(at, 2), vec![0, 0]);
        env.mem.write_u32(at + 4, 6);
        (env, 0)
    };
    env.mem.write_u32(STACK - 4, 99);
    let args = (id::from_bits(OBJECT), SEL::from_bits(RUN));
    let value: (u32, u32) = msg_send_no_type_checking(&mut env, &mut Runner::new(&run), args);
    assert_eq!(value, (0, 6));
}

#[test]
fn messages_to_super_with_another_signature_are_reported() {
    let mut env = world();
    let info = <(u32, (id, SEL, u32)) as MsgSendSignature>::type_info();
    set_methods(&mut env, "Root", ROOT, 0, false, &[(RUN, host(5, info))]);
    let object = id::from_bits(OBJECT);
    let _: u32 = msg_super(&mut env, &mut Runner::new(&nothing), "Leaf", object, "run:", (9u32,));
    assert!(env.notices.is_empty());
    let _: u32 = msg_super(&mut env, &mut Runner::new(&nothing), "Leaf", object, "run:", (9i32,));
    assert_eq!(env.notices.len(), 1);
    assert!(matches!(env.notices[0], Notice::TypeMismatch { tolerated: false, .. }));
}

#[test]
fn struct_variants_dispatch_like_the_others() {
    let mut env = world();
    let info = <((), (id, SEL)) as MsgSendSignature>::type_info();
    set_methods(&mut env, "Root", ROOT, 0, false, &[(RUN, host(1, info))]);
    set_methods(&mut env, "Leaf", LEAF, ROOT, false, &[(RUN, host(2, info))]);
    let log = RefCell::new(Vec::new());
    let run = |call: HostCall, env: Environment| {
        log.borrow_mut().push((invoked(call), env.cpu.regs[0]));
        (env, 0)
    };
    let ptr = SuperPtr { bits: 0x6000 };
    env.mem.write_super(
        ptr,
        objc_super { receiver: id::from_bits(OBJECT), class: id::from_bits(LEAF) },
    );
    env.cpu.regs[0] = ptr.bits;
    objc_msgSendSuper2_stret(&mut env, &mut Runner::new(&run), ptr, SEL::from_bits(RUN));
    env.cpu.regs[0] = 0x7000;
    env.objc.message_type_info = Some(<(u32, (id, SEL)) as MsgSendSignature>::type_info());
    let object = id::from_bits(OBJECT);
    _touchHLE_objc_msgSend_stret_tolerant(&mut env, &mut Runner::new(&run), 0x7000, object, SEL::from_bits(RUN));
    assert_eq!(*log.borrow(), vec![(1, OBJECT), (2, 0x7000)]);
    assert_eq!(env.notices.len(), 1);
    assert!(matches!(env.notices[0], Notice::TypeMismatch { tolerated: true, .. }));
}

#[test]
fn signatures_keep_their_identity() {
    let first = <(u32, (id, SEL, u32)) as MsgSendSignature>::type_info();
    let second = <(u32, (id, SEL, u32)) as MsgSendSignature>::type_info();
    assert!(first.0 == second.0);
    assert_eq!(first.1, second.1);
    let other_result = <(i32, (id, SEL, u32)) as MsgSendSignature>::type_info();
    let other_argument = <(u32, (id, SEL, i32)) as MsgSendSignature>::type_info();
    assert!(first.0 != other_result.0);
    assert!(first.0 != other_argument.0);
}

#[test]
fn checking_changes_nothing_but_reports() {
    let mut results = Vec::new();
    for checked in [true, false] {
        let mut env = world();
        let info = <((), (id, SEL)) as MsgSendSignature>::type_info();
        set_methods(&mut env, "Leaf", LEAF, ROOT, false, &[(RUN, host(5, info))]);
        let run = |_call: HostCall, mut env: Environment| {
            env.cpu.regs[0] = env.cpu.regs[2] * 2;
            (env, 0)
        };
        let args = (id::from_bits(OBJECT), SEL::from_bits(RUN), 21u32);
        let value: u32 = if checked {
            msg_send(&mut env, &mut Runner::new(&run), args)
        } else {
            msg_send_no_type_checking(&mut env, &mut Runner::new(&run), args)
        };
        assert_eq!(env.notices.len(), if checked { 1 } else { 0 });
        results.push((value, env.cpu.regs, env.objc.initialized_classes.len()));
    }
    assert_eq!(results[0].0, 42);
    assert_eq!(results[0], results[1]);
}

#[test]
fn stack_arguments_survive_initialize() {
    let mut env = world();
    write_name(&mut env, INITIALIZE, "initialize");
    set_methods(&mut env, "Root", ROOT_META, ROOT, true, &[(INITIALIZE, guest(1))]);
    set_methods(&mut env, "Leaf", LEAF, ROOT, false, &[(RUN, guest(3))]);
    let log = RefCell::new(Vec::new());
    let run = |call: HostCall, mut env: Environment| {
        let number = invoked(call);
        let sp = env.cpu.regs[SP];
        log.borrow_mut().push((number, sp));
        if number == 1 {
            // A method may use the stack below its stack pointer.
            env.mem.write_words(sp - 8, &vec![91, 92], 0);
        } else {
            assert_eq!(env.mem.read_words(sp, 2), vec![5, 6]);
        }
        (env, 0)
    };
    let args = (id::from_bits(OBJECT), SEL::from_bits(RUN), 3u32, 4u32, 5u32, 6u32);
    let _: () = msg_send(&mut env, &mut Runner::new(&run), args);
    let sp = STACK - 8;
    assert_eq!(*log.borrow(), vec![(1, sp), (1, sp), (3, sp)]);
}

#[test]
fn one_runner_serves_several_messages() {
    let mut env = world();
    set_methods(&mut env, "Leaf", LEAF, ROOT, false, &[(RUN, guest(3))]);
    let count = RefCell::new(0);
    let mut runner = Runner::new(|_call: HostCall, env: Environment| {
        *count.borrow_mut() += 1;
        (env, 0)
    });
    for expected in 1..4 {
        objc_msgSend(&mut env, &mut runner, id::from_bits(OBJECT), SEL::from_bits(RUN));
        assert_eq!(*count.borrow(), expected);
    }
    objc_msgSend(&mut env, &mut runner, nil(), SEL::from_bits(RUN));
    assert_eq!(*count.borrow(), 3);
}
