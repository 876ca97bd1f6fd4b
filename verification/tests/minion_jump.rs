use std::cell::RefCell;

use objc_messages::classes::{ClassHostObject, HostObject};
use objc_messages::environment::{Environment, HostCall, Notice, SP};
use objc_messages::messages::{finish_message, objc_msgSend};
use objc_messages::minion_jump::{stage_index, Button, Factory, MinionJump, MinionNotice};
use objc_messages::runner::Runner;
use objc_messages::types::{id, GuestFunction, IMP, SEL};

const STACK: u32 = 0x8000_0000;
const PLAIN: u32 = 0x1000;
const PLAIN_META: u32 = 0x1100;
const STAR: u32 = 0x2000;
const STAR_META: u32 = 0x2100;
const SCENE: u32 = 0x3000;
const TARGET: u32 = 0x3100;
const BUTTON: u32 = 0x4000;
const INNER: u32 = 0x4100;

const MAKE_PLAIN: u32 = 0x5000;
const MAKE_STAR: u32 = 0x5100;
const RELEASED: u32 = 0x5200;
const PLAY: u32 = 0x5300;
const NEXT: u32 = 0x5400;
const SHOP: u32 = 0x5500;
const SELECT: u32 = 0x5600;
const SET_TAG: u32 = 0x5700;
const CURRENT_STAGE: u32 = 0x5800;

const MAKE_IMP: u32 = 1;
const RELEASE_IMP: u32 = 2;
const SET_TAG_IMP: u32 = 3;
const SELECT_IMP: u32 = 4;

fn write_name(env: &mut Environment, address: u32, name: &str) {
    for (i, byte) in name.bytes().enumerate() {
        env.mem.write_u8(address + i as u32, byte);
    }
}

fn add_class(env: &mut Environment, name: &str, at: u32, is_metaclass: bool, methods: &[(u32, u32)]) {
    let mut class = ClassHostObject::new(name, id::from_bits(0), is_metaclass);
    for (selector, address) in methods {
        let imp = IMP::Guest(GuestFunction { address: *address });
        class.add_method(SEL::from_bits(*selector), imp);
    }
    assert!(env.objc.objects.insert(id::from_bits(at), HostObject::Class(class)));
}

fn game() -> Environment {
    let mut env = Environment::new();
    env.bundle_identifier = Some(String::from("com.apprisetec9.minionjump"));
    env.cpu.regs[SP] = STACK;
    write_name(&mut env, MAKE_PLAIN, "buttonWithSprite:selectImage:target:selector:");
    write_name(
        &mut env,
        MAKE_STAR,
        "buttonWithSpriteFrame:selectframeName:stageNumber:starCount:locked:tag:target:selector:",
    );
    write_name(&mut env, RELEASED, "animateFocusLoseMenuItem:");
    write_name(&mut env, PLAY, "playAction");
    write_name(&mut env, NEXT, "nextAction");
    write_name(&mut env, SHOP, "shopAction");
    write_name(&mut env, SELECT, "selectLVAction:");
    write_name(&mut env, SET_TAG, "setTag:");
    write_name(&mut env, CURRENT_STAGE, "getCurrentStage");
    let methods = [(RELEASED, RELEASE_IMP), (SET_TAG, SET_TAG_IMP)];
    add_class(&mut env, "GrowButton", PLAIN, false, &methods);
    add_class(&mut env, "GrowStarButton", STAR, false, &methods);
    add_class(&mut env, "GrowButton", PLAIN_META, true, &[(MAKE_PLAIN, MAKE_IMP)]);
    add_class(&mut env, "GrowStarButton", STAR_META, true, &[(MAKE_STAR, MAKE_IMP)]);
    add_class(&mut env, "Scene", SCENE, false, &[(SELECT, SELECT_IMP)]);
    env.mem.write_u32(PLAIN, PLAIN_META);
    env.mem.write_u32(STAR, STAR_META);
    env.mem.write_u32(TARGET, SCENE);
    env.mem.write_u32(BUTTON, STAR);
    env.mem.write_u32(INNER, STAR);
    env
}

/// Methods that do nothing, but for those that make buttons.
fn run(call: HostCall, mut env: Environment) -> (Environment, u32) {
    match call {
        HostCall::Invoke(IMP::Guest(function)) if function.address == MAKE_IMP => {
            env.cpu.regs[0] = env.mem.read_u32(0x100);
            (env, 0)
        }
        HostCall::RegisterSelector(name) => {
            assert_eq!(name, "setTag:");
            env.objc.selectors.push(name, SET_TAG);
            (env, SET_TAG)
        }
        _ => (env, 0),
    }
}

fn make_plain(env: &mut Environment, button: u32, target: u32, selector: u32) {
    env.mem.write_u32(0x100, button);
    env.mem.write_words(STACK, &vec![target, selector], 0);
    objc_msgSend(env, &mut Runner::new(&run), id::from_bits(PLAIN), SEL::from_bits(MAKE_PLAIN));
}

fn make_star(env: &mut Environment, button: u32, stage: u32, locked: u32, selector: u32) {
    env.mem.write_u32(0x100, button);
    env.mem.write_words(STACK, &vec![stage, 3, locked, 0, TARGET, selector], 0);
    objc_msgSend(env, &mut Runner::new(&run), id::from_bits(STAR), SEL::from_bits(MAKE_STAR));
}

#[test]
fn buttons_are_noted_with_their_callbacks() {
    let mut env = game();
    make_plain(&mut env, BUTTON, TARGET, SHOP);
    assert_eq!(env.cpu.regs[0], BUTTON);
    make_plain(&mut env, INNER, 7, NEXT);
    make_plain(&mut env, BUTTON, 8, NEXT);
    assert_eq!(
        env.minion_jump.buttons,
        vec![
            Button { button: INNER, target: 7, selector: NEXT, stage: 0 },
            Button { button: BUTTON, target: 8, selector: NEXT, stage: 0 },
        ]
    );
    // The first button of a new scene.
    make_plain(&mut env, 0x9000, TARGET, PLAY);
    assert_eq!(
        env.minion_jump.buttons,
        vec![Button { button: 0x9000, target: TARGET, selector: PLAY, stage: 0 }]
    );
}

#[test]
fn buttons_without_callback_or_address_are_not_noted() {
    let mut env = game();
    make_plain(&mut env, BUTTON, 0, SHOP);
    make_plain(&mut env, BUTTON, TARGET, 0);
    make_plain(&mut env, 0, TARGET, SHOP);
    make_star(&mut env, BUTTON, 4, 0, SHOP);
    assert!(env.minion_jump.buttons.is_empty());
}

#[test]
fn other_apps_are_left_alone() {
    let mut env = game();
    env.bundle_identifier = Some(String::from("com.example.other"));
    make_plain(&mut env, BUTTON, TARGET, SHOP);
    make_star(&mut env, BUTTON, 4, 1, SELECT);
    assert!(env.minion_jump.buttons.is_empty());
    assert_eq!(env.mem.read_u32(STACK + 8), 1);
    env.bundle_identifier = None;
    make_plain(&mut env, BUTTON, TARGET, SHOP);
    assert!(env.minion_jump.buttons.is_empty());
}

#[test]
fn stage_buttons_are_unlocked() {
    let mut env = game();
    make_star(&mut env, BUTTON, 25, 1, SELECT);
    assert_eq!(env.mem.read_words(STACK, 6), vec![25, 3, 0, 0, TARGET, SELECT]);
    assert_eq!(
        env.minion_jump.buttons,
        vec![Button { button: BUTTON, target: TARGET, selector: SELECT, stage: 25 }]
    );
    // There are no more stages than that.
    make_star(&mut env, INNER, 26, 1, SELECT);
    assert_eq!(env.mem.read_u32(STACK + 8), 1);
    assert_eq!(env.minion_jump.buttons.len(), 1);
    make_star(&mut env, INNER, 26, 0, SELECT);
    assert_eq!(env.minion_jump.buttons.len(), 2);
}

#[test]
fn a_cleared_stage_unlocks_the_next() {
    let mut env = game();
    assert_eq!(env.minion_jump.unlocked_level, 25);
    make_plain(&mut env, BUTTON, TARGET, NEXT);
    assert_eq!(env.minion_jump.unlocked_level, 25);
    env.minion_jump.current_level = 30;
    make_plain(&mut env, BUTTON, TARGET, SHOP);
    assert_eq!(env.minion_jump.unlocked_level, 25);
    make_plain(&mut env, BUTTON, TARGET, NEXT);
    assert_eq!(env.minion_jump.unlocked_level, 31);
    env.minion_jump.current_level = 3;
    make_plain(&mut env, BUTTON, TARGET, NEXT);
    assert_eq!(env.minion_jump.unlocked_level, 31);
}

fn release_button(env: &mut Environment, receiver: u32, released: u32) {
    env.cpu.regs[0] = receiver;
    env.cpu.regs[1] = RELEASED;
    env.cpu.regs[2] = released;
    objc_msgSend(env, &mut Runner::new(&run), id::from_bits(receiver), SEL::from_bits(RELEASED));
}

#[test]
fn released_buttons_queue_their_own_callback() {
    let mut env = game();
    make_plain(&mut env, 0x9000, 6, SHOP);
    make_plain(&mut env, BUTTON, TARGET, SHOP);
    release_button(&mut env, BUTTON, INNER);
    let pending = env.minion_jump.pending.take().unwrap();
    assert_eq!(pending.target.bits, TARGET);
    assert_eq!(pending.selector.bits, SHOP);
    assert_eq!(pending.sender.bits, INNER);
    assert_eq!(pending.callback, b"shopAction".to_vec());
    assert_eq!(pending.stage, 0);
    assert!(!env.minion_jump.busy);
    // The button may also be the animation's argument.
    env.mem.write_u32(BUTTON, PLAIN);
    release_button(&mut env, INNER, BUTTON);
    assert_eq!(env.minion_jump.pending.take().unwrap().sender.bits, BUTTON);
    // Or have no callback.
    release_button(&mut env, INNER, INNER);
    assert!(env.minion_jump.pending.is_none());
}

#[test]
fn a_released_next_button_unlocks_the_next_stage() {
    let mut env = game();
    make_plain(&mut env, BUTTON, TARGET, NEXT);
    env.minion_jump.current_level = 40;
    release_button(&mut env, BUTTON, BUTTON);
    assert_eq!(env.minion_jump.unlocked_level, 41);
    assert!(env.minion_jump.pending.is_some());
}

#[test]
fn no_callback_is_fired_within_another() {
    let mut env = game();
    make_plain(&mut env, BUTTON, TARGET, SHOP);
    env.minion_jump.busy = true;
    release_button(&mut env, BUTTON, BUTTON);
    assert!(env.minion_jump.pending.is_none());
    assert!(env.minion_jump.busy);
}

#[test]
fn a_released_stage_button_starts_its_stage() {
    let mut env = game();
    make_star(&mut env, BUTTON, 7, 1, SELECT);
    let log = RefCell::new(Vec::new());
    let watched = |call: HostCall, env: Environment| {
        let (mut env, answer) = run(call, env);
        if let HostCall::Invoke(IMP::Guest(function)) = call {
            let regs = [env.cpu.regs[0], env.cpu.regs[2]];
            log.borrow_mut().push((function.address, regs, env.minion_jump.busy));
            if function.address == SELECT_IMP {
                assert_eq!(env.minion_jump.selected_stage_index, 6);
                assert_eq!(env.minion_jump.selected_stage, Some(7));
            }
            if function.address != RELEASE_IMP {
                env.cpu.regs[0] = 1;
                env.cpu.regs[3] = 2;
            }
        }
        (env, answer)
    };
    env.cpu.regs[0] = BUTTON;
    env.cpu.regs[1] = RELEASED;
    env.cpu.regs[2] = INNER;
    env.cpu.regs[3] = 44;
    objc_msgSend(&mut env, &mut Runner::new(&watched), id::from_bits(BUTTON), SEL::from_bits(RELEASED));
    assert_eq!(
        *log.borrow(),
        vec![
            (RELEASE_IMP, [BUTTON, INNER], false),
            (SET_TAG_IMP, [INNER, 6], true),
            (SET_TAG_IMP, [BUTTON, 6], true),
            (SELECT_IMP, [TARGET, BUTTON], true),
        ]
    );
    assert_eq!(env.cpu.regs[0..4], [BUTTON, RELEASED, INNER, 44]);
    assert_eq!(env.minion_jump.current_level, 7);
    assert!(!env.minion_jump.busy);
    assert!(env.minion_jump.pending.is_none());
    // The app is told to play that stage.
    objc_msgSend(&mut env, &mut Runner::new(&run), id::from_bits(TARGET), SEL::from_bits(CURRENT_STAGE));
    assert_eq!(env.cpu.regs[0..2], [6, 0]);
    // The tag is set once if the button itself was released.
    log.borrow_mut().clear();
    env.cpu.regs[2] = BUTTON;
    objc_msgSend(&mut env, &mut Runner::new(&watched), id::from_bits(BUTTON), SEL::from_bits(RELEASED));
    assert_eq!(log.borrow().len(), 3);
}

#[test]
fn the_first_stage_is_played_unless_another_is_selected() {
    let mut env = game();
    env.cpu.regs[0] = 9;
    objc_msgSend(&mut env, &mut Runner::new(&run), id::from_bits(TARGET), SEL::from_bits(CURRENT_STAGE));
    assert_eq!(env.cpu.regs[0..2], [0, 0]);
    assert_eq!(env.notices.len(), 1);
    match env.notices[0] {
        Notice::MinionJump(MinionNotice::StageAsked { selector, index }) => {
            assert_eq!((selector.bits, index), (CURRENT_STAGE, 0));
        }
        _ => panic!("wrong notice"),
    }
}

#[test]
fn the_highest_level_wraps_around() {
    let mut game = MinionJump::new();
    game.current_level = u32::MAX;
    game.unlock_next();
    assert_eq!(game.unlocked_level, 25);
    game.select_stage(0);
    assert_eq!(game.selected_stage_index, 0);
    assert_eq!(game.selected_stage, Some(0));
}

#[test]
fn callbacks_are_found_by_either_object() {
    let mut game = MinionJump::new();
    let factory =
        Factory { target: 1, selector: 2, stage: 3, clears_scene: false, unlocks_next: false };
    game.map_button(10, factory);
    game.map_button(11, factory);
    assert_eq!(game.find_button(11, 12).unwrap().button, 11);
    assert_eq!(game.find_button(12, 10).unwrap().button, 10);
    assert_eq!(game.find_button(11, 10).unwrap().button, 10);
    assert!(game.find_button(12, 13).is_none());
}

#[test]
fn a_method_that_makes_and_releases_a_button_does_both() {
    let mut env = game();
    let factory =
        Factory { target: TARGET, selector: SHOP, stage: 0, clears_scene: false, unlocks_next: false };
    env.cpu.regs[0] = BUTTON;
    finish_message(&mut env, &mut Runner::new(&run), id::from_bits(PLAIN), id::from_bits(1), Some(factory), Some(BUTTON));
    assert_eq!(env.minion_jump.buttons.len(), 1);
    assert_eq!(env.minion_jump.pending.unwrap().callback, b"shopAction".to_vec());
}

/// The names of the notices about the game, in order.
fn noticed(env: &Environment) -> Vec<&'static str> {
    let mut names = Vec::new();
    for notice in env.notices.iter() {
        names.push(match notice {
            Notice::MinionJump(notice) => match notice {
                MinionNotice::Dispatch { .. } => "dispatch",
                MinionNotice::PlainFactory { .. } => "plain factory",
                MinionNotice::StageForced { .. } => "stage forced",
                MinionNotice::StarFactory { .. } => "star factory",
                MinionNotice::StageAsked { .. } => "stage asked",
                MinionNotice::SceneCleared { .. } => "scene cleared",
                MinionNotice::NextUnlocked { .. } => "next unlocked",
                MinionNotice::ButtonMapped { .. } => "mapped",
                MinionNotice::StageSelected { .. } => "selected",
                MinionNotice::StageStarted { .. } => "started",
                MinionNotice::NextReleased { .. } => "next released",
                MinionNotice::CallbackQueued { .. } => "queued",
                MinionNotice::NoCallback { .. } => "no callback",
            },
            Notice::RecursionLimit { .. } => "limit",
            _ => "other",
        });
    }
    names
}

#[test]
fn what_becomes_of_buttons_is_noticed() {
    let mut env = game();
    make_plain(&mut env, 0x9000, TARGET, PLAY);
    assert_eq!(noticed(&env), vec!["plain factory", "scene cleared", "mapped"]);
    env.notices.clear();
    env.minion_jump.current_level = 30;
    make_plain(&mut env, 0x9000, TARGET, NEXT);
    assert_eq!(noticed(&env), vec!["plain factory", "next unlocked", "mapped"]);
    assert!(matches!(
        env.notices[1],
        Notice::MinionJump(MinionNotice::NextUnlocked { stage: 31 })
    ));
    env.notices.clear();
    make_star(&mut env, BUTTON, 7, 1, SELECT);
    assert_eq!(noticed(&env), vec!["stage forced", "star factory", "mapped"]);
    match env.notices[1] {
        Notice::MinionJump(MinionNotice::StarFactory { stage, stars, locked, tag, .. }) => {
            assert_eq!((stage, stars, locked, tag), (7, 3, 0, 0));
        }
        _ => panic!("wrong notice"),
    }
    env.notices.clear();
    make_star(&mut env, INNER, 26, 5, SELECT);
    assert_eq!(noticed(&env), vec!["star factory"]);
    assert!(matches!(
        env.notices[0],
        Notice::MinionJump(MinionNotice::StarFactory { locked: 5, .. })
    ));
    env.notices.clear();
    release_button(&mut env, BUTTON, INNER);
    assert_eq!(noticed(&env), vec!["selected", "started"]);
    match env.notices[1] {
        Notice::MinionJump(MinionNotice::StageStarted { button, released, left, stage, tag, .. }) => {
            assert_eq!((button, released, left, stage, tag), (BUTTON, INNER, INNER, 7, 6));
        }
        _ => panic!("wrong notice"),
    }
    env.notices.clear();
    release_button(&mut env, INNER, INNER);
    assert_eq!(noticed(&env), vec!["no callback"]);
}

#[test]
fn a_callback_that_is_put_off_is_noticed() {
    let mut env = game();
    make_plain(&mut env, BUTTON, TARGET, NEXT);
    env.minion_jump.current_level = 40;
    env.notices.clear();
    release_button(&mut env, BUTTON, INNER);
    assert_eq!(noticed(&env), vec!["next released", "queued"]);
    match env.notices[1] {
        Notice::MinionJump(MinionNotice::CallbackQueued { button, target, sender, stage, .. }) => {
            assert_eq!((button, target, sender, stage), (BUTTON, TARGET, INNER, 0));
        }
        _ => panic!("wrong notice"),
    }
}

/// Sends the message that is being dispatched again, forever.
fn recurse(call: HostCall, mut env: Environment) -> (Environment, u32) {
    match call {
        HostCall::Invoke(_) => {
            let receiver = id::from_bits(env.cpu.regs[0]);
            let selector = SEL::from_bits(env.cpu.regs[1]);
            objc_msgSend(&mut env, &mut Runner::new(&recurse), receiver, selector);
            (env, 0)
        }
        _ => panic!("unexpected call"),
    }
}

#[test]
fn messages_about_menus_are_noticed_at_the_limit() {
    const LOOPS: u32 = 0x6000;
    for (name, expected) in [
        ("activate", true),
        ("activated", false),
        ("unselected", true),
        ("makeButtonNow", true),
        ("display:", true),
        ("nextLevel", true),
        ("update:", false),
        ("butto", false),
    ] {
        let mut env = game();
        write_name(&mut env, LOOPS, name);
        add_class(&mut env, "Scene", SCENE, false, &[(LOOPS, SELECT_IMP)]);
        env.cpu.regs[0] = TARGET;
        env.cpu.regs[1] = LOOPS;
        objc_msgSend(&mut env, &mut Runner::new(&recurse), id::from_bits(TARGET), SEL::from_bits(LOOPS));
        let names = if expected { vec!["dispatch", "limit"] } else { vec!["limit"] };
        assert_eq!(noticed(&env), names);
    }
}

#[test]
fn registering_a_selector_touches_only_the_tables() {
    let mut env = game();
    make_star(&mut env, BUTTON, 7, 1, SELECT);
    env.notices.clear();
    let asked = RefCell::new(0);
    let meddling = |call: HostCall, mut env: Environment| {
        if let HostCall::RegisterSelector(name) = call {
            *asked.borrow_mut() += 1;
            assert_eq!(env.cpu.regs, [0; 16]);
            assert!(env.minion_jump.buttons.is_empty());
            env.cpu.regs = [5; 16];
            env.minion_jump.busy = false;
            env.objc.selectors.push(name, SET_TAG);
            return (env, SET_TAG);
        }
        (env, 0)
    };
    env.cpu.regs[0] = BUTTON;
    env.cpu.regs[1] = RELEASED;
    env.cpu.regs[2] = BUTTON;
    env.cpu.regs[9] = 99;
    objc_msgSend(&mut env, &mut Runner::new(&meddling), id::from_bits(BUTTON), SEL::from_bits(RELEASED));
    assert_eq!(*asked.borrow(), 1);
    assert_eq!(env.cpu.regs[0..3], [BUTTON, RELEASED, BUTTON]);
    assert_eq!(env.cpu.regs[9], 99);
    assert_eq!(env.cpu.regs[SP], STACK);
    assert_eq!(env.minion_jump.buttons.len(), 1);
    assert_eq!(env.objc.lookup_selector("setTag:"), Some(SEL::from_bits(SET_TAG)));
}

#[test]
fn stage_indices_are_decimal_numbers() {
    assert_eq!(stage_index(None), 0);
    assert_eq!(stage_index(Some("")), 0);
    assert_eq!(stage_index(Some("+")), 0);
    assert_eq!(stage_index(Some("24")), 24);
    assert_eq!(stage_index(Some("+24")), 24);
    assert_eq!(stage_index(Some("007")), 7);
    assert_eq!(stage_index(Some("-1")), 0);
    assert_eq!(stage_index(Some("++1")), 0);
    assert_eq!(stage_index(Some(" 1")), 0);
    assert_eq!(stage_index(Some("1x")), 0);
    assert_eq!(stage_index(Some("4294967295")), u32::MAX);
    assert_eq!(stage_index(Some("4294967296")), 0);
    assert_eq!(stage_index(Some("99999999999999999999")), 0);
    for text in ["0", "12", "+5", "", "-0", "4294967299", "1_0", "abc"] {
        assert_eq!(stage_index(Some(text)), text.parse().unwrap_or(0));
    }
}

#[test]
fn other_apps_do_not_see_the_games_state() {
    let mut left = Vec::new();
    for stage in [0, 9] {
        let mut env = game();
        make_star(&mut env, BUTTON, 7, 1, SELECT);
        env.notices.clear();
        env.bundle_identifier = Some(String::from("com.example.other"));
        env.minion_jump.selected_stage_index = stage;
        release_button(&mut env, BUTTON, INNER);
        objc_msgSend(&mut env, &mut Runner::new(&run), id::from_bits(TARGET), SEL::from_bits(CURRENT_STAGE));
        assert_eq!(env.minion_jump.selected_stage_index, stage);
        assert!(env.minion_jump.pending.is_none());
        assert!(matches!(env.notices[0], Notice::DoesNotRespond { .. }));
        left.push(env.cpu.regs);
    }
    assert_eq!(left[0], left[1]);
}
