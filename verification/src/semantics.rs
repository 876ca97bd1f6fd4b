//! What sending a message does.
//!
//! A message passes through code that is not the dispatcher's: methods, above
//! all. So what it does is stated as a relation between the state before and
//! the states that may come after, whatever that code does. All that is not
//! left to that code is fixed: which calls are made, in which order, in which
//! states, and what becomes of the states that they leave. The calls are part of
//! the state, as a log that grows by one with each.

use vstd::prelude::*;
use vstd::string::*;

use crate::abi::{after_call, frame_bytes, frame_space, with_frame};
use crate::classes::{
    acyclic, class_name, has_method, height, lemma_superclass_lower, lookup_from, superclass_of,
    HostObject, Lookup, Objects,
};
use crate::environment::{
    asked, class_named, is_app, marking, minion_noticing, noticing, playing, returning,
    selector_named, with_args_of, EnvView, Host, HostCall, Notice, MAX_DEPTH, NIL_ISA_LOG_LIMIT,
};
use crate::mem::{c_string, isa, selector_name, super_at, with_word, word, words};
use crate::minion_jump::{
    find_button, next_unlocked, with_button, with_selected, Button, Factory, MinionNotice,
    MinionView, PendingView, ALL_STAGES,
};
use crate::text::has_part;
use crate::types::{id, nil, objc_super, Class, SuperPtr, TypeInfo, IMP, SEL};

verus! {

/// A message that is to be dispatched.
#[derive(Clone, Copy)]
pub struct Message {
    pub receiver: id,
    pub selector: SEL,
    /// For a message to super, the class whose superclass is meant.
    pub super2: Option<Class>,
    /// How a signature that is not the method's is reported.
    pub tolerate_type_mismatch: bool,
}

/// True of every state: singles out a state that is passed through on the way.
pub open spec fn passed(env: EnvView) -> bool {
    true
}

/// The arguments of a message without arguments of its own.
pub open spec fn two_words(receiver: u32, selector: u32) -> Seq<u32> {
    seq![receiver, selector]
}

/// The arguments of a message with one argument word of its own.
pub open spec fn three_words(receiver: u32, selector: u32, argument: u32) -> Seq<u32> {
    seq![receiver, selector, argument]
}

/// The class at which the search for the message's method begins.
pub open spec fn message_class(env: EnvView, message: Message) -> Class {
    match message.super2 {
        Some(class) => class,
        None => isa(env.mem, message.receiver),
    }
}

/// The state after a message to a receiver without a class was counted and, as
/// long as there were few, reported.
pub open spec fn nil_isa_noted(env: EnvView, message: Message) -> EnvView {
    let count = env.nil_isa_count;
    let counted = EnvView { nil_isa_count: count.wrapping_add(1), ..env };
    if count < NIL_ISA_LOG_LIMIT {
        noticing(
            counted,
            Notice::NilIsa {
                receiver: message.receiver,
                selector: message.selector,
                count: (count + 1) as usize,
            },
        )
    } else if count == NIL_ISA_LOG_LIMIT {
        noticing(counted, Notice::NilIsaSuppressed)
    } else {
        counted
    }
}

/// The state after the signature of the message was compared with that of the
/// method.
pub open spec fn signature_checked(
    env: EnvView,
    message: Message,
    sent: Option<TypeInfo>,
    imp: IMP,
) -> EnvView {
    match (imp, sent) {
        (IMP::Host(host), Some(sent)) if sent.0 != host.type_info.0 => noticing(
            env,
            Notice::TypeMismatch {
                receiver: message.receiver,
                selector: message.selector,
                sent,
                expected: host.type_info,
                tolerated: message.tolerate_type_mismatch,
            },
        ),
        _ => env,
    }
}

/// Whether Minion Jump is running.
pub open spec fn in_minion_jump(env: EnvView) -> bool {
    is_app(env, "com.apprisetec9.minionjump"@)
}

/// Whether a class is one of the game's button classes.
pub open spec fn is_button_class(class: Seq<char>) -> bool {
    class == "GrowButton"@ || class == "GrowStarButton"@
}

/// Whether a message asks for the stage to be played.
pub open spec fn asks_for_stage(name: Seq<u8>) -> bool {
    name == "getCurrentStage".spec_bytes() || name == "currentstage".spec_bytes() || name
        == "currentStage".spec_bytes()
}

/// The callback that a call passes on the stack when it makes an ordinary
/// button: first the target, then the selector.
pub open spec fn plain_factory(env: EnvView) -> Option<Factory> {
    let sp = env.regs[13];
    let target = word(env.mem, sp);
    let selector = word(env.mem, sp.wrapping_add(4));
    let callback = c_string(env.mem, selector as int);
    if target != 0 && selector != 0 {
        Some(
            Factory {
                target,
                selector,
                stage: 0,
                clears_scene: callback == "playAction".spec_bytes() || callback
                    == "backAction".spec_bytes() || callback == "selPause".spec_bytes(),
                unlocks_next: callback == "nextAction".spec_bytes(),
            },
        )
    } else {
        None
    }
}

/// Whether the button that a call makes is a locked one, of a stage that is to
/// be unlocked.
pub open spec fn is_locked_stage(env: EnvView) -> bool {
    word(env.mem, env.regs[13]) <= ALL_STAGES && word(env.mem, env.regs[13].wrapping_add(8)) != 0
}

/// The state after the button that a call makes was unlocked, if need be.
pub open spec fn stage_unlocked(env: EnvView) -> EnvView {
    if is_locked_stage(env) {
        minion_noticing(
            EnvView { mem: with_word(env.mem, env.regs[13].wrapping_add(8), 0), ..env },
            MinionNotice::StageForced {
                stage: word(env.mem, env.regs[13]),
                unlocked_level: env.game.unlocked_level,
            },
        )
    } else {
        env
    }
}

/// The state after a call that makes an ordinary button was looked at.
pub open spec fn plain_arranged(env: EnvView) -> EnvView {
    match plain_factory(env) {
        Some(factory) => minion_noticing(
            env,
            MinionNotice::PlainFactory {
                target: factory.target,
                selector: SEL { bits: factory.selector },
            },
        ),
        None => env,
    }
}

/// The state after a call that makes a stage button was looked at, and the button
/// was unlocked.
pub open spec fn star_arranged(env: EnvView) -> EnvView {
    let sp = env.regs[13];
    let unlocked = stage_unlocked(env);
    let target = word(unlocked.mem, sp.wrapping_add(16));
    let selector = word(unlocked.mem, sp.wrapping_add(20));
    if target != 0 && selector != 0 {
        minion_noticing(
            unlocked,
            MinionNotice::StarFactory {
                stage: word(env.mem, sp),
                stars: word(env.mem, sp.wrapping_add(4)),
                locked: if is_locked_stage(env) {
                    0
                } else {
                    word(env.mem, sp.wrapping_add(8))
                },
                tag: word(env.mem, sp.wrapping_add(12)),
                target,
                selector: SEL { bits: selector },
            },
        )
    } else {
        unlocked
    }
}

/// The callback that a call passes on the stack when it makes a stage button:
/// behind the stage's number, its stars, whether it is locked and a tag, the
/// target and the selector.
pub open spec fn star_factory(env: EnvView) -> Option<Factory> {
    let sp = env.regs[13];
    let stage = word(env.mem, sp);
    let locked = !is_locked_stage(env) && word(env.mem, sp.wrapping_add(8)) != 0;
    let mem = stage_unlocked(env).mem;
    let target = word(mem, sp.wrapping_add(16));
    let selector = word(mem, sp.wrapping_add(20));
    let callback = c_string(mem, selector as int);
    if target != 0 && selector != 0 && !locked && callback == "selectLVAction:".spec_bytes() {
        Some(Factory { target, selector, stage, clears_scene: false, unlocks_next: false })
    } else {
        None
    }
}

/// Whether a message makes an ordinary button.
pub open spec fn makes_plain_button(env: EnvView, class: Class, selector: SEL) -> bool {
    in_minion_jump(env) && class_name(env.objects, class) == "GrowButton"@ && selector_name(
        env.mem,
        selector,
    ) == "buttonWithSprite:selectImage:target:selector:".spec_bytes()
}

/// Whether a message makes a stage button.
pub open spec fn makes_star_button(env: EnvView, class: Class, selector: SEL) -> bool {
    in_minion_jump(env) && class_name(env.objects, class) == "GrowStarButton"@ && selector_name(
        env.mem,
        selector,
    )
        == "buttonWithSpriteFrame:selectframeName:stageNumber:starCount:locked:tag:target:selector:".spec_bytes()
}

/// The state in which a message's method is looked up: a button that the message
/// makes is logged, and unlocked if it is one of a stage.
pub open spec fn arranged(env: EnvView, class: Class, selector: SEL) -> EnvView {
    if makes_plain_button(env, class, selector) {
        plain_arranged(env)
    } else if makes_star_button(env, class, selector) {
        star_arranged(env)
    } else {
        env
    }
}

/// The callback of the button that a message makes.
pub open spec fn factory(env: EnvView, class: Class, selector: SEL) -> Option<Factory> {
    if makes_plain_button(env, class, selector) {
        plain_factory(env)
    } else if makes_star_button(env, class, selector) {
        star_factory(env)
    } else {
        None
    }
}

/// Whether a message is the release animation of a button.
pub open spec fn releases_button(env: EnvView, class: Class, selector: SEL) -> bool {
    in_minion_jump(env) && is_button_class(class_name(env.objects, class)) && selector_name(
        env.mem,
        selector,
    ) == "animateFocusLoseMenuItem:".spec_bytes()
}

/// The state after the stage after the current one was unlocked, if a stage is
/// being played.
pub open spec fn next_noted(env: EnvView, released: bool) -> EnvView {
    let stage = env.game.current_level.wrapping_add(1);
    let unlocked = playing(env, next_unlocked(env.game));
    if env.game.current_level == 0 {
        env
    } else if released {
        minion_noticing(unlocked, MinionNotice::NextReleased { stage })
    } else {
        minion_noticing(unlocked, MinionNotice::NextUnlocked { stage })
    }
}

/// The state after a call made the button at the address `button`.
pub open spec fn button_mapped(env: EnvView, button: u32, factory: Factory) -> EnvView {
    let selector = SEL { bits: factory.selector };
    let cleared = if factory.clears_scene {
        minion_noticing(env, MinionNotice::SceneCleared { selector })
    } else {
        env
    };
    let unlocked = if factory.unlocks_next {
        next_noted(cleared, false)
    } else {
        cleared
    };
    minion_noticing(
        playing(unlocked, with_button(env.game, button, factory)),
        MinionNotice::ButtonMapped {
            button,
            target: factory.target,
            selector,
            stage: factory.stage,
        },
    )
}

/// The state after the method that makes a button returned it.
pub open spec fn button_noted(env: EnvView, factory: Option<Factory>) -> EnvView {
    match factory {
        Some(factory) if env.regs[0] != 0 => button_mapped(env, env.regs[0], factory),
        _ => env,
    }
}

/// The state after a callback was put off until the touch has been handled.
pub open spec fn callback_queued(env: EnvView, button: Button, sender: u32) -> EnvView {
    let callback = c_string(env.mem, button.selector as int);
    let unlocked = if callback == "nextAction".spec_bytes() {
        next_noted(env, true)
    } else {
        env
    };
    minion_noticing(
        playing(
            unlocked,
            MinionView {
                pending: Some(
                    PendingView {
                        target: id { bits: button.target },
                        selector: SEL { bits: button.selector },
                        sender: id { bits: sender },
                        callback,
                        stage: button.stage,
                    },
                ),
                ..unlocked.game
            },
        ),
        MinionNotice::CallbackQueued {
            button: button.button,
            target: button.target,
            selector: SEL { bits: button.selector },
            sender,
            stage: button.stage,
        },
    )
}

/// The state in which the selection of a stage begins.
pub open spec fn selection_begun(env: EnvView, stage: u32) -> EnvView {
    playing(env, MinionView { busy: true, current_level: stage, ..env.game })
}

/// The state in which the callback of a stage button is sent: the stage is noted
/// as selected.
pub open spec fn selection_made(
    env: EnvView,
    begun: EnvView,
    button: Button,
    released: u32,
) -> EnvView {
    let index = (button.stage - 1) as u32;
    minion_noticing(
        minion_noticing(
            playing(env, with_selected(env.game, button.stage)),
            MinionNotice::StageSelected { stage: button.stage, index },
        ),
        MinionNotice::StageStarted {
            button: button.button,
            target: button.target,
            selector: SEL { bits: button.selector },
            released,
            left: begun.regs[2],
            stage: button.stage,
            tag: index,
        },
    )
}

/// The state in which the selection of a stage ends.
pub open spec fn selection_ended(env: EnvView, begun: EnvView) -> EnvView {
    playing(with_args_of(env, begun), MinionView { busy: false, ..env.game })
}

/// Whether the selector with the given name may be `selector` and the state
/// `post`, where it is registered in the state `pre` if it is not yet.
pub open spec fn registers(
    host: Host,
    depth: nat,
    pre: EnvView,
    name: &'static str,
    post: EnvView,
    selector: u32,
) -> bool {
    match selector_named(pre.selectors, name@) {
        Some(registered) => post == pre && selector == registered.bits,
        None => asked(host, depth, HostCall::RegisterSelector(name), pre, post, selector),
    }
}

/// Whether the class with the given name may be `class` and the state `post`,
/// where it is made known in the state `pre` if it is not yet.
pub open spec fn links(
    host: Host,
    depth: nat,
    pre: EnvView,
    name: &'static str,
    post: EnvView,
    class: u32,
) -> bool {
    match class_named(pre.known_classes, name@) {
        Some(known) => post == pre && class == known.bits,
        None => asked(host, depth, HostCall::LinkClass(name), pre, post, class),
    }
}

/// Whether a stage button's callback may leave the state `post`: the button and
/// the object that was released are both given the stage's tag, the stage is
/// noted as selected, and the callback is sent with the button as its sender.
pub open spec fn selects(
    host: Host,
    depth: nat,
    pre: EnvView,
    button: Button,
    released: u32,
    post: EnvView,
) -> bool
    decreases MAX_DEPTH - depth, 2nat, 0nat,
{
    let begun = selection_begun(pre, button.stage);
    let tag = (button.stage - 1) as u32;
    exists|ready: EnvView, set_tag: u32, first: EnvView, second: EnvView, done: EnvView|
        {
            &&& #[trigger] registers(host, depth, begun, "setTag:", ready, set_tag)
            &&& #[trigger] passed(first)
            &&& #[trigger] passed(second)
            &&& #[trigger] passed(done)
            &&& sends(host, depth, ready, three_words(released, set_tag, tag), first)
            &&& if button.button == released {
                second == first
            } else {
                sends(host, depth, first, three_words(button.button, set_tag, tag), second)
            }
            &&& sends(
                host,
                depth,
                selection_made(second, begun, button, released),
                three_words(button.target, button.selector, button.button),
                done,
            )
            &&& post == selection_ended(done, begun)
        }
}

/// Whether what follows the release animation of a button may leave the state
/// `post`. `class` is the button's class, and `released` the animation's argument.
pub open spec fn releases(
    host: Host,
    depth: nat,
    pre: EnvView,
    class: Class,
    receiver: id,
    released: u32,
    post: EnvView,
) -> bool
    decreases MAX_DEPTH - depth, 3nat, 0nat,
{
    match find_button(pre.game.buttons, receiver.bits, released) {
        None => post == minion_noticing(
            pre,
            MinionNotice::NoCallback { class, receiver, released },
        ),
        Some(button) => {
            if button.target == 0 || button.selector == 0 || pre.game.busy {
                post == pre
            } else if button.stage != 0 && c_string(pre.mem, button.selector as int)
                == "selectLVAction:".spec_bytes() {
                selects(host, depth, pre, button, released, post)
            } else {
                post == callback_queued(pre, button, released)
            }
        },
    }
}

/// Whether what follows a method's return in the state `pre` may leave the
/// state `post`. `sent` is the state in which the message was sent.
pub open spec fn finishes(
    host: Host,
    depth: nat,
    pre: EnvView,
    sent: EnvView,
    class: Class,
    message: Message,
    post: EnvView,
) -> bool
    decreases MAX_DEPTH - depth, 4nat, 0nat,
{
    let noted = button_noted(pre, factory(sent, class, message.selector));
    if releases_button(sent, class, message.selector) {
        releases(host, depth, noted, class, message.receiver, sent.regs[2], post)
    } else {
        post == noted
    }
}

/// Whether a message whose receiver's class is initialized may leave the state
/// `post`.
pub open spec fn delivers(
    host: Host,
    depth: nat,
    pre: EnvView,
    class: Class,
    message: Message,
    type_info: Option<TypeInfo>,
    post: EnvView,
) -> bool
    decreases MAX_DEPTH - depth, 5nat, 0nat,
{
    let env = arranged(pre, class, message.selector);
    let to_super = message.super2 is Some;
    if in_minion_jump(pre) && asks_for_stage(selector_name(pre.mem, message.selector)) {
        let index = env.game.selected_stage_index;
        post == returning(
            minion_noticing(
                env,
                MinionNotice::StageAsked { selector: message.selector, index },
            ),
            index,
            0,
        )
    } else {
        match lookup_from(env.objects, class, message.selector, to_super) {
            Lookup::Method { imp, .. } => {
                exists|returned: EnvView, answer: u32|
                    #[trigger] asked(
                        host,
                        depth,
                        HostCall::Invoke(imp),
                        signature_checked(env, message, type_info, imp),
                        returned,
                        answer,
                    ) && finishes(host, depth, returned, pre, class, message, post)
            },
            Lookup::NotFound => post == returning(
                noticing(
                    env,
                    Notice::DoesNotRespond {
                        receiver: message.receiver,
                        selector: message.selector,
                        class,
                        to_super,
                    },
                ),
                0,
                0,
            ),
            Lookup::NoHostObject { .. } => post == returning(env, 0, 0),
            Lookup::Unimplemented { class: at } => post == returning(
                noticing(
                    env,
                    Notice::UnimplementedClass { class: at, selector: message.selector },
                ),
                0,
                0,
            ),
            Lookup::Faked { class: at } => post == returning(
                noticing(env, Notice::FakedClass { class: at, selector: message.selector }),
                0,
                0,
            ),
            Lookup::NoClass { class: at } => post == returning(
                noticing(
                    env,
                    Notice::UnexpectedHostObject {
                        class: at,
                        receiver: message.receiver,
                        receiver_class: class,
                    },
                ),
                0,
                0,
            ),
        }
    }
}

/// The class that has to be initialized before a message reaches its method:
/// the receiver's class, or the receiver itself if that is a class.
pub open spec fn class_to_initialize(objects: Objects, receiver: id, class: Class) -> Class {
    if objects.contains_key(class.bits) {
        match objects[class.bits] {
            HostObject::Class(object) => if object.is_metaclass {
                receiver
            } else {
                class
            },
            _ => nil(),
        }
    } else {
        nil()
    }
}

/// The selector of `+initialize`, if the class is to be sent it: if the
/// selector is registered, and the metaclass has such a method or inherits it.
pub open spec fn initialize_selector(env: EnvView, class: Class) -> Option<SEL> {
    match selector_named(env.selectors, "initialize"@) {
        Some(selector) if has_method(env.objects, isa(env.mem, class), selector) => Some(selector),
        _ => None,
    }
}

/// Whether initializing a class itself, after its superclasses, may leave the
/// state `post`. The class is marked first, and then sent `+initialize`.
/// Registers 0 to 3 are kept.
pub open spec fn initializes_own(
    host: Host,
    depth: nat,
    pre: EnvView,
    class: Class,
    post: EnvView,
) -> bool
    decreases MAX_DEPTH - depth, 2nat, 0nat,
{
    let marked = marking(pre, class);
    if pre.initialized.contains(class.bits) {
        post == pre
    } else {
        match initialize_selector(marked, class) {
            None => post == marked,
            Some(selector) => exists|after: EnvView|
                #[trigger] passed(after) && sends(
                    host,
                    depth,
                    marked,
                    two_words(class.bits, selector.bits),
                    after,
                ) && post == with_args_of(after, marked),
        }
    }
}

/// Whether initializing a class and its superclasses may leave the state
/// `post`. The superclasses come first.
pub open spec fn initializes(
    host: Host,
    depth: nat,
    pre: EnvView,
    class: Class,
    post: EnvView,
) -> bool
    decreases MAX_DEPTH - depth, 3nat, height(pre.objects, class),
    when acyclic(pre.objects)
{
    if class == nil() || pre.initialized.contains(class.bits) {
        post == pre
    } else {
        match superclass_of(pre.objects, class) {
            None => post == marking(pre, class),
            Some(superclass) => {
                proof {
                    lemma_superclass_lower(pre.objects, class);
                }
                exists|between: EnvView|
                    #[trigger] passed(between) && initializes(
                        host,
                        depth,
                        pre,
                        superclass,
                        between,
                    ) && initializes_own(host, depth, between, class, post)
            },
        }
    }
}

/// Whether a message that is counted as dispatched may leave the state `post`.
pub open spec fn handles(
    host: Host,
    depth: nat,
    pre: EnvView,
    message: Message,
    type_info: Option<TypeInfo>,
    post: EnvView,
) -> bool
    decreases MAX_DEPTH - depth, 6nat, 0nat,
{
    let class = message_class(pre, message);
    if message.receiver == nil() {
        post == returning(pre, 0, 0)
    } else if class == nil() {
        post == returning(nil_isa_noted(pre, message), 0, 0)
    } else if message.super2 is Some {
        delivers(host, depth, pre, class, message, type_info, post)
    } else {
        exists|ready: EnvView|
            #[trigger] passed(ready) && initializes(
                host,
                depth,
                pre,
                class_to_initialize(pre.objects, message.receiver, class),
                ready,
            ) && delivers(host, depth, ready, class, message, type_info, post)
    }
}

/// Whether a message has to do with buttons or levels, by its name.
pub open spec fn concerns_menus(name: Seq<u8>) -> bool {
    ||| name == "activate".spec_bytes()
    ||| name == "selected".spec_bytes()
    ||| name == "unselected".spec_bytes()
    ||| name == "animateFocusMenuItem:".spec_bytes()
    ||| name == "animateFocusLoseMenuItem:".spec_bytes()
    ||| has_part(name, "Button".spec_bytes())
    ||| has_part(name, "button".spec_bytes())
    ||| has_part(name, "play".spec_bytes())
    ||| has_part(name, "Play".spec_bytes())
    ||| has_part(name, "level".spec_bytes())
    ||| has_part(name, "Level".spec_bytes())
}

/// The state after a message that is nested too deep was reported.
pub open spec fn limit_noted(env: EnvView, message: Message) -> EnvView {
    let Message { receiver, selector, .. } = message;
    let logged = if in_minion_jump(env) && concerns_menus(selector_name(env.mem, selector)) {
        minion_noticing(env, MinionNotice::Dispatch { receiver, selector })
    } else {
        env
    };
    noticing(logged, Notice::RecursionLimit { receiver, selector })
}

/// Whether a message that is not dispatched, because dispatches are nested too
/// deep, may leave the state `post`. It behaves as if it were sent to nil, but
/// an allocation is made all the same.
pub open spec fn gives_up(
    host: Host,
    depth: nat,
    pre: EnvView,
    message: Message,
    post: EnvView,
) -> bool {
    let noticed = limit_noted(pre, message);
    if selector_name(pre.mem, message.selector) == "allocWithZone:".spec_bytes() {
        exists|after: EnvView, object: u32|
            #[trigger] asked(
                host,
                depth,
                HostCall::AllocObject(message.receiver),
                noticed,
                after,
                object,
            ) && post == (EnvView { regs: noticed.regs.update(0, object), ..after })
    } else {
        post == returning(noticed, 0, 0)
    }
}

/// Whether dispatching a message in the state `pre` may leave the state `post`.
pub open spec fn dispatches(
    host: Host,
    depth: nat,
    pre: EnvView,
    message: Message,
    post: EnvView,
) -> bool
    decreases MAX_DEPTH - depth, 0nat, 0nat,
{
    if depth >= MAX_DEPTH {
        gives_up(host, depth, pre, message, post)
    } else {
        handles(
            host,
            depth + 1,
            EnvView { type_info: None, ..pre },
            message,
            pre.type_info,
            post,
        )
    }
}

/// Whether dispatching a message may leave the state `post`, with the first step
/// spelled out: a message that is nested too deep is given up, and any other is
/// handled.
pub open spec fn outcome(
    host: Host,
    depth: nat,
    pre: EnvView,
    message: Message,
    post: EnvView,
) -> bool {
    &&& dispatches(host, depth, pre, message, post)
    &&& if depth >= MAX_DEPTH {
        gives_up(host, depth, pre, message, post)
    } else {
        handles(
            host,
            depth + 1,
            EnvView { type_info: None, ..pre },
            message,
            pre.type_info,
            post,
        )
    }
}

/// Whether sending a message with the given argument words may leave the state
/// `post`: the arguments are put in place, the message is dispatched, and the
/// stack pointer and return address are restored.
pub open spec fn sends(
    host: Host,
    depth: nat,
    pre: EnvView,
    args: Seq<u32>,
    post: EnvView,
) -> bool
    decreases MAX_DEPTH - depth, 1nat, 0nat,
{
    exists|after: EnvView|
        #[trigger] passed(after) && dispatches(
            host,
            depth,
            with_frame(pre, args, 0),
            Message {
                receiver: id { bits: args[0] },
                selector: SEL { bits: args[1] },
                super2: None,
                tolerate_type_mismatch: true,
            },
            after,
        ) && post == after_call(pre, after)
}

/// The arguments of a call that returns a struct: the address of the space for
/// it comes first.
pub open spec fn with_struct_address(at: u32, args: Seq<u32>) -> Seq<u32> {
    seq![at] + args
}

/// The stack space, in bytes, that sending a message needs.
pub open spec fn call_bytes(count: nat, in_memory: Option<nat>) -> nat {
    match in_memory {
        None => frame_bytes(count, 0),
        Some(space) => frame_bytes(count + 1, space),
    }
}

/// Whether sending a message from the host may leave the state `post` and give
/// the result `result`. A result of `in_memory` words is returned in memory.
pub open spec fn calls(
    host: Host,
    depth: nat,
    pre: EnvView,
    args: Seq<u32>,
    tolerate_type_mismatch: bool,
    in_memory: Option<nat>,
    post: EnvView,
    result: Seq<u32>,
) -> bool {
    let message = Message {
        receiver: id { bits: args[0] },
        selector: SEL { bits: args[1] },
        super2: None,
        tolerate_type_mismatch,
    };
    match in_memory {
        None => exists|after: EnvView|
            {
                &&& #[trigger] passed(after)
                &&& outcome(host, depth, with_frame(pre, args, 0), message, after)
                &&& post == after_call(pre, after)
                &&& result == after.regs.take(2)
            },
        Some(space) => {
            let at = frame_space(pre.regs[13], args.len() + 1, space);
            exists|after: EnvView|
                {
                    &&& #[trigger] passed(after)
                    &&& outcome(
                        host,
                        depth,
                        with_frame(pre, with_struct_address(at, args), space),
                        message,
                        after,
                    )
                    &&& post == after_call(pre, after)
                    &&& result == words(after.mem, at, space)
                }
        },
    }
}

/// Whether dispatching a message to super may leave the state `post`. The
/// receiver takes the place of the pointer in register 0.
pub open spec fn dispatches_super(
    host: Host,
    depth: nat,
    pre: EnvView,
    super_ptr: SuperPtr,
    selector: SEL,
    post: EnvView,
) -> bool {
    let objc_super { receiver, class } = super_at(pre.mem, super_ptr);
    outcome(
        host,
        depth,
        EnvView { regs: pre.regs.update(0, receiver.bits), ..pre },
        Message { receiver, selector, super2: Some(class), tolerate_type_mismatch: false },
        post,
    )
}

/// Whether sending a message to super from the host may leave the state `post`
/// and give the result `result`. Where a struct is to be returned, no method is
/// told of the space for it; the result is what the space holds in the end,
/// zeros unless something else was written there.
pub open spec fn calls_super(
    host: Host,
    depth: nat,
    pre: EnvView,
    args: Seq<u32>,
    in_memory: Option<nat>,
    post: EnvView,
    result: Seq<u32>,
) -> bool {
    let space = match in_memory {
        Some(space) => space,
        None => 0,
    };
    exists|after: EnvView|
        {
            &&& #[trigger] passed(after)
            &&& dispatches_super(
                host,
                depth,
                with_frame(pre, args, space),
                SuperPtr { bits: args[0] },
                SEL { bits: args[1] },
                after,
            )
            &&& post == after_call(pre, after)
            &&& result == match in_memory {
                Some(_) => words(
                    after.mem,
                    frame_space(pre.regs[13], args.len(), space),
                    space,
                ),
                None => after.regs.take(2),
            }
        }
}

} // verus!
