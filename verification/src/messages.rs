//! Handling of Objective-C messaging (`objc_msgSend` and friends).
//!
//! Resources:
//! - Apple's [Objective-C Runtime Programming Guide](https://developer.apple.com/library/archive/documentation/Cocoa/Conceptual/ObjCRuntimeGuide/Articles/ocrtHowMessagingWorks.html)
//! - [Apple's documentation of `objc_msgSend`](https://developer.apple.com/documentation/objectivec/1456712-objc_msgsend)

use vstd::prelude::*;
use vstd::string::*;

use crate::abi::{
    after_call, enter_call, frame_bytes, frame_space, keeps_stack, leave_call, result_len, GuestRet,
};
use crate::classes::{height, lemma_superclass_lower, HostObject, Lookup};
use crate::environment::{
    asked, noticing, selector_named, with_args_of, EnvView, Environment, Host, HostCall, Notice, LR,
    MAX_DEPTH, NIL_ISA_LOG_LIMIT, SP,
};
use crate::laws::{law_arguments_survive_initialize, same_arguments};
use crate::mem::with_word;
use crate::minion_jump::{Button, Factory, MinionNotice, PendingCallback, ALL_STAGES};
use crate::runner::Runner;
use crate::semantics::{
    arranged, button_mapped, button_noted, call_bytes, callback_queued, calls, calls_super,
    class_to_initialize, concerns_menus, delivers, dispatches_super, factory, finishes, gives_up,
    handles, initializes, initializes_own, limit_noted, links, next_noted, nil_isa_noted, outcome,
    passed, plain_arranged, plain_factory, registers, releases, releases_button, selection_begun,
    selection_ended, selection_made, selects, sends, signature_checked, stage_unlocked,
    star_arranged, star_factory, three_words, two_words, with_struct_address, Message,
};
use crate::signature::{MessageArgs, MsgSendSignature, MsgSendSuperSignature, OwnArgs};
use crate::text::{contains_text, is_text, same_text};
use crate::types::{id, nil, objc_super, same_type, Class, SuperPtr, TypeInfo, IMP, SEL};

verus! {

/// Implements Apple's lazy `+initialize` contract:
/// > The runtime sends `initialize` to each class in a program just before the
/// > class, or any class that inherits from it, is sent its first message from
/// > within the program. Superclasses receive this message before their
/// > subclasses.
///
/// See <https://developer.apple.com/documentation/objectivec/nsobject/1418639-initialize>.
///
/// `class_to_init` must be a (regular) class, not a metaclass. The class is
/// marked as initialized *before* `+initialize` is dispatched, so that any
/// messages sent to it from within `+initialize` itself do not cause infinite
/// recursion.
pub fn ensure_class_initialized<F: Fn(HostCall, Environment) -> (Environment, u32)>(
    env: &mut Environment,
    run: &mut Runner<F>,
    class_to_init: Class,
)
    ensures
        initializes(
            old(run).host(),
            old(env).depth(),
            old(run).state(*old(env)),
            class_to_init,
            final(run).state(*final(env)),
        ),
        same_arguments(old(run).state(*old(env)), final(run).state(*final(env))),
        final(run).host() == old(run).host(),
        final(env).depth() == old(env).depth(),
    decreases MAX_DEPTH - old(env).depth(), 5nat, height(old(env)@.objects, class_to_init),
{
    proof {
        use_type_invariant(&env.objc.objects);
    }
    if class_to_init == nil() {
        return;
    }
    if env.objc.initialized_classes.contains(&class_to_init.bits) {
        return;
    }
    let superclass: Class = match env.objc.objects.get(class_to_init) {
        Some(HostObject::Class(object)) => object.superclass,
        _ => {
            // Nothing to initialize. Mark it as done so that it is not looked
            // at again on every dispatch.
            env.mark_initialized(class_to_init);
            return;
        },
    };
    proof {
        lemma_superclass_lower(env@.objects, class_to_init);
    }
    ensure_class_initialized(env, run, superclass);
    let ghost between = run.state(*env);
    initialize_own(env, run, class_to_init);
    proof {
        assert(passed(between));
        law_arguments_survive_initialize(
            run.host(),
            old(env).depth(),
            old(run).state(*old(env)),
            class_to_init,
            run.state(*env),
        );
    }
}

/// A message that is sent without checking its signature, and returns nothing in
/// memory, is sent.
proof fn lemma_calls_sends(
    host: Host,
    depth: nat,
    pre: EnvView,
    args: Seq<u32>,
    post: EnvView,
)
    requires
        exists|result: Seq<u32>| calls(host, depth, pre, args, true, None, post, result),
    ensures
        sends(host, depth, pre, args, post),
{
}

/// Initializes a class whose superclasses are initialized.
fn initialize_own<F: Fn(HostCall, Environment) -> (Environment, u32)>(
    env: &mut Environment,
    run: &mut Runner<F>,
    class: Class,
)
    ensures
        initializes_own(
            old(run).host(),
            old(env).depth(),
            old(run).state(*old(env)),
            class,
            final(run).state(*final(env)),
        ),
        final(run).host() == old(run).host(),
        final(env).depth() == old(env).depth(),
    decreases MAX_DEPTH - old(env).depth(), 4nat, 0nat,
{
    // The superclasses' `+initialize` may have initialized this class too.
    if !env.mark_initialized(class) {
        assert(run.state(*env) =~= old(run).state(*old(env)));
        return;
    }
    let metaclass: Class = env.mem.read_isa(class);
    let selector: SEL = match env.objc.lookup_selector("initialize") {
        Some(selector) => selector,
        None => {
            return;
        },
    };
    // Otherwise there is nothing to call, and dispatching would only report
    // that the class does not respond.
    if !env.objc.objects.class_has_method(metaclass, selector) {
        return;
    }
    // The message that this class is initialized for has its arguments in
    // registers 0 to 3. Stack arguments are not touched by a message without
    // arguments of its own.
    let ghost marked = run.state(*env);
    let saved: [u32; 4] = env.argument_registers();
    let _: () = msg_send_no_type_checking(env, run, (class, selector));
    let ghost after = run.state(*env);
    proof {
        assert((class, selector).words() =~= two_words(class.bits, selector.bits));
        let args = two_words(class.bits, selector.bits);
        lemma_calls_sends(run.host(), env.depth(), marked, args, after);
    }
    env.set_argument_registers(saved);
    assert(passed(after));
    assert(run.state(*env) =~= with_args_of(after, marked));
}

/// Finds the callback of the button that a message makes, and unlocks the
/// button if it is one of a stage.
fn arrange_button(env: &mut Environment, class: Class, selector: SEL) -> (made: Option<Factory>)
    ensures
        final(env)@ == arranged(old(env)@, class, selector),
        final(env).depth() == old(env).depth(),
        made == factory(old(env)@, class, selector),
{
    if !env.is_app("com.apprisetec9.minionjump") {
        return None;
    }
    let name: Vec<u8> = env.mem.selector_name(selector);
    let class_name: &str = env.objc.objects.get_class_name(class);
    if same_text(class_name, "GrowButton") && is_text(
        name.as_slice(),
        "buttonWithSprite:selectImage:target:selector:",
    ) {
        proof {
            reveal_strlit("GrowButton");
            reveal_strlit("GrowStarButton");
            assert("GrowButton"@.len() != "GrowStarButton"@.len());
        }
        return read_plain_factory(env);
    }
    if same_text(class_name, "GrowStarButton") && is_text(
        name.as_slice(),
        "buttonWithSpriteFrame:selectframeName:stageNumber:starCount:locked:tag:target:selector:",
    ) {
        return read_star_factory(env);
    }
    None
}

/// Reads the callback of an ordinary button off the stack.
fn read_plain_factory(env: &mut Environment) -> (made: Option<Factory>)
    ensures
        final(env)@ == plain_arranged(old(env)@),
        final(env).depth() == old(env).depth(),
        made == plain_factory(old(env)@),
{
    // r0=self/class, r1=_cmd, r2=sprite, r3=selectImage.
    // stack[0]=target, stack[1]=selector.
    let sp: u32 = env.cpu.regs[SP];
    let target: u32 = env.mem.read_u32(sp);
    let selector: u32 = env.mem.read_u32(sp.wrapping_add(4));
    if target == 0 || selector == 0 {
        return None;
    }
    let callback: Vec<u8> = env.mem.selector_name(SEL { bits: selector });
    let callback: &[u8] = callback.as_slice();
    env.minion_notice(MinionNotice::PlainFactory { target, selector: SEL { bits: selector } });
    Some(
        Factory {
            target,
            selector,
            stage: 0,
            // These buttons are the first of a new scene. Their addresses may be
            // those of buttons of the old one.
            clears_scene: is_text(callback, "playAction") || is_text(callback, "backAction")
                || is_text(callback, "selPause"),
            // This button is only made once a stage has been cleared.
            unlocks_next: is_text(callback, "nextAction"),
        },
    )
}

/// Reads the callback of a stage button off the stack, and unlocks the button.
fn read_star_factory(env: &mut Environment) -> (made: Option<Factory>)
    ensures
        final(env)@ == star_arranged(old(env)@),
        final(env).depth() == old(env).depth(),
        made == star_factory(old(env)@),
{
    // r0=self/class, r1=_cmd, r2=spriteFrame, r3=selectframeName.
    // stack[0]=stageNumber, stack[1]=starCount, stack[2]=locked,
    // stack[3]=tag, stack[4]=target, stack[5]=selector.
    let sp: u32 = env.cpu.regs[SP];
    let stage: u32 = env.mem.read_u32(sp);
    let stars: u32 = env.mem.read_u32(sp.wrapping_add(4));
    let mut locked: u32 = env.mem.read_u32(sp.wrapping_add(8));
    let tag: u32 = env.mem.read_u32(sp.wrapping_add(12));
    if stage <= ALL_STAGES && locked != 0 {
        env.mem.write_u32(sp.wrapping_add(8), 0);
        locked = 0;
        let unlocked_level: u32 = env.minion_jump.unlocked_level;
        env.minion_notice(MinionNotice::StageForced { stage, unlocked_level });
    }
    assert(env@ =~= stage_unlocked(old(env)@));
    let target: u32 = env.mem.read_u32(sp.wrapping_add(16));
    let selector: u32 = env.mem.read_u32(sp.wrapping_add(20));
    if target == 0 || selector == 0 {
        return None;
    }
    let callback: Vec<u8> = env.mem.selector_name(SEL { bits: selector });
    env.minion_notice(
        MinionNotice::StarFactory {
            stage,
            stars,
            locked,
            tag,
            target,
            selector: SEL { bits: selector },
        },
    );
    if locked != 0 || !is_text(callback.as_slice(), "selectLVAction:") {
        return None;
    }
    Some(Factory { target, selector, stage, clears_scene: false, unlocks_next: false })
}

/// Notes the callback of a button that was made.
fn map_button(env: &mut Environment, button: u32, factory: Factory)
    ensures
        final(env)@ == button_mapped(old(env)@, button, factory),
        final(env).depth() == old(env).depth(),
{
    let selector = SEL { bits: factory.selector };
    if factory.clears_scene {
        env.minion_notice(MinionNotice::SceneCleared { selector });
    }
    let current: u32 = env.minion_jump.current_level;
    if factory.unlocks_next && current != 0 {
        env.minion_notice(MinionNotice::NextUnlocked { stage: current.wrapping_add(1) });
    }
    env.minion_jump.map_button(button, factory);
    env.minion_notice(
        MinionNotice::ButtonMapped {
            button,
            target: factory.target,
            selector,
            stage: factory.stage,
        },
    );
    assert(env@ =~= button_mapped(old(env)@, button, factory));
}

/// Does what follows a method's return: notes the button that the method made,
/// and fires the callback of the button whose release animation it was.
///
/// `made` is the callback of the button, `class` the class of the receiver, and
/// `released`, if the method is a release animation, the animation's argument.
pub fn finish_message<F: Fn(HostCall, Environment) -> (Environment, u32)>(
    env: &mut Environment,
    run: &mut Runner<F>,
    class: Class,
    receiver: id,
    made: Option<Factory>,
    released: Option<u32>,
)
    ensures
        match released {
            Some(released) => releases(
                old(run).host(),
                old(env).depth(),
                button_noted(old(run).state(*old(env)), made),
                class,
                receiver,
                released,
                final(run).state(*final(env)),
            ),
            None => final(run).state(*final(env)) == button_noted(old(run).state(*old(env)), made),
        },
        final(run).host() == old(run).host(),
        final(env).depth() == old(env).depth(),
    decreases MAX_DEPTH - old(env).depth(), 7nat, 0nat,
{
    if let Some(factory) = made {
        let button: u32 = env.cpu.regs[0];
        if button != 0 {
            map_button(env, button, factory);
        }
    }
    assert(run.state(*env) =~= button_noted(old(run).state(*old(env)), made));
    if let Some(released) = released {
        release_button(env, run, class, receiver, released);
    }
}

/// Fires the callback of a button that was released: at once if it selects a
/// stage, and else when the touch has been handled.
fn release_button<F: Fn(HostCall, Environment) -> (Environment, u32)>(
    env: &mut Environment,
    run: &mut Runner<F>,
    class: Class,
    receiver: id,
    released: u32,
)
    ensures
        releases(
            old(run).host(),
            old(env).depth(),
            old(run).state(*old(env)),
            class,
            receiver,
            released,
            final(run).state(*final(env)),
        ),
        final(run).host() == old(run).host(),
        final(env).depth() == old(env).depth(),
    decreases MAX_DEPTH - old(env).depth(), 6nat, 0nat,
{
    let button: Button = match env.minion_jump.find_button(receiver.bits, released) {
        Some(button) => button,
        None => {
            env.minion_notice(MinionNotice::NoCallback { class, receiver, released });
            return;
        },
    };
    if button.target == 0 || button.selector == 0 || env.minion_jump.busy {
        return;
    }
    let callback: Vec<u8> = env.mem.selector_name(SEL { bits: button.selector });
    if button.stage != 0 && is_text(callback.as_slice(), "selectLVAction:") {
        select_stage(env, run, button, released);
        return;
    }
    if is_text(callback.as_slice(), "nextAction") {
        let current: u32 = env.minion_jump.current_level;
        env.minion_jump.unlock_next();
        if current != 0 {
            env.minion_notice(MinionNotice::NextReleased { stage: current.wrapping_add(1) });
        }
        assert(run.state(*env) =~= next_noted(old(run).state(*old(env)), true));
    }
    // Scenes must not change while the touch is still being handled.
    env.minion_jump.pending = Some(
        PendingCallback {
            target: id { bits: button.target },
            selector: SEL { bits: button.selector },
            sender: id { bits: released },
            callback,
            stage: button.stage,
        },
    );
    env.minion_notice(
        MinionNotice::CallbackQueued {
            button: button.button,
            target: button.target,
            selector: SEL { bits: button.selector },
            sender: released,
            stage: button.stage,
        },
    );
    assert(run.state(*env) =~= callback_queued(old(run).state(*old(env)), button, released));
}

/// Registers a selector, if it is not registered yet.
fn register_selector<F: Fn(HostCall, Environment) -> (Environment, u32)>(
    env: &mut Environment,
    run: &mut Runner<F>,
    name: &'static str,
) -> (selector: u32)
    ensures
        registers(
            old(run).host(),
            old(env).depth(),
            old(run).state(*old(env)),
            name,
            final(run).state(*final(env)),
            selector,
        ),
        final(run).host() == old(run).host(),
        final(env).depth() == old(env).depth(),
{
    match env.objc.lookup_selector(name) {
        Some(selector) => selector.bits,
        None => env.call_host(run, HostCall::RegisterSelector(name)),
    }
}

/// The steps by which a stage button's callback is fired.
pub proof fn lemma_selects(
    host: Host,
    depth: nat,
    pre: EnvView,
    button: Button,
    released: u32,
    ready: EnvView,
    set_tag: u32,
    first: EnvView,
    second: EnvView,
    done: EnvView,
)
    requires
        registers(host, depth, selection_begun(pre, button.stage), "setTag:", ready, set_tag),
        sends(
            host,
            depth,
            ready,
            three_words(released, set_tag, (button.stage - 1) as u32),
            first,
        ),
        if button.button == released {
            second == first
        } else {
            sends(
                host,
                depth,
                first,
                three_words(button.button, set_tag, (button.stage - 1) as u32),
                second,
            )
        },
        sends(
            host,
            depth,
            selection_made(second, selection_begun(pre, button.stage), button, released),
            three_words(button.target, button.selector, button.button),
            done,
        ),
    ensures
        selects(
            host,
            depth,
            pre,
            button,
            released,
            selection_ended(done, selection_begun(pre, button.stage)),
        ),
{
    assert(passed(first) && passed(second) && passed(done));
}

/// Sends a message with one argument word of its own, and drops its result.
fn send_word<F: Fn(HostCall, Environment) -> (Environment, u32)>(
    env: &mut Environment,
    run: &mut Runner<F>,
    receiver: id,
    selector: SEL,
    argument: u32,
)
    ensures
        sends(
            old(run).host(),
            old(env).depth(),
            old(run).state(*old(env)),
            three_words(receiver.bits, selector.bits, argument),
            final(run).state(*final(env)),
        ),
        final(run).host() == old(run).host(),
        final(env).depth() == old(env).depth(),
    decreases MAX_DEPTH - old(env).depth(), 4nat, 0nat,
{
    let args = (receiver, selector, argument);
    let _: () = msg_send_no_type_checking(env, run, args);
    proof {
        let words = three_words(receiver.bits, selector.bits, argument);
        assert(args.words() =~= words);
        lemma_calls_sends(
            run.host(),
            old(env).depth(),
            old(run).state(*old(env)),
            words,
            run.state(*env),
        );
    }
}

/// Fires the callback of a stage button.
fn select_stage<F: Fn(HostCall, Environment) -> (Environment, u32)>(
    env: &mut Environment,
    run: &mut Runner<F>,
    button: Button,
    released: u32,
)
    requires
        button.stage != 0,
    ensures
        selects(
            old(run).host(),
            old(env).depth(),
            old(run).state(*old(env)),
            button,
            released,
            final(run).state(*final(env)),
        ),
        final(run).host() == old(run).host(),
        final(env).depth() == old(env).depth(),
    decreases MAX_DEPTH - old(env).depth(), 5nat, 0nat,
{
    let ghost pre = run.state(*env);
    let ghost depth = env.depth();
    env.minion_jump.busy = true;
    env.minion_jump.current_level = button.stage;
    let ghost begun = run.state(*env);
    assert(begun =~= selection_begun(pre, button.stage));
    let saved: [u32; 4] = env.argument_registers();

    // The callback looks for the stage in its sender's tag. Stage 1 has tag 0,
    // stage 2 has tag 1, and so on.
    let tag: u32 = button.stage - 1;
    let bits: u32 = register_selector(env, run, "setTag:");
    let set_tag = SEL { bits };
    let ghost ready = run.state(*env);
    send_word(env, run, id { bits: released }, set_tag, tag);
    let ghost first = run.state(*env);
    if button.button != released {
        send_word(env, run, id { bits: button.button }, set_tag, tag);
    }
    let ghost second = run.state(*env);
    let target = id { bits: button.target };
    let selector = SEL { bits: button.selector };
    env.minion_jump.select_stage(button.stage);
    env.minion_notice(MinionNotice::StageSelected { stage: button.stage, index: tag });
    env.minion_notice(
        MinionNotice::StageStarted {
            button: button.button,
            target: button.target,
            selector,
            released,
            left: saved[2],
            stage: button.stage,
            tag,
        },
    );
    assert(run.state(*env) =~= selection_made(second, begun, button, released));
    send_word(env, run, target, selector, button.button);
    let ghost done = run.state(*env);
    env.set_argument_registers(saved);
    env.minion_jump.busy = false;
    assert(run.state(*env) =~= selection_ended(done, begun));
    proof {
        lemma_selects(
            run.host(),
            depth,
            pre,
            button,
            released,
            ready,
            bits,
            first,
            second,
            done,
        );
    }
}

/// What a message is looked at for before its method is looked up does not depend
/// on the calls that were made.
proof fn lemma_log_does_not_matter(
    env: EnvView,
    calls: Seq<HostCall>,
    class: Class,
    selector: SEL,
)
    ensures
        ({
            let logged = EnvView { calls, ..env };
            &&& arranged(logged, class, selector) == (EnvView {
                calls,
                ..arranged(env, class, selector)
            })
            &&& factory(logged, class, selector) == factory(env, class, selector)
        }),
{
}

/// Dispatches a message whose receiver's class is initialized.
fn deliver<F: Fn(HostCall, Environment) -> (Environment, u32)>(
    env: &mut Environment,
    run: &mut Runner<F>,
    class: Class,
    message: Message,
    type_info: Option<TypeInfo>,
)
    ensures
        delivers(
            old(run).host(),
            old(env).depth(),
            old(run).state(*old(env)),
            class,
            message,
            type_info,
            final(run).state(*final(env)),
        ),
        final(run).host() == old(run).host(),
        final(env).depth() == old(env).depth(),
    decreases MAX_DEPTH - old(env).depth(), 8nat, 0nat,
{
    let ghost pre = run.state(*env);
    let selector: SEL = message.selector;
    let mut released: Option<u32> = None;
    let mut stage_asked: bool = false;
    if env.is_app("com.apprisetec9.minionjump") {
        let name: Vec<u8> = env.mem.selector_name(selector);
        let name: &[u8] = name.as_slice();
        let class_name: &str = env.objc.objects.get_class_name(class);
        if (same_text(class_name, "GrowButton") || same_text(class_name, "GrowStarButton"))
            && is_text(name, "animateFocusLoseMenuItem:") {
            released = Some(env.cpu.regs[2]);
        }
        stage_asked = is_text(name, "getCurrentStage") || is_text(name, "currentstage")
            || is_text(name, "currentStage");
    }
    assert(released == (if releases_button(pre, class, selector) {
        Some(pre.regs[2])
    } else {
        None::<u32>
    }));
    let ghost before = env@;
    let made: Option<Factory> = arrange_button(env, class, selector);
    proof {
        lemma_log_does_not_matter(before, run.log(), class, selector);
    }
    assert(run.state(*env) == arranged(pre, class, selector));
    assert(made == factory(pre, class, selector));
    let ghost looked_at = run.state(*env);

    // The layout of a stage is that of the stage that was selected.
    if stage_asked {
        let index: u32 = env.minion_jump.selected_stage_index;
        env.minion_notice(MinionNotice::StageAsked { selector, index });
        env.return_words(index, 0);
        return;
    }
    let to_super: bool = message.super2.is_some();
    match env.objc.objects.lookup_from(class, selector, to_super) {
        Lookup::Method { imp, .. } => {
            check_signature(env, message, type_info, imp);
            let ghost checked = run.state(*env);
            assert(checked =~= signature_checked(looked_at, message, type_info, imp));
            let answer: u32 = env.call_host(run, HostCall::Invoke(imp));
            let ghost returned = run.state(*env);
            assert(asked(
                run.host(),
                old(env).depth(),
                HostCall::Invoke(imp),
                checked,
                returned,
                answer,
            ));
            finish_message(env, run, class, message.receiver, made, released);
            assert(finishes(
                run.host(),
                old(env).depth(),
                returned,
                pre,
                class,
                message,
                run.state(*env),
            ));
        },
        Lookup::NotFound => {
            env.notice(
                Notice::DoesNotRespond { receiver: message.receiver, selector, class, to_super },
            );
            env.return_words(0, 0);
        },
        Lookup::NoHostObject { .. } => {
            env.return_words(0, 0);
        },
        Lookup::Unimplemented { class: at } => {
            env.notice(Notice::UnimplementedClass { class: at, selector });
            env.return_words(0, 0);
        },
        Lookup::Faked { class: at } => {
            env.notice(Notice::FakedClass { class: at, selector });
            env.return_words(0, 0);
        },
        Lookup::NoClass { class: at } => {
            env.notice(
                Notice::UnexpectedHostObject {
                    class: at,
                    receiver: message.receiver,
                    receiver_class: class,
                },
            );
            env.return_words(0, 0);
        },
    }
}

/// Compares the signature of a message with that of its method.
fn check_signature(env: &mut Environment, message: Message, type_info: Option<TypeInfo>, imp: IMP)
    ensures
        final(env)@ == signature_checked(old(env)@, message, type_info, imp),
        final(env).depth() == old(env).depth(),
{
    if let IMP::Host(host) = imp {
        if let Some(sent) = type_info {
            if !same_type(&sent.0, &host.type_info.0) {
                env.notice(
                    Notice::TypeMismatch {
                        receiver: message.receiver,
                        selector: message.selector,
                        sent,
                        expected: host.type_info,
                        tolerated: message.tolerate_type_mismatch,
                    },
                );
            }
        }
    }
}

/// Counts a message to a receiver without a class, and reports it unless there
/// were many.
fn notice_nil_isa(env: &mut Environment, message: Message)
    ensures
        final(env)@ == nil_isa_noted(old(env)@, message),
        final(env).depth() == old(env).depth(),
{
    let count: usize = env.nil_isa_count;
    env.nil_isa_count = count.wrapping_add(1);
    if count < NIL_ISA_LOG_LIMIT {
        env.notice(
            Notice::NilIsa {
                receiver: message.receiver,
                selector: message.selector,
                count: count + 1,
            },
        );
    } else if count == NIL_ISA_LOG_LIMIT {
        env.notice(Notice::NilIsaSuppressed);
    }
    assert(env@ =~= nil_isa_noted(old(env)@, message));
}

/// Finds the class that has to be initialized before a message reaches its
/// method.
fn find_class_to_initialize(env: &Environment, receiver: id, class: Class) -> (found: Class)
    ensures
        found == class_to_initialize(env@.objects, receiver, class),
{
    match env.objc.objects.get(class) {
        Some(HostObject::Class(object)) => {
            if object.is_metaclass {
                // Class method: receiver itself is the class.
                receiver
            } else {
                // Instance method: class is the class.
                class
            }
        },
        _ => nil(),
    }
}

/// Dispatches a message that has been counted.
fn handle<F: Fn(HostCall, Environment) -> (Environment, u32)>(
    env: &mut Environment,
    run: &mut Runner<F>,
    message: Message,
    type_info: Option<TypeInfo>,
)
    ensures
        handles(
            old(run).host(),
            old(env).depth(),
            old(run).state(*old(env)),
            message,
            type_info,
            final(run).state(*final(env)),
        ),
        final(run).host() == old(run).host(),
        final(env).depth() == old(env).depth(),
    decreases MAX_DEPTH - old(env).depth(), 9nat, 0nat,
{
    proof {
        use_type_invariant(&env.objc.objects);
    }
    if message.receiver == nil() {
        // https://developer.apple.com/library/archive/documentation/Cocoa/Conceptual/ObjectiveC/Chapters/ocObjectsClasses.html#//apple_ref/doc/uid/TP30001163-CH11-SW7
        env.return_words(0, 0);
        return;
    }
    let class: Class = match message.super2 {
        Some(class) => class,
        None => env.mem.read_isa(message.receiver),
    };
    // The object was probably freed already. Messages to such an object are
    // undefined behavior; treat them like messages to nil.
    if class == nil() {
        notice_nil_isa(env, message);
        env.return_words(0, 0);
        return;
    }
    // The class that a message to super is sent from is initialized already.
    if message.super2.is_none() {
        let class_to_init: Class = find_class_to_initialize(env, message.receiver, class);
        ensure_class_initialized(env, run, class_to_init);
        let ghost ready = run.state(*env);
        deliver(env, run, class, message, type_info);
        assert(passed(ready));
        return;
    }
    deliver(env, run, class, message, type_info);
}

/// Whether a message with the given name has to do with buttons or levels.
fn is_about_menus(name: &[u8]) -> (is: bool)
    ensures
        is == concerns_menus(name@),
{
    is_text(name, "activate") || is_text(name, "selected") || is_text(name, "unselected")
        || is_text(name, "animateFocusMenuItem:") || is_text(name, "animateFocusLoseMenuItem:")
        || contains_text(name, "Button") || contains_text(name, "button") || contains_text(
        name,
        "play",
    ) || contains_text(name, "Play") || contains_text(name, "level") || contains_text(name, "Level")
}

/// Answers a message for which dispatches are nested too deep.
fn give_up<F: Fn(HostCall, Environment) -> (Environment, u32)>(
    env: &mut Environment,
    run: &mut Runner<F>,
    message: Message,
)
    ensures
        gives_up(
            old(run).host(),
            old(env).depth(),
            old(run).state(*old(env)),
            message,
            final(run).state(*final(env)),
        ),
        final(run).host() == old(run).host(),
        final(env).depth() == old(env).depth(),
{
    let name: Vec<u8> = env.mem.selector_name(message.selector);
    let Message { receiver, selector, .. } = message;
    if env.is_app("com.apprisetec9.minionjump") && is_about_menus(name.as_slice()) {
        env.minion_notice(MinionNotice::Dispatch { receiver, selector });
    }
    env.notice(Notice::RecursionLimit { receiver, selector });
    assert(run.state(*env) =~= limit_noted(old(run).state(*old(env)), message));
    let ghost noticed = run.state(*env);
    // A nil object would only make the app fail later.
    if is_text(name.as_slice(), "allocWithZone:") {
        let object: u32 = env.call_host(run, HostCall::AllocObject(message.receiver));
        let ghost after = run.state(*env);
        env.cpu.regs[0] = object;
        assert(run.state(*env) =~= (EnvView { regs: noticed.regs.update(0, object), ..after }));
        return;
    }
    env.return_words(0, 0);
}

/// The core implementation of `objc_msgSend`, the main function of Objective-C.
///
/// Note that while only two parameters (usually receiver and selector) are
/// defined by the wrappers over this function, a call to an `objc_msgSend`
/// variant may have additional arguments to be forwarded (or rather, left
/// untouched) by `objc_msgSend` when it calls the method implementation it
/// looks up.
///
/// Similarly, the return value of `objc_msgSend` is whatever value is returned
/// by the method implementation.
pub fn objc_msgSend_inner<F: Fn(HostCall, Environment) -> (Environment, u32)>(
    env: &mut Environment,
    run: &mut Runner<F>,
    receiver: id,
    selector: SEL,
    super2: Option<Class>,
    tolerate_type_mismatch: bool,
)
    ensures
        outcome(
            old(run).host(),
            old(env).depth(),
            old(run).state(*old(env)),
            (Message { receiver, selector, super2, tolerate_type_mismatch }),
            final(run).state(*final(env)),
        ),
        final(run).host() == old(run).host(),
        final(env).depth() == old(env).depth(),
    decreases MAX_DEPTH - old(env).depth(), 0nat, 0nat,
{
    let message = Message { receiver, selector, super2, tolerate_type_mismatch };
    // If a method recurses into itself indirectly, each round takes a piece of
    // the host's stack.
    if !env.enter_dispatch() {
        give_up(env, run, message);
        return;
    }
    let type_info: Option<TypeInfo> = env.objc.message_type_info.take();
    assert(run.state(*env) =~= (EnvView { type_info: None, ..old(run).state(*old(env)) }));
    handle(env, run, message, type_info);
    env.leave_dispatch();
}

/// Standard variant of `objc_msgSend`. See [objc_msgSend_inner].
pub fn objc_msgSend<F: Fn(HostCall, Environment) -> (Environment, u32)>(
    env: &mut Environment,
    run: &mut Runner<F>,
    receiver: id,
    selector: SEL,
)
    ensures
        outcome(
            old(run).host(),
            old(env).depth(),
            old(run).state(*old(env)),
            (Message { receiver, selector, super2: None, tolerate_type_mismatch: false }),
            final(run).state(*final(env)),
        ),
        final(run).host() == old(run).host(),
        final(env).depth() == old(env).depth(),
    decreases MAX_DEPTH - old(env).depth(), 1nat, 0nat,
{
    objc_msgSend_inner(env, run, receiver, selector, None, false)
}

/// Variant of `objc_msgSend` that reports a mismatch of signatures as tolerated.
pub fn _touchHLE_objc_msgSend_tolerant<F: Fn(HostCall, Environment) -> (Environment, u32)>(
    env: &mut Environment,
    run: &mut Runner<F>,
    receiver: id,
    selector: SEL,
)
    ensures
        outcome(
            old(run).host(),
            old(env).depth(),
            old(run).state(*old(env)),
            (Message { receiver, selector, super2: None, tolerate_type_mismatch: true }),
            final(run).state(*final(env)),
        ),
        final(run).host() == old(run).host(),
        final(env).depth() == old(env).depth(),
    decreases MAX_DEPTH - old(env).depth(), 1nat, 0nat,
{
    objc_msgSend_inner(env, run, receiver, selector, None, true)
}

/// Variant of `objc_msgSend` for methods that return a struct via a pointer.
/// See [objc_msgSend_inner].
///
/// The first parameter here is the pointer for the struct return. This is an
/// ABI detail that is usually hidden, but `objc_msgSend` is a special case
/// because of the pass-through behaviour. Of course, the pass-through only
/// works if the [IMP] also has the pointer parameter. The caller therefore has
/// to pick the appropriate `objc_msgSend` variant depending on the method it
/// wants to call.
pub fn objc_msgSend_stret<F: Fn(HostCall, Environment) -> (Environment, u32)>(
    env: &mut Environment,
    run: &mut Runner<F>,
    _stret: u32,
    receiver: id,
    selector: SEL,
)
    ensures
        outcome(
            old(run).host(),
            old(env).depth(),
            old(run).state(*old(env)),
            (Message { receiver, selector, super2: None, tolerate_type_mismatch: false }),
            final(run).state(*final(env)),
        ),
        final(run).host() == old(run).host(),
        final(env).depth() == old(env).depth(),
    decreases MAX_DEPTH - old(env).depth(), 1nat, 0nat,
{
    objc_msgSend_inner(env, run, receiver, selector, None, false)
}

/// Variant of `objc_msgSend_stret` that reports a mismatch of signatures as
/// tolerated.
pub fn _touchHLE_objc_msgSend_stret_tolerant<
    F: Fn(HostCall, Environment) -> (Environment, u32),
>(env: &mut Environment, run: &mut Runner<F>, _stret: u32, receiver: id, selector: SEL)
    ensures
        outcome(
            old(run).host(),
            old(env).depth(),
            old(run).state(*old(env)),
            (Message { receiver, selector, super2: None, tolerate_type_mismatch: true }),
            final(run).state(*final(env)),
        ),
        final(run).host() == old(run).host(),
        final(env).depth() == old(env).depth(),
    decreases MAX_DEPTH - old(env).depth(), 1nat, 0nat,
{
    objc_msgSend_inner(env, run, receiver, selector, None, true)
}

/// Variant of `objc_msgSend` for supercalls. See [objc_msgSend_inner].
///
/// This variant has a weird ABI because it needs to receive an additional piece
/// of information (a class pointer), but it can't actually take this as an
/// extra parameter, because that would take one of the argument slots reserved
/// for arguments passed onto the method implementation. Hence the [objc_super]
/// pointer in place of the normal [id].
pub fn objc_msgSendSuper2<F: Fn(HostCall, Environment) -> (Environment, u32)>(
    env: &mut Environment,
    run: &mut Runner<F>,
    super_ptr: SuperPtr,
    selector: SEL,
)
    ensures
        dispatches_super(
            old(run).host(),
            old(env).depth(),
            old(run).state(*old(env)),
            super_ptr,
            selector,
            final(run).state(*final(env)),
        ),
        final(run).host() == old(run).host(),
        final(env).depth() == old(env).depth(),
{
    let objc_super { receiver, class } = env.mem.read_super(super_ptr);
    // Rewrite first argument to match the normal ABI.
    env.cpu.regs[0] = receiver.bits;
    assert(run.state(*env) =~= (EnvView {
        regs: old(env)@.regs.update(0, receiver.bits),
        ..old(run).state(*old(env))
    }));
    objc_msgSend_inner(env, run, receiver, selector, Some(class), false)
}

/// Variant of `objc_msgSendSuper2` for methods that return a struct.
pub fn objc_msgSendSuper2_stret<F: Fn(HostCall, Environment) -> (Environment, u32)>(
    env: &mut Environment,
    run: &mut Runner<F>,
    super_ptr: SuperPtr,
    selector: SEL,
)
    ensures
        dispatches_super(
            old(run).host(),
            old(env).depth(),
            old(run).state(*old(env)),
            super_ptr,
            selector,
            final(run).state(*final(env)),
        ),
        final(run).host() == old(run).host(),
        final(env).depth() == old(env).depth(),
{
    let objc_super { receiver, class } = env.mem.read_super(super_ptr);
    // Rewrite first argument to match the normal ABI.
    env.cpu.regs[0] = receiver.bits;
    assert(run.state(*env) =~= (EnvView {
        regs: old(env)@.regs.update(0, receiver.bits),
        ..old(run).state(*old(env))
    }));
    objc_msgSend_inner(env, run, receiver, selector, Some(class), false)
}

/// Sends a message from the host, and takes the result from where the method
/// left it.
fn call_message<F: Fn(HostCall, Environment) -> (Environment, u32)>(
    env: &mut Environment,
    run: &mut Runner<F>,
    args: Vec<u32>,
    tolerate_type_mismatch: bool,
    in_memory: Option<usize>,
) -> (result: Vec<u32>)
    requires
        args@.len() >= 2,
        call_bytes(args@.len(), count_of(in_memory)) <= old(env)@.regs[13],
    ensures
        calls(
            old(run).host(),
            old(env).depth(),
            old(run).state(*old(env)),
            args@,
            tolerate_type_mismatch,
            count_of(in_memory),
            final(run).state(*final(env)),
            result@,
        ),
        result@.len() == result_len(count_of(in_memory)),
        keeps_stack(old(env)@, final(env)@),
        final(run).host() == old(run).host(),
        final(env).depth() == old(env).depth(),
    decreases MAX_DEPTH - old(env).depth(), 2nat, 0nat,
{
    let ghost pre = run.state(*env);
    let sp: u32 = env.cpu.regs[SP];
    let lr: u32 = env.cpu.regs[LR];
    let receiver = id { bits: args[0] };
    let selector = SEL { bits: args[1] };
    match in_memory {
        Some(space) => {
            let mut all: Vec<u32> = Vec::new();
            all.push(0);
            let mut i: usize = 0;
            while i < args.len()
                invariant
                    i <= args@.len(),
                    all@ == seq![0u32] + args@.take(i as int),
                decreases args@.len() - i,
            {
                all.push(args[i]);
                i += 1;
                assert(all@ =~= seq![0u32] + args@.take(i as int));
            }
            assert(all@.len() == args@.len() + 1);
            let at: u32 = struct_address(env, all.len(), space);
            all.set(0, at);
            assert(all@ =~= with_struct_address(at, args@));
            enter_call(env, &all, space);
            if tolerate_type_mismatch {
                _touchHLE_objc_msgSend_stret_tolerant(env, run, at, receiver, selector);
            } else {
                objc_msgSend_stret(env, run, at, receiver, selector);
            }
            let ghost after = run.state(*env);
            let result: Vec<u32> = env.mem.read_words(at, space);
            leave_call(env, sp, lr);
            assert(passed(after));
            assert(run.state(*env) =~= after_call(pre, after));
            result
        },
        None => {
            enter_call(env, &args, 0);
            if tolerate_type_mismatch {
                _touchHLE_objc_msgSend_tolerant(env, run, receiver, selector);
            } else {
                objc_msgSend(env, run, receiver, selector);
            }
            let ghost after = run.state(*env);
            let mut result: Vec<u32> = Vec::new();
            result.push(env.cpu.regs[0]);
            result.push(env.cpu.regs[1]);
            assert(result@ =~= after.regs.take(2));
            leave_call(env, sp, lr);
            assert(passed(after));
            assert(run.state(*env) =~= after_call(pre, after));
            result
        },
    }
}

/// A number of words as a natural number.
pub open spec fn count_of(in_memory: Option<usize>) -> Option<nat> {
    match in_memory {
        Some(count) => Some(count as nat),
        None => None,
    }
}

/// The address of the space for a struct that a message with `count` argument
/// words returns.
fn struct_address(env: &Environment, count: usize, space: usize) -> (at: u32)
    requires
        frame_bytes(count as nat, space as nat) <= env@.regs[13],
    ensures
        at == frame_space(env@.regs[13], count as nat, space as nat),
{
    let on_stack: usize = if count > 4 {
        count - 4
    } else {
        0
    };
    let bytes: usize = 4 * (on_stack + space);
    env.cpu.regs[SP] - (bytes as u32) + 4 * (on_stack as u32)
}

/// Variant of [msg_send] that does not have the signature of the message
/// checked.
pub fn msg_send_no_type_checking<R, P, F>(
    env: &mut Environment,
    run: &mut Runner<F>,
    args: P,
) -> (value: R)
    where
    R: GuestRet,
    P: MessageArgs,
    (R, P): MsgSendSignature,
    F: Fn(HostCall, Environment) -> (Environment, u32),

    requires
        call_bytes(args.words().len(), R::words_in_memory()) <= old(env)@.regs[13],
    ensures
        exists|result: Seq<u32>|
            #[trigger] calls(
                old(run).host(),
                old(env).depth(),
                old(run).state(*old(env)),
                args.words(),
                true,
                R::words_in_memory(),
                final(run).state(*final(env)),
                result,
            ) && value == R::of_words(result),
        keeps_stack(old(env)@, final(env)@),
        final(run).host() == old(run).host(),
        final(env).depth() == old(env).depth(),
    decreases MAX_DEPTH - old(env).depth(), 3nat, 0nat,
{
    let in_memory: Option<usize> = R::size_in_mem();
    let words: Vec<u32> = args.into_words();
    let result: Vec<u32> = call_message(env, run, words, true, in_memory);
    R::from_words(&result)
}

/// Whether sending a message with its signature noted for checking may leave
/// the state `post` and give the value `value`.
pub open spec fn msg_sends<R, P>(
    host: Host,
    depth: nat,
    pre: EnvView,
    type_info: TypeInfo,
    args: P,
    post: EnvView,
    value: R,
) -> bool where
    R: GuestRet,
    P: MessageArgs,
 {
    exists|result: Seq<u32>|
        #[trigger] calls(
            host,
            depth,
            EnvView { type_info: Some(type_info), ..pre },
            args.words(),
            false,
            R::words_in_memory(),
            post,
            result,
        ) && value == R::of_words(result)
}

/// Sends a message, with the given signature to be checked.
pub fn msg_send_typed<R, P, F>(
    env: &mut Environment,
    run: &mut Runner<F>,
    type_info: TypeInfo,
    args: P,
) -> (value: R) where
    R: GuestRet,
    P: MessageArgs,
    F: Fn(HostCall, Environment) -> (Environment, u32),

    requires
        call_bytes(args.words().len(), R::words_in_memory()) <= old(env)@.regs[13],
    ensures
        msg_sends(
            old(run).host(),
            old(env).depth(),
            old(run).state(*old(env)),
            type_info,
            args,
            final(run).state(*final(env)),
            value,
        ),
        keeps_stack(old(env)@, final(env)@),
        final(run).host() == old(run).host(),
        final(env).depth() == old(env).depth(),
{
    env.objc.message_type_info = Some(type_info);
    assert(run.state(*env) =~= (EnvView {
        type_info: Some(type_info),
        ..old(run).state(*old(env))
    }));
    let in_memory: Option<usize> = R::size_in_mem();
    let words: Vec<u32> = args.into_words();
    let result: Vec<u32> = call_message(env, run, words, false, in_memory);
    R::from_words(&result)
}

/// Wrapper around [objc_msgSend] which, together with [msg], makes it easy to
/// send messages in host code. Warning: all types are inferred from the
/// call-site and they may not be checked, so be very sure you get them correct!
pub fn msg_send<R, P, F>(env: &mut Environment, run: &mut Runner<F>, args: P) -> (value: R) where
    R: GuestRet,
    P: MessageArgs,
    (R, P): MsgSendSignature,
    F: Fn(HostCall, Environment) -> (Environment, u32),

    requires
        call_bytes(args.words().len(), R::words_in_memory()) <= old(env)@.regs[13],
    ensures
        exists|type_info: TypeInfo|
            #[trigger] call_ensures(<(R, P) as MsgSendSignature>::type_info, (), type_info)
                && msg_sends(
                old(run).host(),
                old(env).depth(),
                old(run).state(*old(env)),
                type_info,
                args,
                final(run).state(*final(env)),
                value,
            ),
        keeps_stack(old(env)@, final(env)@),
        final(run).host() == old(run).host(),
        final(env).depth() == old(env).depth(),
{
    // Provide type info for dynamic type checking.
    let type_info: TypeInfo = <(R, P) as MsgSendSignature>::type_info();
    msg_send_typed(env, run, type_info, args)
}

/// The state in which a message to super is sent: its signature is noted for
/// checking, and a struct to be returned is reported.
pub open spec fn super_noted(
    env: EnvView,
    type_info: TypeInfo,
    selector: SEL,
    in_memory: Option<nat>,
) -> EnvView {
    let noted = EnvView { type_info: Some(type_info), ..env };
    if in_memory is Some {
        noticing(noted, Notice::StructFromSuper { selector })
    } else {
        noted
    }
}

/// Whether sending a message to super with its signature noted for checking may
/// leave the state `post` and give the value `value`.
pub open spec fn msg_sends_super<R, P>(
    host: Host,
    depth: nat,
    pre: EnvView,
    type_info: TypeInfo,
    args: P,
    post: EnvView,
    value: R,
) -> bool where
    R: GuestRet,
    P: MessageArgs,
 {
    exists|result: Seq<u32>|
        #[trigger] calls_super(
            host,
            depth,
            super_noted(
                pre,
                type_info,
                SEL { bits: args.words()[1] },
                R::words_in_memory(),
            ),
            args.words(),
            R::words_in_memory(),
            post,
            result,
        ) && value == R::of_words(result)
}

/// The stack space, in bytes, that sending a message to super needs.
pub open spec fn super_bytes(count: nat, in_memory: Option<nat>) -> nat {
    match in_memory {
        None => frame_bytes(count, 0),
        Some(space) => frame_bytes(count, space),
    }
}

/// Sends a message to super, with the given signature to be checked.
pub fn msg_send_super2_typed<R, P, F>(
    env: &mut Environment,
    run: &mut Runner<F>,
    type_info: TypeInfo,
    args: P,
) -> (value: R) where
    R: GuestRet,
    P: MessageArgs,
    F: Fn(HostCall, Environment) -> (Environment, u32),

    requires
        super_bytes(args.words().len(), R::words_in_memory()) <= old(env)@.regs[13],
    ensures
        msg_sends_super(
            old(run).host(),
            old(env).depth(),
            old(run).state(*old(env)),
            type_info,
            args,
            final(run).state(*final(env)),
            value,
        ),
        keeps_stack(old(env)@, final(env)@),
        final(run).host() == old(run).host(),
        final(env).depth() == old(env).depth(),
{
    env.objc.message_type_info = Some(type_info);
    let in_memory: Option<usize> = R::size_in_mem();
    let words: Vec<u32> = args.into_words();
    let selector = SEL { bits: words[1] };
    let space: usize = match in_memory {
        Some(space) => {
            // Struct returns (stret) for super-calls aren't implemented yet.
            // Report this, and fall through to the non-stret path.
            env.notice(Notice::StructFromSuper { selector });
            space
        },
        None => 0,
    };
    let ghost pre = run.state(*env);
    assert(pre =~= super_noted(
        old(run).state(*old(env)),
        type_info,
        selector,
        R::words_in_memory(),
    ));
    let sp: u32 = env.cpu.regs[SP];
    let lr: u32 = env.cpu.regs[LR];
    let at: u32 = enter_call(env, &words, space);
    objc_msgSendSuper2(env, run, SuperPtr { bits: words[0] }, selector);
    let ghost after = run.state(*env);
    let mut result: Vec<u32> = Vec::new();
    if in_memory.is_some() {
        result = env.mem.read_words(at, space);
    } else {
        result.push(env.cpu.regs[0]);
        result.push(env.cpu.regs[1]);
        assert(result@ =~= after.regs.take(2));
    }
    leave_call(env, sp, lr);
    assert(passed(after));
    assert(run.state(*env) =~= after_call(pre, after));
    assert(calls_super(
        run.host(),
        old(env).depth(),
        pre,
        args.words(),
        R::words_in_memory(),
        run.state(*env),
        result@,
    ));
    R::from_words(&result)
}

/// [msg_send] but for super-calls (calls [objc_msgSendSuper2]). You probably
/// want to use [msg_super] rather than calling this directly.
pub fn msg_send_super2<R, P, F>(
    env: &mut Environment,
    run: &mut Runner<F>,
    args: P,
) -> (value: R) where
    R: GuestRet,
    P: MessageArgs,
    (R, P): MsgSendSuperSignature,
    F: Fn(HostCall, Environment) -> (Environment, u32),

    requires
        super_bytes(args.words().len(), R::words_in_memory()) <= old(env)@.regs[13],
    ensures
        exists|type_info: TypeInfo|
            #[trigger] call_ensures(
                <<(R, P) as MsgSendSuperSignature>::WithoutSuper as MsgSendSignature>::type_info,
                (),
                type_info,
            ) && msg_sends_super(
                old(run).host(),
                old(env).depth(),
                old(run).state(*old(env)),
                type_info,
                args,
                final(run).state(*final(env)),
                value,
            ),
        keeps_stack(old(env)@, final(env)@),
        final(run).host() == old(run).host(),
        final(env).depth() == old(env).depth(),
{
    // Provide type info for dynamic type checking.
    let type_info: TypeInfo =
        <<(R, P) as MsgSendSuperSignature>::WithoutSuper as MsgSendSignature>::type_info();
    msg_send_super2_typed(env, run, type_info, args)
}

/// Whether a message with the named selector can be sent: the selector is
/// registered, and there is room for the arguments on the stack.
pub open spec fn can_send<R: GuestRet, A: OwnArgs<id>>(
    env: EnvView,
    receiver: id,
    name: Seq<char>,
    own_args: A,
) -> bool {
    selector_named(env.selectors, name) matches Some(selector) && call_bytes(
        own_args.completed(receiver, selector).words().len(),
        R::words_in_memory(),
    ) <= env.regs[13]
}

/// Sends a message with the named selector.
///
/// See [msg_send] for the underlying implementation. Warning: all types are
/// inferred from the call-site and they may not be checked, so be very sure you
/// get them correct!
pub fn msg<R, A, F>(
    env: &mut Environment,
    run: &mut Runner<F>,
    receiver: id,
    name: &str,
    own_args: A,
) -> (value: R) where
    R: GuestRet,
    A: OwnArgs<id>,
    (R, A::Complete): MsgSendSignature,
    F: Fn(HostCall, Environment) -> (Environment, u32),

    requires
        can_send::<R, A>(old(run).state(*old(env)), receiver, name@, own_args),
    ensures
        exists|type_info: TypeInfo|
            #[trigger] call_ensures(
                <(R, A::Complete) as MsgSendSignature>::type_info,
                (),
                type_info,
            ) && msg_sends(
                old(run).host(),
                old(env).depth(),
                old(run).state(*old(env)),
                type_info,
                own_args.completed(receiver, selector_named(old(env)@.selectors, name@)->0),
                final(run).state(*final(env)),
                value,
            ),
        keeps_stack(old(env)@, final(env)@),
        final(run).host() == old(run).host(),
        final(env).depth() == old(env).depth(),
{
    let selector: SEL = env.objc.lookup_selector(name).unwrap();
    msg_send(env, run, own_args.complete(receiver, selector))
}

/// Finds a class by name, and makes it known first if it is not yet.
pub fn get_known_class<F: Fn(HostCall, Environment) -> (Environment, u32)>(
    env: &mut Environment,
    run: &mut Runner<F>,
    name: &'static str,
) -> (class: Class)
    ensures
        links(
            old(run).host(),
            old(env).depth(),
            old(run).state(*old(env)),
            name,
            final(run).state(*final(env)),
            class.bits,
        ),
        final(run).host() == old(run).host(),
        final(env).depth() == old(env).depth(),
{
    match env.objc.lookup_class(name) {
        Some(class) => class,
        None => id { bits: env.call_host(run, HostCall::LinkClass(name)) },
    }
}

/// Variant of [msg] for sending a message to a named class.
/// Useful for calling class methods, especially `new`.
pub fn msg_class<R, A, F>(
    env: &mut Environment,
    run: &mut Runner<F>,
    class_name: &'static str,
    name: &str,
    own_args: A,
) -> (value: R) where
    R: GuestRet,
    A: OwnArgs<id>,
    (R, A::Complete): MsgSendSignature,
    F: Fn(HostCall, Environment) -> (Environment, u32),

    requires
        forall|linked: EnvView, class: u32|
            #[trigger] links(
                old(run).host(),
                old(env).depth(),
                old(run).state(*old(env)),
                class_name,
                linked,
                class,
            )
                ==> can_send::<R, A>(linked, id { bits: class }, name@, own_args),
    ensures
        exists|linked: EnvView, class: u32, type_info: TypeInfo|
            #[trigger] links(
                old(run).host(),
                old(env).depth(),
                old(run).state(*old(env)),
                class_name,
                linked,
                class,
            )
                && #[trigger] call_ensures(
                <(R, A::Complete) as MsgSendSignature>::type_info,
                (),
                type_info,
            ) && msg_sends(
                old(run).host(),
                old(env).depth(),
                linked,
                type_info,
                own_args.completed(
                    id { bits: class },
                    selector_named(linked.selectors, name@)->0,
                ),
                final(run).state(*final(env)),
                value,
            ) && keeps_stack(linked, final(run).state(*final(env))),
        final(run).host() == old(run).host(),
        final(env).depth() == old(env).depth(),
{
    let class: Class = get_known_class(env, run, class_name);
    msg(env, run, class, name, own_args)
}

/// The pointer to an `objc_super` that is pushed to the stack.
pub open spec fn pushed_super_ptr(env: EnvView) -> SuperPtr {
    SuperPtr { bits: (env.regs[13] - 8) as u32 }
}

/// The state after an `objc_super` was pushed to the stack.
pub open spec fn with_pushed_super(env: EnvView, value: objc_super) -> EnvView {
    EnvView {
        regs: env.regs.update(13, pushed_super_ptr(env).bits),
        mem: with_word(
            with_word(env.mem, pushed_super_ptr(env).bits, value.receiver.bits),
            pushed_super_ptr(env).bits.wrapping_add(4),
            value.class.bits,
        ),
        ..env
    }
}

/// Whether sending a message to super, with the receiver and the class pushed to
/// the stack and popped from it again, may leave the state `post` and give the
/// value `value`.
pub open spec fn msg_sends_pushed_super<R, P>(
    host: Host,
    depth: nat,
    pre: EnvView,
    value_pushed: objc_super,
    type_info: TypeInfo,
    args: P,
    post: EnvView,
    value: R,
) -> bool where
    R: GuestRet,
    P: MessageArgs,
 {
    exists|after: EnvView|
        {
            &&& #[trigger] passed(after)
            &&& msg_sends_super(
                host,
                depth,
                with_pushed_super(pre, value_pushed),
                type_info,
                args,
                after,
                value,
            )
            &&& post == (EnvView { regs: after.regs.update(13, pre.regs[13]), ..after })
        }
}

/// Whether a message to super with the named selector can be sent: the selector
/// is registered, and there is room for an `objc_super` and the arguments on the
/// stack.
pub open spec fn can_send_super<R: GuestRet, A: OwnArgs<SuperPtr>>(
    env: EnvView,
    name: Seq<char>,
    own_args: A,
) -> bool {
    selector_named(env.selectors, name) matches Some(selector) && 8 + super_bytes(
        own_args.completed(pushed_super_ptr(env), selector).words().len(),
        R::words_in_memory(),
    ) <= env.regs[13]
}

/// Variant of [msg] for super-calls. `class_name` is the name of the class whose
/// method makes the call.
pub fn msg_super<R, A, F>(
    env: &mut Environment,
    run: &mut Runner<F>,
    class_name: &'static str,
    receiver: id,
    name: &str,
    own_args: A,
) -> (value: R) where
    R: GuestRet,
    A: OwnArgs<SuperPtr>,
    (R, A::Complete): MsgSendSuperSignature,
    F: Fn(HostCall, Environment) -> (Environment, u32),

    requires
        forall|linked: EnvView, class: u32|
            #[trigger] links(
                old(run).host(),
                old(env).depth(),
                old(run).state(*old(env)),
                class_name,
                linked,
                class,
            )
                ==> can_send_super::<R, A>(linked, name@, own_args),
    ensures
        exists|linked: EnvView, class: u32, type_info: TypeInfo|
            #[trigger] links(
                old(run).host(),
                old(env).depth(),
                old(run).state(*old(env)),
                class_name,
                linked,
                class,
            )
                && #[trigger] call_ensures(
                <<(R, A::Complete) as MsgSendSuperSignature>::WithoutSuper as MsgSendSignature>::type_info,
                (),
                type_info,
            ) && msg_sends_pushed_super(
                old(run).host(),
                old(env).depth(),
                linked,
                (objc_super { receiver, class: id { bits: class } }),
                type_info,
                own_args.completed(
                    pushed_super_ptr(linked),
                    selector_named(linked.selectors, name@)->0,
                ),
                final(run).state(*final(env)),
                value,
            ) && keeps_stack(linked, final(run).state(*final(env))),
        final(run).host() == old(run).host(),
        final(env).depth() == old(env).depth(),
{
    let class: Class = get_known_class(env, run, class_name);
    let ghost linked = run.state(*env);
    let selector: SEL = env.objc.lookup_selector(name).unwrap();
    let old_sp: u32 = env.cpu.regs[SP];
    let super_ptr = SuperPtr { bits: old_sp - 8 };
    env.cpu.regs[SP] = super_ptr.bits;
    env.mem.write_super(super_ptr, objc_super { receiver, class });
    assert(run.state(*env) =~= with_pushed_super(linked, objc_super { receiver, class }));
    let value: R = msg_send_super2(env, run, own_args.complete(super_ptr, selector));
    let ghost after = run.state(*env);
    env.cpu.regs[SP] = old_sp;
    assert(passed(after));
    assert(run.state(*env) =~= (EnvView { regs: after.regs.update(13, old_sp), ..after }));
    value
}

/// Sends `retain`, unless the object is nil, and gives what the method returns.
pub fn retain<F: Fn(HostCall, Environment) -> (Environment, u32)>(
    env: &mut Environment,
    run: &mut Runner<F>,
    object: id,
) -> (retained: id)
    requires
        object != nil() ==> selector_named(old(env)@.selectors, "retain"@) is Some,
    ensures
        object == nil() ==> retained == nil() && final(run).state(*final(env)) == old(run).state(
            *old(env),
        ),
        object != nil() ==> exists|type_info: TypeInfo|
            #[trigger] call_ensures(
                <(id, (id, SEL)) as MsgSendSignature>::type_info,
                (),
                type_info,
            ) && msg_sends(
                old(run).host(),
                old(env).depth(),
                old(run).state(*old(env)),
                type_info,
                (object, selector_named(old(env)@.selectors, "retain"@)->0),
                final(run).state(*final(env)),
                retained,
            ),
        keeps_stack(old(env)@, final(env)@),
        final(run).host() == old(run).host(),
        final(env).depth() == old(env).depth(),
{
    if object == nil() {
        // fast path
        return nil();
    }
    msg(env, run, object, "retain", ())
}

/// Sends `release`, unless the object is nil.
pub fn release<F: Fn(HostCall, Environment) -> (Environment, u32)>(
    env: &mut Environment,
    run: &mut Runner<F>,
    object: id,
)
    requires
        object != nil() ==> selector_named(old(env)@.selectors, "release"@) is Some,
    ensures
        object == nil() ==> final(run).state(*final(env)) == old(run).state(*old(env)),
        object != nil() ==> exists|type_info: TypeInfo|
            #[trigger] call_ensures(
                <((), (id, SEL)) as MsgSendSignature>::type_info,
                (),
                type_info,
            ) && msg_sends(
                old(run).host(),
                old(env).depth(),
                old(run).state(*old(env)),
                type_info,
                (object, selector_named(old(env)@.selectors, "release"@)->0),
                final(run).state(*final(env)),
                (),
            ),
        keeps_stack(old(env)@, final(env)@),
        final(run).host() == old(run).host(),
        final(env).depth() == old(env).depth(),
{
    if object == nil() {
        // fast path
        return;
    }
    msg(env, run, object, "release", ())
}

/// Sends `autorelease`, unless the object is nil, and gives what the method
/// returns.
pub fn autorelease<F: Fn(HostCall, Environment) -> (Environment, u32)>(
    env: &mut Environment,
    run: &mut Runner<F>,
    object: id,
) -> (autoreleased: id)
    requires
        object != nil() ==> selector_named(old(env)@.selectors, "autorelease"@) is Some,
    ensures
        object == nil() ==> autoreleased == nil() && final(run).state(*final(env)) == old(run).state(
            *old(env),
        ),
        object != nil() ==> exists|type_info: TypeInfo|
            #[trigger] call_ensures(
                <(id, (id, SEL)) as MsgSendSignature>::type_info,
                (),
                type_info,
            ) && msg_sends(
                old(run).host(),
                old(env).depth(),
                old(run).state(*old(env)),
                type_info,
                (object, selector_named(old(env)@.selectors, "autorelease"@)->0),
                final(run).state(*final(env)),
                autoreleased,
            ),
        keeps_stack(old(env)@, final(env)@),
        final(run).host() == old(run).host(),
        final(env).depth() == old(env).depth(),
{
    if object == nil() {
        // fast path
        return nil();
    }
    msg(env, run, object, "autorelease", ())
}

} // verus!
