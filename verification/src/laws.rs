//! What holds of all messages, whatever the methods do that they reach.

use vstd::prelude::*;
use vstd::string::*;

use crate::abi::{
    after_call, frame_bytes, frame_sp, frame_space, frame_words, keeps_stack, with_frame,
};
use crate::classes::{
    ancestor, height, lemma_superclass_lower, lookup_from, superclass_of, Lookup, Objects,
};
use crate::environment::{
    asked, marking, playing, returning, well_formed, with_args_of, EnvView, Host, HostCall, Notice,
    MAX_DEPTH, NIL_ISA_LOG_LIMIT,
};
use crate::mem::{
    c_string, law_other_words_are_kept, law_read_after_write, law_words_are_read_back,
    selector_name, super_at, with_word, word, words,
};
use crate::messages::{pushed_super_ptr, with_pushed_super};
use crate::minion_jump::{
    entry, find_button, law_button_has_its_callback, with_button, with_selected, Button, Factory,
    MinionView, PendingView, ALL_STAGES,
};
use crate::semantics::{
    arranged, asks_for_stage, button_noted, calls, calls_super, class_to_initialize, delivers,
    dispatches, dispatches_super, factory, finishes, handles, in_minion_jump, initialize_selector,
    initializes, initializes_own, limit_noted, message_class, nil_isa_noted, outcome, passed,
    registers, releases, releases_button, selection_begun, selection_ended, selection_made, selects,
    sends, signature_checked, stage_unlocked, three_words, two_words, with_struct_address, Message,
};
use crate::signature::{law_signatures_have_one_identity, MsgSendSignature, MsgSendSuperSignature};
use crate::types::{id, nil, objc_super, Class, HostIMP, SuperPtr, TypeInfo, IMP, SEL};

verus! {

/// Whether `b` differs from `a` by no more than the dispatcher itself changes, but
/// for marking classes as initialized: it changes none of the tables, unlocks
/// stages for good, takes back nothing that was noticed, and calls nothing.
pub open spec fn own_step(a: EnvView, b: EnvView) -> bool {
    &&& a.regs.len() == 16 ==> b.regs.len() == 16
    &&& b.objects == a.objects
    &&& b.selectors == a.selectors
    &&& b.known_classes == a.known_classes
    &&& b.bundle_identifier == a.bundle_identifier
    &&& b.initialized == a.initialized
    &&& a.game.unlocked_level <= b.game.unlocked_level
    &&& a.notices.is_prefix_of(b.notices)
    &&& b.calls == a.calls
}

/// Whether all classes have the same superclasses in `b` as in `a`.
pub open spec fn superclasses_kept(a: Objects, b: Objects) -> bool {
    forall|class: Class|
        (#[trigger] superclass_of(a, class)) is Some ==> superclass_of(b, class) == superclass_of(
            a,
            class,
        )
}

/// Whether the superclass of a class is initialized, if there is one.
pub open spec fn superclass_ready(env: EnvView, class: Class) -> bool {
    superclass_of(env.objects, class) matches Some(superclass) ==> superclass == nil()
        || env.initialized.contains(superclass.bits)
}

/// Whether states that `kept` relates have the same superclasses, and no fewer
/// initialized classes in the later one.
pub open spec fn keeps_classes(kept: spec_fn(EnvView, EnvView) -> bool) -> bool {
    forall|a: EnvView, b: EnvView| #[trigger]
        kept(a, b) ==> a.initialized.subset_of(b.initialized) && superclasses_kept(
            a.objects,
            b.objects,
        )
}

/// Whether states that `kept` relates are states of the same app.
pub open spec fn keeps_app(kept: spec_fn(EnvView, EnvView) -> bool) -> bool {
    forall|a: EnvView, b: EnvView| #[trigger]
        kept(a, b) ==> b.bundle_identifier == a.bundle_identifier
}

/// Whether `kept`, a relation between an earlier and a later state, holds across
/// all that the dispatcher itself does and all that `host` does, and is passed on
/// from step to step. The dispatcher marks a class after its superclass, as long
/// as classes are kept, and changes the state of Minion Jump in Minion Jump only,
/// as long as the app is kept.
pub open spec fn is_kept(host: Host, kept: spec_fn(EnvView, EnvView) -> bool) -> bool {
    &&& forall|a: EnvView, b: EnvView|
        well_formed(a) && own_step(a, b) && (keeps_app(kept) && !in_minion_jump(a) ==> b.game
            == a.game) ==> #[trigger] kept(a, b)
    &&& forall|a: EnvView, class: Class|
        well_formed(a) && (keeps_classes(kept) ==> superclass_ready(a, class)) ==> #[trigger] kept(
            a,
            marking(a, class),
        )
    &&& forall|a: EnvView, b: EnvView, c: EnvView|
        #[trigger] kept(a, b) && #[trigger] kept(b, c) ==> kept(a, c)
    &&& forall|depth: nat, call: HostCall, a: EnvView, b: EnvView, answer: u32|
        well_formed(a) && #[trigger] asked(host, depth, call, a, b, answer) ==> kept(a, b)
}

/// Whatever the dispatcher and `host` each keep, every message keeps.
pub proof fn law_messages_keep(
    host: Host,
    kept: spec_fn(EnvView, EnvView) -> bool,
    depth: nat,
    pre: EnvView,
    message: Message,
    post: EnvView,
)
    requires
        is_kept(host, kept),
        well_formed(pre),
        dispatches(host, depth, pre, message, post),
    ensures
        well_formed(post),
        kept(pre, post),
    decreases MAX_DEPTH - depth, 0nat, 0nat,
{
    if depth >= MAX_DEPTH {
        let noticed = limit_noted(pre, message);
        assert(own_step(pre, noticed));
        assert(kept(pre, noticed));
        if selector_name(pre.mem, message.selector) == "allocWithZone:".spec_bytes() {
            let (after, object) = choose|after: EnvView, object: u32|
                #[trigger] asked(
                    host,
                    depth,
                    HostCall::AllocObject(message.receiver),
                    noticed,
                    after,
                    object,
                ) && post == (EnvView { regs: noticed.regs.update(0, object), ..after });
            assert(kept(noticed, after));
            assert(own_step(after, post));
            assert(kept(after, post));
        } else {
            assert(own_step(noticed, post));
            assert(kept(noticed, post));
        }
    } else {
        let taken = EnvView { type_info: None, ..pre };
        assert(own_step(pre, taken));
        assert(kept(pre, taken));
        lemma_handles_keeps(host, kept, depth + 1, taken, message, pre.type_info, post);
    }
}

proof fn lemma_handles_keeps(
    host: Host,
    kept: spec_fn(EnvView, EnvView) -> bool,
    depth: nat,
    pre: EnvView,
    message: Message,
    type_info: Option<TypeInfo>,
    post: EnvView,
)
    requires
        is_kept(host, kept),
        well_formed(pre),
        handles(host, depth, pre, message, type_info, post),
    ensures
        well_formed(post),
        kept(pre, post),
    decreases MAX_DEPTH - depth, 6nat, 0nat,
{
    let class = message_class(pre, message);
    if message.receiver == nil() || class == nil() {
        assert(own_step(pre, post));
    } else if message.super2 is Some {
        lemma_delivers_keeps(host, kept, depth, pre, class, message, type_info, post);
    } else {
        let first = class_to_initialize(pre.objects, message.receiver, class);
        let ready = choose|ready: EnvView|
            #[trigger] passed(ready) && initializes(host, depth, pre, first, ready) && delivers(
                host,
                depth,
                ready,
                class,
                message,
                type_info,
                post,
            );
        lemma_initializes_keeps(host, kept, depth, pre, first, ready);
        lemma_delivers_keeps(host, kept, depth, ready, class, message, type_info, post);
    }
}

proof fn lemma_delivers_keeps(
    host: Host,
    kept: spec_fn(EnvView, EnvView) -> bool,
    depth: nat,
    pre: EnvView,
    class: Class,
    message: Message,
    type_info: Option<TypeInfo>,
    post: EnvView,
)
    requires
        is_kept(host, kept),
        well_formed(pre),
        delivers(host, depth, pre, class, message, type_info, post),
    ensures
        well_formed(post),
        kept(pre, post),
    decreases MAX_DEPTH - depth, 5nat, 0nat,
{
    let env = arranged(pre, class, message.selector);
    assert(own_step(pre, env));
    let to_super = message.super2 is Some;
    let found = lookup_from(env.objects, class, message.selector, to_super);
    if in_minion_jump(pre) && asks_for_stage(selector_name(pre.mem, message.selector)) {
        assert(own_step(pre, post));
    } else if let Lookup::Method { imp, .. } = found {
        let checked = signature_checked(env, message, type_info, imp);
        let (returned, answer) = choose|returned: EnvView, answer: u32|
            #[trigger] asked(host, depth, HostCall::Invoke(imp), checked, returned, answer)
                && finishes(host, depth, returned, pre, class, message, post);
        assert(own_step(pre, checked));
        assert(kept(pre, checked));
        assert(kept(checked, returned));
        assert(kept(pre, returned));
        let noted = button_noted(returned, factory(pre, class, message.selector));
        assert(own_step(returned, noted));
        assert(kept(returned, noted));
        if releases_button(pre, class, message.selector) {
            lemma_releases_keeps(
                host,
                kept,
                depth,
                noted,
                class,
                message.receiver,
                pre.regs[2],
                post,
            );
        }
    } else {
        assert(own_step(pre, post));
    }
}

proof fn lemma_releases_keeps(
    host: Host,
    kept: spec_fn(EnvView, EnvView) -> bool,
    depth: nat,
    pre: EnvView,
    class: Class,
    receiver: id,
    released: u32,
    post: EnvView,
)
    requires
        is_kept(host, kept),
        well_formed(pre),
        keeps_app(kept) ==> in_minion_jump(pre),
        releases(host, depth, pre, class, receiver, released, post),
    ensures
        well_formed(post),
        kept(pre, post),
    decreases MAX_DEPTH - depth, 3nat, 0nat,
{
    let found = find_button(pre.game.buttons, receiver.bits, released);
    if found is Some && selects(host, depth, pre, found->0, released, post) {
        lemma_selects_keeps(host, kept, depth, pre, found->0, released, post);
    } else {
        assert(own_step(pre, post));
    }
}

proof fn lemma_selects_keeps(
    host: Host,
    kept: spec_fn(EnvView, EnvView) -> bool,
    depth: nat,
    pre: EnvView,
    button: Button,
    released: u32,
    post: EnvView,
)
    requires
        is_kept(host, kept),
        well_formed(pre),
        keeps_app(kept) ==> in_minion_jump(pre),
        selects(host, depth, pre, button, released, post),
    ensures
        well_formed(post),
        kept(pre, post),
    decreases MAX_DEPTH - depth, 2nat, 0nat,
{
    let begun = selection_begun(pre, button.stage);
    let tag = (button.stage - 1) as u32;
    let (ready, set_tag, first, second, done) =
        choose|ready: EnvView, set_tag: u32, first: EnvView, second: EnvView, done: EnvView|
        {
            &&& #[trigger] registers(host, depth, begun, "setTag:", ready, set_tag)
            &&& #[trigger] passed(first)
            &&& #[trigger] passed(second)
            &&& #[trigger] passed(done)
            &&& sends(host, depth, ready, three_words(released, set_tag, tag), first)
            &&& if button.button == released {
                second == first
            } else {
                sends(host, depth, first, three_words(button.button, set_tag, tag), second)
            }
            &&& sends(
                host,
                depth,
                selection_made(second, begun, button, released),
                three_words(button.target, button.selector, button.button),
                done,
            )
            &&& post == selection_ended(done, begun)
        };
    assert(own_step(pre, begun));
    assert(kept(pre, begun));
    assert(own_step(begun, begun));
    assert(kept(begun, ready));
    lemma_sends_keeps(host, kept, depth, ready, three_words(released, set_tag, tag), first);
    if button.button != released {
        lemma_sends_keeps(
            host,
            kept,
            depth,
            first,
            three_words(button.button, set_tag, tag),
            second,
        );
        assert(kept(ready, second));
    }
    let selected = selection_made(second, begun, button, released);
    assert(own_step(second, selected));
    assert(kept(second, selected));
    lemma_sends_keeps(
        host,
        kept,
        depth,
        selected,
        three_words(button.target, button.selector, button.button),
        done,
    );
    assert(own_step(done, post));
    assert(kept(done, post));
    assert(kept(pre, ready));
    assert(kept(pre, second));
    assert(kept(pre, selected));
    assert(kept(pre, done));
}

proof fn lemma_initializes_keeps(
    host: Host,
    kept: spec_fn(EnvView, EnvView) -> bool,
    depth: nat,
    pre: EnvView,
    class: Class,
    post: EnvView,
)
    requires
        is_kept(host, kept),
        well_formed(pre),
        initializes(host, depth, pre, class, post),
    ensures
        well_formed(post),
        kept(pre, post),
        keeps_classes(kept) && class != nil() ==> post.initialized.contains(class.bits),
    decreases MAX_DEPTH - depth, 3nat, height(pre.objects, class),
{
    if class == nil() || pre.initialized.contains(class.bits) {
        assert(own_step(pre, post));
    } else {
        match superclass_of(pre.objects, class) {
            None => {
                assert(kept(pre, marking(pre, class)));
            },
            Some(superclass) => {
                lemma_superclass_lower(pre.objects, class);
                let between = choose|between: EnvView|
                    #[trigger] passed(between) && initializes(
                        host,
                        depth,
                        pre,
                        superclass,
                        between,
                    ) && initializes_own(host, depth, between, class, post);
                lemma_initializes_keeps(host, kept, depth, pre, superclass, between);
                lemma_initializes_own_keeps(host, kept, depth, between, class, post);
            },
        }
    }
}

proof fn lemma_initializes_own_keeps(
    host: Host,
    kept: spec_fn(EnvView, EnvView) -> bool,
    depth: nat,
    pre: EnvView,
    class: Class,
    post: EnvView,
)
    requires
        is_kept(host, kept),
        well_formed(pre),
        keeps_classes(kept) ==> superclass_ready(pre, class),
        initializes_own(host, depth, pre, class, post),
    ensures
        well_formed(post),
        kept(pre, post),
        keeps_classes(kept) ==> post.initialized.contains(class.bits),
    decreases MAX_DEPTH - depth, 2nat, 0nat,
{
    let marked = marking(pre, class);
    assert(kept(pre, marked));
    if pre.initialized.contains(class.bits) {
        assert(own_step(pre, post));
    } else if let Some(selector) = initialize_selector(marked, class) {
        let after = choose|after: EnvView|
            #[trigger] passed(after) && sends(
                host,
                depth,
                marked,
                two_words(class.bits, selector.bits),
                after,
            ) && post == with_args_of(after, marked);
        lemma_sends_keeps(
            host,
            kept,
            depth,
            marked,
            two_words(class.bits, selector.bits),
            after,
        );
        assert(kept(pre, after));
        assert(own_step(after, post));
        assert(kept(after, post));
        assert(marked.initialized.contains(class.bits));
        assert(keeps_classes(kept) ==> marked.initialized.subset_of(after.initialized));
    }
}

proof fn lemma_sends_keeps(
    host: Host,
    kept: spec_fn(EnvView, EnvView) -> bool,
    depth: nat,
    pre: EnvView,
    args: Seq<u32>,
    post: EnvView,
)
    requires
        is_kept(host, kept),
        well_formed(pre),
        sends(host, depth, pre, args, post),
    ensures
        well_formed(post),
        kept(pre, post),
    decreases MAX_DEPTH - depth, 1nat, 0nat,
{
    let message = Message {
        receiver: id { bits: args[0] },
        selector: SEL { bits: args[1] },
        super2: None,
        tolerate_type_mismatch: true,
    };
    let framed = with_frame(pre, args, 0);
    let after = choose|after: EnvView|
        #[trigger] passed(after) && dispatches(host, depth, framed, message, after) && post
            == after_call(pre, after);
    assert(own_step(pre, framed));
    assert(kept(pre, framed));
    law_messages_keep(host, kept, depth, framed, message, after);
    assert(kept(pre, after));
    assert(own_step(after, post));
    assert(kept(after, post));
}

/// A message that the dispatcher sends leaves a well-formed state, and keeps the
/// stack pointer and the return address.
proof fn lemma_sends_well_formed(
    host: Host,
    depth: nat,
    pre: EnvView,
    args: Seq<u32>,
    post: EnvView,
)
    requires
        well_formed(pre),
        sends(host, depth, pre, args, post),
    ensures
        well_formed(post),
        keeps_stack(pre, post),
{
    let message = Message {
        receiver: id { bits: args[0] },
        selector: SEL { bits: args[1] },
        super2: None,
        tolerate_type_mismatch: true,
    };
    let framed = with_frame(pre, args, 0);
    let after = choose|after: EnvView|
        #[trigger] passed(after) && dispatches(host, depth, framed, message, after) && post
            == after_call(pre, after);
    law_messages_keep(host, |a: EnvView, b: EnvView| true, depth, framed, message, after);
}

/// A message to nil does nothing, and returns zero.
pub proof fn law_message_to_nil(
    host: Host,
    depth: nat,
    pre: EnvView,
    message: Message,
    post: EnvView,
)
    requires
        depth < MAX_DEPTH,
        message.receiver == nil(),
        dispatches(host, depth, pre, message, post),
    ensures
        post == returning(EnvView { type_info: None, ..pre }, 0, 0),
{
}

/// However messages lead to each other, there is a depth from which on no method
/// is run any more: a message that is nested too deep is reported and returns
/// zero, or, if it allocates an object, the object.
pub proof fn law_recursion_ends(
    host: Host,
    depth: nat,
    pre: EnvView,
    message: Message,
    post: EnvView,
)
    requires
        depth >= MAX_DEPTH,
        dispatches(host, depth, pre, message, post),
    ensures
        ({
            let noticed = limit_noted(pre, message);
            if selector_name(pre.mem, message.selector) == "allocWithZone:".spec_bytes() {
                exists|after: EnvView, object: u32|
                    #[trigger] asked(
                        host,
                        depth,
                        HostCall::AllocObject(message.receiver),
                        noticed,
                        after,
                        object,
                    ) && post == (EnvView { regs: noticed.regs.update(0, object), ..after })
            } else {
                post == returning(noticed, 0, 0)
            }
        }),
{
}

/// Whether a method that is called in the state `b` finds its arguments and its
/// return address where it would in the state `a`: in registers 0 to 3, the stack
/// pointer and the return address.
pub open spec fn same_arguments(a: EnvView, b: EnvView) -> bool {
    a.regs.take(4) == b.regs.take(4) && keeps_stack(a, b)
}

/// Initializing classes keeps the arguments of the message that the classes are
/// initialized for.
pub proof fn law_arguments_survive_initialize(
    host: Host,
    depth: nat,
    pre: EnvView,
    class: Class,
    post: EnvView,
)
    requires
        well_formed(pre),
        initializes(host, depth, pre, class, post),
    ensures
        well_formed(post),
        same_arguments(pre, post),
    decreases height(pre.objects, class),
{
    if class != nil() && !pre.initialized.contains(class.bits) {
        if let Some(superclass) = superclass_of(pre.objects, class) {
            lemma_superclass_lower(pre.objects, class);
            let between = choose|between: EnvView|
                #[trigger] passed(between) && initializes(host, depth, pre, superclass, between)
                    && initializes_own(host, depth, between, class, post);
            law_arguments_survive_initialize(host, depth, pre, superclass, between);
            let marked = marking(between, class);
            if !between.initialized.contains(class.bits) {
                if let Some(selector) = initialize_selector(marked, class) {
                    let args = two_words(class.bits, selector.bits);
                    let after = choose|after: EnvView|
                        #[trigger] passed(after) && sends(host, depth, marked, args, after) && post
                            == with_args_of(after, marked);
                    lemma_sends_well_formed(host, depth, marked, args, after);
                }
            }
            assert(post.regs.take(4) =~= between.regs.take(4));
            assert(same_arguments(between, post));
        }
    }
}

/// Whether the bytes from the stack pointer of `a` on upward, where the arguments
/// are that did not go to registers, are the same in `b`.
pub open spec fn stack_kept(a: EnvView, b: EnvView) -> bool {
    forall|address: u32|
        address >= a.regs[13] ==> #[trigger] b.mem[address] == a.mem[address]
}

/// Whether, outside of Minion Jump, methods and allocations leave the bytes from
/// the stack pointer on upward as they were, and do not turn the app into Minion
/// Jump.
pub open spec fn keeps_callers_stack(host: Host) -> bool {
    forall|depth: nat, call: HostCall, a: EnvView, b: EnvView, answer: u32|
        #[trigger] asked(host, depth, call, a, b, answer) && (call is Invoke || call is AllocObject)
            && !in_minion_jump(a) ==> stack_kept(a, b) && !in_minion_jump(b)
}

/// A message leaves its caller's stack alone, if methods do.
pub proof fn law_messages_keep_the_callers_stack(
    host: Host,
    depth: nat,
    pre: EnvView,
    message: Message,
    post: EnvView,
)
    requires
        keeps_callers_stack(host),
        well_formed(pre),
        !in_minion_jump(pre),
        dispatches(host, depth, pre, message, post),
    ensures
        stack_kept(pre, post),
        !in_minion_jump(post),
    decreases MAX_DEPTH - depth, 0nat, 0nat,
{
    if depth >= MAX_DEPTH {
        let noticed = limit_noted(pre, message);
        if selector_name(pre.mem, message.selector) == "allocWithZone:".spec_bytes() {
            let (after, object) = choose|after: EnvView, object: u32|
                #[trigger] asked(
                    host,
                    depth,
                    HostCall::AllocObject(message.receiver),
                    noticed,
                    after,
                    object,
                ) && post == (EnvView { regs: noticed.regs.update(0, object), ..after });
            assert(stack_kept(noticed, after));
        }
    } else {
        let taken = EnvView { type_info: None, ..pre };
        let class = message_class(taken, message);
        let inner = depth + 1;
        assert(handles(host, inner, taken, message, pre.type_info, post));
        if message.receiver != nil() && class != nil() {
            if message.super2 is Some {
                lemma_delivers_keeps_stack(
                    host,
                    inner,
                    taken,
                    class,
                    message,
                    pre.type_info,
                    post,
                );
            } else {
                let first = class_to_initialize(taken.objects, message.receiver, class);
                let ready = choose|ready: EnvView|
                    #[trigger] passed(ready) && initializes(host, inner, taken, first, ready)
                        && delivers(host, inner, ready, class, message, pre.type_info, post);
                law_stack_arguments_survive_initialize(host, inner, taken, first, ready);
                law_arguments_survive_initialize(host, inner, taken, first, ready);
                lemma_delivers_keeps_stack(
                    host,
                    inner,
                    ready,
                    class,
                    message,
                    pre.type_info,
                    post,
                );
            }
        }
    }
}

proof fn lemma_delivers_keeps_stack(
    host: Host,
    depth: nat,
    pre: EnvView,
    class: Class,
    message: Message,
    type_info: Option<TypeInfo>,
    post: EnvView,
)
    requires
        keeps_callers_stack(host),
        !in_minion_jump(pre),
        delivers(host, depth, pre, class, message, type_info, post),
    ensures
        stack_kept(pre, post),
        !in_minion_jump(post),
{
    let found = lookup_from(pre.objects, class, message.selector, message.super2 is Some);
    if let Lookup::Method { imp, .. } = found {
        law_arguments_and_result_pass_through(host, depth, pre, class, message, type_info, post);
        let handed = signature_checked(pre, message, type_info, imp);
        let answer = choose|answer: u32|
            #[trigger] asked(host, depth, HostCall::Invoke(imp), handed, post, answer);
        assert(stack_kept(handed, post));
    } else {
        law_unanswered_messages_return_zero(host, depth, pre, class, message, type_info, post);
    }
}

/// Initializing classes keeps the arguments on the stack of the message that the
/// classes are initialized for: `+initialize` has no arguments that would go there,
/// and outside of Minion Jump the methods that it reaches are given the stack
/// pointer as it is.
pub proof fn law_stack_arguments_survive_initialize(
    host: Host,
    depth: nat,
    pre: EnvView,
    class: Class,
    post: EnvView,
)
    requires
        keeps_callers_stack(host),
        well_formed(pre),
        !in_minion_jump(pre),
        initializes(host, depth, pre, class, post),
    ensures
        stack_kept(pre, post),
        !in_minion_jump(post),
    decreases MAX_DEPTH - depth, 3nat, height(pre.objects, class),
{
    if class != nil() && !pre.initialized.contains(class.bits) {
        if let Some(superclass) = superclass_of(pre.objects, class) {
            lemma_superclass_lower(pre.objects, class);
            let between = choose|between: EnvView|
                #[trigger] passed(between) && initializes(host, depth, pre, superclass, between)
                    && initializes_own(host, depth, between, class, post);
            law_stack_arguments_survive_initialize(host, depth, pre, superclass, between);
            law_arguments_survive_initialize(host, depth, pre, superclass, between);
            let marked = marking(between, class);
            if !between.initialized.contains(class.bits) {
                if let Some(selector) = initialize_selector(marked, class) {
                    let args = two_words(class.bits, selector.bits);
                    let after = choose|after: EnvView|
                        #[trigger] passed(after) && sends(host, depth, marked, args, after) && post
                            == with_args_of(after, marked);
                    let message = Message {
                        receiver: class,
                        selector,
                        super2: None,
                        tolerate_type_mismatch: true,
                    };
                    let framed = with_frame(marked, args, 0);
                    let called = choose|called: EnvView|
                        #[trigger] passed(called) && dispatches(
                            host,
                            depth,
                            framed,
                            message,
                            called,
                        ) && after == after_call(marked, called);
                    assert(framed.mem == marked.mem);
                    assert(framed.regs[13] == marked.regs[13]);
                    law_messages_keep_the_callers_stack(host, depth, framed, message, called);
                    assert(stack_kept(framed, called));
                }
            }
            assert(stack_kept(between, post));
        }
    }
}

/// A message that the host sends keeps the stack pointer and the return address.
pub proof fn law_calls_keep_the_stack(
    host: Host,
    depth: nat,
    pre: EnvView,
    args: Seq<u32>,
    tolerate_type_mismatch: bool,
    in_memory: Option<nat>,
    post: EnvView,
    result: Seq<u32>,
)
    requires
        well_formed(pre),
        calls(host, depth, pre, args, tolerate_type_mismatch, in_memory, post, result),
    ensures
        well_formed(post),
        keeps_stack(pre, post),
{
    let message = Message {
        receiver: id { bits: args[0] },
        selector: SEL { bits: args[1] },
        super2: None,
        tolerate_type_mismatch,
    };
    let framed = match in_memory {
        None => with_frame(pre, args, 0),
        Some(space) => with_frame(
            pre,
            with_struct_address(frame_space(pre.regs[13], args.len() + 1, space), args),
            space,
        ),
    };
    let after = choose|after: EnvView|
        #[trigger] passed(after) && outcome(host, depth, framed, message, after) && post
            == after_call(pre, after);
    law_messages_keep(host, |a: EnvView, b: EnvView| true, depth, framed, message, after);
}

/// A message to super that the host sends keeps the stack pointer and the return
/// address.
pub proof fn law_super_calls_keep_the_stack(
    host: Host,
    depth: nat,
    pre: EnvView,
    args: Seq<u32>,
    in_memory: Option<nat>,
    post: EnvView,
    result: Seq<u32>,
)
    requires
        well_formed(pre),
        calls_super(host, depth, pre, args, in_memory, post, result),
    ensures
        well_formed(post),
        keeps_stack(pre, post),
{
    let space = match in_memory {
        Some(space) => space,
        None => 0,
    };
    let framed = with_frame(pre, args, space);
    let ptr = SuperPtr { bits: args[0] };
    let selector = SEL { bits: args[1] };
    let after = choose|after: EnvView|
        #[trigger] passed(after) && dispatches_super(host, depth, framed, ptr, selector, after)
            && post == after_call(pre, after);
    let objc_super { receiver, class } = super_at(framed.mem, ptr);
    law_messages_keep(
        host,
        |a: EnvView, b: EnvView| true,
        depth,
        EnvView { regs: framed.regs.update(0, receiver.bits), ..framed },
        Message { receiver, selector, super2: Some(class), tolerate_type_mismatch: false },
        after,
    );
}

/// Every call that is made in the course of a message is logged, behind those that
/// were made before.
pub proof fn law_calls_are_logged(
    host: Host,
    depth: nat,
    pre: EnvView,
    message: Message,
    post: EnvView,
)
    requires
        well_formed(pre),
        dispatches(host, depth, pre, message, post),
    ensures
        pre.calls.is_prefix_of(post.calls),
{
    let kept = |a: EnvView, b: EnvView| a.calls.is_prefix_of(b.calls);
    law_messages_keep(host, kept, depth, pre, message, post);
}

/// Whether `host` never takes back that a class is initialized.
pub open spec fn never_forgets(
    host: Host,
) -> bool {
    forall|depth: nat, call: HostCall, a: EnvView, b: EnvView, answer: u32|
        #[trigger] asked(host, depth, call, a, b, answer) ==> a.initialized.subset_of(b.initialized)
}

/// Classes that are initialized stay so.
pub proof fn law_classes_stay_initialized(
    host: Host,
    depth: nat,
    pre: EnvView,
    message: Message,
    post: EnvView,
)
    requires
        never_forgets(host),
        well_formed(pre),
        dispatches(host, depth, pre, message, post),
    ensures
        pre.initialized.subset_of(post.initialized),
{
    let kept = |a: EnvView, b: EnvView| a.initialized.subset_of(b.initialized);
    law_messages_keep(host, kept, depth, pre, message, post);
}

/// Initializing a class takes back no class that is initialized, and initializes the
/// class. With `law_classes_stay_initialized`, a class that is initialized stays so
/// across all messages and all initializations.
pub proof fn law_initializing_is_for_good(
    host: Host,
    depth: nat,
    pre: EnvView,
    class: Class,
    post: EnvView,
)
    requires
        never_forgets(host),
        well_formed(pre),
        initializes(host, depth, pre, class, post),
    ensures
        well_formed(post),
        pre.initialized.subset_of(post.initialized),
        class != nil() ==> post.initialized.contains(class.bits),
{
    let kept = |a: EnvView, b: EnvView| a.initialized.subset_of(b.initialized);
    lemma_initializes_keeps(host, kept, depth, pre, class, post);
    if class != nil() && !pre.initialized.contains(class.bits) {
        if let Some(superclass) = superclass_of(pre.objects, class) {
            let between = choose|between: EnvView|
                #[trigger] passed(between) && initializes(host, depth, pre, superclass, between)
                    && initializes_own(host, depth, between, class, post);
            lemma_initializes_keeps(host, kept, depth, pre, superclass, between);
            let marked = marking(between, class);
            if !between.initialized.contains(class.bits) {
                if let Some(selector) = initialize_selector(marked, class) {
                    let args = two_words(class.bits, selector.bits);
                    let after = choose|after: EnvView|
                        #[trigger] passed(after) && sends(host, depth, marked, args, after) && post
                            == with_args_of(after, marked);
                    lemma_sends_keeps(host, kept, depth, marked, args, after);
                    assert(marked.initialized.contains(class.bits));
                }
            }
        }
    }
}

/// The class of a message's receiver, or the receiver if that is a class, is
/// initialized before the message reaches its method. So a class is initialized
/// before any message to it, or to an instance of it, is delivered.
pub proof fn law_initialized_before_delivery(
    host: Host,
    depth: nat,
    pre: EnvView,
    message: Message,
    type_info: Option<TypeInfo>,
    post: EnvView,
) -> (ready: EnvView)
    requires
        well_formed(pre),
        handles(host, depth, pre, message, type_info, post),
        message.receiver != nil(),
        message_class(pre, message) != nil(),
        message.super2 is None,
    ensures
        ({
            let class = message_class(pre, message);
            let first = class_to_initialize(pre.objects, message.receiver, class);
            &&& initializes(host, depth, pre, first, ready)
            &&& never_forgets(host) && first != nil() ==> ready.initialized.contains(first.bits)
            &&& same_arguments(pre, ready)
            &&& keeps_callers_stack(host) && !in_minion_jump(pre) ==> stack_kept(pre, ready)
            &&& delivers(host, depth, ready, class, message, type_info, post)
        }),
{
    let class = message_class(pre, message);
    let first = class_to_initialize(pre.objects, message.receiver, class);
    let ready = choose|ready: EnvView|
        #[trigger] passed(ready) && initializes(host, depth, pre, first, ready) && delivers(
            host,
            depth,
            ready,
            class,
            message,
            type_info,
            post,
        );
    if never_forgets(host) {
        law_initializing_is_for_good(host, depth, pre, first, ready);
    }
    law_arguments_survive_initialize(host, depth, pre, first, ready);
    if keeps_callers_stack(host) && !in_minion_jump(pre) {
        law_stack_arguments_survive_initialize(host, depth, pre, first, ready);
    }
    ready
}

/// Superclasses are initialized before their subclasses: when it is a class's
/// turn, all the classes up its chain are initialized, as far as the first that
/// was initialized before.
pub proof fn law_superclasses_first(
    host: Host,
    depth: nat,
    pre: EnvView,
    class: Class,
    post: EnvView,
) -> (between: EnvView)
    requires
        never_forgets(host),
        well_formed(pre),
        initializes(host, depth, pre, class, post),
        class != nil(),
        !pre.initialized.contains(class.bits),
        superclass_of(pre.objects, class) is Some,
    ensures
        initializes_own(host, depth, between, class, post),
        forall|n: nat|
            #![trigger ancestor(pre.objects, class, n)]
            n > 0 && untouched_below(pre, class, n) && ancestor(pre.objects, class, n) is Some
                && ancestor(pre.objects, class, n)->0 != nil() ==> between.initialized.contains(
                (ancestor(pre.objects, class, n)->0).bits,
            ),
    decreases height(pre.objects, class),
{
    let superclass = superclass_of(pre.objects, class)->0;
    let between = choose|between: EnvView|
        #[trigger] passed(between) && initializes(host, depth, pre, superclass, between)
            && initializes_own(host, depth, between, class, post);
    lemma_superclass_lower(pre.objects, class);
    lemma_chain_initialized(host, depth, pre, superclass, between);
    assert forall|n: nat|
        #![trigger ancestor(pre.objects, class, n)]
        n > 0 && untouched_below(pre, class, n) && ancestor(pre.objects, class, n) is Some
            && ancestor(pre.objects, class, n)->0 != nil() implies between.initialized.contains(
        (ancestor(pre.objects, class, n)->0).bits,
    ) by {
        lemma_untouched_above(pre, class, n);
        assert(ancestor(pre.objects, class, n) == ancestor(
            pre.objects,
            superclass,
            (n - 1) as nat,
        ));
    }
    between
}

/// Whether the first `n` classes of the chain from `class` on are not
/// initialized.
pub open spec fn untouched_below(env: EnvView, class: Class, n: nat) -> bool {
    forall|m: nat|
        #![trigger ancestor(env.objects, class, m)]
        m < n && ancestor(env.objects, class, m) is Some ==> !env.initialized.contains(
            (ancestor(env.objects, class, m)->0).bits,
        )
}

proof fn lemma_untouched_above(env: EnvView, class: Class, n: nat)
    requires
        n > 0,
        untouched_below(env, class, n),
        superclass_of(env.objects, class) is Some,
    ensures
        untouched_below(env, superclass_of(env.objects, class)->0, (n - 1) as nat),
{
    let superclass = superclass_of(env.objects, class)->0;
    assert forall|m: nat|
        #![trigger ancestor(env.objects, superclass, m)]
        m < n - 1 && ancestor(env.objects, superclass, m) is Some implies !env.initialized.contains(
        (ancestor(env.objects, superclass, m)->0).bits,
    ) by {
        assert(ancestor(env.objects, class, m + 1) == ancestor(env.objects, superclass, m));
    }
}

/// Initializing a class initializes all classes up its chain, as far as the
/// first that was initialized before.
proof fn lemma_chain_initialized(
    host: Host,
    depth: nat,
    pre: EnvView,
    class: Class,
    post: EnvView,
)
    requires
        never_forgets(host),
        well_formed(pre),
        initializes(host, depth, pre, class, post),
    ensures
        forall|n: nat|
            #![trigger ancestor(pre.objects, class, n)]
            untouched_below(pre, class, n) && ancestor(pre.objects, class, n) is Some && ancestor(
                pre.objects,
                class,
                n,
            )->0 != nil() ==> post.initialized.contains((ancestor(pre.objects, class, n)->0).bits),
    decreases height(pre.objects, class),
{
    law_initializing_is_for_good(host, depth, pre, class, post);
    assert forall|n: nat|
        #![trigger ancestor(pre.objects, class, n)]
        untouched_below(pre, class, n) && ancestor(pre.objects, class, n) is Some && ancestor(
            pre.objects,
            class,
            n,
        )->0 != nil() implies post.initialized.contains((ancestor(pre.objects, class, n)->0).bits) by {
        if n > 0 {
            let superclass = superclass_of(pre.objects, class)->0;
            assert(ancestor(pre.objects, class, 0) == Some(class));
            assert(!pre.initialized.contains(class.bits));
            let between = choose|between: EnvView|
                #[trigger] passed(between) && initializes(host, depth, pre, superclass, between)
                    && initializes_own(host, depth, between, class, post);
            lemma_superclass_lower(pre.objects, class);
            lemma_chain_initialized(host, depth, pre, superclass, between);
            lemma_untouched_above(pre, class, n);
            assert(ancestor(pre.objects, class, n) == ancestor(
                pre.objects,
                superclass,
                (n - 1) as nat,
            ));
            let kept = |a: EnvView, b: EnvView| a.initialized.subset_of(b.initialized);
            lemma_initializes_keeps(host, kept, depth, pre, superclass, between);
            lemma_initializes_own_keeps(host, kept, depth, between, class, post);
        }
    }
}

/// Whether the superclass of every initialized class is initialized.
pub open spec fn superclass_closed(env: EnvView) -> bool {
    forall|class: Class| #[trigger]
        env.initialized.contains(class.bits) ==> superclass_ready(env, class)
}

/// Whether all classes up the chain from `class` on are initialized, `class`
/// among them, as far as the chain goes: to nil, or to what is no class with a
/// superclass.
pub open spec fn chain_initialized(objects: Objects, class: Class, env: EnvView) -> bool {
    forall|n: nat|
        #![trigger ancestor(objects, class, n)]
        ancestor(objects, class, n) matches Some(above) ==> above == nil()
            || env.initialized.contains(above.bits)
}

/// Whether the later of two states has all the initialized classes of the earlier
/// one and the same superclasses, and whether its initialized classes are closed
/// under superclass if those of the earlier one are.
pub open spec fn closure_kept(a: EnvView, b: EnvView) -> bool {
    &&& a.initialized.subset_of(b.initialized)
    &&& superclasses_kept(a.objects, b.objects)
    &&& superclass_closed(a) ==> superclass_closed(b)
}

/// Whether `host` never takes back that a class is initialized, keeps the
/// superclasses of all classes, and marks no class without its superclass.
pub open spec fn keeps_closure(host: Host) -> bool {
    forall|depth: nat, call: HostCall, a: EnvView, b: EnvView, answer: u32|
        well_formed(a) && #[trigger] asked(host, depth, call, a, b, answer) ==> closure_kept(a, b)
}

proof fn lemma_closure_is_kept(host: Host)
    requires
        keeps_closure(host),
    ensures
        is_kept(host, |a: EnvView, b: EnvView| closure_kept(a, b)),
        keeps_classes(|a: EnvView, b: EnvView| closure_kept(a, b)),
{
    let kept = |a: EnvView, b: EnvView| closure_kept(a, b);
    assert(keeps_classes(kept));
    assert forall|a: EnvView, b: EnvView|
        well_formed(a) && own_step(a, b) && (keeps_app(kept) && !in_minion_jump(a) ==> b.game
            == a.game) implies #[trigger] kept(a, b) by {
        if superclass_closed(a) {
            assert forall|class: Class| #[trigger]
                b.initialized.contains(class.bits) implies superclass_ready(b, class) by {
                assert(a.initialized.contains(class.bits));
            }
        }
    }
    assert forall|a: EnvView, class: Class|
        well_formed(a) && (keeps_classes(kept) ==> superclass_ready(a, class)) implies
        #[trigger] kept(a, marking(a, class)) by {
        let b = marking(a, class);
        if superclass_closed(a) {
            assert forall|other: Class| #[trigger]
                b.initialized.contains(other.bits) implies superclass_ready(b, other) by {
                if other != class {
                    assert(a.initialized.contains(other.bits));
                }
            }
        }
    }
}

/// A closed set of initialized classes holds the whole chain of each class in it.
proof fn lemma_closed_chain(env: EnvView, class: Class, n: nat)
    requires
        superclass_closed(env),
        class == nil() || env.initialized.contains(class.bits),
    ensures
        ancestor(env.objects, class, n) matches Some(above) ==> above == nil()
            || env.initialized.contains(above.bits),
    decreases n,
{
    if n > 0 {
        if let Some(superclass) = superclass_of(env.objects, class) {
            assert(superclass_ready(env, class));
            lemma_closed_chain(env, superclass, (n - 1) as nat);
        }
    }
}

/// A chain is the same where superclasses are kept, as far as it goes.
proof fn lemma_chain_kept(a: Objects, b: Objects, class: Class, n: nat)
    requires
        superclasses_kept(a, b),
        ancestor(a, class, n) is Some,
    ensures
        ancestor(b, class, n) == ancestor(a, class, n),
    decreases n,
{
    if n > 0 {
        lemma_chain_kept(a, b, superclass_of(a, class)->0, (n - 1) as nat);
    }
}

/// If the initialized classes are closed under superclass, they stay so: every
/// message keeps that.
pub proof fn law_initialized_classes_stay_closed(
    host: Host,
    depth: nat,
    pre: EnvView,
    message: Message,
    post: EnvView,
)
    requires
        keeps_closure(host),
        well_formed(pre),
        superclass_closed(pre),
        dispatches(host, depth, pre, message, post),
    ensures
        superclass_closed(post),
        pre.initialized.subset_of(post.initialized),
{
    lemma_closure_is_kept(host);
    law_messages_keep(
        host,
        |a: EnvView, b: EnvView| closure_kept(a, b),
        depth,
        pre,
        message,
        post,
    );
}

/// If the initialized classes are closed under superclass, then after a class was
/// initialized the class and all classes up its chain are, and the initialized
/// classes are still closed under superclass.
pub proof fn law_whole_chain_is_initialized(
    host: Host,
    depth: nat,
    pre: EnvView,
    class: Class,
    post: EnvView,
)
    requires
        keeps_closure(host),
        well_formed(pre),
        superclass_closed(pre),
        initializes(host, depth, pre, class, post),
    ensures
        superclass_closed(post),
        pre.initialized.subset_of(post.initialized),
        chain_initialized(pre.objects, class, post),
{
    lemma_closure_is_kept(host);
    lemma_initializes_keeps(
        host,
        |a: EnvView, b: EnvView| closure_kept(a, b),
        depth,
        pre,
        class,
        post,
    );
    assert forall|n: nat|
        #![trigger ancestor(pre.objects, class, n)]
        ancestor(pre.objects, class, n) is Some implies ancestor(pre.objects, class, n)->0 == nil()
        || post.initialized.contains((ancestor(pre.objects, class, n)->0).bits) by {
        lemma_chain_kept(pre.objects, post.objects, class, n);
        lemma_closed_chain(post, class, n);
    }
}

/// The same holds while `+initialize` is being sent to a class: the classes up its
/// chain are initialized before, and the initialized classes are closed under
/// superclass when the class is marked too, which is when it is sent.
pub proof fn law_chain_is_initialized_when_initialize_is_sent(
    host: Host,
    depth: nat,
    pre: EnvView,
    class: Class,
    post: EnvView,
) -> (between: EnvView)
    requires
        keeps_closure(host),
        well_formed(pre),
        superclass_closed(pre),
        initializes(host, depth, pre, class, post),
        class != nil(),
        !pre.initialized.contains(class.bits),
        superclass_of(pre.objects, class) is Some,
    ensures
        initializes_own(host, depth, between, class, post),
        superclass_closed(between),
        chain_initialized(pre.objects, superclass_of(pre.objects, class)->0, between),
        superclass_closed(marking(between, class)),
        chain_initialized(pre.objects, class, marking(between, class)),
{
    let superclass = superclass_of(pre.objects, class)->0;
    let between = choose|between: EnvView|
        #[trigger] passed(between) && initializes(host, depth, pre, superclass, between)
            && initializes_own(host, depth, between, class, post);
    lemma_closure_is_kept(host);
    lemma_initializes_keeps(
        host,
        |a: EnvView, b: EnvView| closure_kept(a, b),
        depth,
        pre,
        superclass,
        between,
    );
    law_whole_chain_is_initialized(host, depth, pre, superclass, between);
    let marked = marking(between, class);
    assert(superclass_ready(between, class));
    assert forall|other: Class| #[trigger]
        marked.initialized.contains(other.bits) implies superclass_ready(marked, other) by {
        if other != class {
            assert(between.initialized.contains(other.bits));
        }
    }
    assert forall|n: nat|
        #![trigger ancestor(pre.objects, class, n)]
        ancestor(pre.objects, class, n) is Some implies ancestor(pre.objects, class, n)->0 == nil()
        || marked.initialized.contains((ancestor(pre.objects, class, n)->0).bits) by {
        if n > 0 {
            assert(ancestor(pre.objects, class, n) == ancestor(
                pre.objects,
                superclass,
                (n - 1) as nat,
            ));
        }
    }
    between
}

/// If the initialized classes are closed under superclass, all classes up the
/// chain of a message's receiver are initialized before the message is delivered.
pub proof fn law_chain_is_initialized_before_delivery(
    host: Host,
    depth: nat,
    pre: EnvView,
    message: Message,
    type_info: Option<TypeInfo>,
    post: EnvView,
) -> (ready: EnvView)
    requires
        keeps_closure(host),
        well_formed(pre),
        superclass_closed(pre),
        handles(host, depth, pre, message, type_info, post),
        message.receiver != nil(),
        message_class(pre, message) != nil(),
        message.super2 is None,
    ensures
        ({
            let class = message_class(pre, message);
            let first = class_to_initialize(pre.objects, message.receiver, class);
            &&& superclass_closed(ready)
            &&& chain_initialized(pre.objects, first, ready)
            &&& delivers(host, depth, ready, class, message, type_info, post)
        }),
{
    let class = message_class(pre, message);
    let first = class_to_initialize(pre.objects, message.receiver, class);
    let ready = law_initialized_before_delivery(host, depth, pre, message, type_info, post);
    law_whole_chain_is_initialized(host, depth, pre, first, ready);
    ready
}

/// Whether `host` leaves the app what it is, and leaves the state of Minion Jump
/// alone in other apps.
pub open spec fn keeps_game(host: Host) -> bool {
    forall|depth: nat, call: HostCall, a: EnvView, b: EnvView, answer: u32|
        well_formed(a) && #[trigger] asked(host, depth, call, a, b, answer) ==> game_kept(a, b)
}

/// Whether the app is the same in two states, and, if it is not Minion Jump, also
/// the state of Minion Jump.
pub open spec fn game_kept(a: EnvView, b: EnvView) -> bool {
    b.bundle_identifier == a.bundle_identifier && (!in_minion_jump(a) ==> b.game == a.game)
}

/// In other apps no message changes the state of Minion Jump: neither the
/// callbacks of buttons nor stages that were selected or unlocked.
pub proof fn law_game_is_left_alone(
    host: Host,
    depth: nat,
    pre: EnvView,
    message: Message,
    post: EnvView,
)
    requires
        keeps_game(host),
        well_formed(pre),
        !in_minion_jump(pre),
        dispatches(host, depth, pre, message, post),
    ensures
        post.game == pre.game,
        !in_minion_jump(post),
{
    let kept = |a: EnvView, b: EnvView| game_kept(a, b);
    assert(keeps_app(kept));
    law_messages_keep(host, kept, depth, pre, message, post);
}

/// A class is initialized once: as soon as it is marked, which is before it is sent
/// `+initialize`, initializing it again changes nothing and calls nothing.
pub proof fn law_initialized_once(
    host: Host,
    depth: nat,
    pre: EnvView,
    class: Class,
    again: EnvView,
)
    requires
        well_formed(pre),
        pre.initialized.contains(class.bits),
        initializes(host, depth, pre, class, again),
    ensures
        again == pre,
{
}

/// Initializing a class a second time changes nothing and calls nothing.
pub proof fn law_initializing_twice(
    host: Host,
    depth: nat,
    pre: EnvView,
    class: Class,
    post: EnvView,
    again: EnvView,
)
    requires
        never_forgets(host),
        well_formed(pre),
        initializes(host, depth, pre, class, post),
        initializes(host, depth, post, class, again),
    ensures
        again == post,
{
    law_initializing_is_for_good(host, depth, pre, class, post);
}

/// A message whose signature is that of the method is not reported; one whose
/// signature is another is, unless the method is guest code.
pub proof fn law_signatures_are_compared(
    env: EnvView,
    message: Message,
    sent: TypeInfo,
    imp: IMP,
)
    ensures
        imp is Guest ==> signature_checked(env, message, Some(sent), imp) == env,
        imp matches IMP::Host(host) ==> {
            let checked = signature_checked(env, message, Some(sent), imp);
            &&& host.type_info.0 == sent.0 ==> checked == env
            &&& host.type_info.0 != sent.0 ==> checked.notices == env.notices.push(
                Notice::TypeMismatch {
                    receiver: message.receiver,
                    selector: message.selector,
                    sent,
                    expected: host.type_info,
                    tolerated: message.tolerate_type_mismatch,
                },
            )
        },
{
}

/// A message is not reported if it is sent with the signature that the method was
/// written with.
pub proof fn law_matching_signatures_are_not_reported<S: MsgSendSignature>(
    env: EnvView,
    message: Message,
    sent: TypeInfo,
    host: HostIMP,
)
    requires
        call_ensures(<S as MsgSendSignature>::type_info, (), sent),
        call_ensures(<S as MsgSendSignature>::type_info, (), host.type_info),
    ensures
        signature_checked(env, message, Some(sent), IMP::Host(host)) == env,
{
    law_signatures_have_one_identity::<S>(sent, host.type_info);
}

/// A message to super notes the signature that an ordinary message with the same
/// arguments and result notes: a method that was written with the one is not
/// reported for the other.
pub proof fn law_super_notes_the_same_signature<S: MsgSendSuperSignature>(
    env: EnvView,
    message: Message,
    sent_to_super: TypeInfo,
    sent: TypeInfo,
    host: HostIMP,
)
    requires
        call_ensures(
            <<S as MsgSendSuperSignature>::WithoutSuper as MsgSendSignature>::type_info,
            (),
            sent_to_super,
        ),
        call_ensures(
            <<S as MsgSendSuperSignature>::WithoutSuper as MsgSendSignature>::type_info,
            (),
            sent,
        ),
        call_ensures(
            <<S as MsgSendSuperSignature>::WithoutSuper as MsgSendSignature>::type_info,
            (),
            host.type_info,
        ),
    ensures
        sent_to_super.0 == sent.0,
        signature_checked(env, message, Some(sent_to_super), IMP::Host(host)) == env,
{
    law_signatures_have_one_identity::<S::WithoutSuper>(sent_to_super, sent);
    law_matching_signatures_are_not_reported::<S::WithoutSuper>(
        env,
        message,
        sent_to_super,
        host,
    );
}

/// The state after a number of messages to receivers without a class.
pub open spec fn nil_isas_noted(env: EnvView, messages: Seq<Message>) -> EnvView
    decreases messages.len(),
{
    if messages.len() == 0 {
        env
    } else {
        nil_isa_noted(nil_isas_noted(env, messages.drop_last()), messages.last())
    }
}

/// Of all the messages to receivers without a class, the first few are reported,
/// then it is reported that no more will be, and then none are.
pub proof fn law_nil_isa_reports_are_limited(env: EnvView, messages: Seq<Message>)
    requires
        env.nil_isa_count == 0,
        messages.len() <= usize::MAX,
    ensures
        nil_isas_noted(env, messages).nil_isa_count == messages.len(),
        nil_isas_noted(env, messages).notices.len() == env.notices.len() + (if messages.len()
            <= NIL_ISA_LOG_LIMIT {
            messages.len() as int
        } else {
            NIL_ISA_LOG_LIMIT + 1
        }),
    decreases messages.len(),
{
    if messages.len() > 0 {
        law_nil_isa_reports_are_limited(env, messages.drop_last());
    }
}

/// When the release animation of a button has run, the button's own callback is
/// fired, and no other: the callback that was given when the button was made.
pub proof fn law_released_button_fires_its_callback(
    host: Host,
    depth: nat,
    env: EnvView,
    game: MinionView,
    button: u32,
    factory: Factory,
    class: Class,
    released: u32,
    post: EnvView,
)
    requires
        factory.target != 0 && factory.selector != 0,
        !game.busy,
        released == button || factory.clears_scene || find_button(
            game.buttons,
            released,
            released,
        ) is None,
        env.game == with_button(game, button, factory),
        releases(host, depth, env, class, id { bits: button }, released, post),
    ensures
        if factory.stage != 0 && c_string(env.mem, factory.selector as int)
            == "selectLVAction:".spec_bytes() {
            selects(host, depth, env, entry(button, factory), released, post)
        } else {
            post.game.pending == Some(
                PendingView {
                    target: id { bits: factory.target },
                    selector: SEL { bits: factory.selector },
                    sender: id { bits: released },
                    callback: c_string(env.mem, factory.selector as int),
                    stage: factory.stage,
                },
            )
        },
{
    law_button_has_its_callback(game, button, factory, released);
}

/// The stage that was selected is the one that the app is told to play.
pub proof fn law_selected_stage_is_played(
    host: Host,
    depth: nat,
    env: EnvView,
    stage: u32,
    class: Class,
    message: Message,
    type_info: Option<TypeInfo>,
    post: EnvView,
)
    requires
        well_formed(env),
        stage != 0,
        in_minion_jump(env),
        asks_for_stage(selector_name(env.mem, message.selector)),
        delivers(
            host,
            depth,
            playing(env, with_selected(env.game, stage)),
            class,
            message,
            type_info,
            post,
        ),
    ensures
        post.regs[0] == stage - 1,
        post.regs[1] == 0,
{
}

/// No stage button of the game is made locked.
pub proof fn law_stage_buttons_are_unlocked(env: EnvView)
    requires
        word(env.mem, env.regs[13]) <= ALL_STAGES,
    ensures
        word(stage_unlocked(env).mem, env.regs[13].wrapping_add(8)) == 0,
        stage_unlocked(env).regs == env.regs,
{
    law_read_after_write(env.mem, env.regs[13].wrapping_add(8), 0);
}

/// Outside of Minion Jump, the method that a message reaches is run in the very
/// state in which the message is delivered, but for the report of a signature that
/// is not the method's: it finds registers, stack and memory as the sender left
/// them, whatever class and selector are called. The state that the method leaves,
/// with what it returns, is the state that the message leaves. The method is run
/// once, and nothing else is.
pub proof fn law_arguments_and_result_pass_through(
    host: Host,
    depth: nat,
    pre: EnvView,
    class: Class,
    message: Message,
    type_info: Option<TypeInfo>,
    post: EnvView,
)
    requires
        !in_minion_jump(pre),
        lookup_from(pre.objects, class, message.selector, message.super2 is Some) is Method,
    ensures
        lookup_from(
            pre.objects,
            class,
            message.selector,
            message.super2 is Some,
        ) matches Lookup::Method { imp, .. } && {
            let handed = signature_checked(pre, message, type_info, imp);
            &&& handed.regs == pre.regs && handed.mem == pre.mem
            &&& delivers(host, depth, pre, class, message, type_info, post) <==> exists|answer: u32|
                #[trigger] asked(host, depth, HostCall::Invoke(imp), handed, post, answer)
            &&& delivers(host, depth, pre, class, message, type_info, post) ==> post.calls
                == pre.calls.push(HostCall::Invoke(imp))
        },
{
    let found = lookup_from(pre.objects, class, message.selector, message.super2 is Some);
    if let Lookup::Method { imp, .. } = found {
        let handed = signature_checked(pre, message, type_info, imp);
        if exists|answer: u32|
            #[trigger] asked(host, depth, HostCall::Invoke(imp), handed, post, answer) {
            let answer = choose|answer: u32|
                #[trigger] asked(host, depth, HostCall::Invoke(imp), handed, post, answer);
            assert(finishes(host, depth, post, pre, class, message, post));
        }
    }
}

/// A message for which there is no method returns zero, as one to nil does, and
/// does nothing else but to be reported.
pub proof fn law_unanswered_messages_return_zero(
    host: Host,
    depth: nat,
    pre: EnvView,
    class: Class,
    message: Message,
    type_info: Option<TypeInfo>,
    post: EnvView,
)
    requires
        delivers(host, depth, pre, class, message, type_info, post),
        !in_minion_jump(pre),
        !(lookup_from(
            pre.objects,
            class,
            message.selector,
            message.super2 is Some,
        ) is Method),
    ensures
        post == returning(EnvView { notices: post.notices, ..pre }, 0, 0),
        post.notices.len() <= pre.notices.len() + 1,
        pre.notices.is_prefix_of(post.notices),
{
}

/// A message to super does not initialize any class: the class that it is sent
/// from is initialized already.
pub proof fn law_super_does_not_initialize(
    host: Host,
    depth: nat,
    pre: EnvView,
    message: Message,
    type_info: Option<TypeInfo>,
    post: EnvView,
)
    requires
        handles(host, depth, pre, message, type_info, post),
        message.receiver != nil(),
        message.super2 is Some && message.super2 != Some(nil()),
    ensures
        delivers(host, depth, pre, message.super2->0, message, type_info, post),
{
}

/// A method finds the arguments that the host sends it: the first four words in
/// registers, and the others on the stack. Behind those is the space for the
/// result, which holds zeros.
pub proof fn law_arguments_are_in_place(env: EnvView, args: Seq<u32>, space: nat)
    requires
        frame_bytes(args.len(), space) <= env.regs[13],
    ensures
        ({
            let called = with_frame(env, args, space);
            &&& forall|i: int| 0 <= i < 4 && i < args.len() ==> #[trigger] called.regs[i] == args[i]
            &&& words(called.mem, called.regs[13], frame_words(args, space).len()) == frame_words(
                args,
                space,
            )
        }),
{
    let sp = frame_sp(env.regs[13], frame_bytes(args.len(), space));
    law_words_are_read_back(env.mem, sp, frame_words(args, space));
}

/// A message to super that the host sends reaches the receiver that it is sent
/// to, and is looked up from the class that it is sent from: arguments that go to
/// the stack do not touch the two.
pub proof fn law_super_reaches_its_receiver(
    env: EnvView,
    value: objc_super,
    args: Seq<u32>,
    space: nat,
)
    requires
        well_formed(env),
        8 + frame_bytes(args.len(), space) <= env.regs[13],
    ensures
        super_at(
            with_frame(with_pushed_super(env, value), args, space).mem,
            pushed_super_ptr(env),
        ) == value,
{
    let ptr = pushed_super_ptr(env).bits;
    let pushed = with_pushed_super(env, value);
    let sp = frame_sp(ptr, frame_bytes(args.len(), space));
    let frame = frame_words(args, space);
    let receiver_written = with_word(env.mem, ptr, value.receiver.bits);
    law_read_after_write(env.mem, ptr, value.receiver.bits);
    law_read_after_write(receiver_written, ptr.wrapping_add(4), value.class.bits);
    assert(ptr.wrapping_sub(ptr.wrapping_add(4)) == u32::MAX - 3);
    assert(word(pushed.mem, ptr) == value.receiver.bits);
    law_other_words_are_kept(pushed.mem, sp, frame, ptr);
    law_other_words_are_kept(pushed.mem, sp, frame, ptr.wrapping_add(4));
}

} // verus!
