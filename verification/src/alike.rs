//! What does not matter to messages.
//!
//! Two states may differ in what methods do not look at: what has been noticed,
//! the signature that is to be checked, and, outside of Minion Jump, the state of
//! that game. Messages that are sent in two such states do the same.

use vstd::prelude::*;
use vstd::string::*;

use crate::abi::{after_call, frame_space, with_frame, GuestRet};
use crate::classes::{height, lemma_superclass_lower, lookup_from, superclass_of, Lookup};
use crate::environment::{
    asked, handed_out, marking, minion_noticing, noticing, playing, returning, selector_named,
    taken_back, well_formed, with_args_of, EnvView, Host, HostCall, Notice, MAX_DEPTH,
};
use crate::laws::{keeps_game, law_game_is_left_alone};
use crate::mem::{c_string, selector_name, words};
use crate::messages::{lemma_selects, msg_sends};
use crate::minion_jump::{find_button, Button, MinionNotice, MinionView};
use crate::semantics::{
    arranged, asks_for_stage, button_noted, callback_queued, calls, class_to_initialize, delivers,
    dispatches, factory, finishes, handles, in_minion_jump, initialize_selector, initializes,
    initializes_own, limit_noted, message_class, nil_isa_noted, outcome, passed, registers,
    releases, releases_button, selection_begun, selection_ended, selection_made, selects, sends,
    signature_checked, three_words, two_words, with_struct_address, Message,
};
use crate::signature::MessageArgs;
use crate::types::{id, nil, Class, TypeInfo, IMP, SEL};

verus! {

/// What two states may differ in.
pub struct Unseen {
    /// What has been noticed.
    pub notices: bool,
    /// The signature of the message that is about to be sent.
    pub type_info: bool,
    /// The state of Minion Jump, in other apps.
    pub game: bool,
}

/// Whether two states differ in nothing but what is unseen.
pub open spec fn alike(unseen: Unseen, a: EnvView, b: EnvView) -> bool {
    &&& b == (EnvView { notices: b.notices, type_info: b.type_info, game: b.game, ..a })
    &&& unseen.notices || b.notices == a.notices
    &&& unseen.type_info || b.type_info == a.type_info
    &&& (unseen.game && !in_minion_jump(a)) || b.game == a.game
}

/// Whether two messages differ in nothing but how a signature that is not the
/// method's is reported, which is seen only in what has been noticed.
pub open spec fn messages_alike(unseen: Unseen, a: Message, b: Message) -> bool {
    &&& b == (Message { tolerate_type_mismatch: b.tolerate_type_mismatch, ..a })
    &&& unseen.notices || b == a
}

/// Whether methods do not look at what is unseen: in two states that differ in
/// nothing else, they may do the same. Where the state of Minion Jump is unseen,
/// methods also leave the app what it is.
pub open spec fn overlooks(unseen: Unseen, host: Host) -> bool {
    &&& forall|depth: nat, imp: IMP, a: EnvView, b: EnvView, answer: u32, c: EnvView|
        #[trigger] asked(host, depth, HostCall::Invoke(imp), a, b, answer) && #[trigger] alike(
            unseen,
            a,
            c,
        ) ==> exists|d: EnvView|
            asked(host, depth, HostCall::Invoke(imp), c, d, answer) && #[trigger] alike(
                unseen,
                b,
                d,
            )
    &&& unseen.game ==> forall|depth: nat, imp: IMP, a: EnvView, b: EnvView, answer: u32|
        #[trigger] asked(host, depth, HostCall::Invoke(imp), a, b, answer) ==> b.bundle_identifier
            == a.bundle_identifier
    // A signature is seen in the reports of those that do not match.
    &&& unseen.type_info ==> unseen.notices
}

/// A method that is run in a state that is alike.
proof fn lemma_method_alike(
    unseen: Unseen,
    host: Host,
    depth: nat,
    imp: IMP,
    a: EnvView,
    b: EnvView,
    answer: u32,
    c: EnvView,
) -> (d: EnvView)
    requires
        overlooks(unseen, host),
        asked(host, depth, HostCall::Invoke(imp), a, b, answer),
        alike(unseen, a, c),
    ensures
        asked(host, depth, HostCall::Invoke(imp), c, d, answer),
        alike(unseen, b, d),
        well_formed(b),
        unseen.game ==> b.bundle_identifier == a.bundle_identifier,
{
    choose|d: EnvView|
        asked(host, depth, HostCall::Invoke(imp), c, d, answer) && #[trigger] alike(unseen, b, d)
}

/// Any other call, for which only memory and the tables are handed out.
proof fn lemma_tables_alike(
    unseen: Unseen,
    host: Host,
    depth: nat,
    call: HostCall,
    a: EnvView,
    b: EnvView,
    answer: u32,
    c: EnvView,
) -> (d: EnvView)
    requires
        !(call is Invoke),
        well_formed(a),
        asked(host, depth, call, a, b, answer),
        alike(unseen, a, c),
    ensures
        asked(host, depth, call, c, d, answer),
        alike(unseen, b, d),
        well_formed(b),
        b.regs == a.regs,
{
    let after = choose|after: EnvView|
        well_formed(after) && #[trigger] host(depth, call, handed_out(call, a), after, answer) && b
            == taken_back(call, a, after);
    assert(handed_out(call, c) =~= handed_out(call, a));
    let d = taken_back(call, c, after);
    assert(asked(host, depth, call, c, d, answer));
    d
}

/// Messages that differ in nothing but what is unseen, sent in states that differ
/// in nothing else, do the same: whatever state the one may leave, the other may
/// leave one that differs in nothing else.
pub proof fn law_unseen_does_not_matter(
    unseen: Unseen,
    host: Host,
    depth: nat,
    pre: EnvView,
    message: Message,
    post: EnvView,
    other: EnvView,
    other_message: Message,
) -> (left: EnvView)
    requires
        overlooks(unseen, host),
        well_formed(pre),
        dispatches(host, depth, pre, message, post),
        alike(unseen, pre, other),
        messages_alike(unseen, message, other_message),
    ensures
        dispatches(host, depth, other, other_message, left),
        alike(unseen, post, left),
        well_formed(post),
    decreases MAX_DEPTH - depth, 0nat, 0nat,
{
    if depth >= MAX_DEPTH {
        let noticed = limit_noted(pre, message);
        let other_noticed = limit_noted(other, other_message);
        assert(alike(unseen, noticed, other_noticed));
        if selector_name(pre.mem, message.selector) == "allocWithZone:".spec_bytes() {
            let call = HostCall::AllocObject(message.receiver);
            let (after, object) = choose|after: EnvView, object: u32|
                #[trigger] asked(
                    host,
                    depth,
                    HostCall::AllocObject(message.receiver),
                    noticed,
                    after,
                    object,
                ) && post == (EnvView { regs: noticed.regs.update(0, object), ..after });
            let other_after = lemma_tables_alike(
                unseen,
                host,
                depth,
                call,
                noticed,
                after,
                object,
                other_noticed,
            );
            EnvView { regs: other_noticed.regs.update(0, object), ..other_after }
        } else {
            returning(other_noticed, 0, 0)
        }
    } else {
        let taken = EnvView { type_info: None, ..pre };
        let other_taken = EnvView { type_info: None, ..other };
        assert(alike(unseen, taken, other_taken));
        lemma_handles_alike(
            unseen,
            host,
            depth + 1,
            taken,
            message,
            pre.type_info,
            post,
            other_taken,
            other_message,
            other.type_info,
        )
    }
}

proof fn lemma_handles_alike(
    unseen: Unseen,
    host: Host,
    depth: nat,
    pre: EnvView,
    message: Message,
    type_info: Option<TypeInfo>,
    post: EnvView,
    other: EnvView,
    other_message: Message,
    other_type_info: Option<TypeInfo>,
) -> (left: EnvView)
    requires
        overlooks(unseen, host),
        well_formed(pre),
        handles(host, depth, pre, message, type_info, post),
        alike(unseen, pre, other),
        messages_alike(unseen, message, other_message),
        unseen.type_info || other_type_info == type_info,
    ensures
        handles(host, depth, other, other_message, other_type_info, left),
        alike(unseen, post, left),
        well_formed(post),
    decreases MAX_DEPTH - depth, 6nat, 0nat,
{
    let class = message_class(pre, message);
    if message.receiver == nil() {
        returning(other, 0, 0)
    } else if class == nil() {
        returning(nil_isa_noted(other, other_message), 0, 0)
    } else if message.super2 is Some {
        lemma_delivers_alike(
            unseen,
            host,
            depth,
            pre,
            class,
            message,
            type_info,
            post,
            other,
            other_message,
            other_type_info,
        )
    } else {
        let first = class_to_initialize(pre.objects, message.receiver, class);
        let ready = choose|ready: EnvView|
            #[trigger] passed(ready) && initializes(host, depth, pre, first, ready) && delivers(
                host,
                depth,
                ready,
                class,
                message,
                type_info,
                post,
            );
        let other_ready = lemma_initializes_alike(unseen, host, depth, pre, first, ready, other);
        let left = lemma_delivers_alike(
            unseen,
            host,
            depth,
            ready,
            class,
            message,
            type_info,
            post,
            other_ready,
            other_message,
            other_type_info,
        );
        assert(passed(other_ready));
        left
    }
}

proof fn lemma_delivers_alike(
    unseen: Unseen,
    host: Host,
    depth: nat,
    pre: EnvView,
    class: Class,
    message: Message,
    type_info: Option<TypeInfo>,
    post: EnvView,
    other: EnvView,
    other_message: Message,
    other_type_info: Option<TypeInfo>,
) -> (left: EnvView)
    requires
        overlooks(unseen, host),
        well_formed(pre),
        delivers(host, depth, pre, class, message, type_info, post),
        alike(unseen, pre, other),
        messages_alike(unseen, message, other_message),
        unseen.type_info || other_type_info == type_info,
    ensures
        delivers(host, depth, other, class, other_message, other_type_info, left),
        alike(unseen, post, left),
        well_formed(post),
    decreases MAX_DEPTH - depth, 5nat, 0nat,
{
    let env = arranged(pre, class, message.selector);
    let other_env = arranged(other, class, message.selector);
    assert(alike(unseen, env, other_env));
    assert(well_formed(env));
    let to_super = message.super2 is Some;
    let found = lookup_from(env.objects, class, message.selector, to_super);
    if in_minion_jump(pre) && asks_for_stage(selector_name(pre.mem, message.selector)) {
        let index = other_env.game.selected_stage_index;
        returning(
            minion_noticing(
                other_env,
                MinionNotice::StageAsked { selector: message.selector, index },
            ),
            index,
            0,
        )
    } else {
        match found {
            Lookup::Method { imp, .. } => {
                let checked = signature_checked(env, message, type_info, imp);
                let other_checked = signature_checked(
                    other_env,
                    other_message,
                    other_type_info,
                    imp,
                );
                assert(alike(unseen, checked, other_checked));
                let (returned, answer) = choose|returned: EnvView, answer: u32|
                    #[trigger] asked(
                        host,
                        depth,
                        HostCall::Invoke(imp),
                        checked,
                        returned,
                        answer,
                    ) && finishes(host, depth, returned, pre, class, message, post);
                let other_returned = lemma_method_alike(
                    unseen,
                    host,
                    depth,
                    imp,
                    checked,
                    returned,
                    answer,
                    other_checked,
                );
                let left = lemma_finishes_alike(
                    unseen,
                    host,
                    depth,
                    returned,
                    pre,
                    class,
                    message,
                    post,
                    other_returned,
                    other,
                    other_message,
                );
                assert(delivers(host, depth, other, class, other_message, other_type_info, left));
                left
            },
            Lookup::NotFound => returning(
                noticing(
                    other_env,
                    Notice::DoesNotRespond {
                        receiver: message.receiver,
                        selector: message.selector,
                        class,
                        to_super,
                    },
                ),
                0,
                0,
            ),
            Lookup::NoHostObject { .. } => returning(other_env, 0, 0),
            Lookup::Unimplemented { class: at } => returning(
                noticing(
                    other_env,
                    Notice::UnimplementedClass { class: at, selector: message.selector },
                ),
                0,
                0,
            ),
            Lookup::Faked { class: at } => returning(
                noticing(other_env, Notice::FakedClass { class: at, selector: message.selector }),
                0,
                0,
            ),
            Lookup::NoClass { class: at } => returning(
                noticing(
                    other_env,
                    Notice::UnexpectedHostObject {
                        class: at,
                        receiver: message.receiver,
                        receiver_class: class,
                    },
                ),
                0,
                0,
            ),
        }
    }
}

proof fn lemma_finishes_alike(
    unseen: Unseen,
    host: Host,
    depth: nat,
    pre: EnvView,
    sent: EnvView,
    class: Class,
    message: Message,
    post: EnvView,
    other: EnvView,
    other_sent: EnvView,
    other_message: Message,
) -> (left: EnvView)
    requires
        overlooks(unseen, host),
        well_formed(pre),
        finishes(host, depth, pre, sent, class, message, post),
        unseen.game ==> pre.bundle_identifier == sent.bundle_identifier,
        alike(unseen, pre, other),
        alike(unseen, sent, other_sent),
        messages_alike(unseen, message, other_message),
    ensures
        finishes(host, depth, other, other_sent, class, other_message, left),
        alike(unseen, post, left),
        well_formed(post),
    decreases MAX_DEPTH - depth, 4nat, 0nat,
{
    let made = factory(sent, class, message.selector);
    assert(factory(other_sent, class, message.selector) == made);
    let noted = button_noted(pre, made);
    let other_noted = button_noted(other, made);
    assert(made is Some || releases_button(sent, class, message.selector) ==> in_minion_jump(sent));
    assert(alike(unseen, noted, other_noted));
    if releases_button(sent, class, message.selector) {
        lemma_releases_alike(
            unseen,
            host,
            depth,
            noted,
            class,
            message.receiver,
            sent.regs[2],
            post,
            other_noted,
        )
    } else {
        other_noted
    }
}

proof fn lemma_releases_alike(
    unseen: Unseen,
    host: Host,
    depth: nat,
    pre: EnvView,
    class: Class,
    receiver: id,
    released: u32,
    post: EnvView,
    other: EnvView,
) -> (left: EnvView)
    requires
        overlooks(unseen, host),
        well_formed(pre),
        releases(host, depth, pre, class, receiver, released, post),
        alike(unseen, pre, other),
        other.game == pre.game,
    ensures
        releases(host, depth, other, class, receiver, released, left),
        alike(unseen, post, left),
        well_formed(post),
    decreases MAX_DEPTH - depth, 3nat, 0nat,
{
    match find_button(pre.game.buttons, receiver.bits, released) {
        None => minion_noticing(other, MinionNotice::NoCallback { class, receiver, released }),
        Some(button) => {
            if button.target == 0 || button.selector == 0 || pre.game.busy {
                other
            } else if button.stage != 0 && c_string(pre.mem, button.selector as int)
                == "selectLVAction:".spec_bytes() {
                lemma_selects_alike(unseen, host, depth, pre, button, released, post, other)
            } else {
                callback_queued(other, button, released)
            }
        },
    }
}

proof fn lemma_registers_alike(
    unseen: Unseen,
    host: Host,
    depth: nat,
    pre: EnvView,
    name: &'static str,
    post: EnvView,
    selector: u32,
    other: EnvView,
) -> (left: EnvView)
    requires
        well_formed(pre),
        registers(host, depth, pre, name, post, selector),
        alike(unseen, pre, other),
    ensures
        registers(host, depth, other, name, left, selector),
        alike(unseen, post, left),
        well_formed(post),
{
    if selector_named(pre.selectors, name@) is Some {
        other
    } else {
        let call = HostCall::RegisterSelector(name);
        lemma_tables_alike(unseen, host, depth, call, pre, post, selector, other)
    }
}

proof fn lemma_selects_alike(
    unseen: Unseen,
    host: Host,
    depth: nat,
    pre: EnvView,
    button: Button,
    released: u32,
    post: EnvView,
    other: EnvView,
) -> (left: EnvView)
    requires
        overlooks(unseen, host),
        well_formed(pre),
        selects(host, depth, pre, button, released, post),
        alike(unseen, pre, other),
    ensures
        selects(host, depth, other, button, released, left),
        alike(unseen, post, left),
        well_formed(post),
    decreases MAX_DEPTH - depth, 2nat, 0nat,
{
    let begun = selection_begun(pre, button.stage);
    let other_begun = selection_begun(other, button.stage);
    let tag = (button.stage - 1) as u32;
    let (ready, set_tag, first, second, done) =
        choose|ready: EnvView, set_tag: u32, first: EnvView, second: EnvView, done: EnvView|
        {
            &&& #[trigger] registers(host, depth, begun, "setTag:", ready, set_tag)
            &&& #[trigger] passed(first)
            &&& #[trigger] passed(second)
            &&& #[trigger] passed(done)
            &&& sends(host, depth, ready, three_words(released, set_tag, tag), first)
            &&& if button.button == released {
                second == first
            } else {
                sends(host, depth, first, three_words(button.button, set_tag, tag), second)
            }
            &&& sends(
                host,
                depth,
                selection_made(second, begun, button, released),
                three_words(button.target, button.selector, button.button),
                done,
            )
            &&& post == selection_ended(done, begun)
        };
    assert(alike(unseen, begun, other_begun));
    let other_ready = lemma_registers_alike(
        unseen,
        host,
        depth,
        begun,
        "setTag:",
        ready,
        set_tag,
        other_begun,
    );
    let other_first = lemma_sends_alike(
        unseen,
        host,
        depth,
        ready,
        three_words(released, set_tag, tag),
        first,
        other_ready,
    );
    let other_second = if button.button == released {
        other_first
    } else {
        lemma_sends_alike(
            unseen,
            host,
            depth,
            first,
            three_words(button.button, set_tag, tag),
            second,
            other_first,
        )
    };
    let selected = selection_made(second, begun, button, released);
    let other_selected = selection_made(other_second, other_begun, button, released);
    assert(alike(unseen, selected, other_selected));
    let other_done = lemma_sends_alike(
        unseen,
        host,
        depth,
        selected,
        three_words(button.target, button.selector, button.button),
        done,
        other_selected,
    );
    lemma_selects(
        host,
        depth,
        other,
        button,
        released,
        other_ready,
        set_tag,
        other_first,
        other_second,
        other_done,
    );
    let left = selection_ended(other_done, other_begun);
    assert(alike(unseen, post, left));
    left
}

proof fn lemma_sends_alike(
    unseen: Unseen,
    host: Host,
    depth: nat,
    pre: EnvView,
    args: Seq<u32>,
    post: EnvView,
    other: EnvView,
) -> (left: EnvView)
    requires
        overlooks(unseen, host),
        well_formed(pre),
        sends(host, depth, pre, args, post),
        alike(unseen, pre, other),
    ensures
        sends(host, depth, other, args, left),
        alike(unseen, post, left),
        well_formed(post),
    decreases MAX_DEPTH - depth, 1nat, 0nat,
{
    let message = Message {
        receiver: id { bits: args[0] },
        selector: SEL { bits: args[1] },
        super2: None,
        tolerate_type_mismatch: true,
    };
    let framed = with_frame(pre, args, 0);
    let other_framed = with_frame(other, args, 0);
    let after = choose|after: EnvView|
        #[trigger] passed(after) && dispatches(host, depth, framed, message, after) && post
            == after_call(pre, after);
    assert(other_framed.regs =~= framed.regs);
    assert(alike(unseen, framed, other_framed));
    let other_after = law_unseen_does_not_matter(
        unseen,
        host,
        depth,
        framed,
        message,
        after,
        other_framed,
        message,
    );
    assert(passed(other_after));
    after_call(other, other_after)
}

proof fn lemma_initializes_own_alike(
    unseen: Unseen,
    host: Host,
    depth: nat,
    pre: EnvView,
    class: Class,
    post: EnvView,
    other: EnvView,
) -> (left: EnvView)
    requires
        overlooks(unseen, host),
        well_formed(pre),
        initializes_own(host, depth, pre, class, post),
        alike(unseen, pre, other),
    ensures
        initializes_own(host, depth, other, class, left),
        alike(unseen, post, left),
        well_formed(post),
    decreases MAX_DEPTH - depth, 2nat, 0nat,
{
    let marked = marking(pre, class);
    let other_marked = marking(other, class);
    assert(alike(unseen, marked, other_marked));
    if pre.initialized.contains(class.bits) {
        other
    } else {
        match initialize_selector(marked, class) {
            None => other_marked,
            Some(selector) => {
                let args = two_words(class.bits, selector.bits);
                let after = choose|after: EnvView|
                    #[trigger] passed(after) && sends(host, depth, marked, args, after) && post
                        == with_args_of(after, marked);
                let other_after = lemma_sends_alike(
                    unseen,
                    host,
                    depth,
                    marked,
                    args,
                    after,
                    other_marked,
                );
                assert(passed(other_after));
                with_args_of(other_after, other_marked)
            },
        }
    }
}

proof fn lemma_initializes_alike(
    unseen: Unseen,
    host: Host,
    depth: nat,
    pre: EnvView,
    class: Class,
    post: EnvView,
    other: EnvView,
) -> (left: EnvView)
    requires
        overlooks(unseen, host),
        well_formed(pre),
        initializes(host, depth, pre, class, post),
        alike(unseen, pre, other),
    ensures
        initializes(host, depth, other, class, left),
        alike(unseen, post, left),
        well_formed(post),
    decreases MAX_DEPTH - depth, 3nat, height(pre.objects, class),
{
    if class == nil() || pre.initialized.contains(class.bits) {
        other
    } else {
        match superclass_of(pre.objects, class) {
            None => marking(other, class),
            Some(superclass) => {
                lemma_superclass_lower(pre.objects, class);
                let between = choose|between: EnvView|
                    #[trigger] passed(between) && initializes(
                        host,
                        depth,
                        pre,
                        superclass,
                        between,
                    ) && initializes_own(host, depth, between, class, post);
                let other_between = lemma_initializes_alike(
                    unseen,
                    host,
                    depth,
                    pre,
                    superclass,
                    between,
                    other,
                );
                let left = lemma_initializes_own_alike(
                    unseen,
                    host,
                    depth,
                    between,
                    class,
                    post,
                    other_between,
                );
                assert(passed(other_between));
                left
            },
        }
    }
}

/// Sending from the host, with or without a signature to be checked, in states that
/// are alike gives the same result.
proof fn lemma_calls_alike(
    unseen: Unseen,
    host: Host,
    depth: nat,
    pre: EnvView,
    args: Seq<u32>,
    tolerate_type_mismatch: bool,
    in_memory: Option<nat>,
    post: EnvView,
    result: Seq<u32>,
    other: EnvView,
    other_tolerates: bool,
) -> (left: EnvView)
    requires
        overlooks(unseen, host),
        well_formed(pre),
        calls(host, depth, pre, args, tolerate_type_mismatch, in_memory, post, result),
        alike(unseen, pre, other),
        unseen.notices || other_tolerates == tolerate_type_mismatch,
    ensures
        calls(host, depth, other, args, other_tolerates, in_memory, left, result),
        alike(unseen, post, left),
{
    let message = Message {
        receiver: id { bits: args[0] },
        selector: SEL { bits: args[1] },
        super2: None,
        tolerate_type_mismatch,
    };
    let other_message = Message { tolerate_type_mismatch: other_tolerates, ..message };
    let (all, space) = match in_memory {
        None => (args, 0nat),
        Some(space) => {
            let at = frame_space(pre.regs[13], args.len() + 1, space);
            (with_struct_address(at, args), space)
        },
    };
    let framed = with_frame(pre, all, space);
    let other_framed = with_frame(other, all, space);
    let after = choose|after: EnvView|
        {
            &&& #[trigger] passed(after)
            &&& outcome(host, depth, framed, message, after)
            &&& post == after_call(pre, after)
            &&& result == match in_memory {
                None => after.regs.take(2),
                Some(_) => words(
                    after.mem,
                    frame_space(pre.regs[13], args.len() + 1, space),
                    space,
                ),
            }
        };
    assert(other_framed.regs =~= framed.regs);
    assert(alike(unseen, framed, other_framed));
    let other_after = law_unseen_does_not_matter(
        unseen,
        host,
        depth,
        framed,
        message,
        after,
        other_framed,
        other_message,
    );
    assert(outcome(host, depth, other_framed, other_message, other_after));
    assert(passed(other_after));
    after_call(other, other_after)
}

/// Whether methods do not look at what has been noticed.
pub open spec fn overlooks_notices(host: Host) -> bool {
    overlooks(Unseen { notices: true, type_info: false, game: false }, host)
}

/// Whether methods look neither at what has been noticed nor at the signature that
/// is to be checked.
pub open spec fn overlooks_signatures(host: Host) -> bool {
    overlooks(Unseen { notices: true, type_info: true, game: false }, host)
}

/// Whether methods do not look at the state of Minion Jump in other apps.
pub open spec fn overlooks_game(host: Host) -> bool {
    overlooks(Unseen { notices: false, type_info: false, game: true }, host)
}

/// The variants of `objc_msgSend` that tolerate a mismatch of signatures and those
/// that do not dispatch alike: whatever state the one may leave, the other may
/// leave too, but for what is noticed. That holds whichever of them is the one,
/// and of the variants for methods that return a struct.
pub proof fn law_tolerance_only_changes_reports(
    host: Host,
    depth: nat,
    pre: EnvView,
    message: Message,
    post: EnvView,
    tolerated: bool,
) -> (left: EnvView)
    requires
        overlooks_notices(host),
        well_formed(pre),
        outcome(host, depth, pre, message, post),
    ensures
        outcome(
            host,
            depth,
            pre,
            (Message { tolerate_type_mismatch: tolerated, ..message }),
            left,
        ),
        left == (EnvView { notices: left.notices, ..post }),
{
    let unseen = Unseen { notices: true, type_info: false, game: false };
    let other = Message { tolerate_type_mismatch: tolerated, ..message };
    assert(alike(unseen, pre, pre));
    law_unseen_does_not_matter(unseen, host, depth, pre, message, post, pre, other)
}

/// `msg_send_no_type_checking` does what `msg_send` does: whatever value the latter
/// may return and state it may leave, the former may return and leave too, but for
/// what is noticed and the signature that is still to be checked.
pub proof fn law_checking_only_changes_reports<R: GuestRet, P: MessageArgs>(
    host: Host,
    depth: nat,
    pre: EnvView,
    type_info: TypeInfo,
    args: P,
    post: EnvView,
    value: R,
) -> (left: EnvView)
    requires
        overlooks_signatures(host),
        well_formed(pre),
        msg_sends(host, depth, pre, type_info, args, post, value),
    ensures
        exists|result: Seq<u32>|
            #[trigger] calls(
                host,
                depth,
                pre,
                args.words(),
                true,
                R::words_in_memory(),
                left,
                result,
            ) && value == R::of_words(result),
        left == (EnvView { notices: left.notices, type_info: left.type_info, ..post }),
{
    let unseen = Unseen { notices: true, type_info: true, game: false };
    let noted = EnvView { type_info: Some(type_info), ..pre };
    let result = choose|result: Seq<u32>|
        #[trigger] calls(
            host,
            depth,
            noted,
            args.words(),
            false,
            R::words_in_memory(),
            post,
            result,
        ) && value == R::of_words(result);
    lemma_calls_alike(
        unseen,
        host,
        depth,
        noted,
        args.words(),
        false,
        R::words_in_memory(),
        post,
        result,
        pre,
        true,
    )
}

/// `msg_send` does what `msg_send_no_type_checking` does, but for what is noticed
/// and the signature that is still to be checked.
pub proof fn law_not_checking_only_changes_reports<R: GuestRet, P: MessageArgs>(
    host: Host,
    depth: nat,
    pre: EnvView,
    type_info: TypeInfo,
    args: P,
    post: EnvView,
    result: Seq<u32>,
) -> (left: EnvView)
    requires
        overlooks_signatures(host),
        well_formed(pre),
        calls(host, depth, pre, args.words(), true, R::words_in_memory(), post, result),
    ensures
        msg_sends(host, depth, pre, type_info, args, left, R::of_words(result)),
        left == (EnvView { notices: left.notices, type_info: left.type_info, ..post }),
{
    let unseen = Unseen { notices: true, type_info: true, game: false };
    let noted = EnvView { type_info: Some(type_info), ..pre };
    lemma_calls_alike(
        unseen,
        host,
        depth,
        pre,
        args.words(),
        true,
        R::words_in_memory(),
        post,
        result,
        noted,
        false,
    )
}

/// In other apps the state of Minion Jump does not matter: a message does the same
/// whatever it is, and leaves it as it is.
pub proof fn law_game_does_not_matter(
    host: Host,
    depth: nat,
    pre: EnvView,
    message: Message,
    post: EnvView,
    game: MinionView,
)
    requires
        overlooks_game(host),
        keeps_game(host),
        well_formed(pre),
        !in_minion_jump(pre),
        dispatches(host, depth, pre, message, post),
    ensures
        dispatches(host, depth, playing(pre, game), message, playing(post, game)),
        post.game == pre.game,
{
    let unseen = Unseen { notices: false, type_info: false, game: true };
    let other = playing(pre, game);
    assert(alike(unseen, pre, other));
    let left = law_unseen_does_not_matter(
        unseen,
        host,
        depth,
        pre,
        message,
        post,
        other,
        message,
    );
    law_game_is_left_alone(host, depth, pre, message, post);
    law_game_is_left_alone(host, depth, other, message, left);
    assert(left =~= playing(post, game));
}

} // verus!
