//! What dispatching a message comes to, over the tables as they are.
//!
//! These laws follow a message from `objc_msgSend` to the call that runs its
//! method, or to the answer that it is given instead: over the words in memory, the
//! methods in the tables of classes, and the calls that are logged.

use vstd::prelude::*;
use vstd::string::*;

use crate::abi::{after_call, with_frame};
use crate::classes::{
    acyclic, class_name, climbs, law_search_goes_up_the_chain, law_super_search_from_no_class,
    law_super_search_goes_up_the_chain, superclass_of, HostObject, Objects,
};
use crate::environment::{
    asked, handed_out, taken_back, well_formed, with_args_of, EnvView, Host, HostCall, Notice,
};
use crate::laws::law_arguments_survive_initialize;
use crate::mem::{selector_name, word};
use crate::names::law_first_entry_counts;
use crate::semantics::{
    delivers, dispatches, handles, initializes, initializes_own, limit_noted, passed, sends,
    signature_checked, two_words, Message,
};
use crate::types::{id, Class, TypeInfo, IMP, SEL};

verus! {

/// Whether the app is Minion Jump.
pub open spec fn in_game(env: EnvView) -> bool {
    env.bundle_identifier == Some("com.apprisetec9.minionjump"@)
}

/// Whether a message is one that is treated like any other: in Minion Jump some are
/// not, which ask for the stage, or make or release buttons.
pub open spec fn is_ordinary(env: EnvView, class: Class, selector: SEL) -> bool {
    let name = selector_name(env.mem, selector);
    in_game(env) ==> {
        &&& name != "getCurrentStage".spec_bytes()
        &&& name != "currentstage".spec_bytes()
        &&& name != "currentStage".spec_bytes()
        &&& class_name(env.objects, class) == "GrowButton"@ ==> name
            != "buttonWithSprite:selectImage:target:selector:".spec_bytes() && name
            != "animateFocusLoseMenuItem:".spec_bytes()
        &&& class_name(env.objects, class) == "GrowStarButton"@ ==> name
            != "buttonWithSpriteFrame:selectframeName:stageNumber:starCount:locked:tag:target:selector:".spec_bytes()
            && name != "animateFocusLoseMenuItem:".spec_bytes()
    }
}

/// What has been noticed when a method is run: the last of it is that the message
/// was sent with another signature than the host method's, if it was.
pub open spec fn reported(
    notices: Seq<Notice>,
    message: Message,
    sent: Option<TypeInfo>,
    imp: IMP,
) -> Seq<Notice> {
    match imp {
        IMP::Guest(_) => notices,
        IMP::Host(method) => match sent {
            None => notices,
            Some(sent) => if sent.0 == method.type_info.0 {
                notices
            } else {
                notices.push(
                    Notice::TypeMismatch {
                        receiver: message.receiver,
                        selector: message.selector,
                        sent,
                        expected: method.type_info,
                        tolerated: message.tolerate_type_mismatch,
                    },
                )
            },
        },
    }
}

/// Whether `method` is run once in the state `pre`, and the state that it leaves, with
/// what it returns in registers 0 and 1, is the state `post`.
pub open spec fn runs(
    host: Host,
    depth: nat,
    method: IMP,
    pre: EnvView,
    post: EnvView,
) -> bool {
    exists|after: EnvView, answer: u32|
        well_formed(after) && #[trigger] host(
            depth,
            HostCall::Invoke(method),
            EnvView { calls: Seq::empty(), ..pre },
            after,
            answer,
        ) && post == (EnvView { calls: pre.calls.push(HostCall::Invoke(method)), ..after })
}

/// Whether a message does nothing in the state `pre` but leave zero in registers 0
/// and 1, and the given notices.
pub open spec fn answers_zero(pre: EnvView, notices: Seq<Notice>, post: EnvView) -> bool {
    post == (EnvView { regs: pre.regs.update(0, 0).update(1, 0), notices, ..pre })
}

/// Whether a message whose search for a method came to `end` is dealt with
/// accordingly: the method that `end` has is run, with registers, stack and memory
/// as they are, or, where `end` is no class with a method, zero is answered.
pub open spec fn dealt_with(
    host: Host,
    depth: nat,
    pre: EnvView,
    class: Class,
    message: Message,
    sent: Option<TypeInfo>,
    post: EnvView,
    end: Class,
) -> bool {
    let Message { receiver, selector, super2, .. } = message;
    if end.bits == 0 {
        answers_zero(
            pre,
            pre.notices.push(
                Notice::DoesNotRespond { receiver, selector, class, to_super: super2 is Some },
            ),
            post,
        )
    } else if !pre.objects.contains_key(end.bits) {
        answers_zero(pre, pre.notices, post)
    } else {
        match pre.objects[end.bits] {
            HostObject::Class(object) => object.methods@.contains_key(selector.bits) ==> {
                let method = object.methods@[selector.bits];
                let notices = reported(pre.notices, message, sent, method);
                runs(host, depth, method, EnvView { notices, ..pre }, post)
            },
            HostObject::UnimplementedClass { .. } => answers_zero(
                pre,
                pre.notices.push(Notice::UnimplementedClass { class: end, selector }),
                post,
            ),
            HostObject::FakeClass { .. } => answers_zero(
                pre,
                pre.notices.push(Notice::FakedClass { class: end, selector }),
                post,
            ),
            HostObject::Instance => answers_zero(
                pre,
                pre.notices.push(
                    Notice::UnexpectedHostObject { class: end, receiver, receiver_class: class },
                ),
                post,
            ),
        }
    }
}

/// Whether the search for a method starts at `first`: at the receiver's class, or,
/// for a message to super, at the superclass of the sending class.
pub open spec fn starts_at(objects: Objects, class: Class, to_super: bool, first: Class) -> bool {
    if to_super && class.bits != 0 && objects.contains_key(class.bits) {
        match objects[class.bits] {
            HostObject::Class(sender) => first == sender.superclass,
            _ => first == class,
        }
    } else {
        first == class
    }
}

/// A message is delivered to the nearest class on the chain that has the method.
pub proof fn law_messages_are_delivered_up_the_chain(
    host: Host,
    depth: nat,
    pre: EnvView,
    class: Class,
    message: Message,
    sent: Option<TypeInfo>,
    post: EnvView,
    chain: Seq<Class>,
)
    requires
        acyclic(pre.objects),
        is_ordinary(pre, class, message.selector),
        starts_at(pre.objects, class, message.super2 is Some, chain[0]),
        climbs(pre.objects, chain, message.selector),
        delivers(host, depth, pre, class, message, sent, post),
    ensures
        dealt_with(host, depth, pre, class, message, sent, post, chain.last()),
{
    let selector = message.selector;
    if message.super2 is Some {
        if superclass_of(pre.objects, class) is Some {
            let sender = pre.objects[class.bits]->Class_0;
            law_super_search_goes_up_the_chain(pre.objects, class, sender, chain, selector);
        } else {
            law_super_search_from_no_class(pre.objects, class, selector);
            law_search_goes_up_the_chain(pre.objects, chain, selector);
        }
    } else {
        law_search_goes_up_the_chain(pre.objects, chain, selector);
    }
    let end = chain.last();
    if end.bits != 0 && pre.objects.contains_key(end.bits) {
        if let HostObject::Class(object) = pre.objects[end.bits] {
            if object.methods@.contains_key(selector.bits) {
                let method = object.methods@[selector.bits];
                let checked = signature_checked(pre, message, sent, method);
                let notices = reported(pre.notices, message, sent, method);
                assert(checked =~= (EnvView { notices, ..pre }));
                assert(runs(host, depth, method, checked, post));
            }
        }
    }
}

/// The class that a message's search for a method is about: for a message to super
/// the sending class, and else the receiver's class, which is the word that the
/// receiver begins with.
pub open spec fn class_of(pre: EnvView, message: Message) -> Class {
    match message.super2 {
        Some(class) => class,
        None => id { bits: word(pre.mem, message.receiver.bits) },
    }
}

/// Whether `first` is the class that has to be initialized before a message to
/// `receiver`, of the class `class`: the receiver, if that is a class, and else its
/// class; nil, if its class is no ordinary class.
pub open spec fn comes_first(
    objects: Objects,
    receiver: id,
    class: Class,
    first: Class,
) -> bool {
    if objects.contains_key(class.bits) {
        match objects[class.bits] {
            HostObject::Class(object) => first == if object.is_metaclass {
                receiver
            } else {
                class
            },
            _ => first.bits == 0,
        }
    } else {
        first.bits == 0
    }
}

/// A message to nil answers zero, and nothing is run.
pub proof fn law_nil_answers_zero(
    host: Host,
    depth: nat,
    pre: EnvView,
    message: Message,
    post: EnvView,
)
    requires
        depth < 128,
        message.receiver.bits == 0,
        dispatches(host, depth, pre, message, post),
    ensures
        post == (EnvView {
            regs: pre.regs.update(0, 0).update(1, 0),
            type_info: None,
            ..pre
        }),
{
}

/// A message to an object without a class answers zero, and nothing is run. The
/// first eight such messages are reported, then that no more will be, then none.
pub proof fn law_freed_objects_answer_zero(
    host: Host,
    depth: nat,
    pre: EnvView,
    message: Message,
    post: EnvView,
)
    requires
        depth < 128,
        message.receiver.bits != 0,
        class_of(pre, message).bits == 0,
        dispatches(host, depth, pre, message, post),
    ensures
        post == (EnvView {
            regs: pre.regs.update(0, 0).update(1, 0),
            type_info: None,
            nil_isa_count: pre.nil_isa_count.wrapping_add(1),
            notices: if pre.nil_isa_count < 8 {
                pre.notices.push(
                    Notice::NilIsa {
                        receiver: message.receiver,
                        selector: message.selector,
                        count: (pre.nil_isa_count + 1) as usize,
                    },
                )
            } else if pre.nil_isa_count == 8 {
                pre.notices.push(Notice::NilIsaSuppressed)
            } else {
                pre.notices
            },
            ..pre
        }),
{
}

/// An ordinary message to an object whose class is initialized, and a message to
/// super, reach the nearest method on the chain from the receiver's class, or from
/// the superclass of the sending class: that method is run once, with registers,
/// stack and memory as the sender left them, and nothing else is. Where the chain
/// ends without a method, zero is answered and nothing is run.
pub proof fn law_messages_reach_the_nearest_method(
    host: Host,
    depth: nat,
    pre: EnvView,
    message: Message,
    post: EnvView,
    first: Class,
    chain: Seq<Class>,
)
    requires
        well_formed(pre),
        depth < 128,
        message.receiver.bits != 0,
        class_of(pre, message).bits != 0,
        message.super2 is None ==> comes_first(
            pre.objects,
            message.receiver,
            class_of(pre, message),
            first,
        ) && (first.bits == 0 || pre.initialized.contains(first.bits)),
        is_ordinary(pre, class_of(pre, message), message.selector),
        starts_at(pre.objects, class_of(pre, message), message.super2 is Some, chain[0]),
        climbs(pre.objects, chain, message.selector),
        dispatches(host, depth, pre, message, post),
    ensures
        dealt_with(
            host,
            depth + 1,
            EnvView { type_info: None, ..pre },
            class_of(pre, message),
            message,
            pre.type_info,
            post,
            chain.last(),
        ),
{
    let taken = EnvView { type_info: None, ..pre };
    let class = class_of(pre, message);
    assert(handles(host, depth + 1, taken, message, pre.type_info, post));
    if message.super2 is None {
        let ready = choose|ready: EnvView|
            #[trigger] passed(ready) && initializes(host, depth + 1, taken, first, ready)
                && delivers(host, depth + 1, ready, class, message, pre.type_info, post);
        assert(ready == taken);
    }
    law_messages_are_delivered_up_the_chain(
        host,
        depth + 1,
        taken,
        class,
        message,
        pre.type_info,
        post,
        chain,
    );
}

/// An ordinary message first has the receiver's class initialized, or the receiver
/// itself if that is a class, and is then delivered, in the state that this leaves:
/// with the same first arguments, stack pointer and return address.
pub proof fn law_classes_are_initialized_before_messages(
    host: Host,
    depth: nat,
    pre: EnvView,
    message: Message,
    post: EnvView,
    first: Class,
) -> (ready: EnvView)
    requires
        well_formed(pre),
        depth < 128,
        message.receiver.bits != 0,
        message.super2 is None,
        class_of(pre, message).bits != 0,
        comes_first(pre.objects, message.receiver, class_of(pre, message), first),
        dispatches(host, depth, pre, message, post),
    ensures
        initializes(host, depth + 1, EnvView { type_info: None, ..pre }, first, ready),
        well_formed(ready),
        forall|i: int| 0 <= i < 4 ==> #[trigger] ready.regs[i] == pre.regs[i],
        ready.regs[13] == pre.regs[13],
        ready.regs[14] == pre.regs[14],
        delivers(
            host,
            depth + 1,
            ready,
            class_of(pre, message),
            message,
            pre.type_info,
            post,
        ),
        forall|chain: Seq<Class>| #[trigger]
            climbs(ready.objects, chain, message.selector) && chain[0] == class_of(pre, message)
                && is_ordinary(ready, class_of(pre, message), message.selector) ==> dealt_with(
                host,
                depth + 1,
                ready,
                class_of(pre, message),
                message,
                pre.type_info,
                post,
                chain.last(),
            ),
{
    let taken = EnvView { type_info: None, ..pre };
    let class = class_of(pre, message);
    assert(handles(host, depth + 1, taken, message, pre.type_info, post));
    let ready = choose|ready: EnvView|
        #[trigger] passed(ready) && initializes(host, depth + 1, taken, first, ready) && delivers(
            host,
            depth + 1,
            ready,
            class,
            message,
            pre.type_info,
            post,
        );
    law_arguments_survive_initialize(host, depth + 1, taken, first, ready);
    assert forall|i: int| 0 <= i < 4 implies #[trigger] ready.regs[i] == pre.regs[i] by {
        assert(ready.regs.take(4)[i] == taken.regs.take(4)[i]);
    }
    assert forall|chain: Seq<Class>| #[trigger]
        climbs(ready.objects, chain, message.selector) && chain[0] == class && is_ordinary(
            ready,
            class,
            message.selector,
        ) implies dealt_with(
        host,
        depth + 1,
        ready,
        class,
        message,
        pre.type_info,
        post,
        chain.last(),
    ) by {
        law_messages_are_delivered_up_the_chain(
            host,
            depth + 1,
            ready,
            class,
            message,
            pre.type_info,
            post,
            chain,
        );
    }
    ready
}

/// The 129th nested message is not dispatched, nor is any that is nested deeper: it
/// is reported, and answers zero. Only an allocation is made, by a call that is
/// handed memory and the tables: the object goes to register 0, and all other
/// registers stay as they are.
pub proof fn law_messages_are_nested_only_so_deep(
    host: Host,
    depth: nat,
    pre: EnvView,
    message: Message,
    post: EnvView,
) -> (notices: Seq<Notice>)
    requires
        depth >= 128,
        dispatches(host, depth, pre, message, post),
    ensures
        notices.last() == (Notice::RecursionLimit {
            receiver: message.receiver,
            selector: message.selector,
        }),
        pre.notices.is_prefix_of(notices),
        !in_game(pre) ==> notices.len() == pre.notices.len() + 1,
        selector_name(pre.mem, message.selector) != "allocWithZone:".spec_bytes() ==> answers_zero(
            pre,
            notices,
            post,
        ),
        selector_name(pre.mem, message.selector) == "allocWithZone:".spec_bytes() ==> exists|
            handed: EnvView,
            after: EnvView,
            object: u32,
        |
            {
                &&& #[trigger] host(
                    depth,
                    HostCall::AllocObject(message.receiver),
                    handed,
                    after,
                    object,
                )
                &&& handed.mem == pre.mem && handed.objects == pre.objects && handed.selectors
                    == pre.selectors && handed.known_classes == pre.known_classes
                &&& post == (EnvView {
                    regs: pre.regs.update(0, object),
                    mem: after.mem,
                    objects: after.objects,
                    selectors: after.selectors,
                    known_classes: after.known_classes,
                    notices,
                    calls: pre.calls.push(HostCall::AllocObject(message.receiver)),
                    ..pre
                })
            },
{
    let noticed = limit_noted(pre, message);
    if selector_name(pre.mem, message.selector) == "allocWithZone:".spec_bytes() {
        let call = HostCall::AllocObject(message.receiver);
        let (after, object) = choose|after: EnvView, object: u32|
            #[trigger] asked(
                host,
                depth,
                HostCall::AllocObject(message.receiver),
                noticed,
                after,
                object,
            ) && post == (EnvView { regs: noticed.regs.update(0, object), ..after });
        let left = choose|left: EnvView|
            well_formed(left) && #[trigger] host(
                depth,
                call,
                handed_out(call, noticed),
                left,
                object,
            ) && after == taken_back(call, noticed, left);
        assert(post =~= (EnvView {
            regs: pre.regs.update(0, object),
            mem: left.mem,
            objects: left.objects,
            selectors: left.selectors,
            known_classes: left.known_classes,
            notices: noticed.notices,
            calls: pre.calls.push(call),
            ..pre
        }));
    }
    noticed.notices
}

/// Initializing nil, or a class that is marked, changes nothing and calls nothing.
pub proof fn law_nothing_to_initialize(
    host: Host,
    depth: nat,
    pre: EnvView,
    class: Class,
    post: EnvView,
)
    requires
        acyclic(pre.objects),
        class.bits == 0 || pre.initialized.contains(class.bits),
        initializes(host, depth, pre, class, post),
    ensures
        post == pre,
{
}

/// What is no ordinary class is marked, and nothing is called.
pub proof fn law_no_class_is_only_marked(
    host: Host,
    depth: nat,
    pre: EnvView,
    class: Class,
    post: EnvView,
)
    requires
        acyclic(pre.objects),
        class.bits != 0,
        !pre.initialized.contains(class.bits),
        !pre.objects.contains_key(class.bits) || !(pre.objects[class.bits] is Class),
        initializes(host, depth, pre, class, post),
    ensures
        post == (EnvView { initialized: pre.initialized.insert(class.bits), ..pre }),
{
}

/// A class that is not marked has its superclass initialized first, and is then
/// initialized itself.
pub proof fn law_superclass_is_initialized_first(
    host: Host,
    depth: nat,
    pre: EnvView,
    class: Class,
    superclass: Class,
    post: EnvView,
) -> (between: EnvView)
    requires
        well_formed(pre),
        class.bits != 0,
        !pre.initialized.contains(class.bits),
        pre.objects.contains_key(class.bits),
        pre.objects[class.bits] matches HostObject::Class(object) && object.superclass
            == superclass,
        initializes(host, depth, pre, class, post),
    ensures
        initializes(host, depth, pre, superclass, between),
        well_formed(between),
        initializes_own(host, depth, between, class, post),
        superclass.bits == 0 || pre.initialized.contains(superclass.bits) ==> between == pre,
{
    let between = choose|between: EnvView|
        #[trigger] passed(between) && initializes(host, depth, pre, superclass, between)
            && initializes_own(host, depth, between, class, post);
    law_arguments_survive_initialize(host, depth, pre, superclass, between);
    between
}

/// Whether `selector` is what is registered under the name `initialize`.
pub open spec fn is_initialize(env: EnvView, selector: SEL) -> bool {
    exists|i: int| #[trigger] first_named(env.selectors, "initialize"@, i)
        && env.selectors[i].1 == selector.bits
}

/// Whether the entry `i` is the first that has the given name.
pub open spec fn first_named(table: Seq<(Seq<char>, u32)>, name: Seq<char>, i: int) -> bool {
    &&& 0 <= i < table.len()
    &&& table[i].0 == name
    &&& forall|j: int| 0 <= j < i ==> (#[trigger] table[j]).0 != name
}

/// The state in which `+initialize` is run for a class: the class is marked, and is
/// the receiver.
pub open spec fn initialize_sent(pre: EnvView, class: Class, selector: SEL, method: IMP) -> EnvView {
    EnvView {
        initialized: pre.initialized.insert(class.bits),
        regs: pre.regs.update(0, class.bits).update(1, selector.bits),
        type_info: None,
        notices: reported(
            pre.notices,
            Message {
                receiver: class,
                selector,
                super2: None,
                tolerate_type_mismatch: true,
            },
            pre.type_info,
            method,
        ),
        ..pre
    }
}

/// A class whose superclasses are initialized is sent `+initialize` itself, if some
/// class on its metaclass's chain has a method for it, however far up: that method is
/// run once, with the class as its receiver and the class marked already, and nothing
/// else is. Afterwards registers 0 to 3, the stack pointer and the return address are
/// what they were.
pub proof fn law_classes_are_sent_initialize(
    host: Host,
    depth: nat,
    pre: EnvView,
    class: Class,
    post: EnvView,
    selector: SEL,
    chain: Seq<Class>,
    method: IMP,
) -> (after: EnvView)
    requires
        well_formed(pre),
        depth < 128,
        class.bits != 0,
        !pre.initialized.contains(class.bits),
        is_initialize(pre, selector),
        chain[0].bits == word(pre.mem, class.bits),
        climbs(pre.objects, chain, selector),
        // The chain is one of metaclasses, and ends at one that has the method.
        pre.objects.contains_key(chain[0].bits),
        pre.objects[chain[0].bits] matches HostObject::Class(first) && first.is_metaclass,
        chain[0].bits != 0 && chain.last().bits != 0,
        pre.objects.contains_key(chain.last().bits),
        pre.objects[chain.last().bits] matches HostObject::Class(owner)
            && owner.methods@.contains_key(selector.bits)
            && owner.methods@[selector.bits] == method,
        is_ordinary(pre, chain[0], selector),
        initializes_own(host, depth, pre, class, post),
    ensures
        runs(host, depth + 1, method, initialize_sent(pre, class, selector, method), after),
        after.calls == pre.calls.push(HostCall::Invoke(method)),
        post == (EnvView {
            regs: after.regs.update(13, pre.regs[13]).update(14, pre.regs[14]).update(
                0,
                pre.regs[0],
            ).update(1, pre.regs[1]).update(2, pre.regs[2]).update(3, pre.regs[3]),
            ..after
        }),
{
    let i = choose|i: int| #[trigger] first_named(pre.selectors, "initialize"@, i)
        && pre.selectors[i].1 == selector.bits;
    law_first_entry_counts(pre.selectors, "initialize"@, i);
    law_search_goes_up_the_chain(pre.objects, chain, selector);
    let marked = EnvView { initialized: pre.initialized.insert(class.bits), ..pre };
    let args = two_words(class.bits, selector.bits);
    let sent = choose|sent: EnvView|
        #[trigger] passed(sent) && sends(host, depth, marked, args, sent) && post
            == with_args_of(sent, marked);
    let message = Message {
        receiver: class,
        selector,
        super2: None,
        tolerate_type_mismatch: true,
    };
    let framed = with_frame(marked, args, 0);
    let after = choose|after: EnvView|
        #[trigger] passed(after) && dispatches(host, depth, framed, message, after) && sent
            == after_call(marked, after);
    let regs = pre.regs.update(0, class.bits).update(1, selector.bits);
    assert(framed.regs =~= regs);
    assert(framed =~= (EnvView { regs, ..marked }));
    law_messages_reach_the_nearest_method(host, depth, framed, message, after, class, chain);
    let taken = EnvView { type_info: None, ..framed };
    let notices = reported(pre.notices, message, pre.type_info, method);
    assert((EnvView { notices, ..taken }) =~= initialize_sent(pre, class, selector, method));
    assert(post.regs =~= after.regs.update(13, pre.regs[13]).update(14, pre.regs[14]).update(
        0,
        pre.regs[0],
    ).update(1, pre.regs[1]).update(2, pre.regs[2]).update(3, pre.regs[3]));
    after
}

/// A class is not sent `+initialize` if no selector of that name is registered: it is
/// marked, and nothing is called.
pub proof fn law_initialize_is_not_registered(
    host: Host,
    depth: nat,
    pre: EnvView,
    class: Class,
    post: EnvView,
)
    requires
        !pre.initialized.contains(class.bits),
        forall|j: int| 0 <= j < pre.selectors.len() ==> (#[trigger] pre.selectors[j]).0
            != "initialize"@,
        initializes_own(host, depth, pre, class, post),
    ensures
        post == (EnvView { initialized: pre.initialized.insert(class.bits), ..pre }),
{
    law_first_entry_counts(pre.selectors, "initialize"@, pre.selectors.len() as int);
}

/// A class is not sent `+initialize` if no class on its metaclass's chain has a
/// method for it: it is marked, and nothing is called.
pub proof fn law_classes_without_initialize_are_only_marked(
    host: Host,
    depth: nat,
    pre: EnvView,
    class: Class,
    post: EnvView,
    selector: SEL,
    chain: Seq<Class>,
)
    requires
        well_formed(pre),
        !pre.initialized.contains(class.bits),
        is_initialize(pre, selector),
        chain[0].bits == word(pre.mem, class.bits),
        climbs(pre.objects, chain, selector),
        chain.last().bits == 0 || !pre.objects.contains_key(chain.last().bits)
            || !(pre.objects[chain.last().bits] is Class),
        initializes_own(host, depth, pre, class, post),
    ensures
        post == (EnvView { initialized: pre.initialized.insert(class.bits), ..pre }),
{
    let i = choose|i: int| #[trigger] first_named(pre.selectors, "initialize"@, i)
        && pre.selectors[i].1 == selector.bits;
    law_first_entry_counts(pre.selectors, "initialize"@, i);
    law_search_goes_up_the_chain(pre.objects, chain, selector);
}

/// A class that its superclasses' initialization marked already is not initialized
/// again.
pub proof fn law_marked_meanwhile(
    host: Host,
    depth: nat,
    pre: EnvView,
    class: Class,
    post: EnvView,
)
    requires
        pre.initialized.contains(class.bits),
        initializes_own(host, depth, pre, class, post),
    ensures
        post == pre,
{
}

/// A class whose `+initialize` would be nested too deep is marked, and the message is
/// reported; nothing is called.
pub proof fn law_initialize_is_nested_only_so_deep(
    host: Host,
    depth: nat,
    pre: EnvView,
    class: Class,
    post: EnvView,
    selector: SEL,
    chain: Seq<Class>,
) -> (notices: Seq<Notice>)
    requires
        well_formed(pre),
        depth >= 128,
        !pre.initialized.contains(class.bits),
        is_initialize(pre, selector),
        selector_name(pre.mem, selector) != "allocWithZone:".spec_bytes(),
        chain[0].bits == word(pre.mem, class.bits),
        climbs(pre.objects, chain, selector),
        // The chain ends at a class that has the method.
        chain.last().bits != 0,
        pre.objects.contains_key(chain.last().bits),
        pre.objects[chain.last().bits] matches HostObject::Class(owner)
            && owner.methods@.contains_key(selector.bits),
        initializes_own(host, depth, pre, class, post),
    ensures
        notices.last() == (Notice::RecursionLimit { receiver: class, selector }),
        pre.notices.is_prefix_of(notices),
        !in_game(pre) ==> notices.len() == pre.notices.len() + 1,
        post == (EnvView {
            initialized: pre.initialized.insert(class.bits),
            notices,
            ..pre
        }),
{
    let i = choose|i: int| #[trigger] first_named(pre.selectors, "initialize"@, i)
        && pre.selectors[i].1 == selector.bits;
    law_first_entry_counts(pre.selectors, "initialize"@, i);
    law_search_goes_up_the_chain(pre.objects, chain, selector);
    let marked = EnvView { initialized: pre.initialized.insert(class.bits), ..pre };
    let args = two_words(class.bits, selector.bits);
    let sent = choose|sent: EnvView|
        #[trigger] passed(sent) && sends(host, depth, marked, args, sent) && post == with_args_of(
            sent,
            marked,
        );
    let message = Message {
        receiver: class,
        selector,
        super2: None,
        tolerate_type_mismatch: true,
    };
    let framed = with_frame(marked, args, 0);
    let after = choose|after: EnvView|
        #[trigger] passed(after) && dispatches(host, depth, framed, message, after) && sent
            == after_call(marked, after);
    assert(framed =~= (EnvView { regs: framed.regs, ..marked }));
    let notices = law_messages_are_nested_only_so_deep(host, depth, framed, message, after);
    assert(post.regs =~= pre.regs);
    notices
}

} // verus!
