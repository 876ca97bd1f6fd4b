//! What reaches a method of what the host sends, and what comes back.
//!
//! These laws follow the arguments of a message, word by word, to the registers and
//! the stack of the method, and the result from where the method leaves it to the
//! value that is returned.

use vstd::prelude::*;

use crate::abi::{
    after_call, frame_bytes, frame_sp, frame_space, frame_words, with_frame, GuestRet,
};
use crate::dispatch_laws::first_named;
use crate::environment::{
    asked, class_named, handed_out, selector_named, taken_back, well_formed, EnvView, Host,
    HostCall, Notice,
};
use crate::mem::{
    law_read_after_write, law_words_are_consecutive, law_words_are_written_consecutively, with_word,
    with_words, word, words,
};
use crate::messages::{
    msg_sends, msg_sends_pushed_super, msg_sends_super, pushed_super_ptr, super_noted,
    with_pushed_super,
};
use crate::names::law_first_entry_counts;
use crate::semantics::{
    calls, calls_super, dispatches, dispatches_super, links, outcome, passed, registers, sends,
    with_struct_address, Message,
};
use crate::signature::MessageArgs;
use crate::types::{id, objc_super, SuperPtr, TypeInfo, SEL};

verus! {

/// The number of words that do not fit in registers 0 to 3.
pub open spec fn beyond_registers(count: nat) -> int {
    if count > 4 {
        count - 4
    } else {
        0
    }
}

/// The address of the word with the index `k`, from `address` on.
pub open spec fn nth(address: int, k: int) -> u32 {
    (address + 4 * k) as u32
}

/// Whether the first `count` words from `address` on are zero.
pub open spec fn is_zero(mem: Map<u32, u8>, address: int, count: int) -> bool {
    forall|k: int| 0 <= k < count ==> word(mem, #[trigger] nth(address, k)) == 0
}

/// Whether `called` is the state `pre` with the words `args` in place for a method,
/// and with `space` words set aside for a result: the first four words in registers,
/// the others at the stack pointer and upward, and behind them zeros in the space.
/// All other registers, and all memory but the new part of the stack, are as before.
pub open spec fn in_place(pre: EnvView, args: Seq<u32>, space: int, called: EnvView) -> bool {
    let sp = pre.regs[13] - 4 * (beyond_registers(args.len()) + space);
    &&& called == (EnvView { regs: called.regs, mem: called.mem, ..pre })
    &&& called.regs.len() == 16
    &&& forall|i: int| 0 <= i < 4 && i < args.len() ==> #[trigger] called.regs[i] == args[i]
    &&& called.regs[13] == sp
    &&& forall|i: int|
        0 <= i < 16 && (i >= 4 || i >= args.len()) && i != 13 ==> #[trigger] called.regs[i]
            == pre.regs[i]
    &&& forall|i: int|
        4 <= i < args.len() ==> word(called.mem, nth(sp, i - 4)) == #[trigger] args[i]
    &&& is_zero(called.mem, pre.regs[13] - 4 * space, space)
    &&& forall|address: u32|
        address < sp || address >= pre.regs[13] ==> #[trigger] called.mem[address]
            == pre.mem[address]
}

proof fn lemma_frame_word(mem: Map<u32, u8>, sp: u32, frame: Seq<u32>, k: int)
    requires
        0 <= k < frame.len(),
        sp + 4 * frame.len() <= u32::MAX,
    ensures
        word(with_words(mem, sp, frame), nth(sp as int, k)) == frame[k],
{
    law_words_are_written_consecutively(mem, sp, frame, k, 0);
    assert(sp.wrapping_add((4 * k) as u32) == nth(sp as int, k));
}

proof fn lemma_frame_in_place(pre: EnvView, args: Seq<u32>, space: nat)
    requires
        pre.regs.len() == 16,
        4 * (beyond_registers(args.len()) + space) <= pre.regs[13],
    ensures
        in_place(pre, args, space as int, with_frame(pre, args, space)),
{
    let called = with_frame(pre, args, space);
    let sp = frame_sp(pre.regs[13], frame_bytes(args.len(), space));
    let frame = frame_words(args, space);
    let beyond = beyond_registers(args.len());
    assert(frame.len() == beyond + space);
    assert(sp == pre.regs[13] - 4 * (beyond + space));
    assert(called.mem == with_words(pre.mem, sp, frame));
    assert forall|i: int| 4 <= i < args.len() implies word(
        called.mem,
        nth(sp as int, i - 4),
    ) == #[trigger] args[i] by {
        lemma_frame_word(pre.mem, sp, frame, i - 4);
        assert(frame[i - 4] == args[i]);
    }
    let at = pre.regs[13] - 4 * space;
    assert forall|k: int| 0 <= k < space implies word(called.mem, #[trigger] nth(at, k)) == 0 by {
        lemma_frame_word(pre.mem, sp, frame, beyond + k);
        assert(frame[beyond + k] == 0);
        assert(nth(sp as int, beyond + k) == nth(at, k));
    }
    assert(is_zero(called.mem, at, space as int));
    assert forall|address: u32| address < sp || address >= pre.regs[13] implies
        #[trigger] called.mem[address] == pre.mem[address] by {
        lemma_frame_elsewhere(pre.mem, sp, frame, address);
    }
    assert(called =~= (EnvView { regs: called.regs, mem: called.mem, ..pre }));
    assert forall|i: int| 0 <= i < 4 && i < args.len() implies #[trigger] called.regs[i]
        == args[i] by {
    }
}

proof fn lemma_frame_elsewhere(mem: Map<u32, u8>, sp: u32, frame: Seq<u32>, address: u32)
    requires
        sp + 4 * frame.len() <= u32::MAX,
        address < sp || address >= sp + 4 * frame.len(),
    ensures
        with_words(mem, sp, frame)[address] == mem[address],
{
    assert(address.wrapping_sub(sp) >= 4 * frame.len());
    law_words_are_written_consecutively(mem, sp, frame, -1, address);
}

/// The state after a call of the host's: what the method left, with the stack pointer
/// and the return address as they were before.
pub open spec fn back_from(pre: EnvView, after: EnvView, post: EnvView) -> bool {
    post == (EnvView {
        regs: after.regs.update(13, pre.regs[13]).update(14, pre.regs[14]),
        ..after
    })
}

/// A message that the host sends is dispatched with its words in place, to the
/// receiver that is the first of them and with the selector that is the second. The
/// result is what registers 0 and 1 hold when it returns.
pub proof fn law_messages_are_sent(
    host: Host,
    depth: nat,
    pre: EnvView,
    args: Seq<u32>,
    tolerate_type_mismatch: bool,
    post: EnvView,
    result: Seq<u32>,
) -> (r: (EnvView, EnvView))
    requires
        pre.regs.len() == 16,
        args.len() >= 2,
        4 * beyond_registers(args.len()) <= pre.regs[13],
        calls(host, depth, pre, args, tolerate_type_mismatch, None, post, result),
    ensures
        in_place(pre, args, 0, r.0),
        dispatches(
            host,
            depth,
            r.0,
            (Message {
                receiver: id { bits: args[0] },
                selector: SEL { bits: args[1] },
                super2: None,
                tolerate_type_mismatch,
            }),
            r.1,
        ),
        back_from(pre, r.1, post),
        result == r.1.regs.take(2),
{
    lemma_frame_in_place(pre, args, 0);
    let called = with_frame(pre, args, 0);
    let message = Message {
        receiver: id { bits: args[0] },
        selector: SEL { bits: args[1] },
        super2: None,
        tolerate_type_mismatch,
    };
    let after = choose|after: EnvView|
        {
            &&& #[trigger] passed(after)
            &&& outcome(host, depth, called, message, after)
            &&& post == after_call(pre, after)
            &&& result == after.regs.take(2)
        };
    (called, after)
}

/// A message that returns a struct is sent with the address of the space for it
/// before all other words. The result is what the space holds when it returns.
pub proof fn law_struct_messages_are_sent(
    host: Host,
    depth: nat,
    pre: EnvView,
    args: Seq<u32>,
    tolerate_type_mismatch: bool,
    space: nat,
    post: EnvView,
    result: Seq<u32>,
) -> (r: (EnvView, EnvView))
    requires
        pre.regs.len() == 16,
        args.len() >= 2,
        4 * (beyond_registers(args.len() + 1) + space) <= pre.regs[13],
        calls(host, depth, pre, args, tolerate_type_mismatch, Some(space), post, result),
    ensures
        in_place(
            pre,
            seq![(pre.regs[13] - 4 * space) as u32] + args,
            space as int,
            r.0,
        ),
        dispatches(
            host,
            depth,
            r.0,
            (Message {
                receiver: id { bits: args[0] },
                selector: SEL { bits: args[1] },
                super2: None,
                tolerate_type_mismatch,
            }),
            r.1,
        ),
        back_from(pre, r.1, post),
        result.len() == space,
        forall|k: int|
            0 <= k < space ==> #[trigger] result[k] == word(
                r.1.mem,
                nth(pre.regs[13] - 4 * space, k),
            ),
{
    let at = frame_space(pre.regs[13], args.len() + 1, space);
    assert(at == pre.regs[13] - 4 * space);
    let all = with_struct_address(at, args);
    lemma_frame_in_place(pre, all, space);
    let called = with_frame(pre, all, space);
    let message = Message {
        receiver: id { bits: args[0] },
        selector: SEL { bits: args[1] },
        super2: None,
        tolerate_type_mismatch,
    };
    let after = choose|after: EnvView|
        {
            &&& #[trigger] passed(after)
            &&& outcome(host, depth, called, message, after)
            &&& post == after_call(pre, after)
            &&& result == words(after.mem, at, space)
        };
    lemma_read_back(after, at, space, result);
    (called, after)
}

proof fn lemma_read_back(after: EnvView, at: u32, space: nat, result: Seq<u32>)
    requires
        at + 4 * space <= u32::MAX,
        result == words(after.mem, at, space),
    ensures
        result.len() == space,
        forall|k: int|
            0 <= k < space ==> #[trigger] result[k] == word(after.mem, nth(at as int, k)),
{
    if space > 0 {
        law_words_are_consecutive(after.mem, at, space, 0);
    }
    assert forall|k: int| 0 <= k < space implies #[trigger] result[k] == word(
        after.mem,
        nth(at as int, k),
    ) by {
        law_words_are_consecutive(after.mem, at, space, k);
        assert(at.wrapping_add((4 * k) as u32) == nth(at as int, k));
    }
}

/// A message to super is dispatched to the receiver, and from the class, that stand
/// at the pointer, which the receiver replaces in register 0.
pub proof fn law_super_messages_are_dispatched(
    host: Host,
    depth: nat,
    pre: EnvView,
    ptr: SuperPtr,
    selector: SEL,
    post: EnvView,
)
    requires
        dispatches_super(host, depth, pre, ptr, selector, post),
    ensures
        dispatches(
            host,
            depth,
            EnvView { regs: pre.regs.update(0, word(pre.mem, ptr.bits)), ..pre },
            (Message {
                receiver: id { bits: word(pre.mem, ptr.bits) },
                selector,
                super2: Some(id { bits: word(pre.mem, ptr.bits.wrapping_add(4)) }),
                tolerate_type_mismatch: false,
            }),
            post,
        ),
{
}

/// A message to super that the host sends is dispatched with its words in place. The
/// result is what registers 0 and 1 hold when it returns. A struct is taken from
/// space that no method is told of.
pub proof fn law_super_messages_are_sent(
    host: Host,
    depth: nat,
    pre: EnvView,
    args: Seq<u32>,
    in_memory: Option<nat>,
    post: EnvView,
    result: Seq<u32>,
) -> (r: (EnvView, EnvView))
    requires
        pre.regs.len() == 16,
        args.len() >= 2,
        4 * (beyond_registers(args.len()) + (match in_memory {
            Some(space) => space as int,
            None => 0,
        })) <= pre.regs[13],
        calls_super(host, depth, pre, args, in_memory, post, result),
    ensures
        in_place(
            pre,
            args,
            match in_memory {
                Some(space) => space as int,
                None => 0,
            },
            r.0,
        ),
        dispatches_super(
            host,
            depth,
            r.0,
            SuperPtr { bits: args[0] },
            SEL { bits: args[1] },
            r.1,
        ),
        back_from(pre, r.1, post),
        match in_memory {
            None => result == r.1.regs.take(2),
            Some(space) => result.len() == space && forall|k: int|
                0 <= k < space ==> #[trigger] result[k] == word(
                    r.1.mem,
                    nth(pre.regs[13] - 4 * space, k),
                ),
        },
{
    let space: nat = match in_memory {
        Some(space) => space,
        None => 0,
    };
    lemma_frame_in_place(pre, args, space);
    let called = with_frame(pre, args, space);
    let at = frame_space(pre.regs[13], args.len(), space);
    assert(at == pre.regs[13] - 4 * space);
    let after = choose|after: EnvView|
        {
            &&& #[trigger] passed(after)
            &&& dispatches_super(
                host,
                depth,
                called,
                SuperPtr { bits: args[0] },
                SEL { bits: args[1] },
                after,
            )
            &&& post == after_call(pre, after)
            &&& result == match in_memory {
                Some(_) => words(after.mem, at, space),
                None => after.regs.take(2),
            }
        };
    if in_memory is Some {
        lemma_read_back(after, at, space, result);
    }
    (called, after)
}

/// A message that the dispatcher itself sends is dispatched with its words in place,
/// and reports a mismatch of signatures as tolerated.
pub proof fn law_own_messages_are_sent(
    host: Host,
    depth: nat,
    pre: EnvView,
    args: Seq<u32>,
    post: EnvView,
) -> (r: (EnvView, EnvView))
    requires
        pre.regs.len() == 16,
        args.len() >= 2,
        4 * beyond_registers(args.len()) <= pre.regs[13],
        sends(host, depth, pre, args, post),
    ensures
        in_place(pre, args, 0, r.0),
        dispatches(
            host,
            depth,
            r.0,
            (Message {
                receiver: id { bits: args[0] },
                selector: SEL { bits: args[1] },
                super2: None,
                tolerate_type_mismatch: true,
            }),
            r.1,
        ),
        back_from(pre, r.1, post),
{
    lemma_frame_in_place(pre, args, 0);
    let called = with_frame(pre, args, 0);
    let message = Message {
        receiver: id { bits: args[0] },
        selector: SEL { bits: args[1] },
        super2: None,
        tolerate_type_mismatch: true,
    };
    let after = choose|after: EnvView|
        #[trigger] passed(after) && dispatches(host, depth, called, message, after) && post
            == after_call(pre, after);
    (called, after)
}

/// `msg_send` sends the words of its arguments with its signature noted, does not
/// tolerate a mismatch, and returns the value that the result's words are.
pub proof fn law_msg_send_sends<R: GuestRet, P: MessageArgs>(
    host: Host,
    depth: nat,
    pre: EnvView,
    type_info: TypeInfo,
    args: P,
    post: EnvView,
    value: R,
) -> (result: Seq<u32>)
    requires
        msg_sends(host, depth, pre, type_info, args, post, value),
    ensures
        calls(
            host,
            depth,
            EnvView { type_info: Some(type_info), ..pre },
            args.words(),
            false,
            R::words_in_memory(),
            post,
            result,
        ),
        value == R::of_words(result),
{
    choose|result: Seq<u32>|
        #[trigger] calls(
            host,
            depth,
            EnvView { type_info: Some(type_info), ..pre },
            args.words(),
            false,
            R::words_in_memory(),
            post,
            result,
        ) && value == R::of_words(result)
}

/// `msg_send_super2` does so too, and reports that a struct is to be returned.
pub proof fn law_msg_send_super2_sends<R: GuestRet, P: MessageArgs>(
    host: Host,
    depth: nat,
    pre: EnvView,
    type_info: TypeInfo,
    args: P,
    post: EnvView,
    value: R,
) -> (result: Seq<u32>)
    requires
        msg_sends_super(host, depth, pre, type_info, args, post, value),
    ensures
        calls_super(
            host,
            depth,
            EnvView {
                type_info: Some(type_info),
                notices: match R::words_in_memory() {
                    Some(_) => pre.notices.push(
                        Notice::StructFromSuper { selector: SEL { bits: args.words()[1] } },
                    ),
                    None => pre.notices,
                },
                ..pre
            },
            args.words(),
            R::words_in_memory(),
            post,
            result,
        ),
        value == R::of_words(result),
{
    let noted = super_noted(
        pre,
        type_info,
        SEL { bits: args.words()[1] },
        R::words_in_memory(),
    );
    choose|result: Seq<u32>|
        #[trigger] calls_super(
            host,
            depth,
            noted,
            args.words(),
            R::words_in_memory(),
            post,
            result,
        ) && value == R::of_words(result)
}

/// `msg_super` pushes the receiver and the class to the stack, sends the message from
/// there, and pops them again.
pub proof fn law_msg_super_sends<R: GuestRet, P: MessageArgs>(
    host: Host,
    depth: nat,
    pre: EnvView,
    pushed: objc_super,
    type_info: TypeInfo,
    args: P,
    post: EnvView,
    value: R,
) -> (r: (EnvView, EnvView))
    requires
        pre.regs.len() == 16,
        pre.regs[13] >= 8,
        msg_sends_pushed_super(host, depth, pre, pushed, type_info, args, post, value),
    ensures
        pushed_super_ptr(pre).bits == pre.regs[13] - 8,
        r.0 == (EnvView { regs: r.0.regs, mem: r.0.mem, ..pre }),
        r.0.regs == pre.regs.update(13, (pre.regs[13] - 8) as u32),
        word(r.0.mem, (pre.regs[13] - 8) as u32) == pushed.receiver.bits,
        word(r.0.mem, (pre.regs[13] - 4) as u32) == pushed.class.bits,
        forall|address: u32|
            address < pre.regs[13] - 8 || address >= pre.regs[13] ==> #[trigger] r.0.mem[address]
                == pre.mem[address],
        msg_sends_super(host, depth, r.0, type_info, args, r.1, value),
        post == (EnvView { regs: r.1.regs.update(13, pre.regs[13]), ..r.1 }),
{
    let ptr = pushed_super_ptr(pre).bits;
    let before = with_pushed_super(pre, pushed);
    let first = with_word(pre.mem, ptr, pushed.receiver.bits);
    law_read_after_write(pre.mem, ptr, pushed.receiver.bits);
    law_read_after_write(first, ptr.wrapping_add(4), pushed.class.bits);
    assert(ptr.wrapping_sub(ptr.wrapping_add(4)) == u32::MAX - 3);
    assert(ptr.wrapping_add(4) == (pre.regs[13] - 4) as u32);
    let after = choose|after: EnvView|
        {
            &&& #[trigger] passed(after)
            &&& msg_sends_super(host, depth, before, type_info, args, after, value)
            &&& post == (EnvView { regs: after.regs.update(13, pre.regs[13]), ..after })
        };
    (before, after)
}

/// Whether `call`, which is answered with `answer`, is made once, with memory and the
/// tables handed out and taken back, and nothing else changes.
pub open spec fn changes_tables(
    host: Host,
    depth: nat,
    call: HostCall,
    pre: EnvView,
    post: EnvView,
    answer: u32,
) -> bool {
    exists|handed: EnvView, after: EnvView|
        {
            &&& #[trigger] host(depth, call, handed, after, answer)
            &&& handed.mem == pre.mem && handed.objects == pre.objects && handed.selectors
                == pre.selectors && handed.known_classes == pre.known_classes
            &&& post == (EnvView {
                mem: after.mem,
                objects: after.objects,
                selectors: after.selectors,
                known_classes: after.known_classes,
                calls: pre.calls.push(call),
                ..pre
            })
        }
}

proof fn lemma_changes_tables(
    host: Host,
    depth: nat,
    call: HostCall,
    pre: EnvView,
    post: EnvView,
    answer: u32,
)
    requires
        !(call is Invoke),
        asked(host, depth, call, pre, post, answer),
    ensures
        changes_tables(host, depth, call, pre, post, answer),
{
    let after = choose|after: EnvView|
        well_formed(after) && #[trigger] host(depth, call, handed_out(call, pre), after, answer)
            && post == taken_back(call, pre, after);
    assert(post =~= (EnvView {
        mem: after.mem,
        objects: after.objects,
        selectors: after.selectors,
        known_classes: after.known_classes,
        calls: pre.calls.push(call),
        ..pre
    }));
}

/// A selector that is registered is found by its name, with no call; one that is not
/// is registered.
pub proof fn law_selectors_are_registered_once(
    host: Host,
    depth: nat,
    pre: EnvView,
    name: &'static str,
    post: EnvView,
    selector: u32,
)
    requires
        registers(host, depth, pre, name, post, selector),
    ensures
        forall|i: int| #[trigger]
            first_named(pre.selectors, name@, i) ==> post == pre && selector == pre.selectors[i].1,
        (forall|i: int| 0 <= i < pre.selectors.len() ==> (#[trigger] pre.selectors[i]).0 != name@)
            ==> changes_tables(host, depth, HostCall::RegisterSelector(name), pre, post, selector),
{
    assert forall|i: int| #[trigger] first_named(pre.selectors, name@, i) implies post == pre
        && selector == pre.selectors[i].1 by {
        law_first_entry_counts(pre.selectors, name@, i);
    }
    if forall|i: int| 0 <= i < pre.selectors.len() ==> (#[trigger] pre.selectors[i]).0 != name@ {
        law_first_entry_counts(pre.selectors, name@, pre.selectors.len() as int);
        lemma_changes_tables(
            host,
            depth,
            HostCall::RegisterSelector(name),
            pre,
            post,
            selector,
        );
    }
}

/// A class that is known is found by its name, with no call; one that is not is made
/// known.
pub proof fn law_classes_are_linked_once(
    host: Host,
    depth: nat,
    pre: EnvView,
    name: &'static str,
    post: EnvView,
    class: u32,
)
    requires
        links(host, depth, pre, name, post, class),
    ensures
        forall|i: int| #[trigger]
            first_named(pre.known_classes, name@, i) ==> post == pre && class
                == pre.known_classes[i].1,
        (forall|i: int|
            0 <= i < pre.known_classes.len() ==> (#[trigger] pre.known_classes[i]).0 != name@)
            ==> changes_tables(host, depth, HostCall::LinkClass(name), pre, post, class),
{
    assert forall|i: int| #[trigger] first_named(pre.known_classes, name@, i) implies post == pre
        && class == pre.known_classes[i].1 by {
        law_first_entry_counts(pre.known_classes, name@, i);
    }
    if forall|i: int|
        0 <= i < pre.known_classes.len() ==> (#[trigger] pre.known_classes[i]).0 != name@ {
        law_first_entry_counts(pre.known_classes, name@, pre.known_classes.len() as int);
        lemma_changes_tables(host, depth, HostCall::LinkClass(name), pre, post, class);
    }
}

/// A selector, or a class, that is looked up by its name is the one in the first entry
/// that has the name; where none has it, there is none.
pub proof fn law_names_are_looked_up(table: Seq<(Seq<char>, u32)>, name: Seq<char>)
    ensures
        forall|i: int| #[trigger]
            first_named(table, name, i) ==> selector_named(table, name) == Some(
                SEL { bits: table[i].1 },
            ) && class_named(table, name) == Some(id { bits: table[i].1 }),
        (forall|i: int| 0 <= i < table.len() ==> (#[trigger] table[i]).0 != name) ==> selector_named(
            table,
            name,
        ) is None && class_named(table, name) is None,
{
    assert forall|i: int| #[trigger] first_named(table, name, i) implies selector_named(
        table,
        name,
    ) == Some(SEL { bits: table[i].1 }) && class_named(table, name) == Some(
        id { bits: table[i].1 },
    ) by {
        law_first_entry_counts(table, name, i);
    }
    if forall|i: int| 0 <= i < table.len() ==> (#[trigger] table[i]).0 != name {
        law_first_entry_counts(table, name, table.len() as int);
    }
}

} // verus!
