//! The words that the arguments of a message are passed as, and those of its result.
//!
//! For each number of arguments it is stated of arguments of any type, and of words
//! and objects, which words there are, and in which order.

use vstd::prelude::*;

use crate::abi::{GuestArg, GuestRet, MessageTarget};
use crate::signature::{MessageArgs, OwnArgs};
use crate::types::{id, SuperPtr, SEL};

verus! {

/// The words of a message with no arguments of its own are that of the target,
/// that of the selector.
pub proof fn law_words_of_none<T: MessageTarget>(
    target: T,
    selector: SEL,
)
    ensures
        ({
            let words = seq![target.target_bits(), selector.bits];
            &&& (target, selector).words() == words
            &&& ().completed(target, selector).words() == words
        }),
{
    let words = seq![target.target_bits(), selector.bits];
    assert((target, selector).words() =~= words);
}

/// A message with no arguments of its own is passed as these words.
pub proof fn law_word_order_of_none(
    receiver: id,
    to_super: SuperPtr,
    selector: SEL,
)
    ensures
        ({
            let words = seq![receiver.bits, selector.bits];
            &&& (receiver, selector).words() == words
            &&& ().completed(receiver, selector).words() == words
        }),
        ({
            let words = seq![to_super.bits, selector.bits];
            &&& (to_super, selector).words() == words
            &&& ().completed(to_super, selector).words() == words
        }),
{
    let words = seq![receiver.bits, selector.bits];
    assert((receiver, selector).words() =~= words);
    let words = seq![to_super.bits, selector.bits];
    assert((to_super, selector).words() =~= words);
}

/// The words of a message with one argument of its own are that of the target,
/// that of the selector, and those of the argument.
pub proof fn law_words_of_one<T: MessageTarget, A1: GuestArg>(
    target: T,
    selector: SEL,
    a1: A1,
)
    ensures
        ({
            let words = seq![target.target_bits(), selector.bits] + a1.arg_words();
            &&& (target, selector, a1).words() == words
            &&& (a1,).completed(target, selector).words() == words
        }),
{
    let words = seq![target.target_bits(), selector.bits] + a1.arg_words();
    assert((target, selector, a1).words() =~= words);
}

/// A message with one argument of its own, of one word, is passed as these words.
pub proof fn law_word_order_of_one(
    receiver: id,
    to_super: SuperPtr,
    selector: SEL,
    a1: u32,
    o1: id,
)
    ensures
        ({
            let words = seq![receiver.bits, selector.bits, a1];
            &&& (receiver, selector, a1).words() == words
            &&& (a1,).completed(receiver, selector).words() == words
        }),
        ({
            let words = seq![receiver.bits, selector.bits, o1.bits];
            &&& (receiver, selector, o1).words() == words
            &&& (o1,).completed(receiver, selector).words() == words
        }),
        ({
            let words = seq![to_super.bits, selector.bits, a1];
            &&& (to_super, selector, a1).words() == words
            &&& (a1,).completed(to_super, selector).words() == words
        }),
        ({
            let words = seq![to_super.bits, selector.bits, o1.bits];
            &&& (to_super, selector, o1).words() == words
            &&& (o1,).completed(to_super, selector).words() == words
        }),
{
    let words = seq![receiver.bits, selector.bits, a1];
    assert((receiver, selector, a1).words() =~= words);
    let words = seq![receiver.bits, selector.bits, o1.bits];
    assert((receiver, selector, o1).words() =~= words);
    let words = seq![to_super.bits, selector.bits, a1];
    assert((to_super, selector, a1).words() =~= words);
    let words = seq![to_super.bits, selector.bits, o1.bits];
    assert((to_super, selector, o1).words() =~= words);
}

/// The words of a message with two arguments of its own are that of the target,
/// that of the selector, and those of the arguments in order.
pub proof fn law_words_of_two<T: MessageTarget, A1: GuestArg, A2: GuestArg>(
    target: T,
    selector: SEL,
    a1: A1,
    a2: A2,
)
    ensures
        ({
            let words = seq![target.target_bits(), selector.bits] + a1.arg_words() + a2.arg_words();
            &&& (target, selector, a1, a2).words() == words
            &&& (a1, a2).completed(target, selector).words() == words
        }),
{
    let words = seq![target.target_bits(), selector.bits] + a1.arg_words() + a2.arg_words();
    assert((target, selector, a1, a2).words() =~= words);
}

/// A message with two arguments of its own, each of one word, is passed as these words.
pub proof fn law_word_order_of_two(
    receiver: id,
    to_super: SuperPtr,
    selector: SEL,
    a1: u32,
    a2: u32,
    o1: id,
    o2: id,
)
    ensures
        ({
            let words = seq![receiver.bits, selector.bits, a1, a2];
            &&& (receiver, selector, a1, a2).words() == words
            &&& (a1, a2).completed(receiver, selector).words() == words
        }),
        ({
            let words = seq![receiver.bits, selector.bits, o1.bits, o2.bits];
            &&& (receiver, selector, o1, o2).words() == words
            &&& (o1, o2).completed(receiver, selector).words() == words
        }),
        ({
            let words = seq![to_super.bits, selector.bits, a1, a2];
            &&& (to_super, selector, a1, a2).words() == words
            &&& (a1, a2).completed(to_super, selector).words() == words
        }),
        ({
            let words = seq![to_super.bits, selector.bits, o1.bits, o2.bits];
            &&& (to_super, selector, o1, o2).words() == words
            &&& (o1, o2).completed(to_super, selector).words() == words
        }),
{
    let words = seq![receiver.bits, selector.bits, a1, a2];
    assert((receiver, selector, a1, a2).words() =~= words);
    let words = seq![receiver.bits, selector.bits, o1.bits, o2.bits];
    assert((receiver, selector, o1, o2).words() =~= words);
    let words = seq![to_super.bits, selector.bits, a1, a2];
    assert((to_super, selector, a1, a2).words() =~= words);
    let words = seq![to_super.bits, selector.bits, o1.bits, o2.bits];
    assert((to_super, selector, o1, o2).words() =~= words);
}

/// The words of a message with three arguments of its own are that of the target,
/// that of the selector, and those of the arguments in order.
pub proof fn law_words_of_three<T: MessageTarget, A1: GuestArg, A2: GuestArg, A3: GuestArg>(
    target: T,
    selector: SEL,
    a1: A1,
    a2: A2,
    a3: A3,
)
    ensures
        ({
            let words = seq![target.target_bits(), selector.bits] + a1.arg_words() + a2.arg_words()
                + a3.arg_words();
            &&& (target, selector, a1, a2, a3).words() == words
            &&& (a1, a2, a3).completed(target, selector).words() == words
        }),
{
    let words = seq![target.target_bits(), selector.bits] + a1.arg_words() + a2.arg_words()
        + a3.arg_words();
    assert((target, selector, a1, a2, a3).words() =~= words);
}

/// A message with three arguments of its own, each of one word, is passed as these words.
pub proof fn law_word_order_of_three(
    receiver: id,
    to_super: SuperPtr,
    selector: SEL,
    a1: u32,
    a2: u32,
    a3: u32,
    o1: id,
    o2: id,
    o3: id,
)
    ensures
        ({
            let words = seq![receiver.bits, selector.bits, a1, a2, a3];
            &&& (receiver, selector, a1, a2, a3).words() == words
            &&& (a1, a2, a3).completed(receiver, selector).words() == words
        }),
        ({
            let words = seq![receiver.bits, selector.bits, o1.bits, o2.bits, o3.bits];
            &&& (receiver, selector, o1, o2, o3).words() == words
            &&& (o1, o2, o3).completed(receiver, selector).words() == words
        }),
        ({
            let words = seq![to_super.bits, selector.bits, a1, a2, a3];
            &&& (to_super, selector, a1, a2, a3).words() == words
            &&& (a1, a2, a3).completed(to_super, selector).words() == words
        }),
        ({
            let words = seq![to_super.bits, selector.bits, o1.bits, o2.bits, o3.bits];
            &&& (to_super, selector, o1, o2, o3).words() == words
            &&& (o1, o2, o3).completed(to_super, selector).words() == words
        }),
{
    let words = seq![receiver.bits, selector.bits, a1, a2, a3];
    assert((receiver, selector, a1, a2, a3).words() =~= words);
    let words = seq![receiver.bits, selector.bits, o1.bits, o2.bits, o3.bits];
    assert((receiver, selector, o1, o2, o3).words() =~= words);
    let words = seq![to_super.bits, selector.bits, a1, a2, a3];
    assert((to_super, selector, a1, a2, a3).words() =~= words);
    let words = seq![to_super.bits, selector.bits, o1.bits, o2.bits, o3.bits];
    assert((to_super, selector, o1, o2, o3).words() =~= words);
}

/// The words of a message with four arguments of its own are that of the target,
/// that of the selector, and those of the arguments in order.
pub proof fn law_words_of_four<
    T: MessageTarget, A1: GuestArg, A2: GuestArg, A3: GuestArg, A4: GuestArg,
>(
    target: T,
    selector: SEL,
    a1: A1,
    a2: A2,
    a3: A3,
    a4: A4,
)
    ensures
        ({
            let words = seq![target.target_bits(), selector.bits] + a1.arg_words() + a2.arg_words()
                + a3.arg_words() + a4.arg_words();
            &&& (target, selector, a1, a2, a3, a4).words() == words
            &&& (a1, a2, a3, a4).completed(target, selector).words() == words
        }),
{
    let words = seq![target.target_bits(), selector.bits] + a1.arg_words() + a2.arg_words()
        + a3.arg_words() + a4.arg_words();
    assert((target, selector, a1, a2, a3, a4).words() =~= words);
}

/// A message with four arguments of its own, each of one word, is passed as these words.
pub proof fn law_word_order_of_four(
    receiver: id,
    to_super: SuperPtr,
    selector: SEL,
    a1: u32,
    a2: u32,
    a3: u32,
    a4: u32,
    o1: id,
    o2: id,
    o3: id,
    o4: id,
)
    ensures
        ({
            let words = seq![receiver.bits, selector.bits, a1, a2, a3, a4];
            &&& (receiver, selector, a1, a2, a3, a4).words() == words
            &&& (a1, a2, a3, a4).completed(receiver, selector).words() == words
        }),
        ({
            let words = seq![receiver.bits, selector.bits, o1.bits, o2.bits, o3.bits, o4.bits];
            &&& (receiver, selector, o1, o2, o3, o4).words() == words
            &&& (o1, o2, o3, o4).completed(receiver, selector).words() == words
        }),
        ({
            let words = seq![to_super.bits, selector.bits, a1, a2, a3, a4];
            &&& (to_super, selector, a1, a2, a3, a4).words() == words
            &&& (a1, a2, a3, a4).completed(to_super, selector).words() == words
        }),
        ({
            let words = seq![to_super.bits, selector.bits, o1.bits, o2.bits, o3.bits, o4.bits];
            &&& (to_super, selector, o1, o2, o3, o4).words() == words
            &&& (o1, o2, o3, o4).completed(to_super, selector).words() == words
        }),
{
    let words = seq![receiver.bits, selector.bits, a1, a2, a3, a4];
    assert((receiver, selector, a1, a2, a3, a4).words() =~= words);
    let words = seq![receiver.bits, selector.bits, o1.bits, o2.bits, o3.bits, o4.bits];
    assert((receiver, selector, o1, o2, o3, o4).words() =~= words);
    let words = seq![to_super.bits, selector.bits, a1, a2, a3, a4];
    assert((to_super, selector, a1, a2, a3, a4).words() =~= words);
    let words = seq![to_super.bits, selector.bits, o1.bits, o2.bits, o3.bits, o4.bits];
    assert((to_super, selector, o1, o2, o3, o4).words() =~= words);
}

/// The words of a message with five arguments of its own are that of the target,
/// that of the selector, and those of the arguments in order.
pub proof fn law_words_of_five<
    T: MessageTarget, A1: GuestArg, A2: GuestArg, A3: GuestArg, A4: GuestArg, A5: GuestArg,
>(
    target: T,
    selector: SEL,
    a1: A1,
    a2: A2,
    a3: A3,
    a4: A4,
    a5: A5,
)
    ensures
        ({
            let words = seq![target.target_bits(), selector.bits] + a1.arg_words() + a2.arg_words()
                + a3.arg_words() + a4.arg_words() + a5.arg_words();
            &&& (target, selector, a1, a2, a3, a4, a5).words() == words
            &&& (a1, a2, a3, a4, a5).completed(target, selector).words() == words
        }),
{
    let words = seq![target.target_bits(), selector.bits] + a1.arg_words() + a2.arg_words()
        + a3.arg_words() + a4.arg_words() + a5.arg_words();
    assert((target, selector, a1, a2, a3, a4, a5).words() =~= words);
}

/// A message with five arguments of its own, each of one word, is passed as these words.
pub proof fn law_word_order_of_five(
    receiver: id,
    to_super: SuperPtr,
    selector: SEL,
    a1: u32,
    a2: u32,
    a3: u32,
    a4: u32,
    a5: u32,
    o1: id,
    o2: id,
    o3: id,
    o4: id,
    o5: id,
)
    ensures
        ({
            let words = seq![receiver.bits, selector.bits, a1, a2, a3, a4, a5];
            &&& (receiver, selector, a1, a2, a3, a4, a5).words() == words
            &&& (a1, a2, a3, a4, a5).completed(receiver, selector).words() == words
        }),
        ({
            let words = seq![
                receiver.bits, selector.bits, o1.bits, o2.bits, o3.bits, o4.bits, o5.bits,
            ];
            &&& (receiver, selector, o1, o2, o3, o4, o5).words() == words
            &&& (o1, o2, o3, o4, o5).completed(receiver, selector).words() == words
        }),
        ({
            let words = seq![to_super.bits, selector.bits, a1, a2, a3, a4, a5];
            &&& (to_super, selector, a1, a2, a3, a4, a5).words() == words
            &&& (a1, a2, a3, a4, a5).completed(to_super, selector).words() == words
        }),
        ({
            let words = seq![
                to_super.bits, selector.bits, o1.bits, o2.bits, o3.bits, o4.bits, o5.bits,
            ];
            &&& (to_super, selector, o1, o2, o3, o4, o5).words() == words
            &&& (o1, o2, o3, o4, o5).completed(to_super, selector).words() == words
        }),
{
    let words = seq![receiver.bits, selector.bits, a1, a2, a3, a4, a5];
    assert((receiver, selector, a1, a2, a3, a4, a5).words() =~= words);
    let words = seq![receiver.bits, selector.bits, o1.bits, o2.bits, o3.bits, o4.bits, o5.bits];
    assert((receiver, selector, o1, o2, o3, o4, o5).words() =~= words);
    let words = seq![to_super.bits, selector.bits, a1, a2, a3, a4, a5];
    assert((to_super, selector, a1, a2, a3, a4, a5).words() =~= words);
    let words = seq![to_super.bits, selector.bits, o1.bits, o2.bits, o3.bits, o4.bits, o5.bits];
    assert((to_super, selector, o1, o2, o3, o4, o5).words() =~= words);
}

/// The words of a message with six arguments of its own are that of the target,
/// that of the selector, and those of the arguments in order.
pub proof fn law_words_of_six<
    T: MessageTarget, A1: GuestArg, A2: GuestArg, A3: GuestArg, A4: GuestArg, A5: GuestArg,
    A6: GuestArg,
>(
    target: T,
    selector: SEL,
    a1: A1,
    a2: A2,
    a3: A3,
    a4: A4,
    a5: A5,
    a6: A6,
)
    ensures
        ({
            let words = seq![target.target_bits(), selector.bits] + a1.arg_words() + a2.arg_words()
                + a3.arg_words() + a4.arg_words() + a5.arg_words() + a6.arg_words();
            &&& (target, selector, a1, a2, a3, a4, a5, a6).words() == words
            &&& (a1, a2, a3, a4, a5, a6).completed(target, selector).words() == words
        }),
{
    let words = seq![target.target_bits(), selector.bits] + a1.arg_words() + a2.arg_words()
        + a3.arg_words() + a4.arg_words() + a5.arg_words() + a6.arg_words();
    assert((target, selector, a1, a2, a3, a4, a5, a6).words() =~= words);
}

/// A message with six arguments of its own, each of one word, is passed as these words.
pub proof fn law_word_order_of_six(
    receiver: id,
    to_super: SuperPtr,
    selector: SEL,
    a1: u32,
    a2: u32,
    a3: u32,
    a4: u32,
    a5: u32,
    a6: u32,
    o1: id,
    o2: id,
    o3: id,
    o4: id,
    o5: id,
    o6: id,
)
    ensures
        ({
            let words = seq![receiver.bits, selector.bits, a1, a2, a3, a4, a5, a6];
            &&& (receiver, selector, a1, a2, a3, a4, a5, a6).words() == words
            &&& (a1, a2, a3, a4, a5, a6).completed(receiver, selector).words() == words
        }),
        ({
            let words = seq![
                receiver.bits, selector.bits, o1.bits, o2.bits, o3.bits, o4.bits, o5.bits, o6.bits,
            ];
            &&& (receiver, selector, o1, o2, o3, o4, o5, o6).words() == words
            &&& (o1, o2, o3, o4, o5, o6).completed(receiver, selector).words() == words
        }),
        ({
            let words = seq![to_super.bits, selector.bits, a1, a2, a3, a4, a5, a6];
            &&& (to_super, selector, a1, a2, a3, a4, a5, a6).words() == words
            &&& (a1, a2, a3, a4, a5, a6).completed(to_super, selector).words() == words
        }),
        ({
            let words = seq![
                to_super.bits, selector.bits, o1.bits, o2.bits, o3.bits, o4.bits, o5.bits, o6.bits,
            ];
            &&& (to_super, selector, o1, o2, o3, o4, o5, o6).words() == words
            &&& (o1, o2, o3, o4, o5, o6).completed(to_super, selector).words() == words
        }),
{
    let words = seq![receiver.bits, selector.bits, a1, a2, a3, a4, a5, a6];
    assert((receiver, selector, a1, a2, a3, a4, a5, a6).words() =~= words);
    let words = seq![
        receiver.bits, selector.bits, o1.bits, o2.bits, o3.bits, o4.bits, o5.bits, o6.bits,
    ];
    assert((receiver, selector, o1, o2, o3, o4, o5, o6).words() =~= words);
    let words = seq![to_super.bits, selector.bits, a1, a2, a3, a4, a5, a6];
    assert((to_super, selector, a1, a2, a3, a4, a5, a6).words() =~= words);
    let words = seq![
        to_super.bits, selector.bits, o1.bits, o2.bits, o3.bits, o4.bits, o5.bits, o6.bits,
    ];
    assert((to_super, selector, o1, o2, o3, o4, o5, o6).words() =~= words);
}

/// The words of a message with seven arguments of its own are that of the target,
/// that of the selector, and those of the arguments in order.
pub proof fn law_words_of_seven<
    T: MessageTarget, A1: GuestArg, A2: GuestArg, A3: GuestArg, A4: GuestArg, A5: GuestArg,
    A6: GuestArg, A7: GuestArg,
>(
    target: T,
    selector: SEL,
    a1: A1,
    a2: A2,
    a3: A3,
    a4: A4,
    a5: A5,
    a6: A6,
    a7: A7,
)
    ensures
        ({
            let words = seq![target.target_bits(), selector.bits] + a1.arg_words() + a2.arg_words()
                + a3.arg_words() + a4.arg_words() + a5.arg_words() + a6.arg_words()
                + a7.arg_words();
            &&& (target, selector, a1, a2, a3, a4, a5, a6, a7).words() == words
            &&& (a1, a2, a3, a4, a5, a6, a7).completed(target, selector).words() == words
        }),
{
    let words = seq![target.target_bits(), selector.bits] + a1.arg_words() + a2.arg_words()
        + a3.arg_words() + a4.arg_words() + a5.arg_words() + a6.arg_words() + a7.arg_words();
    assert((target, selector, a1, a2, a3, a4, a5, a6, a7).words() =~= words);
}

/// A message with seven arguments of its own, each of one word, is passed as these words.
pub proof fn law_word_order_of_seven(
    receiver: id,
    to_super: SuperPtr,
    selector: SEL,
    a1: u32,
    a2: u32,
    a3: u32,
    a4: u32,
    a5: u32,
    a6: u32,
    a7: u32,
    o1: id,
    o2: id,
    o3: id,
    o4: id,
    o5: id,
    o6: id,
    o7: id,
)
    ensures
        ({
            let words = seq![receiver.bits, selector.bits, a1, a2, a3, a4, a5, a6, a7];
            &&& (receiver, selector, a1, a2, a3, a4, a5, a6, a7).words() == words
            &&& (a1, a2, a3, a4, a5, a6, a7).completed(receiver, selector).words() == words
        }),
        ({
            let words = seq![
                receiver.bits, selector.bits, o1.bits, o2.bits, o3.bits, o4.bits, o5.bits, o6.bits,
                o7.bits,
            ];
            &&& (receiver, selector, o1, o2, o3, o4, o5, o6, o7).words() == words
            &&& (o1, o2, o3, o4, o5, o6, o7).completed(receiver, selector).words() == words
        }),
        ({
            let words = seq![to_super.bits, selector.bits, a1, a2, a3, a4, a5, a6, a7];
            &&& (to_super, selector, a1, a2, a3, a4, a5, a6, a7).words() == words
            &&& (a1, a2, a3, a4, a5, a6, a7).completed(to_super, selector).words() == words
        }),
        ({
            let words = seq![
                to_super.bits, selector.bits, o1.bits, o2.bits, o3.bits, o4.bits, o5.bits, o6.bits,
                o7.bits,
            ];
            &&& (to_super, selector, o1, o2, o3, o4, o5, o6, o7).words() == words
            &&& (o1, o2, o3, o4, o5, o6, o7).completed(to_super, selector).words() == words
        }),
{
    let words = seq![receiver.bits, selector.bits, a1, a2, a3, a4, a5, a6, a7];
    assert((receiver, selector, a1, a2, a3, a4, a5, a6, a7).words() =~= words);
    let words = seq![
        receiver.bits, selector.bits, o1.bits, o2.bits, o3.bits, o4.bits, o5.bits, o6.bits,
        o7.bits,
    ];
    assert((receiver, selector, o1, o2, o3, o4, o5, o6, o7).words() =~= words);
    let words = seq![to_super.bits, selector.bits, a1, a2, a3, a4, a5, a6, a7];
    assert((to_super, selector, a1, a2, a3, a4, a5, a6, a7).words() =~= words);
    let words = seq![
        to_super.bits, selector.bits, o1.bits, o2.bits, o3.bits, o4.bits, o5.bits, o6.bits,
        o7.bits,
    ];
    assert((to_super, selector, o1, o2, o3, o4, o5, o6, o7).words() =~= words);
}

/// The words of a message with eight arguments of its own are that of the target,
/// that of the selector, and those of the arguments in order.
pub proof fn law_words_of_eight<
    T: MessageTarget, A1: GuestArg, A2: GuestArg, A3: GuestArg, A4: GuestArg, A5: GuestArg,
    A6: GuestArg, A7: GuestArg, A8: GuestArg,
>(
    target: T,
    selector: SEL,
    a1: A1,
    a2: A2,
    a3: A3,
    a4: A4,
    a5: A5,
    a6: A6,
    a7: A7,
    a8: A8,
)
    ensures
        ({
            let words = seq![target.target_bits(), selector.bits] + a1.arg_words() + a2.arg_words()
                + a3.arg_words() + a4.arg_words() + a5.arg_words() + a6.arg_words()
                + a7.arg_words() + a8.arg_words();
            &&& (target, selector, a1, a2, a3, a4, a5, a6, a7, a8).words() == words
            &&& (a1, a2, a3, a4, a5, a6, a7, a8).completed(target, selector).words() == words
        }),
{
    let words = seq![target.target_bits(), selector.bits] + a1.arg_words() + a2.arg_words()
        + a3.arg_words() + a4.arg_words() + a5.arg_words() + a6.arg_words() + a7.arg_words()
        + a8.arg_words();
    assert((target, selector, a1, a2, a3, a4, a5, a6, a7, a8).words() =~= words);
}

/// A message with eight arguments of its own, each of one word, is passed as these words.
pub proof fn law_word_order_of_eight(
    receiver: id,
    to_super: SuperPtr,
    selector: SEL,
    a1: u32,
    a2: u32,
    a3: u32,
    a4: u32,
    a5: u32,
    a6: u32,
    a7: u32,
    a8: u32,
    o1: id,
    o2: id,
    o3: id,
    o4: id,
    o5: id,
    o6: id,
    o7: id,
    o8: id,
)
    ensures
        ({
            let words = seq![receiver.bits, selector.bits, a1, a2, a3, a4, a5, a6, a7, a8];
            &&& (receiver, selector, a1, a2, a3, a4, a5, a6, a7, a8).words() == words
            &&& (a1, a2, a3, a4, a5, a6, a7, a8).completed(receiver, selector).words() == words
        }),
        ({
            let words = seq![
                receiver.bits, selector.bits, o1.bits, o2.bits, o3.bits, o4.bits, o5.bits, o6.bits,
                o7.bits, o8.bits,
            ];
            &&& (receiver, selector, o1, o2, o3, o4, o5, o6, o7, o8).words() == words
            &&& (o1, o2, o3, o4, o5, o6, o7, o8).completed(receiver, selector).words() == words
        }),
        ({
            let words = seq![to_super.bits, selector.bits, a1, a2, a3, a4, a5, a6, a7, a8];
            &&& (to_super, selector, a1, a2, a3, a4, a5, a6, a7, a8).words() == words
            &&& (a1, a2, a3, a4, a5, a6, a7, a8).completed(to_super, selector).words() == words
        }),
        ({
            let words = seq![
                to_super.bits, selector.bits, o1.bits, o2.bits, o3.bits, o4.bits, o5.bits, o6.bits,
                o7.bits, o8.bits,
            ];
            &&& (to_super, selector, o1, o2, o3, o4, o5, o6, o7, o8).words() == words
            &&& (o1, o2, o3, o4, o5, o6, o7, o8).completed(to_super, selector).words() == words
        }),
{
    let words = seq![receiver.bits, selector.bits, a1, a2, a3, a4, a5, a6, a7, a8];
    assert((receiver, selector, a1, a2, a3, a4, a5, a6, a7, a8).words() =~= words);
    let words = seq![
        receiver.bits, selector.bits, o1.bits, o2.bits, o3.bits, o4.bits, o5.bits, o6.bits,
        o7.bits, o8.bits,
    ];
    assert((receiver, selector, o1, o2, o3, o4, o5, o6, o7, o8).words() =~= words);
    let words = seq![to_super.bits, selector.bits, a1, a2, a3, a4, a5, a6, a7, a8];
    assert((to_super, selector, a1, a2, a3, a4, a5, a6, a7, a8).words() =~= words);
    let words = seq![
        to_super.bits, selector.bits, o1.bits, o2.bits, o3.bits, o4.bits, o5.bits, o6.bits,
        o7.bits, o8.bits,
    ];
    assert((to_super, selector, o1, o2, o3, o4, o5, o6, o7, o8).words() =~= words);
}

/// The words of a message with nine arguments of its own are that of the target,
/// that of the selector, and those of the arguments in order.
pub proof fn law_words_of_nine<
    T: MessageTarget, A1: GuestArg, A2: GuestArg, A3: GuestArg, A4: GuestArg, A5: GuestArg,
    A6: GuestArg, A7: GuestArg, A8: GuestArg, A9: GuestArg,
>(
    target: T,
    selector: SEL,
    a1: A1,
    a2: A2,
    a3: A3,
    a4: A4,
    a5: A5,
    a6: A6,
    a7: A7,
    a8: A8,
    a9: A9,
)
    ensures
        ({
            let words = seq![target.target_bits(), selector.bits] + a1.arg_words() + a2.arg_words()
                + a3.arg_words() + a4.arg_words() + a5.arg_words() + a6.arg_words()
                + a7.arg_words() + a8.arg_words() + a9.arg_words();
            &&& (target, selector, a1, a2, a3, a4, a5, a6, a7, a8, a9).words() == words
            &&& (a1, a2, a3, a4, a5, a6, a7, a8, a9).completed(target, selector).words() == words
        }),
{
    let words = seq![target.target_bits(), selector.bits] + a1.arg_words() + a2.arg_words()
        + a3.arg_words() + a4.arg_words() + a5.arg_words() + a6.arg_words() + a7.arg_words()
        + a8.arg_words() + a9.arg_words();
    assert((target, selector, a1, a2, a3, a4, a5, a6, a7, a8, a9).words() =~= words);
}

/// A message with nine arguments of its own, each of one word, is passed as these words.
pub proof fn law_word_order_of_nine(
    receiver: id,
    to_super: SuperPtr,
    selector: SEL,
    a1: u32,
    a2: u32,
    a3: u32,
    a4: u32,
    a5: u32,
    a6: u32,
    a7: u32,
    a8: u32,
    a9: u32,
    o1: id,
    o2: id,
    o3: id,
    o4: id,
    o5: id,
    o6: id,
    o7: id,
    o8: id,
    o9: id,
)
    ensures
        ({
            let words = seq![receiver.bits, selector.bits, a1, a2, a3, a4, a5, a6, a7, a8, a9];
            &&& (receiver, selector, a1, a2, a3, a4, a5, a6, a7, a8, a9).words() == words
            &&& (a1, a2, a3, a4, a5, a6, a7, a8, a9).completed(receiver, selector).words() == words
        }),
        ({
            let words = seq![
                receiver.bits, selector.bits, o1.bits, o2.bits, o3.bits, o4.bits, o5.bits, o6.bits,
                o7.bits, o8.bits, o9.bits,
            ];
            &&& (receiver, selector, o1, o2, o3, o4, o5, o6, o7, o8, o9).words() == words
            &&& (o1, o2, o3, o4, o5, o6, o7, o8, o9).completed(receiver, selector).words() == words
        }),
        ({
            let words = seq![to_super.bits, selector.bits, a1, a2, a3, a4, a5, a6, a7, a8, a9];
            &&& (to_super, selector, a1, a2, a3, a4, a5, a6, a7, a8, a9).words() == words
            &&& (a1, a2, a3, a4, a5, a6, a7, a8, a9).completed(to_super, selector).words() == words
        }),
        ({
            let words = seq![
                to_super.bits, selector.bits, o1.bits, o2.bits, o3.bits, o4.bits, o5.bits, o6.bits,
                o7.bits, o8.bits, o9.bits,
            ];
            &&& (to_super, selector, o1, o2, o3, o4, o5, o6, o7, o8, o9).words() == words
            &&& (o1, o2, o3, o4, o5, o6, o7, o8, o9).completed(to_super, selector).words() == words
        }),
{
    let words = seq![receiver.bits, selector.bits, a1, a2, a3, a4, a5, a6, a7, a8, a9];
    assert((receiver, selector, a1, a2, a3, a4, a5, a6, a7, a8, a9).words() =~= words);
    let words = seq![
        receiver.bits, selector.bits, o1.bits, o2.bits, o3.bits, o4.bits, o5.bits, o6.bits,
        o7.bits, o8.bits, o9.bits,
    ];
    assert((receiver, selector, o1, o2, o3, o4, o5, o6, o7, o8, o9).words() =~= words);
    let words = seq![to_super.bits, selector.bits, a1, a2, a3, a4, a5, a6, a7, a8, a9];
    assert((to_super, selector, a1, a2, a3, a4, a5, a6, a7, a8, a9).words() =~= words);
    let words = seq![
        to_super.bits, selector.bits, o1.bits, o2.bits, o3.bits, o4.bits, o5.bits, o6.bits,
        o7.bits, o8.bits, o9.bits,
    ];
    assert((to_super, selector, o1, o2, o3, o4, o5, o6, o7, o8, o9).words() =~= words);
}

/// Arguments of one word are passed as that word; a negative number is passed as its
/// two's complement.
pub proof fn law_arguments_are_words(a: u32, b: i32, c: id, d: SEL)
    ensures
        a.arg_words() == seq![a],
        b.arg_words().len() == 1,
        b.arg_words()[0] == (if b < 0 {
            b + 0x1_0000_0000
        } else {
            b as int
        }),
        c.arg_words() == seq![c.bits],
        d.arg_words() == seq![d.bits],
{
    if b < 0 {
        assert(b as u32 == b + 0x1_0000_0000) by (bit_vector)
            requires
                b < 0,
        ;
    }
}

/// Results are taken from registers 0 and 1, the low word first, or, if they are
/// structs, from memory, in order.
pub proof fn law_results_are_words(w: Seq<u32>)
    ensures
        <() as GuestRet>::words_in_memory() is None,
        <u32 as GuestRet>::words_in_memory() is None,
        <u32 as GuestRet>::of_words(w) == w[0],
        <i32 as GuestRet>::words_in_memory() is None,
        <i32 as GuestRet>::of_words(w) == (if w[0] >= 0x8000_0000 {
            w[0] - 0x1_0000_0000
        } else {
            w[0] as int
        }),
        <id as GuestRet>::words_in_memory() is None,
        <id as GuestRet>::of_words(w).bits == w[0],
        <SEL as GuestRet>::words_in_memory() is None,
        <SEL as GuestRet>::of_words(w).bits == w[0],
        <u64 as GuestRet>::words_in_memory() is None,
        <u64 as GuestRet>::of_words(w) == w[0] + 0x1_0000_0000 * w[1],
        <(u32, u32) as GuestRet>::words_in_memory() == Some(2nat),
        <(u32, u32) as GuestRet>::of_words(w) == (w[0], w[1]),
        <(u32, u32, u32, u32) as GuestRet>::words_in_memory() == Some(4nat),
        <(u32, u32, u32, u32) as GuestRet>::of_words(w) == (w[0], w[1], w[2], w[3]),
{
    let low: u32 = w[0];
    if low >= 0x8000_0000 {
        assert(low as i32 == low - 0x1_0000_0000) by (bit_vector)
            requires
                low >= 0x8000_0000,
        ;
    }
}

} // verus!
