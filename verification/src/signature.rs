//! The Rust signatures of messages.
//!
//! A message is sent with a tuple of arguments: the receiver, the selector, and
//! up to nine arguments of its own.

use std::any::TypeId;
use vstd::prelude::*;

use crate::abi::{GuestArg, MessageTarget};
use crate::types::{id, SuperPtr, TypeInfo, SEL};

verus! {

/// `TypeId::of`, so that contracts can speak of what it returns for a type.
/// Nothing is claimed here of which identifier a type has.
pub assume_specification<T: ?Sized + 'static>[ TypeId::of::<T> ]() -> (type_id: TypeId);

/// `TypeId::of`: the identifier of a type. A type has one identifier: whatever
/// `TypeId::of` returns for the type, at any time, is the identifier that this call
/// returns. It is not claimed that two types have different identifiers: there is
/// no way to say of two type parameters that they are different types.
#[verifier::external_body]
fn type_id_of<T: ?Sized + 'static>() -> (type_id: TypeId)
    ensures
        call_ensures(TypeId::of::<T>, (), type_id),
        forall|other: TypeId| #[trigger]
            call_ensures(TypeId::of::<T>, (), other) ==> other == type_id,
{
    TypeId::of::<T>()
}

/// Trait that assists with type-checking of `msg_send`'s arguments.
///
/// - Statically constrains the types of `msg_send`'s arguments so that the
///   first two are always `id` and `SEL`.
/// - Provides the type ID to enable dynamic type checking of subsequent
///   arguments and the return type.
///
/// See also [MsgSendSuperSignature].
pub trait MsgSendSignature: 'static {
    /// Get the `TypeId` and a human-readable description for this signature.
    /// Space is not wasted on the names of types: all signatures have the same
    /// description.
    fn type_info() -> (info: TypeInfo) where Self: Sized
        ensures
            call_ensures(TypeId::of::<Self>, (), info.0),
            forall|other: TypeId| #[trigger]
                call_ensures(TypeId::of::<Self>, (), other) ==> other == info.0,
            info.1@ == "[description unavailable in release builds]"@,
    {
        (type_id_of::<Self>(), "[description unavailable in release builds]")
    }
}

/// A signature has the same identifier and the same description every time that it
/// is asked for them, and the identifier is that of the signature's type.
pub proof fn law_signatures_have_one_identity<S: MsgSendSignature>(
    first: TypeInfo,
    second: TypeInfo,
)
    requires
        call_ensures(<S as MsgSendSignature>::type_info, (), first),
        call_ensures(<S as MsgSendSignature>::type_info, (), second),
    ensures
        call_ensures(TypeId::of::<S>, (), first.0),
        first.0 == second.0,
        first.1@ == second.1@,
{
}

/// Counterpart of [MsgSendSignature] for `msg_send_super2`.
pub trait MsgSendSuperSignature: 'static {
    /// Signature with the `objc_super` pointer replaced by `id`.
    type WithoutSuper: MsgSendSignature;
}

/// The arguments of a message.
pub trait MessageArgs: Sized {
    /// The words that the arguments are passed as. The first is the address of
    /// what the message is addressed to, the second that of the selector.
    spec fn words(self) -> Seq<u32>;

    /// The words that the arguments are passed as.
    fn into_words(self) -> (words: Vec<u32>)
        ensures
            words@ == self.words(),
            words@.len() >= 2,
    ;
}

/// A message's own arguments, which a target and a selector make complete.
pub trait OwnArgs<T>: Sized {
    type Complete: MessageArgs;

    spec fn completed(self, target: T, selector: SEL) -> Self::Complete;

    /// Puts the target and the selector before the arguments.
    fn complete(self, target: T, selector: SEL) -> (args: Self::Complete)
        ensures
            args == self.completed(target, selector),
    ;
}

impl<R: 'static> MsgSendSignature for (R, (id, SEL)) {

}

impl<R: 'static, P1: 'static> MsgSendSignature for (R, (id, SEL, P1)) {

}

impl<R: 'static, P1: 'static, P2: 'static> MsgSendSignature for (R, (id, SEL, P1, P2)) {

}

impl<
    R: 'static, P1: 'static, P2: 'static, P3: 'static,
> MsgSendSignature for (R, (id, SEL, P1, P2, P3)) {

}

impl<
    R: 'static, P1: 'static, P2: 'static, P3: 'static, P4: 'static,
> MsgSendSignature for (R, (id, SEL, P1, P2, P3, P4)) {

}

impl<
    R: 'static, P1: 'static, P2: 'static, P3: 'static, P4: 'static, P5: 'static,
> MsgSendSignature for (R, (id, SEL, P1, P2, P3, P4, P5)) {

}

impl<
    R: 'static, P1: 'static, P2: 'static, P3: 'static, P4: 'static, P5: 'static, P6: 'static,
> MsgSendSignature for (R, (id, SEL, P1, P2, P3, P4, P5, P6)) {

}

impl<
    R: 'static, P1: 'static, P2: 'static, P3: 'static, P4: 'static, P5: 'static, P6: 'static,
    P7: 'static,
> MsgSendSignature for (R, (id, SEL, P1, P2, P3, P4, P5, P6, P7)) {

}

impl<
    R: 'static, P1: 'static, P2: 'static, P3: 'static, P4: 'static, P5: 'static, P6: 'static,
    P7: 'static, P8: 'static,
> MsgSendSignature for (R, (id, SEL, P1, P2, P3, P4, P5, P6, P7, P8)) {

}

impl<
    R: 'static, P1: 'static, P2: 'static, P3: 'static, P4: 'static, P5: 'static, P6: 'static,
    P7: 'static, P8: 'static, P9: 'static,
> MsgSendSignature for (R, (id, SEL, P1, P2, P3, P4, P5, P6, P7, P8, P9)) {

}

impl<R: 'static> MsgSendSuperSignature for (R, (SuperPtr, SEL)) {
    type WithoutSuper = (R, (id, SEL));
}

impl<R: 'static, P1: 'static> MsgSendSuperSignature for (R, (SuperPtr, SEL, P1)) {
    type WithoutSuper = (R, (id, SEL, P1));
}

impl<R: 'static, P1: 'static, P2: 'static> MsgSendSuperSignature for (R, (SuperPtr, SEL, P1, P2)) {
    type WithoutSuper = (R, (id, SEL, P1, P2));
}

impl<
    R: 'static, P1: 'static, P2: 'static, P3: 'static,
> MsgSendSuperSignature for (R, (SuperPtr, SEL, P1, P2, P3)) {
    type WithoutSuper = (R, (id, SEL, P1, P2, P3));
}

impl<
    R: 'static, P1: 'static, P2: 'static, P3: 'static, P4: 'static,
> MsgSendSuperSignature for (R, (SuperPtr, SEL, P1, P2, P3, P4)) {
    type WithoutSuper = (R, (id, SEL, P1, P2, P3, P4));
}

impl<
    R: 'static, P1: 'static, P2: 'static, P3: 'static, P4: 'static, P5: 'static,
> MsgSendSuperSignature for (R, (SuperPtr, SEL, P1, P2, P3, P4, P5)) {
    type WithoutSuper = (R, (id, SEL, P1, P2, P3, P4, P5));
}

impl<
    R: 'static, P1: 'static, P2: 'static, P3: 'static, P4: 'static, P5: 'static, P6: 'static,
> MsgSendSuperSignature for (R, (SuperPtr, SEL, P1, P2, P3, P4, P5, P6)) {
    type WithoutSuper = (R, (id, SEL, P1, P2, P3, P4, P5, P6));
}

impl<
    R: 'static, P1: 'static, P2: 'static, P3: 'static, P4: 'static, P5: 'static, P6: 'static,
    P7: 'static,
> MsgSendSuperSignature for (R, (SuperPtr, SEL, P1, P2, P3, P4, P5, P6, P7)) {
    type WithoutSuper = (R, (id, SEL, P1, P2, P3, P4, P5, P6, P7));
}

impl<
    R: 'static, P1: 'static, P2: 'static, P3: 'static, P4: 'static, P5: 'static, P6: 'static,
    P7: 'static, P8: 'static,
> MsgSendSuperSignature for (R, (SuperPtr, SEL, P1, P2, P3, P4, P5, P6, P7, P8)) {
    type WithoutSuper = (R, (id, SEL, P1, P2, P3, P4, P5, P6, P7, P8));
}

impl<
    R: 'static, P1: 'static, P2: 'static, P3: 'static, P4: 'static, P5: 'static, P6: 'static,
    P7: 'static, P8: 'static, P9: 'static,
> MsgSendSuperSignature for (R, (SuperPtr, SEL, P1, P2, P3, P4, P5, P6, P7, P8, P9)) {
    type WithoutSuper = (R, (id, SEL, P1, P2, P3, P4, P5, P6, P7, P8, P9));
}

impl<T: MessageTarget> MessageArgs for (T, SEL) {
    open spec fn words(self) -> Seq<u32> {
        seq![self.0.target_bits(), self.1.bits]
    }

    fn into_words(self) -> Vec<u32> {
        let mut words: Vec<u32> = Vec::new();
        words.push(self.0.to_bits());
        words.push(self.1.bits);
        assert(words@ =~= self.words());
        words
    }
}

impl<T: MessageTarget, P1: GuestArg> MessageArgs for (T, SEL, P1) {
    open spec fn words(self) -> Seq<u32> {
        seq![self.0.target_bits(), self.1.bits] + self.2.arg_words()
    }

    fn into_words(self) -> Vec<u32> {
        let mut words: Vec<u32> = Vec::new();
        words.push(self.0.to_bits());
        words.push(self.1.bits);
        self.2.push_words(&mut words);
        assert(words@ =~= self.words());
        words
    }
}

impl<T: MessageTarget, P1: GuestArg, P2: GuestArg> MessageArgs for (T, SEL, P1, P2) {
    open spec fn words(self) -> Seq<u32> {
        seq![self.0.target_bits(), self.1.bits] + self.2.arg_words() + self.3.arg_words()
    }

    fn into_words(self) -> Vec<u32> {
        let mut words: Vec<u32> = Vec::new();
        words.push(self.0.to_bits());
        words.push(self.1.bits);
        self.2.push_words(&mut words);
        self.3.push_words(&mut words);
        assert(words@ =~= self.words());
        words
    }
}

impl<
    T: MessageTarget, P1: GuestArg, P2: GuestArg, P3: GuestArg,
> MessageArgs for (T, SEL, P1, P2, P3) {
    open spec fn words(self) -> Seq<u32> {
        seq![self.0.target_bits(), self.1.bits] + self.2.arg_words() + self.3.arg_words()
            + self.4.arg_words()
    }

    fn into_words(self) -> Vec<u32> {
        let mut words: Vec<u32> = Vec::new();
        words.push(self.0.to_bits());
        words.push(self.1.bits);
        self.2.push_words(&mut words);
        self.3.push_words(&mut words);
        self.4.push_words(&mut words);
        assert(words@ =~= self.words());
        words
    }
}

impl<
    T: MessageTarget, P1: GuestArg, P2: GuestArg, P3: GuestArg, P4: GuestArg,
> MessageArgs for (T, SEL, P1, P2, P3, P4) {
    open spec fn words(self) -> Seq<u32> {
        seq![self.0.target_bits(), self.1.bits] + self.2.arg_words() + self.3.arg_words()
            + self.4.arg_words() + self.5.arg_words()
    }

    fn into_words(self) -> Vec<u32> {
        let mut words: Vec<u32> = Vec::new();
        words.push(self.0.to_bits());
        words.push(self.1.bits);
        self.2.push_words(&mut words);
        self.3.push_words(&mut words);
        self.4.push_words(&mut words);
        self.5.push_words(&mut words);
        assert(words@ =~= self.words());
        words
    }
}

impl<
    T: MessageTarget, P1: GuestArg, P2: GuestArg, P3: GuestArg, P4: GuestArg, P5: GuestArg,
> MessageArgs for (T, SEL, P1, P2, P3, P4, P5) {
    open spec fn words(self) -> Seq<u32> {
        seq![self.0.target_bits(), self.1.bits] + self.2.arg_words() + self.3.arg_words()
            + self.4.arg_words() + self.5.arg_words() + self.6.arg_words()
    }

    fn into_words(self) -> Vec<u32> {
        let mut words: Vec<u32> = Vec::new();
        words.push(self.0.to_bits());
        words.push(self.1.bits);
        self.2.push_words(&mut words);
        self.3.push_words(&mut words);
        self.4.push_words(&mut words);
        self.5.push_words(&mut words);
        self.6.push_words(&mut words);
        assert(words@ =~= self.words());
        words
    }
}

impl<
    T: MessageTarget, P1: GuestArg, P2: GuestArg, P3: GuestArg, P4: GuestArg, P5: GuestArg,
    P6: GuestArg,
> MessageArgs for (T, SEL, P1, P2, P3, P4, P5, P6) {
    open spec fn words(self) -> Seq<u32> {
        seq![self.0.target_bits(), self.1.bits] + self.2.arg_words() + self.3.arg_words()
            + self.4.arg_words() + self.5.arg_words() + self.6.arg_words() + self.7.arg_words()
    }

    fn into_words(self) -> Vec<u32> {
        let mut words: Vec<u32> = Vec::new();
        words.push(self.0.to_bits());
        words.push(self.1.bits);
        self.2.push_words(&mut words);
        self.3.push_words(&mut words);
        self.4.push_words(&mut words);
        self.5.push_words(&mut words);
        self.6.push_words(&mut words);
        self.7.push_words(&mut words);
        assert(words@ =~= self.words());
        words
    }
}

impl<
    T: MessageTarget, P1: GuestArg, P2: GuestArg, P3: GuestArg, P4: GuestArg, P5: GuestArg,
    P6: GuestArg, P7: GuestArg,
> MessageArgs for (T, SEL, P1, P2, P3, P4, P5, P6, P7) {
    open spec fn words(self) -> Seq<u32> {
        seq![self.0.target_bits(), self.1.bits] + self.2.arg_words() + self.3.arg_words()
            + self.4.arg_words() + self.5.arg_words() + self.6.arg_words() + self.7.arg_words()
            + self.8.arg_words()
    }

    fn into_words(self) -> Vec<u32> {
        let mut words: Vec<u32> = Vec::new();
        words.push(self.0.to_bits());
        words.push(self.1.bits);
        self.2.push_words(&mut words);
        self.3.push_words(&mut words);
        self.4.push_words(&mut words);
        self.5.push_words(&mut words);
        self.6.push_words(&mut words);
        self.7.push_words(&mut words);
        self.8.push_words(&mut words);
        assert(words@ =~= self.words());
        words
    }
}

impl<
    T: MessageTarget, P1: GuestArg, P2: GuestArg, P3: GuestArg, P4: GuestArg, P5: GuestArg,
    P6: GuestArg, P7: GuestArg, P8: GuestArg,
> MessageArgs for (T, SEL, P1, P2, P3, P4, P5, P6, P7, P8) {
    open spec fn words(self) -> Seq<u32> {
        seq![self.0.target_bits(), self.1.bits] + self.2.arg_words() + self.3.arg_words()
            + self.4.arg_words() + self.5.arg_words() + self.6.arg_words() + self.7.arg_words()
            + self.8.arg_words() + self.9.arg_words()
    }

    fn into_words(self) -> Vec<u32> {
        let mut words: Vec<u32> = Vec::new();
        words.push(self.0.to_bits());
        words.push(self.1.bits);
        self.2.push_words(&mut words);
        self.3.push_words(&mut words);
        self.4.push_words(&mut words);
        self.5.push_words(&mut words);
        self.6.push_words(&mut words);
        self.7.push_words(&mut words);
        self.8.push_words(&mut words);
        self.9.push_words(&mut words);
        assert(words@ =~= self.words());
        words
    }
}

impl<
    T: MessageTarget, P1: GuestArg, P2: GuestArg, P3: GuestArg, P4: GuestArg, P5: GuestArg,
    P6: GuestArg, P7: GuestArg, P8: GuestArg, P9: GuestArg,
> MessageArgs for (T, SEL, P1, P2, P3, P4, P5, P6, P7, P8, P9) {
    open spec fn words(self) -> Seq<u32> {
        seq![self.0.target_bits(), self.1.bits] + self.2.arg_words() + self.3.arg_words()
            + self.4.arg_words() + self.5.arg_words() + self.6.arg_words() + self.7.arg_words()
            + self.8.arg_words() + self.9.arg_words() + self.10.arg_words()
    }

    fn into_words(self) -> Vec<u32> {
        let mut words: Vec<u32> = Vec::new();
        words.push(self.0.to_bits());
        words.push(self.1.bits);
        self.2.push_words(&mut words);
        self.3.push_words(&mut words);
        self.4.push_words(&mut words);
        self.5.push_words(&mut words);
        self.6.push_words(&mut words);
        self.7.push_words(&mut words);
        self.8.push_words(&mut words);
        self.9.push_words(&mut words);
        self.10.push_words(&mut words);
        assert(words@ =~= self.words());
        words
    }
}

impl<T: MessageTarget> OwnArgs<T> for () {
    type Complete = (T, SEL);

    open spec fn completed(self, target: T, selector: SEL) -> (T, SEL) {
        (target, selector)
    }

    fn complete(self, target: T, selector: SEL) -> (T, SEL) {
        (target, selector)
    }
}

impl<T: MessageTarget, P1: GuestArg> OwnArgs<T> for (P1,) {
    type Complete = (T, SEL, P1);

    open spec fn completed(self, target: T, selector: SEL) -> (T, SEL, P1) {
        (target, selector, self.0)
    }

    fn complete(self, target: T, selector: SEL) -> (T, SEL, P1) {
        (target, selector, self.0)
    }
}

impl<T: MessageTarget, P1: GuestArg, P2: GuestArg> OwnArgs<T> for (P1, P2) {
    type Complete = (T, SEL, P1, P2);

    open spec fn completed(self, target: T, selector: SEL) -> (T, SEL, P1, P2) {
        (target, selector, self.0, self.1)
    }

    fn complete(self, target: T, selector: SEL) -> (T, SEL, P1, P2) {
        (target, selector, self.0, self.1)
    }
}

impl<T: MessageTarget, P1: GuestArg, P2: GuestArg, P3: GuestArg> OwnArgs<T> for (P1, P2, P3) {
    type Complete = (T, SEL, P1, P2, P3);

    open spec fn completed(self, target: T, selector: SEL) -> (T, SEL, P1, P2, P3) {
        (target, selector, self.0, self.1, self.2)
    }

    fn complete(self, target: T, selector: SEL) -> (T, SEL, P1, P2, P3) {
        (target, selector, self.0, self.1, self.2)
    }
}

impl<
    T: MessageTarget, P1: GuestArg, P2: GuestArg, P3: GuestArg, P4: GuestArg,
> OwnArgs<T> for (P1, P2, P3, P4) {
    type Complete = (T, SEL, P1, P2, P3, P4);

    open spec fn completed(self, target: T, selector: SEL) -> (T, SEL, P1, P2, P3, P4) {
        (target, selector, self.0, self.1, self.2, self.3)
    }

    fn complete(self, target: T, selector: SEL) -> (T, SEL, P1, P2, P3, P4) {
        (target, selector, self.0, self.1, self.2, self.3)
    }
}

impl<
    T: MessageTarget, P1: GuestArg, P2: GuestArg, P3: GuestArg, P4: GuestArg, P5: GuestArg,
> OwnArgs<T> for (P1, P2, P3, P4, P5) {
    type Complete = (T, SEL, P1, P2, P3, P4, P5);

    open spec fn completed(self, target: T, selector: SEL) -> (T, SEL, P1, P2, P3, P4, P5) {
        (target, selector, self.0, self.1, self.2, self.3, self.4)
    }

    fn complete(self, target: T, selector: SEL) -> (T, SEL, P1, P2, P3, P4, P5) {
        (target, selector, self.0, self.1, self.2, self.3, self.4)
    }
}

impl<
    T: MessageTarget, P1: GuestArg, P2: GuestArg, P3: GuestArg, P4: GuestArg, P5: GuestArg,
    P6: GuestArg,
> OwnArgs<T> for (P1, P2, P3, P4, P5, P6) {
    type Complete = (T, SEL, P1, P2, P3, P4, P5, P6);

    open spec fn completed(self, target: T, selector: SEL) -> (T, SEL, P1, P2, P3, P4, P5, P6) {
        (target, selector, self.0, self.1, self.2, self.3, self.4, self.5)
    }

    fn complete(self, target: T, selector: SEL) -> (T, SEL, P1, P2, P3, P4, P5, P6) {
        (target, selector, self.0, self.1, self.2, self.3, self.4, self.5)
    }
}

impl<
    T: MessageTarget, P1: GuestArg, P2: GuestArg, P3: GuestArg, P4: GuestArg, P5: GuestArg,
    P6: GuestArg, P7: GuestArg,
> OwnArgs<T> for (P1, P2, P3, P4, P5, P6, P7) {
    type Complete = (T, SEL, P1, P2, P3, P4, P5, P6, P7);

    open spec fn completed(self, target: T, selector: SEL) -> (T, SEL, P1, P2, P3, P4, P5, P6, P7) {
        (target, selector, self.0, self.1, self.2, self.3, self.4, self.5, self.6)
    }

    fn complete(self, target: T, selector: SEL) -> (T, SEL, P1, P2, P3, P4, P5, P6, P7) {
        (target, selector, self.0, self.1, self.2, self.3, self.4, self.5, self.6)
    }
}

impl<
    T: MessageTarget, P1: GuestArg, P2: GuestArg, P3: GuestArg, P4: GuestArg, P5: GuestArg,
    P6: GuestArg, P7: GuestArg, P8: GuestArg,
> OwnArgs<T> for (P1, P2, P3, P4, P5, P6, P7, P8) {
    type Complete = (T, SEL, P1, P2, P3, P4, P5, P6, P7, P8);

    open spec fn completed(self, target: T, selector: SEL) -> (T, SEL, P1, P2, P3, P4, P5, P6, P7, P8) {
        (target, selector, self.0, self.1, self.2, self.3, self.4, self.5, self.6, self.7)
    }

    fn complete(self, target: T, selector: SEL) -> (T, SEL, P1, P2, P3, P4, P5, P6, P7, P8) {
        (target, selector, self.0, self.1, self.2, self.3, self.4, self.5, self.6, self.7)
    }
}

impl<
    T: MessageTarget, P1: GuestArg, P2: GuestArg, P3: GuestArg, P4: GuestArg, P5: GuestArg,
    P6: GuestArg, P7: GuestArg, P8: GuestArg, P9: GuestArg,
> OwnArgs<T> for (P1, P2, P3, P4, P5, P6, P7, P8, P9) {
    type Complete = (T, SEL, P1, P2, P3, P4, P5, P6, P7, P8, P9);

    open spec fn completed(self, target: T, selector: SEL) -> (T, SEL, P1, P2, P3, P4, P5, P6, P7, P8, P9) {
        (target, selector, self.0, self.1, self.2, self.3, self.4, self.5, self.6, self.7, self.8)
    }

    fn complete(self, target: T, selector: SEL) -> (T, SEL, P1, P2, P3, P4, P5, P6, P7, P8, P9) {
        (target, selector, self.0, self.1, self.2, self.3, self.4, self.5, self.6, self.7, self.8)
    }
}

} // verus!
