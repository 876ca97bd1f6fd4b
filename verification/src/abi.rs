//! How the host passes arguments to methods and gets their results.
//!
//! The first four words of the arguments go to registers 0 to 3 and the rest to
//! the stack. A result comes back in registers 0 and 1, or, if it is a struct,
//! in memory that the caller has set aside, whose address is then passed before
//! all other arguments.

use vstd::prelude::*;

use crate::environment::{EnvView, Environment, LR, SP};
use crate::mem::with_words;
use crate::types::{id, SuperPtr, SEL};

verus! {

/// A value that can be passed to a method.
pub trait GuestArg: Sized {
    /// The words that the value is passed as.
    spec fn arg_words(self) -> Seq<u32>;

    /// Appends the words that the value is passed as.
    fn push_words(self, out: &mut Vec<u32>)
        ensures
            final(out)@ == old(out)@ + self.arg_words(),
    ;
}

impl GuestArg for u32 {
    open spec fn arg_words(self) -> Seq<u32> {
        seq![self]
    }

    fn push_words(self, out: &mut Vec<u32>) {
        out.push(self);
    }
}

impl GuestArg for i32 {
    open spec fn arg_words(self) -> Seq<u32> {
        seq![self as u32]
    }

    fn push_words(self, out: &mut Vec<u32>) {
        out.push(
            #[verifier::truncate]
            (self as u32),
        );
    }
}

impl GuestArg for id {
    open spec fn arg_words(self) -> Seq<u32> {
        seq![self.bits]
    }

    fn push_words(self, out: &mut Vec<u32>) {
        out.push(self.bits);
    }
}

impl GuestArg for SEL {
    open spec fn arg_words(self) -> Seq<u32> {
        seq![self.bits]
    }

    fn push_words(self, out: &mut Vec<u32>) {
        out.push(self.bits);
    }
}

/// What a message can be addressed to: a receiver, or a pointer to a receiver
/// and the class whose superclass is meant.
pub trait MessageTarget: Sized {
    spec fn target_bits(self) -> u32;

    /// The guest address.
    fn to_bits(self) -> (bits: u32)
        ensures
            bits == self.target_bits(),
    ;
}

impl MessageTarget for id {
    open spec fn target_bits(self) -> u32 {
        self.bits
    }

    fn to_bits(self) -> u32 {
        self.bits
    }
}

impl MessageTarget for SuperPtr {
    open spec fn target_bits(self) -> u32 {
        self.bits
    }

    fn to_bits(self) -> u32 {
        self.bits
    }
}

/// A value that a method can return.
pub trait GuestRet: Sized {
    /// The number of words that the value has in memory, if it is returned in
    /// memory.
    spec fn words_in_memory() -> Option<nat>;

    /// The value that the words are.
    spec fn of_words(words: Seq<u32>) -> Self;

    /// The number of words that the value has in memory, if it is returned in
    /// memory.
    fn size_in_mem() -> (count: Option<usize>)
        ensures
            count == match Self::words_in_memory() {
                Some(n) => Some(n as usize),
                None => None,
            },
            Self::words_in_memory() matches Some(n) ==> n <= usize::MAX,
    ;

    /// Takes the value from registers 0 and 1, or from memory.
    fn from_words(words: &Vec<u32>) -> (value: Self)
        requires
            words@.len() == result_len(Self::words_in_memory()),
        ensures
            value == Self::of_words(words@),
    ;
}

/// The number of words that a result is taken from.
pub open spec fn result_len(in_memory: Option<nat>) -> nat {
    match in_memory {
        Some(count) => count,
        None => 2,
    }
}

impl GuestRet for () {
    open spec fn words_in_memory() -> Option<nat> {
        None
    }

    open spec fn of_words(words: Seq<u32>) -> () {
        ()
    }

    fn size_in_mem() -> Option<usize> {
        None
    }

    fn from_words(words: &Vec<u32>) -> () {
    }
}

impl GuestRet for u32 {
    open spec fn words_in_memory() -> Option<nat> {
        None
    }

    open spec fn of_words(words: Seq<u32>) -> u32 {
        words[0]
    }

    fn size_in_mem() -> Option<usize> {
        None
    }

    fn from_words(words: &Vec<u32>) -> u32 {
        words[0]
    }
}

impl GuestRet for i32 {
    open spec fn words_in_memory() -> Option<nat> {
        None
    }

    open spec fn of_words(words: Seq<u32>) -> i32 {
        words[0] as i32
    }

    fn size_in_mem() -> Option<usize> {
        None
    }

    fn from_words(words: &Vec<u32>) -> i32 {
        #[verifier::truncate]
        (words[0] as i32)
    }
}

impl GuestRet for id {
    open spec fn words_in_memory() -> Option<nat> {
        None
    }

    open spec fn of_words(words: Seq<u32>) -> id {
        id { bits: words[0] }
    }

    fn size_in_mem() -> Option<usize> {
        None
    }

    fn from_words(words: &Vec<u32>) -> id {
        id { bits: words[0] }
    }
}

impl GuestRet for SEL {
    open spec fn words_in_memory() -> Option<nat> {
        None
    }

    open spec fn of_words(words: Seq<u32>) -> SEL {
        SEL { bits: words[0] }
    }

    fn size_in_mem() -> Option<usize> {
        None
    }

    fn from_words(words: &Vec<u32>) -> SEL {
        SEL { bits: words[0] }
    }
}

/// A value of two registers: the low word first.
impl GuestRet for u64 {
    open spec fn words_in_memory() -> Option<nat> {
        None
    }

    open spec fn of_words(words: Seq<u32>) -> u64 {
        (words[0] + 0x1_0000_0000 * words[1]) as u64
    }

    fn size_in_mem() -> Option<usize> {
        None
    }

    fn from_words(words: &Vec<u32>) -> u64 {
        (words[0] as u64) + 0x1_0000_0000 * (words[1] as u64)
    }
}

/// A struct of two words, such as a point or a size.
impl GuestRet for (u32, u32) {
    open spec fn words_in_memory() -> Option<nat> {
        Some(2)
    }

    open spec fn of_words(words: Seq<u32>) -> (u32, u32) {
        (words[0], words[1])
    }

    fn size_in_mem() -> Option<usize> {
        Some(2)
    }

    fn from_words(words: &Vec<u32>) -> (u32, u32) {
        (words[0], words[1])
    }
}

/// A struct of four words, such as a rectangle.
impl GuestRet for (u32, u32, u32, u32) {
    open spec fn words_in_memory() -> Option<nat> {
        Some(4)
    }

    open spec fn of_words(words: Seq<u32>) -> (u32, u32, u32, u32) {
        (words[0], words[1], words[2], words[3])
    }

    fn size_in_mem() -> Option<usize> {
        Some(4)
    }

    fn from_words(words: &Vec<u32>) -> (u32, u32, u32, u32) {
        (words[0], words[1], words[2], words[3])
    }
}

/// The number of argument words that go to the stack.
pub open spec fn stack_words(count: nat) -> nat {
    if count > 4 {
        (count - 4) as nat
    } else {
        0
    }
}

/// The number of bytes that a call needs on the stack: for `count` argument
/// words and a result of `space` words.
pub open spec fn frame_bytes(count: nat, space: nat) -> nat {
    4 * (stack_words(count) + space)
}

/// The stack pointer in a call that needs `bytes` bytes on the stack.
pub open spec fn frame_sp(sp: u32, bytes: nat) -> u32 {
    (sp - bytes) as u32
}

/// Where in the stack frame of a call the space for a result is.
pub open spec fn frame_space(sp: u32, count: nat, space: nat) -> u32 {
    (frame_sp(sp, frame_bytes(count, space)) + 4 * stack_words(count)) as u32
}

/// What the stack frame of a call holds: the arguments that do not go to
/// registers, and zeros in the space for the result.
pub open spec fn frame_words(args: Seq<u32>, space: nat) -> Seq<u32> {
    let zeros = Seq::new(space, |i: int| 0u32);
    if args.len() > 4 {
        args.skip(4) + zeros
    } else {
        zeros
    }
}

/// The state after the arguments of a call were put in place.
pub open spec fn with_frame(env: EnvView, args: Seq<u32>, space: nat) -> EnvView {
    let sp = frame_sp(env.regs[13], frame_bytes(args.len(), space));
    EnvView {
        regs: Seq::new(
            16,
            |i: int|
                if i < 4 && i < args.len() {
                    args[i]
                } else if i == 13 {
                    sp
                } else {
                    env.regs[i]
                },
        ),
        mem: with_words(env.mem, sp, frame_words(args, space)),
        ..env
    }
}

/// The state after a call: the stack pointer and the return address are again
/// what they were before it.
pub open spec fn after_call(before: EnvView, after: EnvView) -> EnvView {
    EnvView {
        regs: after.regs.update(13, before.regs[13]).update(14, before.regs[14]),
        ..after
    }
}

/// Whether the stack pointer and the return address in `b` are those in `a`.
pub open spec fn keeps_stack(a: EnvView, b: EnvView) -> bool {
    b.regs[13] == a.regs[13] && b.regs[14] == a.regs[14]
}

/// Puts the arguments of a call in place, and sets space for its result aside.
/// Answers the address of that space.
pub fn enter_call(env: &mut Environment, args: &Vec<u32>, space: usize) -> (at: u32)
    requires
        frame_bytes(args@.len(), space as nat) <= old(env)@.regs[13],
    ensures
        final(env)@ == with_frame(old(env)@, args@, space as nat),
        final(env).depth() == old(env).depth(),
        at == frame_space(old(env)@.regs[13], args@.len(), space as nat),
{
    let count: usize = args.len();
    let on_stack: usize = if count > 4 {
        count - 4
    } else {
        0
    };
    let bytes: usize = 4 * (on_stack + space);
    let sp: u32 = env.cpu.regs[SP] - (bytes as u32);
    let mut frame: Vec<u32> = Vec::new();
    let mut i: usize = 4;
    while i < count
        invariant
            count == args@.len(),
            i >= 4,
            count > 4 ==> i <= count,
            frame@ == (if count > 4 {
                args@.subrange(4, i as int)
            } else {
                Seq::empty()
            }),
        decreases count - i,
    {
        frame.push(args[i]);
        i += 1;
        assert(frame@ =~= args@.subrange(4, i as int));
    }
    let ghost arguments = frame@;
    assert(arguments =~= (if count > 4 {
        args@.skip(4)
    } else {
        Seq::empty()
    }));
    i = 0;
    while i < space
        invariant
            i <= space,
            frame@ == arguments + Seq::new(i as nat, |k: int| 0u32),
        decreases space - i,
    {
        frame.push(0);
        i += 1;
        assert(frame@ =~= arguments + Seq::new(i as nat, |k: int| 0u32));
    }
    assert(frame@ =~= frame_words(args@, space as nat));
    env.mem.write_words(sp, &frame, 0);
    assert(frame@.skip(0) =~= frame@);
    if count > 0 {
        env.cpu.regs[0] = args[0];
    }
    if count > 1 {
        env.cpu.regs[1] = args[1];
    }
    if count > 2 {
        env.cpu.regs[2] = args[2];
    }
    if count > 3 {
        env.cpu.regs[3] = args[3];
    }
    env.cpu.regs[SP] = sp;
    assert(env@.regs =~= with_frame(old(env)@, args@, space as nat).regs);
    sp + 4 * (on_stack as u32)
}

/// Restores the stack pointer and the return address after a call.
pub fn leave_call(env: &mut Environment, sp: u32, lr: u32)
    ensures
        final(env)@ == (EnvView {
            regs: old(env)@.regs.update(13, sp).update(14, lr),
            ..old(env)@
        }),
        final(env).depth() == old(env).depth(),
{
    env.cpu.regs[SP] = sp;
    env.cpu.regs[LR] = lr;
}

} // verus!
