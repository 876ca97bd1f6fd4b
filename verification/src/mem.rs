//! Guest memory: a 32-bit, little-endian address space.

use std::collections::HashMap;
use vstd::prelude::*;

use crate::types::{id, objc_super, Class, SuperPtr, SEL};

verus! {

broadcast use vstd::std_specs::hash::group_hash_axioms;

/// The whole guest address space. Every address can be read and written, and
/// holds zero until something is written to it. Addresses wrap around at the
/// end of the address space.
pub struct Mem {
    written: HashMap<u32, u8>,
}

impl View for Mem {
    type V = Map<u32, u8>;

    /// The byte at every address.
    closed spec fn view(&self) -> Map<u32, u8> {
        Map::new(
            |a: u32| true,
            |a: u32|
                if self.written@.contains_key(a) {
                    self.written@[a]
                } else {
                    0
                },
        )
    }
}

/// Zero at every address.
pub open spec fn blank() -> Map<u32, u8> {
    Map::new(|a: u32| true, |a: u32| 0u8)
}

/// The little-endian word at `address`.
pub open spec fn word(mem: Map<u32, u8>, address: u32) -> u32 {
    (mem[address] + 0x100 * mem[address.wrapping_add(1)] + 0x1_0000 * mem[address.wrapping_add(2)]
        + 0x100_0000 * mem[address.wrapping_add(3)]) as u32
}

/// Memory after the little-endian word `value` is written to `address`.
pub open spec fn with_word(mem: Map<u32, u8>, address: u32, value: u32) -> Map<u32, u8> {
    mem.insert(address, (value % 0x100) as u8).insert(
        address.wrapping_add(1),
        (value / 0x100 % 0x100) as u8,
    ).insert(address.wrapping_add(2), (value / 0x1_0000 % 0x100) as u8).insert(
        address.wrapping_add(3),
        (value / 0x100_0000) as u8,
    )
}

/// The words at `address` and on, `count` of them.
pub open spec fn words(mem: Map<u32, u8>, address: u32, count: nat) -> Seq<u32>
    decreases count,
{
    if count == 0 {
        Seq::empty()
    } else {
        seq![word(mem, address)] + words(mem, address.wrapping_add(4), (count - 1) as nat)
    }
}

/// Memory after `values` are written to `address` and on.
pub open spec fn with_words(mem: Map<u32, u8>, address: u32, values: Seq<u32>) -> Map<u32, u8>
    decreases values.len(),
{
    if values.len() == 0 {
        mem
    } else {
        with_words(
            with_word(mem, address, values[0]),
            address.wrapping_add(4),
            values.drop_first(),
        )
    }
}

/// The C string at `address`: the bytes before the first zero, or before the
/// end of the address space.
pub open spec fn c_string(mem: Map<u32, u8>, address: int) -> Seq<u8>
    decreases u32::MAX + 1 - address,
{
    if address > u32::MAX || mem[address as u32] == 0 {
        Seq::empty()
    } else {
        seq![mem[address as u32]] + c_string(mem, address + 1)
    }
}

/// The name of a selector.
pub open spec fn selector_name(mem: Map<u32, u8>, selector: SEL) -> Seq<u8> {
    c_string(mem, selector.bits as int)
}

/// The class pointer that an object begins with.
pub open spec fn isa(mem: Map<u32, u8>, object: id) -> Class {
    id { bits: word(mem, object.bits) }
}

/// The receiver and class that `ptr` points to.
pub open spec fn super_at(mem: Map<u32, u8>, ptr: SuperPtr) -> objc_super {
    objc_super {
        receiver: id { bits: word(mem, ptr.bits) },
        class: id { bits: word(mem, ptr.bits.wrapping_add(4)) },
    }
}

impl Mem {
    /// Memory that nothing has been written to.
    pub fn new() -> (mem: Mem)
        ensures
            mem@ == blank(),
    {
        let mem = Mem { written: HashMap::new() };
        assert(mem@ =~= blank());
        mem
    }

    /// Reads a byte.
    pub fn read_u8(&self, address: u32) -> (byte: u8)
        ensures
            byte == self@[address],
    {
        match self.written.get(&address) {
            Some(byte) => *byte,
            None => 0,
        }
    }

    /// Writes a byte.
    pub fn write_u8(&mut self, address: u32, byte: u8)
        ensures
            final(self)@ == old(self)@.insert(address, byte),
    {
        self.written.insert(address, byte);
        assert(self@ =~= old(self)@.insert(address, byte));
    }

    /// Reads a little-endian word.
    pub fn read_u32(&self, address: u32) -> (value: u32)
        ensures
            value == word(self@, address),
    {
        let b0: u8 = self.read_u8(address);
        let b1: u8 = self.read_u8(address.wrapping_add(1));
        let b2: u8 = self.read_u8(address.wrapping_add(2));
        let b3: u8 = self.read_u8(address.wrapping_add(3));
        (b0 as u32) + 0x100 * (b1 as u32) + 0x1_0000 * (b2 as u32) + 0x100_0000 * (b3 as u32)
    }

    /// Writes a little-endian word.
    pub fn write_u32(&mut self, address: u32, value: u32)
        ensures
            final(self)@ == with_word(old(self)@, address, value),
    {
        self.write_u8(address, (value % 0x100) as u8);
        self.write_u8(address.wrapping_add(1), (value / 0x100 % 0x100) as u8);
        self.write_u8(address.wrapping_add(2), (value / 0x1_0000 % 0x100) as u8);
        self.write_u8(address.wrapping_add(3), (value / 0x100_0000) as u8);
    }

    /// Reads the name of a selector, without its terminating zero.
    pub fn selector_name(&self, selector: SEL) -> (name: Vec<u8>)
        ensures
            name@ == selector_name(self@, selector),
    {
        let mut name: Vec<u8> = Vec::new();
        let mut address: u32 = selector.bits;
        assert(name@ + c_string(self@, address as int) =~= c_string(self@, address as int));
        loop
            invariant
                name@ + c_string(self@, address as int) == c_string(self@, selector.bits as int),
            decreases u32::MAX - address,
        {
            let byte: u8 = self.read_u8(address);
            if byte == 0 {
                assert(name@ + c_string(self@, address as int) =~= name@);
                return name;
            }
            let ghost before = name@;
            name.push(byte);
            assert(before + c_string(self@, address as int) =~= name@ + c_string(
                self@,
                address + 1,
            ));
            if address == u32::MAX {
                assert(c_string(self@, address + 1) =~= Seq::empty());
                assert(name@ + c_string(self@, address + 1) =~= name@);
                return name;
            }
            address += 1;
        }
    }

    /// Reads the class pointer that an object begins with.
    pub fn read_isa(&self, object: id) -> (class: Class)
        ensures
            class == isa(self@, object),
    {
        id { bits: self.read_u32(object.bits) }
    }

    /// Reads an `objc_super`.
    pub fn read_super(&self, ptr: SuperPtr) -> (value: objc_super)
        ensures
            value == super_at(self@, ptr),
    {
        objc_super {
            receiver: id { bits: self.read_u32(ptr.bits) },
            class: id { bits: self.read_u32(ptr.bits.wrapping_add(4)) },
        }
    }

    /// Writes an `objc_super`.
    pub fn write_super(&mut self, ptr: SuperPtr, value: objc_super)
        ensures
            final(self)@ == with_word(
                with_word(old(self)@, ptr.bits, value.receiver.bits),
                ptr.bits.wrapping_add(4),
                value.class.bits,
            ),
    {
        self.write_u32(ptr.bits, value.receiver.bits);
        self.write_u32(ptr.bits.wrapping_add(4), value.class.bits);
    }

    /// Writes words to consecutive addresses, from the element `from` of
    /// `values` on.
    pub fn write_words(&mut self, address: u32, values: &Vec<u32>, from: usize)
        requires
            from <= values@.len(),
        ensures
            final(self)@ == with_words(old(self)@, address, values@.skip(from as int)),
    {
        let mut i: usize = from;
        let mut at: u32 = address;
        while i < values.len()
            invariant
                from <= i <= values@.len(),
                with_words(self@, at, values@.skip(i as int)) == with_words(
                    old(self)@,
                    address,
                    values@.skip(from as int),
                ),
            decreases values@.len() - i,
        {
            self.write_u32(at, values[i]);
            assert(values@.skip(i as int).drop_first() =~= values@.skip(i + 1));
            at = at.wrapping_add(4);
            i += 1;
        }
    }

    /// Reads `count` words from consecutive addresses.
    pub fn read_words(&self, address: u32, count: usize) -> (values: Vec<u32>)
        ensures
            values@ == words(self@, address, count as nat),
            values@.len() == count,
    {
        let mut values: Vec<u32> = Vec::new();
        let mut left: usize = count;
        let mut at: u32 = address;
        assert(values@ + words(self@, at, left as nat) =~= words(self@, address, count as nat));
        while left > 0
            invariant
                left <= count,
                values@.len() == count - left,
                values@ + words(self@, at, left as nat) == words(self@, address, count as nat),
            decreases left,
        {
            let ghost before = values@;
            values.push(self.read_u32(at));
            assert(before + words(self@, at, left as nat) =~= values@ + words(
                self@,
                at.wrapping_add(4),
                (left - 1) as nat,
            ));
            at = at.wrapping_add(4);
            left -= 1;
        }
        assert(values@ + words(self@, at, 0) =~= values@);
        values
    }
}

/// A word that is written is read back, and words that do not overlap it stay
/// as they were.
pub proof fn law_read_after_write(mem: Map<u32, u8>, address: u32, value: u32)
    ensures
        word(with_word(mem, address, value), address) == value,
        forall|other: u32|
            4 <= #[trigger] other.wrapping_sub(address) <= u32::MAX - 3 ==> word(
                with_word(mem, address, value),
                other,
            ) == word(mem, other),
{
}

/// Words that are written to consecutive addresses leave a word alone that does
/// not overlap them.
pub proof fn law_other_words_are_kept(mem: Map<u32, u8>, address: u32, values: Seq<u32>, other: u32)
    requires
        4 * values.len() <= other.wrapping_sub(address) <= u32::MAX - 3,
    ensures
        word(with_words(mem, address, values), other) == word(mem, other),
    decreases values.len(),
{
    if values.len() > 0 {
        law_read_after_write(mem, address, values[0]);
        law_other_words_are_kept(
            with_word(mem, address, values[0]),
            address.wrapping_add(4),
            values.drop_first(),
            other,
        );
    }
}

/// Words that are written to consecutive addresses are read back, if they fit in
/// the address space.
pub proof fn law_words_are_read_back(mem: Map<u32, u8>, address: u32, values: Seq<u32>)
    requires
        4 * values.len() <= u32::MAX + 1,
    ensures
        words(with_words(mem, address, values), address, values.len()) == values,
    decreases values.len(),
{
    if values.len() > 0 {
        let written = with_word(mem, address, values[0]);
        let next = address.wrapping_add(4);
        law_read_after_write(mem, address, values[0]);
        law_other_words_are_kept(written, next, values.drop_first(), address);
        law_words_are_read_back(written, next, values.drop_first());
        assert(words(with_words(mem, address, values), address, values.len()) =~= values);
    } else {
        assert(words(mem, address, 0) =~= values);
    }
}

/// The first byte of a word is its lowest.
pub proof fn law_words_are_little_endian(mem: Map<u32, u8>, address: u32)
    ensures
        word(mem, address) == mem[address] + 256 * mem[address.wrapping_add(1)] + 65536
            * mem[address.wrapping_add(2)] + 16777216 * mem[address.wrapping_add(3)],
{
}

/// A word is written to four bytes, the lowest first, and to no others.
pub proof fn law_written_words_are_little_endian(
    mem: Map<u32, u8>,
    address: u32,
    value: u32,
    other: u32,
)
    ensures
        with_word(mem, address, value)[address] == value % 256,
        with_word(mem, address, value)[address.wrapping_add(1)] == value / 256 % 256,
        with_word(mem, address, value)[address.wrapping_add(2)] == value / 65536 % 256,
        with_word(mem, address, value)[address.wrapping_add(3)] == value / 16777216,
        other.wrapping_sub(address) >= 4 ==> with_word(mem, address, value)[other] == mem[other],
{
}

/// Words that are read from consecutive addresses are the words at every fourth
/// address.
pub proof fn law_words_are_consecutive(mem: Map<u32, u8>, address: u32, count: nat, i: int)
    requires
        0 <= i < count,
        4 * count <= u32::MAX + 1,
    ensures
        words(mem, address, count).len() == count,
        words(mem, address, count)[i] == word(mem, address.wrapping_add((4 * i) as u32)),
    decreases count,
{
    let next = address.wrapping_add(4);
    lemma_words_len(mem, next, (count - 1) as nat);
    if i > 0 {
        law_words_are_consecutive(mem, next, (count - 1) as nat, i - 1);
        assert(next.wrapping_add((4 * (i - 1)) as u32) == address.wrapping_add((4 * i) as u32));
    }
}

proof fn lemma_words_len(mem: Map<u32, u8>, address: u32, count: nat)
    ensures
        words(mem, address, count).len() == count,
    decreases count,
{
    if count > 0 {
        lemma_words_len(mem, address.wrapping_add(4), (count - 1) as nat);
    }
}

/// Words are written to every fourth address, and to no bytes but those.
pub proof fn law_words_are_written_consecutively(
    mem: Map<u32, u8>,
    address: u32,
    values: Seq<u32>,
    i: int,
    other: u32,
)
    requires
        4 * values.len() <= u32::MAX + 1,
    ensures
        0 <= i < values.len() ==> word(
            with_words(mem, address, values),
            address.wrapping_add((4 * i) as u32),
        ) == values[i],
        other.wrapping_sub(address) >= 4 * values.len() ==> with_words(mem, address, values)[other]
            == mem[other],
    decreases values.len(),
{
    law_words_are_read_back(mem, address, values);
    if 0 <= i < values.len() {
        law_words_are_consecutive(
            with_words(mem, address, values),
            address,
            values.len(),
            i,
        );
    }
    if values.len() > 0 && other.wrapping_sub(address) >= 4 * values.len() {
        law_words_are_written_consecutively(
            with_word(mem, address, values[0]),
            address.wrapping_add(4),
            values.drop_first(),
            -1,
            other,
        );
    }
}

/// The name of a selector is the text that stands at its address, up to the first
/// zero, or up to the end of the address space.
pub proof fn law_names_end_at_the_first_zero(mem: Map<u32, u8>, address: int, text: Seq<u8>)
    requires
        0 <= address,
        address + text.len() <= u32::MAX + 1,
        forall|i: int| 0 <= i < text.len() ==> #[trigger] text[i] != 0 && text[i] == mem[(address
            + i) as u32],
        address + text.len() <= u32::MAX ==> mem[(address + text.len()) as u32] == 0,
    ensures
        c_string(mem, address) == text,
        address <= u32::MAX ==> selector_name(mem, SEL { bits: address as u32 }) == text,
    decreases text.len(),
{
    if text.len() == 0 {
        assert(c_string(mem, address) =~= text);
    } else {
        assert(text[0] == mem[address as u32]);
        let rest = text.drop_first();
        assert forall|i: int| 0 <= i < rest.len() implies #[trigger] rest[i] != 0 && rest[i]
            == mem[(address + 1 + i) as u32] by {
            assert(rest[i] == text[i + 1]);
        }
        law_names_end_at_the_first_zero(mem, address + 1, rest);
        assert(c_string(mem, address) =~= text);
    }
}

/// An object begins with the address of its class, and an `objc_super` is the
/// receiver's address and then the class's.
pub proof fn law_objects_begin_with_their_class(mem: Map<u32, u8>, object: id, ptr: SuperPtr)
    ensures
        isa(mem, object).bits == word(mem, object.bits),
        super_at(mem, ptr).receiver.bits == word(mem, ptr.bits),
        super_at(mem, ptr).class.bits == word(mem, ptr.bits.wrapping_add(4)),
{
}

} // verus!
