//! The usual keyboard layout for the sixteen-key pad: the block `1234`,
//! `QWER`, `ASDF`, `ZXCV` stands for the pad rows `123C`, `456D`, `789E`,
//! `A0BF`.
use crate::interpreter::model::key_is_held;
use vstd::prelude::*;

verus! {

/// A key of the host keyboard that stands for a key of the pad.
#[derive(Clone, Copy, Debug, PartialEq, Eq, Structural)]
pub enum HostKey {
    Num1,
    Num2,
    Num3,
    Num4,
    Q,
    W,
    E,
    R,
    A,
    S,
    D,
    F,
    Z,
    X,
    C,
    V,
}

impl HostKey {
    /// The pad key that the host key stands for.
    pub open spec fn pad_key(self) -> u8 {
        match self {
            HostKey::Num1 => 0x1,
            HostKey::Num2 => 0x2,
            HostKey::Num3 => 0x3,
            HostKey::Num4 => 0xc,
            HostKey::Q => 0x4,
            HostKey::W => 0x5,
            HostKey::E => 0x6,
            HostKey::R => 0xd,
            HostKey::A => 0x7,
            HostKey::S => 0x8,
            HostKey::D => 0x9,
            HostKey::F => 0xe,
            HostKey::Z => 0xa,
            HostKey::X => 0x0,
            HostKey::C => 0xb,
            HostKey::V => 0xf,
        }
    }

    /// The number of the pad key that the host key stands for.
    pub fn logical_key(self) -> (key: u8)
        ensures
            key == self.pad_key(),
            key < 16,
    {
        match self {
            HostKey::Num1 => 0x1,
            HostKey::Num2 => 0x2,
            HostKey::Num3 => 0x3,
            HostKey::Num4 => 0xc,
            HostKey::Q => 0x4,
            HostKey::W => 0x5,
            HostKey::E => 0x6,
            HostKey::R => 0xd,
            HostKey::A => 0x7,
            HostKey::S => 0x8,
            HostKey::D => 0x9,
            HostKey::F => 0xe,
            HostKey::Z => 0xa,
            HostKey::X => 0x0,
            HostKey::C => 0xb,
            HostKey::V => 0xf,
        }
    }
}

/// Setting the bit of a key makes that key held and leaves every other key
/// as it was.
proof fn lemma_bit_set(keys: u32, key: u8, other: u8)
    by (bit_vector)
    requires
        key < 16,
        other < 16,
    ensures
        (keys | (1u32 << key)) & (1u32 << key) != 0,
        other != key ==> (((keys | (1u32 << key)) & (1u32 << other) != 0) <==> (keys & (1u32
            << other) != 0)),
{
}

/// The set of held keys `keys` with the pad key of `key` held as well.
pub fn with_key_held(keys: u32, key: HostKey) -> (held: u32)
    ensures
        held == keys | (1u32 << key.pad_key()),
        key_is_held(held, key.pad_key()),
        forall|other: u8|
            other < 16 && other != key.pad_key() ==> (#[trigger] key_is_held(held, other)
                <==> key_is_held(keys, other)),
{
    let held = keys | (1u32 << key.logical_key());
    proof {
        lemma_bit_set(keys, key.pad_key(), 0);
        assert forall|other: u8| other < 16 && other != key.pad_key() implies (#[trigger] key_is_held(
            held,
            other,
        ) <==> key_is_held(keys, other)) by {
            lemma_bit_set(keys, key.pad_key(), other);
        }
    }
    held
}

/// No two host keys stand for the same pad key, and every pad key has a
/// host key.
pub proof fn lemma_layout_is_one_to_one(first: HostKey, second: HostKey, pad: u8)
    ensures
        first.pad_key() == second.pad_key() ==> first == second,
        first.pad_key() < 16,
        pad < 16 ==> exists|key: HostKey| #[trigger] key.pad_key() == pad,
{
    if pad < 16 {
        let keys = seq![
            HostKey::X,
            HostKey::Num1,
            HostKey::Num2,
            HostKey::Num3,
            HostKey::Q,
            HostKey::W,
            HostKey::E,
            HostKey::A,
            HostKey::S,
            HostKey::D,
            HostKey::Z,
            HostKey::C,
            HostKey::Num4,
            HostKey::R,
            HostKey::F,
            HostKey::V,
        ];
        assert(keys[pad as int].pad_key() == pad);
    }
}

} // verus!
