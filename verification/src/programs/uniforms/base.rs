use vstd::prelude::*;

verus! {

/// A pair of single-precision numbers, each held as its IEEE-754 bit pattern.
#[derive(Clone, Copy, Debug, PartialEq, Eq, Structural)]
pub struct Vec2 {
    pub x: u32,
    pub y: u32,
}

/// A triple of single-precision numbers, each held as its IEEE-754 bit pattern.
#[derive(Clone, Copy, Debug, PartialEq, Eq, Structural)]
pub struct Vec3 {
    pub x: u32,
    pub y: u32,
    pub z: u32,
}

/// The bit pattern of the single-precision number 0.
pub const ZERO: u32 = 0;

/// The bit pattern of the single-precision number 1.
pub const ONE: u32 = 0x3F80_0000;

/// The four bytes of a 32-bit word, least significant first.
pub open spec fn word_bytes(w: u32) -> Seq<u8> {
    seq![
        (w % 256) as u8,
        (w / 256 % 256) as u8,
        (w / 65536 % 256) as u8,
        (w / 16777216) as u8,
    ]
}

/// The bytes of a pair: those of `x`, then those of `y`.
pub open spec fn vec2_bytes(v: Vec2) -> Seq<u8> {
    word_bytes(v.x) + word_bytes(v.y)
}

/// The bytes of a triple: those of `x`, of `y` and of `z`, in this order.
pub open spec fn vec3_bytes(v: Vec3) -> Seq<u8> {
    word_bytes(v.x) + word_bytes(v.y) + word_bytes(v.z)
}

/// Appends the bytes of `w` to `bytes`.
pub fn push_word(bytes: &mut Vec<u8>, w: u32)
    ensures
        final(bytes)@ == old(bytes)@ + word_bytes(w),
{
    bytes.push((w % 256) as u8);
    bytes.push((w / 256 % 256) as u8);
    bytes.push((w / 65536 % 256) as u8);
    bytes.push((w / 16777216) as u8);
}

/// Appends the bytes of `v` to `bytes`.
pub fn push_vec2(bytes: &mut Vec<u8>, v: Vec2)
    ensures
        final(bytes)@ == old(bytes)@ + vec2_bytes(v),
{
    push_word(bytes, v.x);
    push_word(bytes, v.y);
}

/// Appends the bytes of `v` to `bytes`.
pub fn push_vec3(bytes: &mut Vec<u8>, v: Vec3)
    ensures
        final(bytes)@ == old(bytes)@ + vec3_bytes(v),
{
    push_word(bytes, v.x);
    push_word(bytes, v.y);
    push_word(bytes, v.z);
}

/// What every kind of uniform data can do for the buffer store: lay itself
/// out as the bytes that the shader reads, always in the same number.
pub trait Bufferable: Sized {
    /// The number of bytes of the layout.
    spec fn layout_len() -> nat;

    /// The bytes of the value in its layout.
    spec fn bytes(&self) -> Seq<u8>;

    /// Every value fills the layout exactly.
    proof fn lemma_fills_layout(&self)
        ensures
            self.bytes().len() == Self::layout_len(),
    ;

    /// The bytes of the value in its layout.
    fn as_bytes(&self) -> (r: Vec<u8>)
        ensures
            r@ == self.bytes(),
    ;
}

} // verus!
