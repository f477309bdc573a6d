use vstd::prelude::*;
use crate::programs::uniforms::base::{push_vec2, push_word, vec2_bytes, word_bytes, Vec2, ONE, ZERO};

verus! {

/// The bit pattern of the single-precision number 150: how far the fog
/// reaches at first.
pub const INITIAL_FOG_DIST: u32 = 0x4316_0000;

/// All that a shader reads where it is given one block of uniform data, in
/// the order of the block. The numbers are single-precision, each held as
/// its bit pattern.
#[derive(Clone, Copy, Debug, PartialEq, Eq, Structural)]
pub struct Data {
    pub color_mode: i32,
    pub draw_floor: bool,
    pub fog_dist: u32,
    pub quality: u32,
    pub resolution: Vec2,
    pub shape_color_r: u32,
    pub shape_color_g: u32,
    pub shape_color_b: u32,
    pub time: u32,
}

/// The uniform data as one block.
#[derive(Clone, Copy, Debug, PartialEq, Eq, Structural)]
pub struct Uniforms {
    pub data: Data,
}

/// The block at the start: the floor drawn, the fog at its first distance,
/// the shape white, and no time passed.
pub open spec fn initial_data(resolution: Vec2) -> Data {
    Data {
        color_mode: 0,
        draw_floor: true,
        fog_dist: INITIAL_FOG_DIST,
        quality: ONE,
        resolution,
        shape_color_r: ONE,
        shape_color_g: ONE,
        shape_color_b: ONE,
        time: ZERO,
    }
}

/// The word that holds a signed number in two's complement.
pub open spec fn signed_word(n: i32) -> u32 {
    if n >= 0 {
        n as u32
    } else {
        (n + 0x1_0000_0000) as u32
    }
}

/// The word that holds a flag: the flag in its first byte, then three bytes
/// that only fill the word.
pub open spec fn flag_word(flag: bool) -> u32 {
    if flag {
        1
    } else {
        0
    }
}

/// The bytes of the block: forty, each field in four, the resolution in
/// eight.
pub open spec fn data_bytes(data: Data) -> Seq<u8> {
    word_bytes(signed_word(data.color_mode)) + word_bytes(flag_word(data.draw_floor)) + word_bytes(
        data.fog_dist,
    ) + word_bytes(data.quality) + vec2_bytes(data.resolution) + word_bytes(data.shape_color_r)
        + word_bytes(data.shape_color_g) + word_bytes(data.shape_color_b) + word_bytes(data.time)
}

impl Uniforms {
    /// The block at the start, for a frame of the given size.
    pub fn new(resolution: Vec2) -> (r: Self)
        ensures
            r.data == initial_data(resolution),
    {
        Uniforms {
            data: Data {
                color_mode: 0,
                draw_floor: true,
                fog_dist: INITIAL_FOG_DIST,
                quality: ONE,
                resolution,
                shape_color_r: ONE,
                shape_color_g: ONE,
                shape_color_b: ONE,
                time: ZERO,
            },
        }
    }

    /// Takes over the reading of the clock: seconds since the start, as the
    /// bit pattern of a single-precision number.
    pub fn update_time(&mut self, time: u32)
        ensures
            final(self).data == (Data { time, ..old(self).data }),
    {
        self.data.time = time;
    }

    /// The bytes of the block.
    pub fn as_bytes(&self) -> (r: Vec<u8>)
        ensures
            r@ == data_bytes(self.data),
            r@.len() == 40,
    {
        let mode: u32 = if self.data.color_mode >= 0 {
            self.data.color_mode as u32
        } else {
            (self.data.color_mode as i64 + 0x1_0000_0000) as u32
        };
        let floor: u32 = if self.data.draw_floor {
            1
        } else {
            0
        };
        let mut bytes: Vec<u8> = Vec::new();
        push_word(&mut bytes, mode);
        push_word(&mut bytes, floor);
        push_word(&mut bytes, self.data.fog_dist);
        push_word(&mut bytes, self.data.quality);
        push_vec2(&mut bytes, self.data.resolution);
        push_word(&mut bytes, self.data.shape_color_r);
        push_word(&mut bytes, self.data.shape_color_g);
        push_word(&mut bytes, self.data.shape_color_b);
        push_word(&mut bytes, self.data.time);
        bytes
    }
}

} // verus!
