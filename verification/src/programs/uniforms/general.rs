use vstd::prelude::*;
use crate::programs::uniforms::base::{push_vec2, push_word, vec2_bytes, word_bytes, Bufferable, Vec2, ZERO};

verus! {

/// What the shader reads of the frame, in this order.
#[derive(Clone, Copy, Debug, PartialEq, Eq, Structural)]
pub struct Data {
    pub resolution: Vec2,
    /// Seconds since the start, as the bit pattern of a single-precision
    /// number.
    pub time: u32,
}

/// The size of the frame and the time that has passed.
#[derive(Clone, Copy, Debug, PartialEq, Eq, Structural)]
pub struct GeneralUniforms {
    pub data: Data,
    /// While set, the time stands still.
    pub paused: bool,
}

/// The frame data at the start: the given size, and no time passed.
pub open spec fn initial_data(resolution: Vec2) -> Data {
    Data { resolution, time: ZERO }
}

impl GeneralUniforms {
    /// The frame data at the start, with the time running.
    pub fn new(resolution: Vec2) -> (r: Self)
        ensures
            r.data == initial_data(resolution),
            !r.paused,
    {
        GeneralUniforms { data: Data { resolution, time: ZERO }, paused: false }
    }

    /// Takes over the reading of the clock, unless the time stands still.
    pub fn update(&mut self, time: u32)
        ensures
            final(self).paused == old(self).paused,
            final(self).data.resolution == old(self).data.resolution,
            final(self).data.time == if old(self).paused {
                old(self).data.time
            } else {
                time
            },
    {
        if !self.paused {
            self.data.time = time;
        }
    }

    /// Stops the time.
    pub fn pause(&mut self)
        ensures
            final(self).paused,
            final(self).data == old(self).data,
    {
        self.paused = true;
    }

    /// Lets the time run again.
    pub fn unpause(&mut self)
        ensures
            !final(self).paused,
            final(self).data == old(self).data,
    {
        self.paused = false;
    }
}

impl Bufferable for GeneralUniforms {
    open spec fn layout_len() -> nat {
        12
    }

    open spec fn bytes(&self) -> Seq<u8> {
        vec2_bytes(self.data.resolution) + word_bytes(self.data.time)
    }

    proof fn lemma_fills_layout(&self) {
    }

    fn as_bytes(&self) -> (r: Vec<u8>) {
        let mut bytes: Vec<u8> = Vec::new();
        push_vec2(&mut bytes, self.data.resolution);
        push_word(&mut bytes, self.data.time);
        bytes
    }
}

} // verus!
