use vstd::prelude::*;
use crate::programs::config::{defaults_view, ProgramDefaults, ProgramDefaultsView};
use crate::programs::uniforms::base::{push_vec3, vec3_bytes, Bufferable, Vec3, ZERO};

verus! {

/// What the shader reads of the shape.
#[derive(Clone, Copy, Debug, PartialEq, Eq, Structural)]
pub struct Data {
    pub rotation: Vec3,
}

/// How the shape is turned.
#[derive(Clone, Copy, Debug, PartialEq, Eq, Structural)]
pub struct GeometryUniforms {
    pub data: Data,
}

/// The shape before any program has set it: not turned.
pub open spec fn initial_data() -> Data {
    Data { rotation: Vec3 { x: ZERO, y: ZERO, z: ZERO } }
}

/// The shape after a program's defaults were applied to it.
pub open spec fn with_defaults(data: Data, defaults: Option<ProgramDefaultsView>) -> Data {
    match defaults {
        Some(d) => match d.shape_rotation {
            Some(rotation) => Data { rotation },
            None => data,
        },
        None => data,
    }
}

impl GeometryUniforms {
    /// The shape before any program has set it.
    pub fn new() -> (r: Self)
        ensures
            r.data == initial_data(),
    {
        GeometryUniforms { data: Data { rotation: Vec3 { x: ZERO, y: ZERO, z: ZERO } } }
    }

    /// Sets what the program's defaults give, and leaves the rest.
    pub fn set_program_defaults(&mut self, defaults: &Option<ProgramDefaults>)
        ensures
            final(self).data == with_defaults(old(self).data, defaults_view(*defaults)),
    {
        if let Some(d) = defaults {
            if let Some(rotation) = d.shape_rotation {
                self.data.rotation = rotation;
            }
        }
    }
}

impl Bufferable for GeometryUniforms {
    open spec fn layout_len() -> nat {
        12
    }

    open spec fn bytes(&self) -> Seq<u8> {
        vec3_bytes(self.data.rotation)
    }

    proof fn lemma_fills_layout(&self) {
    }

    fn as_bytes(&self) -> (r: Vec<u8>) {
        let mut bytes: Vec<u8> = Vec::new();
        push_vec3(&mut bytes, self.data.rotation);
        bytes
    }
}

} // verus!
