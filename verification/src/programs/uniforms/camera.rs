use vstd::prelude::*;
use crate::programs::config::{defaults_view, ProgramDefaults, ProgramDefaultsView};
use crate::programs::uniforms::base::{push_vec3, vec3_bytes, Bufferable, Vec3, ONE, ZERO};

verus! {

/// The bit pattern of the single-precision number 5: how far from the origin
/// the camera stands at first.
pub const INITIAL_DISTANCE: u32 = 0x40A0_0000;

/// What the shader reads of the camera, in this order.
#[derive(Clone, Copy, Debug, PartialEq, Eq, Structural)]
pub struct Data {
    pub position: Vec3,
    pub target: Vec3,
    pub up: Vec3,
}

/// The camera: where it stands, what it looks at, and which way is up.
#[derive(Clone, Copy, Debug, PartialEq, Eq, Structural)]
pub struct CameraUniforms {
    pub data: Data,
}

/// The camera before any program has set it: on the z axis, looking at the
/// origin, with the y axis up.
pub open spec fn initial_data() -> Data {
    Data {
        position: Vec3 { x: ZERO, y: ZERO, z: INITIAL_DISTANCE },
        target: Vec3 { x: ZERO, y: ZERO, z: ZERO },
        up: Vec3 { x: ZERO, y: ONE, z: ZERO },
    }
}

/// `current`, or `default` where a program gives one.
pub open spec fn or_default(current: Vec3, default: Option<Vec3>) -> Vec3 {
    match default {
        Some(v) => v,
        None => current,
    }
}

/// The camera after a program's defaults were applied to it.
pub open spec fn with_defaults(data: Data, defaults: Option<ProgramDefaultsView>) -> Data {
    match defaults {
        Some(d) => Data {
            position: or_default(data.position, d.camera_position),
            target: or_default(data.target, d.camera_target),
            up: or_default(data.up, d.camera_up),
        },
        None => data,
    }
}

impl CameraUniforms {
    /// The camera before any program has set it.
    pub fn new() -> (r: Self)
        ensures
            r.data == initial_data(),
    {
        CameraUniforms {
            data: Data {
                position: Vec3 { x: ZERO, y: ZERO, z: INITIAL_DISTANCE },
                target: Vec3 { x: ZERO, y: ZERO, z: ZERO },
                up: Vec3 { x: ZERO, y: ONE, z: ZERO },
            },
        }
    }

    /// Sets what the program's defaults give, and leaves the rest.
    pub fn set_program_defaults(&mut self, defaults: &Option<ProgramDefaults>)
        ensures
            final(self).data == with_defaults(old(self).data, defaults_view(*defaults)),
    {
        if let Some(d) = defaults {
            if let Some(position) = d.camera_position {
                self.data.position = position;
            }
            if let Some(target) = d.camera_target {
                self.data.target = target;
            }
            if let Some(up) = d.camera_up {
                self.data.up = up;
            }
        }
    }
}

impl Bufferable for CameraUniforms {
    open spec fn layout_len() -> nat {
        36
    }

    open spec fn bytes(&self) -> Seq<u8> {
        vec3_bytes(self.data.position) + vec3_bytes(self.data.target) + vec3_bytes(self.data.up)
    }

    proof fn lemma_fills_layout(&self) {
    }

    fn as_bytes(&self) -> (r: Vec<u8>) {
        let mut bytes: Vec<u8> = Vec::new();
        push_vec3(&mut bytes, self.data.position);
        push_vec3(&mut bytes, self.data.target);
        push_vec3(&mut bytes, self.data.up);
        bytes
    }
}

} // verus!
