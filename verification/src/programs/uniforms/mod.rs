use vstd::prelude::*;
use crate::name_map::{find_name, lemma_lookup_absent, names_of, NameMap};
use crate::programs::config::{defaults_view, ProgramDefaults, ProgramDefaultsView};
use crate::programs::uniforms::base::{Bufferable, Vec2, Vec3};
use crate::programs::uniforms::camera::CameraUniforms;
use crate::programs::uniforms::general::GeneralUniforms;
use crate::programs::uniforms::geometry::GeometryUniforms;

pub mod base;
pub mod camera;
pub mod general;
pub mod geometry;

verus! {

/// The kinds of uniform data that a program can read. Each has one buffer on
/// the GPU, one bind group and one bind group layout, all known by the kind.
#[derive(Clone, Copy, Debug, PartialEq, Eq, Structural)]
pub enum UniformKind {
    Camera,
    General,
    Geometry,
}

impl UniformKind {
    /// The name by which a configuration refers to the kind.
    pub open spec fn name_spec(self) -> Seq<char> {
        match self {
            UniformKind::Camera => "camera"@,
            UniformKind::General => "general"@,
            UniformKind::Geometry => "geometry"@,
        }
    }

    /// The name by which a configuration refers to the kind.
    pub fn name(self) -> (r: String)
        ensures
            r@ == self.name_spec(),
    {
        match self {
            UniformKind::Camera => String::from_str("camera"),
            UniformKind::General => String::from_str("general"),
            UniformKind::Geometry => String::from_str("geometry"),
        }
    }

    /// No two kinds share a name.
    pub proof fn lemma_names_differ(self, other: UniformKind)
        ensures
            self.name_spec() == other.name_spec() ==> self == other,
    {
        reveal_strlit("camera");
        reveal_strlit("general");
        reveal_strlit("geometry");
        assert("camera"@.len() == 6);
        assert("general"@.len() == 7);
        assert("geometry"@.len() == 8);
    }
}

/// Which kinds of uniform data the current program reads.
#[derive(Clone, Copy, Debug, PartialEq, Eq, Structural)]
pub struct UniformSubscriptions {
    pub camera: bool,
    pub general: bool,
    pub geometry: bool,
}

impl UniformSubscriptions {
    /// Whether the program reads data of this kind.
    pub open spec fn includes(self, kind: UniformKind) -> bool {
        match kind {
            UniformKind::Camera => self.camera,
            UniformKind::General => self.general,
            UniformKind::Geometry => self.geometry,
        }
    }
}

/// The subscriptions of a program with these uniform names: a kind is
/// subscribed if and only if its name is in the list.
pub open spec fn subscriptions_of(names: Seq<Seq<char>>) -> UniformSubscriptions {
    UniformSubscriptions {
        camera: names.contains(UniformKind::Camera.name_spec()),
        general: names.contains(UniformKind::General.name_spec()),
        geometry: names.contains(UniformKind::Geometry.name_spec()),
    }
}

/// The subscriptions depend on which names a list holds, not on their order
/// nor on how often each occurs.
pub proof fn lemma_subscriptions_by_membership(a: Seq<Seq<char>>, b: Seq<Seq<char>>)
    requires
        a.to_set() == b.to_set(),
    ensures
        subscriptions_of(a) == subscriptions_of(b),
{
    assert forall|n: Seq<char>| a.contains(n) == b.contains(n) by {
        assert(a.to_set().contains(n) == a.contains(n));
        assert(b.to_set().contains(n) == b.contains(n));
    }
}

fn names_hold(names: &Vec<String>, kind: UniformKind) -> (r: bool)
    ensures
        r == names_of(names@).contains(kind.name_spec()),
{
    let name = kind.name();
    proof {
        names_of(names@).index_of_first_ensures(name@);
    }
    find_name(names, &name).is_some()
}

/// Builds the subscriptions of a program from the list of its uniform names.
pub fn get_subscriptions(names: &Vec<String>) -> (r: UniformSubscriptions)
    ensures
        r == subscriptions_of(names_of(names@)),
{
    UniformSubscriptions {
        camera: names_hold(names, UniformKind::Camera),
        general: names_hold(names, UniformKind::General),
        geometry: names_hold(names, UniformKind::Geometry),
    }
}

/// One copy of bytes into the GPU buffer of a kind.
#[derive(Debug)]
pub struct BufferCopy {
    pub target: UniformKind,
    pub data: Vec<u8>,
}

/// What a [`BufferCopy`] says.
pub struct CopyView {
    pub target: UniformKind,
    pub data: Seq<u8>,
}

impl View for BufferCopy {
    type V = CopyView;

    open spec fn view(&self) -> CopyView {
        CopyView { target: self.target, data: self.data@ }
    }
}

/// The copies recorded for one frame, in the order in which the GPU is to
/// carry them out before it draws.
#[derive(Debug)]
pub struct CommandEncoder {
    pub copies: Vec<BufferCopy>,
}

impl View for CommandEncoder {
    type V = Seq<CopyView>;

    open spec fn view(&self) -> Seq<CopyView> {
        Seq::new(self.copies@.len(), |i: int| self.copies@[i]@)
    }
}

impl CommandEncoder {
    /// An encoder in which nothing is recorded yet.
    pub fn new() -> (r: Self)
        ensures
            r@ == Seq::<CopyView>::empty(),
    {
        let r = CommandEncoder { copies: Vec::new() };
        r
    }
}

/// What the GPU buffers hold once `copies` were carried out on `contents`.
pub open spec fn after_copies(contents: Map<UniformKind, Seq<u8>>, copies: Seq<CopyView>) -> Map<
    UniformKind,
    Seq<u8>,
>
    decreases copies.len(),
{
    if copies.len() == 0 {
        contents
    } else {
        after_copies(contents, copies.drop_last()).insert(copies.last().target, copies.last().data)
    }
}

/// No copy among `copies` goes to the buffer of `kind`.
pub open spec fn spares(copies: Seq<CopyView>, kind: UniformKind) -> bool {
    forall|i: int| 0 <= i < copies.len() ==> (#[trigger] copies[i]).target != kind
}

/// Copies that spare a kind leave its buffer as it was, byte for byte.
pub proof fn lemma_spared_buffer_unchanged(
    contents: Map<UniformKind, Seq<u8>>,
    copies: Seq<CopyView>,
    kind: UniformKind,
)
    requires
        spares(copies, kind),
    ensures
        after_copies(contents, copies).contains_key(kind) == contents.contains_key(kind),
        after_copies(contents, copies)[kind] == contents[kind],
    decreases copies.len(),
{
    if copies.len() > 0 {
        let rest = copies.drop_last();
        lemma_spared_buffer_unchanged(contents, rest, kind);
    }
}

/// The GPU side of one kind of uniform data: a buffer with its bind group
/// and layout, made once for a fixed number of bytes and never resized.
#[derive(Clone, Copy, Debug, PartialEq, Eq, Structural)]
pub struct UniformBuffer {
    pub kind: UniformKind,
    pub size: usize,
}

impl UniformBuffer {
    /// The buffer of `kind`, sized to hold `data`.
    pub fn new(kind: UniformKind, data: &Vec<u8>) -> (r: Self)
        ensures
            r == (UniformBuffer { kind, size: data.len() }),
    {
        UniformBuffer { kind, size: data.len() }
    }

    /// What `update` records: one copy of `data` into the buffer where
    /// `data` fills it exactly, and nothing otherwise.
    pub open spec fn copy_of(self, data: Seq<u8>) -> Seq<CopyView> {
        if data.len() == self.size {
            seq![CopyView { target: self.kind, data }]
        } else {
            Seq::empty()
        }
    }

    /// Records the copy of `data` into the buffer, and says whether it did:
    /// data of another size than the buffer's is not copied.
    pub fn update(&self, encoder: &mut CommandEncoder, data: Vec<u8>) -> (copied: bool)
        ensures
            copied == (data.len() == self.size),
            final(encoder)@ == old(encoder)@ + self.copy_of(data@),
    {
        if data.len() != self.size {
            return false;
        }
        encoder.copies.push(BufferCopy { target: self.kind, data });
        true
    }
}

/// The buffers of a new store: one for each kind, under the name of the
/// kind, of the size of the kind's layout.
pub open spec fn initial_buffers() -> Map<Seq<char>, UniformBuffer> {
    Map::<Seq<char>, UniformBuffer>::empty().insert(
        UniformKind::Camera.name_spec(),
        UniformBuffer { kind: UniformKind::Camera, size: 36 },
    ).insert(
        UniformKind::General.name_spec(),
        UniformBuffer { kind: UniformKind::General, size: 12 },
    ).insert(
        UniformKind::Geometry.name_spec(),
        UniformBuffer { kind: UniformKind::Geometry, size: 12 },
    )
}

/// The uniform data of every kind, with the GPU buffer registered for each
/// under the name of its kind.
#[derive(Debug)]
pub struct BufferStore {
    pub buffers: NameMap<UniformBuffer>,
    pub camera_uniforms: CameraUniforms,
    pub general_uniforms: GeneralUniforms,
    pub geometry_uniforms: GeometryUniforms,
}

impl BufferStore {
    /// Every buffer stands under the name of its own kind.
    pub open spec fn wf(&self) -> bool {
        forall|name: Seq<char>| #[trigger]
            self.buffers.contains(name) ==> self.buffers.lookup(name).unwrap().kind.name_spec()
                == name
    }

    /// The bytes that the data of `kind` has now.
    pub open spec fn bytes_of(&self, kind: UniformKind) -> Seq<u8> {
        match kind {
            UniformKind::Camera => self.camera_uniforms.bytes(),
            UniformKind::General => self.general_uniforms.bytes(),
            UniformKind::Geometry => self.geometry_uniforms.bytes(),
        }
    }

    /// The copy that brings the buffer of `kind` up to date, where the kind is
    /// subscribed and has a buffer.
    pub open spec fn copy_for(&self, kind: UniformKind, subscriptions: UniformSubscriptions) -> Seq<
        CopyView,
    > {
        match self.buffers.lookup(kind.name_spec()) {
            Some(buffer) => if subscriptions.includes(kind) {
                buffer.copy_of(self.bytes_of(kind))
            } else {
                Seq::empty()
            },
            None => Seq::empty(),
        }
    }

    /// The copies that bring the buffers of the subscribed kinds up to date.
    pub open spec fn pending_copies(&self, subscriptions: UniformSubscriptions) -> Seq<CopyView> {
        self.copy_for(UniformKind::Camera, subscriptions) + self.copy_for(
            UniformKind::General,
            subscriptions,
        ) + self.copy_for(UniformKind::Geometry, subscriptions)
    }

    /// The store with the data of each kind as it is before any program is
    /// selected, and a buffer for each kind.
    pub fn new(size: Vec2) -> (r: Self)
        ensures
            r.wf(),
            r.camera_uniforms.data == camera::initial_data(),
            r.general_uniforms.data == general::initial_data(size),
            !r.general_uniforms.paused,
            r.geometry_uniforms.data == geometry::initial_data(),
            r.buffers.to_map() == initial_buffers(),
    {
        let camera_uniforms = CameraUniforms::new();
        let general_uniforms = GeneralUniforms::new(size);
        let geometry_uniforms = GeometryUniforms::new();
        proof {
            camera_uniforms.lemma_fills_layout();
            general_uniforms.lemma_fills_layout();
            geometry_uniforms.lemma_fills_layout();
        }
        let camera_buffer = UniformBuffer::new(UniformKind::Camera, &camera_uniforms.as_bytes());
        let general_buffer = UniformBuffer::new(UniformKind::General, &general_uniforms.as_bytes());
        let geometry_buffer = UniformBuffer::new(
            UniformKind::Geometry,
            &geometry_uniforms.as_bytes(),
        );
        let mut buffers: NameMap<UniformBuffer> = NameMap::new();
        buffers.insert(UniformKind::Camera.name(), camera_buffer);
        buffers.insert(UniformKind::General.name(), general_buffer);
        buffers.insert(UniformKind::Geometry.name(), geometry_buffer);
        let r = BufferStore { buffers, camera_uniforms, general_uniforms, geometry_uniforms };
        proof {
            assert forall|name: Seq<char>| #[trigger] r.buffers.contains(name) implies r.buffers.lookup(
                name,
            ).unwrap().kind.name_spec() == name by {
                assert(r.buffers.to_map().dom().contains(name));
                assert(r.buffers.to_map()[name] == r.buffers.lookup(name).unwrap());
                UniformKind::Camera.lemma_names_differ(UniformKind::General);
                UniformKind::Camera.lemma_names_differ(UniformKind::Geometry);
                UniformKind::General.lemma_names_differ(UniformKind::Geometry);
            }
        }
        r
    }

    /// The data of each subscribed kind after the defaults of a program were
    /// applied to it.
    pub open spec fn with_defaults(
        self,
        subscriptions: UniformSubscriptions,
        defaults: Option<ProgramDefaultsView>,
    ) -> BufferStore {
        BufferStore {
            buffers: self.buffers,
            camera_uniforms: if subscriptions.camera {
                CameraUniforms {
                    data: camera::with_defaults(self.camera_uniforms.data, defaults),
                }
            } else {
                self.camera_uniforms
            },
            general_uniforms: self.general_uniforms,
            geometry_uniforms: if subscriptions.geometry {
                GeometryUniforms {
                    data: geometry::with_defaults(self.geometry_uniforms.data, defaults),
                }
            } else {
                self.geometry_uniforms
            },
        }
    }

    /// Applies the defaults of the selected program to the data of the kinds
    /// it subscribes to. The GPU buffers are written by `update_buffers`.
    pub fn set_program_defaults(
        &mut self,
        subscriptions: &UniformSubscriptions,
        defaults: &Option<ProgramDefaults>,
    )
        ensures
            *final(self) == old(self).with_defaults(*subscriptions, defaults_view(*defaults)),
    {
        if subscriptions.camera {
            self.camera_uniforms.set_program_defaults(defaults);
        }
        if subscriptions.geometry {
            self.geometry_uniforms.set_program_defaults(defaults);
        }
    }

    /// The store with the value that goes by `name` set to `value`. The names
    /// are those by which a program gives its defaults; under any other
    /// name nothing is set.
    pub open spec fn with_value(self, name: Seq<char>, value: Vec3) -> BufferStore {
        let camera = self.camera_uniforms.data;
        BufferStore {
            buffers: self.buffers,
            camera_uniforms: CameraUniforms {
                data: camera::Data {
                    position: if name == "camera_position"@ {
                        value
                    } else {
                        camera.position
                    },
                    target: if name == "camera_target"@ {
                        value
                    } else {
                        camera.target
                    },
                    up: if name == "camera_up"@ {
                        value
                    } else {
                        camera.up
                    },
                },
            },
            general_uniforms: self.general_uniforms,
            geometry_uniforms: GeometryUniforms {
                data: geometry::Data {
                    rotation: if name == "shape_rotation"@ {
                        value
                    } else {
                        self.geometry_uniforms.data.rotation
                    },
                },
            },
        }
    }

    /// `name` is the name of a value that can be set.
    pub open spec fn is_value_name(name: Seq<char>) -> bool {
        name == "camera_position"@ || name == "camera_target"@ || name == "camera_up"@ || name
            == "shape_rotation"@
    }

    /// Sets the value that goes by `name`, and says whether there is one.
    /// The GPU buffers are written by `update_buffers`.
    pub fn set(&mut self, name: &String, value: Vec3) -> (known: bool)
        ensures
            known == Self::is_value_name(name@),
            *final(self) == old(self).with_value(name@, value),
    {
        proof {
            reveal_strlit("camera_position");
            reveal_strlit("camera_target");
            reveal_strlit("camera_up");
            reveal_strlit("shape_rotation");
            assert("camera_position"@.len() == 15);
            assert("camera_target"@.len() == 13);
            assert("camera_up"@.len() == 9);
            assert("shape_rotation"@.len() == 14);
        }
        if *name == String::from_str("camera_position") {
            self.camera_uniforms.data.position = value;
            true
        } else if *name == String::from_str("camera_target") {
            self.camera_uniforms.data.target = value;
            true
        } else if *name == String::from_str("camera_up") {
            self.camera_uniforms.data.up = value;
            true
        } else if *name == String::from_str("shape_rotation") {
            self.geometry_uniforms.data.rotation = value;
            true
        } else {
            false
        }
    }

    /// The store after one tick of the frame loop, at which the clock
    /// read `time`.
    pub open spec fn ticked(self, subscriptions: UniformSubscriptions, time: u32) -> BufferStore {
        BufferStore {
            buffers: self.buffers,
            camera_uniforms: self.camera_uniforms,
            general_uniforms: if subscriptions.general && !self.general_uniforms.paused {
                GeneralUniforms {
                    data: general::Data {
                        resolution: self.general_uniforms.data.resolution,
                        time,
                    },
                    paused: false,
                }
            } else {
                self.general_uniforms
            },
            geometry_uniforms: self.geometry_uniforms,
        }
    }

    /// Advances the data that depends on time. `time` is the reading of the
    /// clock: seconds since the start, as the bit pattern of a
    /// single-precision number. Call at every tick.
    pub fn update(&mut self, subscriptions: &UniformSubscriptions, time: u32)
        ensures
            *final(self) == old(self).ticked(*subscriptions, time),
    {
        if subscriptions.general {
            self.general_uniforms.update(time);
        }
    }

    /// Stops the time of the subscribed kinds.
    pub fn pause(&mut self, subscriptions: &UniformSubscriptions)
        ensures
            final(self).buffers == old(self).buffers,
            final(self).camera_uniforms == old(self).camera_uniforms,
            final(self).geometry_uniforms == old(self).geometry_uniforms,
            final(self).general_uniforms.data == old(self).general_uniforms.data,
            final(self).general_uniforms.paused == (subscriptions.general
                || old(self).general_uniforms.paused),
    {
        if subscriptions.general {
            self.general_uniforms.pause();
        }
    }

    /// Lets the time of the subscribed kinds run again.
    pub fn unpause(&mut self, subscriptions: &UniformSubscriptions)
        ensures
            final(self).buffers == old(self).buffers,
            final(self).camera_uniforms == old(self).camera_uniforms,
            final(self).geometry_uniforms == old(self).geometry_uniforms,
            final(self).general_uniforms.data == old(self).general_uniforms.data,
            final(self).general_uniforms.paused == (!subscriptions.general
                && old(self).general_uniforms.paused),
    {
        if subscriptions.general {
            self.general_uniforms.unpause();
        }
    }

    fn bytes_now(&self, kind: UniformKind) -> (r: Vec<u8>)
        ensures
            r@ == self.bytes_of(kind),
    {
        match kind {
            UniformKind::Camera => self.camera_uniforms.as_bytes(),
            UniformKind::General => self.general_uniforms.as_bytes(),
            UniformKind::Geometry => self.geometry_uniforms.as_bytes(),
        }
    }

    fn update_buffer(
        &self,
        encoder: &mut CommandEncoder,
        kind: UniformKind,
        subscriptions: &UniformSubscriptions,
    )
        ensures
            final(encoder)@ == old(encoder)@ + self.copy_for(kind, *subscriptions),
    {
        let subscribed = match kind {
            UniformKind::Camera => subscriptions.camera,
            UniformKind::General => subscriptions.general,
            UniformKind::Geometry => subscriptions.geometry,
        };
        if subscribed {
            if let Some(buffer) = self.buffers.get(&kind.name()) {
                buffer.update(encoder, self.bytes_now(kind));
                return ;
            }
        }
    }

    /// Records, for each subscribed kind, the copy of its data as it is now
    /// into its GPU buffer. Call before the frame is drawn.
    pub fn update_buffers(&self, encoder: &mut CommandEncoder, subscriptions: &UniformSubscriptions)
        ensures
            final(encoder)@ == old(encoder)@ + self.pending_copies(*subscriptions),
    {
        self.update_buffer(encoder, UniformKind::Camera, subscriptions);
        self.update_buffer(encoder, UniformKind::General, subscriptions);
        self.update_buffer(encoder, UniformKind::Geometry, subscriptions);
    }

    /// The copies of a frame never go to the buffer of a kind that is not
    /// subscribed.
    pub proof fn lemma_unsubscribed_spared(
        &self,
        subscriptions: UniformSubscriptions,
        kind: UniformKind,
    )
        requires
            self.wf(),
            !subscriptions.includes(kind),
        ensures
            spares(self.pending_copies(subscriptions), kind),
    {
        self.lemma_copy_goes_to_kind(UniformKind::Camera, subscriptions);
        self.lemma_copy_goes_to_kind(UniformKind::General, subscriptions);
        self.lemma_copy_goes_to_kind(UniformKind::Geometry, subscriptions);
    }

    /// The copies of a frame leave the buffer of a kind that is not
    /// subscribed as it was, byte for byte.
    pub proof fn lemma_unsubscribed_buffer_unchanged(
        &self,
        subscriptions: UniformSubscriptions,
        kind: UniformKind,
        contents: Map<UniformKind, Seq<u8>>,
    )
        requires
            self.wf(),
            !subscriptions.includes(kind),
        ensures
            after_copies(contents, self.pending_copies(subscriptions)).contains_key(kind)
                == contents.contains_key(kind),
            after_copies(contents, self.pending_copies(subscriptions))[kind] == contents[kind],
    {
        self.lemma_unsubscribed_spared(subscriptions, kind);
        lemma_spared_buffer_unchanged(contents, self.pending_copies(subscriptions), kind);
    }

    proof fn lemma_copy_goes_to_kind(&self, kind: UniformKind, subscriptions: UniformSubscriptions)
        requires
            self.wf(),
        ensures
            forall|i: int|
                0 <= i < self.copy_for(kind, subscriptions).len() ==> {
                    &&& (#[trigger] self.copy_for(kind, subscriptions)[i]).target == kind
                    &&& subscriptions.includes(kind)
                },
    {
        let name = kind.name_spec();
        lemma_lookup_absent(self.buffers.entries(), name);
        if self.buffers.lookup(name).is_some() {
            assert(self.buffers.contains(name));
            let buffer = self.buffers.lookup(name).unwrap();
            buffer.kind.lemma_names_differ(kind);
        }
    }

    /// The bind groups for a program with these uniform names, in the order
    /// of the names: that of the bindings of its pipeline. There are none if
    /// a name has no buffer.
    pub open spec fn bind_groups_of(&self, names: Seq<Seq<char>>) -> Option<Seq<UniformKind>> {
        if forall|i: int| 0 <= i < names.len() ==> self.buffers.contains(#[trigger] names[i]) {
            Some(Seq::new(names.len(), |i: int| self.buffers.lookup(names[i]).unwrap().kind))
        } else {
            None
        }
    }

    /// The bind groups for a program with these uniform names, in the order
    /// of the names.
    pub fn get_bind_groups(&self, names: &Vec<String>) -> (r: Option<Vec<UniformKind>>)
        ensures
            match r {
                Some(groups) => self.bind_groups_of(names_of(names@)) == Some(groups@),
                None => self.bind_groups_of(names_of(names@)).is_none(),
            },
    {
        let ghost all = names_of(names@);
        let mut groups: Vec<UniformKind> = Vec::new();
        let mut i: usize = 0;
        while i < names.len()
            invariant
                i <= names.len(),
                all == names_of(names@),
                groups.len() == i,
                forall|j: int| 0 <= j < i ==> self.buffers.contains(#[trigger] all[j]),
                forall|j: int|
                    0 <= j < i ==> groups[j] == self.buffers.lookup(#[trigger] all[j]).unwrap().kind,
            decreases names.len() - i,
        {
            proof {
                lemma_lookup_absent(self.buffers.entries(), all[i as int]);
            }
            match self.buffers.get(&names[i]) {
                Some(buffer) => {
                    groups.push(buffer.kind);
                },
                None => {
                    return None;
                },
            }
            i = i + 1;
        }
        Some(groups)
    }
}

} // verus!
