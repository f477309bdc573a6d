use shader_runtime::programs::config::ProgramDefaults;
use shader_runtime::programs::uniforms::base::{push_vec2, push_vec3, push_word, Bufferable, Vec2, Vec3, ONE, ZERO};
use shader_runtime::programs::uniforms::camera::{CameraUniforms, INITIAL_DISTANCE};
use shader_runtime::programs::uniforms::general::GeneralUniforms;
use shader_runtime::programs::uniforms::geometry::GeometryUniforms;
use shader_runtime::programs::uniforms::{
    get_subscriptions, BufferStore, CommandEncoder, UniformBuffer, UniformKind, UniformSubscriptions,
};

fn names(list: &[&str]) -> Vec<String> {
    list.iter().map(|n| n.to_string()).collect()
}

fn v3(x: f32, y: f32, z: f32) -> Vec3 {
    Vec3 { x: x.to_bits(), y: y.to_bits(), z: z.to_bits() }
}

fn floats(values: &[f32]) -> Vec<u8> {
    let mut bytes = Vec::new();
    for v in values {
        bytes.extend_from_slice(&v.to_le_bytes());
    }
    bytes
}

#[test]
fn constants_are_the_bits_of_the_numbers() {
    assert_eq!(ZERO, 0.0f32.to_bits());
    assert_eq!(ONE, 1.0f32.to_bits());
    assert_eq!(INITIAL_DISTANCE, 5.0f32.to_bits());
}

#[test]
fn word_is_laid_out_least_significant_byte_first() {
    let mut bytes = vec![9u8];
    push_word(&mut bytes, 0x1234_5678);
    assert_eq!(bytes, vec![9, 0x78, 0x56, 0x34, 0x12]);
    let mut one = Vec::new();
    push_word(&mut one, ONE);
    assert_eq!(one, vec![0x00, 0x00, 0x80, 0x3F]);
    let mut top = Vec::new();
    push_word(&mut top, u32::MAX);
    assert_eq!(top, vec![0xFF; 4]);
    let mut zero = Vec::new();
    push_word(&mut zero, 0);
    assert_eq!(zero, vec![0; 4]);
}

#[test]
fn vectors_are_laid_out_component_by_component() {
    let mut two = Vec::new();
    push_vec2(&mut two, Vec2 { x: 1, y: 0x0200 });
    assert_eq!(two, vec![1, 0, 0, 0, 0, 2, 0, 0]);
    let mut three = Vec::new();
    push_vec3(&mut three, Vec3 { x: 1, y: 2, z: 0x0300_0000 });
    assert_eq!(three, vec![1, 0, 0, 0, 2, 0, 0, 0, 0, 0, 0, 3]);
}

#[test]
fn subscriptions_follow_the_names() {
    let subscriptions = get_subscriptions(&names(&["camera", "general"]));
    assert_eq!(subscriptions, UniformSubscriptions { camera: true, general: true, geometry: false });
}

#[test]
fn subscriptions_do_not_depend_on_order() {
    let expected = UniformSubscriptions { camera: true, general: true, geometry: false };
    assert_eq!(get_subscriptions(&names(&["general", "camera"])), expected);
    assert_eq!(get_subscriptions(&names(&["camera", "general", "camera"])), expected);
}

#[test]
fn subscriptions_of_other_lists() {
    assert_eq!(
        get_subscriptions(&names(&[])),
        UniformSubscriptions { camera: false, general: false, geometry: false }
    );
    assert_eq!(
        get_subscriptions(&names(&["geometry"])),
        UniformSubscriptions { camera: false, general: false, geometry: true }
    );
    assert_eq!(
        get_subscriptions(&names(&["Camera", "audio", "geometry ", "gen"])),
        UniformSubscriptions { camera: false, general: false, geometry: false }
    );
    assert_eq!(
        get_subscriptions(&names(&["geometry", "general", "camera"])),
        UniformSubscriptions { camera: true, general: true, geometry: true }
    );
}

#[test]
fn kinds_have_their_names() {
    assert_eq!(UniformKind::Camera.name(), "camera");
    assert_eq!(UniformKind::General.name(), "general");
    assert_eq!(UniformKind::Geometry.name(), "geometry");
}

#[test]
fn camera_starts_on_the_z_axis() {
    let camera = CameraUniforms::new();
    assert_eq!(camera.data.position, v3(0.0, 0.0, 5.0));
    assert_eq!(camera.data.target, v3(0.0, 0.0, 0.0));
    assert_eq!(camera.data.up, v3(0.0, 1.0, 0.0));
    assert_eq!(camera.as_bytes(), floats(&[0.0, 0.0, 5.0, 0.0, 0.0, 0.0, 0.0, 1.0, 0.0]));
    assert_eq!(camera.as_bytes().len(), 36);
}

#[test]
fn camera_takes_the_defaults_that_are_given() {
    let mut camera = CameraUniforms::new();
    let defaults = ProgramDefaults {
        camera_position: Some(v3(1.0, 2.0, 3.0)),
        camera_target: None,
        camera_up: Some(v3(0.0, 0.0, 1.0)),
        shape_rotation: Some(v3(9.0, 9.0, 9.0)),
        audio_feature_smoothing: None,
        color_mode: None,
        image1: None,
        image2: None,
    };
    camera.set_program_defaults(&Some(defaults));
    assert_eq!(camera.data.position, v3(1.0, 2.0, 3.0));
    assert_eq!(camera.data.target, v3(0.0, 0.0, 0.0));
    assert_eq!(camera.data.up, v3(0.0, 0.0, 1.0));
    let before = camera;
    camera.set_program_defaults(&None);
    assert_eq!(camera, before);
}

#[test]
fn general_holds_resolution_and_time() {
    let size = Vec2 { x: 1920.0f32.to_bits(), y: 1080.0f32.to_bits() };
    let mut general = GeneralUniforms::new(size);
    assert_eq!(general.as_bytes(), floats(&[1920.0, 1080.0, 0.0]));
    general.update(2.5f32.to_bits());
    assert_eq!(general.data.resolution, size);
    assert_eq!(general.as_bytes(), floats(&[1920.0, 1080.0, 2.5]));
    assert_eq!(general.as_bytes().len(), 12);
}

#[test]
fn paused_time_stands_still() {
    let mut general = GeneralUniforms::new(Vec2 { x: 0, y: 0 });
    general.update(1.0f32.to_bits());
    general.pause();
    assert!(general.paused);
    general.update(2.0f32.to_bits());
    assert_eq!(general.data.time, 1.0f32.to_bits());
    general.unpause();
    assert!(!general.paused);
    general.update(3.0f32.to_bits());
    assert_eq!(general.data.time, 3.0f32.to_bits());
}

#[test]
fn geometry_holds_the_rotation() {
    let mut geometry = GeometryUniforms::new();
    assert_eq!(geometry.as_bytes(), floats(&[0.0, 0.0, 0.0]));
    let defaults = ProgramDefaults {
        camera_position: Some(v3(1.0, 2.0, 3.0)),
        camera_target: None,
        camera_up: None,
        shape_rotation: Some(v3(10.0, 20.0, 30.0)),
        audio_feature_smoothing: None,
        color_mode: None,
        image1: None,
        image2: None,
    };
    geometry.set_program_defaults(&Some(defaults));
    assert_eq!(geometry.as_bytes(), floats(&[10.0, 20.0, 30.0]));
    geometry.set_program_defaults(&Some(ProgramDefaults {
        camera_position: None,
        camera_target: None,
        camera_up: None,
        shape_rotation: None,
        audio_feature_smoothing: None,
        color_mode: None,
        image1: None,
        image2: None,
    }));
    assert_eq!(geometry.as_bytes(), floats(&[10.0, 20.0, 30.0]));
}

#[test]
fn buffer_is_sized_to_its_data() {
    let buffer = UniformBuffer::new(UniformKind::General, &vec![0u8; 12]);
    assert_eq!(buffer, UniformBuffer { kind: UniformKind::General, size: 12 });
}

#[test]
fn buffer_copies_data_of_its_size_only() {
    let buffer = UniformBuffer::new(UniformKind::Geometry, &vec![0u8; 4]);
    let mut encoder = CommandEncoder::new();
    assert!(buffer.update(&mut encoder, vec![1, 2, 3, 4]));
    assert!(!buffer.update(&mut encoder, vec![1, 2, 3]));
    assert!(!buffer.update(&mut encoder, vec![1, 2, 3, 4, 5]));
    assert!(buffer.update(&mut encoder, vec![5, 6, 7, 8]));
    assert_eq!(encoder.copies.len(), 2);
    assert_eq!(encoder.copies[0].target, UniformKind::Geometry);
    assert_eq!(encoder.copies[0].data, vec![1, 2, 3, 4]);
    assert_eq!(encoder.copies[1].data, vec![5, 6, 7, 8]);
}

#[test]
fn store_has_a_buffer_for_each_kind() {
    let store = BufferStore::new(Vec2 { x: 7, y: 8 });
    assert_eq!(store.buffers.get_names(), names(&["camera", "general", "geometry"]));
    assert_eq!(
        store.buffers.get(&"camera".to_string()),
        Some(&UniformBuffer { kind: UniformKind::Camera, size: 36 })
    );
    assert_eq!(
        store.buffers.get(&"general".to_string()),
        Some(&UniformBuffer { kind: UniformKind::General, size: 12 })
    );
    assert_eq!(
        store.buffers.get(&"geometry".to_string()),
        Some(&UniformBuffer { kind: UniformKind::Geometry, size: 12 })
    );
    assert_eq!(store.general_uniforms.data.resolution, Vec2 { x: 7, y: 8 });
    assert_eq!(store.camera_uniforms, CameraUniforms::new());
    assert_eq!(store.geometry_uniforms, GeometryUniforms::new());
}

#[test]
fn defaults_reach_subscribed_kinds_only() {
    let defaults = Some(ProgramDefaults {
        camera_position: Some(v3(1.0, 1.0, 1.0)),
        camera_target: None,
        camera_up: None,
        shape_rotation: Some(v3(2.0, 2.0, 2.0)),
        audio_feature_smoothing: None,
        color_mode: None,
        image1: None,
        image2: None,
    });
    let mut store = BufferStore::new(Vec2 { x: 0, y: 0 });
    store.set_program_defaults(
        &UniformSubscriptions { camera: true, general: true, geometry: false },
        &defaults,
    );
    assert_eq!(store.camera_uniforms.data.position, v3(1.0, 1.0, 1.0));
    assert_eq!(store.geometry_uniforms, GeometryUniforms::new());
    store.set_program_defaults(
        &UniformSubscriptions { camera: false, general: false, geometry: true },
        &defaults,
    );
    assert_eq!(store.geometry_uniforms.data.rotation, v3(2.0, 2.0, 2.0));
}

#[test]
fn time_advances_for_subscribers_only() {
    let mut store = BufferStore::new(Vec2 { x: 0, y: 0 });
    store.update(&UniformSubscriptions { camera: true, general: false, geometry: true }, 77);
    assert_eq!(store.general_uniforms.data.time, 0);
    store.update(&UniformSubscriptions { camera: false, general: true, geometry: false }, 77);
    assert_eq!(store.general_uniforms.data.time, 77);
}

#[test]
fn pause_reaches_subscribers_only() {
    let general = UniformSubscriptions { camera: false, general: true, geometry: false };
    let others = UniformSubscriptions { camera: true, general: false, geometry: true };
    let mut store = BufferStore::new(Vec2 { x: 0, y: 0 });
    store.pause(&others);
    assert!(!store.general_uniforms.paused);
    store.pause(&general);
    assert!(store.general_uniforms.paused);
    store.update(&general, 5);
    assert_eq!(store.general_uniforms.data.time, 0);
    store.unpause(&others);
    assert!(store.general_uniforms.paused);
    store.unpause(&general);
    assert!(!store.general_uniforms.paused);
    store.update(&general, 5);
    assert_eq!(store.general_uniforms.data.time, 5);
}

#[test]
fn update_buffers_copies_each_subscribed_kind() {
    let mut store = BufferStore::new(Vec2 { x: 640.0f32.to_bits(), y: 480.0f32.to_bits() });
    let all = UniformSubscriptions { camera: true, general: true, geometry: true };
    store.update(&all, 1.5f32.to_bits());
    let mut encoder = CommandEncoder::new();
    store.update_buffers(&mut encoder, &all);
    assert_eq!(encoder.copies.len(), 3);
    assert_eq!(encoder.copies[0].target, UniformKind::Camera);
    assert_eq!(encoder.copies[0].data, floats(&[0.0, 0.0, 5.0, 0.0, 0.0, 0.0, 0.0, 1.0, 0.0]));
    assert_eq!(encoder.copies[1].target, UniformKind::General);
    assert_eq!(encoder.copies[1].data, floats(&[640.0, 480.0, 1.5]));
    assert_eq!(encoder.copies[2].target, UniformKind::Geometry);
    assert_eq!(encoder.copies[2].data, floats(&[0.0, 0.0, 0.0]));
}

#[test]
fn update_buffers_leaves_unsubscribed_buffer_alone() {
    let store = BufferStore::new(Vec2 { x: 1, y: 2 });
    let mut gpu: Vec<Vec<u8>> = vec![vec![0xAA; 36], vec![0xBB; 12], vec![0xCC; 12]];
    let mut encoder = CommandEncoder::new();
    store.update_buffers(
        &mut encoder,
        &UniformSubscriptions { camera: true, general: true, geometry: false },
    );
    for copy in encoder.copies.iter() {
        let slot = match copy.target {
            UniformKind::Camera => 0,
            UniformKind::General => 1,
            UniformKind::Geometry => 2,
        };
        gpu[slot] = copy.data.clone();
    }
    assert_eq!(gpu[2], vec![0xCC; 12]);
    assert_eq!(gpu[0], store.camera_uniforms.as_bytes());
    assert_eq!(gpu[1], store.general_uniforms.as_bytes());
    assert_eq!(encoder.copies.len(), 2);
}

#[test]
fn update_buffers_with_no_subscription_records_nothing() {
    let store = BufferStore::new(Vec2 { x: 1, y: 2 });
    let mut encoder = CommandEncoder::new();
    store.update_buffers(
        &mut encoder,
        &UniformSubscriptions { camera: false, general: false, geometry: false },
    );
    assert!(encoder.copies.is_empty());
}

#[test]
fn update_buffers_skips_a_kind_without_buffer() {
    let mut store = BufferStore::new(Vec2 { x: 1, y: 2 });
    store.buffers = shader_runtime::name_map::NameMap::new();
    store.buffers.insert("general".to_string(), UniformBuffer { kind: UniformKind::General, size: 12 });
    store.buffers.insert("camera".to_string(), UniformBuffer { kind: UniformKind::Camera, size: 35 });
    let mut encoder = CommandEncoder::new();
    store.update_buffers(
        &mut encoder,
        &UniformSubscriptions { camera: true, general: true, geometry: true },
    );
    assert_eq!(encoder.copies.len(), 1);
    assert_eq!(encoder.copies[0].target, UniformKind::General);
}

#[test]
fn bind_groups_follow_the_order_of_the_names() {
    let store = BufferStore::new(Vec2 { x: 1, y: 2 });
    assert_eq!(
        store.get_bind_groups(&names(&["general", "camera"])),
        Some(vec![UniformKind::General, UniformKind::Camera])
    );
    assert_eq!(
        store.get_bind_groups(&names(&["geometry", "general", "camera", "general"])),
        Some(vec![
            UniformKind::Geometry,
            UniformKind::General,
            UniformKind::Camera,
            UniformKind::General
        ])
    );
    assert_eq!(store.get_bind_groups(&names(&[])), Some(vec![]));
}

#[test]
fn bind_groups_fail_on_a_name_without_buffer() {
    let store = BufferStore::new(Vec2 { x: 1, y: 2 });
    assert_eq!(store.get_bind_groups(&names(&["general", "audio"])), None);
    assert_eq!(store.get_bind_groups(&names(&["Camera"])), None);
}

#[test]
fn values_are_set_by_name() {
    let mut store = BufferStore::new(Vec2 { x: 1, y: 2 });
    assert!(store.set(&"camera_position".to_string(), v3(1.0, 2.0, 3.0)));
    assert!(store.set(&"camera_target".to_string(), v3(4.0, 5.0, 6.0)));
    assert!(store.set(&"camera_up".to_string(), v3(0.0, 0.0, 1.0)));
    assert!(store.set(&"shape_rotation".to_string(), v3(90.0, 0.0, 0.0)));
    assert_eq!(store.camera_uniforms.data.position, v3(1.0, 2.0, 3.0));
    assert_eq!(store.camera_uniforms.data.target, v3(4.0, 5.0, 6.0));
    assert_eq!(store.camera_uniforms.data.up, v3(0.0, 0.0, 1.0));
    assert_eq!(store.geometry_uniforms.data.rotation, v3(90.0, 0.0, 0.0));
    assert_eq!(store.general_uniforms.data.resolution, Vec2 { x: 1, y: 2 });
}

#[test]
fn unknown_value_name_sets_nothing() {
    let mut store = BufferStore::new(Vec2 { x: 1, y: 2 });
    assert!(!store.set(&"camera".to_string(), v3(1.0, 2.0, 3.0)));
    assert!(!store.set(&"".to_string(), v3(1.0, 2.0, 3.0)));
    assert!(!store.set(&"camera_position ".to_string(), v3(1.0, 2.0, 3.0)));
    assert_eq!(store.camera_uniforms, CameraUniforms::new());
    assert_eq!(store.geometry_uniforms, GeometryUniforms::new());
}

#[test]
fn set_values_reach_the_gpu_with_the_next_copy() {
    let mut store = BufferStore::new(Vec2 { x: 0, y: 0 });
    store.set(&"shape_rotation".to_string(), v3(1.0, 2.0, 3.0));
    let mut encoder = CommandEncoder::new();
    store.update_buffers(
        &mut encoder,
        &UniformSubscriptions { camera: false, general: false, geometry: true },
    );
    assert_eq!(encoder.copies.len(), 1);
    assert_eq!(encoder.copies[0].target, UniformKind::Geometry);
    assert_eq!(encoder.copies[0].data, floats(&[1.0, 2.0, 3.0]));
}
