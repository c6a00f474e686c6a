use snowmew_render::config::{Config, ConfigOption};
use snowmew_render::db::{Graphics, ShaderSlot};
use snowmew_render::light::{build, LightKind, LightSlot, DIRECTIONAL_MAX, POINT_LIGHT_MAX};
use snowmew_render::material::MaterialIndex;
use snowmew_render::shader::{compiled, linked, validated, Verdict, STATUS_FALSE, STATUS_TRUE};

#[test]
fn only_an_enabled_option_is_enabled() {
    assert!(ConfigOption::Enabled.enabled());
    assert!(!ConfigOption::Disabled.enabled());
    assert!(!ConfigOption::Unsupported.enabled());
}

#[test]
fn bindless_needs_version_4_4() {
    assert!(Config::new((5, 0)).use_bindless());
    assert!(Config::new((6, 1)).use_bindless());
    assert!(Config::new((4, 4)).use_bindless());
    assert!(Config::new((4, 5)).use_bindless());
    assert!(!Config::new((4, 3)).use_bindless());
    assert!(!Config::new((4, 0)).use_bindless());
    assert!(!Config::new((3, 9)).use_bindless());
    assert!(!Config::new((0, 0)).use_bindless());
}

#[test]
fn the_defaults_of_a_configuration() {
    let cfg = Config::new((4, 4));
    assert_eq!(cfg.max_size(), 128 * 1024);
    assert_eq!(cfg.hmd_size(), 1.0f32.to_bits());
    assert_eq!(f32::from_bits(cfg.hmd_size()), 1.0);
}

#[test]
fn graphics_keeps_the_two_latest_snapshots() {
    let mut g = Graphics::new(String::from("a"));
    assert_eq!(g.current(), "a");
    assert_eq!(g.last(), "a");
    g.update(String::from("b"));
    assert_eq!(g.current(), "b");
    assert_eq!(g.last(), "a");
    g.update(String::from("c"));
    assert_eq!(g.current(), "c");
    assert_eq!(g.last(), "b");
}

#[test]
fn graphics_loads_each_resource_once() {
    let mut g = Graphics::new(0u8);
    assert!(!g.has_vertex(3));
    assert!(!g.has_shader(ShaderSlot::Flat));
    let plan = g.load(&vec![3, 1, 3, 2, 1]);
    assert_eq!(plan.vertex, vec![3, 1, 2]);
    assert_eq!(
        plan.shaders,
        vec![
            ShaderSlot::RainbowNormal,
            ShaderSlot::RainbowTexture,
            ShaderSlot::Ovr,
            ShaderSlot::Flat
        ]
    );
    assert!(g.has_vertex(1) && g.has_vertex(2) && g.has_vertex(3) && !g.has_vertex(4));
    assert!(g.has_shader(ShaderSlot::RainbowNormal));
    assert!(g.has_shader(ShaderSlot::RainbowTexture));
    assert!(g.has_shader(ShaderSlot::Ovr));
    assert!(g.has_shader(ShaderSlot::Flat));

    let plan = g.load(&vec![2, 4, 4]);
    assert_eq!(plan.vertex, vec![4]);
    assert!(plan.shaders.is_empty());
    let plan = g.load(&vec![]);
    assert!(plan.vertex.is_empty());
    assert_eq!(*g.current(), 0);
}

#[test]
fn lights_are_placed_in_order() {
    let kinds = vec![
        LightKind::Point,
        LightKind::Directional,
        LightKind::Point,
        LightKind::Point,
        LightKind::Directional,
    ];
    let layout = build(&kinds);
    assert_eq!(
        layout.slots,
        vec![
            LightSlot::Point(0),
            LightSlot::Directional(0),
            LightSlot::Point(1),
            LightSlot::Point(2),
            LightSlot::Directional(1),
        ]
    );
    assert_eq!((layout.point_count, layout.direction_count), (3, 2));
    let none = build(&vec![]);
    assert!(none.slots.is_empty());
    assert_eq!((none.point_count, none.direction_count), (0, 0));
}

#[test]
fn lights_beyond_the_room_are_dropped() {
    assert_eq!((POINT_LIGHT_MAX, DIRECTIONAL_MAX), (480, 8));
    let mut kinds = vec![LightKind::Point; 481];
    kinds.extend(vec![LightKind::Directional; 10]);
    kinds.push(LightKind::Point);
    let layout = build(&kinds);
    assert_eq!(layout.slots.len(), 492);
    assert_eq!(layout.slots[479], LightSlot::Point(479));
    assert_eq!(layout.slots[480], LightSlot::Dropped);
    assert_eq!(layout.slots[481], LightSlot::Directional(0));
    assert_eq!(layout.slots[488], LightSlot::Directional(7));
    assert_eq!(layout.slots[489], LightSlot::Dropped);
    assert_eq!(layout.slots[490], LightSlot::Dropped);
    assert_eq!(layout.slots[491], LightSlot::Dropped);
    assert_eq!((layout.point_count, layout.direction_count), (480, 8));
}

#[test]
fn materials_are_numbered_from_one() {
    let mut index = MaterialIndex::new(4);
    assert_eq!(index.size(), 4);
    assert_eq!(index.id_of(10), None);
    assert_eq!(index.material_of(1), None);
    assert!(index.build(&vec![10, 20, 30]));
    assert_eq!(index.id_of(10), Some(1));
    assert_eq!(index.id_of(20), Some(2));
    assert_eq!(index.id_of(30), Some(3));
    assert_eq!(index.id_of(40), None);
    assert_eq!(index.material_of(0), None);
    assert_eq!(index.material_of(1), Some(10));
    assert_eq!(index.material_of(2), Some(20));
    assert_eq!(index.material_of(3), Some(30));
    assert_eq!(index.material_of(4), None);

    assert!(index.build(&vec![30]));
    assert_eq!(index.id_of(30), Some(1));
    assert_eq!(index.id_of(10), None);
    assert_eq!(index.material_of(1), Some(30));
    assert_eq!(index.material_of(2), None);
}

#[test]
fn too_many_materials_leave_the_index_alone() {
    let mut index = MaterialIndex::new(2);
    assert!(index.build(&vec![7, 8]));
    assert!(!index.build(&vec![1, 2, 3]));
    assert_eq!(index.id_of(7), Some(1));
    assert_eq!(index.id_of(8), Some(2));
    assert_eq!(index.id_of(1), None);
    assert_eq!(index.material_of(2), Some(8));
    assert_eq!(index.size(), 2);
    assert!(index.build(&vec![]));
    assert_eq!(index.id_of(7), None);
}

#[test]
fn a_material_listed_twice_goes_by_its_last_number() {
    let mut index = MaterialIndex::new(8);
    assert!(index.build(&vec![5, 6, 5]));
    assert_eq!(index.id_of(5), Some(3));
    assert_eq!(index.id_of(6), Some(2));
    assert_eq!(index.material_of(1), Some(5));
    assert_eq!(index.material_of(3), Some(5));
}

#[test]
fn a_compiled_shader_is_judged_by_its_log_and_status() {
    assert_eq!((STATUS_FALSE, STATUS_TRUE), (0, 1));
    assert_eq!(compiled(STATUS_TRUE, 0), Verdict::Accept);
    assert_eq!(compiled(STATUS_FALSE, 0), Verdict::Accept);
    assert_eq!(compiled(STATUS_TRUE, 12), Verdict::AcceptWithLog);
    assert_eq!(compiled(STATUS_FALSE, 12), Verdict::Reject);
    assert_eq!(compiled(STATUS_FALSE, -1), Verdict::Reject);
    assert_eq!(compiled(7, 1), Verdict::AcceptWithLog);
}

#[test]
fn a_linked_program_is_judged_by_its_status() {
    assert_eq!(linked(STATUS_TRUE), Verdict::Accept);
    assert_eq!(linked(STATUS_FALSE), Verdict::Reject);
    assert_eq!(linked(2), Verdict::Reject);
}

#[test]
fn a_validated_program_is_rejected_only_with_a_log() {
    assert_eq!(validated(STATUS_TRUE, 0), Verdict::Accept);
    assert_eq!(validated(STATUS_TRUE, 9), Verdict::Accept);
    assert_eq!(validated(STATUS_FALSE, 0), Verdict::Accept);
    assert_eq!(validated(STATUS_FALSE, -3), Verdict::Accept);
    assert_eq!(validated(STATUS_FALSE, 9), Verdict::Reject);
}
