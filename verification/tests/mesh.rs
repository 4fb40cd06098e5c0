use aefr::entity::SpineObject;
use aefr::mesh::modulate;
use aefr::mesh::modulate_channel;
use aefr::mesh::premultiplied_channel;
use aefr::mesh::Attachment;
use aefr::mesh::GeometryError;
use aefr::mesh::MeshAttachment;
use aefr::mesh::MeshData;
use aefr::mesh::Placement;
use aefr::mesh::RegionAttachment;
use aefr::mesh::Rgba;
use aefr::mesh::SlotPose;
use aefr::mesh::Tint;
use aefr::mesh::Vertex;
use aefr::mesh::CHANNEL_MAX;
use aefr::mesh::ONE;

const HALF: u32 = 0x8000;

fn fx(whole: i32) -> i32 {
    whole * 0x1_0000
}

fn quad(x0: i32, y0: i32, x1: i32, y1: i32) -> [i32; 8] {
    [fx(x0), fx(y0), fx(x0), fx(y1), fx(x1), fx(y1), fx(x1), fx(y0)]
}

fn region_slot(points: [i32; 8], tint: Tint) -> SlotPose {
    SlotPose {
        tint,
        attachment: Some(Attachment::Region(RegionAttachment::new(points, Tint::white()))),
    }
}

fn triangle_mesh() -> MeshAttachment {
    MeshAttachment::new(
        vec![fx(0), fx(0), fx(10), fx(0), fx(0), fx(10)],
        vec![0, 0, 0x1_0000, 0, 0, 0x1_0000],
        vec![0, 1, 2],
        Tint::white(),
    )
    .expect("valid mesh")
}

fn origin() -> Placement {
    Placement { x: 0, y: 0, scale: ONE }
}

#[test]
fn white_on_white_is_opaque_white() {
    let out = modulate(Tint::white(), Tint::white());
    assert_eq!(out, Rgba { r: 255, g: 255, b: 255, a: 255 });
    assert_eq!(CHANNEL_MAX, 255);
    assert_eq!(ONE, 65536);
}

#[test]
fn half_alpha_is_half_of_the_range() {
    let slot = Tint { r: ONE, g: ONE, b: ONE, a: HALF };
    let out = modulate(slot, Tint::white());
    assert_eq!(out.a, 127);
    assert_eq!(out.a, (0.5f32 * 1.0f32 * 255.0f32) as u8);
    assert_eq!(out, Rgba { r: 127, g: 127, b: 127, a: 127 });
}

#[test]
fn colour_is_premultiplied_by_alpha() {
    assert_eq!(premultiplied_channel(ONE, ONE, ONE, ONE), 255);
    assert_eq!(premultiplied_channel(ONE, ONE, HALF, ONE), 127);
    assert_eq!(premultiplied_channel(ONE, ONE, HALF, HALF), 63);
    assert_eq!(premultiplied_channel(HALF, ONE, HALF, ONE), 63);
    assert_eq!(premultiplied_channel(HALF, HALF, HALF, HALF), 15);
    assert_eq!(premultiplied_channel(ONE, ONE, 0, ONE), 0);
    assert_eq!(premultiplied_channel(0, ONE, ONE, ONE), 0);
    assert_eq!(premultiplied_channel(ONE / 5, ONE, ONE, ONE), modulate_channel(ONE / 5, ONE));
    let clear = modulate(Tint { r: ONE, g: ONE, b: ONE, a: 0 }, Tint::white());
    assert_eq!(clear, Rgba { r: 0, g: 0, b: 0, a: 0 });
}

#[test]
fn no_colour_channel_exceeds_alpha() {
    let steps = [0u32, 1, ONE / 7, ONE / 3, HALF, HALF + 1, ONE - 1, ONE];
    for sc in steps {
        for ac in steps {
            for sa in steps {
                for aa in steps {
                    let slot = Tint { r: sc, g: ac, b: ONE, a: sa };
                    let attachment = Tint { r: ac, g: sc, b: sc, a: aa };
                    let out = modulate(slot, attachment);
                    assert!(out.r <= out.a && out.g <= out.a && out.b <= out.a);
                    let exact = (sc as u128) * (ac as u128) * (sa as u128) * (aa as u128) * 255
                        >> 64;
                    assert_eq!(out.r as u128, exact);
                    assert_eq!(out.a as u128, (sa as u128) * (aa as u128) * 255 >> 32);
                }
            }
        }
    }
}

#[test]
fn channels_multiply() {
    assert_eq!(modulate_channel(HALF, HALF), 63);
    assert_eq!(modulate_channel(0, ONE), 0);
    assert_eq!(modulate_channel(ONE, 0), 0);
    assert_eq!(modulate_channel(ONE / 4, ONE), 63);
    assert_eq!(modulate_channel(ONE, ONE / 5), 50);
    let out = modulate(
        Tint { r: ONE, g: HALF, b: ONE / 4, a: ONE },
        Tint { r: HALF, g: HALF, b: ONE, a: HALF },
    );
    assert_eq!(out, Rgba { r: 63, g: 31, b: 31, a: 127 });
}

#[test]
fn channels_beyond_full_strength_are_held_at_the_top() {
    assert_eq!(modulate_channel(2 * ONE, ONE), 255);
    assert_eq!(modulate_channel(2 * ONE, ONE / 4), 127);
    assert_eq!(modulate_channel(u32::MAX, u32::MAX), 255);
    assert_eq!(premultiplied_channel(u32::MAX, u32::MAX, u32::MAX, u32::MAX), 255);
    assert_eq!(premultiplied_channel(2 * ONE, ONE, ONE, ONE), 255);
    assert_eq!(premultiplied_channel(2 * ONE, ONE, HALF, HALF), 127);
}

#[test]
fn region_becomes_four_vertices_and_two_triangles() {
    let mut mesh = MeshData::with_texture(7);
    let slot = region_slot(quad(0, 0, 10, 20), Tint::white());
    assert!(mesh.push_slot(&slot, origin()));
    assert_eq!(mesh.texture(), 7);
    assert_eq!(mesh.vertices().len(), 4);
    assert_eq!(mesh.indices(), &vec![0, 1, 2, 2, 3, 0]);
    let white = Rgba { r: 255, g: 255, b: 255, a: 255 };
    assert_eq!(
        mesh.vertices()[2],
        Vertex { x: (10i128) << 32, y: -((20i128) << 32), u: 0, v: 0, color: white }
    );
}

#[test]
fn region_shows_the_unit_square() {
    for points in [quad(0, 0, 1, 1), quad(-5, 7, 300, 9), [7; 8], [i32::MIN; 8]] {
        let region = RegionAttachment::new(points, Tint::white());
        let slot = SlotPose { tint: Tint::white(), attachment: Some(Attachment::Region(region)) };
        let mut mesh = MeshData::with_texture(0);
        mesh.push_slot(&slot, origin());
        let uvs: Vec<(i32, i32)> = mesh.vertices().iter().map(|v| (v.u, v.v)).collect();
        assert_eq!(uvs, vec![(0x1_0000, 0x1_0000), (0, 0x1_0000), (0, 0), (0x1_0000, 0)]);
    }
}

#[test]
fn vertices_are_scaled_flipped_and_moved() {
    let place = Placement { x: fx(200), y: fx(720), scale: HALF };
    let mut mesh = MeshData::with_texture(1);
    mesh.push_slot(&region_slot(quad(-10, 0, 30, 100), Tint::white()), place);
    let v = mesh.vertices();
    let screen = |x: f64, y: f64| ((x * 4294967296.0) as i128, (y * 4294967296.0) as i128);
    assert_eq!((v[0].x, v[0].y), screen(-10.0 * 0.5 + 200.0, -0.0 * 0.5 + 720.0));
    assert_eq!((v[1].x, v[1].y), screen(-10.0 * 0.5 + 200.0, -100.0 * 0.5 + 720.0));
    assert_eq!((v[2].x, v[2].y), screen(30.0 * 0.5 + 200.0, -100.0 * 0.5 + 720.0));
    assert_eq!((v[3].x, v[3].y), screen(30.0 * 0.5 + 200.0, -0.0 * 0.5 + 720.0));
    assert_eq!(v[1].x, 195i128 << 32);
    assert_eq!(v[1].y, 670i128 << 32);
}

#[test]
fn placement_is_exact_at_the_limits() {
    let place = Placement { x: i32::MIN, y: i32::MAX, scale: u32::MAX };
    let points = [i32::MIN, i32::MIN, i32::MAX, i32::MAX, 0, 0, 1, -1];
    let mut mesh = MeshData::with_texture(1);
    mesh.push_slot(&region_slot(points, Tint::white()), place);
    let v = mesh.vertices();
    let s = u32::MAX as i128;
    assert_eq!(v[0].x, (i32::MIN as i128) * s + (i32::MIN as i128) * 65536);
    assert_eq!(v[0].y, -(i32::MIN as i128) * s + (i32::MAX as i128) * 65536);
    assert_eq!(v[1].x, (i32::MAX as i128) * s + (i32::MIN as i128) * 65536);
    assert_eq!(v[3].y, s + (i32::MAX as i128) * 65536);
}

#[test]
fn later_slots_index_their_own_vertices() {
    let mut mesh = MeshData::with_texture(1);
    let a = region_slot(quad(0, 0, 1, 1), Tint::white());
    let b = SlotPose { tint: Tint::white(), attachment: Some(Attachment::Mesh(triangle_mesh())) };
    let c = region_slot(quad(5, 5, 6, 6), Tint::white());
    assert!(mesh.push_slot(&a, origin()));
    assert!(mesh.push_slot(&b, origin()));
    assert!(mesh.push_slot(&c, origin()));
    assert_eq!(mesh.vertices().len(), 4 + 3 + 4);
    assert_eq!(mesh.indices(), &vec![0, 1, 2, 2, 3, 0, 4, 5, 6, 7, 8, 9, 9, 10, 7]);
    for index in &mesh.indices()[..6] {
        assert!(*index < 4);
    }
    for index in &mesh.indices()[6..9] {
        assert!(*index >= 4 && *index < 7);
    }
    for index in &mesh.indices()[9..] {
        assert!(*index >= 7 && *index < 11);
    }
}

#[test]
fn slots_are_drawn_in_the_order_given() {
    let slots = vec![
        region_slot(quad(0, 0, 1, 1), Tint { r: ONE, g: 0, b: 0, a: ONE }),
        SlotPose { tint: Tint::white(), attachment: None },
        SlotPose { tint: Tint::white(), attachment: Some(Attachment::Other) },
        region_slot(quad(2, 2, 3, 3), Tint { r: 0, g: ONE, b: 0, a: ONE }),
    ];
    let mut mesh = MeshData::with_texture(9);
    mesh.draw(&slots, origin());
    assert_eq!(mesh.vertices().len(), 8);
    assert_eq!(mesh.vertices()[0].color, Rgba { r: 255, g: 0, b: 0, a: 255 });
    assert_eq!(mesh.vertices()[4].color, Rgba { r: 0, g: 255, b: 0, a: 255 });
    assert_eq!(mesh.vertices()[4].x, 2i128 << 32);
    assert_eq!(mesh.indices(), &vec![0, 1, 2, 2, 3, 0, 4, 5, 6, 6, 7, 4]);
}

#[test]
fn empty_and_unknown_slots_add_nothing() {
    let mut mesh = MeshData::with_texture(1);
    assert!(!mesh.push_slot(&SlotPose { tint: Tint::white(), attachment: None }, origin()));
    assert!(!mesh.push_slot(
        &SlotPose { tint: Tint::white(), attachment: Some(Attachment::Other) },
        origin()
    ));
    assert_eq!(mesh, MeshData::with_texture(1));
    mesh.draw(&Vec::new(), origin());
    assert!(mesh.vertices().is_empty());
    assert!(mesh.indices().is_empty());
}

#[test]
fn mesh_attachment_takes_its_data_as_given() {
    let attachment = MeshAttachment::new(
        vec![fx(1), fx(2), fx(3), fx(4), fx(5), fx(6), fx(7), fx(8)],
        vec![1, 2, 3, 4, 5, 6, 7, 8],
        vec![3, 2, 1, 0, 1, 3],
        Tint { r: ONE, g: ONE, b: ONE, a: HALF },
    )
    .expect("valid");
    let slot = SlotPose { tint: Tint::white(), attachment: Some(Attachment::Mesh(attachment)) };
    let mut mesh = MeshData::with_texture(1);
    mesh.push_slot(&region_slot(quad(0, 0, 1, 1), Tint::white()), origin());
    mesh.push_slot(&slot, origin());
    assert_eq!(mesh.indices()[6..], [7, 6, 5, 4, 5, 7]);
    let v = mesh.vertices()[5];
    assert_eq!((v.x, v.y, v.u, v.v), (3i128 << 32, -(4i128 << 32), 3, 4));
    assert_eq!(v.color, Rgba { r: 127, g: 127, b: 127, a: 127 });
}

#[test]
fn mesh_attachment_is_checked_at_the_door() {
    let t = Tint::white();
    assert_eq!(
        MeshAttachment::new(vec![0, 0, 0, 0], vec![0, 0], vec![0], t),
        Err(GeometryError::LengthMismatch)
    );
    assert_eq!(
        MeshAttachment::new(vec![0, 0, 0], vec![0, 0, 0], vec![0], t),
        Err(GeometryError::OddLength)
    );
    assert_eq!(
        MeshAttachment::new(vec![0, 0, 0, 0], vec![0, 0, 0, 0], vec![0, 1, 2], t),
        Err(GeometryError::IndexOutOfRange)
    );
    assert_eq!(
        MeshAttachment::new(vec![], vec![], vec![0], t),
        Err(GeometryError::IndexOutOfRange)
    );
    assert_eq!(
        MeshAttachment::new(vec![0, 0, 0], vec![0, 0], vec![9], t),
        Err(GeometryError::LengthMismatch)
    );
    assert!(MeshAttachment::new(vec![], vec![], vec![], t).is_ok());
    assert!(MeshAttachment::new(vec![0, 0, 0, 0], vec![0, 0, 0, 0], vec![1, 1, 0], t).is_ok());
}

#[test]
fn character_paints_with_its_texture_and_place() {
    let mut entity = SpineObject::new(vec!["Idle".to_string()], 42);
    entity.set_position(fx(200), fx(720));
    let slots = vec![region_slot(quad(0, 0, 100, 100), Tint::white())];
    let mesh = entity.generate_mesh(&slots);
    assert_eq!(mesh.texture(), 42);
    assert_eq!(mesh.vertices().len(), 4);
    assert_eq!(mesh.vertices()[2].x, 250i128 << 32);
    assert_eq!(mesh.vertices()[2].y, 670i128 << 32);
    let mut expected = MeshData::with_texture(42);
    expected.draw(&slots, entity.placement());
    assert_eq!(mesh, expected);
}
