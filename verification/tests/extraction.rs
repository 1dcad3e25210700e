use voxel_compute::extract::{
    extract_animation_data, pair_portals, Edges, IVec3, Particle, Portal, PortalInstance,
    Vec3Bits,
};

fn ivec3(x: i32, y: i32, z: i32) -> IVec3 {
    IVec3 { x, y, z }
}

fn bits3(x: f32, y: f32, z: f32) -> Vec3Bits {
    Vec3Bits { x: x.to_bits(), y: y.to_bits(), z: z.to_bits() }
}

fn portal_at(pos: IVec3, render: Vec3Bits, normal: Vec3Bits, material: u8) -> PortalInstance {
    PortalInstance {
        voxel_pos: pos,
        render_pos: render,
        portal: Portal { material, half_size: ivec3(0, 5, 5), normal },
    }
}

#[test]
fn decoration_buffer_exact_layout() {
    let particles = vec![(ivec3(1, 2, 3), Particle { material: 7 })];
    let portals = vec![
        portal_at(ivec3(4, 5, 6), bits3(0.5, 0.0, 0.0), bits3(1.0, 0.0, 0.0), 120),
        portal_at(ivec3(7, 8, 9), bits3(0.0, 0.5, 0.0), bits3(0.0, 1.0, 0.0), 121),
    ];
    let edges = vec![(ivec3(-1, 0, 1), Edges { material: 9, half_size: ivec3(2, 2, 2) })];

    let r = extract_animation_data(&particles, &portals, &edges);
    assert_eq!(r.dropped, 0);

    // 4 records; offsets 0, 4, 12, 20 all adjusted by 4 + 1 = 5.
    let mut expected: Vec<u32> = vec![
        4,
        5,
        0x0100_0000 | 9,
        0x0100_0000 | 17,
        0x0200_0000 | 25,
    ];
    // particle: material, voxel_pos
    expected.extend([7, 1, 2, 3]);
    // portal 0: material, voxel_pos, traversal index, half_size
    expected.extend([120, 4, 5, 6, 0, 0, 5, 5]);
    // portal 1
    expected.extend([121, 7, 8, 9, 1, 0, 5, 5]);
    // edges: material, voxel_pos, half_size
    expected.extend([9, (-1i32) as u32, 0, 1, 2, 2, 2]);
    assert_eq!(r.data, expected);
}

#[test]
fn zero_records_still_emit_valid_buffer() {
    let particles: Vec<(IVec3, Particle)> = Vec::new();
    let portals: Vec<PortalInstance> = Vec::new();
    let edges: Vec<(IVec3, Edges)> = Vec::new();
    let r = extract_animation_data(&particles, &portals, &edges);
    assert_eq!(r.data, vec![0u32]);
    assert_eq!(r.dropped, 0);
}

#[test]
fn capacity_rejects_whole_records_only() {
    // Each particle costs 5 words (1 header + 4 fields); with the count word
    // the budget of 1,000,000 words admits exactly 199,999 particles.
    let mut particles: Vec<(IVec3, Particle)> = Vec::new();
    for i in 0..200_000i32 {
        particles.push((ivec3(i, i, i), Particle { material: 1 }));
    }
    let portals: Vec<PortalInstance> = Vec::new();
    let edges: Vec<(IVec3, Edges)> = Vec::new();
    let r = extract_animation_data(&particles, &portals, &edges);
    assert_eq!(r.dropped, 1);
    assert_eq!(r.data[0], 199_999);
    assert_eq!(r.data.len(), 1 + 199_999 + 4 * 199_999);
    // The last accepted record is whole: its four fields are present.
    let last_offset = (r.data[1 + 199_998] & 0x00FF_FFFF) as usize;
    assert_eq!(r.data[last_offset], 1);
    assert_eq!(r.data[last_offset + 1], 199_998);
    assert_eq!(last_offset + 4, r.data.len());
}

#[test]
fn portal_symmetry_for_pairs() {
    let a = portal_at(ivec3(0, 0, 0), bits3(0.1, 0.0, 0.0), bits3(1.0, 0.0, 0.0), 1);
    let b = portal_at(ivec3(1, 0, 0), bits3(0.2, 0.0, 0.0), bits3(-1.0, 0.0, 0.0), 2);
    let c = portal_at(ivec3(2, 0, 0), bits3(0.3, 0.0, 0.0), bits3(0.0, 1.0, 0.0), 3);
    let d = portal_at(ivec3(3, 0, 0), bits3(0.4, 0.0, 0.0), bits3(0.0, -1.0, 0.0), 4);
    let portals = vec![a, b, c, d];
    let pairing = pair_portals(&portals);
    assert_eq!(pairing.slots.len(), 32);
    assert_eq!(pairing.dropped, 0);
    for k in 0..2usize {
        let first = &pairing.slots[2 * k];
        let second = &pairing.slots[2 * k + 1];
        assert_eq!(first.other_pos, second.pos);
        assert_eq!(second.other_pos, first.pos);
        assert_eq!(first.other_normal, second.normal);
        assert_eq!(second.other_normal, first.normal);
    }
    assert_eq!(pairing.slots[0].pos, bits3(0.1, 0.0, 0.0));
    assert_eq!(pairing.slots[0].other_pos, bits3(0.2, 0.0, 0.0));
    // Unused slots stay defaulted.
    for k in 4..32usize {
        assert_eq!(pairing.slots[k], voxel_compute::extract::ExtractedPortal::default());
    }
}

#[test]
fn unpaired_trailing_portal_leaves_slot_default() {
    let a = portal_at(ivec3(0, 0, 0), bits3(0.1, 0.0, 0.0), bits3(1.0, 0.0, 0.0), 1);
    let b = portal_at(ivec3(1, 0, 0), bits3(0.2, 0.0, 0.0), bits3(-1.0, 0.0, 0.0), 2);
    let c = portal_at(ivec3(2, 0, 0), bits3(0.3, 0.0, 0.0), bits3(0.0, 1.0, 0.0), 3);
    let pairing = pair_portals(&vec![a, b, c]);
    assert_eq!(pairing.dropped, 0);
    assert_ne!(pairing.slots[0], voxel_compute::extract::ExtractedPortal::default());
    assert_ne!(pairing.slots[1], voxel_compute::extract::ExtractedPortal::default());
    assert_eq!(pairing.slots[2], voxel_compute::extract::ExtractedPortal::default());
}

#[test]
fn portals_beyond_capacity_are_dropped_and_counted() {
    let mut portals = Vec::new();
    for i in 0..35i32 {
        portals.push(portal_at(
            ivec3(i, 0, 0),
            bits3(i as f32, 0.0, 0.0),
            bits3(1.0, 0.0, 0.0),
            1,
        ));
    }
    let pairing = pair_portals(&portals);
    assert_eq!(pairing.dropped, 3);
    for k in 0..32usize {
        assert_ne!(pairing.slots[k], voxel_compute::extract::ExtractedPortal::default());
    }
    // The table still pairs only portals within its capacity.
    assert_eq!(pairing.slots[31].pos, bits3(31.0, 0.0, 0.0));
    assert_eq!(pairing.slots[31].other_pos, bits3(30.0, 0.0, 0.0));
}
