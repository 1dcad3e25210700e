use voxel_compute::extract::Vec3Bits;
use voxel_compute::physics::{
    build_physics_data, extract_physics_data, reconcile_readback, AnimationData,
    ExtractedPhysicsData, PhysicsBody, PhysicsData,
};

fn bits3(x: f32, y: f32, z: f32) -> Vec3Bits {
    Vec3Bits { x: x.to_bits(), y: y.to_bits(), z: z.to_bits() }
}

fn body(entity: u64, pos: Vec3Bits, vel: Vec3Bits) -> PhysicsBody {
    PhysicsBody { entity, position: pos, velocity: vel }
}

#[test]
fn physics_buffer_exact_layout() {
    let bodies = vec![body(9, bits3(1.0, 2.0, 3.0), bits3(0.0, 0.0, 0.0))];
    let r = build_physics_data(&bodies);
    assert_eq!(
        r.data,
        vec![
            1u32,
            2,
            1.0f32.to_bits(),
            2.0f32.to_bits(),
            3.0f32.to_bits(),
            0,
            0,
            0,
        ]
    );
    assert_eq!(r.entities.get(&9), Some(&0));
    assert_eq!(r.dropped, 0);
}

#[test]
fn round_trip_preserves_bit_patterns() {
    // Encode a body at (1.0, 2.0, 3.0) with zero velocity, then decode it
    // through the entity index and the adjusted offset read.
    let original = body(42, bits3(1.0, 2.0, 3.0), bits3(0.0, 0.0, 0.0));
    let mut bodies = vec![original];
    let frame = build_physics_data(&bodies);

    // The device did not modify anything: reconciling against the buffer as
    // encoded must yield the identical bit patterns.
    reconcile_readback(&mut bodies, &frame.entities, &frame.data);
    assert_eq!(bodies[0], original);
}

#[test]
fn one_frame_latency_scenario() {
    // Frame N: inject a body with velocity (1, 0, 0). Nothing may change
    // during frame N's own extraction: the previous index is empty.
    let injected = body(7, bits3(0.0, 0.0, 0.0), bits3(1.0, 0.0, 0.0));
    let mut bodies = vec![injected];
    let prev = ExtractedPhysicsData::new();
    let frame_n = extract_physics_data(&mut bodies, &prev, None);
    assert_eq!(bodies[0], injected, "no result is applied within frame N");

    // The device integrates velocity over frame N, moving the body to
    // (1, 0, 0) in the host-visible copy.
    let mut result = frame_n.data.clone();
    let offset = (result[1] & 0x00FF_FFFF) as usize;
    result[offset] = 1.0f32.to_bits();

    // Frame N + 1: the reconciliation step applies the computed change.
    let frame_n1 = extract_physics_data(&mut bodies, &frame_n, Some(&result));
    assert_eq!(bodies[0].position, bits3(1.0, 0.0, 0.0));
    assert_eq!(bodies[0].velocity, bits3(1.0, 0.0, 0.0));
    // The rebuilt buffer now encodes the updated position.
    assert_eq!(frame_n1.data[2], 1.0f32.to_bits());
}

#[test]
fn entity_missing_from_index_is_skipped() {
    let stale = body(1, bits3(5.0, 5.0, 5.0), bits3(0.0, 0.0, 0.0));
    let fresh = body(2, bits3(6.0, 6.0, 6.0), bits3(0.0, 0.0, 0.0));
    let mut bodies = vec![stale, fresh];
    let indexed = build_physics_data(&vec![stale]);
    let mut result = indexed.data.clone();
    let offset = (result[1] & 0x00FF_FFFF) as usize;
    result[offset] = 9.0f32.to_bits();
    reconcile_readback(&mut bodies, &indexed.entities, &result);
    assert_eq!(bodies[0].position, bits3(9.0, 5.0, 5.0));
    assert_eq!(bodies[1], fresh, "an unindexed entity is left untouched");
}

#[test]
fn out_of_bounds_readback_is_skipped() {
    let b = body(3, bits3(1.0, 1.0, 1.0), bits3(0.0, 0.0, 0.0));
    let mut bodies = vec![b];
    let indexed = build_physics_data(&vec![b]);
    // A result buffer shorter than the record it should hold: the slot's
    // offset points past the end, so the body stays untouched.
    let truncated: Vec<u32> = vec![1, 2, 0];
    reconcile_readback(&mut bodies, &indexed.entities, &truncated);
    assert_eq!(bodies[0], b);
    // A result buffer whose record count disowns the slot is skipped too.
    let zero_count: Vec<u32> = indexed.data.iter().map(|w| *w).collect();
    let mut zero_count = zero_count;
    zero_count[0] = 0;
    reconcile_readback(&mut bodies, &indexed.entities, &zero_count);
    assert_eq!(bodies[0], b);
}

#[test]
fn physics_capacity_rejects_whole_records_only() {
    // Each body costs 7 words; with the count word the budget of 1,000,000
    // admits exactly 142,857 bodies.
    let mut bodies = Vec::new();
    for i in 0..142_858u64 {
        bodies.push(body(i, bits3(0.0, 0.0, 0.0), bits3(0.0, 0.0, 0.0)));
    }
    let r = build_physics_data(&bodies);
    assert_eq!(r.dropped, 1);
    assert_eq!(r.data[0], 142_857);
    assert_eq!(r.data.len(), 1 + 142_857 * 7);
    assert_eq!(r.entities.len(), 142_857);
    assert_eq!(r.entities.get(&142_857), None, "the rejected body is not indexed");
    assert_eq!(r.entities.get(&142_856), Some(&142_856));
}

#[test]
fn bookkeeping_from_extraction() {
    let bodies = vec![
        body(1, bits3(0.0, 0.0, 0.0), bits3(0.0, 0.0, 0.0)),
        body(2, bits3(1.0, 0.0, 0.0), bits3(0.0, 0.0, 0.0)),
    ];
    let x = build_physics_data(&bodies);
    let len = x.data.len() as u64;
    let p = PhysicsData::from_extraction(x);
    assert_eq!(p.dispatch_size, 2);
    assert_eq!(p.buffer_length, len);
    assert_eq!(p.entities.get(&2), Some(&1));

    let particles: Vec<(voxel_compute::extract::IVec3, voxel_compute::extract::Particle)> =
        Vec::new();
    let portals: Vec<voxel_compute::extract::PortalInstance> = Vec::new();
    let edges: Vec<(voxel_compute::extract::IVec3, voxel_compute::extract::Edges)> = Vec::new();
    let anim = voxel_compute::extract::extract_animation_data(&particles, &portals, &edges);
    let a = AnimationData::from_extraction(&anim);
    assert_eq!(a.dispatch_size, 0);
}
