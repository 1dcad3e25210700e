//! Scene extraction for the decoration buffer: particles, portals and edges
//! are walked in component order and serialized into one tagged buffer, and
//! the same portal traversal is grouped into consecutive pairs filling a
//! fixed table of traversal slots.
//!
//! Capacity is enforced here, at the encoder boundary: a record that would
//! push the buffer past its word budget is rejected whole and counted, never
//! written in part.

use vstd::prelude::*;

use crate::tagged::{
    encode_records, encode_step, encoding_fits, finish_spec, Record, TypeBuffer,
    MAX_TYPE_BUFFER_DATA,
};

verus! {

/// A three-component integer vector: voxel-grid positions and half extents.
#[derive(Clone, Copy, PartialEq, Eq, Structural, Debug)]
pub struct IVec3 {
    pub x: i32,
    pub y: i32,
    pub z: i32,
}

/// A three-component float vector carried as the raw bit patterns of its
/// `f32` components.
#[derive(Clone, Copy, PartialEq, Eq, Structural, Debug)]
pub struct Vec3Bits {
    pub x: u32,
    pub y: u32,
    pub z: u32,
}

pub open spec fn vec3_zero() -> Vec3Bits {
    Vec3Bits { x: 0, y: 0, z: 0 }
}

pub open spec fn ivec3_zero() -> IVec3 {
    IVec3 { x: 0, y: 0, z: 0 }
}

/// A particle decoration: a single voxel of the given material.
#[derive(Clone, Copy, PartialEq, Eq, Structural, Debug)]
pub struct Particle {
    pub material: u8,
}

/// A portal surface. The normal must be a normalized voxel normal, carried
/// as bit patterns.
#[derive(Clone, Copy, PartialEq, Eq, Structural, Debug)]
pub struct Portal {
    pub material: u8,
    pub half_size: IVec3,
    pub normal: Vec3Bits,
}

/// A box-edge decoration.
#[derive(Clone, Copy, PartialEq, Eq, Structural, Debug)]
pub struct Edges {
    pub material: u8,
    pub half_size: IVec3,
}

/// A portal as handed to the extractor: the component itself, its
/// world-to-voxel converted position for the decoration record, and its
/// render-space position (half-voxel offset included) for the pairing
/// table.
#[derive(Clone, Copy, PartialEq, Eq, Structural, Debug)]
pub struct PortalInstance {
    pub voxel_pos: IVec3,
    pub render_pos: Vec3Bits,
    pub portal: Portal,
}

/// The decoration record of one particle: tag 0, then material and voxel
/// position.
pub open spec fn particle_record(voxel_pos: IVec3, p: Particle) -> Record {
    Record {
        tag: 0,
        fields: seq![
            p.material as u32,
            voxel_pos.x as u32,
            voxel_pos.y as u32,
            voxel_pos.z as u32,
        ],
    }
}

/// The decoration record of one portal: tag 1, then material, voxel
/// position, traversal index and half extent.
pub open spec fn portal_record(inst: PortalInstance, index: u32) -> Record {
    Record {
        tag: 1,
        fields: seq![
            inst.portal.material as u32,
            inst.voxel_pos.x as u32,
            inst.voxel_pos.y as u32,
            inst.voxel_pos.z as u32,
            index,
            inst.portal.half_size.x as u32,
            inst.portal.half_size.y as u32,
            inst.portal.half_size.z as u32,
        ],
    }
}

/// The decoration record of one edges component: tag 2, then material,
/// voxel position and half extent.
pub open spec fn edges_record(voxel_pos: IVec3, e: Edges) -> Record {
    Record {
        tag: 2,
        fields: seq![
            e.material as u32,
            voxel_pos.x as u32,
            voxel_pos.y as u32,
            voxel_pos.z as u32,
            e.half_size.x as u32,
            e.half_size.y as u32,
            e.half_size.z as u32,
        ],
    }
}

/// The full record sequence of one decoration extraction, in component
/// order: particles, then portals (each carrying its traversal index), then
/// edges.
pub open spec fn decoration_records(
    particles: Seq<(IVec3, Particle)>,
    portals: Seq<PortalInstance>,
    edges: Seq<(IVec3, Edges)>,
) -> Seq<Record> {
    Seq::new(particles.len(), |i: int| particle_record(particles[i].0, particles[i].1))
        + Seq::new(portals.len(), |i: int| portal_record(portals[i], i as u32)) + Seq::new(
        edges.len(),
        |i: int| edges_record(edges[i].0, edges[i].1),
    )
}

/// The decoration buffer of one frame, with the count of records rejected
/// for want of capacity.
pub struct ExtractedAnimationData {
    pub data: Vec<u32>,
    pub dropped: usize,
}

/// Serializes this frame's decorations into a finished tagged buffer under
/// the fixed word budget. Every record is written whole or not at all;
/// `dropped` counts the rejected records.
pub fn extract_animation_data(
    particles: &Vec<(IVec3, Particle)>,
    portals: &Vec<PortalInstance>,
    edges: &Vec<(IVec3, Edges)>,
) -> (r: ExtractedAnimationData)
    requires
        portals@.len() <= u32::MAX,
        particles@.len() + portals@.len() + edges@.len() <= usize::MAX,
    ensures
        ({
            let st = encode_records(
                decoration_records(particles@, portals@, edges@),
                MAX_TYPE_BUFFER_DATA as int,
            );
            &&& r.data@ == finish_spec(st.header, st.data)
            &&& r.dropped == st.dropped
        }),
{
    let ghost cap = MAX_TYPE_BUFFER_DATA as int;
    let ghost particle_recs = Seq::new(
        particles@.len(),
        |i: int| particle_record(particles@[i].0, particles@[i].1),
    );
    let ghost portal_recs = Seq::new(portals@.len(), |i: int| portal_record(portals@[i], i as u32));
    let ghost edges_recs = Seq::new(edges@.len(), |i: int| edges_record(edges@[i].0, edges@[i].1));

    let mut buf = TypeBuffer::new();
    let mut dropped: usize = 0;

    proof {
        assert(encode_records(Seq::<Record>::empty(), cap) == crate::tagged::encoding_empty());
    }

    let mut i: usize = 0;
    while i < particles.len()
        invariant
            portals@.len() <= u32::MAX,
            particles@.len() + portals@.len() + edges@.len() <= usize::MAX,
            particle_recs == Seq::new(
                particles@.len(),
                |k: int| particle_record(particles@[k].0, particles@[k].1),
            ),
            0 <= i <= particles@.len(),
            dropped <= i,
            buf.wf(),
            buf.total_words() <= cap,
            cap == MAX_TYPE_BUFFER_DATA as int,
            ({
                let st = encode_records(particle_recs.take(i as int), cap);
                buf.header_view() == st.header && buf.data_view() == st.data && dropped
                    == st.dropped
            }),
        decreases particles@.len() - i,
    {
        let (vp, p) = particles[i];
        let ghost prefix = particle_recs.take(i as int);
        let ghost st = encode_records(prefix, cap);
        let ghost rec = particle_record(vp, p);
        proof {
            assert(particle_recs.take(i + 1).drop_last() =~= prefix);
            assert(particle_recs.take(i + 1).last() == rec);
            assert(encode_records(particle_recs.take(i + 1), cap) == encode_step(st, rec, cap));
        }
        if 2 + buf.num_records() + buf.data_len() + 4 <= MAX_TYPE_BUFFER_DATA {
            buf.push_object(0);
            buf.push_u32(p.material as u32);
            buf.push_ivec3(vp.x, vp.y, vp.z);
            proof {
                assert(encoding_fits(st, rec, cap));
                assert(buf.data_view() =~= st.data + rec.fields);
            }
        } else {
            dropped = dropped + 1;
            proof {
                assert(!encoding_fits(st, rec, cap));
            }
        }
        i = i + 1;
    }

    proof {
        assert(particle_recs.take(particles@.len() as int) =~= particle_recs);
    }

    let mut j: usize = 0;
    while j < portals.len()
        invariant
            portals@.len() <= u32::MAX,
            particles@.len() + portals@.len() + edges@.len() <= usize::MAX,
            particle_recs.len() == particles@.len(),
            portal_recs == Seq::new(
                portals@.len(),
                |k: int| portal_record(portals@[k], k as u32),
            ),
            0 <= j <= portals@.len(),
            dropped <= particles@.len() + j,
            buf.wf(),
            buf.total_words() <= cap,
            cap == MAX_TYPE_BUFFER_DATA as int,
            ({
                let st = encode_records(particle_recs + portal_recs.take(j as int), cap);
                buf.header_view() == st.header && buf.data_view() == st.data && dropped
                    == st.dropped
            }),
        decreases portals@.len() - j,
    {
        let inst = portals[j];
        let ghost prefix = particle_recs + portal_recs.take(j as int);
        let ghost st = encode_records(prefix, cap);
        let ghost rec = portal_record(inst, j as u32);
        proof {
            assert((particle_recs + portal_recs.take(j + 1)).drop_last() =~= prefix);
            assert((particle_recs + portal_recs.take(j + 1)).last() == rec);
            assert(encode_records(particle_recs + portal_recs.take(j + 1), cap) == encode_step(
                st,
                rec,
                cap,
            ));
        }
        if 2 + buf.num_records() + buf.data_len() + 8 <= MAX_TYPE_BUFFER_DATA {
            buf.push_object(1);
            buf.push_u32(inst.portal.material as u32);
            buf.push_ivec3(inst.voxel_pos.x, inst.voxel_pos.y, inst.voxel_pos.z);
            buf.push_u32(j as u32);
            buf.push_ivec3(
                inst.portal.half_size.x,
                inst.portal.half_size.y,
                inst.portal.half_size.z,
            );
            proof {
                assert(encoding_fits(st, rec, cap));
                assert(buf.data_view() =~= st.data + rec.fields);
            }
        } else {
            dropped = dropped + 1;
            proof {
                assert(!encoding_fits(st, rec, cap));
            }
        }
        j = j + 1;
    }

    proof {
        assert(portal_recs.take(portals@.len() as int) =~= portal_recs);
    }

    let mut e: usize = 0;
    while e < edges.len()
        invariant
            particles@.len() + portals@.len() + edges@.len() <= usize::MAX,
            particle_recs.len() == particles@.len(),
            portal_recs.len() == portals@.len(),
            edges_recs == Seq::new(edges@.len(), |k: int| edges_record(edges@[k].0, edges@[k].1)),
            0 <= e <= edges@.len(),
            dropped <= particles@.len() + portals@.len() + e,
            buf.wf(),
            buf.total_words() <= cap,
            cap == MAX_TYPE_BUFFER_DATA as int,
            ({
                let st = encode_records(particle_recs + portal_recs + edges_recs.take(e as int), cap);
                buf.header_view() == st.header && buf.data_view() == st.data && dropped
                    == st.dropped
            }),
        decreases edges@.len() - e,
    {
        let (vp, ed) = edges[e];
        let ghost prefix = particle_recs + portal_recs + edges_recs.take(e as int);
        let ghost st = encode_records(prefix, cap);
        let ghost rec = edges_record(vp, ed);
        proof {
            assert((particle_recs + portal_recs + edges_recs.take(e + 1)).drop_last() =~= prefix);
            assert((particle_recs + portal_recs + edges_recs.take(e + 1)).last() == rec);
            assert(encode_records(particle_recs + portal_recs + edges_recs.take(e + 1), cap)
                == encode_step(st, rec, cap));
        }
        if 2 + buf.num_records() + buf.data_len() + 7 <= MAX_TYPE_BUFFER_DATA {
            buf.push_object(2);
            buf.push_u32(ed.material as u32);
            buf.push_ivec3(vp.x, vp.y, vp.z);
            buf.push_ivec3(ed.half_size.x, ed.half_size.y, ed.half_size.z);
            proof {
                assert(encoding_fits(st, rec, cap));
                assert(buf.data_view() =~= st.data + rec.fields);
            }
        } else {
            dropped = dropped + 1;
            proof {
                assert(!encoding_fits(st, rec, cap));
            }
        }
        e = e + 1;
    }

    proof {
        assert(edges_recs.take(edges@.len() as int) =~= edges_recs);
        assert(particle_recs + portal_recs + edges_recs =~= decoration_records(
            particles@,
            portals@,
            edges@,
        ));
    }

    let data = buf.finish();
    ExtractedAnimationData { data, dropped }
}

/// Number of portal traversal slots in the fixed pairing table: sixteen
/// simultaneous pairs.
pub const PORTAL_SLOTS: usize = 32;

/// One directional portal-traversal record: this portal's render-space
/// position and normal, its counterpart's position and normal, and this
/// portal's half extent.
#[derive(Clone, Copy, PartialEq, Eq, Structural, Debug)]
pub struct ExtractedPortal {
    pub pos: Vec3Bits,
    pub other_pos: Vec3Bits,
    pub normal: Vec3Bits,
    pub other_normal: Vec3Bits,
    pub half_size: IVec3,
}

impl Default for ExtractedPortal {
    /// An unused slot: all components zero.
    fn default() -> (r: Self)
        ensures
            r == default_portal(),
    {
        ExtractedPortal {
            pos: Vec3Bits { x: 0, y: 0, z: 0 },
            other_pos: Vec3Bits { x: 0, y: 0, z: 0 },
            normal: Vec3Bits { x: 0, y: 0, z: 0 },
            other_normal: Vec3Bits { x: 0, y: 0, z: 0 },
            half_size: IVec3 { x: 0, y: 0, z: 0 },
        }
    }
}

pub open spec fn default_portal() -> ExtractedPortal {
    ExtractedPortal {
        pos: vec3_zero(),
        other_pos: vec3_zero(),
        normal: vec3_zero(),
        other_normal: vec3_zero(),
        half_size: ivec3_zero(),
    }
}

/// The traversal record of `own` with counterpart `other`.
pub open spec fn paired_portal(own: PortalInstance, other: PortalInstance) -> ExtractedPortal {
    ExtractedPortal {
        pos: own.render_pos,
        other_pos: other.render_pos,
        normal: own.portal.normal,
        other_normal: other.portal.normal,
        half_size: own.portal.half_size,
    }
}

/// The content of pairing-table slot `k`: portals are grouped into
/// consecutive pairs in traversal order, each pair filling two directional
/// slots that reference each other; a slot whose portal or counterpart does
/// not exist (an unpaired trailing portal, or a portal beyond the table's
/// capacity) stays at its default.
pub open spec fn portal_slot(portals: Seq<PortalInstance>, k: int) -> ExtractedPortal {
    let partner = if k % 2 == 0 {
        k + 1
    } else {
        k - 1
    };
    if 0 <= k < PORTAL_SLOTS && k < portals.len() && partner < portals.len() {
        paired_portal(portals[k], portals[partner])
    } else {
        default_portal()
    }
}

/// The pairing table of one frame, with the count of portals that did not
/// fit its fixed capacity.
pub struct PortalPairing {
    pub slots: Vec<ExtractedPortal>,
    pub dropped: usize,
}

/// Groups the portal traversal into consecutive pairs and writes them into
/// a fresh table, unused slots defaulted. Portals beyond the table's
/// capacity are dropped and counted.
pub fn pair_portals(portals: &Vec<PortalInstance>) -> (r: PortalPairing)
    ensures
        r.slots@.len() == PORTAL_SLOTS,
        forall|k: int| 0 <= k < PORTAL_SLOTS ==> r.slots@[k] == portal_slot(portals@, k),
        r.dropped == if portals@.len() > PORTAL_SLOTS {
            portals@.len() - PORTAL_SLOTS
        } else {
            0int
        },
{
    let mut slots: Vec<ExtractedPortal> = Vec::new();
    let mut s: usize = 0;
    while s < PORTAL_SLOTS
        invariant
            0 <= s <= PORTAL_SLOTS,
            slots@.len() == s,
            forall|k: int| 0 <= k < s ==> slots@[k] == default_portal(),
        decreases PORTAL_SLOTS - s,
    {
        slots.push(ExtractedPortal::default());
        s = s + 1;
    }

    let n = portals.len();
    let limit = if n < PORTAL_SLOTS {
        n
    } else {
        PORTAL_SLOTS
    };

    let mut p: usize = 0;
    while 2 * p + 1 < limit
        invariant
            limit <= PORTAL_SLOTS,
            limit <= portals@.len(),
            limit == if portals@.len() < PORTAL_SLOTS {
                portals@.len() as int
            } else {
                PORTAL_SLOTS as int
            },
            0 <= 2 * p <= limit + 1,
            slots@.len() == PORTAL_SLOTS,
            forall|k: int| 0 <= k < 2 * p ==> slots@[k] == portal_slot(portals@, k),
            forall|k: int| 2 * p <= k < PORTAL_SLOTS ==> slots@[k] == default_portal(),
        decreases limit - 2 * p,
    {
        let first = portals[2 * p];
        let second = portals[2 * p + 1];
        slots.set(2 * p, ExtractedPortal {
            pos: first.render_pos,
            other_pos: second.render_pos,
            normal: first.portal.normal,
            other_normal: second.portal.normal,
            half_size: first.portal.half_size,
        });
        slots.set(2 * p + 1, ExtractedPortal {
            pos: second.render_pos,
            other_pos: first.render_pos,
            normal: second.portal.normal,
            other_normal: first.portal.normal,
            half_size: second.portal.half_size,
        });
        proof {
            assert(slots@[2 * p as int] == portal_slot(portals@, 2 * p as int));
            assert(slots@[2 * p + 1] == portal_slot(portals@, 2 * p + 1));
        }
        p = p + 1;
    }

    proof {
        assert forall|k: int| 2 * p <= k < PORTAL_SLOTS implies slots@[k] == portal_slot(
            portals@,
            k,
        ) by {
            if k % 2 == 0 {
                assert(k + 1 >= limit);
                if k < portals@.len() && k + 1 < portals@.len() && k < PORTAL_SLOTS {
                    assert(k + 1 < limit);
                }
            } else {
                assert(k - 1 >= 2 * p - 1);
                if k < portals@.len() && k < PORTAL_SLOTS {
                    assert(k < limit);
                    assert(k <= 2 * p);
                    assert(k != 2 * p);
                }
            }
        }
    }

    let dropped = if n > PORTAL_SLOTS {
        n - PORTAL_SLOTS
    } else {
        0
    };
    PortalPairing { slots, dropped }
}

/// Portal symmetry: for every complete pair in the traversal, the two
/// directional records reference each other as counterpart — each record's
/// counterpart position and normal are the other record's own position and
/// normal.
pub proof fn lemma_portal_symmetry(portals: Seq<PortalInstance>, k: int)
    requires
        0 <= k,
        2 * k + 1 < PORTAL_SLOTS,
        2 * k + 1 < portals.len(),
    ensures
        portal_slot(portals, 2 * k).other_pos == portal_slot(portals, 2 * k + 1).pos,
        portal_slot(portals, 2 * k + 1).other_pos == portal_slot(portals, 2 * k).pos,
        portal_slot(portals, 2 * k).other_normal == portal_slot(portals, 2 * k + 1).normal,
        portal_slot(portals, 2 * k + 1).other_normal == portal_slot(portals, 2 * k).normal,
{
    assert((2 * k) % 2 == 0);
    assert((2 * k + 1) % 2 == 1);
}

} // verus!
