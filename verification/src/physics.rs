//! Physics extraction and readback reconciliation.
//!
//! Each frame the dynamic bodies are serialized into a tagged buffer while
//! an entity index records, for every accepted body, the header slot its
//! record begins at. One frame later the device-computed results are read
//! back from the host-visible copy of that same buffer and written onto the
//! scene entities through the index. Readback and rebuild are coupled into
//! one step so the index always corresponds to the buffer it indexes.

use std::collections::HashMap;

use vstd::prelude::*;

use crate::extract::Vec3Bits;
use crate::tagged::{
    encode_records, encode_step, encoding_fits, finish_spec, lemma_encode_records_uniform,
    pack_word, Record, TypeBuffer, MAX_TYPE_BUFFER_DATA,
};

verus! {

broadcast use vstd::std_specs::hash::group_hash_axioms;

/// A dynamic physics body as the extractor sees it: the scene entity it
/// belongs to, its world-space position and its velocity, both as bit
/// patterns.
#[derive(Clone, Copy, PartialEq, Eq, Structural, Debug)]
pub struct PhysicsBody {
    pub entity: u64,
    pub position: Vec3Bits,
    pub velocity: Vec3Bits,
}

/// The physics record of one body: tag 0, then world position and velocity.
pub open spec fn body_record(b: PhysicsBody) -> Record {
    Record {
        tag: 0,
        fields: seq![
            b.position.x,
            b.position.y,
            b.position.z,
            b.velocity.x,
            b.velocity.y,
            b.velocity.z,
        ],
    }
}

pub open spec fn body_records(bodies: Seq<PhysicsBody>) -> Seq<Record> {
    Seq::new(bodies.len(), |i: int| body_record(bodies[i]))
}

/// No two bodies share a scene entity.
pub open spec fn distinct_entities(bodies: Seq<PhysicsBody>) -> bool {
    forall|i: int, j: int|
        0 <= i < j < bodies.len() ==> (#[trigger] bodies[i]).entity != (#[trigger] bodies[j]).entity
}

/// One frame's physics extraction: the finished buffer, the entity index
/// mapping each accepted entity to the header slot of its record, and the
/// count of bodies rejected for want of capacity.
pub struct ExtractedPhysicsData {
    pub data: Vec<u32>,
    pub entities: HashMap<u64, usize>,
    pub dropped: usize,
}

impl ExtractedPhysicsData {
    /// The state before any frame has been extracted: an empty buffer and
    /// an empty index.
    pub fn new() -> (r: Self)
        ensures
            r.data@ == Seq::<u32>::empty(),
            r.entities@ == Map::<u64, usize>::empty(),
            r.dropped == 0,
    {
        ExtractedPhysicsData { data: Vec::new(), entities: HashMap::new(), dropped: 0 }
    }
}

/// Whether the index and result buffer admit a readback for entity `e`:
/// the entity is indexed, its slot lies within the result's own record
/// count, and both the header word and the six record words it points at
/// lie inside the buffer.
pub open spec fn readback_valid(m: Map<u64, usize>, result: Seq<u32>, e: u64) -> bool {
    &&& m.contains_key(e)
    &&& result.len() > 0
    &&& (m[e] as int) < result[0]
    &&& m[e] + 1 < result.len()
    &&& result[m[e] + 1] + 6 <= result.len()
}

/// The body after one reconciliation step: where a readback is admitted,
/// the six words at the record's absolute offset replace the body's
/// position and velocity; otherwise the body is untouched.
pub open spec fn reconciled_body(b: PhysicsBody, m: Map<u64, usize>, result: Seq<u32>) -> PhysicsBody {
    if readback_valid(m, result, b.entity) {
        let di = result[m[b.entity] + 1] as int;
        PhysicsBody {
            entity: b.entity,
            position: Vec3Bits { x: result[di], y: result[di + 1], z: result[di + 2] },
            velocity: Vec3Bits { x: result[di + 3], y: result[di + 4], z: result[di + 5] },
        }
    } else {
        b
    }
}

pub open spec fn reconciled_seq(
    bodies: Seq<PhysicsBody>,
    m: Map<u64, usize>,
    result: Seq<u32>,
) -> Seq<PhysicsBody> {
    Seq::new(bodies.len(), |k: int| reconciled_body(bodies[k], m, result))
}

/// Writes last frame's computed positions and velocities back onto the
/// bodies named by last frame's entity index. An entity absent from the
/// index, or a slot or offset outside the result buffer, is skipped
/// without error.
pub fn reconcile_readback(
    bodies: &mut Vec<PhysicsBody>,
    entities: &HashMap<u64, usize>,
    result: &Vec<u32>,
)
    ensures
        final(bodies)@ == reconciled_seq(old(bodies)@, entities@, result@),
{
    let n = bodies.len();
    let mut k: usize = 0;
    while k < n
        invariant
            n == old(bodies)@.len(),
            bodies@.len() == n,
            0 <= k <= n,
            forall|t: int|
                0 <= t < k ==> bodies@[t] == reconciled_body(old(bodies)@[t], entities@, result@),
            forall|t: int| k <= t < n ==> bodies@[t] == old(bodies)@[t],
        decreases n - k,
    {
        let b = bodies[k];
        match entities.get(&b.entity) {
            Some(slot_ref) => {
                let slot = *slot_ref;
                if result.len() > 0 && slot < result.len() && slot + 1 < result.len() && slot
                    < result[0] as usize {
                    let di = result[slot + 1] as usize;
                    if result.len() >= 6 && di <= result.len() - 6 {
                        bodies.set(k, PhysicsBody {
                            entity: b.entity,
                            position: Vec3Bits {
                                x: result[di],
                                y: result[di + 1],
                                z: result[di + 2],
                            },
                            velocity: Vec3Bits {
                                x: result[di + 3],
                                y: result[di + 4],
                                z: result[di + 5],
                            },
                        });
                        proof {
                            assert(readback_valid(entities@, result@, b.entity));
                        }
                    } else {
                        proof {
                            assert(!readback_valid(entities@, result@, b.entity));
                        }
                    }
                } else {
                    proof {
                        assert(!readback_valid(entities@, result@, b.entity));
                    }
                }
            },
            None => {
                proof {
                    assert(!entities@.contains_key(b.entity));
                    assert(!readback_valid(entities@, result@, b.entity));
                }
            },
        }
        k = k + 1;
    }
    proof {
        assert(bodies@ =~= reconciled_seq(old(bodies)@, entities@, result@));
    }
}

/// Rebuilds the physics buffer and entity index from the bodies as they
/// now stand. Bodies are encoded in iteration order; a body that would
/// push the buffer past its word budget is rejected whole, counted, and
/// left out of the index.
pub fn build_physics_data(bodies: &Vec<PhysicsBody>) -> (r: ExtractedPhysicsData)
    requires
        distinct_entities(bodies@),
    ensures
        extraction_matches(r.data@, r.entities@, r.dropped as int, bodies@),
{
    let ghost cap = MAX_TYPE_BUFFER_DATA as int;
    let ghost recs = body_records(bodies@);

    let mut buf = TypeBuffer::new();
    let mut entities: HashMap<u64, usize> = HashMap::new();
    let mut dropped: usize = 0;

    let n = bodies.len();
    let mut i: usize = 0;
    while i < n
        invariant
            distinct_entities(bodies@),
            n == bodies@.len(),
            recs == body_records(bodies@),
            0 <= i <= n,
            dropped <= i,
            buf.wf(),
            buf.total_words() <= cap,
            cap == MAX_TYPE_BUFFER_DATA as int,
            ({
                let st = encode_records(recs.take(i as int), cap);
                &&& buf.header_view() == st.header
                &&& buf.data_view() == st.data
                &&& dropped == st.dropped
                &&& st.header.len() + dropped == i
                &&& (st.header.len() == i || 2 + st.header.len() + st.data.len() + 6 > cap)
                &&& forall|t: int|
                    0 <= t < st.header.len() ==> entities@.contains_key(
                        (#[trigger] bodies@[t]).entity,
                    ) && entities@[bodies@[t].entity] == t
                &&& forall|e: u64|
                    entities@.contains_key(e) ==> exists|t: int|
                        0 <= t < st.header.len() && (#[trigger] bodies@[t]).entity == e
            }),
        decreases n - i,
    {
        let b = bodies[i];
        let ghost prefix = recs.take(i as int);
        let ghost st = encode_records(prefix, cap);
        let ghost rec = body_record(b);
        proof {
            assert(recs.take(i + 1).drop_last() =~= prefix);
            assert(recs.take(i + 1).last() == rec);
            assert(encode_records(recs.take(i + 1), cap) == encode_step(st, rec, cap));
        }
        if 2 + buf.num_records() + buf.data_len() + 6 <= MAX_TYPE_BUFFER_DATA {
            let slot = buf.num_records();
            entities.insert(b.entity, slot);
            buf.push_object(0);
            buf.push_vec3(b.position.x, b.position.y, b.position.z);
            buf.push_vec3(b.velocity.x, b.velocity.y, b.velocity.z);
            proof {
                assert(encoding_fits(st, rec, cap));
                assert(buf.data_view() =~= st.data + rec.fields);
                assert(slot == st.header.len());
                assert(slot == i);
                assert(b == bodies@[i as int]);
                assert forall|t: int|
                    0 <= t < st.header.len() + 1 implies entities@.contains_key(
                    (#[trigger] bodies@[t]).entity,
                ) && entities@[bodies@[t].entity] == t by {
                    if t < st.header.len() {
                        assert(t < i);
                        assert(bodies@[t].entity != bodies@[i as int].entity);
                    } else {
                        assert(bodies@[t] == b);
                    }
                }
            }
        } else {
            dropped = dropped + 1;
            proof {
                assert(!encoding_fits(st, rec, cap));
            }
        }
        i = i + 1;
    }
    proof {
        assert(recs.take(n as int) =~= recs);
    }
    let data = buf.finish();
    ExtractedPhysicsData { data, entities, dropped }
}

/// What one physics extraction guarantees about its buffer, index, and
/// dropped count, relative to the bodies it walked.
pub open spec fn extraction_matches(
    data: Seq<u32>,
    index: Map<u64, usize>,
    dropped: int,
    bodies: Seq<PhysicsBody>,
) -> bool {
    let st = encode_records(body_records(bodies), MAX_TYPE_BUFFER_DATA as int);
    &&& data == finish_spec(st.header, st.data)
    &&& dropped == st.dropped
    &&& forall|t: int|
        0 <= t < st.header.len() ==> index.contains_key((#[trigger] bodies[t]).entity)
            && index[bodies[t].entity] == t
    &&& forall|e: u64|
        index.contains_key(e) ==> exists|t: int|
            0 <= t < st.header.len() && (#[trigger] bodies[t]).entity == e
}

/// One frame's coupled physics step: first the previous frame's results —
/// where a result buffer was mapped and the previous buffer held at least
/// one record — are reconciled onto the bodies through the previous
/// frame's index; then buffer and index are rebuilt fresh from the bodies
/// as they now stand.
pub fn extract_physics_data(
    bodies: &mut Vec<PhysicsBody>,
    prev: &ExtractedPhysicsData,
    readback: Option<&Vec<u32>>,
) -> (r: ExtractedPhysicsData)
    requires
        distinct_entities(old(bodies)@),
    ensures
        final(bodies)@ == (match readback {
            Some(result) => if prev.data@.len() > 1 {
                reconciled_seq(old(bodies)@, prev.entities@, result@)
            } else {
                old(bodies)@
            },
            None => old(bodies)@,
        }),
        extraction_matches(r.data@, r.entities@, r.dropped as int, final(bodies)@),
{
    match readback {
        Some(result) => {
            if prev.data.len() > 1 {
                reconcile_readback(bodies, &prev.entities, result);
            }
        },
        None => {},
    }
    proof {
        assert(distinct_entities(bodies@));
    }
    build_physics_data(bodies)
}

/// Host-side physics bookkeeping of one frame: the record count that sizes
/// the physics kernel dispatch, the buffer word length that sizes the
/// device-to-host copy, and the entity index of the frame the buffer
/// belongs to.
pub struct PhysicsData {
    pub dispatch_size: u32,
    pub buffer_length: u64,
    pub entities: HashMap<u64, usize>,
}

impl PhysicsData {
    /// Derives the frame's bookkeeping from its extraction: the buffer's
    /// leading word is its record count.
    pub fn from_extraction(x: ExtractedPhysicsData) -> (r: PhysicsData)
        requires
            x.data@.len() <= u64::MAX,
        ensures
            r.dispatch_size == if x.data@.len() > 0 {
                x.data@[0] as int
            } else {
                0int
            },
            r.buffer_length == x.data@.len(),
            r.entities@ == x.entities@,
    {
        let dispatch_size = if x.data.len() > 0 {
            x.data[0]
        } else {
            0
        };
        let buffer_length = x.data.len() as u64;
        PhysicsData { dispatch_size, buffer_length, entities: x.entities }
    }
}

/// Host-side animation bookkeeping of one frame: the record count that
/// sizes the animation kernel dispatch.
pub struct AnimationData {
    pub dispatch_size: u32,
}

impl AnimationData {
    /// Derives the frame's bookkeeping from its extraction.
    pub fn from_extraction(x: &crate::extract::ExtractedAnimationData) -> (r: AnimationData)
        ensures
            r.dispatch_size == if x.data@.len() > 0 {
                x.data@[0] as int
            } else {
                0int
            },
    {
        let dispatch_size = if x.data.len() > 0 {
            x.data[0]
        } else {
            0
        };
        AnimationData { dispatch_size }
    }
}

/// The decode path of a finished physics buffer: for a body accepted at
/// header slot `i`, the whole header word at word index `i + 1` is the
/// record's absolute offset, the six words there are exactly the encoded
/// position and velocity bit patterns, and every read lies in bounds.
pub proof fn lemma_body_decode(bodies: Seq<PhysicsBody>, i: int)
    requires
        0 <= i < encode_records(body_records(bodies), MAX_TYPE_BUFFER_DATA as int).header.len(),
    ensures
        ({
            let st = encode_records(body_records(bodies), MAX_TYPE_BUFFER_DATA as int);
            let buffer = finish_spec(st.header, st.data);
            let di = buffer[i + 1] as int;
            &&& buffer.len() > 0
            &&& i < buffer[0]
            &&& i + 1 < buffer.len()
            &&& di + 6 <= buffer.len()
            &&& buffer[di] == bodies[i].position.x
            &&& buffer[di + 1] == bodies[i].position.y
            &&& buffer[di + 2] == bodies[i].position.z
            &&& buffer[di + 3] == bodies[i].velocity.x
            &&& buffer[di + 4] == bodies[i].velocity.y
            &&& buffer[di + 5] == bodies[i].velocity.z
        }),
{
    let cap = MAX_TYPE_BUFFER_DATA as int;
    let recs = body_records(bodies);
    assert(crate::tagged::uniform_records(recs, 0, 6));
    lemma_encode_records_uniform(recs, cap, 0, 6);
    assert(forall|t: int| 0 <= t < recs.len() ==> crate::tagged::record_valid(#[trigger] recs[t]));
    crate::tagged::lemma_encode_records_wf(recs, cap);
    let st = encode_records(recs, cap);
    let acc = st.header.len() as int;
    let h = acc;
    let buffer = finish_spec(st.header, st.data);
    assert(st.data.len() == acc * 6);
    assert(i * 6 + 6 <= acc * 6) by (nonlinear_arith)
        requires
            0 <= i < acc,
    ;
    assert(i * 6 >= 0) by (nonlinear_arith)
        requires
            0 <= i,
    ;
    assert(st.header[i] == pack_word(0, (i * 6) as u32));
    assert(pack_word(0, (i * 6) as u32) == (i * 6) as u32);
    assert(1 + h + st.data.len() <= cap);
    assert(buffer[i + 1] == (st.header[i] + h + 1) as u32);
    let di = buffer[i + 1] as int;
    assert(di == i * 6 + h + 1);
    assert forall|j: int| 0 <= j < 6 implies buffer[di + j] == body_record(bodies[i]).fields[j] by {
        assert(st.data[i * 6 + j] == recs[i].fields[j]);
        assert(buffer[1 + h + (i * 6 + j)] == st.data[i * 6 + j]);
    }
    assert(buffer[0] == st.header.len() as u32);
    assert(i < buffer[0]);
    assert(buffer.len() == 1 + h + st.data.len());
    assert(di + 6 <= buffer.len());
    let fields = body_record(bodies[i]).fields;
    assert(buffer[di] == fields[0] && fields[0] == bodies[i].position.x);
    assert(buffer[di + 1] == fields[1] && fields[1] == bodies[i].position.y);
    assert(buffer[di + 2] == fields[2] && fields[2] == bodies[i].position.z);
    assert(buffer[di + 3] == fields[3] && fields[3] == bodies[i].velocity.x);
    assert(buffer[di + 4] == fields[4] && fields[4] == bodies[i].velocity.y);
    assert(buffer[di + 5] == fields[5] && fields[5] == bodies[i].velocity.z);
}

/// Round trip: a body encoded into the physics buffer and decoded straight
/// back through its entity-index slot yields the identical position and
/// velocity bit patterns, so reconciling against the unmodified buffer
/// leaves the body exactly as it was.
pub proof fn lemma_body_round_trip(
    bodies: Seq<PhysicsBody>,
    index: Map<u64, usize>,
    i: int,
)
    requires
        0 <= i < encode_records(body_records(bodies), MAX_TYPE_BUFFER_DATA as int).header.len(),
        index.contains_key(bodies[i].entity),
        index[bodies[i].entity] == i,
    ensures
        ({
            let st = encode_records(body_records(bodies), MAX_TYPE_BUFFER_DATA as int);
            let buffer = finish_spec(st.header, st.data);
            reconciled_body(bodies[i], index, buffer) == bodies[i]
        }),
{
    lemma_body_decode(bodies, i);
    let st = encode_records(body_records(bodies), MAX_TYPE_BUFFER_DATA as int);
    let buffer = finish_spec(st.header, st.data);
    assert(readback_valid(index, buffer, bodies[i].entity));
}

} // verus!
