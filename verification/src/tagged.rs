//! Tagged binary buffers: a self-describing word layout for heterogeneous
//! typed records.
//!
//! A finished buffer is a sequence of 32-bit words laid out as
//! `[header_count, header[0..header_count], data[0..]]`. Each header word
//! packs an 8-bit type tag in its top byte and a 24-bit offset in its low
//! bytes. While a buffer is being built the offset counts words from the
//! start of the data segment; `finish` adds `header_count + 1` to every
//! header word so that offsets become absolute word indices from the start
//! of the whole buffer.

use vstd::prelude::*;

verus! {

/// Word capacity of the device-side storage buffers fed by the scene
/// extractors.
pub const MAX_TYPE_BUFFER_DATA: usize = 1000000;

/// Word capacity of the legacy combined physics/animation storage buffers.
pub const MAX_ANIMATION_DATA: usize = 1024000;

/// Number of distinct offsets expressible in the low 24 bits of a header
/// word; the type tag lives above this radix.
pub const HEADER_OFFSET_RADIX: u32 = 0x1000000;

/// The type tag packed into the top byte of a header word.
pub open spec fn word_tag(w: u32) -> u32 {
    w / HEADER_OFFSET_RADIX
}

/// The data offset packed into the low 24 bits of a header word.
pub open spec fn word_offset(w: u32) -> u32 {
    w % HEADER_OFFSET_RADIX
}

/// The header word holding type tag `tag` and data offset `off`.
pub open spec fn pack_word(tag: u32, off: u32) -> u32
    recommends
        tag < 256,
        off < HEADER_OFFSET_RADIX,
{
    (tag * HEADER_OFFSET_RADIX + off) as u32
}

pub proof fn lemma_pack_word(tag: u32, off: u32)
    requires
        tag < 256,
        off < HEADER_OFFSET_RADIX,
    ensures
        word_tag(pack_word(tag, off)) == tag,
        word_offset(pack_word(tag, off)) == off,
{
    assert(tag * HEADER_OFFSET_RADIX + off <= u32::MAX) by (nonlinear_arith)
        requires
            tag < 256,
            off < HEADER_OFFSET_RADIX,
    ;
    assert((tag * HEADER_OFFSET_RADIX + off) / (HEADER_OFFSET_RADIX as int) == tag
        && (tag * HEADER_OFFSET_RADIX + off) % (HEADER_OFFSET_RADIX as int) == off)
        by (nonlinear_arith)
        requires
            tag < 256,
            0 <= off < HEADER_OFFSET_RADIX,
    ;
}

/// Well-formedness of an unfinished header against its data segment: every
/// offset stays within the data written so far, and offsets never decrease
/// with record append order.
pub open spec fn header_wf(header: Seq<u32>, data: Seq<u32>) -> bool {
    &&& forall|i: int|
        0 <= i < header.len() ==> word_offset(#[trigger] header[i]) <= data.len()
    &&& forall|i: int, j: int|
        0 <= i <= j < header.len() ==> word_offset(#[trigger] header[i]) <= word_offset(
            #[trigger] header[j],
        )
}

/// The finished word sequence for a header and data segment: the record
/// count, then each header word with `header.len() + 1` added, then the data.
pub open spec fn finish_spec(header: Seq<u32>, data: Seq<u32>) -> Seq<u32> {
    seq![header.len() as u32] + Seq::new(
        header.len(),
        |i: int| (header[i] + header.len() + 1) as u32,
    ) + data
}

/// A record to be encoded: a type tag and the raw words of its fields.
pub struct Record {
    pub tag: u32,
    pub fields: Seq<u32>,
}

pub open spec fn record_valid(r: Record) -> bool {
    r.tag < 256
}

/// The state of an encoder part-way through a sequence of records: the
/// header and data written so far and how many records were rejected for
/// want of capacity.
pub struct Encoding {
    pub header: Seq<u32>,
    pub data: Seq<u32>,
    pub dropped: nat,
}

pub open spec fn encoding_empty() -> Encoding {
    Encoding { header: Seq::empty(), data: Seq::empty(), dropped: 0 }
}

/// Whether record `r` fits the word budget `cap`: the finished buffer would
/// hold one count word, the header extended by one word, and the data
/// extended by the record's fields.
pub open spec fn encoding_fits(st: Encoding, r: Record, cap: int) -> bool {
    2 + st.header.len() + st.data.len() + r.fields.len() <= cap
}

/// Appends record `r` whole if it fits the budget; otherwise rejects it
/// whole and counts it as dropped. Partial records are never written.
pub open spec fn encode_step(st: Encoding, r: Record, cap: int) -> Encoding {
    if encoding_fits(st, r, cap) {
        Encoding {
            header: st.header.push(pack_word(r.tag, st.data.len() as u32)),
            data: st.data + r.fields,
            dropped: st.dropped,
        }
    } else {
        Encoding { header: st.header, data: st.data, dropped: st.dropped + 1 }
    }
}

/// Encodes a sequence of records in order under word budget `cap`.
pub open spec fn encode_records(rs: Seq<Record>, cap: int) -> Encoding
    decreases rs.len(),
{
    if rs.len() == 0 {
        encoding_empty()
    } else {
        encode_step(encode_records(rs.drop_last(), cap), rs.last(), cap)
    }
}

pub open spec fn encoding_wf(st: Encoding, cap: int) -> bool {
    &&& header_wf(st.header, st.data)
    &&& 1 + st.header.len() + st.data.len() <= cap
}

/// Encoding any sequence of valid records keeps the buffer well formed and
/// within budget, and accounts for every record either as a header entry or
/// as dropped.
pub proof fn lemma_encode_records_wf(rs: Seq<Record>, cap: int)
    requires
        1 <= cap <= HEADER_OFFSET_RADIX - 1,
        forall|i: int| 0 <= i < rs.len() ==> record_valid(#[trigger] rs[i]),
    ensures
        encoding_wf(encode_records(rs, cap), cap),
        encode_records(rs, cap).header.len() + encode_records(rs, cap).dropped == rs.len(),
    decreases rs.len(),
{
    if rs.len() == 0 {
    } else {
        let prefix = rs.drop_last();
        let r = rs.last();
        lemma_encode_records_wf(prefix, cap);
        let st = encode_records(prefix, cap);
        if encoding_fits(st, r, cap) {
            lemma_pack_word(r.tag, st.data.len() as u32);
        }
    }
}

/// Whether every record of `rs` carries tag `tag` and exactly `flen` field
/// words.
pub open spec fn uniform_records(rs: Seq<Record>, tag: u32, flen: nat) -> bool {
    forall|i: int|
        0 <= i < rs.len() ==> (#[trigger] rs[i]).tag == tag && rs[i].fields.len() == flen
}

/// Encoding records of one shape accepts a maximal prefix whole: the header
/// counts the accepted records, record `i`'s fields sit at data offset
/// `i * flen`, and a record is rejected only when accepting it would exceed
/// the budget.
pub proof fn lemma_encode_records_uniform(rs: Seq<Record>, cap: int, tag: u32, flen: nat)
    requires
        1 <= cap <= HEADER_OFFSET_RADIX - 1,
        tag < 256,
        uniform_records(rs, tag, flen),
    ensures
        ({
            let st = encode_records(rs, cap);
            let acc = st.header.len() as int;
            &&& acc <= rs.len()
            &&& st.data.len() == acc * flen
            &&& st.dropped + acc == rs.len()
            &&& (acc == rs.len() || 2 + acc + acc * flen + flen > cap)
            &&& forall|i: int|
                0 <= i < acc ==> st.header[i] == pack_word(tag, (i * flen) as u32)
            &&& forall|i: int, j: int|
                0 <= i < acc && 0 <= j < flen ==> st.data[i * flen + j] == rs[i].fields[j]
        }),
    decreases rs.len(),
{
    if rs.len() == 0 {
    } else {
        let prefix = rs.drop_last();
        let r = rs.last();
        assert(uniform_records(prefix, tag, flen)) by {
            assert(forall|i: int| 0 <= i < prefix.len() ==> prefix[i] == rs[i]);
        }
        lemma_encode_records_uniform(prefix, cap, tag, flen);
        let st0 = encode_records(prefix, cap);
        let acc0 = st0.header.len() as int;
        let st = encode_records(rs, cap);
        if encoding_fits(st0, r, cap) {
            assert(acc0 == prefix.len());
            assert((acc0 + 1) * flen == acc0 * flen + flen) by (nonlinear_arith);
            assert forall|i: int| 0 <= i < acc0 + 1 implies st.header[i] == pack_word(
                tag,
                (i * flen) as u32,
            ) by {
                if i < acc0 {
                    assert(st.header[i] == st0.header[i]);
                } else {
                    assert(st.header[i] == pack_word(tag, st0.data.len() as u32));
                    assert(st0.data.len() == acc0 * flen);
                }
            }
            assert forall|i: int, j: int|
                0 <= i < acc0 + 1 && 0 <= j < flen implies st.data[i * flen + j]
                == rs[i].fields[j] by {
                if i < acc0 {
                    assert(i * flen + j < acc0 * flen) by (nonlinear_arith)
                        requires
                            0 <= i < acc0,
                            0 <= j < flen,
                    ;
                    assert(i * flen + j >= 0) by (nonlinear_arith)
                        requires
                            0 <= i,
                            0 <= j,
                    ;
                    assert(st.data[i * flen + j] == st0.data[i * flen + j]);
                    assert(prefix[i] == rs[i]);
                } else {
                    assert(i == acc0);
                    assert(st.data[acc0 * flen + j] == r.fields[j]);
                }
            }
        } else {
            assert(st.header == st0.header);
            assert(st.data == st0.data);
            if acc0 == prefix.len() {
                assert(2 + acc0 + acc0 * flen + flen > cap);
            }
            assert forall|i: int, j: int|
                0 <= i < acc0 && 0 <= j < flen implies st.data[i * flen + j]
                == rs[i].fields[j] by {
                assert(st0.data[i * flen + j] == prefix[i].fields[j]);
                assert(prefix[i] == rs[i]);
            }
        }
    }
}

/// An in-progress tagged buffer: a header of packed tag/offset words and a
/// flat data segment of record fields.
pub struct TypeBuffer {
    header: Vec<u32>,
    data: Vec<u32>,
}

impl TypeBuffer {
    /// The header words written so far.
    pub closed spec fn header_view(self) -> Seq<u32> {
        self.header@
    }

    /// The data words written so far.
    pub closed spec fn data_view(self) -> Seq<u32> {
        self.data@
    }

    /// Words the finished buffer will hold: one count word, the header, the
    /// data.
    pub open spec fn total_words(self) -> int {
        1 + self.header_view().len() as int + self.data_view().len() as int
    }

    pub open spec fn wf(self) -> bool {
        header_wf(self.header_view(), self.data_view())
    }

    /// Creates an empty encoder.
    pub fn new() -> (r: TypeBuffer)
        ensures
            r.header_view() == Seq::<u32>::empty(),
            r.data_view() == Seq::<u32>::empty(),
            r.wf(),
    {
        TypeBuffer { header: Vec::new(), data: Vec::new() }
    }

    /// Number of records appended so far (one header word each).
    pub fn num_records(&self) -> (n: usize)
        ensures
            n == self.header_view().len(),
    {
        self.header.len()
    }

    /// Number of data words appended so far.
    pub fn data_len(&self) -> (n: usize)
        ensures
            n == self.data_view().len(),
    {
        self.data.len()
    }

    /// Begins a new record: appends a header word packing `object_type` with
    /// the current data-segment length. The record's fields are the data
    /// words pushed after this call and before the next `push_object`.
    pub fn push_object(&mut self, object_type: u32)
        requires
            old(self).wf(),
            object_type < 256,
            old(self).data_view().len() < HEADER_OFFSET_RADIX,
        ensures
            final(self).wf(),
            final(self).header_view() == old(self).header_view().push(
                pack_word(object_type, old(self).data_view().len() as u32),
            ),
            final(self).data_view() == old(self).data_view(),
    {
        let off = self.data.len() as u32;
        self.header.push(object_type * HEADER_OFFSET_RADIX + off);
        proof {
            lemma_pack_word(object_type, off);
        }
    }

    /// Appends one raw 32-bit word to the current record.
    pub fn push_u32(&mut self, value: u32)
        requires
            old(self).wf(),
        ensures
            final(self).wf(),
            final(self).header_view() == old(self).header_view(),
            final(self).data_view() == old(self).data_view().push(value),
    {
        self.data.push(value);
    }

    /// Appends a three-component vector of raw 32-bit words, x then y then z.
    pub fn push_vec3(&mut self, x: u32, y: u32, z: u32)
        requires
            old(self).wf(),
        ensures
            final(self).wf(),
            final(self).header_view() == old(self).header_view(),
            final(self).data_view() == old(self).data_view() + seq![x, y, z],
    {
        self.data.push(x);
        self.data.push(y);
        self.data.push(z);
        proof {
            assert(self.data_view() =~= old(self).data_view() + seq![x, y, z]);
        }
    }

    /// Appends a three-component signed integer vector as its raw bit
    /// patterns, x then y then z.
    pub fn push_ivec3(&mut self, x: i32, y: i32, z: i32)
        requires
            old(self).wf(),
        ensures
            final(self).wf(),
            final(self).header_view() == old(self).header_view(),
            final(self).data_view() == old(self).data_view() + seq![
                x as u32,
                y as u32,
                z as u32,
            ],
    {
        self.data.push(#[verifier::truncate] (x as u32));
        self.data.push(#[verifier::truncate] (y as u32));
        self.data.push(#[verifier::truncate] (z as u32));
        proof {
            assert(self.data_view() =~= old(self).data_view() + seq![
                x as u32,
                y as u32,
                z as u32,
            ]);
        }
    }

    /// Performs the offset-adjustment pass and returns the flattened word
    /// sequence `[header_count, adjusted header, data]`, consuming the
    /// encoder. The word budget keeps every adjusted offset inside the low
    /// 24 bits of its header word.
    pub fn finish(self) -> (r: Vec<u32>)
        requires
            self.wf(),
            self.total_words() <= HEADER_OFFSET_RADIX - 1,
        ensures
            r@ == finish_spec(self.header_view(), self.data_view()),
    {
        let mut buf = self;
        let ghost orig_header = buf.header@;
        let ghost orig_data = buf.data@;
        let hlen = buf.header.len();
        let offset = (hlen + 1) as u32;

        let mut i: usize = 0;
        while i < hlen
            invariant
                hlen == orig_header.len(),
                buf.header@.len() == orig_header.len(),
                buf.data@ == orig_data,
                offset == hlen + 1,
                header_wf(orig_header, orig_data),
                1 + orig_header.len() + orig_data.len() <= HEADER_OFFSET_RADIX - 1,
                0 <= i <= hlen,
                forall|k: int|
                    0 <= k < i ==> buf.header@[k] == (orig_header[k] + hlen + 1) as u32,
                forall|k: int| i <= k < hlen ==> buf.header@[k] == orig_header[k],
            decreases hlen - i,
        {
            proof {
                assert(word_offset(orig_header[i as int]) <= orig_data.len());
                assert(orig_header[i as int] == word_tag(orig_header[i as int])
                    * HEADER_OFFSET_RADIX + word_offset(orig_header[i as int]));
                assert(word_tag(orig_header[i as int]) < 256) by {
                    assert(orig_header[i as int] / HEADER_OFFSET_RADIX < 256);
                }
                assert(word_tag(orig_header[i as int]) * HEADER_OFFSET_RADIX <= 255
                    * HEADER_OFFSET_RADIX) by (nonlinear_arith)
                    requires
                        word_tag(orig_header[i as int]) < 256,
                ;
            }
            let w = buf.header[i];
            buf.header.set(i, w + offset);
            i = i + 1;
        }

        let mut out: Vec<u32> = Vec::new();
        out.push(hlen as u32);

        let mut j: usize = 0;
        while j < hlen
            invariant
                hlen == orig_header.len(),
                buf.header@.len() == orig_header.len(),
                buf.data@ == orig_data,
                forall|k: int|
                    0 <= k < hlen ==> buf.header@[k] == (orig_header[k] + hlen + 1) as u32,
                0 <= j <= hlen,
                out@.len() == 1 + j,
                out@[0] == hlen as u32,
                forall|k: int| 0 <= k < j ==> out@[k + 1] == buf.header@[k],
            decreases hlen - j,
        {
            let w = buf.header[j];
            out.push(w);
            j = j + 1;
        }

        let dlen = buf.data.len();
        let mut k: usize = 0;
        while k < dlen
            invariant
                hlen == orig_header.len(),
                buf.data@ == orig_data,
                dlen == orig_data.len(),
                forall|m: int|
                    0 <= m < hlen ==> buf.header@[m] == (orig_header[m] + hlen + 1) as u32,
                buf.header@.len() == orig_header.len(),
                0 <= k <= dlen,
                out@.len() == 1 + hlen + k,
                out@[0] == hlen as u32,
                forall|m: int| 0 <= m < hlen ==> out@[m + 1] == buf.header@[m],
                forall|m: int| 0 <= m < k ==> out@[1 + hlen + m] == orig_data[m],
            decreases dlen - k,
        {
            let w = buf.data[k];
            out.push(w);
            k = k + 1;
        }

        proof {
            let fs = finish_spec(orig_header, orig_data);
            assert(fs.len() == 1 + hlen + dlen);
            assert forall|t: int| 0 <= t < fs.len() implies out@[t] == fs[t] by {
                if t == 0 {
                    assert(fs[0] == hlen as u32);
                } else if t < 1 + hlen {
                    assert(fs[t] == (orig_header[t - 1] + hlen + 1) as u32);
                    assert(out@[t] == buf.header@[t - 1]);
                } else {
                    assert(fs[t] == orig_data[t - 1 - hlen]);
                    assert(out@[t] == orig_data[t - 1 - hlen]);
                }
            }
            assert(out@ =~= fs);
        }
        out
    }
}

/// The encode/offset invariant: in a finished buffer the first word is the
/// record count; each header word keeps its type tag and carries its offset
/// adjusted by `header_count + 1`; and, for a record with at least one
/// field, the word at the adjusted offset is the first data word written for
/// that record.
pub proof fn lemma_encode_offset_invariant(header: Seq<u32>, data: Seq<u32>)
    requires
        header_wf(header, data),
        1 + header.len() + data.len() <= HEADER_OFFSET_RADIX - 1,
    ensures
        finish_spec(header, data).len() == 1 + header.len() + data.len(),
        finish_spec(header, data)[0] == header.len() as u32,
        forall|i: int|
            0 <= i < header.len() ==> word_offset(#[trigger] finish_spec(header, data)[1 + i])
                == word_offset(header[i]) + header.len() + 1,
        forall|i: int|
            0 <= i < header.len() ==> word_tag(#[trigger] finish_spec(header, data)[1 + i])
                == word_tag(header[i]),
        forall|i: int|
            0 <= i < header.len() && word_offset(#[trigger] header[i]) < data.len()
                ==> finish_spec(header, data)[word_offset(header[i]) + header.len() + 1]
                == data[word_offset(header[i]) as int],
{
    let h = header.len() as int;
    let fs = finish_spec(header, data);
    assert forall|i: int| 0 <= i < h implies word_offset(#[trigger] fs[1 + i]) == word_offset(
        header[i],
    ) + h + 1 && word_tag(fs[1 + i]) == word_tag(header[i]) by {
        let w = header[i];
        let tag = word_tag(w);
        let off = word_offset(w);
        assert(w < 0x100000000);
        assert(tag < 256);
        assert(w == tag * HEADER_OFFSET_RADIX + off) by (nonlinear_arith)
            requires
                tag == w / HEADER_OFFSET_RADIX,
                off == w % HEADER_OFFSET_RADIX,
        ;
        assert(off <= data.len());
        assert(fs[1 + i] == (w + h + 1) as u32);
        assert(w + h + 1 == tag * HEADER_OFFSET_RADIX + (off + h + 1));
        lemma_pack_word(tag, (off + h + 1) as u32);
        assert(tag * HEADER_OFFSET_RADIX <= 255 * HEADER_OFFSET_RADIX) by (nonlinear_arith)
            requires
                tag < 256,
        ;
        assert((w + h + 1) as u32 == pack_word(tag, (off + h + 1) as u32));
    }
    assert forall|i: int|
        0 <= i < h && word_offset(#[trigger] header[i]) < data.len() implies fs[word_offset(
        header[i],
    ) + h + 1] == data[word_offset(header[i]) as int] by {
        let off = word_offset(header[i]) as int;
        assert(fs[1 + h + off] == data[off]);
    }
}

} // verus!
