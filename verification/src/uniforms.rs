//! The uniform packer and the per-frame bind group.
//!
//! Each frame, every extracted uniform record is packed contiguously into
//! one buffer, and the byte offset of each record is recorded as its future
//! dynamic draw offset. Exactly one bind group per frame references that
//! buffer; with zero records there is no bind group at all.

use vstd::prelude::*;

use crate::bytes::{le_bytes_of_u32, lemma_u32_le_round_trip, push_u32_le, read_u32_le,
    spec_u32_of_le_bytes};
use crate::mask::MaskUniform;

verus! {

/// Byte size of one packed uniform record: strength then fade, each four
/// little-endian bytes.
pub const UNIFORM_STRIDE: usize = 8;

/// The bytes of one packed record: strength then fade, little-endian.
pub open spec fn record_bytes(u: MaskUniform) -> Seq<u8> {
    le_bytes_of_u32(u.strength) + le_bytes_of_u32(u.fade)
}

/// The whole packed buffer: every record's bytes, in record order.
pub open spec fn packed_bytes(records: Seq<MaskUniform>) -> Seq<u8>
    decreases records.len(),
{
    if records.len() == 0 {
        Seq::empty()
    } else {
        packed_bytes(records.drop_last()) + record_bytes(records.last())
    }
}

/// The record stored at byte offset `offset` of a packed buffer.
pub open spec fn spec_record_at(buffer: Seq<u8>, offset: int) -> MaskUniform {
    MaskUniform {
        strength: spec_u32_of_le_bytes(
            buffer[offset],
            buffer[offset + 1],
            buffer[offset + 2],
            buffer[offset + 3],
        ),
        fade: spec_u32_of_le_bytes(
            buffer[offset + 4],
            buffer[offset + 5],
            buffer[offset + 6],
            buffer[offset + 7],
        ),
    }
}

/// A packed buffer holds eight bytes per record.
pub proof fn lemma_packed_len(records: Seq<MaskUniform>)
    ensures
        packed_bytes(records).len() == 8 * records.len(),
    decreases records.len(),
{
    if records.len() > 0 {
        lemma_packed_len(records.drop_last());
    }
}

/// Reading a packed buffer back at a record's offset reproduces the record
/// exactly.
pub proof fn lemma_packed_read_back(records: Seq<MaskUniform>, i: int)
    requires
        0 <= i < records.len(),
    ensures
        spec_record_at(packed_bytes(records), 8 * i) == records[i],
    decreases records.len(),
{
    lemma_packed_len(records.drop_last());
    if i < records.len() - 1 {
        lemma_packed_read_back(records.drop_last(), i);
    } else {
        let u = records.last();
        lemma_u32_le_round_trip(u.strength);
        lemma_u32_le_round_trip(u.fade);
        assert(spec_record_at(packed_bytes(records), 8 * i) == u);
    }
}

/// The current frame's packed uniform buffer, with each record's byte
/// offset recorded for use as a dynamic draw offset.
#[derive(Debug, Clone)]
pub struct PackedUniforms {
    /// The packed bytes of every record of the frame, in stable order.
    pub buffer: Vec<u8>,
    /// Byte offset of each record in `buffer`; `offsets[i] == 8 * i`.
    pub offsets: Vec<usize>,
}

impl PackedUniforms {
    /// A packed buffer is eight bytes per record, with offset `8 * i`
    /// recorded for record `i`.
    pub open spec fn wf(self) -> bool {
        &&& self.buffer@.len() == 8 * self.offsets@.len()
        &&& forall|i: int|
            0 <= i < self.offsets@.len() ==> #[trigger] self.offsets@[i] == 8 * i
    }
}

/// Gathers the frame's uniform records in stable order into one contiguous
/// buffer, recording each record's byte offset.
pub fn pack_uniforms(records: &Vec<MaskUniform>) -> (r: PackedUniforms)
    requires
        8 * records@.len() <= usize::MAX,
    ensures
        r.wf(),
        r.offsets@.len() == records@.len(),
        r.buffer@ == packed_bytes(records@),
{
    let mut buffer: Vec<u8> = Vec::new();
    let mut offsets: Vec<usize> = Vec::new();
    let n = records.len();
    let mut i: usize = 0;
    while i < n
        invariant
            n == records@.len(),
            8 * n <= usize::MAX,
            0 <= i <= n,
            offsets@.len() == i,
            forall|j: int| 0 <= j < i ==> #[trigger] offsets@[j] == 8 * j,
            buffer@ == packed_bytes(records@.take(i as int)),
            buffer@.len() == 8 * i,
        decreases n - i,
    {
        proof {
            lemma_packed_len(records@.take(i as int));
        }
        offsets.push(8 * i);
        let u = records[i];
        push_u32_le(&mut buffer, u.strength);
        push_u32_le(&mut buffer, u.fade);
        proof {
            let prefix = records@.take(i as int + 1);
            assert(prefix.drop_last() =~= records@.take(i as int));
            assert(buffer@ =~= packed_bytes(prefix));
        }
        i = i + 1;
    }
    proof {
        assert(records@.take(n as int) =~= records@);
    }
    PackedUniforms { buffer, offsets }
}

/// Reads back the record stored at byte offset `offset` of the frame's
/// packed buffer.
pub fn read_record(buffer: &Vec<u8>, offset: usize) -> (r: MaskUniform)
    requires
        offset + 8 <= buffer@.len(),
    ensures
        r == spec_record_at(buffer@, offset as int),
{
    let n = buffer.len();
    assert(offset + 8 <= n);
    let strength = read_u32_le(buffer, offset);
    let fade = read_u32_le(buffer, offset + 4);
    MaskUniform { strength, fade }
}

/// Description of the binding layout the mask bind groups are built
/// against.
#[derive(Debug, PartialEq, Eq, Structural, Copy, Clone)]
pub struct UniformLayout {
    /// Index of the binding within the group.
    pub binding: u32,
    /// Whether the binding takes a per-draw dynamic byte offset.
    pub has_dynamic_offset: bool,
    /// The least buffer size the binding accepts, in bytes.
    pub min_binding_size: usize,
}

/// The mask effect's uniform binding layout: one uniform buffer at binding
/// zero, dynamically offset per draw, at least one record large.
pub fn uniform_layout() -> (r: UniformLayout)
    ensures
        r == (UniformLayout {
            binding: 0,
            has_dynamic_offset: true,
            min_binding_size: UNIFORM_STRIDE,
        }),
{
    UniformLayout { binding: 0, has_dynamic_offset: true, min_binding_size: UNIFORM_STRIDE }
}

/// Gathers the uniform record of every snapshot entry, in extraction
/// order: the order the packer packs them in.
pub fn gather_uniforms(extracted: &Vec<crate::extract::ExtractedEffect>) -> (r: Vec<MaskUniform>)
    ensures
        r@ == extracted@.map_values(|e: crate::extract::ExtractedEffect| e.uniform),
{
    let mut r: Vec<MaskUniform> = Vec::new();
    let n = extracted.len();
    let mut i: usize = 0;
    while i < n
        invariant
            n == extracted@.len(),
            0 <= i <= n,
            r@ == extracted@.take(i as int).map_values(
                |e: crate::extract::ExtractedEffect| e.uniform,
            ),
        decreases n - i,
    {
        r.push(extracted[i].uniform);
        proof {
            assert(r@ =~= extracted@.take(i as int + 1).map_values(
                |e: crate::extract::ExtractedEffect| e.uniform,
            ));
        }
        i = i + 1;
    }
    proof {
        assert(extracted@.take(n as int) =~= extracted@);
    }
    r
}

/// A resource binding for one effect type, referencing the packed uniform
/// buffer of the frame it was built in.
#[derive(Debug, PartialEq, Eq, Structural, Copy, Clone)]
pub struct BindGroup {
    /// The frame whose packed buffer this binding references.
    pub frame_epoch: u64,
    /// How many records that buffer holds.
    pub record_count: usize,
}

/// The bind group slot for one effect type: rebuilt every frame, and
/// explicitly absent in a frame with zero instances.
#[derive(Debug, PartialEq, Eq, Structural, Copy, Clone)]
pub struct UniformBindGroup {
    /// The binding for the current frame, if the frame has any instances.
    pub inner: Option<BindGroup>,
}

impl UniformBindGroup {
    /// The slot before any frame ran: no binding.
    pub fn new() -> (r: Self)
        ensures
            r.inner is None,
    {
        UniformBindGroup { inner: None }
    }
}

/// Rebuilds the effect type's bind group for the current frame: present and
/// referencing this frame's buffer exactly when the frame packed at least
/// one record, absent otherwise — never the previous frame's binding.
pub fn queue_bind_group(bind_group: &mut UniformBindGroup, frame_epoch: u64, packed: &PackedUniforms)
    ensures
        final(bind_group).inner == if packed.offsets@.len() > 0 {
            Some(BindGroup { frame_epoch, record_count: packed.offsets@.len() as usize })
        } else {
            None::<BindGroup>
        },
{
    bind_group.inner = None;
    if packed.offsets.len() > 0 {
        bind_group.inner = Some(
            BindGroup { frame_epoch, record_count: packed.offsets.len() },
        );
    }
}

} // verus!
