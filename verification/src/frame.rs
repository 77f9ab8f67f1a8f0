//! The per-frame pipeline: Extract, Prepare, Queue, Render, in that order.
//!
//! The persistent render-side state — the specialization cache and the
//! bind group slot — lives in an explicitly owned [`RenderContext`] that
//! the host passes into each frame; phase queues and the packed buffer are
//! frame-scoped and rebuilt from scratch. The host runs the Render stage
//! itself by calling [`crate::executor::render_camera`] on each prepared
//! camera with that camera's scene color and target pair.

use vstd::prelude::*;

use crate::cache::SpecializationCache;
use crate::extract::{extract, spec_extract, CameraEffects, ExtractedEffect};
use crate::mask::MaskVariant;
use crate::phase::{
    build_queue, camera_items, camera_order, prepare, sorted_by_key, CameraPhase,
};
use crate::uniforms::{
    gather_uniforms, packed_bytes, pack_uniforms, queue_bind_group, BindGroup, PackedUniforms,
    UniformBindGroup,
};

verus! {

/// The render-side state that persists across frames: the shared
/// specialization cache, the per-effect-type bind group slot, and the
/// frame counter.
pub struct RenderContext {
    /// The shared pipeline cache, invalidated only explicitly.
    pub cache: SpecializationCache,
    /// The bind group slot of the mask effect type, rebuilt every frame.
    pub bind_group: UniformBindGroup,
    /// Counts the frames begun; identifies each frame's packed buffer.
    pub frame_epoch: u64,
}

impl RenderContext {
    /// The context is well formed when its pipeline cache is.
    pub open spec fn wf(self) -> bool {
        self.cache.wf()
    }

    /// A fresh context: empty cache, no bind group, no frame begun yet.
    pub fn new() -> (r: Self)
        ensures
            r.wf(),
            forall|v: MaskVariant| (#[trigger] r.cache.entry(v)) is None,
            r.cache.n_pipelines() == 0,
            r.bind_group.inner is None,
            r.frame_epoch == 0,
    {
        RenderContext {
            cache: SpecializationCache::new(),
            bind_group: UniformBindGroup::new(),
            frame_epoch: 0,
        }
    }
}

/// Everything one frame prepared for the Render stage: the packed uniform
/// buffer with its recorded offsets, and one sorted phase queue per camera
/// that extracted anything.
pub struct PreparedFrame {
    /// The frame's packed uniform buffer and per-record byte offsets.
    pub packed: PackedUniforms,
    /// One phase queue per contributing camera, in first-appearance order.
    pub phases: Vec<CameraPhase>,
    /// The draw function id every phase item of the frame carries.
    pub draw_function: u64,
    /// The frame this preparation belongs to.
    pub epoch: u64,
}

/// Runs the Extract, Prepare and Queue stages of one frame, in that order,
/// against the host's scene snapshot.
///
/// Extraction snapshots every instance of every active camera; prepare
/// resolves one pipeline per variant through the persistent cache and
/// builds each camera's sorted phase queue; queue packs all uniform
/// records into one buffer and rebuilds the bind group — present exactly
/// when the frame has instances, and referencing this frame's buffer,
/// never a stale one.
pub fn begin_frame(
    ctx: &mut RenderContext,
    scene: &Vec<CameraEffects>,
    draw_function: u64,
) -> (r: PreparedFrame)
    requires
        old(ctx).wf(),
        old(ctx).frame_epoch < u64::MAX,
        8 * spec_extract(scene@).len() <= usize::MAX,
        old(ctx).cache.n_pipelines() + spec_extract(scene@).len() < usize::MAX,
    ensures
        final(ctx).wf(),
        final(ctx).frame_epoch == old(ctx).frame_epoch + 1,
        r.epoch == final(ctx).frame_epoch,
        r.draw_function == draw_function,
        // the cache keeps what it had and covers the frame's variants
        forall|v: MaskVariant|
            (#[trigger] old(ctx).cache.entry(v)) is Some ==> final(ctx).cache.entry(v) == old(
                ctx,
            ).cache.entry(v),
        forall|id: int|
            0 <= id < old(ctx).cache.n_pipelines() ==> final(ctx).cache.state_of(id) == old(
                ctx,
            ).cache.state_of(id),
        old(ctx).cache.n_pipelines() <= final(ctx).cache.n_pipelines(),
        forall|i: int|
            0 <= i < spec_extract(scene@).len() ==> final(ctx).cache.entry(
                (#[trigger] spec_extract(scene@)[i]).variant,
            ) is Some,
        // the packed buffer holds every extracted record, offsets recorded
        r.packed.wf(),
        r.packed.offsets@.len() == spec_extract(scene@).len(),
        r.packed.buffer@ == packed_bytes(
            spec_extract(scene@).map_values(|e: ExtractedEffect| e.uniform),
        ),
        // the bind group is rebuilt: present iff the frame has instances
        final(ctx).bind_group.inner == if spec_extract(scene@).len() > 0 {
            Some(
                BindGroup {
                    frame_epoch: final(ctx).frame_epoch,
                    record_count: spec_extract(scene@).len() as usize,
                },
            )
        } else {
            None::<BindGroup>
        },
        // one sorted queue per contributing camera
        r.phases@.map_values(|cp: CameraPhase| cp.camera_id) == camera_order(spec_extract(scene@)),
        forall|j: int|
            0 <= j < r.phases@.len() ==> (#[trigger] r.phases@[j]).queue.items@ == build_queue(
                camera_items(
                    spec_extract(scene@),
                    final(ctx).cache,
                    draw_function,
                    r.phases@[j].camera_id,
                ),
            ),
        forall|j: int| 0 <= j < r.phases@.len() ==> sorted_by_key((#[trigger] r.phases@[j]).queue.items@),
        forall|j: int, t: int|
            0 <= j < r.phases@.len() && 0 <= t < r.phases@[j].queue.items@.len() ==> (
            #[trigger] r.phases@[j].queue.items@[t]).pipeline_id < final(ctx).cache.n_pipelines(),
{
    // Extract: snapshot the scene into render-side state.
    let extracted = extract(scene);
    // Prepare: resolve pipelines and build the sorted phase queues.
    let phases = prepare(&extracted, &mut ctx.cache, draw_function);
    // Queue: pack the uniform records and rebuild the bind group.
    let records = gather_uniforms(&extracted);
    let packed = pack_uniforms(&records);
    ctx.frame_epoch = ctx.frame_epoch + 1;
    queue_bind_group(&mut ctx.bind_group, ctx.frame_epoch, &packed);
    PreparedFrame { packed, phases, draw_function, epoch: ctx.frame_epoch }
}

} // verus!
