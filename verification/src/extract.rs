//! The extraction stage: the synchronization boundary between scene state
//! and render state.
//!
//! Once at frame start, the instances attached to active cameras are copied
//! into a render-side snapshot; instances on inactive cameras are dropped
//! for the frame. The scene is only read, never mutated, and the snapshot
//! fully replaces the previous frame's.

use vstd::prelude::*;

use crate::mask::{Mask, MaskUniform, MaskVariant, spec_uniform_of};

verus! {

/// A view into the scene: a unique id and an active flag.
#[derive(Debug, PartialEq, Eq, Structural, Copy, Clone)]
pub struct Camera {
    /// Unique camera id, assigned by the host scene.
    pub id: u64,
    /// Whether the camera renders this frame.
    pub active: bool,
}

/// One effect instance attached to a camera, with its per-camera order.
#[derive(Debug, PartialEq, Eq, Structural, Copy, Clone)]
pub struct EffectInstance {
    /// Draw order of the instance on its camera; lower draws first, ties
    /// keep insertion order.
    pub order: u64,
    /// The instance's parameters and variant.
    pub mask: Mask,
}

/// Scene-side state of one camera: the camera and the effect instances
/// attached to it, in insertion order.
#[derive(Debug, Clone)]
pub struct CameraEffects {
    /// The camera the instances are attached to.
    pub camera: Camera,
    /// The camera's effect instances, in insertion order.
    pub instances: Vec<EffectInstance>,
}

/// One snapshot entry: a qualifying instance's uniform record and variant
/// key, tagged with its camera id and order.
#[derive(Debug, PartialEq, Eq, Structural, Copy, Clone)]
pub struct ExtractedEffect {
    /// Id of the active camera the instance is attached to.
    pub camera_id: u64,
    /// Draw order of the instance on that camera.
    pub order: u64,
    /// The packed numeric parameters.
    pub uniform: MaskUniform,
    /// The pipeline specialization key.
    pub variant: MaskVariant,
}

/// The snapshot entry a scene instance extracts to.
pub open spec fn spec_extracted_one(camera_id: u64, e: EffectInstance) -> ExtractedEffect {
    ExtractedEffect {
        camera_id,
        order: e.order,
        uniform: spec_uniform_of(e.mask),
        variant: e.mask.variant,
    }
}

/// What one camera contributes to the snapshot: all its instances in
/// insertion order if it is active, nothing otherwise.
pub open spec fn spec_extract_camera(c: CameraEffects) -> Seq<ExtractedEffect> {
    if c.camera.active {
        c.instances@.map_values(|e: EffectInstance| spec_extracted_one(c.camera.id, e))
    } else {
        Seq::empty()
    }
}

/// The whole snapshot: each camera's contribution, in scene order.
pub open spec fn spec_extract(scene: Seq<CameraEffects>) -> Seq<ExtractedEffect>
    decreases scene.len(),
{
    if scene.len() == 0 {
        Seq::empty()
    } else {
        spec_extract(scene.drop_last()) + spec_extract_camera(scene.last())
    }
}

/// An inactive camera contributes nothing to the frame's snapshot, however
/// many instances are attached to it.
pub proof fn lemma_inactive_camera_extracts_nothing(c: CameraEffects)
    requires
        !c.camera.active,
    ensures
        spec_extract_camera(c) == Seq::<ExtractedEffect>::empty(),
{
}

/// Every snapshot entry carries the id of some active camera of the scene.
pub proof fn lemma_extracted_only_active(scene: Seq<CameraEffects>, i: int)
    requires
        0 <= i < spec_extract(scene).len(),
    ensures
        exists|c: int|
            0 <= c < scene.len() && (#[trigger] scene[c]).camera.active
                && scene[c].camera.id == spec_extract(scene)[i].camera_id,
    decreases scene.len(),
{
    if scene.len() > 0 {
        let prefix = spec_extract(scene.drop_last());
        if i < prefix.len() {
            lemma_extracted_only_active(scene.drop_last(), i);
            let c = choose|c: int|
                0 <= c < scene.drop_last().len() && (#[trigger] scene.drop_last()[c]).camera.active
                    && scene.drop_last()[c].camera.id == prefix[i].camera_id;
            assert(scene[c].camera.active && scene[c].camera.id == spec_extract(scene)[i].camera_id);
        } else {
            let c = scene.len() - 1;
            assert(scene[c].camera.active && scene[c].camera.id == spec_extract(scene)[i].camera_id);
        }
    }
}

impl Mask {
    /// Extracts one scene instance: its uniform record and variant key if
    /// its camera is active this frame, nothing otherwise.
    pub fn extract_component(&self, camera: &Camera) -> (r: Option<(MaskUniform, MaskVariant)>)
        ensures
            r == if camera.active {
                Some((spec_uniform_of(*self), self.variant))
            } else {
                None::<(MaskUniform, MaskVariant)>
            },
    {
        if !camera.active {
            return None;
        }
        Some((MaskUniform::from(*self), self.variant))
    }
}

/// Copies the qualifying instances of the scene into the frame's render-side
/// snapshot: every instance of every active camera, cameras in scene order
/// and instances in insertion order; inactive cameras are dropped.
pub fn extract(scene: &Vec<CameraEffects>) -> (r: Vec<ExtractedEffect>)
    ensures
        r@ == spec_extract(scene@),
{
    let mut out: Vec<ExtractedEffect> = Vec::new();
    let n = scene.len();
    let mut i: usize = 0;
    while i < n
        invariant
            n == scene@.len(),
            0 <= i <= n,
            out@ == spec_extract(scene@.take(i as int)),
        decreases n - i,
    {
        let cam = scene[i].camera;
        if cam.active {
            let m = scene[i].instances.len();
            let mut j: usize = 0;
            while j < m
                invariant
                    n == scene@.len(),
                    0 <= i < n,
                    m == scene@[i as int].instances@.len(),
                    0 <= j <= m,
                    cam == scene@[i as int].camera,
                    cam.active,
                    out@ == spec_extract(scene@.take(i as int)) + scene@[i as int].instances@.take(
                        j as int,
                    ).map_values(|e: EffectInstance| spec_extracted_one(cam.id, e)),
                decreases m - j,
            {
                let e = scene[i].instances[j];
                if let Some((uniform, variant)) = e.mask.extract_component(&cam) {
                    out.push(
                        ExtractedEffect { camera_id: cam.id, order: e.order, uniform, variant },
                    );
                }
                proof {
                    let inst = scene@[i as int].instances@;
                    assert(inst.take(j as int + 1).map_values(
                        |e: EffectInstance| spec_extracted_one(cam.id, e),
                    ) =~= inst.take(j as int).map_values(
                        |e: EffectInstance| spec_extracted_one(cam.id, e),
                    ).push(spec_extracted_one(cam.id, inst[j as int])));
                    assert(out@ =~= spec_extract(scene@.take(i as int)) + inst.take(
                        j as int + 1,
                    ).map_values(|e: EffectInstance| spec_extracted_one(cam.id, e)));
                }
                j = j + 1;
            }
        }
        proof {
            let prefix = scene@.take(i as int + 1);
            assert(prefix.drop_last() =~= scene@.take(i as int));
            assert(prefix.last() == scene@[i as int]);
            if cam.active {
                assert(scene@[i as int].instances@.take(
                    scene@[i as int].instances@.len() as int,
                ) =~= scene@[i as int].instances@);
                assert(out@ =~= spec_extract(prefix));
            } else {
                assert(out@ =~= spec_extract(prefix));
            }
        }
        i = i + 1;
    }
    proof {
        assert(scene@.take(n as int) =~= scene@);
    }
    out
}

} // verus!
