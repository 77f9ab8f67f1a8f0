use postfx::cache::{PipelineState, SpecializationCache};
use postfx::executor::{render_camera, TargetPair};
use postfx::extract::{extract, Camera, CameraEffects, EffectInstance};
use postfx::frame::{begin_frame, RenderContext};
use postfx::mask::{
    Mask, MaskUniform, MaskVariant, CRT_STRENGTH_BITS, FADE_NONE_BITS, SQUARE_STRENGTH_BITS,
    VIGNETTE_STRENGTH_BITS,
};
use postfx::uniforms::{pack_uniforms, read_record};

fn camera_with(id: u64, active: bool, instances: Vec<EffectInstance>) -> CameraEffects {
    CameraEffects { camera: Camera { id, active }, instances }
}

#[test]
fn mask_constructors_carry_conventional_defaults() {
    let square = Mask::square();
    assert_eq!(f32::from_bits(square.strength), 20.0);
    assert_eq!(f32::from_bits(square.fade), 0.0);
    assert_eq!(square.variant, MaskVariant::Square);

    let crt = Mask::crt();
    assert_eq!(f32::from_bits(crt.strength), 80000.0);
    assert_eq!(crt.variant, MaskVariant::Crt);

    let vignette = Mask::vignette();
    assert_eq!(f32::from_bits(vignette.strength), 0.66);
    assert_eq!(vignette.variant, MaskVariant::Vignette);

    assert_eq!(Mask::default(), Mask::vignette());
}

#[test]
fn shader_defines_select_variant_code_paths() {
    assert_eq!(MaskVariant::Square.shader_def(), "SQUARE");
    assert_eq!(MaskVariant::Crt.shader_def(), "CRT");
    assert_eq!(MaskVariant::Vignette.shader_def(), "VIGNETTE");
}

#[test]
fn specialization_compiles_exactly_one_define() {
    assert_eq!(MaskVariant::Vignette.shader_defs(), vec!["VIGNETTE"]);
    assert_eq!(MaskVariant::Square.shader_defs(), vec!["SQUARE"]);
}

#[test]
fn uniform_binding_is_dynamic_and_one_record_wide() {
    let layout = postfx::uniforms::uniform_layout();
    assert_eq!(layout.binding, 0);
    assert!(layout.has_dynamic_offset);
    assert_eq!(layout.min_binding_size, postfx::uniforms::UNIFORM_STRIDE);
}

#[test]
fn uniform_from_mask_drops_the_variant() {
    let m = Mask { strength: SQUARE_STRENGTH_BITS, fade: 7, variant: MaskVariant::Square };
    let u = MaskUniform::from(m);
    assert_eq!(u.strength, SQUARE_STRENGTH_BITS);
    assert_eq!(u.fade, 7);
}

#[test]
fn inactive_camera_yields_no_extraction_entries() {
    // An inactive camera with one attached instance contributes nothing to
    // the frame's snapshot.
    let scene = vec![camera_with(
        9,
        false,
        vec![EffectInstance { order: 0, mask: Mask::vignette() }],
    )];
    let extracted = extract(&scene);
    assert!(extracted.is_empty());
}

#[test]
fn extraction_keeps_active_cameras_in_order() {
    let scene = vec![
        camera_with(1, true, vec![EffectInstance { order: 5, mask: Mask::square() }]),
        camera_with(2, false, vec![EffectInstance { order: 0, mask: Mask::crt() }]),
        camera_with(3, true, vec![
            EffectInstance { order: 1, mask: Mask::crt() },
            EffectInstance { order: 0, mask: Mask::vignette() },
        ]),
    ];
    let extracted = extract(&scene);
    assert_eq!(extracted.len(), 3);
    assert_eq!(extracted[0].camera_id, 1);
    assert_eq!(extracted[0].order, 5);
    assert_eq!(extracted[0].variant, MaskVariant::Square);
    assert_eq!(extracted[1].camera_id, 3);
    assert_eq!(extracted[1].variant, MaskVariant::Crt);
    assert_eq!(extracted[2].camera_id, 3);
    assert_eq!(extracted[2].variant, MaskVariant::Vignette);
}

#[test]
fn specialization_cache_compiles_each_variant_once() {
    let mut cache = SpecializationCache::new();
    let a = cache.get_or_build(MaskVariant::Vignette);
    let b = cache.get_or_build(MaskVariant::Vignette);
    assert_eq!(a, b);
    assert_eq!(cache.states.len(), 1);
    let c = cache.get_or_build(MaskVariant::Square);
    assert_ne!(a, c);
    assert_eq!(cache.states.len(), 2);
    // many more frames of requests compile nothing further
    for _ in 0..100 {
        cache.get_or_build(MaskVariant::Vignette);
        cache.get_or_build(MaskVariant::Square);
    }
    assert_eq!(cache.states.len(), 2);
}

#[test]
fn fresh_pipelines_are_pending_until_resolved() {
    let mut cache = SpecializationCache::new();
    let id = cache.get_or_build(MaskVariant::Crt);
    assert_eq!(cache.states[id], PipelineState::Pending);
    assert!(!cache.is_ready(id));
    cache.set_ready(id);
    assert!(cache.is_ready(id));
    cache.set_failed(id);
    assert!(!cache.is_ready(id));
    assert_eq!(cache.states[id], PipelineState::Failed);
}

#[test]
fn packing_then_reading_back_reproduces_each_record() {
    let records = vec![
        MaskUniform { strength: SQUARE_STRENGTH_BITS, fade: FADE_NONE_BITS },
        MaskUniform { strength: CRT_STRENGTH_BITS, fade: 0x3F80_0000 },
        MaskUniform { strength: VIGNETTE_STRENGTH_BITS, fade: 0xDEAD_BEEF },
    ];
    let packed = pack_uniforms(&records);
    assert_eq!(packed.offsets, vec![0, 8, 16]);
    assert_eq!(packed.buffer.len(), 24);
    for (i, record) in records.iter().enumerate() {
        assert_eq!(read_record(&packed.buffer, packed.offsets[i]), *record);
    }
}

#[test]
fn empty_camera_is_a_pure_passthrough() {
    // A camera with zero effect instances produces zero draws and hands the
    // unmodified scene color through.
    let mut ctx = RenderContext::new();
    let scene = vec![camera_with(1, true, Vec::new())];
    let frame = begin_frame(&mut ctx, &scene, 77);
    assert!(frame.phases.is_empty());
    assert!(ctx.bind_group.inner.is_none());
    let items = Vec::new();
    let dummy = postfx::uniforms::BindGroup { frame_epoch: frame.epoch, record_count: 0 };
    let (draws, out) = render_camera(&items, &ctx.cache, dummy, 500, TargetPair { a: 501, b: 502 });
    assert!(draws.is_empty());
    assert_eq!(out, 500);
}

#[test]
fn bind_group_becomes_absent_when_instances_drop_to_zero() {
    let mut ctx = RenderContext::new();
    let busy = vec![camera_with(
        1,
        true,
        vec![EffectInstance { order: 0, mask: Mask::vignette() }],
    )];
    let frame1 = begin_frame(&mut ctx, &busy, 77);
    let bg1 = ctx.bind_group.inner.expect("one instance must produce a bind group");
    assert_eq!(bg1.frame_epoch, frame1.epoch);
    assert_eq!(bg1.record_count, 1);

    // next frame the camera has no instances: the bind group is explicitly
    // absent, not the previous frame's binding
    let idle = vec![camera_with(1, true, Vec::new())];
    let _frame2 = begin_frame(&mut ctx, &idle, 77);
    assert!(ctx.bind_group.inner.is_none());

    // and a later busy frame references the new frame's buffer, not a stale one
    let frame3 = begin_frame(&mut ctx, &busy, 77);
    let bg3 = ctx.bind_group.inner.expect("instances are back");
    assert_eq!(bg3.frame_epoch, frame3.epoch);
    assert_ne!(bg3.frame_epoch, bg1.frame_epoch);
}

#[test]
fn phase_queue_is_sorted_ascending_with_stable_ties() {
    let mut ctx = RenderContext::new();
    let scene = vec![camera_with(1, true, vec![
        EffectInstance { order: 2, mask: Mask::square() },
        EffectInstance { order: 0, mask: Mask::vignette() },
        EffectInstance { order: 1, mask: Mask::crt() },
        EffectInstance { order: 0, mask: Mask::crt() },
    ])];
    let frame = begin_frame(&mut ctx, &scene, 77);
    assert_eq!(frame.phases.len(), 1);
    let items = &frame.phases[0].queue.items;
    let keys: Vec<u64> = items.iter().map(|it| it.sort_key).collect();
    assert_eq!(keys, vec![0, 0, 1, 2]);
    // the two order-0 items keep their insertion order: the vignette was
    // attached before the tying crt, and extraction offset tells them apart
    assert_eq!(items[0].uniform_offset, 8);
    assert_eq!(items[1].uniform_offset, 24);
}

#[test]
fn queues_are_grouped_per_camera_in_first_appearance_order() {
    let mut ctx = RenderContext::new();
    let scene = vec![
        camera_with(4, true, vec![EffectInstance { order: 1, mask: Mask::square() }]),
        camera_with(2, true, vec![EffectInstance { order: 0, mask: Mask::crt() }]),
        camera_with(4, true, vec![EffectInstance { order: 0, mask: Mask::vignette() }]),
    ];
    let frame = begin_frame(&mut ctx, &scene, 77);
    assert_eq!(frame.phases.len(), 2);
    assert_eq!(frame.phases[0].camera_id, 4);
    assert_eq!(frame.phases[1].camera_id, 2);
    assert_eq!(frame.phases[0].queue.items.len(), 2);
    assert_eq!(frame.phases[1].queue.items.len(), 1);
    // camera 4's queue is sorted: the vignette (order 0) precedes the square
    assert_eq!(frame.phases[0].queue.items[0].sort_key, 0);
    assert_eq!(frame.phases[0].queue.items[1].sort_key, 1);
}

#[test]
fn executor_chains_vignette_then_square_through_the_target_pair() {
    // Camera with Order=0 Vignette(strength=0.66, fade=0) and Order=1
    // Square(strength=20, fade=0): the executor draws the vignette from the
    // scene into target A, swaps, draws the square from A into B, and the
    // final output is B.
    let mut ctx = RenderContext::new();
    let scene = vec![camera_with(1, true, vec![
        EffectInstance { order: 0, mask: Mask::vignette() },
        EffectInstance { order: 1, mask: Mask::square() },
    ])];
    let frame = begin_frame(&mut ctx, &scene, 77);
    let vignette_id = frame.phases[0].queue.items[0].pipeline_id;
    let square_id = frame.phases[0].queue.items[1].pipeline_id;
    ctx.cache.set_ready(vignette_id);
    ctx.cache.set_ready(square_id);
    let bg = ctx.bind_group.inner.expect("two instances produce a bind group");

    let scene_color = 900;
    let targets = TargetPair { a: 901, b: 902 };
    let (draws, out) = render_camera(
        &frame.phases[0].queue.items,
        &ctx.cache,
        bg,
        scene_color,
        targets,
    );
    assert_eq!(draws.len(), 2);
    assert_eq!(draws[0].pipeline_id, vignette_id);
    assert_eq!(draws[0].source, scene_color);
    assert_eq!(draws[0].destination, targets.a);
    assert_eq!(draws[0].uniform_offset, 0);
    assert_eq!(draws[1].pipeline_id, square_id);
    assert_eq!(draws[1].source, targets.a);
    assert_eq!(draws[1].destination, targets.b);
    assert_eq!(draws[1].uniform_offset, 8);
    assert_eq!(out, targets.b);
}

#[test]
fn an_unready_item_is_skipped_without_a_target_swap() {
    let mut ctx = RenderContext::new();
    let scene = vec![camera_with(1, true, vec![
        EffectInstance { order: 0, mask: Mask::crt() },
        EffectInstance { order: 1, mask: Mask::square() },
    ])];
    let frame = begin_frame(&mut ctx, &scene, 77);
    let crt_id = frame.phases[0].queue.items[0].pipeline_id;
    let square_id = frame.phases[0].queue.items[1].pipeline_id;
    // the crt pipeline failed to compile; only the square is ready
    ctx.cache.set_failed(crt_id);
    ctx.cache.set_ready(square_id);
    let bg = ctx.bind_group.inner.unwrap();

    let (draws, out) = render_camera(
        &frame.phases[0].queue.items,
        &ctx.cache,
        bg,
        600,
        TargetPair { a: 601, b: 602 },
    );
    // the skipped item left the targets alone, so the square still reads
    // the scene color and the final image is its own output
    assert_eq!(draws.len(), 1);
    assert_eq!(draws[0].pipeline_id, square_id);
    assert_eq!(draws[0].source, 600);
    assert_eq!(draws[0].destination, 601);
    assert_eq!(out, 601);
}

#[test]
fn pipelines_stay_cached_and_ready_across_frames() {
    let mut ctx = RenderContext::new();
    let scene = vec![camera_with(1, true, vec![
        EffectInstance { order: 0, mask: Mask::vignette() },
    ])];
    let frame1 = begin_frame(&mut ctx, &scene, 77);
    let id = frame1.phases[0].queue.items[0].pipeline_id;
    ctx.cache.set_ready(id);
    let frame2 = begin_frame(&mut ctx, &scene, 77);
    // the second frame resolved the same pipeline and it is still ready
    assert_eq!(frame2.phases[0].queue.items[0].pipeline_id, id);
    assert!(ctx.cache.is_ready(id));
    assert_eq!(ctx.cache.states.len(), 1);
}

#[test]
fn frame_offsets_read_back_across_cameras() {
    let mut ctx = RenderContext::new();
    let scene = vec![
        camera_with(1, true, vec![EffectInstance {
            order: 0,
            mask: Mask { strength: 11, fade: 12, variant: MaskVariant::Square },
        }]),
        camera_with(2, true, vec![EffectInstance {
            order: 0,
            mask: Mask { strength: 21, fade: 22, variant: MaskVariant::Crt },
        }]),
    ];
    let frame = begin_frame(&mut ctx, &scene, 77);
    assert_eq!(frame.packed.offsets.len(), 2);
    let first = read_record(&frame.packed.buffer, frame.packed.offsets[0]);
    let second = read_record(&frame.packed.buffer, frame.packed.offsets[1]);
    assert_eq!(first, MaskUniform { strength: 11, fade: 12 });
    assert_eq!(second, MaskUniform { strength: 21, fade: 22 });
}

#[test]
fn the_cache_is_shared_across_cameras() {
    let mut ctx = RenderContext::new();
    let scene = vec![
        camera_with(1, true, vec![EffectInstance { order: 0, mask: Mask::vignette() }]),
        camera_with(2, true, vec![EffectInstance { order: 0, mask: Mask::vignette() }]),
    ];
    let frame = begin_frame(&mut ctx, &scene, 77);
    // both cameras resolved the vignette variant to the same pipeline
    assert_eq!(ctx.cache.states.len(), 1);
    assert_eq!(
        frame.phases[0].queue.items[0].pipeline_id,
        frame.phases[1].queue.items[0].pipeline_id
    );
}

#[test]
fn three_items_ping_pong_between_the_two_targets() {
    let mut ctx = RenderContext::new();
    let scene = vec![camera_with(1, true, vec![
        EffectInstance { order: 0, mask: Mask::vignette() },
        EffectInstance { order: 1, mask: Mask::square() },
        EffectInstance { order: 2, mask: Mask::crt() },
    ])];
    let frame = begin_frame(&mut ctx, &scene, 77);
    for item in &frame.phases[0].queue.items {
        ctx.cache.set_ready(item.pipeline_id);
    }
    let bg = ctx.bind_group.inner.unwrap();
    let (draws, out) = render_camera(
        &frame.phases[0].queue.items,
        &ctx.cache,
        bg,
        700,
        TargetPair { a: 701, b: 702 },
    );
    assert_eq!(draws.len(), 3);
    assert_eq!((draws[0].source, draws[0].destination), (700, 701));
    assert_eq!((draws[1].source, draws[1].destination), (701, 702));
    assert_eq!((draws[2].source, draws[2].destination), (702, 701));
    assert_eq!(out, 701);
}

#[test]
fn extract_component_respects_the_active_flag() {
    let mask = Mask::crt();
    let on = Camera { id: 1, active: true };
    let off = Camera { id: 1, active: false };
    assert_eq!(
        mask.extract_component(&on),
        Some((MaskUniform { strength: CRT_STRENGTH_BITS, fade: FADE_NONE_BITS }, MaskVariant::Crt))
    );
    assert_eq!(mask.extract_component(&off), None);
}
