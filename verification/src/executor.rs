//! The draw executor: the render stage of one camera.
//!
//! It walks the camera's sorted phase items in order. For each item whose
//! pipeline is ready it binds the shared frame resources and the item's
//! dynamic uniform offset, issues one full-screen draw, and swaps the
//! ping-pong targets so the next item reads this item's output. An item
//! whose pipeline is not ready is skipped without swapping, so the next
//! item still samples the last image actually written. A camera with no
//! items draws nothing and passes the scene color through unchanged.

use vstd::prelude::*;

use crate::cache::SpecializationCache;
use crate::phase::PhaseItem;
use crate::uniforms::BindGroup;

verus! {

/// The two off-screen color targets of a camera, used ping-pong style.
#[derive(Debug, PartialEq, Eq, Structural, Copy, Clone)]
pub struct TargetPair {
    /// Handle of the first off-screen target.
    pub a: u64,
    /// Handle of the second off-screen target.
    pub b: u64,
}

/// One full-screen draw, ready for submission by the host.
#[derive(Debug, PartialEq, Eq, Structural, Copy, Clone)]
pub struct DrawCommand {
    /// The specialized pipeline to bind.
    pub pipeline_id: usize,
    /// The draw function that executes the item.
    pub draw_function: u64,
    /// The frame's shared bind group for the effect type.
    pub bind_group: BindGroup,
    /// Dynamic byte offset of the instance's uniform record within the
    /// bind group's buffer.
    pub uniform_offset: usize,
    /// Handle of the color target sampled by the draw.
    pub source: u64,
    /// Handle of the color target written by the draw.
    pub destination: u64,
}

/// What executing a camera's sorted phase items yields, starting from
/// source `src`, next destination `dst` and spare target `spare`: the draw
/// commands in order, and the handle of the final image. A ready item
/// draws `src` into `dst` and swaps; an item that is not ready changes
/// nothing.
pub open spec fn spec_render(
    items: Seq<PhaseItem>,
    cache: SpecializationCache,
    bg: BindGroup,
    src: u64,
    dst: u64,
    spare: u64,
) -> (Seq<DrawCommand>, u64)
    decreases items.len(),
{
    if items.len() == 0 {
        (Seq::empty(), src)
    } else {
        let it = items[0];
        if cache.state_of(it.pipeline_id as int) is Ready {
            let cmd = DrawCommand {
                pipeline_id: it.pipeline_id,
                draw_function: it.draw_function,
                bind_group: bg,
                uniform_offset: it.uniform_offset,
                source: src,
                destination: dst,
            };
            let rest = spec_render(items.drop_first(), cache, bg, dst, spare, dst);
            (seq![cmd] + rest.0, rest.1)
        } else {
            spec_render(items.drop_first(), cache, bg, src, dst, spare)
        }
    }
}

/// Executes one camera's sorted phase items: issues one draw per ready
/// item, ping-ponging between the camera's two targets, and returns the
/// draw commands with the handle of the camera's final image. The first
/// draw samples the scene color; each later draw samples the previous
/// draw's output; items whose pipeline is not ready are skipped without a
/// target swap. With no ready item at all, no draw is issued and the final
/// image is the untouched scene color.
pub fn render_camera(
    items: &Vec<PhaseItem>,
    cache: &SpecializationCache,
    bind_group: BindGroup,
    scene_color: u64,
    targets: TargetPair,
) -> (r: (Vec<DrawCommand>, u64))
    requires
        forall|i: int|
            0 <= i < items@.len() ==> (#[trigger] items@[i]).pipeline_id < cache.n_pipelines(),
    ensures
        (r.0@, r.1) == spec_render(items@, *cache, bind_group, scene_color, targets.a, targets.b),
        items@.len() == 0 ==> r.0@.len() == 0 && r.1 == scene_color,
{
    let mut draws: Vec<DrawCommand> = Vec::new();
    let mut src = scene_color;
    let mut dst = targets.a;
    let mut spare = targets.b;
    let n = items.len();
    let mut i: usize = 0;
    proof {
        assert(items@.subrange(0, n as int) =~= items@);
        assert(draws@ + spec_render(
            items@,
            *cache,
            bind_group,
            scene_color,
            targets.a,
            targets.b,
        ).0 =~= spec_render(items@, *cache, bind_group, scene_color, targets.a, targets.b).0);
    }
    while i < n
        invariant
            n == items@.len(),
            0 <= i <= n,
            forall|k: int|
                0 <= k < items@.len() ==> (#[trigger] items@[k]).pipeline_id < cache.n_pipelines(),
            spec_render(items@, *cache, bind_group, scene_color, targets.a, targets.b) == {
                let rest = spec_render(
                    items@.subrange(i as int, n as int),
                    *cache,
                    bind_group,
                    src,
                    dst,
                    spare,
                );
                (draws@ + rest.0, rest.1)
            },
        decreases n - i,
    {
        let ghost tail = items@.subrange(i as int, n as int);
        let it = items[i];
        proof {
            assert(tail[0] == items@[i as int]);
            assert(tail.drop_first() =~= items@.subrange(i as int + 1, n as int));
        }
        if cache.is_ready(it.pipeline_id) {
            let cmd = DrawCommand {
                pipeline_id: it.pipeline_id,
                draw_function: it.draw_function,
                bind_group,
                uniform_offset: it.uniform_offset,
                source: src,
                destination: dst,
            };
            draws.push(cmd);
            let old_dst = dst;
            src = old_dst;
            dst = spare;
            spare = old_dst;
            proof {
                let rest = spec_render(
                    items@.subrange(i as int + 1, n as int),
                    *cache,
                    bind_group,
                    src,
                    dst,
                    spare,
                );
                assert(spec_render(tail, *cache, bind_group, cmd.source, old_dst, dst) == (
                seq![cmd] + rest.0, rest.1));
                assert(draws@ + rest.0 =~= draws@.drop_last() + (seq![cmd] + rest.0));
            }
        } else {
            proof {
                assert(spec_render(tail, *cache, bind_group, src, dst, spare) == spec_render(
                    tail.drop_first(),
                    *cache,
                    bind_group,
                    src,
                    dst,
                    spare,
                ));
            }
        }
        i = i + 1;
    }
    proof {
        assert(items@.subrange(n as int, n as int) =~= Seq::<PhaseItem>::empty());
        assert(items@.subrange(0, n as int) =~= items@);
    }
    (draws, src)
}

/// The executed draws of a camera chain: the first ready item samples the
/// starting source, every later draw samples the previous draw's output,
/// and the final image is the last draw's output — or the starting source
/// when nothing drew at all.
pub proof fn lemma_render_chain(
    items: Seq<PhaseItem>,
    cache: SpecializationCache,
    bg: BindGroup,
    src: u64,
    dst: u64,
    spare: u64,
)
    ensures
        ({
            let (draws, out) = spec_render(items, cache, bg, src, dst, spare);
            &&& (draws.len() == 0 ==> out == src)
            &&& (draws.len() > 0 ==> draws[0].source == src && out == draws[draws.len()
                - 1].destination)
            &&& forall|i: int|
                0 < i < draws.len() ==> (#[trigger] draws[i]).source == draws[i - 1].destination
        }),
    decreases items.len(),
{
    if items.len() > 0 {
        let it = items[0];
        if cache.state_of(it.pipeline_id as int) is Ready {
            lemma_render_chain(items.drop_first(), cache, bg, dst, spare, dst);
            let rest = spec_render(items.drop_first(), cache, bg, dst, spare, dst);
            let (draws, out) = spec_render(items, cache, bg, src, dst, spare);
            assert(draws == seq![draws[0]] + rest.0);
            assert forall|i: int| 0 < i < draws.len() implies (#[trigger] draws[i]).source
                == draws[i - 1].destination by {
                if i == 1 {
                    assert(rest.0.len() > 0 && rest.0[0].source == dst);
                } else {
                    assert(draws[i] == rest.0[i - 1] && draws[i - 1] == rest.0[i - 2]);
                }
            }
        } else {
            lemma_render_chain(items.drop_first(), cache, bg, src, dst, spare);
        }
    }
}

} // verus!
