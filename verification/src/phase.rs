//! Phase queue construction: the prepare stage.
//!
//! For every extracted instance, a pipeline id is resolved through the
//! specialization cache and a phase item is appended to its camera's queue.
//! Each camera's queue is kept ascending by sort key, with insertion order
//! preserved among equal keys; it is rebuilt from scratch every frame.

use vstd::prelude::*;

use crate::cache::SpecializationCache;
use crate::extract::ExtractedEffect;

verus! {

/// One queued draw instruction: transient, rebuilt every frame.
#[derive(Debug, PartialEq, Eq, Structural, Copy, Clone)]
pub struct PhaseItem {
    /// Id of the camera the draw belongs to.
    pub camera_id: u64,
    /// Sort key: the instance's order on its camera; lower draws first.
    pub sort_key: u64,
    /// Id of the registered draw function that executes the item.
    pub draw_function: u64,
    /// Id of the specialized pipeline resolved for the instance's variant.
    pub pipeline_id: usize,
    /// Byte offset of the instance's uniform record in the frame's packed
    /// buffer, applied as the dynamic offset at draw time.
    pub uniform_offset: usize,
}

/// Ascending by sort key.
pub open spec fn sorted_by_key(q: Seq<PhaseItem>) -> bool {
    forall|i: int, j: int| 0 <= i < j < q.len() ==> q[i].sort_key <= q[j].sort_key
}

/// Where a new item with key `key` lands in `q`: after every item with a
/// key at most `key`, before the rest.
pub open spec fn insert_pos(q: Seq<PhaseItem>, key: u64) -> int
    decreases q.len(),
{
    if q.len() == 0 {
        0
    } else if q[0].sort_key <= key {
        1 + insert_pos(q.drop_first(), key)
    } else {
        0
    }
}

/// The insert position splits the queue into a prefix of keys at most `key`
/// and, when within bounds, an item with a larger key right after it.
pub proof fn lemma_insert_pos_facts(q: Seq<PhaseItem>, key: u64)
    ensures
        0 <= insert_pos(q, key) <= q.len(),
        forall|i: int| 0 <= i < insert_pos(q, key) ==> q[i].sort_key <= key,
        insert_pos(q, key) < q.len() ==> q[insert_pos(q, key)].sort_key > key,
    decreases q.len(),
{
    if q.len() > 0 && q[0].sort_key <= key {
        lemma_insert_pos_facts(q.drop_first(), key);
        assert(forall|i: int|
            0 <= i < insert_pos(q.drop_first(), key) ==> (#[trigger] q.drop_first()[i]).sort_key
                <= key);
        assert forall|i: int| 0 <= i < insert_pos(q, key) implies q[i].sort_key <= key by {
            if i > 0 {
                assert(q.drop_first()[i - 1] == q[i]);
            }
        }
    }
}

/// Any position with the splitting property is the insert position.
pub proof fn lemma_insert_pos_unique(q: Seq<PhaseItem>, key: u64, p: int)
    requires
        0 <= p <= q.len(),
        forall|i: int| 0 <= i < p ==> (#[trigger] q[i]).sort_key <= key,
        p < q.len() ==> q[p].sort_key > key,
    ensures
        insert_pos(q, key) == p,
    decreases q.len(),
{
    if q.len() > 0 {
        if q[0].sort_key <= key {
            assert(p >= 1);
            assert forall|i: int| 0 <= i < p - 1 implies (#[trigger] q.drop_first()[i]).sort_key
                <= key by {
                assert(q.drop_first()[i] == q[i + 1]);
            }
            assert(p - 1 < q.drop_first().len() ==> q.drop_first()[p - 1].sort_key > key);
            lemma_insert_pos_unique(q.drop_first(), key, p - 1);
        } else {
            assert(p == 0);
        }
    }
}

/// A new item inserted at its stable position: after every item with a key
/// at most its own, before every later one.
pub open spec fn stable_insert(q: Seq<PhaseItem>, x: PhaseItem) -> Seq<PhaseItem> {
    q.insert(insert_pos(q, x.sort_key), x)
}

/// Inserting at the stable position keeps the queue ascending.
pub proof fn lemma_stable_insert_sorted(q: Seq<PhaseItem>, x: PhaseItem)
    requires
        sorted_by_key(q),
    ensures
        sorted_by_key(stable_insert(q, x)),
{
    let p = insert_pos(q, x.sort_key);
    lemma_insert_pos_facts(q, x.sort_key);
    q.insert_ensures(p, x);
    let r = stable_insert(q, x);
    assert forall|i: int, j: int| 0 <= i < j < r.len() implies r[i].sort_key <= r[j].sort_key by {
        if i < p {
            assert(r[i] == q[i]);
        } else if i == p {
            assert(r[i] == x);
        } else {
            assert(r[i] == q[i - 1]);
        }
        if j < p {
            assert(r[j] == q[j]);
        } else if j == p {
            assert(r[j] == x);
        } else {
            assert(r[j] == q[j - 1]);
        }
        if i < p && j == p {
            assert(q[i].sort_key <= x.sort_key);
        } else if i == p && j > p {
            assert(q[j - 1].sort_key > x.sort_key);
        }
    }
}

/// Filtering a sequence extended by one element keeps the old matches and
/// adds the new element exactly when it matches.
pub proof fn lemma_filter_push<A>(s: Seq<A>, p: spec_fn(A) -> bool, x: A)
    ensures
        s.push(x).filter(p) == if p(x) {
            s.filter(p).push(x)
        } else {
            s.filter(p)
        },
{
    reveal(Seq::filter);
    assert(s.push(x).drop_last() =~= s);
    assert(s.push(x).last() == x);
}

/// No element of `s` matches `p`: the filtered sequence is empty.
pub proof fn lemma_filter_none<A>(s: Seq<A>, p: spec_fn(A) -> bool)
    requires
        forall|i: int| 0 <= i < s.len() ==> !p(#[trigger] s[i]),
    ensures
        s.filter(p) == Seq::<A>::empty(),
    decreases s.len(),
{
    reveal(Seq::filter);
    if s.len() > 0 {
        lemma_filter_none(s.drop_last(), p);
    }
}

/// Among the items of any one key, a stable insert appends the new item at
/// the end when it has that key and changes nothing otherwise: insertion
/// order among equal keys is preserved.
pub proof fn lemma_stable_insert_filter(q: Seq<PhaseItem>, x: PhaseItem, k: u64)
    requires
        sorted_by_key(q),
    ensures
        stable_insert(q, x).filter(|it: PhaseItem| it.sort_key == k) == if x.sort_key == k {
            q.filter(|it: PhaseItem| it.sort_key == k).push(x)
        } else {
            q.filter(|it: PhaseItem| it.sort_key == k)
        },
{
    let pred = |it: PhaseItem| it.sort_key == k;
    let p = insert_pos(q, x.sort_key);
    lemma_insert_pos_facts(q, x.sort_key);
    let front = q.subrange(0, p);
    let back = q.subrange(p, q.len() as int);
    assert(stable_insert(q, x) == front.push(x) + back);
    assert(front.push(x) =~= front + seq![x]);
    Seq::filter_distributes_over_add(front + seq![x], back, pred);
    Seq::filter_distributes_over_add(front, seq![x], pred);
    assert(q =~= front + back);
    Seq::filter_distributes_over_add(front, back, pred);
    reveal(Seq::filter);
    lemma_filter_push(Seq::<PhaseItem>::empty(), pred, x);
    assert(Seq::<PhaseItem>::empty().push(x) =~= seq![x]);
    assert(Seq::<PhaseItem>::empty().filter(pred) == Seq::<PhaseItem>::empty());
    assert(seq![x].filter(pred) == if pred(x) {
        Seq::<PhaseItem>::empty().push(x)
    } else {
        Seq::<PhaseItem>::empty()
    });
    if x.sort_key == k {
        assert forall|i: int| 0 <= i < back.len() implies !pred(#[trigger] back[i]) by {
            assert(back[i] == q[p + i]);
            if p < q.len() {
                assert(q[p].sort_key > x.sort_key);
                assert(q[p + i].sort_key >= q[p].sort_key);
            }
        }
        lemma_filter_none(back, pred);
        assert(stable_insert(q, x).filter(pred) =~= q.filter(pred).push(x));
    } else {
        assert(stable_insert(q, x).filter(pred) =~= q.filter(pred));
    }
}

/// The queue the prepare stage builds from a sequence of phase items, one
/// stable insert per item in arrival order.
pub open spec fn build_queue(items: Seq<PhaseItem>) -> Seq<PhaseItem>
    decreases items.len(),
{
    if items.len() == 0 {
        Seq::empty()
    } else {
        stable_insert(build_queue(items.drop_last()), items.last())
    }
}

/// The built phase queue is ascending-sorted by sort key.
pub proof fn lemma_build_queue_sorted(items: Seq<PhaseItem>)
    ensures
        sorted_by_key(build_queue(items)),
    decreases items.len(),
{
    if items.len() > 0 {
        lemma_build_queue_sorted(items.drop_last());
        lemma_stable_insert_sorted(build_queue(items.drop_last()), items.last());
    }
}

/// The built phase queue keeps the items of each sort key in their arrival
/// order: ties are broken by stable insertion order.
pub proof fn lemma_build_queue_stable(items: Seq<PhaseItem>, k: u64)
    ensures
        build_queue(items).filter(|it: PhaseItem| it.sort_key == k) == items.filter(
            |it: PhaseItem| it.sort_key == k,
        ),
    decreases items.len(),
{
    let pred = |it: PhaseItem| it.sort_key == k;
    if items.len() > 0 {
        lemma_build_queue_stable(items.drop_last(), k);
        lemma_build_queue_sorted(items.drop_last());
        lemma_stable_insert_filter(build_queue(items.drop_last()), items.last(), k);
        lemma_filter_push(items.drop_last(), pred, items.last());
        assert(items.drop_last().push(items.last()) =~= items);
    }
}

/// Every item of a stable insert is the new item or one of the old ones.
pub proof fn lemma_stable_insert_elems(q: Seq<PhaseItem>, x: PhaseItem, p: spec_fn(PhaseItem) -> bool)
    requires
        forall|i: int| 0 <= i < q.len() ==> p(#[trigger] q[i]),
        p(x),
    ensures
        forall|i: int| 0 <= i < stable_insert(q, x).len() ==> p(#[trigger] stable_insert(q, x)[i]),
{
    let pos = insert_pos(q, x.sort_key);
    lemma_insert_pos_facts(q, x.sort_key);
    q.insert_ensures(pos, x);
    assert forall|i: int| 0 <= i < stable_insert(q, x).len() implies p(
        #[trigger] stable_insert(q, x)[i],
    ) by {
        if i < pos {
            assert(stable_insert(q, x)[i] == q[i]);
        } else if i == pos {
            assert(stable_insert(q, x)[i] == x);
        } else {
            assert(stable_insert(q, x)[i] == q[i - 1]);
        }
    }
}

/// A per-camera phase queue, kept ascending by sort key.
#[derive(Debug, Clone)]
pub struct PhaseQueue {
    /// The queued items, ascending by sort key.
    pub items: Vec<PhaseItem>,
}

impl PhaseQueue {
    /// An empty queue.
    pub fn new() -> (r: Self)
        ensures
            r.items@ == Seq::<PhaseItem>::empty(),
    {
        PhaseQueue { items: Vec::new() }
    }

    /// Adds an item at its stable position: after every queued item with a
    /// key at most its own, keeping the queue ascending.
    pub fn add(&mut self, item: PhaseItem)
        requires
            sorted_by_key(old(self).items@),
            old(self).items@.len() < usize::MAX,
        ensures
            final(self).items@ == stable_insert(old(self).items@, item),
            sorted_by_key(final(self).items@),
    {
        let n = self.items.len();
        let mut pos: usize = 0;
        while pos < n && self.items[pos].sort_key <= item.sort_key
            invariant
                n == self.items@.len(),
                0 <= pos <= n,
                forall|i: int| 0 <= i < pos ==> (#[trigger] self.items@[i]).sort_key
                    <= item.sort_key,
                *self == *old(self),
            decreases n - pos,
        {
            pos = pos + 1;
        }
        proof {
            lemma_insert_pos_unique(self.items@, item.sort_key, pos as int);
            lemma_stable_insert_sorted(self.items@, item);
        }
        self.items.insert(pos, item);
    }
}

/// The phase item built for the extracted instance `e`: sort key from its
/// order, the pipeline id its variant resolved to, and the byte offset the
/// packer recorded for record number `idx`.
pub open spec fn spec_phase_item(
    e: ExtractedEffect,
    idx: int,
    pipeline_id: usize,
    draw_function: u64,
) -> PhaseItem {
    PhaseItem {
        camera_id: e.camera_id,
        sort_key: e.order,
        draw_function,
        pipeline_id,
        uniform_offset: (8 * idx) as usize,
    }
}

/// The phase items of camera `cam`: one per extracted instance of that
/// camera, in extraction order, with pipeline ids resolved through `cache`.
pub open spec fn camera_items(
    extracted: Seq<ExtractedEffect>,
    cache: SpecializationCache,
    draw_function: u64,
    cam: u64,
) -> Seq<PhaseItem> {
    extracted.map(
        |i: int, e: ExtractedEffect|
            spec_phase_item(e, i, cache.entry(e.variant)->Some_0, draw_function),
    ).filter(|it: PhaseItem| it.camera_id == cam)
}

/// The camera ids of a snapshot, each once, in first-appearance order.
pub open spec fn camera_order(extracted: Seq<ExtractedEffect>) -> Seq<u64>
    decreases extracted.len(),
{
    if extracted.len() == 0 {
        Seq::empty()
    } else {
        let rest = camera_order(extracted.drop_last());
        if rest.contains(extracted.last().camera_id) {
            rest
        } else {
            rest.push(extracted.last().camera_id)
        }
    }
}

/// A camera id appears in the snapshot's camera order exactly when some
/// snapshot entry carries it.
pub proof fn lemma_camera_order_contains(extracted: Seq<ExtractedEffect>, c: u64)
    ensures
        camera_order(extracted).contains(c) <==> exists|k: int|
            0 <= k < extracted.len() && (#[trigger] extracted[k]).camera_id == c,
    decreases extracted.len(),
{
    if extracted.len() > 0 {
        lemma_camera_order_contains(extracted.drop_last(), c);
        let last = extracted.last();
        let rest = camera_order(extracted.drop_last());
        if camera_order(extracted).contains(c) {
            if c == last.camera_id {
                assert(extracted[extracted.len() - 1].camera_id == c);
            } else {
                assert(rest.contains(c));
                let k = choose|k: int|
                    0 <= k < extracted.drop_last().len() && (#[trigger] extracted.drop_last()[k]).camera_id
                        == c;
                assert(extracted[k].camera_id == c);
            }
        }
        if exists|k: int| 0 <= k < extracted.len() && (#[trigger] extracted[k]).camera_id == c {
            let k = choose|k: int|
                0 <= k < extracted.len() && (#[trigger] extracted[k]).camera_id == c;
            if k == extracted.len() - 1 {
                if !rest.contains(c) {
                    assert(camera_order(extracted)[camera_order(extracted).len() - 1] == c);
                }
            } else {
                assert(extracted.drop_last()[k].camera_id == c);
                assert(rest.contains(c));
                if !rest.contains(last.camera_id) {
                    let t = choose|t: int| 0 <= t < rest.len() && rest[t] == c;
                    assert(camera_order(extracted)[t] == c);
                }
            }
        }
    }
}

/// Camera items only depend on the cache entries of the variants that
/// occur in the snapshot; caches that agree there give the same items.
proof fn lemma_camera_items_cache_stable(
    extracted: Seq<ExtractedEffect>,
    c1: SpecializationCache,
    c2: SpecializationCache,
    draw_function: u64,
    cam: u64,
)
    requires
        forall|k: int|
            0 <= k < extracted.len() ==> c2.entry((#[trigger] extracted[k]).variant) == c1.entry(
                extracted[k].variant,
            ),
    ensures
        camera_items(extracted, c2, draw_function, cam) == camera_items(
            extracted,
            c1,
            draw_function,
            cam,
        ),
{
    assert(extracted.map(
        |i: int, e: ExtractedEffect|
            spec_phase_item(e, i, c2.entry(e.variant)->Some_0, draw_function),
    ) =~= extracted.map(
        |i: int, e: ExtractedEffect|
            spec_phase_item(e, i, c1.entry(e.variant)->Some_0, draw_function),
    ));
}

/// Extending the snapshot by one instance appends its phase item to its
/// camera's items and leaves every other camera's items unchanged.
proof fn lemma_camera_items_push(
    extracted: Seq<ExtractedEffect>,
    e: ExtractedEffect,
    cache: SpecializationCache,
    draw_function: u64,
    cam: u64,
)
    ensures
        camera_items(extracted.push(e), cache, draw_function, cam) == if e.camera_id == cam {
            camera_items(extracted, cache, draw_function, cam).push(
                spec_phase_item(
                    e,
                    extracted.len() as int,
                    cache.entry(e.variant)->Some_0,
                    draw_function,
                ),
            )
        } else {
            camera_items(extracted, cache, draw_function, cam)
        },
{
    let f = |i: int, x: ExtractedEffect|
        spec_phase_item(x, i, cache.entry(x.variant)->Some_0, draw_function);
    let pred = |it: PhaseItem| it.camera_id == cam;
    let item = spec_phase_item(
        e,
        extracted.len() as int,
        cache.entry(e.variant)->Some_0,
        draw_function,
    );
    assert(extracted.push(e).map(f) =~= extracted.map(f).push(item));
    lemma_filter_push(extracted.map(f), pred, item);
}

/// One camera's phase queue for the frame.
#[derive(Debug, Clone)]
pub struct CameraPhase {
    /// Id of the camera the queue belongs to.
    pub camera_id: u64,
    /// The camera's queue, ascending by sort key.
    pub queue: PhaseQueue,
}

/// The prepare stage: for every extracted instance, resolves a pipeline id
/// for its variant through the specialization cache, builds a phase item
/// carrying its order, its camera and its recorded uniform offset, and
/// inserts it into its camera's queue at its stable sorted position.
///
/// Returns one queue per camera that extracted anything, in the cameras'
/// first-appearance order; each queue holds exactly its camera's items,
/// ascending by sort key with ties in extraction order. The cache keeps
/// every entry it had, gains one for every variant of the snapshot, and no
/// pipeline it already held changes state.
pub fn prepare(
    extracted: &Vec<ExtractedEffect>,
    cache: &mut SpecializationCache,
    draw_function: u64,
) -> (r: Vec<CameraPhase>)
    requires
        old(cache).wf(),
        old(cache).n_pipelines() + extracted@.len() < usize::MAX,
        8 * extracted@.len() <= usize::MAX,
    ensures
        final(cache).wf(),
        forall|i: int|
            0 <= i < extracted@.len() ==> final(cache).entry(
                (#[trigger] extracted@[i]).variant,
            ) is Some,
        forall|v: crate::mask::MaskVariant|
            (#[trigger] old(cache).entry(v)) is Some ==> final(cache).entry(v) == old(cache).entry(
                v,
            ),
        old(cache).n_pipelines() <= final(cache).n_pipelines(),
        forall|id: int|
            0 <= id < old(cache).n_pipelines() ==> final(cache).state_of(id) == old(
                cache,
            ).state_of(id),
        r@.map_values(|cp: CameraPhase| cp.camera_id) == camera_order(extracted@),
        forall|j1: int, j2: int|
            0 <= j1 < j2 < r@.len() ==> (#[trigger] r@[j1]).camera_id != (
            #[trigger] r@[j2]).camera_id,
        forall|j: int|
            0 <= j < r@.len() ==> (#[trigger] r@[j]).queue.items@ == build_queue(
                camera_items(extracted@, *final(cache), draw_function, r@[j].camera_id),
            ),
        forall|j: int| 0 <= j < r@.len() ==> sorted_by_key((#[trigger] r@[j]).queue.items@),
        forall|j: int, t: int|
            0 <= j < r@.len() && 0 <= t < r@[j].queue.items@.len() ==> (#[trigger] r@[j].queue.items@[t]).pipeline_id < final(cache).n_pipelines(),
{
    let mut r: Vec<CameraPhase> = Vec::new();
    let n = extracted.len();
    let mut i: usize = 0;
    while i < n
        invariant
            n == extracted@.len(),
            0 <= i <= n,
            8 * n <= usize::MAX,
            cache.wf(),
            old(cache).n_pipelines() <= cache.n_pipelines() <= old(cache).n_pipelines() + i,
            old(cache).n_pipelines() + n < usize::MAX,
            forall|k: int|
                0 <= k < i ==> cache.entry((#[trigger] extracted@[k]).variant) is Some,
            forall|v: crate::mask::MaskVariant|
                (#[trigger] old(cache).entry(v)) is Some ==> cache.entry(v) == old(cache).entry(v),
            forall|id: int|
                0 <= id < old(cache).n_pipelines() ==> cache.state_of(id) == old(cache).state_of(
                    id,
                ),
            r@.map_values(|cp: CameraPhase| cp.camera_id) == camera_order(
                extracted@.take(i as int),
            ),
            forall|j1: int, j2: int|
                0 <= j1 < j2 < r@.len() ==> (#[trigger] r@[j1]).camera_id != (
                #[trigger] r@[j2]).camera_id,
            forall|j: int|
                0 <= j < r@.len() ==> (#[trigger] r@[j]).queue.items@ == build_queue(
                    camera_items(
                        extracted@.take(i as int),
                        *cache,
                        draw_function,
                        r@[j].camera_id,
                    ),
                ),
            forall|j: int| 0 <= j < r@.len() ==> sorted_by_key((#[trigger] r@[j]).queue.items@),
            forall|j: int| 0 <= j < r@.len() ==> (#[trigger] r@[j]).queue.items@.len() <= i,
            forall|j: int, t: int|
                0 <= j < r@.len() && 0 <= t < r@[j].queue.items@.len() ==> (#[trigger] r@[j].queue.items@[t]).pipeline_id < cache.n_pipelines(),
        decreases n - i,
    {
        let ghost cache_before = *cache;
        let ghost prefix = extracted@.take(i as int);
        let e = extracted[i];
        let pipeline_id = cache.get_or_build(e.variant);
        proof {
            assert forall|k: int|
                0 <= k < prefix.len() implies cache.entry(
                (#[trigger] prefix[k]).variant,
            ) == cache_before.entry(prefix[k].variant) by {
                assert(prefix[k] == extracted@[k]);
                assert(cache_before.entry(extracted@[k].variant) is Some);
            }
            assert forall|cam: u64|
                #[trigger] camera_items(prefix, *cache, draw_function, cam) == camera_items(
                    prefix,
                    cache_before,
                    draw_function,
                    cam,
                ) by {
                lemma_camera_items_cache_stable(prefix, cache_before, *cache, draw_function, cam);
            }
        }
        let item = PhaseItem {
            camera_id: e.camera_id,
            sort_key: e.order,
            draw_function,
            pipeline_id,
            uniform_offset: 8 * i,
        };
        proof {
            assert(item == spec_phase_item(
                e,
                i as int,
                cache.entry(e.variant)->Some_0,
                draw_function,
            ));
        }
        let ghost r_pre = r@;
        let m = r.len();
        let mut j: usize = 0;
        while j < m && r[j].camera_id != e.camera_id
            invariant
                m == r@.len(),
                0 <= j <= m,
                forall|t: int| 0 <= t < j ==> (#[trigger] r@[t]).camera_id != e.camera_id,
            decreases m - j,
        {
            j = j + 1;
        }
        if j == m {
            proof {
                if camera_order(prefix).contains(e.camera_id) {
                    let t = choose|t: int|
                        0 <= t < camera_order(prefix).len() && camera_order(prefix)[t]
                            == e.camera_id;
                    assert(r@.map_values(|cp: CameraPhase| cp.camera_id)[t] == e.camera_id);
                    assert(r@[t].camera_id == e.camera_id);
                    assert(false);
                }
            }
            r.push(CameraPhase { camera_id: e.camera_id, queue: PhaseQueue::new() });
        }
        proof {
            if j == m {
                lemma_camera_order_contains(prefix, e.camera_id);
                let f = |ii: int, x: ExtractedEffect|
                    spec_phase_item(x, ii, cache.entry(x.variant)->Some_0, draw_function);
                assert forall|t: int| 0 <= t < prefix.map(f).len() implies (#[trigger] prefix.map(
                    f,
                )[t]).camera_id != e.camera_id by {
                    assert(prefix.map(f)[t] == f(t, prefix[t]));
                }
                lemma_filter_none(prefix.map(f), |it: PhaseItem| it.camera_id == e.camera_id);
                assert(camera_items(prefix, *cache, draw_function, e.camera_id)
                    == Seq::<PhaseItem>::empty());
            }
        }
        let ghost r_mid = r@;
        let mut cp = r.remove(j);
        proof {
            lemma_build_queue_sorted(
                camera_items(prefix, *cache, draw_function, cp.camera_id),
            );
        }
        cp.queue.add(item);
        r.insert(j, cp);
        proof {
            assert(r@ =~= r_mid.update(j as int, r@[j as int]));
            assert(r@[j as int].camera_id == e.camera_id);
            assert(r@[j as int].queue.items@ == stable_insert(
                r_mid[j as int].queue.items@,
                item,
            ));
            let ipos = insert_pos(r_mid[j as int].queue.items@, item.sort_key);
            lemma_insert_pos_facts(r_mid[j as int].queue.items@, item.sort_key);
            r_mid[j as int].queue.items@.insert_ensures(ipos, item);
            assert(r@[j as int].queue.items@.len() == r_mid[j as int].queue.items@.len() + 1);
            let next = extracted@.take(i as int + 1);
            assert(next =~= prefix.push(e));
            let cam = e.camera_id;
            assert forall|c: u64|
                #[trigger] camera_items(next, *cache, draw_function, c) == if c == cam {
                    camera_items(prefix, *cache, draw_function, c).push(item)
                } else {
                    camera_items(prefix, *cache, draw_function, c)
                } by {
                lemma_camera_items_push(prefix, e, *cache, draw_function, c);
            }
            assert(camera_items(next, *cache, draw_function, cam).drop_last() =~= camera_items(
                prefix,
                *cache,
                draw_function,
                cam,
            ));
            assert(build_queue(camera_items(next, *cache, draw_function, cam)) == stable_insert(
                build_queue(camera_items(prefix, *cache, draw_function, cam)),
                item,
            ));
            assert(next.drop_last() =~= prefix);
            assert(next.last() == e);
            assert(next.len() > 0);
            assert(camera_order(next) == if camera_order(next.drop_last()).contains(
                next.last().camera_id,
            ) {
                camera_order(next.drop_last())
            } else {
                camera_order(next.drop_last()).push(next.last().camera_id)
            });
            if camera_order(prefix).contains(cam) {
                assert(camera_order(next) == camera_order(prefix));
            } else {
                assert(camera_order(next) == camera_order(prefix).push(cam));
            }
            let ids = |other: CameraPhase| other.camera_id;
            assert forall|t: int| 0 <= t < r@.len() implies #[trigger] r@.map_values(ids)[t]
                == r_mid.map_values(ids)[t] by {
                if t == j {
                    assert(r@[t].camera_id == e.camera_id);
                    assert(r_mid[t].camera_id == e.camera_id);
                } else {
                    assert(r@[t] == r_mid[t]);
                }
            }
            assert(r@.map_values(ids) =~= r_mid.map_values(ids));
            if j == m {
                assert forall|t: int| 0 <= t < r_mid.len() implies #[trigger] r_mid.map_values(
                    ids,
                )[t] == camera_order(next)[t] by {
                    if t < m {
                        assert(r_mid[t] == r_pre[t]);
                        assert(r_pre.map_values(ids)[t] == camera_order(prefix)[t]);
                    } else {
                        assert(r_mid[t].camera_id == cam);
                    }
                }
                assert(r_mid.map_values(ids) =~= camera_order(next));
            } else {
                assert(r_pre[j as int].camera_id == cam);
                assert(r_pre.map_values(ids)[j as int] == cam);
                assert(camera_order(prefix)[j as int] == cam);
                assert(camera_order(prefix).contains(cam));
                assert(camera_order(next) == camera_order(prefix));
                assert forall|t: int| 0 <= t < r_mid.len() implies #[trigger] r_mid.map_values(
                    ids,
                )[t] == camera_order(next)[t] by {
                    assert(r_mid[t] == r_pre[t]);
                    assert(r_pre.map_values(ids)[t] == camera_order(prefix)[t]);
                }
                assert(r_mid.map_values(ids) =~= camera_order(next));
            }
            assert(r@.map_values(|other: CameraPhase| other.camera_id) =~= camera_order(next));
            assert forall|jj: int, t: int|
                0 <= jj < r@.len() && 0 <= t < r@[jj].queue.items@.len() implies (#[trigger] r@[jj].queue.items@[t]).pipeline_id < cache.n_pipelines() by {
                if jj == j {
                    lemma_stable_insert_elems(
                        build_queue(camera_items(prefix, *cache, draw_function, cam)),
                        item,
                        |it: PhaseItem| it.pipeline_id < cache.n_pipelines(),
                    );
                }
            }
        }
        i = i + 1;
    }
    proof {
        assert(extracted@.take(n as int) =~= extracted@);
    }
    r
}

} // verus!
