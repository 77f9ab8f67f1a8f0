//! The specialization cache: one compiled pipeline per mask variant.
//!
//! A pipeline is compiled the first time its variant is requested and the
//! cached id is returned ever after, so compilation is amortized once per
//! distinct variant for the cache's lifetime — never once per frame or per
//! instance. Compilation is asynchronous: a freshly requested pipeline is
//! pending until the host marks it ready or failed, and a draw that meets a
//! pipeline that is not ready is skipped for the frame, not treated as
//! fatal.

use vstd::prelude::*;

use crate::mask::MaskVariant;

verus! {

/// Lifecycle of one compiled pipeline.
#[derive(Debug, PartialEq, Eq, Structural, Copy, Clone)]
pub enum PipelineState {
    /// Still being built asynchronously; not yet usable.
    Pending,
    /// Built and usable for draws.
    Ready,
    /// Compilation failed; draws referencing it are skipped.
    Failed,
}

/// Maps each mask variant to its compiled pipeline, at most one per
/// variant, shared across cameras and frames.
pub struct SpecializationCache {
    /// Pipeline id compiled for the square variant, if requested yet.
    pub square: Option<usize>,
    /// Pipeline id compiled for the CRT variant, if requested yet.
    pub crt: Option<usize>,
    /// Pipeline id compiled for the vignette variant, if requested yet.
    pub vignette: Option<usize>,
    /// Lifecycle state of every pipeline ever compiled, indexed by id.
    pub states: Vec<PipelineState>,
    /// The variants compiled so far, one event per compilation, in order.
    pub compiles: Ghost<Seq<MaskVariant>>,
}

impl SpecializationCache {
    /// The cache entry of a variant: the id of its compiled pipeline, if
    /// one was requested yet.
    pub open spec fn entry(self, v: MaskVariant) -> Option<usize> {
        match v {
            MaskVariant::Square => self.square,
            MaskVariant::Crt => self.crt,
            MaskVariant::Vignette => self.vignette,
        }
    }

    /// How many pipelines were ever compiled; ids range below this.
    pub open spec fn n_pipelines(self) -> nat {
        self.states@.len()
    }

    /// Lifecycle state of the pipeline with id `id`.
    pub open spec fn state_of(self, id: int) -> PipelineState {
        self.states@[id]
    }

    /// How often a variant was compiled so far.
    pub open spec fn compiled_times(self, v: MaskVariant) -> nat {
        count_variant(self.compiles@, v)
    }

    /// Every cached id names a pipeline, every pipeline came from one
    /// compilation, and a variant is compiled exactly when it is cached:
    /// once if so, never otherwise.
    pub open spec fn wf(self) -> bool {
        &&& forall|v: MaskVariant|
            (#[trigger] self.entry(v)) is Some ==> self.entry(v)->Some_0 < self.n_pipelines()
        &&& self.compiles@.len() == self.n_pipelines()
        &&& forall|v: MaskVariant|
            #[trigger] self.compiled_times(v) == if self.entry(v) is Some {
                1nat
            } else {
                0nat
            }
    }

    /// An empty cache: no variant requested, no pipeline compiled.
    pub fn new() -> (r: Self)
        ensures
            r.wf(),
            forall|v: MaskVariant| (#[trigger] r.entry(v)) is None,
            r.n_pipelines() == 0,
            r.compiles@ == Seq::<MaskVariant>::empty(),
    {
        let r = SpecializationCache {
            square: None,
            crt: None,
            vignette: None,
            states: Vec::new(),
            compiles: Ghost(Seq::empty()),
        };
        proof {
            assert forall|v: MaskVariant| #[trigger] r.compiled_times(v) == 0nat by {}
        }
        r
    }

    /// Resolves a variant key to a pipeline id: returns the cached id if
    /// the variant was requested before, and otherwise compiles a new,
    /// initially pending pipeline, caches its id, and returns it. A cache
    /// hit changes nothing at all.
    pub fn get_or_build(&mut self, key: MaskVariant) -> (id: usize)
        requires
            old(self).wf(),
            old(self).n_pipelines() < usize::MAX,
        ensures
            final(self).wf(),
            final(self).entry(key) == Some(id),
            old(self).entry(key) is Some ==> *final(self) == *old(self) && old(self).entry(key)
                == Some(id),
            old(self).entry(key) is None ==> {
                &&& id == old(self).n_pipelines()
                &&& final(self).states@ == old(self).states@.push(PipelineState::Pending)
                &&& final(self).compiles@ == old(self).compiles@.push(key)
                &&& forall|v: MaskVariant|
                    v != key ==> #[trigger] final(self).entry(v) == old(self).entry(v)
            },
    {
        let cached = match key {
            MaskVariant::Square => self.square,
            MaskVariant::Crt => self.crt,
            MaskVariant::Vignette => self.vignette,
        };
        if let Some(id) = cached {
            return id;
        }
        let id = self.states.len();
        self.states.push(PipelineState::Pending);
        match key {
            MaskVariant::Square => {
                self.square = Some(id);
            },
            MaskVariant::Crt => {
                self.crt = Some(id);
            },
            MaskVariant::Vignette => {
                self.vignette = Some(id);
            },
        }
        proof {
            self.compiles@ = old(self).compiles@.push(key);
            assert forall|v: MaskVariant| (#[trigger] self.entry(v)) is Some ==> self.entry(
                v,
            )->Some_0 < self.n_pipelines() by {
                if v != key {
                    assert(self.entry(v) == old(self).entry(v));
                }
            }
            assert forall|v: MaskVariant| #[trigger] self.compiled_times(v) == if self.entry(v)
                is Some {
                1nat
            } else {
                0nat
            } by {
                lemma_count_push(old(self).compiles@, key, v);
                assert(old(self).compiled_times(v) == if old(self).entry(v) is Some {
                    1nat
                } else {
                    0nat
                });
            }
        }
        id
    }

    /// Marks an asynchronously built pipeline as ready for draws.
    pub fn set_ready(&mut self, id: usize)
        requires
            id < old(self).n_pipelines(),
        ensures
            final(self).states@ == old(self).states@.update(id as int, PipelineState::Ready),
            final(self).square == old(self).square,
            final(self).crt == old(self).crt,
            final(self).vignette == old(self).vignette,
            final(self).compiles == old(self).compiles,
            old(self).wf() ==> final(self).wf(),
    {
        self.states.set(id, PipelineState::Ready);
        proof {
            assert forall|v: MaskVariant| #[trigger] self.entry(v) == old(self).entry(v) by {}
            assert forall|v: MaskVariant| #[trigger] self.compiled_times(v) == old(
                self,
            ).compiled_times(v) by {}
        }
    }

    /// Marks an asynchronously built pipeline as failed; draws referencing
    /// it stay skipped until the host rebuilds it.
    pub fn set_failed(&mut self, id: usize)
        requires
            id < old(self).n_pipelines(),
        ensures
            final(self).states@ == old(self).states@.update(id as int, PipelineState::Failed),
            final(self).square == old(self).square,
            final(self).crt == old(self).crt,
            final(self).vignette == old(self).vignette,
            final(self).compiles == old(self).compiles,
            old(self).wf() ==> final(self).wf(),
    {
        self.states.set(id, PipelineState::Failed);
        proof {
            assert forall|v: MaskVariant| #[trigger] self.entry(v) == old(self).entry(v) by {}
            assert forall|v: MaskVariant| #[trigger] self.compiled_times(v) == old(
                self,
            ).compiled_times(v) by {}
        }
    }

    /// Whether the pipeline with id `id` is ready for draws.
    pub fn is_ready(&self, id: usize) -> (r: bool)
        requires
            id < self.n_pipelines(),
        ensures
            r == (self.state_of(id as int) is Ready),
    {
        matches!(self.states[id], PipelineState::Ready)
    }
}

/// How many entries of `s` are the variant `v`.
pub open spec fn count_variant(s: Seq<MaskVariant>, v: MaskVariant) -> nat
    decreases s.len(),
{
    if s.len() == 0 {
        0
    } else {
        count_variant(s.drop_last(), v) + if s.last() == v {
            1nat
        } else {
            0nat
        }
    }
}

/// Appending a variant raises its own count by one and no other.
pub proof fn lemma_count_push(s: Seq<MaskVariant>, x: MaskVariant, v: MaskVariant)
    ensures
        count_variant(s.push(x), v) == count_variant(s, v) + if x == v {
            1nat
        } else {
            0nat
        },
{
    assert(s.push(x).drop_last() =~= s);
    assert(s.push(x).last() == x);
}

/// Every entry of a variant sequence is a square, a CRT or a vignette:
/// the three counts partition the length.
pub proof fn lemma_variant_partition(s: Seq<MaskVariant>)
    ensures
        s.len() == count_variant(s, MaskVariant::Square) + count_variant(s, MaskVariant::Crt)
            + count_variant(s, MaskVariant::Vignette),
    decreases s.len(),
{
    if s.len() > 0 {
        lemma_variant_partition(s.drop_last());
        lemma_count_push(s.drop_last(), s.last(), MaskVariant::Square);
        lemma_count_push(s.drop_last(), s.last(), MaskVariant::Crt);
        lemma_count_push(s.drop_last(), s.last(), MaskVariant::Vignette);
        assert(s.drop_last().push(s.last()) =~= s);
    }
}

/// A well-formed cache holds at most one live pipeline per variant, and so
/// at most three pipelines in all.
pub proof fn lemma_at_most_one_pipeline_per_variant(cache: SpecializationCache)
    requires
        cache.wf(),
    ensures
        cache.n_pipelines() <= 3,
{
    lemma_variant_partition(cache.compiles@);
    assert(cache.compiled_times(MaskVariant::Square) <= 1);
    assert(cache.compiled_times(MaskVariant::Crt) <= 1);
    assert(cache.compiled_times(MaskVariant::Vignette) <= 1);
}

/// Across any number of frames, a well-formed cache has compiled each
/// distinct variant key at most once.
pub proof fn lemma_compile_at_most_once(cache: SpecializationCache, v: MaskVariant)
    requires
        cache.wf(),
    ensures
        cache.compiled_times(v) <= 1,
{
}

} // verus!
