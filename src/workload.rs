//! The five mutation patterns, run against the weighted index through one
//! parameterised workload that keeps the shadow weight vector.
use vstd::prelude::*;

use crate::config::{grown, shrunk, grow_target, shrink_target, Factor, FixedConfig, ResizeConfig};
use crate::sampler::{index_weights, weight_sum, within_limit, WeightedSampler, WEIGHT_LIMIT};
use crate::sums::{
    lemma_sum_below, lemma_sum_prefix, lemma_sum_push, lemma_sum_update,
    lemma_sum_zero_tail, zeros,
};

verus! {

/// Weights `b` with total `tb` follow from weights `a` with total `ta` by
/// increases of position 0 alone.
pub open spec fn single_increase_step(a: Seq<u64>, ta: nat, b: Seq<u64>, tb: nat) -> bool {
    &&& b.len() == a.len()
    &&& a.len() >= 1
    &&& ta <= tb
    &&& forall|i: int| 0 < i < b.len() ==> b[i] == a[i]
    &&& b[0] == a[0] + (tb - ta)
}

/// How many times `i` occurs in `s`.
pub open spec fn count_in(s: Seq<int>, i: int) -> nat
    decreases s.len(),
{
    if s.len() == 0 {
        0
    } else {
        count_in(s.drop_last(), i) + if s.last() == i {
            1nat
        } else {
            0nat
        }
    }
}

/// How the population or the weights change between checkpoints.
#[derive(Clone, Copy, Debug, PartialEq, Eq, Structural)]
pub enum Pattern {
    /// Grow the population geometrically, with fresh random weights.
    Insert,
    /// Shrink the population geometrically, last position first.
    Erase,
    /// Increase the weight of a uniformly chosen position.
    RandomIncrease,
    /// Increase the weight of a position drawn from the index itself.
    PolyaUrn,
    /// Increase the weight of position 0.
    SingleIncrease,
}

impl Pattern {
    pub open spec fn resizes(self) -> bool {
        self is Insert || self is Erase
    }
}

/// The magnitude of one reinforcement.
#[derive(Clone, Copy, Debug, PartialEq, Eq, Structural)]
pub enum Increment {
    /// Always 1.
    Unit,
    /// Drawn uniformly below the population size.
    Drawn,
}

/// Why a workload step could not be carried out.
#[derive(Clone, Copy, Debug, PartialEq, Eq, Structural)]
pub enum WorkloadError {
    /// A sample was asked for while every weight is 0.
    EmptyIndex,
    /// The weight of a position would reach `WEIGHT_LIMIT`.
    WeightOverflow,
}

/// One workload instance: the index, its shadow weight vector and the
/// progress of the pattern.
///
/// The shadow vector `weights` holds the active positions `0..weights.len()`;
/// the index holds the same weights there and 0 on the rest of its capacity.
pub struct Workload {
    pub pattern: Pattern,
    pub sampler: WeightedSampler,
    /// The shadow weight vector: the current weight of each active position.
    pub weights: Vec<u64>,
    /// The sum of `weights`.
    pub total: u64,
    /// The number of positions of the index.
    pub capacity: usize,
    /// Fresh weights and drawn increments lie below this bound.
    pub draw_bound: u64,
    /// Growth factor of the resizing patterns; the others ignore it.
    pub factor: Factor,
    /// Erase-shrink stops before a shrink step reaches this size or below.
    pub erase_limit: usize,
    /// Mutation budget of the fixed-size patterns.
    pub steps: usize,
    /// Mutations per mutating phase of the fixed-size patterns.
    pub substeps: usize,
    /// Mutations applied so far by the fixed-size patterns.
    pub step: usize,
    pub increment: Increment,
    /// Set once a resizing step would pass its bound.
    pub finished: bool,
    /// The number of draws made from the index so far.
    pub draws: Ghost<nat>,
    /// The target of each reinforcement so far, in order.
    pub targets: Ghost<Seq<int>>,
}

impl Workload {
    /// The index holds the shadow weights on the active positions and 0
    /// beyond; `total` is their sum; every weight is below `WEIGHT_LIMIT`,
    /// and so is every weight drawn fresh.
    pub open spec fn wf(&self) -> bool {
        let len = self.weights@.len();
        &&& len <= self.capacity
        &&& index_weights(self.sampler) == self.weights@ + zeros((self.capacity - len) as nat)
        &&& self.total == weight_sum(self.weights@)
        &&& self.draw_bound >= 1
        &&& within_limit(self.weights@)
        &&& self.capacity * WEIGHT_LIMIT <= u64::MAX
        &&& if self.pattern.resizes() {
            &&& self.factor.valid()
            &&& self.draw_bound <= WEIGHT_LIMIT
            &&& self.erase_limit == shrunk(self.draw_bound as nat, self.factor)
            &&& forall|i: int| 0 <= i < len ==> self.weights@[i] < self.draw_bound
        } else {
            &&& len == self.capacity
            &&& self.capacity >= 1
            &&& self.draw_bound == self.capacity
            &&& self.capacity <= WEIGHT_LIMIT
            &&& 1 <= self.substeps <= self.steps <= usize::MAX / 2
            &&& self.step < self.steps + self.substeps
        }
    }

    /// Everything but the random stream and the draw count is as in `o`.
    pub open spec fn same_state(&self, o: &Workload) -> bool {
        &&& self.fixed_fields(o)
        &&& self.weights@ == o.weights@
        &&& self.total == o.total
        &&& self.step == o.step
        &&& self.finished == o.finished
        &&& self.targets@ == o.targets@
        &&& index_weights(self.sampler) == index_weights(o.sampler)
    }

    /// The parameters of the run are as in `o`.
    pub open spec fn fixed_fields(&self, o: &Workload) -> bool {
        &&& self.pattern == o.pattern
        &&& self.capacity == o.capacity
        &&& self.draw_bound == o.draw_bound
        &&& self.factor == o.factor
        &&& self.erase_limit == o.erase_limit
        &&& self.steps == o.steps
        &&& self.substeps == o.substeps
        &&& self.increment == o.increment
    }

    /// The targets reinforced since `o`, a state this one grew from.
    pub open spec fn targets_since(&self, o: &Workload) -> Seq<int> {
        self.targets@.subrange(o.targets@.len() as int, self.targets@.len() as int)
    }

    /// The targets of `self` extend those of `o`, and each position that is
    /// not among the new ones keeps its weight; with unit increments, each
    /// weight rose by the number of times its position was a target.
    pub open spec fn reinforced_from(&self, o: &Workload) -> bool {
        let ph = self.targets_since(o);
        &&& o.targets@.len() <= self.targets@.len()
        &&& self.targets@.subrange(0, o.targets@.len() as int) == o.targets@
        &&& forall|k: int| 0 <= k < ph.len() ==> 0 <= #[trigger] ph[k] < o.weights@.len()
        &&& forall|i: int|
            0 <= i < o.weights@.len() && count_in(ph, i) == 0 ==> #[trigger] self.weights@[i]
                == o.weights@[i]
        &&& o.increment is Unit ==> forall|i: int|
            0 <= i < o.weights@.len() ==> #[trigger] self.weights@[i] == o.weights@[i] + count_in(
                ph,
                i,
            )
        &&& o.pattern is SingleIncrease ==> forall|k: int| 0 <= k < ph.len() ==> #[trigger] ph[k] == 0
    }

    /// The largest single increment the increment policy can give.
    pub open spec fn max_increment(&self) -> nat {
        match self.increment {
            Increment::Unit => 1,
            Increment::Drawn => (self.draw_bound - 1) as nat,
        }
    }

    pub open spec fn all_zero(&self) -> bool {
        forall|j: int| 0 <= j < self.weights@.len() ==> self.weights@[j] == 0
    }

    pub open spec fn done(&self) -> bool {
        match self.pattern {
            Pattern::Insert => self.finished || self.weights@.len() >= self.capacity,
            Pattern::Erase => self.finished || self.weights@.len() <= self.erase_limit,
            _ => self.step >= self.steps,
        }
    }

    proof fn lemma_index_within(&self)
        requires
            self.wf(),
        ensures
            within_limit(index_weights(self.sampler)),
    {
        let iw = index_weights(self.sampler);
        assert forall|j: int| 0 <= j < iw.len() implies iw[j] < WEIGHT_LIMIT by {
            if j < self.weights@.len() {
                assert(iw[j] == self.weights@[j]);
            }
        }
    }

    /// The size (resizing patterns) or the step count (the others) that a
    /// checkpoint reports.
    pub open spec fn checkpoint_spec(&self) -> nat {
        if self.pattern.resizes() {
            self.weights@.len()
        } else {
            self.step as nat
        }
    }

    /// Draws one position from the index: `None` exactly when every active
    /// weight is 0, else an active position of positive shadow weight.
    pub fn draw(&mut self) -> (r: Option<usize>)
        requires
            old(self).wf(),
        ensures
            final(self).wf(),
            final(self).same_state(old(self)),
            final(self).draws@ == old(self).draws@ + 1,
            r is None <==> old(self).all_zero(),
            r matches Some(j) ==> j < old(self).weights@.len() && old(self).weights@[j as int] > 0,
    {
        let ghost len = self.weights@.len();
        let ghost iw = index_weights(self.sampler);
        let r = self.sampler.sample();
        self.draws = Ghost(self.draws@ + 1);
        proof {
            assert(iw.len() == self.capacity);
            assert forall|j: int| 0 <= j < len implies iw[j] == self.weights@[j] by {}
            if r is None {
                assert forall|j: int| 0 <= j < len implies self.weights@[j] == 0 by {
                    assert(!crate::sampler::may_return(iw, j));
                }
            }
            if old(self).all_zero() {
                assert forall|j: int| !crate::sampler::may_return(iw, j) by {
                    if 0 <= j < len {
                        assert(self.weights@[j] == 0);
                    }
                }
            }
        }
        r
    }

    /// The measuring phase: `samples` draws from the index. Fails only when
    /// a draw is asked for while every weight is 0.
    pub fn measure(&mut self, samples: usize) -> (r: Result<(), WorkloadError>)
        requires
            old(self).wf(),
        ensures
            final(self).wf(),
            final(self).same_state(old(self)),
            r is Err <==> (samples > 0 && old(self).all_zero()),
            r matches Err(e) ==> e == WorkloadError::EmptyIndex,
            r is Ok ==> final(self).draws@ == old(self).draws@ + samples,
    {
        let mut k: usize = 0;
        while k < samples
            invariant
                self.wf(),
                self.same_state(old(self)),
                k <= samples,
                k > 0 ==> !old(self).all_zero(),
                self.draws@ == old(self).draws@ + k,
            decreases samples - k,
        {
            match self.draw() {
                Some(_) => {},
                None => {
                    return Err(WorkloadError::EmptyIndex);
                },
            }
            k += 1;
        }
        Ok(())
    }

    /// Adds `inc` to the weight of position `u`, in the shadow vector and in
    /// the index, unless that weight would reach `WEIGHT_LIMIT`.
    pub fn reinforce(&mut self, u: usize, inc: u64) -> (r: Result<(), WorkloadError>)
        requires
            old(self).wf(),
            !old(self).pattern.resizes(),
            u < old(self).weights@.len(),
        ensures
            final(self).wf(),
            final(self).fixed_fields(old(self)),
            final(self).step == old(self).step,
            final(self).finished == old(self).finished,
            r is Err <==> old(self).weights@[u as int] + inc >= WEIGHT_LIMIT,
            r matches Err(e) ==> e == WorkloadError::WeightOverflow,
            r is Err ==> final(self).same_state(old(self)),
            r is Ok ==> final(self).weights@ == old(self).weights@.update(
                u as int,
                (old(self).weights@[u as int] + inc) as u64,
            ),
            r is Ok ==> final(self).total == old(self).total + inc,
            r is Ok ==> final(self).weights@[u as int] == old(self).weights@[u as int] + inc,
            r is Ok ==> final(self).targets@ == old(self).targets@.push(u as int),
    {
        if inc >= WEIGHT_LIMIT - self.weights[u] {
            return Err(WorkloadError::WeightOverflow);
        }
        let w = self.weights[u] + inc;
        let ghost nw = self.weights@.update(u as int, w);
        proof {
            lemma_sum_update(self.weights@, u as int, w);
            lemma_sum_below(nw, WEIGHT_LIMIT as nat);
            assert(nw.len() * (WEIGHT_LIMIT as nat) <= u64::MAX);
            assert(index_weights(self.sampler) =~= self.weights@);
        }
        self.sampler.set_weight(u, w);
        self.weights.set(u, w);
        self.total = self.total + inc;
        self.targets = Ghost(self.targets@.push(u as int));
        proof {
            assert(index_weights(self.sampler) =~= self.weights@ + zeros(0));
        }
        Ok(())
    }

    /// Appends fresh positions with weights drawn below `draw_bound` until
    /// `target` positions are active.
    fn populate(&mut self, target: usize)
        requires
            old(self).wf(),
            old(self).pattern.resizes(),
            old(self).weights@.len() <= target <= old(self).capacity,
        ensures
            final(self).wf(),
            final(self).fixed_fields(old(self)),
            final(self).step == old(self).step,
            final(self).finished == old(self).finished,
            final(self).weights@.len() == target,
            final(self).weights@.subrange(0, old(self).weights@.len() as int) == old(self).weights@,
    {
        let ghost start = self.weights@.len();
        while self.weights.len() < target
            invariant
                self.wf(),
                self.pattern.resizes(),
                self.fixed_fields(old(self)),
                self.step == old(self).step,
                self.finished == old(self).finished,
                start == old(self).weights@.len(),
                start <= self.weights@.len() <= target <= self.capacity,
                self.weights@.subrange(0, start as int) == old(self).weights@,
            decreases target - self.weights@.len(),
        {
            let w = self.sampler.draw_below(self.draw_bound);
            let i = self.weights.len();
            let ghost ws = self.weights@;
            let ghost cap = self.capacity as nat;
            proof {
                self.lemma_index_within();
                lemma_sum_below(ws.push(w), WEIGHT_LIMIT as nat);
                assert((i + 1) * (WEIGHT_LIMIT as nat) <= cap * (WEIGHT_LIMIT as nat))
                    by (nonlinear_arith)
                    requires
                        i + 1 <= cap,
                ;
                lemma_sum_push(ws, w);
                lemma_sum_zero_tail(ws.push(w), (cap - i - 1) as nat);
                assert(index_weights(self.sampler).update(i as int, w) =~= ws.push(w) + zeros(
                    (cap - i - 1) as nat,
                ));
            }
            self.sampler.set_weight(i, w);
            self.weights.push(w);
            self.total = self.total + w;
            proof {
                assert(self.weights@.subrange(0, start as int) =~= ws.subrange(0, start as int));
            }
        }
    }

    /// Removes the highest active positions, one at a time, until `target`
    /// positions are active.
    fn truncate(&mut self, target: usize)
        requires
            old(self).wf(),
            old(self).pattern.resizes(),
            target <= old(self).weights@.len(),
        ensures
            final(self).wf(),
            final(self).fixed_fields(old(self)),
            final(self).step == old(self).step,
            final(self).finished == old(self).finished,
            final(self).weights@ == old(self).weights@.subrange(0, target as int),
    {
        while self.weights.len() > target
            invariant
                self.wf(),
                self.pattern.resizes(),
                self.fixed_fields(old(self)),
                self.step == old(self).step,
                self.finished == old(self).finished,
                target <= self.weights@.len() <= old(self).weights@.len(),
                self.weights@ == old(self).weights@.subrange(0, self.weights@.len() as int),
            decreases self.weights@.len(),
        {
            let i = self.weights.len() - 1;
            let ghost ws = self.weights@;
            let ghost cap = self.capacity as nat;
            proof {
                self.lemma_index_within();
                assert(ws.drop_last().push(ws.last()) =~= ws);
                lemma_sum_push(ws.drop_last(), ws.last());
                assert(index_weights(self.sampler).update(i as int, 0u64) =~= ws.drop_last()
                    + zeros((cap - i) as nat));
            }
            self.sampler.remove_weight(i);
            let w = self.weights.pop().unwrap();
            self.total = self.total - w;
            proof {
                assert(self.weights@ =~= old(self).weights@.subrange(0, i as int));
            }
        }
    }

    /// Starts a resizing workload: capacity `nu`, weights drawn below `nl`,
    /// and `size` active positions.
    fn resize_start(pattern: Pattern, cfg: ResizeConfig, seed: u64, size: usize) -> (r: Workload)
        requires
            cfg.valid(),
            pattern.resizes(),
            size <= cfg.nu,
        ensures
            r.wf(),
            r.pattern == pattern,
            r.capacity == cfg.nu,
            r.draw_bound == cfg.nl,
            r.factor == cfg.factor,
            r.weights@.len() == size,
            !r.finished,
    {
        let erase_limit = shrink_target(cfg.nl, cfg.factor);
        let mut w = Workload {
            pattern,
            sampler: WeightedSampler::new(cfg.nu, seed),
            weights: Vec::new(),
            total: 0,
            capacity: cfg.nu,
            draw_bound: cfg.nl as u64,
            factor: cfg.factor,
            erase_limit,
            steps: 0,
            substeps: 0,
            step: 0,
            increment: Increment::Unit,
            finished: false,
            draws: Ghost(0),
            targets: Ghost(Seq::empty()),
        };
        proof {
            assert(index_weights(w.sampler) =~= w.weights@ + zeros(cfg.nu as nat));
        }
        w.populate(size);
        w
    }

    /// Insert-growth: capacity `nu`, with positions `0..nl` active and
    /// weighted uniformly below `nl`.
    pub fn insert(cfg: ResizeConfig, seed: u64) -> (r: Workload)
        requires
            cfg.valid(),
        ensures
            r.wf(),
            r.pattern == Pattern::Insert,
            r.capacity == cfg.nu,
            r.draw_bound == cfg.nl,
            r.factor == cfg.factor,
            r.weights@.len() == cfg.nl,
            !r.done(),
    {
        Workload::resize_start(Pattern::Insert, cfg, seed, cfg.nl)
    }

    /// Erase-shrink: capacity `nu`, all of it active and weighted uniformly
    /// below `nl`.
    pub fn erase(cfg: ResizeConfig, seed: u64) -> (r: Workload)
        requires
            cfg.valid(),
        ensures
            r.wf(),
            r.pattern == Pattern::Erase,
            r.capacity == cfg.nu,
            r.draw_bound == cfg.nl,
            r.factor == cfg.factor,
            r.erase_limit == cfg.erase_limit(),
            r.weights@.len() == cfg.nu,
            !r.done(),
    {
        proof {
            crate::config::lemma_shrunk_below(cfg.nl as nat, cfg.factor);
        }
        Workload::resize_start(Pattern::Erase, cfg, seed, cfg.nu)
    }

    /// Starts a fixed-size workload over `initial`, with the sampler given.
    fn fixed_start(
        pattern: Pattern,
        cfg: FixedConfig,
        increment: Increment,
        initial: Vec<u64>,
        sampler: WeightedSampler,
    ) -> (r: Result<Workload, WorkloadError>)
        requires
            cfg.valid(),
            !pattern.resizes(),
            initial@.len() == cfg.n,
            index_weights(sampler) == zeros(cfg.n as nat),
        ensures
            r is Err <==> !within_limit(initial@),
            r matches Err(e) ==> e == WorkloadError::WeightOverflow,
            r matches Ok(w) ==> ({
                &&& w.wf()
                &&& w.pattern == pattern
                &&& w.increment == increment
                &&& w.weights@ == initial@
                &&& w.steps == cfg.steps()
                &&& w.substeps == cfg.substeps()
                &&& w.step == 0
            }),
    {
        let n = cfg.n;
        let mut sampler = sampler;
        let mut total: u64 = 0;
        let mut i: usize = 0;
        while i < n
            invariant
                n == initial@.len(),
                i <= n,
                n <= WEIGHT_LIMIT,
                index_weights(sampler) == initial@.subrange(0, i as int) + zeros((n - i) as nat),
                total == weight_sum(initial@.subrange(0, i as int)),
                forall|j: int| 0 <= j < i ==> initial@[j] < WEIGHT_LIMIT,
            decreases n - i,
        {
            let ghost pre = initial@.subrange(0, i as int);
            proof {
                assert(initial@.subrange(0, i + 1) =~= pre.push(initial@[i as int]));
                lemma_sum_push(pre, initial@[i as int]);
            }
            if initial[i] >= WEIGHT_LIMIT {
                return Err(WorkloadError::WeightOverflow);
            }
            proof {
                assert(within_limit(index_weights(sampler)));
                lemma_sum_below(pre.push(initial@[i as int]), WEIGHT_LIMIT as nat);
                assert((i + 1) * (WEIGHT_LIMIT as nat) <= u64::MAX) by (nonlinear_arith)
                    requires
                        i + 1 <= WEIGHT_LIMIT,
                ;
                lemma_sum_zero_tail(pre.push(initial@[i as int]), (n - i - 1) as nat);
                assert(index_weights(sampler).update(i as int, initial@[i as int]) =~= pre.push(
                    initial@[i as int],
                ) + zeros((n - i - 1) as nat));
            }
            sampler.set_weight(i, initial[i]);
            total = total + initial[i];
            i += 1;
        }
        proof {
            assert(initial@.subrange(0, n as int) =~= initial@);
        }
        let steps = 100 * n;
        let substeps = steps / cfg.g;
        proof {
            assert(substeps >= 1) by (nonlinear_arith)
                requires
                    substeps as nat == (steps as nat) / (cfg.g as nat),
                    1 <= cfg.g <= steps,
            ;
            assert(substeps <= steps) by (nonlinear_arith)
                requires
                    substeps as nat == (steps as nat) / (cfg.g as nat),
                    1 <= cfg.g,
            ;
        }
        Ok(Workload {
            pattern,
            sampler,
            weights: initial,
            total,
            capacity: n,
            draw_bound: n as u64,
            factor: Factor { num: 2, den: 1 },
            erase_limit: 0,
            steps,
            substeps,
            step: 0,
            increment,
            finished: false,
            draws: Ghost(0),
            targets: Ghost(Seq::empty()),
        })
    }

    /// A fixed-size reinforcement workload over the given initial weights.
    /// Fails exactly when one of them is not below `WEIGHT_LIMIT`.
    pub fn fixed_from(
        pattern: Pattern,
        cfg: FixedConfig,
        increment: Increment,
        initial: Vec<u64>,
        seed: u64,
    ) -> (r: Result<Workload, WorkloadError>)
        requires
            cfg.valid(),
            !pattern.resizes(),
            initial@.len() == cfg.n,
        ensures
            r is Err <==> !within_limit(initial@),
            r matches Err(e) ==> e == WorkloadError::WeightOverflow,
            r matches Ok(w) ==> ({
                &&& w.wf()
                &&& w.pattern == pattern
                &&& w.increment == increment
                &&& w.weights@ == initial@
                &&& w.steps == cfg.steps()
                &&& w.substeps == cfg.substeps()
                &&& w.step == 0
                &&& !w.done()
            }),
    {
        let sampler = WeightedSampler::new(cfg.n, seed);
        proof {
            assert(index_weights(sampler) =~= zeros(cfg.n as nat));
        }
        Workload::fixed_start(pattern, cfg, increment, initial, sampler)
    }

    /// A fixed-size reinforcement workload whose `n` initial weights are
    /// drawn uniformly below `n`. It always succeeds: `n <= WEIGHT_LIMIT`.
    pub fn fixed(pattern: Pattern, cfg: FixedConfig, increment: Increment, seed: u64) -> (r: Result<
        Workload,
        WorkloadError,
    >)
        requires
            cfg.valid(),
            !pattern.resizes(),
        ensures
            r is Ok,
            r matches Ok(w) ==> ({
                &&& w.wf()
                &&& w.pattern == pattern
                &&& w.increment == increment
                &&& w.weights@.len() == cfg.n
                &&& forall|i: int| 0 <= i < cfg.n ==> w.weights@[i] < cfg.n
                &&& w.steps == cfg.steps()
                &&& w.substeps == cfg.substeps()
                &&& w.step == 0
                &&& !w.done()
            }),
    {
        let n = cfg.n;
        let mut sampler = WeightedSampler::new(n, seed);
        let ghost start = index_weights(sampler);
        let mut initial: Vec<u64> = Vec::new();
        let mut i: usize = 0;
        while i < n
            invariant
                i <= n,
                initial@.len() == i,
                index_weights(sampler) == start,
                forall|j: int| 0 <= j < i ==> initial@[j] < n,
            decreases n - i,
        {
            let w = sampler.draw_below(n as u64);
            initial.push(w);
            i += 1;
        }
        proof {
            assert(index_weights(sampler) =~= zeros(n as nat));
        }
        Workload::fixed_start(pattern, cfg, increment, initial, sampler)
    }

    /// Whether the workload has reached its bound: insert-growth once a
    /// growth step would reach `nu`, erase-shrink once a shrink step would
    /// reach `floor(nl / f)` or below, the others after `100 * n` steps.
    pub fn is_done(&self) -> (r: bool)
        requires
            self.wf(),
        ensures
            r == self.done(),
    {
        match self.pattern {
            Pattern::Insert => self.finished || self.weights.len() >= self.capacity,
            Pattern::Erase => self.finished || self.weights.len() <= self.erase_limit,
            _ => self.step >= self.steps,
        }
    }

    /// What a checkpoint reports: the active size of a resizing workload,
    /// the step count of the others.
    pub fn checkpoint(&self) -> (r: usize)
        requires
            self.wf(),
        ensures
            r == self.checkpoint_spec(),
    {
        if self.pattern == Pattern::Insert || self.pattern == Pattern::Erase {
            self.weights.len()
        } else {
            self.step
        }
    }

    /// The mutating phase between two checkpoints.
    ///
    /// Insert-growth grows the active size `s` to `floor(s * f)` with fresh
    /// weights, or finishes where that would reach `nu`. Erase-shrink removes
    /// positions down to `floor(s / f)`. The others apply `substeps`
    /// reinforcements, each to a target chosen by the pattern (uniformly,
    /// by a draw from the index, or position 0), and then advance the step
    /// count.
    pub fn mutate(&mut self) -> (r: Result<(), WorkloadError>)
        requires
            old(self).wf(),
            !old(self).done(),
        ensures
            final(self).wf(),
            final(self).fixed_fields(old(self)),
            ({
                let ow = old(self).weights@;
                let nw = final(self).weights@;
                match old(self).pattern {
                    Pattern::Insert => {
                        &&& r is Ok
                        &&& final(self).step == old(self).step
                        &&& if grown(ow.len(), old(self).factor) >= old(self).capacity {
                            &&& final(self).finished
                            &&& nw == ow
                        } else {
                            &&& !final(self).finished
                            &&& nw.len() == grown(ow.len(), old(self).factor)
                            &&& nw.subrange(0, ow.len() as int) == ow
                        }
                    },
                    Pattern::Erase => {
                        &&& r is Ok
                        &&& final(self).step == old(self).step
                        &&& if shrunk(ow.len(), old(self).factor) <= old(self).erase_limit {
                            &&& final(self).finished
                            &&& nw == ow
                        } else {
                            &&& !final(self).finished
                            &&& nw == ow.subrange(0, shrunk(ow.len(), old(self).factor) as int)
                        }
                    },
                    _ => {
                        &&& r is Ok ==> final(self).step == old(self).step + old(self).substeps
                        &&& r matches Err(e) ==> (e == WorkloadError::WeightOverflow || (
                        old(self).pattern is PolyaUrn && e == WorkloadError::EmptyIndex))
                        &&& r == Err::<(), WorkloadError>(WorkloadError::WeightOverflow)
                            ==> exists|i: int|
                            0 <= i < ow.len() && ow[i] + old(self).substeps * old(
                                self,
                            ).max_increment() >= WEIGHT_LIMIT
                        &&& old(self).pattern is PolyaUrn ==> forall|i: int|
                            0 <= i < ow.len() && ow[i] == 0 ==> nw[i] == 0
                        &&& final(self).reinforced_from(old(self))
                        &&& r is Ok ==> final(self).targets@.len() == old(self).targets@.len()
                            + old(self).substeps
                        &&& r == Err::<(), WorkloadError>(WorkloadError::EmptyIndex)
                            ==> old(self).all_zero()
                        &&& final(self).total <= old(self).total + old(self).substeps * old(
                            self,
                        ).max_increment()
                        &&& nw.len() == ow.len()
                        &&& forall|i: int| 0 <= i < nw.len() ==> nw[i] >= ow[i]
                        &&& final(self).total >= old(self).total
                        &&& old(self).increment is Unit && r is Ok ==> final(self).total
                            == old(self).total + old(self).substeps
                        &&& old(self).pattern is SingleIncrease ==> single_increase_step(
                            ow,
                            old(self).total as nat,
                            nw,
                            final(self).total as nat,
                        )
                    },
                }
            }),
    {
        match self.pattern {
            Pattern::Insert => {
                let target = grow_target(self.weights.len(), self.factor);
                proof {
                    crate::config::lemma_grown_above(self.weights@.len(), self.factor);
                }
                if target >= self.capacity as u128 {
                    self.finished = true;
                } else {
                    self.populate(target as usize);
                }
                Ok(())
            },
            Pattern::Erase => {
                let target = shrink_target(self.weights.len(), self.factor);
                if target <= self.erase_limit {
                    self.finished = true;
                } else {
                    self.truncate(target);
                }
                Ok(())
            },
            _ => {
                let r = self.reinforce_phase();
                if r.is_ok() {
                    self.step = self.step + self.substeps;
                }
                r
            },
        }
    }

    /// The `substeps` reinforcements of one mutating phase.
    fn reinforce_phase(&mut self) -> (r: Result<(), WorkloadError>)
        requires
            old(self).wf(),
            !old(self).pattern.resizes(),
            old(self).step < old(self).steps,
        ensures
            final(self).wf(),
            final(self).fixed_fields(old(self)),
            final(self).step == old(self).step,
            final(self).finished == old(self).finished,
            r matches Err(e) ==> (e == WorkloadError::WeightOverflow || (old(self).pattern is PolyaUrn
                && e == WorkloadError::EmptyIndex)),
            final(self).weights@.len() == old(self).weights@.len(),
            forall|i: int|
                0 <= i < final(self).weights@.len() ==> final(self).weights@[i]
                    >= old(self).weights@[i],
            final(self).total >= old(self).total,
            final(self).total <= old(self).total + old(self).substeps * old(self).max_increment(),
            r == Err::<(), WorkloadError>(WorkloadError::WeightOverflow) ==> exists|i: int|
                0 <= i < old(self).weights@.len() && old(self).weights@[i] + old(self).substeps
                    * old(self).max_increment() >= WEIGHT_LIMIT,
            old(self).pattern is PolyaUrn ==> forall|i: int|
                0 <= i < old(self).weights@.len() && old(self).weights@[i] == 0
                    ==> final(self).weights@[i] == 0,
            r == Err::<(), WorkloadError>(WorkloadError::EmptyIndex) ==> old(self).all_zero(),
            final(self).reinforced_from(old(self)),
            r is Ok ==> final(self).targets@.len() == old(self).targets@.len() + old(self).substeps,
            old(self).increment is Unit && r is Ok ==> final(self).total == old(self).total
                + old(self).substeps,
            old(self).pattern is SingleIncrease ==> ({
                &&& forall|i: int|
                    0 < i < final(self).weights@.len() ==> final(self).weights@[i]
                        == old(self).weights@[i]
                &&& final(self).weights@[0] == old(self).weights@[0] + (final(self).total - old(
                    self,
                ).total)
            }),
    {
        let mut k: usize = 0;
        proof {
            assert(self.targets_since(old(self)) =~= Seq::<int>::empty());
            assert(self.targets@.subrange(0, self.targets@.len() as int) =~= self.targets@);
        }
        while k < self.substeps
            invariant
                self.wf(),
                !self.pattern.resizes(),
                self.fixed_fields(old(self)),
                self.step == old(self).step,
                self.finished == old(self).finished,
                k <= self.substeps,
                self.weights@.len() == old(self).weights@.len(),
                forall|i: int|
                    0 <= i < self.weights@.len() ==> self.weights@[i] >= old(self).weights@[i],
                self.total >= old(self).total,
                self.total <= old(self).total + k * self.max_increment(),
                forall|i: int|
                    0 <= i < self.weights@.len() ==> self.weights@[i] <= old(self).weights@[i]
                        + (self.total - old(self).total),
                self.pattern is PolyaUrn ==> forall|i: int|
                    0 <= i < self.weights@.len() && old(self).weights@[i] == 0
                        ==> self.weights@[i] == 0,
                self.reinforced_from(old(self)),
                self.targets@.len() == old(self).targets@.len() + k,
                self.increment is Unit ==> self.total == old(self).total + k,
                self.pattern is SingleIncrease ==> ({
                    &&& forall|i: int|
                        0 < i < self.weights@.len() ==> self.weights@[i] == old(self).weights@[i]
                    &&& self.weights@[0] == old(self).weights@[0] + (self.total - old(self).total)
                }),
            decreases self.substeps - k,
        {
            proof {
                let m = self.max_increment();
                assert(k * m <= (self.substeps as nat) * m) by (nonlinear_arith)
                    requires
                        k <= self.substeps,
                ;
            }
            let inc: u64 = match self.increment {
                Increment::Unit => 1,
                Increment::Drawn => self.sampler.draw_below(self.draw_bound),
            };
            let u: usize = match self.pattern {
                Pattern::PolyaUrn => match self.draw() {
                    Some(j) => j,
                    None => {
                        proof {
                            assert forall|j: int|
                                0 <= j < old(self).weights@.len() implies old(
                                    self,
                                ).weights@[j] == 0 by {
                                assert(self.weights@[j] >= old(self).weights@[j]);
                            }
                        }
                        return Err(WorkloadError::EmptyIndex);
                    },
                },
                Pattern::SingleIncrease => 0,
                _ => self.sampler.draw_below(self.capacity as u64) as usize,
            };
            let ghost t = self.total as nat;
            let ghost m = self.max_increment();
            let ghost ks = self.substeps as nat;
            assert(inc <= m);
            proof {
                assert(k * m + m <= ks * m) by (nonlinear_arith)
                    requires
                        k < ks,
                ;
                assert((k + 1) * m == k * m + m) by (nonlinear_arith);
            }
            let ghost pre_t = self.targets@;
            let ghost pre_w = self.weights@;
            let ghost ph0 = self.targets_since(old(self));
            match self.reinforce(u, inc) {
                Ok(()) => {},
                Err(e) => {
                    return Err(e);
                },
            }
            proof {
                let b = old(self).targets@.len() as int;
                let ph = self.targets_since(old(self));
                assert(ph =~= ph0.push(u as int));
                assert(ph.drop_last() =~= ph0);
                assert(self.targets@.subrange(0, b) =~= pre_t.subrange(0, b));
                assert forall|i: int| #![trigger count_in(ph, i)]
                    count_in(ph, i) == count_in(ph0, i) + if u as int == i {
                        1nat
                    } else {
                        0nat
                    } by {}
                assert forall|k: int| 0 <= k < ph.len() implies 0 <= #[trigger] ph[k] < old(
                    self,
                ).weights@.len() by {
                    if k < ph0.len() {
                        assert(ph[k] == ph0[k]);
                    }
                }
                assert forall|i: int|
                    0 <= i < old(self).weights@.len() && count_in(ph, i) == 0 implies #[trigger] self.weights@[i]
                    == old(self).weights@[i] by {
                    assert(pre_w[i] == old(self).weights@[i]);
                }
                if old(self).increment is Unit {
                    assert forall|i: int| 0 <= i < old(self).weights@.len() implies #[trigger] self.weights@[i]
                        == old(self).weights@[i] + count_in(ph, i) by {
                        assert(pre_w[i] == old(self).weights@[i] + count_in(ph0, i));
                    }
                }
                if old(self).pattern is SingleIncrease {
                    assert forall|k: int| 0 <= k < ph.len() implies #[trigger] ph[k] == 0 by {
                        if k < ph0.len() {
                            assert(ph[k] == ph0[k]);
                        }
                    }
                }
            }
            k += 1;
        }
        Ok(())
    }
}

} // verus!
