//! Run parameters of the workloads, their validation, and the size schedules
//! that the resizing workloads follow.
use vstd::prelude::*;

use crate::sampler::WEIGHT_LIMIT;

verus! {

/// A growth factor `num / den`, greater than one when valid.
#[derive(Clone, Copy, Debug, PartialEq, Eq, Structural)]
pub struct Factor {
    pub num: u64,
    pub den: u64,
}

impl Factor {
    pub open spec fn valid(self) -> bool {
        self.den >= 1 && self.num > self.den
    }
}

/// `floor(n * f)`.
pub open spec fn grown(n: nat, f: Factor) -> nat {
    n * (f.num as nat) / (f.den as nat)
}

/// `floor(n / f)`.
pub open spec fn shrunk(n: nat, f: Factor) -> nat {
    n * (f.den as nat) / (f.num as nat)
}

/// The sizes at which the insert-growth workload measures, starting at `n`.
pub open spec fn growth_schedule(n: nat, nu: nat, f: Factor) -> Seq<nat>
    decreases nu - n,
{
    if n >= nu {
        seq![]
    } else if grown(n, f) >= nu || grown(n, f) <= n {
        seq![n]
    } else {
        seq![n] + growth_schedule(grown(n, f), nu, f)
    }
}

/// The sizes at which the erase-shrink workload measures, starting at `n`
/// and stopping at the first size whose shrink step would reach `lim` or
/// below.
pub open spec fn shrink_schedule(n: nat, lim: nat, f: Factor) -> Seq<nat>
    decreases n,
{
    if n <= lim || shrunk(n, f) >= n {
        seq![]
    } else if shrunk(n, f) <= lim {
        seq![n]
    } else {
        seq![n] + shrink_schedule(shrunk(n, f), lim, f)
    }
}

/// The size at which the erase-shrink workload stops.
pub open spec fn shrink_final(n: nat, lim: nat, f: Factor) -> nat
    decreases n,
{
    if n <= lim || shrunk(n, f) >= n || shrunk(n, f) <= lim {
        n
    } else {
        shrink_final(shrunk(n, f), lim, f)
    }
}

/// Why a set of run parameters is refused.
#[derive(Clone, Copy, Debug, PartialEq, Eq, Structural)]
pub enum ConfigError {
    /// The starting population is empty.
    EmptyPopulation,
    /// The lower population bound is not below the upper one.
    BoundsNotIncreasing,
    /// The growth factor is not greater than one.
    FactorNotAboveOne,
    /// One growth step from the lower bound would not add a position.
    GrowthStalls,
    /// Fresh weights could reach `WEIGHT_LIMIT`.
    WeightBoundTooLarge,
    /// The positions could not all hold weights up to `WEIGHT_LIMIT`: their
    /// total could exceed `u64`, or (fixed size) initial weights drawn below
    /// the population size could reach the limit.
    PopulationTooLarge,
    /// No checkpoint was asked for.
    NoCheckpoints,
    /// More checkpoints than mutation steps.
    TooManyCheckpoints,
}

/// Parameters of the insert-growth and erase-shrink workloads.
#[derive(Clone, Copy, Debug, PartialEq, Eq, Structural)]
pub struct ResizeConfig {
    pub nl: usize,
    pub nu: usize,
    pub factor: Factor,
}

/// The error that `ResizeConfig::new` reports, if any.
pub open spec fn resize_error(nl: nat, nu: nat, f: Factor) -> Option<ConfigError> {
    if nl == 0 {
        Some(ConfigError::EmptyPopulation)
    } else if nl >= nu {
        Some(ConfigError::BoundsNotIncreasing)
    } else if !f.valid() {
        Some(ConfigError::FactorNotAboveOne)
    } else if grown(nl, f) <= nl {
        Some(ConfigError::GrowthStalls)
    } else if nl > WEIGHT_LIMIT {
        Some(ConfigError::WeightBoundTooLarge)
    } else if nu * WEIGHT_LIMIT > u64::MAX {
        Some(ConfigError::PopulationTooLarge)
    } else {
        None
    }
}

impl ResizeConfig {
    pub open spec fn valid(self) -> bool {
        resize_error(self.nl as nat, self.nu as nat, self.factor) is None
    }

    /// Erase-shrink stops before a shrink step reaches this size or below:
    /// `floor(nl / f)`.
    pub open spec fn erase_limit(self) -> nat {
        shrunk(self.nl as nat, self.factor)
    }

    /// Checks the parameters: `nl >= 1`, `nl < nu`, `num / den > 1`, a first
    /// growth step that adds a position, `nl <= WEIGHT_LIMIT`, and
    /// `nu * WEIGHT_LIMIT` within `u64`.
    pub fn new(nl: usize, nu: usize, num: u64, den: u64) -> (r: Result<ResizeConfig, ConfigError>)
        ensures
            match resize_error(nl as nat, nu as nat, Factor { num, den }) {
                Some(e) => r == Err::<ResizeConfig, ConfigError>(e),
                None => r == Ok::<ResizeConfig, ConfigError>(
                    (ResizeConfig { nl, nu, factor: Factor { num, den } }),
                ),
            },
    {
        let factor = Factor { num, den };
        if nl == 0 {
            return Err(ConfigError::EmptyPopulation);
        }
        if nl >= nu {
            return Err(ConfigError::BoundsNotIncreasing);
        }
        if den == 0 || num <= den {
            return Err(ConfigError::FactorNotAboveOne);
        }
        if grow_target(nl, factor) <= nl as u128 {
            return Err(ConfigError::GrowthStalls);
        }
        if nl as u64 > WEIGHT_LIMIT {
            return Err(ConfigError::WeightBoundTooLarge);
        }
        if nu as u64 > u64::MAX / WEIGHT_LIMIT {
            return Err(ConfigError::PopulationTooLarge);
        }
        Ok(ResizeConfig { nl, nu, factor })
    }
}

/// `floor(n * f)`, computed without overflow.
pub fn grow_target(n: usize, f: Factor) -> (r: u128)
    requires
        f.den >= 1,
    ensures
        r == grown(n as nat, f),
{
    assert((n as nat) * (f.num as nat) <= u128::MAX) by (nonlinear_arith)
        requires
            n <= u64::MAX,
            f.num <= u64::MAX,
    ;
    (n as u128) * (f.num as u128) / (f.den as u128)
}

/// `floor(n / f)`, which is at most `n` for a valid factor.
pub fn shrink_target(n: usize, f: Factor) -> (r: usize)
    requires
        f.valid(),
    ensures
        r == shrunk(n as nat, f),
        r <= n,
        n > 0 ==> r < n,
{
    assert((n as nat) * (f.den as nat) <= u128::MAX) by (nonlinear_arith)
        requires
            n <= u64::MAX,
            f.den <= u64::MAX,
    ;
    proof {
        lemma_shrunk_below(n as nat, f);
    }
    ((n as u128) * (f.den as u128) / (f.num as u128)) as usize
}

/// One shrink step never grows, and strictly shrinks a positive size.
pub proof fn lemma_shrunk_below(n: nat, f: Factor)
    requires
        f.valid(),
    ensures
        shrunk(n, f) <= n,
        n > 0 ==> shrunk(n, f) < n,
{
    let a = n * (f.den as nat);
    assert(a <= n * (f.num as nat)) by (nonlinear_arith)
        requires
            f.den < f.num,
            a == n * (f.den as nat),
    ;
    assert(n > 0 ==> a < n * (f.num as nat)) by (nonlinear_arith)
        requires
            f.den < f.num,
            a == n * (f.den as nat),
    ;
    assert(a / (f.num as nat) * (f.num as nat) <= a) by (nonlinear_arith)
        requires
            f.num > 0,
    ;
    assert(shrunk(n, f) <= n) by (nonlinear_arith)
        requires
            shrunk(n, f) == a / (f.num as nat),
            a / (f.num as nat) * (f.num as nat) <= a,
            a <= n * (f.num as nat),
            f.num > 0,
    ;
    assert(n > 0 ==> shrunk(n, f) < n) by (nonlinear_arith)
        requires
            shrunk(n, f) == a / (f.num as nat),
            a / (f.num as nat) * (f.num as nat) <= a,
            n > 0 ==> a < n * (f.num as nat),
            f.num > 0,
    ;
}

/// One growth step never shrinks.
pub proof fn lemma_grown_above(n: nat, f: Factor)
    requires
        f.valid(),
    ensures
        grown(n, f) >= n,
{
    let a = n * (f.num as nat);
    assert(a >= n * (f.den as nat)) by (nonlinear_arith)
        requires
            f.den < f.num,
            a == n * (f.num as nat),
    ;
    assert(grown(n, f) >= n) by (nonlinear_arith)
        requires
            grown(n, f) == a / (f.den as nat),
            a >= n * (f.den as nat),
            f.den > 0,
    ;
}

/// With the lower bound making progress, every larger size does too.
pub proof fn lemma_growth_progress(nl: nat, n: nat, f: Factor)
    requires
        f.valid(),
        grown(nl, f) > nl,
        nl <= n,
    ensures
        grown(n, f) > n,
{
    let num = f.num as nat;
    let den = f.den as nat;
    assert(nl * num >= (nl + 1) * den) by (nonlinear_arith)
        requires
            (nl * num) / den >= nl + 1,
            den > 0,
    ;
    assert(n * num >= (n + 1) * den) by (nonlinear_arith)
        requires
            nl * num >= (nl + 1) * den,
            nl <= n,
            den < num,
    ;
    assert((n * num) / den >= n + 1) by (nonlinear_arith)
        requires
            n * num >= (n + 1) * den,
            den > 0,
    ;
}

/// The sizes of `s` as natural numbers.
pub open spec fn as_nats(s: Seq<usize>) -> Seq<nat> {
    s.map_values(|x: usize| x as nat)
}

proof fn lemma_as_nats_push(s: Seq<usize>, x: usize)
    ensures
        as_nats(s.push(x)) == as_nats(s).push(x as nat),
{
    assert(as_nats(s.push(x)) =~= as_nats(s).push(x as nat));
}

impl ResizeConfig {
    /// The sizes at which insert-growth measures.
    pub fn insert_checkpoints(&self) -> (r: Vec<usize>)
        requires
            self.valid(),
        ensures
            as_nats(r@) == growth_schedule(self.nl as nat, self.nu as nat, self.factor),
    {
        let ghost whole = growth_schedule(self.nl as nat, self.nu as nat, self.factor);
        let mut out: Vec<usize> = Vec::new();
        out.push(self.nl);
        let mut n = self.nl;
        proof {
            lemma_as_nats_push(Seq::empty(), n);
            assert(as_nats(Seq::<usize>::empty()) =~= Seq::<nat>::empty());
            assert(whole =~= seq![n as nat] + growth_schedule(n as nat, self.nu as nat, self.factor).skip(1));
        }
        let mut t = grow_target(n, self.factor);
        while t < self.nu as u128
            invariant
                self.valid(),
                self.nl <= n < self.nu,
                t == grown(n as nat, self.factor),
                whole == growth_schedule(self.nl as nat, self.nu as nat, self.factor),
                as_nats(out@) + growth_schedule(n as nat, self.nu as nat, self.factor).skip(1) == whole,
            decreases self.nu - n,
        {
            proof {
                lemma_growth_progress(self.nl as nat, n as nat, self.factor);
                let rest = growth_schedule(t as nat, self.nu as nat, self.factor);
                assert(growth_schedule(n as nat, self.nu as nat, self.factor).skip(1) =~= rest);
                assert(rest =~= seq![t as nat] + rest.skip(1));
                lemma_as_nats_push(out@, t as usize);
                assert(as_nats(out@).push(t as nat) + rest.skip(1) =~= as_nats(out@) + rest);
            }
            n = t as usize;
            out.push(n);
            t = grow_target(n, self.factor);
        }
        proof {
            lemma_growth_progress(self.nl as nat, n as nat, self.factor);
            assert(growth_schedule(n as nat, self.nu as nat, self.factor).skip(1) =~= Seq::<nat>::empty());
            assert(as_nats(out@) + Seq::<nat>::empty() =~= as_nats(out@));
        }
        out
    }

    /// The sizes at which erase-shrink measures.
    pub fn erase_checkpoints(&self) -> (r: Vec<usize>)
        requires
            self.valid(),
        ensures
            as_nats(r@) == shrink_schedule(self.nu as nat, self.erase_limit(), self.factor),
    {
        let ghost whole = shrink_schedule(self.nu as nat, self.erase_limit(), self.factor);
        let lim = shrink_target(self.nl, self.factor);
        let mut out: Vec<usize> = Vec::new();
        let mut n = self.nu;
        proof {
            lemma_shrunk_below(self.nl as nat, self.factor);
        }
        let mut m = shrink_target(n, self.factor);
        proof {
            assert(as_nats(out@) =~= Seq::<nat>::empty());
            assert(Seq::<nat>::empty() + whole =~= whole);
        }
        while m > lim
            invariant
                self.valid(),
                lim == self.erase_limit(),
                n > lim,
                m == shrunk(n as nat, self.factor),
                whole == shrink_schedule(self.nu as nat, self.erase_limit(), self.factor),
                as_nats(out@) + shrink_schedule(n as nat, lim as nat, self.factor) == whole,
            decreases n,
        {
            proof {
                lemma_shrunk_below(n as nat, self.factor);
                let rest = shrink_schedule(m as nat, lim as nat, self.factor);
                assert(shrink_schedule(n as nat, lim as nat, self.factor) =~= seq![n as nat] + rest);
                lemma_as_nats_push(out@, n);
                assert(as_nats(out@).push(n as nat) + rest =~= as_nats(out@) + (seq![n as nat] + rest));
            }
            out.push(n);
            n = m;
            m = shrink_target(n, self.factor);
        }
        proof {
            lemma_shrunk_below(n as nat, self.factor);
            assert(shrink_schedule(n as nat, lim as nat, self.factor) =~= seq![n as nat]);
            lemma_as_nats_push(out@, n);
        }
        out.push(n);
        out
    }
}

/// Parameters of the three fixed-size reinforcement workloads: `n` positions
/// and `g` checkpoints over `100 * n` mutation steps.
#[derive(Clone, Copy, Debug, PartialEq, Eq, Structural)]
pub struct FixedConfig {
    pub n: usize,
    pub g: usize,
}

/// The error that `FixedConfig::new` reports, if any.
pub open spec fn fixed_error(n: nat, g: nat) -> Option<ConfigError> {
    if n == 0 {
        Some(ConfigError::EmptyPopulation)
    } else if n > WEIGHT_LIMIT {
        Some(ConfigError::PopulationTooLarge)
    } else if g == 0 {
        Some(ConfigError::NoCheckpoints)
    } else if g > 100 * n {
        Some(ConfigError::TooManyCheckpoints)
    } else {
        None
    }
}

impl FixedConfig {
    pub open spec fn valid(self) -> bool {
        fixed_error(self.n as nat, self.g as nat) is None
    }

    /// The whole mutation budget, `100 * n`.
    pub open spec fn steps(self) -> nat {
        100 * (self.n as nat)
    }

    /// The mutations between two checkpoints, `steps / g`.
    pub open spec fn substeps(self) -> nat {
        self.steps() / (self.g as nat)
    }

    /// Checks the parameters: `1 <= n <= WEIGHT_LIMIT` and
    /// `1 <= g <= 100 * n`.
    pub fn new(n: usize, g: usize) -> (r: Result<FixedConfig, ConfigError>)
        ensures
            match fixed_error(n as nat, g as nat) {
                Some(e) => r == Err::<FixedConfig, ConfigError>(e),
                None => r == Ok::<FixedConfig, ConfigError>((FixedConfig { n, g })),
            },
    {
        if n == 0 {
            return Err(ConfigError::EmptyPopulation);
        }
        if n as u64 > WEIGHT_LIMIT {
            return Err(ConfigError::PopulationTooLarge);
        }
        if g == 0 {
            return Err(ConfigError::NoCheckpoints);
        }
        if g > 100 * n {
            return Err(ConfigError::TooManyCheckpoints);
        }
        Ok(FixedConfig { n, g })
    }
}

} // verus!
