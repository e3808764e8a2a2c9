//! Laws of the index model and of the workload schedules.
use vstd::prelude::*;

use crate::config::{
    grown, growth_schedule, lemma_growth_progress, lemma_shrunk_below, shrink_final, shrink_schedule,
    shrunk, Factor, ResizeConfig,
};
use crate::sampler::may_return;
use crate::workload::single_increase_step;

verus! {

/// The weights after writing each `(position, weight)` pair of `ups` in turn.
pub open spec fn apply_writes(w: Seq<u64>, ups: Seq<(int, u64)>) -> Seq<u64>
    decreases ups.len(),
{
    if ups.len() == 0 {
        w
    } else {
        let last = ups.last();
        let before = apply_writes(w, ups.drop_last());
        if 0 <= last.0 < before.len() {
            before.update(last.0, last.1)
        } else {
            before
        }
    }
}

/// A position set to weight 0 is never sampled; when some other position
/// keeps a positive weight, sampling still succeeds.
pub proof fn law_zero_weight_excluded(w: Seq<u64>, i: int)
    requires
        0 <= i < w.len(),
    ensures
        !may_return(w.update(i, 0u64), i),
        (exists|j: int| j != i && may_return(w, j)) ==> (exists|j: int|
            may_return(w.update(i, 0u64), j)),
{
    if exists|j: int| j != i && may_return(w, j) {
        let j = choose|j: int| j != i && may_return(w, j);
        assert(may_return(w.update(i, 0u64), j));
    }
}

/// A removed position stays unsampled while only other positions are
/// written afterwards.
pub proof fn law_removal_excluded(w: Seq<u64>, i: int, ups: Seq<(int, u64)>)
    requires
        0 <= i < w.len(),
        forall|k: int| 0 <= k < ups.len() ==> ups[k].0 != i,
    ensures
        !may_return(apply_writes(w.update(i, 0u64), ups), i),
    decreases ups.len(),
{
    if ups.len() > 0 {
        law_removal_excluded(w, i, ups.drop_last());
    }
}

proof fn lemma_growth_schedule(nl: nat, n: nat, nu: nat, f: Factor)
    requires
        f.valid(),
        grown(nl, f) > nl,
        nl <= n < nu,
    ensures
        ({
            let s = growth_schedule(n, nu, f);
            &&& s.len() >= 1
            &&& s[0] == n
            &&& forall|k: int| 0 <= k < s.len() ==> n <= #[trigger] s[k] < nu
            &&& forall|k: int| 0 <= k < s.len() - 1 ==> s[k + 1] == grown(s[k], f) && s[k] < s[k + 1]
            &&& grown(s.last(), f) >= nu
        }),
    decreases nu - n,
{
    lemma_growth_progress(nl, n, f);
    if grown(n, f) < nu {
        let m = grown(n, f);
        lemma_growth_schedule(nl, m, nu, f);
        let t = growth_schedule(m, nu, f);
        let s = growth_schedule(n, nu, f);
        assert(s =~= seq![n] + t);
        assert forall|k: int| 0 <= k < s.len() - 1 implies s[k + 1] == grown(s[k], f) && s[k]
            < s[k + 1] by {
            if k > 0 {
                assert(s[k] == t[k - 1]);
            }
        }
        assert forall|k: int| 0 <= k < s.len() implies n <= #[trigger] s[k] < nu by {
            if k > 0 {
                assert(s[k] == t[k - 1]);
            }
        }
    }
}

/// Insert-growth from `nl` by factor `f` measures at a strictly increasing
/// run of sizes, each one growth step from the last, all in `nl..nu`; it
/// stops at the first size whose growth step would reach `nu`.
pub proof fn law_growth_terminates(cfg: ResizeConfig)
    requires
        cfg.valid(),
    ensures
        ({
            let s = growth_schedule(cfg.nl as nat, cfg.nu as nat, cfg.factor);
            &&& s.len() >= 1
            &&& s[0] == cfg.nl
            &&& forall|k: int| 0 <= k < s.len() ==> cfg.nl <= #[trigger] s[k] < cfg.nu
            &&& forall|k: int|
                0 <= k < s.len() - 1 ==> s[k + 1] == grown(s[k], cfg.factor) && s[k] < s[k + 1]
            &&& grown(s.last(), cfg.factor) >= cfg.nu
        }),
{
    lemma_growth_schedule(cfg.nl as nat, cfg.nl as nat, cfg.nu as nat, cfg.factor);
}

proof fn lemma_shrink_schedule(n: nat, lim: nat, f: Factor)
    requires
        f.valid(),
        n > lim,
    ensures
        ({
            let s = shrink_schedule(n, lim, f);
            let fin = shrink_final(n, lim, f);
            &&& s.len() >= 1
            &&& s[0] == n
            &&& s.last() == fin
            &&& fin > lim
            &&& shrunk(fin, f) <= lim
            &&& forall|k: int| 0 <= k < s.len() ==> #[trigger] s[k] > lim
            &&& forall|k: int| 0 <= k < s.len() - 1 ==> s[k + 1] == shrunk(#[trigger] s[k], f)
        }),
    decreases n,
{
    lemma_shrunk_below(n, f);
    let m = shrunk(n, f);
    if m > lim {
        lemma_shrink_schedule(m, lim, f);
        let s = shrink_schedule(n, lim, f);
        let t = shrink_schedule(m, lim, f);
        assert(s =~= seq![n] + t);
        assert forall|k: int| 0 <= k < s.len() implies #[trigger] s[k] > lim by {
            if k > 0 {
                assert(s[k] == t[k - 1]);
            }
        }
        assert forall|k: int| 0 <= k < s.len() - 1 implies s[k + 1] == shrunk(#[trigger] s[k], f) by {
            if k > 0 {
                assert(s[k] == t[k - 1]);
            }
        }
    } else {
        assert(shrink_schedule(n, lim, f) =~= seq![n]);
    }
}

/// Erase-shrink from `nu` by factor `f` measures at a strictly decreasing
/// run of sizes, each one shrink step from the last, all above
/// `floor(nl / f)`; it stops at the first size whose shrink step would reach
/// `floor(nl / f)` or below, so the final size `s` satisfies `nl / f <= s`.
pub proof fn law_shrink_terminates(cfg: ResizeConfig)
    requires
        cfg.valid(),
    ensures
        ({
            let lim = cfg.erase_limit();
            let s = shrink_schedule(cfg.nu as nat, lim, cfg.factor);
            let fin = shrink_final(cfg.nu as nat, lim, cfg.factor);
            &&& s.len() >= 1
            &&& s[0] == cfg.nu
            &&& s.last() == fin
            &&& fin > lim
            &&& fin * (cfg.factor.num as nat) >= cfg.nl * (cfg.factor.den as nat)
            &&& shrunk(fin, cfg.factor) <= lim
            &&& forall|k: int| 0 <= k < s.len() ==> #[trigger] s[k] > lim
            &&& forall|k: int| 0 <= k < s.len() - 1 ==> s[k + 1] == shrunk(#[trigger] s[k], cfg.factor)
        }),
{
    lemma_shrunk_below(cfg.nl as nat, cfg.factor);
    let lim = cfg.erase_limit();
    lemma_shrink_schedule(cfg.nu as nat, lim, cfg.factor);
    let fin = shrink_final(cfg.nu as nat, lim, cfg.factor);
    let num = cfg.factor.num as nat;
    let a = (cfg.nl as nat) * (cfg.factor.den as nat);
    assert(fin * num >= a) by (nonlinear_arith)
        requires
            fin >= lim + 1,
            lim == a / num,
            num > 0,
    ;
}

/// A run of single-increase phases only ever raises position 0, by the sum
/// of all increments, and leaves every other position as it started; so the
/// weight of 0 never falls relative to any other position, and rises
/// strictly at each phase whose increments are not all 0.
pub proof fn law_single_increase(ws: Seq<Seq<u64>>, ts: Seq<nat>)
    requires
        ws.len() >= 1,
        ts.len() == ws.len(),
        forall|k: int|
            0 <= k < ws.len() - 1 ==> #[trigger] single_increase_step(ws[k], ts[k], ws[k + 1], ts[k + 1]),
    ensures
        forall|k: int, m: int| 0 <= k <= m < ws.len() ==> (#[trigger] ws[k])[0] <= (#[trigger] ws[m])[0],
        forall|m: int|
            0 < m < ws.len() ==> (#[trigger] ws[m])[0] == ws[0][0] + (ts[m] - ts[0]) && ws[m].len()
                == ws[0].len(),
        forall|m: int, i: int| 0 < m < ws.len() && 0 < i < ws[0].len() ==> #[trigger] ws[m][i] == ws[0][i],
        forall|k: int|
            0 <= k < ws.len() - 1 && ts[k] < ts[k + 1] ==> (#[trigger] ws[k])[0] < ws[k + 1][0],
    decreases ws.len(),
{
    assert forall|k: int| 0 <= k < ws.len() - 1 && ts[k] < ts[k + 1] implies (#[trigger] ws[k])[0]
        < ws[k + 1][0] by {
        assert(single_increase_step(ws[k], ts[k], ws[k + 1], ts[k + 1]));
    }
    if ws.len() > 1 {
        let p = ws.drop_last();
        let q = ts.drop_last();
        assert forall|k: int| 0 <= k < p.len() - 1 implies #[trigger] single_increase_step(
            p[k],
            q[k],
            p[k + 1],
            q[k + 1],
        ) by {
            assert(single_increase_step(ws[k], ts[k], ws[k + 1], ts[k + 1]));
        }
        law_single_increase(p, q);
        let l = ws.len() - 1;
        let j = l - 1;
        assert(single_increase_step(ws[j], ts[j], ws[j + 1], ts[j + 1]));
        assert forall|k: int, m: int| 0 <= k <= m < ws.len() implies (#[trigger] ws[k])[0] <= (#[trigger] ws[m])[0] by {
            if m < l {
                assert(p[k] == ws[k] && p[m] == ws[m]);
            } else if k < l {
                assert(p[k] == ws[k] && p[l - 1] == ws[l - 1]);
            }
        }
        assert forall|m: int| 0 < m < ws.len() implies (#[trigger] ws[m])[0] == ws[0][0] + (ts[m] - ts[0])
            && ws[m].len() == ws[0].len() by {
            if m < l {
                assert(p[m] == ws[m] && q[m] == ts[m]);
            } else if l > 1 {
                assert(p[l - 1] == ws[l - 1] && q[l - 1] == ts[l - 1]);
            }
        }
        assert forall|m: int, i: int| 0 < m < ws.len() && 0 < i < ws[0].len() implies #[trigger] ws[m][i]
            == ws[0][i] by {
            if m < l {
                assert(p[m] == ws[m]);
            } else if l > 1 {
                assert(p[l - 1] == ws[l - 1]);
            }
        }
    }
}

} // verus!
