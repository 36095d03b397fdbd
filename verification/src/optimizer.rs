//! The layout optimizer: a generational search over horn and rod lengths,
//! scored by the workspace evaluator.
//!
//! The optimizer decides; it does not compute with real numbers. The random
//! numbers in `[0, 1)` and the perturbed lengths come from a [`Variation`],
//! which draws them from the optimizer's own generator in the order in which
//! the optimizer asks.
//!
//! A generation is one call of [`Optimizer::step`]: it scores the population
//! on the platform and hands the scores to [`Optimizer::breed`], which selects
//! the survivors and fills the population up with their children.

use vstd::prelude::*;
use crate::scalar::{Scalar, ONE_BITS};
use crate::checks::WorkspaceOptions;
use crate::grid::{Grid, GridError};
use crate::workspace::{compute_workspace, Platform, WorkspaceResult};

verus! {

/// The generator of `fastrand`; nothing of its state is visible here.
#[verifier::external_type_specification]
#[verifier::external_body]
pub struct ExRng(fastrand::Rng);

/// `fastrand::Rng::new`: a generator seeded from the thread's own. Nothing is
/// claimed of it.
#[verifier::external_body]
fn fresh_rng() -> fastrand::Rng {
    fastrand::Rng::new()
}

/// `fastrand::Rng::usize` on the range `0..n`: some number below `n`. The
/// method panics on an empty range, which `n > 0` keeps out.
#[verifier::external_body]
fn draw_below(rng: &mut fastrand::Rng, n: usize) -> (i: usize)
    requires
        n > 0,
    ensures
        i < n,
{
    rng.usize(0..n)
}

/// The geometry that the search tunes.
#[derive(Clone, Copy, Debug, PartialEq, Eq, Structural)]
pub struct Layout {
    pub horn_length: Scalar,
    pub rod_length: Scalar,
}

/// A platform that can be reconfigured by applying a layout.
///
/// Such a platform always has a layout to tell: the one applied last. To
/// apply one does not move the plate.
pub trait ConfigurablePlatform: Platform {
    fn apply_layout(&mut self, layout: &Layout)
        ensures
            final(self).layout_model() == Some(*layout),
            final(self).position_model() == old(self).position_model(),
            final(self).orientation_model() == old(self).orientation_model(),
    ;

    fn layout(&self) -> (l: Layout)
        ensures
            self.layout_model() == Some(l),
    ;
}

/// Why the optimizer refused a call.
#[derive(Clone, Copy, Debug, PartialEq, Eq, Structural)]
pub enum OptimizerError {
    /// A generation needs at least two individuals.
    PopulationTooSmall,
    /// The population does not have the size the optimizer was made for.
    WrongPopulation,
    /// The grid has more poses than can be counted.
    GridTooLarge,
    /// There is not one score for each individual.
    ScoreCount,
}

/// Individual `a` comes before individual `b`: it scores higher, or the same
/// and stood before it.
pub open spec fn outranks(scores: Seq<usize>, a: int, b: int) -> bool {
    scores[a] > scores[b] || (scores[a] == scores[b] && a < b)
}

/// `order` lists the individuals from best to worst, with ties in their first order.
pub open spec fn is_ranking(order: Seq<usize>, scores: Seq<usize>) -> bool {
    &&& order.len() == scores.len()
    &&& forall|i: int| 0 <= i < order.len() ==> (#[trigger] order[i]) < scores.len()
    &&& forall|i: int, j: int|
        0 <= i < j < order.len() ==> outranks(scores, #[trigger] order[i] as int, #[trigger] order[j] as int)
    &&& forall|x: int| 0 <= x < scores.len() ==> #[trigger] occurs(order, x)
}

/// Individual `x` has a place in `order`.
pub open spec fn occurs(order: Seq<usize>, x: int) -> bool {
    exists|a: int| 0 <= a < order.len() && #[trigger] order[a] == x
}

/// The first `count` individuals of `population` in the order `order`.
pub open spec fn selected(population: Seq<Layout>, order: Seq<usize>, count: int) -> Seq<Layout> {
    Seq::new(count as nat, |r: int| population[order[r] as int])
}

/// `after` is the better half of `before` under some scores: the first half of
/// a ranking, rounded down.
pub open spec fn is_selection(before: Seq<Layout>, after: Seq<Layout>) -> bool {
    exists|scores: Seq<usize>, order: Seq<usize>| #[trigger]
        is_ranking(order, scores) && scores.len() == before.len() && after == selected(
            before,
            order,
            (before.len() / 2) as int,
        )
}

proof fn lemma_rankings_agree_to(a: Seq<usize>, b: Seq<usize>, scores: Seq<usize>, k: int)
    requires
        is_ranking(a, scores),
        is_ranking(b, scores),
        0 <= k <= scores.len(),
    ensures
        forall|j: int| 0 <= j < k ==> a[j] == b[j],
    decreases k,
{
    if k > 0 {
        lemma_rankings_agree_to(a, b, scores, k - 1);
        let x = a[k - 1] as int;
        let y = b[k - 1] as int;
        assert(a[k - 1] < scores.len());
        assert(b[k - 1] < scores.len());
        assert(occurs(a, y));
        assert(occurs(b, x));
        let m = choose|m: int| 0 <= m < a.len() && #[trigger] a[m] == y;
        let n = choose|n: int| 0 <= n < b.len() && #[trigger] b[n] == x;
        if m < k - 1 {
            assert(outranks(scores, b[m] as int, b[k - 1] as int));
        }
        if n < k - 1 {
            assert(outranks(scores, a[n] as int, a[k - 1] as int));
        }
        if m > k - 1 {
            assert(outranks(scores, a[k - 1] as int, a[m] as int));
        }
        if n > k - 1 {
            assert(outranks(scores, b[k - 1] as int, b[n] as int));
        }
    }
}

/// The first of a ranking scores at least as high as every individual.
pub proof fn lemma_first_scores_highest(order: Seq<usize>, scores: Seq<usize>, x: int)
    requires
        is_ranking(order, scores),
        0 <= x < scores.len(),
    ensures
        0 <= order[0] < scores.len(),
        scores[order[0] as int] >= scores[x],
{
    assert(occurs(order, x));
    let a = choose|a: int| 0 <= a < order.len() && #[trigger] order[a] == x;
    if a > 0 {
        assert(outranks(scores, order[0] as int, order[a] as int));
    }
}

/// Scores have one ranking: the order of the survivors is decided by the
/// scores alone.
pub proof fn lemma_ranking_is_unique(a: Seq<usize>, b: Seq<usize>, scores: Seq<usize>)
    requires
        is_ranking(a, scores),
        is_ranking(b, scores),
    ensures
        a == b,
{
    lemma_rankings_agree_to(a, b, scores, scores.len() as int);
    assert(a =~= b);
}

/// Ranks the individuals by score, highest first; equal scores keep their order.
pub fn rank(scores: &Vec<usize>) -> (order: Vec<usize>)
    ensures
        is_ranking(order@, scores@),
{
    let mut order: Vec<usize> = Vec::new();
    let mut i: usize = 0;
    while i < scores.len()
        invariant
            i <= scores.len(),
            order@.len() == i,
            forall|a: int| 0 <= a < i ==> (#[trigger] order@[a]) < i,
            forall|a: int, b: int|
                0 <= a < b < i ==> outranks(scores@, #[trigger] order@[a] as int, #[trigger] order@[b] as int),
            forall|x: int| 0 <= x < i ==> #[trigger] occurs(order@, x),
        decreases scores.len() - i,
    {
        let ghost before = order@;
        order.push(i);
        proof {
            assert forall|x: int| 0 <= x <= i implies #[trigger] occurs(order@, x) by {
                if x < i {
                    assert(occurs(before, x));
                    let a = choose|a: int| 0 <= a < before.len() && #[trigger] before[a] == x;
                    assert(order@[a] == x);
                } else {
                    assert(order@[i as int] == x);
                }
            }
        }
        let mut p: usize = i;
        while p > 0 && scores[order[p - 1]] < scores[i]
            invariant
                i < scores.len(),
                p <= i,
                order@.len() == i + 1,
                order@[p as int] == i,
                forall|a: int| 0 <= a <= i && a != p ==> (#[trigger] order@[a]) < i,
                forall|a: int, b: int|
                    0 <= a < b <= i && a != p && b != p ==> outranks(
                        scores@,
                        #[trigger] order@[a] as int,
                        #[trigger] order@[b] as int,
                    ),
                forall|b: int| p < b <= i ==> scores@[(#[trigger] order@[b]) as int] < scores@[i as int],
                forall|x: int| 0 <= x <= i ==> #[trigger] occurs(order@, x),
            decreases p,
        {
            let ghost before = order@;
            let left: usize = order[p - 1];
            order.set(p, left);
            order.set(p - 1, i);
            proof {
                assert forall|x: int| 0 <= x <= i implies #[trigger] occurs(order@, x) by {
                    assert(occurs(before, x));
                    let a = choose|a: int| 0 <= a < before.len() && #[trigger] before[a] == x;
                    if a == p {
                        assert(order@[p - 1] == x);
                    } else if a == p - 1 {
                        assert(order@[p as int] == x);
                    } else {
                        assert(order@[a] == x);
                    }
                }
            }
            p -= 1;
        }
        proof {
            assert forall|a: int, b: int| 0 <= a < b < i + 1 implies outranks(
                scores@,
                #[trigger] order@[a] as int,
                #[trigger] order@[b] as int,
            ) by {
                if b == p {
                    if a < p - 1 {
                        assert(outranks(scores@, order@[a] as int, order@[p - 1] as int));
                    }
                }
            }
        }
        i += 1;
    }
    order
}

/// The floating-point work of the search, done by the caller.
///
/// Both methods draw from the generator they are handed, so that one stream
/// serves the whole search. `unit` is bound to its interval; of `perturb` the
/// trait claims only what the implementation itself says in `perturbation`.
pub trait Variation {
    /// What the implementation says of its perturbations: `out` may come of
    /// perturbing `value`.
    spec fn perturbation(value: Scalar, out: Scalar) -> bool;

    /// A number in `[0, 1)`, one draw from `rng`.
    fn unit(&mut self, rng: &mut fastrand::Rng) -> (u: Scalar)
        ensures
            u.unit_interval(),
    ;

    /// `value` moved by a random offset, one draw from `rng`.
    fn perturb(&mut self, rng: &mut fastrand::Rng, value: Scalar) -> (out: Scalar)
        ensures
            Self::perturbation(value, out),
    ;
}

/// No draw from `[0, 1)` is below the rate: it is zero, negative or no number.
pub open spec fn never_mutates(rate: Scalar) -> bool {
    !rate.greater(Scalar { bits: 0 })
}

/// Every draw from `[0, 1)` is below the rate: it is one or more.
pub open spec fn always_mutates(rate: Scalar) -> bool {
    !rate.nan() && !rate.less(Scalar { bits: ONE_BITS })
}

/// `out` is what one field becomes of `value`: perturbed where the draw for
/// it was below the rate, else left as it is.
pub open spec fn is_varied<V: Variation>(rate: Scalar, value: Scalar, out: Scalar) -> bool {
    exists|draw: Scalar| #[trigger]
        draw.unit_interval() && if draw.less(rate) {
            V::perturbation(value, out)
        } else {
            out == value
        }
}

/// `child` is `parent` with each field varied on its own.
pub open spec fn is_offspring<V: Variation>(rate: Scalar, parent: Layout, child: Layout) -> bool {
    is_varied::<V>(rate, parent.horn_length, child.horn_length) && is_varied::<V>(
        rate,
        parent.rod_length,
        child.rod_length,
    )
}

/// Both fields of `to` are perturbations of those of `from`.
pub open spec fn is_perturbed<V: Variation>(from: Layout, to: Layout) -> bool {
    V::perturbation(from.horn_length, to.horn_length) && V::perturbation(
        from.rod_length,
        to.rod_length,
    )
}

/// Individual `i` is the offspring of one of the first `k`.
pub open spec fn bred_from<V: Variation>(
    population: Seq<Layout>,
    k: int,
    rate: Scalar,
    i: int,
) -> bool {
    exists|j: int| 0 <= j < k && #[trigger] is_offspring::<V>(rate, population[j], population[i])
}

/// Individual `i` equals one of the first `k`.
pub open spec fn copied_from(population: Seq<Layout>, k: int, i: int) -> bool {
    exists|j: int| 0 <= j < k && (#[trigger] population[j]) == population[i]
}

/// Individual `i` is one of the first `k` with both fields perturbed.
pub open spec fn perturbed_from<V: Variation>(population: Seq<Layout>, k: int, i: int) -> bool {
    exists|j: int| 0 <= j < k && #[trigger] is_perturbed::<V>(population[j], population[i])
}

/// Every individual from place `k` on is the offspring of one of the first `k`.
pub open spec fn children_bred<V: Variation>(population: Seq<Layout>, k: int, rate: Scalar) -> bool {
    forall|i: int| k <= i < population.len() ==> #[trigger] bred_from::<V>(population, k, rate, i)
}

/// Every individual from place `k` on equals one of the first `k`.
pub open spec fn children_copied(population: Seq<Layout>, k: int) -> bool {
    forall|i: int| k <= i < population.len() ==> #[trigger] copied_from(population, k, i)
}

/// Every individual from place `k` on is one of the first `k` with both
/// fields perturbed.
pub open spec fn children_perturbed<V: Variation>(population: Seq<Layout>, k: int) -> bool {
    forall|i: int| k <= i < population.len() ==> #[trigger] perturbed_from::<V>(population, k, i)
}

/// Every individual is `base` with both fields perturbed.
pub open spec fn drawn_around<V: Variation>(population: Seq<Layout>, base: Layout) -> bool {
    forall|i: int| 0 <= i < population.len() ==> is_perturbed::<V>(base, #[trigger] population[i])
}

/// `survivors` are the better half of `population` under `scores`: the first
/// half of the ranking, rounded down.
pub open spec fn selects(population: Seq<Layout>, scores: Seq<usize>, survivors: Seq<Layout>) -> bool {
    exists|order: Seq<usize>| #[trigger]
        is_ranking(order, scores) && survivors == selected(
            population,
            order,
            (population.len() / 2) as int,
        )
}

/// With a rate at which no draw mutates, a child is what its parent is.
pub proof fn lemma_rate_zero_keeps_children<V: Variation>(
    rate: Scalar,
    parent: Layout,
    child: Layout,
)
    requires
        never_mutates(rate),
        is_offspring::<V>(rate, parent, child),
    ensures
        child == parent,
{
}

/// With a rate at which every draw mutates, both fields of a child are
/// perturbed.
pub proof fn lemma_rate_one_perturbs_children<V: Variation>(
    rate: Scalar,
    parent: Layout,
    child: Layout,
)
    requires
        always_mutates(rate),
        is_offspring::<V>(rate, parent, child),
    ensures
        is_perturbed::<V>(parent, child),
{
}

/// The better half of a population under the scores of its individuals, best
/// first. `None` where there is not one score for each individual.
pub fn select(population: &Vec<Layout>, scores: &Vec<usize>) -> (out: Option<Vec<Layout>>)
    ensures
        scores@.len() != population@.len() <==> out is None,
        out matches Some(s) ==> selects(population@, scores@, s@) && s@.len() == population@.len()
            / 2,
{
    if scores.len() != population.len() {
        return None;
    }
    let order = rank(scores);
    let half: usize = population.len() / 2;
    let mut survivors: Vec<Layout> = Vec::new();
    let mut r: usize = 0;
    while r < half
        invariant
            r <= half,
            half == population@.len() / 2,
            is_ranking(order@, scores@),
            scores@.len() == population@.len(),
            survivors@ =~= selected(population@, order@, r as int),
        decreases half - r,
    {
        survivors.push(population[order[r]]);
        r += 1;
    }
    Some(survivors)
}

/// A genetic search for the layout with the largest workspace.
pub struct Optimizer<P: ConfigurablePlatform> {
    pub platform: P,
    pub grid: Grid,
    pub options: WorkspaceOptions,
    pub population_size: usize,
    pub generations: usize,
    pub mutation_rate: Scalar,
    pub population: Vec<Layout>,
    pub rng: fastrand::Rng,
}

impl<P: ConfigurablePlatform> Optimizer<P> {
    /// An optimizer with no population yet. `generations` is kept for the
    /// caller, who decides how many steps to run.
    pub fn new(
        platform: P,
        grid: Grid,
        options: WorkspaceOptions,
        population_size: usize,
        generations: usize,
        mutation_rate: Scalar,
    ) -> (o: Self)
        ensures
            o.platform == platform,
            o.grid == grid,
            o.options == options,
            o.population_size == population_size,
            o.generations == generations,
            o.mutation_rate == mutation_rate,
            o.population@.len() == 0,
    {
        Optimizer {
            platform,
            grid,
            options,
            population_size,
            generations,
            mutation_rate,
            population: Vec::new(),
            rng: fresh_rng(),
        }
    }

    /// The settings that no call changes are those of `other`.
    pub open spec fn same_setup(&self, other: &Self) -> bool {
        &&& self.grid == other.grid
        &&& self.options == other.options
        &&& self.population_size == other.population_size
        &&& self.generations == other.generations
        &&& self.mutation_rate == other.mutation_rate
    }

    /// Draws the first generation around the platform's current layout:
    /// `population_size` individuals, each with the horn length perturbed
    /// first and the rod length second.
    pub fn initialize<V: Variation>(&mut self, variation: &mut V)
        ensures
            final(self).population@.len() == old(self).population_size,
            old(self).platform.layout_model() is Some,
            drawn_around::<V>(final(self).population@, old(self).platform.layout_model()->0),
            final(self).platform == old(self).platform,
            final(self).same_setup(old(self)),
    {
        let base = self.platform.layout();
        let mut population: Vec<Layout> = Vec::new();
        let mut i: usize = 0;
        while i < self.population_size
            invariant
                i <= self.population_size,
                population@.len() == i,
                drawn_around::<V>(population@, base),
                self.platform == old(self).platform,
                self.same_setup(old(self)),
            decreases self.population_size - i,
        {
            let horn_length = variation.perturb(&mut self.rng, base.horn_length);
            let rod_length = variation.perturb(&mut self.rng, base.rod_length);
            population.push(Layout { horn_length, rod_length });
            i += 1;
        }
        self.population = population;
    }

    /// Applies a layout to the platform and evaluates its workspace. The
    /// platform keeps the layout, and is left where it was.
    pub fn evaluate(&mut self, layout: &Layout) -> (out: Result<WorkspaceResult, GridError>)
        ensures
            old(self).grid.total() <= usize::MAX ==> out is Ok,
            out matches Ok(r) ==> r.sweeps(old(self).grid.poses()) && r.coverage.reachable
                == r.reachable@.len() && r.coverage.total == old(self).grid.total(),
            out is Err ==> out == Err::<WorkspaceResult, GridError>(GridError::TooManyPoses),
            final(self).platform.layout_model() == Some(*layout),
            final(self).platform.position_model() == old(self).platform.position_model(),
            final(self).platform.orientation_model() == old(self).platform.orientation_model(),
            final(self).same_setup(old(self)),
            final(self).population == old(self).population,
    {
        self.platform.apply_layout(layout);
        compute_workspace(&mut self.platform, &self.grid, self.options)
    }

    /// Whether a field is perturbed, given the number in `[0, 1)` drawn for
    /// it: where the draw is below the mutation rate.
    pub fn mutates(&self, draw: Scalar) -> (b: bool)
        ensures
            b == draw.less(self.mutation_rate),
    {
        draw.lt(self.mutation_rate)
    }

    /// Varies one field: draws a number in `[0, 1)` and perturbs the field
    /// where the draw is below the mutation rate.
    pub fn vary<V: Variation>(&mut self, variation: &mut V, value: Scalar) -> (out: Scalar)
        ensures
            is_varied::<V>(old(self).mutation_rate, value, out),
            final(self).platform == old(self).platform,
            final(self).population == old(self).population,
            final(self).same_setup(old(self)),
    {
        let draw = variation.unit(&mut self.rng);
        let out = if self.mutates(draw) {
            variation.perturb(&mut self.rng, value)
        } else {
            value
        };
        assert(draw.unit_interval() && if draw.less(self.mutation_rate) {
            V::perturbation(value, out)
        } else {
            out == value
        });
        out
    }

    /// Varies a layout in place: the horn length first, then the rod length.
    pub fn mutate<V: Variation>(&mut self, variation: &mut V, layout: &mut Layout)
        ensures
            is_offspring::<V>(old(self).mutation_rate, *old(layout), *final(layout)),
            final(self).platform == old(self).platform,
            final(self).population == old(self).population,
            final(self).same_setup(old(self)),
    {
        let horn_length = self.vary(variation, layout.horn_length);
        let rod_length = self.vary(variation, layout.rod_length);
        layout.horn_length = horn_length;
        layout.rod_length = rod_length;
    }

    /// Makes the next generation from the scores of this one and returns its
    /// best individual: the better half under `scores` survives, best first,
    /// and behind it the population is filled up with children, each a
    /// survivor chosen at random, then varied field by field.
    ///
    /// Refuses, and changes nothing, where the population has fewer than two
    /// places, is not full, or there is not one score for each individual.
    pub fn breed<V: Variation>(&mut self, variation: &mut V, scores: &Vec<usize>) -> (r: Result<
        Layout,
        OptimizerError,
    >)
        ensures
            old(self).breed_refusal(scores@) matches Some(e) ==> r == Err::<Layout, OptimizerError>(
                e,
            ) && *final(self) == *old(self),
            old(self).breed_refusal(scores@) is None ==> r is Ok,
            r matches Ok(best) ==> final(self).population@.len() == old(self).population_size
                && selects(
                old(self).population@,
                scores@,
                final(self).population@.take((old(self).population_size / 2) as int),
            ) && best == final(self).population@[0],
            r is Ok ==> children_bred::<V>(
                final(self).population@,
                (old(self).population_size / 2) as int,
                old(self).mutation_rate,
            ),
            r is Ok && never_mutates(old(self).mutation_rate) ==> children_copied(
                final(self).population@,
                (old(self).population_size / 2) as int,
            ),
            r is Ok && always_mutates(old(self).mutation_rate) ==> children_perturbed::<V>(
                final(self).population@,
                (old(self).population_size / 2) as int,
            ),
            final(self).platform == old(self).platform,
            final(self).same_setup(old(self)),
    {
        if self.population_size < 2 {
            return Err(OptimizerError::PopulationTooSmall);
        }
        if self.population.len() != self.population_size {
            return Err(OptimizerError::WrongPopulation);
        }
        let n: usize = self.population_size;
        let mut next: Vec<Layout> = match select(&self.population, scores) {
            Some(survivors) => survivors,
            None => {
                return Err(OptimizerError::ScoreCount);
            },
        };
        let half: usize = n / 2;
        let rate = self.mutation_rate;
        let ghost survivors = next@;
        let best = next[0];
        while next.len() < n
            invariant
                1 <= half <= next@.len() <= n,
                half == n / 2,
                n == old(self).population_size,
                rate == old(self).mutation_rate,
                survivors.len() == half,
                next@.take(half as int) == survivors,
                children_bred::<V>(next@, half as int, rate),
                never_mutates(rate) ==> children_copied(next@, half as int),
                always_mutates(rate) ==> children_perturbed::<V>(next@, half as int),
                self.platform == old(self).platform,
                self.population == old(self).population,
                self.same_setup(old(self)),
            decreases n - next@.len(),
        {
            let j: usize = draw_below(&mut self.rng, half);
            let parent = next[j];
            let mut child = parent;
            self.mutate(variation, &mut child);
            let ghost before = next@;
            next.push(child);
            proof {
                let last = before.len() as int;
                assert(next@.take(half as int) =~= before.take(half as int));
                assert(is_offspring::<V>(rate, next@[j as int], next@[last]));
                assert forall|i: int| half <= i < next@.len() implies #[trigger] bred_from::<V>(
                    next@,
                    half as int,
                    rate,
                    i,
                ) by {
                    if i < last {
                        assert(bred_from::<V>(before, half as int, rate, i));
                        let w = choose|w: int|
                            0 <= w < half && #[trigger] is_offspring::<V>(rate, before[w], before[i]);
                        assert(is_offspring::<V>(rate, next@[w], next@[i]));
                    }
                }
                if never_mutates(rate) {
                    lemma_rate_zero_keeps_children::<V>(rate, parent, child);
                    assert forall|i: int| half <= i < next@.len() implies #[trigger] copied_from(
                        next@,
                        half as int,
                        i,
                    ) by {
                        if i < last {
                            assert(copied_from(before, half as int, i));
                            let w = choose|w: int|
                                0 <= w < half && (#[trigger] before[w]) == before[i];
                            assert(next@[w] == next@[i]);
                        } else {
                            assert(next@[j as int] == next@[i]);
                        }
                    }
                }
                if always_mutates(rate) {
                    lemma_rate_one_perturbs_children::<V>(rate, parent, child);
                    assert(is_perturbed::<V>(next@[j as int], next@[last]));
                    assert forall|i: int| half <= i < next@.len() implies #[trigger] perturbed_from::<
                        V,
                    >(next@, half as int, i) by {
                        if i < last {
                            assert(perturbed_from::<V>(before, half as int, i));
                            let w = choose|w: int|
                                0 <= w < half && #[trigger] is_perturbed::<V>(before[w], before[i]);
                            assert(is_perturbed::<V>(next@[w], next@[i]));
                        }
                    }
                }
            }
        }
        proof {
            assert(next@.take(half as int)[0] == next@[0]);
        }
        self.population = next;
        Ok(best)
    }

    /// Runs one generation and returns its best individual.
    ///
    /// Every individual is applied to the platform, in order, and scored by
    /// the number of poses that are reachable under it. All are swept over
    /// the same grid, so this orders them as their coverage does. The next
    /// generation is then bred from the scores. The platform keeps the layout
    /// of the last individual, and is left where it was.
    ///
    /// Refuses, and changes nothing, where the population has fewer than two
    /// places, is not full, or the grid is too large.
    pub fn step<V: Variation>(&mut self, variation: &mut V) -> (r: Result<Layout, OptimizerError>)
        ensures
            old(self).refusal() matches Some(e) ==> r == Err::<Layout, OptimizerError>(e)
                && *final(self) == *old(self),
            old(self).refusal() is None ==> r is Ok,
            r matches Ok(best) ==> final(self).population@.len() == old(self).population_size
                && is_selection(
                old(self).population@,
                final(self).population@.take((old(self).population_size / 2) as int),
            ) && best == final(self).population@[0],
            r is Ok ==> children_bred::<V>(
                final(self).population@,
                (old(self).population_size / 2) as int,
                old(self).mutation_rate,
            ),
            r is Ok && never_mutates(old(self).mutation_rate) ==> children_copied(
                final(self).population@,
                (old(self).population_size / 2) as int,
            ),
            r is Ok && always_mutates(old(self).mutation_rate) ==> children_perturbed::<V>(
                final(self).population@,
                (old(self).population_size / 2) as int,
            ),
            r is Ok ==> final(self).platform.layout_model() == Some(
                old(self).population@[old(self).population_size - 1],
            ),
            final(self).platform.position_model() == old(self).platform.position_model(),
            final(self).platform.orientation_model() == old(self).platform.orientation_model(),
            final(self).same_setup(old(self)),
    {
        if self.population_size < 2 {
            return Err(OptimizerError::PopulationTooSmall);
        }
        if self.population.len() != self.population_size {
            return Err(OptimizerError::WrongPopulation);
        }
        if self.grid.size().is_err() {
            return Err(OptimizerError::GridTooLarge);
        }
        let n: usize = self.population_size;
        let mut scores: Vec<usize> = Vec::new();
        let mut i: usize = 0;
        while i < n
            invariant
                i <= n,
                n == self.population@.len(),
                scores@.len() == i,
                self.grid.total() <= usize::MAX,
                i > 0 ==> self.platform.layout_model() == Some(self.population@[i - 1]),
                self.platform.position_model() == old(self).platform.position_model(),
                self.platform.orientation_model() == old(self).platform.orientation_model(),
                self.same_setup(old(self)),
                self.population == old(self).population,
            decreases n - i,
        {
            let layout = self.population[i];
            let score: usize = match self.evaluate(&layout) {
                Ok(result) => result.coverage.reachable,
                // The grid was counted above, so the sweep does not refuse it.
                Err(_) => {
                    return Err(OptimizerError::GridTooLarge);
                },
            };
            scores.push(score);
            i += 1;
        }
        self.breed(variation, &scores)
    }

    /// Why `breed` would refuse, if it would.
    pub open spec fn breed_refusal(&self, scores: Seq<usize>) -> Option<OptimizerError> {
        if self.population_size < 2 {
            Some(OptimizerError::PopulationTooSmall)
        } else if self.population@.len() != self.population_size {
            Some(OptimizerError::WrongPopulation)
        } else if scores.len() != self.population_size {
            Some(OptimizerError::ScoreCount)
        } else {
            None
        }
    }

    /// Why `step` would refuse, if it would.
    pub open spec fn refusal(&self) -> Option<OptimizerError> {
        if self.population_size < 2 {
            Some(OptimizerError::PopulationTooSmall)
        } else if self.population@.len() != self.population_size {
            Some(OptimizerError::WrongPopulation)
        } else if self.grid.total() > usize::MAX {
            Some(OptimizerError::GridTooLarge)
        } else {
            None
        }
    }
}

/// A rate of zero never mutates, and a rate of one always does.
pub proof fn lemma_rates_zero_and_one()
    ensures
        never_mutates(Scalar { bits: 0 }),
        always_mutates(Scalar { bits: ONE_BITS }),
{
}

/// Where the rate never mutates no draw from `[0, 1)` is below it, and where
/// it always mutates every such draw is.
pub proof fn lemma_draws_follow_the_rate(rate: Scalar, draw: Scalar)
    requires
        draw.unit_interval(),
    ensures
        never_mutates(rate) ==> !draw.less(rate),
        always_mutates(rate) ==> draw.less(rate),
{
}

} // verus!
