//! The size of the work an estimator job describes: the nodes of its grid
//! per direction, and the number of values its output will hold — what the
//! server weighs before accepting a job.

use vstd::prelude::*;

verus! {

/// The estimators a job can run.
#[derive(Clone, Copy, Debug, PartialEq, Eq, Structural)]
pub enum Estimator {
    /// The grid filter on the full box.
    Filter,
    /// The grid filter on a translating Dirichlet window (box tracker).
    Window,
    /// The particle system.
    Particles,
    /// The Gaussian tracker.
    Tracker,
}

/// The discretisation of one state direction of a grid estimator.
#[derive(Clone, Copy, Debug, PartialEq, Eq, Structural)]
pub struct VarGrid {
    /// Elements of the full box in this direction.
    pub n_el: usize,
    /// Polynomial order of the elements.
    pub p_ord: usize,
    /// Elements of the translating window in this direction.
    pub win_n_el: usize,
    /// The direction is periodic.
    pub periodic: bool,
    /// The box has Dirichlet boundaries in this direction.
    pub dirichlet: bool,
}

/// What of an estimator configuration sizes a job: the grid of each
/// direction, the planes whose snapshots are kept, the number of
/// snapshots, and the number of particles.
#[derive(Clone, Debug)]
pub struct GridConfig {
    pub vars: Vec<VarGrid>,
    /// Pairs of directions `(a, b)` and whether the snapshots of that plane
    /// are kept.
    pub pairs: Vec<((usize, usize), bool)>,
    pub n_snapshots: usize,
    pub n_particles: usize,
}

/// Whether the estimator works on a grid (the filter or the window).
pub open spec fn on_grid(e: Estimator) -> bool {
    e == Estimator::Filter || e == Estimator::Window
}

/// `x - 1`, or 0 for 0.
pub open spec fn minus_one(x: int) -> int {
    if x >= 1 { x - 1 } else { 0 }
}

/// Nodes in one direction: the window's Dirichlet nodes
/// (win_n_el·p_ord − 1), else for the full box n_el·p_ord when periodic,
/// n_el·p_ord − 1 with Dirichlet boundaries, n_el·p_ord + 1 otherwise
/// (never below 0).
pub open spec fn node_count(v: VarGrid, e: Estimator) -> int {
    if e == Estimator::Window {
        minus_one(v.win_n_el * v.p_ord)
    } else if v.periodic {
        v.n_el * v.p_ord
    } else if v.dirichlet {
        minus_one(v.n_el * v.p_ord)
    } else {
        v.n_el * v.p_ord + 1
    }
}

/// The arithmetic of [`node_count`] for the estimator fits a `usize`: the
/// window's product for the window; for the full box its product, and that
/// product plus one in a direction that is neither periodic nor Dirichlet.
pub open spec fn node_fits(v: VarGrid, e: Estimator) -> bool {
    if e == Estimator::Window {
        v.win_n_el * v.p_ord <= usize::MAX
    } else {
        &&& v.n_el * v.p_ord <= usize::MAX
        &&& (!v.periodic && !v.dirichlet ==> v.n_el * v.p_ord + 1 <= usize::MAX)
    }
}

/// The node count of every direction can be computed in a `usize`.
pub open spec fn nodes_fit(vars: Seq<VarGrid>, e: Estimator) -> bool {
    forall|i: int| 0 <= i < vars.len() ==> node_fits(#[trigger] vars[i], e)
}

/// Nodes per direction of the grid a configuration describes for the
/// estimator: the full box of the filter (Neumann n_el·p_ord + 1, periodic
/// n_el·p_ord, Dirichlet n_el·p_ord − 1) or the Dirichlet window.
pub fn nodes(config: &GridConfig, e: Estimator) -> (r: Vec<usize>)
    requires
        nodes_fit(config.vars@, e),
    ensures
        r@.len() == config.vars@.len(),
        forall|i: int| 0 <= i < r@.len() ==> r@[i] == node_count(#[trigger] config.vars@[i], e),
{
    let mut r: Vec<usize> = Vec::new();
    let mut i: usize = 0;
    while i < config.vars.len()
        invariant
            i <= config.vars@.len(),
            nodes_fit(config.vars@, e),
            r@.len() == i,
            forall|k: int| 0 <= k < i ==> r@[k] == node_count(#[trigger] config.vars@[k], e),
        decreases config.vars@.len() - i,
    {
        let v = config.vars[i];
        assert(v == config.vars@[i as int]);
        let n = if e == Estimator::Window {
            (v.win_n_el * v.p_ord).saturating_sub(1)
        } else if v.periodic {
            v.n_el * v.p_ord
        } else if v.dirichlet {
            (v.n_el * v.p_ord).saturating_sub(1)
        } else {
            v.n_el * v.p_ord + 1
        };
        r.push(n);
        i = i + 1;
    }
    r
}

/// The node count at index `a` of `n`, 0 past its end.
pub open spec fn node_at(n: Seq<int>, a: usize) -> int {
    if a < n.len() { n[a as int] } else { 0 }
}

/// The node counts of a configuration's directions.
pub open spec fn node_counts(vars: Seq<VarGrid>, e: Estimator) -> Seq<int> {
    vars.map_values(|v: VarGrid| node_count(v, e))
}

/// Nodes of the kept planes: the sum, over the selected pairs (a, b), of
/// the node counts of a and b multiplied.
pub open spec fn plane_nodes(pairs: Seq<((usize, usize), bool)>, n: Seq<int>) -> int
    decreases pairs.len(),
{
    if pairs.len() == 0 {
        0
    } else {
        let ((a, b), selected) = pairs.last();
        plane_nodes(pairs.drop_last(), n) + if selected { node_at(n, a) * node_at(n, b) } else { 0 }
    }
}

/// Floats the output of a run of `steps` steps in dimension `dim` holds:
/// the estimates (one per record, steps + 1 records), plus the kept
/// snapshots of the planes for the grid estimators, the whole population
/// (position, weight and life) per record for the particles, the
/// covariance per record for the tracker.
pub open spec fn output_size(config: GridConfig, e: Estimator, steps: int, dim: int) -> int {
    let records = steps + 1;
    if on_grid(e) {
        let plane = plane_nodes(config.pairs@, node_counts(config.vars@, e));
        let snaps = if config.n_snapshots < records { config.n_snapshots as int } else { records };
        records * dim + snaps * plane
    } else if e == Estimator::Particles {
        let per = if config.n_particles * (dim + 2) > usize::MAX { usize::MAX as int } else { config.n_particles * (dim + 2) };
        records * per
    } else {
        records * (dim + dim * dim)
    }
}

/// Every intermediate value of [`output_floats`] fits a `usize` (the
/// arithmetic overflows otherwise).
pub open spec fn output_fits(config: GridConfig, e: Estimator, steps: int, dim: int) -> bool {
    let records = steps + 1;
    &&& records <= usize::MAX
    &&& if on_grid(e) {
        let plane = plane_nodes(config.pairs@, node_counts(config.vars@, e));
        let snaps = if config.n_snapshots < records { config.n_snapshots as int } else { records };
        &&& nodes_fit(config.vars@, e)
        &&& plane <= usize::MAX
        &&& records * dim <= usize::MAX
        &&& snaps * plane <= usize::MAX
        &&& records * dim + snaps * plane <= usize::MAX
    } else if e == Estimator::Particles {
        &&& dim + 2 <= usize::MAX
        &&& output_size(config, e, steps, dim) <= usize::MAX
    } else {
        &&& dim * dim <= usize::MAX
        &&& dim + dim * dim <= usize::MAX
        &&& output_size(config, e, steps, dim) <= usize::MAX
    }
}

proof fn lemma_node_at_nonneg(n: Seq<int>, a: usize)
    requires
        forall|i: int| 0 <= i < n.len() ==> n[i] >= 0,
    ensures
        node_at(n, a) >= 0,
{
}

proof fn lemma_plane_prefix(pairs: Seq<((usize, usize), bool)>, n: Seq<int>, i: int)
    requires
        0 <= i <= pairs.len(),
        forall|k: int| 0 <= k < n.len() ==> n[k] >= 0,
    ensures
        0 <= plane_nodes(pairs.take(i), n) <= plane_nodes(pairs, n),
    decreases pairs.len() - i,
{
    if i < pairs.len() {
        lemma_plane_prefix(pairs, n, i + 1);
        let ((a, b), sel) = pairs[i];
        assert(pairs.take(i + 1).drop_last() =~= pairs.take(i));
        assert(pairs.take(i + 1).last() == pairs[i]);
        lemma_plane_nonneg(pairs.take(i), n);
        lemma_node_at_nonneg(n, a);
        lemma_node_at_nonneg(n, b);
        assert(node_at(n, a) * node_at(n, b) >= 0) by (nonlinear_arith)
            requires node_at(n, a) >= 0, node_at(n, b) >= 0;
    } else {
        assert(pairs.take(i) =~= pairs);
        lemma_plane_nonneg(pairs, n);
    }
}

proof fn lemma_plane_nonneg(pairs: Seq<((usize, usize), bool)>, n: Seq<int>)
    requires
        forall|k: int| 0 <= k < n.len() ==> n[k] >= 0,
    ensures
        plane_nodes(pairs, n) >= 0,
    decreases pairs.len(),
{
    if pairs.len() > 0 {
        lemma_plane_nonneg(pairs.drop_last(), n);
        let ((a, b), sel) = pairs.last();
        lemma_node_at_nonneg(n, a);
        lemma_node_at_nonneg(n, b);
        assert(node_at(n, a) * node_at(n, b) >= 0) by (nonlinear_arith)
            requires node_at(n, a) >= 0, node_at(n, b) >= 0;
    }
}

/// Floats the run's output will hold ([`output_size`]): the estimates,
/// plus the 2D snapshots of the grid estimators, the whole population per
/// step of the particles, the covariance per step of the tracker.
pub fn output_floats(config: &GridConfig, e: Estimator, steps: usize, dim: usize) -> (r: usize)
    requires
        output_fits(*config, e, steps as int, dim as int),
    ensures
        r == output_size(*config, e, steps as int, dim as int),
{
    let records = steps + 1;
    if e == Estimator::Filter || e == Estimator::Window {
        let n = nodes(config, e);
        let ghost counts = node_counts(config.vars@, e);
        assert(n@.len() == counts.len());
        assert forall|k: int| 0 <= k < counts.len() implies counts[k] == n@[k] && counts[k] >= 0 by {
            assert(counts[k] == node_count(config.vars@[k], e));
        }
        let ghost total = plane_nodes(config.pairs@, counts);
        let mut plane: usize = 0;
        let mut i: usize = 0;
        while i < config.pairs.len()
            invariant
                i <= config.pairs@.len(),
                n@.len() == counts.len(),
                forall|k: int| 0 <= k < counts.len() ==> counts[k] == n@[k] && counts[k] >= 0,
                total == plane_nodes(config.pairs@, counts),
                total <= usize::MAX,
                plane == plane_nodes(config.pairs@.take(i as int), counts),
            decreases config.pairs@.len() - i,
        {
            let ((a, b), selected) = config.pairs[i];
            proof {
                assert(config.pairs@.take(i + 1).drop_last() =~= config.pairs@.take(i as int));
                lemma_plane_prefix(config.pairs@, counts, i + 1);
            }
            if selected {
                let na = if a < n.len() { n[a] } else { 0 };
                let nb = if b < n.len() { n[b] } else { 0 };
                assert(na == node_at(counts, a) && nb == node_at(counts, b));
                plane = plane + na * nb;
            }
            i = i + 1;
        }
        assert(config.pairs@.take(config.pairs@.len() as int) =~= config.pairs@);
        let snaps = if config.n_snapshots < records { config.n_snapshots } else { records };
        records * dim + snaps * plane
    } else if e == Estimator::Particles {
        let per = config.n_particles.checked_mul(dim + 2).unwrap_or(usize::MAX);
        records * per
    } else {
        records * (dim + dim * dim)
    }
}

/// Whether the node counts of every direction fit a `usize` for the
/// estimator.
pub fn nodes_fit_check(config: &GridConfig, e: Estimator) -> (r: bool)
    ensures
        r == nodes_fit(config.vars@, e),
{
    let mut i: usize = 0;
    while i < config.vars.len()
        invariant
            i <= config.vars@.len(),
            forall|k: int| 0 <= k < i ==> node_fits(#[trigger] config.vars@[k], e),
        decreases config.vars@.len() - i,
    {
        let v = config.vars[i];
        let ok = if e == Estimator::Window {
            v.win_n_el.checked_mul(v.p_ord).is_some()
        } else {
            match v.n_el.checked_mul(v.p_ord) {
                None => false,
                Some(x) => v.periodic || v.dirichlet || x < usize::MAX,
            }
        };
        if !ok {
            assert(!nodes_fit(config.vars@, e)) by {
                assert(v == config.vars@[i as int]);
            }
            return false;
        }
        assert(v == config.vars@[i as int]);
        i = i + 1;
    }
    true
}

/// [`output_floats`] when its arithmetic fits a `usize`, `None` when it
/// would overflow.
pub fn checked_output_floats(config: &GridConfig, e: Estimator, steps: usize, dim: usize) -> (r: Option<usize>)
    ensures
        r is Some <==> output_fits(*config, e, steps as int, dim as int),
        r matches Some(x) ==> x == output_size(*config, e, steps as int, dim as int),
{
    if steps == usize::MAX {
        return None;
    }
    let records = steps + 1;
    if e == Estimator::Filter || e == Estimator::Window {
        if !nodes_fit_check(config, e) {
            return None;
        }
        let n = nodes(config, e);
        let ghost counts = node_counts(config.vars@, e);
        assert forall|k: int| 0 <= k < counts.len() implies counts[k] == n@[k] && counts[k] >= 0 by {
            assert(counts[k] == node_count(config.vars@[k], e));
        }
        let ghost total = plane_nodes(config.pairs@, counts);
        let mut plane: usize = 0;
        let mut i: usize = 0;
        while i < config.pairs.len()
            invariant
                i <= config.pairs@.len(),
                n@.len() == counts.len(),
                forall|k: int| 0 <= k < counts.len() ==> counts[k] == n@[k] && counts[k] >= 0,
                total == plane_nodes(config.pairs@, counts),
                plane == plane_nodes(config.pairs@.take(i as int), counts),
                e == Estimator::Filter || e == Estimator::Window,
                records == steps + 1,
                counts == node_counts(config.vars@, e),
            decreases config.pairs@.len() - i,
        {
            let ((a, b), selected) = config.pairs[i];
            proof {
                assert(config.pairs@.take(i + 1).drop_last() =~= config.pairs@.take(i as int));
                assert(config.pairs@.take(i + 1).last() == config.pairs@[i as int]);
                lemma_plane_prefix(config.pairs@, counts, i + 1);
            }
            if selected {
                let na = if a < n.len() { n[a] } else { 0 };
                let nb = if b < n.len() { n[b] } else { 0 };
                assert(na == node_at(counts, a) && nb == node_at(counts, b));
                assert(plane_nodes(config.pairs@.take(i + 1), counts) == plane + na * nb);
                let term = match na.checked_mul(nb) {
                    Some(t) => t,
                    None => return None,
                };
                plane = match plane.checked_add(term) {
                    Some(p) => p,
                    None => return None,
                };
            }
            i = i + 1;
        }
        assert(config.pairs@.take(config.pairs@.len() as int) =~= config.pairs@);
        let snaps = if config.n_snapshots < records { config.n_snapshots } else { records };
        let est = match records.checked_mul(dim) {
            Some(x) => x,
            None => return None,
        };
        let kept = match snaps.checked_mul(plane) {
            Some(x) => x,
            None => return None,
        };
        est.checked_add(kept)
    } else if e == Estimator::Particles {
        let d2 = match dim.checked_add(2) {
            Some(x) => x,
            None => return None,
        };
        let per = config.n_particles.checked_mul(d2).unwrap_or(usize::MAX);
        records.checked_mul(per)
    } else {
        let dd = match dim.checked_mul(dim) {
            Some(x) => x,
            None => return None,
        };
        let cov = match dim.checked_add(dd) {
            Some(x) => x,
            None => return None,
        };
        records.checked_mul(cov)
    }
}


/// Nodes per direction in the viewer's memory estimate: the window's
/// Dirichlet nodes (at least one); for the full box n_el·p_ord, plus one
/// unless the direction is periodic.
pub open spec fn estimate_nodes(v: VarGrid, window: bool) -> int {
    if window {
        let n = minus_one(v.win_n_el * v.p_ord);
        if n < 1 { 1 } else { n }
    } else {
        v.n_el * v.p_ord + if v.periodic { 0int } else { 1int }
    }
}

/// The arithmetic of [`estimate_nodes`] fits a `usize`.
pub open spec fn estimate_node_fits(v: VarGrid, window: bool) -> bool {
    if window {
        v.win_n_el * v.p_ord <= usize::MAX
    } else {
        v.n_el * v.p_ord <= usize::MAX && estimate_nodes(v, false) <= usize::MAX
    }
}

/// The estimate's node counts of a configuration's directions.
pub open spec fn estimate_counts(vars: Seq<VarGrid>, window: bool) -> Seq<int> {
    vars.map_values(|v: VarGrid| estimate_nodes(v, window))
}

/// The product of `n`, its factors taken in order.
pub open spec fn product(n: Seq<int>) -> int
    decreases n.len(),
{
    if n.len() == 0 { 1 } else { product(n.drop_last()) * n.last() }
}

/// The memory the viewer estimates for a grid run of `steps` steps, in
/// bytes: the solver's working set (the density, a transport buffer and
/// the inverse-flow plan, 16 + 8 + 8·dim bytes per grid point) and the
/// outputs kept (the kept snapshots of the selected planes and the
/// estimates, 8 bytes per value).
pub open spec fn memory_size(config: GridConfig, e: Estimator, steps: int) -> (int, int) {
    let n = estimate_counts(config.vars@, e == Estimator::Window);
    let dim = n.len() as int;
    let plane = plane_nodes(config.pairs@, n);
    let records = steps + 1;
    let snaps = if config.n_snapshots < records { config.n_snapshots as int } else { records };
    (product(n) * (24 + 8 * dim), snaps * plane * 8 + records * dim * 8)
}

/// Every value the estimate computes fits a `usize`: each node count,
/// each partial product of the grid points, the plane sum, and the sizes.
pub open spec fn memory_fits(config: GridConfig, e: Estimator, steps: int) -> bool {
    let w = e == Estimator::Window;
    let n = estimate_counts(config.vars@, w);
    let dim = n.len() as int;
    let plane = plane_nodes(config.pairs@, n);
    let records = steps + 1;
    let snaps = if config.n_snapshots < records { config.n_snapshots as int } else { records };
    &&& on_grid(e)
    &&& forall|i: int| 0 <= i < config.vars@.len() ==> estimate_node_fits(#[trigger] config.vars@[i], w)
    &&& forall|i: int| 0 <= i <= n.len() ==> #[trigger] product(n.take(i)) <= usize::MAX
    &&& plane <= usize::MAX
    &&& 24 + 8 * dim <= usize::MAX
    &&& product(n) * (24 + 8 * dim) <= usize::MAX
    &&& records <= usize::MAX
    &&& snaps * plane * 8 <= usize::MAX
    &&& records * dim * 8 <= usize::MAX
    &&& snaps * plane * 8 + records * dim * 8 <= usize::MAX
}

/// The selected planes name directions of the configuration.
pub open spec fn pairs_in_range(config: GridConfig) -> bool {
    forall|k: int| 0 <= k < config.pairs@.len() && (#[trigger] config.pairs@[k]).1
        ==> config.pairs@[k].0.0 < config.vars@.len() && config.pairs@[k].0.1 < config.vars@.len()
}

proof fn lemma_product_take(n: Seq<int>, i: int)
    requires
        0 <= i < n.len(),
    ensures
        product(n.take(i + 1)) == product(n.take(i)) * n[i],
{
    assert(n.take(i + 1).drop_last() =~= n.take(i));
}

/// The memory estimate of the viewer's output panel for a grid run
/// (filter or window) of `steps` steps: the solver's working set and the
/// outputs kept, in bytes, or `None` when its arithmetic overflows or the
/// estimator has no grid.
pub fn memory_estimate(config: &GridConfig, e: Estimator, steps: usize) -> (r: Option<(usize, usize)>)
    requires
        pairs_in_range(*config),
    ensures
        r is Some <==> memory_fits(*config, e, steps as int),
        r matches Some((solver, outputs)) ==> (solver as int, outputs as int) == memory_size(*config, e, steps as int),
{
    if !(e == Estimator::Filter || e == Estimator::Window) {
        return None;
    }
    let w = e == Estimator::Window;
    let ghost n = estimate_counts(config.vars@, w);
    let mut ndof: Vec<usize> = Vec::new();
    let mut i: usize = 0;
    while i < config.vars.len()
        invariant
            i <= config.vars@.len(),
            n == estimate_counts(config.vars@, w),
            w == (e == Estimator::Window),
            ndof@.len() == i,
            forall|k: int| 0 <= k < i ==> ndof@[k] as int == n[k],
            forall|k: int| 0 <= k < i ==> estimate_node_fits(#[trigger] config.vars@[k], w),
        decreases config.vars@.len() - i,
    {
        let v = config.vars[i];
        assert(v == config.vars@[i as int]);
        let x = if w {
            match v.win_n_el.checked_mul(v.p_ord) {
                None => return None,
                Some(y) => {
                    let d = y.saturating_sub(1);
                    if d < 1 { 1 } else { d }
                },
            }
        } else {
            match v.n_el.checked_mul(v.p_ord) {
                None => return None,
                Some(y) => if v.periodic {
                    y
                } else {
                    match y.checked_add(1) {
                        None => return None,
                        Some(z) => z,
                    }
                },
            }
        };
        ndof.push(x);
        i = i + 1;
    }
    assert forall|k: int| 0 <= k < n.len() implies n[k] >= 0 && ndof@[k] as int == n[k] by {}
    // The grid points: the node counts multiplied in order.
    let mut dofs: usize = 1;
    let mut j: usize = 0;
    let mut zero = false;
    while j < ndof.len()
        invariant
            j <= ndof@.len(),
            ndof@.len() == n.len(),
            forall|k: int| 0 <= k < n.len() ==> n[k] >= 0 && ndof@[k] as int == n[k],
            dofs as int == product(n.take(j as int)),
            n == estimate_counts(config.vars@, e == Estimator::Window),
            forall|k: int| 0 <= k <= j ==> #[trigger] product(n.take(k)) <= usize::MAX,
        decreases ndof@.len() - j,
    {
        proof { lemma_product_take(n, j as int); }
        match dofs.checked_mul(ndof[j]) {
            None => {
                assert(product(n.take(j + 1)) == dofs * ndof@[j as int]);
                assert(estimate_counts(config.vars@, e == Estimator::Window) == n);
                assert(product(n.take(j + 1)) > usize::MAX);
                return None;
            },
            Some(p) => {
                dofs = p;
            },
        }
        j = j + 1;
    }
    assert(n.take(n.len() as int) =~= n);
    // The nodes of the selected planes.
    let ghost total = plane_nodes(config.pairs@, n);
    let mut plane: usize = 0;
    let mut k: usize = 0;
    while k < config.pairs.len()
        invariant
            k <= config.pairs@.len(),
            pairs_in_range(*config),
            ndof@.len() == n.len(),
            n.len() == config.vars@.len(),
            forall|q: int| 0 <= q < n.len() ==> n[q] >= 0 && ndof@[q] as int == n[q],
            total == plane_nodes(config.pairs@, n),
            plane == plane_nodes(config.pairs@.take(k as int), n),
            n == estimate_counts(config.vars@, e == Estimator::Window),
        decreases config.pairs@.len() - k,
    {
        let ((a, b), selected) = config.pairs[k];
        proof {
            assert(config.pairs@.take(k + 1).drop_last() =~= config.pairs@.take(k as int));
            assert(config.pairs@.take(k + 1).last() == config.pairs@[k as int]);
            lemma_plane_prefix(config.pairs@, n, k + 1);
        }
        if selected {
            assert(config.pairs@[k as int].1);
            let na = ndof[a];
            let nb = ndof[b];
            assert(na == node_at(n, a) && nb == node_at(n, b));
            assert(plane_nodes(config.pairs@.take(k + 1), n) == plane + na * nb);
            let term = match na.checked_mul(nb) {
                Some(t) => t,
                None => {
                    assert(estimate_counts(config.vars@, e == Estimator::Window) == n);
                    assert(total > usize::MAX);
                    return None;
                },
            };
            plane = match plane.checked_add(term) {
                Some(p) => p,
                None => {
                    assert(estimate_counts(config.vars@, e == Estimator::Window) == n);
                    assert(total > usize::MAX);
                    return None;
                },
            };
        }
        k = k + 1;
    }
    assert(config.pairs@.take(config.pairs@.len() as int) =~= config.pairs@);
    let dim = ndof.len();
    let per = match dim.checked_mul(8) {
        None => return None,
        Some(x) => match x.checked_add(24) {
            None => return None,
            Some(y) => y,
        },
    };
    let solver = match dofs.checked_mul(per) {
        None => return None,
        Some(x) => x,
    };
    let records = match steps.checked_add(1) {
        None => return None,
        Some(x) => x,
    };
    let snaps = if config.n_snapshots < records { config.n_snapshots } else { records };
    let kept = match snaps.checked_mul(plane) {
        None => {
            assert(snaps * plane * 8 > usize::MAX) by (nonlinear_arith)
                requires snaps * plane > usize::MAX;
            return None;
        },
        Some(x) => match x.checked_mul(8) {
            None => return None,
            Some(y) => y,
        },
    };
    let est = match records.checked_mul(dim) {
        None => {
            assert(records * dim * 8 > usize::MAX) by (nonlinear_arith)
                requires records * dim > usize::MAX;
            return None;
        },
        Some(x) => match x.checked_mul(8) {
            None => return None,
            Some(y) => y,
        },
    };
    match kept.checked_add(est) {
        None => None,
        Some(outputs) => Some((solver, outputs)),
    }
}


/// Only the configured snapshots are stored: for a grid estimator whose
/// snapshot count is below the number of records, one more step adds
/// exactly one record of estimates (dim values), and the output never
/// holds more than the records' estimates plus that many snapshots of
/// the kept planes.
pub proof fn snapshots_are_capped(config: GridConfig, e: Estimator, steps: int, dim: int)
    requires
        on_grid(e),
        steps >= 0,
        dim >= 0,
    ensures
        config.n_snapshots < steps + 1 ==> output_size(config, e, steps + 1, dim) == output_size(config, e, steps, dim) + dim,
        output_size(config, e, steps, dim) <= (steps + 1) * dim
            + config.n_snapshots * plane_nodes(config.pairs@, node_counts(config.vars@, e)),
{
    let n = node_counts(config.vars@, e);
    assert forall|k: int| 0 <= k < n.len() implies n[k] >= 0 by {
        assert(n[k] == node_count(config.vars@[k], e));
    }
    lemma_plane_nonneg(config.pairs@, n);
    let plane = plane_nodes(config.pairs@, n);
    let records = steps + 1;
    let snaps = if config.n_snapshots < records { config.n_snapshots as int } else { records };
    assert((records + 1) * dim == records * dim + dim) by (nonlinear_arith);
    assert(snaps * plane <= config.n_snapshots * plane) by (nonlinear_arith)
        requires
            snaps <= config.n_snapshots,
            plane >= 0,
    ;
}

} // verus!
