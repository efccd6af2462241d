//! The forward models as plain data: which model, its observation choice
//! and its size — what decides the state dimension a model is built at,
//! its kind's name and the labels of its state components. (The physical
//! parameters are real numbers and stay with the numerical models.)

use vstd::prelude::*;
use vstd::string::*;
use crate::text::{decimal, format_u64};

verus! {

broadcast use vstd::string::group_string_axioms;

/// The scalar observation h(x) of the Kepler systems.
#[derive(Clone, Copy, Debug, PartialEq, Eq, Structural)]
pub enum KeplerObservation {
    /// h(x) = q₁ — one Cartesian coordinate (line-of-sight position).
    Q1,
    /// h(x) = |q| — the range (distance to the center).
    Range,
    /// h(x) = atan2(q₂, q₁) — the bearing.
    Bearing,
}

impl KeplerObservation {
    /// All variants, in display order.
    pub const ALL: [KeplerObservation; 3] = [
        KeplerObservation::Q1,
        KeplerObservation::Range,
        KeplerObservation::Bearing,
    ];

    /// Short human-readable label.
    pub fn label(self) -> (r: &'static str)
        ensures
            r@ == match self {
                KeplerObservation::Q1 => "q₁"@,
                KeplerObservation::Range => "|q|"@,
                KeplerObservation::Bearing => "bearing"@,
            },
    {
        match self {
            KeplerObservation::Q1 => "q₁",
            KeplerObservation::Range => "|q|",
            KeplerObservation::Bearing => "bearing",
        }
    }
}

impl Default for KeplerObservation {
    /// The line-of-sight coordinate q₁.
    fn default() -> (r: KeplerObservation)
        ensures
            r == KeplerObservation::Q1,
    {
        KeplerObservation::Q1
    }
}

/// The observed coordinate h(x) of the Lorenz system.
#[derive(Clone, Copy, Debug, PartialEq, Eq, Structural)]
pub enum LorenzObservation {
    X,
    Y,
    Z,
}

/// The index of the observed component.
pub open spec fn lorenz_index(o: LorenzObservation) -> nat {
    match o {
        LorenzObservation::X => 0,
        LorenzObservation::Y => 1,
        LorenzObservation::Z => 2,
    }
}

impl LorenzObservation {
    /// All variants, in display order.
    pub const ALL: [LorenzObservation; 3] = [LorenzObservation::X, LorenzObservation::Y, LorenzObservation::Z];

    /// Index of the observed component in the flat state (x, y, z).
    pub fn index(self) -> (r: usize)
        ensures
            r == lorenz_index(self),
    {
        match self {
            LorenzObservation::X => 0,
            LorenzObservation::Y => 1,
            LorenzObservation::Z => 2,
        }
    }

    /// Short human-readable label: the name of the observed coordinate.
    pub fn label(self) -> (r: &'static str)
        ensures
            r@ == match self {
                LorenzObservation::X => "x"@,
                LorenzObservation::Y => "y"@,
                LorenzObservation::Z => "z"@,
            },
    {
        match self {
            LorenzObservation::X => "x",
            LorenzObservation::Y => "y",
            LorenzObservation::Z => "z",
        }
    }
}

impl Default for LorenzObservation {
    /// The x coordinate.
    fn default() -> (r: LorenzObservation)
        ensures
            r == LorenzObservation::X,
    {
        LorenzObservation::X
    }
}

/// A forward model as plain data: which model, its size and its
/// observation choice.
#[derive(Clone, Copy, Debug, PartialEq, Eq, Structural)]
pub enum ModelSpec {
    /// The linear chain of `n` masses (state dimension 2n), observing the
    /// flat component `obs` of [Y; V].
    Spring { n: usize, obs: usize },
    /// The chain of `n` ∈ {1, 2, 3} bodies with an unknown free-end mass,
    /// augmented state (y, v, θ) of dimension 2n + 1; `obs` is the index
    /// of the observed position.
    SpringMass { n: usize, obs: usize },
    /// The double pendulum with point masses, state (q₁, q₂, p₁, p₂).
    Pendulum,
    /// The double compound pendulum, same state.
    PendulumRod,
    /// The softened Kepler problem, state (q₁, q₂, p₁, p₂).
    Kepler { observation: KeplerObservation },
    /// Kepler with the unknown μ = μ₀·2^θ, augmented state
    /// (q₁, q₂, p₁, p₂, θ).
    KeplerMu { observation: KeplerObservation },
    /// Lorenz-63, state (x, y, z).
    Lorenz { observation: LorenzObservation },
    /// The point observed through its squared distance to the origin.
    Lamppost,
}

/// The state dimension of the described model.
pub open spec fn spec_dim(m: ModelSpec) -> int {
    match m {
        ModelSpec::Spring { n, .. } => 2 * n,
        ModelSpec::SpringMass { n, .. } => 2 * n + 1,
        ModelSpec::Pendulum | ModelSpec::PendulumRod | ModelSpec::Kepler { .. } => 4,
        ModelSpec::KeplerMu { .. } => 5,
        ModelSpec::Lorenz { .. } => 3,
        ModelSpec::Lamppost => 2,
    }
}

/// The name of the model's kind.
pub open spec fn spec_kind(m: ModelSpec) -> Seq<char> {
    match m {
        ModelSpec::Spring { .. } => "spring"@,
        ModelSpec::SpringMass { .. } => "spring_mass"@,
        ModelSpec::Pendulum => "pendulum"@,
        ModelSpec::PendulumRod => "pendulum_rod"@,
        ModelSpec::Kepler { .. } => "kepler"@,
        ModelSpec::KeplerMu { .. } => "kepler_mu"@,
        ModelSpec::Lorenz { .. } => "lorenz"@,
        ModelSpec::Lamppost => "lamppost"@,
    }
}

/// The compile-time dimension the model is built at, when it can be
/// built: chains of 1 to 3 masses or bodies, every other model.
pub open spec fn spec_build_dim(m: ModelSpec) -> Option<nat> {
    match m {
        ModelSpec::Spring { n, .. } => if 1 <= n <= 3 { Some((2 * n) as nat) } else { None },
        ModelSpec::SpringMass { n, .. } => if 1 <= n <= 3 { Some((2 * n + 1) as nat) } else { None },
        ModelSpec::Pendulum | ModelSpec::PendulumRod | ModelSpec::Kepler { .. } => Some(4),
        ModelSpec::KeplerMu { .. } => Some(5),
        ModelSpec::Lorenz { .. } => Some(3),
        ModelSpec::Lamppost => Some(2),
    }
}

/// `"<prefix>_<i>"` for i = 1..=n.
pub open spec fn indexed_labels(prefix: Seq<char>, n: nat) -> Seq<Seq<char>> {
    Seq::new(n, |i: int| prefix + "_"@ + decimal((i + 1) as nat))
}

/// The labels of the state components, in flat state order.
pub open spec fn spec_state_labels(m: ModelSpec) -> Seq<Seq<char>> {
    match m {
        ModelSpec::Spring { n, .. } => indexed_labels("y"@, n as nat) + indexed_labels("v"@, n as nat),
        ModelSpec::SpringMass { n, .. } =>
            indexed_labels("y"@, n as nat) + indexed_labels("v"@, n as nat) + seq!["θ"@],
        ModelSpec::Pendulum | ModelSpec::PendulumRod | ModelSpec::Kepler { .. } =>
            seq!["q_1"@, "q_2"@, "p_1"@, "p_2"@],
        ModelSpec::KeplerMu { .. } => seq!["q_1"@, "q_2"@, "p_1"@, "p_2"@, "θ"@],
        ModelSpec::Lorenz { .. } => seq!["x"@, "y"@, "z"@],
        ModelSpec::Lamppost => seq!["x"@, "y"@],
    }
}

/// The size fields of the spec fit the dimension's arithmetic.
pub open spec fn dim_fits(m: ModelSpec) -> bool {
    spec_dim(m) <= usize::MAX
}

/// The text of each string of `v`.
pub open spec fn texts(v: Seq<String>) -> Seq<Seq<char>> {
    v.map_values(|s: String| s@)
}

impl ModelSpec {
    /// State dimension `M` of the described model.
    pub fn dim(&self) -> (r: usize)
        requires
            dim_fits(*self),
        ensures
            r == spec_dim(*self),
    {
        match self {
            ModelSpec::Spring { n, .. } => 2 * n,
            ModelSpec::SpringMass { n, .. } => 2 * n + 1,
            ModelSpec::Pendulum | ModelSpec::PendulumRod | ModelSpec::Kepler { .. } => 4,
            ModelSpec::KeplerMu { .. } => 5,
            ModelSpec::Lorenz { .. } => 3,
            ModelSpec::Lamppost => 2,
        }
    }

    /// Short stable identifier of the model kind (`"spring"`,
    /// `"kepler_mu"`, …), the tag of the spec in JSON.
    pub fn kind(&self) -> (r: &'static str)
        ensures
            r@ == spec_kind(*self),
    {
        match self {
            ModelSpec::Spring { .. } => "spring",
            ModelSpec::SpringMass { .. } => "spring_mass",
            ModelSpec::Pendulum => "pendulum",
            ModelSpec::PendulumRod => "pendulum_rod",
            ModelSpec::Kepler { .. } => "kepler",
            ModelSpec::KeplerMu { .. } => "kepler_mu",
            ModelSpec::Lorenz { .. } => "lorenz",
            ModelSpec::Lamppost => "lamppost",
        }
    }

    /// Whether the system can be built: every model but a chain whose
    /// length lies outside 1–3, a malformed description.
    pub fn buildable(&self) -> (r: bool)
        ensures
            r == (spec_build_dim(*self) is Some),
    {
        match self {
            ModelSpec::Spring { n, .. } | ModelSpec::SpringMass { n, .. } => 1 <= *n && *n <= 3,
            _ => true,
        }
    }

    /// The compile-time dimension the system is built at (the dispatch of
    /// building the model). Building a chain whose length lies outside
    /// 1–3 is refused with a panic; such a spec is left out here
    /// ([`buildable`](Self::buildable) tells).
    pub fn build_dim(&self) -> (r: usize)
        requires
            spec_build_dim(*self) is Some,
        ensures
            spec_build_dim(*self) == Some(r as nat),
    {
        match self {
            ModelSpec::Spring { n, .. } => if *n == 1 {
                2
            } else if *n == 2 {
                4
            } else {
                6
            },
            ModelSpec::SpringMass { n, .. } => if *n == 1 {
                3
            } else if *n == 2 {
                5
            } else {
                7
            },
            ModelSpec::Pendulum | ModelSpec::PendulumRod | ModelSpec::Kepler { .. } => 4,
            ModelSpec::KeplerMu { .. } => 5,
            ModelSpec::Lorenz { .. } => 3,
            ModelSpec::Lamppost => 2,
        }
    }
}

/// Append `"<prefix>_<i>"` for i = 1..=n to `v`.
fn push_indexed(v: &mut Vec<String>, prefix: &str, n: usize)
    ensures
        texts(final(v)@) == texts(old(v)@) + indexed_labels(prefix@, n as nat),
{
    let ghost start = texts(v@);
    let mut i: usize = 0;
    while i < n
        invariant
            i <= n,
            texts(v@) == start + indexed_labels(prefix@, i as nat),
        decreases n - i,
    {
        let mut s = String::from_str(prefix);
        s.append("_");
        s.append(format_u64((i + 1) as u64).as_str());
        let ghost before = v@;
        v.push(s);
        assert(texts(v@) =~= texts(before).push(s@));
        assert(indexed_labels(prefix@, (i + 1) as nat) =~= indexed_labels(prefix@, i as nat).push(s@));
        i = i + 1;
    }
}

/// A vector of strings from literals.
fn strings(parts: &[&str]) -> (v: Vec<String>)
    ensures
        texts(v@) == parts@.map_values(|p: &str| p@),
{
    let mut v: Vec<String> = Vec::new();
    let mut i: usize = 0;
    while i < parts.len()
        invariant
            i <= parts@.len(),
            texts(v@) == parts@.take(i as int).map_values(|p: &str| p@),
        decreases parts@.len() - i,
    {
        let ghost before = v@;
        v.push(String::from_str(parts[i]));
        assert(texts(v@) =~= texts(before).push(parts@[i as int]@));
        assert(parts@.take(i + 1).map_values(|p: &str| p@) =~= parts@.take(i as int).map_values(|p: &str| p@).push(parts@[i as int]@));
        i = i + 1;
    }
    assert(parts@.take(parts@.len() as int) =~= parts@);
    v
}

impl ModelSpec {
    /// Human-readable labels of the state components, in flat state order
    /// (`["y_1", "v_1"]`, `["q_1", "q_2", "p_1", "p_2"]`, …).
    pub fn state_labels(&self) -> (r: Vec<String>)
        ensures
            texts(r@) == spec_state_labels(*self),
    {
        match self {
            ModelSpec::Spring { n, .. } => {
                let mut v: Vec<String> = Vec::new();
                assert(texts(v@) =~= Seq::<Seq<char>>::empty());
                push_indexed(&mut v, "y", *n);
                push_indexed(&mut v, "v", *n);
                assert(texts(v@) =~= spec_state_labels(*self));
                v
            },
            ModelSpec::SpringMass { n, .. } => {
                let mut v: Vec<String> = Vec::new();
                assert(texts(v@) =~= Seq::<Seq<char>>::empty());
                push_indexed(&mut v, "y", *n);
                push_indexed(&mut v, "v", *n);
                let ghost before = v@;
                v.push(String::from_str("θ"));
                assert(texts(v@) =~= texts(before).push("θ"@));
                assert(texts(v@) =~= spec_state_labels(*self));
                v
            },
            ModelSpec::Pendulum | ModelSpec::PendulumRod | ModelSpec::Kepler { .. } => {
                let v = strings(&["q_1", "q_2", "p_1", "p_2"]);
                assert(texts(v@) =~= spec_state_labels(*self));
                v
            },
            ModelSpec::KeplerMu { .. } => {
                let v = strings(&["q_1", "q_2", "p_1", "p_2", "θ"]);
                assert(texts(v@) =~= spec_state_labels(*self));
                v
            },
            ModelSpec::Lorenz { .. } => {
                let v = strings(&["x", "y", "z"]);
                assert(texts(v@) =~= spec_state_labels(*self));
                v
            },
            ModelSpec::Lamppost => {
                let v = strings(&["x", "y"]);
                assert(texts(v@) =~= spec_state_labels(*self));
                v
            },
        }
    }
}

/// The model has as many labelled components as its dimension.
pub proof fn labels_match_dimension(m: ModelSpec)
    ensures
        spec_state_labels(m).len() == spec_dim(m),
{
}

/// Every spec that can be built is built at the dimension `dim` announces.
pub proof fn built_at_its_dimension(m: ModelSpec)
    ensures
        spec_build_dim(m) matches Some(d) ==> d == spec_dim(m),
{
}


/// The label of a numbered coordinate: its name, `_` and its number
/// counted from 1.
pub open spec fn numbered(name: Seq<char>, k: nat) -> Seq<char> {
    name + "_"@ + decimal(k)
}

/// The `i`-th label names the `i`-th component of the state in flat state
/// order: positions before velocities (or momenta), each numbered from 1,
/// then the augmented parameter θ; Lorenz's x, y, z; the lamppost's x, y.
pub proof fn labels_follow_the_state_order(m: ModelSpec, i: int)
    requires
        0 <= i < spec_dim(m),
    ensures
        spec_state_labels(m)[i] == match m {
            ModelSpec::Spring { n, .. } | ModelSpec::SpringMass { n, .. } => if i < n {
                numbered("y"@, (i + 1) as nat)
            } else if i < 2 * n {
                numbered("v"@, (i - n + 1) as nat)
            } else {
                "θ"@
            },
            ModelSpec::Pendulum | ModelSpec::PendulumRod | ModelSpec::Kepler { .. } | ModelSpec::KeplerMu { .. } =>
                if i < 2 {
                numbered("q"@, (i + 1) as nat)
            } else if i < 4 {
                numbered("p"@, (i - 1) as nat)
            } else {
                "θ"@
            },
            ModelSpec::Lorenz { .. } => if i == 0 { "x"@ } else if i == 1 { "y"@ } else { "z"@ },
            ModelSpec::Lamppost => if i == 0 { "x"@ } else { "y"@ },
        },
{
    reveal_strlit("q_1");
    reveal_strlit("q_2");
    reveal_strlit("p_1");
    reveal_strlit("p_2");
    reveal_strlit("q");
    reveal_strlit("p");
    reveal_strlit("_");
    assert(decimal(1) =~= seq!['1']);
    assert(decimal(2) =~= seq!['2']);
    match m {
        ModelSpec::Spring { n, .. } | ModelSpec::SpringMass { n, .. } => {
            let l = spec_state_labels(m);
            if i < n {
                assert(l[i] == indexed_labels("y"@, n as nat)[i]);
            } else if i < 2 * n {
                assert(l[i] == indexed_labels("v"@, n as nat)[i - n]);
            }
        },
        ModelSpec::Pendulum | ModelSpec::PendulumRod | ModelSpec::Kepler { .. } | ModelSpec::KeplerMu { .. } => {
            assert("q_1"@ =~= numbered("q"@, 1));
            assert("q_2"@ =~= numbered("q"@, 2));
            assert("p_1"@ =~= numbered("p"@, 1));
            assert("p_2"@ =~= numbered("p"@, 2));
        },
        _ => {},
    }
}

} // verus!
