//! The job server's deployment settings and its admission rules: a job
//! beyond a limit is refused (400) with a message naming the limit, one
//! more run than the server accepts at once is refused (429).

use vstd::prelude::*;
use vstd::string::*;
use crate::grid::{
    checked_output_floats, nodes, nodes_fit, nodes_fit_check, node_counts, on_grid, output_fits,
    output_floats, output_size, Estimator, GridConfig,
};
use crate::text::{chars_of, decimal, format_u64, nonblank, parse_unsigned, parse_unsigned_chars, trim, trim_bounds};
use crate::model::{dim_fits, spec_dim, spec_kind, ModelSpec};

verus! {

broadcast use vstd::string::group_string_axioms;

/// Deployment settings: access and the limits protecting the machine.
#[derive(Clone, Debug)]
pub struct Settings {
    /// Bearer token every API request must carry; `None` = open server.
    pub token: Option<String>,
    /// Runs in progress accepted at once.
    pub max_runs: usize,
    /// Steps of one run.
    pub max_steps: usize,
    /// Grid points of a filter or window run.
    pub max_dofs: usize,
    /// Particles of a particle run.
    pub max_particles: usize,
    /// Floats stored by one run's output.
    pub max_output: usize,
    /// A run nobody asked about for this long (nanoseconds) is cancelled
    /// and forgotten.
    pub ttl_ns: u128,
}

impl Settings {
    /// Open server with the default limits: 2 runs at once, 200 000
    /// steps, 2 000 000 grid points, 200 000 particles, 50 000 000 output
    /// values, idle runs dropped after 600 s.
    pub fn new() -> (s: Settings)
        ensures
            s.token is None,
            s.max_runs == 2,
            s.max_steps == 200_000,
            s.max_dofs == 2_000_000,
            s.max_particles == 200_000,
            s.max_output == 50_000_000,
            s.ttl_ns == 600_000_000_000,
    {
        Settings {
            token: None,
            max_runs: 2,
            max_steps: 200_000,
            max_dofs: 2_000_000,
            max_particles: 200_000,
            max_output: 50_000_000,
            ttl_ns: 600_000_000_000,
        }
    }
}

impl Default for Settings {
    fn default() -> (s: Settings)
        ensures
            s.token is None,
            s.max_runs == 2,
            s.max_steps == 200_000,
            s.max_dofs == 2_000_000,
            s.max_particles == 200_000,
            s.max_output == 50_000_000,
            s.ttl_ns == 600_000_000_000,
    {
        Settings::new()
    }
}

/// A numeric setting read from the environment: unset or blank means the
/// default, otherwise the trimmed value must be a number.
pub open spec fn limit_reading(raw: Option<Seq<char>>, default: usize) -> Option<nat> {
    match raw {
        None => Some(default as nat),
        Some(v) => if trim(v).len() == 0 {
            Some(default as nat)
        } else {
            parse_unsigned(trim(v), usize::MAX as nat)
        },
    }
}

/// The numeric setting `name` from its raw value: the default when unset
/// or blank, the number otherwise, or the message `"<name>=<value> is not
/// a number"` (the server refuses to start on it).
pub fn limit_setting(name: &str, raw: Option<&str>, default: usize) -> (r: Result<usize, String>)
    ensures
        r matches Ok(x) ==> limit_reading(match raw { Some(v) => Some(v@), None => None }, default) == Some(x as nat),
        r is Err ==> limit_reading(match raw { Some(v) => Some(v@), None => None }, default) is None,
        r matches Err(m) ==> raw matches Some(v) && m@ == name@ + "="@ + trim(v@) + " is not a number"@,
{
    let v = match raw {
        None => return Ok(default),
        Some(v) => v,
    };
    let t = match nonblank(v) {
        None => return Ok(default),
        Some(t) => t,
    };
    let c = chars_of(t.as_str());
    assert(c@.subrange(0, c@.len() as int) =~= c@);
    match parse_unsigned_chars(&c, 0, c.len(), usize::MAX as u64) {
        Some(x) => Ok(x as usize),
        None => {
            let mut m = String::from_str(name);
            m.append("=");
            m.append(t.as_str());
            m.append(" is not a number");
            Err(m)
        },
    }
}

/// The text of an optional raw value.
pub open spec fn raw_text(raw: Option<&str>) -> Option<Seq<char>> {
    match raw {
        Some(v) => Some(v@),
        None => None,
    }
}

/// The message refusing the value `raw` of the numeric setting `name`:
/// `"<name>=<trimmed value> is not a number"`.
pub open spec fn not_a_number(name: Seq<char>, raw: Option<Seq<char>>) -> Seq<char> {
    match raw {
        Some(v) => name + "="@ + trim(v) + " is not a number"@,
        None => Seq::empty(),
    }
}

/// The deployment settings from their raw values (the `ODEON_TOKEN`,
/// `ODEON_MAX_RUNS`, `ODEON_MAX_STEPS`, `ODEON_MAX_DOFS`,
/// `ODEON_MAX_PARTICLES`, `ODEON_MAX_OUTPUT` and `ODEON_RUN_TTL` variables,
/// in that order): unset or blank means the default; the TTL is in
/// seconds. The message of the first number that does not parse otherwise.
pub fn settings_from(
    token: Option<&str>,
    max_runs: Option<&str>,
    max_steps: Option<&str>,
    max_dofs: Option<&str>,
    max_particles: Option<&str>,
    max_output: Option<&str>,
    ttl_secs: Option<&str>,
) -> (r: Result<Settings, String>)
    ensures
        r matches Ok(s) ==> {
            &&& crate::frontend::opt_text(s.token) == crate::frontend::reading(match token { Some(v) => Some(v@), None => None })
            &&& limit_reading(match max_runs { Some(v) => Some(v@), None => None }, 2) == Some(s.max_runs as nat)
            &&& limit_reading(match max_steps { Some(v) => Some(v@), None => None }, 200_000) == Some(s.max_steps as nat)
            &&& limit_reading(match max_dofs { Some(v) => Some(v@), None => None }, 2_000_000) == Some(s.max_dofs as nat)
            &&& limit_reading(match max_particles { Some(v) => Some(v@), None => None }, 200_000) == Some(s.max_particles as nat)
            &&& limit_reading(match max_output { Some(v) => Some(v@), None => None }, 50_000_000) == Some(s.max_output as nat)
            &&& exists|secs: nat| limit_reading(match ttl_secs { Some(v) => Some(v@), None => None }, 600) == Some(secs)
                && s.ttl_ns == secs * 1_000_000_000
        },
        r is Err <==> {
            ||| limit_reading(match max_runs { Some(v) => Some(v@), None => None }, 2) is None
            ||| limit_reading(match max_steps { Some(v) => Some(v@), None => None }, 200_000) is None
            ||| limit_reading(match max_dofs { Some(v) => Some(v@), None => None }, 2_000_000) is None
            ||| limit_reading(match max_particles { Some(v) => Some(v@), None => None }, 200_000) is None
            ||| limit_reading(match max_output { Some(v) => Some(v@), None => None }, 50_000_000) is None
            ||| limit_reading(match ttl_secs { Some(v) => Some(v@), None => None }, 600) is None
        },
        r matches Err(m) ==> m@ == if limit_reading(raw_text(max_runs), 2) is None {
            not_a_number("ODEON_MAX_RUNS"@, raw_text(max_runs))
        } else if limit_reading(raw_text(max_steps), 200_000) is None {
            not_a_number("ODEON_MAX_STEPS"@, raw_text(max_steps))
        } else if limit_reading(raw_text(max_dofs), 2_000_000) is None {
            not_a_number("ODEON_MAX_DOFS"@, raw_text(max_dofs))
        } else if limit_reading(raw_text(max_particles), 200_000) is None {
            not_a_number("ODEON_MAX_PARTICLES"@, raw_text(max_particles))
        } else if limit_reading(raw_text(max_output), 50_000_000) is None {
            not_a_number("ODEON_MAX_OUTPUT"@, raw_text(max_output))
        } else {
            not_a_number("ODEON_RUN_TTL"@, raw_text(ttl_secs))
        },
{
    let token = crate::frontend::read_setting(token);
    let max_runs = match limit_setting("ODEON_MAX_RUNS", max_runs, 2) {
        Ok(x) => x,
        Err(m) => return Err(m),
    };
    let max_steps = match limit_setting("ODEON_MAX_STEPS", max_steps, 200_000) {
        Ok(x) => x,
        Err(m) => return Err(m),
    };
    let max_dofs = match limit_setting("ODEON_MAX_DOFS", max_dofs, 2_000_000) {
        Ok(x) => x,
        Err(m) => return Err(m),
    };
    let max_particles = match limit_setting("ODEON_MAX_PARTICLES", max_particles, 200_000) {
        Ok(x) => x,
        Err(m) => return Err(m),
    };
    let max_output = match limit_setting("ODEON_MAX_OUTPUT", max_output, 50_000_000) {
        Ok(x) => x,
        Err(m) => return Err(m),
    };
    let secs = match limit_setting("ODEON_RUN_TTL", ttl_secs, 600) {
        Ok(x) => x,
        Err(m) => return Err(m),
    };
    let ttl_ns = (secs as u128) * 1_000_000_000;
    Ok(Settings { token, max_runs, max_steps, max_dofs, max_particles, max_output, ttl_ns })
}

/// Where the server finds its web page, from `ODEON_WEB_DIR`.
#[derive(Clone, Debug)]
pub enum WebDir {
    /// `none` (any case): serve no page.
    Disabled,
    /// The directory named (relative to the working directory).
    Named(String),
    /// Unset or blank: the workspace's own build of the web client.
    Default,
}

/// Whether `s` is `none` in any mix of ASCII case.
pub open spec fn is_none_word(s: Seq<char>) -> bool {
    s.len() == 4
        && (s[0] == 'n' || s[0] == 'N')
        && (s[1] == 'o' || s[1] == 'O')
        && (s[2] == 'n' || s[2] == 'N')
        && (s[3] == 'e' || s[3] == 'E')
}

/// The web page directory setting from the raw `ODEON_WEB_DIR`.
pub fn web_dir_choice(raw: Option<&str>) -> (r: WebDir)
    ensures
        match crate::frontend::reading(match raw { Some(v) => Some(v@), None => None }) {
            None => r is Default,
            Some(d) => if is_none_word(d) { r is Disabled } else { r matches WebDir::Named(n) && n@ == d },
        },
{
    let d = match crate::frontend::read_setting(raw) {
        None => return WebDir::Default,
        Some(d) => d,
    };
    let c = chars_of(d.as_str());
    if c.len() == 4 && (c[0] == 'n' || c[0] == 'N') && (c[1] == 'o' || c[1] == 'O')
        && (c[2] == 'n' || c[2] == 'N') && (c[3] == 'e' || c[3] == 'E') {
        WebDir::Disabled
    } else {
        WebDir::Named(d)
    }
}

/// Why a job is refused.
#[derive(Clone, Copy, Debug, PartialEq, Eq, Structural)]
pub enum Refusal {
    /// More steps than a run may have.
    Steps { steps: usize, max: usize },
    /// More grid points than a filter or window run may have.
    GridPoints { dofs: usize, max: usize },
    /// More particles than a particle run may have.
    Particles { particles: usize, max: usize },
    /// A larger output than a run may store.
    Output { floats: usize, max: usize },
    /// As many runs in progress as the server accepts at once.
    Busy { busy: usize },
}

/// The HTTP status of a refusal: 429 for a busy server, 400 otherwise.
pub open spec fn refusal_status(r: Refusal) -> u16 {
    match r {
        Refusal::Busy { .. } => 429,
        _ => 400,
    }
}

/// The message of a refusal, naming the limit.
pub open spec fn refusal_text(r: Refusal) -> Seq<char> {
    match r {
        Refusal::Steps { steps, max } =>
            decimal(steps as nat) + " steps, the server accepts at most "@ + decimal(max as nat),
        Refusal::GridPoints { dofs, max } =>
            decimal(dofs as nat) + " grid points, the server accepts at most "@ + decimal(max as nat),
        Refusal::Particles { particles, max } =>
            decimal(particles as nat) + " particles, the server accepts at most "@ + decimal(max as nat),
        Refusal::Output { floats, max } =>
            "an output of "@ + decimal(floats as nat)
                + " values (snapshots, population or covariances), the server accepts at most "@
                + decimal(max as nat),
        Refusal::Busy { busy } =>
            "the server is busy: "@ + decimal(busy as nat) + " run(s) in progress, its limit — try again later"@,
    }
}

impl Refusal {
    /// The HTTP status of the refusal.
    pub fn status(&self) -> (r: u16)
        ensures
            r == refusal_status(*self),
    {
        match self {
            Refusal::Busy { .. } => 429,
            _ => 400,
        }
    }

    /// The message of the refusal.
    pub fn message(&self) -> (r: String)
        ensures
            r@ == refusal_text(*self),
    {
        match *self {
            Refusal::Steps { steps, max } => {
                let mut s = format_u64(steps as u64);
                s.append(" steps, the server accepts at most ");
                s.append(format_u64(max as u64).as_str());
                s
            },
            Refusal::GridPoints { dofs, max } => {
                let mut s = format_u64(dofs as u64);
                s.append(" grid points, the server accepts at most ");
                s.append(format_u64(max as u64).as_str());
                s
            },
            Refusal::Particles { particles, max } => {
                let mut s = format_u64(particles as u64);
                s.append(" particles, the server accepts at most ");
                s.append(format_u64(max as u64).as_str());
                s
            },
            Refusal::Output { floats, max } => {
                let mut s = String::from_str("an output of ");
                s.append(format_u64(floats as u64).as_str());
                s.append(" values (snapshots, population or covariances), the server accepts at most ");
                s.append(format_u64(max as u64).as_str());
                s
            },
            Refusal::Busy { busy } => {
                let mut s = String::from_str("the server is busy: ");
                s.append(format_u64(busy as u64).as_str());
                s.append(" run(s) in progress, its limit — try again later");
                s
            },
        }
    }
}

/// The product of the node counts, saturating at `usize::MAX` step by
/// step (the number of grid points of the box).
pub open spec fn saturating_product(n: Seq<int>) -> int
    decreases n.len(),
{
    if n.len() == 0 {
        1
    } else {
        let p = saturating_product(n.drop_last()) * n.last();
        if p > usize::MAX { usize::MAX as int } else { p }
    }
}

/// The admission decision for a job of `steps` steps in dimension `dim`
/// with `busy` runs in progress: the first limit exceeded, in the order
/// steps, grid points (filter and window), particles (particle runs),
/// output size, runs in progress; `Ok` within every limit.
pub open spec fn admission(
    s: Settings,
    e: Estimator,
    config: GridConfig,
    steps: usize,
    dim: usize,
    busy: usize,
) -> Result<(), Refusal> {
    let dofs = saturating_product(node_counts(config.vars@, e));
    let floats = output_size(config, e, steps as int, dim as int);
    if steps > s.max_steps {
        Err(Refusal::Steps { steps, max: s.max_steps })
    } else if on_grid(e) && dofs > s.max_dofs {
        Err(Refusal::GridPoints { dofs: dofs as usize, max: s.max_dofs })
    } else if e == Estimator::Particles && config.n_particles > s.max_particles {
        Err(Refusal::Particles { particles: config.n_particles, max: s.max_particles })
    } else if floats > s.max_output {
        Err(Refusal::Output { floats: floats as usize, max: s.max_output })
    } else if busy >= s.max_runs {
        Err(Refusal::Busy { busy })
    } else {
        Ok(())
    }
}

/// A refusal names the limit exceeded and the offending value; a job is
/// accepted exactly when it is within every limit and the server has room.
pub proof fn refusals_name_the_limit(
    s: Settings,
    e: Estimator,
    config: GridConfig,
    steps: usize,
    dim: usize,
    busy: usize,
)
    requires
        admission_fits(s, e, config, steps, dim),
    ensures
        match admission(s, e, config, steps, dim, busy) {
            Ok(()) => {
                &&& steps <= s.max_steps
                &&& (on_grid(e) ==> saturating_product(node_counts(config.vars@, e)) <= s.max_dofs)
                &&& (e == Estimator::Particles ==> config.n_particles <= s.max_particles)
                &&& output_size(config, e, steps as int, dim as int) <= s.max_output
                &&& busy < s.max_runs
            },
            Err(Refusal::Steps { steps: n, max }) => n == steps && max == s.max_steps && n > max,
            Err(Refusal::GridPoints { dofs, max }) => on_grid(e) && max == s.max_dofs && dofs > max
                && dofs == saturating_product(node_counts(config.vars@, e)),
            Err(Refusal::Particles { particles, max }) => e == Estimator::Particles && particles == config.n_particles
                && max == s.max_particles && particles > max,
            Err(Refusal::Output { floats, max }) => max == s.max_output && floats > max
                && floats == output_size(config, e, steps as int, dim as int),
            Err(Refusal::Busy { busy: b }) => b == busy && busy >= s.max_runs,
        },
        admission(s, e, config, steps, dim, busy) matches Err(r) ==> refusal_status(r) == if r is Busy { 429u16 } else { 400u16 },
{
    lemma_saturating_product_bounds(node_counts(config.vars@, e));
}

proof fn lemma_saturating_product_bounds(n: Seq<int>)
    ensures
        saturating_product(n) <= usize::MAX || n.len() == 0,
    decreases n.len(),
{
    if n.len() > 0 {
        lemma_saturating_product_bounds(n.drop_last());
    }
}

/// Raising limits never turns an accepted job into a refused one, nor do
/// fewer runs in progress.
pub proof fn raising_limits_keeps_jobs_accepted(
    s: Settings,
    t: Settings,
    e: Estimator,
    config: GridConfig,
    steps: usize,
    dim: usize,
    busy: usize,
    fewer: usize,
)
    requires
        admission(s, e, config, steps, dim, busy) is Ok,
        s.max_steps <= t.max_steps,
        s.max_dofs <= t.max_dofs,
        s.max_particles <= t.max_particles,
        s.max_output <= t.max_output,
        s.max_runs <= t.max_runs,
        fewer <= busy,
    ensures
        admission(t, e, config, steps, dim, fewer) is Ok,
{
}

/// The arithmetic the admission performs along its path fits a `usize`:
/// the node counts once the steps are within their limit, the output size
/// once the grid points and particles are too.
pub open spec fn admission_fits(
    s: Settings,
    e: Estimator,
    config: GridConfig,
    steps: usize,
    dim: usize,
) -> bool {
    let dofs = saturating_product(node_counts(config.vars@, e));
    steps <= s.max_steps ==> {
        &&& (on_grid(e) ==> nodes_fit(config.vars@, e))
        &&& ((!on_grid(e) || dofs <= s.max_dofs) && !(e == Estimator::Particles
            && config.n_particles > s.max_particles)) ==> output_fits(config, e, steps as int, dim as int)
    }
}

/// The number of grid points: the node counts multiplied, saturating.
fn grid_points(n: &Vec<usize>) -> (r: usize)
    ensures
        r == saturating_product(n@.map_values(|x: usize| x as int)),
{
    let ghost m = n@.map_values(|x: usize| x as int);
    let mut p: usize = 1;
    let mut i: usize = 0;
    while i < n.len()
        invariant
            i <= n@.len(),
            m == n@.map_values(|x: usize| x as int),
            p == saturating_product(m.take(i as int)),
        decreases n@.len() - i,
    {
        assert(m.take(i + 1).drop_last() =~= m.take(i as int));
        assert(m.take(i + 1).last() == n@[i as int]);
        p = p.checked_mul(n[i]).unwrap_or(usize::MAX);
        i = i + 1;
    }
    assert(m.take(n@.len() as int) =~= m);
    p
}

/// Refuse a job beyond the limits of `s` (400: steps, grid points,
/// particles, output size) or one more run than the server accepts at once
/// while `busy` runs are in progress (429).
pub fn admit_job(
    s: &Settings,
    e: Estimator,
    config: &GridConfig,
    steps: usize,
    dim: usize,
    busy: usize,
) -> (r: Result<(), Refusal>)
    requires
        admission_fits(*s, e, *config, steps, dim),
    ensures
        r == admission(*s, e, *config, steps, dim, busy),
{
    if steps > s.max_steps {
        return Err(Refusal::Steps { steps, max: s.max_steps });
    }
    let ghost dofs_spec = saturating_product(node_counts(config.vars@, e));
    if e == Estimator::Filter || e == Estimator::Window {
        let n = nodes(config, e);
        assert(n@.map_values(|x: usize| x as int) =~= node_counts(config.vars@, e));
        let dofs = grid_points(&n);
        if dofs > s.max_dofs {
            return Err(Refusal::GridPoints { dofs, max: s.max_dofs });
        }
    }
    if e == Estimator::Particles && config.n_particles > s.max_particles {
        return Err(Refusal::Particles { particles: config.n_particles, max: s.max_particles });
    }
    let floats = output_floats(config, e, steps, dim);
    if floats > s.max_output {
        return Err(Refusal::Output { floats, max: s.max_output });
    }
    if busy >= s.max_runs {
        return Err(Refusal::Busy { busy });
    }
    Ok(())
}

/// [`admit_job`] where its arithmetic fits a `usize`; `None` where it
/// would overflow (a job whose sizes do not fit the machine's integers).
pub fn admit_checked(
    s: &Settings,
    e: Estimator,
    config: &GridConfig,
    steps: usize,
    dim: usize,
    busy: usize,
) -> (r: Option<Result<(), Refusal>>)
    ensures
        r is None <==> !admission_fits(*s, e, *config, steps, dim),
        r matches Some(x) ==> x == admission(*s, e, *config, steps, dim, busy),
{
    if steps <= s.max_steps {
        let grid = e == Estimator::Filter || e == Estimator::Window;
        if grid && !nodes_fit_check(config, e) {
            return None;
        }
        let grid_ok = if grid {
            let n = nodes(config, e);
            assert(n@.map_values(|x: usize| x as int) =~= node_counts(config.vars@, e));
            grid_points(&n) <= s.max_dofs
        } else {
            true
        };
        if grid_ok && !(e == Estimator::Particles && config.n_particles > s.max_particles) {
            if checked_output_floats(config, e, steps, dim).is_none() {
                return None;
            }
        }
    }
    Some(admit_job(s, e, config, steps, dim, busy))
}

/// `"<what> <count> <unit>, the <kind> model <dim>"`.
pub open spec fn mismatch_text(what: Seq<char>, count: nat, unit: Seq<char>, m: ModelSpec) -> Seq<char> {
    what + decimal(count) + unit + ", the "@ + spec_kind(m) + " model "@ + decimal(spec_dim(m) as nat)
}

fn mismatch(what: &str, count: usize, unit: &str, m: &ModelSpec) -> (r: String)
    requires
        dim_fits(*m),
    ensures
        r@ == mismatch_text(what@, count as nat, unit@, *m),
{
    let mut s = String::from_str(what);
    s.append(format_u64(count as u64).as_str());
    s.append(unit);
    s.append(", the ");
    s.append(m.kind());
    s.append(" model ");
    s.append(format_u64(m.dim() as u64).as_str());
    s
}

/// A job posted with its reference (`POST /runs`) is refused (400) when
/// its configuration or its reference does not have the model's
/// dimension; the message says which.
pub fn check_job(m: &ModelSpec, vars: usize, ref_dim: usize) -> (r: Result<(), (u16, String)>)
    requires
        dim_fits(*m),
    ensures
        r is Ok <==> vars == spec_dim(*m) && ref_dim == spec_dim(*m),
        r matches Err((code, msg)) ==> code == 400 && msg@ == if vars != spec_dim(*m) {
            mismatch_text("the configuration has "@, vars as nat, " variables"@, *m)
        } else {
            mismatch_text("the reference has "@, ref_dim as nat, " components"@, *m)
        },
{
    let dim = m.dim();
    if vars != dim {
        return Err((400, mismatch("the configuration has ", vars, " variables", m)));
    }
    if ref_dim != dim {
        return Err((400, mismatch("the reference has ", ref_dim, " components", m)));
    }
    Ok(())
}

/// A twin experiment (`POST /twin-runs`) is refused (400) when its
/// initial state or its configuration does not have the model's dimension;
/// the message says which.
pub fn check_twin(m: &ModelSpec, x0_len: usize, vars: usize) -> (r: Result<(), (u16, String)>)
    requires
        dim_fits(*m),
    ensures
        r is Ok <==> x0_len == spec_dim(*m) && vars == spec_dim(*m),
        r matches Err((code, msg)) ==> code == 400 && msg@ == if x0_len != spec_dim(*m) {
            mismatch_text("x0 has "@, x0_len as nat, " entries"@, *m)
        } else {
            mismatch_text("the configuration has "@, vars as nat, " variables"@, *m)
        },
{
    let dim = m.dim();
    if x0_len != dim {
        return Err((400, mismatch("x0 has ", x0_len, " entries", m)));
    }
    if vars != dim {
        return Err((400, mismatch("the configuration has ", vars, " variables", m)));
    }
    Ok(())
}

/// The token an `Authorization` header carries: what follows `Bearer `,
/// trimmed; none without that prefix.
pub open spec fn bearer_token(header: Seq<char>) -> Option<Seq<char>> {
    if header.len() >= 7 && header.take(7) == "Bearer "@ {
        Some(trim(header.skip(7)))
    } else {
        None
    }
}

/// Whether a request passes the token check: always on an open server;
/// with a token configured, only with `Authorization: Bearer <token>`.
pub open spec fn spec_authorized(token: Option<Seq<char>>, header: Option<Seq<char>>) -> bool {
    match token {
        None => true,
        Some(t) => match header {
            Some(h) => bearer_token(h) == Some(t),
            None => false,
        },
    }
}

/// With a token configured, refuse (401) any API request not carrying it
/// as `Authorization: Bearer <token>`.
pub fn authorized(token: Option<&str>, header: Option<&str>) -> (r: bool)
    ensures
        r == spec_authorized(
            match token { Some(t) => Some(t@), None => None },
            match header { Some(h) => Some(h@), None => None },
        ),
{
    let t = match token {
        None => return true,
        Some(t) => t,
    };
    let h = match header {
        None => return false,
        Some(h) => h,
    };
    let v = chars_of(h);
    let prefix = chars_of("Bearer ");
    proof {
        reveal_strlit("Bearer ");
    }
    if v.len() < 7 {
        return false;
    }
    let mut i: usize = 0;
    while i < 7
        invariant
            i <= 7 <= v@.len(),
            prefix@ == "Bearer "@,
            prefix@.len() == 7,
            v@ == h@,
            token == Some(t),
            header == Some(h),
            forall|k: int| 0 <= k < i ==> v@[k] == prefix@[k],
        decreases 7 - i,
    {
        if v[i] != prefix[i] {
            assert(v@.take(7)[i as int] != "Bearer "@[i as int]);
            return false;
        }
        i = i + 1;
    }
    assert(v@.take(7) =~= "Bearer "@);
    let (a, b) = trim_bounds(&v, 7, v.len());
    assert(v@.subrange(7, v@.len() as int) =~= v@.skip(7));
    let tv = chars_of(t);
    if b - a != tv.len() {
        return false;
    }
    let mut j: usize = 0;
    while j < tv.len()
        invariant
            7 <= a <= b <= v@.len(),
            b - a == tv@.len(),
            v@ == h@,
            tv@ == t@,
            token == Some(t),
            header == Some(h),
            v@.take(7) == "Bearer "@,
            v@.subrange(a as int, b as int) == trim(v@.skip(7)),
            j <= tv@.len(),
            forall|k: int| 0 <= k < j ==> v@[a + k] == tv@[k],
        decreases tv@.len() - j,
    {
        if v[a + j] != tv[j] {
            assert(v@.subrange(a as int, b as int)[j as int] != tv@[j as int]);
            return false;
        }
        j = j + 1;
    }
    assert(v@.subrange(a as int, b as int) =~= tv@);
    true
}

/// The token check of every API request: passes, or refuses with 401.
pub fn require_token(token: Option<&str>, header: Option<&str>) -> (r: Result<(), u16>)
    ensures
        r == if spec_authorized(
            match token { Some(t) => Some(t@), None => None },
            match header { Some(h) => Some(h@), None => None },
        ) {
            Ok::<(), u16>(())
        } else {
            Err::<(), u16>(401)
        },
{
    if authorized(token, header) {
        Ok(())
    } else {
        Err(401)
    }
}

/// The period of the sweeper of idle runs, in nanoseconds: a quarter of
/// the TTL, within 50 ms and 30 s.
pub fn sweep_period_ns(ttl_ns: u128) -> (r: u128)
    ensures
        r == if ttl_ns / 4 < 50_000_000 {
            50_000_000
        } else if ttl_ns / 4 > 30_000_000_000 {
            30_000_000_000
        } else {
            ttl_ns / 4
        },
{
    let q = ttl_ns / 4;
    if q < 50_000_000 {
        50_000_000
    } else if q > 30_000_000_000 {
        30_000_000_000
    } else {
        q
    }
}

} // verus!
