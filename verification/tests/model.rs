use odeon::model::{KeplerObservation, LorenzObservation, ModelSpec};
use odeon::palette::series;
use odeon::docs::{pdf_fragment, pdf_url, preferred_browser};

fn every_spec() -> Vec<ModelSpec> {
    let mut specs = Vec::new();
    for n in 1..=3 {
        specs.push(ModelSpec::Spring { n, obs: n - 1 });
        specs.push(ModelSpec::SpringMass { n, obs: 0 });
    }
    specs.push(ModelSpec::Pendulum);
    specs.push(ModelSpec::PendulumRod);
    specs.push(ModelSpec::Kepler { observation: KeplerObservation::Range });
    specs.push(ModelSpec::KeplerMu { observation: KeplerObservation::Q1 });
    specs.push(ModelSpec::Lorenz { observation: LorenzObservation::X });
    specs.push(ModelSpec::Lamppost);
    specs
}

#[test]
fn spec_every_spec_is_built_at_its_dimension() {
    let specs = every_spec();
    assert_eq!(specs.len(), 12);
    for spec in &specs {
        assert!(spec.buildable(), "{}", spec.kind());
        let m = spec.build_dim();
        assert_eq!(m, spec.dim(), "{}: visited at M = {m}", spec.kind());
        let labels = spec.state_labels().len();
        assert_eq!(labels, spec.dim(), "{}: model has {labels} components", spec.kind());
    }
}

#[test]
fn unsupported_chains_cannot_be_built() {
    assert!(!ModelSpec::Spring { n: 4, obs: 0 }.buildable());
    assert!(!ModelSpec::SpringMass { n: 0, obs: 0 }.buildable());
    assert_eq!(ModelSpec::Spring { n: 4, obs: 0 }.dim(), 8);
}

#[test]
fn kinds_and_labels() {
    let kinds: Vec<&str> = every_spec().iter().map(|s| s.kind()).collect();
    assert_eq!(
        kinds,
        ["spring", "spring_mass", "spring", "spring_mass", "spring", "spring_mass", "pendulum", "pendulum_rod", "kepler", "kepler_mu", "lorenz", "lamppost"]
    );
    assert_eq!(ModelSpec::Spring { n: 2, obs: 0 }.state_labels(), ["y_1", "y_2", "v_1", "v_2"]);
    assert_eq!(ModelSpec::SpringMass { n: 1, obs: 0 }.state_labels(), ["y_1", "v_1", "θ"]);
    assert_eq!(ModelSpec::KeplerMu { observation: KeplerObservation::Bearing }.state_labels(), ["q_1", "q_2", "p_1", "p_2", "θ"]);
    assert_eq!(ModelSpec::Lamppost.state_labels(), ["x", "y"]);
    let labels: Vec<&str> = KeplerObservation::ALL.iter().map(|o| o.label()).collect();
    assert_eq!(labels, ["q₁", "|q|", "bearing"]);
    let labels: Vec<&str> = LorenzObservation::ALL.iter().map(|o| o.label()).collect();
    assert_eq!(labels, ["x", "y", "z"]);
    let idx: Vec<usize> = LorenzObservation::ALL.iter().map(|o| o.index()).collect();
    assert_eq!(idx, [0, 1, 2]);
    assert_eq!(KeplerObservation::default(), KeplerObservation::Q1);
    assert_eq!(LorenzObservation::default(), LorenzObservation::X);
    let wide = ModelSpec::Spring { n: 12, obs: 0 }.state_labels();
    assert_eq!(wide[11], "y_12");
    assert_eq!(wide[23], "v_12");
}

#[test]
fn series_colors_are_fixed_and_never_cycle() {
    assert_eq!(series(0, false), (0x2a, 0x78, 0xd6));
    assert_eq!(series(1, true), (0xd9, 0x59, 0x26));
    assert_eq!(series(5, false), (0x00, 0x83, 0x00));
    assert_eq!(series(40, true), (0x00, 0x83, 0x00));
}

#[test]
fn the_note_link() {
    assert_eq!(pdf_fragment(Some(7), "kepler_mu"), "page=7");
    assert_eq!(pdf_fragment(None, "kepler_mu"), "nameddest=kepler_mu");
    assert_eq!(pdf_url("/Users/me/My Docs/models.pdf", "page=2"), "file:///Users/me/My%20Docs/models.pdf#page=2");
    assert_eq!(preferred_browser(&[false, false, true, true, false, false]), "Chromium");
    assert_eq!(preferred_browser(&[false; 6]), "Safari");
    assert_eq!(preferred_browser(&[true; 6]), "Firefox");
}
