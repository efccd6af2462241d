use odeon::docs::models_page;

#[test]
fn page_of_a_model_is_read_from_the_aux_file() {
    let aux = "\\newlabel{model:spring}{{1}{2}{Linear spring chain}{section.1}{}}\n\
               \\newlabel{model:kepler_mu}{{6}{7}{Kepler problem with an unknown gravitational parameter}{section.6}{}}\n";
    assert_eq!(models_page(aux, "spring"), Some(2));
    assert_eq!(models_page(aux, "kepler_mu"), Some(7));
    assert_eq!(models_page(aux, "kepler"), None);
    assert_eq!(models_page("", "spring"), None);
}

#[test]
fn the_page_number_may_be_padded_and_signed() {
    assert_eq!(models_page("\\newlabel{model:lorenz}{{3}{ +12 }{Lorenz}}", "lorenz"), Some(12));
    assert_eq!(models_page("\\newlabel{model:lorenz}{{3}{}{Lorenz}}", "lorenz"), None);
    assert_eq!(models_page("\\newlabel{model:lorenz}{{3}{x}{Lorenz}}", "lorenz"), None);
    assert_eq!(models_page("\\newlabel{model:lorenz}{{3}{-4}{Lorenz}}", "lorenz"), None);
    assert_eq!(models_page("\\newlabel{model:lorenz}{{3}{4294967295}{L}}", "lorenz"), Some(u32::MAX));
    assert_eq!(models_page("\\newlabel{model:lorenz}{{3}{4294967296}{L}}", "lorenz"), None);
    assert_eq!(models_page("\\newlabel{model:lorenz}{{3}x{4}{L}}", "lorenz"), None);
    assert_eq!(models_page("\\newlabel{model:lorenz}{{3", "lorenz"), None);
}

#[test]
fn the_first_label_of_a_model_counts() {
    let aux = "\\newlabel{model:a}{{1}{5}{A}}\\newlabel{model:a}{{2}{9}{A}}";
    assert_eq!(models_page(aux, "a"), Some(5));
}
