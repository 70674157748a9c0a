use smtmv::validation::{is_unsat, sanitize_model};

#[test]
fn test_sanitize_model_sat() {
    let model = "sat\n((define-fun x () Int 1))".to_owned();
    assert_eq!(sanitize_model(&model), "(define-fun x () Int 1)".to_owned());
}

#[test]
fn test_sanitize_model_sat_old_z3() {
    let model = "sat\n(model (define-fun x () Int 1))".to_owned();
    assert_eq!(sanitize_model(&model), "(define-fun x () Int 1)".to_owned());
}

#[test]
fn sanitize_keeps_a_bare_model() {
    assert_eq!(sanitize_model("  (define-fun x () Int 1)\n"), "(define-fun x () Int 1)");
}

#[test]
fn sanitize_without_closing_parenthesis() {
    assert_eq!(sanitize_model("sat\n(x"), "x");
}

#[test]
fn sanitize_empty_and_blank() {
    assert_eq!(sanitize_model(""), "");
    assert_eq!(sanitize_model(" \n\t "), "");
}

#[test]
fn sanitize_trims_unicode_white_space() {
    assert_eq!(sanitize_model("\u{a0}\u{2003}x\u{3000}"), "x");
}

#[test]
fn unsat_is_recognised() {
    assert!(is_unsat("unsat"));
    assert!(is_unsat("  unsat\n"));
    assert!(!is_unsat("sat"));
    assert!(!is_unsat("unsat (x)"));
    assert!(!is_unsat(""));
}
