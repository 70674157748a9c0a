use smtmv::checker::{classify, validation_theory, BatchChecker, CheckResult};
use smtmv::error::Error;
use smtmv::lemma::{Lemma, Theory};

#[test]
fn lemma_renders_premises_and_conclusions() {
    let mut lemma = Lemma::new("validation");
    lemma.add_premise("x = (1::int)").add_premise("y = (2::int)");
    lemma.add_conclusion("a").add_conclusion("b");
    assert_eq!(
        lemma.to_isabelle(),
        "\nlemma validation: assumes \"x = (1::int)\" and \"y = (2::int)\" shows \"a \\<and> b\"\n    apply(simp add: assms)\n    done\n"
    );
}

#[test]
fn lemma_without_premises() {
    let mut lemma = Lemma::new("l");
    lemma.add_conclusion("True");
    assert_eq!(
        lemma.to_isabelle(),
        "\nlemma l: assumes  shows \"True\"\n    apply(simp add: assms)\n    done\n"
    );
}

#[test]
fn lemma_add_many() {
    let mut a = Lemma::new("n");
    a.add_premises(&["p".to_owned(), "q".to_owned()]);
    a.add_conclusions(&["c".to_owned(), "d".to_owned()]);
    let mut b = Lemma::new("n");
    b.add_premise("p").add_premise("q");
    b.add_conclusion("c").add_conclusion("d");
    assert_eq!(a.to_isabelle(), b.to_isabelle());
    assert_eq!(a.clone().to_isabelle(), a.to_isabelle());
    assert_eq!(a.hint_names(), vec!["assms".to_owned()]);
    assert_eq!(Lemma::default().to_isabelle(), Lemma::new("").to_isabelle());
}

#[test]
fn lemma_splits_by_conclusion() {
    let mut lemma = Lemma::new("v");
    lemma.add_premise("p");
    for i in 0..11 {
        lemma.add_conclusion(&format!("c{}", i));
    }
    let parts = lemma.split_conclusion();
    assert_eq!(parts.len(), 11);
    assert_eq!(
        parts[0].to_isabelle(),
        "\nlemma v_0: assumes \"p\" shows \"c0\"\n    apply(simp add: assms)\n    done\n"
    );
    assert_eq!(
        parts[10].to_isabelle(),
        "\nlemma v_10: assumes \"p\" shows \"c10\"\n    apply(simp add: assms)\n    done\n"
    );
}

#[test]
fn theory_with_default_import() {
    let theory = Theory::new("T", false);
    assert_eq!(theory.to_isabelle(), "theory T\n\timports  Main\nbegin\n\nend\n");
    assert_eq!(Theory::default().to_isabelle(), "theory \n\timports  Main\nbegin\n\nend\n");
}

#[test]
fn theory_with_imports_and_lemma() {
    let mut lemma = Lemma::new("l");
    lemma.add_premise("p").add_conclusion("c");
    let mut theory = Theory::new("Validation", false);
    theory.add_theory_import("smt.Strings").add_theory_import("smt.Core");
    theory.add_lemma(lemma.clone());
    let expected = format!(
        "theory Validation\n\timports smt.Strings smt.Core \nbegin\n\n{}\nend\n",
        lemma.to_isabelle()
    );
    assert_eq!(theory.to_isabelle(), expected);
    assert_eq!(validation_theory(&lemma), expected);
}

#[test]
fn splitting_theory_adds_one_goal_for_each_conclusion() {
    let mut lemma = Lemma::new("l");
    lemma.add_premise("p").add_conclusion("c").add_conclusion("d");
    let mut theory = Theory::new("T", true);
    theory.add_lemma(lemma);
    assert_eq!(
        theory.to_isabelle(),
        "theory T\n\timports  Main\nbegin\n\n\nlemma l_0: assumes \"p\" shows \"c\"\n    apply(simp add: assms)\n    done\n\n\nlemma l_1: assumes \"p\" shows \"d\"\n    apply(simp add: assms)\n    done\n\nend\n"
    );
}

#[test]
fn classify_success_is_ok() {
    assert_eq!(classify(true, "Failed to finish proof 1. False", "").unwrap(), CheckResult::OK);
    assert_eq!(classify(true, "", "").unwrap(), CheckResult::OK);
}

#[test]
fn classify_unfinished_proof() {
    assert_eq!(
        classify(false, "*** Failed to finish proof:\n*** goal:\n*** 1. False", "").unwrap(),
        CheckResult::FailedInvalid
    );
    assert_eq!(
        classify(false, "*** Failed to finish proof:\n*** 1. x = 2", "1. False").unwrap(),
        CheckResult::FailedUnknown
    );
}

#[test]
fn classify_other_failure_is_an_error() {
    match classify(false, "1. False", "boom") {
        Err(Error::OracleTerminalFailure(text)) => assert_eq!(text, "1. Falseboom"),
        other => panic!("{:?}", other),
    }
    assert!(matches!(classify(false, "", ""), Err(Error::OracleTerminalFailure(_))));
}

#[test]
fn batch_checker_keeps_its_root() {
    assert_eq!(BatchChecker::new("/tmp/th").theory_root(), "/tmp/th");
}

#[test]
fn error_messages() {
    assert_eq!(
        Error::UnsupportedOperator("f".to_owned()).to_string(),
        "Unsupported SMT-LIB function: f"
    );
    assert_eq!(Error::UnknownOperator("g".to_owned()).to_string(), "Unknown SMT-LIB function: g");
    assert_eq!(Error::MalformedConstant("\\u".to_owned()).to_string(), "Malformed constant: \\u");
    assert_eq!(Error::UnsupportedConstruct("let".to_owned()).to_string(), "Unsupported construct: let");
    assert_eq!(Error::InvalidSpec("=".to_owned()).to_string(), "Error: =");
    assert_eq!(Error::ParseError("e".to_owned()).to_string(), "Parse error: e");
    assert_eq!(
        Error::OracleTransportError("t".to_owned()).to_string(),
        "Isabelle could not be reached: t"
    );
    assert_eq!(
        Error::OracleTerminalFailure("x".to_owned()).to_string(),
        "Isabelle failed to check proof: x"
    );
}
