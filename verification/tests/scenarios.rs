use smtmv::checker::{CheckResult, LemmaChecker};
use smtmv::convert::Converter;
use smtmv::error::Error;
use smtmv::lemma::Lemma;
use smtmv::spec_table::{Namespace, Spec, SpecDef, SpecEntry};
use smtmv::term::{SmtCommand, SmtConstant, SmtIdentifier, SmtTerm};
use smtmv::validation::{
    conclude, prepare, prepare_parsed, validate, Prepared, ValidationResult,
};

struct Double {
    calls: usize,
    seen: Vec<String>,
    answer: CheckResult,
    fail: bool,
}

impl Double {
    fn answering(answer: CheckResult) -> Self {
        Double { calls: 0, seen: Vec::new(), answer, fail: false }
    }
}

impl LemmaChecker for Double {
    fn check(&mut self, lemma: &Lemma) -> Result<CheckResult, Error> {
        self.calls += 1;
        self.seen.push(lemma.to_isabelle());
        if self.fail {
            Err(Error::OracleTransportError("no kernel".to_owned()))
        } else {
            Ok(self.answer)
        }
    }
}

fn converter() -> Converter {
    Converter::new(SpecDef {
        version: "1".to_owned(),
        smt_lib_version: "2.6".to_owned(),
        specs: vec![Namespace {
            name: "Core".to_owned(),
            entries: vec![SpecEntry {
                operator: "=".to_owned(),
                spec: Spec { mapsto: Some("=".to_owned()), assoc: None, chainable: true },
            }],
        }],
    })
    .unwrap()
}

#[test]
fn scenario_valid_model() {
    let mut double = Double::answering(CheckResult::OK);
    let r = validate(
        "sat\n((define-fun x () Int 1))".to_owned(),
        "(assert (= x 1))".to_owned(),
        converter(),
        &mut double,
    );
    assert_eq!(r.unwrap(), ValidationResult::Valid);
    assert_eq!(double.calls, 1);
    assert_eq!(
        double.seen[0],
        "\nlemma validation: assumes \"x = (1::int)\" shows \"((=)  x (1::int))\"\n    apply(simp add: assms)\n    done\n"
    );
}

#[test]
fn scenario_invalid_model() {
    let mut double = Double::answering(CheckResult::FailedInvalid);
    let r = validate(
        "(define-fun x () Int 1)".to_owned(),
        "(assert (= x 2))".to_owned(),
        converter(),
        &mut double,
    );
    assert_eq!(r.unwrap(), ValidationResult::Invalid);
    assert_eq!(double.calls, 1);
    assert!(double.seen[0].contains("assumes \"x = (1::int)\" shows \"((=)  x (2::int))\""));
}

#[test]
fn scenario_undecided() {
    let mut double = Double::answering(CheckResult::FailedUnknown);
    let r = validate(
        "(define-fun x () Int 1)".to_owned(),
        "(assert (= x 2))".to_owned(),
        converter(),
        &mut double,
    );
    assert_eq!(r.unwrap(), ValidationResult::Unknown);
}

#[test]
fn scenario_unsat_short_circuits() {
    let mut double = Double::answering(CheckResult::OK);
    let r = validate("unsat\n".to_owned(), "(assert (= x".to_owned(), converter(), &mut double);
    assert_eq!(r.unwrap(), ValidationResult::Unknown);
    assert_eq!(double.calls, 0);
    assert!(matches!(
        prepare("unsat".to_owned(), "(assert (bad x))".to_owned(), converter()),
        Ok(Prepared::Unsat)
    ));
}

#[test]
fn scenario_unassigned_variable() {
    let mut double = Double::answering(CheckResult::OK);
    let r = validate(
        "sat\n((define-fun x () Int 1))".to_owned(),
        "(assert (= x y))".to_owned(),
        converter(),
        &mut double,
    );
    assert_eq!(r.unwrap(), ValidationResult::Invalid);
    assert_eq!(double.calls, 0);
    match prepare(
        "(define-fun x () Int 1)".to_owned(),
        "(assert (= x y))(assert (= z x))".to_owned(),
        converter(),
    ) {
        Ok(Prepared::Unassigned(names)) => assert_eq!(names, vec!["y".to_owned(), "z".to_owned()]),
        other => panic!("{:?}", other),
    }
}

#[test]
fn scenario_unknown_operator() {
    let mut double = Double::answering(CheckResult::OK);
    let r = validate(
        "(define-fun x () Int 1)".to_owned(),
        "(assert (frob x 1))".to_owned(),
        converter(),
        &mut double,
    );
    match r {
        Err(Error::UnknownOperator(op)) => assert_eq!(op, "frob"),
        other => panic!("{:?}", other),
    }
    assert_eq!(double.calls, 0);
}

#[test]
fn scenario_checker_failure_is_an_error() {
    let mut double = Double::answering(CheckResult::OK);
    double.fail = true;
    let r = validate(
        "(define-fun x () Int 1)".to_owned(),
        "(assert (= x 1))".to_owned(),
        converter(),
        &mut double,
    );
    assert!(matches!(r, Err(Error::OracleTransportError(_))));
    assert_eq!(double.calls, 1);
}

#[test]
fn scenario_model_that_does_not_parse() {
    let mut double = Double::answering(CheckResult::OK);
    let r = validate("sat\n((define-fun x (".to_owned(), "(assert (= x 1))".to_owned(), converter(), &mut double);
    assert!(matches!(r, Err(Error::ParseError(_))));
    assert_eq!(double.calls, 0);
}

#[test]
fn defined_variables_leave_nothing_undefined() {
    let mut c = converter();
    c.convert("(assert (= a b))".to_owned()).unwrap();
    c.convert("(define-fun b () Int 1)(define-fun a () Int 2)(define-fun c () Int 3)".to_owned())
        .unwrap();
    assert!(c.undefined_vars().is_empty());
}

#[test]
fn conclude_maps_one_to_one() {
    assert_eq!(conclude(Ok(CheckResult::OK)).unwrap(), ValidationResult::Valid);
    assert_eq!(conclude(Ok(CheckResult::FailedUnknown)).unwrap(), ValidationResult::Unknown);
    assert_eq!(conclude(Ok(CheckResult::FailedInvalid)).unwrap(), ValidationResult::Invalid);
    assert!(matches!(
        conclude(Err(Error::OracleTerminalFailure("x".to_owned()))),
        Err(Error::OracleTerminalFailure(_))
    ));
}

fn var(n: &str) -> SmtTerm {
    SmtTerm::Name(SmtIdentifier { name: n.to_owned(), indexed: false })
}

fn numeral(n: &str) -> SmtTerm {
    SmtTerm::Literal(SmtConstant::Numeral(n.to_owned()))
}

fn apply(op: &str, arguments: Vec<SmtTerm>) -> SmtTerm {
    SmtTerm::Application { head: SmtIdentifier { name: op.to_owned(), indexed: false }, arguments }
}

#[test]
fn read_scripts_come_to_a_goal() {
    let formula = vec![SmtCommand::Assert(apply("=", vec![var("x"), numeral("2")]))];
    let model = vec![SmtCommand::DefineFun { name: "x".to_owned(), body: numeral("1") }];
    match prepare_parsed(Ok(formula), Ok(model), converter()) {
        Ok(Prepared::Goal(lemma)) => assert_eq!(
            lemma.to_isabelle(),
            "\nlemma validation: assumes \"x = (1::int)\" shows \"((=)  x (2::int))\"\n    apply(simp add: assms)\n    done\n"
        ),
        other => panic!("{:?}", other),
    }
}

#[test]
fn read_scripts_with_an_unassigned_variable() {
    let formula = vec![SmtCommand::Assert(apply("=", vec![var("y"), numeral("1")]))];
    let model = vec![SmtCommand::DefineFun { name: "x".to_owned(), body: numeral("1") }];
    match prepare_parsed(Ok(formula), Ok(model), converter()) {
        Ok(Prepared::Unassigned(names)) => assert_eq!(names, vec!["y".to_owned()]),
        other => panic!("{:?}", other),
    }
}

#[test]
fn read_scripts_fail_in_their_turn() {
    let unknown = vec![SmtCommand::Assert(apply("foo", vec![var("x")]))];
    match prepare_parsed(Ok(unknown), Err("model".to_owned()), converter()) {
        Err(Error::UnknownOperator(op)) => assert_eq!(op, "foo"),
        other => panic!("{:?}", other),
    }
    match prepare_parsed(Err("formula".to_owned()), Err("model".to_owned()), converter()) {
        Err(Error::ParseError(m)) => assert_eq!(m, "formula"),
        other => panic!("{:?}", other),
    }
    match prepare_parsed(Ok(vec![]), Err("model".to_owned()), converter()) {
        Err(Error::ParseError(m)) => assert_eq!(m, "model"),
        other => panic!("{:?}", other),
    }
    match prepare_parsed(Ok(vec![]), Ok(vec![SmtCommand::Assert(SmtTerm::Let)]), converter()) {
        Err(Error::UnsupportedConstruct(w)) => assert_eq!(w, "let"),
        other => panic!("{:?}", other),
    }
    assert!(matches!(prepare_parsed(Ok(vec![]), Ok(vec![]), converter()), Ok(Prepared::Goal(_))));
}
