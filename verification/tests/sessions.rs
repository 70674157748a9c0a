use smtmv::checker::{classify, BatchChecker, CheckResult, LemmaChecker};
use smtmv::convert::Converter;
use smtmv::error::Error;
use smtmv::lemma::Lemma;
use smtmv::session::{ClientChecker, SessionPhase, SessionReply};
use smtmv::spec_table::{Namespace, Spec, SpecDef, SpecEntry};
use smtmv::validation::{validate, ValidationResult};

fn goal() -> Lemma {
    let mut lemma = Lemma::new("validation");
    lemma.add_premise("x = (1::int)").add_conclusion("((=)  x (1::int))");
    lemma
}

fn ready() -> ClientChecker {
    let mut s = ClientChecker::new("/th");
    s.begin_start().unwrap();
    s.finish_start(Ok(("id-1".to_owned(), "/tmp/s".to_owned()))).unwrap();
    s
}

#[test]
fn batch_request_for_a_goal() {
    let r = BatchChecker::new("/th").request(&goal());
    assert_eq!(r.file_name, "Validation.thy");
    assert_eq!(r.theories, vec!["Validation".to_owned()]);
    assert_eq!(r.session_dirs, vec!["/th".to_owned()]);
    assert_eq!(r.logic, "smt");
    let options: Vec<(&str, &str)> =
        r.options.iter().map(|(k, v)| (k.as_str(), v.as_str())).collect();
    assert_eq!(
        options,
        vec![
            ("build_pide_reports", "false"),
            ("pide_reports", "false"),
            ("process_output_limit", "1"),
            ("process_output_tail", "1"),
            ("record_proofs", "0"),
            ("parallel_proofs", "0"),
            ("quick_and_dirty", "true"),
        ]
    );
    assert_eq!(
        r.text,
        format!(
            "theory Validation\n\timports smt.Strings smt.Core \nbegin\n\n{}\nend\n",
            goal().to_isabelle()
        )
    );
}

#[test]
fn session_starts_once() {
    let mut s = ClientChecker::new("/th");
    assert_eq!(s.phase(), SessionPhase::Uninitialized);
    let start = s.begin_start().unwrap();
    assert_eq!(s.phase(), SessionPhase::Starting);
    assert_eq!(start.session, "HOL");
    assert_eq!(start.dirs, vec!["/th".to_owned()]);
    assert_eq!(start.include_sessions, vec!["smt".to_owned()]);
    assert_eq!(
        start.options,
        vec![
            "system_log=false".to_owned(),
            "process_output_limit=1".to_owned(),
            "process_output_tail=1".to_owned(),
            "pide_reports=false".to_owned(),
            "build_pide_reports=false".to_owned(),
            "headless_check_limit=1".to_owned(),
        ]
    );
    s.finish_start(Ok(("id-1".to_owned(), "/tmp/s".to_owned()))).unwrap();
    assert_eq!(s.phase(), SessionPhase::Ready);
    assert!(matches!(s.begin_start(), Err(Error::OracleTransportError(_))));
    assert_eq!(s.phase(), SessionPhase::Terminal);
}

#[test]
fn session_that_fails_to_start_is_terminal() {
    let mut s = ClientChecker::new("/th");
    s.begin_start().unwrap();
    match s.finish_start(Err("no image".to_owned())) {
        Err(Error::OracleTransportError(m)) => assert_eq!(m, "no image"),
        other => panic!("{:?}", other),
    }
    assert_eq!(s.phase(), SessionPhase::Terminal);
    assert!(s.begin_check(&goal()).is_err());
    assert!(s.begin_start().is_err());
    assert!(s.finish_purge(true).is_err());
    assert_eq!(s.phase(), SessionPhase::Terminal);
}

#[test]
fn session_checks_and_purges_in_turn() {
    let mut s = ready();
    for (reply, expected) in [
        (SessionReply::Finished { ok: true, messages: String::new() }, Some(CheckResult::OK)),
        (
            SessionReply::Finished {
                ok: false,
                messages: "Failed to finish proof: 1. False".to_owned(),
            },
            Some(CheckResult::FailedInvalid),
        ),
        (
            SessionReply::Failed("Failed to finish proof: 1. x".to_owned()),
            Some(CheckResult::FailedUnknown),
        ),
        (
            SessionReply::Finished { ok: false, messages: String::new() },
            Some(CheckResult::FailedUnknown),
        ),
        (
            SessionReply::Finished { ok: false, messages: "1. False".to_owned() },
            Some(CheckResult::FailedUnknown),
        ),
        (
            SessionReply::Finished { ok: false, messages: "Failed to finish proof".to_owned() },
            Some(CheckResult::FailedUnknown),
        ),
        (SessionReply::Failed("crash".to_owned()), None),
        (SessionReply::Refused("Failed to finish proof".to_owned()), None),
    ] {
        let use_theory = s.begin_check(&goal()).unwrap();
        assert_eq!(s.phase(), SessionPhase::Checking);
        assert_eq!(use_theory.session_id, "id-1");
        assert_eq!(use_theory.dir, "/tmp/s");
        assert_eq!(use_theory.file_name, "Validation.thy");
        assert_eq!(use_theory.theory_name, "Validation");
        assert_eq!(use_theory.master_dir, "/th");
        assert_eq!(use_theory.check_limit, 1);
        assert!(use_theory.unicode_symbols);
        assert!(use_theory.text.contains("lemma validation: assumes \"x = (1::int)\""));
        let purge = s.finish_check(reply).unwrap();
        assert_eq!(s.phase(), SessionPhase::Purging);
        assert_eq!(purge.session_id, "id-1");
        assert_eq!(purge.dir, "/tmp/s");
        assert_eq!(purge.theory_name, "Validation");
        assert_eq!(purge.master_dir, "/th");
        match (s.finish_purge(true), expected) {
            (Ok(c), Some(e)) => assert_eq!(c, e),
            (Err(Error::OracleTerminalFailure(_)), None) => {},
            other => panic!("{:?}", other),
        }
        assert_eq!(s.phase(), SessionPhase::Ready);
    }
}

#[test]
fn session_that_fails_to_purge_is_terminal() {
    let mut s = ready();
    s.begin_check(&goal()).unwrap();
    s.finish_check(SessionReply::Finished { ok: true, messages: String::new() }).unwrap();
    match s.finish_purge(false) {
        Err(Error::OracleTransportError(m)) => assert_eq!(m, "failed to purge theory"),
        other => panic!("{:?}", other),
    }
    assert_eq!(s.phase(), SessionPhase::Terminal);
    assert!(s.begin_check(&goal()).is_err());
}

#[test]
fn session_used_out_of_turn_is_terminal() {
    let mut s = ready();
    s.begin_check(&goal()).unwrap();
    assert!(matches!(s.begin_check(&goal()), Err(Error::OracleTransportError(_))));
    assert_eq!(s.phase(), SessionPhase::Terminal);
    let mut s = ready();
    assert!(s.finish_check(SessionReply::Failed(String::new())).is_err());
    assert_eq!(s.phase(), SessionPhase::Terminal);
    let mut s = ready();
    assert!(s.finish_purge(true).is_err());
    assert_eq!(s.phase(), SessionPhase::Terminal);
    let mut s = ClientChecker::new("/th");
    assert!(s.finish_start(Ok((String::new(), String::new()))).is_err());
    assert_eq!(s.phase(), SessionPhase::Terminal);
}

struct Kernel {
    runs: usize,
    stdout: String,
}

impl LemmaChecker for Kernel {
    fn check(&mut self, _lemma: &Lemma) -> Result<CheckResult, Error> {
        self.runs += 1;
        classify(false, &self.stdout, "")
    }
}

#[test]
fn scenario_false_goal_in_the_diagnostics() {
    let converter = Converter::new(SpecDef {
        version: "1".to_owned(),
        smt_lib_version: "2.6".to_owned(),
        specs: vec![Namespace {
            name: "Core".to_owned(),
            entries: vec![SpecEntry {
                operator: "=".to_owned(),
                spec: Spec { mapsto: Some("=".to_owned()), assoc: None, chainable: true },
            }],
        }],
    })
    .unwrap();
    let mut kernel = Kernel {
        runs: 0,
        stdout: "*** Failed to finish proof (line 5):\n*** goal (1 subgoal):\n***  1. False"
            .to_owned(),
    };
    let r = validate(
        "(define-fun x () Int 1)".to_owned(),
        "(assert (= x 2))".to_owned(),
        converter,
        &mut kernel,
    );
    assert_eq!(r.unwrap(), ValidationResult::Invalid);
    assert_eq!(kernel.runs, 1);
}
