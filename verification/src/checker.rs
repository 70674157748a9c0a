//! What is handed to the proof kernel for a goal, and how its answer
//! is read.

use vstd::prelude::*;
use crate::error::{Error, ErrorView};
use crate::lemma::{lemma_text, theory_text, Lemma, Theory, TheoryView};
use crate::text::{contains, push_text, text_contains, text_of, texts};

verus! {

/// The result of checking a goal.
#[derive(Debug, Clone, Copy, PartialEq, Eq, Structural)]
pub enum CheckResult {
    /// The proof went through.
    OK,
    /// The proof could not be finished, for a reason that is not known.
    FailedUnknown,
    /// The proof could not be finished and a goal was left that is false.
    FailedInvalid,
}

/// Something that can check a goal: a run of the proof kernel, or a
/// stand-in for one.
pub trait LemmaChecker {
    /// Checks whether the given goal holds.
    fn check(&mut self, lemma: &Lemma) -> Result<CheckResult, Error>;
}

/// The kernel's words for a proof that it could not finish.
pub open spec fn unfinished_marker() -> Seq<char> {
    "Failed to finish proof"@
}

/// The kernel's words for a first goal that is left and is false.
pub open spec fn false_marker() -> Seq<char> {
    "1. False"@
}

/// How the kernel's answer is read. Success is a valid goal. Without
/// success, output that holds the marker of an unfinished proof is an
/// invalid goal where it also holds the marker of a false goal, and an
/// undecided one where it does not. This goes by the text alone, not by
/// the structure of the proof state: a false goal that has nothing to do
/// with the model can be taken for an invalid one. Any other failure is an
/// error that carries the output and the error output.
pub open spec fn classified(success: bool, stdout: Seq<char>, stderr: Seq<char>) -> Result<
    CheckResult,
    ErrorView,
> {
    if success {
        Ok(CheckResult::OK)
    } else if contains(stdout, unfinished_marker()) {
        if contains(stdout, false_marker()) {
            Ok(CheckResult::FailedInvalid)
        } else {
            Ok(CheckResult::FailedUnknown)
        }
    } else {
        Err(ErrorView::OracleTerminalFailure(stdout + stderr))
    }
}

/// Reads the kernel's answer: whether it reported success, and what it printed.
pub fn classify(success: bool, stdout: &str, stderr: &str) -> (r: Result<CheckResult, Error>)
    ensures
        match classified(success, stdout@, stderr@) {
            Ok(c) => r == Ok::<CheckResult, Error>(c),
            Err(e) => r is Err && r->Err_0@ == e,
        },
{
    if success {
        Ok(CheckResult::OK)
    } else if text_contains(stdout, "Failed to finish proof") {
        if text_contains(stdout, "1. False") {
            Ok(CheckResult::FailedInvalid)
        } else {
            Ok(CheckResult::FailedUnknown)
        }
    } else {
        let mut out: Vec<char> = Vec::new();
        push_text(&mut out, stdout);
        push_text(&mut out, stderr);
        Err(Error::OracleTerminalFailure(text_of(&out)))
    }
}

/// The theory that carries one goal to the kernel: named `Validation`,
/// importing the string and core theories, the goal unsplit.
pub open spec fn validation_theory_view(lemma: Seq<char>) -> TheoryView {
    TheoryView {
        name: "Validation"@,
        imports: seq!["smt.Strings"@, "smt.Core"@],
        split: false,
        lemmata: seq![lemma],
    }
}

/// The text of the theory file for one goal.
pub fn validation_theory(lemma: &Lemma) -> (r: String)
    ensures
        r@ == theory_text(validation_theory_view(lemma_text(lemma@))),
{
    let mut theory = Theory::new("Validation", false);
    let ghost v0 = theory@;
    theory.add_theory_import("smt.Strings");
    let ghost v1 = theory@;
    theory.add_theory_import("smt.Core");
    let ghost v2 = theory@;
    theory.add_lemma(lemma.clone());
    assert(theory@.imports =~= seq!["smt.Strings"@, "smt.Core"@]);
    assert(theory@.lemmata =~= seq![lemma_text(lemma@)]);
    theory.to_isabelle()
}

/// Checks goals by running the proof kernel once for each. Every run
/// loads the base theories anew and keeps little of the kernel's output.
#[derive(Debug)]
pub struct BatchChecker {
    theory_root: String,
}

/// What one run of the kernel is given: the theory file to write into a
/// fresh directory, and the arguments of the run.
#[derive(Debug)]
pub struct BatchRequest {
    pub file_name: String,
    pub text: String,
    pub theories: Vec<String>,
    pub session_dirs: Vec<String>,
    pub logic: String,
    pub options: Vec<(String, String)>,
}

/// The views of a list of options, name and value.
pub open spec fn option_views(v: Seq<(String, String)>) -> Seq<(Seq<char>, Seq<char>)> {
    Seq::new(v.len(), |i: int| (v[i].0@, v[i].1@))
}

/// The options of a run: no reports, one line of output kept, no proof
/// terms, no parallel proofs, and proofs by `sorry` let through.
pub open spec fn batch_options() -> Seq<(Seq<char>, Seq<char>)> {
    seq![
        ("build_pide_reports"@, "false"@),
        ("pide_reports"@, "false"@),
        ("process_output_limit"@, "1"@),
        ("process_output_tail"@, "1"@),
        ("record_proofs"@, "0"@),
        ("parallel_proofs"@, "0"@),
        ("quick_and_dirty"@, "true"@),
    ]
}

impl BatchChecker {
    /// A checker that finds the base theories under `theory_root`.
    pub fn new(theory_root: &str) -> (r: Self)
        ensures
            r.root() == theory_root@,
    {
        Self { theory_root: theory_root.to_owned() }
    }

    /// The directory of the base theories.
    pub closed spec fn root(&self) -> Seq<char> {
        self.theory_root@
    }

    /// The directory of the base theories.
    pub fn theory_root(&self) -> (r: String)
        ensures
            r@ == self.root(),
    {
        self.theory_root.clone()
    }

    /// What the kernel is run with to check the goal.
    pub fn request(&self, lemma: &Lemma) -> (r: BatchRequest)
        ensures
            r.file_name@ == "Validation.thy"@,
            r.text@ == theory_text(validation_theory_view(lemma_text(lemma@))),
            texts(r.theories@) == seq!["Validation"@],
            texts(r.session_dirs@) == seq![self.root()],
            r.logic@ == "smt"@,
            option_views(r.options@) == batch_options(),
    {
        let mut theories: Vec<String> = Vec::new();
        theories.push("Validation".to_owned());
        let mut session_dirs: Vec<String> = Vec::new();
        session_dirs.push(self.theory_root.clone());
        let mut options: Vec<(String, String)> = Vec::new();
        options.push(("build_pide_reports".to_owned(), "false".to_owned()));
        options.push(("pide_reports".to_owned(), "false".to_owned()));
        options.push(("process_output_limit".to_owned(), "1".to_owned()));
        options.push(("process_output_tail".to_owned(), "1".to_owned()));
        options.push(("record_proofs".to_owned(), "0".to_owned()));
        options.push(("parallel_proofs".to_owned(), "0".to_owned()));
        options.push(("quick_and_dirty".to_owned(), "true".to_owned()));
        assert(texts(theories@) =~= seq!["Validation"@]);
        assert(texts(session_dirs@) =~= seq![self.root()]);
        assert(option_views(options@) =~= batch_options());
        BatchRequest {
            file_name: "Validation.thy".to_owned(),
            text: validation_theory(lemma),
            theories,
            session_dirs,
            logic: "smt".to_owned(),
            options,
        }
    }
}

} // verus!
