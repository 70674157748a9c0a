//! The validation of a model against a formula, from the solver's raw
//! output to a verdict.

use vstd::prelude::*;
use crate::checker::{CheckResult, LemmaChecker};
use crate::convert::{normalised, read_script, script_view, Converter, ConverterView};
use crate::error::{Error, ErrorView};
use crate::lemma::{Lemma, LemmaView};
use crate::parse::parsed_script;
use crate::spec_table::lookup;
use crate::term::{
    SmtCommand, SmtCommandView, SmtConstantView, SmtIdentifierView, SmtTermView,
};
use crate::text::{chars_of, matches_at, starts_with, text_of, texts, trim, trim_bounds};
use crate::translate::{
    convert_all, inserted, lemma_absent_operator_is_unknown, lemma_minus_contains,
    lemma_minus_empty, lemma_script_failure_stays, minus, opening, translate, translate_args,
    Translated, Usage,
};

verus! {

/// The verdict on a model.
#[derive(Debug, Clone, Copy, PartialEq, Eq, Structural)]
pub enum ValidationResult {
    /// The model satisfies the formula.
    Valid,
    /// The model does not satisfy the formula.
    Invalid,
    /// It could not be determined whether it does.
    Unknown,
}

/// `s` without a closing parenthesis at its end, if it has one.
pub open spec fn strip_close(s: Seq<char>) -> Seq<char> {
    if s.len() > 0 && s.last() == ')' {
        s.drop_last()
    } else {
        s
    }
}

/// `s` without an opening parenthesis at its start, if it has one.
pub open spec fn strip_open(s: Seq<char>) -> Seq<char> {
    if s.len() > 0 && s[0] == '(' {
        s.subrange(1, s.len() as int)
    } else {
        s
    }
}

/// `s` from position `n` on.
pub open spec fn after(s: Seq<char>, n: int) -> Seq<char> {
    s.subrange(n, s.len() as int)
}

/// The bare model in a solver's output. White space around it is left
/// out. Where the output begins with `sat`, a line break and an opening
/// parenthesis, the word and the parentheses around the model go. A
/// leading word `model` goes too.
pub open spec fn sanitized(raw: Seq<char>) -> Seq<char> {
    let t = trim(raw);
    let u = if starts_with(t, "sat\n("@) {
        trim(strip_close(strip_open(trim(after(t, 3)))))
    } else {
        t
    };
    if starts_with(u, "model"@) {
        trim(after(u, 5))
    } else {
        u
    }
}

/// Whether the solver's output says that the formula is unsatisfiable.
pub open spec fn says_unsat(raw: Seq<char>) -> bool {
    trim(raw) == "unsat"@
}

/// The characters `v[lo..hi]` without white space at either end.
pub fn trimmed(v: &Vec<char>, lo: usize, hi: usize) -> (r: Vec<char>)
    requires
        lo <= hi <= v.len(),
    ensures
        r@ == trim(v@.subrange(lo as int, hi as int)),
{
    let (a, b) = trim_bounds(v, lo, hi);
    let mut r: Vec<char> = Vec::new();
    let mut i: usize = a;
    while i < b
        invariant
            a <= i <= b <= v.len(),
            r@ == v@.subrange(a as int, i as int),
        decreases b - i,
    {
        r.push(v[i]);
        i += 1;
        assert(r@ =~= v@.subrange(a as int, i as int));
    }
    r
}

/// Tests whether `s` begins with the text `p`.
pub fn begins_with(s: &Vec<char>, p: &str) -> (r: bool)
    ensures
        r == starts_with(s@, p@),
{
    let pv = chars_of(p);
    matches_at(s, &pv, 0)
}

/// Takes the bare model out of a solver's output.
pub fn sanitize_model(model: &str) -> (r: String)
    ensures
        r@ == sanitized(model@),
{
    let raw = chars_of(model);
    let t = trimmed(&raw, 0, raw.len());
    assert(raw@.subrange(0, raw.len() as int) =~= raw@);
    proof {
        reveal_strlit("sat\n(");
        reveal_strlit("model");
    }
    let u = if begins_with(&t, "sat\n(") {
        let inner = trimmed(&t, 3, t.len());
        let lo: usize = if inner.len() > 0 && inner[0] == '(' {
            1
        } else {
            0
        };
        let hi: usize = if inner.len() > lo && inner[inner.len() - 1] == ')' {
            inner.len() - 1
        } else {
            inner.len()
        };
        proof {
            let opened = strip_open(inner@);
            assert(opened =~= inner@.subrange(lo as int, inner.len() as int));
            assert(strip_close(opened) =~= inner@.subrange(lo as int, hi as int));
        }
        trimmed(&inner, lo, hi)
    } else {
        t
    };
    if begins_with(&u, "model") {
        let r = trimmed(&u, 5, u.len());
        text_of(&r)
    } else {
        text_of(&u)
    }
}

/// Tests whether a solver's output is the word `unsat`.
pub fn is_unsat(raw: &str) -> (r: bool)
    ensures
        r == says_unsat(raw@),
{
    let v = chars_of(raw);
    let t = trimmed(&v, 0, v.len());
    assert(v@.subrange(0, v.len() as int) =~= v@);
    let word = chars_of("unsat");
    if t.len() != word.len() {
        return false;
    }
    let found = matches_at(&t, &word, 0);
    assert(t@.subrange(0, t.len() as int) =~= t@);
    found
}

/// What is known of a validation before the proof kernel is asked.
#[derive(Debug)]
pub enum Prepared {
    /// The solver reported no model.
    Unsat,
    /// The model leaves these free variables of the formula unassigned.
    Unassigned(Vec<String>),
    /// The goal to check: the model as premises, the formula as conclusions.
    Goal(Lemma),
}

/// The model of a [`Prepared`].
pub enum PreparedView {
    Unsat,
    Unassigned(Seq<Seq<char>>),
    Goal(LemmaView),
}

impl View for Prepared {
    type V = PreparedView;

    open spec fn view(&self) -> PreparedView {
        match self {
            Prepared::Unsat => PreparedView::Unsat,
            Prepared::Unassigned(names) => PreparedView::Unassigned(texts(names@)),
            Prepared::Goal(lemma) => PreparedView::Goal(lemma@),
        }
    }
}

/// The validation of scripts that were read, up to the point where the
/// proof kernel is needed. The formula's commands and then the model's are
/// translated by the one converter; the first failure ends it, a script
/// that did not parse being a failure in its turn. Free variables that the
/// model does not define end it as unassigned. Else the goal named
/// `validation` has the model's texts as premises and the formula's as
/// conclusions.
pub open spec fn prepared_of(
    c: ConverterView,
    formula: Result<Seq<SmtCommandView>, Seq<char>>,
    model: Result<Seq<SmtCommandView>, Seq<char>>,
) -> Result<PreparedView, ErrorView> {
    match formula {
        Err(msg) => Err(ErrorView::ParseError(msg)),
        Ok(fc) => {
            let f = convert_all(c.table, fc, fc.len(), c.usage);
            match f.texts {
                Err(e) => Err(e),
                Ok(conclusions) => match model {
                    Err(msg) => Err(ErrorView::ParseError(msg)),
                    Ok(mc) => {
                        let m = convert_all(c.table, mc, mc.len(), f.usage);
                        match m.texts {
                            Err(e) => Err(e),
                            Ok(premises) => {
                                let missing = minus(m.usage.used, m.usage.defined);
                                if missing.len() > 0 {
                                    Ok(PreparedView::Unassigned(missing))
                                } else {
                                    Ok(
                                        PreparedView::Goal(
                                            LemmaView {
                                                name: "validation"@,
                                                premises,
                                                conclusions,
                                            },
                                        ),
                                    )
                                }
                            },
                        }
                    },
                },
            }
        },
    }
}

/// The validation up to the point where the proof kernel is needed.
/// Output that says `unsat` ends it at once, before anything is read.
/// Else the formula and the bare model are read and go on as `prepared_of` says.
pub open spec fn prepared(c: ConverterView, model: Seq<char>, formula: Seq<char>) -> Result<
    PreparedView,
    ErrorView,
> {
    if says_unsat(model) {
        Ok(PreparedView::Unsat)
    } else {
        prepared_of(
            c,
            parsed_script(normalised(formula)),
            parsed_script(normalised(sanitized(model))),
        )
    }
}

/// Prepares the validation of scripts that were read.
pub fn prepare_parsed(
    formula: Result<Vec<SmtCommand>, String>,
    model: Result<Vec<SmtCommand>, String>,
    converter: Converter,
) -> (r: Result<Prepared, Error>)
    requires
        converter.wf(),
    ensures
        match prepared_of(converter@, script_view(formula), script_view(model)) {
            Ok(p) => r is Ok && r->Ok_0@ == p,
            Err(e) => r is Err && r->Err_0@ == e,
        },
{
    let mut converter = converter;
    let formula_commands = match formula {
        Ok(commands) => commands,
        Err(msg) => {
            return Err(Error::ParseError(msg));
        },
    };
    let conclusions = match converter.convert_commands(&formula_commands) {
        Ok(f) => f,
        Err(e) => {
            return Err(e);
        },
    };
    let model_commands = match model {
        Ok(commands) => commands,
        Err(msg) => {
            return Err(Error::ParseError(msg));
        },
    };
    let premises = match converter.convert_commands(&model_commands) {
        Ok(m) => m,
        Err(e) => {
            return Err(e);
        },
    };
    let missing = converter.undefined_vars();
    if missing.len() > 0 {
        return Ok(Prepared::Unassigned(missing));
    }
    let mut lemma = Lemma::new("validation");
    lemma.add_conclusions(conclusions.as_slice());
    lemma.add_premises(premises.as_slice());
    assert(lemma@.premises =~= texts(premises@));
    assert(lemma@.conclusions =~= texts(conclusions@));
    Ok(Prepared::Goal(lemma))
}

/// Prepares a validation: everything that needs no proof kernel.
pub fn prepare(smt_model: String, smt_formula: String, converter: Converter) -> (r: Result<
    Prepared,
    Error,
>)
    requires
        converter.wf(),
    ensures
        match prepared(converter@, smt_model@, smt_formula@) {
            Ok(p) => r is Ok && r->Ok_0@ == p,
            Err(e) => r is Err && r->Err_0@ == e,
        },
{
    if is_unsat(smt_model.as_str()) {
        return Ok(Prepared::Unsat);
    }
    let bare = sanitize_model(smt_model.as_str());
    let formula = read_script(smt_formula.as_str());
    let model = read_script(bare.as_str());
    prepare_parsed(formula, model, converter)
}

/// A model that leaves a free variable undefined gives no goal: where
/// both scripts translate and a name is used that is not defined, the
/// validation ends as unassigned, with that name among those reported.
pub proof fn lemma_undefined_variable_ends_unassigned(
    c: ConverterView,
    fc: Seq<SmtCommandView>,
    mc: Seq<SmtCommandView>,
    y: Seq<char>,
)
    requires
        convert_all(c.table, fc, fc.len(), c.usage).texts is Ok,
        ({
            let f = convert_all(c.table, fc, fc.len(), c.usage);
            let m = convert_all(c.table, mc, mc.len(), f.usage);
            m.texts is Ok && m.usage.used.contains(y) && !m.usage.defined.contains(y)
        }),
    ensures
        prepared_of(c, Ok(fc), Ok(mc)) matches Ok(PreparedView::Unassigned(names))
            && names.contains(y),
{
    let f = convert_all(c.table, fc, fc.len(), c.usage);
    let m = convert_all(c.table, mc, mc.len(), f.usage);
    lemma_minus_contains(m.usage.used, m.usage.defined, y);
}

/// Where both scripts translate and every name that is used is defined,
/// the validation comes to a goal.
pub proof fn lemma_defined_variables_give_a_goal(
    c: ConverterView,
    fc: Seq<SmtCommandView>,
    mc: Seq<SmtCommandView>,
)
    requires
        convert_all(c.table, fc, fc.len(), c.usage).texts is Ok,
        ({
            let f = convert_all(c.table, fc, fc.len(), c.usage);
            let m = convert_all(c.table, mc, mc.len(), f.usage);
            m.texts is Ok && forall|i: int|
                0 <= i < m.usage.used.len() ==> m.usage.defined.contains(
                    #[trigger] m.usage.used[i],
                )
        }),
    ensures
        prepared_of(c, Ok(fc), Ok(mc)) is Ok,
        prepared_of(c, Ok(fc), Ok(mc))->Ok_0 is Goal,
{
    let f = convert_all(c.table, fc, fc.len(), c.usage);
    let m = convert_all(c.table, mc, mc.len(), f.usage);
    lemma_minus_empty(m.usage.used, m.usage.defined);
}

/// A formula whose first command asserts the application of an operator
/// that has no line in the table gives the error of an unknown operator
/// with the operator's name, and so no verdict, whatever the model is.
pub proof fn lemma_unknown_operator_ends_in_error(
    c: ConverterView,
    fc: Seq<SmtCommandView>,
    model: Result<Seq<SmtCommandView>, Seq<char>>,
    head: SmtIdentifierView,
    args: Seq<SmtTermView>,
)
    requires
        fc.len() > 0,
        fc[0] == SmtCommandView::Assert(SmtTermView::Application(head, args)),
        forall|k: int| 0 <= k < c.table.len() ==> (#[trigger] c.table[k]).operator != head.name,
    ensures
        prepared_of(c, Ok(fc), model) == Err::<PreparedView, ErrorView>(
            ErrorView::UnknownOperator(head.name),
        ),
{
    lemma_absent_operator_is_unknown(c.table, head, args, c.usage.used);
    reveal_with_fuel(convert_all, 2);
    assert(convert_all(c.table, fc, 1, c.usage).texts == Err::<Seq<Seq<char>>, ErrorView>(
        ErrorView::UnknownOperator(head.name),
    ));
    lemma_script_failure_stays(c.table, fc, 1, fc.len(), c.usage);
}

/// The goal for one equation and one definition. Let the table map the
/// operator `eq` to `target` and have no line for `x`, and let the
/// converter be fresh. Then the formula that asserts `eq` of `x` and the
/// numeral `n`, with the model that defines `x` as the numeral `v`, comes
/// to the goal named `validation` whose one premise is the equation of `x`
/// and `v` and whose one conclusion is the application of `target` to `x`
/// and `n`.
pub proof fn lemma_equation_goal(
    c: ConverterView,
    eq: Seq<char>,
    target: Seq<char>,
    x: Seq<char>,
    n: Seq<char>,
    v: Seq<char>,
)
    requires
        lookup(c.table, eq) matches Some(e) && e.spec.mapsto == Some(target),
        lookup(c.table, x) is None,
        c.usage.used.len() == 0,
        c.usage.defined.len() == 0,
    ensures
        prepared_of(c, Ok(equation_formula(eq, x, n)), Ok(definition_model(x, v))) == Ok::<
            PreparedView,
            ErrorView,
        >(
            PreparedView::Goal(
                LemmaView {
                    name: "validation"@,
                    premises: seq![x + " = "@ + ("("@ + v + "::int)"@)],
                    conclusions: seq![
                        opening(target, 2) + (Seq::<char>::empty() + " "@ + x + " "@ + ("("@ + n
                            + "::int)"@)) + ")"@,
                    ],
                },
            ),
        ),
{
    let fc = equation_formula(eq, x, n);
    let mc = definition_model(x, v);
    let xi = SmtIdentifierView { name: x, indexed: false };
    let args = seq![SmtTermView::Name(xi), SmtTermView::Literal(SmtConstantView::Numeral(n))];
    let conclusion = opening(target, 2) + (Seq::<char>::empty() + " "@ + x + " "@ + ("("@ + n
        + "::int)"@)) + ")"@;
    let premise = x + " = "@ + ("("@ + v + "::int)"@);
    let used0 = c.usage.used;
    assert(!used0.contains(x));
    assert(inserted(used0, x) =~= seq![x]);
    reveal_with_fuel(translate_args, 3);
    let a0 = translate_args(c.table, args, 0, used0);
    assert(a0 == Translated { text: Ok(Seq::empty()), used: used0 });
    let a1 = translate_args(c.table, args, 1, used0);
    assert(a1 == Translated { text: Ok(Seq::<char>::empty() + " "@ + x), used: seq![x] });
    let a2 = translate_args(c.table, args, 2, used0);
    assert(a2 == Translated {
        text: Ok(Seq::<char>::empty() + " "@ + x + " "@ + ("("@ + n + "::int)"@)),
        used: seq![x],
    });
    let whole = translate(
        c.table,
        SmtTermView::Application(SmtIdentifierView { name: eq, indexed: false }, args),
        used0,
    );
    assert(whole == Translated { text: Ok(conclusion), used: seq![x] });
    reveal_with_fuel(convert_all, 2);
    let f = convert_all(c.table, fc, 1, c.usage);
    assert(Seq::<Seq<char>>::empty().push(conclusion) =~= seq![conclusion]);
    assert(f.texts == Ok::<Seq<Seq<char>>, ErrorView>(seq![conclusion]));
    assert(f.usage == Usage { used: seq![x], defined: c.usage.defined });
    assert(!c.usage.defined.contains(x));
    assert(inserted(c.usage.defined, x) =~= seq![x]);
    let m = convert_all(c.table, mc, 1, f.usage);
    assert(Seq::<Seq<char>>::empty().push(premise) =~= seq![premise]);
    assert(m.texts == Ok::<Seq<Seq<char>>, ErrorView>(seq![premise]));
    assert(m.usage == Usage { used: seq![x], defined: seq![x] });
    reveal_with_fuel(minus, 2);
    assert(seq![x].last() == x);
    assert(seq![x].contains(x)) by {
        assert(seq![x][0] == x);
    }
    assert(seq![x].drop_last() =~= Seq::<Seq<char>>::empty());
    assert(minus(seq![x], seq![x]).len() == 0);
}

/// The formula of one command that asserts `eq` of the name `x` and the numeral `n`.
pub open spec fn equation_formula(eq: Seq<char>, x: Seq<char>, n: Seq<char>) -> Seq<
    SmtCommandView,
> {
    seq![
        SmtCommandView::Assert(
            SmtTermView::Application(
                SmtIdentifierView { name: eq, indexed: false },
                seq![
                    SmtTermView::Name(SmtIdentifierView { name: x, indexed: false }),
                    SmtTermView::Literal(SmtConstantView::Numeral(n)),
                ],
            ),
        ),
    ]
}

/// The model of one command that defines `x` as the numeral `v`.
pub open spec fn definition_model(x: Seq<char>, v: Seq<char>) -> Seq<SmtCommandView> {
    seq![SmtCommandView::DefineFun(x, SmtTermView::Literal(SmtConstantView::Numeral(v)))]
}

/// The verdict for a checked goal.
pub open spec fn verdict_of(c: CheckResult) -> ValidationResult {
    match c {
        CheckResult::OK => ValidationResult::Valid,
        CheckResult::FailedUnknown => ValidationResult::Unknown,
        CheckResult::FailedInvalid => ValidationResult::Invalid,
    }
}

/// Turns the answer of a check into the result of the validation: a
/// verdict for a verdict, the error for an error.
pub fn conclude(answer: Result<CheckResult, Error>) -> (r: Result<ValidationResult, Error>)
    ensures
        match answer {
            Ok(c) => r == Ok::<ValidationResult, Error>(verdict_of(c)),
            Err(e) => r == Err::<ValidationResult, Error>(e),
        },
{
    match answer {
        Ok(CheckResult::OK) => Ok(ValidationResult::Valid),
        Ok(CheckResult::FailedUnknown) => Ok(ValidationResult::Unknown),
        Ok(CheckResult::FailedInvalid) => Ok(ValidationResult::Invalid),
        Err(e) => Err(e),
    }
}

/// Validates a model against a formula. The checker is asked only for a
/// goal: output that says `unsat` gives `Unknown`, a failure in parsing or
/// translation is returned, and a model that leaves a free variable of the
/// formula unassigned gives `Invalid`, each with the checker untouched.
/// For a goal the result is the checker's answer as `conclude` turns it.
pub fn validate<C: LemmaChecker>(
    smt_model: String,
    smt_formula: String,
    converter: Converter,
    checker: &mut C,
) -> (r: Result<ValidationResult, Error>)
    requires
        converter.wf(),
    ensures
        match prepared(converter@, smt_model@, smt_formula@) {
            Ok(PreparedView::Unsat) => r == Ok::<ValidationResult, Error>(
                ValidationResult::Unknown,
            ) && *final(checker) == *old(checker),
            Ok(PreparedView::Unassigned(names)) => r == Ok::<ValidationResult, Error>(
                ValidationResult::Invalid,
            ) && *final(checker) == *old(checker),
            Ok(PreparedView::Goal(lemma)) => true,
            Err(e) => r is Err && r->Err_0@ == e && *final(checker) == *old(checker),
        },
{
    match prepare(smt_model, smt_formula, converter) {
        Err(e) => Err(e),
        Ok(Prepared::Unsat) => Ok(ValidationResult::Unknown),
        Ok(Prepared::Unassigned(_)) => Ok(ValidationResult::Invalid),
        Ok(Prepared::Goal(lemma)) => {
            let answer = checker.check(&lemma);
            conclude(answer)
        },
    }
}

} // verus!
