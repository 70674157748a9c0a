//! Reading a script into the library's own syntax tree.

use vstd::prelude::*;
use crate::term::{
    command_views, SmtCommand, SmtCommandView, SmtConstant, SmtIdentifier, SmtTerm,
};

verus! {

/// `smt2parser::concrete::Symbol`, opaque here.
#[verifier::external_type_specification]
#[verifier::external_body]
pub struct ExSymbol(smt2parser::concrete::Symbol);

/// `smt2parser::concrete::Keyword`, opaque here.
#[verifier::external_type_specification]
#[verifier::external_body]
pub struct ExKeyword(smt2parser::concrete::Keyword);

/// `smt2parser::concrete::Constant`, opaque here.
#[verifier::external_type_specification]
#[verifier::external_body]
pub struct ExConstant(smt2parser::concrete::Constant);

/// `smt2parser::visitors::Identifier`, opaque here.
#[verifier::external_type_specification]
#[verifier::external_body]
#[verifier::reject_recursive_types(S)]
pub struct ExIdentifier<S>(smt2parser::visitors::Identifier<S>);

/// `smt2parser::concrete::Sort`, opaque here.
#[verifier::external_type_specification]
#[verifier::external_body]
#[verifier::reject_recursive_types(I)]
pub struct ExSort<I>(smt2parser::concrete::Sort<I>);

/// `smt2parser::concrete::QualIdentifier`, opaque here.
#[verifier::external_type_specification]
#[verifier::external_body]
#[verifier::reject_recursive_types(I)]
#[verifier::reject_recursive_types(S)]
pub struct ExQualIdentifier<I, S>(smt2parser::concrete::QualIdentifier<I, S>);

/// `smt2parser::concrete::SExpr`, opaque here.
#[verifier::external_type_specification]
#[verifier::external_body]
#[verifier::reject_recursive_types(C)]
#[verifier::reject_recursive_types(S)]
#[verifier::reject_recursive_types(K)]
pub struct ExSExpr<C, S, K>(smt2parser::concrete::SExpr<C, S, K>);

/// `smt2parser::concrete::Term`, opaque here.
#[verifier::external_type_specification]
#[verifier::external_body]
#[verifier::reject_recursive_types(C)]
#[verifier::reject_recursive_types(Q)]
#[verifier::reject_recursive_types(K)]
#[verifier::reject_recursive_types(X)]
#[verifier::reject_recursive_types(Y)]
#[verifier::reject_recursive_types(O)]
pub struct ExTerm<C, Q, K, X, Y, O>(smt2parser::concrete::Term<C, Q, K, X, Y, O>);

/// `smt2parser::concrete::Command`, opaque here.
#[verifier::external_type_specification]
#[verifier::external_body]
#[verifier::reject_recursive_types(T)]
#[verifier::reject_recursive_types(Y)]
#[verifier::reject_recursive_types(O)]
#[verifier::reject_recursive_types(K)]
#[verifier::reject_recursive_types(C)]
#[verifier::reject_recursive_types(X)]
pub struct ExCommand<T, Y, O, K, C, X>(smt2parser::concrete::Command<T, Y, O, K, C, X>);

/// What `smt2parser` reads from a script with its `SyntaxBuilder`, brought
/// into this library's syntax: the commands in order, or the message of the
/// first error.
pub uninterp spec fn parsed_script(input: Seq<char>) -> Result<Seq<SmtCommandView>, Seq<char>>;

/// Converts a `smt2parser::concrete::Constant`, variant by variant. A
/// numeral and a decimal are kept as the text that their `Display` prints:
/// the parser holds a decimal as a reduced fraction, so `1.5` arrives as `3/2`.
#[verifier::external_body]
fn constant_of(c: &smt2parser::concrete::Constant) -> SmtConstant {
    match c {
        smt2parser::concrete::Constant::Numeral(n) => SmtConstant::Numeral(n.to_string()),
        smt2parser::concrete::Constant::Decimal(d) => SmtConstant::Decimal(d.to_string()),
        smt2parser::concrete::Constant::Hexadecimal(_) => SmtConstant::Hexadecimal,
        smt2parser::concrete::Constant::Binary(_) => SmtConstant::Binary,
        smt2parser::concrete::Constant::String(s) => SmtConstant::Text(s.clone()),
    }
}

/// Converts a `smt2parser::concrete::QualIdentifier`: the symbol's text,
/// and whether the identifier is indexed. A sort annotation is left out.
#[verifier::external_body]
fn identifier_of(q: &smt2parser::concrete::QualIdentifier) -> SmtIdentifier {
    match q {
        smt2parser::concrete::QualIdentifier::Simple { identifier }
        | smt2parser::concrete::QualIdentifier::Sorted { identifier, .. } => match identifier {
            smt2parser::visitors::Identifier::Simple { symbol } => {
                SmtIdentifier { name: symbol.0.clone(), indexed: false }
            },
            smt2parser::visitors::Identifier::Indexed { symbol, .. } => {
                SmtIdentifier { name: symbol.0.clone(), indexed: true }
            },
        },
    }
}

/// Converts a `smt2parser::concrete::Term`, variant by variant. Of a binder,
/// a match and an attributed term only the kind is kept.
#[verifier::external_body]
fn term_of(t: &smt2parser::concrete::Term) -> SmtTerm {
    match t {
        smt2parser::concrete::Term::Constant(c) => SmtTerm::Literal(constant_of(c)),
        smt2parser::concrete::Term::QualIdentifier(q) => SmtTerm::Name(identifier_of(q)),
        smt2parser::concrete::Term::Application { qual_identifier, arguments } => {
            let head = identifier_of(qual_identifier);
            SmtTerm::Application { head, arguments: arguments.iter().map(term_of).collect() }
        },
        smt2parser::concrete::Term::Let { .. } => SmtTerm::Let,
        smt2parser::concrete::Term::Forall { .. } => SmtTerm::Forall,
        smt2parser::concrete::Term::Exists { .. } => SmtTerm::Exists,
        smt2parser::concrete::Term::Match { .. } => SmtTerm::Match,
        smt2parser::concrete::Term::Attributes { .. } => SmtTerm::Attributes,
    }
}

/// Converts a `smt2parser::concrete::Command`: an assertion, a function
/// definition with its name as `Display` prints the symbol, or any other.
#[verifier::external_body]
fn command_of(c: &smt2parser::concrete::Command) -> SmtCommand {
    match c {
        smt2parser::concrete::Command::Assert { term } => SmtCommand::Assert(term_of(term)),
        smt2parser::concrete::Command::DefineFun { sig, term } => {
            SmtCommand::DefineFun { name: sig.name.to_string(), body: term_of(term) }
        },
        _ => SmtCommand::Other,
    }
}

/// Runs `smt2parser::CommandStream` with `concrete::SyntaxBuilder` over the
/// whole input and collects the commands, stopping at the first error. The
/// result depends on the input alone and is given the name `parsed_script`.
#[verifier::external_body]
pub(crate) fn parse_script(input: &str) -> (r: Result<Vec<SmtCommand>, String>)
    ensures
        match r {
            Ok(cs) => parsed_script(input@) == Ok::<Seq<SmtCommandView>, Seq<char>>(
                command_views(cs@),
            ),
            Err(e) => parsed_script(input@) == Err::<Seq<SmtCommandView>, Seq<char>>(e@),
        },
{
    let builder = smt2parser::concrete::SyntaxBuilder;
    let stream = smt2parser::CommandStream::new(input.as_bytes(), builder, None);
    match stream.collect::<Result<Vec<_>, _>>() {
        Ok(cs) => Ok(cs.iter().map(command_of).collect()),
        Err(e) => Err(e.to_string()),
    }
}

} // verus!
