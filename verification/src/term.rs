//! The abstract syntax that the translation works on, and its mathematical model.

use vstd::prelude::*;

verus! {

/// A literal constant of the source language.
#[derive(Debug)]
pub enum SmtConstant {
    /// A non-negative integer, held as its decimal digits.
    Numeral(String),
    /// A decimal number, held as the exact fraction that it is, printed:
    /// `3/2` for `1.5`, `2` for `2.0`.
    Decimal(String),
    /// A hexadecimal bit-vector literal.
    Hexadecimal,
    /// A binary bit-vector literal.
    Binary,
    /// A string literal, escapes not yet expanded.
    Text(String),
}

/// The name at the head of an application or standing alone as a term.
/// A sort annotation is not kept: names are resolved by their text alone.
#[derive(Debug)]
pub struct SmtIdentifier {
    pub name: String,
    /// Whether the identifier carries indices, as in `(_ name 1)`.
    pub indexed: bool,
}

/// A term of the source language.
#[derive(Debug)]
pub enum SmtTerm {
    Literal(SmtConstant),
    Name(SmtIdentifier),
    Application { head: SmtIdentifier, arguments: Vec<SmtTerm> },
    Let,
    Forall,
    Exists,
    Match,
    Attributes,
}

/// A command of a script. Only assertions and function definitions are translated.
#[derive(Debug)]
pub enum SmtCommand {
    Assert(SmtTerm),
    DefineFun { name: String, body: SmtTerm },
    Other,
}

pub enum SmtConstantView {
    Numeral(Seq<char>),
    Decimal(Seq<char>),
    Hexadecimal,
    Binary,
    Text(Seq<char>),
}

pub struct SmtIdentifierView {
    pub name: Seq<char>,
    pub indexed: bool,
}

pub enum SmtTermView {
    Literal(SmtConstantView),
    Name(SmtIdentifierView),
    Application(SmtIdentifierView, Seq<SmtTermView>),
    Let,
    Forall,
    Exists,
    Match,
    Attributes,
}

pub enum SmtCommandView {
    Assert(SmtTermView),
    DefineFun(Seq<char>, SmtTermView),
    Other,
}

impl View for SmtConstant {
    type V = SmtConstantView;

    open spec fn view(&self) -> SmtConstantView {
        match self {
            SmtConstant::Numeral(n) => SmtConstantView::Numeral(n@),
            SmtConstant::Decimal(d) => SmtConstantView::Decimal(d@),
            SmtConstant::Hexadecimal => SmtConstantView::Hexadecimal,
            SmtConstant::Binary => SmtConstantView::Binary,
            SmtConstant::Text(s) => SmtConstantView::Text(s@),
        }
    }
}

impl View for SmtIdentifier {
    type V = SmtIdentifierView;

    open spec fn view(&self) -> SmtIdentifierView {
        SmtIdentifierView { name: self.name@, indexed: self.indexed }
    }
}

impl View for SmtTerm {
    type V = SmtTermView;

    open spec fn view(&self) -> SmtTermView
        decreases self,
    {
        match self {
            SmtTerm::Literal(c) => SmtTermView::Literal(c@),
            SmtTerm::Name(i) => SmtTermView::Name(i@),
            SmtTerm::Application { head, arguments } => SmtTermView::Application(
                head@,
                Seq::new(
                    arguments.len() as nat,
                    |i: int|
                        if 0 <= i < arguments.len() {
                            arguments[i]@
                        } else {
                            SmtTermView::Let
                        },
                ),
            ),
            SmtTerm::Let => SmtTermView::Let,
            SmtTerm::Forall => SmtTermView::Forall,
            SmtTerm::Exists => SmtTermView::Exists,
            SmtTerm::Match => SmtTermView::Match,
            SmtTerm::Attributes => SmtTermView::Attributes,
        }
    }
}

impl View for SmtCommand {
    type V = SmtCommandView;

    open spec fn view(&self) -> SmtCommandView {
        match self {
            SmtCommand::Assert(t) => SmtCommandView::Assert(t@),
            SmtCommand::DefineFun { name, body } => SmtCommandView::DefineFun(name@, body@),
            SmtCommand::Other => SmtCommandView::Other,
        }
    }
}

/// The models of a sequence of terms, one for one.
pub open spec fn term_views(ts: Seq<SmtTerm>) -> Seq<SmtTermView> {
    Seq::new(ts.len(), |i: int| ts[i]@)
}

/// The models of a sequence of commands, one for one.
pub open spec fn command_views(cs: Seq<SmtCommand>) -> Seq<SmtCommandView> {
    Seq::new(cs.len(), |i: int| cs[i]@)
}

/// An application's model holds the models of its arguments.
pub proof fn lemma_application_view(head: SmtIdentifier, arguments: Vec<SmtTerm>)
    ensures
        (SmtTerm::Application { head, arguments })@ == SmtTermView::Application(
            head@,
            term_views(arguments@),
        ),
{
    let t = SmtTerm::Application { head, arguments };
    assert(t@ matches SmtTermView::Application(h, a) && a =~= term_views(arguments@));
}

impl Clone for SmtConstant {
    fn clone(&self) -> (r: Self)
        ensures
            r@ == self@,
    {
        match self {
            SmtConstant::Numeral(n) => SmtConstant::Numeral(n.clone()),
            SmtConstant::Decimal(d) => SmtConstant::Decimal(d.clone()),
            SmtConstant::Hexadecimal => SmtConstant::Hexadecimal,
            SmtConstant::Binary => SmtConstant::Binary,
            SmtConstant::Text(s) => SmtConstant::Text(s.clone()),
        }
    }
}

impl Clone for SmtIdentifier {
    fn clone(&self) -> (r: Self)
        ensures
            r@ == self@,
    {
        SmtIdentifier { name: self.name.clone(), indexed: self.indexed }
    }
}

impl Clone for SmtTerm {
    fn clone(&self) -> (r: Self)
        ensures
            r@ == self@,
        decreases self,
    {
        match self {
            SmtTerm::Literal(c) => SmtTerm::Literal(c.clone()),
            SmtTerm::Name(i) => SmtTerm::Name(i.clone()),
            SmtTerm::Application { head, arguments } => {
                let mut copies: Vec<SmtTerm> = Vec::new();
                let mut i: usize = 0;
                while i < arguments.len()
                    invariant
                        i <= arguments.len(),
                        self matches SmtTerm::Application { arguments: own, .. } && own
                            == arguments,
                        term_views(copies@) == term_views(arguments@).subrange(0, i as int),
                    decreases arguments.len() - i,
                {
                    let ghost prev = copies@;
                    let a = &arguments[i];
                    copies.push(a.clone());
                    i += 1;
                    assert(term_views(copies@) =~= term_views(prev).push(arguments@[i - 1]@));
                    assert(term_views(copies@) =~= term_views(arguments@).subrange(0, i as int));
                }
                assert(term_views(arguments@).subrange(0, arguments.len() as int) =~= term_views(
                    arguments@,
                ));
                let copy = head.clone();
                proof {
                    lemma_application_view(*head, *arguments);
                    lemma_application_view(copy, copies);
                }
                SmtTerm::Application { head: copy, arguments: copies }
            },
            SmtTerm::Let => SmtTerm::Let,
            SmtTerm::Forall => SmtTerm::Forall,
            SmtTerm::Exists => SmtTerm::Exists,
            SmtTerm::Match => SmtTerm::Match,
            SmtTerm::Attributes => SmtTerm::Attributes,
        }
    }
}

} // verus!
