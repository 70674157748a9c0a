//! Proof goals and the theory files that carry them.

use vstd::prelude::*;
use crate::text::{
    clone_texts, decimal, decimal_chars, join, push_all, push_joined, push_terminated, push_text,
    terminated, text_of, texts,
};

verus! {

/// A named proof goal: assuming the premises, the conclusions hold.
#[derive(Debug)]
pub struct Lemma {
    name: String,
    premises: Vec<String>,
    conclusions: Vec<String>,
}

/// The model of a [`Lemma`].
pub struct LemmaView {
    pub name: Seq<char>,
    pub premises: Seq<Seq<char>>,
    pub conclusions: Seq<Seq<char>>,
}

/// A named theory file: imports and rendered goals.
#[derive(Debug)]
pub struct Theory {
    name: String,
    imports: Vec<String>,
    split_lemmata: bool,
    lemmata: Vec<String>,
}

/// The model of a [`Theory`].
pub struct TheoryView {
    pub name: Seq<char>,
    pub imports: Seq<Seq<char>>,
    pub split: bool,
    pub lemmata: Seq<Seq<char>>,
}

/// `p` between double quotes.
pub open spec fn quoted(p: Seq<char>) -> Seq<char> {
    seq!['"'] + p + seq!['"']
}

/// Each text between double quotes.
pub open spec fn all_quoted(ps: Seq<Seq<char>>) -> Seq<Seq<char>> {
    Seq::new(ps.len(), |i: int| quoted(ps[i]))
}

/// The simplifier hints for a goal with the given conclusions. The
/// premises are always among them, under the name `assms`; no shape of a
/// conclusion adds another.
pub open spec fn hints(conclusions: Seq<Seq<char>>) -> Seq<Seq<char>> {
    seq!["assms"@]
}

/// The text of a goal: its name, the premises quoted and joined by `and`,
/// the conclusions joined into one conjunction, and the one tactic with
/// its hints.
pub open spec fn lemma_text(l: LemmaView) -> Seq<char> {
    "\nlemma "@ + l.name + ": assumes "@ + join(all_quoted(l.premises), " and "@) + " shows \""@
        + join(l.conclusions, " \\<and> "@) + "\"\n    apply(simp add: "@ + join(
        hints(l.conclusions),
        " "@,
    ) + ")\n    done\n"@
}

/// The goal for the `i`-th conclusion alone, under the same premises,
/// named by the goal's name, an underscore and `i`.
pub open spec fn split_part(l: LemmaView, i: int) -> LemmaView {
    LemmaView {
        name: l.name + "_"@ + decimal(i as nat),
        premises: l.premises,
        conclusions: seq![l.conclusions[i]],
    }
}

/// The texts of the goals for each conclusion alone, in order.
pub open spec fn split_texts(l: LemmaView) -> Seq<Seq<char>> {
    Seq::new(l.conclusions.len(), |i: int| lemma_text(split_part(l, i)))
}

/// The text of a theory: header, imports (`Main` where none is given),
/// the goals, and the end.
pub open spec fn theory_text(t: TheoryView) -> Seq<char> {
    "theory "@ + t.name + "\n"@ + "\timports "@ + (if t.imports.len() == 0 {
        " Main\n"@
    } else {
        terminated(t.imports, " "@) + "\n"@
    }) + "begin\n\n"@ + terminated(t.lemmata, "\n"@) + "end\n"@
}

impl View for Lemma {
    type V = LemmaView;

    closed spec fn view(&self) -> LemmaView {
        LemmaView {
            name: self.name@,
            premises: texts(self.premises@),
            conclusions: texts(self.conclusions@),
        }
    }
}

impl Clone for Lemma {
    fn clone(&self) -> (r: Self)
        ensures
            r@ == self@,
    {
        Lemma {
            name: self.name.clone(),
            premises: clone_texts(&self.premises),
            conclusions: clone_texts(&self.conclusions),
        }
    }
}

impl Default for Lemma {
    fn default() -> (r: Self)
        ensures
            r@ == (LemmaView { name: Seq::empty(), premises: Seq::empty(), conclusions: Seq::empty() }),
    {
        let r = Lemma { name: String::new(), premises: Vec::new(), conclusions: Vec::new() };
        assert(texts(r.premises@) =~= Seq::empty());
        assert(texts(r.conclusions@) =~= Seq::empty());
        r
    }
}

impl Lemma {
    /// A goal of the given name, with no premise and no conclusion yet.
    pub fn new(name: &str) -> (r: Self)
        ensures
            r@ == (LemmaView { name: name@, premises: Seq::empty(), conclusions: Seq::empty() }),
    {
        let r = Lemma { name: name.to_owned(), premises: Vec::new(), conclusions: Vec::new() };
        assert(texts(r.premises@) =~= Seq::empty());
        assert(texts(r.conclusions@) =~= Seq::empty());
        r
    }

    /// Adds one premise after those already there.
    pub fn add_premise(&mut self, premise: &str) -> (ret: &mut Self)
        ensures
            ret@ == (LemmaView { premises: old(self)@.premises.push(premise@), ..old(self)@ }),
            *final(self) == *final(ret),
    {
        self.premises.push(premise.to_owned());
        assert(texts(self.premises@) =~= texts(old(self).premises@).push(premise@));
        self
    }

    /// Adds the premises, in order, after those already there.
    pub fn add_premises(&mut self, premises: &[String]) -> (ret: &mut Self)
        ensures
            ret@ == (LemmaView {
                premises: old(self)@.premises + texts(premises@),
                ..old(self)@
            }),
            *final(self) == *final(ret),
    {
        let mut i: usize = 0;
        assert(old(self)@.premises + texts(premises@).subrange(0, 0) =~= old(self)@.premises);
        while i < premises.len()
            invariant
                i <= premises.len(),
                self@ == (LemmaView {
                    premises: old(self)@.premises + texts(premises@).subrange(0, i as int),
                    ..old(self)@
                }),
            decreases premises.len() - i,
        {
            let ghost prev = self.premises@;
            assert(texts(prev) == old(self)@.premises + texts(premises@).subrange(0, i as int));
            self.premises.push(premises[i].clone());
            i += 1;
            assert(texts(self.premises@) =~= texts(prev).push(premises@[i - 1]@));
            assert(texts(self.premises@) =~= old(self)@.premises + texts(premises@).subrange(
                0,
                i as int,
            ));
        }
        assert(texts(premises@).subrange(0, premises.len() as int) =~= texts(premises@));
        self
    }

    /// Adds one conclusion after those already there.
    pub fn add_conclusion(&mut self, conclusion: &str) -> (ret: &mut Self)
        ensures
            ret@ == (LemmaView {
                conclusions: old(self)@.conclusions.push(conclusion@),
                ..old(self)@
            }),
            *final(self) == *final(ret),
    {
        self.conclusions.push(conclusion.to_owned());
        assert(texts(self.conclusions@) =~= texts(old(self).conclusions@).push(conclusion@));
        self
    }

    /// Adds the conclusions, in order, after those already there.
    pub fn add_conclusions(&mut self, conclusions: &[String]) -> (ret: &mut Self)
        ensures
            ret@ == (LemmaView {
                conclusions: old(self)@.conclusions + texts(conclusions@),
                ..old(self)@
            }),
            *final(self) == *final(ret),
    {
        let mut i: usize = 0;
        assert(old(self)@.conclusions + texts(conclusions@).subrange(0, 0) =~= old(
            self,
        )@.conclusions);
        while i < conclusions.len()
            invariant
                i <= conclusions.len(),
                self@ == (LemmaView {
                    conclusions: old(self)@.conclusions + texts(conclusions@).subrange(
                        0,
                        i as int,
                    ),
                    ..old(self)@
                }),
            decreases conclusions.len() - i,
        {
            let ghost prev = self.conclusions@;
            assert(texts(prev) == old(self)@.conclusions + texts(conclusions@).subrange(
                0,
                i as int,
            ));
            self.conclusions.push(conclusions[i].clone());
            i += 1;
            assert(texts(self.conclusions@) =~= texts(prev).push(conclusions@[i - 1]@));
            assert(texts(self.conclusions@) =~= old(self)@.conclusions + texts(
                conclusions@,
            ).subrange(0, i as int));
        }
        assert(texts(conclusions@).subrange(0, conclusions.len() as int) =~= texts(conclusions@));
        self
    }

    /// The names of the simplifier hints of this goal, computed from its conclusions.
    pub fn hint_names(&self) -> (r: Vec<String>)
        ensures
            texts(r@) == hints(self@.conclusions),
    {
        let mut r: Vec<String> = Vec::new();
        r.push("assms".to_owned());
        assert(texts(r@) =~= hints(self@.conclusions));
        r
    }

    /// Renders the goal in the proof kernel's language.
    pub fn to_isabelle(&self) -> (r: String)
        ensures
            r@ == lemma_text(self@),
    {
        let mut quoted_premises: Vec<String> = Vec::new();
        let mut i: usize = 0;
        while i < self.premises.len()
            invariant
                i <= self.premises.len(),
                texts(quoted_premises@) == all_quoted(texts(self.premises@).subrange(0, i as int)),
            decreases self.premises.len() - i,
        {
            let mut q: Vec<char> = Vec::new();
            q.push('"');
            push_text(&mut q, self.premises[i].as_str());
            q.push('"');
            assert(q@ =~= quoted(self.premises@[i as int]@));
            let ghost prev = quoted_premises@;
            quoted_premises.push(text_of(&q));
            i += 1;
            assert(texts(quoted_premises@) =~= texts(prev).push(quoted(self.premises@[i - 1]@)));
            assert(texts(quoted_premises@) =~= all_quoted(
                texts(self.premises@).subrange(0, i as int),
            ));
        }
        assert(texts(self.premises@).subrange(0, self.premises.len() as int) =~= texts(
            self.premises@,
        ));
        let simps = self.hint_names();
        let mut out: Vec<char> = Vec::new();
        push_text(&mut out, "\nlemma ");
        push_text(&mut out, self.name.as_str());
        push_text(&mut out, ": assumes ");
        push_joined(&mut out, &quoted_premises, " and ");
        push_text(&mut out, " shows \"");
        push_joined(&mut out, &self.conclusions, " \\<and> ");
        push_text(&mut out, "\"\n    apply(simp add: ");
        push_joined(&mut out, &simps, " ");
        push_text(&mut out, ")\n    done\n");
        assert(out@ =~= lemma_text(self@));
        text_of(&out)
    }

    /// One goal for each conclusion, under the same premises. The `i`-th
    /// is named by this goal's name, an underscore and `i`.
    pub fn split_conclusion(self) -> (r: Vec<Lemma>)
        ensures
            r.len() == self@.conclusions.len(),
            forall|i: int| 0 <= i < r.len() ==> (#[trigger] r[i])@ == split_part(self@, i),
    {
        let mut r: Vec<Lemma> = Vec::new();
        let mut i: usize = 0;
        while i < self.conclusions.len()
            invariant
                i <= self.conclusions.len(),
                r.len() == i,
                forall|k: int| 0 <= k < i ==> (#[trigger] r[k])@ == split_part(self@, k),
            decreases self.conclusions.len() - i,
        {
            let mut name: Vec<char> = Vec::new();
            push_text(&mut name, self.name.as_str());
            name.push('_');
            let digits = decimal_chars(i);
            push_all(&mut name, &digits);
            let mut conclusions: Vec<String> = Vec::new();
            conclusions.push(self.conclusions[i].clone());
            let part = Lemma {
                name: text_of(&name),
                premises: clone_texts(&self.premises),
                conclusions,
            };
            proof {
                reveal_strlit("_");
                assert("_"@ =~= seq!['_']);
                assert(part.name@ =~= self@.name + "_"@ + decimal(i as nat));
                assert(texts(part.conclusions@) =~= seq![self@.conclusions[i as int]]);
            }
            r.push(part);
            i += 1;
        }
        r
    }
}

impl View for Theory {
    type V = TheoryView;

    closed spec fn view(&self) -> TheoryView {
        TheoryView {
            name: self.name@,
            imports: texts(self.imports@),
            split: self.split_lemmata,
            lemmata: texts(self.lemmata@),
        }
    }
}

impl Default for Theory {
    fn default() -> (r: Self)
        ensures
            r@ == (TheoryView {
                name: Seq::empty(),
                imports: Seq::empty(),
                split: false,
                lemmata: Seq::empty(),
            }),
    {
        let r = Theory {
            name: String::new(),
            imports: Vec::new(),
            split_lemmata: false,
            lemmata: Vec::new(),
        };
        assert(texts(r.imports@) =~= Seq::empty());
        assert(texts(r.lemmata@) =~= Seq::empty());
        r
    }
}

impl Theory {
    /// An empty theory of the given name. With `split`, a goal that is
    /// added becomes one goal for each of its conclusions.
    pub fn new(name: &str, split: bool) -> (r: Self)
        ensures
            r@ == (TheoryView {
                name: name@,
                imports: Seq::empty(),
                split,
                lemmata: Seq::empty(),
            }),
    {
        let r = Theory {
            name: name.to_owned(),
            imports: Vec::new(),
            split_lemmata: split,
            lemmata: Vec::new(),
        };
        assert(texts(r.imports@) =~= Seq::empty());
        assert(texts(r.lemmata@) =~= Seq::empty());
        r
    }

    /// Adds one import after those already there.
    pub fn add_theory_import(&mut self, imports: &str) -> (ret: &mut Self)
        ensures
            ret@ == (TheoryView { imports: old(self)@.imports.push(imports@), ..old(self)@ }),
            *final(self) == *final(ret),
    {
        self.imports.push(imports.to_owned());
        assert(texts(self.imports@) =~= texts(old(self).imports@).push(imports@));
        self
    }

    /// Adds a goal: its text as a whole or, in a splitting theory, the
    /// texts of the goals for each of its conclusions.
    pub fn add_lemma(&mut self, builder: Lemma)
        ensures
            final(self)@ == (TheoryView {
                lemmata: old(self)@.lemmata + (if old(self)@.split {
                    split_texts(builder@)
                } else {
                    seq![lemma_text(builder@)]
                }),
                ..old(self)@
            }),
    {
        if self.split_lemmata {
            let ghost whole = builder@;
            let parts = builder.split_conclusion();
            let mut i: usize = 0;
            assert(old(self)@.lemmata + split_texts(whole).subrange(0, 0) =~= old(self)@.lemmata);
            while i < parts.len()
                invariant
                    i <= parts.len(),
                    parts.len() == whole.conclusions.len(),
                    forall|k: int| 0 <= k < parts.len() ==> (#[trigger] parts[k])@ == split_part(whole, k),
                    self@ == (TheoryView {
                        lemmata: old(self)@.lemmata + split_texts(whole).subrange(0, i as int),
                        ..old(self)@
                    }),
                decreases parts.len() - i,
            {
                let t = parts[i].to_isabelle();
                let ghost prev = self.lemmata@;
                assert(texts(prev) == old(self)@.lemmata + split_texts(whole).subrange(0, i as int));
                self.lemmata.push(t);
                i += 1;
                assert(texts(self.lemmata@) =~= texts(prev).push(lemma_text(split_part(whole, i - 1))));
                assert(texts(self.lemmata@) =~= old(self)@.lemmata + split_texts(whole).subrange(
                    0,
                    i as int,
                ));
            }
            assert(split_texts(whole).subrange(0, parts.len() as int) =~= split_texts(whole));
        } else {
            let t = builder.to_isabelle();
            self.lemmata.push(t);
            assert(texts(self.lemmata@) =~= old(self)@.lemmata + seq![lemma_text(builder@)]);
        }
    }

    /// Renders the theory in the proof kernel's language.
    pub fn to_isabelle(&self) -> (r: String)
        ensures
            r@ == theory_text(self@),
    {
        let mut out: Vec<char> = Vec::new();
        push_text(&mut out, "theory ");
        push_text(&mut out, self.name.as_str());
        push_text(&mut out, "\n");
        push_text(&mut out, "\timports ");
        if self.imports.len() == 0 {
            push_text(&mut out, " Main\n");
        } else {
            push_terminated(&mut out, &self.imports, " ");
            push_text(&mut out, "\n");
        }
        push_text(&mut out, "begin\n\n");
        push_terminated(&mut out, &self.lemmata, "\n");
        push_text(&mut out, "end\n");
        assert(out@ =~= theory_text(self@));
        text_of(&out)
    }
}

} // verus!
