//! The converter: translates scripts term by term against an operator
//! table and keeps the names that it meets.

use vstd::prelude::*;
use crate::error::{agrees, Error, ErrorView};
use crate::escape::unicode_unescape;
use crate::parse::{parse_script, parsed_script};
use crate::spec_table::{
    all_lines, conflict, consistent, left_assoc, lines_of, lookup, lookup_from, right_assoc,
    EntryView, Spec, SpecDef,
};
use crate::term::{
    command_views, lemma_application_view, term_views, SmtCommand, SmtCommandView, SmtConstant,
    SmtIdentifier, SmtTerm, SmtTermView,
};
use crate::text::{
    chars_of, clone_texts, code_of, contains_text, decimal, decimal_chars, push_all, push_joined,
    push_text, replace_all, replace_chars, text_of, texts,
};
use crate::translate::{
    code_list, constant_text, convert_all, identifier_text, inserted, left_fold,
    lemma_args_failure_stays, lemma_minus_empty, lemma_script_failure_stays,
    lemma_unrolled_translates_alike, lemma_weight_of_argument, lemma_weight_unrolled, minus,
    opening, translate, translate_args, translate_command, unrolled, weight, Usage,
};

verus! {

/// One line of the table as the converter holds it.
#[derive(Debug)]
pub struct TableLine {
    pub theory: String,
    pub operator: String,
    pub spec: Spec,
}

impl View for TableLine {
    type V = EntryView;

    open spec fn view(&self) -> EntryView {
        EntryView { theory: self.theory@, operator: self.operator@, spec: self.spec@ }
    }
}

/// The models of the lines, one for one.
pub open spec fn line_views(v: Seq<TableLine>) -> Seq<EntryView> {
    Seq::new(v.len(), |i: int| v[i]@)
}

/// A converter from the source language to the proof kernel's language.
#[derive(Debug)]
pub struct Converter {
    table: Vec<TableLine>,
    vars_used: Vec<String>,
    vars_defined: Vec<String>,
}

/// The model of a [`Converter`]: its table and the names met so far.
pub struct ConverterView {
    pub table: Seq<EntryView>,
    pub usage: Usage,
}

impl View for Converter {
    type V = ConverterView;

    closed spec fn view(&self) -> ConverterView {
        ConverterView {
            table: line_views(self.table@),
            usage: Usage { used: texts(self.vars_used@), defined: texts(self.vars_defined@) },
        }
    }
}

/// The script with the two operator names of the older standard
/// replaced by those of the newer, `str.to.re` first.
pub open spec fn normalised(input: Seq<char>) -> Seq<char> {
    replace_all(replace_all(input, "str.to.re"@, "str.to_re"@), "str.in.re"@, "str.in_re"@)
}

/// The model of a script that was read: its commands, or the parser's message.
pub open spec fn script_view(r: Result<Vec<SmtCommand>, String>) -> Result<
    Seq<SmtCommandView>,
    Seq<char>,
> {
    match r {
        Ok(commands) => Ok(command_views(commands@)),
        Err(msg) => Err(msg@),
    }
}

/// Reads a script: replaces the two operator names of the older standard
/// and parses the result.
pub fn read_script(input: &str) -> (r: Result<Vec<SmtCommand>, String>)
    ensures
        script_view(r) == parsed_script(normalised(input@)),
{
    let source = chars_of(input);
    let from1 = chars_of("str.to.re");
    let to1 = chars_of("str.to_re");
    let from2 = chars_of("str.in.re");
    let to2 = chars_of("str.in_re");
    proof {
        reveal_strlit("str.to.re");
        reveal_strlit("str.in.re");
    }
    let first = replace_chars(&source, &from1, &to1);
    let second = replace_chars(&first, &from2, &to2);
    let script = text_of(&second);
    parse_script(script.as_str())
}

/// Adds `name` to the names of `v` unless it is among them.
pub fn insert_name(v: &mut Vec<String>, name: &String)
    requires
        texts(old(v)@).no_duplicates(),
    ensures
        texts(final(v)@) == inserted(texts(old(v)@), name@),
        texts(final(v)@).no_duplicates(),
{
    if !contains_text(v, name) {
        v.push(name.clone());
        assert(texts(v@) =~= texts(old(v)@).push(name@));
    }
}

/// The lines of the namespaces of a table, one namespace after the other.
pub fn flatten(spec: &SpecDef) -> (table: Vec<TableLine>)
    ensures
        line_views(table@) == spec@.lines,
{
    let mut table: Vec<TableLine> = Vec::new();
    let mut i: usize = 0;
    assert(line_views(table@) =~= all_lines(spec.specs@.subrange(0, 0)));
    while i < spec.specs.len()
        invariant
            i <= spec.specs.len(),
            line_views(table@) == all_lines(spec.specs@.subrange(0, i as int)),
        decreases spec.specs.len() - i,
    {
        let ns = &spec.specs[i];
        let ghost before = line_views(table@);
        let mut j: usize = 0;
        assert(line_views(table@) =~= before + lines_of(*ns).subrange(0, 0));
        while j < ns.entries.len()
            invariant
                j <= ns.entries.len(),
                line_views(table@) == before + lines_of(*ns).subrange(0, j as int),
            decreases ns.entries.len() - j,
        {
            let entry = &ns.entries[j];
            let ghost prev = table@;
            table.push(
                TableLine {
                    theory: ns.name.clone(),
                    operator: entry.operator.clone(),
                    spec: entry.spec.clone(),
                },
            );
            j += 1;
            assert(line_views(table@) =~= line_views(prev).push(lines_of(*ns)[j - 1]));
            assert(line_views(table@) =~= before + lines_of(*ns).subrange(0, j as int));
        }
        i += 1;
        proof {
            let upto = spec.specs@.subrange(0, i as int);
            assert(upto.drop_last() =~= spec.specs@.subrange(0, i - 1));
            assert(upto.last() == *ns);
            assert(lines_of(*ns).subrange(0, ns.entries.len() as int) =~= lines_of(*ns));
        }
    }
    assert(spec.specs@.subrange(0, spec.specs.len() as int) =~= spec.specs@);
    table
}

/// Looks for two lines that say different things of one operator.
pub fn find_conflict(table: &Vec<TableLine>) -> (r: Option<(usize, usize)>)
    ensures
        match r {
            Some((i, j)) => conflict(line_views(table@), i as int, j as int),
            None => consistent(line_views(table@)),
        },
{
    let ghost lines = line_views(table@);
    let mut j: usize = 0;
    while j < table.len()
        invariant
            j <= table.len(),
            lines == line_views(table@),
            forall|a: int, b: int| 0 <= a < b < j ==> !conflict(lines, a, b),
        decreases table.len() - j,
    {
        let mut i: usize = 0;
        while i < j
            invariant
                i <= j < table.len(),
                lines == line_views(table@),
                forall|a: int, b: int| 0 <= a < b < j ==> !conflict(lines, a, b),
                forall|a: int| 0 <= a < i ==> !conflict(lines, a, j as int),
            decreases j - i,
        {
            if table[i].operator == table[j].operator && !table[i].spec.same_as(&table[j].spec) {
                return Some((i, j));
            }
            i += 1;
        }
        j += 1;
    }
    assert forall|a: int, b: int|
        0 <= a < lines.len() && 0 <= b < lines.len() && (#[trigger] lines[a]).operator == (
        #[trigger] lines[b]).operator implies lines[a].spec == lines[b].spec by {
        if a < b {
            assert(!conflict(lines, a, b));
        } else if b < a {
            assert(!conflict(lines, b, a));
        }
    }
    None
}

impl Converter {
    /// Whether the converter is in order: its table is consistent and it
    /// holds no name twice.
    pub closed spec fn wf(&self) -> bool {
        &&& consistent(line_views(self.table@))
        &&& texts(self.vars_used@).no_duplicates()
        &&& texts(self.vars_defined@).no_duplicates()
    }

    /// What `wf` says, over the model.
    pub proof fn lemma_wf(&self)
        requires
            self.wf(),
        ensures
            consistent(self@.table),
            self@.usage.used.no_duplicates(),
            self@.usage.defined.no_duplicates(),
    {
    }

    /// A converter for the given table, with no name met yet. A table in
    /// which two lines say different things of one operator is refused,
    /// with the operator's name.
    pub fn new(spec: SpecDef) -> (r: Result<Self, Error>)
        ensures
            match r {
                Ok(c) => consistent(spec@.lines) && c.wf() && c@ == (ConverterView {
                    table: spec@.lines,
                    usage: Usage { used: Seq::empty(), defined: Seq::empty() },
                }),
                Err(e) => exists|i: int, j: int|
                    conflict(spec@.lines, i, j) && e@ == ErrorView::InvalidSpec(
                        spec@.lines[i].operator,
                    ),
            },
    {
        let table = flatten(&spec);
        match find_conflict(&table) {
            Some((i, j)) => {
                assert(conflict(spec@.lines, i as int, j as int));
                Err(Error::InvalidSpec(table[i].operator.clone()))
            },
            None => {
                let c = Converter { table, vars_used: Vec::new(), vars_defined: Vec::new() };
                assert(texts(c.vars_used@) =~= Seq::empty());
                assert(texts(c.vars_defined@) =~= Seq::empty());
                Ok(c)
            },
        }
    }

    /// The free variables met so far, in the order in which they were met.
    pub fn get_vars_used(&self) -> (r: Vec<String>)
        ensures
            texts(r@) == self@.usage.used,
    {
        clone_texts(&self.vars_used)
    }

    /// The names defined so far, in the order in which they were met.
    pub fn get_vars_defined(&self) -> (r: Vec<String>)
        ensures
            texts(r@) == self@.usage.defined,
    {
        clone_texts(&self.vars_defined)
    }

    /// The free variables met so far that no definition has defined, in
    /// the order in which they were met. There is none exactly when every
    /// free variable met is defined.
    pub fn undefined_vars(&self) -> (r: Vec<String>)
        ensures
            texts(r@) == minus(self@.usage.used, self@.usage.defined),
            r.len() == 0 <==> forall|i: int|
                0 <= i < self@.usage.used.len() ==> self@.usage.defined.contains(
                    #[trigger] self@.usage.used[i],
                ),
    {
        let ghost used = texts(self.vars_used@);
        let ghost defined = texts(self.vars_defined@);
        let mut r: Vec<String> = Vec::new();
        let mut i: usize = 0;
        assert(texts(r@) =~= minus(used.subrange(0, 0), defined));
        while i < self.vars_used.len()
            invariant
                i <= self.vars_used.len(),
                used == texts(self.vars_used@),
                defined == texts(self.vars_defined@),
                texts(r@) == minus(used.subrange(0, i as int), defined),
            decreases self.vars_used.len() - i,
        {
            let ghost prev = r@;
            let ghost upto = used.subrange(0, i + 1);
            assert(upto.drop_last() =~= used.subrange(0, i as int));
            assert(upto.last() == self.vars_used@[i as int]@);
            if !contains_text(&self.vars_defined, &self.vars_used[i]) {
                r.push(self.vars_used[i].clone());
                assert(texts(r@) =~= texts(prev).push(upto.last()));
            }
            i += 1;
        }
        assert(used.subrange(0, self.vars_used.len() as int) =~= used);
        proof {
            lemma_minus_empty(used, defined);
        }
        r
    }

    /// The line of the table for `op`: its namespace and what it says.
    pub fn get_spec(&self, op: &String) -> (r: Option<(String, Spec)>)
        ensures
            match r {
                Some((th, spec)) => lookup(self@.table, op@) == Some(
                    EntryView { theory: th@, operator: op@, spec: spec@ },
                ),
                None => lookup(self@.table, op@) is None,
            },
    {
        let ghost lines = line_views(self.table@);
        let mut i: usize = 0;
        while i < self.table.len()
            invariant
                i <= self.table.len(),
                lines == line_views(self.table@),
                lookup(lines, op@) == lookup_from(lines, op@, i as int),
            decreases self.table.len() - i,
        {
            if self.table[i].operator == *op {
                assert(lines[i as int] == self.table@[i as int]@);
                return Some((self.table[i].theory.clone(), self.table[i].spec.clone()));
            }
            assert(lines[i as int] == self.table@[i as int]@);
            i += 1;
        }
        None
    }

    /// The name of an identifier.
    pub fn identifier_name(&self, identifier: &SmtIdentifier) -> (r: String)
        ensures
            r@ == identifier@.name,
    {
        identifier.name.clone()
    }

    /// Translates a constant.
    pub fn convert_constant(&self, c: &SmtConstant) -> (r: Result<String, Error>)
        ensures
            agrees(r, constant_text(c@)),
            c@ matches crate::term::SmtConstantView::Numeral(n) ==> r is Ok && r->Ok_0@ == "("@ + n
                + "::int)"@,
    {
        match c {
            SmtConstant::Numeral(n) => {
                let mut out: Vec<char> = Vec::new();
                push_text(&mut out, "(");
                push_text(&mut out, n.as_str());
                push_text(&mut out, "::int)");
                assert(out@ =~= "("@ + n@ + "::int)"@);
                Ok(text_of(&out))
            },
            SmtConstant::Decimal(d) => Ok(d.clone()),
            SmtConstant::Hexadecimal => Err(
                Error::MalformedConstant("hexadecimal literal".to_owned()),
            ),
            SmtConstant::Binary => Err(Error::MalformedConstant("binary literal".to_owned())),
            SmtConstant::Text(s) => {
                match unicode_unescape(s.as_str(), true) {
                    Err(e) => Err(e),
                    Ok(t) => {
                        let cs = chars_of(t.as_str());
                        let ghost codes = Seq::new(cs@.len(), |i: int| decimal(cs@[i] as nat));
                        let mut numbers: Vec<String> = Vec::new();
                        let mut i: usize = 0;
                        while i < cs.len()
                            invariant
                                i <= cs.len(),
                                codes == Seq::new(cs@.len(), |i: int| decimal(cs@[i] as nat)),
                                texts(numbers@) == codes.subrange(0, i as int),
                            decreases cs.len() - i,
                        {
                            let code: u32 = code_of(cs[i]);
                            let digits = decimal_chars(code as usize);
                            let ghost prev = numbers@;
                            numbers.push(text_of(&digits));
                            i += 1;
                            assert(texts(numbers@) =~= texts(prev).push(codes[i - 1]));
                            assert(texts(numbers@) =~= codes.subrange(0, i as int));
                        }
                        assert(codes.subrange(0, cs.len() as int) =~= codes);
                        let mut out: Vec<char> = Vec::new();
                        push_text(&mut out, "[");
                        push_joined(&mut out, &numbers, ",");
                        push_text(&mut out, "]");
                        assert(out@ =~= code_list(t@));
                        Ok(text_of(&out))
                    },
                }
            },
        }
    }

    /// Translates a name that stands alone, and records it as a free
    /// variable where the table has no line for it.
    pub fn convert_identifier(&mut self, identifier: &SmtIdentifier) -> (r: Result<String, Error>)
        requires
            old(self).wf(),
        ensures
            final(self).wf(),
            final(self)@.table == old(self)@.table,
            final(self)@.usage.defined == old(self)@.usage.defined,
            final(self)@.usage.used == identifier_text(
                old(self)@.table,
                identifier@,
                old(self)@.usage.used,
            ).used,
            agrees(r, identifier_text(old(self)@.table, identifier@, old(self)@.usage.used).text),
    {
        if identifier.indexed {
            return Err(Error::UnsupportedConstruct(identifier.name.clone()));
        }
        let op = self.identifier_name(identifier);
        match self.get_spec(&op) {
            Some(m) => match m.1.mapsto {
                Some(target) => Ok(target),
                None => Err(Error::UnsupportedOperator(op)),
            },
            None => {
                insert_name(&mut self.vars_used, &op);
                Ok(op)
            },
        }
    }

    /// Rewrites an application of two or more arguments into applications
    /// of two arguments nested to the left; one of fewer is copied.
    pub fn unroll_assoc_left(&self, identifier: &SmtIdentifier, args: &Vec<SmtTerm>) -> (r: SmtTerm)
        ensures
            r@ == unrolled(identifier@, term_views(args@)),
    {
        let ghost views = term_views(args@);
        if args.len() >= 2 {
            let mut pair: Vec<SmtTerm> = Vec::new();
            pair.push(args[0].clone());
            pair.push(args[1].clone());
            let head = identifier.clone();
            proof {
                lemma_application_view(head, pair);
                assert(term_views(pair@) =~= seq![views[0], views[1]]);
            }
            let mut term = SmtTerm::Application { head, arguments: pair };
            let mut k: usize = 2;
            while k < args.len()
                invariant
                    2 <= k <= args.len(),
                    views == term_views(args@),
                    term@ == left_fold(identifier@, views, (k - 1) as nat),
                decreases args.len() - k,
            {
                let mut pair: Vec<SmtTerm> = Vec::new();
                let ghost inner = term@;
                pair.push(term);
                pair.push(args[k].clone());
                let head = identifier.clone();
                proof {
                    lemma_application_view(head, pair);
                    assert(term_views(pair@) =~= seq![inner, views[k as int]]);
                }
                term = SmtTerm::Application { head, arguments: pair };
                k += 1;
            }
            term
        } else {
            let mut copies: Vec<SmtTerm> = Vec::new();
            let mut i: usize = 0;
            while i < args.len()
                invariant
                    i <= args.len(),
                    term_views(copies@) == term_views(args@).subrange(0, i as int),
                decreases args.len() - i,
            {
                let ghost prev = copies@;
                copies.push(args[i].clone());
                i += 1;
                assert(term_views(copies@) =~= term_views(prev).push(args@[i - 1]@));
                assert(term_views(copies@) =~= term_views(args@).subrange(0, i as int));
            }
            assert(term_views(args@).subrange(0, args.len() as int) =~= term_views(args@));
            let head = identifier.clone();
            proof {
                lemma_application_view(head, copies);
            }
            SmtTerm::Application { head, arguments: copies }
        }
    }

    /// Translates a term and records the free variables that it meets.
    pub fn convert_term(&mut self, t: &SmtTerm) -> (r: Result<String, Error>)
        requires
            old(self).wf(),
        ensures
            final(self).wf(),
            final(self)@.table == old(self)@.table,
            final(self)@.usage.defined == old(self)@.usage.defined,
            final(self)@.usage.used == translate(old(self)@.table, t@, old(self)@.usage.used).used,
            agrees(r, translate(old(self)@.table, t@, old(self)@.usage.used).text),
        decreases weight(t@), 1nat,
    {
        match t {
            SmtTerm::Literal(c) => self.convert_constant(c),
            SmtTerm::Name(i) => self.convert_identifier(i),
            SmtTerm::Application { head, arguments } => {
                proof {
                    lemma_application_view(*head, *arguments);
                }
                self.convert_application(head, arguments)
            },
            SmtTerm::Let => Err(Error::UnsupportedConstruct("let".to_owned())),
            SmtTerm::Forall => Err(Error::UnsupportedConstruct("forall".to_owned())),
            SmtTerm::Exists => Err(Error::UnsupportedConstruct("exists".to_owned())),
            SmtTerm::Match => Err(Error::UnsupportedConstruct("match".to_owned())),
            SmtTerm::Attributes => Err(Error::UnsupportedConstruct("!".to_owned())),
        }
    }

    /// Translates the application of an operator to its arguments. An
    /// operator without a line in the table is unknown, before anything
    /// else is looked at; an indexed one is refused; a left-associative one
    /// with more than two arguments is nested to the left; the same for a
    /// right-associative one is refused.
    pub fn convert_application(&mut self, identifier: &SmtIdentifier, args: &Vec<SmtTerm>) -> (r:
        Result<String, Error>)
        requires
            old(self).wf(),
        ensures
            final(self).wf(),
            final(self)@.table == old(self)@.table,
            final(self)@.usage.defined == old(self)@.usage.defined,
            final(self)@.usage.used == translate(
                old(self)@.table,
                SmtTermView::Application(identifier@, term_views(args@)),
                old(self)@.usage.used,
            ).used,
            agrees(
                r,
                translate(
                    old(self)@.table,
                    SmtTermView::Application(identifier@, term_views(args@)),
                    old(self)@.usage.used,
                ).text,
            ),
            lookup(old(self)@.table, identifier@.name) is None ==> r is Err && r->Err_0@
                == ErrorView::UnknownOperator(identifier@.name) && final(self)@ == old(self)@,
        decreases weight(SmtTermView::Application(identifier@, term_views(args@))), 0nat,
    {
        let ghost table = self@.table;
        let ghost used0 = self@.usage.used;
        let ghost views = term_views(args@);
        let op = self.identifier_name(identifier);
        let spec = match self.get_spec(&op) {
            Some(m) => m.1,
            None => {
                return Err(Error::UnknownOperator(op));
            },
        };
        if identifier.indexed {
            return Err(Error::UnsupportedConstruct(op));
        }
        let n = args.len();
        if spec.is_left_assoc() && n > 2 {
            let nested = self.unroll_assoc_left(identifier, args);
            proof {
                lemma_unrolled_translates_alike(table, identifier@, views, used0);
                lemma_weight_unrolled(identifier@, views);
            }
            self.convert_term(&nested)
        } else if spec.is_right_assoc() && n > 2 {
            Err(Error::UnsupportedConstruct(op))
        } else {
            let target = match spec.mapsto {
                Some(m) => m,
                None => {
                    return Err(Error::UnsupportedOperator(op));
                },
            };
            let mut body: Vec<char> = Vec::new();
            let mut k: usize = 0;
            while k < n
                invariant
                    k <= n,
                    n == args.len(),
                    spec.mapsto == Some(target),
                    !(left_assoc(spec@) && n > 2),
                    !(right_assoc(spec@) && n > 2),
                    views == term_views(args@),
                    self.wf(),
                    self@.table == table,
                    table == old(self)@.table,
                    used0 == old(self)@.usage.used,
                    lookup(table, identifier@.name) matches Some(e) && e.spec == spec@,
                    !identifier@.indexed,
                    self@.usage.defined == old(self)@.usage.defined,
                    translate_args(table, views, k as nat, used0).text == Ok::<
                        Seq<char>,
                        ErrorView,
                    >(body@),
                    translate_args(table, views, k as nat, used0).used == self@.usage.used,
                decreases n - k,
            {
                proof {
                    lemma_weight_of_argument(views, n as nat, k as int);
                }
                let x = match self.convert_term(&args[k]) {
                    Ok(x) => x,
                    Err(e) => {
                        proof {
                            assert(translate_args(table, views, (k + 1) as nat, used0).text is Err);
                            lemma_args_failure_stays(table, views, (k + 1) as nat, n as nat, used0);
                        }
                        return Err(e);
                    },
                };
                push_text(&mut body, " ");
                push_text(&mut body, x.as_str());
                k += 1;
            }
            let mut out: Vec<char> = Vec::new();
            if n <= 1 {
                push_text(&mut out, "(");
                push_text(&mut out, target.as_str());
                push_text(&mut out, " ");
            } else {
                push_text(&mut out, "((");
                push_text(&mut out, target.as_str());
                push_text(&mut out, ") ");
            }
            assert(out@ =~= opening(target@, n as nat));
            push_all(&mut out, &body);
            push_text(&mut out, ")");
            Ok(text_of(&out))
        }
    }

    /// Translates a function definition into an equation between its
    /// name and its translated body, and records the name as defined.
    pub fn convert_fun_defines(&mut self, name: &String, body: &SmtTerm) -> (r: Result<
        String,
        Error,
    >)
        requires
            old(self).wf(),
        ensures
            final(self).wf(),
            final(self)@.table == old(self)@.table,
            final(self)@.usage.defined == inserted(old(self)@.usage.defined, name@),
            final(self)@.usage.used == translate(
                old(self)@.table,
                body@,
                old(self)@.usage.used,
            ).used,
            match translate(old(self)@.table, body@, old(self)@.usage.used).text {
                Ok(x) => r is Ok && r->Ok_0@ == name@ + " = "@ + x,
                Err(f) => r is Err && r->Err_0@ == f,
            },
    {
        insert_name(&mut self.vars_defined, name);
        match self.convert_term(body) {
            Ok(x) => {
                let mut out: Vec<char> = Vec::new();
                push_text(&mut out, name.as_str());
                push_text(&mut out, " = ");
                push_text(&mut out, x.as_str());
                assert(out@ =~= name@ + " = "@ + x@);
                Ok(text_of(&out))
            },
            Err(e) => Err(e),
        }
    }

    /// Translates the assertions and function definitions of a script in
    /// order, up to the first that fails; other commands are passed over.
    pub fn convert_commands(&mut self, commands: &Vec<SmtCommand>) -> (r: Result<
        Vec<String>,
        Error,
    >)
        requires
            old(self).wf(),
        ensures
            final(self).wf(),
            final(self)@.table == old(self)@.table,
            ({
                let c = convert_all(
                    old(self)@.table,
                    command_views(commands@),
                    commands.len() as nat,
                    old(self)@.usage,
                );
                &&& final(self)@.usage == c.usage
                &&& match c.texts {
                    Ok(ts) => r is Ok && texts(r->Ok_0@) == ts,
                    Err(f) => r is Err && r->Err_0@ == f,
                }
            }),
    {
        let ghost table = self@.table;
        let ghost usage0 = self@.usage;
        let ghost views = command_views(commands@);
        let mut converted: Vec<String> = Vec::new();
        let mut i: usize = 0;
        assert(texts(converted@) =~= Seq::empty());
        while i < commands.len()
            invariant
                i <= commands.len(),
                views == command_views(commands@),
                self.wf(),
                self@.table == table,
                table == old(self)@.table,
                usage0 == old(self)@.usage,
                convert_all(table, views, i as nat, usage0).texts == Ok::<
                    Seq<Seq<char>>,
                    ErrorView,
                >(texts(converted@)),
                convert_all(table, views, i as nat, usage0).usage == self@.usage,
            decreases commands.len() - i,
        {
            let ghost prev = converted@;
            let ghost step = translate_command(table, views[i as int], self@.usage);
            let outcome = match &commands[i] {
                SmtCommand::Assert(term) => self.convert_term(term),
                SmtCommand::DefineFun { name, body } => self.convert_fun_defines(name, body),
                SmtCommand::Other => {
                    i += 1;
                    continue ;
                },
            };
            match outcome {
                Ok(x) => {
                    converted.push(x);
                    assert(texts(converted@) =~= texts(prev).push(x@));
                },
                Err(e) => {
                    proof {
                        assert(convert_all(table, views, (i + 1) as nat, usage0).texts is Err);
                        lemma_script_failure_stays(
                            table,
                            views,
                            (i + 1) as nat,
                            commands.len() as nat,
                            usage0,
                        );
                    }
                    return Err(e);
                },
            }
            i += 1;
        }
        Ok(converted)
    }

    /// Translates a script. The two operator names of the older standard
    /// are replaced first; then the script is parsed and its commands are
    /// translated in order. A script that does not parse gives the
    /// parser's message and changes nothing.
    pub fn convert(&mut self, input: String) -> (r: Result<Vec<String>, Error>)
        requires
            old(self).wf(),
        ensures
            final(self).wf(),
            final(self)@.table == old(self)@.table,
            match parsed_script(normalised(input@)) {
                Err(msg) => r is Err && r->Err_0@ == ErrorView::ParseError(msg) && final(self)@
                    == old(self)@,
                Ok(commands) => {
                    let c = convert_all(
                        old(self)@.table,
                        commands,
                        commands.len(),
                        old(self)@.usage,
                    );
                    &&& final(self)@.usage == c.usage
                    &&& match c.texts {
                        Ok(ts) => r is Ok && texts(r->Ok_0@) == ts,
                        Err(f) => r is Err && r->Err_0@ == f,
                    }
                },
            },
    {
        match read_script(input.as_str()) {
            Err(msg) => Err(Error::ParseError(msg)),
            Ok(commands) => self.convert_commands(&commands),
        }
    }
}

} // verus!
