//! The operator table: for each operator of the source language its
//! target name, its associativity and whether it chains.

use vstd::prelude::*;

verus! {

/// What the table says of one operator.
#[derive(Debug)]
pub struct Spec {
    /// The name in the target language; without one the operator is known
    /// but not translated.
    pub mapsto: Option<String>,
    /// `left`, `right`, or none.
    pub assoc: Option<String>,
    /// Kept with the entry; the translation does not read it.
    pub chainable: bool,
}

/// One operator of a namespace with what the table says of it.
#[derive(Debug)]
pub struct SpecEntry {
    pub operator: String,
    pub spec: Spec,
}

/// The operators of one namespace.
#[derive(Debug)]
pub struct Namespace {
    pub name: String,
    pub entries: Vec<SpecEntry>,
}

/// The whole table as it is loaded: two version tags and the namespaces.
#[derive(Debug)]
pub struct SpecDef {
    pub version: String,
    pub smt_lib_version: String,
    pub specs: Vec<Namespace>,
}

/// The model of a [`Spec`].
pub struct SpecView {
    pub mapsto: Option<Seq<char>>,
    pub assoc: Option<Seq<char>>,
    pub chainable: bool,
}

/// One line of the table's model: a namespace, an operator, its entry.
pub struct EntryView {
    pub theory: Seq<char>,
    pub operator: Seq<char>,
    pub spec: SpecView,
}

/// The view of a text that may be missing.
pub open spec fn opt_text(o: Option<String>) -> Option<Seq<char>> {
    match o {
        Some(s) => Some(s@),
        None => None,
    }
}

impl View for Spec {
    type V = SpecView;

    open spec fn view(&self) -> SpecView {
        SpecView {
            mapsto: opt_text(self.mapsto),
            assoc: opt_text(self.assoc),
            chainable: self.chainable,
        }
    }
}

/// The lines of one namespace, in order.
pub open spec fn lines_of(ns: Namespace) -> Seq<EntryView> {
    Seq::new(
        ns.entries.len() as nat,
        |i: int|
            EntryView {
                theory: ns.name@,
                operator: ns.entries[i].operator@,
                spec: ns.entries[i].spec@,
            },
    )
}

/// The lines of all namespaces, one namespace after the other.
pub open spec fn all_lines(specs: Seq<Namespace>) -> Seq<EntryView>
    decreases specs.len(),
{
    if specs.len() == 0 {
        Seq::empty()
    } else {
        all_lines(specs.drop_last()) + lines_of(specs.last())
    }
}

/// The model of a [`SpecDef`]: its two version tags and its lines.
pub struct SpecDefView {
    pub version: Seq<char>,
    pub smt_lib_version: Seq<char>,
    pub lines: Seq<EntryView>,
}

impl View for SpecDef {
    type V = SpecDefView;

    open spec fn view(&self) -> SpecDefView {
        SpecDefView {
            version: self.version@,
            smt_lib_version: self.smt_lib_version@,
            lines: all_lines(self.specs@),
        }
    }
}

/// The first line for `op` at or after position `i`.
pub open spec fn lookup_from(table: Seq<EntryView>, op: Seq<char>, i: int) -> Option<EntryView>
    decreases table.len() - i,
{
    if i < 0 || i >= table.len() {
        None
    } else if table[i].operator == op {
        Some(table[i])
    } else {
        lookup_from(table, op, i + 1)
    }
}

/// The first line for `op`.
pub open spec fn lookup(table: Seq<EntryView>, op: Seq<char>) -> Option<EntryView> {
    lookup_from(table, op, 0)
}

/// No operator has two lines that say different things of it.
pub open spec fn consistent(table: Seq<EntryView>) -> bool {
    forall|i: int, j: int|
        0 <= i < table.len() && 0 <= j < table.len() && (#[trigger] table[i]).operator == (
        #[trigger] table[j]).operator ==> table[i].spec == table[j].spec
}

/// The lines `i < j` say different things of one operator.
pub open spec fn conflict(table: Seq<EntryView>, i: int, j: int) -> bool {
    0 <= i < j < table.len() && table[i].operator == table[j].operator && table[i].spec
        != table[j].spec
}

/// Whether the operator is declared left-associative.
pub open spec fn left_assoc(s: SpecView) -> bool {
    s.assoc == Some("left"@)
}

/// Whether the operator is declared right-associative.
pub open spec fn right_assoc(s: SpecView) -> bool {
    s.assoc == Some("right"@)
}

/// In a consistent table every line is what a lookup of its operator
/// finds, whatever the order of the namespaces: what is found for an
/// operator does not depend on where its lines stand.
pub proof fn lemma_lookup_any_line(table: Seq<EntryView>, k: int)
    requires
        consistent(table),
        0 <= k < table.len(),
    ensures
        lookup(table, table[k].operator) matches Some(e) && e.spec == table[k].spec,
{
    lemma_lookup_from(table, table[k].operator, 0, k);
}

proof fn lemma_lookup_from(table: Seq<EntryView>, op: Seq<char>, i: int, k: int)
    requires
        consistent(table),
        0 <= i <= k < table.len(),
        table[k].operator == op,
    ensures
        lookup_from(table, op, i) matches Some(e) && e.spec == table[k].spec && e.operator == op,
    decreases k - i,
{
    if table[i].operator != op {
        lemma_lookup_from(table, op, i + 1, k);
    }
}

/// A lookup finds nothing exactly when no line is for the operator.
pub proof fn lemma_lookup_none(table: Seq<EntryView>, op: Seq<char>, i: int)
    requires
        0 <= i,
    ensures
        lookup_from(table, op, i) is None <==> forall|k: int|
            i <= k < table.len() ==> (#[trigger] table[k]).operator != op,
        lookup_from(table, op, i) matches Some(e) ==> e.operator == op,
    decreases table.len() - i,
{
    if i < table.len() {
        lemma_lookup_none(table, op, i + 1);
        if table[i].operator != op {
            if lookup_from(table, op, i) is None {
                assert forall|k: int| i <= k < table.len() implies (#[trigger] table[k]).operator
                    != op by {
                    if k > i {
                    }
                }
            }
        }
    }
}

/// Tests two texts that may be missing for equality.
pub fn same_opt_text(a: &Option<String>, b: &Option<String>) -> (r: bool)
    ensures
        r == (opt_text(*a) == opt_text(*b)),
{
    match (a, b) {
        (Some(x), Some(y)) => *x == *y,
        (None, None) => true,
        _ => false,
    }
}

/// A copy of a text that may be missing.
pub fn clone_opt_text(a: &Option<String>) -> (r: Option<String>)
    ensures
        r == *a,
{
    match a {
        Some(x) => Some(x.clone()),
        None => None,
    }
}

impl Spec {
    /// Whether the operator is declared left-associative.
    pub fn is_left_assoc(&self) -> (r: bool)
        ensures
            r == left_assoc(self@),
    {
        match &self.assoc {
            Some(a) => {
                let left = "left".to_owned();
                *a == left
            },
            None => false,
        }
    }

    /// Whether the operator is declared right-associative.
    pub fn is_right_assoc(&self) -> (r: bool)
        ensures
            r == right_assoc(self@),
    {
        match &self.assoc {
            Some(a) => {
                let right = "right".to_owned();
                *a == right
            },
            None => false,
        }
    }

    /// Whether both say the same of their operator.
    pub fn same_as(&self, other: &Spec) -> (r: bool)
        ensures
            r == (self@ == other@),
    {
        same_opt_text(&self.mapsto, &other.mapsto) && same_opt_text(&self.assoc, &other.assoc)
            && self.chainable == other.chainable
    }
}

impl Clone for Spec {
    fn clone(&self) -> (r: Self)
        ensures
            r == *self,
    {
        Spec {
            mapsto: clone_opt_text(&self.mapsto),
            assoc: clone_opt_text(&self.assoc),
            chainable: self.chainable,
        }
    }
}

} // verus!
