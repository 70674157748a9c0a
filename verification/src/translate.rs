//! What the translation of a term, a command and a script is: the
//! mathematical statement that the converter is held to.

use vstd::prelude::*;
use crate::error::ErrorView;
use crate::escape::unescaped;
use crate::spec_table::{left_assoc, lemma_lookup_none, lookup, right_assoc, EntryView};
use crate::term::{SmtCommandView, SmtConstantView, SmtIdentifierView, SmtTermView};
use crate::text::{decimal, join};

verus! {

/// A translated text or the failure, and the free variables met so far.
pub struct Translated {
    pub text: Result<Seq<char>, ErrorView>,
    pub used: Seq<Seq<char>>,
}

/// The names that a converter has met: free variables used, and names
/// defined by function definitions. Neither holds a name twice.
pub struct Usage {
    pub used: Seq<Seq<char>>,
    pub defined: Seq<Seq<char>>,
}

/// The translated texts of a script or the failure, and the names met.
pub struct Converted {
    pub texts: Result<Seq<Seq<char>>, ErrorView>,
    pub usage: Usage,
}

/// `s` with `x` added at the end unless it is there already.
pub open spec fn inserted(s: Seq<Seq<char>>, x: Seq<char>) -> Seq<Seq<char>> {
    if s.contains(x) {
        s
    } else {
        s.push(x)
    }
}

/// The names of `a` that are not in `b`, in the order of `a`.
pub open spec fn minus(a: Seq<Seq<char>>, b: Seq<Seq<char>>) -> Seq<Seq<char>>
    decreases a.len(),
{
    if a.len() == 0 {
        Seq::empty()
    } else if b.contains(a.last()) {
        minus(a.drop_last(), b)
    } else {
        minus(a.drop_last(), b).push(a.last())
    }
}

/// The code points of `t` as a list of decimal numbers.
pub open spec fn code_list(t: Seq<char>) -> Seq<char> {
    "["@ + join(Seq::new(t.len(), |i: int| decimal(t[i] as nat)), ","@) + "]"@
}

/// A numeral becomes an integer literal with its type, a decimal stays as
/// it is held, a string becomes the list of its code points after its escapes
/// are expanded (legacy escapes included). Hexadecimal and binary literals
/// are not translated.
pub open spec fn constant_text(c: SmtConstantView) -> Result<Seq<char>, ErrorView> {
    match c {
        SmtConstantView::Numeral(n) => Ok("("@ + n + "::int)"@),
        SmtConstantView::Decimal(d) => Ok(d),
        SmtConstantView::Hexadecimal => Err(ErrorView::MalformedConstant("hexadecimal literal"@)),
        SmtConstantView::Binary => Err(ErrorView::MalformedConstant("binary literal"@)),
        SmtConstantView::Text(s) => match unescaped(s, true) {
            Some(t) => Ok(code_list(t)),
            None => Err(ErrorView::MalformedConstant(s)),
        },
    }
}

/// A name that stands alone: the target of its line in the table, or,
/// without a line, the name itself, which is then a free variable.
pub open spec fn identifier_text(
    table: Seq<EntryView>,
    id: SmtIdentifierView,
    used: Seq<Seq<char>>,
) -> Translated {
    if id.indexed {
        Translated { text: Err(ErrorView::UnsupportedConstruct(id.name)), used }
    } else {
        match lookup(table, id.name) {
            Some(e) => match e.spec.mapsto {
                Some(m) => Translated { text: Ok(m), used },
                None => Translated { text: Err(ErrorView::UnsupportedOperator(id.name)), used },
            },
            None => Translated { text: Ok(id.name), used: inserted(used, id.name) },
        }
    }
}

/// How an application of `n` arguments begins: the target name alone
/// before at most one argument, in parentheses before more.
pub open spec fn opening(m: Seq<char>, n: nat) -> Seq<char> {
    if n <= 1 {
        "("@ + m + " "@
    } else {
        "(("@ + m + ") "@
    }
}

/// The application of `m` to two translated arguments.
pub open spec fn binary_text(m: Seq<char>, x: Seq<char>, y: Seq<char>) -> Seq<char> {
    opening(m, 2) + (Seq::<char>::empty() + " "@ + x + " "@ + y) + ")"@
}

/// The translation of a term, with the free variables met up to its end
/// or up to the first failure. Arguments are taken in order, the leftmost
/// first. An application whose operator has no line in the table is an
/// unknown operator, whatever else holds of it.
pub open spec fn translate(table: Seq<EntryView>, t: SmtTermView, used: Seq<Seq<char>>) -> Translated
    decreases t, 0nat,
{
    match t {
        SmtTermView::Literal(c) => Translated { text: constant_text(c), used },
        SmtTermView::Name(id) => identifier_text(table, id, used),
        SmtTermView::Application(head, args) => match lookup(table, head.name) {
            None => Translated { text: Err(ErrorView::UnknownOperator(head.name)), used },
            Some(e) => if head.indexed {
                Translated { text: Err(ErrorView::UnsupportedConstruct(head.name)), used }
            } else if left_assoc(e.spec) && args.len() > 2 {
                match e.spec.mapsto {
                    None => Translated {
                        text: Err(ErrorView::UnsupportedOperator(head.name)),
                        used,
                    },
                    Some(m) => fold_left(table, m, args, (args.len() - 1) as nat, used),
                }
            } else if right_assoc(e.spec) && args.len() > 2 {
                Translated { text: Err(ErrorView::UnsupportedConstruct(head.name)), used }
            } else {
                match e.spec.mapsto {
                    None => Translated {
                        text: Err(ErrorView::UnsupportedOperator(head.name)),
                        used,
                    },
                    Some(m) => {
                        let a = translate_args(table, args, args.len(), used);
                        match a.text {
                            Ok(body) => Translated {
                                text: Ok(opening(m, args.len()) + body + ")"@),
                                used: a.used,
                            },
                            Err(f) => a,
                        }
                    },
                }
            },
        },
        SmtTermView::Let => Translated { text: Err(ErrorView::UnsupportedConstruct("let"@)), used },
        SmtTermView::Forall => Translated {
            text: Err(ErrorView::UnsupportedConstruct("forall"@)),
            used,
        },
        SmtTermView::Exists => Translated {
            text: Err(ErrorView::UnsupportedConstruct("exists"@)),
            used,
        },
        SmtTermView::Match => Translated {
            text: Err(ErrorView::UnsupportedConstruct("match"@)),
            used,
        },
        SmtTermView::Attributes => Translated {
            text: Err(ErrorView::UnsupportedConstruct("!"@)),
            used,
        },
    }
}

/// The first `n` arguments translated in order, each after one space.
pub open spec fn translate_args(
    table: Seq<EntryView>,
    args: Seq<SmtTermView>,
    n: nat,
    used: Seq<Seq<char>>,
) -> Translated
    decreases args, n,
{
    if n == 0 || n > args.len() {
        Translated { text: Ok(Seq::empty()), used }
    } else {
        let before = translate_args(table, args, (n - 1) as nat, used);
        match before.text {
            Err(f) => before,
            Ok(s) => {
                let this = translate(table, args[n - 1], before.used);
                match this.text {
                    Ok(x) => Translated { text: Ok(s + " "@ + x), used: this.used },
                    Err(f) => this,
                }
            },
        }
    }
}

/// The arguments `0..=k` of a left-associative operator, nested to the
/// left in applications of two arguments: `((a0 m a1) m a2) ..`.
pub open spec fn fold_left(
    table: Seq<EntryView>,
    m: Seq<char>,
    args: Seq<SmtTermView>,
    k: nat,
    used: Seq<Seq<char>>,
) -> Translated
    decreases args, k,
{
    if k == 0 || k >= args.len() {
        Translated { text: Ok(Seq::empty()), used }
    } else {
        let first = if k == 1 {
            translate(table, args[0], used)
        } else {
            fold_left(table, m, args, (k - 1) as nat, used)
        };
        match first.text {
            Err(f) => first,
            Ok(x) => {
                let second = translate(table, args[k as int], first.used);
                match second.text {
                    Ok(y) => Translated { text: Ok(binary_text(m, x, y)), used: second.used },
                    Err(f) => second,
                }
            },
        }
    }
}

/// The term that nests the arguments `0..=k` to the left.
pub open spec fn left_fold(head: SmtIdentifierView, args: Seq<SmtTermView>, k: nat) -> SmtTermView
    decreases k,
{
    if k <= 1 {
        SmtTermView::Application(head, seq![args[0], args[1]])
    } else {
        SmtTermView::Application(head, seq![left_fold(head, args, (k - 1) as nat), args[k as int]])
    }
}

/// An application with its arguments nested to the left where it has two
/// or more, and unchanged otherwise.
pub open spec fn unrolled(head: SmtIdentifierView, args: Seq<SmtTermView>) -> SmtTermView {
    if args.len() >= 2 {
        left_fold(head, args, (args.len() - 1) as nat)
    } else {
        SmtTermView::Application(head, args)
    }
}

/// What one command adds to the translated texts, and the names met.
pub struct Step {
    pub text: Result<Option<Seq<char>>, ErrorView>,
    pub usage: Usage,
}

/// An assertion gives the translation of its term. A function definition
/// records its name as defined and gives an equation between the name and
/// the translation of its body. Any other command gives nothing.
pub open spec fn translate_command(table: Seq<EntryView>, c: SmtCommandView, usage: Usage) -> Step {
    match c {
        SmtCommandView::Assert(t) => {
            let o = translate(table, t, usage.used);
            Step {
                text: match o.text {
                    Ok(x) => Ok(Some(x)),
                    Err(f) => Err(f),
                },
                usage: Usage { used: o.used, defined: usage.defined },
            }
        },
        SmtCommandView::DefineFun(name, body) => {
            let o = translate(table, body, usage.used);
            Step {
                text: match o.text {
                    Ok(x) => Ok(Some(name + " = "@ + x)),
                    Err(f) => Err(f),
                },
                usage: Usage { used: o.used, defined: inserted(usage.defined, name) },
            }
        },
        SmtCommandView::Other => Step { text: Ok(None), usage },
    }
}

/// The first `n` commands translated in order, up to the first failure.
pub open spec fn convert_all(
    table: Seq<EntryView>,
    commands: Seq<SmtCommandView>,
    n: nat,
    usage: Usage,
) -> Converted
    decreases n,
{
    if n == 0 || n > commands.len() {
        Converted { texts: Ok(Seq::empty()), usage }
    } else {
        let before = convert_all(table, commands, (n - 1) as nat, usage);
        match before.texts {
            Err(f) => before,
            Ok(ts) => {
                let step = translate_command(table, commands[n - 1], before.usage);
                match step.text {
                    Err(f) => Converted { texts: Err(f), usage: step.usage },
                    Ok(None) => Converted { texts: Ok(ts), usage: step.usage },
                    Ok(Some(x)) => Converted { texts: Ok(ts.push(x)), usage: step.usage },
                }
            },
        }
    }
}

/// The size of a term for the purpose of termination: an application of
/// more than two arguments counts one for each argument, so that nesting
/// it to the left makes it smaller.
pub open spec fn weight(t: SmtTermView) -> nat
    decreases t, 0nat,
{
    match t {
        SmtTermView::Application(head, args) => (if args.len() > 2 {
            args.len()
        } else {
            1
        }) + weights(args, args.len()),
        _ => 1,
    }
}

/// The sizes of the first `n` arguments together.
pub open spec fn weights(args: Seq<SmtTermView>, n: nat) -> nat
    decreases args, n,
{
    if n == 0 || n > args.len() {
        0
    } else {
        weights(args, (n - 1) as nat) + weight(args[n - 1])
    }
}

/// An argument is smaller than the arguments together.
pub proof fn lemma_weight_of_argument(args: Seq<SmtTermView>, n: nat, k: int)
    requires
        0 <= k < n <= args.len(),
    ensures
        weight(args[k]) <= weights(args, n),
    decreases n,
{
    if k < n - 1 {
        lemma_weight_of_argument(args, (n - 1) as nat, k);
    }
}

/// The arguments `0..=k` nested to the left weigh `k` more than they do together.
proof fn lemma_weight_left_fold(head: SmtIdentifierView, args: Seq<SmtTermView>, k: nat)
    requires
        1 <= k < args.len(),
    ensures
        weight(left_fold(head, args, k)) == k + weights(args, k + 1),
    decreases k,
{
    let first_term = if k == 1 {
        args[0]
    } else {
        left_fold(head, args, (k - 1) as nat)
    };
    let pair = seq![first_term, args[k as int]];
    assert(left_fold(head, args, k) == SmtTermView::Application(head, pair));
    reveal_with_fuel(weights, 3);
    assert(weights(pair, 2) == weight(first_term) + weight(args[k as int]));
    if k > 1 {
        lemma_weight_left_fold(head, args, (k - 1) as nat);
    }
}

/// An application of more than two arguments gets smaller when it is
/// nested to the left.
pub proof fn lemma_weight_unrolled(head: SmtIdentifierView, args: Seq<SmtTermView>)
    requires
        args.len() > 2,
    ensures
        weight(unrolled(head, args)) < weight(SmtTermView::Application(head, args)),
{
    lemma_weight_left_fold(head, args, (args.len() - 1) as nat);
}

/// A name that is held stays held when another is added.
pub proof fn lemma_inserted_keeps(s: Seq<Seq<char>>, y: Seq<char>, x: Seq<char>)
    requires
        s.contains(x),
    ensures
        inserted(s, y).contains(x),
{
    let i = choose|i: int| 0 <= i < s.len() && s[i] == x;
    assert(s.push(y)[i] == x);
}

/// The free variables met are never forgotten: a name that was met
/// before a term is translated is still held after it, whether the term
/// translates or fails.
pub proof fn lemma_used_is_kept(
    table: Seq<EntryView>,
    t: SmtTermView,
    used: Seq<Seq<char>>,
    x: Seq<char>,
)
    requires
        used.contains(x),
    ensures
        translate(table, t, used).used.contains(x),
    decreases t, 0nat,
{
    match t {
        SmtTermView::Name(id) => {
            lemma_inserted_keeps(used, id.name, x);
        },
        SmtTermView::Application(head, args) => {
            if !head.indexed {
                if let Some(e) = lookup(table, head.name) {
                    if let Some(m) = e.spec.mapsto {
                        if left_assoc(e.spec) && args.len() > 2 {
                            lemma_used_is_kept_folding(
                                table,
                                m,
                                args,
                                (args.len() - 1) as nat,
                                used,
                                x,
                            );
                        } else {
                            lemma_used_is_kept_in_order(table, args, args.len(), used, x);
                        }
                    }
                }
            }
        },
        _ => {},
    }
}

proof fn lemma_used_is_kept_in_order(
    table: Seq<EntryView>,
    args: Seq<SmtTermView>,
    n: nat,
    used: Seq<Seq<char>>,
    x: Seq<char>,
)
    requires
        used.contains(x),
    ensures
        translate_args(table, args, n, used).used.contains(x),
    decreases args, n,
{
    if !(n == 0 || n > args.len()) {
        lemma_used_is_kept_in_order(table, args, (n - 1) as nat, used, x);
        let before = translate_args(table, args, (n - 1) as nat, used);
        if before.text is Ok {
            lemma_used_is_kept(table, args[n - 1], before.used, x);
        }
    }
}

proof fn lemma_used_is_kept_folding(
    table: Seq<EntryView>,
    target: Seq<char>,
    args: Seq<SmtTermView>,
    k: nat,
    used: Seq<Seq<char>>,
    x: Seq<char>,
)
    requires
        used.contains(x),
    ensures
        fold_left(table, target, args, k, used).used.contains(x),
    decreases args, k,
{
    if !(k == 0 || k >= args.len()) {
        if k == 1 {
            lemma_used_is_kept(table, args[0], used, x);
        } else {
            lemma_used_is_kept_folding(table, target, args, (k - 1) as nat, used, x);
        }
        let first = if k == 1 {
            translate(table, args[0], used)
        } else {
            fold_left(table, target, args, (k - 1) as nat, used)
        };
        if first.text is Ok {
            lemma_used_is_kept(table, args[k as int], first.used, x);
        }
    }
}

/// Once an argument has failed, the later ones change nothing.
pub proof fn lemma_args_failure_stays(
    table: Seq<EntryView>,
    args: Seq<SmtTermView>,
    n: nat,
    m: nat,
    used: Seq<Seq<char>>,
)
    requires
        n <= m <= args.len(),
        translate_args(table, args, n, used).text is Err,
    ensures
        translate_args(table, args, m, used) == translate_args(table, args, n, used),
    decreases m,
{
    if n < m {
        lemma_args_failure_stays(table, args, n, (m - 1) as nat, used);
    }
}

/// Once a command has failed, the later ones change nothing.
pub proof fn lemma_script_failure_stays(
    table: Seq<EntryView>,
    commands: Seq<SmtCommandView>,
    n: nat,
    m: nat,
    usage: Usage,
)
    requires
        n <= m <= commands.len(),
        convert_all(table, commands, n, usage).texts is Err,
    ensures
        convert_all(table, commands, m, usage) == convert_all(table, commands, n, usage),
    decreases m,
{
    if n < m {
        lemma_script_failure_stays(table, commands, n, (m - 1) as nat, usage);
    }
}

/// Nesting the arguments `0..=k` to the left and translating the nested
/// term gives what folding the translated arguments gives.
proof fn lemma_left_fold(
    table: Seq<EntryView>,
    head: SmtIdentifierView,
    target: Seq<char>,
    args: Seq<SmtTermView>,
    k: nat,
    used: Seq<Seq<char>>,
)
    requires
        !head.indexed,
        lookup(table, head.name) matches Some(e) && e.spec.mapsto == Some(target),
        1 <= k < args.len(),
    ensures
        translate(table, left_fold(head, args, k), used) == fold_left(table, target, args, k, used),
    decreases k,
{
    let first_term = if k == 1 {
        args[0]
    } else {
        left_fold(head, args, (k - 1) as nat)
    };
    let pair = seq![first_term, args[k as int]];
    assert(left_fold(head, args, k) == SmtTermView::Application(head, pair));
    if k > 1 {
        lemma_left_fold(table, head, target, args, (k - 1) as nat, used);
    }
    let first = translate(table, first_term, used);
    assert(translate_args(table, pair, 0, used) == Translated { text: Ok(Seq::empty()), used });
    assert(translate_args(table, pair, 1, used) == match first.text {
        Ok(x) => Translated { text: Ok(Seq::<char>::empty() + " "@ + x), used: first.used },
        Err(f) => first,
    });
    assert(pair.len() == 2);
    assert(pair[1] == args[k as int]);
}

/// For a left-associative operator with three or more arguments, the
/// application and its expansion into nested applications of two
/// arguments translate alike: the same text or failure, and the same
/// free variables met.
pub proof fn lemma_unrolled_translates_alike(
    table: Seq<EntryView>,
    head: SmtIdentifierView,
    args: Seq<SmtTermView>,
    used: Seq<Seq<char>>,
)
    requires
        lookup(table, head.name) matches Some(e) && left_assoc(e.spec),
        args.len() >= 3,
    ensures
        translate(table, SmtTermView::Application(head, args), used) == translate(
            table,
            unrolled(head, args),
            used,
        ),
{
    let k = (args.len() - 1) as nat;
    let first_term = left_fold(head, args, (k - 1) as nat);
    let pair = seq![first_term, args[k as int]];
    assert(unrolled(head, args) == SmtTermView::Application(head, pair));
    assert(pair.len() == 2);
    if !head.indexed {
        let e = lookup(table, head.name)->Some_0;
        if let Some(target) = e.spec.mapsto {
            lemma_left_fold(table, head, target, args, k, used);
        }
    }
}

/// An application whose operator has no line in the table fails as an
/// unknown operator, whatever its arguments, and meets no free variable.
pub proof fn lemma_absent_operator_is_unknown(
    table: Seq<EntryView>,
    head: SmtIdentifierView,
    args: Seq<SmtTermView>,
    used: Seq<Seq<char>>,
)
    requires
        forall|k: int| 0 <= k < table.len() ==> (#[trigger] table[k]).operator != head.name,
    ensures
        translate(table, SmtTermView::Application(head, args), used) == (Translated {
            text: Err(ErrorView::UnknownOperator(head.name)),
            used,
        }),
{
    lemma_lookup_none(table, head.name, 0);
}

/// Nothing is left of `a` without `b` exactly when every name of `a` is in `b`.
pub proof fn lemma_minus_empty(a: Seq<Seq<char>>, b: Seq<Seq<char>>)
    ensures
        minus(a, b).len() == 0 <==> forall|i: int| 0 <= i < a.len() ==> b.contains(#[trigger] a[i]),
    decreases a.len(),
{
    if a.len() > 0 {
        lemma_minus_empty(a.drop_last(), b);
        if b.contains(a.last()) {
            if minus(a, b).len() == 0 {
                assert forall|i: int| 0 <= i < a.len() implies b.contains(#[trigger] a[i]) by {
                    if i < a.len() - 1 {
                        assert(a.drop_last()[i] == a[i]);
                    }
                }
            } else {
                if forall|i: int| 0 <= i < a.len() ==> b.contains(#[trigger] a[i]) {
                    assert forall|i: int| 0 <= i < a.drop_last().len() implies b.contains(
                        #[trigger] a.drop_last()[i],
                    ) by {
                        assert(a.drop_last()[i] == a[i]);
                    }
                }
            }
        } else {
            assert(a[a.len() - 1] == a.last());
        }
    }
}

/// A name is left of `a` without `b` exactly when it is in `a` and not in `b`.
pub proof fn lemma_minus_contains(a: Seq<Seq<char>>, b: Seq<Seq<char>>, x: Seq<char>)
    ensures
        minus(a, b).contains(x) <==> a.contains(x) && !b.contains(x),
    decreases a.len(),
{
    if a.len() > 0 {
        let rest = a.drop_last();
        lemma_minus_contains(rest, b, x);
        if a.contains(x) {
            let i = choose|i: int| 0 <= i < a.len() && a[i] == x;
            if i < a.len() - 1 {
                assert(rest[i] == x);
            }
        }
        if rest.contains(x) {
            let i = choose|i: int| 0 <= i < rest.len() && rest[i] == x;
            assert(a[i] == x);
        }
        assert(a[a.len() - 1] == a.last());
        if !b.contains(a.last()) {
            let r = minus(rest, b);
            if r.push(a.last()).contains(x) {
                let i = choose|i: int| 0 <= i < r.len() + 1 && r.push(a.last())[i] == x;
                if i < r.len() {
                    assert(r[i] == x);
                }
            }
            if r.contains(x) {
                let i = choose|i: int| 0 <= i < r.len() && r[i] == x;
                assert(r.push(a.last())[i] == x);
            }
            if x == a.last() {
                assert(r.push(a.last())[r.len() as int] == x);
            }
        }
    }
}

} // verus!
