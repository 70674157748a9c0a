use smtmv::convert::{read_script, Converter};
use smtmv::error::Error;
use smtmv::spec_table::{Namespace, Spec, SpecDef, SpecEntry};
use smtmv::term::{SmtCommand, SmtConstant, SmtIdentifier, SmtTerm};

fn entry(op: &str, mapsto: Option<&str>, assoc: Option<&str>) -> SpecEntry {
    SpecEntry {
        operator: op.to_owned(),
        spec: Spec {
            mapsto: mapsto.map(str::to_owned),
            assoc: assoc.map(str::to_owned),
            chainable: false,
        },
    }
}

fn table() -> SpecDef {
    SpecDef {
        version: "1".to_owned(),
        smt_lib_version: "2.6".to_owned(),
        specs: vec![
            Namespace {
                name: "Core".to_owned(),
                entries: vec![
                    entry("=", Some("="), None),
                    entry("and", Some("HOL.conj"), Some("left")),
                    entry("=>", Some("HOL.implies"), Some("right")),
                    entry("not", Some("Not"), None),
                    entry("true", Some("True"), None),
                    entry("distinct", None, None),
                    entry("xor", None, Some("left")),
                ],
            },
            Namespace {
                name: "Strings".to_owned(),
                entries: vec![
                    entry("str.++", Some("str_concat"), Some("left")),
                    entry("str.len", Some("str_len"), None),
                    entry("str.to_re", Some("str_to_re"), None),
                    entry("str.in_re", Some("str_in_re"), None),
                ],
            },
        ],
    }
}

fn converter() -> Converter {
    Converter::new(table()).unwrap()
}

fn name(n: &str) -> SmtTerm {
    SmtTerm::Name(SmtIdentifier { name: n.to_owned(), indexed: false })
}

fn head(n: &str) -> SmtIdentifier {
    SmtIdentifier { name: n.to_owned(), indexed: false }
}

fn app(op: &str, arguments: Vec<SmtTerm>) -> SmtTerm {
    SmtTerm::Application { head: head(op), arguments }
}

#[test]
fn numerals_become_typed_integer_literals() {
    let c = converter();
    for n in ["0", "1", "42", "123456789012345678901234567890"] {
        assert_eq!(
            c.convert_constant(&SmtConstant::Numeral(n.to_owned())).unwrap(),
            format!("({}::int)", n)
        );
    }
}

#[test]
fn decimals_stay_as_they_are() {
    let c = converter();
    assert_eq!(c.convert_constant(&SmtConstant::Decimal("3/2".to_owned())).unwrap(), "3/2");
}

#[test]
fn strings_become_code_point_lists() {
    let c = converter();
    let text = |s: &str| c.convert_constant(&SmtConstant::Text(s.to_owned()));
    assert_eq!(text("").unwrap(), "[]");
    assert_eq!(text("a").unwrap(), "[97]");
    assert_eq!(text("ab!").unwrap(), "[97,98,33]");
    assert_eq!(text("\\u{21}").unwrap(), "[33]");
    assert_eq!(text("\\u{1F600}").unwrap(), "[128512]");
    assert_eq!(text("\\u0041\\u{42}").unwrap(), "[65,66]");
    assert_eq!(text("\\x21").unwrap(), "[33]");
    assert_eq!(text("\u{e9}\u{1F600}").unwrap(), "[233,128512]");
}

#[test]
fn malformed_and_unsupported_constants() {
    let c = converter();
    match c.convert_constant(&SmtConstant::Text("\\u{}".to_owned())) {
        Err(Error::MalformedConstant(s)) => assert_eq!(s, "\\u{}"),
        other => panic!("{:?}", other),
    }
    assert!(matches!(
        c.convert_constant(&SmtConstant::Hexadecimal),
        Err(Error::MalformedConstant(_))
    ));
    assert!(matches!(c.convert_constant(&SmtConstant::Binary), Err(Error::MalformedConstant(_))));
}

#[test]
fn identifiers_resolve_by_the_table_or_are_free() {
    let mut c = converter();
    assert_eq!(c.convert_term(&name("true")).unwrap(), "True");
    assert!(c.get_vars_used().is_empty());
    assert_eq!(c.convert_term(&name("x")).unwrap(), "x");
    assert_eq!(c.convert_term(&name("y")).unwrap(), "y");
    assert_eq!(c.convert_term(&name("x")).unwrap(), "x");
    assert_eq!(c.get_vars_used(), vec!["x".to_owned(), "y".to_owned()]);
    match c.convert_term(&name("distinct")) {
        Err(Error::UnsupportedOperator(op)) => assert_eq!(op, "distinct"),
        other => panic!("{:?}", other),
    }
    let indexed = SmtTerm::Name(SmtIdentifier { name: "extract".to_owned(), indexed: true });
    match c.convert_term(&indexed) {
        Err(Error::UnsupportedConstruct(op)) => assert_eq!(op, "extract"),
        other => panic!("{:?}", other),
    }
}

#[test]
fn applications_are_prefix() {
    let mut c = converter();
    assert_eq!(c.convert_term(&app("not", vec![name("p")])).unwrap(), "(Not  p)");
    assert_eq!(c.convert_term(&app("true", vec![])).unwrap(), "(True )");
    assert_eq!(
        c.convert_term(&app("=", vec![name("x"), SmtTerm::Literal(SmtConstant::Numeral("1".to_owned()))]))
            .unwrap(),
        "((=)  x (1::int))"
    );
    assert_eq!(
        c.convert_term(&app("=", vec![name("a"), name("b"), name("c")])).unwrap(),
        "((=)  a b c)"
    );
    assert_eq!(
        c.get_vars_used(),
        vec!["p".to_owned(), "x".to_owned(), "a".to_owned(), "b".to_owned(), "c".to_owned()]
    );
}

#[test]
fn left_associative_operators_nest_to_the_left() {
    let mut c = converter();
    let args = vec![name("a"), name("b"), name("c"), name("d")];
    let flat = c.convert_term(&app("and", args.clone())).unwrap();
    assert_eq!(flat, "((HOL.conj)  ((HOL.conj)  ((HOL.conj)  a b) c) d)");
    let nested = app("and", vec![app("and", vec![app("and", vec![name("a"), name("b")]), name("c")]), name("d")]);
    assert_eq!(c.convert_term(&nested).unwrap(), flat);
    let unrolled = c.unroll_assoc_left(&head("and"), &args);
    assert_eq!(c.convert_term(&unrolled).unwrap(), flat);
    assert_eq!(c.convert_term(&app("and", vec![name("a"), name("b")])).unwrap(), "((HOL.conj)  a b)");
}

#[test]
fn unrolling_few_arguments_copies() {
    let c = converter();
    match c.unroll_assoc_left(&head("and"), &vec![name("a")]) {
        SmtTerm::Application { head, arguments } => {
            assert_eq!(head.name, "and");
            assert_eq!(arguments.len(), 1);
        },
        other => panic!("{:?}", other),
    }
    match c.unroll_assoc_left(&head("and"), &vec![name("a"), name("b"), name("c")]) {
        SmtTerm::Application { arguments, .. } => {
            assert_eq!(arguments.len(), 2);
            assert!(matches!(&arguments[0], SmtTerm::Application { arguments, .. } if arguments.len() == 2));
            assert!(matches!(&arguments[1], SmtTerm::Name(i) if i.name == "c"));
        },
        other => panic!("{:?}", other),
    }
}

#[test]
fn right_associative_folding_is_refused() {
    let mut c = converter();
    match c.convert_term(&app("=>", vec![name("a"), name("b"), name("c")])) {
        Err(Error::UnsupportedConstruct(op)) => assert_eq!(op, "=>"),
        other => panic!("{:?}", other),
    }
    assert!(c.get_vars_used().is_empty());
    assert_eq!(c.convert_term(&app("=>", vec![name("a"), name("b")])).unwrap(), "((HOL.implies)  a b)");
}

#[test]
fn unknown_and_unsupported_operators() {
    let mut c = converter();
    match c.convert_term(&app("bvadd", vec![name("a"), name("b")])) {
        Err(Error::UnknownOperator(op)) => assert_eq!(op, "bvadd"),
        other => panic!("{:?}", other),
    }
    match c.convert_term(&app("distinct", vec![name("a"), name("b")])) {
        Err(Error::UnsupportedOperator(op)) => assert_eq!(op, "distinct"),
        other => panic!("{:?}", other),
    }
    match c.convert_term(&app("xor", vec![name("a"), name("b"), name("c")])) {
        Err(Error::UnsupportedOperator(op)) => assert_eq!(op, "xor"),
        other => panic!("{:?}", other),
    }
    assert!(c.get_vars_used().is_empty());
    match c.convert_term(&app("not", vec![name("a"), app("bvadd", vec![]), name("z")])) {
        Err(Error::UnknownOperator(op)) => assert_eq!(op, "bvadd"),
        other => panic!("{:?}", other),
    }
    assert_eq!(c.get_vars_used(), vec!["a".to_owned()]);
}

#[test]
fn indexed_operators() {
    let mut c = converter();
    let known = SmtTerm::Application {
        head: SmtIdentifier { name: "not".to_owned(), indexed: true },
        arguments: vec![name("a")],
    };
    match c.convert_term(&known) {
        Err(Error::UnsupportedConstruct(op)) => assert_eq!(op, "not"),
        other => panic!("{:?}", other),
    }
    let absent = SmtTerm::Application {
        head: SmtIdentifier { name: "extract".to_owned(), indexed: true },
        arguments: vec![name("a")],
    };
    match c.convert_term(&absent) {
        Err(Error::UnknownOperator(op)) => assert_eq!(op, "extract"),
        other => panic!("{:?}", other),
    }
    assert!(c.get_vars_used().is_empty());
}

#[test]
fn decimals_are_the_parsed_rational() {
    let mut c = converter();
    assert_eq!(
        c.convert("(assert (= x 1.5))(assert (= x 2.0))".to_owned()).unwrap(),
        vec!["((=)  x 3/2)".to_owned(), "((=)  x 2)".to_owned()]
    );
}

#[test]
fn binders_and_the_like_are_refused() {
    let mut c = converter();
    for (t, word) in [
        (SmtTerm::Let, "let"),
        (SmtTerm::Forall, "forall"),
        (SmtTerm::Exists, "exists"),
        (SmtTerm::Match, "match"),
        (SmtTerm::Attributes, "!"),
    ] {
        match c.convert_term(&t) {
            Err(Error::UnsupportedConstruct(w)) => assert_eq!(w, word),
            other => panic!("{:?}", other),
        }
    }
}

#[test]
fn definitions_become_equations() {
    let mut c = converter();
    let body = SmtTerm::Literal(SmtConstant::Numeral("1".to_owned()));
    assert_eq!(c.convert_fun_defines(&"x".to_owned(), &body).unwrap(), "x = (1::int)");
    assert_eq!(c.get_vars_defined(), vec!["x".to_owned()]);
    assert!(c.convert_fun_defines(&"y".to_owned(), &SmtTerm::Let).is_err());
    assert_eq!(c.get_vars_defined(), vec!["x".to_owned(), "y".to_owned()]);
}

#[test]
fn commands_are_translated_in_order() {
    let mut c = converter();
    let commands = vec![
        SmtCommand::Other,
        SmtCommand::Assert(app("=", vec![name("x"), name("y")])),
        SmtCommand::DefineFun { name: "x".to_owned(), body: name("true") },
        SmtCommand::Other,
    ];
    assert_eq!(
        c.convert_commands(&commands).unwrap(),
        vec!["((=)  x y)".to_owned(), "x = True".to_owned()]
    );
    assert_eq!(c.undefined_vars(), vec!["y".to_owned()]);
}

#[test]
fn scripts_are_parsed_and_translated() {
    let mut c = converter();
    let out = c
        .convert("(declare-const x Int)\n(assert (= x 1))\n(assert (and p q (not r)))".to_owned())
        .unwrap();
    assert_eq!(
        out,
        vec![
            "((=)  x (1::int))".to_owned(),
            "((HOL.conj)  ((HOL.conj)  p q) (Not  r))".to_owned()
        ]
    );
    let model = c.convert("(define-fun x () Int 1)(define-fun s () String \"a\\u{21}\")".to_owned()).unwrap();
    assert_eq!(model, vec!["x = (1::int)".to_owned(), "s = [97,33]".to_owned()]);
    assert_eq!(c.get_vars_defined(), vec!["x".to_owned(), "s".to_owned()]);
    assert_eq!(
        c.undefined_vars(),
        vec!["p".to_owned(), "q".to_owned(), "r".to_owned()]
    );
}

#[test]
fn older_operator_names_are_replaced() {
    let mut c = converter();
    assert_eq!(
        c.convert("(assert (str.in.re x (str.to.re y)))".to_owned()).unwrap(),
        vec!["((str_in_re)  x (str_to_re  y))".to_owned()]
    );
}

#[test]
fn sorted_and_indexed_identifiers_in_scripts() {
    let mut c = converter();
    assert_eq!(c.convert("(assert (as x Int))".to_owned()).unwrap(), vec!["x".to_owned()]);
    match c.convert("(assert ((_ extract 1 0) x))".to_owned()) {
        Err(Error::UnknownOperator(op)) => assert_eq!(op, "extract"),
        other => panic!("{:?}", other),
    }
    assert!(matches!(
        c.convert("(assert (let ((a 1)) a))".to_owned()),
        Err(Error::UnsupportedConstruct(_))
    ));
    assert!(matches!(
        c.convert("(assert (= x #xFF))".to_owned()),
        Err(Error::MalformedConstant(_))
    ));
}

#[test]
fn parse_errors_are_reported() {
    let mut c = converter();
    match c.convert("(assert (= x 1)".to_owned()) {
        Err(Error::ParseError(msg)) => assert!(!msg.is_empty()),
        other => panic!("{:?}", other),
    }
    assert!(c.get_vars_used().is_empty());
}

#[test]
fn conflicting_tables_are_refused() {
    let mut spec = table();
    spec.specs.push(Namespace {
        name: "Other".to_owned(),
        entries: vec![entry("not", Some("Different"), None)],
    });
    match Converter::new(spec) {
        Err(Error::InvalidSpec(op)) => assert_eq!(op, "not"),
        other => panic!("{:?}", other),
    }
    let mut same = table();
    same.specs.push(Namespace {
        name: "Other".to_owned(),
        entries: vec![entry("not", Some("Not"), None)],
    });
    let c = Converter::new(same).unwrap();
    let (theory, spec) = c.get_spec(&"not".to_owned()).unwrap();
    assert_eq!(theory, "Core");
    assert_eq!(spec.mapsto, Some("Not".to_owned()));
    assert!(c.get_spec(&"nope".to_owned()).is_none());
}

#[test]
fn associativity_of_entries() {
    let left = entry("a", None, Some("left")).spec;
    let right = entry("a", None, Some("right")).spec;
    let none = entry("a", None, None).spec;
    let other = entry("a", None, Some("chain")).spec;
    assert!(left.is_left_assoc() && !left.is_right_assoc());
    assert!(!right.is_left_assoc() && right.is_right_assoc());
    assert!(!none.is_left_assoc() && !none.is_right_assoc());
    assert!(!other.is_left_assoc() && !other.is_right_assoc());
    assert!(left.same_as(&left.clone()) && !left.same_as(&right));
}

#[test]
fn scripts_are_read_into_commands() {
    let commands = read_script("(check-sat)(assert (str.in.re x y))(define-fun |a b| () Int 7)").unwrap();
    assert_eq!(commands.len(), 3);
    assert!(matches!(&commands[0], SmtCommand::Other));
    match &commands[1] {
        SmtCommand::Assert(SmtTerm::Application { head, arguments }) => {
            assert_eq!(head.name, "str.in_re");
            assert!(!head.indexed);
            assert_eq!(arguments.len(), 2);
        },
        other => panic!("{:?}", other),
    }
    match &commands[2] {
        SmtCommand::DefineFun { name, body } => {
            assert_eq!(name, "|a b|");
            assert!(matches!(body, SmtTerm::Literal(SmtConstant::Numeral(n)) if n == "7"));
        },
        other => panic!("{:?}", other),
    }
    assert!(read_script("(assert").is_err());
}
