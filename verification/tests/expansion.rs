use inception::MacroDiag;
use inception::ast::{Builtin, MacroRule, Matcher, MatcherKind, Path, Pattern, Quantifier, Repeat,
    Replacement, RuleSet, SpecialReplacement};
use inception::capture::Match;
use inception::diag::ExpandErr;
use inception::expand::expand_template;
use inception::expand_macro;
use inception::matching::match_rules;
use inception::registry::{LookupErr, Registry};
use inception::token::{Delimiter, Spacing, Token};

fn id(s: &str) -> Token {
    Token::Ident(s.to_string())
}

fn punct(c: char) -> Token {
    Token::Punct(c, Spacing::Alone)
}

fn lit(s: &str) -> Token {
    Token::Literal(s.to_string())
}

fn path1(s: &str) -> Path {
    Path::new(vec![s.to_string()])
}

fn leaf(tokens: Vec<Token>) -> Match {
    Match { tokens, children: vec![] }
}

fn with_children(children: Vec<(&str, Match)>) -> Match {
    Match {
        tokens: vec![],
        children: children.into_iter().map(|(k, v)| (k.to_string(), v)).collect(),
    }
}

fn call(func: Builtin, args: Vec<Path>) -> Replacement {
    Replacement::Special(SpecialReplacement::Call { func, args })
}

#[test]
fn aggregation_over_three_idents() {
    // Repeating `$x:ident` over `a b c`: count 3, first a, last c.
    let rs = RuleSet {
        rule: MacroRule {
            name: "m".to_string(),
            patterns: vec![Pattern::Matcher(Matcher {
                name: Some("x".to_string()),
                kind: MatcherKind::Ident,
                repeat: Some(Repeat { quantifier: Quantifier::Star, sep: None }),
            })],
            template: vec![
                call(Builtin::Count, vec![path1("x")]),
                call(Builtin::First, vec![path1("x")]),
                call(Builtin::Last, vec![path1("x")]),
            ],
        },
        subgrammars: vec![],
    };
    let input = vec![id("a"), id("b"), id("c")];
    let out = expand_macro(&"m".to_string(), &rs, &input).unwrap();
    assert_eq!(out, vec![lit("3"), id("a"), id("c")]);
}

#[test]
fn count_renders_multi_digit_decimal() {
    let mut tokens = Vec::new();
    for _ in 0..12 {
        tokens.push(id("t"));
    }
    let m = with_children(vec![("x", leaf(tokens))]);
    let out = expand_template(&m, &vec![call(Builtin::Count, vec![path1("x")])]).unwrap();
    assert_eq!(out, vec![lit("12")]);
}

#[test]
fn conditional_emits_then_branch_when_condition_bound_even_empty() {
    let m = with_children(vec![("cond", leaf(vec![]))]);
    let template = vec![
        Replacement::Special(SpecialReplacement::If {
            cond: path1("cond"),
            body: vec![Replacement::Ident("yes".to_string())],
        }),
        Replacement::Special(SpecialReplacement::Else {
            body: vec![Replacement::Ident("no".to_string())],
        }),
    ];
    let out = expand_template(&m, &template).unwrap();
    assert_eq!(out, vec![id("yes")]);
}

#[test]
fn conditional_emits_else_branch_when_condition_unbound() {
    let m = leaf(vec![]);
    let template = vec![
        Replacement::Special(SpecialReplacement::If {
            cond: path1("cond"),
            body: vec![Replacement::Ident("yes".to_string())],
        }),
        Replacement::Special(SpecialReplacement::Else {
            body: vec![Replacement::Ident("no".to_string())],
        }),
    ];
    let out = expand_template(&m, &template).unwrap();
    assert_eq!(out, vec![id("no")]);
}

#[test]
fn bare_else_is_control_flow_misuse() {
    let m = leaf(vec![]);
    let template = vec![Replacement::Special(SpecialReplacement::Else {
        body: vec![Replacement::Ident("no".to_string())],
    })];
    match expand_template(&m, &template) {
        Err(ExpandErr::ControlFlowMisuse) => {},
        other => panic!("expected a control-flow misuse, got {:?}", other),
    }
}

#[test]
fn for_over_absent_source_emits_nothing() {
    let m = leaf(vec![]);
    let template = vec![Replacement::Special(SpecialReplacement::For {
        binding: "i".to_string(),
        source: path1("src"),
        body: vec![Replacement::Ident("z".to_string())],
    })];
    let out = expand_template(&m, &template).unwrap();
    assert_eq!(out, Vec::<Token>::new());
}

#[test]
fn for_rebinds_the_loop_variable_per_element() {
    let m = with_children(vec![("xs", leaf(vec![id("a"), id("b")]))]);
    let template = vec![Replacement::Special(SpecialReplacement::For {
        binding: "i".to_string(),
        source: path1("xs"),
        body: vec![
            Replacement::Special(SpecialReplacement::Path(path1("i"))),
            Replacement::Punct(';', Spacing::Alone),
        ],
    })];
    let out = expand_template(&m, &template).unwrap();
    assert_eq!(out, vec![id("a"), punct(';'), id("b"), punct(';')]);
}

#[test]
fn empty_loop_enables_a_following_else() {
    let m = with_children(vec![("xs", leaf(vec![]))]);
    let template = vec![
        Replacement::Special(SpecialReplacement::For {
            binding: "i".to_string(),
            source: path1("xs"),
            body: vec![Replacement::Ident("z".to_string())],
        }),
        Replacement::Special(SpecialReplacement::Else {
            body: vec![Replacement::Ident("empty".to_string())],
        }),
    ];
    let out = expand_template(&m, &template).unwrap();
    assert_eq!(out, vec![id("empty")]);
}

#[test]
fn missing_path_fails_expansion() {
    let m = leaf(vec![]);
    let template = vec![Replacement::Special(SpecialReplacement::Path(path1("gone")))];
    match expand_template(&m, &template) {
        Err(ExpandErr::CaptureMissing { path }) => assert_eq!(path, vec!["gone".to_string()]),
        other => panic!("expected a missing capture, got {:?}", other),
    }
}

#[test]
fn first_over_empty_capture_fails() {
    let m = with_children(vec![("x", leaf(vec![]))]);
    match expand_template(&m, &vec![call(Builtin::First, vec![path1("x")])]) {
        Err(ExpandErr::CaptureEmpty { path }) => assert_eq!(path, vec!["x".to_string()]),
        other => panic!("expected an empty capture, got {:?}", other),
    }
}

#[test]
fn wrong_argument_count_is_an_arity_error() {
    let m = with_children(vec![("x", leaf(vec![id("a")]))]);
    match expand_template(&m, &vec![call(Builtin::First, vec![path1("x"), path1("x")])]) {
        Err(ExpandErr::ArityError { func: Builtin::First, got }) => assert_eq!(got, 2),
        other => panic!("expected an arity error, got {:?}", other),
    }
}

#[test]
fn concat_builds_one_string_literal() {
    let m = with_children(vec![
        ("name", leaf(vec![id("Bar")])),
        ("fields", leaf(vec![id("a"), id("b")])),
    ]);
    let out = expand_template(
        &m,
        &vec![call(Builtin::Concat, vec![path1("name"), path1("fields")])],
    )
    .unwrap();
    assert_eq!(out, vec![lit("\"Bar { a, b }\"")]);
}

#[test]
fn groups_in_templates_expand_recursively() {
    let m = with_children(vec![("x", leaf(vec![id("a")]))]);
    let template = vec![Replacement::Group(Delimiter::Brace, vec![
        Replacement::Special(SpecialReplacement::Path(path1("x"))),
    ])];
    let out = expand_template(&m, &template).unwrap();
    assert_eq!(out, vec![Token::Group(Delimiter::Brace, vec![id("a")])]);
}

#[test]
fn round_trip_reemits_the_captured_input() {
    // A grammar of one star tt matcher and a template that re-emits the path.
    let rs = RuleSet {
        rule: MacroRule {
            name: "m".to_string(),
            patterns: vec![Pattern::Matcher(Matcher {
                name: Some("x".to_string()),
                kind: MatcherKind::Tt,
                repeat: Some(Repeat { quantifier: Quantifier::Star, sep: None }),
            })],
            template: vec![Replacement::Special(SpecialReplacement::Path(path1("x")))],
        },
        subgrammars: vec![],
    };
    let input = vec![
        id("a"),
        Token::Group(Delimiter::Parenthesis, vec![id("b"), punct('+')]),
        lit("42"),
    ];
    let out = expand_macro(&"m".to_string(), &rs, &input).unwrap();
    assert_eq!(out, input);
}

#[test]
fn expansion_is_deterministic() {
    let m = with_children(vec![("x", leaf(vec![id("a"), id("b")]))]);
    let template = vec![
        call(Builtin::Count, vec![path1("x")]),
        Replacement::Special(SpecialReplacement::Path(path1("x"))),
    ];
    let out1 = expand_template(&m, &template).unwrap();
    let out2 = expand_template(&m, &template).unwrap();
    assert_eq!(out1, out2);
}

#[test]
fn expand_macro_rejects_a_different_name() {
    let rs = RuleSet {
        rule: MacroRule { name: "m".to_string(), patterns: vec![], template: vec![] },
        subgrammars: vec![],
    };
    match expand_macro(&"other".to_string(), &rs, &vec![]) {
        Err(MacroDiag::NoSuchRule) => {},
        other => panic!("expected no such rule, got {:?}", other),
    }
}

#[test]
fn registry_versions_are_monotonic_per_name() {
    let mk = |name: &str| RuleSet {
        rule: MacroRule { name: name.to_string(), patterns: vec![], template: vec![] },
        subgrammars: vec![],
    };
    let mut reg = Registry::new();
    assert_eq!(reg.register("a".to_string(), mk("a")), 0);
    assert_eq!(reg.register("a".to_string(), mk("a")), 1);
    assert_eq!(reg.register("b".to_string(), mk("b")), 0);
    assert_eq!(reg.register("a".to_string(), mk("a")), 2);
    assert!(reg.lookup(&"a".to_string(), 2).is_ok());
    assert!(reg.lookup(&"b".to_string(), 0).is_ok());
    match reg.lookup(&"b".to_string(), 1) {
        Err(LookupErr::UnknownVersion) => {},
        other => panic!("expected an unknown version, got {:?}", other),
    }
    match reg.lookup(&"c".to_string(), 0) {
        Err(LookupErr::UnknownMacro) => {},
        other => panic!("expected an unknown macro, got {:?}", other),
    }
}

#[test]
fn matched_sub_grammar_tokens_round_trip_through_a_path() {
    // Matching then expanding a template that only re-emits the captured
    // paths reproduces the input (the capture is one delimiter-less group,
    // which is transparent at the token-stream boundary).
    let alts = vec![vec![Pattern::Ident("a".to_string()), Pattern::Ident("b".to_string())]];
    let rs = RuleSet {
        rule: MacroRule {
            name: "m".to_string(),
            patterns: vec![Pattern::Matcher(Matcher {
                name: Some("s".to_string()),
                kind: MatcherKind::Rule("s".to_string()),
                repeat: None,
            })],
            template: vec![Replacement::Special(SpecialReplacement::Path(path1("s")))],
        },
        subgrammars: vec![("s".to_string(), alts)],
    };
    let input = vec![id("a"), id("b")];
    let out = expand_macro(&"m".to_string(), &rs, &input).unwrap();
    assert_eq!(out, vec![Token::Group(Delimiter::Bare, vec![id("a"), id("b")])]);
}

#[test]
fn token_text_renders_idents_puncts_and_groups() {
    let t = Token::Group(Delimiter::Parenthesis, vec![id("a"), punct('+')]);
    assert_eq!(inception::expand::token_text_str(&t), "(a, +)".to_string());
    assert_eq!(inception::expand::usize_to_dec(0), "0".to_string());
    assert_eq!(inception::expand::usize_to_dec(907), "907".to_string());
}

#[test]
fn elseif_runs_when_the_first_branch_failed() {
    let m = with_children(vec![("b", leaf(vec![id("t")]))]);
    let template = vec![
        Replacement::Special(SpecialReplacement::If {
            cond: path1("a"),
            body: vec![Replacement::Ident("first".to_string())],
        }),
        Replacement::Special(SpecialReplacement::ElseIf {
            cond: path1("b"),
            body: vec![Replacement::Ident("second".to_string())],
        }),
        Replacement::Special(SpecialReplacement::Else {
            body: vec![Replacement::Ident("third".to_string())],
        }),
    ];
    let out = expand_template(&m, &template).unwrap();
    assert_eq!(out, vec![id("second")]);
}

#[test]
fn elseif_is_skipped_when_the_first_branch_ran() {
    let m = with_children(vec![("a", leaf(vec![])), ("b", leaf(vec![]))]);
    let template = vec![
        Replacement::Special(SpecialReplacement::If {
            cond: path1("a"),
            body: vec![Replacement::Ident("first".to_string())],
        }),
        Replacement::Special(SpecialReplacement::ElseIf {
            cond: path1("b"),
            body: vec![Replacement::Ident("second".to_string())],
        }),
    ];
    let out = expand_template(&m, &template).unwrap();
    assert_eq!(out, vec![id("first")]);
}

#[test]
fn forwarder_for_a_registered_rule_set_names_the_version() {
    let shim = inception::shim::rules_shim(&"foo".to_string(), 42);
    assert_eq!(shim[0], id("macro_rules"));
    assert_eq!(shim[1], Token::Punct('!', Spacing::Alone));
    assert_eq!(shim[2], id("foo"));
    match &shim[3] {
        Token::Group(Delimiter::Brace, arm) => match &arm[3] {
            Token::Group(Delimiter::Brace, body) => match &body[7] {
                Token::Group(Delimiter::Brace, invocation) => {
                    assert_eq!(invocation[0], id("foo"));
                    assert_eq!(invocation[1], lit("42"));
                },
                other => panic!("expected the invocation group, got {:?}", other),
            },
            other => panic!("expected the arm body, got {:?}", other),
        },
        other => panic!("expected the rule group, got {:?}", other),
    }
}
