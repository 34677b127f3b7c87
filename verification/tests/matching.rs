use inception::ast::{MacroRule, Matcher, MatcherKind, Path, Pattern, Quantifier, Repeat,
    Replacement, RuleSet, Sep, SepStyle};
use inception::diag::{FailKind, MatchDiag};
use inception::matching::match_rules;
use inception::token::{Delimiter, Spacing, Token};

fn id(s: &str) -> Token {
    Token::Ident(s.to_string())
}

fn punct(c: char) -> Token {
    Token::Punct(c, Spacing::Alone)
}

fn joint(c: char) -> Token {
    Token::Punct(c, Spacing::Joint)
}

fn mat(name: Option<&str>, kind: MatcherKind, repeat: Option<Repeat>) -> Pattern {
    Pattern::Matcher(Matcher { name: name.map(|s| s.to_string()), kind, repeat })
}

fn rep(quantifier: Quantifier, sep: Option<Sep>) -> Option<Repeat> {
    Some(Repeat { quantifier, sep })
}

fn rule_set(
    patterns: Vec<Pattern>,
    template: Vec<Replacement>,
    subgrammars: Vec<(String, Vec<Vec<Pattern>>)>,
) -> RuleSet {
    RuleSet {
        rule: MacroRule { name: "m".to_string(), patterns, template },
        subgrammars,
    }
}

fn path1(s: &str) -> Path {
    Path::new(vec![s.to_string()])
}

#[test]
fn star_over_empty_input_succeeds_with_zero_captures() {
    let rs = rule_set(
        vec![mat(Some("x"), MatcherKind::Tt, rep(Quantifier::Star, None))],
        vec![],
        vec![],
    );
    let m = match_rules(&rs, &vec![]).unwrap();
    assert!(m.children.is_empty());
    assert!(m.find_child(&path1("x")).is_none());
}

#[test]
fn trailing_separator_accepts_dangling() {
    let sep = Some(Sep { style: SepStyle::Trailing, ch: ',' });
    let rs = rule_set(
        vec![mat(Some("x"), MatcherKind::Ident, rep(Quantifier::Plus, sep))],
        vec![],
        vec![],
    );
    let with_dangling = vec![id("a"), punct(','), id("b"), punct(','), id("c"), punct(',')];
    let m = match_rules(&rs, &with_dangling).unwrap();
    assert_eq!(m.find_child(&path1("x")).unwrap(), vec![id("a"), id("b"), id("c")]);

    let without = vec![id("a"), punct(','), id("b"), punct(','), id("c")];
    assert!(match_rules(&rs, &without).is_ok());
}

#[test]
fn middle_separator_rejects_dangling() {
    let sep = Some(Sep { style: SepStyle::Middle, ch: ',' });
    let rs = rule_set(
        vec![mat(Some("x"), MatcherKind::Ident, rep(Quantifier::Plus, sep))],
        vec![],
        vec![],
    );
    let with_dangling = vec![id("a"), punct(','), id("b"), punct(','), id("c"), punct(',')];
    match match_rules(&rs, &with_dangling) {
        Err(MatchDiag::TrailingInput { offset }) => assert_eq!(offset, 5),
        other => panic!("expected trailing input, got {:?}", other),
    }
    let without = vec![id("a"), punct(','), id("b"), punct(','), id("c")];
    assert!(match_rules(&rs, &without).is_ok());
}

#[test]
fn leading_separator_accepted_before_first_item() {
    let sep = Some(Sep { style: SepStyle::Leading, ch: ',' });
    let rs = rule_set(
        vec![mat(Some("x"), MatcherKind::Ident, rep(Quantifier::Plus, sep))],
        vec![],
        vec![],
    );
    let input = vec![punct(','), id("a"), punct(','), id("b"), punct(','), id("c")];
    let m = match_rules(&rs, &input).unwrap();
    assert_eq!(m.find_child(&path1("x")).unwrap(), vec![id("a"), id("b"), id("c")]);
}

#[test]
fn lifetime_matches_joint_quote_then_ident_as_one_capture() {
    let rs = rule_set(vec![mat(Some("l"), MatcherKind::Lifetime, None)], vec![], vec![]);
    let m = match_rules(&rs, &vec![joint('\''), id("a")]).unwrap();
    let captured = m.find_child(&path1("l")).unwrap();
    assert_eq!(captured, vec![Token::Group(Delimiter::Bare, vec![joint('\''), id("a")])]);
}

#[test]
fn lifetime_rejects_alone_quote() {
    let rs = rule_set(vec![mat(Some("l"), MatcherKind::Lifetime, None)], vec![], vec![]);
    match match_rules(&rs, &vec![punct('\''), id("a")]) {
        Err(MatchDiag::Unmatched(f)) => assert!(matches!(f.kind, FailKind::TokenMismatch)),
        other => panic!("expected a mismatch, got {:?}", other),
    }
}

#[test]
fn ordered_choice_takes_first_matching_alternative() {
    let alts = vec![vec![Pattern::Ident("a".to_string())], vec![
        Pattern::Ident("a".to_string()),
        Pattern::Ident("b".to_string()),
    ]];
    let rs = rule_set(
        vec![
            mat(None, MatcherKind::Rule("s".to_string()), None),
            mat(Some("y"), MatcherKind::Tt, rep(Quantifier::Question, None)),
        ],
        vec![],
        vec![("s".to_string(), alts)],
    );
    let m = match_rules(&rs, &vec![id("a"), id("b")]).unwrap();
    // The first alternative wins although the second would consume more:
    // `s` holds only `a`, and the leftover `b` is taken by the tt matcher.
    assert_eq!(
        m.find_child(&path1("s")).unwrap(),
        vec![Token::Group(Delimiter::Bare, vec![id("a")])],
    );
    assert_eq!(m.find_child(&path1("y")).unwrap(), vec![id("b")]);
}

#[test]
fn diagnostic_reports_only_deepest_alternative() {
    let alts = vec![
        vec![
            Pattern::Ident("a".to_string()),
            Pattern::Ident("b".to_string()),
            Pattern::Ident("c".to_string()),
            Pattern::Ident("x".to_string()),
        ],
        vec![
            Pattern::Ident("a".to_string()),
            Pattern::Ident("b".to_string()),
            Pattern::Ident("c".to_string()),
            Pattern::Ident("d".to_string()),
            Pattern::Ident("e".to_string()),
            Pattern::Ident("y".to_string()),
        ],
    ];
    let rs = rule_set(
        vec![mat(None, MatcherKind::Rule("s".to_string()), None)],
        vec![],
        vec![("s".to_string(), alts)],
    );
    let input = vec![id("a"), id("b"), id("c"), id("d"), id("e")];
    match match_rules(&rs, &input) {
        Err(MatchDiag::Unmatched(f)) => {
            match &f.kind {
                FailKind::AltsFailed(name) => assert_eq!(name, "s"),
                other => panic!("expected an alternatives failure, got {:?}", other),
            }
            // Alternative 1 failed after 3 tokens, alternative 2 after 5:
            // only the latter's reason is retained.
            assert_eq!(f.offset, 5);
            assert_eq!(f.reasons.len(), 1);
            assert_eq!(f.reasons[0].offset, 5);
            assert!(matches!(f.reasons[0].kind, FailKind::UnexpectedEndOfInput));
        },
        other => panic!("expected an unmatched diagnostic, got {:?}", other),
    }
}

#[test]
fn group_pattern_matches_same_delimiter_and_hoists_captures() {
    let inner = vec![mat(Some("x"), MatcherKind::Ident, None)];
    let rs = rule_set(vec![Pattern::Group(Delimiter::Parenthesis, inner)], vec![], vec![]);
    let input = vec![Token::Group(Delimiter::Parenthesis, vec![id("a")])];
    let m = match_rules(&rs, &input).unwrap();
    assert_eq!(m.find_child(&path1("x")).unwrap(), vec![id("a")]);

    let wrong = vec![Token::Group(Delimiter::Bracket, vec![id("a")])];
    assert!(match_rules(&rs, &wrong).is_err());
}

#[test]
fn leftover_input_is_trailing_input() {
    let rs = rule_set(vec![Pattern::Ident("a".to_string())], vec![], vec![]);
    match match_rules(&rs, &vec![id("a"), id("b")]) {
        Err(MatchDiag::TrailingInput { offset }) => assert_eq!(offset, 1),
        other => panic!("expected trailing input, got {:?}", other),
    }
}

#[test]
fn unknown_sub_grammar_is_a_lookup_error() {
    let rs = rule_set(vec![mat(None, MatcherKind::Rule("nope".to_string()), None)], vec![], vec![]);
    match match_rules(&rs, &vec![id("a")]) {
        Err(MatchDiag::GrammarLookupError { name, offset }) => {
            assert_eq!(name, "nope");
            assert_eq!(offset, 0);
        },
        other => panic!("expected a lookup error, got {:?}", other),
    }
}

#[test]
fn mutually_recursive_sub_grammar_hits_depth_bound() {
    let alts = vec![vec![mat(None, MatcherKind::Rule("r".to_string()), None)]];
    let rs = rule_set(
        vec![mat(None, MatcherKind::Rule("r".to_string()), None)],
        vec![],
        vec![("r".to_string(), alts)],
    );
    match match_rules(&rs, &vec![id("a")]) {
        Err(MatchDiag::DepthExceeded) => {},
        other => panic!("expected the depth bound, got {:?}", other),
    }
}

#[test]
fn matching_is_deterministic() {
    let sep = Some(Sep { style: SepStyle::Trailing, ch: ',' });
    let rs = rule_set(
        vec![mat(Some("x"), MatcherKind::Ident, rep(Quantifier::Star, sep))],
        vec![],
        vec![],
    );
    let input = vec![id("a"), punct(','), id("b")];
    let m1 = match_rules(&rs, &input).unwrap();
    let m2 = match_rules(&rs, &input).unwrap();
    assert_eq!(m1.tokens, m2.tokens);
    assert_eq!(m1.find_child(&path1("x")), m2.find_child(&path1("x")));
}

#[test]
fn plus_requires_at_least_one_repetition() {
    let rs = rule_set(
        vec![mat(Some("x"), MatcherKind::Ident, rep(Quantifier::Plus, None))],
        vec![],
        vec![],
    );
    assert!(match_rules(&rs, &vec![]).is_err());
    assert!(match_rules(&rs, &vec![id("a")]).is_ok());
}

#[test]
fn question_matches_at_most_once() {
    let rs = rule_set(
        vec![
            mat(Some("x"), MatcherKind::Ident, rep(Quantifier::Question, None)),
            mat(Some("y"), MatcherKind::Ident, None),
        ],
        vec![],
        vec![],
    );
    // With two idents the optional matcher takes one and the plain one the other.
    let m = match_rules(&rs, &vec![id("a"), id("b")]).unwrap();
    assert_eq!(m.find_child(&path1("x")).unwrap(), vec![id("a")]);
    assert_eq!(m.find_child(&path1("y")).unwrap(), vec![id("b")]);
    // With one ident the optional matcher yields it to the required one.
    // (The optional matcher consumed it, so the required one has nothing.)
    assert!(match_rules(&rs, &vec![id("a")]).is_err());
}

#[test]
fn field_list_scenario_captures_two_fields() {
    // grammar: ( $fields:{ $vis $ident : $ty , .. , }? )
    // with vis a sub-grammar that may be `pub` or nothing, and ty an ident.
    let vis_alts = vec![vec![Pattern::Ident("pub".to_string())], vec![]];
    let field_alts = vec![vec![
        mat(None, MatcherKind::Rule("vis".to_string()), None),
        mat(None, MatcherKind::Ident, None),
        Pattern::Punct(':'),
        mat(Some("ty"), MatcherKind::Ident, None),
    ]];
    let sep = Some(Sep { style: SepStyle::Trailing, ch: ',' });
    let rs = rule_set(
        vec![Pattern::Group(Delimiter::Parenthesis, vec![
            mat(Some("fields"), MatcherKind::Rule("field".to_string()), rep(Quantifier::Star, sep)),
        ])],
        vec![],
        vec![("vis".to_string(), vis_alts), ("field".to_string(), field_alts)],
    );
    let input = vec![Token::Group(Delimiter::Parenthesis, vec![
        id("x"),
        punct(':'),
        id("i32"),
        punct(','),
        id("y"),
        punct(':'),
        id("T"),
        punct(','),
    ])];
    let m = match_rules(&rs, &input).unwrap();
    // Two repetitions: one delimiter-less group per field.
    let fields = m.find_child(&path1("fields")).unwrap();
    assert_eq!(fields.len(), 2);
    // Nested captures merge positionally across repetitions.
    let idents = m.find_child(&Path::new(vec!["fields".to_string(), "ident".to_string()]));
    assert_eq!(idents.unwrap(), vec![id("x"), id("y")]);
    let tys = m.find_child(&Path::new(vec!["fields".to_string(), "ty".to_string()]));
    assert_eq!(tys.unwrap(), vec![id("i32"), id("T")]);
}
