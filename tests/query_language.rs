use iconify_rs::{match_query, parse, parse_tokens, ParseError, Symbol};

fn tokens(s: &str) -> Vec<String> {
    parse_tokens(s)
}

#[test]
fn tokenizes_operator_between_phrases() {
    assert_eq!(tokens("a&b"), vec!["a", "&", "b"]);
}

#[test]
fn tokenizes_space_as_separator_only() {
    assert_eq!(tokens("a b"), vec!["a", "b"]);
}

#[test]
fn tokenizes_empty_input_to_nothing() {
    assert!(tokens("").is_empty());
}

#[test]
fn tokenizes_consecutive_delimiters_individually() {
    assert_eq!(tokens("!(a|bc)"), vec!["!", "(", "a", "|", "bc", ")"]);
}

#[test]
fn tokenizes_phrase_at_end_once() {
    assert_eq!(tokens("ab (cd"), vec!["ab", "(", "cd"]);
}

#[test]
fn tokenizes_other_whitespace_as_separator() {
    assert_eq!(tokens("a\tb\nc"), vec!["a", "b", "c"]);
}

#[test]
fn tokenizes_non_ascii_phrases() {
    assert_eq!(tokens("héllo|wörld"), vec!["héllo", "|", "wörld"]);
}

#[test]
fn or_matches_either_phrase() {
    let q = parse("foo|bar").unwrap();
    assert!(match_query("xfoox", &q));
    assert!(match_query("ybarY", &q));
    assert!(!match_query("zzz", &q));
}

#[test]
fn and_matches_only_both() {
    let q = parse("foo&bar").unwrap();
    assert!(match_query("foobar", &q));
    assert!(match_query("bar-foo", &q));
    assert!(!match_query("foo", &q));
    assert!(!match_query("bar", &q));
}

#[test]
fn adjacency_means_and() {
    let q = parse("foo bar").unwrap();
    assert!(match_query("bar-foo", &q));
    assert!(!match_query("foo", &q));
}

#[test]
fn not_matches_only_without_phrase() {
    let q = parse("!foo").unwrap();
    assert!(match_query("bar", &q));
    assert!(!match_query("xfoo", &q));
}

#[test]
fn phrase_match_is_case_sensitive() {
    let q = parse("Foo").unwrap();
    assert!(!match_query("foo", &q));
    assert!(match_query("xFoo", &q));
}

#[test]
fn parenthesised_or_is_group_of_one_or() {
    let q = parse("(foo|bar)").unwrap();
    match &q {
        Symbol::Group(members) => {
            assert_eq!(members.len(), 1);
            match &members[0] {
                Symbol::Or(l, r) => {
                    assert!(matches!(&**l, Symbol::Phrase(p) if p == "foo"));
                    assert!(matches!(&**r, Symbol::Phrase(p) if p == "bar"));
                }
                other => panic!("expected Or, got {:?}", other),
            }
        }
        other => panic!("expected Group, got {:?}", other),
    }
    let plain = parse("foo|bar").unwrap();
    for text in ["xfoox", "ybarY", "zzz", "foobar", ""] {
        assert_eq!(match_query(text, &q), match_query(text, &plain));
    }
}

#[test]
fn operators_fold_left_without_precedence() {
    let q = parse("a | b & c").unwrap();
    match &q {
        Symbol::And(l, r) => {
            assert!(matches!(&**l, Symbol::Or(_, _)));
            assert!(matches!(&**r, Symbol::Phrase(p) if p == "c"));
        }
        other => panic!("expected And at the top, got {:?}", other),
    }
    assert!(!match_query("a", &q));
    assert!(match_query("ac", &q));
}

#[test]
fn empty_group_matches_everything() {
    assert!(match_query("anything", &Symbol::Group(Vec::new())));
}

#[test]
fn group_of_many_needs_all() {
    let g = Symbol::Group(vec![Symbol::Phrase("a".to_string()), Symbol::Phrase("b".to_string())]);
    assert!(match_query("ab", &g));
    assert!(!match_query("a", &g));
}

#[test]
fn empty_query_is_unexpected_end() {
    assert_eq!(parse("").unwrap_err(), ParseError::UnexpectedEnd);
    assert_eq!(parse("   ").unwrap_err(), ParseError::UnexpectedEnd);
}

#[test]
fn trailing_operator_is_unexpected_end() {
    assert_eq!(parse("a &").unwrap_err(), ParseError::UnexpectedEnd);
    assert_eq!(parse("a |").unwrap_err(), ParseError::UnexpectedEnd);
    assert_eq!(parse("!").unwrap_err(), ParseError::UnexpectedEnd);
}

#[test]
fn operator_in_operand_place_is_unexpected_token() {
    assert_eq!(parse("a & | b").unwrap_err(), ParseError::UnexpectedToken);
    assert_eq!(parse("()").unwrap_err(), ParseError::UnexpectedToken);
}

#[test]
fn unclosed_group_is_reported() {
    assert_eq!(parse("(a|b").unwrap_err(), ParseError::UnclosedGroup);
}

#[test]
fn unmatched_close_is_reported() {
    assert_eq!(parse("a)").unwrap_err(), ParseError::UnmatchedClose);
}

#[test]
fn nested_negation_and_groups() {
    let q = parse("!(foo|bar) baz").unwrap();
    assert!(match_query("baz", &q));
    assert!(!match_query("foobaz", &q));
    assert!(!match_query("qux", &q));
}
