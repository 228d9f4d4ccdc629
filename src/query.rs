use vstd::prelude::*;

use crate::text::{blank, chars_of, is_blank, is_char_token, occurs, occurs_in};

verus! {

/// The characters that are tokens of their own.
pub open spec fn is_operator_char(c: char) -> bool {
    c == '!' || c == '&' || c == '|' || c == '(' || c == ')'
}

/// The characters that make up phrases.
pub open spec fn is_phrase_char(c: char) -> bool {
    !is_operator_char(c) && !is_blank(c)
}

/// The tokens of a query, scanned left to right: an operator character is a
/// token of its own, white space only separates, and a run of phrase
/// characters is one token.
pub open spec fn tokens_of(s: Seq<char>) -> Seq<Seq<char>>
    decreases s.len(),
{
    if s.len() == 0 {
        seq![]
    } else {
        let before = s.drop_last();
        let c = s.last();
        let toks = tokens_of(before);
        if is_operator_char(c) {
            toks.push(seq![c])
        } else if is_blank(c) {
            toks
        } else if before.len() > 0 && is_phrase_char(before.last()) {
            toks.drop_last().push(toks.last().push(c))
        } else {
            toks.push(seq![c])
        }
    }
}

/// The views of a sequence of strings.
pub open spec fn views(v: Seq<String>) -> Seq<Seq<char>> {
    v.map_values(|t: String| t@)
}

fn operator_char(c: char) -> (r: bool)
    ensures
        r == is_operator_char(c),
{
    c == '!' || c == '&' || c == '|' || c == '(' || c == ')'
}

/// Splits a query into its tokens.
pub fn parse_tokens(to_parse: &str) -> (r: Vec<String>)
    ensures
        views(r@) == tokens_of(to_parse@),
{
    let cs = chars_of(to_parse);
    let ghost s = to_parse@;
    let mut tokens: Vec<String> = Vec::new();
    let mut start: usize = 0;
    let mut in_token = false;
    let mut i: usize = 0;
    while i < cs.len()
        invariant
            cs@ == s,
            s == to_parse@,
            i <= cs.len(),
            in_token <==> (i > 0 && is_phrase_char(s[i - 1])),
            in_token ==> start < i,
            in_token ==> forall|k: int| start <= k < i ==> is_phrase_char(#[trigger] s[k]),
            in_token ==> tokens_of(s.subrange(0, i as int)) == views(tokens@).push(
                s.subrange(start as int, i as int),
            ),
            !in_token ==> tokens_of(s.subrange(0, i as int)) == views(tokens@),
        decreases cs.len() - i,
    {
        let c = cs[i];
        let ghost pre = s.subrange(0, i as int);
        assert(s.subrange(0, i + 1).drop_last() =~= pre);
        assert(s.subrange(0, i + 1).last() == c);
        if operator_char(c) {
            if in_token {
                let t = to_parse.substring_char(start, i);
                tokens.push(String::from_str(t));
            }
            let t = to_parse.substring_char(i, i + 1);
            assert(t@ =~= seq![c]);
            tokens.push(String::from_str(t));
            in_token = false;
            assert(views(tokens@) =~= tokens_of(s.subrange(0, i + 1)));
        } else if blank(c) {
            if in_token {
                let t = to_parse.substring_char(start, i);
                tokens.push(String::from_str(t));
                assert(views(tokens@) =~= tokens_of(s.subrange(0, i + 1)));
            }
            in_token = false;
        } else {
            if !in_token {
                start = i;
                in_token = true;
                assert(s.subrange(start as int, i + 1) =~= seq![c]);
            } else {
                assert(s.subrange(start as int, i + 1) =~= s.subrange(start as int, i as int).push(c));
                assert(views(tokens@).push(s.subrange(start as int, i as int)).drop_last() =~= views(tokens@));
            }
        }
        i = i + 1;
    }
    if in_token {
        let t = to_parse.substring_char(start, i);
        tokens.push(String::from_str(t));
        assert(views(tokens@) =~= tokens_of(s.subrange(0, i as int)));
    }
    assert(s.subrange(0, i as int) =~= s);
    tokens
}

} // verus!

verus! {

/// A query expression.
#[derive(Debug)]
pub enum Symbol {
    Phrase(String),
    Group(Vec<Symbol>),
    And(Box<Symbol>, Box<Symbol>),
    Or(Box<Symbol>, Box<Symbol>),
    Not(Box<Symbol>),
}

/// The mathematical value of a [`Symbol`].
pub ghost enum Query {
    Phrase(Seq<char>),
    Group(Seq<Query>),
    And(Box<Query>, Box<Query>),
    Or(Box<Query>, Box<Query>),
    Not(Box<Query>),
}

pub open spec fn symbol_view(s: Symbol) -> Query
    decreases s,
{
    match s {
        Symbol::Phrase(p) => Query::Phrase(p@),
        Symbol::Group(v) => Query::Group(symbols_view(v@)),
        Symbol::And(l, r) => Query::And(Box::new(symbol_view(*l)), Box::new(symbol_view(*r))),
        Symbol::Or(l, r) => Query::Or(Box::new(symbol_view(*l)), Box::new(symbol_view(*r))),
        Symbol::Not(e) => Query::Not(Box::new(symbol_view(*e))),
    }
}

pub open spec fn symbols_view(v: Seq<Symbol>) -> Seq<Query>
    decreases v,
{
    if v.len() == 0 {
        seq![]
    } else {
        symbols_view(v.drop_last()).push(symbol_view(v.last()))
    }
}

impl View for Symbol {
    type V = Query;

    open spec fn view(&self) -> Query {
        symbol_view(*self)
    }
}

} // verus!

verus! {

/// Whether `text` satisfies the query `q`: a phrase occurs in it, a group
/// holds when each of its members does, and the connectives are read as
/// boolean operations.
pub open spec fn query_matches(q: Query, text: Seq<char>) -> bool
    decreases q,
{
    match q {
        Query::Phrase(p) => occurs_in(p, text),
        Query::Group(qs) => all_match(qs, text),
        Query::And(l, r) => query_matches(*l, text) && query_matches(*r, text),
        Query::Or(l, r) => query_matches(*l, text) || query_matches(*r, text),
        Query::Not(e) => !query_matches(*e, text),
    }
}

/// Whether `text` satisfies each query of `qs`.
pub open spec fn all_match(qs: Seq<Query>, text: Seq<char>) -> bool
    decreases qs,
{
    if qs.len() == 0 {
        true
    } else {
        all_match(qs.drop_last(), text) && query_matches(qs.last(), text)
    }
}

proof fn lemma_symbols_view(v: Seq<Symbol>)
    ensures
        symbols_view(v).len() == v.len(),
        forall|k: int| 0 <= k < v.len() ==> #[trigger] symbols_view(v)[k] == symbol_view(v[k]),
    decreases v.len(),
{
    if v.len() > 0 {
        lemma_symbols_view(v.drop_last());
    }
}

/// A query list is satisfied only where each of its prefixes is.
proof fn lemma_all_match_prefix(qs: Seq<Query>, i: int, text: Seq<char>)
    requires
        0 <= i < qs.len(),
        !query_matches(qs[i], text),
    ensures
        !all_match(qs, text),
    decreases qs.len(),
{
    if i < qs.len() - 1 {
        lemma_all_match_prefix(qs.drop_last(), i, text);
    }
}

pub fn matches_chars(text: &Vec<char>, q: &Symbol) -> (r: bool)
    ensures
        r == query_matches(q@, text@),
    decreases q,
{
    match q {
        Symbol::Phrase(p) => {
            let pc = chars_of(p.as_str());
            occurs(text, &pc)
        },
        Symbol::Group(v) => {
            proof {
                lemma_symbols_view(v@);
            }
            let mut i: usize = 0;
            while i < v.len()
                invariant
                    *q == Symbol::Group(*v),
                    i <= v.len(),
                    symbols_view(v@).len() == v.len(),
                    forall|k: int| 0 <= k < v.len() ==> #[trigger] symbols_view(v@)[k] == symbol_view(v@[k]),
                    all_match(symbols_view(v@).subrange(0, i as int), text@),
                decreases v.len() - i,
            {
                proof {
                    assert(decreases_to!(v => v@[i as int]));
                }
                if !matches_chars(text, &v[i]) {
                    assert(q@ == Query::Group(symbols_view(v@)));
                    proof {
                        lemma_all_match_prefix(symbols_view(v@), i as int, text@);
                    }
                    return false;
                }
                assert(symbols_view(v@).subrange(0, i + 1).drop_last() =~= symbols_view(v@).subrange(0, i as int));
                i = i + 1;
            }
            assert(symbols_view(v@).subrange(0, i as int) =~= symbols_view(v@));
            true
        },
        Symbol::And(l, r) => matches_chars(text, l) && matches_chars(text, r),
        Symbol::Or(l, r) => matches_chars(text, l) || matches_chars(text, r),
        Symbol::Not(e) => !matches_chars(text, e),
    }
}

/// Whether `icon_string` satisfies the query `parsed_query`.
pub fn match_query(icon_string: &str, parsed_query: &Symbol) -> (r: bool)
    ensures
        r == query_matches(parsed_query@, icon_string@),
{
    let text = chars_of(icon_string);
    matches_chars(&text, parsed_query)
}

} // verus!

verus! {

/// Why a query could not be parsed.
#[derive(Debug, Clone, Copy, PartialEq, Eq, Structural)]
pub enum ParseError {
    /// The query ends where an operand is expected.
    UnexpectedEnd,
    /// An operator or a closing parenthesis stands where an operand is expected.
    UnexpectedToken,
    /// A group is opened and never closed.
    UnclosedGroup,
    /// A closing parenthesis has no group to close.
    UnmatchedClose,
}

/// Whether `t` is the one-character token `c`.
pub open spec fn is_tok(t: Seq<char>, c: char) -> bool {
    t == seq![c]
}

/// An operand starting at token `pos`: a parenthesised expression, a negated
/// operand, or a phrase. On success, the operand and the position after it.
pub open spec fn primary_spec(toks: Seq<Seq<char>>, pos: int) -> Result<(Query, int), ParseError>
    decreases toks.len() - pos, 0int,
{
    if pos < 0 || pos >= toks.len() {
        Err(ParseError::UnexpectedEnd)
    } else if is_tok(toks[pos], '(') {
        match expression_spec(toks, pos + 1) {
            Err(e) => Err(e),
            Ok((q, p)) => if p < toks.len() && is_tok(toks[p], ')') {
                Ok((Query::Group(seq![q]), p + 1))
            } else {
                Err(ParseError::UnclosedGroup)
            },
        }
    } else if is_tok(toks[pos], '!') {
        match primary_spec(toks, pos + 1) {
            Err(e) => Err(e),
            Ok((q, p)) => Ok((Query::Not(Box::new(q)), p)),
        }
    } else if is_tok(toks[pos], '&') || is_tok(toks[pos], '|') || is_tok(toks[pos], ')') {
        Err(ParseError::UnexpectedToken)
    } else {
        Ok((Query::Phrase(toks[pos]), pos + 1))
    }
}

/// An expression starting at token `pos`: an operand, followed by whatever
/// `fold_spec` joins to it.
pub open spec fn expression_spec(toks: Seq<Seq<char>>, pos: int) -> Result<(Query, int), ParseError>
    decreases toks.len() - pos, 2int,
{
    match primary_spec(toks, pos) {
        Err(e) => Err(e),
        Ok((q, p)) => if pos < p <= toks.len() {
            fold_spec(toks, q, p)
        } else {
            Err(ParseError::UnexpectedEnd)
        },
    }
}

/// Joins operands to `left` from token `pos` on, strictly left to right with
/// no precedence: `|` gives `Or`, `&` or a mere adjacency gives `And`. Stops
/// at the end or before a closing parenthesis.
pub open spec fn fold_spec(toks: Seq<Seq<char>>, left: Query, pos: int) -> Result<
    (Query, int),
    ParseError,
>
    decreases toks.len() - pos, 1int,
{
    if pos < 0 || pos >= toks.len() || is_tok(toks[pos], ')') {
        Ok((left, pos))
    } else {
        let is_or = is_tok(toks[pos], '|');
        let start = if is_or || is_tok(toks[pos], '&') {
            pos + 1
        } else {
            pos
        };
        match primary_spec(toks, start) {
            Err(e) => Err(e),
            Ok((right, p)) => if pos < p <= toks.len() {
                let joined = if is_or {
                    Query::Or(Box::new(left), Box::new(right))
                } else {
                    Query::And(Box::new(left), Box::new(right))
                };
                fold_spec(toks, joined, p)
            } else {
                Err(ParseError::UnexpectedEnd)
            },
        }
    }
}

/// The query that a sequence of tokens denotes, if the whole of it is one
/// expression.
pub open spec fn parse_spec(toks: Seq<Seq<char>>) -> Result<Query, ParseError> {
    match expression_spec(toks, 0) {
        Err(e) => Err(e),
        Ok((q, p)) => if p == toks.len() {
            Ok(q)
        } else {
            Err(ParseError::UnmatchedClose)
        },
    }
}

/// The query that the text `s` denotes.
pub open spec fn parse_text(s: Seq<char>) -> Result<Query, ParseError> {
    parse_spec(tokens_of(s))
}

/// Every group in `q` has exactly one member.
pub open spec fn single_groups(q: Query) -> bool
    decreases q,
{
    match q {
        Query::Phrase(_) => true,
        Query::Group(qs) => qs.len() == 1 && single_groups(qs[0]),
        Query::And(l, r) => single_groups(*l) && single_groups(*r),
        Query::Or(l, r) => single_groups(*l) && single_groups(*r),
        Query::Not(e) => single_groups(*e),
    }
}

pub open spec fn step_view(r: Result<(Symbol, usize), ParseError>) -> Result<(Query, int), ParseError> {
    match r {
        Ok((s, p)) => Ok((s@, p as int)),
        Err(e) => Err(e),
    }
}

pub open spec fn parsed_view(r: Result<Symbol, ParseError>) -> Result<Query, ParseError> {
    match r {
        Ok(s) => Ok(s@),
        Err(e) => Err(e),
    }
}

fn parse_primary(tokens: &Vec<String>, pos: usize) -> (r: Result<(Symbol, usize), ParseError>)
    requires
        pos <= tokens.len(),
    ensures
        step_view(r) == primary_spec(views(tokens@), pos as int),
        r matches Ok((_, p)) ==> pos < p <= tokens.len(),
        r matches Ok((q, _)) ==> single_groups(q@),
    decreases tokens.len() - pos, 0int,
{
    let ghost toks = views(tokens@);
    if pos >= tokens.len() {
        return Err(ParseError::UnexpectedEnd);
    }
    assert(toks[pos as int] == tokens@[pos as int]@);
    if is_char_token(tokens[pos].as_str(), '(') {
        match parse_expression(tokens, pos + 1) {
            Err(e) => Err(e),
            Ok((inner, p)) => {
                if p < tokens.len() && is_char_token(tokens[p].as_str(), ')') {
                    assert(toks[p as int] == tokens@[p as int]@);
                    let group = vec![inner];
                    assert(group@.drop_last() =~= Seq::<Symbol>::empty());
                    assert(symbols_view(Seq::<Symbol>::empty()) =~= Seq::<Query>::empty());
                    assert(symbols_view(group@) =~= seq![inner@]);
                    Ok((Symbol::Group(group), p + 1))
                } else {
                    proof {
                        if p < tokens.len() {
                            assert(toks[p as int] == tokens@[p as int]@);
                        }
                    }
                    Err(ParseError::UnclosedGroup)
                }
            },
        }
    } else if is_char_token(tokens[pos].as_str(), '!') {
        match parse_primary(tokens, pos + 1) {
            Err(e) => Err(e),
            Ok((inner, p)) => Ok((Symbol::Not(Box::new(inner)), p)),
        }
    } else if is_char_token(tokens[pos].as_str(), '&') || is_char_token(tokens[pos].as_str(), '|')
        || is_char_token(tokens[pos].as_str(), ')') {
        Err(ParseError::UnexpectedToken)
    } else {
        let phrase = tokens[pos].clone();
        Ok((Symbol::Phrase(phrase), pos + 1))
    }
}

fn parse_expression(tokens: &Vec<String>, pos: usize) -> (r: Result<(Symbol, usize), ParseError>)
    requires
        pos <= tokens.len(),
    ensures
        step_view(r) == expression_spec(views(tokens@), pos as int),
        r matches Ok((_, p)) ==> pos < p <= tokens.len(),
        r matches Ok((q, _)) ==> single_groups(q@),
    decreases tokens.len() - pos, 2int,
{
    let ghost toks = views(tokens@);
    let (mut left, mut cur) = match parse_primary(tokens, pos) {
        Err(e) => return Err(e),
        Ok(first) => first,
    };
    let ghost target = expression_spec(toks, pos as int);
    loop
        invariant
            toks == views(tokens@),
            pos < cur <= tokens.len(),
            target == expression_spec(toks, pos as int),
            fold_spec(toks, left@, cur as int) == target,
            single_groups(left@),
        decreases tokens.len() - cur,
    {
        if cur >= tokens.len() {
            assert(fold_spec(toks, left@, cur as int) == Ok::<(Query, int), ParseError>((left@, cur as int)));
            return Ok((left, cur));
        }
        assert(toks[cur as int] == tokens@[cur as int]@);
        if is_char_token(tokens[cur].as_str(), ')') {
            return Ok((left, cur));
        }
        let is_or = is_char_token(tokens[cur].as_str(), '|');
        let start = if is_or || is_char_token(tokens[cur].as_str(), '&') {
            cur + 1
        } else {
            cur
        };
        match parse_primary(tokens, start) {
            Err(e) => return Err(e),
            Ok((right, p)) => {
                left = if is_or {
                    Symbol::Or(Box::new(left), Box::new(right))
                } else {
                    Symbol::And(Box::new(left), Box::new(right))
                };
                cur = p;
            },
        }
    }
}

/// Parses a query: operands are phrases, `!operand` and `(expression)`;
/// an expression joins operands by `&`, `|` or adjacency, strictly left to
/// right.
pub fn parse(to_parse: &str) -> (r: Result<Symbol, ParseError>)
    ensures
        parsed_view(r) == parse_text(to_parse@),
        r matches Ok(q) ==> single_groups(q@),
{
    let tokens = parse_tokens(to_parse);
    match parse_expression(&tokens, 0) {
        Err(e) => Err(e),
        Ok((parsed, p)) => {
            if p == tokens.len() {
                Ok(parsed)
            } else {
                Err(ParseError::UnmatchedClose)
            }
        },
    }
}

} // verus!

verus! {

/// A nonempty run of phrase characters.
pub open spec fn is_word(w: Seq<char>) -> bool {
    w.len() > 0 && forall|i: int| 0 <= i < w.len() ==> is_phrase_char(#[trigger] w[i])
}

/// A word that follows the end of a phrase-free boundary is one more token.
pub proof fn lemma_tokens_push_word(p: Seq<char>, w: Seq<char>)
    requires
        is_word(w),
        p.len() == 0 || !is_phrase_char(p.last()),
    ensures
        tokens_of(p + w) == tokens_of(p).push(w),
    decreases w.len(),
{
    let s = p + w;
    if w.len() == 1 {
        assert(s.drop_last() =~= p);
        assert(seq![w[0]] =~= w);
    } else {
        let w0 = w.drop_last();
        assert(is_word(w0)) by {
            assert forall|i: int| 0 <= i < w0.len() implies is_phrase_char(#[trigger] w0[i]) by {
                assert(w0[i] == w[i]);
            }
        }
        lemma_tokens_push_word(p, w0);
        assert(s.drop_last() =~= p + w0);
        assert((p + w0).last() == w0.last());
        assert(w0.last() == w[w.len() - 2]);
        let t = tokens_of(p).push(w0);
        assert(t.drop_last() =~= tokens_of(p));
        assert(w0.push(w.last()) =~= w);
    }
}

/// An operator character is a token of its own.
pub proof fn lemma_tokens_push_operator(p: Seq<char>, c: char)
    requires
        is_operator_char(c),
    ensures
        tokens_of(p.push(c)) == tokens_of(p).push(seq![c]),
{
    assert(p.push(c).drop_last() =~= p);
}

/// The tokens of `a` then `c` then `b`, for words `a` and `b` and an
/// operator character `c`.
pub proof fn lemma_tokens_binary(a: Seq<char>, c: char, b: Seq<char>)
    requires
        is_word(a),
        is_word(b),
        is_operator_char(c),
    ensures
        tokens_of(a.push(c) + b) == seq![a, seq![c], b],
{
    lemma_tokens_push_word(Seq::empty(), a);
    assert(Seq::<char>::empty() + a =~= a);
    assert(tokens_of(Seq::<char>::empty()) =~= Seq::<Seq<char>>::empty());
    lemma_tokens_push_operator(a, c);
    lemma_tokens_push_word(a.push(c), b);
    assert(tokens_of(a.push(c) + b) =~= seq![a, seq![c], b]);
}

/// A word is never a one-character operator token.
proof fn lemma_word_not_tok(w: Seq<char>)
    requires
        is_word(w),
    ensures
        !is_tok(w, '('),
        !is_tok(w, ')'),
        !is_tok(w, '!'),
        !is_tok(w, '&'),
        !is_tok(w, '|'),
{
    assert(is_phrase_char(w[0]));
}

/// A phrase matches exactly the texts that contain it.
pub proof fn law_phrase(w: Seq<char>, text: Seq<char>)
    requires
        is_word(w),
    ensures
        parse_text(w) == Ok::<Query, ParseError>(Query::Phrase(w)),
        query_matches(Query::Phrase(w), text) == occurs_in(w, text),
{
    reveal_with_fuel(primary_spec, 2);
    lemma_tokens_push_word(Seq::empty(), w);
    assert(Seq::<char>::empty() + w =~= w);
    assert(tokens_of(Seq::<char>::empty()) =~= Seq::<Seq<char>>::empty());
    assert(tokens_of(w) =~= seq![w]);
    lemma_word_not_tok(w);
}

/// The query that `a`, then a binary operator `c`, then `b` denote, for
/// words `a` and `b`.
pub open spec fn binary_of_phrases(a: Seq<char>, c: char, b: Seq<char>) -> Query {
    if c == '|' {
        Query::Or(Box::new(Query::Phrase(a)), Box::new(Query::Phrase(b)))
    } else {
        Query::And(Box::new(Query::Phrase(a)), Box::new(Query::Phrase(b)))
    }
}

/// Two words joined by `|` or `&` parse to the disjunction or the
/// conjunction of the two phrases.
pub proof fn lemma_parse_binary(a: Seq<char>, c: char, b: Seq<char>)
    requires
        is_word(a),
        is_word(b),
        c == '|' || c == '&',
    ensures
        parse_text(a.push(c) + b) == Ok::<Query, ParseError>(binary_of_phrases(a, c, b)),
{
    reveal_with_fuel(primary_spec, 2);
    reveal_with_fuel(fold_spec, 2);
    lemma_tokens_binary(a, c, b);
    lemma_word_not_tok(a);
    lemma_word_not_tok(b);
    let toks = seq![a, seq![c], b];
    assert(is_tok(toks[1], c));
    assert(seq![c][0] != ')');
    assert(!is_tok(toks[1], ')'));
    assert(c == '&' ==> !is_tok(toks[1], '|')) by {
        assert(seq![c][0] != '|' || c == '|');
    }
    assert(fold_spec(toks, Query::Phrase(a), 1) == fold_spec(
        toks,
        binary_of_phrases(a, c, b),
        3,
    ));
}

/// `a|b` parses to the disjunction of the two phrases, which matches
/// exactly the texts that contain `a` or contain `b`.
pub proof fn law_or_of_phrases(a: Seq<char>, b: Seq<char>, text: Seq<char>)
    requires
        is_word(a),
        is_word(b),
    ensures
        parse_text(a.push('|') + b) == Ok::<Query, ParseError>(
            Query::Or(Box::new(Query::Phrase(a)), Box::new(Query::Phrase(b))),
        ),
        query_matches(Query::Or(Box::new(Query::Phrase(a)), Box::new(Query::Phrase(b))), text)
            == (occurs_in(a, text) || occurs_in(b, text)),
{
    reveal_with_fuel(query_matches, 2);
    lemma_parse_binary(a, '|', b);
}

/// `a&b` parses to the conjunction of the two phrases, which matches
/// exactly the texts that contain both.
pub proof fn law_and_of_phrases(a: Seq<char>, b: Seq<char>, text: Seq<char>)
    requires
        is_word(a),
        is_word(b),
    ensures
        parse_text(a.push('&') + b) == Ok::<Query, ParseError>(
            Query::And(Box::new(Query::Phrase(a)), Box::new(Query::Phrase(b))),
        ),
        query_matches(Query::And(Box::new(Query::Phrase(a)), Box::new(Query::Phrase(b))), text)
            == (occurs_in(a, text) && occurs_in(b, text)),
{
    reveal_with_fuel(query_matches, 2);
    lemma_parse_binary(a, '&', b);
}

/// `!a` parses to the negation of the phrase, which matches exactly the
/// texts that do not contain `a`.
pub proof fn law_not_of_phrase(a: Seq<char>, text: Seq<char>)
    requires
        is_word(a),
    ensures
        parse_text(seq!['!'] + a) == Ok::<Query, ParseError>(
            Query::Not(Box::new(Query::Phrase(a))),
        ),
        query_matches(Query::Not(Box::new(Query::Phrase(a))), text) == !occurs_in(a, text),
{
    reveal_with_fuel(primary_spec, 3);
    reveal_with_fuel(expression_spec, 2);
    reveal_with_fuel(fold_spec, 2);
    reveal_with_fuel(query_matches, 2);
    lemma_tokens_push_operator(Seq::empty(), '!');
    assert(tokens_of(Seq::<char>::empty()) =~= Seq::<Seq<char>>::empty());
    assert(Seq::<char>::empty().push('!') =~= seq!['!']);
    lemma_tokens_push_word(seq!['!'], a);
    assert(tokens_of(seq!['!'] + a) =~= seq![seq!['!'], a]);
    lemma_word_not_tok(a);
    let toks = seq![seq!['!'], a];
    assert(is_tok(toks[0], '!'));
    assert(!is_tok(toks[0], '('));
}

/// A group of one member matches exactly where its member does.
pub proof fn law_group_of_one(q: Query, text: Seq<char>)
    ensures
        query_matches(Query::Group(seq![q]), text) == query_matches(q, text),
{
    reveal_with_fuel(query_matches, 3);
    reveal_with_fuel(all_match, 2);
    assert(seq![q].drop_last() =~= Seq::<Query>::empty());
}

/// `(a|b)` parses to a group around the disjunction `a|b`, and matches
/// exactly where that disjunction does.
pub proof fn law_group_of_or(a: Seq<char>, b: Seq<char>, text: Seq<char>)
    requires
        is_word(a),
        is_word(b),
    ensures
        parse_text(seq!['('] + (a.push('|') + b).push(')')) == Ok::<Query, ParseError>(
            Query::Group(seq![Query::Or(Box::new(Query::Phrase(a)), Box::new(Query::Phrase(b)))]),
        ),
        query_matches(
            Query::Group(seq![Query::Or(Box::new(Query::Phrase(a)), Box::new(Query::Phrase(b)))]),
            text,
        ) == query_matches(Query::Or(Box::new(Query::Phrase(a)), Box::new(Query::Phrase(b))), text),
{
    reveal_with_fuel(primary_spec, 3);
    reveal_with_fuel(fold_spec, 2);
    let open_ = seq!['('];
    lemma_tokens_push_operator(Seq::empty(), '(');
    assert(tokens_of(Seq::<char>::empty()) =~= Seq::<Seq<char>>::empty());
    assert(Seq::<char>::empty().push('(') =~= open_);
    lemma_tokens_push_word(open_, a);
    lemma_tokens_push_operator(open_ + a, '|');
    assert((open_ + a).last() == a.last());
    lemma_tokens_push_word((open_ + a).push('|'), b);
    assert((open_ + a).push('|') + b =~= open_ + (a.push('|') + b));
    lemma_tokens_push_operator(open_ + (a.push('|') + b), ')');
    assert(open_ + (a.push('|') + b).push(')') =~= (open_ + (a.push('|') + b)).push(')'));
    let toks = seq![open_, a, seq!['|'], b, seq![')']];
    assert(tokens_of(seq!['('] + (a.push('|') + b).push(')')) =~= toks);
    lemma_word_not_tok(a);
    lemma_word_not_tok(b);
    assert(is_tok(toks[0], '('));
    assert(is_tok(toks[2], '|'));
    assert(seq!['|'][0] != ')');
    assert(!is_tok(toks[2], ')'));
    assert(is_tok(toks[4], ')'));
    let or_ = Query::Or(Box::new(Query::Phrase(a)), Box::new(Query::Phrase(b)));
    assert(fold_spec(toks, Query::Phrase(a), 2) == fold_spec(toks, or_, 4));
    assert(expression_spec(toks, 1) == Ok::<(Query, int), ParseError>((or_, 4)));
    law_group_of_one(or_, text);
}

} // verus!
