//! The query language: tokenizer, recursive-descent parser and evaluator.
use vstd::prelude::*;
use crate::text::{lower_of, lowercase, push_char, contains_seq, str_contains};

verus! {

/// A lexical token of a query. Word text is already case-folded.
#[derive(Debug)]
pub enum Token {
    LParen,
    RParen,
    And,
    Or,
    Word(String),
}

/// The mathematical value of a [`Token`].
pub ghost enum TokenView {
    LParen,
    RParen,
    And,
    Or,
    Word(Seq<char>),
}

impl View for Token {
    type V = TokenView;

    open spec fn view(&self) -> TokenView {
        match self {
            Token::LParen => TokenView::LParen,
            Token::RParen => TokenView::RParen,
            Token::And => TokenView::And,
            Token::Or => TokenView::Or,
            Token::Word(w) => TokenView::Word(w@),
        }
    }
}

/// The views of a token sequence.
pub open spec fn token_views(ts: Seq<Token>) -> Seq<TokenView> {
    ts.map_values(|t: Token| t@)
}

/// `w` equals `"and"` ignoring ASCII case.
pub open spec fn is_and_word(w: Seq<char>) -> bool {
    &&& w.len() == 3
    &&& (w[0] == 'a' || w[0] == 'A')
    &&& (w[1] == 'n' || w[1] == 'N')
    &&& (w[2] == 'd' || w[2] == 'D')
}

/// `w` equals `"or"` ignoring ASCII case.
pub open spec fn is_or_word(w: Seq<char>) -> bool {
    &&& w.len() == 2
    &&& (w[0] == 'o' || w[0] == 'O')
    &&& (w[1] == 'r' || w[1] == 'R')
}

/// The token that a folded term becomes: the words `and` and `or` are operators.
pub open spec fn word_token_spec(w: Seq<char>) -> TokenView {
    if is_and_word(w) {
        TokenView::And
    } else if is_or_word(w) {
        TokenView::Or
    } else {
        TokenView::Word(w)
    }
}

/// State of the scan: tokens emitted so far, the pending term, and whether
/// the scan is inside a double-quoted phrase.
pub ghost struct ScanState {
    pub tokens: Seq<TokenView>,
    pub buf: Seq<char>,
    pub quoted: bool,
}

/// Emits the pending term (folded, then keyword-rewritten) if it is non-empty.
pub open spec fn flush(toks: Seq<TokenView>, buf: Seq<char>) -> Seq<TokenView> {
    if buf.len() == 0 {
        toks
    } else {
        toks.push(word_token_spec(lower_of(buf)))
    }
}

/// The characters that separate unquoted terms.
pub open spec fn is_space(c: char) -> bool {
    c == ' ' || c == '\t' || c == '\n'
}

/// One step of the scan on character `c`.
pub open spec fn scan_step(st: ScanState, c: char) -> ScanState {
    if st.quoted {
        if c == '"' {
            ScanState { tokens: flush(st.tokens, st.buf), buf: Seq::empty(), quoted: false }
        } else {
            ScanState { tokens: st.tokens, buf: st.buf.push(c), quoted: true }
        }
    } else if is_space(c) {
        ScanState { tokens: flush(st.tokens, st.buf), buf: Seq::empty(), quoted: false }
    } else if c == '(' {
        ScanState {
            tokens: flush(st.tokens, st.buf).push(TokenView::LParen),
            buf: Seq::empty(),
            quoted: false,
        }
    } else if c == ')' {
        ScanState {
            tokens: flush(st.tokens, st.buf).push(TokenView::RParen),
            buf: Seq::empty(),
            quoted: false,
        }
    } else if c == '"' {
        ScanState { tokens: flush(st.tokens, st.buf), buf: Seq::empty(), quoted: true }
    } else {
        ScanState { tokens: st.tokens, buf: st.buf.push(c), quoted: false }
    }
}

/// The scan state after reading all of `s`, left to right.
pub open spec fn scan(s: Seq<char>) -> ScanState
    decreases s.len(),
{
    if s.len() == 0 {
        ScanState { tokens: Seq::empty(), buf: Seq::empty(), quoted: false }
    } else {
        scan_step(scan(s.drop_last()), s.last())
    }
}

/// The tokens of a query string: the scan, then the last pending term.
pub open spec fn tokenize_spec(s: Seq<char>) -> Seq<TokenView> {
    flush(scan(s).tokens, scan(s).buf)
}

/// The token for an already case-folded term: `and` and `or` (in any ASCII
/// case) become operators, anything else a word.
pub fn word_token(folded: String) -> (t: Token)
    ensures
        t@ == word_token_spec(folded@),
{
    let n = folded.as_str().unicode_len();
    if n == 3 {
        let c0 = folded.as_str().get_char(0);
        let c1 = folded.as_str().get_char(1);
        let c2 = folded.as_str().get_char(2);
        if (c0 == 'a' || c0 == 'A') && (c1 == 'n' || c1 == 'N') && (c2 == 'd' || c2 == 'D') {
            return Token::And;
        }
    } else if n == 2 {
        let c0 = folded.as_str().get_char(0);
        let c1 = folded.as_str().get_char(1);
        if (c0 == 'o' || c0 == 'O') && (c1 == 'r' || c1 == 'R') {
            return Token::Or;
        }
    }
    Token::Word(folded)
}

fn flush_term(tokens: &mut Vec<Token>, buf: &String)
    ensures
        token_views(final(tokens)@) == flush(token_views(old(tokens)@), buf@),
{
    if buf.as_str().unicode_len() > 0 {
        let folded = lowercase(buf.as_str());
        let t = word_token(folded);
        tokens.push(t);
        proof {
            assert(token_views(final(tokens)@) =~= token_views(old(tokens)@).push(t@));
        }
    } else {
        assert(buf@.len() == 0);
    }
}

/// Splits a query into tokens. Never fails: malformed input is left to the parser.
pub fn tokenize(input: &str) -> (r: Vec<Token>)
    ensures
        token_views(r@) == tokenize_spec(input@),
{
    let n = input.unicode_len();
    let mut tokens: Vec<Token> = Vec::new();
    let mut buf = String::new();
    let mut quoted = false;
    let mut i: usize = 0;
    proof {
        assert(input@.subrange(0, 0) =~= Seq::<char>::empty());
        assert(token_views(tokens@) =~= Seq::<TokenView>::empty());
    }
    while i < n
        invariant
            n == input@.len(),
            i <= n,
            scan(input@.subrange(0, i as int)) == (ScanState {
                tokens: token_views(tokens@),
                buf: buf@,
                quoted,
            }),
        decreases n - i,
    {
        let c = input.get_char(i);
        proof {
            let pre = input@.subrange(0, i as int + 1);
            assert(pre.drop_last() =~= input@.subrange(0, i as int));
            assert(pre.last() == c);
        }
        if quoted {
            if c == '"' {
                flush_term(&mut tokens, &buf);
                buf = String::new();
                quoted = false;
            } else {
                push_char(&mut buf, c);
            }
        } else if c == ' ' || c == '\t' || c == '\n' {
            flush_term(&mut tokens, &buf);
            buf = String::new();
        } else if c == '(' {
            flush_term(&mut tokens, &buf);
            buf = String::new();
            let ghost before = token_views(tokens@);
            tokens.push(Token::LParen);
            assert(token_views(tokens@) =~= before.push(TokenView::LParen));
        } else if c == ')' {
            flush_term(&mut tokens, &buf);
            buf = String::new();
            let ghost before = token_views(tokens@);
            tokens.push(Token::RParen);
            assert(token_views(tokens@) =~= before.push(TokenView::RParen));
        } else if c == '"' {
            flush_term(&mut tokens, &buf);
            buf = String::new();
            quoted = true;
        } else {
            push_char(&mut buf, c);
        }
        i = i + 1;
    }
    proof {
        assert(input@.subrange(0, n as int) =~= input@);
    }
    flush_term(&mut tokens, &buf);
    tokens
}

/// A compiled query: terms combined by conjunction and disjunction.
#[derive(Debug)]
pub enum Expr {
    Term(String),
    And(Box<Expr>, Box<Expr>),
    Or(Box<Expr>, Box<Expr>),
}

/// The mathematical value of an [`Expr`].
pub ghost enum ExprView {
    Term(Seq<char>),
    And(Box<ExprView>, Box<ExprView>),
    Or(Box<ExprView>, Box<ExprView>),
}

impl View for Expr {
    type V = ExprView;

    open spec fn view(&self) -> ExprView
        decreases self,
    {
        match self {
            Expr::Term(t) => ExprView::Term(t@),
            Expr::And(a, b) => ExprView::And(Box::new((**a).view()), Box::new((**b).view())),
            Expr::Or(a, b) => ExprView::Or(Box::new((**a).view()), Box::new((**b).view())),
        }
    }
}

/// Why a query failed to compile.
#[derive(Debug, Clone, Copy, PartialEq, Eq, Structural)]
pub enum ParseError {
    /// The tokens ran out where a term or a group was expected.
    UnexpectedEnd,
    /// The tokens ran out before a group was closed.
    MissingCloseParen,
    /// Another token stands where a group should close.
    ExpectedCloseParen,
    /// An operator or a closing parenthesis stands where a term or a group was expected.
    UnexpectedToken,
    /// A complete expression ends before the tokens do, at this position.
    TrailingTokens(usize),
}

/// `Or := And (OR And)*`, from position `pos`: the tree and the next position.
///
/// Every successful production ends strictly after where it began (the
/// parser functions below prove it of their results), so the fallback arms
/// on a position that did not advance are never taken; they only make the
/// recursion visibly terminate.
pub open spec fn parse_or_spec(ts: Seq<TokenView>, pos: int) -> Result<(ExprView, int), ParseError>
    decreases ts.len() - pos, 3int,
{
    if pos < 0 || pos > ts.len() {
        Err(ParseError::UnexpectedEnd)
    } else {
        match parse_and_spec(ts, pos) {
            Err(e) => Err(e),
            Ok((l, p)) => if pos < p <= ts.len() {
                or_rest_spec(ts, l, p)
            } else {
                Err(ParseError::UnexpectedEnd)
            },
        }
    }
}

/// The `(OR And)*` tail, folded to the left onto `l`.
pub open spec fn or_rest_spec(ts: Seq<TokenView>, l: ExprView, p: int) -> Result<(ExprView, int), ParseError>
    decreases ts.len() - p, 2int,
{
    if 0 <= p < ts.len() && ts[p] is Or {
        match parse_and_spec(ts, p + 1) {
            Err(e) => Err(e),
            Ok((r, p2)) => if p < p2 <= ts.len() {
                or_rest_spec(ts, ExprView::Or(Box::new(l), Box::new(r)), p2)
            } else {
                Err(ParseError::UnexpectedEnd)
            },
        }
    } else {
        Ok((l, p))
    }
}

/// `And := Primary (AND Primary)*`, from position `pos`.
pub open spec fn parse_and_spec(ts: Seq<TokenView>, pos: int) -> Result<(ExprView, int), ParseError>
    decreases ts.len() - pos, 1int,
{
    if pos < 0 || pos > ts.len() {
        Err(ParseError::UnexpectedEnd)
    } else {
        match parse_primary_spec(ts, pos) {
            Err(e) => Err(e),
            Ok((l, p)) => if pos < p <= ts.len() {
                and_rest_spec(ts, l, p)
            } else {
                Err(ParseError::UnexpectedEnd)
            },
        }
    }
}

/// The `(AND Primary)*` tail, folded to the left onto `l`.
pub open spec fn and_rest_spec(ts: Seq<TokenView>, l: ExprView, p: int) -> Result<(ExprView, int), ParseError>
    decreases ts.len() - p, 0int,
{
    if 0 <= p < ts.len() && ts[p] is And {
        match parse_primary_spec(ts, p + 1) {
            Err(e) => Err(e),
            Ok((r, p2)) => if p < p2 <= ts.len() {
                and_rest_spec(ts, ExprView::And(Box::new(l), Box::new(r)), p2)
            } else {
                Err(ParseError::UnexpectedEnd)
            },
        }
    } else {
        Ok((l, p))
    }
}

/// `Primary := Term | '(' Or ')'`, from position `pos`.
pub open spec fn parse_primary_spec(ts: Seq<TokenView>, pos: int) -> Result<(ExprView, int), ParseError>
    decreases ts.len() - pos, 0int,
{
    if pos < 0 || pos >= ts.len() {
        Err(ParseError::UnexpectedEnd)
    } else {
        match ts[pos] {
            TokenView::LParen => match parse_or_spec(ts, pos + 1) {
                Err(e) => Err(e),
                Ok((e, p)) => if p >= ts.len() {
                    Err(ParseError::MissingCloseParen)
                } else if ts[p] is RParen {
                    Ok((e, p + 1))
                } else {
                    Err(ParseError::ExpectedCloseParen)
                },
            },
            TokenView::Word(w) => Ok((ExprView::Term(w), pos + 1)),
            _ => Err(ParseError::UnexpectedToken),
        }
    }
}

/// A whole token sequence as one expression: trailing tokens are an error.
pub open spec fn parse_tokens_spec(ts: Seq<TokenView>) -> Result<ExprView, ParseError> {
    match parse_or_spec(ts, 0) {
        Err(e) => Err(e),
        Ok((e, p)) => if p == ts.len() {
            Ok(e)
        } else {
            Err(ParseError::TrailingTokens(p as usize))
        },
    }
}

/// The compiled form of a query string.
pub open spec fn compile_spec(s: Seq<char>) -> Result<ExprView, ParseError> {
    parse_tokens_spec(tokenize_spec(s))
}

/// The view of a parser result.
pub open spec fn step_view(r: Result<(Expr, usize), ParseError>) -> Result<(ExprView, int), ParseError> {
    match r {
        Ok((e, p)) => Ok((e@, p as int)),
        Err(e) => Err(e),
    }
}

/// The view of a compiled query.
pub open spec fn expr_result_view(r: Result<Expr, ParseError>) -> Result<ExprView, ParseError> {
    match r {
        Ok(e) => Ok(e@),
        Err(e) => Err(e),
    }
}

/// Parses `Or := And (OR And)*` from `pos`.
pub fn parse_or(tokens: &[Token], pos: usize) -> (r: Result<(Expr, usize), ParseError>)
    requires
        pos <= tokens@.len(),
    ensures
        step_view(r) == parse_or_spec(token_views(tokens@), pos as int),
        r matches Ok((_, p)) ==> pos < p <= tokens@.len(),
    decreases tokens@.len() - pos, 3int,
{
    let ghost ts = token_views(tokens@);
    let (mut left, mut p) = match parse_and(tokens, pos) {
        Ok(x) => x,
        Err(e) => return Err(e),
    };
    loop
        invariant
            ts == token_views(tokens@),
            pos < p <= tokens@.len(),
            or_rest_spec(ts, left@, p as int) == parse_or_spec(ts, pos as int),
        decreases tokens@.len() - p,
    {
        if p < tokens.len() && matches!(tokens[p], Token::Or) {
            assert(ts[p as int] is Or);
            match parse_and(tokens, p + 1) {
                Ok((right, p2)) => {
                    left = Expr::Or(Box::new(left), Box::new(right));
                    p = p2;
                },
                Err(e) => return Err(e),
            }
        } else {
            return Ok((left, p));
        }
    }
}

/// Parses `And := Primary (AND Primary)*` from `pos`.
pub fn parse_and(tokens: &[Token], pos: usize) -> (r: Result<(Expr, usize), ParseError>)
    requires
        pos <= tokens@.len(),
    ensures
        step_view(r) == parse_and_spec(token_views(tokens@), pos as int),
        r matches Ok((_, p)) ==> pos < p <= tokens@.len(),
    decreases tokens@.len() - pos, 1int,
{
    let ghost ts = token_views(tokens@);
    let (mut left, mut p) = match parse_primary(tokens, pos) {
        Ok(x) => x,
        Err(e) => return Err(e),
    };
    loop
        invariant
            ts == token_views(tokens@),
            pos < p <= tokens@.len(),
            and_rest_spec(ts, left@, p as int) == parse_and_spec(ts, pos as int),
        decreases tokens@.len() - p,
    {
        if p < tokens.len() && matches!(tokens[p], Token::And) {
            assert(ts[p as int] is And);
            match parse_primary(tokens, p + 1) {
                Ok((right, p2)) => {
                    left = Expr::And(Box::new(left), Box::new(right));
                    p = p2;
                },
                Err(e) => return Err(e),
            }
        } else {
            return Ok((left, p));
        }
    }
}

/// Parses `Primary := Term | '(' Or ')'` at `pos`.
pub fn parse_primary(tokens: &[Token], pos: usize) -> (r: Result<(Expr, usize), ParseError>)
    requires
        pos <= tokens@.len(),
    ensures
        step_view(r) == parse_primary_spec(token_views(tokens@), pos as int),
        r matches Ok((_, p)) ==> pos < p <= tokens@.len(),
    decreases tokens@.len() - pos, 0int,
{
    let ghost ts = token_views(tokens@);
    if pos >= tokens.len() {
        return Err(ParseError::UnexpectedEnd);
    }
    assert(ts[pos as int] == tokens@[pos as int]@);
    match &tokens[pos] {
        Token::LParen => {
            let (e, p) = match parse_or(tokens, pos + 1) {
                Ok(x) => x,
                Err(err) => return Err(err),
            };
            if p >= tokens.len() {
                return Err(ParseError::MissingCloseParen);
            }
            assert(ts[p as int] == tokens@[p as int]@);
            match &tokens[p] {
                Token::RParen => Ok((e, p + 1)),
                _ => Err(ParseError::ExpectedCloseParen),
            }
        },
        Token::Word(w) => Ok((Expr::Term(w.clone()), pos + 1)),
        _ => Err(ParseError::UnexpectedToken),
    }
}

/// Parses a whole token sequence as one expression.
pub fn parse_tokens(tokens: &[Token]) -> (r: Result<Expr, ParseError>)
    ensures
        expr_result_view(r) == parse_tokens_spec(token_views(tokens@)),
{
    let (e, p) = match parse_or(tokens, 0) {
        Ok(x) => x,
        Err(err) => return Err(err),
    };
    if p != tokens.len() {
        return Err(ParseError::TrailingTokens(p));
    }
    Ok(e)
}

/// Compiles a query string: tokenizes it and parses the tokens.
pub fn parse_bool_query(input: &str) -> (r: Result<Expr, ParseError>)
    ensures
        expr_result_view(r) == compile_spec(input@),
{
    let tokens = tokenize(input);
    parse_tokens(tokens.as_slice())
}

/// Whether an expression matches a (case-folded) text: a term matches when it
/// occurs in the text, `And` when both sides do, `Or` when either does.
pub open spec fn eval_spec(e: ExprView, text: Seq<char>) -> bool
    decreases e,
{
    match e {
        ExprView::Term(t) => contains_seq(text, t),
        ExprView::And(a, b) => eval_spec(*a, text) && eval_spec(*b, text),
        ExprView::Or(a, b) => eval_spec(*a, text) || eval_spec(*b, text),
    }
}

/// Evaluates a compiled query against an already case-folded text.
pub fn eval_expr(expr: &Expr, text_lower: &str) -> (r: bool)
    ensures
        r == eval_spec(expr@, text_lower@),
    decreases expr,
{
    match expr {
        Expr::Term(t) => str_contains(text_lower, t.as_str()),
        Expr::And(a, b) => eval_expr(a, text_lower) && eval_expr(b, text_lower),
        Expr::Or(a, b) => eval_expr(a, text_lower) || eval_expr(b, text_lower),
    }
}

/// `AND` binds tighter than `OR`: the tokens of `a OR b AND c` compile to
/// `a OR (b AND c)`, which matches a text iff `a` occurs in it, or both `b`
/// and `c` do.
pub proof fn lemma_or_binds_weaker(a: Seq<char>, b: Seq<char>, c: Seq<char>, text: Seq<char>)
    ensures
        ({
            let ts = seq![
                TokenView::Word(a),
                TokenView::Or,
                TokenView::Word(b),
                TokenView::And,
                TokenView::Word(c),
            ];
            let e = ExprView::Or(
                Box::new(ExprView::Term(a)),
                Box::new(ExprView::And(Box::new(ExprView::Term(b)), Box::new(ExprView::Term(c)))),
            );
            &&& parse_tokens_spec(ts) == Ok::<ExprView, ParseError>(e)
            &&& eval_spec(e, text) == (contains_seq(text, a) || (contains_seq(text, b)
                && contains_seq(text, c)))
        }),
{
    let ts = seq![
        TokenView::Word(a),
        TokenView::Or,
        TokenView::Word(b),
        TokenView::And,
        TokenView::Word(c),
    ];
    let ta = ExprView::Term(a);
    let tb = ExprView::Term(b);
    let tc = ExprView::Term(c);
    let bc = ExprView::And(Box::new(tb), Box::new(tc));
    assert(parse_primary_spec(ts, 0) == Ok::<(ExprView, int), ParseError>((ta, 1)));
    assert(and_rest_spec(ts, ta, 1) == Ok::<(ExprView, int), ParseError>((ta, 1)));
    assert(parse_and_spec(ts, 0) == Ok::<(ExprView, int), ParseError>((ta, 1)));
    assert(parse_primary_spec(ts, 2) == Ok::<(ExprView, int), ParseError>((tb, 3)));
    assert(parse_primary_spec(ts, 4) == Ok::<(ExprView, int), ParseError>((tc, 5)));
    assert(and_rest_spec(ts, bc, 5) == Ok::<(ExprView, int), ParseError>((bc, 5)));
    assert(and_rest_spec(ts, tb, 3) == Ok::<(ExprView, int), ParseError>((bc, 5)));
    assert(parse_and_spec(ts, 2) == Ok::<(ExprView, int), ParseError>((bc, 5)));
    let e = ExprView::Or(Box::new(ta), Box::new(bc));
    assert(or_rest_spec(ts, e, 5) == Ok::<(ExprView, int), ParseError>((e, 5)));
    assert(or_rest_spec(ts, ta, 1) == Ok::<(ExprView, int), ParseError>((e, 5)));
    assert(parse_or_spec(ts, 0) == Ok::<(ExprView, int), ParseError>((e, 5)));
    assert(eval_spec(ta, text) == contains_seq(text, a));
    assert(eval_spec(tb, text) == contains_seq(text, b));
    assert(eval_spec(tc, text) == contains_seq(text, c));
    assert(eval_spec(bc, text) == (contains_seq(text, b) && contains_seq(text, c)));
    assert(eval_spec(e, text) == (eval_spec(ta, text) || eval_spec(bc, text)));
}

/// Parentheses override precedence: the tokens of `(a OR b) AND c` compile
/// to `(a OR b) AND c`, which matches a text iff `c` occurs in it together
/// with `a` or `b`.
pub proof fn lemma_group_overrides_precedence(a: Seq<char>, b: Seq<char>, c: Seq<char>, text: Seq<char>)
    ensures
        ({
            let ts = seq![
                TokenView::LParen,
                TokenView::Word(a),
                TokenView::Or,
                TokenView::Word(b),
                TokenView::RParen,
                TokenView::And,
                TokenView::Word(c),
            ];
            let e = ExprView::And(
                Box::new(ExprView::Or(Box::new(ExprView::Term(a)), Box::new(ExprView::Term(b)))),
                Box::new(ExprView::Term(c)),
            );
            &&& parse_tokens_spec(ts) == Ok::<ExprView, ParseError>(e)
            &&& eval_spec(e, text) == ((contains_seq(text, a) || contains_seq(text, b))
                && contains_seq(text, c))
        }),
{
    let ts = seq![
        TokenView::LParen,
        TokenView::Word(a),
        TokenView::Or,
        TokenView::Word(b),
        TokenView::RParen,
        TokenView::And,
        TokenView::Word(c),
    ];
    let ta = ExprView::Term(a);
    let tb = ExprView::Term(b);
    let tc = ExprView::Term(c);
    let ab = ExprView::Or(Box::new(ta), Box::new(tb));
    let e = ExprView::And(Box::new(ab), Box::new(tc));
    assert(parse_primary_spec(ts, 1) == Ok::<(ExprView, int), ParseError>((ta, 2)));
    assert(and_rest_spec(ts, ta, 2) == Ok::<(ExprView, int), ParseError>((ta, 2)));
    assert(parse_and_spec(ts, 1) == Ok::<(ExprView, int), ParseError>((ta, 2)));
    assert(parse_primary_spec(ts, 3) == Ok::<(ExprView, int), ParseError>((tb, 4)));
    assert(and_rest_spec(ts, tb, 4) == Ok::<(ExprView, int), ParseError>((tb, 4)));
    assert(parse_and_spec(ts, 3) == Ok::<(ExprView, int), ParseError>((tb, 4)));
    assert(or_rest_spec(ts, ab, 4) == Ok::<(ExprView, int), ParseError>((ab, 4)));
    assert(or_rest_spec(ts, ta, 2) == Ok::<(ExprView, int), ParseError>((ab, 4)));
    assert(parse_or_spec(ts, 1) == Ok::<(ExprView, int), ParseError>((ab, 4)));
    assert(parse_primary_spec(ts, 0) == Ok::<(ExprView, int), ParseError>((ab, 5)));
    assert(parse_primary_spec(ts, 6) == Ok::<(ExprView, int), ParseError>((tc, 7)));
    assert(and_rest_spec(ts, e, 7) == Ok::<(ExprView, int), ParseError>((e, 7)));
    assert(and_rest_spec(ts, ab, 5) == Ok::<(ExprView, int), ParseError>((e, 7)));
    assert(parse_and_spec(ts, 0) == Ok::<(ExprView, int), ParseError>((e, 7)));
    assert(or_rest_spec(ts, e, 7) == Ok::<(ExprView, int), ParseError>((e, 7)));
    assert(parse_or_spec(ts, 0) == Ok::<(ExprView, int), ParseError>((e, 7)));
    assert(eval_spec(ta, text) == contains_seq(text, a));
    assert(eval_spec(tb, text) == contains_seq(text, b));
    assert(eval_spec(tc, text) == contains_seq(text, c));
    assert(eval_spec(ab, text) == (contains_seq(text, a) || contains_seq(text, b)));
    assert(eval_spec(e, text) == (eval_spec(ab, text) && eval_spec(tc, text)));
}

/// Malformed token sequences are rejected: an unclosed group `( a AND b`,
/// a trailing operator `a AND`, and a leading operator `AND a`.
pub proof fn lemma_malformed_rejected(a: Seq<char>, b: Seq<char>)
    ensures
        parse_tokens_spec(
            seq![TokenView::LParen, TokenView::Word(a), TokenView::And, TokenView::Word(b)],
        ) == Err::<ExprView, ParseError>(ParseError::MissingCloseParen),
        parse_tokens_spec(seq![TokenView::Word(a), TokenView::And]) == Err::<ExprView, ParseError>(
            ParseError::UnexpectedEnd,
        ),
        parse_tokens_spec(seq![TokenView::And, TokenView::Word(a)]) == Err::<ExprView, ParseError>(
            ParseError::UnexpectedToken,
        ),
{
    let t1 = seq![TokenView::LParen, TokenView::Word(a), TokenView::And, TokenView::Word(b)];
    let ta = ExprView::Term(a);
    let tb = ExprView::Term(b);
    let ab = ExprView::And(Box::new(ta), Box::new(tb));
    assert(parse_primary_spec(t1, 1) == Ok::<(ExprView, int), ParseError>((ta, 2)));
    assert(parse_primary_spec(t1, 3) == Ok::<(ExprView, int), ParseError>((tb, 4)));
    assert(and_rest_spec(t1, ab, 4) == Ok::<(ExprView, int), ParseError>((ab, 4)));
    assert(and_rest_spec(t1, ta, 2) == Ok::<(ExprView, int), ParseError>((ab, 4)));
    assert(parse_and_spec(t1, 1) == Ok::<(ExprView, int), ParseError>((ab, 4)));
    assert(or_rest_spec(t1, ab, 4) == Ok::<(ExprView, int), ParseError>((ab, 4)));
    assert(parse_or_spec(t1, 1) == Ok::<(ExprView, int), ParseError>((ab, 4)));
    assert(parse_primary_spec(t1, 0) == Err::<(ExprView, int), ParseError>(ParseError::MissingCloseParen));
    assert(parse_or_spec(t1, 0) == Err::<(ExprView, int), ParseError>(ParseError::MissingCloseParen));

    let t2 = seq![TokenView::Word(a), TokenView::And];
    assert(parse_primary_spec(t2, 0) == Ok::<(ExprView, int), ParseError>((ta, 1)));
    assert(parse_primary_spec(t2, 2) == Err::<(ExprView, int), ParseError>(ParseError::UnexpectedEnd));
    assert(and_rest_spec(t2, ta, 1) == Err::<(ExprView, int), ParseError>(ParseError::UnexpectedEnd));
    assert(parse_and_spec(t2, 0) == Err::<(ExprView, int), ParseError>(ParseError::UnexpectedEnd));
    assert(parse_or_spec(t2, 0) == Err::<(ExprView, int), ParseError>(ParseError::UnexpectedEnd));

    let t3 = seq![TokenView::And, TokenView::Word(a)];
    assert(parse_primary_spec(t3, 0) == Err::<(ExprView, int), ParseError>(ParseError::UnexpectedToken));
    assert(parse_or_spec(t3, 0) == Err::<(ExprView, int), ParseError>(ParseError::UnexpectedToken));
}

/// Scanning an opening quote and then characters that are not quotes keeps
/// all of them, whitespace included, in the pending term.
proof fn lemma_scan_inside_quotes(p: Seq<char>, k: int)
    requires
        0 <= k <= p.len(),
        forall|i: int| 0 <= i < p.len() ==> p[i] != '"',
    ensures
        scan(seq!['"'] + p.subrange(0, k)) == (ScanState {
            tokens: Seq::empty(),
            buf: p.subrange(0, k),
            quoted: true,
        }),
    decreases k,
{
    let s = seq!['"'] + p.subrange(0, k);
    if k == 0 {
        assert(s.drop_last() =~= Seq::<char>::empty());
        assert(scan(seq!['"']) == scan_step(scan(Seq::<char>::empty()), '"'));
        assert(flush(Seq::<TokenView>::empty(), Seq::<char>::empty()) == Seq::<TokenView>::empty());
        assert(p.subrange(0, 0) =~= Seq::<char>::empty());
    } else {
        lemma_scan_inside_quotes(p, k - 1);
        assert(s.drop_last() =~= seq!['"'] + p.subrange(0, k - 1));
        assert(s.last() == p[k - 1]);
        assert(p.subrange(0, k - 1).push(p[k - 1]) =~= p.subrange(0, k));
    }
}

/// A double-quoted phrase is one term, interior whitespace included: a
/// quoted, quote-free, non-empty `p` tokenizes to the single token of its
/// folded text.
pub proof fn lemma_quoted_phrase_is_one_term(p: Seq<char>)
    requires
        p.len() > 0,
        forall|i: int| 0 <= i < p.len() ==> p[i] != '"',
    ensures
        tokenize_spec(seq!['"'] + p + seq!['"']) == seq![word_token_spec(lower_of(p))],
        !is_and_word(lower_of(p)) && !is_or_word(lower_of(p)) ==> compile_spec(
            seq!['"'] + p + seq!['"'],
        ) == Ok::<ExprView, ParseError>(ExprView::Term(lower_of(p))),
{
    let s = seq!['"'] + p + seq!['"'];
    lemma_scan_inside_quotes(p, p.len() as int);
    assert(p.subrange(0, p.len() as int) =~= p);
    assert(s.drop_last() =~= seq!['"'] + p);
    assert(s.last() == '"');
    let toks = seq![word_token_spec(lower_of(p))];
    assert(Seq::<TokenView>::empty().push(word_token_spec(lower_of(p))) =~= toks);
    assert(scan(s).tokens == toks);
    assert(scan(s).buf.len() == 0);
    if !is_and_word(lower_of(p)) && !is_or_word(lower_of(p)) {
        let t = ExprView::Term(lower_of(p));
        assert(parse_primary_spec(toks, 0) == Ok::<(ExprView, int), ParseError>((t, 1)));
        assert(and_rest_spec(toks, t, 1) == Ok::<(ExprView, int), ParseError>((t, 1)));
        assert(parse_and_spec(toks, 0) == Ok::<(ExprView, int), ParseError>((t, 1)));
        assert(or_rest_spec(toks, t, 1) == Ok::<(ExprView, int), ParseError>((t, 1)));
        assert(parse_or_spec(toks, 0) == Ok::<(ExprView, int), ParseError>((t, 1)));
    }
}

} // verus!
