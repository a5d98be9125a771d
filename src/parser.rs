use vstd::prelude::*;
use crate::ast::{
    BlockStatement, BooleanExpression, CallExpression, ExprModel, Expression, ExpressionStatement,
    FunctionLiteral, Identifier, IfExpression, InfixExpression, IntegerLiteral, LetStatement, Node,
    NodeModel, PrefixExpression, Program, ReturnStatement, Statement, StmtModel, exprs_model,
    names_model, nodes_model,
};
use crate::grammar::{
    ParseState, all_digits, cur, digits_value, expect_peek, expected_message,
    has_prefix, is_digit, kind_text, literal_value, next, no_prefix_message,
    p_block, p_block_loop, p_call_arguments, p_arguments_close, p_arguments_loop, p_expression,
    p_expression_statement, p_function, p_if, p_infix, p_infix_loop, p_integer, p_let,
    p_grouped, p_parameters, p_parameters_loop, p_prefix, p_prefix_operator, p_program, p_program_starts, p_return, p_statement, peek, prec_of, report, skip_semicolon, text_at, tokenize, tokens_model,
};
use crate::lexer::{Lexer, lemma_scan_progress};
use crate::text::{owned, push_str};
use crate::token::{Token, TokenType};

verus! {

broadcast use vstd::std_specs::vec::group_vec_axioms;

// ---------------------------------------------------------------------------
// Literals.

proof fn lemma_digits_value_prefix(s: Seq<char>, k: int)
    requires
        0 <= k <= s.len(),
    ensures
        digits_value(s.subrange(0, k)) <= digits_value(s),
    decreases s.len(),
{
    if k < s.len() {
        let front = s.subrange(0, s.len() - 1);
        assert(front.subrange(0, k) =~= s.subrange(0, k));
        lemma_digits_value_prefix(front, k);
    } else {
        assert(s.subrange(0, k) =~= s);
    }
}

/// The value of a literal of decimal digits, if it fits in 64 bits.
pub fn parse_decimal(s: &str) -> (r: Option<i64>)
    ensures
        r == literal_value(s@),
{
    let n = s.unicode_len();
    if n == 0 {
        return None;
    }
    let mut acc: i64 = 0;
    let mut i: usize = 0;
    assert(s@.subrange(0, 0) =~= Seq::<char>::empty());
    while i < n
        invariant
            n == s@.len(),
            i <= n,
            all_digits(s@.subrange(0, i as int)),
            acc >= 0,
            acc as nat == digits_value(s@.subrange(0, i as int)),
        decreases n - i,
    {
        let c = s.get_char(i);
        if !('0' <= c && c <= '9') {
            assert(!is_digit(s@[i as int]));
            return None;
        }
        let ghost front = s@.subrange(0, i + 1);
        assert(front.subrange(0, i as int) =~= s@.subrange(0, i as int));
        let d = (c as u32 - '0' as u32) as i64;
        assert(digits_value(front) == digits_value(s@.subrange(0, i as int)) * 10 + d);
        let next = match acc.checked_mul(10) {
            Some(m) => m.checked_add(d),
            None => None,
        };
        match next {
            Some(v) => {
                acc = v;
                assert(all_digits(front));
            },
            None => {
                proof {
                    lemma_digits_value_prefix(s@, i + 1);
                    assert(digits_value(front) > i64::MAX) by (nonlinear_arith)
                        requires
                            digits_value(front) == acc * 10 + d,
                            acc >= 0,
                            d >= 0,
                            next is None,
                            next == (if acc * 10 > i64::MAX { None::<i64> } else if acc * 10 + d > i64::MAX { None } else { Some((acc * 10 + d) as i64) }),
                    ;
                }
                return None;
            },
        }
        i = i + 1;
    }
    assert(s@.subrange(0, n as int) =~= s@);
    Some(acc)
}

// ---------------------------------------------------------------------------
// How results of the parser relate to the grammar.

pub open spec fn expr_matches(r: Result<Expression, String>, s: Result<ExprModel, Seq<char>>) -> bool {
    match (r, s) {
        (Ok(e), Ok(m)) => e.model() == m,
        (Err(a), Err(b)) => a@ == b,
        _ => false,
    }
}

pub open spec fn stmt_matches(r: Result<Node, String>, s: Result<StmtModel, Seq<char>>) -> bool {
    match (r, s) {
        (Ok(n), Ok(m)) => n.model() == NodeModel::Stmt(m),
        (Err(a), Err(b)) => a@ == b,
        _ => false,
    }
}

pub open spec fn args_match(r: Result<Vec<Expression>, String>, s: Result<Seq<ExprModel>, Seq<char>>) -> bool {
    match (r, s) {
        (Ok(v), Ok(m)) => exprs_model(v@) == m,
        (Err(a), Err(b)) => a@ == b,
        _ => false,
    }
}

pub open spec fn params_match(r: Result<Vec<Identifier>, String>, s: Result<Seq<Seq<char>>, Seq<char>>) -> bool {
    match (r, s) {
        (Ok(v), Ok(m)) => names_model(v@) == m,
        (Err(a), Err(b)) => a@ == b,
        _ => false,
    }
}

// ---------------------------------------------------------------------------
// The tokens a tree carries.

/// `t` is the token at index `i` of `toks`.
pub open spec fn token_at(t: Token, toks: Seq<Token>, i: int) -> bool {
    0 <= i < toks.len() && t.token_type == toks[i].token_type && t.literal@ == toks[i].literal@
}

/// A name's token is an identifier whose text is the name.
pub open spec fn name_token_ok(x: Identifier) -> bool {
    x.token.token_type == TokenType::IDENT && x.token.literal@ == x.value@
}

/// The token an expression node carries suits the node: an identifier, integer or boolean
/// token for a literal of that text, the operator token for an operator, the keyword for
/// `if` and `fn`, and `(` for a call.
pub open spec fn root_token_ok(e: Expression) -> bool {
    match e {
        Expression::Identifier(x) => name_token_ok(x),
        Expression::IntegerLiteral(x) => x.token.token_type == TokenType::INT
            && literal_value(x.token.literal@) == Some(x.value),
        Expression::BooleanExpression(x) => x.token.token_type == if x.value {
            TokenType::TRUE
        } else {
            TokenType::FALSE
        },
        Expression::PrefixExpression(x) => (x.token.token_type == TokenType::BANG || x.token.token_type
            == TokenType::MINUS) && x.token.literal@ == x.operator@,
        Expression::InfixExpression(x) => prec_of(x.token.token_type) > 0 && x.token.token_type
            != TokenType::LPAREN && x.token.literal@ == x.operator@,
        Expression::BlockStatement(_) => true,
        Expression::IfExpression(x) => x.token.token_type == TokenType::IF,
        Expression::FunctionLiteral(x) => x.token.token_type == TokenType::FUNCTION,
        Expression::CallExpression(x) => x.token.token_type == TokenType::LPAREN,
    }
}

/// Every node below the root carries a suitable token; a parameter's token holds its name.
pub open spec fn inner_tokens_ok(e: Expression) -> bool
    decreases e, 1int,
{
    match e {
        Expression::PrefixExpression(x) => tokens_ok(*x.right),
        Expression::InfixExpression(x) => tokens_ok(*x.left) && tokens_ok(*x.right),
        Expression::BlockStatement(b) => block_tokens_ok(b),
        Expression::IfExpression(x) => tokens_ok(*x.condition) && block_tokens_ok(x.consequence) && match x.alternative {
            Some(b) => block_tokens_ok(b),
            None => true,
        },
        Expression::FunctionLiteral(x) => (forall|i: int|
            0 <= i < x.parameters@.len() ==> (#[trigger] x.parameters@[i]).token.literal@
                == x.parameters@[i].value@) && block_tokens_ok(x.body),
        Expression::CallExpression(x) => tokens_ok(*x.function) && forall|i: int|
            0 <= i < x.arguments@.len() ==> tokens_ok(#[trigger] x.arguments@[i]),
        _ => true,
    }
}

/// Every node of the expression carries a suitable token.
pub open spec fn tokens_ok(e: Expression) -> bool
    decreases e, 2int,
{
    root_token_ok(e) && inner_tokens_ok(e)
}

pub open spec fn block_tokens_ok(b: BlockStatement) -> bool
    decreases b, 0int,
{
    forall|i: int| 0 <= i < b.statements@.len() ==> node_tokens_ok(#[trigger] b.statements@[i])
}

pub open spec fn node_tokens_ok(n: Node) -> bool
    decreases n, 0int,
{
    match n {
        Node::Statement(s) => stmt_tokens_ok(s),
        Node::Expression(e) => tokens_ok(e),
    }
}

/// A statement's token is its keyword, `let` or `return`; a `let` names an identifier.
pub open spec fn stmt_tokens_ok(s: Statement) -> bool
    decreases s, 0int,
{
    match s {
        Statement::LetStatement(x) => x.token.token_type == TokenType::LET && name_token_ok(x.name)
            && tokens_ok(x.value),
        Statement::ReturnStatement(x) => x.token.token_type == TokenType::RETURN && tokens_ok(x.return_value),
        Statement::ExpressionStatement(x) => tokens_ok(*x.expression),
    }
}

proof fn lemma_nodes_model_push(x: Seq<Node>, y: Node)
    ensures
        nodes_model(x.push(y)) == nodes_model(x).push(y.model()),
{
    assert(x.push(y).subrange(0, x.len() as int) =~= x);
}

proof fn lemma_exprs_model_push(x: Seq<Expression>, y: Expression)
    ensures
        exprs_model(x.push(y)) == exprs_model(x).push(y.model()),
{
    assert(x.push(y).subrange(0, x.len() as int) =~= x);
}

proof fn lemma_names_model_push(x: Seq<Identifier>, y: Identifier)
    ensures
        names_model(x.push(y)) == names_model(x).push(y.value@),
{
    assert(x.push(y).subrange(0, x.len() as int) =~= x);
}

fn kind_string(t: TokenType) -> (r: String)
    ensures
        r@ == kind_text(t),
{
    match t {
        TokenType::ILLEGAL => owned("ILLEGAL"),
        TokenType::EOF => owned("EOF"),
        TokenType::IDENT => owned("IDENT"),
        TokenType::INT => owned("INT"),
        TokenType::ASSIGN => owned("ASSIGN"),
        TokenType::EQ => owned("EQ"),
        TokenType::NOTEQ => owned("NOTEQ"),
        TokenType::PLUS => owned("PLUS"),
        TokenType::MINUS => owned("MINUS"),
        TokenType::BANG => owned("BANG"),
        TokenType::ASTERISK => owned("ASTERISK"),
        TokenType::SLASH => owned("SLASH"),
        TokenType::COMMA => owned("COMMA"),
        TokenType::SEMICOLON => owned("SEMICOLON"),
        TokenType::LPAREN => owned("LPAREN"),
        TokenType::RPAREN => owned("RPAREN"),
        TokenType::LBRACE => owned("LBRACE"),
        TokenType::RBRACE => owned("RBRACE"),
        TokenType::LT => owned("LT"),
        TokenType::GT => owned("GT"),
        TokenType::FUNCTION => owned("FUNCTION"),
        TokenType::LET => owned("LET"),
        TokenType::TRUE => owned("TRUE"),
        TokenType::FALSE => owned("FALSE"),
        TokenType::IF => owned("IF"),
        TokenType::ELSE => owned("ELSE"),
        TokenType::RETURN => owned("RETURN"),
    }
}

fn expected_string(want: TokenType, got: TokenType) -> (r: String)
    ensures
        r@ == expected_message(want, got),
{
    let mut s = owned("Expected next token to be ");
    let w = kind_string(want);
    push_str(&mut s, w.as_str());
    push_str(&mut s, ", got ");
    let g = kind_string(got);
    push_str(&mut s, g.as_str());
    push_str(&mut s, " instead");
    s
}

fn no_prefix_string(t: TokenType) -> (r: String)
    ensures
        r@ == no_prefix_message(t),
{
    let mut s = owned("no prefix parse function for ");
    let k = kind_string(t);
    push_str(&mut s, k.as_str());
    s
}

fn precedence_of(t: TokenType) -> (r: u64)
    ensures
        r == prec_of(t),
{
    match t {
        TokenType::EQ | TokenType::NOTEQ => 1,
        TokenType::LT | TokenType::GT => 2,
        TokenType::PLUS | TokenType::MINUS => 3,
        TokenType::ASTERISK | TokenType::SLASH => 4,
        TokenType::LPAREN => 6,
        _ => 0,
    }
}

// ---------------------------------------------------------------------------
// The parser.

/// A precedence-climbing parser over the tokens of one text.
#[derive(Debug)]
pub struct Parser {
    pub tokens: Vec<Token>,
    pub pos: usize,
    pub errors: Vec<String>,
}

impl Parser {
    /// The tokens end with the end-of-input token, which occurs nowhere else, and the
    /// cursor stands on one of them.
    pub open spec fn wf(&self) -> bool {
        &&& self.tokens@.len() >= 1
        &&& self.tokens@[self.tokens@.len() - 1].token_type == TokenType::EOF
        &&& forall|i: int| 0 <= i < self.tokens@.len() - 1 ==> (#[trigger] self.tokens@[i]).token_type != TokenType::EOF
        &&& self.pos < self.tokens@.len()
    }

    pub open spec fn state(&self) -> ParseState {
        ParseState { pos: self.pos as nat, errors: Seq::new(self.errors@.len(), |i: int| self.errors@[i]@) }
    }

    /// Reads every token of the lexer's text, from its cursor to the end of input.
    pub fn new(l: Lexer) -> (p: Parser)
        requires
            l.wf(),
            l.read_position < usize::MAX,
        ensures
            p.wf(),
            tokens_model(p.tokens@) == tokenize(l.text(), l.position as nat),
            p.pos == 0,
            p.errors@.len() == 0,
    {
        let mut l = l;
        let ghost text = l.text();
        let ghost start = l.position as nat;
        let mut tokens: Vec<Token> = Vec::new();
        assert(tokens_model(tokens@) =~= Seq::empty());
        loop
            invariant_except_break
                l.wf(),
                l.text() == text,
                l.read_position < usize::MAX,
                tokens_model(tokens@) + tokenize(text, l.position as nat) == tokenize(text, start),
                forall|i: int| 0 <= i < tokens@.len() ==> (#[trigger] tokens@[i]).token_type != TokenType::EOF,
            ensures
                tokens_model(tokens@) == tokenize(text, start),
                tokens@.len() >= 1,
                tokens@[tokens@.len() - 1].token_type == TokenType::EOF,
                forall|i: int| 0 <= i < tokens@.len() - 1 ==> (#[trigger] tokens@[i]).token_type != TokenType::EOF,
            decreases text.len() - l.position,
        {
            let ghost before = l.position as nat;
            proof {
                lemma_scan_progress(text, before);
            }
            let t = l.next_token();
            let eof = t.token_type == TokenType::EOF;
            let ghost old_tokens = tokens@;
            tokens.push(t);
            assert(tokens_model(tokens@) =~= tokens_model(old_tokens).push((t.token_type, t.literal@)));
            if eof {
                assert(tokenize(text, before) == seq![(t.token_type, t.literal@)]);
                assert(tokens_model(tokens@) =~= tokens_model(old_tokens) + tokenize(text, before));
                break;
            }
            assert(tokenize(text, before) == seq![(t.token_type, t.literal@)] + tokenize(text, l.position as nat));
            assert(tokens_model(tokens@) + tokenize(text, l.position as nat) =~= tokens_model(old_tokens) + tokenize(text, before));
        }
        Parser { tokens, pos: 0, errors: Vec::new() }
    }

    fn cur_kind(&self) -> (r: TokenType)
        requires
            self.wf(),
        ensures
            r == cur(self.tokens@, self.state()),
    {
        self.tokens[self.pos].token_type
    }

    fn peek_kind(&self) -> (r: TokenType)
        requires
            self.wf(),
        ensures
            r == peek(self.tokens@, self.state()),
    {
        if self.pos < self.tokens.len() - 1 {
            self.tokens[self.pos + 1].token_type
        } else {
            TokenType::EOF
        }
    }

    fn cur_token_is(&self, t: TokenType) -> (r: bool)
        requires
            self.wf(),
        ensures
            r == (cur(self.tokens@, self.state()) == t),
    {
        self.cur_kind() == t
    }

    fn peek_token_is(&self, t: TokenType) -> (r: bool)
        requires
            self.wf(),
        ensures
            r == (peek(self.tokens@, self.state()) == t),
    {
        self.peek_kind() == t
    }

    fn cur_literal(&self) -> (r: String)
        requires
            self.wf(),
        ensures
            r@ == text_at(self.tokens@, self.pos as int),
    {
        owned(self.tokens[self.pos].literal.as_str())
    }

    fn cur_token(&self) -> (r: Token)
        requires
            self.wf(),
        ensures
            token_at(r, self.tokens@, self.pos as int),
    {
        self.tokens[self.pos].duplicate()
    }

    fn next_token(&mut self)
        requires
            old(self).wf(),
        ensures
            final(self).wf(),
            final(self).tokens@ == old(self).tokens@,
            final(self).state() == next(old(self).tokens@, old(self).state()),
    {
        if self.pos < self.tokens.len() - 1 {
            self.pos = self.pos + 1;
        }
    }

    fn push_error(&mut self, m: String)
        requires
            old(self).wf(),
        ensures
            final(self).wf(),
            final(self).tokens@ == old(self).tokens@,
            final(self).state() == report(old(self).state(), m@),
    {
        let ghost before = self.state();
        self.errors.push(m);
        assert(self.state().errors =~= before.errors.push(m@));
    }

    fn peek_error(&mut self, t: TokenType)
        requires
            old(self).wf(),
        ensures
            final(self).wf(),
            final(self).tokens@ == old(self).tokens@,
            final(self).state() == report(
                old(self).state(),
                expected_message(t, peek(old(self).tokens@, old(self).state())),
            ),
    {
        let got = self.peek_kind();
        let m = expected_string(t, got);
        self.push_error(m);
    }

    fn expect_peek(&mut self, t: TokenType) -> (r: bool)
        requires
            old(self).wf(),
        ensures
            final(self).wf(),
            final(self).tokens@ == old(self).tokens@,
            (r, final(self).state()) == expect_peek(old(self).tokens@, t, old(self).state()),
    {
        if self.peek_token_is(t) {
            self.next_token();
            true
        } else {
            self.peek_error(t);
            false
        }
    }

    fn skip_semicolon(&mut self)
        requires
            old(self).wf(),
        ensures
            final(self).wf(),
            final(self).tokens@ == old(self).tokens@,
            final(self).state() == skip_semicolon(old(self).tokens@, old(self).state()),
    {
        if self.peek_token_is(TokenType::SEMICOLON) {
            self.next_token();
        }
    }

    fn cur_precedence(&self) -> (r: u64)
        requires
            self.wf(),
        ensures
            r == prec_of(cur(self.tokens@, self.state())),
    {
        precedence_of(self.cur_kind())
    }

    fn peek_precedence(&self) -> (r: u64)
        requires
            self.wf(),
        ensures
            r == prec_of(peek(self.tokens@, self.state())),
    {
        precedence_of(self.peek_kind())
    }

    /// The errors reported so far, in order.
    pub fn errors(&self) -> (r: &Vec<String>)
        ensures
            r == &self.errors,
    {
        &self.errors
    }

    /// The current token as a name.
    pub fn parse_identifier(&mut self) -> (r: Result<Expression, String>)
        requires
            old(self).wf(),
        ensures
            r matches Ok(e) ==> token_at(e.token_spec(), old(self).tokens@, old(self).pos as int) && (cur(old(self).tokens@, old(self).state()) == TokenType::IDENT ==> tokens_ok(e)),
            *final(self) == *old(self),
            r matches Ok(e) && e.model() == ExprModel::Ident(text_at(old(self).tokens@, old(self).pos as int)),
    {
        Ok(Expression::Identifier(Identifier { token: self.cur_token(), value: self.cur_literal() }))
    }

    /// The current token as a boolean: true exactly for the `true` keyword.
    pub fn parse_boolean(&mut self) -> (r: Result<Expression, String>)
        requires
            old(self).wf(),
        ensures
            r matches Ok(e) ==> token_at(e.token_spec(), old(self).tokens@, old(self).pos as int) && (cur(old(self).tokens@, old(self).state()) == TokenType::TRUE || cur(old(self).tokens@, old(self).state()) == TokenType::FALSE ==> tokens_ok(e)),
            *final(self) == *old(self),
            r matches Ok(e) && e.model() == ExprModel::Bool(cur(old(self).tokens@, old(self).state()) == TokenType::TRUE),
    {
        Ok(Expression::BooleanExpression(
            BooleanExpression { token: self.cur_token(), value: self.cur_token_is(TokenType::TRUE) },
        ))
    }

    pub fn parse_integer_literal(&mut self) -> (r: Result<Expression, String>)
        requires
            old(self).wf(),
        ensures
            r matches Ok(e) ==> token_at(e.token_spec(), old(self).tokens@, old(self).pos as int) && (cur(old(self).tokens@, old(self).state()) == TokenType::INT ==> tokens_ok(e)),
            final(self).wf(),
            final(self).tokens@ == old(self).tokens@,
            expr_matches(r, p_integer(old(self).tokens@, old(self).state()).0),
            final(self).state() == p_integer(old(self).tokens@, old(self).state()).1,
    {
        let lit = self.cur_literal();
        match parse_decimal(lit.as_str()) {
            Some(n) => Ok(Expression::IntegerLiteral(IntegerLiteral { token: self.cur_token(), value: n })),
            None => {
                let mut m = owned("Could not parse ");
                push_str(&mut m, lit.as_str());
                push_str(&mut m, " as integer");
                let m2 = owned(m.as_str());
                self.push_error(m);
                Err(m2)
            },
        }
    }
}


fn has_prefix_rule(t: TokenType) -> (r: bool)
    ensures
        r == has_prefix(t),
{
    match t {
        TokenType::IDENT | TokenType::INT | TokenType::BANG | TokenType::MINUS | TokenType::TRUE
        | TokenType::FALSE | TokenType::LPAREN | TokenType::IF | TokenType::FUNCTION => true,
        _ => false,
    }
}

/// The parser after a step keeps its tokens and its shape.
pub open spec fn keeps_tokens(a: Parser, b: Parser) -> bool {
    b.wf() && b.tokens@ == a.tokens@
}

impl Parser {
    /// An expression whose operators all bind tighter than `precedence`.
    pub fn parse_expression(&mut self, precedence: u64) -> (r: Result<Expression, String>)
        requires
            old(self).wf(),
        ensures
            r matches Ok(e) ==> tokens_ok(e),
            keeps_tokens(*old(self), *final(self)),
            expr_matches(r, p_expression(old(self).tokens@, precedence as nat, old(self).state()).0),
            final(self).state() == p_expression(old(self).tokens@, precedence as nat, old(self).state()).1,
        decreases old(self).tokens@.len() - old(self).pos, 5nat,
    {
        let k = self.cur_kind();
        if !has_prefix_rule(k) {
            let m = no_prefix_string(k);
            let m2 = owned(m.as_str());
            self.push_error(m);
            return Err(m2);
        }
        let start = self.pos;
        match self.parse_prefix() {
            Err(m) => Err(m),
            Ok(left) => {
                if start <= self.pos {
                    self.parse_infix_loop(precedence, left)
                } else {
                    Ok(left)
                }
            },
        }
    }

    fn parse_infix_loop(&mut self, precedence: u64, left: Expression) -> (r: Result<Expression, String>)
        requires
            tokens_ok(left),
            old(self).wf(),
        ensures
            r matches Ok(e) ==> tokens_ok(e),
            keeps_tokens(*old(self), *final(self)),
            expr_matches(r, p_infix_loop(old(self).tokens@, precedence as nat, left.model(), old(self).state()).0),
            final(self).state() == p_infix_loop(old(self).tokens@, precedence as nat, left.model(), old(self).state()).1,
        decreases old(self).tokens@.len() - old(self).pos, 4nat,
    {
        if !self.peek_token_is(TokenType::SEMICOLON) && precedence < self.peek_precedence() {
            let start = self.pos;
            let r = if self.peek_token_is(TokenType::LPAREN) {
                self.parse_call_expression(left)
            } else {
                self.parse_infix_expression(left)
            };
            match r {
                Err(m) => Err(m),
                Ok(l2) => {
                    if start < self.pos {
                        self.parse_infix_loop(precedence, l2)
                    } else {
                        Ok(l2)
                    }
                },
            }
        } else {
            Ok(left)
        }
    }

    /// A call of `function`: the next token is the `(` of its arguments.
    pub fn parse_call_expression(&mut self, function: Expression) -> (r: Result<Expression, String>)
        requires
            old(self).wf(),
        ensures
            tokens_ok(function) && peek(old(self).tokens@, old(self).state()) == TokenType::LPAREN ==> (r matches Ok(e)
                ==> tokens_ok(e)),
            keeps_tokens(*old(self), *final(self)),
            expr_matches(r, p_infix(old(self).tokens@, function.model(), old(self).state()).0),
            final(self).state() == p_infix(old(self).tokens@, function.model(), old(self).state()).1,
        decreases old(self).tokens@.len() - old(self).pos, 3nat,
    {
        self.parse_infix_expression(function)
    }

    /// An operator, or a call, with `left` as what stands before it; the next token is the
    /// operator.
    pub fn parse_infix_expression(&mut self, left: Expression) -> (r: Result<Expression, String>)
        requires
            old(self).wf(),
        ensures
            tokens_ok(left) && prec_of(peek(old(self).tokens@, old(self).state())) > 0 ==> (r matches Ok(e)
                ==> tokens_ok(e)),
            keeps_tokens(*old(self), *final(self)),
            expr_matches(r, p_infix(old(self).tokens@, left.model(), old(self).state()).0),
            final(self).state() == p_infix(old(self).tokens@, left.model(), old(self).state()).1,
        decreases old(self).tokens@.len() - old(self).pos, 2nat,
    {
        let start = self.pos;
        self.next_token();
        if !(start < self.pos) {
            return Ok(left);
        }
        let token = self.cur_token();
        if self.cur_token_is(TokenType::LPAREN) {
            match self.parse_call_arguments() {
                Err(m) => Err(m),
                Ok(arguments) => Ok(Expression::CallExpression(
                    CallExpression { token, function: Box::new(left), arguments },
                )),
            }
        } else {
            let operator = self.cur_literal();
            let precedence = self.cur_precedence();
            let at = self.pos;
            self.next_token();
            if !(at < self.pos) {
                return Ok(left);
            }
            match self.parse_expression(precedence) {
                Err(m) => Err(m),
                Ok(right) => Ok(Expression::InfixExpression(
                    InfixExpression { token, left: Box::new(left), operator, right: Box::new(right) },
                )),
            }
        }
    }

    fn parse_prefix(&mut self) -> (r: Result<Expression, String>)
        requires
            old(self).wf(),
        ensures
            r matches Ok(e) ==> tokens_ok(e),
            keeps_tokens(*old(self), *final(self)),
            expr_matches(r, p_prefix(old(self).tokens@, old(self).state()).0),
            final(self).state() == p_prefix(old(self).tokens@, old(self).state()).1,
        decreases old(self).tokens@.len() - old(self).pos, 4nat,
    {
        let k = self.cur_kind();
        match k {
            TokenType::IDENT => self.parse_identifier(),
            TokenType::INT => self.parse_integer_literal(),
            TokenType::TRUE | TokenType::FALSE => self.parse_boolean(),
            TokenType::BANG | TokenType::MINUS => self.parse_prefix_expression(),
            TokenType::LPAREN => self.parse_grouped_expression(),
            TokenType::IF => self.parse_if_expression(),
            TokenType::FUNCTION => self.parse_function_literal(),
            _ => {
                let m = no_prefix_string(k);
                let m2 = owned(m.as_str());
                self.push_error(m);
                Err(m2)
            },
        }
    }

    fn parse_prefix_expression(&mut self) -> (r: Result<Expression, String>)
        requires
            old(self).wf(),
        ensures
            r matches Ok(e) ==> e is PrefixExpression && inner_tokens_ok(e) && token_at(e.token_spec(), old(self).tokens@, old(self).pos as int)
                && e->PrefixExpression_0.operator@ == e->PrefixExpression_0.token.literal@,
            keeps_tokens(*old(self), *final(self)),
            expr_matches(r, p_prefix_operator(old(self).tokens@, old(self).state()).0),
            final(self).state() == p_prefix_operator(old(self).tokens@, old(self).state()).1,
        decreases old(self).tokens@.len() - old(self).pos, 3nat,
    {
        let token = self.cur_token();
        let operator = self.cur_literal();
        let start = self.pos;
        self.next_token();
        if !(start < self.pos) {
            return Err(no_prefix_string(TokenType::EOF));
        }
        match self.parse_expression(5) {
            Err(m) => Err(m),
            Ok(right) => Ok(Expression::PrefixExpression(
                PrefixExpression { token, operator, right: Box::new(right) },
            )),
        }
    }

    /// An expression in parentheses; the current token is the `(`.
    pub fn parse_grouped_expression(&mut self) -> (r: Result<Expression, String>)
        requires
            old(self).wf(),
        ensures
            r matches Ok(e) ==> tokens_ok(e),
            keeps_tokens(*old(self), *final(self)),
            expr_matches(r, p_grouped(old(self).tokens@, old(self).state()).0),
            final(self).state() == p_grouped(old(self).tokens@, old(self).state()).1,
        decreases old(self).tokens@.len() - old(self).pos, 3nat,
    {
        let start = self.pos;
        self.next_token();
        if !(start < self.pos) {
            return Err(no_prefix_string(TokenType::EOF));
        }
        match self.parse_expression(0) {
            Err(m) => Err(m),
            Ok(e) => {
                let got = self.peek_kind();
                if self.expect_peek(TokenType::RPAREN) {
                    Ok(e)
                } else {
                    Err(expected_string(TokenType::RPAREN, got))
                }
            },
        }
    }

    /// `if (condition) { ... }` with an optional `else { ... }`; the current token is `if`.
    pub fn parse_if_expression(&mut self) -> (r: Result<Expression, String>)
        requires
            old(self).wf(),
        ensures
            r matches Ok(e) ==> e is IfExpression && inner_tokens_ok(e) && token_at(e.token_spec(), old(self).tokens@, old(self).pos as int),
            keeps_tokens(*old(self), *final(self)),
            expr_matches(r, p_if(old(self).tokens@, old(self).state()).0),
            final(self).state() == p_if(old(self).tokens@, old(self).state()).1,
        decreases old(self).tokens@.len() - old(self).pos, 3nat,
    {
        let token = self.cur_token();
        let start = self.pos;
        let got = self.peek_kind();
        if !self.expect_peek(TokenType::LPAREN) {
            return Err(expected_string(TokenType::LPAREN, got));
        }
        self.next_token();
        if !(start < self.pos) {
            return Err(no_prefix_string(TokenType::EOF));
        }
        let condition = match self.parse_expression(0) {
            Err(m) => {
                return Err(m);
            },
            Ok(c) => c,
        };
        let got = self.peek_kind();
        if !self.expect_peek(TokenType::RPAREN) {
            return Err(expected_string(TokenType::RPAREN, got));
        }
        let got = self.peek_kind();
        if !self.expect_peek(TokenType::LBRACE) {
            return Err(expected_string(TokenType::LBRACE, got));
        }
        if !(start < self.pos) {
            return Err(no_prefix_string(TokenType::EOF));
        }
        let consequence = self.parse_block_statement();
        if self.peek_token_is(TokenType::ELSE) {
            self.next_token();
            let got = self.peek_kind();
            if !self.expect_peek(TokenType::LBRACE) {
                return Err(expected_string(TokenType::LBRACE, got));
            }
            if !(start < self.pos) {
                return Err(no_prefix_string(TokenType::EOF));
            }
            let alternative = self.parse_block_statement();
            Ok(Expression::IfExpression(
                IfExpression { token, condition: Box::new(condition), consequence, alternative: Some(alternative) },
            ))
        } else {
            Ok(Expression::IfExpression(
                IfExpression { token, condition: Box::new(condition), consequence, alternative: None },
            ))
        }
    }

    /// `fn (names) { ... }`; the current token is `fn`.
    pub fn parse_function_literal(&mut self) -> (r: Result<Expression, String>)
        requires
            old(self).wf(),
        ensures
            r matches Ok(e) ==> e is FunctionLiteral && inner_tokens_ok(e) && token_at(e.token_spec(), old(self).tokens@, old(self).pos as int),
            keeps_tokens(*old(self), *final(self)),
            expr_matches(r, p_function(old(self).tokens@, old(self).state()).0),
            final(self).state() == p_function(old(self).tokens@, old(self).state()).1,
        decreases old(self).tokens@.len() - old(self).pos, 3nat,
    {
        let token = self.cur_token();
        let start = self.pos;
        let got = self.peek_kind();
        if !self.expect_peek(TokenType::LPAREN) {
            return Err(expected_string(TokenType::LPAREN, got));
        }
        let parameters = match self.parse_function_parameters() {
            Err(m) => {
                return Err(m);
            },
            Ok(ps) => ps,
        };
        let got = self.peek_kind();
        if !self.expect_peek(TokenType::LBRACE) {
            return Err(expected_string(TokenType::LBRACE, got));
        }
        if !(start < self.pos) {
            return Err(no_prefix_string(TokenType::EOF));
        }
        let body = self.parse_block_statement();
        Ok(Expression::FunctionLiteral(FunctionLiteral { token, parameters, body }))
    }

    fn identifier_here(&self) -> (r: Identifier)
        requires
            self.wf(),
        ensures
            token_at(r.token, self.tokens@, self.pos as int),
            r.token.literal@ == r.value@,
            r.value@ == text_at(self.tokens@, self.pos as int),
    {
        Identifier { token: self.cur_token(), value: self.cur_literal() }
    }

    /// Comma-separated names up to `)`; the current token is the `(`.
    pub fn parse_function_parameters(&mut self) -> (r: Result<Vec<Identifier>, String>)
        requires
            old(self).wf(),
        ensures
            r matches Ok(v) ==> forall|k: int| 0 <= k < v@.len() ==> (#[trigger] v@[k]).token.literal@ == v@[k].value@,
            keeps_tokens(*old(self), *final(self)),
            params_match(r, p_parameters(old(self).tokens@, old(self).state()).0),
            final(self).state() == p_parameters(old(self).tokens@, old(self).state()).1,
    {
        let mut identifiers: Vec<Identifier> = Vec::new();
        if self.peek_token_is(TokenType::RPAREN) {
            self.next_token();
            assert(names_model(identifiers@) =~= Seq::empty());
            return Ok(identifiers);
        }
        self.next_token();
        let first = self.identifier_here();
        identifiers.push(first);
        proof {
            lemma_names_model_push(Seq::empty(), first);
            assert(Seq::<Identifier>::empty().push(first) =~= identifiers@);
            assert(names_model(Seq::<Identifier>::empty()) =~= Seq::empty());
        }
        let ghost toks = self.tokens@;
        let ghost st1 = self.state();
        loop
            invariant_except_break
                forall|k: int| 0 <= k < identifiers@.len() ==> (#[trigger] identifiers@[k]).token.literal@ == identifiers@[k].value@,
                self.wf(),
                self.tokens@ == toks,
                p_parameters_loop(toks, seq![text_at(toks, st1.pos as int)], st1)
                    == p_parameters_loop(toks, names_model(identifiers@), self.state()),
            ensures
                forall|k: int| 0 <= k < identifiers@.len() ==> (#[trigger] identifiers@[k]).token.literal@ == identifiers@[k].value@,
                self.wf(),
                self.tokens@ == toks,
                p_parameters_loop(toks, seq![text_at(toks, st1.pos as int)], st1)
                    == (names_model(identifiers@), self.state()),
            decreases self.tokens@.len() - self.pos,
        {
            if self.peek_token_is(TokenType::COMMA) {
                let start = self.pos;
                self.next_token();
                self.next_token();
                if !(start < self.pos) {
                    break;
                }
                let id = self.identifier_here();
                proof {
                    lemma_names_model_push(identifiers@, id);
                }
                identifiers.push(id);
            } else {
                break;
            }
        }
        let got = self.peek_kind();
        if self.expect_peek(TokenType::RPAREN) {
            Ok(identifiers)
        } else {
            Err(expected_string(TokenType::RPAREN, got))
        }
    }

    /// Comma-separated expressions up to `)`; the current token is the `(`.
    pub fn parse_call_arguments(&mut self) -> (r: Result<Vec<Expression>, String>)
        requires
            old(self).wf(),
        ensures
            r matches Ok(v) ==> forall|k: int| 0 <= k < v@.len() ==> tokens_ok(#[trigger] v@[k]),
            keeps_tokens(*old(self), *final(self)),
            args_match(r, p_call_arguments(old(self).tokens@, old(self).state()).0),
            final(self).state() == p_call_arguments(old(self).tokens@, old(self).state()).1,
        decreases old(self).tokens@.len() - old(self).pos, 1nat,
    {
        let mut args: Vec<Expression> = Vec::new();
        if self.peek_token_is(TokenType::RPAREN) {
            self.next_token();
            assert(exprs_model(args@) =~= Seq::empty());
            return Ok(args);
        }
        let start = self.pos;
        self.next_token();
        if !(start < self.pos) {
            return Err(no_prefix_string(TokenType::EOF));
        }
        let at = self.pos;
        let first = match self.parse_expression(0) {
            Err(m) => {
                return Err(m);
            },
            Ok(e) => e,
        };
        proof {
            lemma_exprs_model_push(Seq::empty(), first);
            assert(Seq::<Expression>::empty().push(first) =~= seq![first]);
            assert(exprs_model(Seq::<Expression>::empty()) =~= Seq::empty());
        }
        args.push(first);
        if !(at <= self.pos) {
            return Ok(args);
        }
        let ghost toks = self.tokens@;
        let ghost st2 = self.state();
        let ghost e0 = first.model();
        loop
            invariant_except_break
                forall|k: int| 0 <= k < args@.len() ==> tokens_ok(#[trigger] args@[k]),
                self.wf(),
                self.tokens@ == toks,
                toks == old(self).tokens@,
                start == old(self).pos,
                start < self.pos,
                p_call_arguments(toks, old(self).state()) == p_arguments_close(toks, p_arguments_loop(toks, seq![e0], st2)),
                p_arguments_loop(toks, seq![e0], st2) == p_arguments_loop(toks, exprs_model(args@), self.state()),
            ensures
                forall|k: int| 0 <= k < args@.len() ==> tokens_ok(#[trigger] args@[k]),
                self.wf(),
                self.tokens@ == toks,
                p_call_arguments(toks, old(self).state()) == p_arguments_close(toks, p_arguments_loop(toks, seq![e0], st2)),
                p_arguments_loop(toks, seq![e0], st2) == (Ok::<Seq<ExprModel>, Seq<char>>(exprs_model(args@)), self.state()),
            decreases self.tokens@.len() - self.pos,
        {
            if self.peek_token_is(TokenType::COMMA) {
                let before = self.pos;
                self.next_token();
                self.next_token();
                if !(before < self.pos) {
                    break;
                }
                let here = self.pos;
                match self.parse_expression(0) {
                    Err(m) => {
                        return Err(m);
                    },
                    Ok(e) => {
                        proof {
                            lemma_exprs_model_push(args@, e);
                        }
                        args.push(e);
                        if !(here <= self.pos) {
                            break;
                        }
                    },
                }
            } else {
                break;
            }
        }
        let got = self.peek_kind();
        if self.expect_peek(TokenType::RPAREN) {
            Ok(args)
        } else {
            Err(expected_string(TokenType::RPAREN, got))
        }
    }

    /// `{ statements }`; the current token is the `{`. Statements that fail are left out.
    pub fn parse_block_statement(&mut self) -> (r: BlockStatement)
        requires
            old(self).wf(),
        ensures
            block_tokens_ok(r),
            token_at(r.token, old(self).tokens@, old(self).pos as int),
            keeps_tokens(*old(self), *final(self)),
            r.model() == p_block(old(self).tokens@, old(self).state()).0,
            final(self).state() == p_block(old(self).tokens@, old(self).state()).1,
        decreases old(self).tokens@.len() - old(self).pos, 9nat,
    {
        let token = self.cur_token();
        let start = self.pos;
        let mut statements: Vec<Node> = Vec::new();
        self.next_token();
        assert(nodes_model(statements@) =~= Seq::empty());
        if !(start < self.pos) {
            return BlockStatement { token, statements };
        }
        let ghost toks = self.tokens@;
        let ghost st1 = self.state();
        loop
            invariant_except_break
                forall|k: int| 0 <= k < statements@.len() ==> (#[trigger] statements@[k]) is Statement && node_tokens_ok(statements@[k]),
                self.wf(),
                self.tokens@ == toks,
                toks == old(self).tokens@,
                start == old(self).pos,
                start < self.pos,
                p_block_loop(toks, Seq::empty(), st1) == p_block_loop(toks, nodes_model(statements@), self.state()),
            ensures
                forall|k: int| 0 <= k < statements@.len() ==> (#[trigger] statements@[k]) is Statement && node_tokens_ok(statements@[k]),
                self.wf(),
                self.tokens@ == toks,
                p_block_loop(toks, Seq::empty(), st1) == (nodes_model(statements@), self.state()),
            decreases self.tokens@.len() - self.pos,
        {
            if !self.cur_token_is(TokenType::RBRACE) && !self.cur_token_is(TokenType::EOF) {
                let before = self.pos;
                match self.parse_statement() {
                    Ok(n) => {
                        proof {
                            lemma_nodes_model_push(statements@, n);
                        }
                        statements.push(n);
                    },
                    Err(_) => {},
                }
                self.next_token();
                if !(before < self.pos) {
                    break;
                }
            } else {
                break;
            }
        }
        BlockStatement { token, statements }
    }

    fn parse_statement(&mut self) -> (r: Result<Node, String>)
        requires
            old(self).wf(),
        ensures
            r matches Ok(n) ==> n is Statement && stmt_tokens_ok(n->Statement_0) && token_at(n->Statement_0.token_spec(), old(self).tokens@, old(self).pos as int),
            keeps_tokens(*old(self), *final(self)),
            stmt_matches(r, p_statement(old(self).tokens@, old(self).state()).0),
            final(self).state() == p_statement(old(self).tokens@, old(self).state()).1,
        decreases old(self).tokens@.len() - old(self).pos, 7nat,
    {
        if self.cur_token_is(TokenType::LET) {
            self.parse_let_statement()
        } else if self.cur_token_is(TokenType::RETURN) {
            self.parse_return_statement()
        } else {
            self.parse_expression_statement()
        }
    }

    fn parse_let_statement(&mut self) -> (r: Result<Node, String>)
        requires
            old(self).wf(),
        ensures
            r matches Ok(n) ==> n is Statement && token_at(n->Statement_0.token_spec(), old(self).tokens@, old(self).pos as int)
                && (cur(old(self).tokens@, old(self).state()) == TokenType::LET ==> stmt_tokens_ok(n->Statement_0)),
            keeps_tokens(*old(self), *final(self)),
            stmt_matches(r, p_let(old(self).tokens@, old(self).state()).0),
            final(self).state() == p_let(old(self).tokens@, old(self).state()).1,
        decreases old(self).tokens@.len() - old(self).pos, 6nat,
    {
        let token = self.cur_token();
        let start = self.pos;
        let got = self.peek_kind();
        if !self.expect_peek(TokenType::IDENT) {
            return Err(expected_string(TokenType::IDENT, got));
        }
        let name = self.identifier_here();
        let got = self.peek_kind();
        if !self.expect_peek(TokenType::ASSIGN) {
            return Err(expected_string(TokenType::ASSIGN, got));
        }
        self.next_token();
        if !(start < self.pos) {
            return Err(no_prefix_string(TokenType::EOF));
        }
        match self.parse_expression(0) {
            Err(m) => Err(m),
            Ok(value) => {
                self.skip_semicolon();
                Ok(Node::Statement(Statement::LetStatement(LetStatement { token, name, value })))
            },
        }
    }

    fn parse_return_statement(&mut self) -> (r: Result<Node, String>)
        requires
            old(self).wf(),
        ensures
            r matches Ok(n) ==> n is Statement && token_at(n->Statement_0.token_spec(), old(self).tokens@, old(self).pos as int)
                && (cur(old(self).tokens@, old(self).state()) == TokenType::RETURN ==> stmt_tokens_ok(n->Statement_0)),
            keeps_tokens(*old(self), *final(self)),
            stmt_matches(r, p_return(old(self).tokens@, old(self).state()).0),
            final(self).state() == p_return(old(self).tokens@, old(self).state()).1,
        decreases old(self).tokens@.len() - old(self).pos, 6nat,
    {
        let token = self.cur_token();
        let start = self.pos;
        self.next_token();
        if !(start < self.pos) {
            return Err(no_prefix_string(TokenType::EOF));
        }
        match self.parse_expression(0) {
            Err(m) => Err(m),
            Ok(return_value) => {
                self.skip_semicolon();
                Ok(Node::Statement(Statement::ReturnStatement(ReturnStatement { token, return_value })))
            },
        }
    }

    fn parse_expression_statement(&mut self) -> (r: Result<Node, String>)
        requires
            old(self).wf(),
        ensures
            r matches Ok(n) ==> n is Statement && stmt_tokens_ok(n->Statement_0) && token_at(n->Statement_0.token_spec(), old(self).tokens@, old(self).pos as int),
            keeps_tokens(*old(self), *final(self)),
            stmt_matches(r, p_expression_statement(old(self).tokens@, old(self).state()).0),
            final(self).state() == p_expression_statement(old(self).tokens@, old(self).state()).1,
        decreases old(self).tokens@.len() - old(self).pos, 6nat,
    {
        let token = self.cur_token();
        match self.parse_expression(0) {
            Err(m) => Err(m),
            Ok(e) => {
                self.skip_semicolon();
                Ok(Node::Statement(
                    Statement::ExpressionStatement(ExpressionStatement { token, expression: Box::new(e) }),
                ))
            },
        }
    }

    /// The whole token stream as a program. A statement that fails is left out, and the
    /// reason is among `errors()`.
    pub fn parse_program(&mut self) -> (r: Program)
        requires
            old(self).wf(),
        ensures
            forall|k: int| 0 <= k < r.statements@.len() ==> (#[trigger] r.statements@[k]) is Statement && node_tokens_ok(r.statements@[k]),
            p_program_starts(old(self).tokens@, Seq::empty(), old(self).state()).len() == r.statements@.len(),
            forall|k: int| 0 <= k < r.statements@.len() ==> token_at(
                (#[trigger] r.statements@[k])->Statement_0.token_spec(),
                old(self).tokens@,
                p_program_starts(old(self).tokens@, Seq::empty(), old(self).state())[k] as int,
            ),
            keeps_tokens(*old(self), *final(self)),
            r.model() == p_program(old(self).tokens@, Seq::empty(), old(self).state()).0,
            final(self).state() == p_program(old(self).tokens@, Seq::empty(), old(self).state()).1,
    {
        let mut statements: Vec<Node> = Vec::new();
        let ghost mut starts: Seq<nat> = Seq::empty();
        let ghost toks = self.tokens@;
        let ghost st0 = self.state();
        assert(nodes_model(statements@) =~= Seq::empty());
        loop
            invariant_except_break
                starts.len() == statements@.len(),
                forall|k: int| 0 <= k < statements@.len() ==> token_at(
                    (#[trigger] statements@[k])->Statement_0.token_spec(),
                    toks,
                    starts[k] as int,
                ),
                p_program_starts(toks, Seq::empty(), st0) == p_program_starts(toks, starts, self.state()),
                forall|k: int| 0 <= k < statements@.len() ==> (#[trigger] statements@[k]) is Statement && node_tokens_ok(statements@[k]),
                self.wf(),
                self.tokens@ == toks,
                p_program(toks, Seq::empty(), st0) == p_program(toks, nodes_model(statements@), self.state()),
            ensures
                starts.len() == statements@.len(),
                forall|k: int| 0 <= k < statements@.len() ==> token_at(
                    (#[trigger] statements@[k])->Statement_0.token_spec(),
                    toks,
                    starts[k] as int,
                ),
                p_program_starts(toks, Seq::empty(), st0) == starts,
                forall|k: int| 0 <= k < statements@.len() ==> (#[trigger] statements@[k]) is Statement && node_tokens_ok(statements@[k]),
                self.wf(),
                self.tokens@ == toks,
                p_program(toks, Seq::empty(), st0) == (nodes_model(statements@), self.state()),
            decreases self.tokens@.len() - self.pos,
        {
            if !self.cur_token_is(TokenType::EOF) {
                let before = self.pos;
                match self.parse_statement() {
                    Ok(n) => {
                        proof {
                            lemma_nodes_model_push(statements@, n);
                        }
                        statements.push(n);
                        proof {
                            starts = starts.push(before as nat);
                        }
                    },
                    Err(_) => {},
                }
                self.next_token();
                if !(before < self.pos) {
                    break;
                }
            } else {
                break;
            }
        }
        Program { statements }
    }
}

} // verus!
