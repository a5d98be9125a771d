use vstd::prelude::*;
use crate::ast::{ExprModel, NodeModel, StmtModel};
use crate::lexer::scan;
use crate::token::{Token, TokenType};

verus! {

// ---------------------------------------------------------------------------
// The token stream a text yields.

/// The tokens scanned from position `i` on, up to and including the end-of-input token.
pub open spec fn tokenize(s: Seq<char>, i: nat) -> Seq<(TokenType, Seq<char>)>
    decreases s.len() - i,
{
    let (k, lit, j) = scan(s, i);
    if k != TokenType::EOF && i < j <= s.len() {
        seq![(k, lit)] + tokenize(s, j)
    } else {
        seq![(k, lit)]
    }
}

pub open spec fn tokens_model(toks: Seq<Token>) -> Seq<(TokenType, Seq<char>)> {
    Seq::new(toks.len(), |i: int| (toks[i].token_type, toks[i].literal@))
}

// ---------------------------------------------------------------------------
// Reading the token stream.

/// Where the parser stands and what it has reported so far.
pub struct ParseState {
    pub pos: nat,
    pub errors: Seq<Seq<char>>,
}

pub open spec fn kind_at(toks: Seq<Token>, i: int) -> TokenType {
    if 0 <= i < toks.len() {
        toks[i].token_type
    } else {
        TokenType::EOF
    }
}

pub open spec fn text_at(toks: Seq<Token>, i: int) -> Seq<char> {
    if 0 <= i < toks.len() {
        toks[i].literal@
    } else {
        Seq::empty()
    }
}

pub open spec fn cur(toks: Seq<Token>, st: ParseState) -> TokenType {
    kind_at(toks, st.pos as int)
}

pub open spec fn peek(toks: Seq<Token>, st: ParseState) -> TokenType {
    kind_at(toks, st.pos + 1int)
}

/// One token on; the last token, end of input, is never left.
pub open spec fn next(toks: Seq<Token>, st: ParseState) -> ParseState {
    if st.pos + 1 < toks.len() {
        ParseState { pos: st.pos + 1, ..st }
    } else {
        st
    }
}

pub open spec fn report(st: ParseState, m: Seq<char>) -> ParseState {
    ParseState { errors: st.errors.push(m), ..st }
}

/// Whether `st2` lies strictly further on than `st`, and still within the tokens.
pub open spec fn further(toks: Seq<Token>, st: ParseState, st2: ParseState) -> bool {
    st.pos < st2.pos <= toks.len()
}

pub open spec fn kind_text(t: TokenType) -> Seq<char> {
    match t {
        TokenType::ILLEGAL => "ILLEGAL"@,
        TokenType::EOF => "EOF"@,
        TokenType::IDENT => "IDENT"@,
        TokenType::INT => "INT"@,
        TokenType::ASSIGN => "ASSIGN"@,
        TokenType::EQ => "EQ"@,
        TokenType::NOTEQ => "NOTEQ"@,
        TokenType::PLUS => "PLUS"@,
        TokenType::MINUS => "MINUS"@,
        TokenType::BANG => "BANG"@,
        TokenType::ASTERISK => "ASTERISK"@,
        TokenType::SLASH => "SLASH"@,
        TokenType::COMMA => "COMMA"@,
        TokenType::SEMICOLON => "SEMICOLON"@,
        TokenType::LPAREN => "LPAREN"@,
        TokenType::RPAREN => "RPAREN"@,
        TokenType::LBRACE => "LBRACE"@,
        TokenType::RBRACE => "RBRACE"@,
        TokenType::LT => "LT"@,
        TokenType::GT => "GT"@,
        TokenType::FUNCTION => "FUNCTION"@,
        TokenType::LET => "LET"@,
        TokenType::TRUE => "TRUE"@,
        TokenType::FALSE => "FALSE"@,
        TokenType::IF => "IF"@,
        TokenType::ELSE => "ELSE"@,
        TokenType::RETURN => "RETURN"@,
    }
}

pub open spec fn expected_message(want: TokenType, got: TokenType) -> Seq<char> {
    "Expected next token to be "@ + kind_text(want) + ", got "@ + kind_text(got) + " instead"@
}

pub open spec fn no_prefix_message(t: TokenType) -> Seq<char> {
    "no prefix parse function for "@ + kind_text(t)
}

pub open spec fn bad_integer_message(lit: Seq<char>) -> Seq<char> {
    "Could not parse "@ + lit + " as integer"@
}

/// Steps onto the next token if it is of kind `t`; otherwise reports what came instead.
pub open spec fn expect_peek(toks: Seq<Token>, t: TokenType, st: ParseState) -> (bool, ParseState) {
    if peek(toks, st) == t {
        (true, next(toks, st))
    } else {
        (false, report(st, expected_message(t, peek(toks, st))))
    }
}

// ---------------------------------------------------------------------------
// Binding power.

pub open spec fn prec_lowest() -> nat {
    0
}

pub open spec fn prec_prefix() -> nat {
    5
}

/// Binding power of an operator token, from loosest to tightest: equality, comparison,
/// sum, product, (prefix), call. Zero for tokens that continue no expression.
pub open spec fn prec_of(t: TokenType) -> nat {
    match t {
        TokenType::EQ | TokenType::NOTEQ => 1,
        TokenType::LT | TokenType::GT => 2,
        TokenType::PLUS | TokenType::MINUS => 3,
        TokenType::ASTERISK | TokenType::SLASH => 4,
        TokenType::LPAREN => 6,
        _ => 0,
    }
}

pub open spec fn has_prefix(t: TokenType) -> bool {
    match t {
        TokenType::IDENT | TokenType::INT | TokenType::BANG | TokenType::MINUS | TokenType::TRUE
        | TokenType::FALSE | TokenType::LPAREN | TokenType::IF | TokenType::FUNCTION => true,
        _ => false,
    }
}

// ---------------------------------------------------------------------------
// Integer literals.

pub open spec fn is_digit(c: char) -> bool {
    '0' <= c <= '9'
}

pub open spec fn all_digits(s: Seq<char>) -> bool {
    forall|i: int| 0 <= i < s.len() ==> is_digit(#[trigger] s[i])
}

/// The number a string of decimal digits denotes.
pub open spec fn digits_value(s: Seq<char>) -> nat
    decreases s.len(),
{
    if s.len() == 0 {
        0
    } else {
        digits_value(s.subrange(0, s.len() - 1)) * 10 + (s[s.len() - 1] as nat - '0' as nat) as nat
    }
}

/// The value of a literal: a non-empty run of decimal digits within the 64-bit range.
pub open spec fn literal_value(s: Seq<char>) -> Option<i64> {
    if s.len() > 0 && all_digits(s) && digits_value(s) <= i64::MAX {
        Some(digits_value(s) as i64)
    } else {
        None
    }
}

pub open spec fn p_integer(toks: Seq<Token>, st: ParseState) -> (Result<ExprModel, Seq<char>>, ParseState) {
    let lit = text_at(toks, st.pos as int);
    match literal_value(lit) {
        Some(n) => (Ok(ExprModel::Int(n)), st),
        None => (Err(bad_integer_message(lit)), report(st, bad_integer_message(lit))),
    }
}

// ---------------------------------------------------------------------------
// Expressions, by precedence climbing. Each function takes the state whose current token
// starts what it parses, and leaves the state on the last token it used.
//
// Recursion is measured by the tokens left. Where a step must have moved on before the
// parser recurses, `further` checks that it did; when it did not, the function returns
// without recursing.

pub open spec fn p_expression(toks: Seq<Token>, prec: nat, st: ParseState) -> (Result<ExprModel, Seq<char>>, ParseState)
    decreases toks.len() - st.pos, 4nat,
{
    let k = cur(toks, st);
    if !has_prefix(k) {
        (Err(no_prefix_message(k)), report(st, no_prefix_message(k)))
    } else {
        let (left, st1) = p_prefix(toks, st);
        match left {
            Err(m) => (Err(m), st1),
            Ok(l) => if st.pos <= st1.pos <= toks.len() {
                p_infix_loop(toks, prec, l, st1)
            } else {
                (Ok(l), st1)
            },
        }
    }
}

/// While the next token binds tighter than `prec`, it takes `left` as its left operand.
pub open spec fn p_infix_loop(toks: Seq<Token>, prec: nat, left: ExprModel, st: ParseState) -> (Result<ExprModel, Seq<char>>, ParseState)
    decreases toks.len() - st.pos, 3nat,
{
    if peek(toks, st) != TokenType::SEMICOLON && prec < prec_of(peek(toks, st)) {
        let (r, st1) = p_infix(toks, left, st);
        match r {
            Err(m) => (Err(m), st1),
            Ok(l2) => if further(toks, st, st1) {
                p_infix_loop(toks, prec, l2, st1)
            } else {
                (Ok(l2), st1)
            },
        }
    } else {
        (Ok(left), st)
    }
}

/// An operator or a call, with `left` before it; the next token is the operator.
pub open spec fn p_infix(toks: Seq<Token>, left: ExprModel, st: ParseState) -> (Result<ExprModel, Seq<char>>, ParseState)
    decreases toks.len() - st.pos, 2nat,
{
    let st1 = next(toks, st);
    if !further(toks, st, st1) {
        (Ok(left), st1)
    } else if cur(toks, st1) == TokenType::LPAREN {
        let (args, st2) = p_call_arguments(toks, st1);
        match args {
            Err(m) => (Err(m), st2),
            Ok(a) => (Ok(ExprModel::Call(Box::new(left), a)), st2),
        }
    } else {
        let op = text_at(toks, st1.pos as int);
        let p = prec_of(cur(toks, st1));
        let st2 = next(toks, st1);
        if !further(toks, st1, st2) {
            (Ok(left), st2)
        } else {
            let (right, st3) = p_expression(toks, p, st2);
            match right {
                Err(m) => (Err(m), st3),
                Ok(r) => (Ok(ExprModel::Infix(Box::new(left), op, Box::new(r))), st3),
            }
        }
    }
}

/// What the current token starts: a literal, a name, a prefix operator, a group, an `if`,
/// or a function literal.
pub open spec fn p_prefix(toks: Seq<Token>, st: ParseState) -> (Result<ExprModel, Seq<char>>, ParseState)
    decreases toks.len() - st.pos, 3nat,
{
    let k = cur(toks, st);
    let lit = text_at(toks, st.pos as int);
    if k == TokenType::IDENT {
        (Ok(ExprModel::Ident(lit)), st)
    } else if k == TokenType::INT {
        p_integer(toks, st)
    } else if k == TokenType::TRUE || k == TokenType::FALSE {
        (Ok(ExprModel::Bool(k == TokenType::TRUE)), st)
    } else if k == TokenType::BANG || k == TokenType::MINUS {
        p_prefix_operator(toks, st)
    } else if k == TokenType::LPAREN {
        p_grouped(toks, st)
    } else if k == TokenType::IF {
        p_if(toks, st)
    } else if k == TokenType::FUNCTION {
        p_function(toks, st)
    } else {
        (Err(no_prefix_message(k)), report(st, no_prefix_message(k)))
    }
}

/// A prefix operator, the current token, applied to what follows at prefix precedence.
pub open spec fn p_prefix_operator(toks: Seq<Token>, st: ParseState) -> (Result<ExprModel, Seq<char>>, ParseState)
    decreases toks.len() - st.pos, 2nat,
{
    let lit = text_at(toks, st.pos as int);
    let st1 = next(toks, st);
    if !further(toks, st, st1) {
        (Err(no_prefix_message(TokenType::EOF)), st1)
    } else {
        let (right, st2) = p_expression(toks, prec_prefix(), st1);
        match right {
            Err(m) => (Err(m), st2),
            Ok(r) => (Ok(ExprModel::Prefix(lit, Box::new(r))), st2),
        }
    }
}

/// An expression in parentheses, the current token being `(`.
pub open spec fn p_grouped(toks: Seq<Token>, st: ParseState) -> (Result<ExprModel, Seq<char>>, ParseState)
    decreases toks.len() - st.pos, 2nat,
{
    let st1 = next(toks, st);
    if !further(toks, st, st1) {
        (Err(no_prefix_message(TokenType::EOF)), st1)
    } else {
        let (inner, st2) = p_expression(toks, prec_lowest(), st1);
        match inner {
            Err(m) => (Err(m), st2),
            Ok(e) => {
                let (ok, st3) = expect_peek(toks, TokenType::RPAREN, st2);
                if ok {
                    (Ok(e), st3)
                } else {
                    (Err(expected_message(TokenType::RPAREN, peek(toks, st2))), st3)
                }
            },
        }
    }
}

/// `if (condition) { ... }`, with an optional `else { ... }`.
pub open spec fn p_if(toks: Seq<Token>, st: ParseState) -> (Result<ExprModel, Seq<char>>, ParseState)
    decreases toks.len() - st.pos, 2nat,
{
    let (ok, st1) = expect_peek(toks, TokenType::LPAREN, st);
    if !ok {
        (Err(expected_message(TokenType::LPAREN, peek(toks, st))), st1)
    } else {
        let st2 = next(toks, st1);
        if !further(toks, st, st2) {
            (Err(no_prefix_message(TokenType::EOF)), st2)
        } else {
            let (c, st3) = p_expression(toks, prec_lowest(), st2);
            match c {
                Err(m) => (Err(m), st3),
                Ok(cond) => {
                    let (ok4, st4) = expect_peek(toks, TokenType::RPAREN, st3);
                    if !ok4 {
                        (Err(expected_message(TokenType::RPAREN, peek(toks, st3))), st4)
                    } else {
                        let (ok5, st5) = expect_peek(toks, TokenType::LBRACE, st4);
                        if !ok5 {
                            (Err(expected_message(TokenType::LBRACE, peek(toks, st4))), st5)
                        } else if !further(toks, st, st5) {
                            (Err(no_prefix_message(TokenType::EOF)), st5)
                        } else {
                            let (then_items, st6) = p_block(toks, st5);
                            if peek(toks, st6) == TokenType::ELSE {
                                let st7 = next(toks, st6);
                                let (ok8, st8) = expect_peek(toks, TokenType::LBRACE, st7);
                                if !ok8 {
                                    (Err(expected_message(TokenType::LBRACE, peek(toks, st7))), st8)
                                } else if !further(toks, st, st8) {
                                    (Err(no_prefix_message(TokenType::EOF)), st8)
                                } else {
                                    let (else_items, st9) = p_block(toks, st8);
                                    (Ok(ExprModel::If(Box::new(cond), then_items, Some(else_items))), st9)
                                }
                            } else {
                                (Ok(ExprModel::If(Box::new(cond), then_items, None)), st6)
                            }
                        }
                    }
                },
            }
        }
    }
}

/// `fn (names) { ... }`.
pub open spec fn p_function(toks: Seq<Token>, st: ParseState) -> (Result<ExprModel, Seq<char>>, ParseState)
    decreases toks.len() - st.pos, 2nat,
{
    let (ok, st1) = expect_peek(toks, TokenType::LPAREN, st);
    if !ok {
        (Err(expected_message(TokenType::LPAREN, peek(toks, st))), st1)
    } else {
        let (ps, st2) = p_parameters(toks, st1);
        match ps {
            Err(m) => (Err(m), st2),
            Ok(names) => {
                let (ok3, st3) = expect_peek(toks, TokenType::LBRACE, st2);
                if !ok3 {
                    (Err(expected_message(TokenType::LBRACE, peek(toks, st2))), st3)
                } else if !further(toks, st, st3) {
                    (Err(no_prefix_message(TokenType::EOF)), st3)
                } else {
                    let (body, st4) = p_block(toks, st3);
                    (Ok(ExprModel::Func(names, body)), st4)
                }
            },
        }
    }
}

/// The names after each further comma.
pub open spec fn p_parameters_loop(toks: Seq<Token>, names: Seq<Seq<char>>, st: ParseState) -> (Seq<Seq<char>>, ParseState)
    decreases toks.len() - st.pos,
{
    if peek(toks, st) == TokenType::COMMA {
        let st1 = next(toks, next(toks, st));
        if further(toks, st, st1) {
            p_parameters_loop(toks, names.push(text_at(toks, st1.pos as int)), st1)
        } else {
            (names, st1)
        }
    } else {
        (names, st)
    }
}

/// A comma-separated list of names, the current token being `(`, up to its `)`.
pub open spec fn p_parameters(toks: Seq<Token>, st: ParseState) -> (Result<Seq<Seq<char>>, Seq<char>>, ParseState) {
    if peek(toks, st) == TokenType::RPAREN {
        (Ok(Seq::empty()), next(toks, st))
    } else {
        let st1 = next(toks, st);
        let (names, st2) = p_parameters_loop(toks, seq![text_at(toks, st1.pos as int)], st1);
        let (ok, st3) = expect_peek(toks, TokenType::RPAREN, st2);
        if ok {
            (Ok(names), st3)
        } else {
            (Err(expected_message(TokenType::RPAREN, peek(toks, st2))), st3)
        }
    }
}

/// The expressions after each further comma.
pub open spec fn p_arguments_loop(toks: Seq<Token>, args: Seq<ExprModel>, st: ParseState) -> (Result<Seq<ExprModel>, Seq<char>>, ParseState)
    decreases toks.len() - st.pos, 0nat,
{
    if peek(toks, st) == TokenType::COMMA {
        let st1 = next(toks, next(toks, st));
        if !further(toks, st, st1) {
            (Ok(args), st1)
        } else {
            let (a, st2) = p_expression(toks, prec_lowest(), st1);
            match a {
                Err(m) => (Err(m), st2),
                Ok(e) => if st1.pos <= st2.pos <= toks.len() {
                    p_arguments_loop(toks, args.push(e), st2)
                } else {
                    (Ok(args.push(e)), st2)
                },
            }
        }
    } else {
        (Ok(args), st)
    }
}

/// The closing `)` after the arguments, if they parsed.
pub open spec fn p_arguments_close(
    toks: Seq<Token>,
    rest: (Result<Seq<ExprModel>, Seq<char>>, ParseState),
) -> (Result<Seq<ExprModel>, Seq<char>>, ParseState) {
    let (r, st3) = rest;
    match r {
        Err(m) => (Err(m), st3),
        Ok(args) => {
            let (ok, st4) = expect_peek(toks, TokenType::RPAREN, st3);
            if ok {
                (Ok(args), st4)
            } else {
                (Err(expected_message(TokenType::RPAREN, peek(toks, st3))), st4)
            }
        },
    }
}

/// A comma-separated list of expressions, the current token being `(`, up to its `)`.
pub open spec fn p_call_arguments(toks: Seq<Token>, st: ParseState) -> (Result<Seq<ExprModel>, Seq<char>>, ParseState)
    decreases toks.len() - st.pos, 1nat,
{
    if peek(toks, st) == TokenType::RPAREN {
        (Ok(Seq::empty()), next(toks, st))
    } else {
        let st1 = next(toks, st);
        if !further(toks, st, st1) {
            (Err(no_prefix_message(TokenType::EOF)), st1)
        } else {
            let (a, st2) = p_expression(toks, prec_lowest(), st1);
            match a {
                Err(m) => (Err(m), st2),
                Ok(e) => if st1.pos <= st2.pos <= toks.len() {
                    p_arguments_close(toks, p_arguments_loop(toks, seq![e], st2))
                } else {
                    (Ok(seq![e]), st2)
                },
            }
        }
    }
}

// ---------------------------------------------------------------------------
// Statements.

/// `let name = expression`, with an optional `;`.
pub open spec fn p_let(toks: Seq<Token>, st: ParseState) -> (Result<StmtModel, Seq<char>>, ParseState)
    decreases toks.len() - st.pos, 6nat,
{
    let (ok, st1) = expect_peek(toks, TokenType::IDENT, st);
    if !ok {
        (Err(expected_message(TokenType::IDENT, peek(toks, st))), st1)
    } else {
        let name = text_at(toks, st1.pos as int);
        let (ok2, st2) = expect_peek(toks, TokenType::ASSIGN, st1);
        if !ok2 {
            (Err(expected_message(TokenType::ASSIGN, peek(toks, st1))), st2)
        } else {
            let st3 = next(toks, st2);
            if !further(toks, st, st3) {
                (Err(no_prefix_message(TokenType::EOF)), st3)
            } else {
                let (v, st4) = p_expression(toks, prec_lowest(), st3);
                match v {
                    Err(m) => (Err(m), st4),
                    Ok(e) => (Ok(StmtModel::Let(name, e)), skip_semicolon(toks, st4)),
                }
            }
        }
    }
}

pub open spec fn skip_semicolon(toks: Seq<Token>, st: ParseState) -> ParseState {
    if peek(toks, st) == TokenType::SEMICOLON {
        next(toks, st)
    } else {
        st
    }
}

/// `return expression`, with an optional `;`.
pub open spec fn p_return(toks: Seq<Token>, st: ParseState) -> (Result<StmtModel, Seq<char>>, ParseState)
    decreases toks.len() - st.pos, 6nat,
{
    let st1 = next(toks, st);
    if !further(toks, st, st1) {
        (Err(no_prefix_message(TokenType::EOF)), st1)
    } else {
        let (v, st2) = p_expression(toks, prec_lowest(), st1);
        match v {
            Err(m) => (Err(m), st2),
            Ok(e) => (Ok(StmtModel::Return(e)), skip_semicolon(toks, st2)),
        }
    }
}

/// An expression standing as a statement, with an optional `;`.
pub open spec fn p_expression_statement(toks: Seq<Token>, st: ParseState) -> (Result<StmtModel, Seq<char>>, ParseState)
    decreases toks.len() - st.pos, 6nat,
{
    let (v, st1) = p_expression(toks, prec_lowest(), st);
    match v {
        Err(m) => (Err(m), st1),
        Ok(e) => (Ok(StmtModel::Expr(e)), skip_semicolon(toks, st1)),
    }
}

pub open spec fn p_statement(toks: Seq<Token>, st: ParseState) -> (Result<StmtModel, Seq<char>>, ParseState)
    decreases toks.len() - st.pos, 7nat,
{
    if cur(toks, st) == TokenType::LET {
        p_let(toks, st)
    } else if cur(toks, st) == TokenType::RETURN {
        p_return(toks, st)
    } else {
        p_expression_statement(toks, st)
    }
}

/// Statements up to a `}` or the end; a statement that fails is left out.
pub open spec fn p_block_loop(toks: Seq<Token>, items: Seq<NodeModel>, st: ParseState) -> (Seq<NodeModel>, ParseState)
    decreases toks.len() - st.pos, 8nat,
{
    if cur(toks, st) != TokenType::RBRACE && cur(toks, st) != TokenType::EOF {
        let (s, st1) = p_statement(toks, st);
        let items1 = match s {
            Ok(stmt) => items.push(NodeModel::Stmt(stmt)),
            Err(_) => items,
        };
        let st2 = next(toks, st1);
        if further(toks, st, st2) {
            p_block_loop(toks, items1, st2)
        } else {
            (items1, st2)
        }
    } else {
        (items, st)
    }
}

/// `{ statements }`, the current token being `{`.
pub open spec fn p_block(toks: Seq<Token>, st: ParseState) -> (Seq<NodeModel>, ParseState)
    decreases toks.len() - st.pos, 9nat,
{
    let st1 = next(toks, st);
    if further(toks, st, st1) {
        p_block_loop(toks, Seq::empty(), st1)
    } else {
        (Seq::empty(), st1)
    }
}

/// Statements up to the end of input; a statement that fails is left out.
pub open spec fn p_program(toks: Seq<Token>, items: Seq<NodeModel>, st: ParseState) -> (Seq<NodeModel>, ParseState)
    decreases toks.len() - st.pos,
{
    if cur(toks, st) != TokenType::EOF {
        let (s, st1) = p_statement(toks, st);
        let items1 = match s {
            Ok(stmt) => items.push(NodeModel::Stmt(stmt)),
            Err(_) => items,
        };
        let st2 = next(toks, st1);
        if further(toks, st, st2) {
            p_program(toks, items1, st2)
        } else {
            (items1, st2)
        }
    } else {
        (items, st)
    }
}

/// Where each statement that `p_program` keeps starts, in order.
pub open spec fn p_program_starts(toks: Seq<Token>, starts: Seq<nat>, st: ParseState) -> Seq<nat>
    decreases toks.len() - st.pos,
{
    if cur(toks, st) != TokenType::EOF {
        let (s, st1) = p_statement(toks, st);
        let starts1 = match s {
            Ok(_) => starts.push(st.pos),
            Err(_) => starts,
        };
        let st2 = next(toks, st1);
        if further(toks, st, st2) {
            p_program_starts(toks, starts1, st2)
        } else {
            starts1
        }
    } else {
        starts
    }
}

} // verus!
