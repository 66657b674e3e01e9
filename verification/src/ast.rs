//! The parser. It consumes the scanner's token sequence back-to-front off a
//! stack and builds the program tree by recursive descent with precedence
//! climbing. Binary operators are left-associative; parentheses denote
//! function application only, never arithmetic grouping: the parenthesized
//! part is parsed at call precedence, so a binary operator directly inside
//! parentheses is a syntax error.
//!
//! The `spec_parse_*` functions are the parser's specification: the
//! executable parser is proved to build exactly the tree they describe.
use vstd::prelude::*;

use crate::lexer::Operator;
use crate::lexer::TokenKind;

verus! {

/// A program: the ordered statements of one source text.
#[derive(Debug)]
pub struct Program {
    pub statements: Vec<Statement>,
}

/// One statement: a global binding, a bare expression, a comment, or the
/// end marker.
#[derive(Debug)]
pub enum Statement {
    Binding { name: String, value: Expr },
    ExpressionStmt(Expr),
    Eof,
    Comment(String),
}

/// An expression tree. Literals carry binary64 bit patterns.
#[derive(Debug)]
pub enum Expr {
    Identifier(String),
    Abstraction { param: String, body: Box<Expr> },
    Literal(u64),
    Recursion(Box<Expr>),
    Application { func: Box<Expr>, arg: Box<Expr> },
    BinaryOperation { op: BinaryOp, lhs: Box<Expr>, rhs: Box<Expr> },
}

/// The six binary operators.
#[derive(Debug, Clone, Copy, PartialEq, Eq, Structural)]
pub enum BinaryOp {
    Add,
    Sub,
    Mul,
    Div,
    BitAnd,
    BitOr,
}

/// The shape of a token, for error reports.
#[derive(Debug, Clone, Copy, PartialEq, Eq, Structural)]
pub enum TokenTag {
    Comment,
    Lamda,
    Recursion,
    Identifier,
    Literal,
    Operator(Operator),
    Eof,
}

/// A parsing failure: what was found (by shape) and what was expected.
#[derive(Debug, Clone, Copy, PartialEq, Eq, Structural)]
pub enum SyntaxError {
    UnexpectedStatementStart { found: Option<TokenTag> },
    UnexpectedPrefixToken { found: Option<TokenTag> },
    ExpectedOperator { expected: Operator, found: Option<TokenTag> },
    ExpectedIdentifier { found: Option<TokenTag> },
    ExpectedParameter { found: Option<TokenTag> },
    ExpectedRecursionParen { found: Option<TokenTag> },
    UnexpectedInfixToken { found: Option<TokenTag> },
    DepthLimit,
}

pub const PREC_LOWEST: u32 = 0;

pub const PREC_SUM: u32 = 1;

pub const PREC_PRODUCT: u32 = 2;

pub const PREC_BITWISE: u32 = 3;

pub const PREC_CALL: u32 = 4;

/// Expression nesting deeper than this fails with `DepthLimit`; no program
/// that fits in memory comes near it.
pub const PARSE_DEPTH_LIMIT: u64 = 0xFFFF_FFFF_FFFF_FFFF;

pub open spec fn spec_tag_of(t: TokenKind) -> TokenTag {
    match t {
        TokenKind::Comment(_) => TokenTag::Comment,
        TokenKind::Lamda => TokenTag::Lamda,
        TokenKind::Recursion => TokenTag::Recursion,
        TokenKind::Identifier(_) => TokenTag::Identifier,
        TokenKind::Literal(_) => TokenTag::Literal,
        TokenKind::Operator(op) => TokenTag::Operator(op),
        TokenKind::Eof => TokenTag::Eof,
    }
}

pub fn tag_of(t: &TokenKind) -> (r: TokenTag)
    ensures
        r == spec_tag_of(*t),
{
    match t {
        TokenKind::Comment(_) => TokenTag::Comment,
        TokenKind::Lamda => TokenTag::Lamda,
        TokenKind::Recursion => TokenTag::Recursion,
        TokenKind::Identifier(_) => TokenTag::Identifier,
        TokenKind::Literal(_) => TokenTag::Literal,
        TokenKind::Operator(op) => TokenTag::Operator(*op),
        TokenKind::Eof => TokenTag::Eof,
    }
}

/// The binding power of the token standing after an expression: sums bind
/// weakest, then products, then the bitwise operators; everything else ends
/// the expression.
pub open spec fn spec_precedence(t: TokenKind) -> u32 {
    match t {
        TokenKind::Operator(Operator::Plus) => PREC_SUM,
        TokenKind::Operator(Operator::Minus) => PREC_SUM,
        TokenKind::Operator(Operator::Asterisk) => PREC_PRODUCT,
        TokenKind::Operator(Operator::Slash) => PREC_PRODUCT,
        TokenKind::Operator(Operator::BitAnd) => PREC_BITWISE,
        TokenKind::Operator(Operator::BitOr) => PREC_BITWISE,
        _ => PREC_LOWEST,
    }
}

/// The token on top of the stack (the next token of the statement).
pub open spec fn spec_top(stack: Seq<TokenKind>) -> Option<TokenKind> {
    if stack.len() > 0 {
        Some(stack.last())
    } else {
        None
    }
}

/// The stack after the top token is taken.
pub open spec fn spec_popped(stack: Seq<TokenKind>) -> Seq<TokenKind> {
    if stack.len() > 0 {
        stack.drop_last()
    } else {
        stack
    }
}

/// Taking the top of the stack when it is the expected operator; any other
/// token is a syntax error naming both.
pub open spec fn spec_consume_expect(expected: Operator, stack: Seq<TokenKind>) -> (Result<
    (),
    SyntaxError,
>, Seq<TokenKind>) {
    match spec_top(stack) {
        Some(TokenKind::Operator(op)) => if op == expected {
            (Ok(()), spec_popped(stack))
        } else {
            (
                Err(SyntaxError::ExpectedOperator {
                    expected,
                    found: Some(TokenTag::Operator(op)),
                }),
                spec_popped(stack),
            )
        },
        Some(t) => (
            Err(SyntaxError::ExpectedOperator { expected, found: Some(spec_tag_of(t)) }),
            spec_popped(stack),
        ),
        None => (Err(SyntaxError::ExpectedOperator { expected, found: None }), stack),
    }
}

/// One expression at the given precedence: a prefix term, then every infix
/// operator that binds tighter than the surroundings.
pub open spec fn spec_parse_expression(fuel: nat, prec: u32, stack: Seq<TokenKind>) -> (Result<
    Expr,
    SyntaxError,
>, Seq<TokenKind>)
    decreases fuel,
{
    if fuel == 0 {
        (Err(SyntaxError::DepthLimit), stack)
    } else {
        let (pr, s1) = spec_parse_prefix((fuel - 1) as nat, stack);
        match pr {
            Err(e) => (Err(e), s1),
            Ok(left) => spec_parse_tail((fuel - 1) as nat, prec, left, s1),
        }
    }
}

/// The infix loop: as long as the next token binds tighter than `prec`,
/// fold it into `left`; operators of equal precedence are left to the
/// enclosing loop, which makes the operators left-associative.
pub open spec fn spec_parse_tail(fuel: nat, prec: u32, left: Expr, stack: Seq<TokenKind>) -> (
    Result<Expr, SyntaxError>,
    Seq<TokenKind>,
)
    decreases fuel,
{
    if fuel == 0 {
        (Err(SyntaxError::DepthLimit), stack)
    } else {
        match spec_top(stack) {
            None => (Ok(left), stack),
            Some(t) => {
                if spec_precedence(t) <= prec {
                    (Ok(left), stack)
                } else {
                    let (ir, s2) = spec_parse_infix((fuel - 1) as nat, left, stack);
                    match ir {
                        Err(e) => (Err(e), s2),
                        Ok(l2) => spec_parse_tail((fuel - 1) as nat, prec, l2, s2),
                    }
                }
            },
        }
    }
}

/// One infix step: take the operator, parse the right operand at the
/// operator's own precedence, and build the operation node.
pub open spec fn spec_parse_infix(fuel: nat, left: Expr, stack: Seq<TokenKind>) -> (Result<
    Expr,
    SyntaxError,
>, Seq<TokenKind>)
    decreases fuel,
{
    if fuel == 0 {
        (Err(SyntaxError::DepthLimit), stack)
    } else {
        match spec_top(stack) {
            Some(TokenKind::Operator(op)) => {
                let binop = match op {
                    Operator::Plus => Some(BinaryOp::Add),
                    Operator::Minus => Some(BinaryOp::Sub),
                    Operator::Asterisk => Some(BinaryOp::Mul),
                    Operator::Slash => Some(BinaryOp::Div),
                    Operator::BitAnd => Some(BinaryOp::BitAnd),
                    Operator::BitOr => Some(BinaryOp::BitOr),
                    _ => None,
                };
                match binop {
                    Some(bop) => {
                        let opprec = spec_precedence(TokenKind::Operator(op));
                        let (rr, s2) = spec_parse_expression(
                            (fuel - 1) as nat,
                            opprec,
                            spec_popped(stack),
                        );
                        match rr {
                            Err(e) => (Err(e), s2),
                            Ok(rhs) => (
                                Ok(
                                    Expr::BinaryOperation {
                                        op: bop,
                                        lhs: Box::new(left),
                                        rhs: Box::new(rhs),
                                    },
                                ),
                                s2,
                            ),
                        }
                    },
                    None => (
                        Err(
                            SyntaxError::UnexpectedInfixToken {
                                found: Some(TokenTag::Operator(op)),
                            },
                        ),
                        spec_popped(stack),
                    ),
                }
            },
            Some(t) => (
                Err(SyntaxError::UnexpectedInfixToken { found: Some(spec_tag_of(t)) }),
                spec_popped(stack),
            ),
            None => (Err(SyntaxError::UnexpectedInfixToken { found: None }), stack),
        }
    }
}

/// A prefix term: an identifier, a literal, an abstraction, a recursion
/// form, or a parenthesized application. The parenthesized part is parsed
/// at call precedence — parentheses denote application, never grouping —
/// and the application's argument follows the closing parenthesis as a
/// full expression.
pub open spec fn spec_parse_prefix(fuel: nat, stack: Seq<TokenKind>) -> (Result<Expr, SyntaxError>,
    Seq<TokenKind>,
)
    decreases fuel,
{
    if fuel == 0 {
        (Err(SyntaxError::DepthLimit), stack)
    } else {
        match spec_top(stack) {
            None => (Err(SyntaxError::UnexpectedPrefixToken { found: None }), stack),
            Some(t) => {
                let rest = spec_popped(stack);
                match t {
                    TokenKind::Identifier(name) => (Ok(Expr::Identifier(name)), rest),
                    TokenKind::Literal(bits) => (Ok(Expr::Literal(bits)), rest),
                    TokenKind::Lamda => spec_parse_abstraction((fuel - 1) as nat, rest),
                    TokenKind::Recursion => spec_parse_recursion((fuel - 1) as nat, rest),
                    TokenKind::Operator(Operator::LeftParen) => {
                        let (fr, s1) = spec_parse_expression((fuel - 1) as nat, PREC_CALL, rest);
                        match fr {
                            Err(e) => (Err(e), s1),
                            Ok(func) => {
                                let (cr, s2) = spec_consume_expect(Operator::RightParen, s1);
                                match cr {
                                    Err(e) => (Err(e), s2),
                                    Ok(_) => {
                                        let (ar, s3) = spec_parse_expression(
                                            (fuel - 1) as nat,
                                            PREC_LOWEST,
                                            s2,
                                        );
                                        match ar {
                                            Err(e) => (Err(e), s3),
                                            Ok(arg) => (
                                                Ok(
                                                    Expr::Application {
                                                        func: Box::new(func),
                                                        arg: Box::new(arg),
                                                    },
                                                ),
                                                s3,
                                            ),
                                        }
                                    },
                                }
                            },
                        }
                    },
                    _ => (
                        Err(SyntaxError::UnexpectedPrefixToken { found: Some(spec_tag_of(t)) }),
                        rest,
                    ),
                }
            },
        }
    }
}

/// An abstraction after its keyword: a parameter name, a dot, and a body
/// that extends as far right as the surrounding precedence allows.
pub open spec fn spec_parse_abstraction(fuel: nat, stack: Seq<TokenKind>) -> (Result<
    Expr,
    SyntaxError,
>, Seq<TokenKind>)
    decreases fuel,
{
    if fuel == 0 {
        (Err(SyntaxError::DepthLimit), stack)
    } else {
        match spec_top(stack) {
            Some(TokenKind::Identifier(param)) => {
                let (cr, s1) = spec_consume_expect(Operator::Dot, spec_popped(stack));
                match cr {
                    Err(e) => (Err(e), s1),
                    Ok(_) => {
                        let (br, s2) = spec_parse_expression((fuel - 1) as nat, PREC_LOWEST, s1);
                        match br {
                            Err(e) => (Err(e), s2),
                            Ok(body) => (
                                Ok(Expr::Abstraction { param, body: Box::new(body) }),
                                s2,
                            ),
                        }
                    },
                }
            },
            Some(t) => (
                Err(SyntaxError::ExpectedParameter { found: Some(spec_tag_of(t)) }),
                spec_popped(stack),
            ),
            None => (Err(SyntaxError::ExpectedParameter { found: None }), stack),
        }
    }
}

/// A recursion form after its keyword: a parenthesized inner expression,
/// parsed at lowest precedence, wrapped as a recursion marker. The body's
/// own failure surfaces only after the closing parenthesis was seen.
pub open spec fn spec_parse_recursion(fuel: nat, stack: Seq<TokenKind>) -> (Result<
    Expr,
    SyntaxError,
>, Seq<TokenKind>)
    decreases fuel,
{
    if fuel == 0 {
        (Err(SyntaxError::DepthLimit), stack)
    } else {
        match spec_top(stack) {
            Some(TokenKind::Operator(Operator::LeftParen)) => {
                let (br, s1) = spec_parse_expression(
                    (fuel - 1) as nat,
                    PREC_LOWEST,
                    spec_popped(stack),
                );
                let (cr, s2) = spec_consume_expect(Operator::RightParen, s1);
                match cr {
                    Err(e) => (Err(e), s2),
                    Ok(_) => match br {
                        Err(e) => (Err(e), s2),
                        Ok(body) => (Ok(Expr::Recursion(Box::new(body))), s2),
                    },
                }
            },
            Some(t) => (
                Err(SyntaxError::ExpectedRecursionParen { found: Some(spec_tag_of(t)) }),
                spec_popped(stack),
            ),
            None => (Err(SyntaxError::ExpectedRecursionParen { found: None }), stack),
        }
    }
}

/// A binding statement: a name, the equals sign, and the bound expression.
pub open spec fn spec_parse_binding(fuel: nat, stack: Seq<TokenKind>) -> (Result<
    Statement,
    SyntaxError,
>, Seq<TokenKind>)
    decreases fuel,
{
    if fuel == 0 {
        (Err(SyntaxError::DepthLimit), stack)
    } else {
        match spec_top(stack) {
            Some(TokenKind::Identifier(name)) => {
                let (cr, s1) = spec_consume_expect(Operator::Equal, spec_popped(stack));
                match cr {
                    Err(e) => (Err(e), s1),
                    Ok(_) => {
                        let (vr, s2) = spec_parse_expression((fuel - 1) as nat, PREC_LOWEST, s1);
                        match vr {
                            Err(e) => (Err(e), s2),
                            Ok(value) => (Ok(Statement::Binding { name, value }), s2),
                        }
                    },
                }
            },
            Some(t) => (
                Err(SyntaxError::ExpectedIdentifier { found: Some(spec_tag_of(t)) }),
                spec_popped(stack),
            ),
            None => (Err(SyntaxError::ExpectedIdentifier { found: None }), stack),
        }
    }
}

/// One statement, chosen by one or two tokens of lookahead: a binding when
/// an identifier is followed by the equals sign, an expression statement
/// for the tokens an expression can start with, a comment, or the end
/// marker.
pub open spec fn spec_parse_statement(fuel: nat, stack: Seq<TokenKind>) -> (Result<
    Statement,
    SyntaxError,
>, Seq<TokenKind>)
    decreases fuel,
{
    if fuel == 0 {
        (Err(SyntaxError::DepthLimit), stack)
    } else {
        match spec_top(stack) {
            None => (Err(SyntaxError::UnexpectedStatementStart { found: None }), stack),
            Some(t) => match t {
                TokenKind::Identifier(_) => {
                    if stack.len() >= 2 && stack[stack.len() - 2] matches TokenKind::Operator(
                        Operator::Equal,
                    ) {
                        spec_parse_binding((fuel - 1) as nat, stack)
                    } else {
                        let (er, s1) = spec_parse_expression((fuel - 1) as nat, PREC_LOWEST, stack);
                        match er {
                            Err(e) => (Err(e), s1),
                            Ok(e) => (Ok(Statement::ExpressionStmt(e)), s1),
                        }
                    }
                },
                TokenKind::Lamda => spec_parse_expression_statement((fuel - 1) as nat, stack),
                TokenKind::Literal(_) => spec_parse_expression_statement((fuel - 1) as nat, stack),
                TokenKind::Operator(Operator::LeftParen) => spec_parse_expression_statement(
                    (fuel - 1) as nat,
                    stack,
                ),
                TokenKind::Comment(text) => (Ok(Statement::Comment(text)), spec_popped(stack)),
                TokenKind::Eof => (Ok(Statement::Eof), spec_popped(stack)),
                _ => (
                    Err(SyntaxError::UnexpectedStatementStart { found: Some(spec_tag_of(t)) }),
                    stack,
                ),
            },
        }
    }
}

pub open spec fn spec_parse_expression_statement(fuel: nat, stack: Seq<TokenKind>) -> (Result<
    Statement,
    SyntaxError,
>, Seq<TokenKind>)
    decreases fuel,
{
    let (er, s1) = spec_parse_expression(fuel, PREC_LOWEST, stack);
    match er {
        Err(e) => (Err(e), s1),
        Ok(e) => (Ok(Statement::ExpressionStmt(e)), s1),
    }
}

/// The tokens in the order the parser takes them: last token on top.
pub open spec fn spec_reversed(tokens: Seq<TokenKind>) -> Seq<TokenKind> {
    Seq::new(tokens.len(), |i: int| tokens[tokens.len() - 1 - i])
}

/// The statements of a whole token stack. `None` only when the statement
/// budget is smaller than the number of statements, which no actual parse
/// reaches, since every statement takes at least one token.
pub open spec fn spec_parse_statements(
    stack: Seq<TokenKind>,
    fuel: nat,
    acc: Seq<Statement>,
) -> Option<Result<Seq<Statement>, SyntaxError>>
    decreases fuel,
{
    if stack.len() == 0 {
        Some(Ok(acc))
    } else if fuel == 0 {
        None
    } else {
        let (r, rest) = spec_parse_statement(PARSE_DEPTH_LIMIT as nat, stack);
        match r {
            Err(e) => Some(Err(e)),
            Ok(st) => spec_parse_statements(rest, (fuel - 1) as nat, acc.push(st)),
        }
    }
}

/// The program a token sequence denotes, or its first syntax error.
pub open spec fn spec_parse_program(tokens: Seq<TokenKind>) -> Option<Result<
    Seq<Statement>,
    SyntaxError,
>> {
    spec_parse_statements(spec_reversed(tokens), (tokens.len() + 1) as nat, Seq::empty())
}

/// The parser's working state: the unread tokens, last token on top.
pub struct Parser {
    pub tokens: Vec<TokenKind>,
}

impl Parser {
    /// The next unread token, if any.
    pub fn look_ahead(&self) -> (r: Option<&TokenKind>)
        ensures
            match r {
                Some(t) => self.tokens@.len() > 0 && *t == self.tokens@.last(),
                None => self.tokens@.len() == 0,
            },
    {
        self.tokens.last()
    }

    /// Take the next unread token.
    pub fn consume(&mut self) -> (r: Option<TokenKind>)
        ensures
            r == spec_top(old(self).tokens@),
            final(self).tokens@ == spec_popped(old(self).tokens@),
    {
        self.tokens.pop()
    }

    /// The binding power of a token in infix position.
    pub fn get_precedence(&self, token: &TokenKind) -> (r: u32)
        ensures
            r == spec_precedence(*token),
    {
        match token {
            TokenKind::Operator(Operator::Plus) => PREC_SUM,
            TokenKind::Operator(Operator::Minus) => PREC_SUM,
            TokenKind::Operator(Operator::Asterisk) => PREC_PRODUCT,
            TokenKind::Operator(Operator::Slash) => PREC_PRODUCT,
            TokenKind::Operator(Operator::BitAnd) => PREC_BITWISE,
            TokenKind::Operator(Operator::BitOr) => PREC_BITWISE,
            _ => PREC_LOWEST,
        }
    }

    /// Take the next token, which must be the expected operator.
    fn consume_expect(&mut self, expected: Operator) -> (r: Result<(), SyntaxError>)
        ensures
            ({
                let (sr, srest) = spec_consume_expect(expected, old(self).tokens@);
                r == sr && final(self).tokens@ == srest
            }),
            final(self).tokens@.len() <= old(self).tokens@.len(),
    {
        match self.consume() {
            Some(TokenKind::Operator(op)) => {
                if op == expected {
                    Ok(())
                } else {
                    Err(SyntaxError::ExpectedOperator {
                        expected,
                        found: Some(TokenTag::Operator(op)),
                    })
                }
            },
            Some(t) => Err(SyntaxError::ExpectedOperator { expected, found: Some(tag_of(&t)) }),
            None => Err(SyntaxError::ExpectedOperator { expected, found: None }),
        }
    }

    /// Parse one expression at the given precedence.
    fn parse_expression(&mut self, prec: u32, fuel: u64) -> (r: Result<Expr, SyntaxError>)
        ensures
            ({
                let (sr, srest) = spec_parse_expression(fuel as nat, prec, old(self).tokens@);
                r == sr && final(self).tokens@ == srest
            }),
            final(self).tokens@.len() <= old(self).tokens@.len(),
            r is Ok ==> final(self).tokens@.len() < old(self).tokens@.len(),
        decreases fuel,
    {
        if fuel == 0 {
            return Err(SyntaxError::DepthLimit);
        }
        let mut left = match self.parse_prefix(fuel - 1) {
            Err(e) => {
                return Err(e);
            },
            Ok(left) => left,
        };
        let ghost fuel0 = (fuel - 1) as nat;
        let ghost left0 = left;
        let ghost s1 = self.tokens@;
        let mut g: u64 = fuel - 1;
        let mut failed: Option<SyntaxError> = None;
        loop
            invariant_except_break
                failed is None,
                spec_parse_tail(fuel0, prec, left0, s1) == spec_parse_tail(
                    g as nat,
                    prec,
                    left,
                    self.tokens@,
                ),
            invariant
                g < fuel,
                self.tokens@.len() <= s1.len(),
            ensures
                ({
                    let (sr, srest) = spec_parse_tail(fuel0, prec, left0, s1);
                    srest == self.tokens@ && (match failed {
                        None => sr == Ok::<Expr, SyntaxError>(left),
                        Some(e) => sr == Err::<Expr, SyntaxError>(e),
                    })
                }),
            decreases g,
        {
            if g == 0 {
                failed = Some(SyntaxError::DepthLimit);
                break ;
            }
            let stop = match self.look_ahead() {
                None => true,
                Some(t) => self.get_precedence(t) <= prec,
            };
            if stop {
                break ;
            }
            let next_fuel: u64 = g - 1;
            match self.parse_infix(left, next_fuel) {
                Err(e) => {
                    failed = Some(e);
                    // the folded expression went into the failed step; only
                    // the error is used past this point
                    left = Expr::Literal(0);
                    g = next_fuel;
                    break ;
                },
                Ok(l2) => {
                    left = l2;
                    g = next_fuel;
                },
            }
        }
        match failed {
            None => Ok(left),
            Some(e) => Err(e),
        }
    }

    /// One infix step: the operator, then its right operand.
    fn parse_infix(&mut self, left: Expr, fuel: u64) -> (r: Result<Expr, SyntaxError>)
        ensures
            ({
                let (sr, srest) = spec_parse_infix(fuel as nat, left, old(self).tokens@);
                r == sr && final(self).tokens@ == srest
            }),
            final(self).tokens@.len() <= old(self).tokens@.len(),
        decreases fuel,
    {
        if fuel == 0 {
            return Err(SyntaxError::DepthLimit);
        }
        match self.consume() {
            Some(TokenKind::Operator(op)) => {
                let binop = match op {
                    Operator::Plus => Some(BinaryOp::Add),
                    Operator::Minus => Some(BinaryOp::Sub),
                    Operator::Asterisk => Some(BinaryOp::Mul),
                    Operator::Slash => Some(BinaryOp::Div),
                    Operator::BitAnd => Some(BinaryOp::BitAnd),
                    Operator::BitOr => Some(BinaryOp::BitOr),
                    _ => None,
                };
                match binop {
                    Some(bop) => {
                        let opprec = self.get_precedence(&TokenKind::Operator(op));
                        match self.parse_expression(opprec, fuel - 1) {
                            Err(e) => Err(e),
                            Ok(rhs) => Ok(
                                Expr::BinaryOperation {
                                    op: bop,
                                    lhs: Box::new(left),
                                    rhs: Box::new(rhs),
                                },
                            ),
                        }
                    },
                    None => Err(
                        SyntaxError::UnexpectedInfixToken { found: Some(TokenTag::Operator(op)) },
                    ),
                }
            },
            Some(t) => Err(SyntaxError::UnexpectedInfixToken { found: Some(tag_of(&t)) }),
            None => Err(SyntaxError::UnexpectedInfixToken { found: None }),
        }
    }

    /// A prefix term.
    fn parse_prefix(&mut self, fuel: u64) -> (r: Result<Expr, SyntaxError>)
        ensures
            ({
                let (sr, srest) = spec_parse_prefix(fuel as nat, old(self).tokens@);
                r == sr && final(self).tokens@ == srest
            }),
            final(self).tokens@.len() <= old(self).tokens@.len(),
            r is Ok ==> final(self).tokens@.len() < old(self).tokens@.len(),
        decreases fuel,
    {
        if fuel == 0 {
            return Err(SyntaxError::DepthLimit);
        }
        match self.consume() {
            None => Err(SyntaxError::UnexpectedPrefixToken { found: None }),
            Some(TokenKind::Identifier(name)) => Ok(Expr::Identifier(name)),
            Some(TokenKind::Literal(bits)) => Ok(Expr::Literal(bits)),
            Some(TokenKind::Lamda) => self.parse_abstraction(fuel - 1),
            Some(TokenKind::Recursion) => self.parse_recursion(fuel - 1),
            Some(TokenKind::Operator(Operator::LeftParen)) => {
                let func = match self.parse_expression(PREC_CALL, fuel - 1) {
                    Err(e) => {
                        return Err(e);
                    },
                    Ok(f) => f,
                };
                match self.consume_expect(Operator::RightParen) {
                    Err(e) => {
                        return Err(e);
                    },
                    Ok(_) => {},
                }
                let arg = match self.parse_expression(PREC_LOWEST, fuel - 1) {
                    Err(e) => {
                        return Err(e);
                    },
                    Ok(a) => a,
                };
                Ok(Expr::Application { func: Box::new(func), arg: Box::new(arg) })
            },
            Some(t) => Err(SyntaxError::UnexpectedPrefixToken { found: Some(tag_of(&t)) }),
        }
    }

    /// An abstraction after its keyword.
    fn parse_abstraction(&mut self, fuel: u64) -> (r: Result<Expr, SyntaxError>)
        ensures
            ({
                let (sr, srest) = spec_parse_abstraction(fuel as nat, old(self).tokens@);
                r == sr && final(self).tokens@ == srest
            }),
            final(self).tokens@.len() <= old(self).tokens@.len(),
        decreases fuel,
    {
        if fuel == 0 {
            return Err(SyntaxError::DepthLimit);
        }
        match self.consume() {
            Some(TokenKind::Identifier(param)) => {
                match self.consume_expect(Operator::Dot) {
                    Err(e) => {
                        return Err(e);
                    },
                    Ok(_) => {},
                }
                match self.parse_expression(PREC_LOWEST, fuel - 1) {
                    Err(e) => Err(e),
                    Ok(body) => Ok(Expr::Abstraction { param, body: Box::new(body) }),
                }
            },
            Some(t) => Err(SyntaxError::ExpectedParameter { found: Some(tag_of(&t)) }),
            None => Err(SyntaxError::ExpectedParameter { found: None }),
        }
    }

    /// A recursion form after its keyword.
    fn parse_recursion(&mut self, fuel: u64) -> (r: Result<Expr, SyntaxError>)
        ensures
            ({
                let (sr, srest) = spec_parse_recursion(fuel as nat, old(self).tokens@);
                r == sr && final(self).tokens@ == srest
            }),
            final(self).tokens@.len() <= old(self).tokens@.len(),
        decreases fuel,
    {
        if fuel == 0 {
            return Err(SyntaxError::DepthLimit);
        }
        match self.consume() {
            Some(TokenKind::Operator(Operator::LeftParen)) => {
                let body = self.parse_expression(PREC_LOWEST, fuel - 1);
                match self.consume_expect(Operator::RightParen) {
                    Err(e) => Err(e),
                    Ok(_) => match body {
                        Err(e) => Err(e),
                        Ok(b) => Ok(Expr::Recursion(Box::new(b))),
                    },
                }
            },
            Some(t) => Err(SyntaxError::ExpectedRecursionParen { found: Some(tag_of(&t)) }),
            None => Err(SyntaxError::ExpectedRecursionParen { found: None }),
        }
    }

    /// A binding statement: name, equals sign, bound expression.
    fn parse_binding(&mut self, fuel: u64) -> (r: Result<Statement, SyntaxError>)
        ensures
            ({
                let (sr, srest) = spec_parse_binding(fuel as nat, old(self).tokens@);
                r == sr && final(self).tokens@ == srest
            }),
            final(self).tokens@.len() <= old(self).tokens@.len(),
            r is Ok ==> final(self).tokens@.len() < old(self).tokens@.len(),
        decreases fuel,
    {
        if fuel == 0 {
            return Err(SyntaxError::DepthLimit);
        }
        match self.consume() {
            Some(TokenKind::Identifier(name)) => {
                match self.consume_expect(Operator::Equal) {
                    Err(e) => {
                        return Err(e);
                    },
                    Ok(_) => {},
                }
                match self.parse_expression(PREC_LOWEST, fuel - 1) {
                    Err(e) => Err(e),
                    Ok(value) => Ok(Statement::Binding { name, value }),
                }
            },
            Some(t) => Err(SyntaxError::ExpectedIdentifier { found: Some(tag_of(&t)) }),
            None => Err(SyntaxError::ExpectedIdentifier { found: None }),
        }
    }

    /// A comment statement.
    fn parse_comment(&mut self) -> (r: Result<Statement, SyntaxError>)
        requires
            spec_top(old(self).tokens@) matches Some(t) && t is Comment,
        ensures
            final(self).tokens@ == spec_popped(old(self).tokens@),
            spec_top(old(self).tokens@) matches Some(TokenKind::Comment(text)) && r == Ok::<
                Statement,
                SyntaxError,
            >(Statement::Comment(text)),
    {
        match self.consume() {
            Some(TokenKind::Comment(text)) => Ok(Statement::Comment(text)),
            _ => Err(SyntaxError::UnexpectedStatementStart { found: None }),
        }
    }

    /// One statement, chosen by one or two tokens of lookahead.
    fn parse_statement(&mut self, fuel: u64) -> (r: Result<Statement, SyntaxError>)
        ensures
            ({
                let (sr, srest) = spec_parse_statement(fuel as nat, old(self).tokens@);
                r == sr && final(self).tokens@ == srest
            }),
            final(self).tokens@.len() <= old(self).tokens@.len(),
            r is Ok ==> final(self).tokens@.len() < old(self).tokens@.len(),
        decreases fuel,
    {
        if fuel == 0 {
            return Err(SyntaxError::DepthLimit);
        }
        match self.look_ahead() {
            None => Err(SyntaxError::UnexpectedStatementStart { found: None }),
            Some(TokenKind::Identifier(_)) => {
                let n: usize = self.tokens.len();
                let is_binding = n >= 2 && (match &self.tokens[n - 2] {
                    TokenKind::Operator(Operator::Equal) => true,
                    _ => false,
                });
                if is_binding {
                    self.parse_binding(fuel - 1)
                } else {
                    match self.parse_expression(PREC_LOWEST, fuel - 1) {
                        Err(e) => Err(e),
                        Ok(e) => Ok(Statement::ExpressionStmt(e)),
                    }
                }
            },
            Some(TokenKind::Lamda) => {
                match self.parse_expression(PREC_LOWEST, fuel - 1) {
                    Err(e) => Err(e),
                    Ok(e) => Ok(Statement::ExpressionStmt(e)),
                }
            },
            Some(TokenKind::Literal(_)) => {
                match self.parse_expression(PREC_LOWEST, fuel - 1) {
                    Err(e) => Err(e),
                    Ok(e) => Ok(Statement::ExpressionStmt(e)),
                }
            },
            Some(TokenKind::Operator(Operator::LeftParen)) => {
                match self.parse_expression(PREC_LOWEST, fuel - 1) {
                    Err(e) => Err(e),
                    Ok(e) => Ok(Statement::ExpressionStmt(e)),
                }
            },
            Some(TokenKind::Comment(_)) => self.parse_comment(),
            Some(TokenKind::Eof) => {
                let _ = self.consume();
                Ok(Statement::Eof)
            },
            Some(t) => Err(SyntaxError::UnexpectedStatementStart { found: Some(tag_of(t)) }),
        }
    }

    /// Parse a whole token sequence into a program, or fail with the first
    /// syntax error.
    pub fn parse_program(tokens: Vec<TokenKind>) -> (r: Result<Program, SyntaxError>)
        ensures
            match r {
                Ok(p) => spec_parse_program(tokens@) == Some(
                    Ok::<Seq<Statement>, SyntaxError>(p.statements@),
                ),
                Err(e) => spec_parse_program(tokens@) == Some(
                    Err::<Seq<Statement>, SyntaxError>(e),
                ),
            },
    {
        let ghost toks0 = tokens@;
        let mut input = tokens;
        let mut rev: Vec<TokenKind> = Vec::new();
        proof {
            assert(input@ == toks0.subrange(0, input@.len() as int));
        }
        while input.len() > 0
            invariant
                input@ == toks0.subrange(0, input@.len() as int),
                rev@.len() + input@.len() == toks0.len(),
                toks0 == tokens@,
                forall|j: int|
                    0 <= j < rev@.len() ==> rev@[j] == toks0[toks0.len() - 1 - j],
            decreases input@.len(),
        {
            let ghost in0 = input@;
            let t = match input.pop() {
                Some(t) => t,
                None => {
                    return Err(SyntaxError::UnexpectedStatementStart { found: None });
                },
            };
            rev.push(t);
            proof {
                assert(in0.subrange(0, in0.len() - 1) =~= toks0.subrange(
                    0,
                    in0.len() - 1,
                ));
            }
        }
        proof {
            assert(rev@ =~= spec_reversed(toks0));
        }
        let mut this = Parser { tokens: rev };
        let mut statements: Vec<Statement> = Vec::new();
        let ghost full_fuel = (toks0.len() + 1) as nat;
        proof {
            assert(statements@ =~= Seq::<Statement>::empty());
        }
        loop
            invariant
                toks0 == tokens@,
                full_fuel == (toks0.len() + 1) as nat,
                this.tokens@.len() + statements@.len() <= toks0.len(),
                spec_parse_program(toks0) == spec_parse_statements(
                    this.tokens@,
                    (full_fuel - statements@.len()) as nat,
                    statements@,
                ),
            decreases this.tokens@.len(),
        {
            let ghost stack0 = this.tokens@;
            let ghost acc0 = statements@;
            let ghost fuel_now = (full_fuel - statements@.len()) as nat;
            if this.tokens.len() == 0 {
                proof {
                    assert(spec_parse_statements(stack0, fuel_now, acc0) == Some(
                        Ok::<Seq<Statement>, SyntaxError>(acc0),
                    ));
                }
                return Ok(Program { statements });
            }
            proof {
                assert(fuel_now >= 1);
            }
            match this.parse_statement(PARSE_DEPTH_LIMIT) {
                Err(e) => {
                    proof {
                        assert(spec_parse_statements(stack0, fuel_now, acc0) == Some(
                            Err::<Seq<Statement>, SyntaxError>(e),
                        ));
                    }
                    return Err(e);
                },
                Ok(st) => {
                    let ghost stv = st;
                    statements.push(st);
                    proof {
                        assert(statements@ =~= acc0.push(stv));
                        assert(spec_parse_statements(stack0, fuel_now, acc0)
                            == spec_parse_statements(
                            this.tokens@,
                            (fuel_now - 1) as nat,
                            statements@,
                        ));
                    }
                },
            }
        }
    }
}


} // verus!
