//! Laws of the language, stated over the parser's and the evaluator's
//! specifications and proved once and for all: evaluation never rewrites
//! an existing frame, a rebinding touches only the global frame (lexical
//! scoping), an unbound identifier is an error exactly when the name is
//! absent on the whole scope chain, halt propagates through applications
//! in function position, the literal zero ends a recursion, a recursion
//! marker re-applies the same function, the builtin dispatch keys on the
//! parameter's name alone, and a binary operator directly inside
//! parentheses cannot parse.
use vstd::prelude::*;

use crate::ast::Expr;
use crate::lexer::Operator;
use crate::ast::PREC_CALL;
use crate::ast::SyntaxError;
use crate::ast::Statement;
use crate::ast::TokenTag;
use crate::ast::spec_consume_expect;
use crate::ast::spec_parse_expression;
use crate::ast::spec_parse_prefix;
use crate::ast::spec_parse_tail;
use crate::ast::spec_popped;
use crate::ast::spec_precedence;
use crate::interpreter::EVAL_DEPTH_LIMIT;
use crate::interpreter::EvaluationError;
use crate::interpreter::FrameS;
use crate::interpreter::ValueS;
use crate::interpreter::spec_apply_closure;
use crate::interpreter::spec_dispatch;
use crate::interpreter::spec_eval_application;
use crate::interpreter::spec_eval_binary;
use crate::interpreter::spec_eval_expr;
use crate::interpreter::spec_eval_statement;
use crate::interpreter::spec_lookup;
use crate::lexer::TokenKind;
use crate::numerics::is_zero_bits;

verus! {

/// Arena `b` carries every frame of arena `a`, unchanged, at its place.
pub open spec fn arena_extends(a: Seq<FrameS>, b: Seq<FrameS>) -> bool {
    &&& a.len() <= b.len()
    &&& forall|i: int| 0 <= i < a.len() ==> b[i] == #[trigger] a[i]
}

pub proof fn lemma_extends_trans(a: Seq<FrameS>, b: Seq<FrameS>, c: Seq<FrameS>)
    requires
        arena_extends(a, b),
        arena_extends(b, c),
    ensures
        arena_extends(a, c),
{
    assert forall|i: int| 0 <= i < a.len() implies c[i] == #[trigger] a[i] by {
        assert(b[i] == a[i]);
        assert(c[i] == b[i]);
    }
}

pub open spec fn outcome_extends(
    res: Option<(Result<ValueS, EvaluationError>, Seq<FrameS>)>,
    a: Seq<FrameS>,
) -> bool {
    match res {
        None => true,
        Some((_, a2)) => arena_extends(a, a2),
    }
}

/// Lexical scoping, first half: evaluating an expression never rewrites an
/// existing frame. Frames are only appended, so every closure keeps seeing
/// the frame it captured, exactly as it was.
pub proof fn lemma_expr_extends(fuel: nat, a: Seq<FrameS>, env: int, e: Expr)
    ensures
        outcome_extends(spec_eval_expr(fuel, a, env, e), a),
    decreases fuel,
{
    if fuel > 0 {
        match e {
            Expr::BinaryOperation { op, lhs, rhs } => {
                lemma_binary_extends((fuel - 1) as nat, a, env, op, *lhs, *rhs);
            },
            Expr::Application { func, arg } => {
                lemma_application_extends((fuel - 1) as nat, a, env, *func, *arg, false);
            },
            _ => {},
        }
    }
}

pub proof fn lemma_binary_extends(
    fuel: nat,
    a: Seq<FrameS>,
    env: int,
    op: crate::ast::BinaryOp,
    lhs: Expr,
    rhs: Expr,
)
    ensures
        outcome_extends(spec_eval_binary(fuel, a, env, op, lhs, rhs), a),
    decreases fuel,
{
    if fuel > 0 {
        lemma_expr_extends((fuel - 1) as nat, a, env, lhs);
        match spec_eval_expr((fuel - 1) as nat, a, env, lhs) {
            Some((Ok(_), a1)) => {
                lemma_expr_extends((fuel - 1) as nat, a1, env, rhs);
                match spec_eval_expr((fuel - 1) as nat, a1, env, rhs) {
                    Some((_, a2)) => {
                        lemma_extends_trans(a, a1, a2);
                    },
                    None => {},
                }
            },
            _ => {},
        }
    }
}

pub proof fn lemma_application_extends(
    fuel: nat,
    a: Seq<FrameS>,
    env: int,
    func_e: Expr,
    arg_e: Expr,
    rec_ctx: bool,
)
    ensures
        outcome_extends(spec_eval_application(fuel, a, env, func_e, arg_e, rec_ctx), a),
    decreases fuel,
{
    if fuel > 0 {
        lemma_expr_extends((fuel - 1) as nat, a, env, func_e);
        match spec_eval_expr((fuel - 1) as nat, a, env, func_e) {
            Some((Ok(fv), a1)) => {
                lemma_expr_extends((fuel - 1) as nat, a1, env, arg_e);
                match spec_eval_expr((fuel - 1) as nat, a1, env, arg_e) {
                    Some((Ok(av), a2)) => {
                        lemma_extends_trans(a, a1, a2);
                        match fv {
                            ValueS::Closure { param, body, env: cenv } => {
                                lemma_apply_closure_extends(
                                    (fuel - 1) as nat,
                                    a2,
                                    param,
                                    body,
                                    cenv,
                                    av,
                                    func_e,
                                );
                                match spec_apply_closure(
                                    (fuel - 1) as nat,
                                    a2,
                                    param,
                                    body,
                                    cenv,
                                    av,
                                    func_e,
                                ) {
                                    Some((_, a3)) => {
                                        lemma_extends_trans(a, a2, a3);
                                    },
                                    None => {},
                                }
                            },
                            _ => {},
                        }
                    },
                    Some((Err(_), a2)) => {
                        lemma_extends_trans(a, a1, a2);
                    },
                    None => {},
                }
            },
            _ => {},
        }
    }
}

pub proof fn lemma_apply_closure_extends(
    fuel: nat,
    a: Seq<FrameS>,
    param: Seq<char>,
    body: Expr,
    cenv: usize,
    av: ValueS,
    func_e: Expr,
)
    ensures
        outcome_extends(spec_apply_closure(fuel, a, param, body, cenv, av, func_e), a),
    decreases fuel,
{
    if fuel > 0 {
        let a3 = a.push(FrameS { entries: seq![(param, av)], parent: Some(cenv) });
        let idx = a3.len() - 1 as int;
        assert(arena_extends(a, a3));
        lemma_expr_extends((fuel - 1) as nat, a3, idx, body);
        match spec_eval_expr((fuel - 1) as nat, a3, idx, body) {
            Some((Ok(bv), a4)) => {
                lemma_extends_trans(a, a3, a4);
                match bv {
                    ValueS::Rec(inner) => {
                        lemma_expr_extends((fuel - 1) as nat, a4, idx, inner);
                        match spec_eval_expr((fuel - 1) as nat, a4, idx, inner) {
                            Some((Ok(_), a5)) => {
                                lemma_extends_trans(a, a4, a5);
                                lemma_application_extends(
                                    (fuel - 1) as nat,
                                    a5,
                                    idx,
                                    func_e,
                                    inner,
                                    true,
                                );
                                match spec_eval_application(
                                    (fuel - 1) as nat,
                                    a5,
                                    idx,
                                    func_e,
                                    inner,
                                    true,
                                ) {
                                    Some((_, a6)) => {
                                        lemma_extends_trans(a, a5, a6);
                                    },
                                    None => {},
                                }
                            },
                            Some((Err(_), a5)) => {
                                lemma_extends_trans(a, a4, a5);
                            },
                            None => {},
                        }
                    },
                    _ => {},
                }
            },
            Some((Err(_), a4)) => {
                lemma_extends_trans(a, a3, a4);
            },
            None => {},
        }
    }
}

/// Lexical scoping, second half: a binding statement writes only the
/// global frame — it appends one entry there and leaves every other
/// existing frame exactly as it was. Together with `lemma_expr_extends`,
/// rebinding a name never changes what a previously made closure captured.
pub proof fn lemma_binding_touches_only_global(a: Seq<FrameS>, name: String, value: Expr)
    requires
        a.len() >= 1,
    ensures
        match spec_eval_statement(a, Statement::Binding { name, value }) {
            None => true,
            Some((r, a2)) => match r {
                Ok(v) => {
                    &&& a2.len() >= a.len()
                    &&& a2[0].parent == a[0].parent
                    &&& a2[0].entries == a[0].entries.push((name@, v))
                    &&& forall|i: int| 1 <= i < a.len() ==> a2[i] == #[trigger] a[i]
                },
                Err(_) => true,
            },
        },
{
    lemma_expr_extends(EVAL_DEPTH_LIMIT as nat, a, 0, value);
    match spec_eval_expr(EVAL_DEPTH_LIMIT as nat, a, 0, value) {
        Some((Ok(v), a1)) => {
            let a2 = a1.update(
                0,
                FrameS { entries: a1[0].entries.push((name@, v)), parent: a1[0].parent },
            );
            assert(a1[0] == a[0]);
            assert forall|i: int| 1 <= i < a.len() implies a2[i] == #[trigger] a[i] by {
                assert(a1[i] == a[i]);
            }
        },
        _ => {},
    }
}

/// An identifier evaluates to the value the scope chain holds for it, and
/// fails with the unbound-binding error exactly when the chain holds none.
pub proof fn lemma_identifier_lookup(fuel: nat, a: Seq<FrameS>, env: int, name: String)
    requires
        fuel >= 1,
    ensures
        spec_eval_expr(fuel, a, env, Expr::Identifier(name)) == (match spec_lookup(a, env, name@) {
            Some(v) => Some((Ok::<ValueS, EvaluationError>(v), a)),
            None => Some(
                (
                    Err::<ValueS, EvaluationError>(EvaluationError::UnboundBinding(name)),
                    a,
                ),
            ),
        }),
{
}

/// Halt propagates: an application whose function part evaluates to halt
/// yields halt itself, whatever its argument evaluated to. Applications
/// nest in function position, so one halt from an abstraction's body rides
/// this rule all the way up the application spine to the statement.
pub proof fn lemma_halt_in_function_position(
    fuel: nat,
    a: Seq<FrameS>,
    env: int,
    func_e: Expr,
    arg_e: Expr,
)
    requires
        fuel >= 1,
    ensures
        ({
            let app = spec_eval_application(fuel, a, env, func_e, arg_e, false);
            match spec_eval_expr((fuel - 1) as nat, a, env, func_e) {
                Some((Ok(ValueS::Halt), a1)) => match spec_eval_expr(
                    (fuel - 1) as nat,
                    a1,
                    env,
                    arg_e,
                ) {
                    Some((Ok(av), a2)) => app == Some(
                        (Ok::<ValueS, EvaluationError>(ValueS::Halt), a2),
                    ),
                    _ => true,
                },
                _ => true,
            }
        }),
{
}

/// A closure body that evaluates to halt makes the whole application
/// yield halt: no builtin runs and no recursion step is taken.
pub proof fn lemma_closure_body_halt(
    fuel: nat,
    a: Seq<FrameS>,
    param: Seq<char>,
    body: Expr,
    cenv: usize,
    av: ValueS,
    func_e: Expr,
)
    requires
        fuel >= 1,
    ensures
        ({
            let a3 = a.push(FrameS { entries: seq![(param, av)], parent: Some(cenv) });
            match spec_eval_expr((fuel - 1) as nat, a3, a3.len() - 1 as int, body) {
                Some((Ok(ValueS::Halt), a4)) => spec_apply_closure(
                    fuel,
                    a,
                    param,
                    body,
                    cenv,
                    av,
                    func_e,
                ) == Some((Ok::<ValueS, EvaluationError>(ValueS::Halt), a4)),
                _ => true,
            }
        }),
{
}

/// Recursion termination: in recursion context, an argument that comes out
/// as the literal zero ends the loop at once with halt — nothing is
/// applied.
pub proof fn lemma_recursion_zero_halts(
    fuel: nat,
    a: Seq<FrameS>,
    env: int,
    func_e: Expr,
    arg_e: Expr,
)
    requires
        fuel >= 1,
    ensures
        ({
            match spec_eval_expr((fuel - 1) as nat, a, env, func_e) {
                Some((Ok(fv), a1)) => match spec_eval_expr((fuel - 1) as nat, a1, env, arg_e) {
                    Some((Ok(ValueS::Lit(b)), a2)) => is_zero_bits(b)
                        ==> spec_eval_application(fuel, a, env, func_e, arg_e, true) == Some(
                        (Ok::<ValueS, EvaluationError>(ValueS::Halt), a2),
                    ),
                    _ => true,
                },
                _ => true,
            }
        }),
{
}

/// The recursion step: a closure body that evaluates to a recursion marker
/// whose inner expression comes out as a literal re-applies the same
/// function expression to that inner expression, in the child frame and in
/// recursion context — the language's only loop.
pub proof fn lemma_recursion_reapplies(
    fuel: nat,
    a: Seq<FrameS>,
    param: Seq<char>,
    body: Expr,
    cenv: usize,
    av: ValueS,
    func_e: Expr,
    inner: Expr,
)
    requires
        fuel >= 1,
    ensures
        ({
            let a3 = a.push(FrameS { entries: seq![(param, av)], parent: Some(cenv) });
            let idx = a3.len() - 1 as int;
            match spec_eval_expr((fuel - 1) as nat, a3, idx, body) {
                Some((Ok(ValueS::Rec(e)), a4)) => e == inner ==> (match spec_eval_expr(
                    (fuel - 1) as nat,
                    a4,
                    idx,
                    inner,
                ) {
                    Some((Ok(ValueS::Lit(b2)), a5)) => (match spec_dispatch(
                        param,
                        ValueS::Lit(b2),
                    ) {
                        Some(Ok(_)) => spec_apply_closure(fuel, a, param, body, cenv, av, func_e)
                            == spec_eval_application(
                            (fuel - 1) as nat,
                            a5,
                            idx,
                            func_e,
                            inner,
                            true,
                        ),
                        _ => true,
                    }),
                    _ => true,
                }),
                _ => true,
            }
        }),
{
}

/// Builtin dispatch keys on the parameter's name alone: a closure whose
/// parameter is named `print` hands a literal body result back unchanged
/// (after printing it), and any name outside the reserved five passes the
/// body's result through untouched.
pub proof fn lemma_dispatch_print(b: u64)
    ensures
        spec_dispatch("print"@, ValueS::Lit(b)) == Some(
            Ok::<ValueS, EvaluationError>(ValueS::Lit(b)),
        ),
{
    reveal_strlit("print");
    reveal_strlit("ascii");
    reveal_strlit("input");
    reveal_strlit("time");
    assert("print"@[0] == 'p' && "ascii"@[0] == 'a' && "input"@[0] == 'i' && "time"@[0] == 't');
    assert("print"@ != "ascii"@);
    assert("print"@ != "input"@);
    assert("print"@ != "time"@);
}

/// A parameter named outside the reserved five suppresses every
/// capability: the body's result is returned untouched.
pub proof fn lemma_dispatch_other(param: Seq<char>, v: ValueS)
    requires
        param != "ascii"@,
        param != "input"@,
        param != "time"@,
        param != "print"@,
        param != "sleep"@,
    ensures
        spec_dispatch(param, v) == Some(Ok::<ValueS, EvaluationError>(v)),
{
}

/// Parentheses denote application only: a binary operator directly inside
/// parentheses stops the call-precedence parse, so the expected closing
/// parenthesis is missing and the parse fails.
pub proof fn lemma_paren_operator_fails(
    fuel: nat,
    rest: Seq<TokenKind>,
    bits: u64,
    op: Operator,
)
    requires
        fuel >= 3,
        op matches Operator::Plus || op matches Operator::Minus || op matches Operator::Asterisk
            || op matches Operator::Slash || op matches Operator::BitAnd
            || op matches Operator::BitOr,
    ensures
        ({
            let stack = rest + seq![
                TokenKind::Operator(op),
                TokenKind::Literal(bits),
                TokenKind::Operator(Operator::LeftParen),
            ];
            spec_parse_prefix(fuel, stack).0 == Err::<Expr, SyntaxError>(
                SyntaxError::ExpectedOperator {
                    expected: Operator::RightParen,
                    found: Some(TokenTag::Operator(op)),
                },
            )
        }),
{
    let stack = rest + seq![
        TokenKind::Operator(op),
        TokenKind::Literal(bits),
        TokenKind::Operator(Operator::LeftParen),
    ];
    let s1 = rest + seq![TokenKind::Operator(op), TokenKind::Literal(bits)];
    let s2 = rest + seq![TokenKind::Operator(op)];
    assert(stack.last() == TokenKind::Operator(Operator::LeftParen));
    assert(stack.drop_last() =~= s1);
    assert(spec_popped(stack) == s1);
    assert(s1.last() == TokenKind::Literal(bits));
    assert(s1.drop_last() =~= s2);
    assert(spec_popped(s1) == s2);
    assert(s2.last() == TokenKind::Operator(op));
    assert(spec_precedence(TokenKind::Operator(op)) <= PREC_CALL);
    assert(spec_parse_prefix((fuel - 2) as nat, s1) == (
        Ok::<Expr, SyntaxError>(Expr::Literal(bits)),
        s2,
    ));
    assert(spec_parse_tail((fuel - 2) as nat, PREC_CALL, Expr::Literal(bits), s2) == (
        Ok::<Expr, SyntaxError>(Expr::Literal(bits)),
        s2,
    ));
    assert(spec_parse_expression((fuel - 1) as nat, PREC_CALL, s1) == (
        Ok::<Expr, SyntaxError>(Expr::Literal(bits)),
        s2,
    ));
    assert(spec_consume_expect(Operator::RightParen, s2).0 == Err::<(), SyntaxError>(
        SyntaxError::ExpectedOperator {
            expected: Operator::RightParen,
            found: Some(TokenTag::Operator(op)),
        },
    ));
}

} // verus!
