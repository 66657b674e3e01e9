//! The evaluator. It walks a program's statements against an arena of
//! scope frames: the global frame sits at index zero, every closure
//! application appends a child frame whose parent is the closure's captured
//! frame, and identifier lookup climbs the parent chain. Closures capture
//! the frame they were made in (lexical scoping); a closure body that
//! evaluates to a recursion marker re-applies the same function expression
//! to the marker's expression until an application in recursion context
//! receives the literal zero, which yields the halt sentinel; a halt in
//! function position or as a body's result propagates outward unchanged.
//! Applying a closure whose parameter is named `ascii`, `input`, `time`,
//! `print` or `sleep` invokes that capability on the body's result.
//!
//! The `spec_eval_*` functions are the evaluator's specification: a
//! big-step semantics over abstract values in which the results of the
//! clock and of key input are an arbitrary literal (`ValueS::AnyLit`), and
//! an outcome that would depend on such a value (`None`) promises nothing.
//! The executable evaluator is proved to refine that semantics, with a
//! step budget no actual run exhausts.
use vstd::prelude::*;

use crate::ast::BinaryOp;
use crate::ast::Expr;
use crate::ast::Program;
use crate::ast::Statement;
use crate::capabilities::emit_byte;
use crate::capabilities::emit_text;
use crate::capabilities::flush_output;
use crate::capabilities::now_millis;
use crate::capabilities::read_char_code;
use crate::capabilities::read_numeric_entry;
use crate::capabilities::sleep_millis;
use crate::lexer::string_from_chars;
use crate::numerics::as_u8_of;
use crate::numerics::add_bits_of;
use crate::numerics::check_ge_255_bits;
use crate::numerics::check_one_bits;
use crate::numerics::check_zero_bits;
use crate::numerics::div_bits_of;
use crate::numerics::f64_bits_add;
use crate::numerics::f64_bits_as_u8;
use crate::numerics::f64_bits_div;
use crate::numerics::f64_bits_format_decimal;
use crate::numerics::f64_bits_from_u64;
use crate::numerics::f64_bits_mul;
use crate::numerics::f64_bits_parse_decimal;
use crate::numerics::f64_bits_sub;
use crate::numerics::f64_bits_trunc_u64;
use crate::numerics::from_u64_bits_of;
use crate::numerics::ge_255_bits;
use crate::numerics::is_one_bits;
use crate::numerics::is_zero_bits;
use crate::numerics::mul_bits_of;
use crate::numerics::sub_bits_of;
use crate::numerics::trunc_u64_of;

verus! {

/// A value: a number (by its binary64 bit pattern), a closure, the unit
/// value, a recursion marker carrying an unevaluated expression, or the
/// halt sentinel.
#[derive(Debug)]
pub enum EvaluationValue {
    Literal(u64),
    Closer(Abstraction),
    Unit,
    Recursion(Box<Expr>),
    HALT,
}

/// A closure: one parameter, a body, and the frame it was made in.
#[derive(Debug)]
pub struct Abstraction {
    pub param: String,
    pub body: Box<Expr>,
    pub env: usize,
}

/// One scope frame: its bindings, newest last, and its parent frame.
#[derive(Debug)]
pub struct Scope {
    pub bindings: Vec<(String, EvaluationValue)>,
    pub parent: Option<usize>,
}

/// An evaluation failure, surfaced to the caller; evaluation stops at the
/// first one.
#[derive(Debug)]
pub enum EvaluationError {
    UnboundBinding(String),
    NonNumericOperand,
    RecursionValue,
    AsciiRange,
    InputMode,
    CapabilityOperand,
    FunctionPosition,
    CapabilityFailure,
    DepthLimit,
}

/// Evaluation nested deeper than this fails with `DepthLimit`; no program
/// that fits in memory comes near it.
pub const EVAL_DEPTH_LIMIT: u64 = 0xFFFF_FFFF_FFFF_FFFF;

/// An abstract value: a known literal, an unknown literal (what the clock
/// or the keyboard produced), a closure, unit, a recursion marker, or halt.
pub enum ValueS {
    Lit(u64),
    AnyLit,
    Closure { param: Seq<char>, body: Expr, env: usize },
    Unit,
    Rec(Expr),
    Halt,
}

/// An abstract frame: named abstract values, newest last, and the parent.
pub struct FrameS {
    pub entries: Seq<(Seq<char>, ValueS)>,
    pub parent: Option<usize>,
}

/// A concrete value realizes an abstract one: any literal realizes an
/// unknown literal, everything else matches exactly.
pub open spec fn value_refines(v: EvaluationValue, s: ValueS) -> bool {
    match s {
        ValueS::Lit(bits) => v matches EvaluationValue::Literal(b) && b == bits,
        ValueS::AnyLit => v is Literal,
        ValueS::Closure { param, body, env } => v matches EvaluationValue::Closer(a)
            && a.param@ == param && *a.body == body && a.env == env,
        ValueS::Unit => v is Unit,
        ValueS::Rec(e) => v matches EvaluationValue::Recursion(inner) && *inner == e,
        ValueS::Halt => v is HALT,
    }
}

pub open spec fn frame_refines(f: Scope, fs: FrameS) -> bool {
    &&& f.parent == fs.parent
    &&& f.bindings@.len() == fs.entries.len()
    &&& forall|i: int|
        0 <= i < fs.entries.len() ==> entry_refines(#[trigger] f.bindings@[i], fs.entries[i])
}

/// One binding realizes one abstract entry: same name, realizing value.
pub open spec fn entry_refines(b: (String, EvaluationValue), e: (Seq<char>, ValueS)) -> bool {
    b.0@ == e.0 && value_refines(b.1, e.1)
}

pub open spec fn arena_refines(frames: Seq<Scope>, a: Seq<FrameS>) -> bool {
    &&& frames.len() == a.len()
    &&& forall|i: int| 0 <= i < a.len() ==> frame_refines(#[trigger] frames[i], a[i])
}

/// A value's frame references stay inside an arena of `n` frames.
pub open spec fn value_wf(s: ValueS, n: int) -> bool {
    match s {
        ValueS::Closure { env, .. } => env < n,
        _ => true,
    }
}

/// Parents point strictly downward and every stored value points inside
/// the arena, so lookup terminates and application finds its frame.
pub open spec fn frame_wf(fr: FrameS, i: int, n: int) -> bool {
    &&& (fr.parent matches Some(p) ==> p < i)
    &&& forall|j: int| 0 <= j < fr.entries.len() ==> value_wf(#[trigger] fr.entries[j].1, n)
}

pub open spec fn wf_arena(a: Seq<FrameS>) -> bool {
    forall|i: int| 0 <= i < a.len() ==> frame_wf(#[trigger] a[i], i, a.len() as int)
}

/// The newest binding of the name in one frame.
pub open spec fn frame_entry_lookup(entries: Seq<(Seq<char>, ValueS)>, name: Seq<char>) -> Option<
    ValueS,
>
    decreases entries.len(),
{
    if entries.len() == 0 {
        None
    } else if entries.last().0 == name {
        Some(entries.last().1)
    } else {
        frame_entry_lookup(entries.drop_last(), name)
    }
}

/// The name's value in the frame at `idx` or, failing that, up the parent
/// chain; nothing when the name is bound nowhere on the chain.
pub open spec fn spec_lookup(a: Seq<FrameS>, idx: int, name: Seq<char>) -> Option<ValueS>
    decreases idx,
{
    if idx < 0 || idx >= a.len() {
        None
    } else {
        match frame_entry_lookup(a[idx].entries, name) {
            Some(v) => Some(v),
            None => match a[idx].parent {
                Some(p) => if (p as int) < idx {
                    spec_lookup(a, p as int, name)
                } else {
                    None
                },
                None => None,
            },
        }
    }
}

pub open spec fn opt_value(o: Option<ValueS>) -> ValueS {
    match o {
        Some(v) => v,
        None => ValueS::Unit,
    }
}

/// The bit pattern a binary operation produces: IEEE arithmetic for the
/// four arithmetic operators; the bitwise operators convert both operands
/// to 64-bit unsigned integers by the saturating truncation, combine the
/// bits, and convert the result back.
pub open spec fn spec_binop_bits(op: BinaryOp, l: u64, r: u64) -> u64 {
    match op {
        BinaryOp::Add => add_bits_of(l, r),
        BinaryOp::Sub => sub_bits_of(l, r),
        BinaryOp::Mul => mul_bits_of(l, r),
        BinaryOp::Div => div_bits_of(l, r),
        BinaryOp::BitAnd => from_u64_bits_of(trunc_u64_of(l) & trunc_u64_of(r)),
        BinaryOp::BitOr => from_u64_bits_of(trunc_u64_of(l) | trunc_u64_of(r)),
    }
}

pub fn apply_binop(op: BinaryOp, l: u64, r: u64) -> (bits: u64)
    ensures
        bits == spec_binop_bits(op, l, r),
{
    match op {
        BinaryOp::Add => f64_bits_add(l, r),
        BinaryOp::Sub => f64_bits_sub(l, r),
        BinaryOp::Mul => f64_bits_mul(l, r),
        BinaryOp::Div => f64_bits_div(l, r),
        BinaryOp::BitAnd => {
            let a = f64_bits_trunc_u64(l);
            let b = f64_bits_trunc_u64(r);
            f64_bits_from_u64(a & b)
        },
        BinaryOp::BitOr => {
            let a = f64_bits_trunc_u64(l);
            let b = f64_bits_trunc_u64(r);
            f64_bits_from_u64(a | b)
        },
    }
}

pub open spec fn is_lit_like(v: ValueS) -> bool {
    v is Lit || v is AnyLit
}

/// What the builtin dispatch does to a closure-body result, keyed on the
/// closure's parameter name. `ascii` checks the range and echoes a byte;
/// `input` reads a key or a numeral (an unknown outcome); `time` reads the
/// clock (an unknown outcome); `print` and `sleep` perform their effect
/// and hand the literal back unchanged; any other name passes the value
/// through untouched.
pub open spec fn spec_dispatch(param: Seq<char>, v: ValueS) -> Option<Result<
    ValueS,
    EvaluationError,
>> {
    if param == "ascii"@ {
        match v {
            ValueS::Lit(b) => if ge_255_bits(b) {
                Some(Err(EvaluationError::AsciiRange))
            } else {
                Some(Ok(ValueS::Lit(from_u64_bits_of(as_u8_of(b) as u64))))
            },
            ValueS::AnyLit => None,
            _ => Some(Err(EvaluationError::AsciiRange)),
        }
    } else if param == "input"@ {
        match v {
            ValueS::Lit(b) => if is_zero_bits(b) || is_one_bits(b) {
                None
            } else {
                Some(Err(EvaluationError::InputMode))
            },
            ValueS::AnyLit => None,
            _ => Some(Err(EvaluationError::InputMode)),
        }
    } else if param == "time"@ {
        None
    } else if param == "print"@ {
        match v {
            ValueS::Lit(b) => Some(Ok(ValueS::Lit(b))),
            ValueS::AnyLit => Some(Ok(ValueS::AnyLit)),
            _ => Some(Err(EvaluationError::CapabilityOperand)),
        }
    } else if param == "sleep"@ {
        match v {
            ValueS::Lit(b) => Some(Ok(ValueS::Lit(b))),
            ValueS::AnyLit => Some(Ok(ValueS::AnyLit)),
            _ => Some(Err(EvaluationError::CapabilityOperand)),
        }
    } else {
        Some(Ok(v))
    }
}

/// One expression, in the frame `env`: the outcome and the arena after it,
/// or `None` where the outcome depends on an unknown literal.
pub open spec fn spec_eval_expr(fuel: nat, a: Seq<FrameS>, env: int, e: Expr) -> Option<(Result<
    ValueS,
    EvaluationError,
>, Seq<FrameS>)>
    decreases fuel,
{
    if fuel == 0 {
        Some((Err(EvaluationError::DepthLimit), a))
    } else {
        match e {
            Expr::Literal(bits) => Some((Ok(ValueS::Lit(bits)), a)),
            Expr::Identifier(name) => match spec_lookup(a, env, name@) {
                Some(v) => Some((Ok(v), a)),
                None => Some((Err(EvaluationError::UnboundBinding(name)), a)),
            },
            Expr::Abstraction { param, body } => Some(
                (Ok(ValueS::Closure { param: param@, body: *body, env: env as usize }), a),
            ),
            Expr::Recursion(inner) => Some((Ok(ValueS::Rec(*inner)), a)),
            Expr::BinaryOperation { op, lhs, rhs } => spec_eval_binary(
                (fuel - 1) as nat,
                a,
                env,
                op,
                *lhs,
                *rhs,
            ),
            Expr::Application { func, arg } => spec_eval_application(
                (fuel - 1) as nat,
                a,
                env,
                *func,
                *arg,
                false,
            ),
        }
    }
}

/// A binary operation: both operands, left first, must come out as
/// literals.
pub open spec fn spec_eval_binary(
    fuel: nat,
    a: Seq<FrameS>,
    env: int,
    op: BinaryOp,
    lhs: Expr,
    rhs: Expr,
) -> Option<(Result<ValueS, EvaluationError>, Seq<FrameS>)>
    decreases fuel,
{
    if fuel == 0 {
        Some((Err(EvaluationError::DepthLimit), a))
    } else {
        match spec_eval_expr((fuel - 1) as nat, a, env, lhs) {
            None => None,
            Some((Err(e), a1)) => Some((Err(e), a1)),
            Some((Ok(lv), a1)) => match spec_eval_expr((fuel - 1) as nat, a1, env, rhs) {
                None => None,
                Some((Err(e), a2)) => Some((Err(e), a2)),
                Some((Ok(rv), a2)) => {
                    if is_lit_like(lv) && is_lit_like(rv) {
                        match (lv, rv) {
                            (ValueS::Lit(l), ValueS::Lit(r)) => Some(
                                (Ok(ValueS::Lit(spec_binop_bits(op, l, r))), a2),
                            ),
                            _ => Some((Ok(ValueS::AnyLit), a2)),
                        }
                    } else {
                        Some((Err(EvaluationError::NonNumericOperand), a2))
                    }
                },
            },
        }
    }
}

/// An application: the function expression, then the argument, both in the
/// caller's frame. In recursion context the literal zero as argument is
/// the termination sentinel and yields halt before anything is applied. A
/// literal, unit, or halt in function position passes through unchanged; a
/// recursion marker there is an error.
pub open spec fn spec_eval_application(
    fuel: nat,
    a: Seq<FrameS>,
    env: int,
    func_e: Expr,
    arg_e: Expr,
    rec_ctx: bool,
) -> Option<(Result<ValueS, EvaluationError>, Seq<FrameS>)>
    decreases fuel,
{
    if fuel == 0 {
        Some((Err(EvaluationError::DepthLimit), a))
    } else {
        match spec_eval_expr((fuel - 1) as nat, a, env, func_e) {
            None => None,
            Some((Err(e), a1)) => Some((Err(e), a1)),
            Some((Ok(fv), a1)) => match spec_eval_expr((fuel - 1) as nat, a1, env, arg_e) {
                None => None,
                Some((Err(e), a2)) => Some((Err(e), a2)),
                Some((Ok(av), a2)) => {
                    if rec_ctx && (av matches ValueS::Lit(b) && is_zero_bits(b)) {
                        Some((Ok(ValueS::Halt), a2))
                    } else if rec_ctx && av is AnyLit {
                        None
                    } else {
                        match fv {
                            ValueS::Closure { param, body, env: cenv } => spec_apply_closure(
                                (fuel - 1) as nat,
                                a2,
                                param,
                                body,
                                cenv,
                                av,
                                func_e,
                            ),
                            ValueS::Lit(b) => Some((Ok(ValueS::Lit(b)), a2)),
                            ValueS::AnyLit => Some((Ok(ValueS::AnyLit), a2)),
                            ValueS::Unit => Some((Ok(ValueS::Unit), a2)),
                            ValueS::Halt => Some((Ok(ValueS::Halt), a2)),
                            ValueS::Rec(_) => Some((Err(EvaluationError::FunctionPosition), a2)),
                        }
                    }
                },
            },
        }
    }
}

/// Applying a closure: a child frame of the captured frame binds the
/// parameter to the argument, and the body runs there. A body result that
/// is a recursion marker has its inner expression evaluated in the same
/// frame; that value must be a literal or halt. Halt returns at once.
/// Otherwise the builtin dispatch runs on the result and, when a recursion
/// marker was seen, the same function expression is re-applied to the
/// marker's expression in the child frame, now in recursion context.
pub open spec fn spec_apply_closure(
    fuel: nat,
    a: Seq<FrameS>,
    param: Seq<char>,
    body: Expr,
    cenv: usize,
    av: ValueS,
    func_e: Expr,
) -> Option<(Result<ValueS, EvaluationError>, Seq<FrameS>)>
    decreases fuel,
{
    if fuel == 0 {
        Some((Err(EvaluationError::DepthLimit), a))
    } else {
        let a3 = a.push(FrameS { entries: seq![(param, av)], parent: Some(cenv) });
        let idx = a3.len() - 1 as int;
        match spec_eval_expr((fuel - 1) as nat, a3, idx, body) {
            None => None,
            Some((Err(e), a4)) => Some((Err(e), a4)),
            Some((Ok(bv), a4)) => match bv {
                ValueS::Rec(inner) => match spec_eval_expr((fuel - 1) as nat, a4, idx, inner) {
                    None => None,
                    Some((Err(e), a5)) => Some((Err(e), a5)),
                    Some((Ok(bv2), a5)) => {
                        if !(is_lit_like(bv2) || bv2 is Halt) {
                            Some((Err(EvaluationError::RecursionValue), a5))
                        } else if bv2 is Halt {
                            Some((Ok(ValueS::Halt), a5))
                        } else {
                            match spec_dispatch(param, bv2) {
                                None => None,
                                Some(Err(e)) => Some((Err(e), a5)),
                                Some(Ok(_)) => spec_eval_application(
                                    (fuel - 1) as nat,
                                    a5,
                                    idx,
                                    func_e,
                                    inner,
                                    true,
                                ),
                            }
                        }
                    },
                },
                ValueS::Halt => Some((Ok(ValueS::Halt), a4)),
                _ => match spec_dispatch(param, bv) {
                    None => None,
                    Some(Err(e)) => Some((Err(e), a4)),
                    Some(Ok(dv)) => Some((Ok(dv), a4)),
                },
            },
        }
    }
}

/// One statement: a binding evaluates its expression in the global frame
/// and stores the value there under the name; an expression statement
/// evaluates in the global frame; comments and the end marker are unit.
pub open spec fn spec_eval_statement(a: Seq<FrameS>, stmt: Statement) -> Option<(Result<
    ValueS,
    EvaluationError,
>, Seq<FrameS>)> {
    match stmt {
        Statement::Binding { name, value } => match spec_eval_expr(
            EVAL_DEPTH_LIMIT as nat,
            a,
            0,
            value,
        ) {
            None => None,
            Some((Err(e), a1)) => Some((Err(e), a1)),
            Some((Ok(v), a1)) => {
                let f0 = a1[0];
                let a2 = a1.update(
                    0,
                    FrameS { entries: f0.entries.push((name@, v)), parent: f0.parent },
                );
                Some((Ok(v), a2))
            },
        },
        Statement::ExpressionStmt(e) => spec_eval_expr(EVAL_DEPTH_LIMIT as nat, a, 0, e),
        Statement::Comment(_) => Some((Ok(ValueS::Unit), a)),
        Statement::Eof => Some((Ok(ValueS::Unit), a)),
    }
}

/// The statements from `i` on, collecting each statement's value;
/// evaluation stops at the first error and the collected values are
/// discarded.
pub open spec fn spec_eval_statements(
    stmts: Seq<Statement>,
    i: int,
    a: Seq<FrameS>,
    acc: Seq<ValueS>,
) -> Option<(Result<Seq<ValueS>, EvaluationError>, Seq<FrameS>)>
    decreases stmts.len() - i,
{
    if i < 0 || i >= stmts.len() {
        Some((Ok(acc), a))
    } else {
        match spec_eval_statement(a, stmts[i]) {
            None => None,
            Some((Err(e), a1)) => Some((Err(e), a1)),
            Some((Ok(v), a1)) => spec_eval_statements(stmts, i + 1, a1, acc.push(v)),
        }
    }
}

/// The fresh arena a run starts from: one empty global frame.
pub open spec fn spec_initial_arena() -> Seq<FrameS> {
    seq![FrameS { entries: Seq::empty(), parent: None }]
}

/// A whole program's outcome, from a fresh global frame.
pub open spec fn spec_eval_program(stmts: Seq<Statement>) -> Option<(Result<
    Seq<ValueS>,
    EvaluationError,
>, Seq<FrameS>)> {
    spec_eval_statements(stmts, 0, spec_initial_arena(), Seq::empty())
}

/// An exact copy of an expression.
pub fn duplicate_expr(e: &Expr) -> (r: Expr)
    ensures
        r == *e,
    decreases e,
{
    match e {
        Expr::Identifier(name) => Expr::Identifier(name.clone()),
        Expr::Abstraction { param, body } => Expr::Abstraction {
            param: param.clone(),
            body: Box::new(duplicate_expr(body)),
        },
        Expr::Literal(bits) => Expr::Literal(*bits),
        Expr::Recursion(inner) => Expr::Recursion(Box::new(duplicate_expr(inner))),
        Expr::Application { func, arg } => Expr::Application {
            func: Box::new(duplicate_expr(func)),
            arg: Box::new(duplicate_expr(arg)),
        },
        Expr::BinaryOperation { op, lhs, rhs } => Expr::BinaryOperation {
            op: *op,
            lhs: Box::new(duplicate_expr(lhs)),
            rhs: Box::new(duplicate_expr(rhs)),
        },
    }
}

/// An exact copy of a value.
pub fn duplicate_value(v: &EvaluationValue) -> (r: EvaluationValue)
    ensures
        r == *v,
{
    match v {
        EvaluationValue::Literal(bits) => EvaluationValue::Literal(*bits),
        EvaluationValue::Closer(a) => EvaluationValue::Closer(
            Abstraction {
                param: a.param.clone(),
                body: Box::new(duplicate_expr(&a.body)),
                env: a.env,
            },
        ),
        EvaluationValue::Unit => EvaluationValue::Unit,
        EvaluationValue::Recursion(inner) => EvaluationValue::Recursion(
            Box::new(duplicate_expr(inner)),
        ),
        EvaluationValue::HALT => EvaluationValue::HALT,
    }
}

/// A looked-up value is well formed in a well-formed arena.
pub proof fn lemma_lookup_wf(a: Seq<FrameS>, idx: int, name: Seq<char>)
    requires
        wf_arena(a),
    ensures
        spec_lookup(a, idx, name) matches Some(v) ==> value_wf(v, a.len() as int),
    decreases idx,
{
    if 0 <= idx < a.len() {
        match frame_entry_lookup(a[idx].entries, name) {
            Some(v) => {
                lemma_frame_entry_lookup_wf(a[idx].entries, name, a.len() as int, idx);
            },
            None => match a[idx].parent {
                Some(p) => {
                    if (p as int) < idx {
                        lemma_lookup_wf(a, p as int, name);
                    }
                },
                None => {},
            },
        }
    }
}

pub proof fn lemma_frame_entry_lookup_wf(
    entries: Seq<(Seq<char>, ValueS)>,
    name: Seq<char>,
    n: int,
    i: int,
)
    requires
        forall|j: int| 0 <= j < entries.len() ==> value_wf(#[trigger] entries[j].1, n),
    ensures
        frame_entry_lookup(entries, name) matches Some(v) ==> value_wf(v, n),
    decreases entries.len(),
{
    if entries.len() > 0 && !(entries.last().0 == name) {
        lemma_frame_entry_lookup_wf(entries.drop_last(), name, n, i);
    }
}

impl Scope {
    /// The global frame: empty, with no parent.
    pub fn global() -> (r: Self)
        ensures
            r.bindings@.len() == 0,
            r.parent is None,
    {
        Scope { bindings: Vec::new(), parent: None }
    }

    /// A child frame of the given frame, empty.
    pub fn inner(parent: usize) -> (r: Self)
        ensures
            r.bindings@.len() == 0,
            r.parent == Some(parent),
    {
        Scope { bindings: Vec::new(), parent: Some(parent) }
    }

    /// Bind a name, shadowing any earlier binding of it in this frame.
    pub fn set(&mut self, name: String, value: EvaluationValue)
        ensures
            final(self).bindings@ == old(self).bindings@.push((name, value)),
            final(self).parent == old(self).parent,
    {
        self.bindings.push((name, value));
    }

    /// The newest value bound to the name in this frame alone.
    fn get_local(scope: &Scope, name: &String, Ghost(fs): Ghost<FrameS>) -> (r: Option<
        EvaluationValue,
    >)
        requires
            frame_refines(*scope, fs),
        ensures
            match (r, frame_entry_lookup(fs.entries, name@)) {
                (Some(v), Some(s)) => value_refines(v, s),
                (None, None) => true,
                _ => false,
            },
    {
        let ghost entries = fs.entries;
        let mut i: usize = scope.bindings.len();
        proof {
            assert(entries.subrange(0, i as int) =~= entries);
        }
        while i > 0
            invariant
                i <= scope.bindings@.len(),
                frame_refines(*scope, fs),
                entries == fs.entries,
                frame_entry_lookup(fs.entries, name@) == frame_entry_lookup(
                    entries.subrange(0, i as int),
                    name@,
                ),
            decreases i,
        {
            let ghost i0 = i as int;
            i = i - 1;
            let hit = scope.bindings[i].0 == *name;
            proof {
                assert(entry_refines(scope.bindings@[i as int], fs.entries[i as int]));
                assert(entries.subrange(0, i0).drop_last() =~= entries.subrange(0, i as int));
                assert(entries.subrange(0, i0).last() == entries[i as int]);
            }
            if hit {
                return Some(duplicate_value(&scope.bindings[i].1));
            }
        }
        proof {
            assert(frame_entry_lookup(entries.subrange(0, 0), name@) is None);
        }
        None
    }

    /// The name's value in the frame at `idx` or up the parent chain, a
    /// copy of it; nothing when the name is bound nowhere on the chain.
    pub fn get(frames: &Vec<Scope>, idx: usize, name: &String, Ghost(sa): Ghost<Seq<FrameS>>) -> (r:
        Option<EvaluationValue>)
        requires
            arena_refines(frames@, sa),
        ensures
            match (r, spec_lookup(sa, idx as int, name@)) {
                (Some(v), Some(s)) => value_refines(v, s),
                (None, None) => true,
                _ => false,
            },
        decreases idx,
    {
        if idx >= frames.len() {
            return None;
        }
        let scope = &frames[idx];
        match Scope::get_local(scope, name, Ghost(sa[idx as int])) {
            Some(v) => Some(v),
            None => match scope.parent {
                Some(p) => if p < idx {
                    Scope::get(frames, p, name, Ghost(sa))
                } else {
                    None
                },
                None => None,
            },
        }
    }
}


/// The `ascii` capability: echo the byte raw to the output and hand it
/// back as a number.
pub fn abstraction_ascii(byte: u8) -> (r: EvaluationValue)
    ensures
        value_refines(r, ValueS::Lit(from_u64_bits_of(byte as u64))),
{
    emit_byte(byte);
    flush_output();
    EvaluationValue::Literal(f64_bits_from_u64(byte as u64))
}

/// The `print` capability: write the number's decimal text to the output
/// and hand the number back unchanged.
pub fn abstraction_print(bits: u64) -> (r: EvaluationValue)
    ensures
        r == EvaluationValue::Literal(bits),
{
    let text = f64_bits_format_decimal(bits);
    emit_text(text.as_str());
    flush_output();
    EvaluationValue::Literal(bits)
}

/// The `sleep` capability: block for the number of milliseconds the value
/// truncates to, then hand the value back unchanged.
pub fn abstraction_sleep(bits: u64) -> (r: EvaluationValue)
    ensures
        r == EvaluationValue::Literal(bits),
{
    let ms = f64_bits_trunc_u64(bits);
    sleep_millis(ms);
    EvaluationValue::Literal(bits)
}

/// The `time` capability: the current epoch time in milliseconds as a
/// number, or a failure when the clock stands before the epoch.
pub fn abstraction_time() -> (r: Result<EvaluationValue, EvaluationError>)
    ensures
        r matches Ok(v) ==> v is Literal,
{
    match now_millis() {
        Some(ms) => Ok(EvaluationValue::Literal(f64_bits_from_u64(ms))),
        None => Err(EvaluationError::CapabilityFailure),
    }
}

/// The `input` capability in key mode: block for one key press and hand
/// back its character code, the enter key reading as ten.
pub fn abstraction_input_char() -> (r: Result<EvaluationValue, EvaluationError>)
    ensures
        r matches Ok(v) ==> v is Literal,
{
    match read_char_code() {
        Some(code) => Ok(EvaluationValue::Literal(f64_bits_from_u64(code as u64))),
        None => Err(EvaluationError::CapabilityFailure),
    }
}

/// The `input` capability in numeral mode: run the interactive entry loop
/// and hand back the entered number; an entry that is no numeral, or a
/// failing terminal, is a capability failure.
pub fn abstraction_input_numeric() -> (r: Result<EvaluationValue, EvaluationError>)
    ensures
        r matches Ok(v) ==> v is Literal,
{
    match read_numeric_entry() {
        Some(text) => {
            let entered = string_from_chars(&text);
            match f64_bits_parse_decimal(entered.as_str()) {
                Some(bits) => Ok(EvaluationValue::Literal(bits)),
                None => Err(EvaluationError::CapabilityFailure),
            }
        },
        None => Err(EvaluationError::CapabilityFailure),
    }
}

/// The builtin dispatch: performs the capability the parameter names, if
/// any, and hands back the value that replaces the body's result.
fn dispatch_builtin(
    param: &String,
    v: EvaluationValue,
    Ghost(vs): Ghost<ValueS>,
    Ghost(n): Ghost<int>,
) -> (res: (Result<EvaluationValue, EvaluationError>, Ghost<ValueS>))
    requires
        value_refines(v, vs),
        value_wf(vs, n),
    ensures
        res.0 matches Ok(v2) ==> value_refines(v2, res.1@) && value_wf(res.1@, n),
        ({
            let sd = spec_dispatch(param@, vs);
            &&& (sd matches Some(Ok(dv)) ==> res.0 is Ok && res.1@ == dv)
            &&& (sd matches Some(Err(e)) ==> res.0 == Err::<EvaluationValue, EvaluationError>(e))
        }),
{
    if *param == String::from_str("ascii") {
        match v {
            EvaluationValue::Literal(bits) => {
                if check_ge_255_bits(bits) {
                    (Err(EvaluationError::AsciiRange), Ghost(ValueS::Unit))
                } else {
                    let byte = f64_bits_as_u8(bits);
                    (
                        Ok(abstraction_ascii(byte)),
                        Ghost(
                            match vs {
                                ValueS::Lit(_) => ValueS::Lit(from_u64_bits_of(
                                    as_u8_of(bits) as u64,
                                )),
                                _ => ValueS::AnyLit,
                            },
                        ),
                    )
                }
            },
            _ => (Err(EvaluationError::AsciiRange), Ghost(ValueS::Unit)),
        }
    } else if *param == String::from_str("input") {
        match v {
            EvaluationValue::Literal(bits) => {
                if check_zero_bits(bits) {
                    match abstraction_input_char() {
                        Ok(v) => (Ok(v), Ghost(ValueS::AnyLit)),
                        Err(e) => (Err(e), Ghost(ValueS::Unit)),
                    }
                } else if check_one_bits(bits) {
                    match abstraction_input_numeric() {
                        Ok(v) => (Ok(v), Ghost(ValueS::AnyLit)),
                        Err(e) => (Err(e), Ghost(ValueS::Unit)),
                    }
                } else {
                    (Err(EvaluationError::InputMode), Ghost(ValueS::Unit))
                }
            },
            _ => (Err(EvaluationError::InputMode), Ghost(ValueS::Unit)),
        }
    } else if *param == String::from_str("time") {
        match abstraction_time() {
            Ok(v) => (Ok(v), Ghost(ValueS::AnyLit)),
            Err(e) => (Err(e), Ghost(ValueS::Unit)),
        }
    } else if *param == String::from_str("print") {
        match v {
            EvaluationValue::Literal(bits) => (
                Ok(abstraction_print(bits)),
                Ghost(
                    match vs {
                        ValueS::Lit(b) => ValueS::Lit(b),
                        _ => ValueS::AnyLit,
                    },
                ),
            ),
            _ => (Err(EvaluationError::CapabilityOperand), Ghost(ValueS::Unit)),
        }
    } else if *param == String::from_str("sleep") {
        match v {
            EvaluationValue::Literal(bits) => (
                Ok(abstraction_sleep(bits)),
                Ghost(
                    match vs {
                        ValueS::Lit(b) => ValueS::Lit(b),
                        _ => ValueS::AnyLit,
                    },
                ),
            ),
            _ => (Err(EvaluationError::CapabilityOperand), Ghost(ValueS::Unit)),
        }
    } else {
        (Ok(v), Ghost(vs))
    }
}

/// The evaluator: the arena of frames, the global frame at index zero.
pub struct Interpreter {
    pub frames: Vec<Scope>,
}

impl Interpreter {
    /// A fresh evaluator: one empty global frame.
    pub fn new() -> (r: Self)
        ensures
            r.frames@.len() == 1,
            r.frames@[0].bindings@.len() == 0,
            r.frames@[0].parent is None,
    {
        let mut frames: Vec<Scope> = Vec::new();
        frames.push(Scope::global());
        Interpreter { frames }
    }
}

/// The unconditional frame conditions every evaluation step meets: the new
/// ghost arena abstracts the frames, stays well formed, extends the given
/// one, no existing frame is touched, and an ok result realizes its
/// abstract value.
pub open spec fn eval_frame_post(
    sa: Seq<FrameS>,
    frames0: Seq<Scope>,
    frames1: Seq<Scope>,
    ra: Seq<FrameS>,
    r: Result<EvaluationValue, EvaluationError>,
    rv: ValueS,
) -> bool {
    &&& arena_refines(frames1, ra)
    &&& wf_arena(ra)
    &&& sa.len() <= ra.len()
    &&& (forall|i: int| 0 <= i < sa.len() ==> ra[i] == #[trigger] sa[i])
    &&& frames0.len() <= frames1.len()
    &&& (forall|i: int| 0 <= i < frames0.len() ==> frames1[i] == #[trigger] frames0[i])
    &&& (r matches Ok(v) ==> value_refines(v, rv) && value_wf(rv, ra.len() as int))
}

/// Where the semantics speaks, the evaluation step agrees with it exactly.
pub open spec fn eval_post(
    sres: Option<(Result<ValueS, EvaluationError>, Seq<FrameS>)>,
    r: Result<EvaluationValue, EvaluationError>,
    ra: Seq<FrameS>,
    rv: ValueS,
) -> bool {
    match sres {
        None => true,
        Some((sr, sa2)) => ra == sa2 && (match sr {
            Ok(sv) => r is Ok && rv == sv,
            Err(e) => r == Err::<EvaluationValue, EvaluationError>(e),
        }),
    }
}


/// Pushing one matching binding onto matching frames keeps them matching.
pub proof fn lemma_frame_refines_push(
    f: Scope,
    fs: FrameS,
    f2: Scope,
    name: String,
    v: EvaluationValue,
    sv: ValueS,
)
    requires
        frame_refines(f, fs),
        f2.bindings@ == f.bindings@.push((name, v)),
        f2.parent == f.parent,
        value_refines(v, sv),
    ensures
        frame_refines(f2, FrameS { entries: fs.entries.push((name@, sv)), parent: fs.parent }),
{
    let fs2 = FrameS { entries: fs.entries.push((name@, sv)), parent: fs.parent };
    assert forall|i: int|
        0 <= i < fs2.entries.len() implies entry_refines(#[trigger] f2.bindings@[i], fs2.entries[i]) by {
        if i < fs.entries.len() {
            assert(f2.bindings@[i] == f.bindings@[i]);
            assert(fs2.entries[i] == fs.entries[i]);
            assert(entry_refines(f.bindings@[i], fs.entries[i]));
        } else {
            assert(f2.bindings@[i] == (name, v));
            assert(fs2.entries[i] == (name@, sv));
        }
    }
}

/// Appending a frame whose parent and values point into the arena keeps it
/// well formed.
pub proof fn lemma_wf_arena_push(a: Seq<FrameS>, fr: FrameS)
    requires
        wf_arena(a),
        fr.parent matches Some(p) ==> p < a.len(),
        forall|j: int| 0 <= j < fr.entries.len() ==> value_wf(#[trigger] fr.entries[j].1, a.len() + 1 as int),
    ensures
        wf_arena(a.push(fr)),
{
    let a2 = a.push(fr);
    assert forall|i: int| 0 <= i < a2.len() implies frame_wf(#[trigger] a2[i], i, a2.len() as int) by {
        if i < a.len() {
            assert(frame_wf(a[i], i, a.len() as int));
            assert forall|j: int| 0 <= j < a2[i].entries.len() implies value_wf(
                #[trigger] a2[i].entries[j].1,
                a2.len() as int,
            ) by {
                assert(value_wf(a[i].entries[j].1, a.len() as int));
            }
        } else {
            assert(a2[i] == fr);
        }
    }
}

impl Interpreter {
    /// Evaluate one expression in the frame `env`.
    fn evaluate_expr(
        &mut self,
        expr: &Expr,
        env: usize,
        fuel: u64,
        Ghost(sa): Ghost<Seq<FrameS>>,
    ) -> (res: (Result<EvaluationValue, EvaluationError>, Ghost<Seq<FrameS>>, Ghost<ValueS>))
        requires
            arena_refines(old(self).frames@, sa),
            wf_arena(sa),
            env < sa.len(),
        ensures
            eval_frame_post(sa, old(self).frames@, final(self).frames@, res.1@, res.0, res.2@),
            eval_post(spec_eval_expr(fuel as nat, sa, env as int, *expr), res.0, res.1@, res.2@),
        decreases fuel,
    {
        if fuel == 0 {
            return (Err(EvaluationError::DepthLimit), Ghost(sa), Ghost(ValueS::Unit));
        }
        match expr {
            Expr::Literal(bits) => (
                Ok(EvaluationValue::Literal(*bits)),
                Ghost(sa),
                Ghost(ValueS::Lit(*bits)),
            ),
            Expr::Identifier(name) => match Scope::get(&self.frames, env, name, Ghost(sa)) {
                Some(v) => {
                    proof {
                        lemma_lookup_wf(sa, env as int, name@);
                    }
                    let ghost sv = opt_value(spec_lookup(sa, env as int, name@));
                    (Ok(v), Ghost(sa), Ghost(sv))
                },
                None => (
                    Err(EvaluationError::UnboundBinding(name.clone())),
                    Ghost(sa),
                    Ghost(ValueS::Unit),
                ),
            },
            Expr::Abstraction { param, body } => {
                let v = EvaluationValue::Closer(
                    Abstraction {
                        param: param.clone(),
                        body: Box::new(duplicate_expr(&**body)),
                        env,
                    },
                );
                (Ok(v), Ghost(sa), Ghost(ValueS::Closure { param: param@, body: **body, env }))
            },
            Expr::Recursion(inner) => (
                Ok(EvaluationValue::Recursion(Box::new(duplicate_expr(&**inner)))),
                Ghost(sa),
                Ghost(ValueS::Rec(**inner)),
            ),
            Expr::BinaryOperation { op, lhs, rhs } => self.evaluate_binary(
                *op,
                &**lhs,
                &**rhs,
                env,
                fuel - 1,
                Ghost(sa),
            ),
            Expr::Application { func, arg } => self.evaluate_application(
                &**func,
                &**arg,
                env,
                false,
                fuel - 1,
                Ghost(sa),
            ),
        }
    }

    /// Evaluate a binary operation: both operands, left first, must come
    /// out as literals.
    fn evaluate_binary(
        &mut self,
        op: BinaryOp,
        lhs: &Expr,
        rhs: &Expr,
        env: usize,
        fuel: u64,
        Ghost(sa): Ghost<Seq<FrameS>>,
    ) -> (res: (Result<EvaluationValue, EvaluationError>, Ghost<Seq<FrameS>>, Ghost<ValueS>))
        requires
            arena_refines(old(self).frames@, sa),
            wf_arena(sa),
            env < sa.len(),
        ensures
            eval_frame_post(sa, old(self).frames@, final(self).frames@, res.1@, res.0, res.2@),
            eval_post(
                spec_eval_binary(fuel as nat, sa, env as int, op, *lhs, *rhs),
                res.0,
                res.1@,
                res.2@,
            ),
        decreases fuel,
    {
        if fuel == 0 {
            return (Err(EvaluationError::DepthLimit), Ghost(sa), Ghost(ValueS::Unit));
        }
        let (r1, Ghost(sa1), Ghost(sv1)) = self.evaluate_expr(lhs, env, fuel - 1, Ghost(sa));
        let lv = match r1 {
            Err(e) => {
                return (Err(e), Ghost(sa1), Ghost(ValueS::Unit));
            },
            Ok(v) => v,
        };
        let (r2, Ghost(sa2), Ghost(sv2)) = self.evaluate_expr(rhs, env, fuel - 1, Ghost(sa1));
        let rv = match r2 {
            Err(e) => {
                return (Err(e), Ghost(sa2), Ghost(ValueS::Unit));
            },
            Ok(v) => v,
        };
        match (lv, rv) {
            (EvaluationValue::Literal(l), EvaluationValue::Literal(r)) => {
                let bits = apply_binop(op, l, r);
                let ghost sv = match (sv1, sv2) {
                    (ValueS::Lit(a), ValueS::Lit(b)) => ValueS::Lit(spec_binop_bits(op, a, b)),
                    _ => ValueS::AnyLit,
                };
                (Ok(EvaluationValue::Literal(bits)), Ghost(sa2), Ghost(sv))
            },
            _ => (Err(EvaluationError::NonNumericOperand), Ghost(sa2), Ghost(ValueS::Unit)),
        }
    }

    /// Evaluate an application, possibly in recursion context.
    fn evaluate_application(
        &mut self,
        func_e: &Expr,
        arg_e: &Expr,
        env: usize,
        rec_ctx: bool,
        fuel: u64,
        Ghost(sa): Ghost<Seq<FrameS>>,
    ) -> (res: (Result<EvaluationValue, EvaluationError>, Ghost<Seq<FrameS>>, Ghost<ValueS>))
        requires
            arena_refines(old(self).frames@, sa),
            wf_arena(sa),
            env < sa.len(),
        ensures
            eval_frame_post(sa, old(self).frames@, final(self).frames@, res.1@, res.0, res.2@),
            eval_post(
                spec_eval_application(fuel as nat, sa, env as int, *func_e, *arg_e, rec_ctx),
                res.0,
                res.1@,
                res.2@,
            ),
        decreases fuel,
    {
        if fuel == 0 {
            return (Err(EvaluationError::DepthLimit), Ghost(sa), Ghost(ValueS::Unit));
        }
        let (r1, Ghost(sa1), Ghost(sv_f)) = self.evaluate_expr(func_e, env, fuel - 1, Ghost(sa));
        let fv = match r1 {
            Err(e) => {
                return (Err(e), Ghost(sa1), Ghost(ValueS::Unit));
            },
            Ok(v) => v,
        };
        let (r2, Ghost(sa2), Ghost(sv_a)) = self.evaluate_expr(arg_e, env, fuel - 1, Ghost(sa1));
        let av = match r2 {
            Err(e) => {
                return (Err(e), Ghost(sa2), Ghost(ValueS::Unit));
            },
            Ok(v) => v,
        };
        if rec_ctx {
            let zero = match &av {
                EvaluationValue::Literal(b) => check_zero_bits(*b),
                _ => false,
            };
            if zero {
                return (Ok(EvaluationValue::HALT), Ghost(sa2), Ghost(ValueS::Halt));
            }
        }
        match fv {
            EvaluationValue::Closer(abstraction) => {
                let ghost sparam = match sv_f {
                    ValueS::Closure { param, body, env } => param,
                    _ => Seq::empty(),
                };
                let ghost sbody = match sv_f {
                    ValueS::Closure { param, body, env } => body,
                    _ => Expr::Literal(0),
                };
                let ghost scenv = match sv_f {
                    ValueS::Closure { param, body, env } => env,
                    _ => 0usize,
                };
                self.apply_closure(
                    abstraction,
                    av,
                    func_e,
                    fuel - 1,
                    Ghost(sa2),
                    Ghost(sparam),
                    Ghost(sbody),
                    Ghost(scenv),
                    Ghost(sv_a),
                )
            },
            EvaluationValue::Literal(b) => (
                Ok(EvaluationValue::Literal(b)),
                Ghost(sa2),
                Ghost(sv_f),
            ),
            EvaluationValue::Unit => (Ok(EvaluationValue::Unit), Ghost(sa2), Ghost(sv_f)),
            EvaluationValue::HALT => (Ok(EvaluationValue::HALT), Ghost(sa2), Ghost(sv_f)),
            EvaluationValue::Recursion(_) => (
                Err(EvaluationError::FunctionPosition),
                Ghost(sa2),
                Ghost(ValueS::Unit),
            ),
        }
    }

    /// Apply a closure to an evaluated argument, running the builtin
    /// dispatch and the recursion protocol.
    fn apply_closure(
        &mut self,
        abstraction: Abstraction,
        av: EvaluationValue,
        func_e: &Expr,
        fuel: u64,
        Ghost(sa): Ghost<Seq<FrameS>>,
        Ghost(sparam): Ghost<Seq<char>>,
        Ghost(sbody): Ghost<Expr>,
        Ghost(scenv): Ghost<usize>,
        Ghost(sv_a): Ghost<ValueS>,
    ) -> (res: (Result<EvaluationValue, EvaluationError>, Ghost<Seq<FrameS>>, Ghost<ValueS>))
        requires
            arena_refines(old(self).frames@, sa),
            wf_arena(sa),
            abstraction.param@ == sparam,
            *abstraction.body == sbody,
            abstraction.env == scenv,
            scenv < sa.len(),
            value_refines(av, sv_a),
            value_wf(sv_a, sa.len() as int),
        ensures
            eval_frame_post(sa, old(self).frames@, final(self).frames@, res.1@, res.0, res.2@),
            eval_post(
                spec_apply_closure(fuel as nat, sa, sparam, sbody, scenv, sv_a, *func_e),
                res.0,
                res.1@,
                res.2@,
            ),
        decreases fuel,
    {
        if fuel == 0 {
            return (Err(EvaluationError::DepthLimit), Ghost(sa), Ghost(ValueS::Unit));
        }
        let Abstraction { param, body, env: cenv } = abstraction;
        let mut frame = Scope::inner(cenv);
        frame.set(param.clone(), av);
        self.frames.push(frame);
        let ghost frames_pushed = self.frames@;
        let idx: usize = self.frames.len() - 1;
        let ghost new_frame = FrameS { entries: seq![(sparam, sv_a)], parent: Some(scenv) };
        let ghost sa3 = sa.push(new_frame);
        proof {
            assert(self.frames@[sa.len() as int].bindings@ == Seq::<(
                String,
                EvaluationValue,
            )>::empty().push((param, av)));
            assert(frame_refines(self.frames@[sa.len() as int], new_frame));
            assert forall|i: int| 0 <= i < sa3.len() implies frame_refines(
                #[trigger] self.frames@[i],
                sa3[i],
            ) by {
                if i < sa.len() {
                    assert(frame_refines(old(self).frames@[i], sa[i]));
                }
            }
            lemma_wf_arena_push(sa, new_frame);
        }
        let (r3, Ghost(sa4), Ghost(sv_b)) = self.evaluate_expr(&*body, idx, fuel - 1, Ghost(sa3));
        proof {
            assert forall|i: int| 0 <= i < sa.len() implies sa4[i] == #[trigger] sa[i] by {
                assert(sa4[i] == sa3[i]);
                assert(sa3[i] == sa[i]);
            }
            assert forall|i: int|
                0 <= i < old(self).frames@.len() implies self.frames@[i] == #[trigger] old(
                self,
            ).frames@[i] by {
                assert(self.frames@[i] == frames_pushed[i]);
            }
        }
        let bv = match r3 {
            Err(e) => {
                return (Err(e), Ghost(sa4), Ghost(ValueS::Unit));
            },
            Ok(v) => v,
        };
        match bv {
            EvaluationValue::Recursion(inner) => {
                let (r4, Ghost(sa5), Ghost(sv_b2)) = self.evaluate_expr(
                    &*inner,
                    idx,
                    fuel - 1,
                    Ghost(sa4),
                );
                let ghost frames_r3 = self.frames@;
                proof {
                    assert forall|i: int| 0 <= i < sa.len() implies sa5[i] == #[trigger] sa[i] by {
                        assert(sa5[i] == sa4[i]);
                    }
                    assert forall|i: int|
                        0 <= i < old(self).frames@.len() implies self.frames@[i] == #[trigger] old(
                        self,
                    ).frames@[i] by {
                        assert(self.frames@[i] == frames_r3[i]);
                    }
                }
                let bv2 = match r4 {
                    Err(e) => {
                        return (Err(e), Ghost(sa5), Ghost(ValueS::Unit));
                    },
                    Ok(v) => v,
                };
                let kind_ok = match &bv2 {
                    EvaluationValue::Literal(_) => true,
                    EvaluationValue::HALT => true,
                    _ => false,
                };
                if !kind_ok {
                    return (Err(EvaluationError::RecursionValue), Ghost(sa5), Ghost(ValueS::Unit));
                }
                let is_halt = match &bv2 {
                    EvaluationValue::HALT => true,
                    _ => false,
                };
                if is_halt {
                    return (Ok(EvaluationValue::HALT), Ghost(sa5), Ghost(ValueS::Halt));
                }
                let (r5, Ghost(_sdv)) = dispatch_builtin(
                    &param,
                    bv2,
                    Ghost(sv_b2),
                    Ghost(sa5.len() as int),
                );
                match r5 {
                    Err(e) => {
                        return (Err(e), Ghost(sa5), Ghost(ValueS::Unit));
                    },
                    Ok(_) => {},
                }
                let ghost frames_r4 = self.frames@;
                let out = self.evaluate_application(func_e, &*inner, idx, true, fuel - 1, Ghost(sa5));
                proof {
                    assert forall|i: int| 0 <= i < sa.len() implies out.1@[i] == #[trigger] sa[i] by {
                        assert(out.1@[i] == sa5[i]);
                    }
                    assert forall|i: int|
                        0 <= i < old(self).frames@.len() implies self.frames@[i] == #[trigger] old(
                        self,
                    ).frames@[i] by {
                        assert(self.frames@[i] == frames_r4[i]);
                    }
                }
                out
            },
            EvaluationValue::HALT => (Ok(EvaluationValue::HALT), Ghost(sa4), Ghost(ValueS::Halt)),
            other => {
                let (r5, Ghost(sdv)) = dispatch_builtin(
                    &param,
                    other,
                    Ghost(sv_b),
                    Ghost(sa4.len() as int),
                );
                match r5 {
                    Err(e) => (Err(e), Ghost(sa4), Ghost(ValueS::Unit)),
                    Ok(dv) => (Ok(dv), Ghost(sa4), Ghost(sdv)),
                }
            },
        }
    }

    /// Evaluate one statement against the global frame.
    fn evaluate_statement(&mut self, statement: &Statement, Ghost(sa): Ghost<Seq<FrameS>>) -> (res:
        (Result<EvaluationValue, EvaluationError>, Ghost<Seq<FrameS>>, Ghost<ValueS>))
        requires
            arena_refines(old(self).frames@, sa),
            wf_arena(sa),
            sa.len() >= 1,
        ensures
            arena_refines(final(self).frames@, res.1@),
            wf_arena(res.1@),
            res.1@.len() >= 1,
            res.0 matches Ok(v) ==> value_refines(v, res.2@),
            match spec_eval_statement(sa, *statement) {
                None => true,
                Some((sr, sa2)) => res.1@ == sa2 && (match sr {
                    Ok(sv) => res.0 is Ok && res.2@ == sv,
                    Err(e) => res.0 == Err::<EvaluationValue, EvaluationError>(e),
                }),
            },
    {
        match statement {
            Statement::Binding { name, value } => {
                let (r1, Ghost(sa1), Ghost(sv)) = self.evaluate_expr(
                    value,
                    0,
                    EVAL_DEPTH_LIMIT,
                    Ghost(sa),
                );
                match r1 {
                    Err(e) => (Err(e), Ghost(sa1), Ghost(ValueS::Unit)),
                    Ok(v) => {
                        let dup = duplicate_value(&v);
                        let ghost f0 = sa1[0];
                        let ghost frames_before = self.frames@;
                        let name_c = name.clone();
                        let ghost name_g = name_c;
                        let ghost dup_g = dup;
                        let frame = &mut self.frames[0];
                        frame.set(name_c, dup);
                        let ghost sa2 = sa1.update(
                            0,
                            FrameS { entries: f0.entries.push((name@, sv)), parent: f0.parent },
                        );
                        proof {
                            assert(self.frames@ == frames_before.update(
                                0,
                                self.frames@[0],
                            ));
                            assert(frame_refines(frames_before[0], f0));
                            assert(self.frames@[0].bindings@ == frames_before[0].bindings@.push(
                                (name_g, dup_g),
                            ));
                            assert(name_g@ == name@);
                            assert(value_refines(dup_g, sv));
                            lemma_frame_refines_push(
                                frames_before[0],
                                f0,
                                self.frames@[0],
                                name_g,
                                dup_g,
                                sv,
                            );
                            assert(sa2[0] == (FrameS {
                                entries: f0.entries.push((name_g@, sv)),
                                parent: f0.parent,
                            }));
                            assert(frame_refines(self.frames@[0], sa2[0]));
                            assert forall|i: int| 0 <= i < sa2.len() implies frame_refines(
                                #[trigger] self.frames@[i],
                                sa2[i],
                            ) by {
                                if i != 0 {
                                    assert(frame_refines(frames_before[i], sa1[i]));
                                }
                            }
                            assert(frame_wf(sa2[0], 0, sa2.len() as int));
                            assert forall|i: int| 0 <= i < sa2.len() implies frame_wf(
                                #[trigger] sa2[i],
                                i,
                                sa2.len() as int,
                            ) by {
                                if i != 0 {
                                    assert(frame_wf(sa1[i], i, sa1.len() as int));
                                }
                            }
                        }
                        (Ok(v), Ghost(sa2), Ghost(sv))
                    },
                }
            },
            Statement::ExpressionStmt(e) => {
                let (r1, Ghost(sa1), Ghost(sv)) = self.evaluate_expr(
                    e,
                    0,
                    EVAL_DEPTH_LIMIT,
                    Ghost(sa),
                );
                (r1, Ghost(sa1), Ghost(sv))
            },
            Statement::Comment(_) => (Ok(EvaluationValue::Unit), Ghost(sa), Ghost(ValueS::Unit)),
            Statement::Eof => (Ok(EvaluationValue::Unit), Ghost(sa), Ghost(ValueS::Unit)),
        }
    }

    /// Evaluate a whole program from a fresh global frame: each
    /// statement's value in order, or the first evaluation failure, with
    /// the values produced before it discarded.
    pub fn evaluate_program(&mut self, program: &Program) -> (r: Result<
        Vec<EvaluationValue>,
        EvaluationError,
    >)
        requires
            old(self).frames@.len() == 1,
            old(self).frames@[0].bindings@.len() == 0,
            old(self).frames@[0].parent is None,
        ensures
            match spec_eval_program(program.statements@) {
                None => true,
                Some((sr, arena)) => match sr {
                    Ok(svs) => r matches Ok(vs) && vs@.len() == svs.len() && (forall|j: int|
                        0 <= j < svs.len() ==> value_refines(#[trigger] vs@[j], svs[j])),
                    Err(e) => r == Err::<Vec<EvaluationValue>, EvaluationError>(e),
                },
            },
    {
        let ghost stmts = program.statements@;
        let ghost mut sa = spec_initial_arena();
        proof {
            assert(frame_refines(self.frames@[0], sa[0]));
            assert(arena_refines(self.frames@, sa));
            assert(frame_wf(sa[0], 0, 1));
            assert(wf_arena(sa));
        }
        let mut results: Vec<EvaluationValue> = Vec::new();
        let ghost mut svs: Seq<ValueS> = Seq::empty();
        let mut i: usize = 0;
        while i < program.statements.len()
            invariant
                i <= stmts.len(),
                stmts == program.statements@,
                arena_refines(self.frames@, sa),
                wf_arena(sa),
                sa.len() >= 1,
                results@.len() == svs.len(),
                forall|j: int| 0 <= j < svs.len() ==> value_refines(#[trigger] results@[j], svs[j]),
                spec_eval_program(stmts) is None || spec_eval_program(stmts)
                    == spec_eval_statements(stmts, i as int, sa, svs),
            decreases stmts.len() - i,
        {
            let ghost sa0 = sa;
            let ghost svs0 = svs;
            let ghost i0 = i as int;
            let stmt = &program.statements[i];
            let (r1, Ghost(sa1), Ghost(sv)) = self.evaluate_statement(stmt, Ghost(sa));
            proof {
                sa = sa1;
            }
            match r1 {
                Err(e) => {
                    proof {
                        if spec_eval_program(stmts) is Some {
                            assert(spec_eval_statements(stmts, i0, sa0, svs0) == Some((
                                Err::<Seq<ValueS>, EvaluationError>(e),
                                sa1,
                            )));
                        }
                    }
                    return Err(e);
                },
                Ok(v) => {
                    results.push(v);
                    proof {
                        svs = svs0.push(sv);
                        if spec_eval_program(stmts) is Some {
                            assert(spec_eval_statements(stmts, i0, sa0, svs0)
                                == spec_eval_statements(stmts, i0 + 1, sa1, svs));
                        }
                    }
                    i = i + 1;
                },
            }
        }
        proof {
            if spec_eval_program(stmts) is Some {
                assert(spec_eval_statements(stmts, i as int, sa, svs) == Some((
                    Ok::<Seq<ValueS>, EvaluationError>(svs),
                    sa,
                )));
            }
        }
        Ok(results)
    }
}


} // verus!
