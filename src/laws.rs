//! Laws of the evaluation engine, stated over the model of `machine`.
use vstd::prelude::*;

use crate::command::{Command, MathOp, Register, command_of};
use crate::machine::{
    ErrorView, MachineState, StepView, deliver_spec, first_index, fn_names,
    lemma_first_index_absent, lemma_first_index_found, skip_comment, step_spec,
};
use crate::number::is_float_literal;

verus! {

/// `t` is read as a number in `m`: it names no command and no function, and
/// it is a float literal.
pub open spec fn reads_as_number(m: MachineState, t: Seq<char>) -> bool {
    &&& command_of(t) is None
    &&& first_index(fn_names(m.fns), t) is None
    &&& is_float_literal(t)
}

/// The state after `n` steps.
pub open spec fn run_steps(m: MachineState, n: nat) -> MachineState
    decreases n,
{
    if n == 0 {
        m
    } else {
        run_steps(step_spec(m).0, (n - 1) as nat)
    }
}

/// What the `n`-th step (counting from 0) reports.
pub open spec fn nth_outcome(m: MachineState, n: nat) -> Result<StepView, ErrorView> {
    step_spec(run_steps(m, n)).1
}

proof fn lemma_push_literal(m: MachineState, a: Seq<char>, rest: Seq<Seq<char>>)
    requires
        m.ops == seq![a] + rest,
        reads_as_number(m, a),
    ensures
        step_spec(m).0 == m.with_stack(m.stack.push(a)).with_ops(rest),
        step_spec(m).1 == Ok::<StepView, ErrorView>(StepView::Next),
{
    assert(m.ops.drop_first() =~= rest);
}

/// Running `a b op`, where `a` and `b` are read as numbers and `op` names a
/// float operation of two operands, asks for `op` on `a` then `b` (the
/// earlier pushed first) and leaves the stack as it was; the answer is then
/// pushed on it.
pub proof fn law_binary_operand_order(
    m: MachineState,
    a: Seq<char>,
    b: Seq<char>,
    t: Seq<char>,
    op: MathOp,
    rest: Seq<Seq<char>>,
    answer: Seq<Seq<char>>,
)
    requires
        m.ops == seq![a, b, t] + rest,
        reads_as_number(m, a),
        reads_as_number(m, b),
        command_of(t) == Some(Command::Math(op)),
        op.arity_spec() == 2,
    ensures
        nth_outcome(m, 0) == Ok::<StepView, ErrorView>(StepView::Next),
        nth_outcome(m, 1) == Ok::<StepView, ErrorView>(StepView::Next),
        nth_outcome(m, 2) == Ok::<StepView, ErrorView>(StepView::Compute(op, seq![a, b])),
        run_steps(m, 3) == m.with_ops(rest).with_answer_below(false),
        deliver_spec(run_steps(m, 3), answer).stack == m.stack + answer,
{
    reveal_with_fuel(run_steps, 4);
    let m1 = m.with_stack(m.stack.push(a)).with_ops(seq![b, t] + rest);
    assert(seq![a, b, t] + rest =~= seq![a] + (seq![b, t] + rest));
    lemma_push_literal(m, a, seq![b, t] + rest);
    let m2 = m1.with_stack(m1.stack.push(b)).with_ops(seq![t] + rest);
    assert(seq![b, t] + rest =~= seq![b] + (seq![t] + rest));
    lemma_push_literal(m1, b, seq![t] + rest);
    assert((seq![t] + rest).drop_first() =~= rest);
    let n = m.stack.len();
    assert(m2.stack.take(n as int) =~= m.stack);
    assert(m2.stack.skip(n as int) =~= seq![a, b]);
    assert(run_steps(m, 1) == m1);
    assert(run_steps(m, 2) == m2);
    assert(run_steps(m, 3) == m.with_ops(rest).with_answer_below(false));
}

/// Running `v dup x`, where `v` is read as a number, `dup` names the
/// duplication and `x` the multiplication, asks for `v` times `v`.
pub proof fn law_dup_multiply(
    m: MachineState,
    v: Seq<char>,
    dup: Seq<char>,
    x: Seq<char>,
    rest: Seq<Seq<char>>,
)
    requires
        m.ops == seq![v, dup, x] + rest,
        reads_as_number(m, v),
        command_of(dup) == Some(Command::Dup),
        command_of(x) == Some(Command::Math(MathOp::Mul)),
    ensures
        nth_outcome(m, 2) == Ok::<StepView, ErrorView>(StepView::Compute(MathOp::Mul, seq![v, v])),
        run_steps(m, 3) == m.with_ops(rest).with_answer_below(false),
{
    reveal_with_fuel(run_steps, 4);
    let m1 = m.with_stack(m.stack.push(v)).with_ops(seq![dup, x] + rest);
    assert(seq![v, dup, x] + rest =~= seq![v] + (seq![dup, x] + rest));
    lemma_push_literal(m, v, seq![dup, x] + rest);
    assert((seq![dup, x] + rest).drop_first() =~= seq![x] + rest);
    let m2 = m1.with_stack(m1.stack.push(v)).with_ops(seq![x] + rest);
    assert(step_spec(m1).0 == m2);
    assert((seq![x] + rest).drop_first() =~= rest);
    let n = m.stack.len();
    assert(m2.stack.take(n as int) =~= m.stack);
    assert(m2.stack.skip(n as int) =~= seq![v, v]);
    assert(run_steps(m, 1) == m1);
    assert(run_steps(m, 2) == m2);
    assert(run_steps(m, 3) == m.with_ops(rest).with_answer_below(false));
}

/// Storing the top of the stack into a register and recalling that register
/// leaves the stack as it was, with the value in the register.
pub proof fn law_store_recall(
    m: MachineState,
    store: Seq<char>,
    recall: Seq<char>,
    r: Register,
    rest: Seq<Seq<char>>,
)
    requires
        m.ops == seq![store, recall] + rest,
        m.stack.len() >= 1,
        command_of(store) == Some(Command::Store(r)),
        command_of(recall) == Some(Command::Recall(r)),
    ensures
        nth_outcome(m, 0) == Ok::<StepView, ErrorView>(StepView::Next),
        nth_outcome(m, 1) == Ok::<StepView, ErrorView>(StepView::Next),
        run_steps(m, 2) == m.with_register(r, m.stack.last()).with_ops(rest),
{
    reveal_with_fuel(run_steps, 3);
    assert((seq![store, recall] + rest).drop_first() =~= seq![recall] + rest);
    assert((seq![recall] + rest).drop_first() =~= rest);
    let m1 = m.with_stack(m.stack.drop_last()).with_register(r, m.stack.last()).with_ops(
        seq![recall] + rest,
    );
    assert(step_spec(m).0 == m1);
    assert(m1.stack.push(m.stack.last()) =~= m.stack);
    assert(run_steps(m, 1) == m1);
}

/// A command run on fewer values than it needs fails with a stack underflow
/// that names it and the depth it needs, and changes nothing but the queue.
pub proof fn law_underflow(m: MachineState, t: Seq<char>, cmd: Command, rest: Seq<Seq<char>>)
    requires
        m.ops == seq![t] + rest,
        command_of(t) == Some(cmd),
        m.stack.len() < cmd.depth_spec(),
    ensures
        step_spec(m).1 == Err::<StepView, ErrorView>(
            ErrorView::StackUnderflow { command: t, depth: cmd.depth_spec() },
        ),
        step_spec(m).0 == m.with_ops(rest),
{
    assert(m.ops.drop_first() =~= rest);
}

/// What answers float operations: the results of an operation on operands.
pub type Host = spec_fn(MathOp, Seq<Seq<char>>) -> Seq<Seq<char>>;

/// A way to combine two values into one.
pub type Combine = spec_fn(Seq<char>, Seq<char>) -> Seq<char>;

/// One step, with a float operation answered at once by `host`.
pub open spec fn settle(m: MachineState, host: Host) -> MachineState {
    match step_spec(m) {
        (m1, Ok(StepView::Compute(op, args))) => deliver_spec(m1, host(op, args)),
        (m1, _) => m1,
    }
}

/// The state after `n` steps, each float operation answered by `host`.
pub open spec fn run_with(
    m: MachineState,
    host: Host,
    n: nat,
) -> MachineState
    decreases n,
{
    if n == 0 {
        m
    } else {
        run_with(settle(m, host), host, (n - 1) as nat)
    }
}

/// `f(... f(f(s[0], s[1]), s[2]) ..., s[n-1])`: left to right, in push order.
pub open spec fn fold_left(s: Seq<Seq<char>>, f: Combine) -> Seq<char>
    decreases s.len(),
{
    if s.len() <= 1 {
        s[0]
    } else {
        f(fold_left(s.drop_last(), f), s.last())
    }
}

/// The operands `x` then `y`.
pub open spec fn pair(x: Seq<char>, y: Seq<char>) -> Seq<Seq<char>> {
    seq![x, y]
}

/// The value that `host` answers to `op` on `x` then `y`.
pub open spec fn answer_of(host: Host, op: MathOp) -> Combine {
    |x: Seq<char>, y: Seq<char>| host(op, pair(x, y))[0]
}

/// Combining the first two values first leaves the left fold as it was.
proof fn lemma_fold_left_first_pair(s: Seq<Seq<char>>, f: Combine)
    requires
        s.len() >= 2,
    ensures
        fold_left(seq![f(s[0], s[1])] + s.skip(2), f) == fold_left(s, f),
    decreases s.len(),
{
    let t = seq![f(s[0], s[1])] + s.skip(2);
    if s.len() == 2 {
        assert(t =~= seq![f(s[0], s[1])]);
        assert(s.drop_last().len() == 1);
        assert(s.drop_last()[0] == s[0]);
        assert(fold_left(s.drop_last(), f) == s[0]);
        assert(fold_left(s, f) == f(s[0], s[1]));
    } else {
        let l = s.drop_last();
        lemma_fold_left_first_pair(l, f);
        assert(l[0] == s[0] && l[1] == s[1]);
        assert(t.drop_last() =~= seq![f(l[0], l[1])] + l.skip(2));
        assert(t.last() == s.last());
        assert(fold_left(t, f) == f(fold_left(t.drop_last(), f), t.last()));
        assert(fold_left(s, f) == f(fold_left(l, f), s.last()));
    }
}

/// `+_` (or `x_`) on `n >= 1` values leaves, in `n` steps, one value: the
/// values combined from left to right in push order,
/// `f(... f(f(v0, v1), v2) ..., v(n-1))`, each combination asked of the host
/// as the operation on the running result then the next value.
pub proof fn law_fold_all(
    m: MachineState,
    t: Seq<char>,
    op: MathOp,
    host: Host,
    rest: Seq<Seq<char>>,
)
    requires
        m.ops == seq![t] + rest,
        m.stack.len() >= 1,
        command_of(t) == Some(Command::AddAll) && op == MathOp::Add || command_of(t) == Some(
            Command::MulAll,
        ) && op == MathOp::Mul,
        forall|x: Seq<char>, y: Seq<char>| (#[trigger] host(op, pair(x, y))).len() == 1,
    ensures
        run_with(m, host, m.stack.len()).stack == seq![fold_left(m.stack, answer_of(host, op))],
        run_with(m, host, m.stack.len()).ops == rest,
        run_with(m, host, m.stack.len()).fns == m.fns,
        run_with(m, host, m.stack.len()).mem_a == m.mem_a,
        run_with(m, host, m.stack.len()).mem_b == m.mem_b,
        run_with(m, host, m.stack.len()).mem_c == m.mem_c,
    decreases m.stack.len(),
{
    let f = answer_of(host, op);
    let s = m.stack;
    let n = s.len();
    assert(m.ops.drop_first() =~= rest);
    if n == 1 {
        assert(seq![fold_left(s, f)] =~= s);
        reveal_with_fuel(run_with, 2);
        assert(run_with(m, host, 1) == settle(m, host));
    } else {
        let x = s[0];
        let y = s[1];
        assert(s.take(2) =~= seq![x, y]);
        let answer = host(op, pair(x, y));
        assert(answer =~= seq![f(x, y)]);
        let m1 = m.with_stack(answer + s.skip(2)).with_ops(seq![t] + rest).with_answer_below(false);
        assert(settle(m, host) == m1);
        assert(answer + s.skip(2) =~= seq![f(x, y)] + s.skip(2));
        law_fold_all(m1, t, op, host, rest);
        lemma_fold_left_first_pair(s, f);
    }
}

/// Defining a function and then calling it, where its name names no command
/// and no earlier function and its body holds no `end`, puts its body in front
/// of what follows the call, and changes nothing on the stack.
pub proof fn law_define_then_call(
    m: MachineState,
    define: Seq<char>,
    name: Seq<char>,
    body: Seq<Seq<char>>,
    rest: Seq<Seq<char>>,
)
    requires
        m.ops == seq![define, name] + body + seq!["end"@, name] + rest,
        command_of(define) == Some(Command::Define),
        command_of(name) is None,
        first_index(fn_names(m.fns), name) is None,
        forall|i: int| 0 <= i < body.len() ==> body[i] != "end"@,
    ensures
        nth_outcome(m, 0) == Ok::<StepView, ErrorView>(StepView::Next),
        nth_outcome(m, 1) == Ok::<StepView, ErrorView>(StepView::Next),
        run_steps(m, 2).stack == m.stack,
        run_steps(m, 2).fns == m.fns.push((name, body)),
        run_steps(m, 2).ops == body + rest,
{
    reveal_with_fuel(run_steps, 3);
    let q = m.ops.drop_first();
    assert(q =~= seq![name] + (body + seq!["end"@, name] + rest));
    let after = q.drop_first();
    assert(after =~= body + seq!["end"@, name] + rest);
    let k = body.len() as int;
    assert(after[k] == "end"@);
    lemma_first_index_found(after, "end"@, k);
    assert(after.take(k) =~= body);
    assert(after.skip(k + 1) =~= seq![name] + rest);
    let fns = m.fns.push((name, body));
    let m1 = MachineState { fns, ops: seq![name] + rest, ..m };
    assert(step_spec(m).0 == m1);
    let names = fn_names(fns);
    assert forall|j: int| 0 <= j < m.fns.len() implies names[j] != name by {
        assert(names[j] == fn_names(m.fns)[j]);
        lemma_no_earlier_name(fn_names(m.fns), name, j);
    }
    assert(names[m.fns.len() as int] == name);
    lemma_first_index_found(names, name, m.fns.len() as int);
    assert((seq![name] + rest).drop_first() =~= rest);
    assert(run_steps(m, 1) == m1);
}

proof fn lemma_no_earlier_name(names: Seq<Seq<char>>, name: Seq<char>, j: int)
    requires
        first_index(names, name) is None,
        0 <= j < names.len(),
    ensures
        names[j] != name,
    decreases j,
{
    if names[j] == name {
        if exists|i: int| 0 <= i < j && names[i] == name {
            let i = choose|i: int| 0 <= i < j && names[i] == name;
            lemma_no_earlier_name(names, name, i);
        } else {
            lemma_first_index_found(names, name, j);
        }
    }
}

proof fn lemma_skip_flat_comment(toks: Seq<Seq<char>>, rest: Seq<Seq<char>>)
    requires
        forall|i: int| 0 <= i < toks.len() ==> toks[i] != "("@ && toks[i] != ")"@,
    ensures
        skip_comment(toks + seq![")"@] + rest, 0) == rest,
    decreases toks.len(),
{
    reveal_strlit("(");
    reveal_strlit(")");
    let q = toks + seq![")"@] + rest;
    assert("("@[0] != ")"@[0]);
    if toks.len() == 0 {
        assert(q =~= seq![")"@] + rest);
        assert(q[0] == ")"@);
        assert(q.drop_first() =~= rest);
    } else {
        lemma_skip_flat_comment(toks.drop_first(), rest);
        assert(q.drop_first() =~= toks.drop_first() + seq![")"@] + rest);
        assert(q[0] == toks[0]);
    }
}

/// A comment whose tokens hold no parenthesis is skipped whole, with its
/// closing `)`, and changes nothing on the stack.
pub proof fn law_comment_skipped(
    m: MachineState,
    open: Seq<char>,
    toks: Seq<Seq<char>>,
    rest: Seq<Seq<char>>,
)
    requires
        m.ops == seq![open] + toks + seq![")"@] + rest,
        command_of(open) == Some(Command::Comment),
        forall|i: int| 0 <= i < toks.len() ==> toks[i] != "("@ && toks[i] != ")"@,
    ensures
        step_spec(m) == (m.with_ops(rest), Ok::<StepView, ErrorView>(StepView::Next)),
{
    assert(m.ops.drop_first() =~= toks + seq![")"@] + rest);
    lemma_skip_flat_comment(toks, rest);
}

} // verus!
