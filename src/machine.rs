//! The evaluation engine: an operand stack, three registers, a table of user
//! functions and a queue of pending tokens, advanced one token at a time.
//!
//! Every decision is taken here. A float operation pops its operands and hands
//! them to the caller as [`Step::Compute`]; the caller answers with
//! [`Interpreter::deliver`], which puts the results on the stack.
use vstd::prelude::*;

use std::collections::VecDeque;

use crate::command::{Command, MathOp, Register, command_of, lookup};
use crate::number::{
    decimal, gcd, gcd_of, is_float_literal, is_float_text, is_uint_text, parse_uint, uint_text,
    uint_value,
};
use crate::text::same_text;

verus! {

/// The texts of a sequence of strings.
pub open spec fn texts(v: Seq<String>) -> Seq<Seq<char>> {
    v.map_values(|s: String| s@)
}

/// The first position of `x` in `s`.
pub open spec fn first_index(s: Seq<Seq<char>>, x: Seq<char>) -> Option<int> {
    if exists|i: int| 0 <= i < s.len() && s[i] == x && forall|j: int| 0 <= j < i ==> s[j] != x {
        Some(
            choose|i: int|
                0 <= i < s.len() && s[i] == x && forall|j: int| 0 <= j < i ==> s[j] != x,
        )
    } else {
        None
    }
}

/// A position that holds `x`, with no `x` before it, is the first.
pub proof fn lemma_first_index_found(s: Seq<Seq<char>>, x: Seq<char>, k: int)
    requires
        0 <= k < s.len(),
        s[k] == x,
        forall|j: int| 0 <= j < k ==> s[j] != x,
    ensures
        first_index(s, x) == Some(k),
{
    let c = choose|i: int| 0 <= i < s.len() && s[i] == x && forall|j: int| 0 <= j < i ==> s[j] != x;
    if c < k {
        assert(s[c] != x);
    }
    if c > k {
        assert(s[k] != x);
    }
}

/// Where no position holds `x`, there is no first one.
pub proof fn lemma_first_index_absent(s: Seq<Seq<char>>, x: Seq<char>)
    requires
        forall|j: int| 0 <= j < s.len() ==> s[j] != x,
    ensures
        first_index(s, x) is None,
{
}

/// A user function: a name and the tokens it stands for.
pub struct Function {
    pub name: String,
    pub body: Vec<String>,
}

impl View for Function {
    type V = (Seq<char>, Seq<Seq<char>>);

    open spec fn view(&self) -> (Seq<char>, Seq<Seq<char>>) {
        (self.name@, texts(self.body@))
    }
}

/// The names of a function table, in order of definition.
pub open spec fn fn_names(fns: Seq<(Seq<char>, Seq<Seq<char>>)>) -> Seq<Seq<char>> {
    fns.map_values(|f: (Seq<char>, Seq<Seq<char>>)| f.0)
}

/// The numeric type that a value was expected to hold.
#[derive(Clone, Copy, Debug, PartialEq, Eq, Structural)]
pub enum Numeric {
    Float,
    Unsigned,
}

/// A fatal evaluation error.
#[derive(Debug)]
pub enum EvalError {
    /// `command` needs `depth` values on the stack, and fewer are there.
    StackUnderflow { command: String, depth: usize },
    /// `token` is not a command, a function or a number of the expected type.
    ParseFailure { token: String, expected: Numeric },
}

pub enum ErrorView {
    StackUnderflow { command: Seq<char>, depth: nat },
    ParseFailure { token: Seq<char>, expected: Numeric },
}

impl View for EvalError {
    type V = ErrorView;

    open spec fn view(&self) -> ErrorView {
        match self {
            EvalError::StackUnderflow { command, depth } => ErrorView::StackUnderflow {
                command: command@,
                depth: *depth as nat,
            },
            EvalError::ParseFailure { token, expected } => ErrorView::ParseFailure {
                token: token@,
                expected: *expected,
            },
        }
    }
}

/// What one step did.
#[derive(Debug)]
pub enum Step {
    /// The queue was empty: evaluation is over.
    Done,
    /// A token was consumed.
    Next,
    /// `drop` met an empty stack; nothing changed but the queue.
    Warning(String),
    /// The operands of a float operation were popped, earliest pushed first;
    /// the caller computes the results and hands them to `deliver`.
    Compute(MathOp, Vec<String>),
}

pub enum StepView {
    Done,
    Next,
    Warning(Seq<char>),
    Compute(MathOp, Seq<Seq<char>>),
}

impl View for Step {
    type V = StepView;

    open spec fn view(&self) -> StepView {
        match self {
            Step::Done => StepView::Done,
            Step::Next => StepView::Next,
            Step::Warning(t) => StepView::Warning(t@),
            Step::Compute(op, args) => StepView::Compute(*op, texts(args@)),
        }
    }
}

pub open spec fn result_view(r: Result<Step, EvalError>) -> Result<StepView, ErrorView> {
    match r {
        Ok(s) => Ok(s@),
        Err(e) => Err(e@),
    }
}

/// The state of an interpreter, as texts. `answer_below` says where the
/// answer to the last float operation goes: below the stack for a round of
/// `+_` or `x_`, on top of it otherwise.
pub struct MachineState {
    pub stack: Seq<Seq<char>>,
    pub mem_a: Seq<char>,
    pub mem_b: Seq<char>,
    pub mem_c: Seq<char>,
    pub ops: Seq<Seq<char>>,
    pub fns: Seq<(Seq<char>, Seq<Seq<char>>)>,
    pub answer_below: bool,
}

impl MachineState {
    pub open spec fn with_stack(self, stack: Seq<Seq<char>>) -> MachineState {
        MachineState { stack, ..self }
    }

    pub open spec fn with_ops(self, ops: Seq<Seq<char>>) -> MachineState {
        MachineState { ops, ..self }
    }

    pub open spec fn with_answer_below(self, answer_below: bool) -> MachineState {
        MachineState { answer_below, ..self }
    }

    pub open spec fn register(self, r: Register) -> Seq<char> {
        match r {
            Register::A => self.mem_a,
            Register::B => self.mem_b,
            Register::C => self.mem_c,
        }
    }

    pub open spec fn with_register(self, r: Register, v: Seq<char>) -> MachineState {
        match r {
            Register::A => MachineState { mem_a: v, ..self },
            Register::B => MachineState { mem_b: v, ..self },
            Register::C => MachineState { mem_c: v, ..self },
        }
    }
}

/// What remains of `q` after a comment, `depth` levels deep, is skipped: all up
/// to and including the `)` that closes it, or all of it if none does.
pub open spec fn skip_comment(q: Seq<Seq<char>>, depth: nat) -> Seq<Seq<char>>
    decreases q.len(),
{
    if q.len() == 0 {
        q
    } else if q[0] == "("@ {
        skip_comment(q.drop_first(), depth + 1)
    } else if q[0] == ")"@ {
        if depth == 0 {
            q.drop_first()
        } else {
            skip_comment(q.drop_first(), (depth - 1) as nat)
        }
    } else {
        skip_comment(q.drop_first(), depth)
    }
}

/// The function that `fn` defines from the queue `q` after it: `q[0]` names it
/// and its body runs up to the first `end`, or to the end of the queue if there
/// is none; and the queue that is left.
pub open spec fn split_definition(q: Seq<Seq<char>>) -> (
    (Seq<char>, Seq<Seq<char>>),
    Seq<Seq<char>>,
) {
    let name = q[0];
    let rest = q.drop_first();
    match first_index(rest, "end"@) {
        Some(k) => ((name, rest.take(k)), rest.skip(k + 1)),
        None => ((name, rest), Seq::empty()),
    }
}

/// `fn`: a function defined from the queue, if the queue is not empty.
pub open spec fn define_spec(m: MachineState) -> MachineState {
    if m.ops.len() == 0 {
        m
    } else {
        MachineState {
            fns: m.fns.push(split_definition(m.ops).0),
            ops: split_definition(m.ops).1,
            ..m
        }
    }
}

/// `+_` and `x_`: one application of `op` to the bottom two values, whose
/// answer goes below the rest, with the command put back in front of the
/// queue, until one value remains. The values are so combined from left to
/// right in push order.
pub open spec fn fold_spec(m: MachineState, tok: Seq<char>, op: MathOp) -> (
    MachineState,
    Result<StepView, ErrorView>,
) {
    let n = m.stack.len();
    if n >= 2 {
        (
            m.with_stack(m.stack.skip(2)).with_ops(seq![tok] + m.ops).with_answer_below(true),
            Ok(StepView::Compute(op, m.stack.take(2))),
        )
    } else {
        (m, Ok(StepView::Next))
    }
}

/// `gcd`: the top two values read as `u64`, replaced by their greatest common
/// divisor.
pub open spec fn gcd_step_spec(m: MachineState) -> (MachineState, Result<StepView, ErrorView>) {
    let n = m.stack.len();
    let b = m.stack[n - 1];
    let a = m.stack[n - 2];
    if !is_uint_text(b) {
        (m, Err(ErrorView::ParseFailure { token: b, expected: Numeric::Unsigned }))
    } else if !is_uint_text(a) {
        (m, Err(ErrorView::ParseFailure { token: a, expected: Numeric::Unsigned }))
    } else {
        (
            m.with_stack(m.stack.take(n - 2).push(decimal(gcd_of(uint_value(a), uint_value(b))))),
            Ok(StepView::Next),
        )
    }
}

/// A native command named by `tok`, run on `m` (whose queue no longer holds
/// `tok`).
pub open spec fn command_spec(m: MachineState, tok: Seq<char>, cmd: Command) -> (
    MachineState,
    Result<StepView, ErrorView>,
) {
    let s = m.stack;
    let n = s.len();
    if n < cmd.depth_spec() {
        (m, Err(ErrorView::StackUnderflow { command: tok, depth: cmd.depth_spec() }))
    } else {
        match cmd {
            Command::Drop => if n == 0 {
                (m, Ok(StepView::Warning(tok)))
            } else {
                (m.with_stack(s.drop_last()), Ok(StepView::Next))
            },
            Command::Dup => (m.with_stack(s.push(s.last())), Ok(StepView::Next)),
            Command::Swap => (
                m.with_stack(s.take(n - 2).push(s[n - 1]).push(s[n - 2])),
                Ok(StepView::Next),
            ),
            Command::Clear => (m.with_stack(Seq::empty()), Ok(StepView::Next)),
            Command::Roll => (m.with_stack(seq![s.last()] + s.drop_last()), Ok(StepView::Next)),
            Command::Rot => (m.with_stack(s.drop_first().push(s[0])), Ok(StepView::Next)),
            Command::Store(r) => (
                m.with_stack(s.drop_last()).with_register(r, s.last()),
                Ok(StepView::Next),
            ),
            Command::Recall(r) => (m.with_stack(s.push(m.register(r))), Ok(StepView::Next)),
            Command::Math(op) => (
                m.with_stack(s.take(n - op.arity_spec())).with_answer_below(false),
                Ok(StepView::Compute(op, s.skip(n - op.arity_spec()))),
            ),
            Command::AddAll => fold_spec(m, tok, MathOp::Add),
            Command::MulAll => fold_spec(m, tok, MathOp::Mul),
            Command::Gcd => gcd_step_spec(m),
            Command::Define => (define_spec(m), Ok(StepView::Next)),
            Command::Comment => (m.with_ops(skip_comment(m.ops, 0)), Ok(StepView::Next)),
        }
    }
}

/// The token `tok`, once taken from the queue: a native command, else a user
/// function (its body goes to the front of the queue), else a float literal
/// (pushed as written).
pub open spec fn node_spec(m: MachineState, tok: Seq<char>) -> (
    MachineState,
    Result<StepView, ErrorView>,
) {
    match command_of(tok) {
        Some(cmd) => command_spec(m, tok, cmd),
        None => match first_index(fn_names(m.fns), tok) {
            Some(k) => (m.with_ops(m.fns[k].1 + m.ops), Ok(StepView::Next)),
            None => if is_float_literal(tok) {
                (m.with_stack(m.stack.push(tok)), Ok(StepView::Next))
            } else {
                (m, Err(ErrorView::ParseFailure { token: tok, expected: Numeric::Float }))
            },
        },
    }
}

/// One step: the token at the front of the queue, if there is one.
pub open spec fn step_spec(m: MachineState) -> (MachineState, Result<StepView, ErrorView>) {
    if m.ops.len() == 0 {
        (m, Ok(StepView::Done))
    } else {
        node_spec(m.with_ops(m.ops.drop_first()), m.ops[0])
    }
}

/// The results of a float operation, in order: below the stack for a round
/// of `+_` or `x_`, on top of it otherwise.
pub open spec fn deliver_spec(m: MachineState, values: Seq<Seq<char>>) -> MachineState {
    if m.answer_below {
        m.with_stack(values + m.stack).with_answer_below(false)
    } else {
        m.with_stack(m.stack + values)
    }
}

/// The state before any token: empty stack, queue and table, every register 0.
pub open spec fn initial_state() -> MachineState {
    MachineState {
        stack: Seq::empty(),
        mem_a: seq!['0'],
        mem_b: seq!['0'],
        mem_c: seq!['0'],
        ops: Seq::empty(),
        fns: Seq::empty(),
        answer_below: false,
    }
}

/// Skips a comment whose `(` has just been taken from the queue.
fn skip_comment_tokens(ops: &mut VecDeque<String>)
    ensures
        texts(final(ops)@) == skip_comment(texts(old(ops)@), 0),
{
    let ghost target = skip_comment(texts(ops@), 0);
    let total = ops.len();
    let mut nested: usize = 0;
    while ops.len() > 0
        invariant
            target == skip_comment(texts(old(ops)@), 0),
            skip_comment(texts(ops@), nested as nat) == target,
            nested + ops@.len() <= total,
        decreases ops@.len(),
    {
        let ghost before = texts(ops@);
        let op = ops.pop_front().unwrap();
        assert(texts(ops@) =~= before.drop_first());
        if same_text(op.as_str(), "(") {
            nested = nested + 1;
        } else if same_text(op.as_str(), ")") {
            if nested == 0 {
                proof {
                    reveal_strlit("(");
                    reveal_strlit(")");
                    assert(before[0] == op@);
                }
                return;
            }
            nested = nested - 1;
        }
    }
}

/// Takes from the queue the definition that follows `fn`.
fn read_definition(ops: &mut VecDeque<String>) -> (r: Function)
    requires
        old(ops)@.len() > 0,
    ensures
        (r@, texts(final(ops)@)) == split_definition(texts(old(ops)@)),
{
    let ghost q = texts(ops@);
    let name = ops.pop_front().unwrap();
    let ghost rest = texts(ops@);
    assert(rest =~= q.drop_first());
    let mut body: Vec<String> = Vec::new();
    while ops.len() > 0
        invariant
            q.len() > 0,
            q == texts(old(ops)@),
            rest == q.drop_first(),
            name@ == q[0],
            rest == texts(body@) + texts(ops@),
            forall|j: int| 0 <= j < body@.len() ==> texts(body@)[j] != "end"@,
        decreases ops@.len(),
    {
        let ghost before = texts(ops@);
        let op = ops.pop_front().unwrap();
        assert(texts(ops@) =~= before.drop_first());
        if same_text(op.as_str(), "end") {
            let k = body.len();
            proof {
                assert(rest[k as int] == "end"@);
                assert(forall|j: int| 0 <= j < k ==> rest[j] == texts(body@)[j]);
                lemma_first_index_found(rest, "end"@, k as int);
                assert(rest.take(k as int) =~= texts(body@));
                assert(rest.skip(k + 1) =~= texts(ops@));
            }
            return Function { name, body };
        }
        let ghost old_body = texts(body@);
        body.push(op);
        assert(texts(body@) =~= old_body.push(op@));
        assert(rest =~= texts(body@) + texts(ops@));
    }
    assert(rest =~= texts(body@));
    Function { name, body }
}

/// Puts `body` in front of the queue, in order.
fn prepend(ops: &mut VecDeque<String>, body: &Vec<String>)
    ensures
        texts(final(ops)@) == texts(body@) + texts(old(ops)@),
{
    let ghost q = texts(ops@);
    let mut i = body.len();
    while i > 0
        invariant
            i <= body@.len(),
            texts(ops@) == texts(body@).skip(i as int) + q,
        decreases i,
    {
        i = i - 1;
        let ghost before = texts(ops@);
        ops.push_front(body[i].clone());
        assert(texts(ops@) =~= seq![body@[i as int]@] + before);
        assert(texts(body@).skip(i as int) =~= seq![body@[i as int]@] + texts(body@).skip(i + 1));
    }
    assert(texts(body@).skip(0) =~= texts(body@));
}

/// Appends `tokens` to the queue, in order.
fn append_tokens(ops: &mut VecDeque<String>, tokens: &Vec<String>)
    ensures
        texts(final(ops)@) == texts(old(ops)@) + texts(tokens@),
{
    let ghost q = texts(ops@);
    let mut i: usize = 0;
    while i < tokens.len()
        invariant
            q == texts(old(ops)@),
            i <= tokens@.len(),
            texts(ops@) == q + texts(tokens@).take(i as int),
        decreases tokens@.len() - i,
    {
        let ghost before = texts(ops@);
        ops.push_back(tokens[i].clone());
        assert(texts(ops@) =~= before.push(tokens@[i as int]@));
        i = i + 1;
        assert(texts(tokens@).take(i as int) =~= texts(tokens@).take(i - 1).push(
            tokens@[i - 1]@,
        ));
    }
    assert(texts(tokens@).take(i as int) =~= texts(tokens@));
}

/// The evaluator: operand stack, memory registers, pending queue and function
/// table. The top of the stack is its last element.
pub struct Interpreter {
    pub stack: Vec<String>,
    pub mem_a: String,
    pub mem_b: String,
    pub mem_c: String,
    pub ops: VecDeque<String>,
    pub fns: Vec<Function>,
    /// Where the answer to the last float operation goes: below the stack
    /// for a round of `+_` or `x_`, on top of it otherwise.
    pub answer_below: bool,
}

impl View for Interpreter {
    type V = MachineState;

    open spec fn view(&self) -> MachineState {
        MachineState {
            stack: texts(self.stack@),
            mem_a: self.mem_a@,
            mem_b: self.mem_b@,
            mem_c: self.mem_c@,
            ops: texts(self.ops@),
            fns: self.fns@.map_values(|f: Function| f@),
            answer_below: self.answer_below,
        }
    }
}

impl Interpreter {
    /// An interpreter with nothing to do: empty stack, queue and function
    /// table, and every register 0.
    pub fn new() -> (r: Interpreter)
        ensures
            r@ == initial_state(),
    {
        proof {
            reveal_strlit("0");
        }
        let r = Interpreter {
            stack: Vec::new(),
            mem_a: String::from_str("0"),
            mem_b: String::from_str("0"),
            mem_c: String::from_str("0"),
            ops: VecDeque::new(),
            fns: Vec::new(),
            answer_below: false,
        };
        assert("0"@ =~= seq!['0']);
        assert(r@.stack =~= Seq::empty());
        assert(r@.ops =~= Seq::empty());
        assert(r@.fns =~= Seq::empty());
        r
    }

    /// Appends tokens to the pending queue.
    pub fn load(&mut self, tokens: Vec<String>)
        ensures
            final(self)@ == old(self)@.with_ops(old(self)@.ops + texts(tokens@)),
    {
        append_tokens(&mut self.ops, &tokens);
    }

    /// The value of a register.
    pub fn register(&self, r: Register) -> (v: &String)
        ensures
            v@ == self@.register(r),
    {
        match r {
            Register::A => &self.mem_a,
            Register::B => &self.mem_b,
            Register::C => &self.mem_c,
        }
    }

    fn set_register(&mut self, r: Register, v: String)
        ensures
            final(self)@ == old(self)@.with_register(r, v@),
    {
        match r {
            Register::A => self.mem_a = v,
            Register::B => self.mem_b = v,
            Register::C => self.mem_c = v,
        }
    }

    fn c_drop(&mut self, op: String) -> (r: Step)
        ensures
            (final(self)@, Ok::<StepView, ErrorView>(r@)) == command_spec(old(self)@, op@, Command::Drop),
    {
        if self.stack.len() == 0 {
            Step::Warning(op)
        } else {
            let ghost s = texts(self.stack@);
            self.stack.pop();
            assert(texts(self.stack@) =~= s.drop_last());
            Step::Next
        }
    }

    fn c_dup(&mut self)
        requires
            old(self)@.stack.len() >= 1,
        ensures
            final(self)@ == command_spec(old(self)@, seq![], Command::Dup).0,
    {
        let ghost s = texts(self.stack@);
        let top = self.stack[self.stack.len() - 1].clone();
        self.stack.push(top);
        assert(texts(self.stack@) =~= s.push(s.last()));
    }

    fn c_swap(&mut self)
        requires
            old(self)@.stack.len() >= 2,
        ensures
            final(self)@ == command_spec(old(self)@, seq![], Command::Swap).0,
    {
        let ghost s = texts(self.stack@);
        let n = self.stack.len();
        let b = self.stack.pop().unwrap();
        let a = self.stack.pop().unwrap();
        self.stack.push(b);
        self.stack.push(a);
        assert(texts(self.stack@) =~= s.take(n - 2).push(s[n - 1]).push(s[n - 2]));
    }

    fn c_cls(&mut self)
        ensures
            final(self)@ == command_spec(old(self)@, seq![], Command::Clear).0,
    {
        self.stack.clear();
        assert(texts(self.stack@) =~= Seq::empty());
    }

    fn c_roll(&mut self)
        requires
            old(self)@.stack.len() >= 1,
        ensures
            final(self)@ == command_spec(old(self)@, seq![], Command::Roll).0,
    {
        let ghost s = texts(self.stack@);
        let o = self.stack.pop().unwrap();
        self.stack.insert(0, o);
        assert(texts(self.stack@) =~= seq![s.last()] + s.drop_last());
    }

    fn c_rot(&mut self)
        requires
            old(self)@.stack.len() >= 1,
        ensures
            final(self)@ == command_spec(old(self)@, seq![], Command::Rot).0,
    {
        let ghost s = texts(self.stack@);
        let o = self.stack.remove(0);
        self.stack.push(o);
        assert(texts(self.stack@) =~= s.drop_first().push(s[0]));
    }

    fn c_store(&mut self, r: Register)
        requires
            old(self)@.stack.len() >= 1,
        ensures
            final(self)@ == command_spec(old(self)@, seq![], Command::Store(r)).0,
    {
        let ghost s = texts(self.stack@);
        let v = self.stack.pop().unwrap();
        assert(texts(self.stack@) =~= s.drop_last());
        self.set_register(r, v);
    }

    fn c_push(&mut self, r: Register)
        ensures
            final(self)@ == command_spec(old(self)@, seq![], Command::Recall(r)).0,
    {
        let ghost s = texts(self.stack@);
        let v = self.register(r).clone();
        self.stack.push(v);
        assert(texts(self.stack@) =~= s.push(old(self)@.register(r)));
    }

    /// Pops the operands of `op`, earliest pushed first.
    fn c_math(&mut self, op: MathOp) -> (args: Vec<String>)
        requires
            old(self)@.stack.len() >= op.arity_spec(),
        ensures
            (final(self)@, Ok::<StepView, ErrorView>(Step::Compute(op, args)@)) == command_spec(
                old(self)@,
                seq![],
                Command::Math(op),
            ),
    {
        let ghost s = texts(self.stack@);
        let n = self.stack.len();
        let args = self.stack.split_off(n - op.arity());
        self.answer_below = false;
        assert(texts(self.stack@) =~= s.take(n - op.arity_spec()));
        assert(texts(args@) =~= s.skip(n - op.arity_spec()));
        args
    }

    /// One round of `+_` or `x_`.
    fn c_fold(&mut self, tok: String, op: MathOp) -> (r: Step)
        requires
            old(self)@.stack.len() >= 1,
        ensures
            (final(self)@, Ok::<StepView, ErrorView>(r@)) == fold_spec(old(self)@, tok@, op),
    {
        let ghost s = texts(self.stack@);
        let ghost q = texts(self.ops@);
        let n = self.stack.len();
        if n >= 2 {
            let mut args = self.stack.split_off(2);
            std::mem::swap(&mut args, &mut self.stack);
            self.ops.push_front(tok);
            self.answer_below = true;
            assert(texts(self.stack@) =~= s.skip(2));
            assert(texts(args@) =~= s.take(2));
            assert(texts(self.ops@) =~= seq![tok@] + q);
            Step::Compute(op, args)
        } else {
            Step::Next
        }
    }

    fn c_gcd(&mut self) -> (r: Result<Step, EvalError>)
        requires
            old(self)@.stack.len() >= 2,
        ensures
            (final(self)@, result_view(r)) == gcd_step_spec(old(self)@),
    {
        let ghost s = texts(self.stack@);
        let n = self.stack.len();
        let b = match parse_uint(self.stack[n - 1].as_str()) {
            Some(v) => v,
            None => {
                return Err(
                    EvalError::ParseFailure {
                        token: self.stack[n - 1].clone(),
                        expected: Numeric::Unsigned,
                    },
                );
            },
        };
        let a = match parse_uint(self.stack[n - 2].as_str()) {
            Some(v) => v,
            None => {
                return Err(
                    EvalError::ParseFailure {
                        token: self.stack[n - 2].clone(),
                        expected: Numeric::Unsigned,
                    },
                );
            },
        };
        self.stack.pop();
        self.stack.pop();
        self.stack.push(uint_text(gcd(a, b)));
        assert(texts(self.stack@) =~= s.take(n - 2).push(
            decimal(gcd_of(uint_value(s[n - 2]), uint_value(s[n - 1]))),
        ));
        Ok(Step::Next)
    }

    fn c_fn(&mut self)
        ensures
            final(self)@ == define_spec(old(self)@),
    {
        if self.ops.len() > 0 {
            let ghost f = self@.fns;
            let def = read_definition(&mut self.ops);
            self.fns.push(def);
            assert(self@.fns =~= f.push(def@));
        }
    }

    fn c_comment(&mut self)
        ensures
            final(self)@ == old(self)@.with_ops(skip_comment(old(self)@.ops, 0)),
    {
        skip_comment_tokens(&mut self.ops);
    }

    /// Runs the native command `cmd`, named by `tok`.
    fn run_command(&mut self, tok: String, cmd: Command) -> (r: Result<Step, EvalError>)
        ensures
            (final(self)@, result_view(r)) == command_spec(old(self)@, tok@, cmd),
    {
        let depth = cmd.depth();
        if self.stack.len() < depth {
            return Err(EvalError::StackUnderflow { command: tok, depth });
        }
        match cmd {
            Command::Drop => Ok(self.c_drop(tok)),
            Command::Dup => {
                self.c_dup();
                Ok(Step::Next)
            },
            Command::Swap => {
                self.c_swap();
                Ok(Step::Next)
            },
            Command::Clear => {
                self.c_cls();
                Ok(Step::Next)
            },
            Command::Roll => {
                self.c_roll();
                Ok(Step::Next)
            },
            Command::Rot => {
                self.c_rot();
                Ok(Step::Next)
            },
            Command::Store(r) => {
                self.c_store(r);
                Ok(Step::Next)
            },
            Command::Recall(r) => {
                self.c_push(r);
                Ok(Step::Next)
            },
            Command::Math(op) => {
                let args = self.c_math(op);
                Ok(Step::Compute(op, args))
            },
            Command::AddAll => Ok(self.c_fold(tok, MathOp::Add)),
            Command::MulAll => Ok(self.c_fold(tok, MathOp::Mul)),
            Command::Gcd => self.c_gcd(),
            Command::Define => {
                self.c_fn();
                Ok(Step::Next)
            },
            Command::Comment => {
                self.c_comment();
                Ok(Step::Next)
            },
        }
    }

    /// The position of the first function named `op`, if any.
    pub fn is_user_function(&self, op: &str) -> (r: Option<usize>)
        ensures
            first_index(fn_names(self@.fns), op@) == match r {
                Some(k) => Some(k as int),
                None => None::<int>,
            },
    {
        let ghost names = fn_names(self@.fns);
        let mut i: usize = 0;
        while i < self.fns.len()
            invariant
                names == fn_names(self@.fns),
                i <= self.fns@.len(),
                forall|j: int| 0 <= j < i ==> self.fns@[j].name@ != op@,
            decreases self.fns@.len() - i,
        {
            if same_text(self.fns[i].name.as_str(), op) {
                proof {
                    assert forall|j: int| 0 <= j < names.len() implies #[trigger] names[j]
                        == self.fns@[j].name@ by {}
                    lemma_first_index_found(names, op@, i as int);
                }
                return Some(i);
            }
            i = i + 1;
        }
        proof {
            assert forall|j: int| 0 <= j < names.len() implies #[trigger] names[j]
                == self.fns@[j].name@ by {}
            lemma_first_index_absent(names, op@);
        }
        None
    }

    /// Runs one token that has been taken from the queue.
    pub fn process_node(&mut self, tok: String) -> (r: Result<Step, EvalError>)
        ensures
            (final(self)@, result_view(r)) == node_spec(old(self)@, tok@),
    {
        match lookup(tok.as_str()) {
            Some(cmd) => self.run_command(tok, cmd),
            None => match self.is_user_function(tok.as_str()) {
                Some(k) => {
                    prepend(&mut self.ops, &self.fns[k].body);
                    Ok(Step::Next)
                },
                None => {
                    if is_float_text(tok.as_str()) {
                        let ghost s = texts(self.stack@);
                        self.stack.push(tok);
                        assert(texts(self.stack@) =~= s.push(tok@));
                        Ok(Step::Next)
                    } else {
                        Err(EvalError::ParseFailure { token: tok, expected: Numeric::Float })
                    }
                },
            },
        }
    }

    /// Takes the token at the front of the queue and runs it.
    pub fn step(&mut self) -> (r: Result<Step, EvalError>)
        ensures
            (final(self)@, result_view(r)) == step_spec(old(self)@),
    {
        let ghost q = texts(self.ops@);
        match self.ops.pop_front() {
            None => Ok(Step::Done),
            Some(tok) => {
                assert(texts(self.ops@) =~= q.drop_first());
                self.process_node(tok)
            },
        }
    }

    /// Hands over what a float operation computed: its results, in order,
    /// below the stack for a round of `+_` or `x_` and on top of it
    /// otherwise; or the operand that could not be read as a float.
    pub fn deliver(&mut self, outcome: Result<Vec<String>, String>) -> (r: Result<(), EvalError>)
        ensures
            match outcome {
                Ok(values) => r is Ok && final(self)@ == deliver_spec(old(self)@, texts(values@)),
                Err(token) => r matches Err(e) && e@ == (ErrorView::ParseFailure {
                    token: token@,
                    expected: Numeric::Float,
                }) && final(self)@ == old(self)@,
            },
    {
        match outcome {
            Ok(values) => {
                let ghost s = texts(self.stack@);
                let mut values = values;
                let ghost v = texts(values@);
                if self.answer_below {
                    values.append(&mut self.stack);
                    self.stack = values;
                    self.answer_below = false;
                    assert(texts(self.stack@) =~= v + s);
                } else {
                    self.stack.append(&mut values);
                    assert(texts(self.stack@) =~= s + v);
                }
                Ok(())
            },
            Err(token) => Err(EvalError::ParseFailure { token, expected: Numeric::Float }),
        }
    }
}

} // verus!
