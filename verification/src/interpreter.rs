//! The evaluator: it reduces an expression to a value against the visible frame of an
//! environment.

use vstd::prelude::*;
use vstd::string::StringExecFns;
use crate::node::const_models;
use crate::node::node_models;
use crate::node::BinopNode;
use crate::node::Const;
use crate::node::ConstModel;
use crate::node::FuncNode;
use crate::node::Node;
use crate::node::NodeModel;
use crate::node::UnopNode;
use crate::text::lemma_one_line;
use crate::text::one_line;
use crate::text::to_one_line;
use crate::value::apply_binop;
use crate::value::apply_unop;
use crate::value::binop;
use crate::value::float_fn;
use crate::value::float_ok;
use crate::value::outcome;
use crate::value::unop;
use crate::value::FAULT_NODE;
use crate::value::FloatOp;

verus! {

/// An error of evaluation.
#[derive(Debug, PartialEq)]
pub enum RunErr {
    /// An operator was applied to values it does not take; the reason says which.
    Type(&'static str),
    /// An identifier that the visible frame does not hold.
    Undefined(String),
}

/// The model of a [`RunErr`]: the reason of a type error, or the identifier that is
/// undefined, as a sequence of characters.
pub ghost enum RunErrModel {
    Type(Seq<char>),
    Undefined(Seq<char>),
}

impl View for RunErr {
    type V = RunErrModel;

    open spec fn view(&self) -> RunErrModel {
        match self {
            RunErr::Type(reason) => RunErrModel::Type(reason@),
            RunErr::Undefined(iden) => RunErrModel::Undefined(iden@),
        }
    }
}

impl RunErrModel {
    /// The line that presents the error to a reader: its kind, and the reason or the
    /// identifier, with each newline written as a backslash and `n`.
    pub open spec fn rendered(self) -> Seq<char> {
        one_line(
            match self {
                RunErrModel::Type(reason) => "Type error: "@ + reason,
                RunErrModel::Undefined(iden) => "Undefined variable "@ + iden,
            },
        )
    }
}

impl RunErr {
    /// The error for an identifier that the visible frame does not hold.
    pub fn undefined(iden: &str) -> (e: RunErr)
        ensures
            e@ == RunErrModel::Undefined(iden@),
    {
        RunErr::Undefined(String::from_str(iden))
    }

    /// Presents the error as one line: its kind, and the reason or the identifier.
    pub fn render(&self) -> (s: String)
        ensures
            s@ == self@.rendered(),
            !s@.contains('\n'),
    {
        let s = match self {
            RunErr::Type(reason) => {
                let mut s = String::from_str("Type error: ");
                s.append(reason);
                s
            },
            RunErr::Undefined(iden) => {
                let mut s = String::from_str("Undefined variable ");
                s.append(iden.as_str());
                s
            },
        };
        proof {
            lemma_one_line(s@);
        }
        to_one_line(&s)
    }
}

/// A frame: the identifiers of one scope with their values.
pub type StackFrame = Vec<(String, Const)>;

/// The model of a frame: names with the models of their values, in the order of the
/// frame.
pub type FrameModel = Seq<(Seq<char>, ConstModel)>;

/// The model of a frame.
pub open spec fn frame_model(frame: Seq<(String, Const)>) -> FrameModel {
    Seq::new(frame.len(), |i: int| (frame[i].0@, frame[i].1@))
}

/// The first index from `i` on at which `frame` holds `name`, or the length of the frame
/// where it holds the name nowhere from `i` on.
pub open spec fn slot_from(frame: FrameModel, name: Seq<char>, i: int) -> int
    decreases frame.len() - i,
{
    if i < 0 || i >= frame.len() {
        frame.len() as int
    } else if frame[i].0 == name {
        i
    } else {
        slot_from(frame, name, i + 1)
    }
}

/// The value that `frame` holds for `name`: that of the first entry with the name.
pub open spec fn frame_get(frame: FrameModel, name: Seq<char>) -> Option<ConstModel> {
    let slot = slot_from(frame, name, 0);
    if slot < frame.len() {
        Some(frame[slot].1)
    } else {
        None
    }
}

/// The frame after `value` is written for `name`: the first entry with the name holds the
/// value, or a new entry at the end where there was none.
pub open spec fn frame_put(frame: FrameModel, name: Seq<char>, value: ConstModel) -> FrameModel {
    let slot = slot_from(frame, name, 0);
    if slot < frame.len() {
        frame.update(slot, (name, value))
    } else {
        frame.push((name, value))
    }
}

/// The first index from `i` on at which a frame holds a name lies from `i` up to the
/// length of the frame, holds the name if it lies within the frame, and no index from `i`
/// up to it holds the name.
pub proof fn lemma_slot_from(frame: FrameModel, name: Seq<char>, i: int)
    requires
        0 <= i <= frame.len(),
    ensures
        i <= slot_from(frame, name, i) <= frame.len(),
        slot_from(frame, name, i) < frame.len() ==> frame[slot_from(frame, name, i)].0 == name,
        forall|k: int| i <= k < slot_from(frame, name, i) ==> (#[trigger] frame[k]).0 != name,
    decreases frame.len() - i,
{
    if i < frame.len() && frame[i].0 != name {
        lemma_slot_from(frame, name, i + 1);
    }
}

/// The index `slot` is the first from `i` on at which a frame holds a name, if it holds
/// the name and no index from `i` up to it does.
pub proof fn lemma_slot_is(frame: FrameModel, name: Seq<char>, i: int, slot: int)
    requires
        0 <= i <= slot <= frame.len(),
        slot < frame.len() ==> frame[slot].0 == name,
        forall|k: int| i <= k < slot ==> (#[trigger] frame[k]).0 != name,
    ensures
        slot_from(frame, name, i) == slot,
    decreases slot - i,
{
    if i < slot {
        lemma_slot_is(frame, name, i + 1, slot);
    }
}

/// The last write wins: after a value is written for a name, the frame holds that value
/// for the name, and for every other name what it held before.
pub proof fn lemma_write_then_read(
    frame: FrameModel,
    name: Seq<char>,
    value: ConstModel,
    other: Seq<char>,
)
    ensures
        frame_get(frame_put(frame, name, value), name) == Some(value),
        other != name ==> frame_get(frame_put(frame, name, value), other) == frame_get(frame, other),
{
    let after = frame_put(frame, name, value);
    let slot = slot_from(frame, name, 0);
    lemma_slot_from(frame, name, 0);
    lemma_slot_is(after, name, 0, slot);
    if other != name {
        let at = slot_from(frame, other, 0);
        lemma_slot_from(frame, other, 0);
        if at < frame.len() {
            lemma_slot_is(after, other, 0, at);
        } else {
            lemma_slot_is(after, other, 0, after.len() as int);
        }
    }
}

/// The frame that reads and writes see: the last of the stack, or an empty frame where
/// the stack holds none.
pub open spec fn visible(frames: Seq<FrameModel>) -> FrameModel {
    if frames.len() == 0 {
        Seq::empty()
    } else {
        frames.last()
    }
}

/// The stack with its visible frame made real: a stack without frames gets an empty one.
pub open spec fn materialized(frames: Seq<FrameModel>) -> Seq<FrameModel> {
    if frames.len() == 0 {
        seq![Seq::empty()]
    } else {
        frames
    }
}

/// A stack of frames. Only the last frame is visible to reads and writes.
pub struct Environment {
    frames: Vec<StackFrame>,
}

impl View for Environment {
    type V = Seq<FrameModel>;

    closed spec fn view(&self) -> Seq<FrameModel> {
        Seq::new(self.frames.len() as nat, |i: int| frame_model(self.frames[i]@))
    }
}

/// The first index at which `frame` holds the name `key`, or the length of the frame
/// where it holds the name nowhere.
fn find(frame: &Vec<(String, Const)>, key: &String) -> (slot: usize)
    ensures
        slot == slot_from(frame_model(frame@), key@, 0),
        slot <= frame.len(),
{
    let mut i: usize = 0;
    while i < frame.len()
        invariant
            i <= frame.len(),
            slot_from(frame_model(frame@), key@, i as int) == slot_from(frame_model(frame@), key@, 0),
        decreases frame.len() - i,
    {
        if frame[i].0 == *key {
            return i;
        }
        i = i + 1;
    }
    i
}

impl Environment {
    /// An environment without frames.
    pub fn new() -> (env: Environment)
        ensures
            env@ == Seq::<FrameModel>::empty(),
    {
        Environment { frames: Vec::new() }
    }

    /// Opens an empty frame, which hides the frames below it.
    pub fn push(&mut self)
        ensures
            final(self)@ == old(self)@.push(Seq::empty()),
    {
        self.frames.push(Vec::new());
        proof {
            assert(self@ =~= old(self)@.push(Seq::empty())) by {
                assert(frame_model(self.frames[self.frames.len() - 1]@) =~= Seq::empty());
            }
        }
    }

    /// Closes the last frame, if there is one.
    pub fn pop(&mut self)
        ensures
            final(self)@ == if old(self)@.len() > 0 {
                old(self)@.drop_last()
            } else {
                old(self)@
            },
    {
        self.frames.pop();
    }

    /// The visible frame, to read and to change. A stack without frames gets one.
    pub fn top(&mut self) -> (frame: &mut StackFrame)
        ensures
            frame_model(frame@) == visible(old(self)@),
            final(self)@ == materialized(old(self)@).drop_last().push(frame_model(final(frame)@)),
    {
        if self.frames.len() == 0 {
            self.push();
        }
        let len = self.frames.len();
        proof {
            assert(self@.len() == len);
            assert(self@[len - 1] == frame_model(self.frames[len - 1]@));
        }
        &mut self.frames[len - 1]
    }

    /// Writes `constant` for `iden` in the visible frame: the identifier holds the value
    /// from then on, whether it was defined before or not. A stack without frames gets
    /// one. The write always succeeds.
    pub fn write(&mut self, iden: &str, constant: Const) -> (r: Result<(), RunErr>)
        ensures
            r is Ok,
            final(self)@ == materialized(old(self)@).drop_last().push(
                frame_put(visible(old(self)@), iden@, constant@),
            ),
    {
        let key = String::from_str(iden);
        let mut frame: Vec<(String, Const)> = match self.frames.pop() {
            Some(frame) => frame,
            None => Vec::new(),
        };
        let ghost before = frame_model(frame@);
        proof {
            assert(before =~= visible(old(self)@));
        }
        let slot = find(&frame, &key);
        if slot < frame.len() {
            frame.set(slot, (key, constant));
            proof {
                assert(frame_model(frame@) =~= before.update(slot as int, (iden@, constant@)));
            }
        } else {
            frame.push((key, constant));
            proof {
                assert(frame_model(frame@) =~= before.push((iden@, constant@)));
            }
        }
        self.frames.push(frame);
        Ok(())
    }

    /// Reads the value of `iden` in the visible frame: the value where the frame holds the
    /// identifier, and the error that names the identifier where it does not. A stack
    /// without frames gets one.
    pub fn read(&mut self, iden: &str) -> (r: Result<&Const, RunErr>)
        ensures
            final(self)@ == materialized(old(self)@),
            match frame_get(visible(old(self)@), iden@) {
                Some(value) => r matches Ok(found) && found@ == value,
                None => r matches Err(e) && e@ == RunErrModel::Undefined(iden@),
            },
    {
        if self.frames.len() == 0 {
            self.push();
        }
        let key = String::from_str(iden);
        match self.lookup(&key) {
            Some(value) => Ok(value),
            None => Err(RunErr::Undefined(key)),
        }
    }

    /// The value of `iden` in the visible frame, or nothing where the frame does not hold
    /// the identifier.
    pub fn lookup(&self, iden: &String) -> (r: Option<&Const>)
        ensures
            match frame_get(visible(self@), iden@) {
                Some(value) => r matches Some(found) && found@ == value,
                None => r is None,
            },
    {
        if self.frames.len() == 0 {
            return None;
        }
        let frame = &self.frames[self.frames.len() - 1];
        let slot = find(frame, iden);
        if slot < frame.len() {
            Some(&frame[slot].1)
        } else {
            None
        }
    }
}

/// Whether `f` may give an outcome of the model `out` for the function `iden` on arguments
/// of the models `args`.
pub open spec fn resolves<R: Fn(String, Vec<Const>) -> Result<Const, RunErr>>(
    f: R,
    iden: Seq<char>,
    args: Seq<ConstModel>,
    out: Result<ConstModel, RunErrModel>,
) -> bool {
    exists|s: String, v: Vec<Const>, r: Result<Const, RunErr>|
        s@ == iden && const_models(v@) == args && outcome(r) == out && #[trigger] call_ensures(
            f,
            (s, v),
            r,
        )
}

/// The function from the name of a function and the models of its arguments to the model
/// of its outcome that `f` computes.
pub open spec fn resolve_fn<R: Fn(String, Vec<Const>) -> Result<Const, RunErr>>(f: R) -> spec_fn(
    Seq<char>,
    Seq<ConstModel>,
) -> Result<ConstModel, RunErrModel> {
    |iden: Seq<char>, args: Seq<ConstModel>|
        choose|out: Result<ConstModel, RunErrModel>| resolves(f, iden, args, out)
}

/// What the evaluator asks of the resolver of function calls: it takes any name with any
/// arguments, and what it answers depends on the characters of the name and on the values
/// of the arguments alone.
pub open spec fn resolve_ok<R: Fn(String, Vec<Const>) -> Result<Const, RunErr>>(f: R) -> bool {
    &&& forall|s: String, v: Vec<Const>| call_requires(f, (s, v))
    &&& forall|
        iden: Seq<char>,
        args: Seq<ConstModel>,
        o1: Result<ConstModel, RunErrModel>,
        o2: Result<ConstModel, RunErrModel>,
    |
        #[trigger] resolves(f, iden, args, o1) && #[trigger] resolves(f, iden, args, o2) ==> o1
            == o2
}

/// What the evaluator leaves to its host: the arithmetic on floating values, and the
/// functions that a call names.
pub struct Host<A, R> {
    /// The result of an arithmetic operation on two floating values, all three as bits.
    pub float_op: A,
    /// The outcome of the call of the named function on the given arguments.
    pub resolve: R,
}

/// The model of a [`Host`]: the two functions that it computes.
pub ghost struct HostModel {
    pub float_op: spec_fn(FloatOp, u64, u64) -> u64,
    pub resolve: spec_fn(Seq<char>, Seq<ConstModel>) -> Result<ConstModel, RunErrModel>,
}

impl<A: Fn(FloatOp, u64, u64) -> u64, R: Fn(String, Vec<Const>) -> Result<Const, RunErr>> Host<A, R> {
    /// The two functions that the host computes.
    pub open spec fn model(&self) -> HostModel {
        HostModel { float_op: float_fn(self.float_op), resolve: resolve_fn(self.resolve) }
    }

    /// What the evaluator asks of its host: see [`float_ok`] and [`resolve_ok`].
    pub open spec fn wf(&self) -> bool {
        float_ok(self.float_op) && resolve_ok(self.resolve)
    }

    /// Asks the host to call the function `iden` on `args`.
    fn call(&self, iden: String, args: Vec<Const>) -> (out: Result<Const, RunErr>)
        requires
            self.wf(),
        ensures
            outcome(out) == (self.model().resolve)(iden@, const_models(args@)),
    {
        let out = (self.resolve)(iden, args);
        proof {
            assert(resolves(self.resolve, iden@, const_models(args@), outcome(out)));
        }
        out
    }
}

/// What the expression `node` reduces to against `frame`.
///
/// A constant is its value. A variable is the value that the frame holds for it, or the
/// error that names it where the frame holds none. A binary operation reduces its left
/// operand, then its right operand, and applies the operator to the two values; a unary
/// operation reduces its operand and applies the operator. A call reduces its arguments
/// from left to right and hands the values to the host. The first error ends the
/// reduction and is its outcome. Any other node is a type error.
pub open spec fn eval(node: NodeModel, frame: FrameModel, host: HostModel) -> Result<
    ConstModel,
    RunErrModel,
>
    decreases node, 0nat,
{
    match node {
        NodeModel::Constant(value) => Ok(value),
        NodeModel::Variable(name) => match frame_get(frame, name) {
            Some(value) => Ok(value),
            None => Err(RunErrModel::Undefined(name)),
        },
        NodeModel::Binop { op, lhs, rhs } => match eval(*lhs, frame, host) {
            Err(e) => Err(e),
            Ok(l) => match eval(*rhs, frame, host) {
                Err(e) => Err(e),
                Ok(r) => binop(op, l, r, host.float_op),
            },
        },
        NodeModel::Unop { op, expr } => match eval(*expr, frame, host) {
            Err(e) => Err(e),
            Ok(value) => unop(op, value),
        },
        NodeModel::CallFunc { iden, args } => match eval_args(args, 0, Seq::empty(), frame, host) {
            Err(e) => Err(e),
            Ok(values) => (host.resolve)(iden, values),
        },
        _ => Err(RunErrModel::Type(FAULT_NODE@)),
    }
}

/// What the arguments `args` from index `from` on reduce to, from left to right, after
/// the values `done` of the arguments before them: all the values, or the first error.
pub open spec fn eval_args(
    args: Seq<NodeModel>,
    from: int,
    done: Seq<ConstModel>,
    frame: FrameModel,
    host: HostModel,
) -> Result<Seq<ConstModel>, RunErrModel>
    decreases args, args.len() - from,
{
    if from < 0 || from >= args.len() {
        Ok(done)
    } else {
        match eval(args[from], frame, host) {
            Err(e) => Err(e),
            Ok(value) => eval_args(args, from + 1, done.push(value), frame, host),
        }
    }
}

/// Reduces the expression `node` against the visible frame of `env`, which stays as it is.
pub fn eval_node<A: Fn(FloatOp, u64, u64) -> u64, R: Fn(String, Vec<Const>) -> Result<Const, RunErr>>(
    node: &Node,
    env: &mut Environment,
    host: &Host<A, R>,
) -> (out: Result<Const, RunErr>)
    requires
        host.wf(),
    ensures
        final(env)@ == old(env)@,
        outcome(out) == eval(node@, visible(old(env)@), host.model()),
    decreases node,
{
    match node {
        Node::Constant(constant) => Ok(constant.clone()),
        Node::Variable(name) => match env.lookup(name) {
            Some(value) => Ok(value.clone()),
            None => Err(RunErr::undefined(name.as_str())),
        },
        Node::Binop(node) => eval_binary_expr(node, env, host),
        Node::Unop(node) => eval_unary_expr(node, env, host),
        Node::CallFunc(call) => {
            proof {
                assert(node@->CallFunc_args =~= node_models(call.args@));
            }
            eval_func(call, env, host)
        },
        _ => Err(RunErr::Type(FAULT_NODE)),
    }
}

/// Reduces a binary operation: the left operand, then the right operand, then the
/// operator on the two values. Both operands are reduced whatever the operator is.
pub fn eval_binary_expr<
    A: Fn(FloatOp, u64, u64) -> u64,
    R: Fn(String, Vec<Const>) -> Result<Const, RunErr>,
>(node: &BinopNode, env: &mut Environment, host: &Host<A, R>) -> (out: Result<Const, RunErr>)
    requires
        host.wf(),
    ensures
        final(env)@ == old(env)@,
        outcome(out) == eval(
            NodeModel::Binop { op: node.op, lhs: Box::new(node.lhs@), rhs: Box::new(node.rhs@) },
            visible(old(env)@),
            host.model(),
        ),
    decreases node,
{
    let lhs = eval_node(&node.lhs, env, host)?;
    let rhs = eval_node(&node.rhs, env, host)?;
    apply_binop(node.op, lhs, rhs, &host.float_op)
}

/// Reduces a unary operation: the operand, then the operator on its value.
pub fn eval_unary_expr<
    A: Fn(FloatOp, u64, u64) -> u64,
    R: Fn(String, Vec<Const>) -> Result<Const, RunErr>,
>(node: &UnopNode, env: &mut Environment, host: &Host<A, R>) -> (out: Result<Const, RunErr>)
    requires
        host.wf(),
    ensures
        final(env)@ == old(env)@,
        outcome(out) == eval(
            NodeModel::Unop { op: node.op, expr: Box::new(node.expr@) },
            visible(old(env)@),
            host.model(),
        ),
    decreases node,
{
    let value = eval_node(&node.expr, env, host)?;
    apply_unop(node.op, value)
}

/// Reduces a call: the arguments from left to right up to the first error, then the call
/// of the named function on their values, which the host makes.
pub fn eval_func<
    A: Fn(FloatOp, u64, u64) -> u64,
    R: Fn(String, Vec<Const>) -> Result<Const, RunErr>,
>(func: &FuncNode, env: &mut Environment, host: &Host<A, R>) -> (out: Result<Const, RunErr>)
    requires
        host.wf(),
    ensures
        final(env)@ == old(env)@,
        outcome(out) == eval(
            NodeModel::CallFunc { iden: func.iden@, args: node_models(func.args@) },
            visible(old(env)@),
            host.model(),
        ),
    decreases func,
{
    let mut results: Vec<Const> = Vec::new();
    let ghost args = node_models(func.args@);
    let ghost frame = visible(env@);
    let mut i: usize = 0;
    proof {
        assert(const_models(results@) =~= Seq::<ConstModel>::empty());
    }
    while i < func.args.len()
        invariant
            host.wf(),
            i <= func.args.len(),
            env@ == old(env)@,
            frame == visible(old(env)@),
            args == node_models(func.args@),
            eval_args(args, i as int, const_models(results@), frame, host.model()) == eval_args(
                args,
                0,
                Seq::empty(),
                frame,
                host.model(),
            ),
        decreases func.args.len() - i,
    {
        let ghost before = const_models(results@);
        match eval_node(&func.args[i], env, host) {
            Ok(result) => {
                results.push(result);
                proof {
                    assert(const_models(results@) =~= before.push(result@));
                }
            },
            Err(err) => {
                return Err(err);
            },
        }
        i = i + 1;
    }
    host.call(func.iden.clone(), results)
}

} // verus!
