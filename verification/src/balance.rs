//! The discipline of the stacks.
//!
//! Queues and scopes are pushed and popped in step with the frames: a
//! line, a list or a parenthesis that runs has its queue, a procedure of
//! the user that runs has its queue and its scope, and nothing else has
//! any. This holds of every state that the machine reaches, so when a
//! line ends with a value, both stacks are empty of themselves.
use vstd::prelude::*;
use crate::builtin::Builtin;
use crate::host::ReplyModel;
use crate::machine::{CalleeModel, ErrorModel, FocusModel, FrameModel, MachineModel};
use crate::parser::AstModel;

verus! {

/// How many queues a frame has pushed and will pop: one for the
/// statements of a line or list, for a parenthesis and for the lines of a
/// procedure; one for the list that `SETXY` takes its numbers from.
pub open spec fn owns_queue(f: FrameModel) -> int {
    match f {
        FrameModel::Statements { .. } | FrameModel::Group | FrameModel::Body { .. } => 1,
        FrameModel::Operands { callee, .. } => call_owns(callee),
        _ => 0,
    }
}

/// How many scopes a frame has pushed and will pop: one for the lines of
/// a procedure.
pub open spec fn owns_scope(f: FrameModel) -> int {
    match f {
        FrameModel::Body { .. } => 1,
        _ => 0,
    }
}

/// How many queues a call has pushed and will pop.
pub open spec fn call_owns(callee: CalleeModel) -> int {
    if callee.builtin == Some(Builtin::Place) {
        1
    } else {
        0
    }
}

/// The queues of all the frames.
pub open spec fn queues_in(c: Seq<FrameModel>) -> int
    decreases c.len(),
{
    if c.len() == 0 {
        0
    } else {
        queues_in(c.drop_last()) + owns_queue(c.last())
    }
}

/// The scopes of all the frames.
pub open spec fn scopes_in(c: Seq<FrameModel>) -> int
    decreases c.len(),
{
    if c.len() == 0 {
        0
    } else {
        scopes_in(c.drop_last()) + owns_scope(c.last())
    }
}

/// The heights that the frame of a file has noted are those of the frames
/// below it.
pub open spec fn mark_holds(below: Seq<FrameModel>, f: FrameModel) -> bool {
    f matches FrameModel::Feed { queues, locals, .. } ==> queues == queues_in(below) && locals
        == scopes_in(below)
}

/// Every frame of a file has noted the right heights.
pub open spec fn marks_hold(c: Seq<FrameModel>) -> bool
    decreases c.len(),
{
    if c.len() == 0 {
        true
    } else {
        marks_hold(c.drop_last()) && mark_holds(c.drop_last(), c.last())
    }
}

/// The stacks hold what the frames own, and so many queues and scopes
/// more.
pub open spec fn level(m: MachineModel, queues: int, scopes: int) -> bool {
    &&& marks_hold(m.control)
    &&& m.queues.len() == queues_in(m.control) + queues
    &&& m.locals.len() == scopes_in(m.control) + scopes
}

/// The stacks are in step with the frames. While an error is on its way
/// up, the frames it has passed have left their queues and scopes behind,
/// until the frame of a file or the end of the line cuts them off.
pub open spec fn balanced(m: MachineModel) -> bool {
    match m.focus {
        FocusModel::Raise(_) => {
            &&& marks_hold(m.control)
            &&& m.queues.len() >= queues_in(m.control)
            &&& m.locals.len() >= scopes_in(m.control)
        },
        FocusModel::Call { callee, .. } => level(m, call_owns(callee), 0),
        _ => level(m, 0, 0),
    }
}

proof fn lemma_push(c: Seq<FrameModel>, f: FrameModel)
    ensures
        queues_in(c.push(f)) == queues_in(c) + owns_queue(f),
        scopes_in(c.push(f)) == scopes_in(c) + owns_scope(f),
        marks_hold(c.push(f)) == (marks_hold(c) && mark_holds(c, f)),
        queues_in(c) >= 0,
        scopes_in(c) >= 0,
    decreases c.len(),
{
    assert(c.push(f).drop_last() =~= c);
    if c.len() > 0 {
        lemma_push(c.drop_last(), c.last());
    }
}

/// What holds of the frames with one more on top, for every stack of
/// frames.
proof fn lemma_frames()
    ensures
        forall|c: Seq<FrameModel>, f: FrameModel|
            #![trigger c.push(f)]
            queues_in(c.push(f)) == queues_in(c) + owns_queue(f) && scopes_in(c.push(f))
                == scopes_in(c) + owns_scope(f) && marks_hold(c.push(f)) == (marks_hold(c)
                && mark_holds(c, f)),
        forall|c: Seq<FrameModel>| #![trigger queues_in(c)] queues_in(c) >= 0,
        forall|c: Seq<FrameModel>| #![trigger scopes_in(c)] scopes_in(c) >= 0,
{
    assert forall|c: Seq<FrameModel>, f: FrameModel| #![trigger c.push(f)]
        queues_in(c.push(f)) == queues_in(c) + owns_queue(f) && scopes_in(c.push(f)) == scopes_in(
            c,
        ) + owns_scope(f) && marks_hold(c.push(f)) == (marks_hold(c) && mark_holds(c, f)) by {
        lemma_push(c, f);
    }
    assert forall|c: Seq<FrameModel>| #![trigger queues_in(c)] queues_in(c) >= 0 by {
        lemma_push(c, FrameModel::Group);
    }
    assert forall|c: Seq<FrameModel>| #![trigger scopes_in(c)] scopes_in(c) >= 0 by {
        lemma_push(c, FrameModel::Group);
    }
}

proof fn lemma_define(m: MachineModel)
    requires
        level(m, 0, 0),
        m.focus is Idle,
    ensures
        balanced(m.define_step()),
{
    lemma_frames();
}

proof fn lemma_accept(m: MachineModel, ast: AstModel)
    requires
        level(m, 0, 0),
        !(m.focus is Raise) && !(m.focus is Call),
    ensures
        balanced(m.accept(ast)),
{
    lemma_frames();
}

proof fn lemma_eval(m: MachineModel, node: AstModel)
    requires
        level(m, 0, 0),
        m.focus is Idle,
    ensures
        balanced(m.eval_step(node)),
{
    lemma_frames();
    match node {
        AstModel::Function(name) => {
            lemma_define(m);
            assert(Builtin::named(name) != Some(Builtin::Place));
        },
        _ => {},
    }
}

proof fn lemma_apply(m: MachineModel, b: Builtin, args: Seq<AstModel>)
    requires
        level(m, if b is Place { 1int } else { 0int }, 0),
        m.focus is Idle,
    ensures
        balanced(m.apply(b, args)),
{
    lemma_frames();
}

proof fn lemma_gather(m: MachineModel, callee: CalleeModel, collected: Seq<AstModel>)
    requires
        level(m, call_owns(callee), 0),
        m.focus is Idle,
    ensures
        balanced(m.gather_step(callee, collected)),
{
    lemma_frames();
    if collected.len() >= m.arity(callee) {
        match callee.builtin {
            Some(b) => {
                lemma_apply(m, b, collected);
            },
            None => {},
        }
    }
}

proof fn lemma_compare(m: MachineModel, op: crate::host::Operator, l: AstModel, r: AstModel)
    requires
        level(m, 0, 0),
        m.focus is Idle,
    ensures
        balanced(m.compare(op, l, r)),
{
    lemma_frames();
}

proof fn lemma_feed(m: MachineModel, lines: Seq<AstModel>, next: int, queues: int, locals: int)
    requires
        level(m, 0, 0),
        m.focus is Idle,
        queues == queues_in(m.control),
        locals == scopes_in(m.control),
    ensures
        balanced(m.feed_step(lines, next, queues, locals)),
{
    lemma_frames();
    let frame = FrameModel::Feed { lines, next: next + 1, queues, locals };
    match lines[next] {
        AstModel::Word(text) => {
            let (saved, r) = crate::machine::parsed(m.saved, text);
            let pushed = (MachineModel { saved, ..m }).push(frame);
            match r {
                Ok(ast) => {
                    lemma_accept(pushed, ast);
                },
                Err(_) => {},
            }
        },
        _ => {},
    }
}

proof fn lemma_resume_flow(m: MachineModel, frame: FrameModel, v: AstModel)
    requires
        level(m, owns_queue(frame), owns_scope(frame)),
        m.focus is Idle,
        frame is Statements || frame is Group || frame is Coerce || frame is Check
            || frame is Operands || frame is Body,
    ensures
        balanced(m.resume_step(frame, v)),
{
    lemma_frames();
}

proof fn lemma_resume_math(m: MachineModel, frame: FrameModel, v: AstModel)
    requires
        level(m, 0, 0),
        m.focus is Idle,
        frame is Negate || frame is BinaryLeft || frame is BinaryRight || frame is Respell
            || frame is NaryNext || frame is NaryFold,
    ensures
        balanced(m.resume_step(frame, v)),
{
    lemma_frames();
    match frame {
        FrameModel::BinaryRight { op, left } => {
            lemma_compare(m, op, left, v);
        },
        FrameModel::Respell { op, other, first } => {
            lemma_compare(m, op, v, other);
            lemma_compare(m, op, other, v);
        },
        _ => {},
    }
}

proof fn lemma_resume_loop(m: MachineModel, frame: FrameModel, v: AstModel)
    requires
        level(m, 0, 0),
        m.focus is Idle,
        frame is RepeatCount || frame is Repeat || frame is ForTest || frame is ForStep
            || frame is ForNext,
    ensures
        balanced(m.resume_step(frame, v)),
{
    lemma_frames();
}

proof fn lemma_resume_host(m: MachineModel, frame: FrameModel, v: AstModel)
    requires
        level(m, 0, 0),
        m.focus is Idle,
        mark_holds(m.control, frame),
        frame is Arrive || frame is Back || frame is Head || frame is Pick || frame is Loaded
            || frame is Feed,
    ensures
        balanced(m.resume_step(frame, v)),
{
    lemma_frames();
    match frame {
        FrameModel::Feed { lines, next, queues, locals } => {
            if v is Empty && 0 <= next < lines.len() {
                lemma_feed(m, lines, next, queues, locals);
            }
        },
        _ => {},
    }
}

proof fn lemma_unwind(m: MachineModel, frame: FrameModel, e: ErrorModel)
    requires
        marks_hold(m.control),
        mark_holds(m.control, frame),
        m.queues.len() >= queues_in(m.control),
        m.locals.len() >= scopes_in(m.control),
        m.focus is Idle,
    ensures
        balanced(m.unwind_step(frame, e)),
{
    lemma_frames();
}

/// A step keeps the stacks in step with the frames.
pub proof fn lemma_step(m: MachineModel)
    requires
        balanced(m),
    ensures
        balanced(m.step()),
{
    lemma_frames();
    let idle = m.idle();
    match m.focus {
        FocusModel::Eval(node) => {
            lemma_eval(idle, node);
        },
        FocusModel::Call { callee, collected } => {
            lemma_gather(idle, callee, collected);
        },
        FocusModel::Value(v) => {
            if m.control.len() > 0 {
                let frame = m.control.last();
                let popped = idle.pop();
                assert(m.control =~= popped.control.push(frame));
                match frame {
                    FrameModel::Statements { .. } | FrameModel::Group | FrameModel::Coerce(_)
                    | FrameModel::Check(_) | FrameModel::Operands { .. } | FrameModel::Body {
                        ..
                    } => {
                        lemma_resume_flow(popped, frame, v);
                    },
                    FrameModel::Negate | FrameModel::BinaryLeft { .. } | FrameModel::BinaryRight {
                        ..
                    } | FrameModel::Respell { .. } | FrameModel::NaryNext { .. }
                    | FrameModel::NaryFold { .. } => {
                        lemma_resume_math(popped, frame, v);
                    },
                    FrameModel::RepeatCount { .. } | FrameModel::Repeat { .. }
                    | FrameModel::ForTest { .. } | FrameModel::ForStep { .. }
                    | FrameModel::ForNext { .. } => {
                        lemma_resume_loop(popped, frame, v);
                    },
                    _ => {
                        lemma_resume_host(popped, frame, v);
                    },
                }
            }
        },
        FocusModel::Raise(e) => {
            if m.control.len() > 0 {
                let frame = m.control.last();
                let popped = idle.pop();
                assert(m.control =~= popped.control.push(frame));
                lemma_unwind(popped, frame, e);
            }
        },
        _ => {},
    }
}

/// Running keeps the stacks in step with the frames.
pub proof fn lemma_run(m: MachineModel, budget: nat)
    requires
        balanced(m),
    ensures
        balanced(m.run(budget)),
    decreases budget,
{
    if budget > 0 && m.active() {
        lemma_step(m);
        lemma_run(m.step(), (budget - 1) as nat);
    }
}

/// A machine at rest that is handed a line has its stacks in step with
/// its frames.
pub proof fn lemma_fed(m: MachineModel, input: Seq<char>)
    requires
        balanced(m),
        m.focus is Idle,
    ensures
        balanced(m.fed(input)),
{
    lemma_frames();
    let (saved, r) = crate::machine::parsed(m.saved, input);
    match r {
        Ok(ast) => {
            lemma_accept(MachineModel { saved, ..m }, ast);
        },
        Err(_) => {},
    }
}

/// The answer of the host keeps the stacks in step with the frames.
pub proof fn lemma_answered(m: MachineModel, reply: ReplyModel)
    requires
        balanced(m),
    ensures
        balanced(m.answered(reply)),
{
}

/// When the machine stops running, its stacks are in step with its
/// frames; and where a line ends with a value, they were empty before the
/// machine came to rest: coming to rest then changes the focus and nothing
/// else.
pub proof fn lemma_settled(m: MachineModel)
    requires
        balanced(m),
    ensures
        balanced(m.settled().0),
        m.focus is Value && m.control.len() == 0 ==> m.queues.len() == 0 && m.locals.len() == 0
            && m.settled().0 == m.idle(),
{
    if m.focus is Value && m.control.len() == 0 {
        assert(m.queues =~= Seq::empty());
        assert(m.locals =~= Seq::empty());
        assert(m.control =~= Seq::empty());
    }
}

} // verus!
