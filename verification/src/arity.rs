//! How a procedure takes its operands from the line.
//!
//! A built-in procedure that finds enough values on the line takes exactly
//! as many as it has operands, in order, and leaves the rest of the line as
//! it is. One that finds too few takes them all and then fails: it needs
//! more input.
use vstd::prelude::*;
use crate::builtin::{Builtin, Kind};
use crate::evaluator::SLICE;
use crate::machine::{
    fits, parsed, CalleeModel, ErrorKind, ErrorModel, FocusModel, FrameModel, MachineModel,
    StatusModel,
};
use crate::parser::AstModel;

verus! {

/// A value: it evaluates to itself.
pub open spec fn is_plain(v: AstModel) -> bool {
    v is Num || v is Word || v is List
}

/// How many steps it takes to take one value from the line as an operand
/// of the kind.
pub open spec fn take_steps(kind: Kind) -> nat {
    if kind is Any {
        3
    } else {
        6
    }
}

/// How many steps it takes to take `count` values from the line as the
/// operands of `b` from number `from` on.
pub open spec fn pull_steps(b: Builtin, from: int, count: nat) -> nat
    decreases count,
{
    if count == 0 {
        0
    } else {
        take_steps(b.kinds()[from]) + pull_steps(b, from + 1, (count - 1) as nat)
    }
}

/// The first `count` expressions of the top queue are values of the kinds
/// that `b` expects of its operands from number `from` on.
pub open spec fn operands_ready(m: MachineModel, b: Builtin, from: int, count: nat) -> bool {
    &&& m.queues.len() > 0
    &&& count <= m.queues.last().len()
    &&& from + count <= b.kinds().len()
    &&& forall|i: int|
        0 <= i < count ==> is_plain(#[trigger] m.queues.last()[i]) && fits(
            b.kinds()[from + i],
            m.queues.last()[i],
        )
}

/// The machine without the first `count` expressions of the top queue.
pub open spec fn without(m: MachineModel, count: nat) -> MachineModel {
    MachineModel {
        queues: m.queues.update(m.queues.len() - 1, m.queues.last().skip(count as int)),
        ..m
    }
}

/// Running on is running in two parts.
pub proof fn lemma_run_add(m: MachineModel, a: nat, b: nat)
    ensures
        m.run(a + b) == m.run(a).run(b),
    decreases a,
{
    if a > 0 && m.active() {
        lemma_run_add(m.step(), (a - 1) as nat, b);
    } else if !m.active() {
        assert(m.run(b) == m) by {
            if b > 0 {
            }
        }
    }
}

/// A call takes the next value from the line: some steps later the value
/// is the last of its operands, and nothing else has changed.
pub proof fn lemma_take(
    m: MachineModel,
    name: Seq<char>,
    b: Builtin,
    collected: Seq<AstModel>,
)
    requires
        m.focus == (FocusModel::Call {
            callee: CalleeModel { name, builtin: Some(b) },
            collected,
        }),
        operands_ready(m, b, collected.len() as int, 1),
    ensures
        m.run(take_steps(b.kinds()[collected.len() as int])) == without(m, 1).call(
            CalleeModel { name, builtin: Some(b) },
            collected.push(m.queues.last()[0]),
        ),
{
    let callee = CalleeModel { name, builtin: Some(b) };
    let kind = b.kinds()[collected.len() as int];
    let v = m.queues.last()[0];
    let goal = without(m, 1).call(callee, collected.push(v));
    assert(m.queues.last().skip(1) =~= m.queues.last().drop_first());
    assert(m.next_expr() == Some(v));
    let frame = FrameModel::Operands { callee, collected };
    let dropped = m.idle().drop_expr();
    let base = dropped.push(frame);
    assert(base.control.drop_last() =~= m.control);
    assert(base.pop() == dropped);
    let s1 = m.step();
    if kind is Any {
        assert(s1 == base.eval(v));
        let s2 = s1.step();
        assert(s2 == base.value(v));
        let s3 = s2.step();
        assert(s3 == dropped.call(callee, collected.push(v)));
        assert(s3 == goal);
        assert(m.run(3) == s1.run(2));
        assert(s1.run(2) == s2.run(1));
        assert(s2.run(1) == s3.run(0));
    } else {
        let coerce = base.push(FrameModel::Coerce(kind));
        assert(coerce.control.drop_last() =~= base.control);
        assert(coerce.pop() == base);
        assert(s1 == coerce.eval(v));
        let s2 = s1.step();
        assert(s2 == coerce.value(v));
        let s3 = s2.step();
        let check = base.push(FrameModel::Check(kind));
        assert(check.control.drop_last() =~= base.control);
        assert(check.pop() == base);
        assert(s3 == check.eval(v));
        let s4 = s3.step();
        assert(s4 == check.value(v));
        let s5 = s4.step();
        assert(s5 == base.value(v));
        let s6 = s5.step();
        assert(s6 == dropped.call(callee, collected.push(v)));
        assert(s6 == goal);
        assert(m.run(6) == s1.run(5));
        assert(s1.run(5) == s2.run(4));
        assert(s2.run(4) == s3.run(3));
        assert(s3.run(3) == s4.run(2));
        assert(s4.run(2) == s5.run(1));
        assert(s5.run(1) == s6.run(0));
    }
}

/// A call takes the next `count` values from the line, in order: some
/// steps later they are the last of its operands, the line is shorter by
/// them, and nothing else has changed.
pub proof fn lemma_pull(
    m: MachineModel,
    name: Seq<char>,
    b: Builtin,
    collected: Seq<AstModel>,
    count: nat,
)
    requires
        m.focus == (FocusModel::Call {
            callee: CalleeModel { name, builtin: Some(b) },
            collected,
        }),
        operands_ready(m, b, collected.len() as int, count),
    ensures
        m.run(pull_steps(b, collected.len() as int, count)) == without(m, count).call(
            CalleeModel { name, builtin: Some(b) },
            collected + m.queues.last().take(count as int),
        ),
    decreases count,
{
    let callee = CalleeModel { name, builtin: Some(b) };
    let q = m.queues.last();
    if count == 0 {
        assert(q.skip(0) =~= q);
        assert(m.queues.update(m.queues.len() - 1, q) =~= m.queues);
        assert(collected + q.take(0) =~= collected);
    } else {
        let first = take_steps(b.kinds()[collected.len() as int]);
        let rest = pull_steps(b, (collected.len() + 1) as int, (count - 1) as nat);
        assert(is_plain(q[0]));
        lemma_take(m, name, b, collected);
        let next = without(m, 1).call(callee, collected.push(q[0]));
        assert(next.queues.last() == q.skip(1));
        assert forall|i: int| 0 <= i < count - 1 implies is_plain(
            #[trigger] next.queues.last()[i],
        ) && fits(b.kinds()[collected.len() + 1 + i], next.queues.last()[i]) by {
            assert(next.queues.last()[i] == q[i + 1]);
            assert(is_plain(q[i + 1]));
        }
        lemma_pull(next, name, b, collected.push(q[0]), (count - 1) as nat);
        lemma_run_add(m, first, rest);
        assert(q.skip(1).skip(count - 1) =~= q.skip(count as int));
        assert(next.queues.update(next.queues.len() - 1, q.skip(count as int)) =~= m.queues.update(
            m.queues.len() - 1,
            q.skip(count as int),
        ));
        assert(collected.push(q[0]) + q.skip(1).take(count - 1) =~= collected + q.take(
            count as int,
        ));
    }
}

/// A built-in procedure with fewer values on its line than it has operands
/// takes them all and fails: it needs more input.
pub proof fn lemma_too_few(m: MachineModel, name: Seq<char>, b: Builtin)
    requires
        m.focus == (FocusModel::Call {
            callee: CalleeModel { name, builtin: Some(b) },
            collected: Seq::<AstModel>::empty(),
        }),
        m.queues.len() > 0,
        m.queues.last().len() < b.kinds().len(),
        operands_ready(m, b, 0, m.queues.last().len()),
    ensures
        m.run(pull_steps(b, 0, m.queues.last().len()) + 1).focus == FocusModel::Raise(
            ErrorModel { kind: ErrorKind::NeedMoreInput, subject: name },
        ),
{
    let callee = CalleeModel { name, builtin: Some(b) };
    let q = m.queues.last();
    let none = Seq::<AstModel>::empty();
    lemma_pull(m, name, b, none, q.len());
    let pulled = without(m, q.len()).call(callee, none + q.take(q.len() as int));
    lemma_run_add(m, pull_steps(b, 0, q.len()), 1);
    assert(pulled.queues.last() =~= Seq::<AstModel>::empty());
    assert(pulled.next_expr() is None);
    assert((none + q.take(q.len() as int)).len() == q.len());
    lemma_one_step(pulled);
    crate::machine::lemma_too_few_operands(pulled.idle(), name, b, none + q.take(q.len() as int));
}

/// One step of a machine that has a step to take.
proof fn lemma_one_step(m: MachineModel)
    requires
        m.active(),
    ensures
        m.run(1) == m.step(),
{
    assert(m.step().run(0) == m.step());
    assert(m.run(1) == m.step().run(0));
}

/// A built-in procedure with enough values on its line takes exactly as
/// many as it has operands and is applied to them; what follows them on
/// the line is left as it is.
pub proof fn lemma_enough(m: MachineModel, name: Seq<char>, b: Builtin)
    requires
        m.focus == (FocusModel::Call {
            callee: CalleeModel { name, builtin: Some(b) },
            collected: Seq::<AstModel>::empty(),
        }),
        operands_ready(m, b, 0, b.kinds().len()),
    ensures
        m.run(pull_steps(b, 0, b.kinds().len()) + 1) == without(m, b.kinds().len()).idle().apply(
            b,
            m.queues.last().take(b.kinds().len() as int),
        ),
{
    let callee = CalleeModel { name, builtin: Some(b) };
    let q = m.queues.last();
    let n = b.kinds().len();
    let none = Seq::<AstModel>::empty();
    let operands = q.take(n as int);
    lemma_pull(m, name, b, none, n);
    assert(none + operands =~= operands);
    let pulled = without(m, n).call(callee, operands);
    lemma_run_add(m, pull_steps(b, 0, n), 1);
    lemma_one_step(pulled);
    lemma_applied(pulled, callee, b, operands);
    assert(pulled.idle() == without(m, n).idle());
}

/// A call with all its operands is applied in one step.
proof fn lemma_applied(m: MachineModel, callee: CalleeModel, b: Builtin, operands: Seq<AstModel>)
    requires
        m.focus == (FocusModel::Call { callee, collected: operands }),
        callee.builtin == Some(b),
        operands.len() == b.kinds().len(),
    ensures
        m.step() == m.idle().apply(b, operands),
{
    assert(m.step() == m.idle().gather_step(callee, operands));
    crate::machine::lemma_enough_operands(m.idle(), callee.name, b, operands);
}

/// An operand is taken from the front of the top queue and from nowhere
/// else: the queues below, the back of the top queue, the variables and
/// the turtle stay as they are. Where the top queue is used up, the call
/// fails for want of input and nothing changes.
pub proof fn lemma_operand_from_front(
    m: MachineModel,
    callee: CalleeModel,
    collected: Seq<AstModel>,
)
    requires
        collected.len() < m.arity(callee),
    ensures
        m.next_expr() is None ==> m.gather_step(callee, collected) == m.raise(
            ErrorKind::NeedMoreInput,
            callee.name,
        ),
        m.next_expr() matches Some(e) ==> {
            let r = m.gather_step(callee, collected);
            &&& e == m.queues.last()[0]
            &&& r.focus == FocusModel::Eval(e)
            &&& r.queues == m.queues.update(m.queues.len() - 1, m.queues.last().drop_first())
            &&& r.locals == m.locals
            &&& r.vars == m.vars
            &&& r.turtle == m.turtle
            &&& r.procedures == m.procedures
        },
{
}

/// The line that is a call of `name` with the given expressions behind it.
pub open spec fn call_line(name: Seq<char>, operands: Seq<AstModel>) -> AstModel {
    AstModel::ExprLine(seq![AstModel::Function(name)] + operands)
}

/// The expressions are values of the kinds that `b` expects of its first
/// operands.
pub open spec fn values_fit(b: Builtin, operands: Seq<AstModel>) -> bool {
    &&& operands.len() <= b.kinds().len()
    &&& forall|i: int|
        0 <= i < operands.len() ==> is_plain(#[trigger] operands[i]) && fits(
            b.kinds()[i],
            operands[i],
        )
}

/// The machine when the call of a line starts: the expressions behind the
/// name wait in a queue of their own, and the call has no operand yet.
pub open spec fn started(
    m: MachineModel,
    name: Seq<char>,
    b: Builtin,
    operands: Seq<AstModel>,
) -> MachineModel {
    m.idle().push_queue(operands).push(FrameModel::Statements { strict: false }).call(
        CalleeModel { name, builtin: Some(b) },
        Seq::empty(),
    )
}

/// The name of a built-in procedure is neither of the two words that frame
/// a definition.
pub proof fn lemma_builtin_name(name: Seq<char>)
    requires
        Builtin::named(name) is Some,
    ensures
        name != "TO"@,
        name != "END"@,
{
    reveal_strlit("TO");
    reveal_strlit("END");
    reveal_strlit("PR");
    reveal_strlit("PRINT");
    reveal_strlit("POPS");
    reveal_strlit("PONS");
    reveal_strlit("OP");
    reveal_strlit("OUTPUT");
    reveal_strlit("LOAD");
    reveal_strlit("MAKE");
    reveal_strlit("LPUT");
    reveal_strlit("ITEM");
    reveal_strlit("LIST");
    reveal_strlit("REPEAT");
    reveal_strlit("FOR");
    reveal_strlit("SETXY");
    reveal_strlit("GETXY");
    reveal_strlit("SETH");
    reveal_strlit("SETHEADING");
    reveal_strlit("SETX");
    reveal_strlit("SETY");
    reveal_strlit("HEADING");
    reveal_strlit("XCOR");
    reveal_strlit("YCOR");
    reveal_strlit("FD");
    reveal_strlit("FORWARD");
    reveal_strlit("BK");
    reveal_strlit("BACK");
    reveal_strlit("RT");
    reveal_strlit("RIGHT");
    reveal_strlit("LT");
    reveal_strlit("LEFT");
    reveal_strlit("CS");
    reveal_strlit("CLEARSCREEN");
    reveal_strlit("CLEAN");
    reveal_strlit("HOME");
    reveal_strlit("PD");
    reveal_strlit("PENDOWN");
    reveal_strlit("PU");
    reveal_strlit("PENUP");
    if name == "TO"@ {
        assert(name.len() == 2 && name[0] == 'T' && name[1] == 'O');
    }
    if name == "END"@ {
        assert(name.len() == 3 && name[0] == 'E' && name[1] == 'N' && name[2] == 'D');
    }
}

/// A line that is a call of a built-in procedure starts the call in three
/// steps.
pub proof fn lemma_start(m: MachineModel, name: Seq<char>, b: Builtin, operands: Seq<AstModel>)
    requires
        m.focus == FocusModel::Eval(call_line(name, operands)),
        Builtin::named(name) == Some(b),
    ensures
        m.run(3) == started(m, name, b, operands),
{
    lemma_builtin_name(name);
    let list = seq![AstModel::Function(name)] + operands;
    let frame = FrameModel::Statements { strict: false };
    assert(list[0] == AstModel::Function(name));
    assert(list.drop_first() =~= operands);
    let s1 = m.step();
    let queued = m.idle().push_queue(list).push(frame);
    assert(s1 == queued.value(AstModel::Empty));
    assert(queued.control.drop_last() =~= m.control);
    let popped = s1.idle().pop();
    assert(popped == m.idle().push_queue(list));
    assert(popped.next_expr() == Some(list[0]));
    assert(popped.queues.update(popped.queues.len() - 1, list.drop_first()) =~= m.queues.push(
        operands,
    ));
    let waiting = m.idle().push_queue(operands).push(frame);
    let s2 = s1.step();
    assert(s2 == waiting.eval(AstModel::Function(name)));
    let s3 = s2.step();
    assert(s3 == started(m, name, b, operands));
    assert(m.run(3) == s1.run(2));
    assert(s1.run(2) == s2.run(1));
    assert(s2.run(1) == s3.run(0));
}

/// It takes at most six steps to take a value.
pub proof fn lemma_pull_bound(b: Builtin, from: int, count: nat)
    ensures
        pull_steps(b, from, count) <= 6 * count,
    decreases count,
{
    if count > 0 {
        lemma_pull_bound(b, from + 1, (count - 1) as nat);
    }
}

/// A machine that has stopped stays as it is, however long it is run.
pub proof fn lemma_run_stopped(m: MachineModel, a: nat, n: nat)
    requires
        a <= n,
        !m.run(a).active(),
    ensures
        m.run(n) == m.run(a),
{
    lemma_run_add(m, a, (n - a) as nat);
    let stopped = m.run(a);
    assert(stopped.run((n - a) as nat) == stopped);
}

/// No built-in procedure has more than four operands.
proof fn lemma_few_operands(b: Builtin)
    ensures
        b.kinds().len() <= 4,
{
}

/// A line that is fed to a machine at rest, and that is a built-in
/// procedure followed by fewer values than it has operands, ends with the
/// error that the procedure needs more input. The procedure is not
/// applied: the variables, the procedures and the turtle, with all it has
/// drawn, are what they were.
pub proof fn lemma_feed_too_few(
    m: MachineModel,
    input: Seq<char>,
    name: Seq<char>,
    b: Builtin,
    operands: Seq<AstModel>,
)
    requires
        m.at_rest(),
        m.definition is None,
        parsed(m.saved, input).1 == Ok::<AstModel, ErrorModel>(call_line(name, operands)),
        Builtin::named(name) == Some(b),
        operands.len() < b.kinds().len(),
        values_fit(b, operands),
    ensures
        m.fed(input).run(SLICE as nat).settled() == (
            MachineModel { saved: parsed(m.saved, input).0, ..m },
            StatusModel::Done(
                Err(ErrorModel { kind: ErrorKind::NeedMoreInput, subject: name }),
            ),
        ),
{
    let callee = CalleeModel { name, builtin: Some(b) };
    let e = ErrorModel { kind: ErrorKind::NeedMoreInput, subject: name };
    let kept = MachineModel { saved: parsed(m.saved, input).0, ..m };
    let f = m.fed(input);
    assert(f == kept.eval(call_line(name, operands)));
    lemma_start(f, name, b, operands);
    let s = started(f, name, b, operands);
    let k = operands.len();
    let pull = pull_steps(b, 0, k);
    assert(s.queues.last() == operands);
    let none = Seq::<AstModel>::empty();
    lemma_pull(s, name, b, none, k);
    assert(operands.take(k as int) =~= operands);
    assert(none + operands =~= operands);
    let pulled = without(s, k).call(callee, operands);
    assert(s.run(pull) == pulled);
    assert(pulled.queues.last() =~= Seq::<AstModel>::empty());
    assert(pulled.next_expr() is None);
    lemma_one_step(pulled);
    crate::machine::lemma_too_few_operands(pulled.idle(), name, b, operands);
    let raised = pulled.step();
    assert(raised == pulled.idle().raise(ErrorKind::NeedMoreInput, name));
    assert(raised.control =~= seq![FrameModel::Statements { strict: false }]);
    lemma_one_step(raised);
    let unwound = raised.step();
    assert(raised.control.drop_last() =~= Seq::<FrameModel>::empty());
    assert(unwound.focus == FocusModel::Raise(e));
    assert(unwound.control.len() == 0);
    assert(!unwound.active());
    // the steps in a row
    lemma_run_add(f, 3, pull);
    lemma_run_add(f, 3 + pull, 1);
    lemma_run_add(f, 3 + pull + 1, 1);
    let total = 3 + pull + 2;
    assert(f.run(total) == unwound);
    lemma_pull_bound(b, 0, k);
    lemma_few_operands(b);
    lemma_run_stopped(f, total, SLICE as nat);
    assert(unwound.rest().queues =~= kept.queues);
    assert(unwound.rest().locals =~= kept.locals);
    assert(unwound.rest().control =~= kept.control);
    assert(unwound.rest() == kept);
}

/// A line that is fed to a machine at rest, and that is a built-in
/// procedure followed by exactly as many values as it has operands, has
/// the procedure applied to them, with nothing left of the line.
pub proof fn lemma_feed_enough(
    m: MachineModel,
    input: Seq<char>,
    name: Seq<char>,
    b: Builtin,
    operands: Seq<AstModel>,
)
    requires
        m.at_rest(),
        m.definition is None,
        parsed(m.saved, input).1 == Ok::<AstModel, ErrorModel>(call_line(name, operands)),
        Builtin::named(name) == Some(b),
        operands.len() == b.kinds().len(),
        values_fit(b, operands),
    ensures
        m.fed(input).run(3 + pull_steps(b, 0, operands.len()) + 1) == (MachineModel {
            saved: parsed(m.saved, input).0,
            queues: seq![Seq::<AstModel>::empty()],
            control: seq![FrameModel::Statements { strict: false }],
            ..m
        }).apply(b, operands),
{
    let callee = CalleeModel { name, builtin: Some(b) };
    let kept = MachineModel { saved: parsed(m.saved, input).0, ..m };
    let f = m.fed(input);
    assert(f == kept.eval(call_line(name, operands)));
    lemma_start(f, name, b, operands);
    let s = started(f, name, b, operands);
    let n = operands.len();
    let pull = pull_steps(b, 0, n);
    assert(s.queues.last() == operands);
    lemma_enough(s, name, b);
    assert(operands.take(n as int) =~= operands);
    lemma_run_add(f, 3, pull + 1);
    let line = MachineModel {
        saved: parsed(m.saved, input).0,
        queues: seq![Seq::<AstModel>::empty()],
        control: seq![FrameModel::Statements { strict: false }],
        ..m
    };
    assert(operands.skip(n as int) =~= Seq::<AstModel>::empty());
    assert(s.queues.len() == 1);
    assert(without(s, n).queues.len() == 1);
    assert(without(s, n).queues[0] =~= Seq::<AstModel>::empty());
    assert(without(s, n).queues =~= line.queues);
    assert(without(s, n).control =~= line.control);
    assert(without(s, n).idle() == line);
}

/// A built-in procedure that is done at once gives its value without
/// touching the line or the frames.
proof fn lemma_applied_value(m: MachineModel, b: Builtin, operands: Seq<AstModel>)
    requires
        !(b is Place),
        m.apply(b, operands).focus is Value,
    ensures
        m.apply(b, operands).queues == m.queues,
        m.apply(b, operands).control == m.control,
        m.apply(b, operands).saved == m.saved,
{
}

/// A line that is fed to a machine at rest, and that is a built-in
/// procedure followed by exactly as many values as it has operands, is
/// done without an error where the procedure asks nothing of the host:
/// the line ends with the value that the procedure gives, what the
/// procedure did stays, and the queue of the line is empty of itself
/// when the machine comes to rest.
pub proof fn lemma_feed_done(
    m: MachineModel,
    input: Seq<char>,
    name: Seq<char>,
    b: Builtin,
    operands: Seq<AstModel>,
)
    requires
        m.at_rest(),
        m.definition is None,
        parsed(m.saved, input).1 == Ok::<AstModel, ErrorModel>(call_line(name, operands)),
        Builtin::named(name) == Some(b),
        operands.len() == b.kinds().len(),
        values_fit(b, operands),
        (MachineModel {
            saved: parsed(m.saved, input).0,
            queues: seq![Seq::<AstModel>::empty()],
            control: seq![FrameModel::Statements { strict: false }],
            ..m
        }).apply(b, operands).focus is Value,
    ensures
        ({
            let applied = (MachineModel {
                saved: parsed(m.saved, input).0,
                queues: seq![Seq::<AstModel>::empty()],
                control: seq![FrameModel::Statements { strict: false }],
                ..m
            }).apply(b, operands);
            let ended = m.fed(input).run(SLICE as nat);
            &&& ended.queues.len() == 0
            &&& ended.locals.len() == 0
            &&& ended.control.len() == 0
            &&& ended.focus == applied.focus
            &&& m.fed(input).run(SLICE as nat).settled() == (
                MachineModel {
                    focus: FocusModel::Idle,
                    queues: Seq::<Seq<AstModel>>::empty(),
                    control: Seq::<FrameModel>::empty(),
                    ..applied
                },
                StatusModel::Done(Ok(applied.focus->Value_0)),
            )
        }),
{
    let line = MachineModel {
        saved: parsed(m.saved, input).0,
        queues: seq![Seq::<AstModel>::empty()],
        control: seq![FrameModel::Statements { strict: false }],
        ..m
    };
    let f = m.fed(input);
    let n = operands.len();
    let pull = pull_steps(b, 0, n);
    lemma_feed_enough(m, input, name, b, operands);
    let applied = line.apply(b, operands);
    assert(f.run(3 + pull + 1) == applied);
    assert(!(b is Place));
    lemma_applied_value(line, b, operands);
    let v = applied.focus->Value_0;
    assert(applied.control.len() == 1);
    lemma_one_step(applied);
    let ended = applied.step();
    assert(applied.control.last() == FrameModel::Statements { strict: false });
    assert(applied.control.drop_last() =~= Seq::<FrameModel>::empty());
    assert(applied.queues.drop_last() =~= Seq::<Seq<AstModel>>::empty());
    let popped = applied.idle().pop();
    assert(popped.next_expr() is None);
    assert(ended.focus == FocusModel::Value(v));
    assert(ended.control.len() == 0);
    assert(ended.queues.len() == 0);
    assert(!ended.active());
    lemma_run_add(f, 3 + pull + 1, 1);
    let total = 3 + pull + 2;
    assert(f.run(total) == ended);
    lemma_pull_bound(b, 0, n);
    lemma_few_operands(b);
    lemma_run_stopped(f, total, SLICE as nat);
    assert(ended.locals =~= m.locals);
    assert(ended.rest().queues =~= Seq::<Seq<AstModel>>::empty());
    assert(ended.rest().control =~= Seq::<FrameModel>::empty());
    assert(ended.rest().locals =~= applied.locals);
}

} // verus!
