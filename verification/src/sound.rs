//! Well-formed states.
//!
//! A decimal literal is kept as text, for the host to read. Every such
//! text that the machine holds, hands to the host in a request or draws
//! with follows the decimal grammar: it comes from the lexer, which lets
//! no other through, and no step makes a new one.
use vstd::prelude::*;
use crate::builtin::Builtin;
use crate::host::{answer, Operator, ReplyModel, RequestModel};
use crate::lexer::{lemma_scan, terminated, tokens_of, TokenModel};
use crate::machine::{
    bind, bindings_shown, parsed, procedures_shown, CalleeModel, ErrorModel, FocusModel,
    FrameModel, MachineModel, ProcedureModel,
};
use crate::number::NumberModel;
use crate::parser::{all_well_formed, lemma_line, tokens_well_formed, AstModel};
use crate::table::{assign, find_from, lookup};
use crate::turtle::{CommandModel, TurtleModel};

verus! {

/// Every value of the table is well formed.
pub open spec fn table_sound(t: Seq<(Seq<char>, AstModel)>) -> bool {
    forall|i: int| 0 <= i < t.len() ==> (#[trigger] t[i]).1.well_formed()
}

/// Every scope is sound.
pub open spec fn scopes_sound(l: Seq<Seq<(Seq<char>, AstModel)>>) -> bool {
    forall|i: int| 0 <= i < l.len() ==> table_sound(#[trigger] l[i])
}

/// Every queue is well formed.
pub open spec fn queues_sound(q: Seq<Seq<AstModel>>) -> bool {
    forall|i: int| 0 <= i < q.len() ==> all_well_formed(#[trigger] q[i])
}

/// The lines of every procedure are well formed.
pub open spec fn procedures_sound(p: Seq<(Seq<char>, ProcedureModel)>) -> bool {
    forall|i: int| 0 <= i < p.len() ==> all_well_formed((#[trigger] p[i]).1.lines)
}

/// The numbers of a command are well formed.
pub open spec fn command_sound(c: CommandModel) -> bool {
    match c {
        CommandModel::Line(from, to) => from.0.well_formed() && from.1.well_formed()
            && to.0.well_formed() && to.1.well_formed(),
        CommandModel::Clear => true,
    }
}

/// The numbers of what was drawn are well formed.
pub open spec fn drawing_sound(d: Seq<CommandModel>) -> bool {
    forall|i: int| 0 <= i < d.len() ==> command_sound(#[trigger] d[i])
}

/// The numbers of the turtle, and of what it has drawn, are well formed.
pub open spec fn turtle_sound(t: TurtleModel) -> bool {
    &&& t.x.well_formed()
    &&& t.y.well_formed()
    &&& t.heading.well_formed()
    &&& drawing_sound(t.drawn)
}

/// What a frame holds is well formed.
pub open spec fn frame_sound(f: FrameModel) -> bool {
    match f {
        FrameModel::Operands { collected, .. } => all_well_formed(collected),
        FrameModel::Body { lines, .. } => all_well_formed(lines),
        FrameModel::BinaryLeft { right, .. } => right.well_formed(),
        FrameModel::BinaryRight { left, .. } => left.well_formed(),
        FrameModel::Respell { other, .. } => other.well_formed(),
        FrameModel::NaryNext { list, .. } => all_well_formed(list),
        FrameModel::NaryFold { list, acc, .. } => all_well_formed(list) && acc.well_formed(),
        FrameModel::RepeatCount { body } => all_well_formed(body),
        FrameModel::Repeat { body, .. } => all_well_formed(body),
        FrameModel::ForTest { current, end, body, .. } => current.well_formed()
            && end.well_formed() && all_well_formed(body),
        FrameModel::ForStep { current, end, body, .. } => current.well_formed()
            && end.well_formed() && all_well_formed(body),
        FrameModel::ForNext { end, body, .. } => end.well_formed() && all_well_formed(body),
        FrameModel::Pick { list } => all_well_formed(list),
        FrameModel::Feed { lines, .. } => all_well_formed(lines),
        _ => true,
    }
}

/// Every frame is sound.
pub open spec fn frames_sound(c: Seq<FrameModel>) -> bool {
    forall|i: int| 0 <= i < c.len() ==> frame_sound(#[trigger] c[i])
}

/// The numbers and the value of a request are well formed.
pub open spec fn request_sound(r: RequestModel) -> bool {
    match r {
        RequestModel::Arithmetic(_, a, b) => a.well_formed() && b.well_formed(),
        RequestModel::Negate(a) => a.well_formed(),
        RequestModel::Compare(_, a, b) => a.well_formed() && b.well_formed(),
        RequestModel::Spell(a) => a.well_formed(),
        RequestModel::Truncate(a) => a.well_formed(),
        RequestModel::Advance { x, y, heading, distance } => x.well_formed() && y.well_formed()
            && heading.well_formed() && distance.well_formed(),
        RequestModel::Print(v) => v.well_formed(),
        _ => true,
    }
}

/// What the machine has in hand is well formed.
pub open spec fn focus_sound(f: FocusModel) -> bool {
    match f {
        FocusModel::Eval(a) => a.well_formed(),
        FocusModel::Value(a) => a.well_formed(),
        FocusModel::Ask(r) => request_sound(r),
        FocusModel::Call { collected, .. } => all_well_formed(collected),
        _ => true,
    }
}

/// All but the focus is well formed.
pub open spec fn holdings_sound(m: MachineModel) -> bool {
    &&& tokens_well_formed(m.saved)
    &&& turtle_sound(m.turtle)
    &&& table_sound(m.vars)
    &&& scopes_sound(m.locals)
    &&& queues_sound(m.queues)
    &&& procedures_sound(m.procedures)
    &&& (m.definition matches Some((_, p)) ==> all_well_formed(p.lines))
    &&& frames_sound(m.control)
}

/// Every decimal literal that the machine holds follows the decimal
/// grammar.
pub open spec fn sound(m: MachineModel) -> bool {
    holdings_sound(m) && focus_sound(m.focus)
}

/// What it is for a list to be well formed, spelled out.
proof fn lemma_unfold(l: Seq<AstModel>)
    ensures
        all_well_formed(l) <==> (forall|i: int|
            0 <= i < l.len() ==> (#[trigger] l[i]).well_formed()),
        AstModel::List(l).well_formed() == all_well_formed(l),
        AstModel::Parens(l).well_formed() == all_well_formed(l),
        AstModel::ExprLine(l).well_formed() == all_well_formed(l),
        forall|t: TokenModel| #[trigger] AstModel::Nary(t, l).well_formed() == all_well_formed(l),
{
    reveal_with_fuel(AstModel::well_formed, 2);
    reveal_with_fuel(all_well_formed, 2);
}

/// The same of the list that a value is or holds.
proof fn lemma_value(v: AstModel)
    ensures
        v matches AstModel::List(l) ==> (v.well_formed() <==> (forall|i: int|
            0 <= i < l.len() ==> (#[trigger] l[i]).well_formed())) && (v.well_formed()
            <==> all_well_formed(l)),
        v matches AstModel::Parens(l) ==> (v.well_formed() <==> (forall|i: int|
            0 <= i < l.len() ==> (#[trigger] l[i]).well_formed())) && (v.well_formed()
            <==> all_well_formed(l)),
        v matches AstModel::ExprLine(l) ==> (v.well_formed() <==> (forall|i: int|
            0 <= i < l.len() ==> (#[trigger] l[i]).well_formed())) && (v.well_formed()
            <==> all_well_formed(l)),
        v matches AstModel::Nary(_, l) ==> (v.well_formed() <==> (forall|i: int|
            0 <= i < l.len() ==> (#[trigger] l[i]).well_formed())) && (v.well_formed()
            <==> all_well_formed(l)),
{
    match v {
        AstModel::List(l) => lemma_unfold(l),
        AstModel::Parens(l) => lemma_unfold(l),
        AstModel::ExprLine(l) => lemma_unfold(l),
        AstModel::Nary(_, l) => lemma_unfold(l),
        _ => {},
    }
}

proof fn lemma_find<T>(s: Seq<(Seq<char>, T)>, name: Seq<char>, from: int)
    requires
        0 <= from,
    ensures
        find_from(s, name, from) matches Some(i) ==> from <= i < s.len(),
    decreases s.len() - from,
{
    if from < s.len() && s[from].0 != name {
        lemma_find(s, name, from + 1);
    }
}

proof fn lemma_lookup(t: Seq<(Seq<char>, AstModel)>, name: Seq<char>)
    requires
        table_sound(t),
    ensures
        lookup(t, name) matches Some(v) ==> v.well_formed(),
{
    lemma_find(t, name, 0);
}

proof fn lemma_assign(t: Seq<(Seq<char>, AstModel)>, name: Seq<char>, v: AstModel)
    requires
        table_sound(t),
        v.well_formed(),
    ensures
        table_sound(assign(t, name, v)),
{
    lemma_find(t, name, 0);
    let r = assign(t, name, v);
    assert forall|i: int| 0 <= i < r.len() implies (#[trigger] r[i]).1.well_formed() by {
        if i < t.len() {
            assert(r[i] == t[i] || r[i] == (name, v));
        }
    }
}

proof fn lemma_bind(formals: Seq<Seq<char>>, values: Seq<AstModel>, upto: int)
    requires
        all_well_formed(values),
        upto <= values.len(),
    ensures
        table_sound(bind(formals, values, upto)),
    decreases upto,
{
    if upto > 0 {
        lemma_bind(formals, values, upto - 1);
        lemma_assign(bind(formals, values, upto - 1), formals[upto - 1], values[upto - 1]);
    }
}

proof fn lemma_procedure(p: Seq<(Seq<char>, ProcedureModel)>, name: Seq<char>)
    requires
        procedures_sound(p),
    ensures
        lookup(p, name) matches Some(q) ==> all_well_formed(q.lines),
{
    lemma_find(p, name, 0);
}

proof fn lemma_parsed(saved: Seq<TokenModel>, input: Seq<char>)
    requires
        tokens_well_formed(saved),
    ensures
        tokens_well_formed(parsed(saved, input).0),
        parsed(saved, input).1 matches Ok(a) ==> a.well_formed(),
{
    match tokens_of(input) {
        Ok(ts) => {
            lemma_scan(terminated(input), 0, true);
            if ts.last() is LineCont {
                let kept = saved + ts.drop_last();
                assert forall|i: int| 0 <= i < kept.len() implies (#[trigger] kept[i]).well_formed() by {
                    if i >= saved.len() {
                        assert(kept[i] == ts[i - saved.len()]);
                    }
                }
            } else {
                let all = saved + ts;
                assert forall|i: int| 0 <= i < all.len() implies (#[trigger] all[i]).well_formed() by {
                    if i >= saved.len() {
                        assert(all[i] == ts[i - saved.len()]);
                    }
                }
                lemma_line(all);
            }
        },
        Err(_) => {},
    }
}

proof fn lemma_answer(request: RequestModel, reply: ReplyModel)
    ensures
        answer(request, reply) matches Some(v) ==> v.well_formed(),
{
    match answer(request, reply) {
        Some(v) => {
            lemma_value(v);
            match (request, reply) {
                (RequestModel::Advance { .. }, ReplyModel::Point(x, y)) => {
                    let l = seq![crate::host::computed(x), crate::host::computed(y)];
                    assert(v == AstModel::List(l));
                    assert forall|i: int| 0 <= i < l.len() implies (#[trigger] l[i]).well_formed() by {}
                },
                (RequestModel::Load(_), ReplyModel::Lines(lines)) => {
                    let l = Seq::new(lines.len(), |i: int| AstModel::Word(lines[i]));
                    assert(v == AstModel::List(l));
                    assert forall|i: int| 0 <= i < l.len() implies (#[trigger] l[i]).well_formed() by {}
                },
                _ => {},
            }
        },
        None => {},
    }
}

proof fn lemma_define(m: MachineModel)
    requires
        holdings_sound(m),
    ensures
        sound(m.define_step()),
{
    let r = m.define_step();
    if m.queues.len() > 0 {
        assert forall|i: int| 0 <= i < r.queues.len() implies all_well_formed(
            #[trigger] r.queues[i],
        ) by {
            assert(all_well_formed(m.queues[i]));
        }
    }
}

proof fn lemma_accept(m: MachineModel, ast: AstModel)
    requires
        holdings_sound(m),
        ast.well_formed(),
    ensures
        sound(m.accept(ast)),
{
    match m.definition {
        Some((name, p)) => {
            let r = m.accept(ast);
            let lines = p.lines.push(ast);
            assert forall|i: int| 0 <= i < lines.len() implies (#[trigger] lines[i]).well_formed() by {
                if i < p.lines.len() {
                    assert(lines[i] == p.lines[i]);
                }
            }
            let procs = assign(m.procedures, name, p);
            lemma_find(m.procedures, name, 0);
            assert forall|i: int| 0 <= i < procs.len() implies all_well_formed(
                (#[trigger] procs[i]).1.lines,
            ) by {
                if i < m.procedures.len() {
                    assert(procs[i] == m.procedures[i] || procs[i] == (name, p));
                }
            }
        },
        None => {},
    }
}

proof fn lemma_pushes(m: MachineModel)
    requires
        holdings_sound(m),
    ensures
        forall|f: FrameModel| frame_sound(f) ==> holdings_sound(#[trigger] m.push(f)),
        forall|q: Seq<AstModel>| all_well_formed(q) ==> holdings_sound(#[trigger] m.push_queue(q)),
        forall|t: Seq<(Seq<char>, AstModel)>|
            table_sound(t) ==> holdings_sound(#[trigger] m.push_locals(t)),
        holdings_sound(m.pop()),
        holdings_sound(m.pop_queue()),
        holdings_sound(m.pop_locals()),
        holdings_sound(m.drop_expr()),
        m.next_expr() matches Some(e) ==> e.well_formed(),
        forall|focus: FocusModel| holdings_sound(#[trigger] m.with_focus(focus)),
        forall|q: int, l: int| holdings_sound(#[trigger] m.cut(q, l)),
{
    assert forall|f: FrameModel| frame_sound(f) implies holdings_sound(#[trigger] m.push(f)) by {
        let c = m.control.push(f);
        assert forall|i: int| 0 <= i < c.len() implies frame_sound(#[trigger] c[i]) by {
            if i < m.control.len() {
                assert(c[i] == m.control[i]);
            }
        }
    }
    assert forall|q: Seq<AstModel>| all_well_formed(q) implies holdings_sound(
        #[trigger] m.push_queue(q),
    ) by {
        let c = m.queues.push(q);
        assert forall|i: int| 0 <= i < c.len() implies all_well_formed(#[trigger] c[i]) by {
            if i < m.queues.len() {
                assert(c[i] == m.queues[i]);
            }
        }
    }
    assert forall|t: Seq<(Seq<char>, AstModel)>| table_sound(t) implies holdings_sound(
        #[trigger] m.push_locals(t),
    ) by {
        let c = m.locals.push(t);
        assert forall|i: int| 0 <= i < c.len() implies table_sound(#[trigger] c[i]) by {
            if i < m.locals.len() {
                assert(c[i] == m.locals[i]);
            }
        }
    }
    if m.control.len() > 0 {
        let c = m.control.drop_last();
        assert forall|i: int| 0 <= i < c.len() implies frame_sound(#[trigger] c[i]) by {
            assert(c[i] == m.control[i]);
        }
    }
    if m.queues.len() > 0 {
        let c = m.queues.drop_last();
        assert forall|i: int| 0 <= i < c.len() implies all_well_formed(#[trigger] c[i]) by {
            assert(c[i] == m.queues[i]);
        }
        let top = m.queues.last();
        assert(all_well_formed(top));
        if top.len() > 0 {
            assert(top[0].well_formed());
            let rest = top.drop_first();
            assert forall|i: int| 0 <= i < rest.len() implies (#[trigger] rest[i]).well_formed() by {
                assert(rest[i] == top[i + 1]);
            }
            let u = m.queues.update(m.queues.len() - 1, rest);
            assert forall|i: int| 0 <= i < u.len() implies all_well_formed(#[trigger] u[i]) by {
                if i < m.queues.len() - 1 {
                    assert(u[i] == m.queues[i]);
                }
            }
        }
    }
    if m.locals.len() > 0 {
        let c = m.locals.drop_last();
        assert forall|i: int| 0 <= i < c.len() implies table_sound(#[trigger] c[i]) by {
            assert(c[i] == m.locals[i]);
        }
    }
    assert forall|q: int, l: int| holdings_sound(#[trigger] m.cut(q, l)) by {
        let r = m.cut(q, l);
        assert forall|i: int| 0 <= i < r.queues.len() implies all_well_formed(
            #[trigger] r.queues[i],
        ) by {
            assert(r.queues[i] == m.queues[i]);
        }
        assert forall|i: int| 0 <= i < r.locals.len() implies table_sound(
            #[trigger] r.locals[i],
        ) by {
            assert(r.locals[i] == m.locals[i]);
        }
    }
}

proof fn lemma_variable(m: MachineModel, name: Seq<char>)
    requires
        holdings_sound(m),
    ensures
        m.variable(name) matches Some(v) ==> v.well_formed(),
{
    lemma_lookup(m.vars, name);
    if m.locals.len() > 0 {
        assert(table_sound(m.locals.last()));
        lemma_lookup(m.locals.last(), name);
    }
}

/// Giving a variable a well-formed value keeps what the machine holds
/// well formed.
pub proof fn lemma_assign_var(m: MachineModel, name: Seq<char>, v: AstModel)
    requires
        holdings_sound(m),
        v.well_formed(),
    ensures
        holdings_sound(m.assign_var(name, v)),
        m.assign_var(name, v).focus == m.focus,
{
    lemma_assign(m.vars, name, v);
    if m.locals.len() > 0 {
        assert(table_sound(m.locals.last()));
        lemma_assign(m.locals.last(), name, v);
        let u = m.locals.update(m.locals.len() - 1, assign(m.locals.last(), name, v));
        assert forall|i: int| 0 <= i < u.len() implies table_sound(#[trigger] u[i]) by {
            if i < m.locals.len() - 1 {
                assert(u[i] == m.locals[i]);
            }
        }
    }
}

proof fn lemma_moved(t: TurtleModel, x: NumberModel, y: NumberModel)
    requires
        turtle_sound(t),
        x.well_formed(),
        y.well_formed(),
    ensures
        turtle_sound(t.moved_to(x, y)),
        turtle_sound(t.at_home()),
        turtle_sound(t.wiped()),
        turtle_sound(t.at_home().wiped()),
        forall|pen: bool| turtle_sound(#[trigger] t.with_pen(pen)),
        forall|h: NumberModel| h.well_formed() ==> turtle_sound(#[trigger] t.turned_to(h)),
{
    lemma_drawn(t, x, y);
    lemma_drawn(t, NumberModel::Real(0), NumberModel::Real(0));
    let w = t.wiped();
    assert forall|i: int| 0 <= i < w.drawn.len() implies command_sound(#[trigger] w.drawn[i]) by {
        if i < t.drawn.len() {
            assert(w.drawn[i] == t.drawn[i]);
        }
    }
    let h = t.at_home();
    let hw = h.wiped();
    assert forall|i: int| 0 <= i < hw.drawn.len() implies command_sound(#[trigger] hw.drawn[i]) by {
        if i < h.drawn.len() {
            assert(hw.drawn[i] == h.drawn[i]);
        }
    }
}

proof fn lemma_drawn(t: TurtleModel, x: NumberModel, y: NumberModel)
    requires
        turtle_sound(t),
        x.well_formed(),
        y.well_formed(),
    ensures
        turtle_sound(t.moved_to(x, y)),
        turtle_sound(t.moved_to(x, y).turned_to(NumberModel::Real(0))),
{
    let r = t.moved_to(x, y);
    assert forall|i: int| 0 <= i < r.drawn.len() implies command_sound(#[trigger] r.drawn[i]) by {
        if i < t.drawn.len() {
            assert(r.drawn[i] == t.drawn[i]);
        }
    }
}

proof fn lemma_bindings_shown(t: Seq<(Seq<char>, AstModel)>)
    requires
        table_sound(t),
    ensures
        all_well_formed(bindings_shown(t)),
{
    let a = bindings_shown(t);
    assert forall|i: int| 0 <= i < a.len() implies (#[trigger] a[i]).well_formed() by {
        assert(t[i].1.well_formed());
        let e = seq![AstModel::Word(t[i].0), AstModel::Word("is"@), t[i].1];
        assert(a[i] == AstModel::List(e));
        assert forall|k: int| 0 <= k < e.len() implies (#[trigger] e[k]).well_formed() by {}
        lemma_unfold(e);
    }
    lemma_unfold(a);
}

proof fn lemma_shown(m: MachineModel)
    requires
        holdings_sound(m),
    ensures
        m.variables_shown().well_formed(),
        AstModel::List(procedures_shown(m.procedures)).well_formed(),
{
    let top: Seq<(Seq<char>, AstModel)> = if m.locals.len() > 0 {
        m.locals.last()
    } else {
        Seq::empty()
    };
    if m.locals.len() > 0 {
        assert(table_sound(m.locals.last()));
    }
    let a = bindings_shown(top);
    let b = bindings_shown(m.vars);
    lemma_bindings_shown(top);
    lemma_bindings_shown(m.vars);
    lemma_unfold(a);
    lemma_unfold(b);
    let all = seq![AstModel::Word("Locals:"@)] + a + seq![AstModel::Word("Globals:"@)] + b;
    assert(m.variables_shown() == AstModel::List(all));
    assert forall|i: int| 0 <= i < all.len() implies (#[trigger] all[i]).well_formed() by {
        if i == 0 {
        } else if i < 1 + a.len() {
            assert(all[i] == a[i - 1]);
        } else if i == 1 + a.len() {
        } else {
            assert(all[i] == b[i - 2 - a.len()]);
        }
    }
    lemma_unfold(all);
    let ps = procedures_shown(m.procedures);
    assert forall|i: int| 0 <= i < ps.len() implies (#[trigger] ps[i]).well_formed() by {
        let p = m.procedures[i].1;
        let name = m.procedures[i].0;
        assert(all_well_formed(p.lines));
        lemma_unfold(p.lines);
        let e = seq![AstModel::Word("TO"@), AstModel::Word(name)] + crate::machine::as_vars(
            p.args,
        ) + p.lines + seq![AstModel::Word("END"@)];
        assert(ps[i] == AstModel::List(e));
        assert forall|k: int| 0 <= k < e.len() implies (#[trigger] e[k]).well_formed() by {
            if k < 2 {
            } else if k < 2 + p.args.len() {
            } else if k < 2 + p.args.len() + p.lines.len() {
                assert(e[k] == p.lines[k - 2 - p.args.len()]);
            } else {
            }
        }
        lemma_unfold(e);
    }
    lemma_unfold(ps);
}

proof fn lemma_eval(m: MachineModel, node: AstModel)
    requires
        holdings_sound(m),
        node.well_formed(),
    ensures
        sound(m.eval_step(node)),
{
    lemma_pushes(m);
    lemma_value(node);
    lemma_unfold(Seq::<AstModel>::empty());
    match node {
        AstModel::Var(name) => {
            lemma_variable(m, name);
        },
        AstModel::Function(name) => {
            lemma_define(m);
        },
        AstModel::ExprLine(list) => {
            lemma_pushes(m.push_queue(list));
        },
        AstModel::Parens(list) => {
            if list.len() > 0 {
                let rest = list.drop_first();
                lemma_unfold(rest);
                assert forall|i: int| 0 <= i < rest.len() implies (#[trigger] rest[i]).well_formed() by {
                    assert(rest[i] == list[i + 1]);
                }
                assert(list[0].well_formed());
                lemma_pushes(m.push_queue(rest));
            } else {
                assert(AstModel::List(Seq::empty()).well_formed());
            }
        },
        AstModel::Negation(operand) => {
            lemma_pushes(m.push(FrameModel::Negate));
        },
        AstModel::Binary(t, l, r) => {
            match Operator::of(t) {
                Some(op) => {
                    lemma_operand(m, FrameModel::BinaryLeft { op, right: *r }, op, *l);
                },
                None => {},
            }
        },
        AstModel::Nary(t, list) => {},
        _ => {},
    }
}

proof fn lemma_operand(m: MachineModel, frame: FrameModel, op: Operator, node: AstModel)
    requires
        holdings_sound(m),
        frame_sound(frame),
        node.well_formed(),
    ensures
        sound(m.operand(frame, op, node)),
{
    lemma_pushes(m);
    lemma_pushes(m.push(frame));
}

proof fn lemma_compare(m: MachineModel, op: Operator, l: AstModel, r: AstModel)
    requires
        holdings_sound(m),
        l.well_formed(),
        r.well_formed(),
    ensures
        sound(m.compare(op, l, r)),
{
    lemma_pushes(m);
}

proof fn lemma_block(m: MachineModel, frame: FrameModel, body: Seq<AstModel>)
    requires
        holdings_sound(m),
        frame_sound(frame),
        all_well_formed(body),
    ensures
        sound(m.block(frame, body)),
{
    lemma_pushes(m);
    lemma_pushes(m.push(frame));
    lemma_pushes(m.push(frame).push_queue(body));
}

proof fn lemma_enter(m: MachineModel, name: Seq<char>, args: Seq<AstModel>)
    requires
        holdings_sound(m),
        all_well_formed(args),
        args.len() >= m.arity(CalleeModel { name, builtin: None }),
    ensures
        sound(m.enter(name, args)),
{
    lemma_pushes(m);
    lemma_procedure(m.procedures, name);
    match lookup(m.procedures, name) {
        Some(p) => {
            lemma_bind(p.args, args, p.args.len() as int);
            let a = m.push_locals(bind(p.args, args, p.args.len() as int));
            lemma_pushes(a);
            assert(all_well_formed(Seq::<AstModel>::empty()));
            let b = a.push_queue(Seq::empty());
            lemma_pushes(b);
        },
        None => {},
    }
}

proof fn lemma_apply_value(m: MachineModel, b: Builtin, args: Seq<AstModel>)
    requires
        holdings_sound(m),
        all_well_formed(args),
        args.len() >= b.kinds().len(),
        b is Print || b is Pops || b is Pons || b is Output || b is Load || b is Make || b is Lput
            || b is Item || b is List || b is Repeat || b is For || b is SetXY,
    ensures
        sound(m.apply(b, args)),
{
    lemma_pushes(m);
    lemma_shown(m);
    lemma_unfold(args);
    lemma_unfold(Seq::<AstModel>::empty());
    if args.len() > 0 {
        assert(args[0].well_formed());
        lemma_value(args[0]);
    }
    if args.len() > 1 {
        assert(args[1].well_formed());
        lemma_value(args[1]);
    }
    if args.len() > 3 {
        assert(args[3].well_formed());
        lemma_value(args[3]);
    }
    match b {
        Builtin::Make => {
            lemma_assign_var(m, args[0]->Word_0, args[1]);
            lemma_pushes(m.assign_var(args[0]->Word_0, args[1]));
        },
        Builtin::Lput => {
            match (args[0], args[1]) {
                (AstModel::List(item), AstModel::List(list)) => {
                    let r = list.push(args[0]);
                    assert forall|i: int| 0 <= i < r.len() implies (#[trigger] r[i]).well_formed() by {
                        if i < list.len() {
                            assert(r[i] == list[i]);
                        }
                    }
                    lemma_unfold(r);
                },
                _ => {},
            }
        },
        Builtin::List => {
            let r = seq![args[0], args[1]];
            assert forall|i: int| 0 <= i < r.len() implies (#[trigger] r[i]).well_formed() by {}
            lemma_unfold(r);
        },
        Builtin::For => {
            assert(args[2].well_formed());
            assert(args[3].well_formed());
        },
        Builtin::SetXY => {
            match args[0] {
                AstModel::List(list) => {
                    lemma_pushes(m.push_queue(list));
                    assert(all_well_formed(Seq::<AstModel>::empty()));
                },
                _ => {},
            }
        },
        _ => {},
    }
}

proof fn lemma_apply_turtle(m: MachineModel, b: Builtin, args: Seq<AstModel>)
    requires
        holdings_sound(m),
        all_well_formed(args),
        args.len() >= b.kinds().len(),
        !(b is Print || b is Pops || b is Pons || b is Output || b is Load || b is Make
            || b is Lput || b is Item || b is List || b is Repeat || b is For || b is SetXY),
    ensures
        sound(m.apply(b, args)),
{
    lemma_pushes(m);
    lemma_pushes(m.pop_queue());
    lemma_moved(m.turtle, NumberModel::Real(0), NumberModel::Real(0));
    lemma_unfold(args);
    if args.len() > 0 {
        assert(args[0].well_formed());
        match args[0] {
            AstModel::Num(n) => {
                lemma_moved(m.turtle, n, m.turtle.y);
                lemma_moved(m.turtle, m.turtle.x, n);
                if args.len() > 1 {
                    assert(args[1].well_formed());
                    match args[1] {
                        AstModel::Num(y) => {
                            lemma_moved(m.turtle, n, y);
                        },
                        _ => {},
                    }
                }
            },
            _ => {},
        }
    }
    match b {
        Builtin::GetXY => {
            let r = seq![AstModel::Num(m.turtle.x), AstModel::Num(m.turtle.y)];
            assert forall|i: int| 0 <= i < r.len() implies (#[trigger] r[i]).well_formed() by {}
            lemma_unfold(r);
        },
        _ => {},
    }
}

proof fn lemma_gather(m: MachineModel, callee: CalleeModel, collected: Seq<AstModel>)
    requires
        holdings_sound(m),
        all_well_formed(collected),
    ensures
        sound(m.gather_step(callee, collected)),
{
    lemma_pushes(m);
    lemma_unfold(collected);
    if collected.len() >= m.arity(callee) {
        match callee.builtin {
            Some(b) => {
                if b is Print || b is Pops || b is Pons || b is Output || b is Load || b is Make
                    || b is Lput || b is Item || b is List || b is Repeat || b is For
                    || b is SetXY {
                    lemma_apply_value(m, b, collected);
                } else {
                    lemma_apply_turtle(m, b, collected);
                }
            },
            None => {
                lemma_enter(m, callee.name, collected);
            },
        }
    } else {
        match m.next_expr() {
            Some(e) => {
                let d = m.drop_expr();
                lemma_pushes(d);
                let f = FrameModel::Operands { callee, collected };
                lemma_pushes(d.push(f));
            },
            None => {},
        }
    }
}

proof fn lemma_feed(m: MachineModel, lines: Seq<AstModel>, next: int, queues: int, locals: int)
    requires
        holdings_sound(m),
        all_well_formed(lines),
        0 <= next < lines.len(),
    ensures
        sound(m.feed_step(lines, next, queues, locals)),
{
    lemma_pushes(m);
    lemma_unfold(lines);
    let frame = FrameModel::Feed { lines, next: next + 1, queues, locals };
    match lines[next] {
        AstModel::Word(text) => {
            lemma_parsed(m.saved, text);
            let (saved, r) = parsed(m.saved, text);
            let kept = MachineModel { saved, ..m };
            lemma_pushes(kept);
            let pushed = kept.push(frame);
            match r {
                Ok(ast) => {
                    lemma_accept(pushed, ast);
                },
                Err(_) => {},
            }
        },
        _ => {},
    }
}

proof fn lemma_resume_flow(m: MachineModel, frame: FrameModel, v: AstModel)
    requires
        holdings_sound(m),
        frame_sound(frame),
        v.well_formed(),
        frame is Statements || frame is Group || frame is Coerce || frame is Check
            || frame is Operands || frame is Body,
    ensures
        sound(m.resume_step(frame, v)),
{
    lemma_pushes(m);
    lemma_pushes(m.pop_queue());
    lemma_pushes(m.pop_locals());
    lemma_pushes(m.pop_locals().pop_queue());
    lemma_pushes(m.drop_expr());
    match frame {
        FrameModel::Operands { callee, collected } => {
            let r = collected.push(v);
            lemma_unfold(collected);
            assert forall|i: int| 0 <= i < r.len() implies (#[trigger] r[i]).well_formed() by {
                if i < collected.len() {
                    assert(r[i] == collected[i]);
                }
            }
            lemma_unfold(r);
        },
        FrameModel::Body { lines, next } => {
            lemma_unfold(lines);
            if 0 <= next < lines.len() {
                assert(lines[next].well_formed());
            }
        },
        _ => {},
    }
}

proof fn lemma_resume_math(m: MachineModel, frame: FrameModel, v: AstModel)
    requires
        holdings_sound(m),
        frame_sound(frame),
        v.well_formed(),
        frame is Negate || frame is BinaryLeft || frame is BinaryRight || frame is Respell
            || frame is NaryNext || frame is NaryFold,
    ensures
        sound(m.resume_step(frame, v)),
{
    lemma_pushes(m);
    match frame {
        FrameModel::BinaryLeft { op, right } => {
            lemma_operand(m, FrameModel::BinaryRight { op, left: v }, op, right);
        },
        FrameModel::BinaryRight { op, left } => {
            lemma_compare(m, op, left, v);
        },
        FrameModel::Respell { op, other, first } => {
            lemma_compare(m, op, v, other);
            lemma_compare(m, op, other, v);
        },
        FrameModel::NaryNext { op, list, next } => {
            lemma_unfold(list);
            if 0 <= next < list.len() {
                assert(list[next].well_formed());
                lemma_pushes(m.push(FrameModel::NaryFold { op, list, next, acc: v }));
            }
        },
        _ => {},
    }
}

proof fn lemma_resume_loop(m: MachineModel, frame: FrameModel, v: AstModel)
    requires
        holdings_sound(m),
        frame_sound(frame),
        v.well_formed(),
        frame is RepeatCount || frame is Repeat || frame is ForTest || frame is ForStep
            || frame is ForNext,
    ensures
        sound(m.resume_step(frame, v)),
{
    lemma_pushes(m);
    match frame {
        FrameModel::Repeat { remaining, body } => {
            lemma_block(m, FrameModel::Repeat { remaining: (remaining - 1) as i32, body }, body);
        },
        FrameModel::ForTest { var, current, end, body } => {
            lemma_assign_var(m, var, current);
            lemma_block(
                m.assign_var(var, current),
                FrameModel::ForStep { var, current, end, body },
                body,
            );
        },
        _ => {},
    }
}

proof fn lemma_resume_host(m: MachineModel, frame: FrameModel, v: AstModel)
    requires
        holdings_sound(m),
        frame_sound(frame),
        v.well_formed(),
        frame is Arrive || frame is Back || frame is Head || frame is Pick || frame is Loaded
            || frame is Feed,
    ensures
        sound(m.resume_step(frame, v)),
{
    lemma_pushes(m);
    lemma_value(v);
    match frame {
        FrameModel::Arrive => {
            match v {
                AstModel::List(p) => {
                    if p.len() == 2 && p[0] is Num && p[1] is Num {
                        assert(p[0].well_formed() && p[1].well_formed());
                        lemma_moved(m.turtle, p[0]->Num_0, p[1]->Num_0);
                    }
                },
                _ => {},
            }
        },
        FrameModel::Back => {
            lemma_pushes(m.push(FrameModel::Arrive));
        },
        FrameModel::Head => {
            lemma_moved(m.turtle, NumberModel::Real(0), NumberModel::Real(0));
        },
        FrameModel::Pick { list } => {
            lemma_unfold(list);
            match v {
                AstModel::Num(NumberModel::Int(i)) => {
                    if 1 <= i <= list.len() {
                        assert(list[i - 1].well_formed());
                    }
                },
                _ => {},
            }
        },
        FrameModel::Feed { lines, next, queues, locals } => {
            if v is Empty && 0 <= next < lines.len() {
                lemma_feed(m, lines, next, queues, locals);
            }
        },
        _ => {},
    }
}

proof fn lemma_unwind(m: MachineModel, frame: FrameModel, e: ErrorModel)
    requires
        holdings_sound(m),
        frame_sound(frame),
    ensures
        sound(m.unwind_step(frame, e)),
{
    lemma_pushes(m);
    match frame {
        FrameModel::Feed { lines, next, queues, locals } => {
            lemma_pushes(m.cut(queues, locals));
        },
        _ => {},
    }
}

/// A step of a sound machine gives a sound machine.
pub proof fn lemma_step(m: MachineModel)
    requires
        sound(m),
    ensures
        sound(m.step()),
{
    let idle = m.idle();
    lemma_pushes(m);
    lemma_pushes(idle);
    match m.focus {
        FocusModel::Eval(node) => {
            lemma_eval(idle, node);
        },
        FocusModel::Call { callee, collected } => {
            lemma_gather(idle, callee, collected);
        },
        FocusModel::Value(v) => {
            if m.control.len() > 0 {
                let frame = m.control.last();
                let popped = idle.pop();
                assert(frame_sound(frame));
                match frame {
                    FrameModel::Statements { .. } | FrameModel::Group | FrameModel::Coerce(_)
                    | FrameModel::Check(_) | FrameModel::Operands { .. } | FrameModel::Body {
                        ..
                    } => {
                        lemma_resume_flow(popped, frame, v);
                    },
                    FrameModel::Negate | FrameModel::BinaryLeft { .. } | FrameModel::BinaryRight {
                        ..
                    } | FrameModel::Respell { .. } | FrameModel::NaryNext { .. }
                    | FrameModel::NaryFold { .. } => {
                        lemma_resume_math(popped, frame, v);
                    },
                    FrameModel::RepeatCount { .. } | FrameModel::Repeat { .. }
                    | FrameModel::ForTest { .. } | FrameModel::ForStep { .. }
                    | FrameModel::ForNext { .. } => {
                        lemma_resume_loop(popped, frame, v);
                    },
                    _ => {
                        lemma_resume_host(popped, frame, v);
                    },
                }
            }
        },
        FocusModel::Raise(e) => {
            if m.control.len() > 0 {
                let frame = m.control.last();
                let popped = idle.pop();
                assert(frame_sound(frame));
                lemma_unwind(popped, frame, e);
            }
        },
        _ => {},
    }
}

/// Running a sound machine gives a sound machine.
pub proof fn lemma_run(m: MachineModel, budget: nat)
    requires
        sound(m),
    ensures
        sound(m.run(budget)),
    decreases budget,
{
    if budget > 0 && m.active() {
        lemma_step(m);
        lemma_run(m.step(), (budget - 1) as nat);
    }
}

/// A sound machine that is handed a line is sound.
pub proof fn lemma_fed(m: MachineModel, input: Seq<char>)
    requires
        sound(m),
    ensures
        sound(m.fed(input)),
{
    lemma_parsed(m.saved, input);
    let (saved, r) = parsed(m.saved, input);
    let kept = MachineModel { saved, ..m };
    match r {
        Ok(ast) => {
            lemma_accept(kept, ast);
        },
        Err(_) => {},
    }
}

/// A sound machine that is handed a reply is sound, whatever the reply.
pub proof fn lemma_answered(m: MachineModel, reply: ReplyModel)
    requires
        sound(m),
    ensures
        sound(m.answered(reply)),
{
    match m.focus {
        FocusModel::Ask(request) => {
            lemma_answer(request, reply);
        },
        _ => {},
    }
}

/// A sound machine that stops is sound, and what it asks of the host or
/// gives as the value of the line is well formed.
pub proof fn lemma_settled(m: MachineModel)
    requires
        sound(m),
    ensures
        sound(m.settled().0),
        m.settled().1 matches crate::machine::StatusModel::Ask(r) ==> request_sound(r),
        m.settled().1 matches crate::machine::StatusModel::Done(Ok(v)) ==> v.well_formed(),
{
    let r = m.rest();
    assert(r.queues.len() == 0 && r.locals.len() == 0 && r.control.len() == 0);
}

} // verus!
