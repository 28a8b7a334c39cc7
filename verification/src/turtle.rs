//! The turtle: a position, a heading and a pen, which draws through a
//! [`Graphics`] as it is moved.
//!
//! The turtle holds its numbers as it is given them. Where a move needs
//! arithmetic (so many steps along the heading, a turn by so many degrees),
//! the turtle says what to ask of the host, and the host's answer is set
//! here as the new position or heading.
use vstd::prelude::*;
use crate::host::{Operator, Request, RequestModel};
use crate::number::{Number, NumberModel};

verus! {

/// What a turtle asks of a drawing surface.
#[derive(Debug, PartialEq)]
pub enum Command {
    /// A line from the first point to the second.
    Line((Number, Number), (Number, Number)),
    /// Wipe the surface.
    Clear,
}

/// The mathematical picture of a [`Command`].
pub enum CommandModel {
    Line((NumberModel, NumberModel), (NumberModel, NumberModel)),
    Clear,
}

impl View for Command {
    type V = CommandModel;

    open spec fn view(&self) -> CommandModel {
        match self {
            Command::Line(from, to) => CommandModel::Line((from.0@, from.1@), (to.0@, to.1@)),
            Command::Clear => CommandModel::Clear,
        }
    }
}

impl Command {
    /// A copy of this command.
    pub fn copy(&self) -> (r: Command)
        ensures
            r@ == self@,
    {
        match self {
            Command::Line(from, to) => Command::Line(
                (from.0.copy(), from.1.copy()),
                (to.0.copy(), to.1.copy()),
            ),
            Command::Clear => Command::Clear,
        }
    }
}

/// The pictures of a sequence of commands.
pub open spec fn command_models(v: Seq<Command>) -> Seq<CommandModel> {
    Seq::new(v.len(), |i: int| v[i]@)
}

/// A drawing surface. The origin is at its centre, x grows to the right and
/// y grows upwards.
pub trait Graphics {
    /// Everything that was asked of the surface so far, in order.
    spec fn drawn(&self) -> Seq<CommandModel>;

    /// Draws a line from `from` to `to`.
    fn line(&mut self, from: (Number, Number), to: (Number, Number))
        ensures
            final(self).drawn() == old(self).drawn().push(
                CommandModel::Line((from.0@, from.1@), (to.0@, to.1@)),
            ),
    ;

    /// Wipes the surface.
    fn clear(&mut self)
        ensures
            final(self).drawn() == old(self).drawn().push(CommandModel::Clear),
    ;
}

/// A surface that draws nothing and keeps what it was asked.
#[derive(Debug, PartialEq)]
pub struct GraphicsStub {
    pub invocations: Vec<Command>,
}

impl Graphics for GraphicsStub {
    open spec fn drawn(&self) -> Seq<CommandModel> {
        command_models(self.invocations@)
    }

    fn line(&mut self, from: (Number, Number), to: (Number, Number)) {
        self.invocations.push(Command::Line(from, to));
        assert(self.drawn() =~= old(self).drawn().push(
            CommandModel::Line((from.0@, from.1@), (to.0@, to.1@)),
        ));
    }

    fn clear(&mut self) {
        self.invocations.push(Command::Clear);
        assert(self.drawn() =~= old(self).drawn().push(CommandModel::Clear));
    }
}

impl GraphicsStub {
    /// A surface that was asked nothing yet.
    pub fn new() -> (g: GraphicsStub)
        ensures
            g.drawn() == Seq::<CommandModel>::empty(),
    {
        let g = GraphicsStub { invocations: Vec::new() };
        assert(g.drawn() =~= Seq::<CommandModel>::empty());
        g
    }
}

/// The turtle.
pub struct Turtle<G: Graphics> {
    graphics: G,
    heading: Number,
    x: Number,
    y: Number,
    pendown: bool,
}

/// The mathematical picture of a [`Turtle`]: its state, and what its
/// surface was asked so far.
pub struct TurtleModel {
    pub drawn: Seq<CommandModel>,
    pub heading: NumberModel,
    pub x: NumberModel,
    pub y: NumberModel,
    pub pendown: bool,
}

/// The single-precision value zero.
pub open spec fn zero() -> NumberModel {
    NumberModel::Real(0)
}

impl TurtleModel {
    /// A turtle at the origin, heading up, pen down.
    pub open spec fn fresh(drawn: Seq<CommandModel>) -> TurtleModel {
        TurtleModel { drawn, heading: zero(), x: zero(), y: zero(), pendown: true }
    }

    /// The turtle after a move to `(x, y)`: with the pen down it has drawn
    /// one line, from where it was to where it is.
    pub open spec fn moved_to(self, x: NumberModel, y: NumberModel) -> TurtleModel {
        TurtleModel {
            drawn: if self.pendown {
                self.drawn.push(CommandModel::Line((self.x, self.y), (x, y)))
            } else {
                self.drawn
            },
            x,
            y,
            ..self
        }
    }

    /// The turtle with another heading.
    pub open spec fn turned_to(self, heading: NumberModel) -> TurtleModel {
        TurtleModel { heading, ..self }
    }

    /// The turtle back at the origin, heading up.
    pub open spec fn at_home(self) -> TurtleModel {
        self.moved_to(zero(), zero()).turned_to(zero())
    }

    /// The turtle after its surface was wiped.
    pub open spec fn wiped(self) -> TurtleModel {
        TurtleModel { drawn: self.drawn.push(CommandModel::Clear), ..self }
    }

    /// The turtle with its pen down or up.
    pub open spec fn with_pen(self, pendown: bool) -> TurtleModel {
        TurtleModel { pendown, ..self }
    }

    /// What to ask to learn where the turtle stands after `distance`
    /// steps ahead.
    pub open spec fn ahead(self, distance: NumberModel) -> RequestModel {
        RequestModel::Advance { x: self.x, y: self.y, heading: self.heading, distance }
    }

    /// What to ask to learn the heading after a turn to the left.
    pub open spec fn left(self, angle: NumberModel) -> RequestModel {
        RequestModel::Arithmetic(Operator::Plus, self.heading, angle)
    }

    /// What to ask to learn the heading after a turn to the right.
    pub open spec fn right(self, angle: NumberModel) -> RequestModel {
        RequestModel::Arithmetic(Operator::Minus, self.heading, angle)
    }
}

impl<G: Graphics> View for Turtle<G> {
    type V = TurtleModel;

    closed spec fn view(&self) -> TurtleModel {
        TurtleModel {
            drawn: self.graphics.drawn(),
            heading: self.heading@,
            x: self.x@,
            y: self.y@,
            pendown: self.pendown,
        }
    }
}

impl<G: Graphics> Turtle<G> {
    /// A turtle at the origin, heading up, pen down, on the given surface.
    pub fn new(graphics: G) -> (t: Turtle<G>)
        ensures
            t@ == TurtleModel::fresh(graphics.drawn()),
    {
        Turtle {
            graphics,
            heading: Number::Real(Number::ZERO_BITS),
            x: Number::Real(Number::ZERO_BITS),
            y: Number::Real(Number::ZERO_BITS),
            pendown: true,
        }
    }

    /// The surface that the turtle draws on.
    pub fn graphics(&self) -> (g: &G)
        ensures
            g.drawn() == self@.drawn,
    {
        &self.graphics
    }

    /// Gives the turtle another surface, and hands back the one it had. The
    /// turtle stays where it is.
    pub fn replace_graphics(&mut self, graphics: G) -> (g: G)
        ensures
            g.drawn() == old(self)@.drawn,
            final(self)@ == (TurtleModel { drawn: graphics.drawn(), ..old(self)@ }),
    {
        let mut g = graphics;
        std::mem::swap(&mut self.graphics, &mut g);
        g
    }

    /// Moves the turtle to `(x, y)`. With the pen down this draws exactly
    /// one line, from the old position to the new one.
    pub fn setxy(&mut self, x: Number, y: Number)
        ensures
            final(self)@ == old(self)@.moved_to(x@, y@),
    {
        if self.pendown {
            self.graphics.line((self.x.copy(), self.y.copy()), (x.copy(), y.copy()));
        }
        self.x = x;
        self.y = y;
    }

    /// Where the turtle is.
    pub fn getxy(&self) -> (p: (Number, Number))
        ensures
            p.0@ == self@.x,
            p.1@ == self@.y,
    {
        (self.x.copy(), self.y.copy())
    }

    /// Turns the turtle to the given heading, in degrees.
    pub fn setheading(&mut self, heading: Number)
        ensures
            final(self)@ == old(self)@.turned_to(heading@),
    {
        self.heading = heading;
    }

    /// The heading of the turtle, in degrees.
    pub fn heading(&self) -> (h: Number)
        ensures
            h@ == self@.heading,
    {
        self.heading.copy()
    }

    /// Moves the turtle sideways to `x`.
    pub fn setx(&mut self, x: Number)
        ensures
            final(self)@ == old(self)@.moved_to(x@, old(self)@.y),
    {
        let y = self.y.copy();
        self.setxy(x, y);
    }

    /// The x coordinate of the turtle.
    pub fn xcor(&self) -> (x: Number)
        ensures
            x@ == self@.x,
    {
        self.x.copy()
    }

    /// Moves the turtle up or down to `y`.
    pub fn sety(&mut self, y: Number)
        ensures
            final(self)@ == old(self)@.moved_to(old(self)@.x, y@),
    {
        let x = self.x.copy();
        self.setxy(x, y);
    }

    /// The y coordinate of the turtle.
    pub fn ycor(&self) -> (y: Number)
        ensures
            y@ == self@.y,
    {
        self.y.copy()
    }

    /// A move of `val` steps ahead: what to ask of the host. The position
    /// that the host answers is where the turtle arrives; `setxy` takes it
    /// there.
    pub fn fd(&self, val: Number) -> (r: Request)
        ensures
            r@ == self@.ahead(val@),
    {
        Request::Advance {
            x: self.x.copy(),
            y: self.y.copy(),
            heading: self.heading.copy(),
            distance: val,
        }
    }

    /// A move of `val` steps back: what to ask of the host. The number that
    /// the host answers is the distance of the same move ahead; `fd` takes
    /// it from there.
    pub fn bk(&self, val: Number) -> (r: Request)
        ensures
            r@ == RequestModel::Negate(val@),
    {
        Request::Negate(val)
    }

    /// A turn of `val` degrees to the left: what to ask of the host. The
    /// number that the host answers is the new heading; `setheading` sets
    /// it.
    pub fn lt(&self, val: Number) -> (r: Request)
        ensures
            r@ == self@.left(val@),
    {
        Request::Arithmetic(Operator::Plus, self.heading.copy(), val)
    }

    /// A turn of `val` degrees to the right: what to ask of the host. The
    /// number that the host answers is the new heading; `setheading` sets
    /// it.
    pub fn rt(&self, val: Number) -> (r: Request)
        ensures
            r@ == self@.right(val@),
    {
        Request::Arithmetic(Operator::Minus, self.heading.copy(), val)
    }

    /// Moves the turtle to the origin, drawing if the pen is down, and
    /// turns it upwards.
    pub fn home(&mut self)
        ensures
            final(self)@ == old(self)@.at_home(),
    {
        self.setxy(Number::Real(Number::ZERO_BITS), Number::Real(Number::ZERO_BITS));
        self.setheading(Number::Real(Number::ZERO_BITS));
    }

    /// Wipes the surface. The turtle stays.
    pub fn clean(&mut self)
        ensures
            final(self)@ == old(self)@.wiped(),
    {
        self.graphics.clear();
    }

    /// Sends the turtle home, then wipes the surface.
    pub fn clearscreen(&mut self)
        ensures
            final(self)@ == old(self)@.at_home().wiped(),
    {
        self.home();
        self.clean();
    }

    /// Puts the pen down: moves draw.
    pub fn pendown(&mut self)
        ensures
            final(self)@ == old(self)@.with_pen(true),
    {
        self.pendown = true;
    }

    /// Lifts the pen: moves do not draw.
    pub fn penup(&mut self)
        ensures
            final(self)@ == old(self)@.with_pen(false),
    {
        self.pendown = false;
    }
}

/// The lines that join each point to the next:
/// `(p0, from), (from, to), ..`, one fewer than the points.
pub fn points_to_line_commands(points: &Vec<(Number, Number)>) -> (ret: Vec<Command>)
    ensures
        ret.len() == (if points.len() == 0 { 0 } else { points.len() - 1 }),
        forall|i: int|
            0 <= i < ret.len() ==> (#[trigger] ret@[i])@ == CommandModel::Line(
                (points@[i].0@, points@[i].1@),
                (points@[i + 1].0@, points@[i + 1].1@),
            ),
{
    let mut ret: Vec<Command> = Vec::new();
    if points.len() == 0 {
        return ret;
    }
    let mut i: usize = 0;
    while i < points.len() - 1
        invariant
            points.len() > 0,
            i <= points.len() - 1,
            ret.len() == i,
            forall|j: int|
                0 <= j < i ==> (#[trigger] ret@[j])@ == CommandModel::Line(
                    (points@[j].0@, points@[j].1@),
                    (points@[j + 1].0@, points@[j + 1].1@),
                ),
        decreases points.len() - i,
    {
        let from = (points[i].0.copy(), points[i].1.copy());
        let to = (points[i + 1].0.copy(), points[i + 1].1.copy());
        ret.push(Command::Line(from, to));
        i = i + 1;
    }
    ret
}

} // verus!
