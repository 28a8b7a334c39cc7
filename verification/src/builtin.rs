//! The procedures that the interpreter brings along: their names, and what
//! each takes from the rest of the line.
use vstd::prelude::*;
use crate::text::same_text;

verus! {

/// What a procedure expects of an operand.
#[derive(Debug, Clone, Copy, PartialEq, Eq)]
pub enum Kind {
    /// Any value.
    Any,
    /// A number.
    Number,
    /// A word.
    Word,
    /// A list.
    List,
}

/// A built-in procedure.
#[derive(Debug, Clone, Copy, PartialEq, Eq)]
pub enum Builtin {
    Print,
    /// `POPS`: shows the procedures of the user.
    Pops,
    /// `PONS`: shows the variables.
    Pons,
    Output,
    Load,
    Make,
    Lput,
    Item,
    List,
    Repeat,
    For,
    SetXY,
    /// The second half of `SETXY`: the two coordinates, taken from the list.
    Place,
    GetXY,
    SetHeading,
    SetX,
    SetY,
    Heading,
    XCor,
    YCor,
    Forward,
    Back,
    Right,
    Left,
    ClearScreen,
    Clean,
    Home,
    PenDown,
    PenUp,
}

impl Builtin {
    /// The built-in procedure of a name, if the name is one's.
    pub open spec fn named(name: Seq<char>) -> Option<Builtin> {
        if name == "PR"@ || name == "PRINT"@ {
            Some(Builtin::Print)
        } else if name == "POPS"@ {
            Some(Builtin::Pops)
        } else if name == "PONS"@ {
            Some(Builtin::Pons)
        } else if name == "OP"@ || name == "OUTPUT"@ {
            Some(Builtin::Output)
        } else if name == "LOAD"@ {
            Some(Builtin::Load)
        } else if name == "MAKE"@ {
            Some(Builtin::Make)
        } else if name == "LPUT"@ {
            Some(Builtin::Lput)
        } else if name == "ITEM"@ {
            Some(Builtin::Item)
        } else if name == "LIST"@ {
            Some(Builtin::List)
        } else if name == "REPEAT"@ {
            Some(Builtin::Repeat)
        } else if name == "FOR"@ {
            Some(Builtin::For)
        } else if name == "SETXY"@ {
            Some(Builtin::SetXY)
        } else if name == "GETXY"@ {
            Some(Builtin::GetXY)
        } else if name == "SETH"@ || name == "SETHEADING"@ {
            Some(Builtin::SetHeading)
        } else if name == "SETX"@ {
            Some(Builtin::SetX)
        } else if name == "SETY"@ {
            Some(Builtin::SetY)
        } else if name == "HEADING"@ {
            Some(Builtin::Heading)
        } else if name == "XCOR"@ {
            Some(Builtin::XCor)
        } else if name == "YCOR"@ {
            Some(Builtin::YCor)
        } else if name == "FD"@ || name == "FORWARD"@ {
            Some(Builtin::Forward)
        } else if name == "BK"@ || name == "BACK"@ {
            Some(Builtin::Back)
        } else if name == "RT"@ || name == "RIGHT"@ {
            Some(Builtin::Right)
        } else if name == "LT"@ || name == "LEFT"@ {
            Some(Builtin::Left)
        } else if name == "CS"@ || name == "CLEARSCREEN"@ {
            Some(Builtin::ClearScreen)
        } else if name == "CLEAN"@ {
            Some(Builtin::Clean)
        } else if name == "HOME"@ {
            Some(Builtin::Home)
        } else if name == "PD"@ || name == "PENDOWN"@ {
            Some(Builtin::PenDown)
        } else if name == "PU"@ || name == "PENUP"@ {
            Some(Builtin::PenUp)
        } else {
            None
        }
    }

    /// Looks a name up among the built-in procedures.
    pub fn lookup(name: &str) -> (r: Option<Builtin>)
        ensures
            r == Builtin::named(name@),
    {
        if same_text(name, "PR") || same_text(name, "PRINT") {
            Some(Builtin::Print)
        } else if same_text(name, "POPS") {
            Some(Builtin::Pops)
        } else if same_text(name, "PONS") {
            Some(Builtin::Pons)
        } else if same_text(name, "OP") || same_text(name, "OUTPUT") {
            Some(Builtin::Output)
        } else if same_text(name, "LOAD") {
            Some(Builtin::Load)
        } else if same_text(name, "MAKE") {
            Some(Builtin::Make)
        } else if same_text(name, "LPUT") {
            Some(Builtin::Lput)
        } else if same_text(name, "ITEM") {
            Some(Builtin::Item)
        } else if same_text(name, "LIST") {
            Some(Builtin::List)
        } else if same_text(name, "REPEAT") {
            Some(Builtin::Repeat)
        } else if same_text(name, "FOR") {
            Some(Builtin::For)
        } else if same_text(name, "SETXY") {
            Some(Builtin::SetXY)
        } else if same_text(name, "GETXY") {
            Some(Builtin::GetXY)
        } else if same_text(name, "SETH") || same_text(name, "SETHEADING") {
            Some(Builtin::SetHeading)
        } else if same_text(name, "SETX") {
            Some(Builtin::SetX)
        } else if same_text(name, "SETY") {
            Some(Builtin::SetY)
        } else if same_text(name, "HEADING") {
            Some(Builtin::Heading)
        } else if same_text(name, "XCOR") {
            Some(Builtin::XCor)
        } else if same_text(name, "YCOR") {
            Some(Builtin::YCor)
        } else if same_text(name, "FD") || same_text(name, "FORWARD") {
            Some(Builtin::Forward)
        } else if same_text(name, "BK") || same_text(name, "BACK") {
            Some(Builtin::Back)
        } else if same_text(name, "RT") || same_text(name, "RIGHT") {
            Some(Builtin::Right)
        } else if same_text(name, "LT") || same_text(name, "LEFT") {
            Some(Builtin::Left)
        } else if same_text(name, "CS") || same_text(name, "CLEARSCREEN") {
            Some(Builtin::ClearScreen)
        } else if same_text(name, "CLEAN") {
            Some(Builtin::Clean)
        } else if same_text(name, "HOME") {
            Some(Builtin::Home)
        } else if same_text(name, "PD") || same_text(name, "PENDOWN") {
            Some(Builtin::PenDown)
        } else if same_text(name, "PU") || same_text(name, "PENUP") {
            Some(Builtin::PenUp)
        } else {
            None
        }
    }

    /// What the procedure takes from the rest of the line, in order.
    pub open spec fn kinds(self) -> Seq<Kind> {
        match self {
            Builtin::Print | Builtin::Output => seq![Kind::Any],
            Builtin::Load => seq![Kind::Word],
            Builtin::Make => seq![Kind::Word, Kind::Any],
            Builtin::Lput => seq![Kind::List, Kind::List],
            Builtin::Item => seq![Kind::Number, Kind::List],
            Builtin::List => seq![Kind::Any, Kind::Any],
            Builtin::Repeat => seq![Kind::Number, Kind::List],
            Builtin::For => seq![Kind::Word, Kind::Number, Kind::Number, Kind::List],
            Builtin::SetXY => seq![Kind::List],
            Builtin::Place => seq![Kind::Number, Kind::Number],
            Builtin::SetHeading | Builtin::SetX | Builtin::SetY | Builtin::Forward | Builtin::Back
            | Builtin::Right | Builtin::Left => seq![Kind::Number],
            Builtin::GetXY | Builtin::Heading | Builtin::XCor | Builtin::YCor
            | Builtin::ClearScreen | Builtin::Clean | Builtin::Home | Builtin::PenDown
            | Builtin::PenUp | Builtin::Pops | Builtin::Pons => Seq::empty(),
        }
    }

    /// How many operands the procedure takes.
    pub fn arity(self) -> (n: usize)
        ensures
            n == self.kinds().len(),
    {
        match self {
            Builtin::Print | Builtin::Output | Builtin::Load | Builtin::SetXY => 1,
            Builtin::Make | Builtin::Lput | Builtin::Item | Builtin::List | Builtin::Repeat
            | Builtin::Place => 2,
            Builtin::For => 4,
            Builtin::SetHeading | Builtin::SetX | Builtin::SetY | Builtin::Forward | Builtin::Back
            | Builtin::Right | Builtin::Left => 1,
            Builtin::GetXY | Builtin::Heading | Builtin::XCor | Builtin::YCor
            | Builtin::ClearScreen | Builtin::Clean | Builtin::Home | Builtin::PenDown
            | Builtin::PenUp | Builtin::Pops | Builtin::Pons => 0,
        }
    }

    /// What the procedure expects of its operand number `i`, counted from
    /// zero.
    pub fn kind_at(self, i: usize) -> (k: Kind)
        requires
            i < self.kinds().len(),
        ensures
            k == self.kinds()[i as int],
    {
        match self {
            Builtin::Print | Builtin::Output | Builtin::List => Kind::Any,
            Builtin::Load => Kind::Word,
            Builtin::Make => if i == 0 {
                Kind::Word
            } else {
                Kind::Any
            },
            Builtin::Lput | Builtin::SetXY => Kind::List,
            Builtin::Item | Builtin::Repeat => if i == 0 {
                Kind::Number
            } else {
                Kind::List
            },
            Builtin::For => if i == 0 {
                Kind::Word
            } else if i == 3 {
                Kind::List
            } else {
                Kind::Number
            },
            _ => Kind::Number,
        }
    }
}

/// A name that no procedure of the user can have: that of a built-in
/// procedure, and the two words that frame a definition.
pub open spec fn is_reserved(name: Seq<char>) -> bool {
    Builtin::named(name) is Some || name == "TO"@ || name == "END"@
}

/// Says whether a name is reserved.
pub fn reserved(name: &str) -> (r: bool)
    ensures
        r == is_reserved(name@),
{
    Builtin::lookup(name).is_some() || same_text(name, "TO") || same_text(name, "END")
}

} // verus!
