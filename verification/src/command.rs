//! The commands of the calculator's menu, and what each of them calls for
//! given whether a matrix is held.

use vstd::prelude::*;
use crate::text::chars_of;
use crate::text::trim;
use crate::text::trimmed;

verus! {

/// One of the three operations on two matrices.
#[derive(Debug, Clone, Copy, PartialEq, Eq, Structural)]
pub enum Operation {
    Add,
    Subtract,
    Multiply,
}

/// What the user asked for at the menu.
#[derive(Debug, Clone, Copy, PartialEq, Eq, Structural)]
pub enum Command {
    /// `n`: type in a new matrix.
    NewMatrix,
    /// `a`, `s` or `m`: combine the matrix held with a second one.
    Operate(Operation),
    /// `q`: leave.
    Quit,
    /// Anything else.
    Invalid,
}

/// What the calculator does next.
#[derive(Debug, Clone, Copy, PartialEq, Eq, Structural)]
pub enum Step {
    /// Read a matrix and hold it in place of the one held before.
    ReadMatrix,
    /// Carry out the operation on the matrix held.
    Operate(Operation),
    /// Say that a matrix has to be created first; nothing else happens.
    NeedMatrix,
    /// Say that the choice was not understood.
    Retry,
    /// Stop.
    Quit,
}

/// The command that the letter `c` stands for, in either case.
pub open spec fn command_of_letter(c: char) -> Command {
    if c == 'n' || c == 'N' {
        Command::NewMatrix
    } else if c == 'a' || c == 'A' {
        Command::Operate(Operation::Add)
    } else if c == 's' || c == 'S' {
        Command::Operate(Operation::Subtract)
    } else if c == 'm' || c == 'M' {
        Command::Operate(Operation::Multiply)
    } else if c == 'q' || c == 'Q' {
        Command::Quit
    } else {
        Command::Invalid
    }
}

/// The command that a typed line stands for: the line must hold one letter
/// and nothing else but white space around it.
pub open spec fn command_of(line: Seq<char>) -> Command {
    let t = trimmed(line);
    if t.len() == 1 {
        command_of_letter(t[0])
    } else {
        Command::Invalid
    }
}

/// What a command calls for when a matrix is held (`loaded`) or none is.
pub open spec fn step_for(command: Command, loaded: bool) -> Step {
    match command {
        Command::NewMatrix => Step::ReadMatrix,
        Command::Operate(op) => if loaded {
            Step::Operate(op)
        } else {
            Step::NeedMatrix
        },
        Command::Quit => Step::Quit,
        Command::Invalid => Step::Retry,
    }
}

/// Reads the line typed at the menu.
pub fn parse_command(line: &str) -> (r: Command)
    ensures
        r == command_of(line@),
{
    let chars = chars_of(line);
    let letter = trim(chars.as_slice());
    if letter.len() != 1 {
        return Command::Invalid;
    }
    let c = letter[0];
    if c == 'n' || c == 'N' {
        Command::NewMatrix
    } else if c == 'a' || c == 'A' {
        Command::Operate(Operation::Add)
    } else if c == 's' || c == 'S' {
        Command::Operate(Operation::Subtract)
    } else if c == 'm' || c == 'M' {
        Command::Operate(Operation::Multiply)
    } else if c == 'q' || c == 'Q' {
        Command::Quit
    } else {
        Command::Invalid
    }
}

impl Operation {
    /// The name of the operation as messages use it.
    pub fn noun(&self) -> (r: &'static str)
        ensures
            r@ == match *self {
                Operation::Add => "addition"@,
                Operation::Subtract => "subtraction"@,
                Operation::Multiply => "multiplication"@,
            },
    {
        match self {
            Operation::Add => "addition",
            Operation::Subtract => "subtraction",
            Operation::Multiply => "multiplication",
        }
    }
}

/// The state of the calculator between commands: the matrix that was typed in
/// last, if any.
pub struct Session {
    current: Option<Vec<Vec<i32>>>,
}

impl Session {
    /// The rows of the matrix held, if one is held.
    pub closed spec fn held(&self) -> Option<Seq<Seq<i32>>> {
        match self.current {
            Some(m) => Some(m.deep_view()),
            None => None,
        }
    }

    /// A session that holds no matrix.
    pub fn new() -> (r: Session)
        ensures
            r.held() is None,
    {
        Session { current: None }
    }

    /// Holds `matrix` from now on; the one held before is dropped.
    pub fn load(&mut self, matrix: Vec<Vec<i32>>)
        ensures
            final(self).held() == Some(matrix.deep_view()),
    {
        self.current = Some(matrix);
    }

    /// The matrix held, if one is held.
    pub fn current(&self) -> (r: Option<&Vec<Vec<i32>>>)
        ensures
            r is Some <==> self.held() is Some,
            r matches Some(m) ==> self.held() == Some(m.deep_view()),
    {
        self.current.as_ref()
    }

    /// What `command` calls for in this session. The session itself does not
    /// change: only `load` changes it.
    pub fn step(&self, command: Command) -> (r: Step)
        ensures
            r == step_for(command, self.held() is Some),
    {
        match command {
            Command::NewMatrix => Step::ReadMatrix,
            Command::Operate(op) => {
                if self.current.is_some() {
                    Step::Operate(op)
                } else {
                    Step::NeedMatrix
                }
            },
            Command::Quit => Step::Quit,
            Command::Invalid => Step::Retry,
        }
    }
}

} // verus!
