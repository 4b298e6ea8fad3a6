//! What the interpreter reports while it works.

use vstd::prelude::*;

verus! {

/// The model of a [`Notice`].
pub enum Note {
    Undefined(Seq<char>),
    Redefinition(Seq<char>),
    UndefinedAssignment,
    InvalidName,
    InvalidParameter,
    LambdaSyntax,
    Malformed,
    UndefinedKeyword,
    ArityMismatch,
    Operand,
    MapFunction,
    MapList,
    MapSize,
    ApplyFunction,
    ApplyList,
    AppendList,
    Written(Seq<char>),
}

/// One thing the interpreter had to say: a rejected form or operand, or the
/// output of `write`. Evaluation goes on after each of them.
#[derive(Clone, Debug, PartialEq, Eq)]
pub enum Notice {
    /// A symbol was looked up that no scope binds.
    Undefined(String),
    /// `define` named a symbol that its scope already binds.
    Redefinition(String),
    /// `set!` named a symbol that no scope binds.
    UndefinedAssignment,
    /// `define` or `set!` was given something else than a symbol to bind.
    InvalidName,
    /// A parameter of `lambda` is not a symbol.
    InvalidParameter,
    /// The parameters of `lambda` are not a list.
    LambdaSyntax,
    /// A special form lacks a part.
    Malformed,
    /// The head of a form is a symbol that names no special form.
    UndefinedKeyword,
    /// A procedure was called with another number of arguments than it has parameters.
    ArityMismatch,
    /// An operand of a numeric builtin is not a number, or is missing.
    Operand,
    /// The first argument of `map` is not a builtin.
    MapFunction,
    /// An argument of `map` after the first is not a list.
    MapList,
    /// The lists given to `map` differ in length.
    MapSize,
    /// The first argument of `apply` is not a builtin.
    ApplyFunction,
    /// The last argument of `apply` is not a list.
    ApplyList,
    /// An argument of `append` is not a list.
    AppendList,
    /// `write` put out this text.
    Written(String),
}

impl View for Notice {
    type V = Note;

    open spec fn view(&self) -> Note {
        match self {
            Notice::Undefined(s) => Note::Undefined(s@),
            Notice::Redefinition(s) => Note::Redefinition(s@),
            Notice::UndefinedAssignment => Note::UndefinedAssignment,
            Notice::InvalidName => Note::InvalidName,
            Notice::InvalidParameter => Note::InvalidParameter,
            Notice::LambdaSyntax => Note::LambdaSyntax,
            Notice::Malformed => Note::Malformed,
            Notice::UndefinedKeyword => Note::UndefinedKeyword,
            Notice::ArityMismatch => Note::ArityMismatch,
            Notice::Operand => Note::Operand,
            Notice::MapFunction => Note::MapFunction,
            Notice::MapList => Note::MapList,
            Notice::MapSize => Note::MapSize,
            Notice::ApplyFunction => Note::ApplyFunction,
            Notice::ApplyList => Note::ApplyList,
            Notice::AppendList => Note::AppendList,
            Notice::Written(s) => Note::Written(s@),
        }
    }
}

impl Note {
    /// The words of a report, and for the output of `write` the output itself.
    pub open spec fn text(self) -> Seq<char> {
        match self {
            Note::Undefined(name) => name + " is not defined!"@,
            Note::Redefinition(name) => "You can't define a symbol twice:"@ + name,
            Note::UndefinedAssignment => "Assigning to a undefined symbol is not allowed"@,
            Note::InvalidName => "Not a valid symbol name!"@,
            Note::InvalidParameter => "Invalid parameters"@,
            Note::LambdaSyntax => "Syntax Error\nUsage: (lambda (symbol...) expr)"@,
            Note::Malformed => "Syntax Error"@,
            Note::UndefinedKeyword => "Undefined keywords!"@,
            Note::ArityMismatch => "Unmatched arguments with parameters"@,
            Note::Operand => "Operands should be of type integer or float"@,
            Note::MapFunction => "The first argument of 'map' should be a function"@,
            Note::MapList => "Arguments except for the 1st should be of type list"@,
            Note::MapSize => "Arguments except for the 1st should be list of the same size"@,
            Note::ApplyFunction => "The first argument of 'apply' should be a function"@,
            Note::ApplyList => "The last argument of 'apply' should be a list"@,
            Note::AppendList => "Arguments should be of type List"@,
            Note::Written(output) => output,
        }
    }
}

impl Notice {
    /// Whether this is the output of `write`, and no report.
    pub fn is_output(&self) -> (b: bool)
        ensures
            b == (self@ is Written),
    {
        match self {
            Notice::Written(_) => true,
            _ => false,
        }
    }

    /// The words of the report, and for the output of `write` the output itself.
    pub fn message(&self) -> (r: String)
        ensures
            r@ == self@.text(),
    {
        match self {
            Notice::Undefined(name) => name.clone().concat(" is not defined!"),
            Notice::Redefinition(name) => String::from_str("You can't define a symbol twice:").concat(
                name.as_str(),
            ),
            Notice::UndefinedAssignment => String::from_str(
                "Assigning to a undefined symbol is not allowed",
            ),
            Notice::InvalidName => String::from_str("Not a valid symbol name!"),
            Notice::InvalidParameter => String::from_str("Invalid parameters"),
            Notice::LambdaSyntax => String::from_str(
                "Syntax Error\nUsage: (lambda (symbol...) expr)",
            ),
            Notice::Malformed => String::from_str("Syntax Error"),
            Notice::UndefinedKeyword => String::from_str("Undefined keywords!"),
            Notice::ArityMismatch => String::from_str("Unmatched arguments with parameters"),
            Notice::Operand => String::from_str("Operands should be of type integer or float"),
            Notice::MapFunction => String::from_str(
                "The first argument of 'map' should be a function",
            ),
            Notice::MapList => String::from_str(
                "Arguments except for the 1st should be of type list",
            ),
            Notice::MapSize => String::from_str(
                "Arguments except for the 1st should be list of the same size",
            ),
            Notice::ApplyFunction => String::from_str(
                "The first argument of 'apply' should be a function",
            ),
            Notice::ApplyList => String::from_str("The last argument of 'apply' should be a list"),
            Notice::AppendList => String::from_str("Arguments should be of type List"),
            Notice::Written(output) => output.clone(),
        }
    }
}

/// The models of a sequence of notices.
pub open spec fn notes(s: Seq<Notice>) -> Seq<Note> {
    Seq::new(s.len(), |i: int| s[i]@)
}

/// Appends one notice to a journal.
pub fn report(journal: &mut Vec<Notice>, notice: Notice)
    ensures
        notes(final(journal)@) == notes(old(journal)@).push(notice@),
{
    journal.push(notice);
}

} // verus!
