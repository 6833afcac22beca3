//! The directive vocabulary: the closed set of preprocessor directives that a
//! source line can carry, together with their argument payloads.

use vstd::prelude::*;

verus! {

/// A parsed directive. The payload of each variant is the argument text as it
/// stood on the source line (for `When`, the variable name and the expected
/// value as two separate tokens).
#[derive(Debug)]
pub enum Macro {
    /// Expand the named procedure's rendered body at this position.
    Call(String),
    /// Emit the command that creates the named persistent counter.
    Declare(String),
    /// Emit the command that removes the named persistent counter.
    Delete(String),
    /// Close the positive branch of the innermost open `If`/`Ifn`/`When`.
    Else,
    /// Close the innermost open block.
    End,
    /// Open a conditional block; the payload is the condition text.
    If(String),
    /// Open a negated conditional block; the payload is the condition text.
    Ifn(String),
    /// Splice the content stored under the payload path into the output.
    Include(String),
    /// Emit a line-numbered diagnostic on the side channel; no output text.
    Log(String),
    /// Open a procedure-definition block for the named procedure.
    Proc(String),
    /// Start the positive branch of the innermost open `If`/`Ifn`/`When`.
    Then,
    /// Open a build-time conditional block on (variable name, expected value).
    When(String, String),
    /// Open a block whose every output line is prefixed with the payload text.
    With(String),
}

/// The mathematical shadow of `Macro`: the same tags over `Seq<char>`.
pub enum MacroModel {
    Call(Seq<char>),
    Declare(Seq<char>),
    Delete(Seq<char>),
    Else,
    End,
    If(Seq<char>),
    Ifn(Seq<char>),
    Include(Seq<char>),
    Log(Seq<char>),
    Proc(Seq<char>),
    Then,
    When(Seq<char>, Seq<char>),
    With(Seq<char>),
}

impl View for Macro {
    type V = MacroModel;

    open spec fn view(&self) -> MacroModel {
        match self {
            Macro::Call(s) => MacroModel::Call(s@),
            Macro::Declare(s) => MacroModel::Declare(s@),
            Macro::Delete(s) => MacroModel::Delete(s@),
            Macro::Else => MacroModel::Else,
            Macro::End => MacroModel::End,
            Macro::If(s) => MacroModel::If(s@),
            Macro::Ifn(s) => MacroModel::Ifn(s@),
            Macro::Include(s) => MacroModel::Include(s@),
            Macro::Log(s) => MacroModel::Log(s@),
            Macro::Proc(s) => MacroModel::Proc(s@),
            Macro::Then => MacroModel::Then,
            Macro::When(a, b) => MacroModel::When(a@, b@),
            Macro::With(s) => MacroModel::With(s@),
        }
    }
}

} // verus!
