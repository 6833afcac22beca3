//! The classified-line data model shared by the classifier and the renderer:
//! one source line with its position and content, the open-block context
//! entries, the renderer's terminator, and the side-channel diagnostics.

use vstd::prelude::*;
use crate::errors::{Location, LocationModel};
use crate::macros::{Macro, MacroModel};

verus! {

/// What one source line turned out to be.
pub enum LineContent {
    /// A (partial) target-language command, passed through verbatim.
    Command(String),
    /// A recognized directive.
    Macro(Macro),
    /// A blank line or an explicit no-op directive; contributes nothing.
    Empty,
}

/// The mathematical shadow of `LineContent`.
pub enum LineContentModel {
    Command(Seq<char>),
    Macro(MacroModel),
    Empty,
}

impl View for LineContent {
    type V = LineContentModel;

    open spec fn view(&self) -> LineContentModel {
        match self {
            LineContent::Command(s) => LineContentModel::Command(s@),
            LineContent::Macro(m) => LineContentModel::Macro(m@),
            LineContent::Empty => LineContentModel::Empty,
        }
    }
}

/// One classified source line: where it came from and what it is.
pub struct Line {
    pub file: String,
    pub line: u32,
    pub content: LineContent,
}

/// The mathematical shadow of `Line`.
pub struct LineModel {
    pub file: Seq<char>,
    pub line: u32,
    pub content: LineContentModel,
}

impl View for Line {
    type V = LineModel;

    open spec fn view(&self) -> LineModel {
        LineModel { file: self.file@, line: self.line, content: self.content@ }
    }
}

/// The views of a sequence of lines.
pub open spec fn line_views(s: Seq<Line>) -> Seq<LineModel> {
    s.map_values(|l: Line| l@)
}

/// One entry of the open-block context: the directive that opened the block
/// and the position it stood at (the position names the block in errors).
pub struct OpenBlock {
    pub mac: Macro,
    pub loc: Location,
}

/// The mathematical shadow of `OpenBlock`.
pub struct OpenBlockModel {
    pub mac: MacroModel,
    pub loc: LocationModel,
}

impl View for OpenBlock {
    type V = OpenBlockModel;

    open spec fn view(&self) -> OpenBlockModel {
        OpenBlockModel { mac: self.mac@, loc: self.loc@ }
    }
}

/// The views of a context stack.
pub open spec fn block_views(s: Seq<OpenBlock>) -> Seq<OpenBlockModel> {
    s.map_values(|o: OpenBlock| o@)
}

/// Why a block-rendering call handed control back.
pub enum Terminator {
    /// The input ran out.
    Eof,
    /// A matching `end` was consumed.
    End,
    /// An `else` matching an open `if`/`ifn`/`when` was consumed; its position
    /// is kept so a second `else` in the same block can be reported there.
    Else(Location),
}

/// The mathematical shadow of `Terminator`.
pub enum TerminatorModel {
    Eof,
    End,
    Else(LocationModel),
}

impl View for Terminator {
    type V = TerminatorModel;

    open spec fn view(&self) -> TerminatorModel {
        match self {
            Terminator::Eof => TerminatorModel::Eof,
            Terminator::End => TerminatorModel::End,
            Terminator::Else(l) => TerminatorModel::Else(l@),
        }
    }
}

/// One side-channel diagnostic from a `log` directive: the 0-based source line
/// it stood on and its message. Diagnostics are not part of generated output.
pub struct Log {
    pub line: u32,
    pub message: String,
}

/// The mathematical shadow of `Log`.
pub struct LogModel {
    pub line: u32,
    pub message: Seq<char>,
}

impl View for Log {
    type V = LogModel;

    open spec fn view(&self) -> LogModel {
        LogModel { line: self.line, message: self.message@ }
    }
}

/// The views of a diagnostics list.
pub open spec fn log_views(s: Seq<Log>) -> Seq<LogModel> {
    s.map_values(|l: Log| l@)
}

/// Pushing one entry extends the views by that entry's view.
pub proof fn lemma_block_views_push(s: Seq<OpenBlock>, o: OpenBlock)
    ensures
        block_views(s.push(o)) =~= block_views(s).push(o@),
{
    assert forall|m: int| 0 <= m < s.len() + 1 implies #[trigger] block_views(s.push(o))[m]
        == block_views(s).push(o@)[m] by {
        if m < s.len() {
            assert(s.push(o)[m] == s[m]);
        } else {
            assert(s.push(o)[m] == o);
        }
    }
}

impl Macro {
    /// A copy with the same view.
    pub fn duplicate(&self) -> (r: Macro)
        ensures
            r@ == self@,
    {
        match self {
            Macro::Call(s) => Macro::Call(s.clone()),
            Macro::Declare(s) => Macro::Declare(s.clone()),
            Macro::Delete(s) => Macro::Delete(s.clone()),
            Macro::Else => Macro::Else,
            Macro::End => Macro::End,
            Macro::If(s) => Macro::If(s.clone()),
            Macro::Ifn(s) => Macro::Ifn(s.clone()),
            Macro::Include(s) => Macro::Include(s.clone()),
            Macro::Log(s) => Macro::Log(s.clone()),
            Macro::Proc(s) => Macro::Proc(s.clone()),
            Macro::Then => Macro::Then,
            Macro::When(a, b) => Macro::When(a.clone(), b.clone()),
            Macro::With(s) => Macro::With(s.clone()),
        }
    }
}

impl Location {
    /// A copy with the same view.
    pub fn duplicate(&self) -> (r: Location)
        ensures
            r@ == self@,
    {
        Location { file: self.file.clone(), line: self.line }
    }
}

impl OpenBlock {
    /// A copy with the same view.
    pub fn duplicate(&self) -> (r: OpenBlock)
        ensures
            r@ == self@,
    {
        OpenBlock { mac: self.mac.duplicate(), loc: self.loc.duplicate() }
    }
}

/// A fresh context made of `ctx`, then `pend`, then (when given) one more
/// entry: the context a nested rendering call starts from.
pub fn extended_context(ctx: &Vec<OpenBlock>, pend: &Vec<OpenBlock>, extra: Option<&OpenBlock>) -> (
    r: Vec<OpenBlock>)
    ensures
        block_views(r@) == match extra {
            Some(o) => block_views(ctx@) + block_views(pend@) + seq![o@],
            None => block_views(ctx@) + block_views(pend@),
        },
{
    let mut r: Vec<OpenBlock> = Vec::new();
    let mut i: usize = 0;
    while i < ctx.len()
        invariant
            i <= ctx@.len(),
            r@.len() == i,
            forall|m: int| 0 <= m < i ==> (#[trigger] r@[m])@ == ctx@[m]@,
        decreases ctx@.len() - i,
    {
        r.push(ctx[i].duplicate());
        i = i + 1;
    }
    let mut j: usize = 0;
    while j < pend.len()
        invariant
            j <= pend@.len(),
            r@.len() == ctx@.len() + j,
            forall|m: int| 0 <= m < ctx@.len() ==> (#[trigger] r@[m])@ == ctx@[m]@,
            forall|m: int| 0 <= m < j ==> (#[trigger] r@[ctx@.len() + m])@ == pend@[m]@,
        decreases pend@.len() - j,
    {
        r.push(pend[j].duplicate());
        j = j + 1;
    }
    let ghost base = r@;
    match extra {
        Some(o) => {
            r.push(o.duplicate());
            proof {
                let target = block_views(ctx@) + block_views(pend@) + seq![o@];
                assert forall|m: int| 0 <= m < r@.len() implies block_views(r@)[m] == target[m] by {
                    assert(block_views(r@)[m] == r@[m]@);
                    if m < ctx@.len() {
                        assert(r@[m] == base[m]);
                        assert(base[m]@ == ctx@[m]@);
                        assert(target[m] == block_views(ctx@)[m]);
                    } else if m < ctx@.len() + pend@.len() {
                        assert(r@[m] == base[m]);
                        assert(base[ctx@.len() + (m - ctx@.len())]@ == pend@[m - ctx@.len()]@);
                        assert(target[m] == block_views(pend@)[m - ctx@.len()]);
                    } else {
                        assert(target[m] == o@);
                    }
                }
                assert(block_views(r@) =~= target);
            }
        },
        None => {
            proof {
                let target = block_views(ctx@) + block_views(pend@);
                assert forall|m: int| 0 <= m < r@.len() implies block_views(r@)[m] == target[m] by {
                    assert(block_views(r@)[m] == r@[m]@);
                    if m < ctx@.len() {
                        assert(r@[m]@ == ctx@[m]@);
                        assert(target[m] == block_views(ctx@)[m]);
                    } else {
                        assert(r@[ctx@.len() + (m - ctx@.len())]@ == pend@[m - ctx@.len()]@);
                        assert(target[m] == block_views(pend@)[m - ctx@.len()]);
                    }
                }
                assert(block_views(r@) =~= target);
            }
        },
    }
    r
}

} // verus!
