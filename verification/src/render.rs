//! The block renderer: a recursive-descent interpreter over the classified
//! lines. `render_spec` is the mathematical definition of one rendering call;
//! `render_block` is the executable renderer, proved to compute exactly it.
//!
//! One rendering call works through the lines from its starting position with
//! a shared, forward-only cursor. It owns a pending-opener stack: `if`, `ifn`
//! and `when` directives pile up on it until a `then` opens their block. A
//! nested block is rendered by a recursive call at depth + 1 whose context is
//! the caller's context plus the pending openers (plus the `proc`/`with`
//! opener itself); the nested call returns when it consumes the `end`, or an
//! `else` matching an open conditional, that closes it. Every nested block —
//! a `with` block included — renders one depth deeper, so a conditional
//! inside a `with` never reuses an enclosing block's flag name. Input that
//! runs out while a block is open is an error, as is an `end`, `else` or
//! `then` that the innermost open block does not permit.

use vstd::prelude::*;
use vstd::string::StrSliceExecFns;
use vstd::string::StringExecFns;
use crate::emit::{declare_cmd, declare_cmd_string, delete_cmd, delete_cmd_string, flag_name,
    flag_name_string, guard_prefix, guard_prefix_string, prefix_lines, prefix_lines_string,
    unless_prefix, unless_prefix_string, zero_cmd, zero_cmd_string};
use crate::errors::{Error, ErrorKind, ErrorKindModel, ErrorModel, Location, LocationModel};
use crate::lines::{block_views, extended_context, line_views, log_views, Line, LineContent,
    LineContentModel, LineModel, Log, LogModel, OpenBlock, OpenBlockModel, Terminator,
    TerminatorModel};
use crate::macros::{Macro, MacroModel};
use crate::table::Table;
use crate::text::str_eq;

verus! {

/// The surface name of a directive, as it stands in source and in errors.
pub open spec fn macro_name(m: MacroModel) -> Seq<char> {
    match m {
        MacroModel::Call(_) => "call"@,
        MacroModel::Declare(_) => "declare"@,
        MacroModel::Delete(_) => "delete"@,
        MacroModel::Else => "else"@,
        MacroModel::End => "end"@,
        MacroModel::If(_) => "if"@,
        MacroModel::Ifn(_) => "ifn"@,
        MacroModel::Include(_) => "include"@,
        MacroModel::Log(_) => "log"@,
        MacroModel::Proc(_) => "proc"@,
        MacroModel::Then => "then"@,
        MacroModel::When(_, _) => "when"@,
        MacroModel::With(_) => "with"@,
    }
}

/// Executable twin of `macro_name`.
fn macro_name_str(m: &Macro) -> (r: &'static str)
    ensures
        r@ == macro_name(m@),
{
    match m {
        Macro::Call(_) => "call",
        Macro::Declare(_) => "declare",
        Macro::Delete(_) => "delete",
        Macro::Else => "else",
        Macro::End => "end",
        Macro::If(_) => "if",
        Macro::Ifn(_) => "ifn",
        Macro::Include(_) => "include",
        Macro::Log(_) => "log",
        Macro::Proc(_) => "proc",
        Macro::Then => "then",
        Macro::When(_, _) => "when",
        Macro::With(_) => "with",
    }
}

/// The directives that open a block.
pub open spec fn is_opener(m: MacroModel) -> bool {
    match m {
        MacroModel::If(_) => true,
        MacroModel::Ifn(_) => true,
        MacroModel::When(_, _) => true,
        MacroModel::Proc(_) => true,
        MacroModel::With(_) => true,
        _ => false,
    }
}

/// The openers whose block an `else` may split.
pub open spec fn is_cond_opener(m: MacroModel) -> bool {
    match m {
        MacroModel::If(_) => true,
        MacroModel::Ifn(_) => true,
        MacroModel::When(_, _) => true,
        _ => false,
    }
}

/// Executable twin of `is_cond_opener`.
fn is_cond_opener_mac(m: &Macro) -> (r: bool)
    ensures
        r == is_cond_opener(m@),
{
    match m {
        Macro::If(_) => true,
        Macro::Ifn(_) => true,
        Macro::When(_, _) => true,
        _ => false,
    }
}

/// Executable twin of `is_opener`.
fn is_opener_mac(m: &Macro) -> (r: bool)
    ensures
        r == is_opener(m@),
{
    match m {
        Macro::If(_) => true,
        Macro::Ifn(_) => true,
        Macro::When(_, _) => true,
        Macro::Proc(_) => true,
        Macro::With(_) => true,
        _ => false,
    }
}

/// The structural error for a block still open when input ran out.
pub open spec fn unterminated(o: OpenBlockModel) -> ErrorModel {
    ErrorModel { location: o.loc, kind: ErrorKindModel::UnterminatedBlock(macro_name(o.mac)) }
}

/// The position of one classified line.
pub open spec fn loc_of(l: LineModel) -> LocationModel {
    LocationModel { file: l.file, line: l.line }
}

/// The conditions of the pending `if` openers, oldest first.
pub open spec fn if_conds(pend: Seq<OpenBlockModel>) -> Seq<Seq<char>>
    decreases pend.len(),
{
    if pend.len() == 0 {
        Seq::empty()
    } else {
        match pend.last().mac {
            MacroModel::If(c) => if_conds(pend.drop_last()).push(c),
            _ => if_conds(pend.drop_last()),
        }
    }
}

/// The conditions of the pending `ifn` openers, oldest first.
pub open spec fn ifn_conds(pend: Seq<OpenBlockModel>) -> Seq<Seq<char>>
    decreases pend.len(),
{
    if pend.len() == 0 {
        Seq::empty()
    } else {
        match pend.last().mac {
            MacroModel::Ifn(c) => ifn_conds(pend.drop_last()).push(c),
            _ => ifn_conds(pend.drop_last()),
        }
    }
}

/// The clauses `" if c"` for every positive condition, in order.
pub open spec fn if_clauses(conds: Seq<Seq<char>>) -> Seq<char>
    decreases conds.len(),
{
    if conds.len() == 0 {
        Seq::empty()
    } else {
        if_clauses(conds.drop_last()) + " if "@ + conds.last()
    }
}

/// The clauses `" unless c"` for every negated condition, in order.
pub open spec fn unless_clauses(conds: Seq<Seq<char>>) -> Seq<char>
    decreases conds.len(),
{
    if conds.len() == 0 {
        Seq::empty()
    } else {
        unless_clauses(conds.drop_last()) + " unless "@ + conds.last()
    }
}

/// The single command that evaluates the whole conjunction of the pending
/// conditions once, and latches the flag to 1 exactly when it holds.
pub open spec fn eval_cmd(ifs: Seq<Seq<char>>, ifns: Seq<Seq<char>>, flag: Seq<char>) -> Seq<char> {
    "execute"@ + if_clauses(ifs) + unless_clauses(ifns)
        + " run scoreboard players set "@ + crate::emit::magic() + " "@ + flag + " 1\n"@
}

/// The three latch commands an `if`/`ifn` block opens with: create the flag,
/// zero it, evaluate the conjunction into it.
pub open spec fn latch_header(pend: Seq<OpenBlockModel>, flag: Seq<char>) -> Seq<char> {
    declare_cmd(flag) + zero_cmd(flag) + eval_cmd(if_conds(pend), ifn_conds(pend), flag)
}

/// `p` clamped into `[lo, hi]`.
pub open spec fn clamp(p: int, lo: int, hi: int) -> int {
    if p < lo {
        lo
    } else if p > hi {
        hi
    } else {
        p
    }
}

/// What a rendering call yields when it does not fail.
pub struct RenderDone {
    /// The rendered output of the consumed lines.
    pub out: Seq<char>,
    /// The cursor position just past the last consumed line.
    pub pos: int,
    /// Why the call handed control back.
    pub term: TerminatorModel,
    /// The procedure table as it stands after the call.
    pub procs: Map<Seq<char>, Seq<char>>,
    /// The diagnostics the consumed `log` directives produced, in order.
    pub logs: Seq<LogModel>,
}

/// The outcome of one rendering call.
pub enum RenderOutcome {
    Done(RenderDone),
    Fail(ErrorModel),
}

/// `piece` prepended to the outcome's output.
pub open spec fn prepend(piece: Seq<char>, r: RenderOutcome) -> RenderOutcome {
    match r {
        RenderOutcome::Done(d) => RenderOutcome::Done(
            RenderDone { out: piece + d.out, pos: d.pos, term: d.term, procs: d.procs, logs: d.logs },
        ),
        RenderOutcome::Fail(e) => RenderOutcome::Fail(e),
    }
}

/// `entries` prepended to the outcome's diagnostics.
pub open spec fn prelogs(entries: Seq<LogModel>, r: RenderOutcome) -> RenderOutcome {
    match r {
        RenderOutcome::Done(d) => RenderOutcome::Done(
            RenderDone { out: d.out, pos: d.pos, term: d.term, procs: d.procs, logs: entries + d.logs },
        ),
        RenderOutcome::Fail(e) => RenderOutcome::Fail(e),
    }
}

/// One rendering call: the lines from `pos` on, seen from the inherited
/// context `ctx` with pending openers `pend`, the procedure table `procs`, the
/// build-time environment `env`, the spliceable contents `incs`, and the
/// nesting depth. Positions handed to recursive continuations are clamped into
/// range; the clamp never moves a position that an actual rendering produced.
pub open spec fn render_spec(
    lines: Seq<LineModel>,
    pos: int,
    ctx: Seq<OpenBlockModel>,
    pend: Seq<OpenBlockModel>,
    procs: Map<Seq<char>, Seq<char>>,
    env: Map<Seq<char>, Seq<char>>,
    incs: Map<Seq<char>, Seq<char>>,
    depth: nat,
) -> RenderOutcome
    decreases lines.len() - pos, 1int when 0 <= pos <= lines.len()
{
    if pos == lines.len() {
        if pend.len() > 0 {
            RenderOutcome::Fail(unterminated(pend.last()))
        } else if ctx.len() > 0 {
            RenderOutcome::Fail(unterminated(ctx.last()))
        } else {
            RenderOutcome::Done(
                RenderDone {
                    out: Seq::empty(),
                    pos: pos,
                    term: TerminatorModel::Eof,
                    procs: procs,
                    logs: Seq::empty(),
                },
            )
        }
    } else {
        let line = lines[pos];
        let loc = loc_of(line);
        match line.content {
            LineContentModel::Empty => render_spec(lines, pos + 1, ctx, pend, procs, env, incs, depth),
            LineContentModel::Command(c) => prepend(
                c + "\n"@,
                render_spec(lines, pos + 1, ctx, pend, procs, env, incs, depth),
            ),
            LineContentModel::Macro(m) => match m {
                MacroModel::Call(id) => if procs.contains_key(id) {
                    prepend(procs[id], render_spec(lines, pos + 1, ctx, pend, procs, env, incs, depth))
                } else {
                    RenderOutcome::Fail(ErrorModel { location: loc, kind: ErrorKindModel::UnknownProc(id) })
                },
                MacroModel::Declare(n) => prepend(
                    declare_cmd(n),
                    render_spec(lines, pos + 1, ctx, pend, procs, env, incs, depth),
                ),
                MacroModel::Delete(n) => prepend(
                    delete_cmd(n),
                    render_spec(lines, pos + 1, ctx, pend, procs, env, incs, depth),
                ),
                MacroModel::Include(p) => if incs.contains_key(p) {
                    prepend(incs[p], render_spec(lines, pos + 1, ctx, pend, procs, env, incs, depth))
                } else {
                    RenderOutcome::Fail(ErrorModel { location: loc, kind: ErrorKindModel::Include(p) })
                },
                MacroModel::Log(msg) => prelogs(
                    seq![LogModel { line: line.line, message: msg }],
                    render_spec(lines, pos + 1, ctx, pend, procs, env, incs, depth),
                ),
                MacroModel::If(_) => render_spec(
                    lines,
                    pos + 1,
                    ctx,
                    pend.push(OpenBlockModel { mac: m, loc }),
                    procs,
                    env,
                    incs,
                    depth,
                ),
                MacroModel::Ifn(_) => render_spec(
                    lines,
                    pos + 1,
                    ctx,
                    pend.push(OpenBlockModel { mac: m, loc }),
                    procs,
                    env,
                    incs,
                    depth,
                ),
                MacroModel::When(_, _) => render_spec(
                    lines,
                    pos + 1,
                    ctx,
                    pend.push(OpenBlockModel { mac: m, loc }),
                    procs,
                    env,
                    incs,
                    depth,
                ),
                MacroModel::Else => if pend.len() > 0 {
                    RenderOutcome::Fail(
                        ErrorModel { location: loc, kind: ErrorKindModel::UnexpectedMacro("else"@) },
                    )
                } else if ctx.len() > 0 && is_cond_opener(ctx.last().mac) {
                    RenderOutcome::Done(
                        RenderDone {
                            out: Seq::empty(),
                            pos: pos + 1,
                            term: TerminatorModel::Else(loc),
                            procs: procs,
                            logs: Seq::empty(),
                        },
                    )
                } else {
                    RenderOutcome::Fail(
                        ErrorModel { location: loc, kind: ErrorKindModel::UnexpectedMacro("else"@) },
                    )
                },
                MacroModel::End => if pend.len() > 0 {
                    RenderOutcome::Fail(
                        ErrorModel { location: loc, kind: ErrorKindModel::UnexpectedMacro("end"@) },
                    )
                } else if ctx.len() > 0 && is_opener(ctx.last().mac) {
                    RenderOutcome::Done(
                        RenderDone {
                            out: Seq::empty(),
                            pos: pos + 1,
                            term: TerminatorModel::End,
                            procs: procs,
                            logs: Seq::empty(),
                        },
                    )
                } else {
                    RenderOutcome::Fail(
                        ErrorModel { location: loc, kind: ErrorKindModel::UnexpectedMacro("end"@) },
                    )
                },
                MacroModel::Proc(id) => {
                    let opener = OpenBlockModel { mac: m, loc };
                    match render_spec(
                        lines,
                        pos + 1,
                        ctx + pend + seq![opener],
                        Seq::empty(),
                        procs,
                        env,
                        incs,
                        depth + 1,
                    ) {
                        RenderOutcome::Fail(e) => RenderOutcome::Fail(e),
                        RenderOutcome::Done(c1) => match c1.term {
                            TerminatorModel::End => prelogs(
                                c1.logs,
                                render_spec(
                                    lines,
                                    clamp(c1.pos, pos + 1, lines.len() as int),
                                    ctx,
                                    pend,
                                    c1.procs.insert(id, c1.out),
                                    env,
                                    incs,
                                    depth,
                                ),
                            ),
                            TerminatorModel::Else(eloc) => RenderOutcome::Fail(
                                ErrorModel {
                                    location: eloc,
                                    kind: ErrorKindModel::UnexpectedMacro("else"@),
                                },
                            ),
                            TerminatorModel::Eof => RenderOutcome::Fail(unterminated(opener)),
                        },
                    }
                },
                MacroModel::With(p) => {
                    let opener = OpenBlockModel { mac: m, loc };
                    match render_spec(
                        lines,
                        pos + 1,
                        ctx + pend + seq![opener],
                        Seq::empty(),
                        procs,
                        env,
                        incs,
                        depth + 1,
                    ) {
                        RenderOutcome::Fail(e) => RenderOutcome::Fail(e),
                        RenderOutcome::Done(c1) => match c1.term {
                            TerminatorModel::End => prepend(
                                prefix_lines(p + " "@, c1.out),
                                prelogs(
                                    c1.logs,
                                    render_spec(
                                        lines,
                                        clamp(c1.pos, pos + 1, lines.len() as int),
                                        ctx,
                                        pend,
                                        c1.procs,
                                        env,
                                        incs,
                                        depth,
                                    ),
                                ),
                            ),
                            TerminatorModel::Else(eloc) => RenderOutcome::Fail(
                                ErrorModel {
                                    location: eloc,
                                    kind: ErrorKindModel::UnexpectedMacro("else"@),
                                },
                            ),
                            TerminatorModel::Eof => RenderOutcome::Fail(unterminated(opener)),
                        },
                    }
                },
                MacroModel::Then => if pend.len() == 0 {
                    RenderOutcome::Fail(
                        ErrorModel { location: loc, kind: ErrorKindModel::UnexpectedMacro("then"@) },
                    )
                } else {
                    let opener = pend.last();
                    match render_spec(lines, pos + 1, ctx + pend, Seq::empty(), procs, env, incs, depth + 1) {
                        RenderOutcome::Fail(e) => RenderOutcome::Fail(e),
                        RenderOutcome::Done(c1) => match c1.term {
                            TerminatorModel::Eof => RenderOutcome::Fail(unterminated(opener)),
                            TerminatorModel::End => then_join(
                                lines,
                                pos,
                                ctx,
                                pend,
                                env,
                                incs,
                                depth,
                                c1,
                                RenderDone {
                                    out: Seq::empty(),
                                    pos: c1.pos,
                                    term: TerminatorModel::End,
                                    procs: c1.procs,
                                    logs: Seq::empty(),
                                },
                            ),
                            TerminatorModel::Else(_) => {
                                match render_spec(
                                    lines,
                                    clamp(c1.pos, pos + 1, lines.len() as int),
                                    ctx + pend,
                                    Seq::empty(),
                                    c1.procs,
                                    env,
                                    incs,
                                    depth + 1,
                                ) {
                                    RenderOutcome::Fail(e) => RenderOutcome::Fail(e),
                                    RenderOutcome::Done(c2) => match c2.term {
                                        TerminatorModel::End => then_join(
                                            lines, pos, ctx, pend, env, incs, depth, c1, c2,
                                        ),
                                        TerminatorModel::Else(eloc2) => RenderOutcome::Fail(
                                            ErrorModel {
                                                location: eloc2,
                                                kind: ErrorKindModel::UnexpectedMacro("else"@),
                                            },
                                        ),
                                        TerminatorModel::Eof => RenderOutcome::Fail(
                                            unterminated(opener),
                                        ),
                                    },
                                }
                            },
                        },
                    }
                },
            },
        }
    }
}

/// How a `then` block's two rendered branches join with the continuation. For
/// a runtime conditional the latch header goes out first, then the positive
/// branch under the positive guard, then the negative branch under the negated
/// guard; the latch flag is named after the depth and the `then`'s own source
/// line. For a build-time `when`, whichever branch the recorded comparison
/// selects goes out as it is. The pending openers are all consumed: the
/// continuation starts with none.
pub open spec fn then_join(
    lines: Seq<LineModel>,
    pos: int,
    ctx: Seq<OpenBlockModel>,
    pend: Seq<OpenBlockModel>,
    env: Map<Seq<char>, Seq<char>>,
    incs: Map<Seq<char>, Seq<char>>,
    depth: nat,
    c1: RenderDone,
    c2: RenderDone,
) -> RenderOutcome
    decreases lines.len() - pos, 0int when 0 <= pos < lines.len()
{
    let line = lines[pos];
    let loc = loc_of(line);
    let next = clamp(c2.pos, pos + 1, lines.len() as int);
    let rest = render_spec(lines, next, ctx, Seq::empty(), c2.procs, env, incs, depth);
    match pend.last().mac {
        MacroModel::When(var, val) => {
            let truth = env.contains_key(var) && env[var] == val;
            prepend(if truth { c1.out } else { c2.out }, prelogs(c1.logs + c2.logs, rest))
        },
        MacroModel::If(_) => then_join_latch(pend, depth, line.line, c1, c2, rest),
        MacroModel::Ifn(_) => then_join_latch(pend, depth, line.line, c1, c2, rest),
        _ => RenderOutcome::Fail(
            ErrorModel { location: loc, kind: ErrorKindModel::UnexpectedMacro("then"@) },
        ),
    }
}

/// The runtime-conditional join: latch header, guarded positive branch,
/// negated-guard branch (possibly empty), then the continuation.
pub open spec fn then_join_latch(
    pend: Seq<OpenBlockModel>,
    depth: nat,
    line: u32,
    c1: RenderDone,
    c2: RenderDone,
    rest: RenderOutcome,
) -> RenderOutcome {
    let flag = flag_name(depth, line);
    let block = latch_header(pend, flag) + prefix_lines(guard_prefix(flag), c1.out)
        + prefix_lines(unless_prefix(flag), c2.out);
    prepend(block, prelogs(c1.logs + c2.logs, rest))
}

/// Executable twin of `eval_cmd` over the pending openers.
fn eval_cmd_string(pend: &Vec<OpenBlock>, flag: &str) -> (r: String)
    ensures
        r@ == eval_cmd(if_conds(block_views(pend@)), ifn_conds(block_views(pend@)), flag@),
{
    let mut sif = String::new();
    let mut sifn = String::new();
    let mut i: usize = 0;
    while i < pend.len()
        invariant
            i <= pend@.len(),
            sif@ == if_clauses(if_conds(block_views(pend@).take(i as int))),
            sifn@ == unless_clauses(ifn_conds(block_views(pend@).take(i as int))),
        decreases pend@.len() - i,
    {
        proof {
            let bv = block_views(pend@);
            assert(bv.take(i + 1).drop_last() =~= bv.take(i as int));
            assert(bv.take(i + 1).last() == bv[i as int]);
            assert(bv[i as int] == pend@[i as int]@);
        }
        match &pend[i].mac {
            Macro::If(c) => {
                sif.append(" if ");
                sif.append(c.as_str());
                proof {
                    let bv = block_views(pend@);
                    let prev = if_conds(bv.take(i as int));
                    assert(if_conds(bv.take(i + 1)) == prev.push(c@));
                    assert(prev.push(c@).drop_last() =~= prev);
                    assert(prev.push(c@).last() == c@);
                    assert(if_clauses(prev.push(c@)) == if_clauses(prev) + " if "@ + c@);
                    assert(sif@ =~= if_clauses(if_conds(bv.take(i + 1))));
                    assert(ifn_conds(bv.take(i + 1)) == ifn_conds(bv.take(i as int)));
                }
            },
            Macro::Ifn(c) => {
                sifn.append(" unless ");
                sifn.append(c.as_str());
                proof {
                    let bv = block_views(pend@);
                    let prev = ifn_conds(bv.take(i as int));
                    assert(ifn_conds(bv.take(i + 1)) == prev.push(c@));
                    assert(prev.push(c@).drop_last() =~= prev);
                    assert(prev.push(c@).last() == c@);
                    assert(unless_clauses(prev.push(c@)) == unless_clauses(prev) + " unless "@ + c@);
                    assert(sifn@ =~= unless_clauses(ifn_conds(bv.take(i + 1))));
                    assert(if_conds(bv.take(i + 1)) == if_conds(bv.take(i as int)));
                }
            },
            _ => {
                proof {
                    let bv = block_views(pend@);
                    assert(if_conds(bv.take(i + 1)) == if_conds(bv.take(i as int)));
                    assert(ifn_conds(bv.take(i + 1)) == ifn_conds(bv.take(i as int)));
                }
            },
        }
        i = i + 1;
    }
    proof {
        assert(block_views(pend@).take(pend@.len() as int) =~= block_views(pend@));
    }
    let mut r = "execute".to_owned();
    r.append(sif.as_str());
    r.append(sifn.as_str());
    r.append(" run scoreboard players set ");
    r.append("__mcfn_internal");
    r.append(" ");
    r.append(flag);
    r.append(" 1\n");
    proof {
        assert(r@ =~= eval_cmd(
            if_conds(block_views(pend@)),
            ifn_conds(block_views(pend@)),
            flag@,
        ));
    }
    r
}

/// How one executable rendering result relates to the spec-level outcome: same
/// output, position, terminator and error; the procedure table ends as the
/// outcome says; the outcome's diagnostics are appended to the ones already
/// collected. Nothing is promised of tables and diagnostics on failure, since
/// a failure aborts the whole file.
pub open spec fn matches_outcome(
    o: RenderOutcome,
    r: Result<(String, usize, Terminator), Error>,
    procs_new: Map<Seq<char>, Seq<char>>,
    logs_old: Seq<LogModel>,
    logs_new: Seq<LogModel>,
    pos: int,
    n: int,
) -> bool {
    match r {
        Ok(t) => match o {
            RenderOutcome::Done(d) => {
                &&& t.0@ == d.out
                &&& t.1 as int == d.pos
                &&& t.2@ == d.term
                &&& procs_new == d.procs
                &&& logs_new == logs_old + d.logs
                &&& pos <= t.1 as int <= n
            },
            RenderOutcome::Fail(_) => false,
        },
        Err(e) => match o {
            RenderOutcome::Fail(f) => f == e@,
            RenderOutcome::Done(_) => false,
        },
    }
}

/// Render the lines from `pos` on, exactly as `render_spec` says. The cursor
/// result never moves backwards and never runs past the input.
pub fn render_block(
    lines: &Vec<Line>,
    pos: usize,
    ctx: &Vec<OpenBlock>,
    mut pend: Vec<OpenBlock>,
    procs: &mut Table,
    env: &Table,
    incs: &Table,
    depth: usize,
    logs: &mut Vec<Log>,
) -> (r: Result<(String, usize, Terminator), Error>)
    requires
        pos <= lines@.len(),
        depth <= pos,
    ensures
        matches_outcome(
            render_spec(
                line_views(lines@),
                pos as int,
                block_views(ctx@),
                block_views(pend@),
                old(procs)@,
                env@,
                incs@,
                depth as nat,
            ),
            r,
            final(procs)@,
            log_views(old(logs)@),
            log_views(final(logs)@),
            pos as int,
            lines@.len() as int,
        ),
    decreases lines@.len() - pos, 1int,
{
    let ghost lv = line_views(lines@);
    let ghost cv = block_views(ctx@);
    let ghost pv = block_views(pend@);
    let ghost p0 = procs@;
    let ghost l0 = log_views(logs@);
    let ghost o = render_spec(lv, pos as int, cv, pv, p0, env@, incs@, depth as nat);
    if pos == lines.len() {
        if pend.len() > 0 {
            let oi = pend.len() - 1;
            proof {
                assert(pv.last() == pend@[oi as int]@);
            }
            return Err(
                Error {
                    location: pend[oi].loc.duplicate(),
                    kind: ErrorKind::UnterminatedBlock(macro_name_str(&pend[oi].mac).to_owned()),
                },
            );
        }
        if ctx.len() > 0 {
            let oi = ctx.len() - 1;
            proof {
                assert(cv.last() == ctx@[oi as int]@);
            }
            return Err(
                Error {
                    location: ctx[oi].loc.duplicate(),
                    kind: ErrorKind::UnterminatedBlock(macro_name_str(&ctx[oi].mac).to_owned()),
                },
            );
        }
        return Ok((String::new(), pos, Terminator::Eof));
    }
    let line = &lines[pos];
    proof {
        assert(lv[pos as int] == lines@[pos as int]@);
    }
    match &line.content {
        LineContent::Empty => {
            let r = render_block(lines, pos + 1, ctx, pend, procs, env, incs, depth, logs);
            r
        },
        LineContent::Command(c) => {
            let mut piece = c.clone();
            piece.append("\n");
            let rest = render_block(lines, pos + 1, ctx, pend, procs, env, incs, depth, logs);
            match rest {
                Err(e) => Err(e),
                Ok((out, np, term)) => {
                    piece.append(out.as_str());
                    proof {
                        let o1 = render_spec(lv, pos + 1, cv, pv, p0, env@, incs@, depth as nat);
                        assert(o == prepend(c@ + "\n"@, o1));
                        assert(piece@ =~= c@ + "\n"@ + out@);
                    }
                    Ok((piece, np, term))
                },
            }
        },
        LineContent::Macro(m) => match m {
            Macro::Call(id) => {
                let piece_opt: Option<String> = match procs.get(id) {
                    Some(content) => Some(content.clone()),
                    None => None,
                };
                match piece_opt {
                    None => Err(
                        Error {
                            location: Location { file: line.file.clone(), line: line.line },
                            kind: ErrorKind::UnknownProc(id.clone()),
                        },
                    ),
                    Some(mut piece) => {
                        let rest = render_block(
                            lines, pos + 1, ctx, pend, procs, env, incs, depth, logs,
                        );
                        match rest {
                            Err(e) => Err(e),
                            Ok((out, np, term)) => {
                                piece.append(out.as_str());
                                proof {
                                    let o1 = render_spec(
                                        lv, pos + 1, cv, pv, p0, env@, incs@, depth as nat,
                                    );
                                    assert(o == prepend(p0[id@], o1));
                                    assert(piece@ =~= p0[id@] + out@);
                                }
                                Ok((piece, np, term))
                            },
                        }
                    },
                }
            },
            Macro::Declare(nm) => {
                let mut piece = declare_cmd_string(nm.as_str());
                let rest = render_block(lines, pos + 1, ctx, pend, procs, env, incs, depth, logs);
                match rest {
                    Err(e) => Err(e),
                    Ok((out, np, term)) => {
                        piece.append(out.as_str());
                        proof {
                            let o1 = render_spec(lv, pos + 1, cv, pv, p0, env@, incs@, depth as nat);
                            assert(o == prepend(declare_cmd(nm@), o1));
                            assert(piece@ =~= declare_cmd(nm@) + out@);
                        }
                        Ok((piece, np, term))
                    },
                }
            },
            Macro::Delete(nm) => {
                let mut piece = delete_cmd_string(nm.as_str());
                let rest = render_block(lines, pos + 1, ctx, pend, procs, env, incs, depth, logs);
                match rest {
                    Err(e) => Err(e),
                    Ok((out, np, term)) => {
                        piece.append(out.as_str());
                        proof {
                            let o1 = render_spec(lv, pos + 1, cv, pv, p0, env@, incs@, depth as nat);
                            assert(o == prepend(delete_cmd(nm@), o1));
                            assert(piece@ =~= delete_cmd(nm@) + out@);
                        }
                        Ok((piece, np, term))
                    },
                }
            },
            Macro::Include(p) => {
                let piece_opt: Option<String> = match incs.get(p) {
                    Some(content) => Some(content.clone()),
                    None => None,
                };
                match piece_opt {
                    None => Err(
                        Error {
                            location: Location { file: line.file.clone(), line: line.line },
                            kind: ErrorKind::Include(p.clone()),
                        },
                    ),
                    Some(mut piece) => {
                        let rest = render_block(
                            lines, pos + 1, ctx, pend, procs, env, incs, depth, logs,
                        );
                        match rest {
                            Err(e) => Err(e),
                            Ok((out, np, term)) => {
                                piece.append(out.as_str());
                                proof {
                                    let o1 = render_spec(
                                        lv, pos + 1, cv, pv, p0, env@, incs@, depth as nat,
                                    );
                                    assert(o == prepend(incs@[p@], o1));
                                    assert(piece@ =~= incs@[p@] + out@);
                                }
                                Ok((piece, np, term))
                            },
                        }
                    },
                }
            },
            Macro::Log(msg) => {
                let ghost entry = LogModel { line: line.line, message: msg@ };
                let ghost pre_logs = logs@;
                logs.push(Log { line: line.line, message: msg.clone() });
                proof {
                    assert forall|j: int| 0 <= j < logs@.len() implies #[trigger] log_views(
                        logs@,
                    )[j] == (l0 + seq![entry])[j] by {
                        assert(log_views(logs@)[j] == logs@[j]@);
                        if j < pre_logs.len() {
                            assert(logs@[j] == pre_logs[j]);
                        } else {
                            assert(logs@[j]@ == entry);
                        }
                    }
                    assert(log_views(logs@) =~= l0 + seq![entry]);
                }
                let ghost l1 = log_views(logs@);
                let r = render_block(lines, pos + 1, ctx, pend, procs, env, incs, depth, logs);
                proof {
                    let o1 = render_spec(lv, pos + 1, cv, pv, p0, env@, incs@, depth as nat);
                    assert(o == prelogs(seq![entry], o1));
                    assert(l1 =~= l0 + seq![entry]);
                    if let RenderOutcome::Done(d1) = o1 {
                        assert(l0 + seq![entry] + d1.logs =~= l0 + (seq![entry] + d1.logs));
                    }
                }
                r
            },
            Macro::If(_) | Macro::Ifn(_) | Macro::When(_, _) => {
                let opener = OpenBlock {
                    mac: m.duplicate(),
                    loc: Location { file: line.file.clone(), line: line.line },
                };
                let ghost ov = opener@;
                proof {
                    crate::lines::lemma_block_views_push(pend@, opener);
                }
                pend.push(opener);
                proof {
                    assert(block_views(pend@) =~= pv.push(ov));
                }
                let r = render_block(lines, pos + 1, ctx, pend, procs, env, incs, depth, logs);
                proof {
                    assert(o == render_spec(
                        lv, pos + 1, cv, pv.push(ov), p0, env@, incs@, depth as nat,
                    ));
                }
                r
            },
            Macro::Else => {
                let loc = Location { file: line.file.clone(), line: line.line };
                if pend.len() > 0 {
                    Err(Error { location: loc, kind: ErrorKind::UnexpectedMacro("else".to_owned()) })
                } else if ctx.len() > 0 && is_cond_opener_mac(&ctx[ctx.len() - 1].mac) {
                    proof {
                        assert(cv.last() == ctx@[ctx@.len() - 1]@);
                    }
                    Ok((String::new(), pos + 1, Terminator::Else(loc)))
                } else {
                    proof {
                        if ctx@.len() > 0 {
                            assert(cv.last() == ctx@[ctx@.len() - 1]@);
                        }
                    }
                    Err(Error { location: loc, kind: ErrorKind::UnexpectedMacro("else".to_owned()) })
                }
            },
            Macro::End => {
                let loc = Location { file: line.file.clone(), line: line.line };
                if pend.len() > 0 {
                    Err(Error { location: loc, kind: ErrorKind::UnexpectedMacro("end".to_owned()) })
                } else if ctx.len() > 0 && is_opener_mac(&ctx[ctx.len() - 1].mac) {
                    proof {
                        assert(cv.last() == ctx@[ctx@.len() - 1]@);
                    }
                    Ok((String::new(), pos + 1, Terminator::End))
                } else {
                    proof {
                        if ctx@.len() > 0 {
                            assert(cv.last() == ctx@[ctx@.len() - 1]@);
                        }
                    }
                    Err(Error { location: loc, kind: ErrorKind::UnexpectedMacro("end".to_owned()) })
                }
            },
            Macro::Proc(id) => {
                let opener = OpenBlock {
                    mac: m.duplicate(),
                    loc: Location { file: line.file.clone(), line: line.line },
                };
                let child_ctx = extended_context(ctx, &pend, Some(&opener));
                let ghost ov = opener@;
                let child_pend: Vec<OpenBlock> = Vec::new();
                proof {
                    assert(block_views(child_pend@) =~= Seq::<OpenBlockModel>::empty());
                }
                let c1 = render_block(
                    lines, pos + 1, &child_ctx, child_pend, procs, env, incs, depth + 1, logs,
                );
                let ghost sc1 = render_spec(
                    lv, pos + 1, cv + pv + seq![ov], Seq::empty(), p0, env@, incs@, depth as nat + 1,
                );
                match c1 {
                    Err(e) => Err(e),
                    Ok((out1, pos1, term1)) => match term1 {
                        Terminator::Else(l2) => Err(
                            Error {
                                location: l2,
                                kind: ErrorKind::UnexpectedMacro("else".to_owned()),
                            },
                        ),
                        Terminator::Eof => Err(
                            Error {
                                location: opener.loc,
                                kind: ErrorKind::UnterminatedBlock(
                                    macro_name_str(&opener.mac).to_owned(),
                                ),
                            },
                        ),
                        Terminator::End => {
                            procs.insert(id.clone(), out1);
                            let rest = render_block(
                                lines, pos1, ctx, pend, procs, env, incs, depth, logs,
                            );
                            proof {
                                let sc1d = sc1->Done_0;
                                assert(clamp(sc1d.pos, pos + 1, lv.len() as int) == pos1 as int);
                                if rest is Ok {
                                    let or = render_spec(
                                        lv, pos1 as int, cv, pv, sc1d.procs.insert(id@, sc1d.out),
                                        env@, incs@, depth as nat,
                                    );
                                    if let RenderOutcome::Done(dr) = or {
                                        assert(log_views(logs@) =~= l0 + sc1d.logs + dr.logs);
                                        assert(l0 + sc1d.logs + dr.logs =~= l0 + (sc1d.logs + dr.logs));
                                    }
                                }
                            }
                            rest
                        },
                    },
                }
            },
            Macro::With(p) => {
                let opener = OpenBlock {
                    mac: m.duplicate(),
                    loc: Location { file: line.file.clone(), line: line.line },
                };
                let child_ctx = extended_context(ctx, &pend, Some(&opener));
                let ghost ov = opener@;
                let child_pend: Vec<OpenBlock> = Vec::new();
                proof {
                    assert(block_views(child_pend@) =~= Seq::<OpenBlockModel>::empty());
                }
                let c1 = render_block(
                    lines, pos + 1, &child_ctx, child_pend, procs, env, incs, depth + 1, logs,
                );
                let ghost sc1 = render_spec(
                    lv, pos + 1, cv + pv + seq![ov], Seq::empty(), p0, env@, incs@, depth as nat + 1,
                );
                match c1 {
                    Err(e) => Err(e),
                    Ok((out1, pos1, term1)) => match term1 {
                        Terminator::Else(l2) => Err(
                            Error {
                                location: l2,
                                kind: ErrorKind::UnexpectedMacro("else".to_owned()),
                            },
                        ),
                        Terminator::Eof => Err(
                            Error {
                                location: opener.loc,
                                kind: ErrorKind::UnterminatedBlock(
                                    macro_name_str(&opener.mac).to_owned(),
                                ),
                            },
                        ),
                        Terminator::End => {
                            let mut wp = p.clone();
                            wp.append(" ");
                            let mut piece = prefix_lines_string(wp.as_str(), out1.as_str());
                            let rest = render_block(
                                lines, pos1, ctx, pend, procs, env, incs, depth, logs,
                            );
                            match rest {
                                Err(e) => Err(e),
                                Ok((out, np, term)) => {
                                    piece.append(out.as_str());
                                    proof {
                                        let sc1d = sc1->Done_0;
                                        assert(clamp(sc1d.pos, pos + 1, lv.len() as int)
                                            == pos1 as int);
                                        let or = render_spec(
                                            lv, pos1 as int, cv, pv, sc1d.procs, env@, incs@,
                                            depth as nat,
                                        );
                                        assert(wp@ =~= p@ + " "@);
                                        if let RenderOutcome::Done(dr) = or {
                                            assert(piece@ =~= prefix_lines(p@ + " "@, sc1d.out)
                                                + dr.out);
                                            assert(log_views(logs@) =~= l0 + sc1d.logs + dr.logs);
                                            assert(l0 + sc1d.logs + dr.logs =~= l0 + (sc1d.logs
                                                + dr.logs));
                                        }
                                    }
                                    Ok((piece, np, term))
                                },
                            }
                        },
                    },
                }
            },
            Macro::Then => {
                let r = render_then(lines, pos, ctx, pend, procs, env, incs, depth, logs);
                r
            },
        },
    }
}

/// Render a `then` directive and the block it opens, exactly as `render_spec`
/// says at a `then` line.
fn render_then(
    lines: &Vec<Line>,
    pos: usize,
    ctx: &Vec<OpenBlock>,
    pend: Vec<OpenBlock>,
    procs: &mut Table,
    env: &Table,
    incs: &Table,
    depth: usize,
    logs: &mut Vec<Log>,
) -> (r: Result<(String, usize, Terminator), Error>)
    requires
        pos < lines@.len(),
        depth <= pos,
        line_views(lines@)[pos as int].content == LineContentModel::Macro(MacroModel::Then),
    ensures
        matches_outcome(
            render_spec(
                line_views(lines@),
                pos as int,
                block_views(ctx@),
                block_views(pend@),
                old(procs)@,
                env@,
                incs@,
                depth as nat,
            ),
            r,
            final(procs)@,
            log_views(old(logs)@),
            log_views(final(logs)@),
            pos as int,
            lines@.len() as int,
        ),
    decreases lines@.len() - pos, 0int,
{
    let ghost lv = line_views(lines@);
    let ghost cv = block_views(ctx@);
    let ghost pv = block_views(pend@);
    let ghost p0 = procs@;
    let ghost l0 = log_views(logs@);
    let ghost o = render_spec(lv, pos as int, cv, pv, p0, env@, incs@, depth as nat);
    let n = lines.len();
    proof {
        assert(pos < n);
    }
    let line = &lines[pos];
    proof {
        assert(lv[pos as int] == lines@[pos as int]@);
    }
    if pend.len() == 0 {
        return Err(
            Error {
                location: Location { file: line.file.clone(), line: line.line },
                kind: ErrorKind::UnexpectedMacro("then".to_owned()),
            },
        );
    }
    let oi = pend.len() - 1;
    proof {
        assert(pv.last() == pend@[oi as int]@);
    }
    let child_ctx = extended_context(ctx, &pend, None);
    let child_pend: Vec<OpenBlock> = Vec::new();
    proof {
        assert(block_views(child_pend@) =~= Seq::<OpenBlockModel>::empty());
    }
    let c1 = render_block(lines, pos + 1, &child_ctx, child_pend, procs, env, incs, depth + 1, logs);
    let ghost sc1 = render_spec(
        lv, pos + 1, cv + pv, Seq::empty(), p0, env@, incs@, depth as nat + 1,
    );
    let (out1, pos1, term1) = match c1 {
        Err(e) => {
            return Err(e);
        },
        Ok(t) => t,
    };
    let ghost sc1d = sc1->Done_0;
    let ghost l1 = log_views(logs@);
    let ghost t1v = term1@;
    let (out2, pos2) = match term1 {
        Terminator::Eof => {
            return Err(
                Error {
                    location: pend[oi].loc.duplicate(),
                    kind: ErrorKind::UnterminatedBlock(macro_name_str(&pend[oi].mac).to_owned()),
                },
            );
        },
        Terminator::End => (String::new(), pos1),
        Terminator::Else(_) => {
            let pend2: Vec<OpenBlock> = Vec::new();
            proof {
                assert(block_views(pend2@) =~= Seq::<OpenBlockModel>::empty());
            }
            let c2 = render_block(
                lines, pos1, &child_ctx, pend2, procs, env, incs, depth + 1, logs,
            );
            proof {
                assert(clamp(sc1d.pos, pos + 1, lv.len() as int) == pos1 as int);
            }
            match c2 {
                Err(e) => {
                    return Err(e);
                },
                Ok((o2, p2, t2)) => match t2 {
                    Terminator::End => (o2, p2),
                    Terminator::Else(l2) => {
                        return Err(
                            Error {
                                location: l2,
                                kind: ErrorKind::UnexpectedMacro("else".to_owned()),
                            },
                        );
                    },
                    Terminator::Eof => {
                        return Err(
                            Error {
                                location: pend[oi].loc.duplicate(),
                                kind: ErrorKind::UnterminatedBlock(
                                    macro_name_str(&pend[oi].mac).to_owned(),
                                ),
                            },
                        );
                    },
                },
            }
        },
    };
    // The spec-level record of the negative branch: empty when the positive
    // branch ended at `end`, the second rendering when it ended at `else`.
    let ghost sc2d: RenderDone = match t1v {
        TerminatorModel::End => RenderDone {
            out: Seq::empty(),
            pos: sc1d.pos,
            term: TerminatorModel::End,
            procs: sc1d.procs,
            logs: Seq::empty(),
        },
        _ => render_spec(
            lv, clamp(sc1d.pos, pos + 1, lv.len() as int), cv + pv, Seq::empty(), sc1d.procs,
            env@, incs@, depth as nat + 1,
        )->Done_0,
    };
    proof {
        assert(out2@ == sc2d.out);
        assert(pos2 as int == sc2d.pos);
        assert(procs@ == sc2d.procs);
        assert(log_views(logs@) =~= l0 + sc1d.logs + sc2d.logs);
        assert(o == then_join(lv, pos as int, cv, pv, env@, incs@, depth as nat, sc1d, sc2d));
        assert(clamp(sc2d.pos, pos + 1, lv.len() as int) == pos2 as int);
    }
    let ghost orest = render_spec(
        lv, pos2 as int, cv, Seq::empty(), sc2d.procs, env@, incs@, depth as nat,
    );
    match &pend[oi].mac {
        Macro::When(var, val) => {
            let truth = match env.get(var) {
                Some(v) => str_eq(v.as_str(), val.as_str()),
                None => false,
            };
            let mut chosen = if truth {
                out1
            } else {
                out2
            };
            let cont_pend: Vec<OpenBlock> = Vec::new();
            proof {
                assert(block_views(cont_pend@) =~= Seq::<OpenBlockModel>::empty());
            }
            let rest = render_block(lines, pos2, ctx, cont_pend, procs, env, incs, depth, logs);
            match rest {
                Err(e) => Err(e),
                Ok((ro, rp, rt)) => {
                    chosen.append(ro.as_str());
                    proof {
                        if let RenderOutcome::Done(dr) = orest {
                            assert(chosen@ =~= (if truth { sc1d.out } else { sc2d.out }) + dr.out);
                            assert(log_views(logs@) =~= l0 + sc1d.logs + sc2d.logs + dr.logs);
                            assert(l0 + sc1d.logs + sc2d.logs + dr.logs =~= l0 + (sc1d.logs
                                + sc2d.logs + dr.logs));
                        }
                    }
                    Ok((chosen, rp, rt))
                },
            }
        },
        Macro::If(_) | Macro::Ifn(_) => {
            let flag = flag_name_string(depth as u64, line.line);
            let mut block = declare_cmd_string(flag.as_str());
            block.append(zero_cmd_string(flag.as_str()).as_str());
            block.append(eval_cmd_string(&pend, flag.as_str()).as_str());
            let gp = guard_prefix_string(flag.as_str());
            block.append(prefix_lines_string(gp.as_str(), out1.as_str()).as_str());
            let up = unless_prefix_string(flag.as_str());
            block.append(prefix_lines_string(up.as_str(), out2.as_str()).as_str());
            let ghost flagv = flag_name(depth as nat, line.line);
            proof {
                assert(block@ =~= latch_header(pv, flagv) + prefix_lines(guard_prefix(flagv),
                    sc1d.out) + prefix_lines(unless_prefix(flagv), sc2d.out));
            }
            let cont_pend: Vec<OpenBlock> = Vec::new();
            proof {
                assert(block_views(cont_pend@) =~= Seq::<OpenBlockModel>::empty());
            }
            let rest = render_block(lines, pos2, ctx, cont_pend, procs, env, incs, depth, logs);
            match rest {
                Err(e) => Err(e),
                Ok((ro, rp, rt)) => {
                    block.append(ro.as_str());
                    proof {
                        if let RenderOutcome::Done(dr) = orest {
                            assert(block@ =~= latch_header(pv, flagv) + prefix_lines(
                                guard_prefix(flagv), sc1d.out) + prefix_lines(unless_prefix(flagv),
                                sc2d.out) + dr.out);
                            assert(log_views(logs@) =~= l0 + sc1d.logs + sc2d.logs + dr.logs);
                            assert(l0 + sc1d.logs + sc2d.logs + dr.logs =~= l0 + (sc1d.logs
                                + sc2d.logs + dr.logs));
                        }
                    }
                    Ok((block, rp, rt))
                },
            }
        },
        _ => Err(
            Error {
                location: Location { file: line.file.clone(), line: line.line },
                kind: ErrorKind::UnexpectedMacro("then".to_owned()),
            },
        ),
    }
}

} // verus!
