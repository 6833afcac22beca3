//! Laws of the renderer, stated and proved once and for all inputs: literal
//! passthrough, procedure expansion, the shape of conditional blocks,
//! build-time branch selection, prefix wrapping, and the context errors.
//! (That sibling latch flags never collide is proved beside the flag-name
//! derivation itself: `crate::emit::lemma_flag_name_distinct`.)

use vstd::prelude::*;
use crate::emit::{flag_name, glue_prefixed, guard_prefix, prefix_lines, split_lines,
    unless_prefix};
use crate::errors::{ErrorKindModel, ErrorModel, LocationModel};
use crate::lines::{LineContentModel, LineModel, LogModel, OpenBlockModel, TerminatorModel};
use crate::macros::MacroModel;
use crate::parser::{classify_spec, parse_spec, prelude_spec};
use crate::render::{clamp, is_cond_opener, is_opener, latch_header, loc_of, prelogs, prepend,
    render_spec, then_join, then_join_latch, RenderDone, RenderOutcome};

verus! {

/// A line that contributes at most its own text: a command or a blank.
pub open spec fn is_literal(c: LineContentModel) -> bool {
    match c {
        LineContentModel::Command(_) => true,
        LineContentModel::Empty => true,
        LineContentModel::Macro(_) => false,
    }
}

/// The text the literal lines in `[pos, k)` pass through: each command
/// followed by a line break, blanks contributing nothing.
pub open spec fn literal_upto(lines: Seq<LineModel>, pos: int, k: int) -> Seq<char>
    decreases k - pos when 0 <= pos && pos <= k
{
    if pos >= k {
        Seq::empty()
    } else {
        match lines[pos].content {
            LineContentModel::Command(c) => c + "\n"@ + literal_upto(lines, pos + 1, k),
            _ => literal_upto(lines, pos + 1, k),
        }
    }
}

/// Rendering a run of literal lines that ends where the input ends, with no
/// open blocks, passes exactly those lines through and changes nothing else.
pub proof fn lemma_literal_run_to_eof(
    lines: Seq<LineModel>,
    pos: int,
    procs: Map<Seq<char>, Seq<char>>,
    env: Map<Seq<char>, Seq<char>>,
    incs: Map<Seq<char>, Seq<char>>,
    depth: nat,
)
    requires
        0 <= pos <= lines.len(),
        forall|m: int| pos <= m < lines.len() ==> is_literal(#[trigger] lines[m].content),
    ensures
        render_spec(lines, pos, Seq::empty(), Seq::empty(), procs, env, incs, depth)
            == RenderOutcome::Done(
            RenderDone {
                out: literal_upto(lines, pos, lines.len() as int),
                pos: lines.len() as int,
                term: TerminatorModel::Eof,
                procs: procs,
                logs: Seq::empty(),
            },
        ),
    decreases lines.len() - pos,
{
    if pos == lines.len() {
    } else {
        lemma_literal_run_to_eof(lines, pos + 1, procs, env, incs, depth);
        assert(is_literal(lines[pos].content));
    }
}

/// Rendering a run of literal lines closed by an `end`, inside any open block,
/// passes exactly those lines through and consumes the `end`.
pub proof fn lemma_literal_run_to_end(
    lines: Seq<LineModel>,
    pos: int,
    k: int,
    ctx: Seq<OpenBlockModel>,
    procs: Map<Seq<char>, Seq<char>>,
    env: Map<Seq<char>, Seq<char>>,
    incs: Map<Seq<char>, Seq<char>>,
    depth: nat,
)
    requires
        0 <= pos <= k < lines.len(),
        forall|m: int| pos <= m < k ==> is_literal(#[trigger] lines[m].content),
        lines[k].content == LineContentModel::Macro(MacroModel::End),
        ctx.len() > 0,
        is_opener(ctx.last().mac),
    ensures
        render_spec(lines, pos, ctx, Seq::empty(), procs, env, incs, depth) == RenderOutcome::Done(
            RenderDone {
                out: literal_upto(lines, pos, k),
                pos: k + 1,
                term: TerminatorModel::End,
                procs: procs,
                logs: Seq::empty(),
            },
        ),
    decreases k - pos,
{
    if pos == k {
    } else {
        lemma_literal_run_to_end(lines, pos + 1, k, ctx, procs, env, incs, depth);
        assert(is_literal(lines[pos].content));
    }
}

/// Rendering a run of literal lines closed by an `else`, inside an open
/// conditional, passes exactly those lines through and consumes the `else`.
pub proof fn lemma_literal_run_to_else(
    lines: Seq<LineModel>,
    pos: int,
    k: int,
    ctx: Seq<OpenBlockModel>,
    procs: Map<Seq<char>, Seq<char>>,
    env: Map<Seq<char>, Seq<char>>,
    incs: Map<Seq<char>, Seq<char>>,
    depth: nat,
)
    requires
        0 <= pos <= k < lines.len(),
        forall|m: int| pos <= m < k ==> is_literal(#[trigger] lines[m].content),
        lines[k].content == LineContentModel::Macro(MacroModel::Else),
        ctx.len() > 0,
        is_cond_opener(ctx.last().mac),
    ensures
        render_spec(lines, pos, ctx, Seq::empty(), procs, env, incs, depth) == RenderOutcome::Done(
            RenderDone {
                out: literal_upto(lines, pos, k),
                pos: k + 1,
                term: TerminatorModel::Else(loc_of(lines[k])),
                procs: procs,
                logs: Seq::empty(),
            },
        ),
    decreases k - pos,
{
    if pos == k {
    } else {
        lemma_literal_run_to_else(lines, pos + 1, k, ctx, procs, env, incs, depth);
        assert(is_literal(lines[pos].content));
    }
}

/// A file in which every line classifies to a command or a blank.
pub open spec fn directive_free(raw: Seq<Seq<char>>) -> bool {
    forall|j: int| 0 <= j < raw.len() ==> match #[trigger] classify_spec(raw[j]) {
        Ok(c) => is_literal(c),
        Err(_) => false,
    }
}

/// The text such a file's lines pass through, in order.
pub open spec fn passthrough_text(raw: Seq<Seq<char>>, j: int) -> Seq<char>
    decreases raw.len() - j when 0 <= j <= raw.len()
{
    if j >= raw.len() {
        Seq::empty()
    } else {
        match classify_spec(raw[j]) {
            Ok(c) => match c {
                LineContentModel::Command(t) => t + "\n"@ + passthrough_text(raw, j + 1),
                _ => passthrough_text(raw, j + 1),
            },
            Err(_) => passthrough_text(raw, j + 1),
        }
    }
}

/// The models a fully classified file yields.
pub open spec fn classified_models(file: Seq<char>, raw: Seq<Seq<char>>) -> Seq<LineModel> {
    Seq::new(
        raw.len(),
        |j: int| LineModel { file: file, line: j as u32, content: classify_spec(raw[j])->Ok_0 },
    )
}

/// The literal text of classified models is the passthrough text of the raw
/// lines they came from.
proof fn lemma_literal_upto_passthrough(file: Seq<char>, raw: Seq<Seq<char>>, j: int)
    requires
        0 <= j <= raw.len(),
        directive_free(raw),
    ensures
        literal_upto(classified_models(file, raw), j, raw.len() as int) == passthrough_text(raw, j),
    decreases raw.len() - j,
{
    if j < raw.len() {
        lemma_literal_upto_passthrough(file, raw, j + 1);
    }
}

/// LAW (identity passthrough). A file with no directives transpiles without
/// error to exactly the fixed prelude followed by its lines verbatim (apart
/// from the leading-whitespace trim classification performs), and produces no
/// diagnostics, whatever the environment and the spliceable contents.
pub proof fn lemma_directive_free_passthrough(
    file: Seq<char>,
    raw: Seq<Seq<char>>,
    env: Map<Seq<char>, Seq<char>>,
    incs: Map<Seq<char>, Seq<char>>,
)
    requires
        raw.len() <= u32::MAX,
        directive_free(raw),
    ensures
        parse_spec(file, raw, env, incs) == Ok::<(Seq<char>, Seq<LogModel>), ErrorModel>(
            (prelude_spec() + passthrough_text(raw, 0), Seq::empty()),
        ),
{
    let models = classified_models(file, raw);
    crate::parser::lemma_classify_all_ok(file, raw, models, 0);
    assert(forall|m: int| 0 <= m < models.len() ==> is_literal(#[trigger] models[m].content));
    lemma_literal_run_to_eof(models, 0, Map::empty(), env, incs, 0);
    lemma_literal_upto_passthrough(file, raw, 0);
}

/// Prepending no diagnostics changes nothing.
proof fn lemma_prelogs_empty(r: RenderOutcome)
    ensures
        prelogs(Seq::empty(), r) == r,
{
    match r {
        RenderOutcome::Done(d) => {
            assert(Seq::<LogModel>::empty() + d.logs =~= d.logs);
        },
        RenderOutcome::Fail(_) => {},
    }
}

/// LAW (procedure expansion). A `call` of a procedure the table holds splices
/// exactly the table's rendered body for it at the call site, whatever else
/// surrounds the call.
pub proof fn lemma_call_known(
    lines: Seq<LineModel>,
    pos: int,
    ctx: Seq<OpenBlockModel>,
    pend: Seq<OpenBlockModel>,
    procs: Map<Seq<char>, Seq<char>>,
    env: Map<Seq<char>, Seq<char>>,
    incs: Map<Seq<char>, Seq<char>>,
    depth: nat,
    p: Seq<char>,
)
    requires
        0 <= pos < lines.len(),
        lines[pos].content == LineContentModel::Macro(MacroModel::Call(p)),
        procs.contains_key(p),
    ensures
        render_spec(lines, pos, ctx, pend, procs, env, incs, depth) == prepend(
            procs[p],
            render_spec(lines, pos + 1, ctx, pend, procs, env, incs, depth),
        ),
{
}

/// LAW (unknown procedure). A `call` of a name the table does not hold fails
/// with `UnknownProc`, naming that name, at the call's own position.
pub proof fn lemma_call_unknown(
    lines: Seq<LineModel>,
    pos: int,
    ctx: Seq<OpenBlockModel>,
    pend: Seq<OpenBlockModel>,
    procs: Map<Seq<char>, Seq<char>>,
    env: Map<Seq<char>, Seq<char>>,
    incs: Map<Seq<char>, Seq<char>>,
    depth: nat,
    p: Seq<char>,
)
    requires
        0 <= pos < lines.len(),
        lines[pos].content == LineContentModel::Macro(MacroModel::Call(p)),
        !procs.contains_key(p),
    ensures
        render_spec(lines, pos, ctx, pend, procs, env, incs, depth) == RenderOutcome::Fail(
            ErrorModel { location: loc_of(lines[pos]), kind: ErrorKindModel::UnknownProc(p) },
        ),
{
}

/// LAW (procedure definition and use). A `proc` block over literal lines,
/// closed by `end` and followed by a `call` of the same name, contributes
/// nothing at the definition and reproduces the rendered body exactly at the
/// call site; the rest of the file continues with the body stored in the
/// table.
pub proof fn lemma_proc_call_expansion(
    lines: Seq<LineModel>,
    pos: int,
    k: int,
    procs: Map<Seq<char>, Seq<char>>,
    env: Map<Seq<char>, Seq<char>>,
    incs: Map<Seq<char>, Seq<char>>,
    depth: nat,
    p: Seq<char>,
)
    requires
        0 <= pos,
        pos + 1 <= k,
        k + 1 < lines.len(),
        lines[pos].content == LineContentModel::Macro(MacroModel::Proc(p)),
        forall|m: int| pos + 1 <= m < k ==> is_literal(#[trigger] lines[m].content),
        lines[k].content == LineContentModel::Macro(MacroModel::End),
        lines[k + 1].content == LineContentModel::Macro(MacroModel::Call(p)),
    ensures
        render_spec(lines, pos, Seq::empty(), Seq::empty(), procs, env, incs, depth) == prepend(
            literal_upto(lines, pos + 1, k),
            render_spec(
                lines,
                k + 2,
                Seq::empty(),
                Seq::empty(),
                procs.insert(p, literal_upto(lines, pos + 1, k)),
                env,
                incs,
                depth,
            ),
        ),
{
    let opener = OpenBlockModel {
        mac: MacroModel::Proc(p),
        loc: loc_of(lines[pos]),
    };
    let body = literal_upto(lines, pos + 1, k);
    let ectx = Seq::<OpenBlockModel>::empty();
    assert(ectx + ectx + seq![opener] =~= seq![opener]);
    lemma_literal_run_to_end(lines, pos + 1, k, seq![opener], procs, env, incs, depth + 1);
    let procs2 = procs.insert(p, body);
    assert(clamp(k + 1, pos + 1, lines.len() as int) == k + 1);
    let cont = render_spec(lines, k + 1, ectx, ectx, procs2, env, incs, depth);
    assert(render_spec(lines, pos, ectx, ectx, procs, env, incs, depth) == prelogs(
        Seq::empty(),
        cont,
    ));
    lemma_prelogs_empty(cont);
    assert(procs2.contains_key(p));
    assert(procs2[p] == body);
    assert(cont == prepend(body, render_spec(lines, k + 2, ectx, ectx, procs2, env, incs, depth)));
}

/// LAW (conditional block shape, and the absent `else`). An `if c` / `then` /
/// literal lines / `end` block renders as: the latch header (flag creation,
/// flag zeroing, one combined evaluation command), then the block with every
/// line prefixed by the positive guard on the depth- and line-scoped flag,
/// then the negated-guard block — empty here, not an error, since no `else`
/// appeared — and the rest of the file continues unchanged after the `end`.
pub proof fn lemma_if_block_rendering(
    lines: Seq<LineModel>,
    pos: int,
    k: int,
    procs: Map<Seq<char>, Seq<char>>,
    env: Map<Seq<char>, Seq<char>>,
    incs: Map<Seq<char>, Seq<char>>,
    depth: nat,
    c: Seq<char>,
)
    requires
        0 <= pos,
        pos + 2 <= k,
        k < lines.len(),
        lines[pos].content == LineContentModel::Macro(MacroModel::If(c)),
        lines[pos + 1].content == LineContentModel::Macro(MacroModel::Then),
        forall|m: int| pos + 2 <= m < k ==> is_literal(#[trigger] lines[m].content),
        lines[k].content == LineContentModel::Macro(MacroModel::End),
    ensures
        ({
            let opener = OpenBlockModel { mac: MacroModel::If(c), loc: loc_of(lines[pos]) };
            let flag = flag_name(depth, lines[pos + 1].line);
            render_spec(lines, pos, Seq::empty(), Seq::empty(), procs, env, incs, depth)
                == prepend(
                latch_header(seq![opener], flag) + prefix_lines(
                    guard_prefix(flag),
                    literal_upto(lines, pos + 2, k),
                ) + prefix_lines(unless_prefix(flag), Seq::empty()),
                render_spec(lines, k + 1, Seq::empty(), Seq::empty(), procs, env, incs, depth),
            )
        }),
        prefix_lines(unless_prefix(flag_name(depth, lines[pos + 1].line)), Seq::empty())
            == Seq::<char>::empty(),
{
    let opener = OpenBlockModel { mac: MacroModel::If(c), loc: loc_of(lines[pos]) };
    let flag = flag_name(depth, lines[pos + 1].line);
    let ectx = Seq::<OpenBlockModel>::empty();
    let pend1 = ectx.push(opener);
    assert(pend1 =~= seq![opener]);
    assert(render_spec(lines, pos, ectx, ectx, procs, env, incs, depth) == render_spec(
        lines,
        pos + 1,
        ectx,
        pend1,
        procs,
        env,
        incs,
        depth,
    ));
    // The `then` at pos + 1: positive branch over the literal run to `end`.
    assert(ectx + pend1 =~= pend1);
    lemma_literal_run_to_end(lines, pos + 2, k, pend1, procs, env, incs, depth + 1);
    let c1 = RenderDone {
        out: literal_upto(lines, pos + 2, k),
        pos: k + 1,
        term: TerminatorModel::End,
        procs: procs,
        logs: Seq::empty(),
    };
    let c2 = RenderDone {
        out: Seq::empty(),
        pos: k + 1,
        term: TerminatorModel::End,
        procs: procs,
        logs: Seq::empty(),
    };
    assert(render_spec(lines, pos + 1, ectx, pend1, procs, env, incs, depth) == then_join(
        lines,
        pos + 1,
        ectx,
        pend1,
        env,
        incs,
        depth,
        c1,
        c2,
    ));
    assert(clamp(k + 1, pos + 2, lines.len() as int) == k + 1);
    let rest = render_spec(lines, k + 1, ectx, ectx, procs, env, incs, depth);
    assert(pend1.last() == opener);
    assert(then_join(lines, pos + 1, ectx, pend1, env, incs, depth, c1, c2) == then_join_latch(
        pend1,
        depth,
        lines[pos + 1].line,
        c1,
        c2,
        rest,
    ));
    assert(Seq::<LogModel>::empty() + Seq::<LogModel>::empty() =~= Seq::<LogModel>::empty());
    lemma_prelogs_empty(rest);
    // The empty negated-guard block renders as no lines at all.
    assert(split_lines(Seq::<char>::empty()) == Seq::<Seq<char>>::empty());
    assert(glue_prefixed(unless_prefix(flag), Seq::<Seq<char>>::empty()) == Seq::<char>::empty());
}

/// LAW (build-time branch selection). A `when x v` / `then` / literal lines /
/// `else` / literal lines / `end` block renders as exactly the first run when
/// the environment binds `x` to `v`, and exactly the second when it does not
/// (in particular when `x` is unbound); nothing of the unselected branch
/// reaches the output, and the rest of the file continues unchanged.
pub proof fn lemma_when_branch_selection(
    lines: Seq<LineModel>,
    pos: int,
    k1: int,
    k2: int,
    procs: Map<Seq<char>, Seq<char>>,
    env: Map<Seq<char>, Seq<char>>,
    incs: Map<Seq<char>, Seq<char>>,
    depth: nat,
    x: Seq<char>,
    v: Seq<char>,
)
    requires
        0 <= pos,
        pos + 2 <= k1,
        k1 < k2,
        k2 < lines.len(),
        lines[pos].content == LineContentModel::Macro(MacroModel::When(x, v)),
        lines[pos + 1].content == LineContentModel::Macro(MacroModel::Then),
        forall|m: int| pos + 2 <= m < k1 ==> is_literal(#[trigger] lines[m].content),
        lines[k1].content == LineContentModel::Macro(MacroModel::Else),
        forall|m: int| k1 + 1 <= m < k2 ==> is_literal(#[trigger] lines[m].content),
        lines[k2].content == LineContentModel::Macro(MacroModel::End),
    ensures
        render_spec(lines, pos, Seq::empty(), Seq::empty(), procs, env, incs, depth) == prepend(
            if env.contains_key(x) && env[x] == v {
                literal_upto(lines, pos + 2, k1)
            } else {
                literal_upto(lines, k1 + 1, k2)
            },
            render_spec(lines, k2 + 1, Seq::empty(), Seq::empty(), procs, env, incs, depth),
        ),
{
    let opener = OpenBlockModel { mac: MacroModel::When(x, v), loc: loc_of(lines[pos]) };
    let ectx = Seq::<OpenBlockModel>::empty();
    let pend1 = ectx.push(opener);
    assert(pend1 =~= seq![opener]);
    assert(render_spec(lines, pos, ectx, ectx, procs, env, incs, depth) == render_spec(
        lines,
        pos + 1,
        ectx,
        pend1,
        procs,
        env,
        incs,
        depth,
    ));
    assert(ectx + pend1 =~= pend1);
    assert(is_cond_opener(pend1.last().mac));
    lemma_literal_run_to_else(lines, pos + 2, k1, pend1, procs, env, incs, depth + 1);
    let c1 = RenderDone {
        out: literal_upto(lines, pos + 2, k1),
        pos: k1 + 1,
        term: TerminatorModel::Else(loc_of(lines[k1])),
        procs: procs,
        logs: Seq::empty(),
    };
    assert(clamp(k1 + 1, pos + 2, lines.len() as int) == k1 + 1);
    lemma_literal_run_to_end(lines, k1 + 1, k2, pend1, procs, env, incs, depth + 1);
    let c2 = RenderDone {
        out: literal_upto(lines, k1 + 1, k2),
        pos: k2 + 1,
        term: TerminatorModel::End,
        procs: procs,
        logs: Seq::empty(),
    };
    assert(render_spec(lines, pos + 1, ectx, pend1, procs, env, incs, depth) == then_join(
        lines,
        pos + 1,
        ectx,
        pend1,
        env,
        incs,
        depth,
        c1,
        c2,
    ));
    assert(clamp(k2 + 1, pos + 2, lines.len() as int) == k2 + 1);
    let rest = render_spec(lines, k2 + 1, ectx, ectx, procs, env, incs, depth);
    assert(pend1.last() == opener);
    assert(Seq::<LogModel>::empty() + Seq::<LogModel>::empty() =~= Seq::<LogModel>::empty());
    lemma_prelogs_empty(rest);
}

/// Splitting a two-line text gives its two lines.
proof fn lemma_split_two_lines(a: Seq<char>, b: Seq<char>)
    requires
        forall|j: int| 0 <= j < a.len() ==> #[trigger] a[j] != '\n',
        forall|j: int| 0 <= j < b.len() ==> #[trigger] b[j] != '\n',
    ensures
        split_lines(a + "\n"@ + b + "\n"@) == seq![a, b],
{
    reveal_strlit("\n");
    let s = a + "\n"@ + b + "\n"@;
    let t = b + "\n"@;
    assert(s.len() == a.len() + b.len() + 2);
    assert forall|j: int| 0 <= j < a.len() implies #[trigger] s[j] != '\n' by {
        assert(s[j] == a[j]);
    }
    assert(s[a.len() as int] == '\n');
    crate::emit::lemma_find_newline_at(s, a.len() as int);
    assert(s.take(a.len() as int) =~= a);
    assert(s.skip(a.len() as int + 1) =~= t);
    assert forall|j: int| 0 <= j < b.len() implies #[trigger] t[j] != '\n' by {
        assert(t[j] == b[j]);
    }
    assert(t[b.len() as int] == '\n');
    crate::emit::lemma_find_newline_at(t, b.len() as int);
    assert(t.take(b.len() as int) =~= b);
    assert(t.skip(b.len() as int + 1) =~= Seq::<char>::empty());
    assert(split_lines(t) == seq![b] + split_lines(Seq::<char>::empty()));
    assert(seq![b] + Seq::<Seq<char>>::empty() =~= seq![b]);
    assert(split_lines(s) == seq![a] + split_lines(t));
    assert(seq![a] + seq![b] =~= seq![a, b]);
}

/// LAW (prefix wrapping). Re-emitting a two-line block under a prefix puts the
/// prefix, and nothing else, in front of each of the two lines.
pub proof fn lemma_prefix_two_lines(q: Seq<char>, a: Seq<char>, b: Seq<char>)
    requires
        forall|j: int| 0 <= j < a.len() ==> #[trigger] a[j] != '\n',
        forall|j: int| 0 <= j < b.len() ==> #[trigger] b[j] != '\n',
    ensures
        prefix_lines(q, a + "\n"@ + b + "\n"@) == q + a + "\n"@ + q + b + "\n"@,
{
    lemma_split_two_lines(a, b);
    let ls = seq![a, b];
    assert(ls.drop_first() =~= seq![b]);
    assert(seq![b].drop_first() =~= Seq::<Seq<char>>::empty());
    assert(glue_prefixed(q, Seq::<Seq<char>>::empty()) == Seq::<char>::empty());
    assert(glue_prefixed(q, seq![b]) == q + b + "\n"@ + Seq::<char>::empty());
    assert(glue_prefixed(q, ls) == q + a + "\n"@ + glue_prefixed(q, seq![b]));
    assert(q + a + "\n"@ + (q + b + "\n"@ + Seq::<char>::empty()) =~= q + a + "\n"@ + q + b
        + "\n"@);
}

/// LAW (shared prefix over a block). A `with q` block of two command lines
/// renders as those two lines, each prefixed with `q` and one space, and the
/// rest of the file continues unchanged after the `end`.
pub proof fn lemma_with_block_rendering(
    lines: Seq<LineModel>,
    pos: int,
    procs: Map<Seq<char>, Seq<char>>,
    env: Map<Seq<char>, Seq<char>>,
    incs: Map<Seq<char>, Seq<char>>,
    depth: nat,
    q: Seq<char>,
    a: Seq<char>,
    b: Seq<char>,
)
    requires
        0 <= pos,
        pos + 3 < lines.len(),
        lines[pos].content == LineContentModel::Macro(MacroModel::With(q)),
        lines[pos + 1].content == LineContentModel::Command(a),
        lines[pos + 2].content == LineContentModel::Command(b),
        lines[pos + 3].content == LineContentModel::Macro(MacroModel::End),
        forall|j: int| 0 <= j < a.len() ==> #[trigger] a[j] != '\n',
        forall|j: int| 0 <= j < b.len() ==> #[trigger] b[j] != '\n',
    ensures
        render_spec(lines, pos, Seq::empty(), Seq::empty(), procs, env, incs, depth) == prepend(
            q + " "@ + a + "\n"@ + (q + " "@) + b + "\n"@,
            render_spec(lines, pos + 4, Seq::empty(), Seq::empty(), procs, env, incs, depth),
        ),
{
    let opener = OpenBlockModel { mac: MacroModel::With(q), loc: loc_of(lines[pos]) };
    let ectx = Seq::<OpenBlockModel>::empty();
    assert(ectx + ectx + seq![opener] =~= seq![opener]);
    lemma_literal_run_to_end(lines, pos + 1, pos + 3, seq![opener], procs, env, incs, depth + 1);
    let body = literal_upto(lines, pos + 1, pos + 3);
    assert(literal_upto(lines, pos + 3, pos + 3) == Seq::<char>::empty());
    assert(body =~= a + "\n"@ + b + "\n"@) by {
        assert(literal_upto(lines, pos + 2, pos + 3) == b + "\n"@ + Seq::<char>::empty());
        assert(body == a + "\n"@ + literal_upto(lines, pos + 2, pos + 3));
    }
    lemma_prefix_two_lines(q + " "@, a, b);
    assert(clamp(pos + 4, pos + 1, lines.len() as int) == pos + 4);
    let rest = render_spec(lines, pos + 4, ectx, ectx, procs, env, incs, depth);
    lemma_prelogs_empty(rest);
    assert(prefix_lines(q + " "@, body) == q + " "@ + a + "\n"@ + (q + " "@) + b + "\n"@);
}

/// LAW (first error aborts the file). When line `i` is the first that fails to
/// classify, the whole file fails with exactly that error at exactly that
/// line, and no output is produced.
pub proof fn lemma_first_error_aborts(
    file: Seq<char>,
    raw: Seq<Seq<char>>,
    env: Map<Seq<char>, Seq<char>>,
    incs: Map<Seq<char>, Seq<char>>,
    i: int,
)
    requires
        0 <= i < raw.len(),
        forall|m: int| 0 <= m < i ==> ((#[trigger] classify_spec(raw[m])) is Ok),
        (classify_spec(raw[i]) is Err),
    ensures
        parse_spec(file, raw, env, incs) == Err::<(Seq<char>, Seq<LogModel>), ErrorModel>(
            ErrorModel {
                location: LocationModel { file: file, line: i as u32 },
                kind: classify_spec(raw[i])->Err_0,
            },
        ),
{
    crate::parser::lemma_classify_all_err(file, raw, 0, i);
}

/// LAW (misplaced `else`). An `else` with no open `if`, `ifn` or `when` —
/// either no open block at all, or an innermost one that an `else` cannot
/// split — fails with `UnexpectedMacro` at its own position.
pub proof fn lemma_else_unexpected(
    lines: Seq<LineModel>,
    pos: int,
    ctx: Seq<OpenBlockModel>,
    procs: Map<Seq<char>, Seq<char>>,
    env: Map<Seq<char>, Seq<char>>,
    incs: Map<Seq<char>, Seq<char>>,
    depth: nat,
)
    requires
        0 <= pos < lines.len(),
        lines[pos].content == LineContentModel::Macro(MacroModel::Else),
        ctx.len() == 0 || !is_cond_opener(ctx.last().mac),
    ensures
        render_spec(lines, pos, ctx, Seq::empty(), procs, env, incs, depth) == RenderOutcome::Fail(
            ErrorModel {
                location: loc_of(lines[pos]),
                kind: ErrorKindModel::UnexpectedMacro("else"@),
            },
        ),
{
}

} // verus!

