//! The line classifier and the per-file driver. A raw line is either blank, a
//! plain command, or a directive behind the fixed `#!` marker; the driver
//! classifies every line up front, prepends the fixed prelude and hands the
//! classified lines to the block renderer.

use vstd::prelude::*;
use vstd::string::StrSliceExecFns;
use vstd::string::StringExecFns;
use crate::errors::{Error, ErrorKind, ErrorKindModel, ErrorModel, Location, LocationModel};
use crate::lines::{block_views, line_views, log_views, Line, LineContent, LineContentModel,
    LineModel, Log, LogModel, OpenBlock, OpenBlockModel};
use crate::macros::{Macro, MacroModel};
use crate::render::{render_block, render_spec, RenderOutcome};
use crate::table::Table;
use crate::text::{find_space, is_space, is_space_char, tokens, trim_start};
use crate::text::{lemma_find_space_at, lemma_trim_start_skip, str_eq};

verus! {

/// What classifying the text after the marker yields: the parsed directive (or
/// the no-op), or the arity or recognition error. `name` is the directive name
/// token and `arg` the text after the first whitespace, when any followed.
pub open spec fn directive_spec(name: Seq<char>, arg: Option<Seq<char>>) -> Result<
    LineContentModel,
    ErrorKindModel,
> {
    if name == "!"@ {
        Ok(LineContentModel::Empty)
    } else if name == "call"@ {
        match arg {
            Some(a) => Ok(LineContentModel::Macro(MacroModel::Call(a))),
            None => Err(ErrorKindModel::MissingArgument(name)),
        }
    } else if name == "declare"@ {
        match arg {
            Some(a) => Ok(LineContentModel::Macro(MacroModel::Declare(a))),
            None => Err(ErrorKindModel::MissingArgument(name)),
        }
    } else if name == "delete"@ {
        match arg {
            Some(a) => Ok(LineContentModel::Macro(MacroModel::Delete(a))),
            None => Err(ErrorKindModel::MissingArgument(name)),
        }
    } else if name == "else"@ {
        match arg {
            Some(_) => Err(ErrorKindModel::UnexpectedArgument(name)),
            None => Ok(LineContentModel::Macro(MacroModel::Else)),
        }
    } else if name == "end"@ {
        match arg {
            Some(_) => Err(ErrorKindModel::UnexpectedArgument(name)),
            None => Ok(LineContentModel::Macro(MacroModel::End)),
        }
    } else if name == "if"@ {
        match arg {
            Some(a) => Ok(LineContentModel::Macro(MacroModel::If(a))),
            None => Err(ErrorKindModel::MissingArgument(name)),
        }
    } else if name == "ifn"@ {
        match arg {
            Some(a) => Ok(LineContentModel::Macro(MacroModel::Ifn(a))),
            None => Err(ErrorKindModel::MissingArgument(name)),
        }
    } else if name == "include"@ {
        match arg {
            Some(a) => Ok(LineContentModel::Macro(MacroModel::Include(a))),
            None => Err(ErrorKindModel::MissingArgument(name)),
        }
    } else if name == "log"@ {
        match arg {
            Some(a) => Ok(LineContentModel::Macro(MacroModel::Log(a))),
            None => Ok(LineContentModel::Macro(MacroModel::Log(Seq::empty()))),
        }
    } else if name == "proc"@ {
        match arg {
            Some(a) => Ok(LineContentModel::Macro(MacroModel::Proc(a))),
            None => Err(ErrorKindModel::MissingArgument(name)),
        }
    } else if name == "then"@ {
        match arg {
            Some(_) => Err(ErrorKindModel::UnexpectedArgument(name)),
            None => Ok(LineContentModel::Macro(MacroModel::Then)),
        }
    } else if name == "when"@ {
        match arg {
            Some(a) => {
                let ts = tokens(a);
                if ts.len() < 2 {
                    Err(ErrorKindModel::MissingArgument(name))
                } else if ts.len() == 2 {
                    Ok(LineContentModel::Macro(MacroModel::When(ts[0], ts[1])))
                } else {
                    Err(ErrorKindModel::UnexpectedArgument(ts[2]))
                }
            },
            None => Err(ErrorKindModel::MissingArgument(name)),
        }
    } else if name == "with"@ {
        match arg {
            Some(a) => Ok(LineContentModel::Macro(MacroModel::With(a))),
            None => Err(ErrorKindModel::MissingArgument(name)),
        }
    } else {
        Err(ErrorKindModel::UnknownMacro(name))
    }
}

/// What one raw source line classifies to. Leading whitespace is dropped; a
/// blank line is `Empty`; a line opening with the `#!` marker is a directive
/// (whitespace is allowed between the marker and the directive name, and the
/// name runs to the first whitespace, the rest being the argument text);
/// anything else is a command, kept verbatim apart from the leading trim.
pub open spec fn classify_spec(s: Seq<char>) -> Result<LineContentModel, ErrorKindModel> {
    let t = trim_start(s);
    if t.len() == 0 {
        Ok(LineContentModel::Empty)
    } else if t.len() >= 2 && t[0] == '#' && t[1] == '!' {
        let u = trim_start(t.skip(2));
        let k = find_space(u);
        let name = u.take(k);
        if k < u.len() {
            directive_spec(name, Some(u.skip(k + 1)))
        } else {
            directive_spec(name, None)
        }
    } else {
        Ok(LineContentModel::Command(t))
    }
}

/// The whitespace-separated tokens of `s` from index `i` on, as owned strings.
fn tokens_from(s: &str, i: usize) -> (r: Vec<String>)
    requires
        i <= s@.len(),
    ensures
        r@.map_values(|t: String| t@) =~= tokens(s@.skip(i as int)),
    decreases s@.len() - i,
{
    let n = s.unicode_len();
    if i == n {
        let r: Vec<String> = Vec::new();
        proof {
            assert(s@.skip(i as int) =~= Seq::<char>::empty());
        }
        return r;
    }
    let c = s.get_char(i);
    if is_space_char(c) {
        let r = tokens_from(s, i + 1);
        proof {
            assert(s@.skip(i as int).drop_first() =~= s@.skip(i + 1));
            assert(s@.skip(i as int)[0] == s@[i as int]);
        }
        r
    } else {
        let mut k: usize = i + 1;
        while k < n && !is_space_char(s.get_char(k))
            invariant
                n == s@.len(),
                i < k <= n,
                forall|j: int| i <= j < k ==> !is_space(#[trigger] s@[j]),
        decreases n - k,
        {
            k = k + 1;
        }
        proof {
            let u = s@.skip(i as int);
            assert forall|j: int| 0 <= j < k - i implies !is_space(#[trigger] u[j]) by {
                assert(u[j] == s@[i + j]);
            }
            if k < n {
                assert(u[k - i] == s@[k as int]);
            }
            lemma_find_space_at(u, k - i);
        }
        let tok = s.substring_char(i, k).to_owned();
        let rest = tokens_from(s, k);
        let mut r: Vec<String> = Vec::new();
        r.push(tok);
        let mut m: usize = 0;
        while m < rest.len()
            invariant
                m <= rest@.len(),
                r@.len() == 1 + m,
                r@[0]@ == s@.subrange(i as int, k as int),
                forall|j: int| 0 <= j < m ==> (#[trigger] r@[1 + j])@ == rest@[j]@,
            decreases rest@.len() - m,
        {
            r.push(rest[m].clone());
            m = m + 1;
        }
        proof {
            let u = s@.skip(i as int);
            assert(tokens(u) == seq![u.take(find_space(u))] + tokens(u.skip(find_space(u))));
            assert(u.take(k - i) =~= s@.subrange(i as int, k as int));
            assert(u.skip(k - i) =~= s@.skip(k as int));
            let target = tokens(u);
            let rv = r@.map_values(|t: String| t@);
            let restv = rest@.map_values(|t: String| t@);
            assert(restv.len() == rest@.len());
            assert forall|j: int| 0 <= j < r@.len() implies #[trigger] rv[j] == target[j] by {
                assert(rv[j] == r@[j]@);
                if j == 0 {
                    assert(target[0] == u.take(find_space(u)));
                } else {
                    assert(r@[1 + (j - 1)]@ == rest@[j - 1]@);
                    assert(target[j] == tokens(u.skip(find_space(u)))[j - 1]);
                    assert(restv[j - 1] == rest@[j - 1]@);
                    assert(restv[j - 1] == tokens(s@.skip(k as int))[j - 1]);
                }
            }
            assert(rv.len() == target.len());
        }
        r
    }
}

/// Classify one raw source line, as `classify_spec` says.
pub fn classify_line(s: &str) -> (r: Result<LineContent, ErrorKind>)
    ensures
        match r {
            Ok(c) => classify_spec(s@) == Ok::<LineContentModel, ErrorKindModel>(c@),
            Err(e) => classify_spec(s@) == Err::<LineContentModel, ErrorKindModel>(e@),
        },
{
    let n = s.unicode_len();
    let mut i: usize = 0;
    while i < n && is_space_char(s.get_char(i))
        invariant
            n == s@.len(),
            i <= n,
            forall|j: int| 0 <= j < i ==> is_space(#[trigger] s@[j]),
        decreases n - i,
    {
        i = i + 1;
    }
    proof {
        lemma_trim_start_skip(s@, i as int);
    }
    let t = s.substring_char(i, n);
    let tn = n - i;
    proof {
        assert(t@ =~= trim_start(s@));
    }
    if tn == 0 {
        return Ok(LineContent::Empty);
    }
    if !(tn >= 2 && t.get_char(0) == '#' && t.get_char(1) == '!') {
        return Ok(LineContent::Command(t.to_owned()));
    }
    let rest = t.substring_char(2, tn);
    let rn = tn - 2;
    let mut b: usize = 0;
    while b < rn && is_space_char(rest.get_char(b))
        invariant
            rn == rest@.len(),
            b <= rn,
            forall|j: int| 0 <= j < b ==> is_space(#[trigger] rest@[j]),
        decreases rn - b,
    {
        b = b + 1;
    }
    proof {
        lemma_trim_start_skip(rest@, b as int);
        assert(rest@ =~= t@.skip(2));
    }
    let u = rest.substring_char(b, rn);
    let un = rn - b;
    proof {
        assert(u@ =~= trim_start(t@.skip(2)));
    }
    let mut k: usize = 0;
    while k < un && !is_space_char(u.get_char(k))
        invariant
            un == u@.len(),
            k <= un,
            forall|j: int| 0 <= j < k ==> !is_space(#[trigger] u@[j]),
        decreases un - k,
    {
        k = k + 1;
    }
    proof {
        lemma_find_space_at(u@, k as int);
    }
    let name = u.substring_char(0, k);
    proof {
        assert(name@ =~= u@.take(k as int));
    }
    if k < un {
        let arg = u.substring_char(k + 1, un);
        proof {
            assert(arg@ =~= u@.skip(k + 1));
        }
        directive_line(name, Some(arg))
    } else {
        directive_line(name, None)
    }
}

/// Parse a directive from its name token and optional argument text, as
/// `directive_spec` says.
fn directive_line(name: &str, arg: Option<&str>) -> (r: Result<LineContent, ErrorKind>)
    ensures
        ({
            let spec_arg = match arg {
                Some(a) => Some(a@),
                None => None::<Seq<char>>,
            };
            match r {
                Ok(c) => directive_spec(name@, spec_arg) == Ok::<LineContentModel, ErrorKindModel>(
                    c@,
                ),
                Err(e) => directive_spec(name@, spec_arg) == Err::<
                    LineContentModel,
                    ErrorKindModel,
                >(e@),
            }
        }),
{
    if str_eq(name, "!") {
        Ok(LineContent::Empty)
    } else if str_eq(name, "call") {
        match arg {
            Some(a) => Ok(LineContent::Macro(Macro::Call(a.to_owned()))),
            None => Err(ErrorKind::MissingArgument(name.to_owned())),
        }
    } else if str_eq(name, "declare") {
        match arg {
            Some(a) => Ok(LineContent::Macro(Macro::Declare(a.to_owned()))),
            None => Err(ErrorKind::MissingArgument(name.to_owned())),
        }
    } else if str_eq(name, "delete") {
        match arg {
            Some(a) => Ok(LineContent::Macro(Macro::Delete(a.to_owned()))),
            None => Err(ErrorKind::MissingArgument(name.to_owned())),
        }
    } else if str_eq(name, "else") {
        match arg {
            Some(_) => Err(ErrorKind::UnexpectedArgument(name.to_owned())),
            None => Ok(LineContent::Macro(Macro::Else)),
        }
    } else if str_eq(name, "end") {
        match arg {
            Some(_) => Err(ErrorKind::UnexpectedArgument(name.to_owned())),
            None => Ok(LineContent::Macro(Macro::End)),
        }
    } else if str_eq(name, "if") {
        match arg {
            Some(a) => Ok(LineContent::Macro(Macro::If(a.to_owned()))),
            None => Err(ErrorKind::MissingArgument(name.to_owned())),
        }
    } else if str_eq(name, "ifn") {
        match arg {
            Some(a) => Ok(LineContent::Macro(Macro::Ifn(a.to_owned()))),
            None => Err(ErrorKind::MissingArgument(name.to_owned())),
        }
    } else if str_eq(name, "include") {
        match arg {
            Some(a) => Ok(LineContent::Macro(Macro::Include(a.to_owned()))),
            None => Err(ErrorKind::MissingArgument(name.to_owned())),
        }
    } else if str_eq(name, "log") {
        match arg {
            Some(a) => Ok(LineContent::Macro(Macro::Log(a.to_owned()))),
            None => Ok(LineContent::Macro(Macro::Log(String::new()))),
        }
    } else if str_eq(name, "proc") {
        match arg {
            Some(a) => Ok(LineContent::Macro(Macro::Proc(a.to_owned()))),
            None => Err(ErrorKind::MissingArgument(name.to_owned())),
        }
    } else if str_eq(name, "then") {
        match arg {
            Some(_) => Err(ErrorKind::UnexpectedArgument(name.to_owned())),
            None => Ok(LineContent::Macro(Macro::Then)),
        }
    } else if str_eq(name, "when") {
        match arg {
            Some(a) => {
                let ts = tokens_from(a, 0);
                proof {
                    assert(a@.skip(0) =~= a@);
                }
                if ts.len() < 2 {
                    Err(ErrorKind::MissingArgument(name.to_owned()))
                } else if ts.len() == 2 {
                    let second = ts[1].clone();
                    let first = ts[0].clone();
                    proof {
                        assert(ts@.map_values(|t: String| t@)[0] == ts@[0]@);
                        assert(ts@.map_values(|t: String| t@)[1] == ts@[1]@);
                    }
                    Ok(LineContent::Macro(Macro::When(first, second)))
                } else {
                    proof {
                        assert(ts@.map_values(|t: String| t@)[2] == ts@[2]@);
                    }
                    Err(ErrorKind::UnexpectedArgument(ts[2].clone()))
                }
            },
            None => Err(ErrorKind::MissingArgument(name.to_owned())),
        }
    } else if str_eq(name, "with") {
        match arg {
            Some(a) => Ok(LineContent::Macro(Macro::With(a.to_owned()))),
            None => Err(ErrorKind::MissingArgument(name.to_owned())),
        }
    } else {
        Err(ErrorKind::UnknownMacro(name.to_owned()))
    }
}

/// The views of a sequence of raw lines.
pub open spec fn str_views(s: Seq<String>) -> Seq<Seq<char>> {
    s.map_values(|l: String| l@)
}

/// The fixed prelude every generated script opens with: it creates the
/// reserved counter the latch commands write their flags under.
pub open spec fn prelude_spec() -> Seq<char> {
    "scoreboard objectives add __mcfn_internal dummy\n"@
}

/// Executable twin of `prelude_spec`.
pub fn prelude() -> (r: String)
    ensures
        r@ == prelude_spec(),
{
    "scoreboard objectives add __mcfn_internal dummy\n".to_owned()
}

/// The classified lines from index `j` on, or the first classification error,
/// with its 0-based line number.
pub open spec fn classify_all(file: Seq<char>, raw: Seq<Seq<char>>, j: int) -> Result<
    Seq<LineModel>,
    ErrorModel,
>
    decreases raw.len() - j when 0 <= j <= raw.len()
{
    if j == raw.len() {
        Ok(Seq::empty())
    } else {
        match classify_spec(raw[j]) {
            Err(k) => Err(
                ErrorModel { location: LocationModel { file: file, line: j as u32 }, kind: k },
            ),
            Ok(c) => match classify_all(file, raw, j + 1) {
                Err(e) => Err(e),
                Ok(rest) => Ok(seq![LineModel { file: file, line: j as u32, content: c }] + rest),
            },
        }
    }
}

/// When every line from `j` on classifies, `classify_all` returns exactly the
/// line models built from those classifications.
pub proof fn lemma_classify_all_ok(file: Seq<char>, raw: Seq<Seq<char>>, models: Seq<LineModel>, j: int)
    requires
        0 <= j <= raw.len(),
        raw.len() <= u32::MAX,
        models.len() == raw.len() - j,
        forall|m: int| j <= m < raw.len() ==> (#[trigger] classify_spec(raw[m])) is Ok,
        forall|m: int| j <= m < raw.len() ==> #[trigger] models[m - j] == (LineModel {
            file: file,
            line: m as u32,
            content: classify_spec(raw[m])->Ok_0,
        }),
    ensures
        classify_all(file, raw, j) == Ok::<Seq<LineModel>, ErrorModel>(models),
    decreases raw.len() - j,
{
    if j == raw.len() {
        assert(models =~= Seq::<LineModel>::empty());
    } else {
        assert forall|m: int| j + 1 <= m < raw.len() implies #[trigger] models.drop_first()[m - (j
            + 1)] == (LineModel {
            file: file,
            line: m as u32,
            content: classify_spec(raw[m])->Ok_0,
        }) by {
            assert(models.drop_first()[m - j - 1] == models[m - j]);
        }
        lemma_classify_all_ok(file, raw, models.drop_first(), j + 1);
        assert(models[j - j] == (LineModel {
            file: file,
            line: j as u32,
            content: classify_spec(raw[j])->Ok_0,
        }));
        assert(models =~= seq![models[0]] + models.drop_first());
    }
}

/// When line `i` is the first that fails to classify, `classify_all` returns
/// exactly that error at that line.
pub proof fn lemma_classify_all_err(file: Seq<char>, raw: Seq<Seq<char>>, j: int, i: int)
    requires
        0 <= j <= i < raw.len(),
        forall|m: int| j <= m < i ==> ((#[trigger] classify_spec(raw[m])) is Ok),
        (classify_spec(raw[i]) is Err),
    ensures
        classify_all(file, raw, j) == Err::<Seq<LineModel>, ErrorModel>(
            ErrorModel {
                location: LocationModel { file: file, line: i as u32 },
                kind: classify_spec(raw[i])->Err_0,
            },
        ),
    decreases i - j,
{
    if j < i {
        lemma_classify_all_err(file, raw, j + 1, i);
    }
}

/// One rendered file: the generated text and the side-channel diagnostics the
/// `log` directives produced, in order.
pub struct Rendered {
    pub text: String,
    pub logs: Vec<Log>,
}

/// What transpiling one file yields: the generated text (prelude first) and
/// the diagnostics, or the first error. `file` is the file's name as carried
/// into positions; `raw` its lines; `env` the build-time environment; `incs`
/// the contents available for splicing, keyed by the path text as it stands in
/// the directive.
pub open spec fn parse_spec(
    file: Seq<char>,
    raw: Seq<Seq<char>>,
    env: Map<Seq<char>, Seq<char>>,
    incs: Map<Seq<char>, Seq<char>>,
) -> Result<(Seq<char>, Seq<LogModel>), ErrorModel> {
    match classify_all(file, raw, 0) {
        Err(e) => Err(e),
        Ok(models) => match render_spec(
            models,
            0,
            Seq::empty(),
            Seq::empty(),
            Map::empty(),
            env,
            incs,
            0,
        ) {
            RenderOutcome::Fail(e) => Err(e),
            RenderOutcome::Done(d) => Ok((prelude_spec() + d.out, d.logs)),
        },
    }
}

/// Transpile one file, exactly as `parse_spec` says: classify every line up
/// front (the first failure aborts the file, and nothing is emitted), then
/// render once from the top with everything empty, behind the fixed prelude.
pub fn parse_file(file: &String, raw: &Vec<String>, env: &Table, incs: &Table) -> (r: Result<
    Rendered,
    Error,
>)
    requires
        raw@.len() <= u32::MAX,
    ensures
        match r {
            Ok(res) => parse_spec(file@, str_views(raw@), env@, incs@) == Ok::<
                (Seq<char>, Seq<LogModel>),
                ErrorModel,
            >((res.text@, log_views(res.logs@))),
            Err(e) => parse_spec(file@, str_views(raw@), env@, incs@) == Err::<
                (Seq<char>, Seq<LogModel>),
                ErrorModel,
            >(e@),
        },
{
    let ghost rv = str_views(raw@);
    let n = raw.len();
    let mut classified: Vec<Line> = Vec::new();
    let mut i: usize = 0;
    while i < n
        invariant
            i <= n,
            n == raw@.len() <= u32::MAX,
            rv == str_views(raw@),
            classified@.len() == i,
            forall|j: int| 0 <= j < i ==> (#[trigger] classify_spec(rv[j])) is Ok,
            forall|j: int| 0 <= j < i ==> (#[trigger] classified@[j])@ == (LineModel {
                file: file@,
                line: j as u32,
                content: classify_spec(rv[j])->Ok_0,
            }),
        decreases n - i,
    {
        proof {
            assert(rv[i as int] == raw@[i as int]@);
        }
        match classify_line(raw[i].as_str()) {
            Err(k) => {
                proof {
                    lemma_classify_all_err(file@, rv, 0, i as int);
                }
                return Err(
                    Error { location: Location { file: file.clone(), line: i as u32 }, kind: k },
                );
            },
            Ok(c) => {
                classified.push(Line { file: file.clone(), line: i as u32, content: c });
            },
        }
        i = i + 1;
    }
    proof {
        lemma_classify_all_ok(file@, rv, line_views(classified@), 0);
    }
    let mut procs = Table::new();
    let mut logs: Vec<Log> = Vec::new();
    let empty_ctx: Vec<OpenBlock> = Vec::new();
    let empty_pend: Vec<OpenBlock> = Vec::new();
    proof {
        assert(block_views(empty_ctx@) =~= Seq::<OpenBlockModel>::empty());
        assert(block_views(empty_pend@) =~= Seq::<OpenBlockModel>::empty());
        assert(log_views(logs@) =~= Seq::<LogModel>::empty());
    }
    let rr = render_block(
        &classified, 0, &empty_ctx, empty_pend, &mut procs, env, incs, 0, &mut logs,
    );
    match rr {
        Err(e) => Err(e),
        Ok((out, _np, _term)) => {
            let mut text = prelude();
            text.append(out.as_str());
            proof {
                let d = render_spec(
                    line_views(classified@),
                    0,
                    Seq::empty(),
                    Seq::empty(),
                    Map::empty(),
                    env@,
                    incs@,
                    0,
                )->Done_0;
                assert(text@ =~= prelude_spec() + d.out);
                assert(log_views(logs@) =~= d.logs);
            }
            Ok(Rendered { text, logs })
        },
    }
}

/// The paths every `include` directive of the file names, in order. A caller
/// that owns the storage reads each of them (relative to the including file's
/// directory) and hands the contents to `parse_file`.
pub open spec fn include_paths_spec(raw: Seq<Seq<char>>) -> Seq<Seq<char>>
    decreases raw.len(),
{
    if raw.len() == 0 {
        Seq::empty()
    } else {
        let rest = include_paths_spec(raw.drop_last());
        match classify_spec(raw.last()) {
            Ok(c) => match c {
                LineContentModel::Macro(m) => match m {
                    MacroModel::Include(p) => rest.push(p),
                    _ => rest,
                },
                _ => rest,
            },
            Err(_) => rest,
        }
    }
}

/// Executable twin of `include_paths_spec`.
pub fn include_paths(raw: &Vec<String>) -> (r: Vec<String>)
    ensures
        r@.map_values(|p: String| p@) == include_paths_spec(str_views(raw@)),
{
    let ghost rv = str_views(raw@);
    let mut r: Vec<String> = Vec::new();
    let mut i: usize = 0;
    while i < raw.len()
        invariant
            i <= raw@.len(),
            rv == str_views(raw@),
            r@.map_values(|p: String| p@) =~= include_paths_spec(rv.take(i as int)),
        decreases raw@.len() - i,
    {
        proof {
            assert(rv.take(i + 1).drop_last() =~= rv.take(i as int));
            assert(rv.take(i + 1).last() == rv[i as int]);
            assert(rv[i as int] == raw@[i as int]@);
        }
        let ghost before = r@;
        match classify_line(raw[i].as_str()) {
            Ok(LineContent::Macro(Macro::Include(p))) => {
                r.push(p);
                proof {
                    let f = |p: String| p@;
                    assert forall|j: int| 0 <= j < r@.len() implies #[trigger] r@.map_values(f)[j]
                        == include_paths_spec(rv.take(i + 1))[j] by {
                        assert(r@.map_values(f)[j] == r@[j]@);
                        if j < before.len() {
                            assert(r@[j] == before[j]);
                            assert(before.map_values(f)[j] == before[j]@);
                        }
                    }
                    assert(r@.map_values(f) =~= include_paths_spec(rv.take(i + 1)));
                }
            },
            _ => {
                proof {
                    assert(r@.map_values(|p: String| p@) =~= include_paths_spec(rv.take(i + 1)));
                }
            },
        }
        i = i + 1;
    }
    proof {
        assert(rv.take(raw@.len() as int) =~= rv);
    }
    r
}

} // verus!
