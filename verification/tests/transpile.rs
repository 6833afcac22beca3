//! End-to-end tests of the transpiler: one file in, generated text or the
//! first error out.

use mcfn::errors::ErrorKind;
use mcfn::parser::{parse_file, prelude};
use mcfn::table::Table;

fn lines(texts: &[&str]) -> Vec<String> {
    texts.iter().map(|t| t.to_string()).collect()
}

fn run(texts: &[&str], env: &Table, incs: &Table) -> Result<(String, Vec<(u32, String)>), (String, u32, ErrorKind)> {
    let file = "test.mcfn".to_string();
    match parse_file(&file, &lines(texts), env, incs) {
        Ok(r) => Ok((
            r.text,
            r.logs.into_iter().map(|l| (l.line, l.message)).collect(),
        )),
        Err(e) => Err((e.location.file, e.location.line, e.kind)),
    }
}

fn run_plain(texts: &[&str]) -> Result<(String, Vec<(u32, String)>), (String, u32, ErrorKind)> {
    run(texts, &Table::new(), &Table::new())
}

const PRELUDE: &str = "scoreboard objectives add __mcfn_internal dummy\n";

#[test]
fn prelude_is_the_bootstrap_command() {
    assert_eq!(prelude(), PRELUDE);
}

#[test]
fn empty_file_yields_prelude_alone() {
    let (text, logs) = run_plain(&[]).unwrap();
    assert_eq!(text, PRELUDE);
    assert!(logs.is_empty());
}

#[test]
fn literals_pass_through_behind_prelude() {
    let (text, logs) = run_plain(&["say hi", "", "   say there"]).unwrap();
    assert_eq!(text, format!("{}say hi\nsay there\n", PRELUDE));
    assert!(logs.is_empty());
}

#[test]
fn comment_directive_is_dropped() {
    let (text, _) = run_plain(&["#! ! a comment, with trailing text", "say hi"]).unwrap();
    assert_eq!(text, format!("{}say hi\n", PRELUDE));
}

#[test]
fn proc_body_reproduced_at_call_site() {
    let (text, _) = run_plain(&[
        "#! proc greet",
        "say hello",
        "say again",
        "#! end",
        "say before",
        "#! call greet",
    ])
    .unwrap();
    assert_eq!(
        text,
        format!("{}say before\nsay hello\nsay again\n", PRELUDE)
    );
}

#[test]
fn proc_definition_emits_nothing_by_itself() {
    let (text, _) = run_plain(&["#! proc greet", "say hello", "#! end"]).unwrap();
    assert_eq!(text, PRELUDE);
}

#[test]
fn call_of_unknown_proc_fails_at_call_line() {
    let (file, line, kind) = run_plain(&["say ok", "#! call nope"]).unwrap_err();
    assert_eq!(file, "test.mcfn");
    assert_eq!(line, 1);
    assert!(matches!(kind, ErrorKind::UnknownProc(n) if n == "nope"));
}

#[test]
fn if_block_latches_once_and_guards_each_line() {
    let (text, _) = run_plain(&[
        "#! if score @a m matches 1",
        "#! then",
        "say yes",
        "say more",
        "#! end",
    ])
    .unwrap();
    let flag = "__mcfn_internal_0_1";
    let expected = format!(
        "{}scoreboard objectives add {f} dummy\n\
         scoreboard players set __mcfn_internal {f} 0\n\
         execute if score @a m matches 1 run scoreboard players set __mcfn_internal {f} 1\n\
         execute if score __mcfn_internal {f} matches 1 run say yes\n\
         execute if score __mcfn_internal {f} matches 1 run say more\n",
        PRELUDE,
        f = flag
    );
    assert_eq!(text, expected);
}

#[test]
fn ifn_condition_is_negated_in_the_evaluation() {
    let (text, _) = run_plain(&["#! ifn score @a m matches 1", "#! then", "say no", "#! end"])
        .unwrap();
    let flag = "__mcfn_internal_0_1";
    assert!(text.contains(&format!(
        "execute unless score @a m matches 1 run scoreboard players set __mcfn_internal {} 1\n",
        flag
    )));
    assert!(text.contains(&format!(
        "execute if score __mcfn_internal {} matches 1 run say no\n",
        flag
    )));
}

#[test]
fn if_with_else_emits_both_guarded_blocks() {
    let (text, _) = run_plain(&[
        "#! if score @a m matches 1",
        "#! then",
        "say yes",
        "#! else",
        "say no",
        "#! end",
    ])
    .unwrap();
    let flag = "__mcfn_internal_0_1";
    assert!(text.contains(&format!(
        "execute if score __mcfn_internal {} matches 1 run say yes\n",
        flag
    )));
    assert!(text.contains(&format!(
        "execute unless score __mcfn_internal {} matches 1 run say no\n",
        flag
    )));
}

#[test]
fn if_without_else_renders_empty_negated_block() {
    let (text, _) = run_plain(&["#! if c", "#! then", "say yes", "#! end", "say after"]).unwrap();
    // No negated-guard line appears, and rendering goes on past the block.
    assert!(!text.contains("execute unless score"));
    assert!(text.ends_with("say after\n"));
}

#[test]
fn sibling_if_blocks_use_distinct_flags() {
    let (text, _) = run_plain(&[
        "#! if a",
        "#! then",
        "say one",
        "#! end",
        "#! if b",
        "#! then",
        "say two",
        "#! end",
    ])
    .unwrap();
    assert!(text.contains("__mcfn_internal_0_1"));
    assert!(text.contains("__mcfn_internal_0_5"));
    // The second block's guards check its own flag, not the first one's.
    assert!(text.contains("execute if score __mcfn_internal __mcfn_internal_0_5 matches 1 run say two\n"));
    assert!(!text.contains("execute if score __mcfn_internal __mcfn_internal_0_1 matches 1 run say two\n"));
}

#[test]
fn nested_if_composes_prefixes() {
    let (text, _) = run_plain(&[
        "#! if a",
        "#! then",
        "#! if b",
        "#! then",
        "say z",
        "#! end",
        "#! end",
    ])
    .unwrap();
    let outer = "__mcfn_internal_0_1";
    let inner = "__mcfn_internal_1_3";
    // The inner latch is itself guarded on the outer flag, and the innermost
    // command is guarded on the inner flag under the outer guard.
    assert!(text.contains(&format!(
        "execute if score __mcfn_internal {o} matches 1 run scoreboard objectives add {i} dummy\n",
        o = outer,
        i = inner
    )));
    assert!(text.contains(&format!(
        "execute if score __mcfn_internal {o} matches 1 run execute if score __mcfn_internal {i} matches 1 run say z\n",
        o = outer,
        i = inner
    )));
}

#[test]
fn when_selects_first_branch_on_match() {
    let mut env = Table::new();
    env.insert("X".to_string(), "1".to_string());
    let (text, _) = run(
        &["#! when X 1", "#! then", "say yes", "#! else", "say no", "#! end"],
        &env,
        &Table::new(),
    )
    .unwrap();
    assert_eq!(text, format!("{}say yes\n", PRELUDE));
}

#[test]
fn when_selects_second_branch_when_unset() {
    let (text, _) = run_plain(&[
        "#! when X 1",
        "#! then",
        "say yes",
        "#! else",
        "say no",
        "#! end",
    ])
    .unwrap();
    assert_eq!(text, format!("{}say no\n", PRELUDE));
}

#[test]
fn when_selects_second_branch_on_other_value() {
    let mut env = Table::new();
    env.insert("X".to_string(), "2".to_string());
    let (text, _) = run(
        &["#! when X 1", "#! then", "say yes", "#! else", "say no", "#! end"],
        &env,
        &Table::new(),
    )
    .unwrap();
    assert_eq!(text, format!("{}say no\n", PRELUDE));
}

#[test]
fn with_prefixes_every_line_of_its_block() {
    let (text, _) = run_plain(&[
        "#! with execute as @a",
        "say one",
        "say two",
        "#! end",
        "say outside",
    ])
    .unwrap();
    assert_eq!(
        text,
        format!(
            "{}execute as @a say one\nexecute as @a say two\nsay outside\n",
            PRELUDE
        )
    );
}

#[test]
fn declare_and_delete_emit_counter_commands() {
    let (text, _) = run_plain(&["#! declare foo", "#! delete foo"]).unwrap();
    assert_eq!(
        text,
        format!(
            "{}scoreboard objectives add foo dummy\nscoreboard objectives remove foo\n",
            PRELUDE
        )
    );
}

#[test]
fn log_goes_to_the_side_channel_only() {
    let (text, logs) = run_plain(&["say hi", "#! log checking things", "#! log"]).unwrap();
    assert_eq!(text, format!("{}say hi\n", PRELUDE));
    assert_eq!(logs, vec![(1, "checking things".to_string()), (2, String::new())]);
}

#[test]
fn include_splices_stored_content_verbatim() {
    let mut incs = Table::new();
    incs.insert("lib.mcfn".to_string(), "say spliced\n".to_string());
    let (text, _) = run(
        &["say a", "#! include lib.mcfn", "say b"],
        &Table::new(),
        &incs,
    )
    .unwrap();
    assert_eq!(text, format!("{}say a\nsay spliced\nsay b\n", PRELUDE));
}

#[test]
fn include_of_missing_content_fails() {
    let (_, line, kind) = run_plain(&["#! include nowhere.mcfn"]).unwrap_err();
    assert_eq!(line, 0);
    assert!(matches!(kind, ErrorKind::Include(p) if p == "nowhere.mcfn"));
}

#[test]
fn if_without_argument_fails_with_missing_argument() {
    let (file, line, kind) = run_plain(&["say fine", "#! if"]).unwrap_err();
    assert_eq!(file, "test.mcfn");
    assert_eq!(line, 1);
    assert!(matches!(kind, ErrorKind::MissingArgument(n) if n == "if"));
}

#[test]
fn else_without_open_block_fails_with_unexpected_macro() {
    let (_, line, kind) = run_plain(&["#! else"]).unwrap_err();
    assert_eq!(line, 0);
    assert!(matches!(kind, ErrorKind::UnexpectedMacro(n) if n == "else"));
}

#[test]
fn end_without_open_block_fails_with_unexpected_macro() {
    let (_, line, kind) = run_plain(&["say x", "#! end"]).unwrap_err();
    assert_eq!(line, 1);
    assert!(matches!(kind, ErrorKind::UnexpectedMacro(n) if n == "end"));
}

#[test]
fn then_without_opener_fails_with_unexpected_macro() {
    let (_, line, kind) = run_plain(&["#! then"]).unwrap_err();
    assert_eq!(line, 0);
    assert!(matches!(kind, ErrorKind::UnexpectedMacro(n) if n == "then"));
}

#[test]
fn unknown_directive_fails_with_unknown_macro() {
    let (_, line, kind) = run_plain(&["#! bogus stuff"]).unwrap_err();
    assert_eq!(line, 0);
    assert!(matches!(kind, ErrorKind::UnknownMacro(n) if n == "bogus"));
}

#[test]
fn end_with_argument_fails_with_unexpected_argument() {
    let (_, _, kind) = run_plain(&["#! if c", "#! then", "say x", "#! end now"]).unwrap_err();
    assert!(matches!(kind, ErrorKind::UnexpectedArgument(n) if n == "end"));
}

#[test]
fn when_with_third_token_fails_naming_it() {
    let (_, _, kind) = run_plain(&["#! when X 1 extra"]).unwrap_err();
    assert!(matches!(kind, ErrorKind::UnexpectedArgument(n) if n == "extra"));
}

#[test]
fn when_with_one_token_fails_with_missing_argument() {
    let (_, _, kind) = run_plain(&["#! when X"]).unwrap_err();
    assert!(matches!(kind, ErrorKind::MissingArgument(n) if n == "when"));
}

#[test]
fn unterminated_proc_fails_at_its_opener() {
    let (_, line, kind) = run_plain(&["say a", "#! proc p", "say b"]).unwrap_err();
    assert_eq!(line, 1);
    assert!(matches!(kind, ErrorKind::UnterminatedBlock(n) if n == "proc"));
}

#[test]
fn unterminated_if_fails_at_its_opener() {
    let (_, line, kind) = run_plain(&["#! if c", "#! then", "say b"]).unwrap_err();
    assert_eq!(line, 0);
    assert!(matches!(kind, ErrorKind::UnterminatedBlock(n) if n == "if"));
}

#[test]
fn classification_error_stops_before_any_rendering() {
    // The bad line comes after renderable ones; the whole file still fails.
    let err = run_plain(&["say fine", "#! nope", "say also fine"]);
    assert!(err.is_err());
    let (_, line, _) = err.unwrap_err();
    assert_eq!(line, 1);
}

#[test]
fn second_else_in_one_block_is_rejected() {
    let (_, line, kind) = run_plain(&[
        "#! if c",
        "#! then",
        "say a",
        "#! else",
        "say b",
        "#! else",
        "say c",
        "#! end",
    ])
    .unwrap_err();
    assert_eq!(line, 5);
    assert!(matches!(kind, ErrorKind::UnexpectedMacro(n) if n == "else"));
}

#[test]
fn when_without_else_emits_block_only_on_match() {
    let program = ["#! when X 1", "#! then", "say yes", "#! end", "say after"];
    let mut env = Table::new();
    env.insert("X".to_string(), "1".to_string());
    let (text, _) = run(&program, &env, &Table::new()).unwrap();
    assert_eq!(text, format!("{}say yes\nsay after\n", PRELUDE));
    let (text, _) = run_plain(&program).unwrap();
    assert_eq!(text, format!("{}say after\n", PRELUDE));
}

#[test]
fn proc_defined_inside_branch_stays_available() {
    let (text, _) = run_plain(&[
        "#! if c",
        "#! then",
        "#! proc p",
        "say from proc",
        "#! end",
        "#! end",
        "#! call p",
    ])
    .unwrap();
    assert!(text.ends_with("say from proc\n"));
}

#[test]
fn log_in_unselected_branch_still_reported() {
    // Both branches of a build-time conditional are rendered to keep the
    // cursor synchronized, so their diagnostics appear either way.
    let (text, logs) = run_plain(&[
        "#! when X 1",
        "#! then",
        "#! log in yes branch",
        "#! else",
        "say no",
        "#! end",
    ])
    .unwrap();
    assert_eq!(text, format!("{}say no\n", PRELUDE));
    assert_eq!(logs, vec![(2, "in yes branch".to_string())]);
}

#[test]
fn unterminated_with_fails_at_its_opener() {
    let (_, line, kind) = run_plain(&["say a", "#! with execute as @a", "say b"]).unwrap_err();
    assert_eq!(line, 1);
    assert!(matches!(kind, ErrorKind::UnterminatedBlock(n) if n == "with"));
}

#[test]
fn stacked_conditions_evaluate_as_one_conjunction() {
    let (text, _) = run_plain(&[
        "#! if a",
        "#! ifn b",
        "#! then",
        "say both",
        "#! end",
    ])
    .unwrap();
    let flag = "__mcfn_internal_0_2";
    assert!(text.contains(&format!(
        "execute if a unless b run scoreboard players set __mcfn_internal {} 1\n",
        flag
    )));
}
