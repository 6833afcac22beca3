//! Tests of the smaller public pieces: the classifier, the table, the
//! emitters and the status labels.

use mcfn::emit::{dec_string, flag_name_string, prefix_lines_string};
use mcfn::lines::LineContent;
use mcfn::macros::Macro;
use mcfn::parser::{classify_line, include_paths};
use mcfn::status::Status;
use mcfn::table::Table;

#[test]
fn classify_blank_and_commands() {
    assert!(matches!(classify_line(""), Ok(LineContent::Empty)));
    assert!(matches!(classify_line("   \t "), Ok(LineContent::Empty)));
    assert!(matches!(
        classify_line("say hi"),
        Ok(LineContent::Command(c)) if c == "say hi"
    ));
    // Leading whitespace is trimmed, trailing kept.
    assert!(matches!(
        classify_line("  say hi  "),
        Ok(LineContent::Command(c)) if c == "say hi  "
    ));
    // A lone `#` is not the marker.
    assert!(matches!(
        classify_line("# comment"),
        Ok(LineContent::Command(c)) if c == "# comment"
    ));
}

#[test]
fn classify_directives_with_and_without_space() {
    assert!(matches!(
        classify_line("#!if cond text"),
        Ok(LineContent::Macro(Macro::If(c))) if c == "cond text"
    ));
    assert!(matches!(
        classify_line("#! if cond text"),
        Ok(LineContent::Macro(Macro::If(c))) if c == "cond text"
    ));
    assert!(matches!(
        classify_line("#! then"),
        Ok(LineContent::Macro(Macro::Then))
    ));
    assert!(matches!(
        classify_line("#! when VAR value"),
        Ok(LineContent::Macro(Macro::When(a, b))) if a == "VAR" && b == "value"
    ));
    assert!(matches!(
        classify_line("#! log"),
        Ok(LineContent::Macro(Macro::Log(m))) if m.is_empty()
    ));
    assert!(matches!(
        classify_line("#! include ../lib.mcfn"),
        Ok(LineContent::Macro(Macro::Include(p))) if p == "../lib.mcfn"
    ));
}

#[test]
fn table_last_insert_wins() {
    let mut t = Table::new();
    assert!(t.get(&"k".to_string()).is_none());
    t.insert("k".to_string(), "one".to_string());
    t.insert("other".to_string(), "x".to_string());
    assert_eq!(t.get(&"k".to_string()).unwrap().as_str(), "one");
    t.insert("k".to_string(), "two".to_string());
    assert_eq!(t.get(&"k".to_string()).unwrap().as_str(), "two");
    assert!(t.contains(&"other".to_string()));
    assert!(!t.contains(&"missing".to_string()));
}

#[test]
fn decimal_rendering() {
    assert_eq!(dec_string(0), "0");
    assert_eq!(dec_string(7), "7");
    assert_eq!(dec_string(10), "10");
    assert_eq!(dec_string(90817), "90817");
}

#[test]
fn flag_names_are_depth_and_line_scoped() {
    assert_eq!(flag_name_string(0, 1), "__mcfn_internal_0_1");
    assert_eq!(flag_name_string(3, 12), "__mcfn_internal_3_12");
    assert_ne!(flag_name_string(2, 5), flag_name_string(2, 6));
}

#[test]
fn prefixing_rewrites_each_line() {
    assert_eq!(prefix_lines_string("p ", "a\nb\n"), "p a\np b\n");
    assert_eq!(prefix_lines_string("p ", "a\nb"), "p a\np b\n");
    assert_eq!(prefix_lines_string("p ", ""), "");
}

#[test]
fn include_paths_lists_spliced_files_in_order() {
    let lines: Vec<String> = vec![
        "say x".to_string(),
        "#! include a.mcfn".to_string(),
        "#! if c".to_string(),
        "#! include b.mcfn".to_string(),
    ]
    .into_iter()
    .collect();
    let paths = include_paths(&lines);
    assert_eq!(paths, vec!["a.mcfn".to_string(), "b.mcfn".to_string()]);
}

#[test]
fn status_labels() {
    assert_eq!(Status::Error.label(), "Error");
    assert_eq!(Status::Finished.label(), "Finished");
    assert_eq!(Status::Transpiled.label(), "Transpiled");
    assert_eq!(Status::Transpiling.label(), "Transpiling");
}
