use cljrust::ast::TopLevel;
use cljrust::lexer::Lexer;
use cljrust::parser::Parser;
use cljrust::repl::{
    classify, clean_rustc_error, def_name, gen_top_level, is_balanced, is_statement_expr, loop_step, Absorbed,
    Color, InputKind, LoopAction, LoopState, ReplState,
};

/// The forms of a piece of source text.
fn forms(src: &str) -> Vec<TopLevel> {
    let mut lexer = Lexer::new(src);
    let tokens = lexer.tokenize().unwrap();
    let mut parser = Parser::new(tokens);
    parser.parse_program().unwrap().items
}

fn form(src: &str) -> TopLevel {
    let mut v = forms(src);
    assert_eq!(v.len(), 1);
    v.pop().unwrap()
}

const HEADER: &str = "#![allow(unused_imports, unused_variables, unused_mut, dead_code, unused_parens)]\n\n\
use std::collections::HashMap;\nuse std::collections::HashSet;\n\n";

#[test]
fn colours_wrap_text_in_escapes() {
    assert_eq!(Color::green("ok"), "\x1b[32mok\x1b[0m");
    assert_eq!(Color::cyan("cljr>"), "\x1b[36mcljr>\x1b[0m");
    assert_eq!(Color::yellow("w"), "\x1b[33mw\x1b[0m");
    assert_eq!(Color::red("!"), "\x1b[31m!\x1b[0m");
    assert_eq!(Color::dim(""), "\x1b[2m\x1b[0m");
    assert_eq!(Color::bold("REPL"), "\x1b[1mREPL\x1b[0m");
}

#[test]
fn balance_counts_brackets_outside_strings_and_comments() {
    assert!(is_balanced("(+ 1 2)"));
    assert!(!is_balanced("(+ 1"));
    assert!(!is_balanced("(defn f [x]\n  {:a"));
    assert!(is_balanced("(str \"(\")"));
    assert!(is_balanced("(str \"\\\"(\")"));
    assert!(!is_balanced("(+ 1 ; )"));
    assert!(is_balanced(")"));
    assert!(is_balanced(""));
}

#[test]
fn closing_a_balanced_input_keeps_it_balanced() {
    let s = "(+ 1 2)";
    assert!(is_balanced(s));
    assert!(is_balanced(&format!("{})", s)));
    let open = "(let [x 1]";
    assert!(!is_balanced(open));
    assert!(!is_balanced(&format!("{}(", open)));
}

#[test]
fn forms_are_classified() {
    assert!(matches!(classify(&form("(use std::io)")), InputKind::Use));
    assert!(matches!(classify(&form("(extern-crate serde)")), InputKind::Use));
    assert!(matches!(classify(&form("(defn f [] 1)")), InputKind::Definition));
    assert!(matches!(classify(&form("(defstruct P [x : i32])")), InputKind::Definition));
    assert!(matches!(classify(&form("(def X 1)")), InputKind::Definition));
    assert!(matches!(classify(&form("(defmod m)")), InputKind::Definition));
    assert!(matches!(classify(&form("(+ 1 2)")), InputKind::Expression));
    assert!(matches!(classify(&form("42")), InputKind::Expression));
}

#[test]
fn statements_are_recognised() {
    assert!(is_statement_expr(&form("(println! \"hi\")")));
    assert!(is_statement_expr(&form("(eprint! \"hi\")")));
    assert!(is_statement_expr(&form("(for [x xs] (f x))")));
    assert!(is_statement_expr(&form("(while true (f))")));
    assert!(is_statement_expr(&form("(set! x 1)")));
    assert!(!is_statement_expr(&form("(format! \"hi\")")));
    assert!(!is_statement_expr(&form("(+ 1 2)")));
    assert!(!is_statement_expr(&form("(defn f [] 1)")));
}

#[test]
fn definitions_are_named() {
    assert_eq!(def_name(&form("(defn square [x : i32] -> i32 (* x x))")), "square");
    assert_eq!(def_name(&form("(def PI 3)")), "PI");
    assert_eq!(def_name(&form("(defstruct Point [x : i32])")), "Point");
    assert_eq!(def_name(&form("(defenum Color Red Green)")), "Color");
    assert_eq!(def_name(&form("(deftrait Shape (defn area [&self] -> i32))")), "Shape");
    assert_eq!(def_name(&form("(defimpl Point (defn x [&self] -> i32 1))")), "Point");
    assert_eq!(def_name(&form("(defimpl Shape for Point (defn area [&self] -> i32 1))")), "Shape for Point");
    assert_eq!(def_name(&form("(defmod util)")), "mod util");
    assert_eq!(def_name(&form("(use std::io)")), "(item)");
    assert_eq!(def_name(&form("(+ 1 2)")), "(item)");
}

#[test]
fn a_single_form_is_generated_alone() {
    assert_eq!(gen_top_level(&form("(+ 1 2)")), "(1 + 2);\n\n");
    assert_eq!(gen_top_level(&form("(use std::io)")), "use std::io;\n\n");
}

#[test]
fn fresh_state_imports_the_standard_collections() {
    let st = ReplState::new();
    assert_eq!(st.uses, vec!["use std::collections::HashMap;".to_string(), "use std::collections::HashSet;".to_string()]);
    assert!(st.items.is_empty());
    assert_eq!(st.expr_id, 0);
    assert!(st.history.is_empty());
    assert!(!st.show_rust);
}

#[test]
fn programs_wrap_the_body_in_main() {
    let st = ReplState::new();
    assert_eq!(st.build_program("x\ny"), format!("{}\nfn main() {{\n    x\n    y\n}}\n", HEADER));
    assert_eq!(st.build_exec_program("f();"), format!("{}\nfn main() {{\n    f();\n}}\n", HEADER));
    assert_eq!(
        st.build_print_program("  (1 + 2);  "),
        format!(
            "{}\nfn main() {{\n    let __result = {{\n        (1 + 2)\n    }};\n    println!(\"{{:?}}\", __result);\n}}\n",
            HEADER
        )
    );
}

#[test]
fn imports_are_added_once() {
    let mut st = ReplState::new();
    match st.absorb(&form("(use std::io::Read)")) {
        Absorbed::Added(t) => assert_eq!(t, "use std::io::Read;"),
        _ => panic!("expected a new import"),
    }
    assert_eq!(st.uses.len(), 3);
    assert!(matches!(st.absorb(&form("(use std::io::Read)")), Absorbed::AlreadyImported));
    assert!(matches!(st.absorb(&form("(use std::collections::HashMap)")), Absorbed::AlreadyImported));
    assert_eq!(st.uses.len(), 3);
    assert!(st.items.is_empty());
}

#[test]
fn definitions_accumulate() {
    let mut st = ReplState::new();
    match st.absorb(&form("(defn square [x : i32] -> i32 (* x x))")) {
        Absorbed::Defined(name, t) => {
            assert_eq!(name, "square");
            assert_eq!(t, "pub fn square(x: i32) -> i32 {\n    (x * x)\n}");
        }
        _ => panic!("expected a definition"),
    }
    assert!(matches!(st.absorb(&form("(square 7)")), Absorbed::Expression));
    assert_eq!(st.items, vec!["pub fn square(x: i32) -> i32 {\n    (x * x)\n}".to_string()]);
    assert_eq!(st.uses.len(), 2);
}

#[test]
fn a_single_expression_is_printed() {
    let mut st = ReplState::new();
    let items = forms("(defn square [x : i32] -> i32 (* x x)) (square 7)");
    for it in &items {
        st.absorb(it);
    }
    let (src, all) = st.expression_program(&items).unwrap();
    assert!(!all);
    assert_eq!(
        src,
        format!(
            "{}pub fn square(x: i32) -> i32 {{\n    (x * x)\n}}\n\nfn main() {{\n    let __result = {{\n        square(7)\n    }};\n    println!(\"{{:?}}\", __result);\n}}\n",
            HEADER
        )
    );
}

#[test]
fn statements_are_just_run() {
    let st = ReplState::new();
    let (src, all) = st.expression_program(&forms("(println! \"hi\")")).unwrap();
    assert!(all);
    assert_eq!(src, format!("{}\nfn main() {{\n    println!(\"hi\");\n}}\n", HEADER));
}

#[test]
fn of_several_expressions_the_last_is_printed() {
    let st = ReplState::new();
    let (src, all) = st.expression_program(&forms("(println! \"a\") (+ 1 2)")).unwrap();
    assert!(!all);
    assert_eq!(
        src,
        format!(
            "{}\nfn main() {{\n    println!(\"a\");\n    let __result = {{\n        (1 + 2)\n    }};\n    println!(\"{{:?}}\", __result);\n}}\n",
            HEADER
        )
    );
}

#[test]
fn definitions_alone_give_no_program() {
    let st = ReplState::new();
    assert!(st.expression_program(&forms("(defn f [] 1) (use std::io)")).is_none());
    assert!(st.expression_program(&Vec::new()).is_none());
}

#[test]
fn clearing_keeps_history_and_display_choice() {
    let mut st = ReplState::new();
    st.absorb(&form("(use std::io)"));
    st.absorb(&form("(defn f [] 1)"));
    st.remember("(defn f [] 1)");
    st.count_evaluation();
    st.show_rust = true;
    st.clear();
    assert_eq!(st.uses.len(), 2);
    assert!(st.items.is_empty());
    assert_eq!(st.expr_id, 0);
    assert_eq!(st.history, vec!["(defn f [] 1)".to_string()]);
    assert!(st.show_rust);
}

#[test]
fn evaluations_are_counted_and_remembered() {
    let mut st = ReplState::new();
    st.count_evaluation();
    st.count_evaluation();
    assert_eq!(st.expr_id, 2);
    st.expr_id = usize::MAX;
    st.count_evaluation();
    assert_eq!(st.expr_id, 0);
    st.remember("(+ 1 2)");
    st.remember("(* 2 3)");
    assert_eq!(st.history, vec!["(+ 1 2)".to_string(), "(* 2 3)".to_string()]);
}

#[test]
fn compiler_messages_are_cleaned() {
    let stderr = "error[E0425]: cannot find value `x` in this scope\n --> /tmp/__cljrust_repl.rs:5:5\n  |\n5 |     x\n  |     ^ not found in this scope\n\nerror: aborting due to 1 previous error\n";
    assert_eq!(
        clean_rustc_error(stderr),
        "error[E0425]: cannot find value `x` in this scope\n|\n|     ^ not found in this scope\nerror: aborting due to 1 previous error"
    );
    assert_eq!(
        clean_rustc_error("error: couldn't read /tmp/__cljrust_repl.rs: gone"),
        "error: couldn't read /tmp/<repl>: gone"
    );
    assert_eq!(clean_rustc_error("warning: a\n\nnote: b"), "warning: a\nnote: b");
    assert_eq!(clean_rustc_error("a\nb\nc\nd\ne\nf\ng"), "a\nb\nc\nd\ne");
    assert_eq!(clean_rustc_error(""), "");
}

#[test]
fn at_most_eight_telling_lines_are_kept() {
    let stderr = (1..=10).map(|i| format!("error: e{}", i)).collect::<Vec<_>>().join("\n");
    let expected = (1..=8).map(|i| format!("error: e{}", i)).collect::<Vec<_>>().join("\n");
    assert_eq!(clean_rustc_error(&stderr), expected);
    assert_eq!(clean_rustc_error("note: x\nhelp: try y"), "help: try y");
}

#[test]
fn commands_are_decided_on_a_first_line() {
    let mut lp = LoopState::new();
    let mut st = ReplState::new();
    assert!(matches!(loop_step(&mut lp, &mut st, ":quit\n"), LoopAction::Quit));
    assert!(matches!(loop_step(&mut lp, &mut st, "  :q  \n"), LoopAction::Quit));
    assert!(matches!(loop_step(&mut lp, &mut st, ":exit\n"), LoopAction::Quit));
    assert!(matches!(loop_step(&mut lp, &mut st, ":?\n"), LoopAction::Help));
    assert!(matches!(loop_step(&mut lp, &mut st, ":defs\n"), LoopAction::ShowDefs));
    assert!(matches!(loop_step(&mut lp, &mut st, ":history\n"), LoopAction::ShowHistory));
    assert!(matches!(loop_step(&mut lp, &mut st, ":last\n"), LoopAction::ShowLast));
    assert!(matches!(loop_step(&mut lp, &mut st, ":last-rs\n"), LoopAction::ShowLast));
    assert!(matches!(loop_step(&mut lp, &mut st, ":load\n"), LoopAction::LoadUsage));
    match loop_step(&mut lp, &mut st, ":load   examples/hello.cljr  \n") {
        LoopAction::Load(p) => assert_eq!(p, "examples/hello.cljr"),
        _ => panic!("expected a load"),
    }
    match loop_step(&mut lp, &mut st, ":frobnicate now\n") {
        LoopAction::Unknown(w) => assert_eq!(w, ":frobnicate"),
        _ => panic!("expected an unknown command"),
    }
    assert!(!lp.continuation);
    assert!(lp.buf.is_empty());
}

#[test]
fn rust_display_toggles_and_clear_resets() {
    let mut lp = LoopState::new();
    let mut st = ReplState::new();
    assert!(matches!(loop_step(&mut lp, &mut st, ":rust\n"), LoopAction::ToggledRust(true)));
    assert!(st.show_rust);
    assert!(matches!(loop_step(&mut lp, &mut st, ":rust\n"), LoopAction::ToggledRust(false)));
    assert!(!st.show_rust);
    st.absorb(&form("(defn f [] 1)"));
    st.remember("(defn f [] 1)");
    assert!(matches!(loop_step(&mut lp, &mut st, ":clear\n"), LoopAction::Cleared));
    assert!(st.items.is_empty());
    assert_eq!(st.uses.len(), 2);
    assert_eq!(st.history.len(), 1);
}

#[test]
fn incomplete_input_is_continued_then_evaluated() {
    let mut lp = LoopState::new();
    let mut st = ReplState::new();
    assert!(matches!(loop_step(&mut lp, &mut st, "(defn square [x : i32]\n"), LoopAction::MoreInput));
    assert!(lp.continuation);
    assert_eq!(lp.buf, "(defn square [x : i32]\n");
    assert!(matches!(loop_step(&mut lp, &mut st, "  :not-a-command\n"), LoopAction::MoreInput));
    match loop_step(&mut lp, &mut st, "  (* x x))\n") {
        LoopAction::Evaluate(t) => assert_eq!(t, "(defn square [x : i32]\n  :not-a-command\n  (* x x))"),
        _ => panic!("expected an evaluation"),
    }
    assert!(!lp.continuation);
    assert!(lp.buf.is_empty());
}

#[test]
fn empty_lines_do_nothing_and_do_not_end_pending_input() {
    let mut lp = LoopState::new();
    let mut st = ReplState::new();
    assert!(matches!(loop_step(&mut lp, &mut st, "   \n"), LoopAction::Nothing));
    assert!(!lp.continuation);
    assert!(matches!(loop_step(&mut lp, &mut st, "(+ 1\n"), LoopAction::MoreInput));
    assert!(matches!(loop_step(&mut lp, &mut st, "\n"), LoopAction::MoreInput));
    assert!(lp.continuation);
    match loop_step(&mut lp, &mut st, "2)\n") {
        LoopAction::Evaluate(t) => assert_eq!(t, "(+ 1\n\n2)"),
        _ => panic!("expected an evaluation"),
    }
}

#[test]
fn a_whole_input_is_taken_in() {
    let mut st = ReplState::new();
    let items = forms("(use std::io) (defn f [] 1) (use std::io) (defstruct P [x : i32])");
    let (answers, program) = st.take_in("decls", &items);
    assert!(program.is_none());
    assert_eq!(answers.len(), 4);
    assert!(matches!(&answers[0], Absorbed::Added(t) if t == "use std::io;"));
    assert!(matches!(&answers[1], Absorbed::Defined(n, _) if n == "f"));
    assert!(matches!(&answers[2], Absorbed::AlreadyImported));
    assert!(matches!(&answers[3], Absorbed::Defined(n, _) if n == "P"));
    assert_eq!(st.uses.len(), 3);
    assert_eq!(st.items.len(), 2);
    assert_eq!(st.history, vec!["decls".to_string()]);

    let items = forms("(defn g [] 2) (g)");
    let (answers, program) = st.take_in("(g)", &items);
    assert_eq!(answers.len(), 2);
    assert!(matches!(&answers[1], Absorbed::Expression));
    let (src, all) = program.unwrap();
    assert!(!all);
    assert!(src.contains("pub fn g() {\n    2\n}\n"));
    assert!(src.contains("        g()\n"));
    assert_eq!(st.items.len(), 3);
    assert_eq!(st.history.len(), 1);
}
