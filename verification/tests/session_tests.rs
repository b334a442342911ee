use ycli::cli::{unrecognized_message, Action, Method, Mode, PathDef, CLI};
use ycli::line_reader::{KeyEvent, LineReader, LineType, TermOp};
use ycli::node::Segment;

fn cv(s: &str) -> Vec<char> {
    s.chars().collect()
}

fn simple_cli() -> CLI {
    CLI::new(
        vec![PathDef {
            method: Method::Get,
            segments: vec![Segment::Fixed(cv("foo")), Segment::Fixed(cv("count"))],
        }],
        cv("host"),
    )
}

#[test]
fn config_then_exit_returns_to_view() {
    let mut cli = simple_cli();
    assert_eq!(cli.mode, Mode::View);
    assert_eq!(cli.handle_line(&cv("config")), Action::Continue);
    assert_eq!(cli.mode, Mode::Config);
    assert_eq!(cli.handle_line(&cv("exit")), Action::Continue);
    assert_eq!(cli.mode, Mode::View);
    assert!(cli.path.is_empty());
}

#[test]
fn quit_pops_path_levels_then_leaves_config() {
    let mut cli = simple_cli();
    cli.handle_line(&cv("config"));
    cli.path = vec![cv("a"), cv("b")];
    cli.update_prompt();
    assert_eq!(cli.handle_line(&cv("quit")), Action::Continue);
    assert_eq!(cli.path, vec![cv("a")]);
    assert_eq!(cli.mode, Mode::Config);
    assert_eq!(cli.handle_line(&cv("quit")), Action::Continue);
    assert!(cli.path.is_empty());
    assert_eq!(cli.mode, Mode::Config);
    assert_eq!(cli.handle_line(&cv("quit")), Action::Continue);
    assert_eq!(cli.mode, Mode::View);
}

#[test]
fn exit_clears_whole_path_stack() {
    let mut cli = simple_cli();
    cli.handle_line(&cv("config"));
    cli.path = vec![cv("a"), cv("b")];
    cli.update_prompt();
    assert_eq!(cli.handle_line(&cv("exit")), Action::Continue);
    assert!(cli.path.is_empty());
    assert_eq!(cli.mode, Mode::Config);
}

#[test]
fn quit_and_exit_end_view_session() {
    let mut cli = simple_cli();
    assert_eq!(cli.handle_line(&cv("quit")), Action::Quit);
    let mut cli = simple_cli();
    assert_eq!(cli.handle_line(&cv("exit")), Action::Quit);
}

#[test]
fn lines_are_trimmed_and_empty_lines_do_nothing() {
    let mut cli = simple_cli();
    assert_eq!(cli.handle_line(&cv("   config  ")), Action::Continue);
    assert_eq!(cli.mode, Mode::Config);
    assert_eq!(cli.handle_line(&cv("   ")), Action::Continue);
    assert_eq!(cli.mode, Mode::Config);
}

#[test]
fn unknown_line_is_unrecognized() {
    let mut cli = simple_cli();
    assert_eq!(cli.handle_line(&cv("frobnicate")), Action::Unrecognized);
    assert_eq!(cli.mode, Mode::View);
    assert_eq!(
        unrecognized_message(&cv("frobnicate")),
        cv("Unrecognized command: frobnicate")
    );
}

#[test]
fn prompt_tracks_mode_and_path() {
    let mut cli = simple_cli();
    assert_eq!(cli.prompt, cv("host> "));
    cli.handle_line(&cv("config"));
    assert_eq!(cli.prompt, cv("host# "));
    cli.path = vec![cv("a"), cv("b")];
    cli.update_prompt();
    assert_eq!(cli.prompt, cv("host a b# "));
}

#[test]
fn completion_echo_restates_prompt_and_line() {
    let cli = simple_cli();
    assert_eq!(cli.complete_echo(&cv("fo")), cv("\rhost> fo"));
}

#[test]
fn help_listing_for_fully_valid_prefix() {
    let cli = simple_cli();
    // every token matches: the full listing of the reached position
    assert_eq!(cli.build_help(&cv("foo"), 6), cv(" count      ...\n"));
    // the empty line lists the root's children
    assert_eq!(
        cli.build_help(&cv(""), 6),
        cv(" foo        ...\n config     Enter config mode\n")
    );
}

#[test]
fn help_glob_for_failing_final_token() {
    let cli = simple_cli();
    // `co` fails under `foo`, but the literal `count` completes it
    assert_eq!(cli.build_help(&cv("foo co"), 6), cv(" count      ...\n"));
}

#[test]
fn help_caret_for_failing_interior_token() {
    let cli = simple_cli();
    // `bar` matches nothing under `foo` and no literal completes it:
    // a caret under column 4 of the line, shifted by the prompt width 6
    let got = cli.build_help(&cv("foo bar"), 6);
    assert_eq!(got, cv("          ^~~~ None matched"));
    // an interior failure never offers a glob, even when one exists
    let got = cli.build_help(&cv("fo foo"), 6);
    assert_eq!(got, cv("      ^~~~ None matched"));
}

#[test]
fn editor_insert_backspace_and_ctrl_w() {
    let mut ed = LineReader::new();
    for c in "hello".chars() {
        ed.handle_key(KeyEvent::Char(c));
    }
    ed.handle_key(KeyEvent::Backspace);
    ed.handle_key(KeyEvent::Backspace);
    assert_eq!(ed.buf, cv("hel"));
    assert_eq!(ed.offset, 3);
    ed.handle_key(KeyEvent::CtrlW);
    assert!(ed.buf.is_empty());
    assert_eq!(ed.offset, 0);
}

#[test]
fn editor_cursor_moves_and_midline_insert() {
    let mut ed = LineReader::new();
    for c in "ac".chars() {
        ed.handle_key(KeyEvent::Char(c));
    }
    ed.handle_key(KeyEvent::Left);
    assert_eq!(ed.offset, 1);
    ed.handle_key(KeyEvent::Char('b'));
    assert_eq!(ed.buf, cv("abc"));
    assert_eq!(ed.offset, 2);
    ed.handle_key(KeyEvent::Right);
    assert_eq!(ed.offset, 3);
    // boundary: no move past either end
    ed.handle_key(KeyEvent::Right);
    assert_eq!(ed.offset, 3);
    let mut fresh = LineReader::new();
    fresh.handle_key(KeyEvent::Left);
    assert_eq!(fresh.offset, 0);
}

#[test]
fn editor_midline_backspace_redraws_tail() {
    let mut ed = LineReader::new();
    for c in "abc".chars() {
        ed.handle_key(KeyEvent::Char(c));
    }
    ed.handle_key(KeyEvent::Left);
    let (ops, done) = ed.handle_key(KeyEvent::Backspace);
    assert!(done.is_none());
    assert_eq!(ed.buf, cv("ac"));
    assert_eq!(ed.offset, 1);
    assert_eq!(ops.len(), 4);
    assert!(matches!(&ops[0], TermOp::CursorLeft(1)));
    assert!(matches!(&ops[1], TermOp::ClearAfter));
    match &ops[2] {
        TermOp::EchoTail(t) => assert_eq!(t, &cv("c")),
        other => panic!("unexpected op {:?}", op_kind(other)),
    }
    assert!(matches!(&ops[3], TermOp::CursorLeft(1)));
}

fn op_kind(op: &TermOp) -> &'static str {
    match op {
        TermOp::Echo(_) => "Echo",
        TermOp::EchoTail(_) => "EchoTail",
        TermOp::CursorLeft(_) => "CursorLeft",
        TermOp::CursorRight(_) => "CursorRight",
        TermOp::ClearAfter => "ClearAfter",
        TermOp::Newline => "Newline",
    }
}

#[test]
fn editor_line_endings() {
    let mut ed = LineReader::new();
    for c in "foo".chars() {
        ed.handle_key(KeyEvent::Char(c));
    }
    let (_, done) = ed.handle_key(KeyEvent::Char('\t'));
    assert_eq!(done, Some((cv("foo"), LineType::Complete)));
    let (_, done) = ed.handle_key(KeyEvent::Char('?'));
    assert_eq!(done, Some((cv("foo"), LineType::Help)));
    let (_, done) = ed.handle_key(KeyEvent::Char('\n'));
    assert_eq!(done, Some((cv("foo"), LineType::Enter)));
    // end-of-input always submits the literal `exit`
    let (_, done) = ed.handle_key(KeyEvent::CtrlD);
    assert_eq!(done, Some((cv("exit"), LineType::Enter)));
    // the buffer itself is left untouched by all of these
    assert_eq!(ed.buf, cv("foo"));
    ed.clear();
    assert!(ed.buf.is_empty());
    assert_eq!(ed.offset, 0);
}

#[test]
fn tabs_separate_tokens_like_spaces() {
    let cli = simple_cli();
    assert_eq!(cli.build_help(&cv("foo\tco"), 6), cv(" count      ...\n"));
    let mut cli = simple_cli();
    assert_eq!(cli.handle_line(&cv("\tconfig\t")), Action::Continue);
    assert_eq!(cli.mode, Mode::Config);
}
