use memtty::history::{
    append_history_commands, cycle_history_completion, draw_history_preview, first_history_match,
    history_matches_for_prefix, history_preview, parse_history_line, replace_shell_line_bytes,
    trim_last_word, HistoryCompletionState,
};
use memtty::cell::Cell;
use memtty::color::Color;

#[test]
fn parses_zsh_extended_history_lines() {
    assert_eq!(
        parse_history_line(": 1710000000:0;ssh prod"),
        Some("ssh prod".to_string())
    );
}

#[test]
fn parses_plain_bash_history_lines() {
    assert_eq!(
        parse_history_line("cargo test"),
        Some("cargo test".to_string())
    );
}

#[test]
fn ignores_empty_history_lines() {
    assert_eq!(parse_history_line(""), None);
    assert_eq!(parse_history_line("   "), None);
}

#[test]
fn replacement_clears_line_then_writes_command() {
    assert_eq!(
        replace_shell_line_bytes("ssh prod"),
        b"\x15ssh prod".to_vec()
    );
}

#[test]
fn appends_history_commands_without_adjacent_duplicates() {
    let mut history = vec!["ssh old".to_string()];
    append_history_commands(
        &mut history,
        vec!["ssh old".to_string(), "ssh prod".to_string()],
    );

    assert_eq!(history, vec!["ssh old", "ssh prod"]);
}

#[test]
fn extended_history_line_without_separator_is_skipped() {
    assert_eq!(parse_history_line(": 1710000000:0"), None);
    assert_eq!(parse_history_line(": 1:0;   "), None);
    assert_eq!(parse_history_line("  ls -la  "), Some("ls -la".to_string()));
}

#[test]
fn replacement_encodes_non_ascii_commands() {
    assert_eq!(replace_shell_line_bytes("é"), vec![0x15, 0xc3, 0xa9]);
    assert_eq!(replace_shell_line_bytes(""), vec![0x15]);
}

#[test]
fn history_keeps_only_the_newest_thousand_commands() {
    let mut history: Vec<String> = Vec::new();
    let commands: Vec<String> = (0..1005).map(|i| format!("cmd {i}")).collect();
    append_history_commands(&mut history, commands);
    assert_eq!(history.len(), 1000);
    assert_eq!(history[0], "cmd 5");
    assert_eq!(history[999], "cmd 1004");
    for pair in history.windows(2) {
        assert_ne!(pair[0], pair[1]);
    }
}

#[test]
fn appending_repeats_of_the_last_command_adds_nothing() {
    let mut history = vec!["a".to_string(), "b".to_string()];
    append_history_commands(&mut history, vec!["b".to_string(), "b".to_string(), "a".to_string()]);
    assert_eq!(history, vec!["a", "b", "a"]);
}

#[test]
fn matches_come_newest_first_without_repeats() {
    let live = vec!["git status".to_string(), "git commit".to_string(), "ls".to_string()];
    let file = vec!["git push".to_string(), "git status".to_string(), "git".to_string()];
    let m = history_matches_for_prefix("git", &live, &file);
    assert_eq!(m, vec!["git commit", "git status", "git push"]);
    assert_eq!(first_history_match("git", &live, &file), Some("git commit".to_string()));
    assert!(history_matches_for_prefix("  ", &live, &file).is_empty());
    assert_eq!(first_history_match("zzz", &live, &file), None);
}

#[test]
fn matches_are_capped() {
    let live: Vec<String> = (0..300).map(|i| format!("echo {i}")).collect();
    let m = history_matches_for_prefix("echo", &live, &[]);
    assert_eq!(m.len(), 200);
    assert_eq!(m[0], "echo 299");
}

#[test]
fn ctrl_w_trims_the_last_word() {
    let mut line = "git commit -m  ".to_string();
    trim_last_word(&mut line);
    assert_eq!(line, "git commit ");
    let mut one = "word".to_string();
    trim_last_word(&mut one);
    assert_eq!(one, "");
}

#[test]
fn preview_shows_the_rest_of_the_first_match() {
    let live = vec!["cargo build".to_string()];
    assert_eq!(history_preview("car", &live, &[]), Some("go build".to_string()));
    assert_eq!(history_preview("cargo build", &live, &[]), None);
    assert_eq!(history_preview("", &live, &[]), None);
}

#[test]
fn preview_is_drawn_after_the_cursor() {
    let mut row: Vec<Cell> = (0..5).map(|_| Cell::default()).collect();
    draw_history_preview(&mut row, 3, "xyz");
    assert_eq!(row[2].c, ' ');
    assert_eq!(row[3].c, 'x');
    assert_eq!(row[4].c, 'y');
    assert_eq!(row[3].fg, Color::rgb(120, 126, 138));
    let before: Vec<char> = row.iter().map(|c| c.c).collect();
    draw_history_preview(&mut row, 9, "abc");
    let after: Vec<char> = row.iter().map(|c| c.c).collect();
    assert_eq!(before, after);
}

#[test]
fn completion_cycles_through_matches() {
    let live = vec!["ssh a".to_string(), "ssh b".to_string()];
    let step = cycle_history_completion(None, "ssh", &live, &[]);
    assert_eq!(step.command, Some("ssh b".to_string()));
    assert!(step.clear_preview);
    let state = step.state.expect("completion state");
    assert_eq!(state.index, 0);
    let step2 = cycle_history_completion(Some(state), "ssh b", &live, &[]);
    assert_eq!(step2.command, Some("ssh a".to_string()));
    let step3 = cycle_history_completion(step2.state, "ssh a", &live, &[]);
    assert_eq!(step3.command, Some("ssh b".to_string()));
}

#[test]
fn completion_of_blank_line_does_nothing() {
    let live = vec!["ssh a".to_string()];
    let step = cycle_history_completion(None, "  ", &live, &[]);
    assert!(step.state.is_none());
    assert!(step.command.is_none());
    assert!(!step.clear_preview);
    let none = cycle_history_completion(
        Some(HistoryCompletionState { prefix: "x".to_string(), matches: vec![], index: 0 }),
        "zz",
        &live,
        &[],
    );
    assert!(none.state.is_none());
    assert!(none.command.is_none());
    assert!(none.clear_preview);
}
