use acre::cli::{CommandContext, GlobalOptions, ShellBridge};
use acre::ui::output::Renderer;
use acre::ui::picker::{draw, format_line, picker_step, PickerKey, PickerRow, PickerState, PickerStep};

fn renderer() -> Renderer {
    Renderer::new(
        &CommandContext {
            cwd: String::new(),
            interactive: true,
            global: GlobalOptions {
                directory: None,
                json: false,
                no_color: true,
                plain: false,
                verbose: false,
            },
            shell: ShellBridge {
                active: false,
                directive_file: None,
                session_id: None,
                pid: None,
            },
        },
        false,
    )
}

fn rows(labels: &[&str]) -> Vec<PickerRow<()>> {
    labels
        .iter()
        .map(|label| PickerRow {
            label: (*label).to_owned(),
            detail: Some("local branch".to_owned()),
            searchable: (*label).to_owned(),
            value: (),
        })
        .collect()
}

fn frame(
    terminal: &mut vt100::Parser,
    rows: &[PickerRow<()>],
    filter: &str,
    selected: usize,
    size: (u16, u16),
) {
    let output = draw(&renderer(), "repo", rows, filter, selected, size);
    terminal.process(output.as_bytes());
}

#[test]
fn raw_mode_frames_keep_rows_aligned_when_selecting_and_filtering() {
    let rows = rows(&["main", "feature/alpha", "feature/beta"]);
    let mut terminal = vt100::Parser::new(24, 80, 0);
    terminal.process(b"Prior shell output\r\n$ acre\r\n");
    for (filter, selected, expected_rows) in [
        (
            "",
            0,
            "› main  local branch\n  feature/alpha  local branch\n  feature/beta  local branch",
        ),
        (
            "",
            1,
            "  main  local branch\n› feature/alpha  local branch\n  feature/beta  local branch",
        ),
        ("beta", 0, "› feature/beta  local branch"),
        ("missing", 0, "  No matches"),
        (
            "",
            0,
            "› main  local branch\n  feature/alpha  local branch\n  feature/beta  local branch",
        ),
    ] {
        frame(&mut terminal, &rows, filter, selected, (80, 24));
        let contents = terminal.screen().contents();
        assert!(
            contents.starts_with(&format!(
                "Prior shell output\n$ acre\nrepo\n\n{expected_rows}\n\n"
            )),
            "{contents}"
        );
        assert_eq!(terminal.screen().cursor_position(), (2, 0));
        assert!(contents.ends_with(if filter.is_empty() { "Esc leave" } else { "Esc" }));
    }
    terminal.process(b"\r\x1b[0J");
    assert_eq!(terminal.screen().contents(), "Prior shell output\n$ acre");
}

#[test]
fn long_rows_and_small_terminals_do_not_wrap_or_hide_the_selection() {
    let labels = (0..30)
        .map(|index| format!("feature/{index:02}-{}", "日本語".repeat(30)))
        .collect::<Vec<_>>();
    let rows = rows(&labels.iter().map(String::as_str).collect::<Vec<_>>());
    for (width, height) in [(80, 24), (40, 8), (20, 4), (10, 2), (10, 1)] {
        let mut terminal = vt100::Parser::new(height, width, 0);
        // Start at the bottom as a real shell often does.
        terminal.process(format!("\x1b[{height};1H").as_bytes());
        for selected in [0, 15, 29, 0] {
            frame(&mut terminal, &rows, "", selected, (width, height));
            let contents = terminal.screen().contents();
            assert_eq!(contents.matches('›').count(), 1, "{width}x{height}: {contents}");
            assert!(contents.contains('…'), "{contents}");
            for row in 0..height {
                assert!(
                    !terminal.screen().row_wrapped(row),
                    "{width}x{height}: {contents}"
                );
            }
            assert_eq!(terminal.screen().cursor_position().1, 0);
            if height >= 4 {
                assert!(
                    contents.contains(&format!("› feature/{selected:02}-")),
                    "{contents}"
                );
            }
        }
    }
}

#[test]
fn resizing_redraws_from_the_origin_without_stale_rows() {
    let rows = rows(&["main", "feature/alpha", "feature/beta"]);
    let mut terminal = vt100::Parser::new(24, 80, 0);
    for (width, height) in [(80, 24), (20, 4), (40, 8), (80, 24)] {
        terminal.set_size(height, width);
        frame(&mut terminal, &rows, "", 2, (width, height));
        let contents = terminal.screen().contents();
        assert_eq!(contents.matches("repo").count(), 1, "{contents}");
        assert_eq!(contents.matches('›').count(), 1, "{contents}");
        assert!(contents.contains("› feature/beta"), "{contents}");
        assert_eq!(terminal.screen().cursor_position(), (0, 0));
    }
    frame(&mut terminal, &rows, &"z".repeat(200), 0, (80, 24));
    let contents = terminal.screen().contents();
    assert!(contents.contains("No matches"));
    assert!(!contents.contains("feature/"));
    for row in 0..24 {
        assert!(!terminal.screen().row_wrapped(row));
    }
}

#[test]
fn clipping_preserves_graphemes_and_escapes_terminal_controls() {
    let renderer = renderer();
    for (text, width, expected) in [
        ("日本語", 5, "日本…"),
        ("👩‍💻abc", 3, "👩‍💻…"),
        ("éabc", 2, "é…"),
        ("hello", 5, "hello"),
        ("hello", 1, "…"),
        ("hello", 0, ""),
        ("<bold>\n", 20, "‹bold›\\x0a"),
    ] {
        assert_eq!(format_line(&renderer, &[("blue", text)], width), expected);
    }
    assert_eq!(
        format_line(
            &renderer,
            &[("green", "› "), ("blue", "日本語"), ("dim", " detail")],
            7
        ),
        "› 日本…"
    );
}

#[test]
fn keys_move_round_the_visible_rows_and_edits_reset_the_selection() {
    let rows: Vec<PickerRow<()>> = ["main", "feature/alpha", "feature/beta"]
        .iter()
        .map(|label| PickerRow { label: (*label).to_owned(), detail: None, searchable: (*label).to_owned(), value: () })
        .collect();
    let mut state = PickerState { filter: String::new(), selected: 0 };
    assert_eq!(picker_step(&rows, &mut state, PickerKey::Up), PickerStep::Continue);
    assert_eq!(state.selected, 2);
    assert_eq!(picker_step(&rows, &mut state, PickerKey::Down), PickerStep::Continue);
    assert_eq!(state.selected, 0);
    picker_step(&rows, &mut state, PickerKey::Char('b'));
    picker_step(&rows, &mut state, PickerKey::Char('e'));
    assert_eq!(state.filter, "be");
    assert_eq!(state.selected, 0);
    assert_eq!(picker_step(&rows, &mut state, PickerKey::Enter), PickerStep::Select(2));
    picker_step(&rows, &mut state, PickerKey::Backspace);
    assert_eq!(state.filter, "b");
    state.filter = "zzz".to_owned();
    assert_eq!(picker_step(&rows, &mut state, PickerKey::Enter), PickerStep::Continue);
    assert_eq!(picker_step(&rows, &mut state, PickerKey::Escape), PickerStep::Cancel);
    assert_eq!(picker_step(&rows, &mut state, PickerKey::Interrupt), PickerStep::Interrupt);
}
