use hecto::{Buffer, DrawCmd, Editor, InputKey, Size, Terminal, Viewer};

fn render_cmds_for(text: Option<&str>, width: usize, height: usize) -> Vec<DrawCmd> {
    let mut viewer = Viewer::new();
    if let Some(text) = text {
        viewer.load(text);
    }
    let mut term = Terminal::new();
    viewer.render(&mut term, Size { width, height });
    term.into_queued()
}

/// The text printed for each visible row: the commands between one
/// `ClearLine` and the next, with the `"\r\n"` separators dropped.
fn printed_rows(cmds: &[DrawCmd]) -> Vec<String> {
    let mut rows: Vec<String> = Vec::new();
    for cmd in cmds {
        match cmd {
            DrawCmd::ClearLine => rows.push(String::new()),
            DrawCmd::Print(s) if s != "\r\n" => {
                let last = rows.last_mut().expect("print before any row");
                last.push_str(s);
            }
            _ => {}
        }
    }
    rows
}

#[test]
fn load_splits_on_line_terminators() {
    let buffer = Buffer::load("a\nb\nc");
    assert_eq!(buffer.size(), 3);
    assert!(!buffer.is_empty());
    assert_eq!(buffer.get(0).as_deref(), Some("a"));
    assert_eq!(buffer.get(1).as_deref(), Some("b"));
    assert_eq!(buffer.get(2).as_deref(), Some("c"));
    assert_eq!(buffer.get(3), None);
}

#[test]
fn get_is_idempotent() {
    let buffer = Buffer::load("first\nsecond");
    assert_eq!(buffer.get(1).as_deref(), Some("second"));
    assert_eq!(buffer.get(1).as_deref(), Some("second"));
    assert_eq!(buffer.size(), 2);
    assert_eq!(buffer.size(), 2);
}

#[test]
fn load_handles_terminator_edge_cases() {
    assert_eq!(Buffer::load("").size(), 0);
    assert!(Buffer::load("").is_empty());

    let trailing = Buffer::load("one\n");
    assert_eq!(trailing.size(), 1);
    assert_eq!(trailing.get(0).as_deref(), Some("one"));

    let crlf = Buffer::load("one\r\ntwo");
    assert_eq!(crlf.size(), 2);
    assert_eq!(crlf.get(0).as_deref(), Some("one"));
    assert_eq!(crlf.get(1).as_deref(), Some("two"));

    let lone_cr = Buffer::load("one\rtwo");
    assert_eq!(lone_cr.size(), 1);
    assert_eq!(lone_cr.get(0).as_deref(), Some("one\rtwo"));

    let blank_lines = Buffer::load("\n\n");
    assert_eq!(blank_lines.size(), 2);
    assert_eq!(blank_lines.get(0).as_deref(), Some(""));
    assert_eq!(blank_lines.get(1).as_deref(), Some(""));
}

#[test]
fn render_three_lines_on_80x24() {
    let cmds = render_cmds_for(Some("a\nb\nc"), 80, 24);

    let rows = printed_rows(&cmds);
    assert_eq!(rows.len(), 24);
    assert_eq!(rows[0], "a");
    assert_eq!(rows[1], "b");
    assert_eq!(rows[2], "c");
    for row in rows.iter().take(24).skip(3) {
        assert_eq!(row, "~");
    }

    // The store is non-empty, so no banner overlay is queued anywhere.
    for cmd in &cmds {
        assert!(!matches!(cmd, DrawCmd::MoveTo(_, _)));
    }

    // A line break follows every row except the last.
    let breaks = cmds
        .iter()
        .filter(|c| matches!(c, DrawCmd::Print(s) if s == "\r\n"))
        .count();
    assert_eq!(breaks, 23);
    assert!(!matches!(cmds.last(), Some(DrawCmd::Print(s)) if s == "\r\n"));
}

#[test]
fn render_empty_store_centers_banner() {
    let cmds = render_cmds_for(None, 80, 24);

    // Every row starts with its clear and the placeholder glyph.
    let rows = printed_rows(&cmds);
    assert_eq!(rows.len(), 24);
    for (r, row) in rows.iter().enumerate() {
        assert!(row.starts_with('~'), "row {r} lost its glyph");
        if r != 24 / 3 {
            assert_eq!(row, "~");
        }
    }

    // The banner lands on row height / 3, horizontally centered.
    let at = cmds
        .iter()
        .position(|c| matches!(c, DrawCmd::MoveTo(_, _)))
        .expect("no banner move");
    let (col, row) = match cmds[at] {
        DrawCmd::MoveTo(x, y) => (x, y),
        _ => unreachable!(),
    };
    let banner = match &cmds[at + 1] {
        DrawCmd::Print(s) => s.clone(),
        other => panic!("expected the banner print, found {other:?}"),
    };
    assert_eq!(row, 24 / 3);
    assert_eq!(col, (80 - banner.chars().count()) / 2);
    assert!(!banner.contains('~'));

    // Only the one overlay move in the whole frame.
    let moves = cmds
        .iter()
        .filter(|c| matches!(c, DrawCmd::MoveTo(_, _)))
        .count();
    assert_eq!(moves, 1);
}

#[test]
fn banner_skipped_on_narrow_terminal() {
    let cmds = render_cmds_for(None, 5, 6);
    for cmd in &cmds {
        assert!(!matches!(cmd, DrawCmd::MoveTo(_, _)));
    }
    let rows = printed_rows(&cmds);
    assert_eq!(rows.len(), 6);
    for row in rows {
        assert_eq!(row, "~");
    }
}

#[test]
fn render_on_zero_height_queues_nothing() {
    assert!(render_cmds_for(None, 80, 0).is_empty());
    assert!(render_cmds_for(Some("a"), 80, 0).is_empty());
}

#[test]
fn refresh_frame_wraps_redraw_and_restores_cursor() {
    let mut viewer = Viewer::new();
    viewer.load("a\nb");
    let mut editor = Editor::default();
    let size = Size { width: 80, height: 24 };
    editor.evaluate_event(InputKey::Right, size);
    editor.evaluate_event(InputKey::Down, size);

    let mut term = Terminal::new();
    editor.refresh_screen(&viewer, &mut term, size);
    let cmds = term.into_queued();

    assert_eq!(cmds[0], DrawCmd::HideCursor);
    assert_eq!(cmds[1], DrawCmd::MoveTo(0, 0));
    assert_eq!(cmds[cmds.len() - 1], DrawCmd::ShowCursor);
    assert_eq!(cmds[cmds.len() - 2], DrawCmd::MoveTo(1, 1));
    assert!(cmds.iter().any(|c| matches!(c, DrawCmd::Print(s) if s == "a")));
}

#[test]
fn quit_frame_clears_and_says_goodbye() {
    let viewer = Viewer::new();
    let mut editor = Editor::default();
    let size = Size { width: 80, height: 24 };
    editor.evaluate_event(InputKey::Quit, size);
    assert!(editor.should_quit);

    let mut term = Terminal::new();
    editor.refresh_screen(&viewer, &mut term, size);
    let cmds = term.into_queued();
    assert_eq!(
        cmds,
        vec![
            DrawCmd::HideCursor,
            DrawCmd::MoveTo(0, 0),
            DrawCmd::ClearScreen,
            DrawCmd::Print(String::from("GoodBye! \r\n")),
            DrawCmd::ShowCursor,
        ]
    );
}
