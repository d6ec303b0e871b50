//! Cursor state machine and input dispatcher: raw input, already adapted to
//! a library-agnostic event type, either quits, moves the cursor within the
//! current terminal size, or does nothing.

use vstd::prelude::*;

use crate::terminal::{Position, Size, SpecCmd, Terminal};
use crate::view::{render_cmds, Viewer};

verus! {

/// The farewell line printed when the session ends.
pub open spec fn farewell_text() -> Seq<char> {
    "GoodBye! \r\n"@
}

/// What one whole frame queues: hide the cursor, go to the origin, then
/// either the farewell screen (on quit) or a full redraw followed by a move
/// to the cursor cell, and finally show the cursor again. The application
/// flushes all of it as one write.
pub open spec fn refresh_cmds(
    quitting: bool,
    cursor: Location,
    lines: Seq<Seq<char>>,
    width: int,
    height: int,
) -> Seq<SpecCmd> {
    let head = seq![SpecCmd::HideCursor, SpecCmd::MoveTo(0, 0)];
    let body = if quitting {
        seq![SpecCmd::ClearScreen, SpecCmd::Print(farewell_text())]
    } else {
        render_cmds(lines, width, height) + seq![
            SpecCmd::MoveTo(cursor.x as int, cursor.y as int),
        ]
    };
    head + body + seq![SpecCmd::ShowCursor]
}

/// The cursor cell, column `x` and row `y`, each meant to stay within the
/// last known terminal dimension.
#[derive(Debug, Copy, Clone)]
pub struct Location {
    pub x: usize,
    pub y: usize,
}

/// A key input after adaptation from whatever source delivers it: the quit
/// combination, one of the eight navigation keys, or anything else.
#[derive(Debug, Copy, Clone)]
pub enum InputKey {
    Quit,
    Left,
    Right,
    Up,
    Down,
    Home,
    End,
    PageUp,
    PageDown,
    Other,
}

impl InputKey {
    /// Whether this key is one of the eight navigation keys.
    pub open spec fn is_navigation(self) -> bool {
        match self {
            InputKey::Quit | InputKey::Other => false,
            _ => true,
        }
    }
}

/// The greatest column the cursor may sit in: `width - 1`, or `0` on a
/// zero-width terminal.
pub open spec fn last_cell(dimension: int) -> int {
    if dimension > 0 {
        dimension - 1
    } else {
        0
    }
}

/// The new column after `key`, from column `x` on a terminal `width` cells
/// wide. Movement saturates at `0` and clamps at `width - 1`.
pub open spec fn moved_x(x: int, key: InputKey, width: int) -> int {
    match key {
        InputKey::Left => if x > 0 {
            x - 1
        } else {
            0
        },
        InputKey::Right => if x + 1 <= last_cell(width) {
            x + 1
        } else {
            last_cell(width)
        },
        InputKey::Home => 0,
        InputKey::End => last_cell(width),
        _ => x,
    }
}

/// The new row after `key`, from row `y` on a terminal `height` cells tall.
pub open spec fn moved_y(y: int, key: InputKey, height: int) -> int {
    match key {
        InputKey::Up => if y > 0 {
            y - 1
        } else {
            0
        },
        InputKey::Down => if y + 1 <= last_cell(height) {
            y + 1
        } else {
            last_cell(height)
        },
        InputKey::PageUp => 0,
        InputKey::PageDown => last_cell(height),
        _ => y,
    }
}

/// Navigation-only editor state: where the cursor is, and whether the
/// session should end. The quit flag starts false and is never reset.
pub struct Editor {
    pub should_quit: bool,
    pub location: Location,
}

impl Editor {
    /// The initial state: cursor at the origin, not quitting.
    pub fn default() -> (editor: Self)
        ensures
            !editor.should_quit,
            editor.location.x == 0,
            editor.location.y == 0,
    {
        Editor { should_quit: false, location: Location { x: 0, y: 0 } }
    }

    /// Apply one navigation key against the freshly queried terminal size.
    pub fn move_location(&mut self, key: InputKey, size: Size)
        ensures
            final(self).location.x == moved_x(old(self).location.x as int, key, size.width as int),
            final(self).location.y == moved_y(old(self).location.y as int, key, size.height as int),
            final(self).should_quit == old(self).should_quit,
    {
        let Location { mut x, mut y } = self.location;
        let width = size.width;
        let height = size.height;
        match key {
            InputKey::Left => {
                if x > 0 {
                    x = x - 1;
                }
            },
            InputKey::Right => {
                let cap = if width > 0 {
                    width - 1
                } else {
                    0
                };
                if x < cap {
                    x = x + 1;
                } else {
                    x = cap;
                }
            },
            InputKey::Up => {
                if y > 0 {
                    y = y - 1;
                }
            },
            InputKey::Down => {
                let cap = if height > 0 {
                    height - 1
                } else {
                    0
                };
                if y < cap {
                    y = y + 1;
                } else {
                    y = cap;
                }
            },
            InputKey::Home => {
                x = 0;
            },
            InputKey::End => {
                x = if width > 0 {
                    width - 1
                } else {
                    0
                };
            },
            InputKey::PageUp => {
                y = 0;
            },
            InputKey::PageDown => {
                y = if height > 0 {
                    height - 1
                } else {
                    0
                };
            },
            InputKey::Quit | InputKey::Other => {},
        }
        self.location = Location { x, y };
    }

    /// Dispatch one input event: the quit combination sets the quit flag and
    /// moves nothing, a navigation key moves the cursor, anything else
    /// changes no state. The quit flag is never reset.
    pub fn evaluate_event(&mut self, key: InputKey, size: Size)
        ensures
            final(self).should_quit == (old(self).should_quit || key is Quit),
            key is Quit ==> final(self).location == old(self).location,
            key.is_navigation() ==> final(self).location.x == moved_x(
                old(self).location.x as int,
                key,
                size.width as int,
            ) && final(self).location.y == moved_y(
                old(self).location.y as int,
                key,
                size.height as int,
            ),
            key is Other ==> *final(self) == *old(self),
    {
        match key {
            InputKey::Quit => {
                self.should_quit = true;
            },
            InputKey::Other => {},
            _ => {
                self.move_location(key, size);
            },
        }
    }

    /// Queue one whole frame for the current state: the farewell screen
    /// when quitting, otherwise a full redraw of the view with the cursor
    /// put back on its cell.
    pub fn refresh_screen(&self, viewer: &Viewer, term: &mut Terminal, size: Size)
        ensures
            final(term)@ == old(term)@ + refresh_cmds(
                self.should_quit,
                self.location,
                viewer@,
                size.width as int,
                size.height as int,
            ),
    {
        term.hide_cursor();
        term.move_cursor_to(Position { x: 0, y: 0 });
        if self.should_quit {
            term.clear_screen();
            term.print("GoodBye! \r\n");
        } else {
            viewer.render(term, size);
            term.move_cursor_to(Position { x: self.location.x, y: self.location.y });
        }
        term.show_cursor();
        proof {
            assert(term@ =~= old(term)@ + refresh_cmds(
                self.should_quit,
                self.location,
                viewer@,
                size.width as int,
                size.height as int,
            ));
        }
    }
}

/// After any movement transition from a position within the terminal, the
/// cursor is still within it: `0 <= x < width` and `0 <= y < height`.
pub proof fn lemma_movement_stays_in_bounds(x: int, y: int, key: InputKey, width: int, height: int)
    requires
        0 < width,
        0 < height,
        0 <= x < width,
        0 <= y < height,
    ensures
        0 <= moved_x(x, key, width) < width,
        0 <= moved_y(y, key, height) < height,
{
}

/// The column after pressing `key` `n` times from column `x`.
pub open spec fn moved_x_times(x: int, key: InputKey, width: int, n: nat) -> int
    decreases n,
{
    if n == 0 {
        x
    } else {
        moved_x(moved_x_times(x, key, width, (n - 1) as nat), key, width)
    }
}

/// The row after pressing `key` `n` times from row `y`.
pub open spec fn moved_y_times(y: int, key: InputKey, height: int, n: nat) -> int
    decreases n,
{
    if n == 0 {
        y
    } else {
        moved_y(moved_y_times(y, key, height, (n - 1) as nat), key, height)
    }
}

/// `Left` saturates: from column `0` it stays at `0`; `Right` clamps: from
/// column `width - 1` it stays there. `Up` and `Down` do the same on rows.
pub proof fn lemma_edges_saturate(x: int, y: int, width: int, height: int)
    requires
        0 < width,
        0 < height,
    ensures
        x == 0 ==> moved_x(x, InputKey::Left, width) == 0,
        x == width - 1 ==> moved_x(x, InputKey::Right, width) == width - 1,
        y == 0 ==> moved_y(y, InputKey::Up, height) == 0,
        y == height - 1 ==> moved_y(y, InputKey::Down, height) == height - 1,
{
}

/// Repetition changes nothing at the edges: any number of `Left` presses
/// from column `0` stays at `0`, any number of `Right` presses from column
/// `width - 1` stays there, and `Up` and `Down` behave the same on rows.
pub proof fn lemma_repeated_edges_saturate(width: int, height: int, n: nat)
    requires
        0 < width,
        0 < height,
    ensures
        moved_x_times(0, InputKey::Left, width, n) == 0,
        moved_x_times(width - 1, InputKey::Right, width, n) == width - 1,
        moved_y_times(0, InputKey::Up, height, n) == 0,
        moved_y_times(height - 1, InputKey::Down, height, n) == height - 1,
    decreases n,
{
    if n > 0 {
        lemma_repeated_edges_saturate(width, height, (n - 1) as nat);
    }
}

/// `Home` then `End` lands on column `width - 1`; `PageUp` then `PageDown`
/// lands on row `height - 1`, whatever the starting position.
pub proof fn lemma_home_end_page_extremes(x: int, y: int, width: int, height: int)
    requires
        0 < width,
        0 < height,
    ensures
        moved_x(moved_x(x, InputKey::Home, width), InputKey::End, width) == width - 1,
        moved_y(moved_y(y, InputKey::PageUp, height), InputKey::PageDown, height) == height - 1,
{
}

} // verus!
