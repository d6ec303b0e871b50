//! The view renderer: redraws every visible row each frame from the line
//! store, or a placeholder screen with a centered banner when no content is
//! loaded. It only queues draw commands; the application performs them.

use vstd::prelude::*;

use crate::buffer::{split_lines, Buffer};
use crate::terminal::{Position, Size, SpecCmd, Terminal};

verus! {

/// The placeholder glyph drawn on rows beyond available content.
pub open spec fn tilde_text() -> Seq<char> {
    "~"@
}

/// The line break emitted between rows.
pub open spec fn line_break_text() -> Seq<char> {
    "\r\n"@
}

/// The banner identifying the product, shown centered when nothing is
/// loaded.
pub open spec fn banner_text() -> Seq<char> {
    "hecto -- version 0.1.0"@
}

/// The banner overlay on the banner row: a move to the centering column,
/// then the banner itself. On a terminal narrower than the banner nothing
/// is drawn, so the centering arithmetic never underflows.
pub open spec fn banner_cmds(width: int, height: int) -> Seq<SpecCmd> {
    if banner_text().len() <= width {
        seq![
            SpecCmd::MoveTo((width - banner_text().len()) / 2, height / 3),
            SpecCmd::Print(banner_text()),
        ]
    } else {
        Seq::empty()
    }
}

/// One row of the placeholder screen: clear it, draw the glyph, overlay the
/// banner on row `height / 3`, and break the line on every row but the
/// last.
pub open spec fn homepage_row_cmds(r: int, width: int, height: int) -> Seq<SpecCmd> {
    let base = seq![SpecCmd::ClearLine, SpecCmd::Print(tilde_text())];
    let with_banner = if r == height / 3 {
        base + banner_cmds(width, height)
    } else {
        base
    };
    if r + 1 < height {
        with_banner + seq![SpecCmd::Print(line_break_text())]
    } else {
        with_banner
    }
}

/// The placeholder screen from row `r` down.
pub open spec fn homepage_rows_from(r: int, width: int, height: int) -> Seq<SpecCmd>
    decreases height - r,
{
    if r < 0 || r >= height {
        Seq::empty()
    } else {
        homepage_row_cmds(r, width, height) + homepage_rows_from(r + 1, width, height)
    }
}

/// The whole placeholder screen.
pub open spec fn render_homepage_cmds(width: int, height: int) -> Seq<SpecCmd> {
    homepage_rows_from(0, width, height)
}

/// One row of loaded content: clear it, print the stored line if the row
/// has one and the glyph otherwise, and break the line on every row but
/// the last.
pub open spec fn buffer_row_cmds(lines: Seq<Seq<char>>, r: int, height: int) -> Seq<SpecCmd> {
    let content = if r < lines.len() {
        SpecCmd::Print(lines[r])
    } else {
        SpecCmd::Print(tilde_text())
    };
    let base = seq![SpecCmd::ClearLine, content];
    if r + 1 < height {
        base + seq![SpecCmd::Print(line_break_text())]
    } else {
        base
    }
}

/// The loaded content from row `r` down.
pub open spec fn buffer_rows_from(lines: Seq<Seq<char>>, r: int, height: int) -> Seq<SpecCmd>
    decreases height - r,
{
    if r < 0 || r >= height {
        Seq::empty()
    } else {
        buffer_row_cmds(lines, r, height) + buffer_rows_from(lines, r + 1, height)
    }
}

/// The whole content screen.
pub open spec fn render_buffer_cmds(lines: Seq<Seq<char>>, height: int) -> Seq<SpecCmd> {
    buffer_rows_from(lines, 0, height)
}

/// What one full redraw queues: the placeholder screen when the store is
/// empty, the loaded content otherwise.
pub open spec fn render_cmds(lines: Seq<Seq<char>>, width: int, height: int) -> Seq<SpecCmd> {
    if lines.len() == 0 {
        render_homepage_cmds(width, height)
    } else {
        render_buffer_cmds(lines, height)
    }
}

/// The view: the loaded lines together with the renderer that draws them.
/// Its mathematical value is the stored line sequence.
pub struct Viewer {
    buffer: Buffer,
}

impl View for Viewer {
    type V = Seq<Seq<char>>;

    closed spec fn view(&self) -> Seq<Seq<char>> {
        self.buffer@
    }
}

impl Viewer {
    /// A view with nothing loaded: the placeholder screen will render.
    pub fn new() -> (viewer: Self)
        ensures
            viewer@ == Seq::<Seq<char>>::empty(),
    {
        Viewer { buffer: Buffer::new() }
    }

    /// Replace the store with the lines of a text source already read into
    /// memory. A source that could not be read at all never reaches this
    /// point: the caller keeps the old store instead.
    pub fn load(&mut self, text: &str)
        ensures
            final(self)@ == split_lines(text@),
    {
        self.buffer = Buffer::load(text);
    }

    /// Queue one full redraw against the given terminal size.
    pub fn render(&self, term: &mut Terminal, size: Size)
        ensures
            final(term)@ == old(term)@ + render_cmds(self@, size.width as int, size.height as int),
    {
        if self.buffer.is_empty() {
            Self::render_homepage(term, size);
        } else {
            self.render_buffer(term, size);
        }
    }

    fn render_homepage(term: &mut Terminal, size: Size)
        ensures
            final(term)@ == old(term)@ + render_homepage_cmds(
                size.width as int,
                size.height as int,
            ),
    {
        let height = size.height;
        let width = size.width;
        let banner_row = height / 3;
        let mut current_row: usize = 0;
        proof {
            assert(old(term)@ + homepage_rows_from(0, width as int, height as int) =~= term@
                + homepage_rows_from(0, width as int, height as int));
        }
        while current_row < height
            invariant
                current_row <= height,
                height == size.height,
                width == size.width,
                banner_row == height / 3,
                term@ + homepage_rows_from(current_row as int, width as int, height as int)
                    == old(term)@ + homepage_rows_from(0, width as int, height as int),
            decreases height - current_row,
        {
            let ghost entry = term@;
            term.clear_line();
            Self::draw_empty_rows(term);
            if current_row == banner_row {
                Self::draw_welcome_msg(term, size);
            }
            if current_row + 1 < height {
                term.print("\r\n");
            }
            proof {
                assert(term@ =~= entry + homepage_row_cmds(
                    current_row as int,
                    width as int,
                    height as int,
                ));
                assert(homepage_rows_from(current_row as int, width as int, height as int)
                    == homepage_row_cmds(current_row as int, width as int, height as int)
                    + homepage_rows_from(current_row + 1, width as int, height as int));
                assert(term@ + homepage_rows_from(current_row + 1, width as int, height as int)
                    =~= entry + homepage_rows_from(current_row as int, width as int, height as int));
            }
            current_row = current_row + 1;
        }
        proof {
            assert(homepage_rows_from(height as int, width as int, height as int)
                == Seq::<SpecCmd>::empty());
            assert(term@ + Seq::<SpecCmd>::empty() =~= term@);
        }
    }

    fn render_buffer(&self, term: &mut Terminal, size: Size)
        ensures
            final(term)@ == old(term)@ + render_buffer_cmds(self@, size.height as int),
    {
        let height = size.height;
        proof {
            assert(old(term)@ + buffer_rows_from(self@, 0, height as int) =~= term@
                + buffer_rows_from(self@, 0, height as int));
        }
        let mut current_row: usize = 0;
        while current_row < height
            invariant
                current_row <= height,
                height == size.height,
                term@ + buffer_rows_from(self@, current_row as int, height as int) == old(term)@
                    + buffer_rows_from(self@, 0, height as int),
            decreases height - current_row,
        {
            let ghost entry = term@;
            term.clear_line();
            match self.buffer.get(current_row) {
                Some(line) => {
                    term.print(line.as_str());
                },
                None => {
                    Self::draw_empty_rows(term);
                },
            }
            if current_row + 1 < height {
                term.print("\r\n");
            }
            proof {
                assert(term@ =~= entry + buffer_row_cmds(self@, current_row as int, height as int));
                assert(buffer_rows_from(self@, current_row as int, height as int)
                    == buffer_row_cmds(self@, current_row as int, height as int)
                    + buffer_rows_from(self@, current_row + 1, height as int));
                assert(term@ + buffer_rows_from(self@, current_row + 1, height as int) =~= entry
                    + buffer_rows_from(self@, current_row as int, height as int));
            }
            current_row = current_row + 1;
        }
        proof {
            assert(buffer_rows_from(self@, height as int, height as int)
                == Seq::<SpecCmd>::empty());
            assert(term@ + Seq::<SpecCmd>::empty() =~= term@);
        }
    }

    /// Draw the placeholder glyph marking a row beyond content.
    fn draw_empty_rows(term: &mut Terminal)
        ensures
            final(term)@ == old(term)@.push(SpecCmd::Print(tilde_text())),
    {
        term.print("~");
    }

    /// Draw the centered banner, or nothing at all on a terminal narrower
    /// than the banner.
    fn draw_welcome_msg(term: &mut Terminal, size: Size)
        ensures
            final(term)@ == old(term)@ + banner_cmds(size.width as int, size.height as int),
    {
        let welcome_message = "hecto -- version 0.1.0";
        let welcome_message_len = welcome_message.unicode_len();
        if welcome_message_len <= size.width {
            let padding = (size.width - welcome_message_len) / 2;
            term.move_cursor_to(Position { x: padding, y: size.height / 3 });
            term.print(welcome_message);
            proof {
                assert(term@ =~= old(term)@ + banner_cmds(
                    size.width as int,
                    size.height as int,
                ));
            }
        } else {
            proof {
                assert(term@ =~= old(term)@ + banner_cmds(
                    size.width as int,
                    size.height as int,
                ));
            }
        }
    }
}

} // verus!
