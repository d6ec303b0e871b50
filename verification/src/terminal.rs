//! The terminal surface as the core sees it: plain cell geometry and a
//! queue of draw commands. The surrounding application owns the real
//! terminal; it drains the queue, performs each command, and flushes the
//! frame as one write.

use vstd::prelude::*;

verus! {

/// The visible grid, in character cells.
#[derive(Debug, Copy, Clone)]
pub struct Size {
    pub height: usize,
    pub width: usize,
}

/// A cell position, column `x` and row `y`.
#[derive(Debug, Copy, Clone)]
pub struct Position {
    pub x: usize,
    pub y: usize,
}

/// One drawing step of a frame.
#[derive(Debug, Clone, PartialEq, Eq)]
pub enum DrawCmd {
    ClearScreen,
    ClearLine,
    HideCursor,
    ShowCursor,
    MoveTo(usize, usize),
    Print(String),
}

/// The mathematical shape of a drawing step: printed text as a character
/// sequence, coordinates as integers.
pub enum SpecCmd {
    ClearScreen,
    ClearLine,
    HideCursor,
    ShowCursor,
    MoveTo(int, int),
    Print(Seq<char>),
}

impl View for DrawCmd {
    type V = SpecCmd;

    open spec fn view(&self) -> SpecCmd {
        match self {
            DrawCmd::ClearScreen => SpecCmd::ClearScreen,
            DrawCmd::ClearLine => SpecCmd::ClearLine,
            DrawCmd::HideCursor => SpecCmd::HideCursor,
            DrawCmd::ShowCursor => SpecCmd::ShowCursor,
            DrawCmd::MoveTo(x, y) => SpecCmd::MoveTo(*x as int, *y as int),
            DrawCmd::Print(s) => SpecCmd::Print(s@),
        }
    }
}

/// The terminal handle the core draws through. It only queues commands, in
/// order; the application performs them and flushes. Its view is the queued
/// command sequence.
pub struct Terminal {
    queued: Vec<DrawCmd>,
}

impl View for Terminal {
    type V = Seq<SpecCmd>;

    closed spec fn view(&self) -> Seq<SpecCmd> {
        self.queued@.map_values(|c: DrawCmd| c@)
    }
}

impl Terminal {
    /// A handle with nothing queued yet.
    pub fn new() -> (term: Self)
        ensures
            term@ == Seq::<SpecCmd>::empty(),
    {
        let term = Terminal { queued: Vec::new() };
        proof {
            assert(term@ =~= Seq::<SpecCmd>::empty());
        }
        term
    }

    /// Hand the queued commands over for execution, oldest first.
    pub fn into_queued(self) -> (cmds: Vec<DrawCmd>)
        ensures
            cmds@.map_values(|c: DrawCmd| c@) == self@,
    {
        self.queued
    }

    fn queue(&mut self, cmd: DrawCmd)
        ensures
            final(self)@ == old(self)@.push(cmd@),
    {
        self.queued.push(cmd);
        proof {
            assert(final(self)@ =~= old(self)@.push(cmd@));
        }
    }

    pub fn clear_screen(&mut self)
        ensures
            final(self)@ == old(self)@.push(SpecCmd::ClearScreen),
    {
        self.queue(DrawCmd::ClearScreen);
    }

    pub fn clear_line(&mut self)
        ensures
            final(self)@ == old(self)@.push(SpecCmd::ClearLine),
    {
        self.queue(DrawCmd::ClearLine);
    }

    pub fn hide_cursor(&mut self)
        ensures
            final(self)@ == old(self)@.push(SpecCmd::HideCursor),
    {
        self.queue(DrawCmd::HideCursor);
    }

    pub fn show_cursor(&mut self)
        ensures
            final(self)@ == old(self)@.push(SpecCmd::ShowCursor),
    {
        self.queue(DrawCmd::ShowCursor);
    }

    pub fn move_cursor_to(&mut self, pos: Position)
        ensures
            final(self)@ == old(self)@.push(SpecCmd::MoveTo(pos.x as int, pos.y as int)),
    {
        self.queue(DrawCmd::MoveTo(pos.x, pos.y));
    }

    pub fn print(&mut self, msg: &str)
        ensures
            final(self)@ == old(self)@.push(SpecCmd::Print(msg@)),
    {
        self.queue(DrawCmd::Print(msg.to_owned()));
    }
}

} // verus!
