//! What a session is made from: the terminal's dimensions and the plan for
//! starting its command.

use vstd::prelude::*;

verus! {

/// Columns of a terminal whose creator named none.
pub const DEFAULT_COLS: u16 = 80;

/// Rows of a terminal whose creator named none.
pub const DEFAULT_ROWS: u16 = 24;

/// The dimensions of a pseudo-terminal, in character cells and in pixels.
#[derive(Clone, Copy, Debug, PartialEq, Eq, Structural)]
pub struct PtySize {
    pub rows: u16,
    pub cols: u16,
    pub pixel_width: u16,
    pub pixel_height: u16,
}

impl PtySize {
    /// A terminal of `cols` by `rows` cells, with no pixel dimensions.
    pub open spec fn cells(cols: u16, rows: u16) -> PtySize {
        PtySize { rows, cols, pixel_width: 0, pixel_height: 0 }
    }

    /// The dimensions for a new session: what was asked for, and the
    /// defaults where nothing was.
    pub open spec fn requested(cols: Option<u16>, rows: Option<u16>) -> PtySize {
        PtySize::cells(
            match cols {
                Some(c) => c,
                None => DEFAULT_COLS,
            },
            match rows {
                Some(r) => r,
                None => DEFAULT_ROWS,
            },
        )
    }

    /// A terminal of `cols` by `rows` cells, with no pixel dimensions.
    pub fn of_cells(cols: u16, rows: u16) -> (size: PtySize)
        ensures
            size == PtySize::cells(cols, rows),
    {
        PtySize { rows, cols, pixel_width: 0, pixel_height: 0 }
    }
}

/// How to start a session's command: what the caller asked for, laid out as
/// the PTY layer takes it.
pub struct SpawnPlan {
    /// The program to run: the first element of the command.
    pub program: String,
    /// Its arguments: the rest of the command, in order.
    pub args: Vec<String>,
    /// The working directory, where one was given.
    pub cwd: Option<String>,
    /// The dimensions to open the PTY with.
    pub size: PtySize,
}

impl SpawnPlan {
    /// Lays out a creation request. The command's first element is the
    /// program and the others are its arguments; missing dimensions take the
    /// defaults of 80 columns and 24 rows.
    pub fn new(command: Vec<String>, cwd: Option<String>, cols: Option<u16>, rows: Option<u16>) -> (plan: SpawnPlan)
        requires
            command@.len() > 0,
        ensures
            plan.program == command@[0],
            plan.args@ == command@.skip(1),
            plan.cwd == cwd,
            plan.size == PtySize::requested(cols, rows),
    {
        let mut args = command;
        let program = args.remove(0);
        assert(args@ =~= command@.skip(1));
        let size = PtySize {
            rows: match rows {
                Some(r) => r,
                None => DEFAULT_ROWS,
            },
            cols: match cols {
                Some(c) => c,
                None => DEFAULT_COLS,
            },
            pixel_width: 0,
            pixel_height: 0,
        };
        SpawnPlan { program, args, cwd, size }
    }
}

/// A command running in a freshly opened PTY.
pub struct Spawned<H> {
    /// Whatever owns the PTY pair, the child and the writer.
    pub handle: H,
    /// The child's process id, where the platform tells it.
    pub pid: Option<u32>,
}

} // verus!
