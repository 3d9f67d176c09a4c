//! The event loop's decisions: what a window event asks for, and what a failed
//! frame leads to.

use vstd::prelude::*;
use crate::surface::{SurfaceSize, CellLayout, cells_fitting, accepted_size, grid_size, lemma_cells_fitting};

verus! {

/// The window events the terminal reacts to; all others are `Other`.
#[derive(Clone, Debug, PartialEq, Eq)]
pub enum WindowInput {
    CloseRequested,
    Resized(SurfaceSize),
    RedrawRequested,
    /// A key press that produced text, as the UTF-8 bytes of that text.
    Typed(Vec<u8>),
    Other,
}

/// The steps the event loop carries out, in order.
#[derive(Clone, Debug, PartialEq, Eq)]
pub enum WindowAction {
    /// Leave the event loop.
    Exit,
    /// Resize the surface to the given size.
    Resize(SurfaceSize),
    /// Resize the terminal's grid, and tell the pseudo-terminal, to `cols`
    /// columns and `rows` rows.
    ResizeGrid { cols: u16, rows: u16 },
    /// Ask the window for a new frame.
    RequestRedraw,
    /// Take every chunk of output that the reader has sent so far.
    DrainPty,
    /// Draw a frame.
    Render,
    /// Write the bytes to the pseudo-terminal, as the shell's input.
    WritePty(Vec<u8>),
}

/// The steps for a resize to `size`: the surface is resized; where the size is
/// accepted (no zero side) the grid and the pseudo-terminal take the columns and
/// rows that fit in it; then a frame is asked for.
pub open spec fn resize_steps(size: SurfaceSize, layout: CellLayout) -> Seq<WindowAction> {
    if size.width > 0 && size.height > 0 {
        seq![
            WindowAction::Resize(size),
            WindowAction::ResizeGrid {
                cols: cells_fitting(size.width, layout.padding, layout.cell_width) as u16,
                rows: cells_fitting(size.height, layout.padding, layout.cell_height) as u16,
            },
            WindowAction::RequestRedraw,
        ]
    } else {
        seq![WindowAction::Resize(size), WindowAction::RequestRedraw]
    }
}

/// The steps for `input`, where `ours` says that the renderer exists and the
/// event is for its window (otherwise nothing is done): a close request leaves
/// the loop; a resize is handled as `resize_steps` says; a redraw takes the
/// pending output and draws; typed text goes to the pseudo-terminal (when there
/// is any); anything else is ignored.
pub open spec fn window_steps(ours: bool, input: WindowInput, layout: CellLayout) -> Seq<WindowAction> {
    if !ours {
        Seq::empty()
    } else {
        match input {
            WindowInput::CloseRequested => seq![WindowAction::Exit],
            WindowInput::Resized(size) => resize_steps(size, layout),
            WindowInput::RedrawRequested => seq![WindowAction::DrainPty, WindowAction::Render],
            WindowInput::Typed(bytes) => if bytes@.len() > 0 {
                seq![WindowAction::WritePty(bytes)]
            } else {
                Seq::empty()
            },
            WindowInput::Other => Seq::empty(),
        }
    }
}

/// The steps the event loop takes for `input` (see `window_steps`), for cells
/// laid out as `layout` says.
pub fn window_actions(ours: bool, input: WindowInput, layout: CellLayout) -> (actions: Vec<WindowAction>)
    requires
        layout.cell_width > 0,
        layout.cell_height > 0,
    ensures
        actions@ == window_steps(ours, input, layout),
{
    let ghost spec_input = input;
    let mut actions: Vec<WindowAction> = Vec::new();
    if ours {
        match input {
            WindowInput::CloseRequested => {
                actions.push(WindowAction::Exit);
            },
            WindowInput::Resized(size) => {
                actions.push(WindowAction::Resize(size));
                match accepted_size(size) {
                    Some(accepted) => {
                        let (cols, rows) = grid_size(accepted, layout.cell_width, layout.cell_height, layout.padding);
                        actions.push(WindowAction::ResizeGrid { cols, rows });
                    },
                    None => {},
                }
                actions.push(WindowAction::RequestRedraw);
            },
            WindowInput::RedrawRequested => {
                actions.push(WindowAction::DrainPty);
                actions.push(WindowAction::Render);
            },
            WindowInput::Typed(bytes) => {
                if bytes.len() > 0 {
                    actions.push(WindowAction::WritePty(bytes));
                }
            },
            WindowInput::Other => {},
        }
    }
    assert(actions@ =~= window_steps(ours, spec_input, layout));
    actions
}

/// What each input leads to: nothing for another window or for an input the
/// terminal ignores; typed text of any length of at least one byte is written to
/// the pseudo-terminal exactly as typed, and empty text writes nothing; a close
/// request leaves the loop; a redraw takes the pending output, then draws; a
/// resize resizes the surface first and asks for a frame last.
pub proof fn lemma_window_steps(ours: bool, input: WindowInput, layout: CellLayout, b: Vec<u8>, size: SurfaceSize)
    ensures
        window_steps(false, input, layout) == Seq::<WindowAction>::empty(),
        window_steps(true, WindowInput::Other, layout) == Seq::<WindowAction>::empty(),
        b@.len() >= 1 ==> window_steps(true, WindowInput::Typed(b), layout) == seq![WindowAction::WritePty(b)],
        b@.len() == 0 ==> window_steps(true, WindowInput::Typed(b), layout) == Seq::<WindowAction>::empty(),
        window_steps(true, WindowInput::CloseRequested, layout) == seq![WindowAction::Exit],
        window_steps(true, WindowInput::RedrawRequested, layout) == seq![WindowAction::DrainPty, WindowAction::Render],
        window_steps(true, WindowInput::Resized(size), layout)[0] == WindowAction::Resize(size),
        window_steps(true, WindowInput::Resized(size), layout).last() == WindowAction::RequestRedraw,
        window_steps(true, WindowInput::Resized(size), layout).len() == if size.width > 0 && size.height > 0 {
            3int
        } else {
            2int
        },
{
}

/// On a resize to a size with no zero side, the grid is resized to the most
/// whole cells that fit inside the margins (up to the largest pseudo-terminal
/// size): `cols` cells fit across and one more would not, and likewise for rows.
pub proof fn lemma_resize_grid_fits(size: SurfaceSize, layout: CellLayout)
    requires
        size.width > 0,
        size.height > 0,
        layout.cell_width > 0,
        layout.cell_height > 0,
    ensures
        ({
            let steps = window_steps(true, WindowInput::Resized(size), layout);
            let room_w = size.width - 2 * layout.padding;
            let room_h = size.height - 2 * layout.padding;
            steps[1] matches WindowAction::ResizeGrid { cols, rows } && {
                &&& cols * layout.cell_width <= if room_w > 0 { room_w } else { 0 }
                &&& (cols < u16::MAX ==> (cols + 1) * layout.cell_width > room_w)
                &&& rows * layout.cell_height <= if room_h > 0 { room_h } else { 0 }
                &&& (rows < u16::MAX ==> (rows + 1) * layout.cell_height > room_h)
            }
        }),
{
    lemma_cells_fitting(size.width, layout.padding, layout.cell_width);
    lemma_cells_fitting(size.height, layout.padding, layout.cell_height);
}

/// How drawing a frame ended: presented, or one of the surface errors.
#[derive(Clone, Copy, Debug, PartialEq, Eq, Structural)]
pub enum RenderOutcome {
    Presented,
    Timeout,
    Outdated,
    Lost,
    OutOfMemory,
}

/// What the event loop does after a frame.
#[derive(Clone, Copy, Debug, PartialEq, Eq, Structural)]
pub enum RenderResponse {
    /// Nothing more to do.
    Done,
    /// Configure the surface again at the given size.
    Reconfigure(SurfaceSize),
    /// Report that memory ran out, and leave the event loop.
    ExitOutOfMemory,
    /// Report the error and carry on.
    Report,
}

/// The response to a frame's outcome, given the surface's current size: a lost
/// surface is configured again at that size, running out of memory ends the
/// loop, the other errors are reported.
pub fn render_response(outcome: RenderOutcome, current: SurfaceSize) -> (response: RenderResponse)
    ensures
        response == match outcome {
            RenderOutcome::Presented => RenderResponse::Done,
            RenderOutcome::Lost => RenderResponse::Reconfigure(current),
            RenderOutcome::OutOfMemory => RenderResponse::ExitOutOfMemory,
            RenderOutcome::Timeout => RenderResponse::Report,
            RenderOutcome::Outdated => RenderResponse::Report,
        },
{
    match outcome {
        RenderOutcome::Presented => RenderResponse::Done,
        RenderOutcome::Lost => RenderResponse::Reconfigure(current),
        RenderOutcome::OutOfMemory => RenderResponse::ExitOutOfMemory,
        RenderOutcome::Timeout => RenderResponse::Report,
        RenderOutcome::Outdated => RenderResponse::Report,
    }
}

} // verus!
