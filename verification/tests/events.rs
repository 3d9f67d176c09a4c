use mortty::pty::{reader_step, shell_command, ControlEvent, ReaderAction, ReaderEvent};
use mortty::surface::{CellLayout, SurfaceSize};
use mortty::window::{render_response, window_actions, RenderOutcome, RenderResponse, WindowAction, WindowInput};

#[test]
fn shell_command_defaults() {
    let cmd = shell_command(None, None, None);
    assert_eq!(cmd.program, "/bin/zsh");
    assert_eq!(
        cmd.env,
        vec![
            ("TERM".to_string(), "xterm-256color".to_string()),
            ("COLORTERM".to_string(), "truecolor".to_string())
        ]
    );
}

#[test]
fn shell_command_takes_environment_values() {
    let cmd = shell_command(Some("/bin/bash".to_string()), Some("xterm".to_string()), Some("24bit".to_string()));
    assert_eq!(cmd.program, "/bin/bash");
    assert_eq!(
        cmd.env,
        vec![("TERM".to_string(), "xterm".to_string()), ("COLORTERM".to_string(), "24bit".to_string())]
    );
}

#[test]
fn reader_reports_exit_at_end_of_file_and_on_error() {
    assert_eq!(reader_step(ReaderEvent::Read(Some(0))), ReaderAction::NotifyExit);
    assert_eq!(reader_step(ReaderEvent::Read(None)), ReaderAction::NotifyExit);
}

#[test]
fn reader_forwards_bytes_then_marks_pending() {
    assert_eq!(reader_step(ReaderEvent::Read(Some(17))), ReaderAction::Forward(17));
    assert_eq!(reader_step(ReaderEvent::Forwarded(true)), ReaderAction::MarkPending);
    assert_eq!(reader_step(ReaderEvent::Forwarded(false)), ReaderAction::Stop);
}

#[test]
fn reader_wakes_only_when_no_wakeup_is_pending() {
    assert_eq!(reader_step(ReaderEvent::Marked(false)), ReaderAction::WakeAndRead);
    assert_eq!(reader_step(ReaderEvent::Marked(true)), ReaderAction::ReadNext);
}

#[test]
fn control_events_are_distinct() {
    assert_ne!(ControlEvent::Wakeup, ControlEvent::PtyExit);
}

const LAYOUT: CellLayout = CellLayout { cell_width: 10, cell_height: 20, padding: 10 };

#[test]
fn window_events_for_our_window() {
    assert_eq!(window_actions(true, WindowInput::CloseRequested, LAYOUT), vec![WindowAction::Exit]);
    assert_eq!(
        window_actions(true, WindowInput::RedrawRequested, LAYOUT),
        vec![WindowAction::DrainPty, WindowAction::Render]
    );
    assert_eq!(window_actions(true, WindowInput::Other, LAYOUT), vec![]);
}

#[test]
fn resize_recomputes_the_grid() {
    let size = SurfaceSize { width: 640, height: 480 };
    assert_eq!(
        window_actions(true, WindowInput::Resized(size), LAYOUT),
        vec![WindowAction::Resize(size), WindowAction::ResizeGrid { cols: 62, rows: 23 }, WindowAction::RequestRedraw]
    );
}

#[test]
fn minimised_window_keeps_the_grid() {
    let size = SurfaceSize { width: 0, height: 0 };
    assert_eq!(
        window_actions(true, WindowInput::Resized(size), LAYOUT),
        vec![WindowAction::Resize(size), WindowAction::RequestRedraw]
    );
}

#[test]
fn typed_text_goes_to_the_pty() {
    assert_eq!(
        window_actions(true, WindowInput::Typed(b"ls\r".to_vec()), LAYOUT),
        vec![WindowAction::WritePty(b"ls\r".to_vec())]
    );
    assert_eq!(window_actions(true, WindowInput::Typed(Vec::new()), LAYOUT), vec![]);
    assert_eq!(window_actions(false, WindowInput::Typed(b"x".to_vec()), LAYOUT), vec![]);
}

#[test]
fn events_for_other_windows_are_ignored() {
    assert_eq!(window_actions(false, WindowInput::CloseRequested, LAYOUT), vec![]);
    assert_eq!(window_actions(false, WindowInput::RedrawRequested, LAYOUT), vec![]);
}

#[test]
fn frame_outcomes() {
    let size = SurfaceSize { width: 800, height: 600 };
    assert_eq!(render_response(RenderOutcome::Presented, size), RenderResponse::Done);
    assert_eq!(render_response(RenderOutcome::Lost, size), RenderResponse::Reconfigure(size));
    assert_eq!(render_response(RenderOutcome::OutOfMemory, size), RenderResponse::ExitOutOfMemory);
    assert_eq!(render_response(RenderOutcome::Timeout, size), RenderResponse::Report);
    assert_eq!(render_response(RenderOutcome::Outdated, size), RenderResponse::Report);
}

/// Drives the reader's decisions over `reads` with a live channel; the event
/// loop clears the pending flag before the reads whose index is in `clears`.
fn run_reader(reads: &[Option<usize>], clears: &[usize]) -> (Vec<usize>, usize, bool) {
    let mut pending = false;
    let mut chunks = Vec::new();
    let mut wakeups = 0;
    let mut exited = false;
    for (i, read) in reads.iter().enumerate() {
        if clears.contains(&i) {
            pending = false;
        }
        match reader_step(ReaderEvent::Read(*read)) {
            ReaderAction::Forward(n) => {
                chunks.push(n);
                assert_eq!(reader_step(ReaderEvent::Forwarded(true)), ReaderAction::MarkPending);
                let was = pending;
                pending = true;
                if reader_step(ReaderEvent::Marked(was)) == ReaderAction::WakeAndRead {
                    wakeups += 1;
                }
            }
            ReaderAction::NotifyExit => {
                exited = true;
                break;
            }
            other => panic!("unexpected {:?}", other),
        }
    }
    (chunks, wakeups, exited)
}

#[test]
fn reader_run_forwards_every_chunk_until_end_of_file() {
    let (chunks, _, exited) = run_reader(&[Some(3), Some(4096), Some(1), Some(0), Some(7)], &[]);
    assert_eq!(chunks, vec![3, 4096, 1]);
    assert!(exited);
    let (chunks, _, exited) = run_reader(&[Some(2), None, Some(5)], &[]);
    assert_eq!(chunks, vec![2]);
    assert!(exited);
}

#[test]
fn reader_run_coalesces_wakeups() {
    let (_, wakeups, _) = run_reader(&[Some(1), Some(1), Some(1), Some(1)], &[]);
    assert_eq!(wakeups, 1);
    let (_, wakeups, _) = run_reader(&[Some(1), Some(1), Some(1), Some(1)], &[2]);
    assert_eq!(wakeups, 2);
}
