//! Decisions of the desktop shell: where the main window goes on screen,
//! what the tray menu and tray clicks do, and how the main window reacts to
//! being resized or closed.

use vstd::prelude::*;
use crate::text::same_text;

verus! {

/// A path of the file system.
#[verifier::external_type_specification]
#[verifier::external_body]
pub struct ExPathBuf(std::path::PathBuf);

/// A borrowed path of the file system.
#[verifier::external_type_specification]
#[verifier::external_body]
pub struct ExPath(std::path::Path);

/// Name of the unified window configuration file.
pub const WINDOW_CONFIG_FILE: &'static str = "config.json";

/// Name of the former size-only configuration file.
pub const LEGACY_WINDOW_SIZE_CONFIG_FILE: &'static str = "window-size.json";

/// The path that `Path::join` gives for `name` inside `dir`.
pub uninterp spec fn joined_path(dir: &std::path::Path, name: Seq<char>) -> std::path::PathBuf;

/// Calls `Path::join`: the path of `name` inside `dir`. Claimed: the result
/// depends on `dir` and `name` alone. Paths have no view here, so nothing
/// more is claimed of it.
#[verifier::external_body]
fn join_path(dir: &std::path::Path, name: &str) -> (r: std::path::PathBuf)
    ensures
        r == joined_path(dir, name@),
{
    dir.join(name)
}

/// Where the main window configuration is kept, beside the portable database.
pub struct WindowConfigStore {
    pub path: std::path::PathBuf,
    pub legacy_path: std::path::PathBuf,
}

impl WindowConfigStore {
    /// The store for the data directory `data_dir`: `config.json` and, for
    /// migration, the former `window-size.json` in it.
    pub fn new(data_dir: &std::path::Path) -> (s: Self)
        ensures
            s.path == joined_path(data_dir, WINDOW_CONFIG_FILE@),
            s.legacy_path == joined_path(data_dir, LEGACY_WINDOW_SIZE_CONFIG_FILE@),
    {
        WindowConfigStore {
            path: join_path(data_dir, WINDOW_CONFIG_FILE),
            legacy_path: join_path(data_dir, LEGACY_WINDOW_SIZE_CONFIG_FILE),
        }
    }
}

/// A monitor's place and size on the desktop, in physical pixels.
#[derive(Debug, Clone, Copy, PartialEq, Eq, Structural)]
pub struct MonitorArea {
    pub x: i32,
    pub y: i32,
    pub width: u32,
    pub height: u32,
}

/// `a + b` held within the range of `i32`, as `i32::saturating_add` gives it.
pub open spec fn saturating_add_i32(a: i32, b: i32) -> i32 {
    if a + b > i32::MAX {
        i32::MAX
    } else if a + b < i32::MIN {
        i32::MIN
    } else {
        (a + b) as i32
    }
}

fn saturating_add(a: i32, b: i32) -> (r: i32)
    ensures
        r == saturating_add_i32(a, b),
{
    let sum: i64 = a as i64 + b as i64;
    if sum > i32::MAX as i64 {
        i32::MAX
    } else if sum < i32::MIN as i64 {
        i32::MIN
    } else {
        sum as i32
    }
}

/// Whether the point (`x`, `y`) lies on monitor `m`. A monitor's width and
/// height are read as `i32`, as the desktop reports them.
pub open spec fn monitor_shows(m: MonitorArea, x: i32, y: i32) -> bool {
    &&& x >= m.x
    &&& x < saturating_add_i32(m.x, m.width as i32)
    &&& y >= m.y
    &&& y < saturating_add_i32(m.y, m.height as i32)
}

/// Whether a saved window position lies on one of the monitors.
pub open spec fn shown_on_some_monitor(monitors: Seq<MonitorArea>, x: i32, y: i32) -> bool {
    exists|i: int| 0 <= i < monitors.len() && monitor_shows(#[trigger] monitors[i], x, y)
}

/// A saved point is visible exactly when it lies within a monitor's
/// rectangle, counted from the monitor's origin by its width across and its
/// height down: a point that is visible lies within some monitor, and a point
/// within some monitor is visible (short of the last column and row that
/// `i32` can name, where the right and bottom edges are held at `i32::MAX`).
/// Monitor sizes are those a desktop reports, which fit in `i32`.
pub proof fn lemma_visible_exactly_within_a_monitor(monitors: Seq<MonitorArea>, x: i32, y: i32)
    requires
        forall|i: int|
            0 <= i < monitors.len() ==> #[trigger] monitors[i].width <= i32::MAX && monitors[i].height
                <= i32::MAX,
    ensures
        shown_on_some_monitor(monitors, x, y) ==> exists|i: int|
            0 <= i < monitors.len() && (#[trigger] monitors[i]).x <= x && x < monitors[i].x + monitors[i].width
                && monitors[i].y <= y && y < monitors[i].y + monitors[i].height,
        (exists|i: int|
            0 <= i < monitors.len() && (#[trigger] monitors[i]).x <= x && x < monitors[i].x + monitors[i].width
                && monitors[i].y <= y && y < monitors[i].y + monitors[i].height) && x < i32::MAX && y < i32::MAX
            ==> shown_on_some_monitor(monitors, x, y),
{
    if shown_on_some_monitor(monitors, x, y) {
        let i = choose|i: int| 0 <= i < monitors.len() && monitor_shows(#[trigger] monitors[i], x, y);
        let m = monitors[i];
        assert(m.width as i32 == m.width);
        assert(m.height as i32 == m.height);
    }
    if x < i32::MAX && y < i32::MAX {
        if exists|i: int|
            0 <= i < monitors.len() && (#[trigger] monitors[i]).x <= x && x < monitors[i].x + monitors[i].width
                && monitors[i].y <= y && y < monitors[i].y + monitors[i].height {
            let i = choose|i: int|
                0 <= i < monitors.len() && (#[trigger] monitors[i]).x <= x && x < monitors[i].x
                    + monitors[i].width && monitors[i].y <= y && y < monitors[i].y + monitors[i].height;
            let m = monitors[i];
            assert(m.width as i32 == m.width);
            assert(m.height as i32 == m.height);
            assert(monitor_shows(monitors[i], x, y));
        }
    }
}

/// Whether the point (`x`, `y`) lies on one of the monitors.
pub fn position_is_visible(monitors: &Vec<MonitorArea>, x: i32, y: i32) -> (r: bool)
    ensures
        r == shown_on_some_monitor(monitors@, x, y),
{
    let mut i: usize = 0;
    while i < monitors.len()
        invariant
            i <= monitors.len(),
            forall|k: int| 0 <= k < i ==> !monitor_shows(#[trigger] monitors@[k], x, y),
        decreases monitors.len() - i,
    {
        let m = monitors[i];
        if x >= m.x && x < saturating_add(m.x, m.width as i32) && y >= m.y && y < saturating_add(
            m.y,
            m.height as i32,
        ) {
            assert(monitor_shows(monitors@[i as int], x, y));
            return true;
        }
        i = i + 1;
    }
    false
}

/// `a - b`, or 0 when `b` is larger.
pub open spec fn saturating_sub_u32(a: u32, b: u32) -> u32 {
    if a >= b {
        (a - b) as u32
    } else {
        0
    }
}

/// Where a window of the given size is centred on monitor `m`.
pub open spec fn centred_on(m: MonitorArea, width: u32, height: u32) -> (int, int) {
    (m.x + saturating_sub_u32(m.width, width) / 2, m.y + saturating_sub_u32(m.height, height) / 2)
}

/// Where a window of the given size goes to be centred on the primary
/// monitor: its centre, or the desktop origin when there is no primary monitor.
pub fn centred_position(primary: Option<MonitorArea>, width: u32, height: u32) -> (r: (i32, i32))
    requires
        primary matches Some(m) ==> i32::MIN <= centred_on(m, width, height).0 <= i32::MAX
            && i32::MIN <= centred_on(m, width, height).1 <= i32::MAX,
    ensures
        match primary {
            Some(m) => r.0 == centred_on(m, width, height).0 && r.1 == centred_on(m, width, height).1,
            None => r == (0i32, 0i32),
        },
{
    match primary {
        Some(m) => {
            let dx: u32 = m.width.saturating_sub(width) / 2;
            let dy: u32 = m.height.saturating_sub(height) / 2;
            (m.x + dx as i32, m.y + dy as i32)
        },
        None => (0, 0),
    }
}

/// Where the main window goes on start: its saved position when both
/// coordinates were saved and that point lies on a monitor, else `centred`.
pub fn restored_position(
    saved_x: Option<i32>,
    saved_y: Option<i32>,
    monitors: &Vec<MonitorArea>,
    centred: (i32, i32),
) -> (r: (i32, i32))
    ensures
        r == match (saved_x, saved_y) {
            (Some(x), Some(y)) => if shown_on_some_monitor(monitors@, x, y) {
                (x, y)
            } else {
                centred
            },
            _ => centred,
        },
{
    match (saved_x, saved_y) {
        (Some(x), Some(y)) => {
            if position_is_visible(monitors, x, y) {
                (x, y)
            } else {
                centred
            }
        },
        _ => centred,
    }
}

/// Labels of report-only windows begin with this text and end with the menu id.
pub const REPORT_WINDOW_LABEL_PREFIX: &'static str = "report-window-";

/// The label of the report-only window for a menu.
pub fn report_window_label(menu_id: &str) -> (r: String)
    ensures
        r@ == REPORT_WINDOW_LABEL_PREFIX@ + menu_id@,
{
    let mut r = String::from_str(REPORT_WINDOW_LABEL_PREFIX);
    r.append(menu_id);
    r
}

/// Id of the tray menu entry that shows the main window.
pub const TRAY_SHOW_WINDOW_ID: &'static str = "show-main-window";

/// Id of the tray menu entry that ends the application.
pub const TRAY_QUIT_ID: &'static str = "quit-application";

/// What a tray menu entry does.
#[derive(Debug, Clone, Copy, PartialEq, Eq, Structural)]
pub enum TrayMenuAction {
    ShowMainWindow,
    SaveGeometryAndQuit,
    Ignore,
}

/// What choosing the tray menu entry `id` does.
pub fn tray_menu_action(id: &str) -> (r: TrayMenuAction)
    ensures
        r == if id@ == TRAY_SHOW_WINDOW_ID@ {
            TrayMenuAction::ShowMainWindow
        } else if id@ == TRAY_QUIT_ID@ {
            TrayMenuAction::SaveGeometryAndQuit
        } else {
            TrayMenuAction::Ignore
        },
{
    if same_text(id, TRAY_SHOW_WINDOW_ID) {
        TrayMenuAction::ShowMainWindow
    } else if same_text(id, TRAY_QUIT_ID) {
        TrayMenuAction::SaveGeometryAndQuit
    } else {
        TrayMenuAction::Ignore
    }
}

/// A pointer event on the tray icon.
#[derive(Debug, Clone, Copy, PartialEq, Eq, Structural)]
pub enum TrayPointerEvent {
    Click { left_button: bool, released: bool },
    DoubleClick { left_button: bool },
    Other,
}

/// Whether a pointer event on the tray icon shows the main window: a left
/// click as the button comes up, or a left double click.
pub fn tray_pointer_shows_window(event: TrayPointerEvent) -> (r: bool)
    ensures
        r == match event {
            TrayPointerEvent::Click { left_button, released } => left_button && released,
            TrayPointerEvent::DoubleClick { left_button } => left_button,
            TrayPointerEvent::Other => false,
        },
{
    match event {
        TrayPointerEvent::Click { left_button, released } => left_button && released,
        TrayPointerEvent::DoubleClick { left_button } => left_button,
        TrayPointerEvent::Other => false,
    }
}

/// Label of the main window.
pub const MAIN_WINDOW_LABEL: &'static str = "main";

/// A window event that the shell reacts to.
#[derive(Debug, Clone, Copy, PartialEq, Eq, Structural)]
pub enum WindowEventKind {
    Resized,
    CloseRequested,
    Other,
}

/// How the shell reacts to a window event.
#[derive(Debug, Clone, Copy, PartialEq, Eq, Structural)]
pub enum WindowReaction {
    Nothing,
    SaveGeometry,
    SaveGeometryAndHide,
    SaveGeometryAndExit,
}

/// How the shell reacts to `event` on the window labelled `label`. Only the
/// main window's geometry is kept, and never its maximized size; closing a
/// report-only window leaves everything else alone; closing the main window
/// hides it to the tray when the user asked for that, else ends the program.
pub fn window_event_reaction(
    event: WindowEventKind,
    label: &str,
    is_maximized: bool,
    minimize_to_tray: bool,
) -> (r: WindowReaction)
    ensures
        r == match event {
            WindowEventKind::Resized => if label@ == MAIN_WINDOW_LABEL@ && !is_maximized {
                WindowReaction::SaveGeometry
            } else {
                WindowReaction::Nothing
            },
            WindowEventKind::CloseRequested => if label@ != MAIN_WINDOW_LABEL@ {
                WindowReaction::Nothing
            } else if minimize_to_tray {
                WindowReaction::SaveGeometryAndHide
            } else {
                WindowReaction::SaveGeometryAndExit
            },
            WindowEventKind::Other => WindowReaction::Nothing,
        },
{
    let is_main = same_text(label, MAIN_WINDOW_LABEL);
    match event {
        WindowEventKind::Resized => {
            if is_main && !is_maximized {
                WindowReaction::SaveGeometry
            } else {
                WindowReaction::Nothing
            }
        },
        WindowEventKind::CloseRequested => {
            if !is_main {
                WindowReaction::Nothing
            } else if minimize_to_tray {
                WindowReaction::SaveGeometryAndHide
            } else {
                WindowReaction::SaveGeometryAndExit
            }
        },
        WindowEventKind::Other => WindowReaction::Nothing,
    }
}

} // verus!
