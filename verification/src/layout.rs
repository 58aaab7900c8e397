//! The terminal layout: which rectangle each panel gets. The sizes come
//! from ratatui's constraint solver; this module chooses the constraints
//! and hands the parts out to the panels.
//!
//! Desktop (100 columns or more): header, friends and network map side by
//! side, network status, chat, input. Mobile (narrower): header, a row with
//! a compact status and a quit button, friends, chat, input.

use vstd::prelude::*;
use crate::ui::Rect;
use ratatui::layout as rl;

verus! {

/// How a part's size is constrained.
#[derive(Debug, PartialEq, Eq, Structural, Clone, Copy)]
pub enum Constraint {
    /// Exactly this many cells.
    Length(u16),
    /// At least this many cells.
    Min(u16),
    /// This percentage of the whole.
    Percentage(u16),
}

/// Which way an area is cut.
#[derive(Debug, PartialEq, Eq, Structural, Clone, Copy)]
pub enum Direction {
    /// Into rows, top to bottom.
    Vertical,
    /// Into columns, left to right.
    Horizontal,
}

/// Whether `parts` can be the cut of `area` into `n` parts along
/// `direction`: one part per constraint, each spanning the whole area
/// across the cut (same column and width for rows, same row and height for
/// columns).
pub open spec fn split_shape(area: Rect, direction: Direction, n: nat, parts: Seq<Rect>) -> bool {
    &&& parts.len() == n
    &&& forall|i: int|
        0 <= i < n ==> match direction {
            Direction::Vertical => #[trigger] parts[i].x == area.x && parts[i].width == area.width,
            Direction::Horizontal => parts[i].y == area.y && parts[i].height == area.height,
        }
}

/// The cuts ratatui's solver may give for `area`, `direction` and
/// `constraints`: which one comes out of a call can vary (the solver walks
/// hash maps seeded per process), but the set of possible cuts depends on
/// the three arguments alone.
pub uninterp spec fn spec_split_outcomes(area: Rect, direction: Direction, constraints: Seq<Constraint>) -> Set<Seq<Rect>>;

/// Cuts `area` into one part per constraint with ratatui's
/// `Layout::new(direction, constraints).split(area)` (no margin). The sizes
/// along the cut come from ratatui's constraint solver and are not claimed:
/// the solver's choices can depend on the order in which it walks its hash
/// maps, and ratatui documents percentages mixed with other constraints as
/// giving an indeterminate result. Claimed, from ratatui's code: the cut
/// is one of those the solver may give for these arguments, there are as
/// many parts as constraints, and each spans the whole area across the cut.
#[verifier::external_body]
fn layout_split(area: Rect, direction: Direction, constraints: &[Constraint]) -> (r: Vec<Rect>)
    ensures
        spec_split_outcomes(area, direction, constraints@).contains(r@),
        split_shape(area, direction, constraints@.len(), r@),
{
    let d = match direction {
        Direction::Vertical => rl::Direction::Vertical,
        Direction::Horizontal => rl::Direction::Horizontal,
    };
    let cs = constraints.iter().map(|c| match *c {
        Constraint::Length(n) => rl::Constraint::Length(n),
        Constraint::Min(n) => rl::Constraint::Min(n),
        Constraint::Percentage(n) => rl::Constraint::Percentage(n),
    });
    let a = rl::Rect { x: area.x, y: area.y, width: area.width, height: area.height };
    let parts = rl::Layout::new(d, cs).split(a);
    parts.iter().map(|p| Rect { x: p.x, y: p.y, width: p.width, height: p.height }).collect()
}

/// Contains all the computed layout rectangles for each UI panel.
pub struct AppLayout {
    pub header: Rect,
    pub friends: Rect,
    pub network_map: Rect,
    pub network_status: Rect,
    pub chat: Rect,
    pub input: Rect,
    /// Left portion of the mobile quit row — used for compact status
    pub mobile_status: Option<Rect>,
    pub quit_button: Option<Rect>,
}

/// The empty rectangle of a panel that is hidden.
pub open spec fn hidden() -> Rect {
    Rect { x: 0, y: 0, width: 0, height: 0 }
}

/// The rows of the mobile layout: header, quit row, friends (30%), chat
/// (70%), input.
pub open spec fn mobile_rows() -> Seq<Constraint> {
    seq![
        Constraint::Length(3),
        Constraint::Length(3),
        Constraint::Percentage(30),
        Constraint::Percentage(70),
        Constraint::Length(3),
    ]
}

/// The mobile quit row: status (70%) and quit button (30%).
pub open spec fn quit_row_columns() -> Seq<Constraint> {
    seq![Constraint::Percentage(70), Constraint::Percentage(30)]
}

/// The rows of the desktop layout: header, middle (at least 8), network
/// status, chat (at least 8), input.
pub open spec fn desktop_rows() -> Seq<Constraint> {
    seq![
        Constraint::Length(3),
        Constraint::Min(8),
        Constraint::Length(3),
        Constraint::Min(8),
        Constraint::Length(3),
    ]
}

/// The desktop middle row: friends (35%) and network map (65%).
pub open spec fn middle_columns() -> Seq<Constraint> {
    seq![Constraint::Percentage(35), Constraint::Percentage(65)]
}

/// The mobile layout from its rows and the parts of its quit row.
pub open spec fn spec_mobile_layout(rows: Seq<Rect>, quit_row: Seq<Rect>) -> AppLayout {
    AppLayout {
        header: rows[0],
        friends: rows[2],
        network_map: hidden(),
        network_status: hidden(),
        chat: rows[3],
        input: rows[4],
        mobile_status: Some(quit_row[0]),
        quit_button: Some(quit_row[1]),
    }
}

/// The desktop layout from its rows and the parts of its middle row.
pub open spec fn spec_desktop_layout(rows: Seq<Rect>, middle: Seq<Rect>) -> AppLayout {
    AppLayout {
        header: rows[0],
        friends: middle[0],
        network_map: middle[1],
        network_status: rows[2],
        chat: rows[3],
        input: rows[4],
        mobile_status: None,
        quit_button: None,
    }
}

/// Hands out the mobile rows and quit row parts to the panels;
/// the network map and status are hidden.
pub fn mobile_layout(rows: &[Rect], quit_row: &[Rect]) -> (r: AppLayout)
    requires
        rows@.len() == 5,
        quit_row@.len() == 2,
    ensures
        r == spec_mobile_layout(rows@, quit_row@),
{
    AppLayout {
        header: rows[0],
        friends: rows[2],
        network_map: Rect { x: 0, y: 0, width: 0, height: 0 },
        network_status: Rect { x: 0, y: 0, width: 0, height: 0 },
        chat: rows[3],
        input: rows[4],
        mobile_status: Some(quit_row[0]),
        quit_button: Some(quit_row[1]),
    }
}

/// Hands out the desktop rows and middle row parts to the panels.
pub fn desktop_layout(rows: &[Rect], middle: &[Rect]) -> (r: AppLayout)
    requires
        rows@.len() == 5,
        middle@.len() == 2,
    ensures
        r == spec_desktop_layout(rows@, middle@),
{
    AppLayout {
        header: rows[0],
        friends: middle[0],
        network_map: middle[1],
        network_status: rows[2],
        chat: rows[3],
        input: rows[4],
        mobile_status: None,
        quit_button: None,
    }
}

/// The layout of a terminal of size `area`: mobile when it is narrower
/// than 100 columns, whatever its height. The rows are a cut of the whole
/// area by `mobile_rows` or `desktop_rows`; the second row is cut into
/// columns by `quit_row_columns` or `middle_columns`; the panels get the
/// parts as `spec_mobile_layout` and `spec_desktop_layout` say. Which cut
/// ratatui's solver gives is not claimed beyond its shape.
pub fn compute_layout(area: Rect) -> (r: AppLayout)
    ensures
        area.width < 100 ==> exists|rows: Seq<Rect>, quit_row: Seq<Rect>|
            #![trigger spec_mobile_layout(rows, quit_row)]
            spec_split_outcomes(area, Direction::Vertical, mobile_rows()).contains(rows)
                && spec_split_outcomes(rows[1], Direction::Horizontal, quit_row_columns()).contains(
                quit_row,
            ) && split_shape(area, Direction::Vertical, 5, rows) && split_shape(
                rows[1],
                Direction::Horizontal,
                2,
                quit_row,
            ) && r == spec_mobile_layout(rows, quit_row),
        area.width >= 100 ==> exists|rows: Seq<Rect>, middle: Seq<Rect>|
            #![trigger spec_desktop_layout(rows, middle)]
            spec_split_outcomes(area, Direction::Vertical, desktop_rows()).contains(rows)
                && spec_split_outcomes(rows[1], Direction::Horizontal, middle_columns()).contains(
                middle,
            ) && split_shape(area, Direction::Vertical, 5, rows) && split_shape(
                rows[1],
                Direction::Horizontal,
                2,
                middle,
            ) && r == spec_desktop_layout(rows, middle),
{
    if area.width < 100 {
        let row_cs = [
            Constraint::Length(3),
            Constraint::Length(3),
            Constraint::Percentage(30),
            Constraint::Percentage(70),
            Constraint::Length(3),
        ];
        assert(row_cs@ =~= mobile_rows());
        let rows = layout_split(area, Direction::Vertical, row_cs.as_slice());
        let quit_cs = [Constraint::Percentage(70), Constraint::Percentage(30)];
        assert(quit_cs@ =~= quit_row_columns());
        let quit_row = layout_split(rows[1], Direction::Horizontal, quit_cs.as_slice());
        let r = mobile_layout(rows.as_slice(), quit_row.as_slice());
        assert(r == spec_mobile_layout(rows@, quit_row@));
        r
    } else {
        let row_cs = [
            Constraint::Length(3),
            Constraint::Min(8),
            Constraint::Length(3),
            Constraint::Min(8),
            Constraint::Length(3),
        ];
        assert(row_cs@ =~= desktop_rows());
        let rows = layout_split(area, Direction::Vertical, row_cs.as_slice());
        let middle_cs = [Constraint::Percentage(35), Constraint::Percentage(65)];
        assert(middle_cs@ =~= middle_columns());
        let middle = layout_split(rows[1], Direction::Horizontal, middle_cs.as_slice());
        let r = desktop_layout(rows.as_slice(), middle.as_slice());
        assert(r == spec_desktop_layout(rows@, middle@));
        r
    }
}

} // verus!
