//! Screen areas and how the screen is split into them.

use ratatui::layout::{Constraint as TuiConstraint, Direction, Layout as TuiLayout, Rect};
use vstd::prelude::*;

verus! {

/// A rectangle of terminal cells: its top-left corner and its size.
#[derive(Clone, Copy, PartialEq, Eq, Structural)]
pub struct Area {
    pub x: u16,
    pub y: u16,
    pub width: u16,
    pub height: u16,
}

/// A size rule for one part of a split.
#[derive(Clone, Copy, PartialEq, Eq, Structural)]
pub enum Constraint {
    /// Exactly this many cells.
    Length(u16),
    /// At least this many cells.
    Min(u16),
    /// This share of the whole, in percent.
    Percentage(u16),
}

impl Area {
    /// An area at `(x, y)` whose width and height are cut so that its right and
    /// bottom edges stay within 16-bit coordinates.
    pub fn new(x: u16, y: u16, width: u16, height: u16) -> (a: Area)
        ensures
            a.x == x,
            a.y == y,
            a.width == if width > u16::MAX - x {
                (u16::MAX - x) as u16
            } else {
                width
            },
            a.height == if height > u16::MAX - y {
                (u16::MAX - y) as u16
            } else {
                height
            },
    {
        let max_width = u16::MAX - x;
        let max_height = u16::MAX - y;
        Area {
            x,
            y,
            width: if width > max_width {
                max_width
            } else {
                width
            },
            height: if height > max_height {
                max_height
            } else {
                height
            },
        }
    }
}

/// Whether `part` spans `whole` across the direction of a split: the same columns
/// for a split top to bottom, the same rows for a split left to right.
pub open spec fn spans_across(vertical: bool, part: Area, whole: Area) -> bool {
    if vertical {
        part.x == whole.x && part.width == whole.width
    } else {
        part.y == whole.y && part.height == whole.height
    }
}

/// Where `a` starts along the direction of a split, and how long it is there.
pub open spec fn start_along(vertical: bool, a: Area) -> int {
    if vertical {
        a.y as int
    } else {
        a.x as int
    }
}

pub open spec fn length_along(vertical: bool, a: Area) -> int {
    if vertical {
        a.height as int
    } else {
        a.width as int
    }
}

/// Whether `whole` ends within 16-bit coordinates along the direction of a split.
pub open spec fn fits_along(vertical: bool, whole: Area) -> bool {
    start_along(vertical, whole) + length_along(vertical, whole) <= u16::MAX
}

/// Whether `first` and `second` cover `whole` along the split, in this order: `first`
/// starts where `whole` does, `second` starts where `first` ends and ends where
/// `whole` does.
pub open spec fn tiles(vertical: bool, first: Area, second: Area, whole: Area) -> bool {
    &&& start_along(vertical, first) == start_along(vertical, whole)
    &&& start_along(vertical, second) == start_along(vertical, first) + length_along(
        vertical,
        first,
    )
    &&& start_along(vertical, second) + length_along(vertical, second) == start_along(
        vertical,
        whole,
    ) + length_along(vertical, whole)
}

/// Whether `first`, `second` and `third` cover `whole` along the split, in this order.
pub open spec fn tiles_three(vertical: bool, first: Area, second: Area, third: Area, whole: Area) -> bool {
    &&& start_along(vertical, first) == start_along(vertical, whole)
    &&& start_along(vertical, second) == start_along(vertical, first) + length_along(
        vertical,
        first,
    )
    &&& start_along(vertical, third) == start_along(vertical, second) + length_along(
        vertical,
        second,
    )
    &&& start_along(vertical, third) + length_along(vertical, third) == start_along(
        vertical,
        whole,
    ) + length_along(vertical, whole)
}

/// `p` percent of `len` cells, rounded to the nearest cell, halves up.
pub open spec fn share(p: int, len: int) -> int {
    (p * len + 50) / 100
}

/// The constraints of a screen: one row, the rest, one row.
pub open spec fn screen_rows() -> Seq<Constraint> {
    seq![Constraint::Length(1), Constraint::Min(0), Constraint::Length(1)]
}

/// Two shares of the whole that add up to all of it.
pub open spec fn two_shares(constraints: Seq<Constraint>) -> bool {
    &&& constraints.len() == 2
    &&& constraints[0] is Percentage
    &&& constraints[1] is Percentage
    &&& constraints[0]->Percentage_0 + constraints[1]->Percentage_0 == 100
}

/// Splits `area` with ratatui's `Layout::split` (no margin, no spacing, the default
/// `Flex::Start`). Claimed, from `Layout::try_split`, the constraints it adds, and
/// `changes_to_rects`, which rounds each solved end (in hundredths of a cell, the
/// solver's unit) to whole hundredths and then to whole cells, halves away from zero:
/// - one area per constraint (it pairs `2n + 2` variables into `n` segments), each
///   spanning `area` across the split (`changes_to_rects` copies the cross-axis
///   position and size from the area, which a zero margin leaves whole);
/// - where `area` ends within 16-bit coordinates along the split (so `right` and
///   `bottom` do not saturate):
///   - for `Length(1), Min(0), Length(1)`: the three areas cover `area` in order.
///     The first spacer is held empty (`REQUIRED - 1`) and the inner spacers at size
///     zero (`REQUIRED / 10`), stronger than anything that could pull them apart.
///     Over at least two rows or columns the first area is the first one, the last
///     area the last one, and the middle area what lies between: each `Length` holds
///     its size (`STRONG * 10`) and `Min(0)` grows (`MEDIUM`) ahead of the last
///     spacer (`MEDIUM / 10`), so the optimum is unique;
///   - for two `Percentage` constraints `p` and `q` that add up to 100: the first
///     area is `p` percent of the length, rounded to the nearest cell with halves up,
///     and the second covers the rest. Each share is held at its size (`STRONG`),
///     above the last spacer's growth and the weak pull towards equal segments, and
///     the two sizes add up to the whole, so the first segment ends `p * len`
///     hundredths after the start.
/// Left unsaid: where the areas lie for other constraints, and how a single row or
/// column is shared between the two `Length(1)` areas.
#[verifier::external_body]
fn split(vertical: bool, constraints: &Vec<Constraint>, area: Area) -> (r: Vec<Area>)
    ensures
        r@.len() == constraints@.len(),
        forall|i: int| 0 <= i < r@.len() ==> spans_across(vertical, #[trigger] r@[i], area),
        constraints@ == screen_rows() && fits_along(vertical, area) ==> tiles_three(
            vertical,
            r@[0],
            r@[1],
            r@[2],
            area,
        ),
        constraints@ == screen_rows() && length_along(vertical, area) >= 2 && fits_along(
            vertical,
            area,
        ) ==> {
            &&& start_along(vertical, r@[0]) == start_along(vertical, area)
            &&& length_along(vertical, r@[0]) == 1
            &&& start_along(vertical, r@[1]) == start_along(vertical, area) + 1
            &&& length_along(vertical, r@[1]) == length_along(vertical, area) - 2
            &&& start_along(vertical, r@[2]) == start_along(vertical, area) + length_along(
                vertical,
                area,
            ) - 1
            &&& length_along(vertical, r@[2]) == 1
        },
        two_shares(constraints@) && fits_along(vertical, area) ==> {
            &&& tiles(vertical, r@[0], r@[1], area)
            &&& length_along(vertical, r@[0]) == share(
                constraints@[0]->Percentage_0 as int,
                length_along(vertical, area),
            )
        },
{
    let direction = if vertical { Direction::Vertical } else { Direction::Horizontal };
    let cs = constraints.iter().map(|c| match *c {
        Constraint::Length(n) => TuiConstraint::Length(n),
        Constraint::Min(n) => TuiConstraint::Min(n),
        Constraint::Percentage(n) => TuiConstraint::Percentage(n),
    });
    let rect = Rect { x: area.x, y: area.y, width: area.width, height: area.height };
    let rects = TuiLayout::new(direction, cs).split(rect);
    rects.iter().map(|r| Area { x: r.x, y: r.y, width: r.width, height: r.height }).collect()
}

/// The screen: a one-row header, the body, and a one-row footer.
pub struct Layout {
    pub header: Area,
    pub body: Area,
    pub footer: Area,
}

impl Layout {
    /// The screen split top to bottom into one row, the rest, and one row. On a
    /// screen that ends within 16-bit coordinates the three parts cover it in this
    /// order; with at least two rows, the header is the first row, the footer the
    /// last, and the body the rows between.
    pub fn new(area: Area) -> (l: Layout)
        ensures
            spans_across(true, l.header, area),
            spans_across(true, l.body, area),
            spans_across(true, l.footer, area),
            fits_along(true, area) ==> tiles_three(true, l.header, l.body, l.footer, area),
            area.height >= 2 && area.y + area.height <= u16::MAX ==> {
                &&& l.header.y == area.y && l.header.height == 1
                &&& l.body.y == area.y + 1 && l.body.height == area.height - 2
                &&& l.footer.y == area.y + area.height - 1 && l.footer.height == 1
            },
    {
        let mut constraints: Vec<Constraint> = Vec::new();
        constraints.push(Constraint::Length(1));
        constraints.push(Constraint::Min(0));
        constraints.push(Constraint::Length(1));
        proof {
            assert(constraints@ =~= screen_rows());
        }
        let parts = split(true, &constraints, area);
        Layout { header: parts[0], body: parts[1], footer: parts[2] }
    }
}

/// The body of the list screen split top to bottom: 45% for the panels above, 55%
/// for the process table below. Where the area ends within 16-bit coordinates, the
/// panels get 45% of the rows, rounded to the nearest row with halves up, and the
/// table the rows below them.
pub fn body_split(area: Area) -> (r: (Area, Area))
    ensures
        spans_across(true, r.0, area),
        spans_across(true, r.1, area),
        fits_along(true, area) ==> tiles(true, r.0, r.1, area) && r.0.height == share(
            45,
            area.height as int,
        ),
{
    let mut constraints: Vec<Constraint> = Vec::new();
    constraints.push(Constraint::Percentage(45));
    constraints.push(Constraint::Percentage(55));
    let parts = split(true, &constraints, area);
    (parts[0], parts[1])
}

/// The panel row split left to right: 55% for CPU on the left, 45% for memory on
/// the right. Where the area ends within 16-bit coordinates, CPU gets 55% of the
/// columns, rounded to the nearest column with halves up, and memory the columns
/// to its right.
pub fn panels_split(area: Area) -> (r: (Area, Area))
    ensures
        spans_across(false, r.0, area),
        spans_across(false, r.1, area),
        fits_along(false, area) ==> tiles(false, r.0, r.1, area) && r.0.width == share(
            55,
            area.width as int,
        ),
{
    let mut constraints: Vec<Constraint> = Vec::new();
    constraints.push(Constraint::Percentage(55));
    constraints.push(Constraint::Percentage(45));
    let parts = split(false, &constraints, area);
    (parts[0], parts[1])
}

} // verus!
