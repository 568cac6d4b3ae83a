//! The detail view of one process and the kill confirmation over it.

use vstd::prelude::*;

use crate::ui::layout::Area;

verus! {

/// The word for a process state letter.
pub open spec fn state_word(state: char) -> Seq<char> {
    if state == 'I' {
        "Idle"@
    } else if state == 'R' {
        "Running"@
    } else if state == 'S' {
        "Sleeping"@
    } else if state == 'T' {
        "Stopped"@
    } else if state == 'Z' {
        "Zombie"@
    } else {
        "Unknown"@
    }
}

pub fn state_str(state: char) -> (s: &'static str)
    ensures
        s@ == state_word(state),
{
    match state {
        'I' => "Idle",
        'R' => "Running",
        'S' => "Sleeping",
        'T' => "Stopped",
        'Z' => "Zombie",
        _ => "Unknown",
    }
}

/// The width of the kill confirmation: at most 48 cells.
pub open spec fn confirm_width(area: Area) -> u16 {
    if area.width <= 48 {
        area.width
    } else {
        48
    }
}

/// The areas over which the confirmation can be centred within 16-bit coordinates.
pub open spec fn confirm_fits(area: Area) -> bool {
    &&& area.x + (area.width - confirm_width(area)) / 2 <= u16::MAX
    &&& area.y + (if area.height >= 5 {
        area.height - 5
    } else {
        0
    }) / 2 <= u16::MAX
}

/// Whether the confirmation can be centred over `area` within 16-bit coordinates.
pub fn confirm_fits_u16(area: Area) -> (r: bool)
    ensures
        r == confirm_fits(area),
{
    let width = if area.width <= 48 {
        area.width
    } else {
        48
    };
    let x_ok = (area.x as u32) + ((area.width - width) / 2) as u32 <= u16::MAX as u32;
    let y_ok = (area.y as u32) + (area.height.saturating_sub(5) / 2) as u32 <= u16::MAX as u32;
    x_ok && y_ok
}

/// The kill confirmation: five rows high, at most 48 cells wide, centred in `area`
/// (rounding towards the top left), cut to stay within 16-bit coordinates.
pub fn confirm_area(area: Area) -> (r: Area)
    requires
        confirm_fits(area),
    ensures
        ({
            let w = confirm_width(area);
            let x = area.x + (area.width - w) / 2;
            let y = area.y + (if area.height >= 5 {
                area.height - 5
            } else {
                0
            }) / 2;
            &&& r.x == x
            &&& r.y == y
            &&& r.width == if w > u16::MAX - x {
                u16::MAX - x
            } else {
                w as int
            }
            &&& r.height == if 5 > u16::MAX - y {
                u16::MAX - y
            } else {
                5
            }
        }),
{
    let width = if area.width <= 48 {
        area.width
    } else {
        48
    };
    let height: u16 = 5;
    Area::new(
        area.x + (area.width - width) / 2,
        area.y + area.height.saturating_sub(height) / 2,
        width,
        height,
    )
}

} // verus!
