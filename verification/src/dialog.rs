//! Placement of a centred dialog box inside the terminal area.
use vstd::prelude::*;

verus! {

/// A rectangle of terminal cells.
#[derive(Debug, Clone, Copy, PartialEq, Eq, Structural)]
pub struct Rect {
    pub x: u16,
    pub y: u16,
    pub width: u16,
    pub height: u16,
}

/// A dialog's title, its preferred size, and how far below the top of the
/// area it sits.
#[derive(Debug, Clone, Copy, PartialEq, Eq)]
pub struct Dialog<'a> {
    pub title: &'a str,
    pub width: u16,
    pub height: u16,
    pub y_offset: u16,
}

pub open spec fn min_int(a: int, b: int) -> int {
    if a < b {
        a
    } else {
        b
    }
}

/// The dialog's box within `area`: its size clamped to the area (at least
/// one cell each way), centred across, and `y_offset` rows down as far as
/// the area leaves room.
pub open spec fn dialog_area_spec(width: u16, height: u16, y_offset: u16, area: Rect) -> Rect {
    let w = if min_int(width as int, area.width as int) < 1 {
        1
    } else {
        min_int(width as int, area.width as int)
    };
    let h = if min_int(height as int, area.height as int) < 1 {
        1
    } else {
        min_int(height as int, area.height as int)
    };
    let spare_w = if area.width >= w {
        area.width - w
    } else {
        0
    };
    let spare_h = if area.height >= h {
        area.height - h
    } else {
        0
    };
    Rect {
        x: (area.x + spare_w / 2) as u16,
        y: (area.y + min_int(y_offset as int, spare_h)) as u16,
        width: w as u16,
        height: h as u16,
    }
}

impl<'a> Dialog<'a> {
    pub fn new(title: &'a str, width: u16, height: u16) -> (r: Self)
        ensures
            r.title == title,
            r.width == width,
            r.height == height,
            r.y_offset == 1,
    {
        Dialog { title, width, height, y_offset: 1 }
    }

    pub fn y_offset(self, y_offset: u16) -> (r: Self)
        ensures
            r == (Dialog { y_offset, ..self }),
    {
        Dialog { y_offset, ..self }
    }

    /// Where the dialog's box lies within `area`.
    pub fn area(self, area: Rect) -> (r: Rect)
        requires
            area.x + area.width <= u16::MAX,
            area.y + area.height <= u16::MAX,
        ensures
            r == dialog_area_spec(self.width, self.height, self.y_offset, area),
    {
        let width = {
            let w = if self.width < area.width {
                self.width
            } else {
                area.width
            };
            if w < 1 {
                1
            } else {
                w
            }
        };
        let height = {
            let h = if self.height < area.height {
                self.height
            } else {
                area.height
            };
            if h < 1 {
                1
            } else {
                h
            }
        };
        let spare_height = area.height.saturating_sub(height);
        let x = area.x + area.width.saturating_sub(width) / 2;
        let y = area.y + if self.y_offset < spare_height {
            self.y_offset
        } else {
            spare_height
        };
        Rect { x, y, width, height }
    }
}

/// The box never leaves a non-empty area.
pub proof fn lemma_dialog_inside(width: u16, height: u16, y_offset: u16, area: Rect)
    requires
        area.width >= 1,
        area.height >= 1,
        area.x + area.width <= u16::MAX,
        area.y + area.height <= u16::MAX,
    ensures
        ({
            let r = dialog_area_spec(width, height, y_offset, area);
            &&& area.x <= r.x
            &&& r.x + r.width <= area.x + area.width
            &&& area.y <= r.y
            &&& r.y + r.height <= area.y + area.height
        }),
{
}

} // verus!
