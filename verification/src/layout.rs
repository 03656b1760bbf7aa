//! The fixed frame layout: the terminal area partitioned into named
//! regions — system-info panel and specs panel on the left half, memory
//! gauge, CPU gauge, process table and a reserved fill on the right half —
//! with no gap and no overlap.

use vstd::prelude::*;

verus! {

/// One rectangular region of the terminal, in cells.
#[derive(Clone, Copy, PartialEq, Eq, Structural, Debug)]
pub struct Region {
    pub x: u16,
    pub y: u16,
    pub width: u16,
    pub height: u16,
}

/// The named regions of one frame.
#[derive(Clone, Copy, PartialEq, Eq, Structural, Debug)]
pub struct Regions {
    pub system_info: Region,
    pub specs: Region,
    pub memory_gauge: Region,
    pub cpu_gauge: Region,
    pub process_table: Region,
    pub spare: Region,
}

/// A terminal area whose far edges still fit in sixteen bits, as the
/// terminal backend guarantees of the rectangles it hands out.
pub open spec fn valid_area(a: Region) -> bool {
    &&& a.x + a.width <= u16::MAX
    &&& a.y + a.height <= u16::MAX
}

/// At most `limit` cells out of `avail`: fixed-height rows take their
/// full height only when the remaining space allows it.
pub open spec fn cap(limit: int, avail: int) -> int {
    if avail < limit {
        avail
    } else {
        limit
    }
}

/// The layout: a 50/50 horizontal split (left half rounds down on odd
/// widths); the left half stacks a six-row system-info panel over the
/// specs fill; the right half stacks two three-row gauges, a thirteen-row
/// process table, and a reserved fill.
pub open spec fn spec_layout(area: Region) -> Regions {
    let left_w = area.width as int / 2;
    let right_w = area.width - left_w;
    let right_x = area.x + left_w;
    let sys_h = cap(6, area.height as int);
    let m0 = cap(3, area.height as int);
    let m1 = cap(3, area.height - m0);
    let m2 = cap(13, area.height - m0 - m1);
    Regions {
        system_info: Region {
            x: area.x,
            y: area.y,
            width: left_w as u16,
            height: sys_h as u16,
        },
        specs: Region {
            x: area.x,
            y: (area.y + sys_h) as u16,
            width: left_w as u16,
            height: (area.height - sys_h) as u16,
        },
        memory_gauge: Region {
            x: right_x as u16,
            y: area.y,
            width: right_w as u16,
            height: m0 as u16,
        },
        cpu_gauge: Region {
            x: right_x as u16,
            y: (area.y + m0) as u16,
            width: right_w as u16,
            height: m1 as u16,
        },
        process_table: Region {
            x: right_x as u16,
            y: (area.y + m0 + m1) as u16,
            width: right_w as u16,
            height: m2 as u16,
        },
        spare: Region {
            x: right_x as u16,
            y: (area.y + m0 + m1 + m2) as u16,
            width: right_w as u16,
            height: (area.height - m0 - m1 - m2) as u16,
        },
    }
}

/// Partition the terminal area into the frame's regions. The two halves
/// sum exactly to the full width, and each vertical stack sums exactly to
/// the full height: nothing overlaps and nothing is left uncovered.
pub fn compute_layout(area: Region) -> (r: Regions)
    requires
        valid_area(area),
    ensures
        r == spec_layout(area),
        r.system_info.width + r.memory_gauge.width == area.width,
        r.system_info.height + r.specs.height == area.height,
        r.memory_gauge.height + r.cpu_gauge.height + r.process_table.height + r.spare.height
            == area.height,
{
    let left_w: u16 = area.width / 2;
    let right_w: u16 = area.width - left_w;
    let right_x: u16 = area.x + left_w;
    let sys_h: u16 = if area.height < 6 {
        area.height
    } else {
        6
    };
    let m0: u16 = if area.height < 3 {
        area.height
    } else {
        3
    };
    let rem1: u16 = area.height - m0;
    let m1: u16 = if rem1 < 3 {
        rem1
    } else {
        3
    };
    let rem2: u16 = rem1 - m1;
    let m2: u16 = if rem2 < 13 {
        rem2
    } else {
        13
    };
    let spare_h: u16 = rem2 - m2;
    Regions {
        system_info: Region { x: area.x, y: area.y, width: left_w, height: sys_h },
        specs: Region {
            x: area.x,
            y: area.y + sys_h,
            width: left_w,
            height: area.height - sys_h,
        },
        memory_gauge: Region { x: right_x, y: area.y, width: right_w, height: m0 },
        cpu_gauge: Region { x: right_x, y: area.y + m0, width: right_w, height: m1 },
        process_table: Region {
            x: right_x,
            y: area.y + m0 + m1,
            width: right_w,
            height: m2,
        },
        spare: Region {
            x: right_x,
            y: area.y + m0 + m1 + m2,
            width: right_w,
            height: spare_h,
        },
    }
}

} // verus!
