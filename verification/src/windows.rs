//! Where an overlay window is placed: under the cursor, kept on the
//! monitor.
use vstd::prelude::*;

verus! {

/// Integer division by two that rounds toward zero, as `i32` division does.
pub open spec fn half(w: int) -> int {
    if w >= 0 {
        w / 2
    } else {
        -((-w) / 2)
    }
}

pub open spec fn fits(v: int) -> bool {
    i32::MIN <= v <= i32::MAX
}

/// The placement of an overlay: centred under the cursor and `offset_y`
/// below it; above the cursor where it would reach within 20 pixels of the
/// monitor's bottom; then kept 10 pixels inside the monitor, top and left
/// winning over bottom and right.
pub open spec fn overlay_target(
    cursor_x: int,
    cursor_y: int,
    win_w: int,
    win_h: int,
    mon_x: int,
    mon_y: int,
    mon_w: int,
    mon_h: int,
    offset_y: int,
) -> (int, int) {
    let x0 = cursor_x - half(win_w);
    let y0 = cursor_y + offset_y;
    let y1 = if y0 + win_h + 20 > mon_y + mon_h {
        cursor_y - win_h - offset_y
    } else {
        y0
    };
    let y2 = if y1 < mon_y + 10 {
        mon_y + 10
    } else if y1 + win_h > mon_y + mon_h - 10 {
        mon_y + mon_h - win_h - 10
    } else {
        y1
    };
    let x1 = if x0 + win_w > mon_x + mon_w - 10 {
        mon_x + mon_w - win_w - 10
    } else {
        x0
    };
    let x2 = if x1 < mon_x + 10 {
        mon_x + 10
    } else {
        x1
    };
    (x2, y2)
}

/// Every sum and difference that the placement takes stays within `i32`.
pub open spec fn overlay_fits_i32(
    cursor_x: int,
    cursor_y: int,
    win_w: int,
    win_h: int,
    mon_x: int,
    mon_y: int,
    mon_w: int,
    mon_h: int,
    offset_y: int,
) -> bool {
    let x0 = cursor_x - half(win_w);
    let y0 = cursor_y + offset_y;
    let below = y0 + win_h + 20 > mon_y + mon_h;
    let y1 = if below {
        cursor_y - win_h - offset_y
    } else {
        y0
    };
    &&& fits(x0)
    &&& fits(y0)
    &&& fits(y0 + win_h)
    &&& fits(y0 + win_h + 20)
    &&& fits(mon_y + mon_h)
    &&& (below ==> fits(cursor_y - win_h) && fits(cursor_y - win_h - offset_y))
    &&& fits(mon_y + 10)
    &&& (y1 >= mon_y + 10 ==> fits(y1 + win_h) && fits(mon_y + mon_h - 10))
    &&& (y1 >= mon_y + 10 && y1 + win_h > mon_y + mon_h - 10 ==> fits(mon_y + mon_h - win_h) && fits(
        mon_y + mon_h - win_h - 10,
    ))
    &&& fits(x0 + win_w)
    &&& fits(mon_x + mon_w)
    &&& fits(mon_x + mon_w - 10)
    &&& (x0 + win_w > mon_x + mon_w - 10 ==> fits(mon_x + mon_w - win_w) && fits(
        mon_x + mon_w - win_w - 10,
    ))
    &&& fits(mon_x + 10)
}

fn fits_in(v: i64) -> (r: bool)
    ensures
        r == fits(v as int),
{
    -2147483648i64 <= v && v <= 2147483647i64
}

/// Whether the placement of an overlay can be computed in `i32` without
/// overflowing.
pub fn overlay_fits(
    cursor_x: i32,
    cursor_y: i32,
    win_w: i32,
    win_h: i32,
    mon_x: i32,
    mon_y: i32,
    mon_w: i32,
    mon_h: i32,
    offset_y: i32,
) -> (r: bool)
    ensures
        r == overlay_fits_i32(
            cursor_x as int,
            cursor_y as int,
            win_w as int,
            win_h as int,
            mon_x as int,
            mon_y as int,
            mon_w as int,
            mon_h as int,
            offset_y as int,
        ),
{
    let cx = cursor_x as i64;
    let cy = cursor_y as i64;
    let w = win_w as i64;
    let h = win_h as i64;
    let mx = mon_x as i64;
    let my = mon_y as i64;
    let mw = mon_w as i64;
    let mh = mon_h as i64;
    let off = offset_y as i64;
    let half_w: i64 = (win_w / 2) as i64;
    assert(half_w == half(win_w as int));
    let x0 = cx - half_w;
    let y0 = cy + off;
    let below = y0 + h + 20 > my + mh;
    let y1 = if below {
        cy - h - off
    } else {
        y0
    };
    fits_in(x0) && fits_in(y0) && fits_in(y0 + h) && fits_in(y0 + h + 20) && fits_in(my + mh) && (
    !below || (fits_in(cy - h) && fits_in(cy - h - off))) && fits_in(my + 10) && (y1 < my + 10 || (
    fits_in(y1 + h) && fits_in(my + mh - 10))) && (!(y1 >= my + 10 && y1 + h > my + mh - 10) || (
    fits_in(my + mh - h) && fits_in(my + mh - h - 10))) && fits_in(x0 + w) && fits_in(mx + mw)
        && fits_in(mx + mw - 10) && (!(x0 + w > mx + mw - 10) || (fits_in(mx + mw - w) && fits_in(
        mx + mw - w - 10,
    ))) && fits_in(mx + 10)
}

/// Computes where an overlay window of the given size goes on the given
/// monitor, for the given cursor position.
pub fn overlay_position(
    cursor_x: i32,
    cursor_y: i32,
    win_w: i32,
    win_h: i32,
    mon_x: i32,
    mon_y: i32,
    mon_w: i32,
    mon_h: i32,
    offset_y: i32,
) -> (r: (i32, i32))
    requires
        overlay_fits_i32(
            cursor_x as int,
            cursor_y as int,
            win_w as int,
            win_h as int,
            mon_x as int,
            mon_y as int,
            mon_w as int,
            mon_h as int,
            offset_y as int,
        ),
    ensures
        (r.0 as int, r.1 as int) == overlay_target(
            cursor_x as int,
            cursor_y as int,
            win_w as int,
            win_h as int,
            mon_x as int,
            mon_y as int,
            mon_w as int,
            mon_h as int,
            offset_y as int,
        ),
{
    let mut target_x = cursor_x - (win_w / 2);
    let mut target_y = cursor_y + offset_y;
    if target_y + win_h + 20 > mon_y + mon_h {
        target_y = cursor_y - win_h - offset_y;
    }
    if target_y < mon_y + 10 {
        target_y = mon_y + 10;
    } else if target_y + win_h > mon_y + mon_h - 10 {
        target_y = mon_y + mon_h - win_h - 10;
    }
    if target_x + win_w > mon_x + mon_w - 10 {
        target_x = mon_x + mon_w - win_w - 10;
    }
    if target_x < mon_x + 10 {
        target_x = mon_x + 10;
    }
    (target_x, target_y)
}

/// An overlay that fits on its monitor with a 10-pixel margin all
/// round is placed entirely within that margin, wherever the cursor is.
pub proof fn overlay_stays_on_monitor(
    cursor_x: int,
    cursor_y: int,
    win_w: int,
    win_h: int,
    mon_x: int,
    mon_y: int,
    mon_w: int,
    mon_h: int,
    offset_y: int,
)
    requires
        win_w + 20 <= mon_w,
        win_h + 20 <= mon_h,
    ensures
        ({
            let (x, y) = overlay_target(
                cursor_x,
                cursor_y,
                win_w,
                win_h,
                mon_x,
                mon_y,
                mon_w,
                mon_h,
                offset_y,
            );
            &&& mon_x + 10 <= x <= mon_x + mon_w - win_w - 10
            &&& mon_y + 10 <= y <= mon_y + mon_h - win_h - 10
        }),
{
}

} // verus!
