//! Where the ring goes on a surface.

use vstd::prelude::*;

use crate::focus::Rect;

verus! {

/// A window's rect in one surface's own coordinates, still logical and with
/// y measured up from the bottom: `(x, y, w, h)`.
///
/// `surface_origin` and `surface_height_logical` are in the compositor's
/// logical space, the same one `window` is in: the flip happens before any
/// scale is applied. Compositor coordinates run y down; the shader works y up.
pub open spec fn surface_local(
    window: Rect,
    surface_origin: (i32, i32),
    surface_height_logical: i32,
) -> (int, int, int, int) {
    (
        window.x - surface_origin.0,
        surface_height_logical - (window.y - surface_origin.1) - window.h,
        window.w as int,
        window.h as int,
    )
}

/// The window's rect relative to the surface, y up, in logical pixels; the
/// scale to physical pixels is applied by whoever draws.
pub fn surface_local_rect(
    window: Rect,
    surface_origin: (i32, i32),
    surface_height_logical: i32,
) -> (r: (i32, i32, i32, i32))
    requires
        i32::MIN <= window.x - surface_origin.0 <= i32::MAX,
        i32::MIN <= window.y - surface_origin.1 <= i32::MAX,
        i32::MIN <= surface_height_logical - (window.y - surface_origin.1) <= i32::MAX,
        i32::MIN <= surface_height_logical - (window.y - surface_origin.1) - window.h <= i32::MAX,
    ensures
        (r.0 as int, r.1 as int, r.2 as int, r.3 as int) == surface_local(
            window,
            surface_origin,
            surface_height_logical,
        ),
{
    let x = window.x - surface_origin.0;
    let y = surface_height_logical - (window.y - surface_origin.1) - window.h;
    (x, y, window.w, window.h)
}

} // verus!
