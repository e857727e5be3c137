//! Where the ring goes on a surface, and the GL layer's errors.

use nimbus_wayland::focus::Rect;
use nimbus_wayland::render::gles::Error;
use nimbus_wayland::render::uniforms::surface_local_rect;

/// Compositor coordinates run y down and the shader works y up.
#[test]
fn rect_conversion_flips_y_and_applies_scale() {
    let window = Rect { x: 100, y: 50, w: 800, h: 600 };
    let r = surface_local_rect(window, (0, 0), 1080);
    assert_eq!(r.0, 100);
    // 1080 - 50 - 600 = 430 measured from the bottom.
    assert_eq!(r.1, 430);
    assert_eq!(r.2, 800);
    assert_eq!(r.3, 600);
}

#[test]
fn rect_conversion_is_relative_to_the_surface_origin() {
    let window = Rect { x: 2000, y: 100, w: 800, h: 600 };
    let r = surface_local_rect(window, (1920, 0), 1080);
    assert_eq!(r.0, 80, "x must be surface-local, not global");
    let below = surface_local_rect(Rect { x: 0, y: 1200, w: 100, h: 100 }, (0, 1080), 1080);
    assert_eq!(below.1, 1080 - 120 - 100, "y is relative to the surface's own top");
}

#[test]
fn gl_errors_say_which_layer_failed() {
    assert_eq!(Error::Egl("no display".into()).message(), "EGL: no display");
    assert_eq!(Error::Gl("link failed".into()).message(), "GL: link failed");
}
