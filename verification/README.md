# nimbus-wayland

Draws an animated ring of light around the window that has keyboard focus on
a Wayland desktop (Hyprland), so you never type into the wrong one.

Layout:

- `src/` is the verified library: what the compositor's event socket and JSON
  replies say (`focus`), when a ring is shown and when it stands down
  (`focus::tracker`, `ring`), which palette comes next (`style`), what a config
  file says (`config`), the control protocol spoken by the bar panel and the
  CLI (`control`), where the bar control is installed (`install`), and where
  the ring goes on a surface (`render`). Every public function states its
  result in its contract; the laws that relate functions are proof functions
  named `law_*`.
- `app/` is the program around it: the Wayland surfaces, the GL context, the
  frame clock and the fractional numbers (brightness curve, cross-fade, ring
  proportions), the sockets and files, and the command line.
- `tests/` runs the library on concrete cases.
