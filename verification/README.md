# butter-scroll

Smooth mouse-wheel and keyboard scrolling for Windows: low-level hooks catch
wheel events and scroll keys, an animation engine eases them out over time,
and smoothed wheel events are injected back, per application at the
granularity it handles best.

## Layout

- `src/` — the verified library (Verus). Every function carries a contract
  over mathematical models (`Seq`, `Map`, `Set`):
  - `config` — keyboard key-group modes and their inheritance, defaults,
    documented timing ranges;
  - `keyboard_hook` — which key presses become scrolls, and the pairing of
    swallowed key presses with their releases;
  - `threshold` — the per-application threshold cache, what is saved of it
    and how it is loaded back (with the save/load round-trip law);
  - `engine` — the integer decisions of the scroll engine: direction
    changes, acceleration windows, process-to-application resolution and
    detection requests;
  - `detector` — classification of an application's scrolling from what is
    observed of its window;
  - `hotkey` — hotkey parsing (the reading depends only on the tokens)
    and registration updates;
  - `combo` — the laws that a hotkey reads the same whatever its letter
    case, the spaces around its tokens, its empty `+` pieces and the order
    of its tokens;
  - `location` — where the data lives: `%APPDATA%\com.butter-scroll.app`
    for an installed copy, beside the executable in portable mode (a
    `.portable` file next to it), and when older files are carried over;
  - `paths` — Windows paths compared by components, as application keys
    are;
  - `app_filter` — toggling applications in the filter, the confirmation
    address;
  - `foreground`, `util`, `text`, `autostart`, `app`, `traits`, `resolve`,
    `easing` — application names, UTF-16 conversion, string helpers,
    login-start command, tray switches, clocks and resolvers.
- `app/` — the Windows program: hooks, tray icon, wheel injection, registry,
  configuration files, and the floating-point animation (easing curves,
  acceleration factor, output accumulation).
- `tests/` — tests of the library.
