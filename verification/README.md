# wispr-flow-linux-helper

The Linux helper of a dictation application: it pastes text, presses keys, tells
which application is focused, and reports key presses, on X11 and on Wayland.

The library under `src/` holds what the helper decides and computes on plain
values, with contracts that Verus proves. `app/` holds the process around it: the
channels to the application, with the framing and the JSON of their messages and
the body of key reports, the X server, the input devices and the programs it runs.

| Module | What it does |
|---|---|
| `dispatch` | reads requests and makes the replies |
| `keymap` | VK codes, X11 keysyms and Linux key codes |
| `paste` | which chord pastes, and which applications are terminals |
| `capture` | which devices are keyboards, and what their events report |
| `event` | input events as bytes |
| `json`, `text`, `bytes` | values and texts that the rest is made of |
| `backend` | what is asked of a session, and the body that describes an application |
| `backend::session` | choosing an injector and a provider of the focused application |
| `backend::compose` | an injector joined with a provider |
| `backend::uinput`, `backend::device` | chords on the virtual keyboard, and setting it up |
| `backend::x11`, `backend::wayland` | keys, windows and the clipboard of a session |
| `backend::pasting`, `backend::selection`, `backend::tool` | the order of a paste, reading the selection, and running programs |

What is proved of the library as a whole stands in the functions whose names begin
with `law_`. What is taken on trust, from the standard library, x11rb and libc, is
marked `external_body` or `assume_specification` and says so in its comment.
