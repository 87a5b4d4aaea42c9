# mpvpaper

A video wallpaper for wlroots-based Wayland compositors, with mpv for playback, EGL for rendering
and `zwlr_layer_shell_v1` for the surface behind the windows.

`src/` is the library, written in Verus: it keeps what is known of each monitor, takes every event
and says what to do next. Its contracts are proved; no I/O stands in it.

| Module | What it decides |
|--------|-----------------|
| `options` | what the command line asks for, the options of the player, the list of monitors |
| `selection` | which monitors get a wallpaper, and on what surface |
| `egl` | the steps of setting up EGL, and the version of OpenGL |
| `geometry` | sizes in pixels |
| `output`, `state` | what each event does to the monitors: scale, size, frame callbacks, new frames |
| `laws`, `history` | what holds across events, and in every run |
| `text` | the operations on text that the others need |

`app/` carries the decisions out: it talks to the compositor, to EGL and to mpv. `tests/` runs the
library from outside.

## Usage

```
mpvpaper-rs [OPTIONS] <OUTPUT> <VIDEO>
mpvpaper-rs -d
```

| Argument | Description |
|----------|-------------|
| `<OUTPUT>` | name of an output (`DP-2`), part of its description, or `ALL` |
| `<VIDEO>` | video file, URL, or `--playlist=/path/to/playlist` |
| `-o, --mpv-options <OPTS>` | options for mpv, separated by spaces |
| `-l, --layer <LAYER>` | `background` (default), `bottom`, `top`, `overlay` |
| `-d, --show-outputs` | list the outputs and exit |
| `-v, --verbose` | print the name of each selected output |

## What is taken on trust

Two functions of the standard library, specified in `text`: `String::push`, and `str::to_lowercase`,
of which it is stated that the result depends on the text alone and what it is on ASCII text.
