# ROG Control Center

A terminal control centre for ASUS ROG laptops: power profile and PPT limits,
fan curves, Aura keyboard lighting, GPU mode, battery charge limit and a few
firmware toggles, driven through `asusctl`, `supergfxctl` and sysfs.

## Layout

- `src/` is the library, verified with Verus:
  - `text` — the string functions the parsers are stated over;
  - `command`, `error` — commands to run and how their results are judged;
  - `asusctl`, `supergfxctl`, `sysfs` — the commands of the tools and the
    parsers of their output and of the sysfs files;
  - `state` — what the interface knows of the machine, how readings and
    command results change it, and the step-by-step refresh and actions;
  - `app`, `tabs` — the key handling of the interface and its tabs;
  - `theme`, `display` — the palette (built-in or read from the desktop
    theme) and the colours, icons and hints the screens show.
- `app/` is the program around it: the terminal, the event loop, running the
  commands, reading sysfs, and drawing with ratatui.
- `tests/` runs the library on concrete inputs.
