# gtkshutdown

Closes every open Wayland client (Hyprland, Sway or Mango) before a shutdown,
showing the apps still open in a GTK window, then runs an optional command.

- `src/` is the library, verified with Verus: the closing state machine
  (`client_killer`), the backends' client lists and commands (`backends`), the
  list refresh (`app`), the order clients are listed in (`order`), the text
  shown (`ui`), and the post-shutdown command line (`cli`).
- `app/` is the program around it: IPC sockets, `swayipc`, `mango-ipc`,
  `hyprland` dispatches, the GTK window, logging and argument parsing.
- `tests/` runs the library on concrete values.
