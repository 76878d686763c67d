# NB WireSmart

NB WireSmart is a Linux window to the WireGuard tunnels that are configured on a
machine (`/etc/wireguard/*.conf`). It starts unprivileged, and asks for elevated
access through `pkexec` where it finds that it needs it.

- `src/` decides: which directories are looked in, which tunnels they hold, when
  the privileged helper is started and what it is asked, what `wg-quick` is told,
  and what the user gets to read. It is verified with
  [Verus](https://github.com/verus-lang/verus).
- `app/` does: it reads directories, runs commands, speaks JSON with the helper
  and draws the window. What has to wait for the outside world is a state machine
  in `src/`; `app/` performs the action that the machine names, and hands back
  what came of it.

| module        | what it holds                                                    |
|---------------|------------------------------------------------------------------|
| `text`        | white space, words, decimal numbers, byte order, UTF-8           |
| `paths`       | paths as bytes: names, stems, extensions, equality, joining      |
| `tunnels`     | tunnels, and the table in which the first file under a name wins |
| `environment` | candidate directories, graphical session                         |
| `listing`     | what was seen in a directory, and which files matter             |
| `commands`    | what the output of `wg`, `wg-quick` and `id` means               |
| `protocol`    | requests, answers and how they are framed                        |
| `exchange`    | one question to the helper                                       |
| `farewell`    | letting a helper go                                              |
| `server`      | the helper's loop                                                |
| `handler`     | how the helper handles a request                                 |
| `helper`      | starting a helper, and making sure that one answers              |
| `discovery`   | looking for tunnels                                              |
| `front_end`   | the state of the window                                          |
| `refresh`     | starting, and looking for tunnels and their status anew          |
| `toggle`      | bringing a tunnel up or down                                     |
| `screen`      | what the window shows, and what a click means                    |
| `logo`        | the logo                                                         |

The window shows `assets/logo.png`. Built with `--cfg embed_logo`, the program
carries that file in itself; built without, it reads the file when it starts to
draw, and does without a logo where there is none.
