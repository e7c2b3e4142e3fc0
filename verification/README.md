# tune

A terminal player for Spotify, local music files and internet radio, with its
logic verified in [Verus](https://github.com/verus-lang/verus).

`src/` is the library. Every function in it states in a contract what it returns
or changes, and Verus proves the code against it:

- `app`, `keys`: the state of the screen, and what each key does to it
- `device`, `command`: which Spotify Connect device a command goes to, and what
  is sent
- `releases`: an artist's albums and singles, newest first
- `load`, `pane`: search results, lists, polling, the cover, and scrolling
- `screen`, `theme`: rows, headings and bars as styled text
- `playback`: what plays, its cover and its times
- `auth`: scopes, the sign-in's redirect, and failed refreshes
- `player`: the id under which tune registers as a device
- `local`: folders, covers beside files, and the commands to mpv
- `radio`: the station directory, and the stations that are kept
- `sources`: files and radio on the screen, and switching between them and
  Spotify
- `config`, `path`, `json`, `text`: settings, paths, JSON values, and texts

Proof functions named `law_…` state what holds across functions.

`app/` is the program around it: the terminal, the network, files and processes.
It hands plain values to the library and carries out what comes back.

`tests/` runs the library on concrete values.
