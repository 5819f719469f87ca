# castoff

The daemon of a TV box: a fullscreen player that senders on the local network
control over FCast, with a play queue, web pages shown by a browser engine, image
uploads and an idle clock over rotating wallpapers.

`src/` is the daemon's logic, verified with Verus:

- `fcast`: frames, opcodes and messages of the control protocol
- `connection`: what each command does and answers, and what senders are told unasked
- `player`: plays, jumps, stops and clears; what senders see as the state
- `routing`: which load an event of the media player belongs to, and when a URL
  that is no media is shown as a page
- `script`: the steps of a command, and what follows the failure of each
- `steps`: what each step does to the player, and what a finished command leaves
  on screen
- `queue`, `metadata`: the play queue, and the titles and lengths of its items
- `webpage`: the browser engine's life
- `overlay`, `idle_screen`, `osd`: fades, spinner, clock and wallpapers, as drawn
- `images`, `upload`: uploaded images, wallpaper tags, the upload endpoint
- `text`, `paths`: text and path helpers

Each function states in its contract what it returns or changes. The proof
functions at the end of each module state what holds across calls.

`app/` runs the daemon around the library: sockets, files, processes, the media
player, and whatever is floating point. Floating-point values pass through the
library as their bits (`fcast::Real`).
