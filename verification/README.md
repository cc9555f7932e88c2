# Disastris

A disastrous factory meets tetris: disassemble the useless input blob and move, turn and cut
its parts with tools until they fill the target area.

The rules of the game form the library `disastris` in `src/`, written in Verus with
contracts that Verus proves:

- `data`: the bodies of the tetris bricks, the starting blobs and targets, the levels.
- `field`: the field and its cached state, blocks, blobs, targets and tools.
- `movement`: gravity, moving, turning and dissolving blobs.
- `input`, `hud`: what the mouse wheel, clicks and toolbar buttons do.
- `state`, `game`: the player, the levels, the state transitions, winning a level.
- `view`: rotations and the animation demo.

`app/` holds the bevy application around it: windows, sprites, animations, the command
line. `tests/` runs the library on concrete values.
