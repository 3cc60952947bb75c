# rgsp-cast

Casts the screen and sound of an Anbernic RG SP handheld to a GameStream
client such as Moonlight, and takes the client's input back.

- `src/` is the library. It holds every decision: the H.264 bitstream work, the
  colour conversion and the geometry of the picture, the state machine of a
  capture, pacing and recovery of the video stream, the virtual gamepad, the
  audio period, the routing of the speaker, pairing, the daemon's order of
  starting and stopping, and the interface's screens. Each function states what
  it does in its contract, and Verus proves it.
- `app/` is the program around it: the vendor libraries, the framebuffer, ALSA,
  uinput, the control socket, the streaming protocol and the console's drawing
  toolkit. One binary serves under three names: `rgsp-cast`, `rgsp-host` and
  `rgsp-ui`.
- `tests/` runs the library on concrete values.
- `extras/toolkit_constants.c` gives the program the constants of the drawing
  toolkit that exist only in its C headers.

The laws of the library are its public proof functions whose names begin with
`law_`.
