# new_media

A headless rendering service: a bevy scene is rendered without a window,
its frames are captured and sent to browsers as `data:` URLs over a
websocket, a small HTTP server answers health checks, camera commands
arrive as text, and assets can be loaded from `https` locations.

`src/` is the verified library (Verus). It holds the decisions and formats
of the service:

- `uri`: asset locations (`https://` joined with a path, as a Unix path
  join does) and the `.meta` location next to an asset.
- `fetch`: what a remote read answers for each HTTP status, failed request
  and failed body read.
- `decimal`: decimal text of integers (plain and zero-padded) and parsing
  of `u16` port numbers.
- `codec`: raw RGBA frames, their encoding to PNG or WebP through the
  `image` crate, base64 through the `base64` crate, and `data:` URLs.
- `frame_capture`: the capture state machine (pre-roll countdown, then
  capture every frame) and the PNG forms of frames.
- `headless`: the latest exported frame, the file path it is saved under,
  and its WebP form.
- `server`: reply messages, listening ports, the websocket polling step and
  the JSON reply with the current image (through `serde_json`).
- `controls`: camera command words and the move each one makes.
- `video`: plain data types.

`app/` is the bevy program around it: plugins, systems, the websocket and
HTTP servers, and the asset reader, which hand plain values to the library
and act on what it returns.
