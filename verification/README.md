# chat_rooms

A room-based websocket chat server. Visiting `/chat/<room>` serves a page
that connects to `/api/chat-room/<room>`; the first user to connect opens the
room, messages go to the other users of the same room, and the room closes
when its last user leaves. Each room keeps a transcript that is merged into
`room<id>.json` every 30 seconds.

- `src/` is the verified library (Verus): the server state and every
  operation on it, message broadcasting, transcript merging, the page text
  and decimal rendering, with contracts over mathematical views and the laws
  in `src/laws.rs`.
- `app/` is the program around it: warp routes, websocket tasks, the shared
  lock, printing, the clock-driven save loop and JSON files.
- `tests/` runs the library on concrete values.
