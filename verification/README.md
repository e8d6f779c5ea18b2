# gridstack

The room and synchronization rules of a Matrix homeserver, written in Verus
and proved against their contracts, with a small HTTP server around them.

## Layout

- `src/` — the verified library:
  - `text`, `decimal`, `json`: strings, decimal numbers and JSON values as
    the rules read and build them.
  - `identifiers`: server names, user and room identifiers.
  - `versions`: room versions, their rules and the supported allowlist.
  - `create_room`, `creation_plan`, `room`: validating a create-room request
    and planning the room's first state events.
  - `room_access`: joining, leaving, inviting and listing members.
  - `room_events`, `room_queries`, `room_writes`, `timeline_pages`,
    `state_rows`: reading and writing room state, messages, receipts and
    read markers.
  - `state_contents`: the shape the content of each kind of state or message
    event must have.
  - `history_visibility`: which events a user may see.
  - `sync`: the decisions of a sync request and the reply it builds.
  - `rate_limit`: a fixed-window rate limiter.
  - `errors`, `views`: what requests fail with and what they answer.
- `app/` — the server: routes, request parsing, an in-memory store, and the
  loop that waits for new events during a sync.
- `tests/` — tests of the library on concrete values.
