# matrix_client_logic

Client-side logic of a Matrix SDK, written in Verus with its contracts
proved:

- `pagination`: the back-pagination status of a room event cache, the guard
  that puts it back when a pagination gives up, the gathering of events over
  several paginations and the step taken after each load from storage.
- `task_queue`, `key_backup`: the decisions of the room key backup tasks, the
  ordered queue of running key downloads and the steps of one download.
- `selectors`: the state of the event cache and the selectors that pick a
  room, thread or pinned-events state in it.
- `text_codec`: the argument checks and the byte work of the text encoder and
  decoder and of the WebAssembly helpers offered to JavaScript guests.
- `room_list_filter`: the fuzzy room name filter of the room list.

`app/` holds what runs around the library: tokio tasks and channels, eyeball
observables, logging set-up and the JavaScriptCore glue.
