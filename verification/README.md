# sliding_sync

The client's side of sliding sync, the way of syncing in which a Matrix client asks for ranges of
sorted lists of rooms and not for all of its rooms. The library is written in Verus: what each
function does is stated in its contract and proved.

- `src/` is the library: views, the generators of their requests, what responses do to them, and
  the stream that asks and takes in by turns. `src/model.rs` says what all of this computes.
  `src/laws.rs` and `src/sync_laws.rs` state and prove what holds of it as a whole.
  `src/outside.rs` holds every call into another crate, with the contract that is trusted of it.
- `tests/` runs the library on concrete values.
- `app/` runs a stream over a connection: it sends, awaits, and turns JSON into values.

A `SlidingSync` has one owner. To let its users and a running stream share it, put it behind a
lock, as `app/` does. The state of a view, its number of rooms, its list and its rooms can be
watched from anywhere, through handles and signals that follow the view.

```text
let mut builder = client.sliding_sync();
builder.homeserver(proxy).add_fullsync_view();
let mut sync = builder.build()?;
let mut stream = sync.stream();
let action = sync.checked_step(&mut stream, StreamEvent::Resume);
```
