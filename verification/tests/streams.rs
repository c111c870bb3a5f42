use sliding_sync::{
    Client, Request, Response, SlidingOp, SlidingSync, SlidingSyncBuilder,
    SlidingSyncBuilderError, SlidingSyncMode, SlidingSyncRoom, SlidingSyncState,
    SlidingSyncStream, SlidingSyncViewBuilder, StreamAction, StreamEvent, SyncError, SyncOp, UInt,
};
use futures_signals::signal_vec::{SignalVec, VecDiff};
use std::pin::Pin;
use std::sync::Arc;
use std::task::{Context, Poll, Wake, Waker};
use url::Url;

fn client() -> Client {
    Client {
        homeserver: Url::parse("https://matrix.example.org").unwrap(),
        server_versions: vec!["v1.2".to_string()],
    }
}

fn proxy() -> Url {
    Url::parse("https://proxy.example.org").unwrap()
}

fn with_views(n: usize) -> SlidingSync {
    let mut builder = client().sliding_sync();
    builder.homeserver(proxy());
    for _ in 0..n {
        builder.add_fullsync_view();
    }
    builder.build().unwrap()
}

fn window(start: u32, end: u32) -> (UInt, UInt) {
    (UInt::from(start), UInt::from(end))
}

fn room(id: &str) -> SlidingSyncRoom {
    SlidingSyncRoom { room_id: Some(id.to_string()), content: id.to_string() }
}

fn sync_op(list: u64, start: u32, ids: &[&str]) -> SyncOp {
    SyncOp {
        list: UInt::new(list).unwrap(),
        op: SlidingOp::Sync,
        range: window(start, start + ids.len() as u32),
        rooms: ids.iter().map(|i| room(i)).collect(),
    }
}

fn reply(pos: &str, counts: &[u64], ops: Option<Vec<Option<SyncOp>>>) -> Response {
    Response {
        pos: pos.to_string(),
        ops,
        counts: counts.iter().map(|c| UInt::new(*c).unwrap()).collect(),
    }
}

fn request(sync: &mut SlidingSync, stream: &mut SlidingSyncStream) -> Request {
    match sync.checked_step(stream, StreamEvent::Resume) {
        Some(StreamAction::CheckCancel) => {}
        other => panic!("{:?}", other),
    }
    match sync.checked_step(stream, StreamEvent::Cancelled(false)) {
        Some(StreamAction::Send(request)) => request,
        other => panic!("{:?}", other),
    }
}

fn answer(
    sync: &mut SlidingSync,
    stream: &mut SlidingSyncStream,
    response: Response,
) -> Option<StreamAction> {
    match sync.checked_step(stream, StreamEvent::Reply(response)) {
        Some(StreamAction::CheckCancel) => {}
        other => panic!("{:?}", other),
    }
    sync.checked_step(stream, StreamEvent::Cancelled(false))
}

#[test]
fn builders_need_an_address_and_a_client() {
    match SlidingSyncBuilder::default().build() {
        Err(SlidingSyncBuilderError::UninitializedField(name)) => assert_eq!(name, "homeserver"),
        Ok(_) => panic!(),
    }
    match client().sliding_sync().build() {
        Err(SlidingSyncBuilderError::UninitializedField(name)) => assert_eq!(name, "homeserver"),
        Ok(_) => panic!(),
    }
    let mut clientless = SlidingSyncBuilder::default();
    clientless.homeserver(proxy());
    match clientless.build() {
        Err(SlidingSyncBuilderError::UninitializedField(name)) => assert_eq!(name, "client"),
        Ok(_) => panic!(),
    }
}

#[test]
fn views_are_added_in_order_and_can_be_reset() {
    let mut selective = SlidingSyncViewBuilder::default();
    selective.sync_mode(SlidingSyncMode::Selective).ranges(vec![(3u32, 4u32)]);
    let mut builder = client().sliding_sync();
    builder.homeserver(proxy()).add_fullsync_view().add_view(selective.build().unwrap());
    let mut sync = builder.build().unwrap();
    assert_eq!(sync.views().len(), 2);
    let mut stream = sync.stream();
    let asked = request(&mut sync, &mut stream);
    assert_eq!(asked.lists[0].ranges, vec![window(0, 20)]);
    assert_eq!(asked.lists[1].ranges, vec![window(3, 4)]);

    let mut builder = sync.new_builder_copy();
    builder.no_views();
    assert_eq!(builder.build().unwrap().views().len(), 0);
    let mut builder = sync.new_builder_copy();
    builder.no_views().add_fullsync_view();
    assert_eq!(builder.build().unwrap().views().len(), 1);
}

#[test]
fn requests_go_to_the_address_that_was_given() {
    let sync = with_views(1);
    let stream = sync.stream();
    assert_eq!(stream.homeserver(), &proxy());
    assert_eq!(stream.server_versions(), &vec!["v1.2".to_string()]);
}

#[test]
fn a_stream_asks_and_takes_in_in_turn() {
    let mut sync = with_views(1);
    let mut stream = sync.stream();
    let first = request(&mut sync, &mut stream);
    assert_eq!(first.pos, None);
    assert_eq!(first.lists.len(), 1);
    assert_eq!(first.lists[0].ranges, vec![window(0, 20)]);
    let ops = vec![Some(sync_op(0, 0, &["!a:example.org", "!b:example.org"]))];
    match answer(&mut sync, &mut stream, reply("s1", &[25], Some(ops))) {
        Some(StreamAction::Yield) => {}
        other => panic!("{:?}", other),
    }
    assert_eq!(sync.pos(), Some("s1".to_string()));
    assert_eq!(sync.views()[0].rooms_count(), Some(25));
    assert_eq!(sync.views()[0].get_rooms(None, None).len(), 2);

    let second = request(&mut sync, &mut stream);
    assert_eq!(second.pos, Some("s1".to_string()));
    assert_eq!(second.lists[0].ranges, vec![window(20, 40)]);
    answer(&mut sync, &mut stream, reply("s2", &[25], None)).unwrap();
    sync.view_mut(0).set_ranges(vec![(0, 9)]);
    let third = request(&mut sync, &mut stream);
    assert_eq!(third.pos, Some("s2".to_string()));
    assert_eq!(third.lists[0].ranges, vec![window(0, 9)]);
    assert_eq!(sync.views()[0].state(), SlidingSyncState::Live);
}

#[test]
fn views_get_the_operations_on_their_own_lists() {
    let mut sync = with_views(2);
    let mut stream = sync.stream();
    request(&mut sync, &mut stream);
    let ops = vec![
        Some(sync_op(1, 0, &["!b:example.org"])),
        None,
        Some(sync_op(0, 1, &["!a:example.org"])),
        Some(sync_op(1, 1, &["!c:example.org"])),
    ];
    match answer(&mut sync, &mut stream, reply("s1", &[2, 3], Some(ops))) {
        Some(StreamAction::Yield) => {}
        other => panic!("{:?}", other),
    }
    let id = |t: &str| Some(t.to_string());
    assert_eq!(sync.views()[0].rooms_list(), vec![None, id("!a:example.org")]);
    assert_eq!(
        sync.views()[1].rooms_list(),
        vec![id("!b:example.org"), id("!c:example.org"), None]
    );
}

#[test]
fn without_operations_the_numbers_are_not_read() {
    let mut sync = with_views(1);
    let mut stream = sync.stream();
    request(&mut sync, &mut stream);
    match answer(&mut sync, &mut stream, reply("s1", &[], None)) {
        Some(StreamAction::Yield) => {}
        other => panic!("{:?}", other),
    }
    assert_eq!(sync.views()[0].rooms_count(), None);
    assert_eq!(sync.pos(), Some("s1".to_string()));
}

#[test]
fn a_response_that_fails_ends_the_stream() {
    let mut sync = with_views(2);
    let mut stream = sync.stream();
    request(&mut sync, &mut stream);
    let ops = vec![Some(sync_op(0, 0, &["no id"])), Some(sync_op(1, 0, &["!a:example.org"]))];
    match answer(&mut sync, &mut stream, reply("s1", &[1, 1], Some(ops))) {
        Some(StreamAction::Fail(SyncError::InvalidRoomId(_))) => {}
        other => panic!("{:?}", other),
    }
    // the position has moved on, and the first view has its places
    assert_eq!(sync.pos(), Some("s1".to_string()));
    assert_eq!(sync.views()[0].rooms_count(), Some(1));
    assert_eq!(sync.views()[1].rooms_count(), None);
    assert!(sync.checked_step(&mut stream, StreamEvent::Resume).is_none());
}

#[test]
fn numbers_of_rooms_must_fit_32_bits() {
    let mut sync = with_views(2);
    let mut stream = sync.stream();
    request(&mut sync, &mut stream);
    match answer(&mut sync, &mut stream, reply("s1", &[7, 1 << 32], Some(vec![]))) {
        Some(StreamAction::Fail(SyncError::CountTooLarge)) => {}
        other => panic!("{:?}", other),
    }
    assert_eq!(sync.views()[0].rooms_count(), Some(7));
}

#[test]
fn a_stream_without_views_ends() {
    let mut sync = with_views(0);
    let mut stream = sync.stream();
    match sync.checked_step(&mut stream, StreamEvent::Resume) {
        Some(StreamAction::Finish) => {}
        other => panic!("{:?}", other),
    }
    assert!(sync.checked_step(&mut stream, StreamEvent::Resume).is_none());
}

#[test]
fn a_stream_that_is_cancelled_sends_nothing() {
    let mut sync = with_views(1);
    let mut stream = sync.stream();
    sync.checked_step(&mut stream, StreamEvent::Resume).unwrap();
    match sync.checked_step(&mut stream, StreamEvent::Cancelled(true)) {
        Some(StreamAction::Finish) => {}
        other => panic!("{:?}", other),
    }
    assert!(sync.checked_step(&mut stream, StreamEvent::Cancelled(false)).is_none());
}

#[test]
fn a_reply_to_a_cancelled_stream_is_not_taken_in() {
    let mut sync = with_views(1);
    let mut stream = sync.stream();
    request(&mut sync, &mut stream);
    let response = reply("s1", &[5], Some(vec![]));
    sync.checked_step(&mut stream, StreamEvent::Reply(response)).unwrap();
    match sync.checked_step(&mut stream, StreamEvent::Cancelled(true)) {
        Some(StreamAction::Finish) => {}
        other => panic!("{:?}", other),
    }
    assert_eq!(sync.pos(), None);
    assert_eq!(sync.views()[0].rooms_count(), None);
}

#[test]
fn a_send_that_fails_is_handed_out_and_ends_the_stream() {
    let mut sync = with_views(1);
    let mut stream = sync.stream();
    request(&mut sync, &mut stream);
    answer(&mut sync, &mut stream, reply("s1", &[25], Some(vec![]))).unwrap();
    request(&mut sync, &mut stream);
    let pos = sync.pos();
    match sync.checked_step(&mut stream, StreamEvent::SendFailed) {
        Some(StreamAction::SendFailed) => {}
        other => panic!("{:?}", other),
    }
    assert_eq!(sync.pos(), pos);
    assert_eq!(pos, Some("s1".to_string()));
    assert_eq!(sync.views()[0].rooms_count(), Some(25));
    assert_eq!(sync.views()[0].rooms_list().len(), 25);
    assert!(sync.checked_step(&mut stream, StreamEvent::Resume).is_none());
}

fn refused(views: usize, response: Response) {
    let mut sync = with_views(views);
    let mut stream = sync.stream();
    request(&mut sync, &mut stream);
    assert!(answer(&mut sync, &mut stream, response).is_none());
    assert_eq!(sync.pos(), None);
    assert!(sync.views().iter().all(|v| v.rooms_count().is_none()));
}

#[test]
fn responses_that_do_not_fit_are_told_apart() {
    // a list that was not asked for
    refused(1, reply("s1", &[1], Some(vec![Some(sync_op(1, 0, &["!a:example.org"]))])));
    refused(1, reply("s1", &[1], Some(vec![Some(sync_op(1 << 40, 0, &["!a:example.org"]))])));
    // a list that was not counted
    refused(2, reply("s1", &[1], Some(vec![])));
    // a place that the list does not have
    refused(1, reply("s1", &[1], Some(vec![Some(sync_op(0, 1, &["!a:example.org"]))])));
}

#[test]
fn lists_after_one_that_fails_are_not_read() {
    let mut sync = with_views(2);
    let mut stream = sync.stream();
    request(&mut sync, &mut stream);
    let ops = vec![Some(sync_op(0, 0, &["?"])), Some(sync_op(1, 9, &["!a:example.org"]))];
    match answer(&mut sync, &mut stream, reply("s1", &[1], Some(ops))) {
        Some(StreamAction::Fail(_)) => {}
        other => panic!("{:?}", other),
    }
}

#[test]
fn copies_of_a_sync_start_anew() {
    let mut sync = with_views(2);
    let mut stream = sync.stream();
    request(&mut sync, &mut stream);
    let ops = vec![Some(sync_op(0, 0, &["!a:example.org"]))];
    answer(&mut sync, &mut stream, reply("s1", &[1, 1], Some(ops))).unwrap();
    let copy = sync.new_builder_copy().build().unwrap();
    assert_eq!(copy.pos(), None);
    assert_eq!(copy.target(), proxy());
    assert_eq!(copy.server_versions(), vec!["v1.2".to_string()]);
    assert_eq!(copy.views().len(), 2);
    for view in copy.views() {
        assert_eq!(view.state(), SlidingSyncState::Cold);
        assert_eq!(view.rooms_count(), None);
        assert!(view.rooms_list().is_empty());
        assert!(view.room(&"!a:example.org".to_string()).is_none());
    }
}

#[test]
fn copies_of_a_builder_keep_their_views() {
    let mut builder = client().sliding_sync();
    builder.homeserver(proxy()).add_fullsync_view();
    let mut known = SlidingSyncViewBuilder::default();
    known.state(SlidingSyncState::Live).rooms_count(Some(3));
    known.rooms_list(vec![None, Some("!a:example.org".to_string())]);
    known.rooms(vec![("!a:example.org".to_string(), room("!a:example.org"))]);
    builder.add_view(known.build().unwrap());
    let copy = builder.copied();
    let built = builder.copied().build().unwrap();
    builder.no_views();
    assert_eq!(built.views().len(), 2);
    let from_copy = copy.build().unwrap();
    assert_eq!(from_copy.views().len(), 2);
    assert_eq!(from_copy.target(), proxy());
    let view = &from_copy.views()[1];
    assert_eq!(view.state(), SlidingSyncState::Live);
    assert_eq!(view.rooms_count(), Some(3));
    assert_eq!(view.rooms_list(), vec![None, Some("!a:example.org".to_string())]);
    assert_eq!(view.get_rooms(None, None).len(), 1);
    builder.add_fullsync_view();
    assert_eq!(builder.build().unwrap().views().len(), 1);
}

#[test]
fn watchers_follow_a_view_into_a_sync_and_its_stream() {
    let view = SlidingSyncViewBuilder::default_with_fullsync().build().unwrap();
    let state = view.watch_state();
    let count = view.watch_rooms_count();
    let mut builder = client().sliding_sync();
    builder.homeserver(proxy()).add_view(view);
    let mut sync = builder.build().unwrap();
    let mut stream = sync.stream();
    request(&mut sync, &mut stream);
    assert_eq!(state.get_cloned(), SlidingSyncState::Preload);
    answer(&mut sync, &mut stream, reply("s1", &[7], Some(vec![]))).unwrap();
    assert_eq!(count.get_cloned(), Some(7));
    sync.view_mut(0).set_ranges(vec![(0, 3)]);
    assert_eq!(request(&mut sync, &mut stream).lists[0].ranges, vec![window(0, 3)]);
    assert_eq!(state.get_cloned(), SlidingSyncState::Live);
}

#[test]
fn ranges_set_on_one_view_leave_the_requests_of_the_others() {
    let mut sync = with_views(2);
    let mut stream = sync.stream();
    request(&mut sync, &mut stream);
    answer(&mut sync, &mut stream, reply("s1", &[3, 3], Some(vec![]))).unwrap();
    sync.view_mut(1).set_ranges(vec![(1, 2)]);
    let asked = request(&mut sync, &mut stream);
    assert_eq!(asked.lists[0].ranges, vec![]);
    assert_eq!(asked.lists[1].ranges, vec![window(1, 2)]);
}

struct NoWake;

impl Wake for NoWake {
    fn wake(self: Arc<Self>) {}
}

#[test]
fn views_can_be_added_to_a_sync_and_watched() {
    let mut sync = with_views(1);
    let mut stream = sync.stream();
    let mut list = sync.watch_views();
    sync.add_view(SlidingSyncViewBuilder::default_with_fullsync().build().unwrap());
    assert_eq!(sync.views().len(), 2);

    let waker = Waker::from(Arc::new(NoWake));
    let mut cx = Context::from_waker(&waker);
    match Pin::new(&mut list).poll_vec_change(&mut cx) {
        Poll::Ready(Some(VecDiff::Replace { values })) => assert_eq!(values, vec![0]),
        other => panic!("{:?}", other),
    }
    match Pin::new(&mut list).poll_vec_change(&mut cx) {
        Poll::Ready(Some(VecDiff::Push { value })) => assert_eq!(value, 1),
        other => panic!("{:?}", other),
    }

    // the stream that is running goes on with the view that it has
    assert_eq!(request(&mut sync, &mut stream).lists.len(), 1);
    assert_eq!(sync.views()[1].state(), SlidingSyncState::Cold);
    let mut next = sync.stream();
    assert_eq!(request(&mut sync, &mut next).lists.len(), 2);
}
