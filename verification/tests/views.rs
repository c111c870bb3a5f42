use std::pin::Pin;
use std::sync::Arc;
use std::task::{Context, Poll, Wake, Waker};

use futures_signals::signal_map::{MapDiff, SignalMap};
use futures_signals::signal_vec::{SignalVec, VecDiff};
use sliding_sync::{
    RoomIdError, SlidingOp, SlidingSyncRoom, SlidingSyncState, SlidingSyncView,
    SlidingSyncViewBuilder, SyncError, SyncOp, UInt,
};

fn room(id: &str, content: &str) -> SlidingSyncRoom {
    SlidingSyncRoom { room_id: Some(id.to_string()), content: content.to_string() }
}

fn op(kind: SlidingOp, start: u64, rooms: Vec<SlidingSyncRoom>) -> SyncOp {
    let end = start + rooms.len() as u64;
    SyncOp {
        list: UInt::from(0u32),
        op: kind,
        range: (UInt::new(start).unwrap(), UInt::new(end).unwrap()),
        rooms,
    }
}

fn empty_view() -> SlidingSyncView {
    SlidingSyncViewBuilder::default_with_fullsync().build().unwrap()
}

fn contents(rooms: &[SlidingSyncRoom]) -> Vec<&str> {
    rooms.iter().map(|r| r.content.as_str()).collect()
}

fn listed(view: &SlidingSyncView) -> Vec<Option<String>> {
    view.rooms_list()
}

fn id(text: &str) -> Option<String> {
    Some(text.to_string())
}

#[test]
fn a_response_makes_room_for_the_rooms() {
    let mut view = empty_view();
    assert_eq!(view.handle_response(3, &vec![]), Ok(()));
    assert_eq!(listed(&view), vec![None, None, None]);
    assert_eq!(view.rooms_count(), Some(3));
    assert_eq!(view.handle_response(5, &vec![]), Ok(()));
    assert_eq!(listed(&view).len(), 5);
    assert_eq!(view.rooms_count(), Some(5));
}

#[test]
fn fewer_rooms_take_no_place_away() {
    let mut view = empty_view();
    view.handle_response(4, &vec![]).unwrap();
    view.handle_response(2, &vec![]).unwrap();
    assert_eq!(listed(&view).len(), 4);
    assert_eq!(view.rooms_count(), Some(2));
}

#[test]
fn that_there_is_no_room_is_known_too() {
    let mut view = empty_view();
    assert_eq!(view.rooms_count(), None);
    view.handle_response(0, &vec![]).unwrap();
    assert_eq!(listed(&view).len(), 0);
    assert_eq!(view.rooms_count(), Some(0));
}

#[test]
fn synced_rooms_are_read_back() {
    let mut view = empty_view();
    let ops = vec![op(
        SlidingOp::Sync,
        1,
        vec![room("!a:example.org", "a"), room("!b:example.org", "b")],
    )];
    assert_eq!(view.handle_response(5, &ops), Ok(()));
    assert_eq!(
        listed(&view),
        vec![None, id("!a:example.org"), id("!b:example.org"), None, None]
    );
    assert_eq!(contents(&view.get_rooms(Some(1), Some(2))), vec!["a", "b"]);
    assert_eq!(view.room(&"!b:example.org".to_string()).unwrap().content, "b");
    assert!(view.room(&"!c:example.org".to_string()).is_none());
}

#[test]
fn later_operations_elsewhere_do_not_disturb_what_is_read_back() {
    let mut view = empty_view();
    let ops = vec![
        op(SlidingOp::Sync, 0, vec![room("!a:example.org", "a"), room("!b:example.org", "b")]),
        op(SlidingOp::Sync, 3, vec![room("!c:example.org", "c")]),
        op(SlidingOp::Update, 0, vec![room("!d:example.org", "d")]),
    ];
    view.handle_response(4, &ops).unwrap();
    assert_eq!(contents(&view.get_rooms(Some(0), Some(2))), vec!["a", "b"]);
}

#[test]
fn the_same_room_put_in_its_place_again_makes_no_difference() {
    let mut view = empty_view();
    let ops = vec![
        op(SlidingOp::Sync, 1, vec![room("!a:example.org", "a"), room("!b:example.org", "b")]),
        op(SlidingOp::Sync, 2, vec![room("!b:example.org", "b"), room("!c:example.org", "c")]),
        op(SlidingOp::Sync, 1, vec![]),
        op(SlidingOp::Sync, 1, vec![room("no id", "x")]),
        op(SlidingOp::Sync, 1, vec![room("!d:example.org", "d")]),
    ];
    assert_eq!(
        view.handle_response(4, &ops),
        Err(SyncError::InvalidRoomId(RoomIdError::MissingLeadingSigil))
    );
    assert_eq!(contents(&view.get_rooms(Some(1), Some(2))), vec!["a", "b"]);
}

#[test]
fn rooms_that_are_told_twice_are_read_as_told_last() {
    let mut view = empty_view();
    let ops = vec![op(
        SlidingOp::Sync,
        0,
        vec![room("!a:example.org", "first"), room("!a:example.org", "last")],
    )];
    view.handle_response(2, &ops).unwrap();
    assert_eq!(contents(&view.get_rooms(None, None)), vec!["last", "last"]);
}

#[test]
fn reading_counts_rooms_and_not_places() {
    let mut view = empty_view();
    let ops = vec![
        op(SlidingOp::Sync, 0, vec![room("!a:example.org", "a")]),
        op(SlidingOp::Sync, 2, vec![room("!b:example.org", "b"), room("!c:example.org", "c")]),
    ];
    view.handle_response(6, &ops).unwrap();
    assert_eq!(contents(&view.get_rooms(None, None)), vec!["a", "b", "c"]);
    assert_eq!(contents(&view.get_rooms(None, Some(2))), vec!["a", "b"]);
    assert_eq!(contents(&view.get_rooms(Some(1), Some(2))), vec!["b", "c"]);
    assert_eq!(contents(&view.get_rooms(Some(3), None)), vec!["c"]);
    assert!(view.get_rooms(None, Some(0)).is_empty());
    assert!(view.get_rooms(Some(6), None).is_empty());
    assert!(view.get_rooms(Some(100), Some(3)).is_empty());
    assert!(view.get_rooms(Some(100), None).is_empty());
    assert!(empty_view().get_rooms(Some(1), None).is_empty());
    assert!(empty_view().get_rooms(Some(1), Some(5)).is_empty());
    assert_eq!(contents(&view.get_rooms(Some(0), Some(100))), vec!["a", "b", "c"]);
}

#[test]
fn listed_rooms_that_are_not_known_are_passed_over() {
    let mut builder = SlidingSyncViewBuilder::default();
    builder.rooms_list(vec![id("!x:example.org"), id("!a:example.org")]);
    builder.rooms(vec![("!a:example.org".to_string(), room("!a:example.org", "a"))]);
    let view = builder.build().unwrap();
    assert_eq!(contents(&view.get_rooms(None, None)), vec!["a"]);
}

#[test]
fn other_operations_bring_rooms_but_leave_the_list() {
    for kind in vec![
        SlidingOp::Insert,
        SlidingOp::Delete,
        SlidingOp::Update,
        SlidingOp::Invalidate,
    ] {
        let mut view = empty_view();
        let ops = vec![op(kind, 70_000_000_000, vec![room("!a:example.org", "a")])];
        assert_eq!(view.handle_response(1, &ops), Ok(()));
        assert_eq!(listed(&view), vec![None]);
        assert_eq!(view.room(&"!a:example.org".to_string()).unwrap().content, "a");
    }
}

#[test]
fn a_room_without_an_id_stops_the_response() {
    let mut view = empty_view();
    let nameless = SlidingSyncRoom { room_id: None, content: "?".to_string() };
    let ops = vec![
        op(SlidingOp::Sync, 0, vec![room("!a:example.org", "a")]),
        op(SlidingOp::Sync, 1, vec![room("!b:example.org", "b"), nameless]),
        op(SlidingOp::Sync, 2, vec![room("!c:example.org", "c")]),
    ];
    assert_eq!(view.handle_response(3, &ops), Err(SyncError::MissingRoomId));
    // what came before stays: the first operation, and the room before the nameless one
    assert_eq!(listed(&view), vec![id("!a:example.org"), None, None]);
    assert!(view.room(&"!b:example.org".to_string()).is_some());
    assert!(view.room(&"!c:example.org".to_string()).is_none());
    assert_eq!(view.rooms_count(), Some(3));
}

fn fails_with(text: &str) -> Result<(), SyncError> {
    let mut view = empty_view();
    view.handle_response(1, &vec![op(SlidingOp::Sync, 0, vec![room(text, "x")])])
}

#[test]
fn ids_must_be_room_ids() {
    let invalid = |e: RoomIdError| Err(SyncError::InvalidRoomId(e));
    assert_eq!(fails_with("!a:example.org"), Ok(()));
    assert_eq!(fails_with("!a:example.org:8448"), Ok(()));
    assert_eq!(fails_with("!a:[::1]:80"), Ok(()));
    assert_eq!(fails_with("!:example.org"), Ok(()));
    assert_eq!(fails_with(""), invalid(RoomIdError::MissingLeadingSigil));
    assert_eq!(fails_with("#a:example.org"), invalid(RoomIdError::MissingLeadingSigil));
    assert_eq!(fails_with("!a.example.org"), invalid(RoomIdError::MissingDelimiter));
    assert_eq!(fails_with("!a:"), invalid(RoomIdError::InvalidServerName));
    assert_eq!(fails_with("!a:b:c"), invalid(RoomIdError::InvalidServerName));
}

#[test]
fn ids_have_at_most_255_bytes() {
    let tail = ":example.org";
    let fits = format!("!{}{}", "a".repeat(254 - tail.len()), tail);
    assert_eq!(fits.len(), 255);
    assert_eq!(fails_with(&fits), Ok(()));
    let long = format!("!{}{}", "a".repeat(255 - tail.len()), tail);
    assert_eq!(
        fails_with(&long),
        Err(SyncError::InvalidRoomId(RoomIdError::MaximumLengthExceeded))
    );
    // bytes, not characters
    let wide = format!("!{}{}", "\u{e4}".repeat(140), tail);
    assert_eq!(
        fails_with(&wide),
        Err(SyncError::InvalidRoomId(RoomIdError::MaximumLengthExceeded))
    );
}

#[test]
fn ranges_must_start_within_32_bits() {
    let mut view = empty_view();
    let ops = vec![op(SlidingOp::Sync, 1 << 32, vec![room("!a:example.org", "a")])];
    assert_eq!(view.handle_response(1, &ops), Err(SyncError::RangeTooLarge));
    assert_eq!(listed(&view), vec![None]);
    assert!(view.room(&"!a:example.org".to_string()).is_some());
}

#[test]
fn whether_a_response_fits_can_be_asked() {
    let view = empty_view();
    let inside = op(SlidingOp::Sync, 2, vec![room("!a:example.org", "a")]);
    let outside = op(SlidingOp::Sync, 3, vec![room("!a:example.org", "a")]);
    let failing = op(SlidingOp::Sync, 0, vec![room("a", "a")]);
    let roomless = op(SlidingOp::Sync, 9, vec![]);
    assert!(view.response_fits(3, &vec![&inside]));
    assert!(!view.response_fits(3, &vec![&inside, &outside]));
    // what comes after an operation that fails is never assigned
    assert!(view.response_fits(3, &vec![&failing, &outside]));
    assert!(view.response_fits(3, &vec![&roomless]));
    assert!(!view.response_fits(0, &vec![&inside]));
}

struct NoWake;

impl Wake for NoWake {
    fn wake(self: Arc<Self>) {}
}

#[test]
fn changes_can_be_watched() {
    let mut view = empty_view();
    let state = view.watch_state();
    let count = view.watch_rooms_count();
    assert_eq!(state.get_cloned(), SlidingSyncState::Cold);
    assert_eq!(count.get_cloned(), None);
    let mut list = view.watch_rooms_list();
    let mut rooms = view.watch_rooms();
    let mut generator = view.request_generator();
    generator.next(&mut view);
    view.handle_response(1, &vec![op(SlidingOp::Sync, 0, vec![room("!a:example.org", "a")])])
        .unwrap();
    assert_eq!(state.get_cloned(), SlidingSyncState::Preload);
    assert_eq!(count.get_cloned(), Some(1));
    view.set_ranges(vec![(0, 1)]).add_range(2, 3);
    generator.next(&mut view);
    assert_eq!(state.get_cloned(), SlidingSyncState::Live);
    view.handle_response(0, &vec![]).unwrap();
    assert_eq!(count.get_cloned(), Some(0));

    let waker = Waker::from(Arc::new(NoWake));
    let mut cx = Context::from_waker(&waker);
    match Pin::new(&mut list).poll_vec_change(&mut cx) {
        Poll::Ready(Some(VecDiff::Push { value })) => assert_eq!(value, None),
        other => panic!("{:?}", other),
    }
    match Pin::new(&mut list).poll_vec_change(&mut cx) {
        Poll::Ready(Some(VecDiff::UpdateAt { index, value })) => {
            assert_eq!((index, value), (0, id("!a:example.org")));
        }
        other => panic!("{:?}", other),
    }
    assert!(Pin::new(&mut list).poll_vec_change(&mut cx).is_pending());
    match Pin::new(&mut rooms).poll_map_change(&mut cx) {
        Poll::Ready(Some(MapDiff::Insert { key, value })) => {
            assert_eq!(key, "!a:example.org");
            assert_eq!(value.content, "a");
        }
        other => panic!("{:?}", other),
    }
}

#[test]
fn watching_starts_from_what_there_is() {
    let mut view = empty_view();
    view.handle_response(2, &vec![op(SlidingOp::Sync, 0, vec![room("!a:example.org", "a")])])
        .unwrap();
    let waker = Waker::from(Arc::new(NoWake));
    let mut cx = Context::from_waker(&waker);
    let mut list = view.watch_rooms_list();
    match Pin::new(&mut list).poll_vec_change(&mut cx) {
        Poll::Ready(Some(VecDiff::Replace { values })) => {
            assert_eq!(values, vec![id("!a:example.org"), None]);
        }
        other => panic!("{:?}", other),
    }
    let mut rooms = view.watch_rooms();
    match Pin::new(&mut rooms).poll_map_change(&mut cx) {
        Poll::Ready(Some(MapDiff::Replace { entries })) => {
            assert_eq!(entries.len(), 1);
            assert_eq!(entries[0].0, "!a:example.org");
            assert_eq!(entries[0].1.content, "a");
        }
        other => panic!("{:?}", other),
    }
    assert_eq!(view.watch_rooms_count().get_cloned(), Some(2));
}

#[test]
fn operations_are_carried_out_on_given_ids() {
    let mut view = empty_view();
    view.handle_response(3, &vec![]).unwrap();
    let two = op(SlidingOp::Sync, 1, vec![room("x", "a"), room("y", "b")]);
    let ids = vec!["!a:example.org".to_string(), "!b:example.org".to_string()];
    assert_eq!(view.carry_out(&two, ids, None), Ok(()));
    assert_eq!(listed(&view), vec![None, id("!a:example.org"), id("!b:example.org")]);
    assert_eq!(contents(&view.get_rooms(None, None)), vec!["a", "b"]);

    let fault = SyncError::InvalidRoomId(RoomIdError::MissingDelimiter);
    let later = op(SlidingOp::Sync, 0, vec![room("z", "c"), room("w", "d")]);
    let ids = vec!["!c:example.org".to_string()];
    assert_eq!(view.carry_out(&later, ids, Some(fault)), Err(fault));
    assert_eq!(listed(&view)[0], None);
    assert_eq!(view.room(&"!c:example.org".to_string()).unwrap().content, "c");

    let far = op(SlidingOp::Sync, 1 << 32, vec![room("v", "e")]);
    let ids = vec!["!e:example.org".to_string()];
    assert_eq!(view.carry_out(&far, ids, None), Err(SyncError::RangeTooLarge));
    assert!(view.room(&"!e:example.org".to_string()).is_some());
}
