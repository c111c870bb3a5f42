use sliding_sync::types::InnerSlidingSyncViewRequestGenerator;
use sliding_sync::{
    SlidingSyncMode, SlidingSyncState, SlidingSyncView, SlidingSyncViewBuilder,
    SlidingSyncViewRequestGenerator, SyncRequestList, UInt,
};

fn window(start: u32, end: u32) -> (UInt, UInt) {
    (UInt::from(start), UInt::from(end))
}

fn next(g: &mut SlidingSyncViewRequestGenerator, v: &mut SlidingSyncView) -> SyncRequestList {
    assert!(g.ready(v));
    g.next(v).unwrap()
}

fn strings(texts: &[&str]) -> Vec<String> {
    texts.iter().map(|t| t.to_string()).collect()
}

#[test]
fn a_full_sync_asks_for_batch_after_batch_and_goes_live() {
    let mut view = SlidingSyncViewBuilder::default_with_fullsync().build().unwrap();
    view.set_ranges(vec![(5, 9)]);
    let mut generator = view.request_generator();
    assert_eq!(view.state(), SlidingSyncState::Cold);

    let first = next(&mut generator, &mut view);
    assert_eq!(first.ranges, vec![window(0, 20)]);
    assert_eq!(view.state(), SlidingSyncState::Preload);
    view.handle_response(50, &vec![]).unwrap();

    assert_eq!(next(&mut generator, &mut view).ranges, vec![window(20, 40)]);
    assert_eq!(view.state(), SlidingSyncState::CatchingUp);
    assert_eq!(next(&mut generator, &mut view).ranges, vec![window(40, 60)]);
    assert_eq!(view.state(), SlidingSyncState::CatchingUp);

    assert_eq!(next(&mut generator, &mut view).ranges, vec![window(5, 9)]);
    assert_eq!(view.state(), SlidingSyncState::Live);
    assert_eq!(generator.inner, InnerSlidingSyncViewRequestGenerator::Live);
    assert_eq!(next(&mut generator, &mut view).ranges, vec![window(5, 9)]);
    assert_eq!(view.state(), SlidingSyncState::Live);
}

#[test]
fn a_full_sync_of_whole_batches_ends_after_the_last() {
    let mut builder = SlidingSyncViewBuilder::default_with_fullsync();
    builder.batch_size(10);
    let mut view = builder.build().unwrap();
    let mut generator = view.request_generator();
    next(&mut generator, &mut view);
    view.handle_response(20, &vec![]).unwrap();
    assert_eq!(next(&mut generator, &mut view).ranges, vec![window(10, 20)]);
    assert_eq!(next(&mut generator, &mut view).ranges, vec![]);
    assert_eq!(view.state(), SlidingSyncState::Live);
}

#[test]
fn the_state_moves_on_from_where_it_is_only() {
    let mut builder = SlidingSyncViewBuilder::default_with_fullsync();
    builder.rooms_count(Some(100));
    let mut view = builder.build().unwrap();
    let mut generator = view.request_generator();
    // with a known number of rooms there is nothing to preload
    next(&mut generator, &mut view);
    assert_eq!(view.state(), SlidingSyncState::Cold);

    builder.state(SlidingSyncState::Preload);
    let mut view = builder.build().unwrap();
    let mut generator = view.request_generator();
    next(&mut generator, &mut view);
    assert_eq!(view.state(), SlidingSyncState::CatchingUp);

    builder.state(SlidingSyncState::Live);
    let mut view = builder.build().unwrap();
    let mut generator = view.request_generator();
    next(&mut generator, &mut view);
    assert_eq!(view.state(), SlidingSyncState::Live);
}

#[test]
fn an_empty_list_goes_live_at_once() {
    let mut builder = SlidingSyncViewBuilder::default_with_fullsync();
    builder.rooms_count(Some(0)).state(SlidingSyncState::CatchingUp);
    let mut view = builder.build().unwrap();
    let mut generator = view.request_generator();
    assert_eq!(next(&mut generator, &mut view).ranges, vec![]);
    assert_eq!(view.state(), SlidingSyncState::Live);
}

#[test]
fn a_selective_view_asks_for_its_ranges() {
    let mut builder = SlidingSyncViewBuilder::default();
    builder.sync_mode(SlidingSyncMode::Selective).ranges(vec![(0u32, 5u32), (10, 15)]);
    let mut view = builder.build().unwrap();
    let mut generator = view.request_generator();
    let request = next(&mut generator, &mut view);
    assert_eq!(request.ranges, vec![window(0, 5), window(10, 15)]);
    assert_eq!(view.state(), SlidingSyncState::Cold);
}

#[test]
fn ranges_apply_on_the_next_request() {
    let mut builder = SlidingSyncViewBuilder::default();
    builder.sync_mode(SlidingSyncMode::Selective);
    let mut view = builder.build().unwrap();
    let mut generator = view.request_generator();
    assert_eq!(next(&mut generator, &mut view).ranges, vec![]);
    view.set_ranges(vec![(1, 2), (3, 4)]).add_range(5, 6);
    assert_eq!(
        next(&mut generator, &mut view).ranges,
        vec![window(1, 2), window(3, 4), window(5, 6)]
    );
    view.set_ranges(vec![]);
    assert_eq!(next(&mut generator, &mut view).ranges, vec![]);
}

#[test]
fn requests_carry_the_settings() {
    let mut view = SlidingSyncViewBuilder::default_with_fullsync().build().unwrap();
    let mut generator = view.request_generator();
    let request = next(&mut generator, &mut view);
    assert_eq!(request.sort, Some(strings(&["by_recency", "by_name"])));
    let state = request.required_state.unwrap();
    let expected = vec![
        ("m.room.avatar".to_string(), "".to_string()),
        ("m.room.member".to_string(), "*".to_string()),
        ("m.room.encryption".to_string(), "".to_string()),
        ("m.room.tombstone".to_string(), "".to_string()),
    ];
    assert_eq!(state, expected);
    assert_eq!(request.timeline_limit, None);
    assert_eq!(request.filters, None);
}

#[test]
fn positions_end_at_the_largest_integer() {
    let mut builder = SlidingSyncViewBuilder::default_with_fullsync();
    builder.batch_size(u32::MAX);
    let mut view = builder.build().unwrap();
    let mut generator = view.request_generator();
    assert_eq!(next(&mut generator, &mut view).ranges, vec![window(0, u32::MAX)]);
    assert!(!generator.ready(&view));
    view.handle_response(1, &vec![]).unwrap();
    assert!(generator.ready(&view));
    assert_eq!(next(&mut generator, &mut view).ranges, vec![]);
}

#[test]
fn settings_override_the_defaults() {
    let mut builder = SlidingSyncViewBuilder::default();
    builder
        .sync_mode(SlidingSyncMode::FullSync)
        .sort(strings(&["by_name"]))
        .required_state(vec![("m.room.name".to_string(), "".to_string())])
        .batch_size(3)
        .ranges_raw(vec![window(7, 8)]);
    let mut view = builder.build().unwrap();
    let mut generator = view.request_generator();
    let request = next(&mut generator, &mut view);
    assert_eq!(request.ranges, vec![window(0, 3)]);
    assert_eq!(request.sort, Some(strings(&["by_name"])));
    assert_eq!(
        request.required_state,
        Some(vec![("m.room.name".to_string(), "".to_string())])
    );
}

#[test]
fn ranges_take_what_converts() {
    let mut builder = SlidingSyncViewBuilder::default();
    builder.sync_mode(SlidingSyncMode::Selective).ranges(vec![(1u8, 2u8)]);
    let mut view = builder.build().unwrap();
    let mut generator = view.request_generator();
    assert_eq!(next(&mut generator, &mut view).ranges, vec![window(1, 2)]);
    builder.ranges(vec![window(3, 4)]);
    let mut view = builder.build().unwrap();
    let mut generator = view.request_generator();
    assert_eq!(next(&mut generator, &mut view).ranges, vec![window(3, 4)]);
}

#[test]
fn copies_of_views_keep_settings_only() {
    let mut builder = SlidingSyncViewBuilder::default_with_fullsync();
    builder.batch_size(4).sort(strings(&["by_name"])).ranges(vec![(1u32, 2u32)]);
    let mut view = builder.build().unwrap();
    let mut generator = view.request_generator();
    next(&mut generator, &mut view);
    view.handle_response(9, &vec![]).unwrap();
    view.add_range(3, 4);

    let mut copy = view.new_builder().build().unwrap();
    assert_eq!(copy.state(), SlidingSyncState::Cold);
    assert_eq!(copy.rooms_count(), None);
    assert!(copy.rooms_list().is_empty());
    let mut generator = copy.request_generator();
    let request = next(&mut generator, &mut copy);
    assert_eq!(request.ranges, vec![window(0, 4)]);
    assert_eq!(request.sort, Some(strings(&["by_name"])));
    copy.handle_response(1, &vec![]).unwrap();
    assert_eq!(next(&mut generator, &mut copy).ranges, vec![window(1, 2), window(3, 4)]);
    // what the copy learns is its own
    assert_eq!(view.rooms_count(), Some(9));
}

#[test]
fn every_place_is_asked_for_while_the_list_grows() {
    let mut builder = SlidingSyncViewBuilder::default_with_fullsync();
    builder.batch_size(7);
    let mut view = builder.build().unwrap();
    let mut generator = view.request_generator();
    let mut asked: Vec<(UInt, UInt)> = Vec::new();
    for count in vec![10u32, 30, 30, 30, 30] {
        asked.extend(next(&mut generator, &mut view).ranges);
        view.handle_response(count, &vec![]).unwrap();
    }
    assert_eq!(
        asked,
        vec![window(0, 7), window(7, 14), window(14, 21), window(21, 28), window(28, 35)]
    );
    for place in 0..30u64 {
        let (start, end) = asked[place as usize / 7];
        assert!(start.value() <= place && place < end.value());
    }
    assert_eq!(next(&mut generator, &mut view).ranges, vec![]);
    assert_eq!(view.state(), SlidingSyncState::Live);
}

#[test]
fn a_list_that_grows_after_the_sync_stays_live() {
    let mut builder = SlidingSyncViewBuilder::default_with_fullsync();
    builder.batch_size(10).ranges(vec![(2u32, 3u32)]);
    let mut view = builder.build().unwrap();
    let mut generator = view.request_generator();
    next(&mut generator, &mut view);
    view.handle_response(10, &vec![]).unwrap();
    assert_eq!(next(&mut generator, &mut view).ranges, vec![window(2, 3)]);
    view.handle_response(50, &vec![]).unwrap();
    assert_eq!(next(&mut generator, &mut view).ranges, vec![window(2, 3)]);
}

#[test]
fn a_list_of_one_batch_goes_from_preload_to_live() {
    let mut view = SlidingSyncViewBuilder::default_with_fullsync().build().unwrap();
    let mut generator = view.request_generator();
    next(&mut generator, &mut view);
    assert_eq!(view.state(), SlidingSyncState::Preload);
    view.handle_response(5, &vec![]).unwrap();
    assert_eq!(next(&mut generator, &mut view).ranges, vec![]);
    assert_eq!(view.state(), SlidingSyncState::Live);
}

#[test]
fn a_client_without_rooms_goes_live() {
    let mut view = SlidingSyncViewBuilder::default_with_fullsync().build().unwrap();
    view.set_ranges(vec![(0, 9)]);
    let mut generator = view.request_generator();
    next(&mut generator, &mut view);
    view.handle_response(0, &vec![]).unwrap();
    assert_eq!(next(&mut generator, &mut view).ranges, vec![window(0, 9)]);
    assert_eq!(view.state(), SlidingSyncState::Live);
}

#[test]
fn a_live_view_stays_live_in_a_new_full_sync() {
    let mut view = SlidingSyncViewBuilder::default_with_fullsync().build().unwrap();
    let mut generator = view.request_generator();
    next(&mut generator, &mut view);
    view.handle_response(5, &vec![]).unwrap();
    next(&mut generator, &mut view);
    let mut generator = view.request_generator();
    assert_eq!(next(&mut generator, &mut view).ranges, vec![window(0, 20)]);
    assert_eq!(view.state(), SlidingSyncState::Live);
}

#[test]
fn copies_of_view_builders_are_their_own() {
    let mut builder = SlidingSyncViewBuilder::default();
    builder.sync_mode(SlidingSyncMode::Selective).ranges(vec![(1u32, 2u32)]).sort(strings(&["x"]));
    let copy = builder.clone();
    builder.ranges(vec![(3u32, 4u32)]).sort(strings(&["y"]));
    let mut view = copy.build().unwrap();
    let mut generator = view.request_generator();
    let request = next(&mut generator, &mut view);
    assert_eq!(request.ranges, vec![window(1, 2)]);
    assert_eq!(request.sort, Some(strings(&["x"])));
}

#[test]
fn ranges_reach_a_clone_that_was_made_before() {
    let mut builder = SlidingSyncViewBuilder::default();
    builder.sync_mode(SlidingSyncMode::Selective).sort(strings(&["by_name"]));
    let mut view = builder.build().unwrap();
    let clone = view.shared();
    assert_eq!(clone.live_request(&view).ranges, vec![]);
    view.set_ranges(vec![(1, 2)]).add_range(3, 4);
    let request = clone.live_request(&view);
    assert_eq!(request.ranges, vec![window(1, 2), window(3, 4)]);
    assert_eq!(request.sort, Some(strings(&["by_name"])));
    assert_eq!(request.required_state.unwrap().len(), 4);
}
