//! What a view asks for and what it is built from, told by what the view holds and what was given.
use vstd::prelude::*;
use crate::model::{
    built, built_sync, first_generator, fresh_sync_builder, fresh_view_builder, full_sync_builder,
    generator_ready, generator_step, map_of, request_for, settings_of, sync_settings_of, target_of,
    uint_ranges, with_view, without_views, SyncBuilderModel, SyncModel, ViewBuilderModel, ViewModel,
};
use crate::types::{
    uint_of_value, InnerSlidingSyncViewRequestGenerator, RoomModel, SlidingSyncMode,
    SlidingSyncState, UInt,
};

verus! {

/// Each request of a view carries the settings of the view, whatever the view has learned and
/// wherever its generator is: its order, its required state, and nothing that it has no setting
/// for. So does a request for any ranges.
pub proof fn requests_carry_the_settings(
    view: ViewModel,
    generator: InnerSlidingSyncViewRequestGenerator,
    ranges: Seq<(UInt, UInt)>,
)
    ensures
        generator_step(view, generator).request.sort == Some(view.sort),
        generator_step(view, generator).request.required_state == Some(view.required_state),
        generator_step(view, generator).request.timeline_limit is None,
        generator_step(view, generator).request.filters is None,
        request_for(view, ranges).ranges == ranges,
        request_for(view, ranges).sort == Some(view.sort),
        request_for(view, ranges).required_state == Some(view.required_state),
        request_for(view, ranges).timeline_limit is None,
        request_for(view, ranges).filters is None,
{
}

/// Making a request leaves all that a view is set up with and all that it has learned as it is.
pub proof fn requests_keep_the_view(
    view: ViewModel,
    generator: InnerSlidingSyncViewRequestGenerator,
)
    ensures
        generator_step(view, generator).view.sync_mode == view.sync_mode,
        generator_step(view, generator).view.sort == view.sort,
        generator_step(view, generator).view.required_state == view.required_state,
        generator_step(view, generator).view.batch_size == view.batch_size,
        generator_step(view, generator).view.rooms_count == view.rooms_count,
        generator_step(view, generator).view.rooms_list == view.rooms_list,
        generator_step(view, generator).view.rooms == view.rooms,
        generator_step(view, generator).view.ranges == view.ranges,
{
}

/// A live generator asks for the ranges that the view has, and stays live; the state of the view
/// does not move.
pub proof fn live_requests_are_for_the_ranges(view: ViewModel)
    ensures
        ({
            let step = generator_step(view, InnerSlidingSyncViewRequestGenerator::Live);
            &&& step.request.ranges == view.ranges
            &&& step.generator is Live
            &&& step.view.state == view.state
        }),
{
}

/// A full sync that is at or past the known number of rooms goes over to the ranges of the view,
/// and for good; the view is live then, if it was on its way.
pub proof fn full_syncs_go_over_to_the_ranges(
    view: ViewModel,
    position: u32,
    batch_size: u32,
    count: u32,
)
    requires
        view.rooms_count == Some(count),
        count <= position,
    ensures
        ({
            let step = generator_step(
                view,
                InnerSlidingSyncViewRequestGenerator::FullSync(position, batch_size),
            );
            &&& step.request.ranges == view.ranges
            &&& step.generator is Live
            &&& step.view.state == match view.state {
                SlidingSyncState::Cold => SlidingSyncState::Cold,
                _ => SlidingSyncState::Live,
            }
        }),
{
}

/// A full sync that has rooms left to ask for, or does not know how many there are, asks for just
/// the batch at its position, and goes on behind it with batches of the same size. The first batch
/// of a cold view that does not know its number of rooms preloads, one after that catches up; else
/// the state does not move.
pub proof fn full_syncs_ask_for_the_next_batch(view: ViewModel, position: u32, batch_size: u32)
    requires
        view.rooms_count is None || view.rooms_count->0 > position,
        position + batch_size <= 0xFFFF_FFFF,
    ensures
        ({
            let step = generator_step(
                view,
                InnerSlidingSyncViewRequestGenerator::FullSync(position, batch_size),
            );
            &&& step.request.ranges.len() == 1
            &&& step.request.ranges[0].0@ == position
            &&& step.request.ranges[0].1@ == position + batch_size
            &&& step.generator matches InnerSlidingSyncViewRequestGenerator::FullSync(next, size)
                && next == position + batch_size && size == batch_size
            &&& step.view.state == match view.state {
                SlidingSyncState::Cold => if view.rooms_count is None {
                    SlidingSyncState::Preload
                } else {
                    SlidingSyncState::Cold
                },
                SlidingSyncState::Live => SlidingSyncState::Live,
                _ => SlidingSyncState::CatchingUp,
            }
        }),
{
    uint_of_value(position);
    uint_of_value((position + batch_size) as u32);
}

/// A generator can make its next request unless that is for a batch that ends past 32 bits.
pub proof fn requests_can_be_made(view: ViewModel, generator: InnerSlidingSyncViewRequestGenerator)
    ensures
        generator_ready(view, generator) <==> match generator {
            InnerSlidingSyncViewRequestGenerator::Live => true,
            InnerSlidingSyncViewRequestGenerator::FullSync(position, batch_size) => {
                ||| view.rooms_count is Some && view.rooms_count->0 <= position
                ||| position + batch_size <= 0xFFFF_FFFF
            },
        },
{
}

/// The generator of a view that syncs in full starts with the first room, in batches of the
/// view's size; that of a selective view is live from the start.
pub proof fn generators_start_by_the_mode(view: ViewModel)
    ensures
        first_generator(view) == match view.sync_mode {
            SlidingSyncMode::FullSync => InnerSlidingSyncViewRequestGenerator::FullSync(
                0,
                view.batch_size,
            ),
            SlidingSyncMode::Selective => InnerSlidingSyncViewRequestGenerator::Live,
        },
{
}

/// Ranges of machine integers become ranges of the same values, in the same order.
pub proof fn ranges_keep_their_values(ranges: Seq<(u32, u32)>, i: int)
    requires
        0 <= i < ranges.len(),
    ensures
        uint_ranges(ranges).len() == ranges.len(),
        uint_ranges(ranges)[i].0@ == ranges[i].0,
        uint_ranges(ranges)[i].1@ == ranges[i].1,
{
    uint_of_value(ranges[i].0);
    uint_of_value(ranges[i].1);
}

/// A view has each setting that was given for it. What was not given is: full sync, by recency
/// and then by name, with avatar, members, encryption and tombstone of each room, in batches of
/// twenty, cold, without a known number of rooms, without rooms and without ranges.
pub proof fn views_have_what_was_given(builder: ViewBuilderModel)
    ensures
        ({
            let view = built(builder);
            &&& view.sync_mode == match builder.sync_mode {
                Some(mode) => mode,
                None => SlidingSyncMode::FullSync,
            }
            &&& view.sort == match builder.sort {
                Some(sort) => sort,
                None => seq!["by_recency"@, "by_name"@],
            }
            &&& view.required_state == match builder.required_state {
                Some(required_state) => required_state,
                None => seq![
                    ("m.room.avatar"@, ""@),
                    ("m.room.member"@, "*"@),
                    ("m.room.encryption"@, ""@),
                    ("m.room.tombstone"@, ""@),
                ],
            }
            &&& view.batch_size == match builder.batch_size {
                Some(size) => size,
                None => 20u32,
            }
            &&& view.state == match builder.state {
                Some(state) => state,
                None => SlidingSyncState::Cold,
            }
            &&& view.rooms_count == match builder.rooms_count {
                Some(count) => count,
                None => None,
            }
            &&& view.rooms_list == match builder.rooms_list {
                Some(list) => list,
                None => Seq::empty(),
            }
            &&& builder.rooms is None ==> view.rooms == Map::<Seq<char>, RoomModel>::empty()
            &&& builder.rooms matches Some(rooms) ==> view.rooms == map_of(rooms)
            &&& view.ranges == match builder.ranges {
                Some(ranges) => ranges,
                None => Seq::empty(),
            }
        }),
{
}

/// A builder starts without a setting; the one for full sync with just that mode; and the one of
/// a view with the mode, the order, the required state, the batch size and the ranges of the view.
pub proof fn view_builders_start_from(view: ViewModel)
    ensures
        fresh_view_builder() == (ViewBuilderModel {
            sync_mode: None,
            sort: None,
            required_state: None,
            batch_size: None,
            state: None,
            rooms_count: None,
            rooms_list: None,
            rooms: None,
            ranges: None,
        }),
        full_sync_builder() == (ViewBuilderModel {
            sync_mode: Some(SlidingSyncMode::FullSync),
            sort: None,
            required_state: None,
            batch_size: None,
            state: None,
            rooms_count: None,
            rooms_list: None,
            rooms: None,
            ranges: None,
        }),
        settings_of(view) == (ViewBuilderModel {
            sync_mode: Some(view.sync_mode),
            sort: Some(view.sort),
            required_state: Some(view.required_state),
            batch_size: Some(view.batch_size),
            state: None,
            rooms_count: None,
            rooms_list: None,
            rooms: None,
            ranges: Some(view.ranges),
        }),
{
}

/// The number of views that were added to a builder.
pub open spec fn views_in(builder: SyncBuilderModel) -> nat {
    match builder.views {
        Some(views) => views.len(),
        None => 0,
    }
}

/// Adding a view puts it behind those that are there and changes nothing else; a reset takes all
/// views and changes nothing else.
pub proof fn views_are_added_behind_the_others(builder: SyncBuilderModel, view: ViewModel)
    ensures
        ({
            let added = with_view(builder, view);
            &&& added.views is Some
            &&& added.views->0.len() == views_in(builder) + 1
            &&& added.views->0[views_in(builder) as int] == view
            &&& forall|i: int|
                0 <= i < views_in(builder) ==> #[trigger] added.views->0[i] == builder.views->0[i]
            &&& added.homeserver == builder.homeserver
            &&& added.client == builder.client
        }),
        without_views(builder).views is None,
        without_views(builder).homeserver == builder.homeserver,
        without_views(builder).client == builder.client,
        fresh_sync_builder() == (SyncBuilderModel { homeserver: None, client: None, views: None }),
{
}

/// A sliding sync has the address, the client and the views that were given, in order, and has
/// no position yet.
pub proof fn syncs_have_what_was_given(builder: SyncBuilderModel)
    requires
        builder.homeserver is Some,
        builder.client is Some,
    ensures
        ({
            let sync = built_sync(builder);
            &&& sync.homeserver == builder.homeserver
            &&& Some(sync.client) == builder.client
            &&& sync.pos is None
            &&& sync.views.len() == views_in(builder)
            &&& forall|i: int|
                0 <= i < sync.views.len() ==> #[trigger] sync.views[i] == builder.views->0[i]
        }),
{
}

/// The builder of a sliding sync has its address, its client, and for each of its views, in
/// order, one with the settings of that view that is cold and knows of no room.
pub proof fn sync_builders_start_from(sync: SyncModel)
    ensures
        ({
            let builder = sync_settings_of(sync);
            &&& builder.homeserver == sync.homeserver
            &&& builder.client == Some(sync.client)
            &&& builder.views is Some
            &&& builder.views->0.len() == sync.views.len()
            &&& forall|i: int|
                0 <= i < sync.views.len() ==> (#[trigger] builder.views->0[i]) == (ViewModel {
                    sync_mode: sync.views[i].sync_mode,
                    sort: sync.views[i].sort,
                    required_state: sync.views[i].required_state,
                    batch_size: sync.views[i].batch_size,
                    state: SlidingSyncState::Cold,
                    rooms_count: None,
                    rooms_list: Seq::empty(),
                    rooms: Map::empty(),
                    ranges: sync.views[i].ranges,
                })
        }),
{
}

/// Requests go to the address that was given, and to the client's own only if none was.
pub proof fn requests_go_to_the_given_address(sync: SyncModel)
    ensures
        sync.homeserver is Some ==> target_of(sync) == sync.homeserver->0,
        sync.homeserver is None ==> target_of(sync) == sync.client.homeserver,
{
}

} // verus!
