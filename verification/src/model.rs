//! What the library computes, over mathematical values.
use vstd::prelude::*;
use url::Url;
use crate::outside::{event_type_name, room_id_fault, StateEvent};
use crate::types::{
    no_rooms, InnerSlidingSyncViewRequestGenerator, OpModel, RequestListModel, RequestModel,
    ResponseModel, RoomModel, SlidingOp, SlidingSyncMode, SlidingSyncState, SyncError, UInt,
};

verus! {

/// The model of a view: what it is set up with and what it has learned.
#[verifier::ext_equal]
pub struct ViewModel {
    pub sync_mode: SlidingSyncMode,
    pub sort: Seq<Seq<char>>,
    pub required_state: Seq<(Seq<char>, Seq<char>)>,
    pub batch_size: u32,
    pub state: SlidingSyncState,
    pub rooms_count: Option<u32>,
    pub rooms_list: Seq<Option<Seq<char>>>,
    pub rooms: Map<Seq<char>, RoomModel>,
    pub ranges: Seq<(UInt, UInt)>,
}

/// The model of what builds a view: the settings that were given.
#[verifier::ext_equal]
pub struct ViewBuilderModel {
    pub sync_mode: Option<SlidingSyncMode>,
    pub sort: Option<Seq<Seq<char>>>,
    pub required_state: Option<Seq<(Seq<char>, Seq<char>)>>,
    pub batch_size: Option<u32>,
    pub state: Option<SlidingSyncState>,
    pub rooms_count: Option<Option<u32>>,
    pub rooms_list: Option<Seq<Option<Seq<char>>>>,
    pub rooms: Option<Seq<(Seq<char>, RoomModel)>>,
    pub ranges: Option<Seq<(UInt, UInt)>>,
}

/// The builder to which nothing was given.
pub open spec fn fresh_view_builder() -> ViewBuilderModel {
    ViewBuilderModel {
        sync_mode: None,
        sort: None,
        required_state: None,
        batch_size: None,
        state: None,
        rooms_count: None,
        rooms_list: None,
        rooms: None,
        ranges: None,
    }
}

/// The order of a view to which none was given.
pub open spec fn default_sort() -> Seq<Seq<char>> {
    seq!["by_recency"@, "by_name"@]
}

/// The state events that a view asks for if none were given.
pub open spec fn default_required_state() -> Seq<(Seq<char>, Seq<char>)> {
    seq![
        (event_type_name(StateEvent::RoomAvatar), ""@),
        (event_type_name(StateEvent::RoomMember), "*"@),
        (event_type_name(StateEvent::RoomEncryption), ""@),
        (event_type_name(StateEvent::RoomTombstone), ""@),
    ]
}

/// The map that holds the entries, of two with the same id the later one.
pub open spec fn map_of(entries: Seq<(Seq<char>, RoomModel)>) -> Map<Seq<char>, RoomModel>
    decreases entries.len(),
{
    if entries.len() == 0 {
        no_rooms()
    } else {
        map_of(entries.drop_last()).insert(entries.last().0, entries.last().1)
    }
}

/// The value that was given, else the default.
pub open spec fn given<A>(value: Option<A>, default: A) -> A {
    match value {
        Some(v) => v,
        None => default,
    }
}

/// The view that a builder makes.
pub open spec fn built(builder: ViewBuilderModel) -> ViewModel {
    ViewModel {
        sync_mode: given(builder.sync_mode, SlidingSyncMode::FullSync),
        sort: given(builder.sort, default_sort()),
        required_state: given(builder.required_state, default_required_state()),
        batch_size: given(builder.batch_size, 20),
        state: given(builder.state, SlidingSyncState::Cold),
        rooms_count: given(builder.rooms_count, None),
        rooms_list: given(builder.rooms_list, Seq::empty()),
        rooms: map_of(given(builder.rooms, Seq::empty())),
        ranges: given(builder.ranges, Seq::empty()),
    }
}

/// The builder for full sync.
pub open spec fn full_sync_builder() -> ViewBuilderModel {
    ViewBuilderModel { sync_mode: Some(SlidingSyncMode::FullSync), ..fresh_view_builder() }
}

/// The builder with the settings of a view, and nothing of what the view has learned.
pub open spec fn settings_of(view: ViewModel) -> ViewBuilderModel {
    ViewBuilderModel {
        sync_mode: Some(view.sync_mode),
        sort: Some(view.sort),
        required_state: Some(view.required_state),
        batch_size: Some(view.batch_size),
        ranges: Some(view.ranges),
        ..fresh_view_builder()
    }
}

/// What keeps a room from being taken in, if anything does.
pub open spec fn room_fault(room: RoomModel) -> Option<SyncError> {
    match room.room_id {
        None => Some(SyncError::MissingRoomId),
        Some(id) => match room_id_fault(id) {
            Some(e) => Some(SyncError::InvalidRoomId(e)),
            None => None,
        },
    }
}

/// The position of the first room, at or after `from`, that cannot be taken in; the number of
/// rooms if there is none.
pub open spec fn first_fault(rooms: Seq<RoomModel>, from: nat) -> nat
    decreases rooms.len() - from,
{
    if from >= rooms.len() {
        rooms.len()
    } else if room_fault(rooms[from as int]) is Some {
        from
    } else {
        first_fault(rooms, from + 1)
    }
}

/// What is wrong with the first room that cannot be taken in, if there is one.
pub open spec fn fault_in(rooms: Seq<RoomModel>) -> Option<SyncError> {
    if first_fault(rooms, 0) < rooms.len() {
        room_fault(rooms[first_fault(rooms, 0) as int])
    } else {
        None
    }
}

/// Whether each of the rooms can be taken in.
pub open spec fn all_sound(rooms: Seq<RoomModel>) -> bool {
    first_fault(rooms, 0) == rooms.len()
}

/// The ids of rooms that have one.
pub open spec fn room_ids(rooms: Seq<RoomModel>) -> Seq<Seq<char>> {
    rooms.map_values(|r: RoomModel| r.room_id->0)
}

/// The map after the rooms were put in, one after the other, each under its id.
pub open spec fn with_rooms(map: Map<Seq<char>, RoomModel>, rooms: Seq<RoomModel>) -> Map<
    Seq<char>,
    RoomModel,
>
    decreases rooms.len(),
{
    if rooms.len() == 0 {
        map
    } else {
        with_rooms(map, rooms.drop_last()).insert(rooms.last().room_id->0, rooms.last())
    }
}

/// The map after the first rooms were put in, one after the other, each under the id given for it.
pub open spec fn with_rooms_under(
    map: Map<Seq<char>, RoomModel>,
    ids: Seq<Seq<char>>,
    rooms: Seq<RoomModel>,
) -> Map<Seq<char>, RoomModel>
    decreases ids.len(),
{
    if ids.len() == 0 {
        map
    } else {
        with_rooms_under(map, ids.drop_last(), rooms).insert(ids.last(), rooms[ids.len() - 1])
    }
}

/// The list after the ids took the places from `start` on.
pub open spec fn placed(
    list: Seq<Option<Seq<char>>>,
    start: nat,
    ids: Seq<Seq<char>>,
) -> Seq<Option<Seq<char>>> {
    Seq::new(
        list.len(),
        |i: int|
            if start <= i < start + ids.len() {
                Some(ids[i - start])
            } else {
                list[i]
            },
    )
}

/// The view after an operation, and whether it could be carried out.
///
/// The rooms before the first one that cannot be taken in are in the map in any case. The list
/// changes only in an operation that syncs a range and that is carried out.
pub open spec fn after_op(view: ViewModel, op: OpModel) -> (ViewModel, Result<(), SyncError>) {
    let fault = first_fault(op.rooms, 0);
    let seen = ViewModel {
        rooms: with_rooms(view.rooms, op.rooms.take(fault as int)),
        ..view
    };
    if fault < op.rooms.len() {
        (seen, Err(room_fault(op.rooms[fault as int])->0))
    } else if op.op != SlidingOp::Sync {
        (seen, Ok(()))
    } else if op.range.0@ > u32::MAX {
        (seen, Err(SyncError::RangeTooLarge))
    } else {
        (
            ViewModel {
                rooms_list: placed(seen.rooms_list, op.range.0@, room_ids(op.rooms)),
                ..seen
            },
            Ok(()),
        )
    }
}

/// The view after an operation whose rooms have the given ids, up to the room at which the given
/// fault stopped the reading of ids, if one did; and whether it could be carried out.
pub open spec fn after_op_on_ids(
    view: ViewModel,
    op: OpModel,
    ids: Seq<Seq<char>>,
    fault: Option<SyncError>,
) -> (ViewModel, Result<(), SyncError>) {
    let seen = ViewModel { rooms: with_rooms_under(view.rooms, ids, op.rooms), ..view };
    if fault is Some {
        (seen, Err(fault->0))
    } else if op.op != SlidingOp::Sync {
        (seen, Ok(()))
    } else if op.range.0@ > u32::MAX {
        (seen, Err(SyncError::RangeTooLarge))
    } else {
        (ViewModel { rooms_list: placed(seen.rooms_list, op.range.0@, ids), ..seen }, Ok(()))
    }
}

/// The view after the operations from `from` on, up to the first that could not be carried out.
pub open spec fn after_ops(view: ViewModel, ops: Seq<OpModel>, from: nat) -> (
    ViewModel,
    Result<(), SyncError>,
)
    decreases ops.len() - from,
{
    if from >= ops.len() {
        (view, Ok(()))
    } else {
        let (next, result) = after_op(view, ops[from as int]);
        if result is Err {
            (next, result)
        } else {
            after_ops(next, ops, from + 1)
        }
    }
}

/// Whether an operation can be carried out.
pub open spec fn op_sound(op: OpModel) -> bool {
    all_sound(op.rooms) && (op.op == SlidingOp::Sync ==> op.range.0@ <= u32::MAX)
}

/// Whether each of the operations from `from` on can be carried out.
pub open spec fn ops_sound(ops: Seq<OpModel>, from: nat) -> bool {
    forall|i: int| from <= i < ops.len() ==> op_sound(#[trigger] ops[i])
}

/// Whether the places that an operation assigns are among the first `places`.
pub open spec fn op_fits(places: nat, op: OpModel) -> bool {
    op_sound(op) && op.op == SlidingOp::Sync && op.rooms.len() > 0 ==> op.range.0@
        + op.rooms.len() <= places
}

/// Whether the operations from `from` on assign none but the first `places`, up to the first
/// that cannot be carried out.
pub open spec fn ops_fit(places: nat, ops: Seq<OpModel>, from: nat) -> bool
    decreases ops.len() - from,
{
    from >= ops.len() || {
        &&& op_fits(places, ops[from as int])
        &&& op_sound(ops[from as int]) ==> ops_fit(places, ops, from + 1)
    }
}

/// The number of places that a list of `len` places lacks for `count` rooms.
pub open spec fn missing_places(len: nat, count: u32) -> nat {
    if count > len as u32 {
        (count - len as u32) as nat
    } else {
        0
    }
}

/// The view after it learned that there are `count` rooms: that is the known number, and there
/// are empty places for the rooms that its list lacks.
pub open spec fn grown(view: ViewModel, count: u32) -> ViewModel {
    ViewModel {
        rooms_list: view.rooms_list + Seq::new(
            missing_places(view.rooms_list.len(), count),
            |i: int| None::<Seq<char>>,
        ),
        rooms_count: Some(count),
        ..view
    }
}

/// The view after a response: the number of its rooms and the operations on it.
pub open spec fn after_response(view: ViewModel, count: u32, ops: Seq<OpModel>) -> (
    ViewModel,
    Result<(), SyncError>,
) {
    after_ops(grown(view, count), ops, 0)
}

/// The entries of a list from `offset` on.
pub open spec fn entries_from(list: Seq<Option<Seq<char>>>, offset: nat) -> Seq<
    Option<Seq<char>>,
> {
    if offset <= list.len() {
        list.skip(offset as int)
    } else {
        Seq::empty()
    }
}

/// The room that an entry of the list stands for, if it is known.
pub open spec fn room_of(view: ViewModel, entry: Option<Seq<char>>) -> Option<RoomModel> {
    match entry {
        Some(id) => if view.rooms.contains_key(id) {
            Some(view.rooms[id])
        } else {
            None
        },
        None => None,
    }
}

/// The known rooms of a view from `offset` on, in the order of the list.
pub open spec fn known_rooms(view: ViewModel, offset: nat) -> Seq<RoomModel> {
    entries_from(view.rooms_list, offset).filter_map(|e: Option<Seq<char>>| room_of(view, e))
}

/// The first `n` elements, or all where there are fewer.
pub open spec fn at_most<A>(s: Seq<A>, n: nat) -> Seq<A> {
    if n < s.len() {
        s.take(n as int)
    } else {
        s
    }
}

/// Ranges of machine integers as ranges of the protocol.
pub open spec fn uint_ranges(ranges: Seq<(u32, u32)>) -> Seq<(UInt, UInt)> {
    ranges.map_values(|r: (u32, u32)| (UInt::of(r.0), UInt::of(r.1)))
}

/// Where the generator of a view starts.
pub open spec fn first_generator(view: ViewModel) -> InnerSlidingSyncViewRequestGenerator {
    match view.sync_mode {
        SlidingSyncMode::FullSync => InnerSlidingSyncViewRequestGenerator::FullSync(
            0,
            view.batch_size,
        ),
        SlidingSyncMode::Selective => InnerSlidingSyncViewRequestGenerator::Live,
    }
}

/// The request for the given ranges of a view.
pub open spec fn request_for(view: ViewModel, ranges: Seq<(UInt, UInt)>) -> RequestListModel {
    RequestListModel {
        ranges,
        sort: Some(view.sort),
        required_state: Some(view.required_state),
        timeline_limit: None,
        filters: None,
    }
}

/// Whether a full sync at `position` has asked for every room that is known of.
pub open spec fn caught_up(view: ViewModel, position: u32) -> bool {
    view.rooms_count matches Some(count) && count <= position
}

/// The state of a view after a request for a batch: the first one preloads, if it is not known
/// how many rooms there are, and the next one is to catch up.
pub open spec fn state_after_batch(view: ViewModel) -> SlidingSyncState {
    if view.state == SlidingSyncState::Preload {
        SlidingSyncState::CatchingUp
    } else if view.state == SlidingSyncState::Cold && view.rooms_count is None {
        SlidingSyncState::Preload
    } else {
        view.state
    }
}

/// The state of a view that has no batch left to ask for: live, if it was on its way.
pub open spec fn state_when_caught_up(view: ViewModel) -> SlidingSyncState {
    if view.state == SlidingSyncState::Preload || view.state == SlidingSyncState::CatchingUp {
        SlidingSyncState::Live
    } else {
        view.state
    }
}

/// Whether the position after the next request is one.
pub open spec fn generator_ready(
    view: ViewModel,
    generator: InnerSlidingSyncViewRequestGenerator,
) -> bool {
    generator matches InnerSlidingSyncViewRequestGenerator::FullSync(position, batch_size)
        ==> caught_up(view, position) || position + batch_size <= u32::MAX
}

/// The outcome of a step of a request generator.
#[verifier::ext_equal]
pub struct GeneratorStep {
    pub view: ViewModel,
    pub generator: InnerSlidingSyncViewRequestGenerator,
    pub request: RequestListModel,
}

/// What a request generator does next, and what it does to its view.
pub open spec fn generator_step(
    view: ViewModel,
    generator: InnerSlidingSyncViewRequestGenerator,
) -> GeneratorStep {
    match generator {
        InnerSlidingSyncViewRequestGenerator::Live => GeneratorStep {
            view,
            generator,
            request: request_for(view, view.ranges),
        },
        InnerSlidingSyncViewRequestGenerator::FullSync(position, batch_size) => if caught_up(
            view,
            position,
        ) {
            GeneratorStep {
                view: ViewModel { state: state_when_caught_up(view), ..view },
                generator: InnerSlidingSyncViewRequestGenerator::Live,
                request: request_for(view, view.ranges),
            }
        } else {
            let end = (position + batch_size) as u32;
            GeneratorStep {
                view: ViewModel { state: state_after_batch(view), ..view },
                generator: InnerSlidingSyncViewRequestGenerator::FullSync(end, batch_size),
                request: request_for(view, seq![(UInt::of(position), UInt::of(end))]),
            }
        },
    }
}

/// The model of a client.
#[verifier::ext_equal]
pub struct ClientModel {
    pub homeserver: Url,
    pub server_versions: Seq<Seq<char>>,
}

/// The model of a sliding sync.
#[verifier::ext_equal]
pub struct SyncModel {
    pub homeserver: Option<Url>,
    pub client: ClientModel,
    pub pos: Option<Seq<char>>,
    pub views: Seq<ViewModel>,
}

/// The model of what builds a sliding sync: the settings that were given.
#[verifier::ext_equal]
pub struct SyncBuilderModel {
    pub homeserver: Option<Url>,
    pub client: Option<ClientModel>,
    pub views: Option<Seq<ViewModel>>,
}

/// The builder to which nothing was given.
pub open spec fn fresh_sync_builder() -> SyncBuilderModel {
    SyncBuilderModel { homeserver: None, client: None, views: None }
}

/// The builder after a view was added.
pub open spec fn with_view(builder: SyncBuilderModel, view: ViewModel) -> SyncBuilderModel {
    SyncBuilderModel { views: Some(given(builder.views, Seq::empty()).push(view)), ..builder }
}

/// The builder after its views were reset.
pub open spec fn without_views(builder: SyncBuilderModel) -> SyncBuilderModel {
    SyncBuilderModel { views: None, ..builder }
}

/// The sliding sync that a builder makes that was given an address and a client.
pub open spec fn built_sync(builder: SyncBuilderModel) -> SyncModel {
    SyncModel {
        homeserver: builder.homeserver,
        client: builder.client->0,
        pos: None,
        views: given(builder.views, Seq::empty()),
    }
}

/// The builder with the settings of a sliding sync and of its views, and nothing of what they
/// have learned.
pub open spec fn sync_settings_of(sync: SyncModel) -> SyncBuilderModel {
    SyncBuilderModel {
        homeserver: sync.homeserver,
        client: Some(sync.client),
        views: Some(sync.views.map_values(|v: ViewModel| built(settings_of(v)))),
    }
}

/// The operations on one of the lists, of those that could be read, in order.
pub open spec fn ops_for(ops: Seq<Option<OpModel>>, list: nat) -> Seq<OpModel> {
    ops.filter_map(
        |o: Option<OpModel>|
            match o {
                Some(op) => if op.list@ == list {
                    Some(op)
                } else {
                    None
                },
                None => None,
            },
    )
}

/// The views after the lists from `from` on of a response, up to the first that fails. The list
/// at position `i` of the response is the one of the view number `remaining[i]`.
pub open spec fn after_lists(
    views: Seq<ViewModel>,
    remaining: Seq<usize>,
    counts: Seq<UInt>,
    ops: Seq<Option<OpModel>>,
    from: nat,
) -> (Seq<ViewModel>, Result<(), SyncError>)
    decreases remaining.len() - from,
{
    if from >= remaining.len() {
        (views, Ok(()))
    } else if counts[from as int]@ > u32::MAX {
        (views, Err(SyncError::CountTooLarge))
    } else {
        let number = remaining[from as int] as int;
        let (view, result) = after_response(
            views[number],
            counts[from as int]@ as u32,
            ops_for(ops, from),
        );
        if result is Err {
            (views.update(number, view), result)
        } else {
            after_lists(views.update(number, view), remaining, counts, ops, from + 1)
        }
    }
}

/// The sliding sync after a response: its position, in any case, and its views.
pub open spec fn after_sync_response(
    sync: SyncModel,
    remaining: Seq<usize>,
    response: ResponseModel,
) -> (SyncModel, Result<(), SyncError>) {
    let moved_on = SyncModel { pos: Some(response.pos), ..sync };
    match response.ops {
        None => (moved_on, Ok(())),
        Some(ops) => {
            let (views, result) = after_lists(sync.views, remaining, response.counts, ops, 0);
            (SyncModel { views, ..moved_on }, result)
        },
    }
}

/// Whether the operations that could be read are on the first `lists` lists.
pub open spec fn ops_on_lists(ops: Seq<Option<OpModel>>, lists: nat) -> bool {
    forall|i: int|
        0 <= i < ops.len() ==> (#[trigger] ops[i] matches Some(op) ==> op.list@ < lists
            && op.list@ <= u32::MAX)
}

/// Whether the lists from `from` on of a response are counted, and assign places that their
/// views have or get with it, up to the first that fails.
pub open spec fn lists_fit(
    views: Seq<ViewModel>,
    remaining: Seq<usize>,
    counts: Seq<UInt>,
    ops: Seq<Option<OpModel>>,
    from: nat,
) -> bool
    decreases remaining.len() - from,
{
    from >= remaining.len() || {
        let view = views[remaining[from as int] as int];
        let count = counts[from as int]@ as u32;
        &&& from < counts.len()
        &&& counts[from as int]@ <= u32::MAX ==> {
            &&& ops_fit(grown(view, count).rooms_list.len(), ops_for(ops, from), 0)
            &&& after_response(view, count, ops_for(ops, from)).1 is Ok ==> lists_fit(
                views,
                remaining,
                counts,
                ops,
                from + 1,
            )
        }
    }
}

/// Whether a response speaks of the lists that were asked for, and of places that they have or
/// get with it.
pub open spec fn response_fits(
    sync: SyncModel,
    remaining: Seq<usize>,
    response: ResponseModel,
) -> bool {
    response.ops matches Some(ops) ==> {
        &&& ops_on_lists(ops, remaining.len())
        &&& lists_fit(sync.views, remaining, response.counts, ops, 0)
    }
}

/// Whether the numbers are numbers of views, each once.
pub open spec fn numbers_views(remaining: Seq<usize>, views: nat) -> bool {
    &&& remaining.no_duplicates()
    &&& forall|i: int| 0 <= i < remaining.len() ==> #[trigger] remaining[i] < views
}

/// Where the requests of a sliding sync go: the address given to it, else that of its client.
pub open spec fn target_of(sync: SyncModel) -> Url {
    match sync.homeserver {
        Some(homeserver) => homeserver,
        None => sync.client.homeserver,
    }
}

/// The model of the point that a stream is at.
#[verifier::ext_equal]
pub enum PhaseModel {
    Ready,
    Prepared(RequestModel),
    Sent,
    Received(ResponseModel),
    Done,
}

/// The model of a stream.
#[verifier::ext_equal]
pub struct StreamModel {
    pub homeserver: Url,
    pub server_versions: Seq<Seq<char>>,
    pub generators: Seq<InnerSlidingSyncViewRequestGenerator>,
    pub remaining: Seq<usize>,
    pub phase: PhaseModel,
}

/// The model of what a stream is told.
#[verifier::ext_equal]
pub enum EventModel {
    Resume,
    Cancelled(bool),
    Reply(ResponseModel),
    SendFailed,
}

/// The model of what a stream asks for.
#[verifier::ext_equal]
pub enum ActionModel {
    CheckCancel,
    Send(RequestModel),
    Yield,
    SendFailed,
    Finish,
    Fail(SyncError),
}

/// The stream of a sliding sync, at its start.
pub open spec fn first_stream(sync: SyncModel) -> StreamModel {
    StreamModel {
        homeserver: target_of(sync),
        server_versions: sync.client.server_versions,
        generators: sync.views.map_values(|v: ViewModel| first_generator(v)),
        remaining: Seq::new(sync.views.len(), |i: int| i as usize),
        phase: PhaseModel::Ready,
    }
}

/// The outcome of a round of request generators.
#[verifier::ext_equal]
pub struct Round {
    pub views: Seq<ViewModel>,
    pub generators: Seq<InnerSlidingSyncViewRequestGenerator>,
    pub requests: Seq<RequestListModel>,
}

/// A round of the first `n` generators, one step each, in order.
pub open spec fn round(
    views: Seq<ViewModel>,
    generators: Seq<InnerSlidingSyncViewRequestGenerator>,
    remaining: Seq<usize>,
    n: nat,
) -> Round
    decreases n,
{
    if n == 0 {
        Round { views, generators: Seq::empty(), requests: Seq::empty() }
    } else {
        let before = round(views, generators, remaining, (n - 1) as nat);
        let number = remaining[n - 1] as int;
        let step = generator_step(before.views[number], generators[n - 1]);
        Round {
            views: before.views.update(number, step.view),
            generators: before.generators.push(step.generator),
            requests: before.requests.push(step.request),
        }
    }
}

/// Whether a stream is one of the views of a sliding sync.
pub open spec fn stream_of(sync: SyncModel, stream: StreamModel) -> bool {
    &&& stream.generators.len() == stream.remaining.len()
    &&& numbers_views(stream.remaining, sync.views.len())
}

/// Whether an event is one that a stream waits for.
pub open spec fn awaits(stream: StreamModel, event: EventModel) -> bool {
    match stream.phase {
        PhaseModel::Ready => event is Resume,
        PhaseModel::Prepared(_) => event is Cancelled,
        PhaseModel::Sent => event is Reply || event is SendFailed,
        PhaseModel::Received(_) => event is Cancelled,
        PhaseModel::Done => false,
    }
}

/// Whether each generator has a next request.
pub open spec fn round_ready(
    views: Seq<ViewModel>,
    generators: Seq<InnerSlidingSyncViewRequestGenerator>,
    remaining: Seq<usize>,
) -> bool {
    forall|i: int|
        0 <= i < remaining.len() ==> generator_ready(
            views[#[trigger] remaining[i] as int],
            generators[i],
        )
}

/// Whether a step is defined: the positions after the requests are some, and the response is one
/// to the request.
pub open spec fn step_ready(sync: SyncModel, stream: StreamModel, event: EventModel) -> bool {
    match stream.phase {
        PhaseModel::Ready => round_ready(sync.views, stream.generators, stream.remaining),
        PhaseModel::Received(response) => event == EventModel::Cancelled(false) ==> response_fits(
            sync,
            stream.remaining,
            response,
        ),
        _ => true,
    }
}

/// The outcome of a step of a stream.
#[verifier::ext_equal]
pub struct StreamStep {
    pub sync: SyncModel,
    pub stream: StreamModel,
    pub action: ActionModel,
}

/// What a stream does on an event that it waits for, and what becomes of the sliding sync.
pub open spec fn stream_step(sync: SyncModel, stream: StreamModel, event: EventModel) -> StreamStep {
    match (stream.phase, event) {
        (PhaseModel::Ready, EventModel::Resume) => if stream.remaining.len() == 0 {
            StreamStep {
                sync,
                stream: StreamModel { phase: PhaseModel::Done, ..stream },
                action: ActionModel::Finish,
            }
        } else {
            let r = round(
                sync.views,
                stream.generators,
                stream.remaining,
                stream.remaining.len(),
            );
            StreamStep {
                sync: SyncModel { views: r.views, ..sync },
                stream: StreamModel {
                    generators: r.generators,
                    phase: PhaseModel::Prepared(RequestModel { pos: sync.pos, lists: r.requests }),
                    ..stream
                },
                action: ActionModel::CheckCancel,
            }
        },
        (PhaseModel::Prepared(request), EventModel::Cancelled(false)) => StreamStep {
            sync,
            stream: StreamModel { phase: PhaseModel::Sent, ..stream },
            action: ActionModel::Send(request),
        },
        (PhaseModel::Sent, EventModel::Reply(response)) => StreamStep {
            sync,
            stream: StreamModel { phase: PhaseModel::Received(response), ..stream },
            action: ActionModel::CheckCancel,
        },
        (PhaseModel::Sent, EventModel::SendFailed) => StreamStep {
            sync,
            stream: StreamModel { phase: PhaseModel::Done, ..stream },
            action: ActionModel::SendFailed,
        },
        (PhaseModel::Received(response), EventModel::Cancelled(false)) => {
            let (after, result) = after_sync_response(sync, stream.remaining, response);
            match result {
                Ok(_) => StreamStep {
                    sync: after,
                    stream: StreamModel { phase: PhaseModel::Ready, ..stream },
                    action: ActionModel::Yield,
                },
                Err(e) => StreamStep {
                    sync: after,
                    stream: StreamModel { phase: PhaseModel::Done, ..stream },
                    action: ActionModel::Fail(e),
                },
            }
        },
        _ => StreamStep {
            sync,
            stream: StreamModel { phase: PhaseModel::Done, ..stream },
            action: ActionModel::Finish,
        },
    }
}

} // verus!
