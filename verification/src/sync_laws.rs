//! What holds of the sliding sync and of its stream.
use vstd::prelude::*;
use crate::laws::{
    asks_for_ranges, consistent, copies_keep_settings_only, response_keeps_consistent,
};
use crate::model::{
    after_lists, after_response, after_sync_response, awaits, built, built_sync, first_generator,
    first_stream, generator_step, given, numbers_views, ops_for, request_for, round, settings_of,
    step_ready, stream_of, stream_step, sync_settings_of, with_view, without_views, ActionModel,
    EventModel, PhaseModel, StreamModel, SyncBuilderModel, SyncModel, ViewModel,
};
use crate::types::{
    InnerSlidingSyncViewRequestGenerator, OpModel, RequestListModel, RequestModel, ResponseModel,
    SlidingSyncMode, SlidingSyncState, SyncError, UInt,
};

verus! {

/// A round leaves the number of views as it is, and asks and moves on once for each generator;
/// the views whose turn has not come are as they were.
pub proof fn round_frame(
    views: Seq<ViewModel>,
    generators: Seq<InnerSlidingSyncViewRequestGenerator>,
    remaining: Seq<usize>,
    n: nat,
)
    requires
        n <= remaining.len(),
        numbers_views(remaining, views.len()),
    ensures
        round(views, generators, remaining, n).views.len() == views.len(),
        round(views, generators, remaining, n).generators.len() == n,
        round(views, generators, remaining, n).requests.len() == n,
        forall|i: int|
            n <= i < remaining.len() ==> round(views, generators, remaining, n).views[
            #[trigger] remaining[i] as int] == views[remaining[i] as int],
    decreases n,
{
    if n > 0 {
        round_frame(views, generators, remaining, (n - 1) as nat);
    }
}

/// In a round each generator makes its step on its own view, as if it were alone: the list at
/// position `i` of the request is the next request of the view at that position.
pub proof fn round_is_step_by_step(
    views: Seq<ViewModel>,
    generators: Seq<InnerSlidingSyncViewRequestGenerator>,
    remaining: Seq<usize>,
    n: nat,
    i: int,
)
    requires
        0 <= i < n <= remaining.len(),
        numbers_views(remaining, views.len()),
    ensures
        ({
            let after = round(views, generators, remaining, n);
            let step = generator_step(views[remaining[i] as int], generators[i]);
            &&& after.requests[i] == step.request
            &&& after.generators[i] == step.generator
            &&& after.views[remaining[i] as int] == step.view
        }),
    decreases n,
{
    round_frame(views, generators, remaining, n);
    round_frame(views, generators, remaining, (n - 1) as nat);
    if i < n - 1 {
        round_is_step_by_step(views, generators, remaining, (n - 1) as nat, i);
        assert(remaining[i] != remaining[n - 1]);
    }
}

/// A response leaves the number of views as it is, and the views alone that it is not for.
pub proof fn after_lists_keeps_views(
    views: Seq<ViewModel>,
    remaining: Seq<usize>,
    counts: Seq<UInt>,
    ops: Seq<Option<OpModel>>,
    from: nat,
)
    requires
        numbers_views(remaining, views.len()),
    ensures
        after_lists(views, remaining, counts, ops, from).0.len() == views.len(),
        forall|j: int|
            0 <= j < views.len() && (forall|i: int|
                from <= i < remaining.len() ==> #[trigger] remaining[i] != j) ==> (
            #[trigger] after_lists(views, remaining, counts, ops, from).0[j]) == views[j],
    decreases remaining.len() - from,
{
    if from < remaining.len() && counts[from as int]@ <= u32::MAX {
        let number = remaining[from as int] as int;
        let view = after_response(
            views[number],
            counts[from as int]@ as u32,
            ops_for(ops, from),
        ).0;
        after_lists_keeps_views(views.update(number, view), remaining, counts, ops, from + 1);
    }
}

/// A response that is taken in gives each view the number of its rooms and the operations on its
/// own list, and nothing of the others.
pub proof fn views_get_their_own_lists(
    views: Seq<ViewModel>,
    remaining: Seq<usize>,
    counts: Seq<UInt>,
    ops: Seq<Option<OpModel>>,
    from: nat,
    i: int,
)
    requires
        numbers_views(remaining, views.len()),
        from <= i < remaining.len(),
        after_lists(views, remaining, counts, ops, from).1 is Ok,
    ensures
        counts[i]@ <= u32::MAX,
        after_lists(views, remaining, counts, ops, from).0[remaining[i] as int] == after_response(
            views[remaining[i] as int],
            counts[i]@ as u32,
            ops_for(ops, i as nat),
        ).0,
        after_response(
            views[remaining[i] as int],
            counts[i]@ as u32,
            ops_for(ops, i as nat),
        ).1 is Ok,
    decreases remaining.len() - from,
{
    let number = remaining[from as int] as int;
    let view = after_response(views[number], counts[from as int]@ as u32, ops_for(ops, from)).0;
    let next = views.update(number, view);
    if from < i {
        assert(remaining[i] != remaining[from as int]);
        views_get_their_own_lists(next, remaining, counts, ops, from + 1, i);
    } else {
        after_lists_keeps_views(next, remaining, counts, ops, from + 1);
        assert forall|k: int| from + 1 <= k < remaining.len() implies #[trigger] remaining[k]
            != number by {
            assert(remaining[k] != remaining[from as int]);
        }
    }
}

/// An operation that could not be read makes no difference: without it the lists get the same
/// operations.
pub proof fn unread_ops_make_no_difference(ops: Seq<Option<OpModel>>, list: nat)
    ensures
        ops_for(ops.filter(|o: Option<OpModel>| o is Some), list) == ops_for(ops, list),
    decreases ops.len(),
{
    reveal(Seq::filter);
    let read = |o: Option<OpModel>| o is Some;
    if ops.len() > 0 {
        unread_ops_make_no_difference(ops.drop_last(), list);
        if ops.last() is Some {
            let kept = ops.drop_last().filter(read).push(ops.last());
            assert(ops.filter(read) == kept);
            assert(kept.drop_last() =~= ops.drop_last().filter(read));
        }
    }
}

/// Whether each view is consistent.
pub open spec fn all_consistent(views: Seq<ViewModel>) -> bool {
    forall|j: int| 0 <= j < views.len() ==> consistent(#[trigger] views[j])
}

/// Views that are consistent stay so whatever a response brings, and whether or not it can be
/// taken in.
pub proof fn lists_keep_consistent(
    views: Seq<ViewModel>,
    remaining: Seq<usize>,
    counts: Seq<UInt>,
    ops: Seq<Option<OpModel>>,
    from: nat,
)
    requires
        numbers_views(remaining, views.len()),
        all_consistent(views),
    ensures
        all_consistent(after_lists(views, remaining, counts, ops, from).0),
    decreases remaining.len() - from,
{
    if from < remaining.len() && counts[from as int]@ <= u32::MAX {
        let number = remaining[from as int] as int;
        let count = counts[from as int]@ as u32;
        response_keeps_consistent(views[number], count, ops_for(ops, from));
        let view = after_response(views[number], count, ops_for(ops, from)).0;
        lists_keep_consistent(views.update(number, view), remaining, counts, ops, from + 1);
    }
}

/// Whatever happens in a stream, consistent views stay consistent, and the stream stays one of
/// the views of its sliding sync.
pub proof fn stream_keeps_consistent(sync: SyncModel, stream: StreamModel, event: EventModel)
    requires
        stream_of(sync, stream),
        all_consistent(sync.views),
    ensures
        all_consistent(stream_step(sync, stream, event).sync.views),
        stream_of(stream_step(sync, stream, event).sync, stream_step(sync, stream, event).stream),
{
    let n = stream.remaining.len();
    round_keeps_consistent(sync.views, stream.generators, stream.remaining, n);
    round_frame(sync.views, stream.generators, stream.remaining, n);
    if let PhaseModel::Received(response) = stream.phase {
        if let Some(ops) = response.ops {
            after_lists_keeps_views(sync.views, stream.remaining, response.counts, ops, 0);
            lists_keep_consistent(sync.views, stream.remaining, response.counts, ops, 0);
        }
    }
}

/// A round keeps consistent views consistent.
proof fn round_keeps_consistent(
    views: Seq<ViewModel>,
    generators: Seq<InnerSlidingSyncViewRequestGenerator>,
    remaining: Seq<usize>,
    n: nat,
)
    requires
        n <= remaining.len(),
        numbers_views(remaining, views.len()),
        all_consistent(views),
    ensures
        all_consistent(round(views, generators, remaining, n).views),
    decreases n,
{
    if n > 0 {
        round_keeps_consistent(views, generators, remaining, (n - 1) as nat);
        round_frame(views, generators, remaining, (n - 1) as nat);
        let before = round(views, generators, remaining, (n - 1) as nat);
        let number = remaining[n - 1] as int;
        assert(consistent(before.views[number]));
    }
}

/// Views are never dropped from a stream, and each request asks for all of them.
pub proof fn requests_ask_for_all_views(sync: SyncModel, stream: StreamModel, event: EventModel)
    requires
        stream_of(sync, stream),
    ensures
        stream_step(sync, stream, event).stream.remaining == stream.remaining,
        stream_step(sync, stream, event).stream.homeserver == stream.homeserver,
        stream_step(sync, stream, event).stream.server_versions == stream.server_versions,
        stream.phase is Ready && event is Resume && stream.remaining.len() > 0 ==> (stream_step(
            sync,
            stream,
            event,
        ).stream.phase matches PhaseModel::Prepared(request) && request.lists.len()
            == stream.remaining.len()),
{
    round_frame(sync.views, stream.generators, stream.remaining, stream.remaining.len());
}

/// After a response has been taken in, the next request goes on from its position; before the
/// first response there is none to go on from.
pub proof fn requests_go_on_from_the_last_response(
    sync: SyncModel,
    stream: StreamModel,
    response: ResponseModel,
)
    requires
        stream_of(sync, stream),
        stream.phase == PhaseModel::Received(response),
        stream.remaining.len() > 0,
    ensures
        ({
            let taken = stream_step(sync, stream, EventModel::Cancelled(false));
            let next = stream_step(taken.sync, taken.stream, EventModel::Resume);
            &&& taken.sync.pos == Some(response.pos)
            &&& taken.action is Yield ==> (next.stream.phase matches PhaseModel::Prepared(request)
                && request.pos == Some(response.pos))
        }),
{
}

/// A stream that is cancelled sends nothing any more and takes in no reply that is there: it
/// ends, and the sliding sync is left as it is.
pub proof fn cancelled_streams_end(sync: SyncModel, stream: StreamModel)
    requires
        awaits(stream, EventModel::Cancelled(true)),
    ensures
        stream_step(sync, stream, EventModel::Cancelled(true)).sync == sync,
        stream_step(sync, stream, EventModel::Cancelled(true)).action == ActionModel::Finish,
        stream_step(sync, stream, EventModel::Cancelled(true)).stream.phase == PhaseModel::Done,
{
}

/// A request is sent, and a reply is taken in, only once the stream was said not to be cancelled
/// after the one was made and after the other came.
pub proof fn cancellation_is_asked_for(sync: SyncModel, stream: StreamModel, event: EventModel)
    requires
        awaits(stream, event),
    ensures
        stream_step(sync, stream, event).action is Send || stream_step(
            sync,
            stream,
            event,
        ).action is Yield || stream_step(sync, stream, event).action is Fail ==> event
            == EventModel::Cancelled(false),
        stream_step(sync, stream, event).sync.pos != sync.pos ==> event == EventModel::Cancelled(
            false,
        ) && stream.phase is Received,
{
}

/// A stream ends only if there is no view, if it is cancelled, if a request got no reply, or if a
/// reply could not be taken in; and then nothing comes any more.
pub proof fn streams_end_for_a_reason(sync: SyncModel, stream: StreamModel, event: EventModel)
    requires
        awaits(stream, event),
    ensures
        stream_step(sync, stream, event).stream.phase is Done ==> {
            ||| stream.remaining.len() == 0
            ||| event == EventModel::Cancelled(true)
            ||| event is SendFailed
            ||| stream_step(sync, stream, event).action is Fail
        },
        stream_step(sync, stream, event).stream.phase is Done <==> stream_step(
            sync,
            stream,
            event,
        ).action is Finish || stream_step(sync, stream, event).action is SendFailed || stream_step(
            sync,
            stream,
            event,
        ).action is Fail,
        forall|later: EventModel|
            stream_step(sync, stream, event).stream.phase is Done ==> !awaits(
                stream_step(sync, stream, event).stream,
                later,
            ),
{
}

/// A failure is handed out and ends the stream. Where the sending failed, the sliding sync is as
/// it was; where the reply cannot be taken in, its own error is what is handed out. Without an
/// error a stream ends only if there is no view or if it is cancelled.
pub proof fn failures_are_handed_out(sync: SyncModel, stream: StreamModel, event: EventModel)
    requires
        awaits(stream, event),
    ensures
        ({
            let step = stream_step(sync, stream, event);
            &&& event is SendFailed <==> step.action is SendFailed
            &&& event is SendFailed ==> step.sync == sync && step.stream.phase is Done
            &&& step.action matches ActionModel::Fail(e) ==> {
                &&& stream.phase is Received
                &&& after_sync_response(
                    sync,
                    stream.remaining,
                    stream.phase->Received_0,
                ).1 == Err::<(), SyncError>(e)
                &&& step.stream.phase is Done
            }
            &&& step.action is Finish ==> stream.remaining.len() == 0 || event
                == EventModel::Cancelled(true)
        }),
{
}

/// A response that cannot be taken in moves the position on all the same.
pub proof fn position_moves_on_in_any_case(
    sync: SyncModel,
    remaining: Seq<usize>,
    response: ResponseModel,
)
    ensures
        after_sync_response(sync, remaining, response).0.pos == Some(response.pos),
        after_sync_response(sync, remaining, response).0.homeserver == sync.homeserver,
        after_sync_response(sync, remaining, response).0.client == sync.client,
        response.ops is None ==> after_sync_response(sync, remaining, response).0.views
            == sync.views,
{
}

/// New ranges reach a stream that is running, and whose generators were made before they were
/// set: its next request asks for them, and is else the same.
pub proof fn new_ranges_reach_running_streams(
    sync: SyncModel,
    stream: StreamModel,
    ranges: Seq<(UInt, UInt)>,
    j: int,
)
    requires
        stream_of(sync, stream),
        stream.phase is Ready,
        0 <= j < stream.remaining.len(),
        asks_for_ranges(sync.views[stream.remaining[j] as int], stream.generators[j]),
    ensures
        ({
            let number = stream.remaining[j] as int;
            let changed = SyncModel {
                views: sync.views.update(number, ViewModel { ranges, ..sync.views[number] }),
                ..sync
            };
            let before = stream_step(sync, stream, EventModel::Resume).stream.phase;
            let after = stream_step(changed, stream, EventModel::Resume).stream.phase;
            &&& stream_of(changed, stream)
            &&& before is Prepared
            &&& after == PhaseModel::Prepared(
                RequestModel {
                    lists: before->Prepared_0.lists.update(
                        j,
                        RequestListModel { ranges, ..before->Prepared_0.lists[j] },
                    ),
                    ..before->Prepared_0
                },
            )
        }),
{
    let number = stream.remaining[j] as int;
    let views = sync.views.update(number, ViewModel { ranges, ..sync.views[number] });
    let n = stream.remaining.len();
    round_frame(sync.views, stream.generators, stream.remaining, n);
    round_frame(views, stream.generators, stream.remaining, n);
    let old_requests = round(sync.views, stream.generators, stream.remaining, n).requests;
    let new_requests = round(views, stream.generators, stream.remaining, n).requests;
    assert forall|i: int| 0 <= i < n implies #[trigger] new_requests[i] == old_requests.update(
        j,
        RequestListModel { ranges, ..old_requests[j] },
    )[i] by {
        round_is_step_by_step(sync.views, stream.generators, stream.remaining, n, i);
        round_is_step_by_step(views, stream.generators, stream.remaining, n, i);
        assert(i != j ==> stream.remaining[i] != stream.remaining[j]);
    }
    assert(new_requests =~= old_requests.update(
        j,
        RequestListModel { ranges, ..old_requests[j] },
    ));
}

/// A round leaves the views alone that none of its generators is for.
proof fn round_leaves_other_views(
    views: Seq<ViewModel>,
    generators: Seq<InnerSlidingSyncViewRequestGenerator>,
    remaining: Seq<usize>,
    n: nat,
    j: int,
)
    requires
        n <= remaining.len(),
        numbers_views(remaining, views.len()),
        0 <= j < views.len(),
        forall|i: int| 0 <= i < remaining.len() ==> #[trigger] remaining[i] != j,
    ensures
        round(views, generators, remaining, n).views[j] == views[j],
    decreases n,
{
    if n > 0 {
        round_frame(views, generators, remaining, (n - 1) as nat);
        round_leaves_other_views(views, generators, remaining, (n - 1) as nat, j);
        assert(remaining[n - 1] != j);
    }
}

/// A view that is added to a sliding sync waits for the next stream: one that is running goes on
/// with the views that it has, and leaves the new one as it is; the next one has them all.
pub proof fn added_views_wait_for_the_next_stream(
    sync: SyncModel,
    stream: StreamModel,
    view: ViewModel,
    event: EventModel,
)
    requires
        stream_of(sync, stream),
        sync.views.len() < usize::MAX,
    ensures
        ({
            let added = SyncModel { views: sync.views.push(view), ..sync };
            let step = stream_step(added, stream, event);
            let n = sync.views.len() as int;
            &&& stream_of(added, stream)
            &&& step.sync.views.len() == n + 1
            &&& step.sync.views[n] == view
            &&& step.stream.remaining == stream.remaining
            &&& first_stream(added).remaining == first_stream(sync).remaining.push(n as usize)
            &&& first_stream(added).generators == first_stream(sync).generators.push(
                first_generator(view),
            )
        }),
{
    let added = SyncModel { views: sync.views.push(view), ..sync };
    let n = sync.views.len() as int;
    assert(numbers_views(stream.remaining, added.views.len()));
    assert(first_stream(added).remaining =~= first_stream(sync).remaining.push(n as usize));
    assert(first_stream(added).generators =~= first_stream(sync).generators.push(
        first_generator(view),
    ));
    round_frame(added.views, stream.generators, stream.remaining, stream.remaining.len());
    round_leaves_other_views(
        added.views,
        stream.generators,
        stream.remaining,
        stream.remaining.len(),
        n,
    );
    if let PhaseModel::Received(response) = stream.phase {
        if let Some(ops) = response.ops {
            after_lists_keeps_views(added.views, stream.remaining, response.counts, ops, 0);
        }
    }
}

/// A reset takes the views from a builder and nothing else, however many there were; a view that
/// is added next is the only one.
pub proof fn resets_take_the_views_only(builder: SyncBuilderModel, view: ViewModel)
    ensures
        without_views(builder).views is None,
        without_views(builder).homeserver == builder.homeserver,
        without_views(builder).client == builder.client,
        with_view(without_views(builder), view).views == Some(seq![view]),
        built_sync(without_views(builder)).views.len() == 0,
{
    assert(Seq::<ViewModel>::empty().push(view) =~= seq![view]);
}

/// Views are added at the end; after a reset the next view is the only one.
pub proof fn views_are_added_in_order(builder: SyncBuilderModel, a: ViewModel, b: ViewModel)
    ensures
        with_view(with_view(builder, a), b).views->0 == given(builder.views, Seq::empty()).push(
            a,
        ).push(b),
        with_view(without_views(builder), a).views->0 == seq![a],
{
    assert(Seq::<ViewModel>::empty().push(a) =~= seq![a]);
}

/// What is built from a sliding sync has its address, its client and the settings of its views,
/// and nothing of what it has learned: it has no position, and its views are cold and empty.
pub proof fn sync_copies_keep_settings_only(sync: SyncModel)
    ensures
        built_sync(sync_settings_of(sync)) == (SyncModel {
            pos: None,
            views: sync.views.map_values(|v: ViewModel| built(settings_of(v))),
            ..sync
        }),
        all_consistent(built_sync(sync_settings_of(sync)).views),
        forall|j: int|
            0 <= j < sync.views.len() ==> (
            #[trigger] built_sync(sync_settings_of(sync)).views[j]) == (ViewModel {
                state: SlidingSyncState::Cold,
                rooms_count: None,
                rooms_list: Seq::empty(),
                rooms: Map::empty(),
                ..sync.views[j]
            }),
{
    assert forall|j: int| 0 <= j < sync.views.len() implies (
    #[trigger] built_sync(sync_settings_of(sync)).views[j]) == (ViewModel {
        state: SlidingSyncState::Cold,
        rooms_count: None,
        rooms_list: Seq::empty(),
        rooms: Map::empty(),
        ..sync.views[j]
    }) && consistent(built_sync(sync_settings_of(sync)).views[j]) by {
        copies_keep_settings_only(sync.views[j]);
    }
}

/// A new stream is one of its sliding sync, and its first request can be made: it asks, for each
/// view, for the first batch or for the ranges of the view, whichever its mode says, unless the
/// view is known to be empty.
pub proof fn first_requests_can_be_made(sync: SyncModel, i: int)
    requires
        0 <= i < sync.views.len() <= usize::MAX,
    ensures
        stream_of(sync, first_stream(sync)),
        step_ready(sync, first_stream(sync), EventModel::Resume),
        ({
            let step = stream_step(sync, first_stream(sync), EventModel::Resume);
            let view = sync.views[i];
            &&& step.stream.phase matches PhaseModel::Prepared(request)
            &&& request.pos == sync.pos
            &&& request.lists[i] == request_for(
                view,
                if view.sync_mode == SlidingSyncMode::FullSync && view.rooms_count != Some(0u32) {
                    seq![(UInt::of(0), UInt::of(view.batch_size))]
                } else {
                    view.ranges
                },
            )
        }),
{
    let stream = first_stream(sync);
    assert(stream.remaining.len() == sync.views.len());
    assert forall|j: int, k: int|
        0 <= j < stream.remaining.len() && 0 <= k < stream.remaining.len() && j != k implies
        stream.remaining[j] != stream.remaining[k] by {
        assert(stream.remaining[j] == j && stream.remaining[k] == k);
    }
    assert forall|j: int| 0 <= j < stream.remaining.len() implies #[trigger] stream.remaining[j]
        < sync.views.len() by {
        assert(stream.remaining[j] == j);
    }
    round_is_step_by_step(
        sync.views,
        stream.generators,
        stream.remaining,
        stream.remaining.len(),
        i,
    );
    assert(stream.generators[i] == first_generator(sync.views[i]));
}

} // verus!
