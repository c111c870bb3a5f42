//! What a stream asks for and takes in, told by its events, and what a response does to the views
//! of a sliding sync, told by its lists.
use vstd::prelude::*;
use crate::model::{
    after_lists, after_response, after_sync_response, awaits, first_stream, generator_step, grown,
    lists_fit, numbers_views, ops_fit, ops_for, response_fits, round, step_ready, stream_of,
    stream_step, ActionModel, EventModel, PhaseModel, StreamModel, SyncModel, ViewModel,
};
use crate::sync::first_numbers;
use crate::sync_laws::{after_lists_keeps_views, round_frame, round_is_step_by_step};
use crate::types::{
    InnerSlidingSyncViewRequestGenerator, OpModel, ResponseModel, SlidingSyncMode, SyncError,
};

verus! {

/// Whether the numbers are numbers of the first `views` views, none of them twice.
pub open spec fn picks(remaining: Seq<usize>, views: nat) -> bool {
    &&& forall|i: int| 0 <= i < remaining.len() ==> (#[trigger] remaining[i]) < views
    &&& forall|i: int, j: int|
        0 <= i < j < remaining.len() ==> (#[trigger] remaining[i]) != (#[trigger] remaining[j])
}

/// Whether no number is that of the view `v`.
pub open spec fn leaves_out(remaining: Seq<usize>, v: int) -> bool {
    forall|i: int| 0 <= i < remaining.len() ==> (#[trigger] remaining[i]) != v
}

/// A stream is one of a sliding sync exactly if it has a generator for each of its views, and
/// these are views of the sliding sync, none of them twice.
pub proof fn streams_of_a_sync(sync: SyncModel, stream: StreamModel)
    ensures
        stream_of(sync, stream) <==> stream.generators.len() == stream.remaining.len() && picks(
            stream.remaining,
            sync.views.len(),
        ),
        numbers_views(stream.remaining, sync.views.len()) <==> picks(
            stream.remaining,
            sync.views.len(),
        ),
{
    if picks(stream.remaining, sync.views.len()) {
        assert forall|i: int, j: int|
            0 <= i < stream.remaining.len() && 0 <= j < stream.remaining.len() && i
                != j implies stream.remaining[i] != stream.remaining[j] by {
            if j < i {
                assert(stream.remaining[j] != stream.remaining[i]);
            }
        }
    }
}

/// A round leaves a view alone that none of its generators is for.
proof fn rounds_leave_others(
    views: Seq<ViewModel>,
    generators: Seq<InnerSlidingSyncViewRequestGenerator>,
    remaining: Seq<usize>,
    n: nat,
    v: int,
)
    requires
        n <= remaining.len(),
        numbers_views(remaining, views.len()),
        0 <= v < views.len(),
        leaves_out(remaining, v),
    ensures
        round(views, generators, remaining, n).views[v] == views[v],
    decreases n,
{
    if n > 0 {
        round_frame(views, generators, remaining, (n - 1) as nat);
        rounds_leave_others(views, generators, remaining, (n - 1) as nat, v);
        assert(remaining[n - 1] != v);
    }
}

/// A stream starts with all views of its sliding sync, in order, at the address and with the
/// versions of the sliding sync; with the first batch for a view that syncs in full, and live for
/// a selective one.
pub proof fn streams_start_with_all_views(sync: SyncModel)
    requires
        sync.views.len() <= usize::MAX,
    ensures
        ({
            let stream = first_stream(sync);
            &&& stream.phase is Ready
            &&& stream.homeserver == match sync.homeserver {
                Some(homeserver) => homeserver,
                None => sync.client.homeserver,
            }
            &&& stream.server_versions == sync.client.server_versions
            &&& stream.remaining.len() == sync.views.len()
            &&& stream.generators.len() == sync.views.len()
            &&& forall|i: int| 0 <= i < sync.views.len() ==> #[trigger] stream.remaining[i] == i
            &&& forall|i: int|
                0 <= i < sync.views.len() ==> #[trigger] stream.generators[i]
                    == match sync.views[i].sync_mode {
                    SlidingSyncMode::FullSync => InnerSlidingSyncViewRequestGenerator::FullSync(
                        0,
                        sync.views[i].batch_size,
                    ),
                    SlidingSyncMode::Selective => InnerSlidingSyncViewRequestGenerator::Live,
                }
        }),
        first_numbers(sync.views.len()).len() == sync.views.len(),
        forall|i: int|
            0 <= i < sync.views.len() ==> #[trigger] first_numbers(sync.views.len())[i] == i,
{
}

/// A stream waits for being resumed to make a request, for word whether it is cancelled before it
/// sends one and before it takes in a reply, and for the reply or the failure of a request that it
/// sent. When it is done it waits for nothing.
pub proof fn what_streams_wait_for(stream: StreamModel, event: EventModel)
    ensures
        stream.phase is Ready ==> (awaits(stream, event) <==> event is Resume),
        stream.phase is Prepared ==> (awaits(stream, event) <==> event is Cancelled),
        stream.phase is Sent ==> (awaits(stream, event) <==> event is Reply || event is SendFailed),
        stream.phase is Received ==> (awaits(stream, event) <==> event is Cancelled),
        stream.phase is Done ==> !awaits(stream, event),
{
}

/// The views, the address and the versions of a stream never change, and neither do the address
/// and the client of the sliding sync. Between two requests the generators do not change: only
/// making a request moves them. The position of the sliding sync and what its views know of rooms
/// change only when a reply is taken in.
pub proof fn what_steps_leave_alone(sync: SyncModel, stream: StreamModel, event: EventModel)
    requires
        picks(stream.remaining, sync.views.len()),
        stream.generators.len() == stream.remaining.len(),
    ensures
        ({
            let step = stream_step(sync, stream, event);
            &&& step.stream.remaining == stream.remaining
            &&& step.stream.homeserver == stream.homeserver
            &&& step.stream.server_versions == stream.server_versions
            &&& step.stream.generators.len() == stream.generators.len()
            &&& step.sync.homeserver == sync.homeserver
            &&& step.sync.client == sync.client
            &&& step.sync.views.len() == sync.views.len()
            &&& !(stream.phase is Ready && event is Resume) ==> step.stream.generators
                == stream.generators
            &&& !(stream.phase is Received && event == EventModel::Cancelled(false))
                ==> step.sync.pos == sync.pos
            &&& !(stream.phase is Received && event == EventModel::Cancelled(false)) && !(
            stream.phase is Ready && event is Resume) ==> step.sync == sync
        }),
{
    streams_of_a_sync(sync, stream);
    round_frame(sync.views, stream.generators, stream.remaining, stream.remaining.len());
    if let PhaseModel::Received(response) = stream.phase {
        if let Some(ops) = response.ops {
            after_lists_keeps_views(sync.views, stream.remaining, response.counts, ops, 0);
        }
    }
}

/// Making a request is one step of each generator on its own view: the list at position `i` of the
/// request, the generator that is kept, and the view after it are what that step gives. The request
/// goes on from the position of the sliding sync, and views that are not of the stream stay as
/// they are. Without a view the stream ends.
pub proof fn requests_step_each_generator(sync: SyncModel, stream: StreamModel)
    requires
        picks(stream.remaining, sync.views.len()),
        stream.generators.len() == stream.remaining.len(),
        stream.phase is Ready,
    ensures
        ({
            let step = stream_step(sync, stream, EventModel::Resume);
            &&& stream.remaining.len() == 0 ==> step.action == ActionModel::Finish
                && step.stream.phase is Done && step.sync == sync
            &&& stream.remaining.len() > 0 ==> {
                &&& step.action == ActionModel::CheckCancel
                &&& step.stream.phase is Prepared
                &&& step.stream.phase->Prepared_0.pos == sync.pos
                &&& step.stream.phase->Prepared_0.lists.len() == stream.remaining.len()
                &&& forall|i: int|
                    0 <= i < stream.remaining.len()
                        ==> #[trigger] step.stream.phase->Prepared_0.lists[i] == generator_step(
                        sync.views[stream.remaining[i] as int],
                        stream.generators[i],
                    ).request
                &&& forall|i: int|
                    0 <= i < stream.remaining.len() ==> #[trigger] step.stream.generators[i]
                        == generator_step(
                        sync.views[stream.remaining[i] as int],
                        stream.generators[i],
                    ).generator
                &&& forall|i: int|
                    0 <= i < stream.remaining.len()
                        ==> step.sync.views[#[trigger] stream.remaining[i] as int]
                        == generator_step(
                        sync.views[stream.remaining[i] as int],
                        stream.generators[i],
                    ).view
                &&& forall|v: int|
                    0 <= v < sync.views.len() && leaves_out(stream.remaining, v)
                        ==> #[trigger] step.sync.views[v] == sync.views[v]
            }
        }),
{
    streams_of_a_sync(sync, stream);
    let n = stream.remaining.len();
    round_frame(sync.views, stream.generators, stream.remaining, n);
    assert forall|i: int| 0 <= i < n implies #[trigger] round(
        sync.views,
        stream.generators,
        stream.remaining,
        n,
    ).requests[i] == generator_step(
        sync.views[stream.remaining[i] as int],
        stream.generators[i],
    ).request by {
        round_is_step_by_step(sync.views, stream.generators, stream.remaining, n, i);
    }
    assert forall|i: int| 0 <= i < n implies #[trigger] round(
        sync.views,
        stream.generators,
        stream.remaining,
        n,
    ).generators[i] == generator_step(
        sync.views[stream.remaining[i] as int],
        stream.generators[i],
    ).generator by {
        round_is_step_by_step(sync.views, stream.generators, stream.remaining, n, i);
    }
    assert forall|i: int| 0 <= i < n implies round(
        sync.views,
        stream.generators,
        stream.remaining,
        n,
    ).views[#[trigger] stream.remaining[i] as int] == generator_step(
        sync.views[stream.remaining[i] as int],
        stream.generators[i],
    ).view by {
        round_is_step_by_step(sync.views, stream.generators, stream.remaining, n, i);
    }
    assert forall|v: int|
        0 <= v < sync.views.len() && leaves_out(stream.remaining, v) implies #[trigger] round(
        sync.views,
        stream.generators,
        stream.remaining,
        n,
    ).views[v] == sync.views[v] by {
        rounds_leave_others(sync.views, stream.generators, stream.remaining, n, v);
    }
}

/// What is sent is the request that was made, and what is taken in is the reply that came. Told to
/// be cancelled, a stream ends, whether it was to send or to take in; a failed sending is handed
/// out and ends it.
pub proof fn requests_are_sent_and_replies_taken_in(
    sync: SyncModel,
    stream: StreamModel,
    reply: ResponseModel,
)
    ensures
        stream.phase matches PhaseModel::Prepared(request) ==> {
            let step = stream_step(sync, stream, EventModel::Cancelled(false));
            &&& step.action == ActionModel::Send(request)
            &&& step.stream.phase is Sent
        },
        stream.phase is Sent ==> {
            let step = stream_step(sync, stream, EventModel::Reply(reply));
            &&& step.action == ActionModel::CheckCancel
            &&& step.stream.phase == PhaseModel::Received(reply)
        },
        stream.phase is Sent ==> {
            let step = stream_step(sync, stream, EventModel::SendFailed);
            &&& step.action == ActionModel::SendFailed
            &&& step.stream.phase is Done
        },
        stream.phase matches PhaseModel::Received(response) ==> {
            let step = stream_step(sync, stream, EventModel::Cancelled(false));
            let (after, result) = after_sync_response(sync, stream.remaining, response);
            &&& step.sync == after
            &&& result is Ok ==> step.action == ActionModel::Yield && step.stream.phase is Ready
            &&& result matches Err(e) ==> step.action == ActionModel::Fail(e)
                && step.stream.phase is Done
        },
        stream.phase is Prepared || stream.phase is Received ==> {
            let step = stream_step(sync, stream, EventModel::Cancelled(true));
            &&& step.action == ActionModel::Finish
            &&& step.stream.phase is Done
        },
{
}

/// Whether a stream went through the events: `streams[k]` is the stream, and `syncs[k]` its sliding
/// sync, when it was told `events[k]`. Between two events the views may have been changed.
pub open spec fn went_through(
    streams: Seq<StreamModel>,
    syncs: Seq<SyncModel>,
    events: Seq<EventModel>,
) -> bool {
    &&& streams.len() == events.len() + 1
    &&& syncs.len() == events.len()
    &&& forall|k: int|
        0 <= k < events.len() ==> (#[trigger] streams[k]).generators.len()
            == streams[k].remaining.len() && picks(streams[k].remaining, syncs[k].views.len())
    &&& forall|k: int|
        0 <= k < events.len() ==> #[trigger] streams[k + 1] == stream_step(
            syncs[k],
            streams[k],
            events[k],
        ).stream
}

/// Once the generator for a list is live it stays so as long as the stream goes on, through
/// requests, replies and all else, and each later request asks, for that list, for the ranges that
/// the view has when the request is made.
pub proof fn live_lists_stay_live(
    streams: Seq<StreamModel>,
    syncs: Seq<SyncModel>,
    events: Seq<EventModel>,
    a: int,
    b: int,
    j: int,
)
    requires
        went_through(streams, syncs, events),
        0 <= a <= b < events.len(),
        0 <= j < streams[a].remaining.len(),
        streams[a].generators[j] is Live,
    ensures
        streams[b].remaining == streams[a].remaining,
        streams[b].generators[j] is Live,
        streams[b].phase is Ready && events[b] is Resume ==> {
            let request = streams[b + 1].phase;
            &&& request is Prepared
            &&& request->Prepared_0.lists[j].ranges
                == syncs[b].views[streams[a].remaining[j] as int].ranges
        },
    decreases b - a,
{
    if a < b {
        live_lists_stay_live(streams, syncs, events, a, b - 1, j);
        assert(streams[(b - 1) + 1] == stream_step(
            syncs[b - 1],
            streams[b - 1],
            events[b - 1],
        ).stream);
        assert(streams[b - 1].generators.len() == streams[b - 1].remaining.len());
        what_steps_leave_alone(syncs[b - 1], streams[b - 1], events[b - 1]);
        if streams[b - 1].phase is Ready && events[b - 1] is Resume {
            requests_step_each_generator(syncs[b - 1], streams[b - 1]);
            assert(streams[b].generators[j] == generator_step(
                syncs[b - 1].views[streams[b - 1].remaining[j] as int],
                streams[b - 1].generators[j],
            ).generator);
        }
    }
    assert(streams[b + 1] == stream_step(syncs[b], streams[b], events[b]).stream);
    assert(streams[b].generators.len() == streams[b].remaining.len());
    if streams[b].phase is Ready && events[b] is Resume {
        requests_step_each_generator(syncs[b], streams[b]);
        let lists = streams[b + 1].phase->Prepared_0.lists;
        assert(lists[j] == generator_step(
            syncs[b].views[streams[b].remaining[j] as int],
            streams[b].generators[j],
        ).request);
    }
}

/// A stream goes on where it left off: from one request to the next, with no request between them,
/// the generators are what the first request left, whatever was sent, came in or was changed in
/// the views.
pub proof fn requests_go_on_where_the_last_left_off(
    streams: Seq<StreamModel>,
    syncs: Seq<SyncModel>,
    events: Seq<EventModel>,
    a: int,
    b: int,
)
    requires
        went_through(streams, syncs, events),
        0 <= a <= b <= events.len(),
        forall|k: int| a <= k < b ==> !(#[trigger] events[k] is Resume),
    ensures
        streams[b].generators == streams[a].generators,
        streams[b].remaining == streams[a].remaining,
    decreases b - a,
{
    if a < b {
        requests_go_on_where_the_last_left_off(streams, syncs, events, a, b - 1);
        assert(!(events[b - 1] is Resume));
        assert(streams[(b - 1) + 1] == stream_step(
            syncs[b - 1],
            streams[b - 1],
            events[b - 1],
        ).stream);
        assert(streams[b - 1].generators.len() == streams[b - 1].remaining.len());
        what_steps_leave_alone(syncs[b - 1], streams[b - 1], events[b - 1]);
    }
}

/// The operations on a list are those of all operations that could be read and are on it, in
/// order: those of two lists of operations are those of the first and then those of the second,
/// that of one that could be read is that one if it is on the list, and else there is none.
pub proof fn operations_go_by_their_list(
    a: Seq<Option<OpModel>>,
    b: Seq<Option<OpModel>>,
    op: OpModel,
    list: nat,
)
    ensures
        ops_for(a + b, list) == ops_for(a, list) + ops_for(b, list),
        ops_for(seq![Some(op)], list) == if op.list@ == list {
            seq![op]
        } else {
            Seq::empty()
        },
        ops_for(seq![None], list).len() == 0,
        ops_for(Seq::empty(), list).len() == 0,
    decreases b.len(),
{
    reveal_with_fuel(Seq::filter_map, 2);
    assert(seq![Some(op)].drop_last() =~= Seq::empty());
    assert(seq![None::<OpModel>].drop_last() =~= Seq::empty());
    assert(ops_for(seq![Some(op)], list) =~= if op.list@ == list {
        seq![op]
    } else {
        Seq::empty()
    });
    if b.len() == 0 {
        assert(a + b =~= a);
        assert(ops_for(a, list) + ops_for(b, list) =~= ops_for(a, list));
    } else {
        operations_go_by_their_list(a, b.drop_last(), op, list);
        assert((a + b).drop_last() =~= a + b.drop_last());
        assert((a + b).last() == b.last());
        assert(ops_for(a + b, list) =~= ops_for(a, list) + ops_for(b, list));
    }
}

/// What the list at position `i` of a response makes of its view, and whether it can be taken in.
pub open spec fn taken(
    views: Seq<ViewModel>,
    remaining: Seq<usize>,
    response: ResponseModel,
    i: int,
) -> (ViewModel, Result<(), SyncError>) {
    after_response(
        views[remaining[i] as int],
        response.counts[i]@ as u32,
        ops_for(response.ops->0, i as nat),
    )
}

/// Whether the list at position `i` of a response can be taken in.
pub open spec fn can_be_taken(
    views: Seq<ViewModel>,
    remaining: Seq<usize>,
    response: ResponseModel,
    i: int,
) -> bool {
    response.counts[i]@ <= 0xFFFF_FFFF && taken(views, remaining, response, i).1 is Ok
}

/// What lists from `from` on make of the views, up to the list `n` that cannot be taken in.
proof fn lists_are_taken_in(
    views: Seq<ViewModel>,
    remaining: Seq<usize>,
    response: ResponseModel,
    from: nat,
    n: nat,
)
    requires
        numbers_views(remaining, views.len()),
        response.ops is Some,
        from <= n <= remaining.len(),
        forall|i: int| from <= i < n ==> #[trigger] can_be_taken(views, remaining, response, i),
        n < remaining.len() ==> !can_be_taken(views, remaining, response, n as int),
    ensures
        ({
            let (after, result) = after_lists(
                views,
                remaining,
                response.counts,
                response.ops->0,
                from,
            );
            &&& result == if n == remaining.len() {
                Ok(())
            } else if response.counts[n as int]@ > 0xFFFF_FFFF {
                Err(SyncError::CountTooLarge)
            } else {
                taken(views, remaining, response, n as int).1
            }
            &&& after.len() == views.len()
            &&& forall|i: int|
                from <= i < remaining.len() ==> after[#[trigger] remaining[i] as int] == if i < n
                    || i == n && response.counts[i]@ <= 0xFFFF_FFFF {
                    taken(views, remaining, response, i).0
                } else {
                    views[remaining[i] as int]
                }
        }),
    decreases n - from,
{
    let counts = response.counts;
    let ops = response.ops->0;
    let (after, result) = after_lists(views, remaining, counts, ops, from);
    after_lists_keeps_views(views, remaining, counts, ops, from);
    if from < n {
        assert(can_be_taken(views, remaining, response, from as int));
        let number = remaining[from as int] as int;
        let next = views.update(number, taken(views, remaining, response, from as int).0);
        assert forall|i: int| from < i < remaining.len() implies taken(
            next,
            remaining,
            response,
            i,
        ) == taken(views, remaining, response, i) && can_be_taken(next, remaining, response, i)
            == #[trigger] can_be_taken(views, remaining, response, i) by {
            assert(remaining[i] != remaining[from as int]);
        }
        if n < remaining.len() {
            assert(can_be_taken(next, remaining, response, n as int) == can_be_taken(
                views,
                remaining,
                response,
                n as int,
            ));
        }
        assert forall|i: int| from + 1 <= i < n implies #[trigger] can_be_taken(
            next,
            remaining,
            response,
            i,
        ) by {
            assert(can_be_taken(views, remaining, response, i));
        }
        lists_are_taken_in(next, remaining, response, from + 1, n);
        after_lists_keeps_views(next, remaining, counts, ops, from + 1);
        assert forall|i: int| from <= i < remaining.len() implies after[
        #[trigger] remaining[i] as int] == if i < n || i == n && counts[i]@ <= 0xFFFF_FFFF {
            taken(views, remaining, response, i).0
        } else {
            views[remaining[i] as int]
        } by {
            if i == from {
                assert forall|k: int| from + 1 <= k < remaining.len() implies #[trigger] remaining[k]
                    != number by {
                    assert(remaining[k] != remaining[from as int]);
                }
                assert(after[number] == next[number]);
            } else {
                assert(can_be_taken(views, remaining, response, i) == can_be_taken(
                    next,
                    remaining,
                    response,
                    i,
                ));
                assert(remaining[i] != remaining[from as int]);
            }
        }
    } else if n < remaining.len() {
        assert forall|i: int| from < i < remaining.len() implies #[trigger] remaining[i]
            != remaining[from as int] by {
        }
    }
}

/// A response that brings operations gives each view, whatever the position was before, the number
/// of rooms and the operations of its own list, on the view as it was. It fails exactly if one of
/// its lists does, with the error of the first that does: the lists before that one are taken in,
/// that one as far as it goes, and those after it not at all. Views that it is not for stay as they
/// are. In any case the position is that of the response, and address and client are kept.
pub proof fn responses_reach_their_views(
    sync: SyncModel,
    remaining: Seq<usize>,
    response: ResponseModel,
    n: nat,
)
    requires
        picks(remaining, sync.views.len()),
        response.ops is Some,
        n <= remaining.len(),
        forall|i: int|
            0 <= i < n ==> #[trigger] can_be_taken(sync.views, remaining, response, i),
        n < remaining.len() ==> !can_be_taken(sync.views, remaining, response, n as int),
    ensures
        ({
            let (after, result) = after_sync_response(sync, remaining, response);
            &&& result == if n == remaining.len() {
                Ok(())
            } else if response.counts[n as int]@ > 0xFFFF_FFFF {
                Err(SyncError::CountTooLarge)
            } else {
                taken(sync.views, remaining, response, n as int).1
            }
            &&& after.views.len() == sync.views.len()
            &&& forall|i: int|
                0 <= i < remaining.len() ==> after.views[#[trigger] remaining[i] as int] == if i
                    < n || i == n && response.counts[i]@ <= 0xFFFF_FFFF {
                    taken(sync.views, remaining, response, i).0
                } else {
                    sync.views[remaining[i] as int]
                }
            &&& forall|v: int|
                0 <= v < sync.views.len() && leaves_out(remaining, v) ==> #[trigger] after.views[v]
                    == sync.views[v]
            &&& after.pos == Some(response.pos)
            &&& after.homeserver == sync.homeserver
            &&& after.client == sync.client
        }),
{
    picks_number_views(remaining, sync.views.len());
    lists_are_taken_in(sync.views, remaining, response, 0, n);
    after_lists_keeps_views(sync.views, remaining, response.counts, response.ops->0, 0);
    let after = after_sync_response(sync, remaining, response).0;
    assert forall|v: int|
        0 <= v < sync.views.len() && leaves_out(remaining, v) implies #[trigger] after.views[v]
        == sync.views[v] by {
        assert(forall|i: int| 0 <= i < remaining.len() ==> #[trigger] remaining[i] != v);
    }
}

/// Numbers of views, none of them twice.
proof fn picks_number_views(remaining: Seq<usize>, views: nat)
    requires
        picks(remaining, views),
    ensures
        numbers_views(remaining, views),
{
    assert forall|i: int, j: int|
        0 <= i < remaining.len() && 0 <= j < remaining.len() && i != j implies remaining[i]
        != remaining[j] by {
        if j < i {
            assert(remaining[j] != remaining[i]);
        }
    }
}

/// There is always a first list that cannot be taken in, or none.
pub proof fn lists_fail_somewhere_or_nowhere(
    views: Seq<ViewModel>,
    remaining: Seq<usize>,
    response: ResponseModel,
    from: nat,
) -> (n: nat)
    requires
        from <= remaining.len(),
    ensures
        from <= n <= remaining.len(),
        forall|i: int| from <= i < n ==> #[trigger] can_be_taken(views, remaining, response, i),
        n < remaining.len() ==> !can_be_taken(views, remaining, response, n as int),
    decreases remaining.len() - from,
{
    if from < remaining.len() && can_be_taken(views, remaining, response, from as int) {
        lists_fail_somewhere_or_nowhere(views, remaining, response, from + 1)
    } else {
        from
    }
}

/// A response that brings operations fails exactly if one of its lists cannot be taken in.
pub proof fn responses_fail_with_a_list(
    sync: SyncModel,
    remaining: Seq<usize>,
    response: ResponseModel,
)
    requires
        picks(remaining, sync.views.len()),
        response.ops is Some,
    ensures
        after_sync_response(sync, remaining, response).1 is Ok <==> forall|i: int|
            0 <= i < remaining.len() ==> #[trigger] can_be_taken(
                sync.views,
                remaining,
                response,
                i,
            ),
{
    let n = lists_fail_somewhere_or_nowhere(sync.views, remaining, response, 0);
    responses_reach_their_views(sync, remaining, response, n);
    if n < remaining.len() {
        assert(!can_be_taken(sync.views, remaining, response, n as int));
    }
}

/// A response without operations moves the position and nothing else, and cannot fail.
pub proof fn responses_without_operations_move_the_position(
    sync: SyncModel,
    remaining: Seq<usize>,
    response: ResponseModel,
)
    requires
        response.ops is None,
    ensures
        after_sync_response(sync, remaining, response) == (
            SyncModel {
                homeserver: sync.homeserver,
                client: sync.client,
                pos: Some(response.pos),
                views: sync.views,
            },
            Ok::<(), SyncError>(()),
        ),
{
}

/// Whether the list at position `i` of a response is counted and can be taken in.
pub open spec fn is_counted_and_taken(
    views: Seq<ViewModel>,
    remaining: Seq<usize>,
    response: ResponseModel,
    i: int,
) -> bool {
    i < response.counts.len() && can_be_taken(views, remaining, response, i)
}

/// Whether the lists from `from` on and before the one at `k` are counted and can be taken in.
pub open spec fn list_is_reached(
    views: Seq<ViewModel>,
    remaining: Seq<usize>,
    response: ResponseModel,
    from: int,
    k: int,
) -> bool {
    forall|i: int|
        from <= i < k ==> #[trigger] is_counted_and_taken(views, remaining, response, i)
}

/// Whether the list at position `k` of a response is counted and assigns only places that its view
/// has or gets with it.
pub open spec fn list_has_its_places(
    views: Seq<ViewModel>,
    remaining: Seq<usize>,
    response: ResponseModel,
    k: int,
) -> bool {
    &&& k < response.counts.len()
    &&& response.counts[k]@ <= 0xFFFF_FFFF ==> ops_fit(
        grown(views[remaining[k] as int], response.counts[k]@ as u32).rooms_list.len(),
        ops_for(response.ops->0, k as nat),
        0,
    )
}

/// Lists from `from` on fit exactly if each that is reached has its places.
proof fn fitting_lists(
    views: Seq<ViewModel>,
    remaining: Seq<usize>,
    response: ResponseModel,
    from: nat,
)
    requires
        response.ops is Some,
    ensures
        lists_fit(views, remaining, response.counts, response.ops->0, from) <==> forall|k: int|
            from <= k < remaining.len() && list_is_reached(
                views,
                remaining,
                response,
                from as int,
                k,
            ) ==> #[trigger] list_has_its_places(views, remaining, response, k),
    decreases remaining.len() - from,
{
    if from < remaining.len() {
        let f = from as int;
        fitting_lists(views, remaining, response, from + 1);
        assert(list_is_reached(views, remaining, response, f, f));
        let first = list_has_its_places(views, remaining, response, f);
        let goes_on = is_counted_and_taken(views, remaining, response, f);
        assert forall|k: int| from < k < remaining.len() implies (list_is_reached(
            views,
            remaining,
            response,
            f,
            k,
        ) <==> goes_on && #[trigger] list_is_reached(views, remaining, response, f + 1, k)) by {
            if list_is_reached(views, remaining, response, f, k) {
                assert(is_counted_and_taken(views, remaining, response, f));
            }
        }
        let rest = lists_fit(views, remaining, response.counts, response.ops->0, from + 1);
        assert(lists_fit(views, remaining, response.counts, response.ops->0, from) <==> first && (
        goes_on ==> rest));
        if lists_fit(views, remaining, response.counts, response.ops->0, from) {
            assert forall|k: int|
                from <= k < remaining.len() && list_is_reached(
                    views,
                    remaining,
                    response,
                    f,
                    k,
                ) implies #[trigger] list_has_its_places(views, remaining, response, k) by {
                if k > from {
                    assert(list_is_reached(views, remaining, response, f + 1, k));
                }
            }
        } else if first {
            let k = choose|k: int|
                from + 1 <= k < remaining.len() && list_is_reached(
                    views,
                    remaining,
                    response,
                    f + 1,
                    k,
                ) && !#[trigger] list_has_its_places(views, remaining, response, k);
            assert(list_is_reached(views, remaining, response, f + 1, k));
            assert(!list_has_its_places(views, remaining, response, k));
        }
    }
}

/// A response fits exactly if it brings no operations, or if those that could be read are on lists
/// that were asked for, and each list that is reached is counted and assigns only places that its
/// view has or gets with it. Nothing else is asked of a response, or of a step that takes one in;
/// and of a step that makes a request only that no batch ends past 32 bits.
pub proof fn steps_that_can_be_made(
    sync: SyncModel,
    stream: StreamModel,
    event: EventModel,
    response: ResponseModel,
)
    ensures
        response_fits(sync, stream.remaining, response) <==> (response.ops matches Some(ops) ==> {
            &&& forall|i: int|
                0 <= i < ops.len() && #[trigger] ops[i] is Some ==> ops[i]->0.list@
                    < stream.remaining.len() && ops[i]->0.list@ <= 0xFFFF_FFFF
            &&& forall|k: int|
                0 <= k < stream.remaining.len() && list_is_reached(
                    sync.views,
                    stream.remaining,
                    response,
                    0,
                    k,
                ) ==> #[trigger] list_has_its_places(sync.views, stream.remaining, response, k)
        }),
        stream.phase is Ready ==> (step_ready(sync, stream, event) <==> forall|i: int|
            0 <= i < stream.remaining.len() ==> (stream.generators[i]
                matches InnerSlidingSyncViewRequestGenerator::FullSync(position, batch_size) ==> {
                ||| position + batch_size <= 0xFFFF_FFFF
                ||| sync.views[#[trigger] stream.remaining[i] as int].rooms_count is Some
                    && sync.views[stream.remaining[i] as int].rooms_count->0 <= position
            })),
        stream.phase == PhaseModel::Received(response) ==> (step_ready(sync, stream, event) <==> (
        event == EventModel::Cancelled(false) ==> response_fits(sync, stream.remaining, response))),
        !(stream.phase is Ready || stream.phase is Received) ==> step_ready(sync, stream, event),
{
    if response.ops is Some {
        fitting_lists(sync.views, stream.remaining, response, 0);
    }
}

} // verus!
