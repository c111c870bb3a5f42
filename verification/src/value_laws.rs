//! That models say what values hold: each part of a value is in its model, and each entry of a
//! list, in order.
use vstd::prelude::*;
use vstd::std_specs::convert::FromSpec;
use crate::model::{ActionModel, EventModel};
use crate::stream::{generators_view, StreamAction, StreamEvent};
use crate::sync::{views_view, watchers_of, Client};
use crate::types::{
    entries_view, no_rooms, op_refs_view, ops_view, optional_texts_view, pairs_view, read_ops_view,
    request_lists_view, rooms_view, text_view, texts_view, uint_of_value, MAX_SAFE_UINT, Request,
    Response, SlidingSyncRoom, SyncOp, SyncRequestList, UInt,
};
use crate::view::{SlidingSyncView, SlidingSyncViewRequestGenerator};

verus! {

/// The models of texts, of pairs and of optional texts are the texts, in order.
pub proof fn texts_are_themselves(
    text: Option<String>,
    texts: Seq<String>,
    optional: Seq<Option<String>>,
    pairs: Seq<(String, String)>,
)
    ensures
        text is None <==> text_view(text) is None,
        text is Some ==> text_view(text)->0 == text->0@,
        texts_view(texts).len() == texts.len(),
        forall|i: int| 0 <= i < texts.len() ==> #[trigger] texts_view(texts)[i] == texts[i]@,
        optional_texts_view(optional).len() == optional.len(),
        forall|i: int|
            0 <= i < optional.len() ==> (#[trigger] optional_texts_view(optional)[i] is None
                <==> optional[i] is None),
        forall|i: int|
            0 <= i < optional.len() && optional[i] is Some ==> (
            #[trigger] optional_texts_view(optional)[i])->0 == optional[i]->0@,
        pairs_view(pairs).len() == pairs.len(),
        forall|i: int|
            0 <= i < pairs.len() ==> #[trigger] pairs_view(pairs)[i] == (pairs[i].0@, pairs[i].1@),
{
}

/// The model of a room has its id and its content; that of an operation its list, its kind, its
/// range and its rooms; and those of lists of them each of them, in order.
pub proof fn rooms_and_operations_are_themselves(
    room: SlidingSyncRoom,
    rooms: Seq<SlidingSyncRoom>,
    entries: Seq<(String, SlidingSyncRoom)>,
    op: SyncOp,
    ops: Seq<SyncOp>,
    refs: Seq<&SyncOp>,
    read: Seq<Option<SyncOp>>,
)
    ensures
        room@.room_id is None <==> room.room_id is None,
        room.room_id is Some ==> room@.room_id->0 == room.room_id->0@,
        room@.content == room.content@,
        rooms_view(rooms).len() == rooms.len(),
        forall|i: int| 0 <= i < rooms.len() ==> #[trigger] rooms_view(rooms)[i] == rooms[i]@,
        entries_view(entries).len() == entries.len(),
        forall|i: int|
            0 <= i < entries.len() ==> #[trigger] entries_view(entries)[i] == (
                entries[i].0@,
                entries[i].1@,
            ),
        op@.list == op.list,
        op@.op == op.op,
        op@.range == op.range,
        op@.rooms.len() == op.rooms@.len(),
        forall|i: int| 0 <= i < op.rooms@.len() ==> #[trigger] op@.rooms[i] == op.rooms@[i]@,
        ops_view(ops).len() == ops.len(),
        forall|i: int| 0 <= i < ops.len() ==> #[trigger] ops_view(ops)[i] == ops[i]@,
        op_refs_view(refs).len() == refs.len(),
        forall|i: int| 0 <= i < refs.len() ==> #[trigger] op_refs_view(refs)[i] == refs[i]@,
        read_ops_view(read).len() == read.len(),
        forall|i: int|
            0 <= i < read.len() ==> (#[trigger] read_ops_view(read)[i] is None <==> read[i] is None),
        forall|i: int|
            0 <= i < read.len() && read[i] is Some ==> (#[trigger] read_ops_view(read)[i])->0
                == read[i]->0@,
        forall|id: Seq<char>| !#[trigger] no_rooms().contains_key(id),
{
}

/// The model of a request has its position and its lists, each with its ranges, its order, its
/// required state, its limit and its filters; that of a response its position, its operations and
/// its numbers of rooms.
pub proof fn requests_and_responses_are_themselves(
    list: SyncRequestList,
    lists: Seq<SyncRequestList>,
    request: Request,
    response: Response,
)
    ensures
        list@.ranges == list.ranges@,
        list@.sort is Some <==> list.sort is Some,
        list.sort is Some ==> list@.sort->0 == texts_view(list.sort->0@),
        list@.required_state is Some <==> list.required_state is Some,
        list.required_state is Some ==> list@.required_state->0 == pairs_view(
            list.required_state->0@,
        ),
        list@.timeline_limit == list.timeline_limit,
        list@.filters == text_view(list.filters),
        request_lists_view(lists).len() == lists.len(),
        forall|i: int| 0 <= i < lists.len() ==> #[trigger] request_lists_view(lists)[i] == lists[i]@,
        request@.pos == text_view(request.pos),
        request@.lists == request_lists_view(request.lists@),
        response@.pos == response.pos@,
        response@.ops is Some <==> response.ops is Some,
        response.ops is Some ==> response@.ops->0 == read_ops_view(response.ops->0@),
        response@.counts == response.counts@,
{
}

/// The model of a client has its address and its versions; those of lists of views and of
/// generators each of them, in order; and those of events and actions are of the same kind, with
/// the model of what they carry.
pub proof fn streams_speak_for_themselves(
    client: Client,
    views: Seq<SlidingSyncView>,
    generators: Seq<SlidingSyncViewRequestGenerator>,
    event: StreamEvent,
    action: StreamAction,
)
    ensures
        client@.homeserver == client.homeserver,
        client@.server_versions == texts_view(client.server_versions@),
        views_view(views).len() == views.len(),
        forall|i: int| 0 <= i < views.len() ==> #[trigger] views_view(views)[i] == views[i]@,
        watchers_of(views).len() == views.len(),
        forall|i: int|
            0 <= i < views.len() ==> #[trigger] watchers_of(views)[i] == views[i].watchers(),
        generators_view(generators).len() == generators.len(),
        forall|i: int|
            0 <= i < generators.len() ==> #[trigger] generators_view(generators)[i]
                == generators[i].inner,
        event@ == match event {
            StreamEvent::Resume => EventModel::Resume,
            StreamEvent::Cancelled(cancelled) => EventModel::Cancelled(cancelled),
            StreamEvent::Reply(response) => EventModel::Reply(response@),
            StreamEvent::SendFailed => EventModel::SendFailed,
        },
        action@ == match action {
            StreamAction::CheckCancel => ActionModel::CheckCancel,
            StreamAction::Send(request) => ActionModel::Send(request@),
            StreamAction::Yield => ActionModel::Yield,
            StreamAction::SendFailed => ActionModel::SendFailed,
            StreamAction::Finish => ActionModel::Finish,
            StreamAction::Fail(e) => ActionModel::Fail(e),
        },
{
}

/// Integers keep their value when they become integers of the protocol, whose largest is the
/// largest that a double can count to.
pub proof fn integers_keep_their_value(a: u8, b: u16, c: u32)
    ensures
        <UInt as FromSpec<u8>>::from_spec(a)@ == a,
        <UInt as FromSpec<u16>>::from_spec(b)@ == b,
        <UInt as FromSpec<u32>>::from_spec(c)@ == c,
        UInt::of(c)@ == c,
        MAX_SAFE_UINT == 9_007_199_254_740_991,
{
    uint_of_value(a as u32);
    uint_of_value(b as u32);
    uint_of_value(c);
}

} // verus!
