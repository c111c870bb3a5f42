//! What holds of views and of the generators of their requests.
use vstd::prelude::*;
use crate::model::{
    after_op, after_op_on_ids, after_ops, after_response, all_sound, at_most, built, caught_up,
    entries_from, fault_in, first_fault, first_generator, generator_ready, generator_step, grown,
    known_rooms, map_of, op_fits, op_sound, ops_fit, ops_sound, request_for, room_fault, room_ids,
    room_of, settings_of, with_rooms, with_rooms_under, GeneratorStep, ViewBuilderModel, ViewModel,
};
use crate::outside::room_id_fault;
use crate::types::{
    uint_of_value, InnerSlidingSyncViewRequestGenerator, OpModel, RequestListModel, RoomModel,
    SlidingOp, SlidingSyncMode, SlidingSyncState, UInt,
};
use crate::view::{SharedView, SlidingSyncView};

verus! {

/// The rooms before the first that cannot be taken in can be taken in, and that one cannot.
pub proof fn first_fault_is_first(rooms: Seq<RoomModel>, from: nat)
    requires
        from <= rooms.len(),
    ensures
        from <= first_fault(rooms, from) <= rooms.len(),
        forall|i: int|
            from <= i < first_fault(rooms, from) ==> room_fault(#[trigger] rooms[i]) is None,
        first_fault(rooms, from) < rooms.len() ==> room_fault(
            rooms[first_fault(rooms, from) as int],
        ) is Some,
    decreases rooms.len() - from,
{
    if from < rooms.len() && room_fault(rooms[from as int]) is None {
        first_fault_is_first(rooms, from + 1);
    }
}

/// Rooms that are put in under their own ids.
proof fn rooms_under_their_ids(map: Map<Seq<char>, RoomModel>, rooms: Seq<RoomModel>, n: nat)
    requires
        n <= rooms.len(),
    ensures
        with_rooms_under(map, room_ids(rooms.take(n as int)), rooms) == with_rooms(
            map,
            rooms.take(n as int),
        ),
    decreases n,
{
    if n > 0 {
        rooms_under_their_ids(map, rooms, (n - 1) as nat);
        assert(room_ids(rooms.take(n as int)).drop_last() =~= room_ids(rooms.take(n - 1)));
        assert(rooms.take(n as int).drop_last() =~= rooms.take(n - 1));
    }
}

/// An operation is carried out on the ids of its rooms: it is what they make of it, up to the
/// first room without a valid id.
pub proof fn ops_by_their_ids(view: ViewModel, op: OpModel)
    ensures
        after_op(view, op) == after_op_on_ids(
            view,
            op,
            room_ids(op.rooms.take(first_fault(op.rooms, 0) as int)),
            fault_in(op.rooms),
        ),
        first_fault(op.rooms, 0) <= op.rooms.len(),
        fault_in(op.rooms) is None <==> all_sound(op.rooms),
{
    first_fault_is_first(op.rooms, 0);
    rooms_under_their_ids(view.rooms, op.rooms, first_fault(op.rooms, 0));
    if all_sound(op.rooms) {
        assert(op.rooms.take(op.rooms.len() as int) =~= op.rooms);
    }
}

/// Operations are carried out to the last exactly if each of them can be: what the view holds
/// has no part in it.
pub proof fn after_ops_outcome(view: ViewModel, ops: Seq<OpModel>, from: nat)
    ensures
        after_ops(view, ops, from).1 is Ok <==> ops_sound(ops, from),
    decreases ops.len() - from,
{
    if from < ops.len() {
        let op = ops[from as int];
        first_fault_is_first(op.rooms, 0);
        assert(after_op(view, op).1 is Ok <==> op_sound(op));
        after_ops_outcome(after_op(view, op).0, ops, from + 1);
    }
}

/// Whether two views agree in all that a response does not touch.
pub open spec fn same_setup(a: ViewModel, b: ViewModel) -> bool {
    a == (ViewModel {
        rooms_count: a.rooms_count,
        rooms_list: a.rooms_list,
        rooms: a.rooms,
        ..b
    })
}

/// Operations keep the settings and the state of a view, the number of its places and its number
/// of rooms; an operation that fails, or that syncs no range, keeps the list.
pub proof fn ops_keep_setup(view: ViewModel, ops: Seq<OpModel>, from: nat)
    ensures
        same_setup(after_ops(view, ops, from).0, view),
        after_ops(view, ops, from).0.rooms_list.len() == view.rooms_list.len(),
        after_ops(view, ops, from).0.rooms_count == view.rooms_count,
        from < ops.len() && (after_op(view, ops[from as int]).1 is Err || ops[from as int].op
            != SlidingOp::Sync) ==> after_op(view, ops[from as int]).0.rooms_list
            == view.rooms_list,
    decreases ops.len() - from,
{
    if from < ops.len() {
        ops_keep_setup(after_op(view, ops[from as int]).0, ops, from + 1);
    }
}

/// An operation that syncs a range assigns the places of the range that it has rooms for, and
/// leaves the others as they are.
pub proof fn sync_changes_its_range_only(view: ViewModel, op: OpModel, place: int)
    requires
        0 <= place < view.rooms_list.len(),
        !(op.range.0@ <= place < op.range.0@ + op.rooms.len()),
    ensures
        after_op(view, op).0.rooms_list[place] == view.rooms_list[place],
{
}

/// A response never takes a place from a list, and gives it as many as there are rooms. What was
/// in a place is there still, unless an operation assigned it. The number of rooms is the known
/// one from then on, be it more or fewer than before.
pub proof fn response_makes_room(view: ViewModel, count: u32, ops: Seq<OpModel>)
    requires
        view.rooms_list.len() <= u32::MAX,
    ensures
        after_response(view, count, ops).0.rooms_list.len() == if count > view.rooms_list.len() {
            count as nat
        } else {
            view.rooms_list.len()
        },
        after_response(view, count, ops).0.rooms_count == Some(count),
        same_setup(after_response(view, count, ops).0, view),
        forall|i: int|
            0 <= i < view.rooms_list.len() ==> #[trigger] grown(view, count).rooms_list[i]
                == view.rooms_list[i],
{
    ops_keep_setup(grown(view, count), ops, 0);
}

/// Whether what a view holds of its rooms fits together: each room in the list is in the map, and
/// each room in the map is under its own id, which is a room id.
pub open spec fn consistent(view: ViewModel) -> bool {
    &&& forall|i: int|
        0 <= i < view.rooms_list.len() && (#[trigger] view.rooms_list[i]) is Some
            ==> view.rooms.contains_key(view.rooms_list[i]->0)
    &&& forall|id: Seq<char>| #[trigger]
        view.rooms.contains_key(id) ==> view.rooms[id].room_id == Some(id) && room_id_fault(
            id,
        ) is None
}

/// Rooms that are put in are in the map, and what was in it is in it still.
proof fn with_rooms_contains(map: Map<Seq<char>, RoomModel>, rooms: Seq<RoomModel>)
    ensures
        forall|i: int|
            0 <= i < rooms.len() ==> with_rooms(map, rooms).contains_key(
                (#[trigger] rooms[i]).room_id->0,
            ),
        forall|id: Seq<char>| #[trigger]
            map.contains_key(id) ==> with_rooms(map, rooms).contains_key(id),
        forall|id: Seq<char>| #[trigger]
            with_rooms(map, rooms).contains_key(id) ==> (map.contains_key(id) && with_rooms(
                map,
                rooms,
            )[id] == map[id]) || exists|i: int|
                0 <= i < rooms.len() && id == (#[trigger] rooms[i]).room_id->0 && with_rooms(
                    map,
                    rooms,
                )[id] == rooms[i],
    decreases rooms.len(),
{
    if rooms.len() > 0 {
        let rest = rooms.drop_last();
        with_rooms_contains(map, rest);
        assert forall|i: int| 0 <= i < rooms.len() implies with_rooms(map, rooms).contains_key(
            (#[trigger] rooms[i]).room_id->0,
        ) by {
            if i < rest.len() {
                assert(rest[i] == rooms[i]);
            }
        }
        assert forall|id: Seq<char>| #[trigger] with_rooms(map, rooms).contains_key(id) implies (
        map.contains_key(id) && with_rooms(map, rooms)[id] == map[id]) || exists|i: int|
            0 <= i < rooms.len() && id == (#[trigger] rooms[i]).room_id->0 && with_rooms(
                map,
                rooms,
            )[id] == rooms[i] by {
            if id == rooms.last().room_id->0 {
                assert(rooms[rooms.len() - 1] == rooms.last());
            } else {
                assert(with_rooms(map, rest).contains_key(id));
                assert(with_rooms(map, rooms)[id] == with_rooms(map, rest)[id]);
                if !(map.contains_key(id) && with_rooms(map, rest)[id] == map[id]) {
                    let i = choose|i: int|
                        0 <= i < rest.len() && id == (#[trigger] rest[i]).room_id->0 && with_rooms(
                            map,
                            rest,
                        )[id] == rest[i];
                    assert(rooms[i] == rest[i]);
                }
            }
        }
    }
}

/// An operation keeps a view consistent, also if it fails.
proof fn op_keeps_consistent(view: ViewModel, op: OpModel)
    requires
        consistent(view),
    ensures
        consistent(after_op(view, op).0),
{
    first_fault_is_first(op.rooms, 0);
    let fault = first_fault(op.rooms, 0);
    let seen = op.rooms.take(fault as int);
    let after = after_op(view, op).0;
    with_rooms_contains(view.rooms, seen);
    assert(after.rooms == with_rooms(view.rooms, seen));
    assert forall|id: Seq<char>| #[trigger] after.rooms.contains_key(id) implies
        after.rooms[id].room_id == Some(id) && room_id_fault(id) is None by {
        if !(view.rooms.contains_key(id) && after.rooms[id] == view.rooms[id]) {
            let i = choose|i: int|
                0 <= i < seen.len() && id == (#[trigger] seen[i]).room_id->0 && after.rooms[id]
                    == seen[i];
            assert(seen[i] == op.rooms[i]);
            assert(room_fault(op.rooms[i]) is None);
        }
    }
    assert forall|i: int|
        0 <= i < after.rooms_list.len() && (#[trigger] after.rooms_list[i]) is Some implies
        after.rooms.contains_key(after.rooms_list[i]->0) by {
        if after.rooms_list[i] != view.rooms_list[i] {
            let k = i - op.range.0@;
            assert(seen[k] == op.rooms[k]);
        }
    }
}

/// Operations keep a view consistent, also if one fails.
proof fn ops_keep_consistent(view: ViewModel, ops: Seq<OpModel>, from: nat)
    requires
        consistent(view),
    ensures
        consistent(after_ops(view, ops, from).0),
    decreases ops.len() - from,
{
    if from < ops.len() {
        op_keeps_consistent(view, ops[from as int]);
        ops_keep_consistent(after_op(view, ops[from as int]).0, ops, from + 1);
    }
}

/// A view that is consistent stays so whatever a response brings, and whether or not the
/// response can be taken in.
pub proof fn response_keeps_consistent(view: ViewModel, count: u32, ops: Seq<OpModel>)
    requires
        consistent(view),
    ensures
        consistent(after_response(view, count, ops).0),
{
    let wide = grown(view, count);
    assert forall|i: int|
        0 <= i < wide.rooms_list.len() && (#[trigger] wide.rooms_list[i]) is Some implies
        wide.rooms.contains_key(wide.rooms_list[i]->0) by {
        if i < view.rooms_list.len() {
            assert(wide.rooms_list[i] == view.rooms_list[i]);
        }
    }
    ops_keep_consistent(wide, ops, 0);
}

/// A view that was built without rooms is consistent, and making a request keeps a view so.
pub proof fn views_start_consistent(
    builder: ViewBuilderModel,
    view: ViewModel,
    generator: InnerSlidingSyncViewRequestGenerator,
)
    ensures
        builder.rooms_list is None && builder.rooms is None ==> consistent(built(builder)),
        consistent(view) ==> consistent(generator_step(view, generator).view),
{
    assert(map_of(Seq::empty()) =~= Map::empty());
}

/// In a consistent view no filled place of the list is passed over when the rooms are read.
pub proof fn filled_places_are_read(view: ViewModel, place: int)
    requires
        consistent(view),
        0 <= place < view.rooms_list.len(),
        view.rooms_list[place] is Some,
    ensures
        room_of(view, view.rooms_list[place]) is Some,
        room_of(view, view.rooms_list[place])->0.room_id == view.rooms_list[place],
{
}

/// If rooms with the same id are the same room, each is what the map holds under its id.
proof fn with_rooms_holds(map: Map<Seq<char>, RoomModel>, rooms: Seq<RoomModel>, i: int)
    requires
        0 <= i < rooms.len(),
        forall|j: int, k: int|
            0 <= j < rooms.len() && 0 <= k < rooms.len() && (#[trigger] rooms[j]).room_id->0 == (
            #[trigger] rooms[k]).room_id->0 ==> rooms[j] == rooms[k],
    ensures
        with_rooms(map, rooms).contains_key(rooms[i].room_id->0),
        with_rooms(map, rooms)[rooms[i].room_id->0] == rooms[i],
    decreases rooms.len(),
{
    let rest = rooms.drop_last();
    assert(rooms[rooms.len() - 1] == rooms.last());
    if rooms[i].room_id->0 != rooms.last().room_id->0 {
        assert forall|j: int, k: int|
            0 <= j < rest.len() && 0 <= k < rest.len() && (#[trigger] rest[j]).room_id->0 == (
            #[trigger] rest[k]).room_id->0 implies rest[j] == rest[k] by {
            assert(rest[j] == rooms[j] && rest[k] == rooms[k]);
        }
        assert(rest[i] == rooms[i]);
        with_rooms_holds(map, rest, i);
    }
}

/// What is found in a sequence begins with what is found in its beginning.
proof fn filter_map_begins<A, B>(s: Seq<A>, f: spec_fn(A) -> Option<B>, n: int)
    requires
        0 <= n <= s.len(),
    ensures
        s.filter_map(f).len() >= s.take(n).filter_map(f).len(),
        s.filter_map(f).take(s.take(n).filter_map(f).len() as int) == s.take(n).filter_map(f),
    decreases s.len(),
{
    if n == s.len() {
        assert(s.take(n) =~= s);
        assert(s.filter_map(f).take(s.filter_map(f).len() as int) =~= s.filter_map(f));
    } else {
        let rest = s.drop_last();
        filter_map_begins(rest, f, n);
        assert(rest.take(n) =~= s.take(n));
        let found = s.take(n).filter_map(f).len() as int;
        assert(s.filter_map(f).take(found) =~= rest.filter_map(f).take(found));
    }
}

/// If something is found for each element, all of it is found, in order.
proof fn filter_map_finds_all<A, B>(s: Seq<A>, f: spec_fn(A) -> Option<B>, all: Seq<B>)
    requires
        all.len() == s.len(),
        forall|i: int| 0 <= i < s.len() ==> f(#[trigger] s[i]) == Some(all[i]),
    ensures
        s.filter_map(f) == all,
    decreases s.len(),
{
    if s.len() > 0 {
        let rest = s.drop_last();
        assert forall|i: int| 0 <= i < rest.len() implies f(#[trigger] rest[i]) == Some(
            all.drop_last()[i],
        ) by {
            assert(rest[i] == s[i]);
        }
        filter_map_finds_all(rest, f, all.drop_last());
        assert(s.last() == s[s.len() - 1]);
        assert(s.filter_map(f) =~= all);
    } else {
        assert(s.filter_map(f) =~= all);
    }
}

/// Whether a view has the rooms in its places from `start` on.
pub open spec fn has_rooms_at(view: ViewModel, start: nat, rooms: Seq<RoomModel>) -> bool {
    &&& rooms.len() > 0 ==> start + rooms.len() <= view.rooms_list.len()
    &&& forall|i: int|
        0 <= i < rooms.len() ==> (#[trigger] rooms[i]).room_id is Some && view.rooms_list[start + i]
            == rooms[i].room_id && view.rooms.contains_key(rooms[i].room_id->0)
            && view.rooms[rooms[i].room_id->0] == rooms[i]
}

/// Whether an operation leaves the rooms in the places from `start` on as they are: where it
/// assigns one of the places it assigns the same room, and what it tells of one of the rooms is
/// nothing new.
pub open spec fn leaves_in_place(op: OpModel, start: nat, rooms: Seq<RoomModel>) -> bool {
    &&& op.op == SlidingOp::Sync && op_sound(op) ==> forall|i: int, j: int|
        0 <= i < op.rooms.len() && 0 <= j < rooms.len() && op.range.0@ + i == start + j ==> (
        #[trigger] op.rooms[i]).room_id == (#[trigger] rooms[j]).room_id
    &&& forall|i: int, j: int|
        0 <= i < first_fault(op.rooms, 0) && 0 <= j < rooms.len() && (
        #[trigger] op.rooms[i]).room_id == (#[trigger] rooms[j]).room_id ==> op.rooms[i] == rooms[j]
}

/// Whether the operations before the one at `k` can be carried out, so that it has its turn.
pub open spec fn reached(ops: Seq<OpModel>, k: int) -> bool {
    forall|i: int| 0 <= i < k ==> op_sound(#[trigger] ops[i])
}

/// Whether rooms with the same id are the same room.
pub open spec fn told_once(rooms: Seq<RoomModel>) -> bool {
    forall|j: int, k: int|
        0 <= j < rooms.len() && 0 <= k < rooms.len() && (#[trigger] rooms[j]).room_id == (
        #[trigger] rooms[k]).room_id ==> rooms[j] == rooms[k]
}

/// An operation that syncs a range leaves its rooms in the places of the range.
proof fn sync_puts_rooms(view: ViewModel, op: OpModel)
    requires
        op.op == SlidingOp::Sync,
        op_sound(op),
        op_fits(view.rooms_list.len(), op),
        told_once(op.rooms),
    ensures
        has_rooms_at(after_op(view, op).0, op.range.0@, op.rooms),
{
    let after = after_op(view, op).0;
    let rooms = op.rooms;
    first_fault_is_first(rooms, 0);
    assert(rooms.take(rooms.len() as int) =~= rooms);
    assert forall|j: int, k: int|
        0 <= j < rooms.len() && 0 <= k < rooms.len() && (#[trigger] rooms[j]).room_id->0 == (
        #[trigger] rooms[k]).room_id->0 implies rooms[j] == rooms[k] by {
        assert(room_fault(rooms[j]) is None && room_fault(rooms[k]) is None);
    }
    assert forall|i: int| 0 <= i < rooms.len() implies (#[trigger] rooms[i]).room_id is Some
        && after.rooms_list[op.range.0@ + i] == rooms[i].room_id && after.rooms.contains_key(
        rooms[i].room_id->0,
    ) && after.rooms[rooms[i].room_id->0] == rooms[i] by {
        assert(room_fault(rooms[i]) is None);
        assert(room_ids(rooms)[i] == rooms[i].room_id->0);
        with_rooms_holds(view.rooms, rooms, i);
    }
}

/// Rooms that an operation leaves in place are there after it.
proof fn op_leaves_rooms(view: ViewModel, op: OpModel, start: nat, rooms: Seq<RoomModel>)
    requires
        has_rooms_at(view, start, rooms),
        leaves_in_place(op, start, rooms),
    ensures
        has_rooms_at(after_op(view, op).0, start, rooms),
{
    let after = after_op(view, op).0;
    let seen = op.rooms.take(first_fault(op.rooms, 0) as int);
    first_fault_is_first(op.rooms, 0);
    with_rooms_contains(view.rooms, seen);
    assert forall|i: int| 0 <= i < rooms.len() implies (#[trigger] rooms[i]).room_id is Some
        && after.rooms_list[start + i] == rooms[i].room_id && after.rooms.contains_key(
        rooms[i].room_id->0,
    ) && after.rooms[rooms[i].room_id->0] == rooms[i] by {
        let id = rooms[i].room_id->0;
        assert(view.rooms.contains_key(id));
        assert(with_rooms(view.rooms, seen).contains_key(id));
        if with_rooms(view.rooms, seen)[id] != view.rooms[id] {
            let k = choose|k: int|
                0 <= k < seen.len() && id == (#[trigger] seen[k]).room_id->0 && with_rooms(
                    view.rooms,
                    seen,
                )[id] == seen[k];
            assert(seen[k] == op.rooms[k]);
            assert(room_fault(op.rooms[k]) is None);
        }
        let at = start + i - op.range.0@;
        if 0 <= at < op.rooms.len() && op.op == SlidingOp::Sync && op_sound(op) {
            assert(room_fault(op.rooms[at]) is None);
            assert(op.rooms[at].room_id == rooms[i].room_id);
            assert(room_ids(op.rooms)[at] == op.rooms[at].room_id->0);
        }
    }
}

/// Rooms that operations leave in place are there after them.
proof fn ops_leave_rooms(
    view: ViewModel,
    ops: Seq<OpModel>,
    from: nat,
    start: nat,
    rooms: Seq<RoomModel>,
)
    requires
        has_rooms_at(view, start, rooms),
        reached(ops, from as int),
        forall|i: int|
            from <= i < ops.len() && reached(ops, i) ==> leaves_in_place(
                #[trigger] ops[i],
                start,
                rooms,
            ),
    ensures
        has_rooms_at(after_ops(view, ops, from).0, start, rooms),
    decreases ops.len() - from,
{
    if from < ops.len() {
        op_leaves_rooms(view, ops[from as int], start, rooms);
        if after_op(view, ops[from as int]).1 is Ok {
            first_fault_is_first(ops[from as int].rooms, 0);
            ops_leave_rooms(after_op(view, ops[from as int]).0, ops, from + 1, start, rooms);
        }
    }
}

/// Operations leave the rooms of one that syncs a range in its places, if it is reached and the
/// later ones leave them there.
proof fn ops_put_rooms(view: ViewModel, ops: Seq<OpModel>, from: nat, k: int)
    requires
        from <= k < ops.len(),
        ops_fit(view.rooms_list.len(), ops, from),
        ops[k].op == SlidingOp::Sync,
        told_once(ops[k].rooms),
        reached(ops, k + 1),
        forall|i: int|
            k < i < ops.len() && reached(ops, i) ==> leaves_in_place(
                #[trigger] ops[i],
                ops[k].range.0@,
                ops[k].rooms,
            ),
    ensures
        has_rooms_at(after_ops(view, ops, from).0, ops[k].range.0@, ops[k].rooms),
    decreases k - from,
{
    let op = ops[from as int];
    let next = after_op(view, op).0;
    if from < k {
        ops_put_rooms(next, ops, from + 1, k);
    } else {
        sync_puts_rooms(view, op);
        ops_leave_rooms(next, ops, from + 1, op.range.0@, op.rooms);
    }
}

/// Rooms that a view has in the places from `start` on are what is read from there.
pub proof fn rooms_in_place_are_read(view: ViewModel, start: nat, rooms: Seq<RoomModel>)
    requires
        has_rooms_at(view, start, rooms),
    ensures
        at_most(known_rooms(view, start), rooms.len()) == rooms,
{
    let n = rooms.len();
    let f = |e: Option<Seq<char>>| room_of(view, e);
    let entries = entries_from(view.rooms_list, start);
    assert(known_rooms(view, start) == entries.filter_map(f));
    if n > 0 {
        let head = entries.take(n as int);
        assert forall|i: int| 0 <= i < n implies f(#[trigger] head[i]) == Some(rooms[i]) by {
            assert(head[i] == view.rooms_list[start + i]);
        }
        filter_map_finds_all(head, f, rooms);
        filter_map_begins(entries, f, n as int);
    }
    assert(at_most(entries.filter_map(f), n) =~= rooms);
}

/// The rooms that a response syncs are what is read back from where it put them. Take an
/// operation of the response that syncs a range, such that it and the operations before it can be
/// carried out and those that are carried out after it leave its rooms in place: reading as many
/// rooms as it brought, from the start of its range on, gives these rooms, in order.
pub proof fn synced_rooms_are_read_back(view: ViewModel, count: u32, ops: Seq<OpModel>, k: int)
    requires
        0 <= k < ops.len(),
        ops_fit(grown(view, count).rooms_list.len(), ops, 0),
        ops[k].op == SlidingOp::Sync,
        told_once(ops[k].rooms),
        reached(ops, k + 1),
        forall|i: int|
            k < i < ops.len() && reached(ops, i) ==> leaves_in_place(
                #[trigger] ops[i],
                ops[k].range.0@,
                ops[k].rooms,
            ),
    ensures
        at_most(
            known_rooms(after_response(view, count, ops).0, ops[k].range.0@),
            ops[k].rooms.len(),
        ) == ops[k].rooms,
{
    ops_put_rooms(grown(view, count), ops, 0, k);
    rooms_in_place_are_read(
        after_response(view, count, ops).0,
        ops[k].range.0@,
        ops[k].rooms,
    );
}

/// How far a view has come.
pub open spec fn progress(state: SlidingSyncState) -> nat {
    match state {
        SlidingSyncState::Cold => 0,
        SlidingSyncState::Preload => 1,
        SlidingSyncState::CatchingUp => 2,
        SlidingSyncState::Live => 3,
    }
}

/// Making a request changes nothing of a view but its state, and that never goes back.
pub proof fn requests_move_the_state_on(
    view: ViewModel,
    generator: InnerSlidingSyncViewRequestGenerator,
)
    ensures
        progress(generator_step(view, generator).view.state) >= progress(view.state),
        generator_step(view, generator).view == (ViewModel {
            state: generator_step(view, generator).view.state,
            ..view
        }),
{
}

/// The first request of a cold view that syncs in full, and whose number of rooms is not known
/// yet, preloads; the next ones catch up; and once every known room has been asked for the view
/// is live, however few requests that took.
pub proof fn full_sync_lifetime(view: ViewModel, position: u32, batch_size: u32)
    ensures
        ({
            let after = generator_step(
                view,
                InnerSlidingSyncViewRequestGenerator::FullSync(position, batch_size),
            ).view.state;
            &&& view.state == SlidingSyncState::Cold && view.rooms_count is None ==> after
                == SlidingSyncState::Preload
            &&& view.state == SlidingSyncState::Preload && !caught_up(view, position) ==> after
                == SlidingSyncState::CatchingUp
            &&& view.state == SlidingSyncState::CatchingUp && !caught_up(view, position) ==> after
                == SlidingSyncState::CatchingUp
            &&& view.state != SlidingSyncState::Cold && caught_up(view, position) ==> after
                == SlidingSyncState::Live
            &&& view.state == SlidingSyncState::Live ==> after == SlidingSyncState::Live
        }),
{
}

/// A generator that is live stays live, and its requests leave the view as it is.
pub proof fn live_stays_live(view: ViewModel)
    ensures
        generator_step(view, InnerSlidingSyncViewRequestGenerator::Live) == (GeneratorStep {
            view,
            generator: InnerSlidingSyncViewRequestGenerator::Live,
            request: request_for(view, view.ranges),
        }),
{
}

/// Whether the next request of a generator is for the ranges of its view.
pub open spec fn asks_for_ranges(
    view: ViewModel,
    generator: InnerSlidingSyncViewRequestGenerator,
) -> bool {
    generator matches InnerSlidingSyncViewRequestGenerator::FullSync(position, _) ==> caught_up(
        view,
        position,
    )
}

/// The ranges that are set are what the next request for ranges asks for, whatever they were
/// before, and also where the generator was made before they were set; a range that is added is
/// asked for last. Nothing else of the request changes.
pub proof fn ranges_apply_on_the_next_request(
    view: ViewModel,
    generator: InnerSlidingSyncViewRequestGenerator,
    ranges: Seq<(UInt, UInt)>,
    range: (UInt, UInt),
)
    requires
        asks_for_ranges(view, generator),
    ensures
        generator_step(ViewModel { ranges, ..view }, generator).request == (RequestListModel {
            ranges,
            ..generator_step(view, generator).request
        }),
        generator_step(
            ViewModel { ranges: view.ranges.push(range), ..view },
            generator,
        ).request.ranges == view.ranges.push(range),
{
}

/// New ranges reach a clone of a view that was made before they were set: it is a clone still of
/// the view as setting the ranges leaves it, and its live request, which is `request_for` the
/// ranges of that view, asks for the new ones.
pub proof fn ranges_reach_clones(
    before: SlidingSyncView,
    after: SlidingSyncView,
    clone: SharedView,
    ranges: Seq<(UInt, UInt)>,
)
    requires
        before.watchers().clones.contains(clone),
        after@ == (ViewModel { ranges, ..before@ }),
        after.watchers() == before.watchers(),
    ensures
        after.watchers().clones.contains(clone),
        request_for(after@, after@.ranges) == (RequestListModel {
            ranges,
            ..request_for(before@, before@.ranges)
        }),
{
}

/// A view in selective mode asks for its ranges from the first request on.
pub proof fn selective_views_ask_for_their_ranges(view: ViewModel)
    requires
        view.sync_mode == SlidingSyncMode::Selective,
    ensures
        generator_step(view, first_generator(view)).request.ranges == view.ranges,
        generator_step(view, first_generator(view)).generator == first_generator(view),
{
}

/// Where a generator is after `n` requests, if its view was `views[i]` when it made the request
/// number `i`. Between two requests a view changes as responses come in.
pub open spec fn generator_after(
    views: Seq<ViewModel>,
    generator: InnerSlidingSyncViewRequestGenerator,
    n: nat,
) -> InnerSlidingSyncViewRequestGenerator
    decreases n,
{
    if n == 0 {
        generator
    } else {
        generator_step(
            views[n - 1],
            generator_after(views, generator, (n - 1) as nat),
        ).generator
    }
}

/// Whether a full sync in batches of `batch_size` had rooms left to ask for at each of the first
/// `n` requests.
pub open spec fn goes_on(views: Seq<ViewModel>, batch_size: u32, n: nat) -> bool {
    forall|i: int| 0 <= i < n ==> !caught_up(#[trigger] views[i], (i * batch_size) as u32)
}

/// A full sync asks for batch after batch without a gap, whatever responses bring between the
/// requests: as long as there are rooms left to ask for, the request number `n`, counted from
/// zero, is for the batch that starts `n` batches from the beginning.
pub proof fn batches_follow_each_other(views: Seq<ViewModel>, batch_size: u32, n: nat)
    requires
        n < views.len(),
        goes_on(views, batch_size, n + 1),
        (n + 1) * batch_size <= u32::MAX,
    ensures
        ({
            let start = InnerSlidingSyncViewRequestGenerator::FullSync(0, batch_size);
            let generator = generator_after(views, start, n);
            &&& generator == InnerSlidingSyncViewRequestGenerator::FullSync(
                (n * batch_size) as u32,
                batch_size,
            )
            &&& generator_ready(views[n as int], generator)
            &&& generator_step(views[n as int], generator).request == request_for(
                views[n as int],
                seq![
                    (
                        UInt::of((n * batch_size) as u32),
                        UInt::of(((n + 1) * batch_size) as u32),
                    ),
                ],
            )
        }),
    decreases n,
{
    assert((n + 1) * batch_size == n * batch_size + batch_size) by (nonlinear_arith);
    assert(!caught_up(views[n as int], (n * batch_size) as u32));
    if n > 0 {
        assert((n - 1) * batch_size + batch_size == n * batch_size) by (nonlinear_arith);
        assert((n - 1) * batch_size >= 0) by (nonlinear_arith)
            requires
                n >= 1,
        ;
        batches_follow_each_other(views, batch_size, (n - 1) as nat);
    } else {
        assert(n * batch_size == 0) by (nonlinear_arith)
            requires
                n == 0,
        ;
    }
}

/// A full sync asks for every room: as long as it is known to be there, or no number of rooms is
/// known, the room in a place of the list is asked for in the request for its batch.
pub proof fn every_room_is_asked_for(views: Seq<ViewModel>, batch_size: u32, place: nat)
    requires
        batch_size > 0,
        place / (batch_size as nat) < views.len(),
        forall|i: int|
            0 <= i <= place / (batch_size as nat) ==> ((#[trigger] views[i]).rooms_count matches Some(
                count,
            ) ==> place < count),
        (place / (batch_size as nat) + 1) * batch_size <= u32::MAX,
    ensures
        ({
            let n = place / (batch_size as nat);
            let start = InnerSlidingSyncViewRequestGenerator::FullSync(0, batch_size);
            let request = generator_step(
                views[n as int],
                generator_after(views, start, n),
            ).request;
            &&& request.ranges.len() == 1
            &&& request.ranges[0].0@ <= place < request.ranges[0].1@
        }),
{
    let n = place / (batch_size as nat);
    assert(n * batch_size <= place < (n + 1) * batch_size) by (nonlinear_arith)
        requires
            batch_size > 0,
            n == place / (batch_size as nat),
    ;
    assert forall|i: int| 0 <= i < n + 1 implies !caught_up(
        #[trigger] views[i],
        (i * batch_size) as u32,
    ) by {
        assert(0 <= i * batch_size <= n * batch_size) by (nonlinear_arith)
            requires
                0 <= i <= n,
        ;
    }
    batches_follow_each_other(views, batch_size, n);
    uint_of_value((n * batch_size) as u32);
    uint_of_value(((n + 1) * batch_size) as u32);
}

/// A full sync ends: from the first request at which no room is left to ask for, which makes a
/// view that was on its way live, all requests are for the ranges of the view.
pub proof fn full_sync_ends(views: Seq<ViewModel>, batch_size: u32, n: nat, m: nat)
    requires
        n <= m < views.len(),
        goes_on(views, batch_size, n),
        caught_up(views[n as int], (n * batch_size) as u32),
        n * batch_size <= u32::MAX,
    ensures
        ({
            let start = InnerSlidingSyncViewRequestGenerator::FullSync(0, batch_size);
            let step = generator_step(views[m as int], generator_after(views, start, m));
            &&& step.generator == InnerSlidingSyncViewRequestGenerator::Live
            &&& step.request == request_for(views[m as int], views[m as int].ranges)
            &&& m == n && views[n as int].state != SlidingSyncState::Cold ==> step.view.state
                == SlidingSyncState::Live
        }),
    decreases m,
{
    if m > n {
        full_sync_ends(views, batch_size, n, (m - 1) as nat);
    } else if n > 0 {
        assert((n - 1) * batch_size + batch_size == n * batch_size) by (nonlinear_arith);
        batches_follow_each_other(views, batch_size, (n - 1) as nat);
    } else {
        assert(n * batch_size == 0) by (nonlinear_arith)
            requires
                n == 0,
        ;
    }
}

/// Whether nothing but its requests moves the state of a view in a full sync: `views[i]` is the
/// view when the request number `i` is made.
pub open spec fn moved_by_requests_only(views: Seq<ViewModel>, batch_size: u32) -> bool {
    let start = InnerSlidingSyncViewRequestGenerator::FullSync(0, batch_size);
    forall|i: int|
        0 <= i < views.len() - 1 ==> (#[trigger] views[i + 1]).state == generator_step(
            views[i],
            generator_after(views, start, i as nat),
        ).view.state
}

/// The lifetime of a view that syncs in full, from its first request on, while responses come in
/// between: it is in `Preload` after the first request, in `CatchingUp` after each of the next
/// ones, and in `Live` from the request on at which no room is left to ask for.
pub proof fn full_sync_states(views: Seq<ViewModel>, batch_size: u32, n: nat, m: nat)
    requires
        n <= m < views.len(),
        views[0].state == SlidingSyncState::Cold,
        views[0].rooms_count is None,
        moved_by_requests_only(views, batch_size),
        goes_on(views, batch_size, n),
        n * batch_size <= u32::MAX,
        m > n ==> caught_up(views[n as int], (n * batch_size) as u32),
    ensures
        views[m as int].state == if m > n {
            SlidingSyncState::Live
        } else if n == 0 {
            SlidingSyncState::Cold
        } else if n == 1 {
            SlidingSyncState::Preload
        } else {
            SlidingSyncState::CatchingUp
        },
    decreases m,
{
    let start = InnerSlidingSyncViewRequestGenerator::FullSync(0, batch_size);
    if m > 0 {
        let before = views[m - 1];
        assert(views[(m - 1) + 1].state == generator_step(
            before,
            generator_after(views, start, (m - 1) as nat),
        ).view.state);
        if m > n {
            full_sync_states(views, batch_size, n, (m - 1) as nat);
            full_sync_ends(views, batch_size, n, (m - 1) as nat);
        } else {
            assert((n - 1) * batch_size + batch_size == n * batch_size) by (nonlinear_arith);
            full_sync_states(views, batch_size, (n - 1) as nat, (n - 1) as nat);
            batches_follow_each_other(views, batch_size, (n - 1) as nat);
        }
    }
}

/// The copy of a view has its settings, and none of its state: it is cold, and knows of no room.
/// It is its own copy.
pub proof fn copies_keep_settings_only(view: ViewModel)
    ensures
        built(settings_of(view)) == (ViewModel {
            state: SlidingSyncState::Cold,
            rooms_count: None,
            rooms_list: Seq::empty(),
            rooms: Map::empty(),
            ..view
        }),
        built(settings_of(built(settings_of(view)))) == built(settings_of(view)),
        consistent(built(settings_of(view))),
{
    assert(map_of(Seq::empty()) =~= Map::empty());
}

} // verus!
