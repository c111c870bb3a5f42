//! What responses do to a view, told by what was in the view and what came in, and what is read
//! back from a view.
use vstd::prelude::*;
use crate::laws::first_fault_is_first;
use crate::model::{
    after_op, after_op_on_ids, after_ops, after_response, all_sound, at_most, entries_from,
    first_fault, grown, known_rooms, map_of, op_fits, op_sound, ops_fit, room_fault, room_of,
    with_rooms, with_rooms_under, ViewModel,
};
use crate::outside::room_id_fault;
use crate::types::{OpModel, RoomModel, SlidingOp, SyncError};

verus! {

/// Whether a room has an id, and one that is a room id.
pub open spec fn has_valid_id(room: RoomModel) -> bool {
    room.room_id matches Some(id) && room_id_fault(id) is None
}

/// Whether the first `n` rooms have valid ids and the one after them, if there is one, has not.
pub open spec fn valid_up_to(rooms: Seq<RoomModel>, n: nat) -> bool {
    &&& n <= rooms.len()
    &&& forall|i: int| 0 <= i < n ==> has_valid_id(#[trigger] rooms[i])
    &&& n < rooms.len() ==> !has_valid_id(rooms[n as int])
}

/// There is one number up to which rooms have valid ids.
proof fn fault_is_where_ids_end(rooms: Seq<RoomModel>, n: nat)
    requires
        valid_up_to(rooms, n),
    ensures
        first_fault(rooms, 0) == n,
{
    first_fault_is_first(rooms, 0);
    let fault = first_fault(rooms, 0);
    if fault < n {
        assert(has_valid_id(rooms[fault as int]));
    }
    if n < fault {
        assert(room_fault(rooms[n as int]) is None);
    }
}

/// There is always such a number.
pub proof fn ids_end_somewhere(rooms: Seq<RoomModel>)
    ensures
        exists|n: nat| valid_up_to(rooms, n),
{
    first_fault_is_first(rooms, 0);
    let n = first_fault(rooms, 0);
    assert forall|i: int| 0 <= i < n implies has_valid_id(#[trigger] rooms[i]) by {
        assert(room_fault(rooms[i]) is None);
    }
    assert(valid_up_to(rooms, n));
}

/// Of the rooms with one id the last is what is held.
proof fn last_room_is_held(map: Map<Seq<char>, RoomModel>, rooms: Seq<RoomModel>, j: int)
    requires
        0 <= j < rooms.len(),
        forall|k: int|
            j < k < rooms.len() ==> (#[trigger] rooms[k]).room_id->0 != rooms[j].room_id->0,
    ensures
        with_rooms(map, rooms).contains_key(rooms[j].room_id->0),
        with_rooms(map, rooms)[rooms[j].room_id->0] == rooms[j],
    decreases rooms.len(),
{
    let rest = rooms.drop_last();
    if j < rooms.len() - 1 {
        assert(rooms[rooms.len() - 1].room_id->0 != rooms[j].room_id->0);
        assert(rest[j] == rooms[j]);
        assert forall|k: int| j < k < rest.len() implies (#[trigger] rest[k]).room_id->0
            != rest[j].room_id->0 by {
            assert(rest[k] == rooms[k]);
        }
        last_room_is_held(map, rest, j);
    }
}

/// What is held under an id that no room has stays.
proof fn other_ids_are_kept(map: Map<Seq<char>, RoomModel>, rooms: Seq<RoomModel>, id: Seq<char>)
    requires
        forall|i: int| 0 <= i < rooms.len() ==> (#[trigger] rooms[i]).room_id->0 != id,
    ensures
        with_rooms(map, rooms).contains_key(id) == map.contains_key(id),
        map.contains_key(id) ==> with_rooms(map, rooms)[id] == map[id],
    decreases rooms.len(),
{
    if rooms.len() > 0 {
        let rest = rooms.drop_last();
        assert(rooms[rooms.len() - 1].room_id->0 != id);
        assert forall|i: int| 0 <= i < rest.len() implies (#[trigger] rest[i]).room_id->0
            != id by {
            assert(rest[i] == rooms[i]);
        }
        other_ids_are_kept(map, rest, id);
    }
}

/// The rooms of an operation of any kind replace what was known of them: whatever the view held,
/// each room before the first without a valid id is held under its id afterwards, of several with
/// the same id the last.
pub proof fn rooms_replace_what_was_known(view: ViewModel, op: OpModel, n: nat, j: int)
    requires
        valid_up_to(op.rooms, n),
        0 <= j < n,
        forall|k: int| j < k < n ==> (#[trigger] op.rooms[k]).room_id != op.rooms[j].room_id,
    ensures
        after_op(view, op).0.rooms.contains_key(op.rooms[j].room_id->0),
        after_op(view, op).0.rooms[op.rooms[j].room_id->0] == op.rooms[j],
{
    fault_is_where_ids_end(op.rooms, n);
    let seen = op.rooms.take(n as int);
    assert(has_valid_id(op.rooms[j]));
    assert forall|k: int| j < k < seen.len() implies (#[trigger] seen[k]).room_id->0
        != seen[j].room_id->0 by {
        assert(seen[k] == op.rooms[k]);
        assert(has_valid_id(op.rooms[k]));
    }
    assert(seen[j] == op.rooms[j]);
    last_room_is_held(view.rooms, seen, j);
}

/// What an operation does not tell of stays as it was: nothing comes in or goes under an id that
/// none of the rooms before the first without a valid id has.
pub proof fn other_rooms_stay_known(view: ViewModel, op: OpModel, n: nat, id: Seq<char>)
    requires
        valid_up_to(op.rooms, n),
        forall|i: int| 0 <= i < n ==> (#[trigger] op.rooms[i]).room_id != Some(id),
    ensures
        after_op(view, op).0.rooms.contains_key(id) == view.rooms.contains_key(id),
        view.rooms.contains_key(id) ==> after_op(view, op).0.rooms[id] == view.rooms[id],
{
    fault_is_where_ids_end(op.rooms, n);
    let seen = op.rooms.take(n as int);
    assert forall|i: int| 0 <= i < seen.len() implies (#[trigger] seen[i]).room_id->0 != id by {
        assert(seen[i] == op.rooms[i]);
        assert(has_valid_id(op.rooms[i]));
    }
    other_ids_are_kept(view.rooms, seen, id);
}

/// An operation fails for a room without a valid id, and says what is wrong with the first such
/// room; one that syncs a range fails also if the range starts past 32 bits. Else it is carried
/// out.
pub proof fn operations_fail_for_a_reason(view: ViewModel, op: OpModel, n: nat)
    requires
        valid_up_to(op.rooms, n),
    ensures
        after_op(view, op).1 == if n < op.rooms.len() {
            match op.rooms[n as int].room_id {
                None => Err::<(), SyncError>(SyncError::MissingRoomId),
                Some(id) => Err(SyncError::InvalidRoomId(room_id_fault(id)->0)),
            }
        } else if op.op == SlidingOp::Sync && op.range.0@ > 0xFFFF_FFFF {
            Err(SyncError::RangeTooLarge)
        } else {
            Ok(())
        },
{
    fault_is_where_ids_end(op.rooms, n);
}

/// An operation assigns the places of its range that it has rooms for, with the ids of these
/// rooms in order, if it syncs and is carried out; every other place is left alone, there are as
/// many places as before, and nothing of the view but its list and its rooms changes.
pub proof fn operations_assign_their_range(view: ViewModel, op: OpModel)
    ensures
        ({
            let after = after_op(view, op).0;
            let assigns = op.op == SlidingOp::Sync && after_op(view, op).1 is Ok;
            &&& after.rooms_list.len() == view.rooms_list.len()
            &&& forall|p: int|
                0 <= p < view.rooms_list.len() ==> #[trigger] after.rooms_list[p] == if assigns
                    && op.range.0@ <= p < op.range.0@ + op.rooms.len() {
                    op.rooms[p - op.range.0@].room_id
                } else {
                    view.rooms_list[p]
                }
            &&& after.sync_mode == view.sync_mode
            &&& after.sort == view.sort
            &&& after.required_state == view.required_state
            &&& after.batch_size == view.batch_size
            &&& after.state == view.state
            &&& after.rooms_count == view.rooms_count
            &&& after.ranges == view.ranges
        }),
{
    first_fault_is_first(op.rooms, 0);
    let after = after_op(view, op).0;
    assert forall|p: int|
        0 <= p < view.rooms_list.len() && op.op == SlidingOp::Sync && after_op(view, op).1 is Ok
            && op.range.0@ <= p < op.range.0@ + op.rooms.len() implies #[trigger] after.rooms_list[p]
        == op.rooms[p - op.range.0@].room_id by {
        assert(room_fault(op.rooms[p - op.range.0@]) is None);
    }
}

/// Of the rooms put in under one id the last is what is held.
proof fn last_under_an_id_is_held(
    map: Map<Seq<char>, RoomModel>,
    ids: Seq<Seq<char>>,
    rooms: Seq<RoomModel>,
    j: int,
)
    requires
        0 <= j < ids.len(),
        forall|k: int| j < k < ids.len() ==> #[trigger] ids[k] != ids[j],
    ensures
        with_rooms_under(map, ids, rooms).contains_key(ids[j]),
        with_rooms_under(map, ids, rooms)[ids[j]] == rooms[j],
    decreases ids.len(),
{
    let rest = ids.drop_last();
    if j < ids.len() - 1 {
        assert(ids[ids.len() - 1] != ids[j]);
        assert forall|k: int| j < k < rest.len() implies #[trigger] rest[k] != rest[j] by {
            assert(rest[k] == ids[k]);
        }
        last_under_an_id_is_held(map, rest, rooms, j);
    }
}

/// What is held under an id that is not put in stays.
proof fn ids_not_put_in_are_kept(
    map: Map<Seq<char>, RoomModel>,
    ids: Seq<Seq<char>>,
    rooms: Seq<RoomModel>,
    id: Seq<char>,
)
    requires
        !ids.contains(id),
    ensures
        with_rooms_under(map, ids, rooms).contains_key(id) == map.contains_key(id),
        map.contains_key(id) ==> with_rooms_under(map, ids, rooms)[id] == map[id],
    decreases ids.len(),
{
    if ids.len() > 0 {
        let rest = ids.drop_last();
        assert(ids.contains(ids[ids.len() - 1]));
        if rest.contains(id) {
            let i = choose|i: int| 0 <= i < rest.len() && rest[i] == id;
            assert(ids[i] == id);
        }
        ids_not_put_in_are_kept(map, rest, rooms, id);
    }
}

/// An operation on given ids holds each room under the id given for it, of several under the same
/// id the last, whatever was there before and whatever kind of operation it is, also where the
/// reading of ids stopped at a fault.
pub proof fn given_ids_hold_their_rooms(
    view: ViewModel,
    op: OpModel,
    ids: Seq<Seq<char>>,
    fault: Option<SyncError>,
    j: int,
)
    requires
        0 <= j < ids.len() <= op.rooms.len(),
        forall|k: int| j < k < ids.len() ==> #[trigger] ids[k] != ids[j],
    ensures
        after_op_on_ids(view, op, ids, fault).0.rooms.contains_key(ids[j]),
        after_op_on_ids(view, op, ids, fault).0.rooms[ids[j]] == op.rooms[j],
{
    last_under_an_id_is_held(view.rooms, ids, op.rooms, j);
}

/// An operation on given ids touches nothing else: ids that were not given hold what they held,
/// the places are those of the range, and they are assigned only by an operation that syncs and
/// is carried out. It fails with the fault if there is one, else only for a range to sync that
/// starts past 32 bits.
pub proof fn given_ids_take_their_places(
    view: ViewModel,
    op: OpModel,
    ids: Seq<Seq<char>>,
    fault: Option<SyncError>,
    id: Seq<char>,
)
    requires
        ids.len() <= op.rooms.len(),
    ensures
        ({
            let (after, result) = after_op_on_ids(view, op, ids, fault);
            let too_large = op.op == SlidingOp::Sync && op.range.0@ > 0xFFFF_FFFF;
            &&& result == match fault {
                Some(e) => Err::<(), SyncError>(e),
                None => if too_large {
                    Err(SyncError::RangeTooLarge)
                } else {
                    Ok(())
                },
            }
            &&& !ids.contains(id) ==> {
                &&& after.rooms.contains_key(id) == view.rooms.contains_key(id)
                &&& view.rooms.contains_key(id) ==> after.rooms[id] == view.rooms[id]
            }
            &&& after.rooms_list.len() == view.rooms_list.len()
            &&& forall|p: int|
                0 <= p < view.rooms_list.len() ==> #[trigger] after.rooms_list[p] == if op.op
                    == SlidingOp::Sync && result is Ok && op.range.0@ <= p < op.range.0@
                    + ids.len() {
                    Some(ids[p - op.range.0@])
                } else {
                    view.rooms_list[p]
                }
            &&& after.sync_mode == view.sync_mode
            &&& after.sort == view.sort
            &&& after.required_state == view.required_state
            &&& after.batch_size == view.batch_size
            &&& after.state == view.state
            &&& after.rooms_count == view.rooms_count
            &&& after.ranges == view.ranges
        }),
{
    if !ids.contains(id) {
        ids_not_put_in_are_kept(view.rooms, ids, op.rooms, id);
    }
}

/// What comes after the beginning of a list of operations does not see the beginning.
proof fn later_ops_alone(view: ViewModel, a: Seq<OpModel>, b: Seq<OpModel>, from: nat)
    ensures
        after_ops(view, a + b, a.len() + from) == after_ops(view, b, from),
    decreases b.len() - from,
{
    if from < b.len() {
        assert((a + b)[(a.len() + from) as int] == b[from as int]);
        later_ops_alone(after_op(view, b[from as int]).0, a, b, from + 1);
    }
}

/// Operations after the beginning of a list come to what they leave.
proof fn ops_from_on_in_two_parts(view: ViewModel, a: Seq<OpModel>, b: Seq<OpModel>, from: nat)
    requires
        from <= a.len(),
    ensures
        after_ops(view, a + b, from) == if after_ops(view, a, from).1 is Err {
            after_ops(view, a, from)
        } else {
            after_ops(after_ops(view, a, from).0, b, 0)
        },
    decreases a.len() - from,
{
    if from < a.len() {
        assert((a + b)[from as int] == a[from as int]);
        ops_from_on_in_two_parts(after_op(view, a[from as int]).0, a, b, from + 1);
    } else {
        later_ops_alone(view, a, b, 0);
    }
}

/// Operations are carried out one after the other, each on what the one before left, and none
/// after one that fails: two lists of operations come to the second on what the first leaves, a
/// list of one to that one, and no operation changes nothing.
pub proof fn operations_follow_each_other(
    view: ViewModel,
    a: Seq<OpModel>,
    b: Seq<OpModel>,
    op: OpModel,
    from: nat,
)
    ensures
        after_ops(view, a + b, 0) == if after_ops(view, a, 0).1 is Err {
            after_ops(view, a, 0)
        } else {
            after_ops(after_ops(view, a, 0).0, b, 0)
        },
        after_ops(view, seq![op], 0) == after_op(view, op),
        after_ops(view, Seq::empty(), 0) == (view, Ok::<(), SyncError>(())),
        from <= a.len() ==> after_ops(view, a, from) == after_ops(view, a.skip(from as int), 0),
{
    ops_from_on_in_two_parts(view, a, b, 0);
    reveal_with_fuel(after_ops, 3);
    assert(seq![op][0] == op);
    if from <= a.len() {
        assert(a.take(from as int) + a.skip(from as int) =~= a);
        later_ops_alone(view, a.take(from as int), a.skip(from as int), 0);
    }
}

/// A response first makes the number of rooms the known one, whatever it was, and gives the list
/// as many empty places at its end as it lacks; the operations come to that view, and to nothing
/// else.
pub proof fn responses_count_and_then_operate(
    view: ViewModel,
    wide: ViewModel,
    count: u32,
    ops: Seq<OpModel>,
)
    requires
        view.rooms_list.len() <= 0xFFFF_FFFF,
        wide == (ViewModel { rooms_count: Some(count), rooms_list: wide.rooms_list, ..view }),
        wide.rooms_list.len() == if view.rooms_list.len() < count {
            count as nat
        } else {
            view.rooms_list.len()
        },
        forall|p: int|
            0 <= p < wide.rooms_list.len() ==> #[trigger] wide.rooms_list[p] == if p
                < view.rooms_list.len() {
                view.rooms_list[p]
            } else {
                None
            },
    ensures
        after_response(view, count, Seq::empty()) == (wide, Ok::<(), SyncError>(())),
        after_response(view, count, ops) == after_ops(wide, ops, 0),
        grown(view, count) == wide,
{
    assert(grown(view, count).rooms_list =~= wide.rooms_list);
    assert(grown(view, count) =~= wide);
}

/// A list of any length keeps its entries when a response counts the rooms, and gets nothing but
/// empty places behind them, as many as the number of rooms is above the 32 low bits of its length;
/// the number of rooms is the known one, and nothing else of the view changes.
pub proof fn counting_adds_empty_places_only(view: ViewModel, count: u32, ops: Seq<OpModel>)
    ensures
        ({
            let wide = grown(view, count);
            let low = view.rooms_list.len() as u32;
            &&& after_response(view, count, ops) == after_ops(wide, ops, 0)
            &&& wide.rooms_list.len() == view.rooms_list.len() + if count > low {
                count - low
            } else {
                0
            }
            &&& forall|p: int|
                0 <= p < wide.rooms_list.len() ==> #[trigger] wide.rooms_list[p] == if p
                    < view.rooms_list.len() {
                    view.rooms_list[p]
                } else {
                    None
                }
            &&& wide.rooms_count == Some(count)
            &&& wide.sync_mode == view.sync_mode
            &&& wide.sort == view.sort
            &&& wide.required_state == view.required_state
            &&& wide.batch_size == view.batch_size
            &&& wide.state == view.state
            &&& wide.rooms == view.rooms
            &&& wide.ranges == view.ranges
        }),
{
}

/// Whether an operation can be carried out: its rooms have valid ids, and the range, if it syncs
/// one, starts within 32 bits.
pub open spec fn can_be_carried_out(op: OpModel) -> bool {
    &&& forall|i: int| 0 <= i < op.rooms.len() ==> has_valid_id(#[trigger] op.rooms[i])
    &&& op.op == SlidingOp::Sync ==> op.range.0@ <= 0xFFFF_FFFF
}

/// Whether the operations from `from` on and before the one at `k` can be carried out, and it can
/// be too.
pub open spec fn comes_to(ops: Seq<OpModel>, from: int, k: int) -> bool {
    forall|i: int| from <= i <= k ==> can_be_carried_out(#[trigger] ops[i])
}

/// An operation can be carried out if nothing keeps it from it.
proof fn sound_ops_can_be_carried_out(op: OpModel)
    ensures
        op_sound(op) == can_be_carried_out(op),
{
    first_fault_is_first(op.rooms, 0);
    if all_sound(op.rooms) {
        assert forall|i: int| 0 <= i < op.rooms.len() implies has_valid_id(
            #[trigger] op.rooms[i],
        ) by {
            assert(room_fault(op.rooms[i]) is None);
        }
    } else {
        let fault = first_fault(op.rooms, 0) as int;
        assert(room_fault(op.rooms[fault]) is Some);
        assert(!has_valid_id(op.rooms[fault]));
    }
}

/// Operations fit a list exactly if each that is come to and assigns places assigns places that
/// the list has. Nothing else is asked of them.
pub proof fn fitting_operations(places: nat, ops: Seq<OpModel>, from: nat)
    ensures
        ops_fit(places, ops, from) <==> forall|k: int|
            from <= k < ops.len() && comes_to(ops, from as int, k) && (#[trigger] ops[k]).op
                == SlidingOp::Sync && ops[k].rooms.len() > 0 ==> ops[k].range.0@
                + ops[k].rooms.len() <= places,
    decreases ops.len() - from,
{
    if from < ops.len() {
        let first = ops[from as int];
        sound_ops_can_be_carried_out(first);
        fitting_operations(places, ops, from + 1);
        assert(comes_to(ops, from as int, from as int) == can_be_carried_out(first));
        assert forall|k: int| from < k < ops.len() implies comes_to(ops, from as int, k) == (
        can_be_carried_out(first) && #[trigger] comes_to(ops, from as int + 1, k)) by {
            if comes_to(ops, from as int, k) {
                assert(can_be_carried_out(ops[from as int]));
            }
        }
        if ops_fit(places, ops, from) {
            assert forall|k: int|
                from <= k < ops.len() && comes_to(ops, from as int, k) && (#[trigger] ops[k]).op
                    == SlidingOp::Sync && ops[k].rooms.len() > 0 implies ops[k].range.0@
                + ops[k].rooms.len() <= places by {
                assert(can_be_carried_out(ops[from as int]));
                if k > from {
                    assert(comes_to(ops, from as int + 1, k));
                }
            }
        } else if op_fits(places, first) {
            let k = choose|k: int|
                from + 1 <= k < ops.len() && comes_to(ops, from as int + 1, k) && (
                #[trigger] ops[k]).op == SlidingOp::Sync && ops[k].rooms.len() > 0 && !(
                ops[k].range.0@ + ops[k].rooms.len() <= places);
            assert(comes_to(ops, from as int + 1, k));
            assert(comes_to(ops, from as int, k));
        } else {
            assert(comes_to(ops, from as int, from as int));
            assert(ops[from as int].op == SlidingOp::Sync);
        }
    }
}

/// What is found in a sequence is what is found in its first element and then in the others.
proof fn found_first_and_then<A, B>(s: Seq<A>, f: spec_fn(A) -> Option<B>)
    requires
        s.len() > 0,
    ensures
        s.filter_map(f) == (match f(s[0]) {
            Some(b) => seq![b],
            None => Seq::empty(),
        }) + s.skip(1).filter_map(f),
    decreases s.len(),
{
    reveal_with_fuel(Seq::filter_map, 2);
    if s.len() == 1 {
        assert(s.skip(1) =~= Seq::empty());
        assert(s.drop_last() =~= Seq::empty());
    } else {
        found_first_and_then(s.drop_last(), f);
        assert(s.drop_last().skip(1) =~= s.skip(1).drop_last());
        assert(s.skip(1).last() == s.last());
    }
}

/// Every known room of the list is read, in order, also behind places that are empty or whose
/// room is not known: what is read from a place on is the room of that place, if it has a known
/// one, and then what is read from the next place on. From the end on there is nothing.
pub proof fn reading_goes_place_by_place(view: ViewModel, offset: nat)
    ensures
        offset < view.rooms_list.len() ==> known_rooms(view, offset) == (
        match view.rooms_list[offset as int] {
            Some(id) => if view.rooms.contains_key(id) {
                seq![view.rooms[id]]
            } else {
                Seq::empty()
            },
            None => Seq::empty(),
        }) + known_rooms(view, offset + 1),
        offset >= view.rooms_list.len() ==> known_rooms(view, offset).len() == 0,
{
    if offset < view.rooms_list.len() {
        let s = entries_from(view.rooms_list, offset);
        found_first_and_then(s, |e: Option<Seq<char>>| room_of(view, e));
        assert(s.skip(1) =~= entries_from(view.rooms_list, offset + 1));
    }
}

/// Reading at most a number of rooms gives the first ones, in order, as many as that or all.
pub proof fn reading_stops_at_the_count(rooms: Seq<RoomModel>, n: nat)
    ensures
        at_most(rooms, n).len() == if n < rooms.len() {
            n
        } else {
            rooms.len()
        },
        forall|i: int| 0 <= i < at_most(rooms, n).len() ==> #[trigger] at_most(rooms, n)[i] == rooms[i],
{
}

/// A map of given entries holds, under each id that was given, the last entry with that id.
pub proof fn given_rooms_are_held(entries: Seq<(Seq<char>, RoomModel)>, j: int)
    requires
        0 <= j < entries.len(),
        forall|k: int| j < k < entries.len() ==> (#[trigger] entries[k]).0 != entries[j].0,
    ensures
        map_of(entries).contains_key(entries[j].0),
        map_of(entries)[entries[j].0] == entries[j].1,
    decreases entries.len(),
{
    let rest = entries.drop_last();
    if j < entries.len() - 1 {
        assert(entries[entries.len() - 1].0 != entries[j].0);
        assert(rest[j] == entries[j]);
        assert forall|k: int| j < k < rest.len() implies (#[trigger] rest[k]).0 != rest[j].0 by {
            assert(rest[k] == entries[k]);
        }
        given_rooms_are_held(rest, j);
    }
}

/// A map of given entries holds nothing else.
pub proof fn no_other_rooms_are_held(entries: Seq<(Seq<char>, RoomModel)>, id: Seq<char>)
    requires
        forall|i: int| 0 <= i < entries.len() ==> (#[trigger] entries[i]).0 != id,
    ensures
        !map_of(entries).contains_key(id),
    decreases entries.len(),
{
    if entries.len() > 0 {
        let rest = entries.drop_last();
        assert(entries[entries.len() - 1].0 != id);
        assert forall|i: int| 0 <= i < rest.len() implies (#[trigger] rest[i]).0 != id by {
            assert(rest[i] == entries[i]);
        }
        no_other_rooms_are_held(rest, id);
    }
}

} // verus!
