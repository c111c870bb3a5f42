//! Views: filtered lists of rooms that are kept in sync, and the generators of their requests.
use vstd::prelude::*;
use futures_signals::signal::{Mutable, ReadOnlyMutable};
use futures_signals::signal_map::{MutableBTreeMap, MutableSignalMap};
use futures_signals::signal_vec::{MutableSignalVec, MutableVec};
use crate::laws::{first_fault_is_first, ops_by_their_ids};
use crate::model::{
    after_op, after_op_on_ids, after_ops, after_response, at_most, entries_from, fault_in,
    first_fault, first_generator, generator_ready, generator_step, grown, known_rooms, map_of,
    op_sound, ops_fit, ops_sound, placed, request_for, room_ids, room_of, settings_of, uint_ranges,
    with_rooms_under, ViewModel,
};
use crate::outside::{
    count_at_first, count_get, count_in, count_new, count_replace, count_watch, count_watched,
    list_at_first, list_in, list_len, list_new, list_push, list_set, list_to_vec, list_watch,
    list_watched, mode_get, mode_in, mode_new, parse_room_id, ranges_get, ranges_in, ranges_new,
    ranges_push, ranges_set, ranges_shown, ranges_watch, ranges_watched, rooms_at_first, rooms_copy,
    rooms_get, rooms_in, rooms_insert, rooms_new, rooms_watch, rooms_watched, state_at_first,
    state_get, state_in, state_new, state_set_if, state_watch, state_watched,
};
use crate::types::{
    entries_view, op_refs_view, ops_view, optional_texts_view, pairs_view, rooms_view, texts_view,
    InnerSlidingSyncViewRequestGenerator, SlidingOp, SlidingSyncMode, SlidingSyncRoom,
    SlidingSyncState, SyncError, SyncOp, SyncRequestList, UInt,
};
use crate::view_builder::SlidingSyncViewBuilder;

verus! {

/// A specific filtered view within the concept of sliding sync.
#[derive(Debug)]
pub struct SlidingSyncView {
    sync_mode: Mutable<SlidingSyncMode>,
    sort: Vec<String>,
    required_state: Vec<(String, String)>,
    batch_size: u32,
    /// The state this view is in
    state: Mutable<SlidingSyncState>,
    /// The total known number of rooms
    rooms_count: Mutable<Option<u32>>,
    /// The rooms in order
    rooms_list: MutableVec<Option<String>>,
    /// The rooms details
    rooms: MutableBTreeMap<String, SlidingSyncRoom>,
    ranges: Mutable<Vec<(UInt, UInt)>>,
}

impl View for SlidingSyncView {
    type V = ViewModel;

    closed spec fn view(&self) -> ViewModel {
        ViewModel {
            sync_mode: mode_in(self.sync_mode),
            sort: texts_view(self.sort@),
            required_state: pairs_view(self.required_state@),
            batch_size: self.batch_size,
            state: state_in(self.state),
            rooms_count: count_in(self.rooms_count),
            rooms_list: list_in(self.rooms_list),
            rooms: rooms_in(self.rooms),
            ranges: ranges_in(self.ranges),
        }
    }
}

/// Those who watch a view: the handles and signals that show each change of its parts.
#[verifier::ext_equal]
pub struct Watchers {
    pub state: Set<ReadOnlyMutable<SlidingSyncState>>,
    pub rooms_count: Set<ReadOnlyMutable<Option<u32>>>,
    pub rooms_list: Set<MutableSignalVec<Option<String>>>,
    pub rooms: Set<MutableSignalMap<String, SlidingSyncRoom>>,
    pub clones: Set<SharedView>,
}

/// A clone of a view that shares its ranges, for making live requests: ranges that are set on the
/// view are set on the clone.
#[derive(Debug)]
pub struct SharedView {
    sort: Vec<String>,
    required_state: Vec<(String, String)>,
    ranges: ReadOnlyMutable<Vec<(UInt, UInt)>>,
}

impl SharedView {
    /// The live request for the view, which is the one that this is a clone of: for the ranges
    /// that the view has now, whatever they were when the clone was made.
    pub fn live_request(&self, view: &SlidingSyncView) -> (r: SyncRequestList)
        requires
            view.watchers().clones.contains(*self),
        ensures
            r@ == request_for(view@, view@.ranges),
    {
        SyncRequestList {
            ranges: ranges_shown(&self.ranges, &view.ranges),
            sort: Some(copy_texts(&self.sort)),
            required_state: Some(copy_pairs(&self.required_state)),
            timeline_limit: None,
            filters: None,
        }
    }
}

impl SlidingSyncView {
    /// Those who watch the view.
    pub closed spec fn watchers(&self) -> Watchers {
        Watchers {
            state: Set::new(|h: ReadOnlyMutable<SlidingSyncState>| state_watched(h, self.state)),
            rooms_count: Set::new(
                |h: ReadOnlyMutable<Option<u32>>| count_watched(h, self.rooms_count),
            ),
            rooms_list: Set::new(
                |s: MutableSignalVec<Option<String>>| list_watched(s, self.rooms_list),
            ),
            rooms: Set::new(
                |s: MutableSignalMap<String, SlidingSyncRoom>| rooms_watched(s, self.rooms),
            ),
            clones: Set::new(
                |w: SharedView|
                    {
                        &&& texts_view(w.sort@) == texts_view(self.sort@)
                        &&& pairs_view(w.required_state@) == pairs_view(self.required_state@)
                        &&& ranges_watched(w.ranges, self.ranges)
                    },
            ),
        }
    }

    /// The model of a view is what its cells and collections hold, and who watches the view is who
    /// watches them.
    proof fn models_what_is_held(
        &self,
        state: ReadOnlyMutable<SlidingSyncState>,
        count: ReadOnlyMutable<Option<u32>>,
        list: MutableSignalVec<Option<String>>,
        rooms: MutableSignalMap<String, SlidingSyncRoom>,
        clone: SharedView,
    )
        ensures
            self@.sync_mode == mode_in(self.sync_mode),
            self@.sort == texts_view(self.sort@),
            self@.required_state == pairs_view(self.required_state@),
            self@.batch_size == self.batch_size,
            self@.state == state_in(self.state),
            self@.rooms_count == count_in(self.rooms_count),
            self@.rooms_list == list_in(self.rooms_list),
            self@.rooms == rooms_in(self.rooms),
            self@.ranges == ranges_in(self.ranges),
            self.watchers().state.contains(state) <==> state_watched(state, self.state),
            self.watchers().rooms_count.contains(count) <==> count_watched(count, self.rooms_count),
            self.watchers().rooms_list.contains(list) <==> list_watched(list, self.rooms_list),
            self.watchers().rooms.contains(rooms) <==> rooms_watched(rooms, self.rooms),
            self.watchers().clones.contains(clone) <==> ranges_watched(clone.ranges, self.ranges)
                && texts_view(clone.sort@) == texts_view(self.sort@) && pairs_view(
                clone.required_state@,
            ) == pairs_view(self.required_state@),
    {
    }

    /// A view with the given settings and contents.
    pub(crate) fn assemble(
        sync_mode: SlidingSyncMode,
        sort: Vec<String>,
        required_state: Vec<(String, String)>,
        batch_size: u32,
        state: SlidingSyncState,
        rooms_count: Option<u32>,
        rooms_list: Vec<Option<String>>,
        rooms: &Vec<(String, SlidingSyncRoom)>,
        ranges: Vec<(UInt, UInt)>,
    ) -> (r: SlidingSyncView)
        ensures
            r@ == (ViewModel {
                sync_mode,
                sort: texts_view(sort@),
                required_state: pairs_view(required_state@),
                batch_size,
                state,
                rooms_count,
                rooms_list: optional_texts_view(rooms_list@),
                rooms: map_of(entries_view(rooms@)),
                ranges: ranges@,
            }),
    {
        let mut map: MutableBTreeMap<String, SlidingSyncRoom> = rooms_new();
        let ghost entries = entries_view(rooms@);
        let mut i: usize = 0;
        assert(entries.take(0) =~= Seq::empty());
        while i < rooms.len()
            invariant
                i <= rooms@.len(),
                entries == entries_view(rooms@),
                rooms_in(map) == map_of(entries.take(i as int)),
            decreases rooms@.len() - i,
        {
            rooms_insert(&mut map, rooms[i].0.clone(), rooms[i].1.clone());
            assert(entries.take(i + 1).drop_last() =~= entries.take(i as int));
            i = i + 1;
        }
        assert(entries.take(i as int) =~= entries);
        SlidingSyncView {
            sync_mode: mode_new(sync_mode),
            sort,
            required_state,
            batch_size,
            state: state_new(state),
            rooms_count: count_new(rooms_count),
            rooms_list: list_new(rooms_list),
            rooms: map,
            ranges: ranges_new(ranges),
        }
    }

    /// A clone of the view that shares its ranges.
    pub fn shared(&self) -> (r: SharedView)
        ensures
            self.watchers().clones.contains(r),
    {
        SharedView {
            sort: copy_texts(&self.sort),
            required_state: copy_pairs(&self.required_state),
            ranges: ranges_watch(&self.ranges),
        }
    }

    /// A view of its own that holds the same.
    pub(crate) fn copied(&self) -> (r: SlidingSyncView)
        ensures
            r@ == self@,
    {
        SlidingSyncView {
            sync_mode: mode_new(mode_get(&self.sync_mode)),
            sort: copy_texts(&self.sort),
            required_state: copy_pairs(&self.required_state),
            batch_size: self.batch_size,
            state: state_new(state_get(&self.state)),
            rooms_count: count_new(count_get(&self.rooms_count)),
            rooms_list: list_new(list_to_vec(&self.rooms_list)),
            rooms: rooms_copy(&self.rooms),
            ranges: ranges_new(ranges_get(&self.ranges)),
        }
    }

    /// Return a builder with the same settings as before
    pub fn new_builder(&self) -> (r: SlidingSyncViewBuilder)
        ensures
            r@ == settings_of(self@),
    {
        let mut builder = SlidingSyncViewBuilder::default();
        builder.sync_mode(mode_get(&self.sync_mode));
        builder.sort(copy_texts(&self.sort));
        builder.required_state(copy_pairs(&self.required_state));
        builder.batch_size(self.batch_size);
        builder.ranges_raw(ranges_get(&self.ranges));
        builder
    }

    /// Takes in the first rooms, one after the other, each under the id given for it.
    fn insert_rooms(&mut self, ids: &Vec<String>, rooms: &Vec<SlidingSyncRoom>)
        requires
            ids@.len() <= rooms@.len(),
        ensures
            final(self)@ == (ViewModel {
                rooms: with_rooms_under(
                    old(self)@.rooms,
                    texts_view(ids@),
                    rooms_view(rooms@),
                ),
                ..old(self)@
            }),
            final(self).watchers() == old(self).watchers(),
    {
        let ghost models = rooms_view(rooms@);
        let ghost texts = texts_view(ids@);
        let mut i: usize = 0;
        while i < ids.len()
            invariant
                i <= ids@.len() <= rooms@.len(),
                models == rooms_view(rooms@),
                texts == texts_view(ids@),
                self@ == (ViewModel {
                    rooms: with_rooms_under(old(self)@.rooms, texts.take(i as int), models),
                    ..old(self)@
                }),
                self.watchers() == old(self).watchers(),
            decreases ids@.len() - i,
        {
            rooms_insert(&mut self.rooms, ids[i].clone(), rooms[i].clone());
            assert(texts.take(i + 1).drop_last() =~= texts.take(i as int));
            i = i + 1;
        }
        assert(texts.take(i as int) =~= texts);
    }

    /// Puts the ids in the places from `start` on.
    fn place_rooms(&mut self, start: u32, ids: Vec<String>)
        requires
            ids@.len() > 0 ==> start + ids@.len() <= old(self)@.rooms_list.len(),
        ensures
            final(self)@ == (ViewModel {
                rooms_list: placed(old(self)@.rooms_list, start as nat, texts_view(ids@)),
                ..old(self)@
            }),
            final(self).watchers() == old(self).watchers(),
    {
        let ghost list = self@.rooms_list;
        let ghost texts = texts_view(ids@);
        let places: usize = list_len(&self.rooms_list);
        let mut i: usize = 0;
        assert(placed(list, start as nat, texts.take(0)) =~= list);
        while i < ids.len()
            invariant
                i <= ids@.len(),
                texts == texts_view(ids@),
                list == old(self)@.rooms_list,
                places == list.len(),
                ids@.len() > 0 ==> start + ids@.len() <= places,
                self@ == (ViewModel {
                    rooms_list: placed(list, start as nat, texts.take(i as int)),
                    ..old(self)@
                }),
                self.watchers() == old(self).watchers(),
            decreases ids@.len() - i,
        {
            list_set(&mut self.rooms_list, start as usize + i, Some(ids[i].clone()));
            assert(self@.rooms_list =~= placed(list, start as nat, texts.take(i + 1)));
            i = i + 1;
        }
        assert(texts.take(i as int) =~= texts);
    }

    /// Carries out an operation whose rooms have the given ids, up to the room at which the given
    /// fault stopped the reading of ids, if one did.
    ///
    /// The rooms that have an id are taken in in any case. An operation that syncs a range then
    /// puts them in the places of the list from the start of the range on, if there is no fault.
    pub fn carry_out(
        &mut self,
        op: &SyncOp,
        ids: Vec<String>,
        fault: Option<SyncError>,
    ) -> (r: Result<(), SyncError>)
        requires
            ids@.len() <= op.rooms@.len(),
            fault is None && op.op == SlidingOp::Sync && op.range.0@ <= u32::MAX && ids@.len() > 0
                ==> op.range.0@ + ids@.len() <= old(self)@.rooms_list.len(),
        ensures
            (final(self)@, r) == after_op_on_ids(old(self)@, op@, texts_view(ids@), fault),
            final(self).watchers() == old(self).watchers(),
    {
        self.insert_rooms(&ids, &op.rooms);
        if let Some(e) = fault {
            return Err(e);
        }
        if let SlidingOp::Sync = op.op {
            let start: u32 = match op.range.0.to_u32() {
                Some(start) => start,
                None => {
                    return Err(SyncError::RangeTooLarge);
                },
            };
            self.place_rooms(start, ids);
        }
        Ok(())
    }

    /// Carries out the operations, one after the other, up to the first that fails.
    ///
    /// The rooms of an operation are taken in by their ids, those before one that has no valid
    /// id also where the operation fails for it. An operation that syncs a range then puts the
    /// rooms in the places of the list from the start of the range on.
    pub fn room_ops(&mut self, ops: &Vec<SyncOp>) -> (r: Result<(), SyncError>)
        requires
            ops_fit(old(self)@.rooms_list.len(), ops_view(ops@), 0),
        ensures
            (final(self)@, r) == after_ops(old(self)@, ops_view(ops@), 0),
            final(self).watchers() == old(self).watchers(),
    {
        let ghost models = ops_view(ops@);
        let mut k: usize = 0;
        while k < ops.len()
            invariant
                k <= ops@.len(),
                models == ops_view(ops@),
                ops_fit(self@.rooms_list.len(), models, k as nat),
                after_ops(self@, models, k as nat) == after_ops(old(self)@, models, 0),
                self.watchers() == old(self).watchers(),
            decreases ops@.len() - k,
        {
            let op: &SyncOp = &ops[k];
            let ghost before = self@;
            assert(models[k as int] == op@);
            let (ids, fault) = parse_ids(&op.rooms);
            proof {
                assert(texts_view(ids@).len() == ids@.len());
                ops_by_their_ids(before, op@);
            }
            let result = self.carry_out(op, ids, fault);
            assert((self@, result) == after_op(before, op@));
            if result.is_err() {
                return result;
            }
            k = k + 1;
        }
        Ok(())
    }

    /// Takes in what a response says of the view: the number of its rooms, and the operations
    /// on it.
    ///
    /// The number becomes the known one. Where there are more rooms than the list has places,
    /// empty places come at its end.
    pub fn handle_response(&mut self, rooms_count: u32, ops: &Vec<SyncOp>) -> (r: Result<
        (),
        SyncError,
    >)
        requires
            ops_fit(grown(old(self)@, rooms_count).rooms_list.len(), ops_view(ops@), 0),
        ensures
            (final(self)@, r) == after_response(old(self)@, rooms_count, ops_view(ops@)),
            final(self).watchers() == old(self).watchers(),
    {
        let len: usize = list_len(&self.rooms_list);
        let ghost list = self@.rooms_list;
        let mut missing: u32 = match rooms_count.checked_sub(len as u32) {
            Some(missing) => missing,
            None => 0,
        };
        let ghost total = missing;
        assert(self@.rooms_list =~= list + Seq::new(0, |i: int| None::<Seq<char>>));
        while missing > 0
            invariant
                missing <= total,
                self@ == (ViewModel {
                    rooms_list: list + Seq::new(
                        (total - missing) as nat,
                        |i: int| None::<Seq<char>>,
                    ),
                    ..old(self)@
                }),
                self.watchers() == old(self).watchers(),
            decreases missing,
        {
            list_push(&mut self.rooms_list, None);
            missing = missing - 1;
            assert(self@.rooms_list =~= list + Seq::new(
                (total - missing) as nat,
                |i: int| None::<Seq<char>>,
            ));
        }
        count_replace(&mut self.rooms_count, Some(rooms_count));
        assert(self@ == grown(old(self)@, rooms_count));
        if !ops.is_empty() {
            return self.room_ops(ops);
        }
        Ok(())
    }

    /// Whether every place that a response assigns is one that the list has, or gets with it.
    pub fn response_fits(&self, rooms_count: u32, ops: &Vec<&SyncOp>) -> (r: bool)
        ensures
            r == ops_fit(grown(self@, rooms_count).rooms_list.len(), op_refs_view(ops@), 0),
    {
        let len: usize = list_len(&self.rooms_list);
        let missing: u32 = match rooms_count.checked_sub(len as u32) {
            Some(missing) => missing,
            None => 0,
        };
        ops_in_bounds(len as u128 + missing as u128, ops)
    }

    /// The subset of rooms, starting at offset (default 0) returning count (or to the end) items.
    ///
    /// Places of the list that are empty, or whose room is not known, do not count. From an
    /// offset past the end there is no room.
    pub fn get_rooms(&self, offset: Option<usize>, count: Option<usize>) -> (r: Vec<
        SlidingSyncRoom,
    >)
        ensures
            rooms_view(r@) == match count {
                Some(n) => at_most(known_rooms(self@, offset.unwrap_or(0) as nat), n as nat),
                None => known_rooms(self@, offset.unwrap_or(0) as nat),
            },
    {
        let start: usize = offset.unwrap_or(0);
        let listing: Vec<Option<String>> = list_to_vec(&self.rooms_list);
        let ghost list = self@.rooms_list;
        assert(listing@.len() == optional_texts_view(listing@).len());
        let ghost room_at = |e: Option<Seq<char>>| room_of(self@, e);
        let mut found: Vec<SlidingSyncRoom> = Vec::new();
        let mut i: usize = start;
        assert(rooms_view(found@) =~= Seq::empty());
        if start < listing.len() {
            assert(list.subrange(start as int, start as int) =~= Seq::empty());
            while i < listing.len()
                invariant
                    start <= i <= listing@.len(),
                    list == self@.rooms_list,
                    optional_texts_view(listing@) == list,
                    listing@.len() == list.len(),
                    room_at == |e: Option<Seq<char>>| room_of(self@, e),
                    rooms_view(found@) == list.subrange(start as int, i as int).filter_map(room_at),
                decreases listing@.len() - i,
            {
                let ghost before = found@;
                let ghost seen = list.subrange(start as int, i + 1);
                assert(seen.drop_last() =~= list.subrange(start as int, i as int));
                assert(seen.last() == optional_texts_view(listing@)[i as int]);
                if let Some(id) = &listing[i] {
                    if let Some(room) = rooms_get(&self.rooms, id) {
                        found.push(room);
                        assert(rooms_view(found@) =~= rooms_view(before) + seq![room@]);
                    }
                }
                i = i + 1;
            }
            assert(list.subrange(start as int, i as int) =~= entries_from(list, start as nat));
        } else {
            assert(entries_from(list, start as nat) =~= Seq::empty());
        }
        if let Some(limit) = count {
            let ghost all = found@;
            found.truncate(limit);
            proof {
                if limit < all.len() {
                    assert(rooms_view(found@) =~= rooms_view(all).take(limit as int));
                }
            }
        }
        found
    }

    /// Set the ranges to fetch
    ///
    /// The next request for ranges asks for these.
    pub fn set_ranges(&mut self, range: Vec<(u32, u32)>) -> (r: &mut SlidingSyncView)
        ensures
            r@ == (ViewModel { ranges: uint_ranges(range@), ..old(self)@ }),
            r.watchers() == old(self).watchers(),
            *final(self) == *final(r),
    {
        let mut ranges: Vec<(UInt, UInt)> = Vec::new();
        let mut i: usize = 0;
        while i < range.len()
            invariant
                i <= range@.len(),
                ranges@ == uint_ranges(range@.take(i as int)),
            decreases range@.len() - i,
        {
            let (start, end) = range[i];
            ranges.push((UInt::from(start), UInt::from(end)));
            assert(ranges@ =~= uint_ranges(range@.take(i + 1)));
            i = i + 1;
        }
        assert(range@.take(i as int) =~= range@);
        ranges_set(&mut self.ranges, ranges);
        self
    }

    /// Add a range to those to fetch
    ///
    /// The next request for ranges asks for it too.
    pub fn add_range(&mut self, start: u32, end: u32)
        ensures
            final(self)@ == (ViewModel {
                ranges: old(self)@.ranges.push((UInt::of(start), UInt::of(end))),
                ..old(self)@
            }),
            final(self).watchers() == old(self).watchers(),
    {
        ranges_push(&mut self.ranges, (UInt::from(start), UInt::from(end)));
    }
}

impl SlidingSyncView {
    /// The state the view is in.
    pub fn state(&self) -> (r: SlidingSyncState)
        ensures
            r == self@.state,
    {
        state_get(&self.state)
    }

    /// A handle that shows the state, and on which its changes can be watched.
    pub fn watch_state(&self) -> (r: ReadOnlyMutable<SlidingSyncState>)
        ensures
            self.watchers().state.contains(r),
            state_at_first(r) == self@.state,
    {
        state_watch(&self.state)
    }

    /// The total known number of rooms.
    pub fn rooms_count(&self) -> (r: Option<u32>)
        ensures
            r == self@.rooms_count,
    {
        count_get(&self.rooms_count)
    }

    /// A handle that shows the number of rooms, and on which its changes can be watched.
    pub fn watch_rooms_count(&self) -> (r: ReadOnlyMutable<Option<u32>>)
        ensures
            self.watchers().rooms_count.contains(r),
            count_at_first(r) == self@.rooms_count,
    {
        count_watch(&self.rooms_count)
    }

    /// The ids of the rooms in order, with `None` for the places whose room is not known yet.
    pub fn rooms_list(&self) -> (r: Vec<Option<String>>)
        ensures
            optional_texts_view(r@) == self@.rooms_list,
    {
        list_to_vec(&self.rooms_list)
    }

    /// The list of rooms as it is, and its changes from here on.
    pub fn watch_rooms_list(&self) -> (r: MutableSignalVec<Option<String>>)
        ensures
            self.watchers().rooms_list.contains(r),
            list_at_first(r) == self@.rooms_list,
    {
        list_watch(&self.rooms_list)
    }

    /// The details of the room with the given id, if it is known.
    pub fn room(&self, id: &String) -> (r: Option<SlidingSyncRoom>)
        ensures
            r is Some <==> self@.rooms.contains_key(id@),
            r matches Some(room) ==> room@ == self@.rooms[id@],
    {
        rooms_get(&self.rooms, id)
    }

    /// The details of the rooms as they are, and their changes from here on.
    pub fn watch_rooms(&self) -> (r: MutableSignalMap<String, SlidingSyncRoom>)
        ensures
            self.watchers().rooms.contains(r),
            rooms_at_first(r) == self@.rooms,
    {
        rooms_watch(&self.rooms)
    }

    /// The generator of the view's requests, at its start.
    pub fn request_generator(&self) -> (r: SlidingSyncViewRequestGenerator)
        ensures
            r.inner == first_generator(self@),
    {
        match mode_get(&self.sync_mode) {
            SlidingSyncMode::FullSync => SlidingSyncViewRequestGenerator::new_with_syncup(self),
            SlidingSyncMode::Selective => SlidingSyncViewRequestGenerator::new_live(),
        }
    }
}

/// Generates the requests of a view, one after the other.
#[derive(Clone, Copy, Debug)]
pub struct SlidingSyncViewRequestGenerator {
    pub inner: InnerSlidingSyncViewRequestGenerator,
}

impl SlidingSyncViewRequestGenerator {
    /// A generator that fetches all rooms of the view, batch after batch.
    pub fn new_with_syncup(view: &SlidingSyncView) -> (r: SlidingSyncViewRequestGenerator)
        ensures
            r.inner == InnerSlidingSyncViewRequestGenerator::FullSync(0, view@.batch_size),
    {
        SlidingSyncViewRequestGenerator {
            inner: InnerSlidingSyncViewRequestGenerator::FullSync(0, view.batch_size),
        }
    }

    /// A generator that fetches the ranges of the view.
    pub fn new_live() -> (r: SlidingSyncViewRequestGenerator)
        ensures
            r.inner == InnerSlidingSyncViewRequestGenerator::Live,
    {
        SlidingSyncViewRequestGenerator { inner: InnerSlidingSyncViewRequestGenerator::Live }
    }

    /// The request for the batch that starts at `start`, with the position after it.
    fn prefetch_request(view: &SlidingSyncView, start: u32, batch_size: u32) -> (r: (
        u32,
        SyncRequestList,
    ))
        requires
            start + batch_size <= u32::MAX,
        ensures
            r.0 == start + batch_size,
            r.1@ == request_for(view@, seq![(UInt::of(start), UInt::of(r.0))]),
    {
        let end: u32 = start + batch_size;
        let ranges: Vec<(UInt, UInt)> = vec![(UInt::from(start), UInt::from(end))];
        assert(ranges@ =~= seq![(UInt::of(start), UInt::of(end))]);
        (end, Self::make_request_for_ranges(view, ranges))
    }

    /// The request for the given ranges.
    fn make_request_for_ranges(view: &SlidingSyncView, ranges: Vec<(UInt, UInt)>) -> (r:
        SyncRequestList)
        ensures
            r@ == request_for(view@, ranges@),
    {
        SyncRequestList {
            ranges,
            sort: Some(copy_texts(&view.sort)),
            required_state: Some(copy_pairs(&view.required_state)),
            timeline_limit: None,
            filters: None,
        }
    }

    /// The request for the ranges of the view.
    fn live_request(view: &SlidingSyncView) -> (r: SyncRequestList)
        ensures
            r@ == request_for(view@, view@.ranges),
    {
        let ranges: Vec<(UInt, UInt)> = ranges_get(&view.ranges);
        Self::make_request_for_ranges(view, ranges)
    }

    /// The next request for the view, which is the one that the generator was made for.
    ///
    /// A full sync asks for batch after batch until it has asked for as many rooms as are known
    /// of; from then on the requests are for the ranges of the view. The state of the view
    /// follows: the first batch, as long as the number of rooms is not known, preloads, the next
    /// ones catch up, and then the view is live.
    pub fn next(&mut self, view: &mut SlidingSyncView) -> (r: Option<SyncRequestList>)
        requires
            generator_ready(old(view)@, old(self).inner),
        ensures
            r is Some,
            r->0@ == generator_step(old(view)@, old(self).inner).request,
            final(self).inner == generator_step(old(view)@, old(self).inner).generator,
            final(view)@ == generator_step(old(view)@, old(self).inner).view,
            final(view).watchers() == old(view).watchers(),
    {
        if let InnerSlidingSyncViewRequestGenerator::FullSync(cur_pos, _) = self.inner {
            let known: Option<u32> = count_get(&view.rooms_count);
            if known.is_some() && known.unwrap() <= cur_pos {
                // we are switching to live mode
                state_set_if(&mut view.state, SlidingSyncState::Live, SlidingSyncState::Preload);
                state_set_if(&mut view.state, SlidingSyncState::Live, SlidingSyncState::CatchingUp);
                self.inner = InnerSlidingSyncViewRequestGenerator::Live;
            } else {
                state_set_if(
                    &mut view.state,
                    SlidingSyncState::CatchingUp,
                    SlidingSyncState::Preload,
                );
                if known.is_none() {
                    // upon first catch up request, we want to switch state
                    state_set_if(&mut view.state, SlidingSyncState::Preload, SlidingSyncState::Cold);
                }
            }
        }
        match self.inner {
            InnerSlidingSyncViewRequestGenerator::FullSync(cur_pos, batch_size) => {
                let (end, req) = Self::prefetch_request(view, cur_pos, batch_size);
                self.inner = InnerSlidingSyncViewRequestGenerator::FullSync(end, batch_size);
                Some(req)
            },
            InnerSlidingSyncViewRequestGenerator::Live => Some(Self::live_request(view)),
        }
    }

    /// Whether the position after the next request is one.
    pub fn ready(&self, view: &SlidingSyncView) -> (r: bool)
        ensures
            r == generator_ready(view@, self.inner),
    {
        match self.inner {
            InnerSlidingSyncViewRequestGenerator::FullSync(cur_pos, batch_size) => {
                if let Some(count) = count_get(&view.rooms_count) {
                    if count <= cur_pos {
                        return true;
                    }
                }
                cur_pos.checked_add(batch_size).is_some()
            },
            InnerSlidingSyncViewRequestGenerator::Live => true,
        }
    }
}

/// A copy of the texts.
pub(crate) fn copy_texts(texts: &Vec<String>) -> (r: Vec<String>)
    ensures
        texts_view(r@) == texts_view(texts@),
{
    let r: Vec<String> = texts.clone();
    assert(texts_view(r@) =~= texts_view(texts@));
    r
}

/// A copy of the pairs of texts.
pub(crate) fn copy_pairs(pairs: &Vec<(String, String)>) -> (r: Vec<(String, String)>)
    ensures
        pairs_view(r@) == pairs_view(pairs@),
{
    let mut r: Vec<(String, String)> = Vec::new();
    let mut i: usize = 0;
    while i < pairs.len()
        invariant
            i <= pairs@.len(),
            pairs_view(r@) == pairs_view(pairs@).take(i as int),
        decreases pairs@.len() - i,
    {
        let ghost before = r@;
        r.push((pairs[i].0.clone(), pairs[i].1.clone()));
        assert(pairs_view(r@) =~= pairs_view(before).push(pairs_view(pairs@)[i as int]));
        assert(pairs_view(pairs@).take(i + 1) =~= pairs_view(pairs@).take(i as int).push(
            pairs_view(pairs@)[i as int],
        ));
        i = i + 1;
    }
    assert(pairs_view(pairs@).take(i as int) =~= pairs_view(pairs@));
    r
}

/// The ids of the rooms, up to the first that has no valid one, and what is wrong with that.
fn parse_ids(rooms: &Vec<SlidingSyncRoom>) -> (r: (Vec<String>, Option<SyncError>))
    ensures
        texts_view(r.0@) == room_ids(
            rooms_view(rooms@).take(first_fault(rooms_view(rooms@), 0) as int),
        ),
        r.1 == fault_in(rooms_view(rooms@)),
{
    let ghost models = rooms_view(rooms@);
    let mut ids: Vec<String> = Vec::new();
    let mut i: usize = 0;
    proof {
        assert(models.take(0) =~= Seq::empty());
        assert(texts_view(ids@) =~= room_ids(models.take(0)));
    }
    while i < rooms.len()
        invariant
            i <= rooms@.len(),
            models == rooms_view(rooms@),
            first_fault(models, 0) == first_fault(models, i as nat),
            texts_view(ids@) == room_ids(models.take(i as int)),
        decreases rooms@.len() - i,
    {
        assert(models[i as int] == rooms@[i as int]@);
        let text: &String = match &rooms[i].room_id {
            Some(text) => text,
            None => {
                return (ids, Some(SyncError::MissingRoomId));
            },
        };
        let id: String = match parse_room_id(text) {
            Ok(id) => id,
            Err(e) => {
                return (ids, Some(SyncError::InvalidRoomId(e)));
            },
        };
        let ghost before = ids@;
        ids.push(id);
        proof {
            assert(texts_view(ids@) =~= texts_view(before).push(text@));
            assert(room_ids(models.take(i + 1)) =~= room_ids(models.take(i as int)).push(text@));
        }
        i = i + 1;
    }
    (ids, None)
}

/// Whether an operation can be carried out.
fn is_sound(op: &SyncOp) -> (r: bool)
    ensures
        r == op_sound(op@),
{
    proof {
        first_fault_is_first(op@.rooms, 0);
    }
    if parse_ids(&op.rooms).1.is_some() {
        return false;
    }
    match op.op {
        SlidingOp::Sync => op.range.0.to_u32().is_some(),
        _ => true,
    }
}

/// Whether each of the operations can be carried out.
pub(crate) fn all_ops_sound(ops: &Vec<&SyncOp>) -> (r: bool)
    ensures
        r == ops_sound(op_refs_view(ops@), 0),
{
    let ghost models = op_refs_view(ops@);
    let mut k: usize = 0;
    while k < ops.len()
        invariant
            k <= ops@.len(),
            models == op_refs_view(ops@),
            forall|i: int| 0 <= i < k ==> op_sound(#[trigger] models[i]),
        decreases ops@.len() - k,
    {
        assert(models[k as int] == ops@[k as int]@);
        if !is_sound(ops[k]) {
            return false;
        }
        k = k + 1;
    }
    true
}

/// Whether the operations assign none but the first `places`, up to the first that cannot be
/// carried out.
fn ops_in_bounds(places: u128, ops: &Vec<&SyncOp>) -> (r: bool)
    ensures
        r == ops_fit(places as nat, op_refs_view(ops@), 0),
{
    let ghost models = op_refs_view(ops@);
    let mut k: usize = 0;
    while k < ops.len()
        invariant
            k <= ops@.len(),
            models == op_refs_view(ops@),
            ops_fit(places as nat, models, 0) == ops_fit(places as nat, models, k as nat),
        decreases ops@.len() - k,
    {
        let op: &SyncOp = ops[k];
        assert(models[k as int] == op@);
        if !is_sound(op) {
            return true;
        }
        if let SlidingOp::Sync = op.op {
            let start: u128 = op.range.0.value() as u128;
            if op.rooms.len() > 0 && start + op.rooms.len() as u128 > places {
                return false;
            }
        }
        k = k + 1;
    }
    true
}

} // verus!
