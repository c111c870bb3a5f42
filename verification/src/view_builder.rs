//! The builder of views.
use vstd::prelude::*;
use vstd::std_specs::convert::IntoSpec;
use crate::model::{
    built, default_required_state, default_sort, fresh_view_builder, full_sync_builder,
    ViewBuilderModel,
};
use crate::outside::{event_type, StateEvent};
use crate::types::{
    entries_view, optional_texts_view, pairs_view, texts_view, SlidingSyncMode, SlidingSyncRoom,
    SlidingSyncState, UInt,
};
use crate::view::{copy_pairs, copy_texts, SlidingSyncView};

verus! {

/// Why a view could not be built.
#[derive(Clone, Copy, Debug)]
pub enum SlidingSyncViewBuilderError {
    /// A setting that has no default was not given.
    UninitializedField(&'static str),
}

/// Builds a [`SlidingSyncView`] from the settings that are given to it.
#[derive(Debug)]
pub struct SlidingSyncViewBuilder {
    sync_mode: Option<SlidingSyncMode>,
    sort: Option<Vec<String>>,
    required_state: Option<Vec<(String, String)>>,
    batch_size: Option<u32>,
    state: Option<SlidingSyncState>,
    rooms_count: Option<Option<u32>>,
    rooms_list: Option<Vec<Option<String>>>,
    rooms: Option<Vec<(String, SlidingSyncRoom)>>,
    ranges: Option<Vec<(UInt, UInt)>>,
}

impl View for SlidingSyncViewBuilder {
    type V = ViewBuilderModel;

    closed spec fn view(&self) -> ViewBuilderModel {
        ViewBuilderModel {
            sync_mode: self.sync_mode,
            sort: match self.sort {
                Some(v) => Some(texts_view(v@)),
                None => None,
            },
            required_state: match self.required_state {
                Some(v) => Some(pairs_view(v@)),
                None => None,
            },
            batch_size: self.batch_size,
            state: self.state,
            rooms_count: self.rooms_count,
            rooms_list: match self.rooms_list {
                Some(v) => Some(optional_texts_view(v@)),
                None => None,
            },
            rooms: match self.rooms {
                Some(v) => Some(entries_view(v@)),
                None => None,
            },
            ranges: match self.ranges {
                Some(v) => Some(v@),
                None => None,
            },
        }
    }
}

impl Default for SlidingSyncViewBuilder {
    fn default() -> (r: SlidingSyncViewBuilder)
        ensures
            r@ == fresh_view_builder(),
    {
        SlidingSyncViewBuilder {
            sync_mode: None,
            sort: None,
            required_state: None,
            batch_size: None,
            state: None,
            rooms_count: None,
            rooms_list: None,
            rooms: None,
            ranges: None,
        }
    }
}

impl Clone for SlidingSyncViewBuilder {
    fn clone(&self) -> (r: SlidingSyncViewBuilder)
        ensures
            r@ == self@,
    {
        SlidingSyncViewBuilder {
            sync_mode: self.sync_mode,
            sort: match &self.sort {
                Some(sort) => Some(copy_texts(sort)),
                None => None,
            },
            required_state: match &self.required_state {
                Some(required_state) => Some(copy_pairs(required_state)),
                None => None,
            },
            batch_size: self.batch_size,
            state: self.state,
            rooms_count: self.rooms_count,
            rooms_list: match &self.rooms_list {
                Some(rooms_list) => Some(copy_entries(rooms_list)),
                None => None,
            },
            rooms: match &self.rooms {
                Some(rooms) => Some(copy_rooms(rooms)),
                None => None,
            },
            ranges: match &self.ranges {
                Some(ranges) => Some(copy_ranges(ranges)),
                None => None,
            },
        }
    }
}

impl SlidingSyncViewBuilder {
    /// The model of a builder is what was given to it.
    proof fn models_what_was_given(&self)
        ensures
            self@.sync_mode == self.sync_mode,
            self@.sort is Some <==> self.sort is Some,
            self.sort is Some ==> self@.sort->0 == texts_view(self.sort->0@),
            self@.required_state is Some <==> self.required_state is Some,
            self.required_state is Some ==> self@.required_state->0 == pairs_view(
                self.required_state->0@,
            ),
            self@.batch_size == self.batch_size,
            self@.state == self.state,
            self@.rooms_count == self.rooms_count,
            self@.rooms_list is Some <==> self.rooms_list is Some,
            self.rooms_list is Some ==> self@.rooms_list->0 == optional_texts_view(
                self.rooms_list->0@,
            ),
            self@.rooms is Some <==> self.rooms is Some,
            self.rooms is Some ==> self@.rooms->0 == entries_view(self.rooms->0@),
            self@.ranges is Some <==> self.ranges is Some,
            self.ranges is Some ==> self@.ranges->0 == self.ranges->0@,
    {
    }

    /// Create a Builder set up for full sync
    pub fn default_with_fullsync() -> (r: SlidingSyncViewBuilder)
        ensures
            r@ == full_sync_builder(),
    {
        let mut builder = SlidingSyncViewBuilder::default();
        builder.sync_mode(SlidingSyncMode::FullSync);
        builder
    }

    /// The order of a view to which none was given.
    pub fn default_sort(&self) -> (r: Vec<String>)
        ensures
            texts_view(r@) == default_sort(),
    {
        let r: Vec<String> = vec!["by_recency".to_owned(), "by_name".to_owned()];
        assert(texts_view(r@) =~= default_sort());
        r
    }

    /// The state events that a view asks for if none were given.
    pub fn default_required_state(&self) -> (r: Vec<(String, String)>)
        ensures
            pairs_view(r@) == default_required_state(),
    {
        let r: Vec<(String, String)> = vec![
            (event_type(StateEvent::RoomAvatar), "".to_owned()),
            (event_type(StateEvent::RoomMember), "*".to_owned()),
            (event_type(StateEvent::RoomEncryption), "".to_owned()),
            (event_type(StateEvent::RoomTombstone), "".to_owned()),
        ];
        assert(pairs_view(r@) =~= default_required_state());
        r
    }

    /// Set the mode by which the view fetches its data
    pub fn sync_mode(&mut self, sync_mode: SlidingSyncMode) -> (r: &mut SlidingSyncViewBuilder)
        ensures
            r@ == (ViewBuilderModel { sync_mode: Some(sync_mode), ..old(self)@ }),
            *final(self) == *final(r),
    {
        self.sync_mode = Some(sync_mode);
        self
    }

    /// Set the order of the view
    pub fn sort(&mut self, sort: Vec<String>) -> (r: &mut SlidingSyncViewBuilder)
        ensures
            r@ == (ViewBuilderModel { sort: Some(texts_view(sort@)), ..old(self)@ }),
            *final(self) == *final(r),
    {
        self.sort = Some(sort);
        self
    }

    /// Set the state events to ask for: pairs of event type and state key
    pub fn required_state(&mut self, required_state: Vec<(String, String)>) -> (r:
        &mut SlidingSyncViewBuilder)
        ensures
            r@ == (ViewBuilderModel {
                required_state: Some(pairs_view(required_state@)),
                ..old(self)@
            }),
            *final(self) == *final(r),
    {
        self.required_state = Some(required_state);
        self
    }

    /// Set the number of rooms that a full sync asks for at a time
    pub fn batch_size(&mut self, batch_size: u32) -> (r: &mut SlidingSyncViewBuilder)
        ensures
            r@ == (ViewBuilderModel { batch_size: Some(batch_size), ..old(self)@ }),
            *final(self) == *final(r),
    {
        self.batch_size = Some(batch_size);
        self
    }

    /// Set the state that the view starts in
    pub fn state(&mut self, state: SlidingSyncState) -> (r: &mut SlidingSyncViewBuilder)
        ensures
            r@ == (ViewBuilderModel { state: Some(state), ..old(self)@ }),
            *final(self) == *final(r),
    {
        self.state = Some(state);
        self
    }

    /// Set the number of rooms that the view starts with
    pub fn rooms_count(&mut self, rooms_count: Option<u32>) -> (r: &mut SlidingSyncViewBuilder)
        ensures
            r@ == (ViewBuilderModel { rooms_count: Some(rooms_count), ..old(self)@ }),
            *final(self) == *final(r),
    {
        self.rooms_count = Some(rooms_count);
        self
    }

    /// Set the list that the view starts with
    pub fn rooms_list(&mut self, rooms_list: Vec<Option<String>>) -> (r:
        &mut SlidingSyncViewBuilder)
        ensures
            r@ == (ViewBuilderModel {
                rooms_list: Some(optional_texts_view(rooms_list@)),
                ..old(self)@
            }),
            *final(self) == *final(r),
    {
        self.rooms_list = Some(rooms_list);
        self
    }

    /// Set the rooms that the view starts with, each with its id
    pub fn rooms(&mut self, rooms: Vec<(String, SlidingSyncRoom)>) -> (r:
        &mut SlidingSyncViewBuilder)
        ensures
            r@ == (ViewBuilderModel { rooms: Some(entries_view(rooms@)), ..old(self)@ }),
            *final(self) == *final(r),
    {
        self.rooms = Some(rooms);
        self
    }

    /// Set the ranges to fetch
    pub fn ranges_raw(&mut self, ranges: Vec<(UInt, UInt)>) -> (r: &mut SlidingSyncViewBuilder)
        ensures
            r@ == (ViewBuilderModel { ranges: Some(ranges@), ..old(self)@ }),
            *final(self) == *final(r),
    {
        self.ranges = Some(ranges);
        self
    }

    /// Set the ranges to fetch
    pub fn ranges<U: Into<UInt>>(&mut self, range: Vec<(U, U)>) -> (r: &mut SlidingSyncViewBuilder)
        ensures
            r@.ranges is Some,
            r@.ranges->0.len() == range@.len(),
            forall|i: int|
                0 <= i < range@.len() ==> call_ensures(
                    U::into,
                    (range@[i].0,),
                    (#[trigger] r@.ranges->0[i]).0,
                ) && call_ensures(U::into, (range@[i].1,), r@.ranges->0[i].1),
            U::obeys_into_spec() ==> r@.ranges->0 == range@.map_values(
                |p: (U, U)| (p.0.into_spec(), p.1.into_spec()),
            ),
            r@ == (ViewBuilderModel { ranges: r@.ranges, ..old(self)@ }),
            *final(self) == *final(r),
    {
        let mut ranges: Vec<(UInt, UInt)> = Vec::new();
        for p in it: range
            invariant
                ranges@.len() == it.index(),
                it.seq() == range@,
                forall|i: int|
                    0 <= i < it.index() ==> call_ensures(
                        U::into,
                        (range@[i].0,),
                        (#[trigger] ranges@[i]).0,
                    ) && call_ensures(U::into, (range@[i].1,), ranges@[i].1),
                U::obeys_into_spec() ==> ranges@ == it.seq().take(it.index() as int).map_values(
                    |p: (U, U)| (p.0.into_spec(), p.1.into_spec()),
                ),
        {
            let (start, end) = p;
            ranges.push((start.into(), end.into()));
        }
        self.ranges = Some(ranges);
        self
    }

    /// The view with the settings that were given, and the defaults of the others.
    pub fn build(&self) -> (r: Result<SlidingSyncView, SlidingSyncViewBuilderError>)
        ensures
            r is Ok,
            r->Ok_0@ == built(self@),
    {
        let sort: Vec<String> = match &self.sort {
            Some(sort) => copy_texts(sort),
            None => self.default_sort(),
        };
        let required_state: Vec<(String, String)> = match &self.required_state {
            Some(required_state) => copy_pairs(required_state),
            None => self.default_required_state(),
        };
        let rooms_list: Vec<Option<String>> = match &self.rooms_list {
            Some(rooms_list) => copy_entries(rooms_list),
            None => Vec::new(),
        };
        let ranges: Vec<(UInt, UInt)> = match &self.ranges {
            Some(ranges) => copy_ranges(ranges),
            None => Vec::new(),
        };
        let none: Vec<(String, SlidingSyncRoom)> = Vec::new();
        let rooms: &Vec<(String, SlidingSyncRoom)> = match &self.rooms {
            Some(rooms) => rooms,
            None => &none,
        };
        proof {
            assert(optional_texts_view(Seq::empty()) =~= Seq::empty());
            assert(entries_view(Seq::empty()) =~= Seq::empty());
        }
        let view = SlidingSyncView::assemble(
            match self.sync_mode {
                Some(sync_mode) => sync_mode,
                None => SlidingSyncMode::default(),
            },
            sort,
            required_state,
            match self.batch_size {
                Some(batch_size) => batch_size,
                None => 20,
            },
            match self.state {
                Some(state) => state,
                None => SlidingSyncState::default(),
            },
            match self.rooms_count {
                Some(rooms_count) => rooms_count,
                None => None,
            },
            rooms_list,
            rooms,
            ranges,
        );
        Ok(view)
    }
}

/// A copy of the entries of a list.
fn copy_entries(entries: &Vec<Option<String>>) -> (r: Vec<Option<String>>)
    ensures
        optional_texts_view(r@) == optional_texts_view(entries@),
{
    let r: Vec<Option<String>> = entries.clone();
    assert(optional_texts_view(r@) =~= optional_texts_view(entries@));
    r
}

/// A copy of the rooms with the ids that they are known under.
fn copy_rooms(rooms: &Vec<(String, SlidingSyncRoom)>) -> (r: Vec<(String, SlidingSyncRoom)>)
    ensures
        entries_view(r@) == entries_view(rooms@),
{
    let mut r: Vec<(String, SlidingSyncRoom)> = Vec::new();
    let mut i: usize = 0;
    while i < rooms.len()
        invariant
            i <= rooms@.len(),
            entries_view(r@) == entries_view(rooms@).take(i as int),
        decreases rooms@.len() - i,
    {
        let ghost before = r@;
        r.push((rooms[i].0.clone(), rooms[i].1.clone()));
        assert(entries_view(r@) =~= entries_view(before).push(entries_view(rooms@)[i as int]));
        assert(entries_view(rooms@).take(i + 1) =~= entries_view(rooms@).take(i as int).push(
            entries_view(rooms@)[i as int],
        ));
        i = i + 1;
    }
    assert(entries_view(rooms@).take(i as int) =~= entries_view(rooms@));
    r
}

/// A copy of the ranges.
fn copy_ranges(ranges: &Vec<(UInt, UInt)>) -> (r: Vec<(UInt, UInt)>)
    ensures
        r@ == ranges@,
{
    let mut r: Vec<(UInt, UInt)> = Vec::new();
    let mut i: usize = 0;
    while i < ranges.len()
        invariant
            i <= ranges@.len(),
            r@ == ranges@.take(i as int),
        decreases ranges@.len() - i,
    {
        r.push(ranges[i]);
        assert(r@ =~= ranges@.take(i + 1));
        i = i + 1;
    }
    assert(ranges@.take(i as int) =~= ranges@);
    r
}

} // verus!
