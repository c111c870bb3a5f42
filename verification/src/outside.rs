//! What the library takes from other crates, each call with the contract that is trusted of it.
//!
//! The observable state of a view is held in the cells and collections of `futures_signals`.
//! A handle on one of those can be cloned, and the clones share what they hold. The library
//! makes each of its handles itself, keeps it in a private field and never clones it for
//! writing, so that a handle's exclusive owner is the only one that writes, and what the handle
//! holds is a property of the handle. Subscribers get read-only handles and signals, which keep
//! watching the same cell or collection whatever is done to it.
use vstd::prelude::*;
use futures_signals::signal::{Mutable, ReadOnlyMutable};
use futures_signals::signal_map::{MutableBTreeMap, MutableSignalMap};
use futures_signals::signal_vec::{MutableSignalVec, MutableVec};
use url::Url;
use crate::types::{
    no_rooms, optional_texts_view, text_view, RoomIdError, RoomModel, SlidingSyncMode,
    SlidingSyncRoom, SlidingSyncState, UInt,
};

verus! {

/// `url::Url`: an address, carried through unread.
#[verifier::external_type_specification]
#[verifier::external_body]
pub struct ExUrl(url::Url);

/// `futures_signals::signal::Mutable`: a cell that can be watched.
#[verifier::external_type_specification]
#[verifier::external_body]
#[verifier::reject_recursive_types(A)]
pub struct ExMutable<A>(futures_signals::signal::Mutable<A>);

/// `futures_signals::signal::ReadOnlyMutable`: a handle that watches a cell.
#[verifier::external_type_specification]
#[verifier::external_body]
#[verifier::reject_recursive_types(A)]
pub struct ExReadOnlyMutable<A>(futures_signals::signal::ReadOnlyMutable<A>);

/// `futures_signals::signal_vec::MutableVec`: a list that can be watched.
#[verifier::external_type_specification]
#[verifier::external_body]
#[verifier::reject_recursive_types(A)]
pub struct ExMutableVec<A>(futures_signals::signal_vec::MutableVec<A>);

/// `futures_signals::signal_vec::MutableSignalVec`: the changes of a list.
#[verifier::external_type_specification]
#[verifier::external_body]
#[verifier::reject_recursive_types(A)]
pub struct ExMutableSignalVec<A>(futures_signals::signal_vec::MutableSignalVec<A>);

/// `futures_signals::signal_map::MutableBTreeMap`: a map that can be watched.
#[verifier::external_type_specification]
#[verifier::external_body]
#[verifier::reject_recursive_types(K)]
#[verifier::reject_recursive_types(V)]
pub struct ExMutableBTreeMap<K, V>(futures_signals::signal_map::MutableBTreeMap<K, V>);

/// `futures_signals::signal_map::MutableSignalMap`: the changes of a map.
#[verifier::external_type_specification]
#[verifier::external_body]
#[verifier::reject_recursive_types(K)]
#[verifier::reject_recursive_types(V)]
pub struct ExMutableSignalMap<K, V>(futures_signals::signal_map::MutableSignalMap<K, V>);

/// The clone of a `url::Url` is the same address (`Clone` is derived there, field by field).
pub assume_specification[ <url::Url as Clone>::clone ](address: &url::Url) -> (r: url::Url)
    ensures
        r == *address,
;

/// The state that a cell holds.
pub uninterp spec fn state_in(cell: Mutable<SlidingSyncState>) -> SlidingSyncState;

/// The mode that a cell holds.
pub uninterp spec fn mode_in(cell: Mutable<SlidingSyncMode>) -> SlidingSyncMode;

/// The number of rooms that a cell holds, where it holds one.
pub uninterp spec fn count_in(cell: Mutable<Option<u32>>) -> Option<u32>;

/// The position that a cell holds, where it holds one.
pub uninterp spec fn pos_in(cell: Mutable<Option<String>>) -> Option<Seq<char>>;

/// The ranges that a cell holds.
pub uninterp spec fn ranges_in(cell: Mutable<Vec<(UInt, UInt)>>) -> Seq<(UInt, UInt)>;

/// The entries of a list, in order.
pub uninterp spec fn list_in(list: MutableVec<Option<String>>) -> Seq<Option<Seq<char>>>;

/// The entries of a map.
pub uninterp spec fn rooms_in(rooms: MutableBTreeMap<String, SlidingSyncRoom>) -> Map<
    Seq<char>,
    RoomModel,
>;

/// The numbers of a list, in order.
pub uninterp spec fn numbers_in(list: MutableVec<usize>) -> Seq<usize>;

/// Whether a handle watches a cell: it shows, at any time, the state that the cell then holds.
pub uninterp spec fn state_watched(
    handle: ReadOnlyMutable<SlidingSyncState>,
    cell: Mutable<SlidingSyncState>,
) -> bool;

/// Whether a handle watches a cell: it shows, at any time, the number that the cell then holds.
pub uninterp spec fn count_watched(
    handle: ReadOnlyMutable<Option<u32>>,
    cell: Mutable<Option<u32>>,
) -> bool;

/// Whether a handle watches a cell: it shows, at any time, the ranges that the cell then holds.
pub uninterp spec fn ranges_watched(
    handle: ReadOnlyMutable<Vec<(UInt, UInt)>>,
    cell: Mutable<Vec<(UInt, UInt)>>,
) -> bool;

/// Whether a signal watches a list: it brings each change of the list from its start on.
pub uninterp spec fn list_watched(
    signal: MutableSignalVec<Option<String>>,
    list: MutableVec<Option<String>>,
) -> bool;

/// Whether a signal watches a map: it brings each change of the map from its start on.
pub uninterp spec fn rooms_watched(
    signal: MutableSignalMap<String, SlidingSyncRoom>,
    rooms: MutableBTreeMap<String, SlidingSyncRoom>,
) -> bool;

/// Whether a signal watches a list: it brings each change of the list from its start on.
pub uninterp spec fn numbers_watched(
    signal: MutableSignalVec<usize>,
    list: MutableVec<usize>,
) -> bool;

/// The state that a handle shows when it is made.
pub uninterp spec fn state_at_first(handle: ReadOnlyMutable<SlidingSyncState>) -> SlidingSyncState;

/// The number that a handle shows when it is made.
pub uninterp spec fn count_at_first(handle: ReadOnlyMutable<Option<u32>>) -> Option<u32>;

/// The entries that the changes of a list start from.
pub uninterp spec fn list_at_first(
    signal: MutableSignalVec<Option<String>>,
) -> Seq<Option<Seq<char>>>;

/// The entries that the changes of a map start from.
pub uninterp spec fn rooms_at_first(
    signal: MutableSignalMap<String, SlidingSyncRoom>,
) -> Map<Seq<char>, RoomModel>;

/// The numbers that the changes of a list start from.
pub uninterp spec fn numbers_at_first(signal: MutableSignalVec<usize>) -> Seq<usize>;

/// `Mutable::new`: a cell that holds the given state.
#[verifier::external_body]
pub(crate) fn state_new(state: SlidingSyncState) -> (cell: Mutable<SlidingSyncState>)
    ensures
        state_in(cell) == state,
{
    Mutable::new(state)
}

/// `Mutable::get_cloned`: the state that the cell holds.
#[verifier::external_body]
pub(crate) fn state_get(cell: &Mutable<SlidingSyncState>) -> (r: SlidingSyncState)
    ensures
        r == state_in(*cell),
{
    cell.get_cloned()
}

/// `Mutable::set_if`: the cell takes the state `to` if the condition on the state before, that
/// it is `from`, holds; else it is left as it is. It stays the same cell to those who watch it.
#[verifier::external_body]
pub(crate) fn state_set_if(
    cell: &mut Mutable<SlidingSyncState>,
    to: SlidingSyncState,
    from: SlidingSyncState,
)
    ensures
        state_in(*final(cell)) == if state_in(*old(cell)) == from {
            to
        } else {
            state_in(*old(cell))
        },
        forall|h: ReadOnlyMutable<SlidingSyncState>| #[trigger]
            state_watched(h, *final(cell)) == state_watched(h, *old(cell)),
{
    cell.set_if(to, |before, _now| crate::types::same_state(before, &from));
}

/// `Mutable::read_only`: a handle that watches the cell (the two share one allocation), and shows
/// at first the state that the cell holds.
#[verifier::external_body]
pub(crate) fn state_watch(
    cell: &Mutable<SlidingSyncState>,
) -> (r: ReadOnlyMutable<SlidingSyncState>)
    ensures
        state_watched(r, *cell),
        state_at_first(r) == state_in(*cell),
{
    cell.read_only()
}

/// `Mutable::new`: a cell that holds the given mode.
#[verifier::external_body]
pub(crate) fn mode_new(mode: SlidingSyncMode) -> (cell: Mutable<SlidingSyncMode>)
    ensures
        mode_in(cell) == mode,
{
    Mutable::new(mode)
}

/// `ReadOnlyMutable::get_cloned`: the mode that the cell holds.
#[verifier::external_body]
pub(crate) fn mode_get(cell: &Mutable<SlidingSyncMode>) -> (r: SlidingSyncMode)
    ensures
        r == mode_in(*cell),
{
    cell.read_only().get_cloned()
}

/// `Mutable::new`: a cell that holds the given number.
#[verifier::external_body]
pub(crate) fn count_new(count: Option<u32>) -> (cell: Mutable<Option<u32>>)
    ensures
        count_in(cell) == count,
{
    Mutable::new(count)
}

/// `Mutable::get_cloned`: the number that the cell holds.
#[verifier::external_body]
pub(crate) fn count_get(cell: &Mutable<Option<u32>>) -> (r: Option<u32>)
    ensures
        r == count_in(*cell),
{
    cell.get_cloned()
}

/// `Mutable::replace`: the cell takes the new number and hands out the one before. It stays the
/// same cell to those who watch it.
#[verifier::external_body]
pub(crate) fn count_replace(cell: &mut Mutable<Option<u32>>, count: Option<u32>) -> (r: Option<u32>)
    ensures
        count_in(*final(cell)) == count,
        r == count_in(*old(cell)),
        forall|h: ReadOnlyMutable<Option<u32>>| #[trigger]
            count_watched(h, *final(cell)) == count_watched(h, *old(cell)),
{
    cell.replace(count)
}

/// `Mutable::read_only`: a handle that watches the cell (the two share one allocation), and shows
/// at first the number that the cell holds.
#[verifier::external_body]
pub(crate) fn count_watch(cell: &Mutable<Option<u32>>) -> (r: ReadOnlyMutable<Option<u32>>)
    ensures
        count_watched(r, *cell),
        count_at_first(r) == count_in(*cell),
{
    cell.read_only()
}

/// `Mutable::new`: a cell that holds the given position.
#[verifier::external_body]
pub(crate) fn pos_new(pos: Option<String>) -> (cell: Mutable<Option<String>>)
    ensures
        pos_in(cell) == text_view(pos),
{
    Mutable::new(pos)
}

/// `Mutable::get_cloned`: the position that the cell holds.
#[verifier::external_body]
pub(crate) fn pos_get(cell: &Mutable<Option<String>>) -> (r: Option<String>)
    ensures
        text_view(r) == pos_in(*cell),
{
    cell.get_cloned()
}

/// `Mutable::replace`: the cell takes the new position and hands out the one before.
#[verifier::external_body]
pub(crate) fn pos_replace(
    cell: &mut Mutable<Option<String>>,
    pos: Option<String>,
) -> (r: Option<String>)
    ensures
        pos_in(*final(cell)) == text_view(pos),
        text_view(r) == pos_in(*old(cell)),
{
    cell.replace(pos)
}

/// `Mutable::new`: a cell that holds the given ranges.
#[verifier::external_body]
pub(crate) fn ranges_new(ranges: Vec<(UInt, UInt)>) -> (cell: Mutable<Vec<(UInt, UInt)>>)
    ensures
        ranges_in(cell) == ranges@,
{
    Mutable::new(ranges)
}

/// `ReadOnlyMutable::get_cloned`: the ranges that the cell holds.
#[verifier::external_body]
pub(crate) fn ranges_get(cell: &Mutable<Vec<(UInt, UInt)>>) -> (r: Vec<(UInt, UInt)>)
    ensures
        r@ == ranges_in(*cell),
{
    cell.read_only().get_cloned()
}

/// `Mutable::lock_mut`: what is assigned through the guard is what the cell then holds. It stays
/// the same cell to those who watch it.
#[verifier::external_body]
pub(crate) fn ranges_set(cell: &mut Mutable<Vec<(UInt, UInt)>>, ranges: Vec<(UInt, UInt)>)
    ensures
        ranges_in(*final(cell)) == ranges@,
        forall|h: ReadOnlyMutable<Vec<(UInt, UInt)>>| #[trigger]
            ranges_watched(h, *final(cell)) == ranges_watched(h, *old(cell)),
{
    *cell.lock_mut() = ranges;
}

/// `Mutable::lock_mut`: what is pushed through the guard comes last in what the cell then holds.
/// It stays the same cell to those who watch it.
#[verifier::external_body]
pub(crate) fn ranges_push(cell: &mut Mutable<Vec<(UInt, UInt)>>, range: (UInt, UInt))
    ensures
        ranges_in(*final(cell)) == ranges_in(*old(cell)).push(range),
        forall|h: ReadOnlyMutable<Vec<(UInt, UInt)>>| #[trigger]
            ranges_watched(h, *final(cell)) == ranges_watched(h, *old(cell)),
{
    cell.lock_mut().push(range);
}

/// `Mutable::read_only`: a handle that watches the cell (the two share one allocation).
#[verifier::external_body]
pub(crate) fn ranges_watch(
    cell: &Mutable<Vec<(UInt, UInt)>>,
) -> (r: ReadOnlyMutable<Vec<(UInt, UInt)>>)
    ensures
        ranges_watched(r, *cell),
{
    cell.read_only()
}

/// `ReadOnlyMutable::get_cloned` on a handle that watches the cell: the ranges that the cell
/// holds. The cell is borrowed for the time of the call, so that they do not change meanwhile.
#[verifier::external_body]
pub(crate) fn ranges_shown(
    handle: &ReadOnlyMutable<Vec<(UInt, UInt)>>,
    _cell: &Mutable<Vec<(UInt, UInt)>>,
) -> (r: Vec<(UInt, UInt)>)
    requires
        ranges_watched(*handle, *_cell),
    ensures
        r@ == ranges_in(*_cell),
{
    handle.get_cloned()
}

/// `MutableVec::new_with_values`: a list of the given entries.
#[verifier::external_body]
pub(crate) fn list_new(entries: Vec<Option<String>>) -> (list: MutableVec<Option<String>>)
    ensures
        list_in(list) == optional_texts_view(entries@),
{
    MutableVec::new_with_values(entries)
}

/// `len` of `MutableVec::lock_ref`: the number of entries.
#[verifier::external_body]
pub(crate) fn list_len(list: &MutableVec<Option<String>>) -> (r: usize)
    ensures
        r == list_in(*list).len(),
{
    list.lock_ref().len()
}

/// `to_vec` of `MutableVec::lock_ref`: a copy of the entries.
#[verifier::external_body]
pub(crate) fn list_to_vec(list: &MutableVec<Option<String>>) -> (r: Vec<Option<String>>)
    ensures
        optional_texts_view(r@) == list_in(*list),
{
    list.lock_ref().to_vec()
}

/// `MutableVecLockMut::push_cloned`: the entry comes last, the others stay. Those who watch the
/// list are told.
#[verifier::external_body]
pub(crate) fn list_push(list: &mut MutableVec<Option<String>>, entry: Option<String>)
    ensures
        list_in(*final(list)) == list_in(*old(list)).push(text_view(entry)),
        forall|s: MutableSignalVec<Option<String>>| #[trigger]
            list_watched(s, *final(list)) == list_watched(s, *old(list)),
{
    list.lock_mut().push_cloned(entry);
}

/// `MutableVecLockMut::set_cloned`: the entry takes the place `index`, the others stay. Those who
/// watch the list are told.
#[verifier::external_body]
pub(crate) fn list_set(list: &mut MutableVec<Option<String>>, index: usize, entry: Option<String>)
    requires
        index < list_in(*old(list)).len(),
    ensures
        list_in(*final(list)) == list_in(*old(list)).update(index as int, text_view(entry)),
        forall|s: MutableSignalVec<Option<String>>| #[trigger]
            list_watched(s, *final(list)) == list_watched(s, *old(list)),
{
    list.lock_mut().set_cloned(index, entry);
}

/// `MutableVec::signal_vec_cloned`: the entries that the list has, and its changes from here on
/// (the list keeps the sending end of the signal).
#[verifier::external_body]
pub(crate) fn list_watch(
    list: &MutableVec<Option<String>>,
) -> (r: MutableSignalVec<Option<String>>)
    ensures
        list_watched(r, *list),
        list_at_first(r) == list_in(*list),
{
    list.signal_vec_cloned()
}

/// `MutableBTreeMap::new`: an empty map.
#[verifier::external_body]
pub(crate) fn rooms_new() -> (rooms: MutableBTreeMap<String, SlidingSyncRoom>)
    ensures
        rooms_in(rooms) == no_rooms(),
{
    MutableBTreeMap::new()
}

/// `MutableBTreeMap::with_values` of a copy of the entries of another map: a map of its own with
/// the same entries.
#[verifier::external_body]
pub(crate) fn rooms_copy(
    rooms: &MutableBTreeMap<String, SlidingSyncRoom>,
) -> (r: MutableBTreeMap<String, SlidingSyncRoom>)
    ensures
        rooms_in(r) == rooms_in(*rooms),
{
    MutableBTreeMap::with_values(rooms.lock_ref().clone())
}

/// `MutableBTreeMapLockMut::insert_cloned`: the room is what the map holds under the id, the
/// other entries stay. Those who watch the map are told.
#[verifier::external_body]
pub(crate) fn rooms_insert(
    rooms: &mut MutableBTreeMap<String, SlidingSyncRoom>,
    id: String,
    room: SlidingSyncRoom,
)
    ensures
        rooms_in(*final(rooms)) == rooms_in(*old(rooms)).insert(id@, room@),
        forall|s: MutableSignalMap<String, SlidingSyncRoom>| #[trigger]
            rooms_watched(s, *final(rooms)) == rooms_watched(s, *old(rooms)),
{
    rooms.lock_mut().insert_cloned(id, room);
}

/// `get` of `MutableBTreeMap::lock_ref`: a copy of what the map holds under the id, if anything.
#[verifier::external_body]
pub(crate) fn rooms_get(
    rooms: &MutableBTreeMap<String, SlidingSyncRoom>,
    id: &String,
) -> (r: Option<SlidingSyncRoom>)
    ensures
        r is Some <==> rooms_in(*rooms).contains_key(id@),
        r matches Some(room) ==> room@ == rooms_in(*rooms)[id@],
{
    rooms.lock_ref().get(id).cloned()
}

/// `MutableBTreeMap::signal_map_cloned`: the entries that the map has, and its changes from here
/// on (the map keeps the sending end of the signal).
#[verifier::external_body]
pub(crate) fn rooms_watch(
    rooms: &MutableBTreeMap<String, SlidingSyncRoom>,
) -> (r: MutableSignalMap<String, SlidingSyncRoom>)
    ensures
        rooms_watched(r, *rooms),
        rooms_at_first(r) == rooms_in(*rooms),
{
    rooms.signal_map_cloned()
}

/// `MutableVec::new_with_values`: a list of the given numbers.
#[verifier::external_body]
pub(crate) fn numbers_new(numbers: Vec<usize>) -> (list: MutableVec<usize>)
    ensures
        numbers_in(list) == numbers@,
{
    MutableVec::new_with_values(numbers)
}

/// `MutableVecLockMut::push_cloned`: the number comes last, the others stay. Those who watch the
/// list are told.
#[verifier::external_body]
pub(crate) fn numbers_push(list: &mut MutableVec<usize>, number: usize)
    ensures
        numbers_in(*final(list)) == numbers_in(*old(list)).push(number),
        forall|s: MutableSignalVec<usize>| #[trigger]
            numbers_watched(s, *final(list)) == numbers_watched(s, *old(list)),
{
    list.lock_mut().push_cloned(number);
}

/// `MutableVec::signal_vec_cloned`: the numbers that the list has, and its changes from here on
/// (the list keeps the sending end of the signal).
#[verifier::external_body]
pub(crate) fn numbers_watch(list: &MutableVec<usize>) -> (r: MutableSignalVec<usize>)
    ensures
        numbers_watched(r, *list),
        numbers_at_first(r) == numbers_in(*list),
{
    list.signal_vec_cloned()
}

/// Whether `ruma` takes the text for a server name.
pub uninterp spec fn is_server_name(text: Seq<char>) -> bool;

/// What keeps a text from being a room id, if anything does.
pub open spec fn room_id_fault(text: Seq<char>) -> Option<RoomIdError> {
    if vstd::utf8::encode_utf8(text).len() > 255 {
        Some(RoomIdError::MaximumLengthExceeded)
    } else if text.len() == 0 || text[0] != '!' {
        Some(RoomIdError::MissingLeadingSigil)
    } else if !text.contains(':') {
        Some(RoomIdError::MissingDelimiter)
    } else if !is_server_name(text.skip(text.index_of_first(':')->0 + 1)) {
        Some(RoomIdError::InvalidServerName)
    } else {
        None
    }
}

/// `ruma::RoomId::parse`: a text of at most 255 bytes that begins with `!` and in which a server
/// name follows the first `:` is a room id, with that text; of another text it says which of
/// these it lacks, the first one in this order. What a server name is, is left to `ruma`.
#[verifier::external_body]
pub(crate) fn parse_room_id(text: &String) -> (r: Result<String, RoomIdError>)
    ensures
        r matches Ok(id) ==> id@ == text@ && room_id_fault(text@) is None
            && is_server_name(text@.skip(text@.index_of_first(':')->0 + 1)),
        r matches Err(e) ==> room_id_fault(text@) == Some(e),
{
    match ruma::RoomId::parse(text.as_str()) {
        Ok(id) => Ok(String::from(id)),
        Err(ruma::identifiers::Error::MaximumLengthExceeded) => Err(
            RoomIdError::MaximumLengthExceeded,
        ),
        Err(ruma::identifiers::Error::MissingLeadingSigil) => Err(RoomIdError::MissingLeadingSigil),
        Err(ruma::identifiers::Error::MissingDelimiter) => Err(RoomIdError::MissingDelimiter),
        Err(_) => Err(RoomIdError::InvalidServerName),
    }
}

/// A kind of state event that a view asks for by default.
#[derive(Clone, Copy, Debug, PartialEq, Eq, Structural)]
pub enum StateEvent {
    RoomAvatar,
    RoomMember,
    RoomEncryption,
    RoomTombstone,
}

/// The name of a kind of state event.
pub open spec fn event_type_name(event: StateEvent) -> Seq<char> {
    match event {
        StateEvent::RoomAvatar => "m.room.avatar"@,
        StateEvent::RoomMember => "m.room.member"@,
        StateEvent::RoomEncryption => "m.room.encryption"@,
        StateEvent::RoomTombstone => "m.room.tombstone"@,
    }
}

/// `ruma::events::EventType::as_str`: the name of the event type.
#[verifier::external_body]
pub(crate) fn event_type(event: StateEvent) -> (r: String)
    ensures
        r@ == event_type_name(event),
{
    let kind = match event {
        StateEvent::RoomAvatar => ruma::events::EventType::RoomAvatar,
        StateEvent::RoomMember => ruma::events::EventType::RoomMember,
        StateEvent::RoomEncryption => ruma::events::EventType::RoomEncryption,
        StateEvent::RoomTombstone => ruma::events::EventType::RoomTombstone,
    };
    kind.as_str().to_owned()
}

} // verus!
