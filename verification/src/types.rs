//! The values that requests and responses are made of, and the errors of the library.
//!
//! Each type that holds text or lists comes with a mathematical model (`RoomModel` for
//! `SlidingSyncRoom`, and so on), which is its view and what the contracts speak of.
use vstd::prelude::*;

verus! {

/// The largest value that a [`UInt`] can have.
pub const MAX_SAFE_UINT: u64 = 0x001F_FFFF_FFFF_FFFF;

/// An unsigned integer of the protocol: one that a double represents exactly.
#[derive(Clone, Copy, Debug, PartialEq, Eq, Structural)]
pub struct UInt {
    value: u64,
}

impl UInt {
    #[verifier::type_invariant]
    spec fn within_limit(self) -> bool {
        self.value <= MAX_SAFE_UINT
    }

    pub closed spec fn view(self) -> nat {
        self.value as nat
    }

    /// The model of an integer is its value.
    proof fn models_its_value(self)
        ensures
            self@ == self.value,
    {
    }

    /// The integer with the value `n`.
    pub closed spec fn of(n: u32) -> UInt {
        UInt { value: n as u64 }
    }

    /// `value` as an integer of the protocol, if it is small enough for one.
    pub fn new(value: u64) -> (r: Option<UInt>)
        ensures
            r is Some <==> value <= MAX_SAFE_UINT,
            r matches Some(n) ==> n@ == value,
    {
        if value <= MAX_SAFE_UINT {
            Some(UInt { value })
        } else {
            None
        }
    }

    /// The value as a machine integer.
    pub fn value(self) -> (r: u64)
        ensures
            r == self@,
            r <= MAX_SAFE_UINT,
    {
        proof {
            use_type_invariant(&self);
        }
        self.value
    }

    /// The value as a `u32`, if it fits one.
    pub fn to_u32(self) -> (r: Option<u32>)
        ensures
            r is Some <==> self@ <= u32::MAX,
            r matches Some(n) ==> n == self@,
    {
        if self.value <= u32::MAX as u64 {
            Some(self.value as u32)
        } else {
            None
        }
    }
}

impl From<u32> for UInt {
    fn from(n: u32) -> (r: UInt) {
        UInt { value: n as u64 }
    }
}

impl vstd::std_specs::convert::FromSpecImpl<u32> for UInt {
    open spec fn obeys_from_spec() -> bool {
        true
    }

    open spec fn from_spec(n: u32) -> UInt {
        UInt::of(n)
    }
}

impl From<u16> for UInt {
    fn from(n: u16) -> (r: UInt) {
        UInt { value: n as u64 }
    }
}

impl vstd::std_specs::convert::FromSpecImpl<u16> for UInt {
    open spec fn obeys_from_spec() -> bool {
        true
    }

    open spec fn from_spec(n: u16) -> UInt {
        UInt::of(n as u32)
    }
}

impl From<u8> for UInt {
    fn from(n: u8) -> (r: UInt) {
        UInt { value: n as u64 }
    }
}

impl vstd::std_specs::convert::FromSpecImpl<u8> for UInt {
    open spec fn obeys_from_spec() -> bool {
        true
    }

    open spec fn from_spec(n: u8) -> UInt {
        UInt::of(n as u32)
    }
}

/// The integer made from `n` has the value `n`.
pub proof fn uint_of_value(n: u32)
    ensures
        UInt::of(n)@ == n,
{
}

/// An integer is determined by its value.
pub proof fn uint_by_value(a: UInt, b: UInt)
    requires
        a@ == b@,
    ensures
        a == b,
{
}

/// The state that a view is in.
///
/// The lifetime of a view usually starts at a `Preload`, getting a fast response for the first
/// given number of rooms, then switches into `CatchingUp`, during which the view fetches the
/// remaining rooms, usually in order, sometimes in batches. Once that is ready, it switches into
/// `Live`.
#[derive(Clone, Copy, Debug, PartialEq, Eq, Structural)]
pub enum SlidingSyncState {
    /// Hasn't started yet
    Cold,
    /// We are quickly preloading a preview of the most important rooms
    Preload,
    /// We are trying to load all remaining rooms, might be in batches
    CatchingUp,
    /// We are all caught up and now only sync the live responses.
    Live,
}

impl Default for SlidingSyncState {
    fn default() -> (r: SlidingSyncState)
        ensures
            r == SlidingSyncState::Cold,
    {
        SlidingSyncState::Cold
    }
}

/// Whether two states are the same.
pub fn same_state(a: &SlidingSyncState, b: &SlidingSyncState) -> (r: bool)
    ensures
        r == (*a == *b),
{
    *a == *b
}

/// The mode by which a view fetches its data.
#[derive(Clone, Copy, Debug, PartialEq, Eq, Structural)]
pub enum SlidingSyncMode {
    /// Sync all rooms in the background, batch after batch
    FullSync,
    /// Only sync the specific windows defined
    Selective,
}

impl Default for SlidingSyncMode {
    fn default() -> (r: SlidingSyncMode)
        ensures
            r == SlidingSyncMode::FullSync,
    {
        SlidingSyncMode::FullSync
    }
}

/// Where a request generator is.
#[derive(Clone, Copy, Debug, PartialEq, Eq, Structural)]
pub enum InnerSlidingSyncViewRequestGenerator {
    /// Fetching all rooms: the current position and the batch size
    FullSync(u32, u32),
    /// Fetching the ranges of the view
    Live,
}

/// The text of an optional string.
pub open spec fn text_view(s: Option<String>) -> Option<Seq<char>> {
    match s {
        Some(t) => Some(t@),
        None => None,
    }
}

/// The texts of a list of strings.
pub open spec fn texts_view(s: Seq<String>) -> Seq<Seq<char>> {
    s.map_values(|t: String| t@)
}

/// The texts of a list of optional strings.
pub open spec fn optional_texts_view(s: Seq<Option<String>>) -> Seq<Option<Seq<char>>> {
    s.map_values(|t: Option<String>| text_view(t))
}

/// The texts of a list of pairs of strings.
pub open spec fn pairs_view(s: Seq<(String, String)>) -> Seq<(Seq<char>, Seq<char>)> {
    s.map_values(|p: (String, String)| (p.0@, p.1@))
}

/// A room as the server describes it.
#[derive(Debug)]
pub struct SlidingSyncRoom {
    /// The room's id, where the server gave one.
    pub room_id: Option<String>,
    /// What the server says of the room, as JSON text.
    pub content: String,
}

/// The model of a [`SlidingSyncRoom`].
#[verifier::ext_equal]
pub struct RoomModel {
    pub room_id: Option<Seq<char>>,
    pub content: Seq<char>,
}

impl View for SlidingSyncRoom {
    type V = RoomModel;

    open spec fn view(&self) -> RoomModel {
        RoomModel { room_id: text_view(self.room_id), content: self.content@ }
    }
}

impl Clone for SlidingSyncRoom {
    fn clone(&self) -> (r: SlidingSyncRoom)
        ensures
            r@ == self@,
    {
        SlidingSyncRoom { room_id: self.room_id.clone(), content: self.content.clone() }
    }
}

/// The models of a list of rooms.
pub open spec fn rooms_view(s: Seq<SlidingSyncRoom>) -> Seq<RoomModel> {
    s.map_values(|r: SlidingSyncRoom| r@)
}

/// The models of a list of rooms with the ids that they are known under.
pub open spec fn entries_view(s: Seq<(String, SlidingSyncRoom)>) -> Seq<(Seq<char>, RoomModel)> {
    s.map_values(|e: (String, SlidingSyncRoom)| (e.0@, e.1@))
}

/// The map without a room.
pub open spec fn no_rooms() -> Map<Seq<char>, RoomModel> {
    Map::empty()
}

/// What an operation does to the list of rooms.
#[derive(Clone, Copy, Debug, PartialEq, Eq, Structural)]
pub enum SlidingOp {
    /// The rooms of a range, in order
    Sync,
    /// A room comes in at a position
    Insert,
    /// A room leaves its position
    Delete,
    /// A room has changed in its position
    Update,
    /// The rooms of a range are no longer kept up to date
    Invalidate,
}

/// An operation of a response.
#[derive(Debug)]
pub struct SyncOp {
    /// The list that it applies to: the position of the list in the request.
    pub list: UInt,
    /// What it does.
    pub op: SlidingOp,
    /// The range of positions that it covers.
    pub range: (UInt, UInt),
    /// The rooms that it brings.
    pub rooms: Vec<SlidingSyncRoom>,
}

/// The model of a [`SyncOp`].
#[verifier::ext_equal]
pub struct OpModel {
    pub list: UInt,
    pub op: SlidingOp,
    pub range: (UInt, UInt),
    pub rooms: Seq<RoomModel>,
}

impl View for SyncOp {
    type V = OpModel;

    open spec fn view(&self) -> OpModel {
        OpModel { list: self.list, op: self.op, range: self.range, rooms: rooms_view(self.rooms@) }
    }
}

/// The models of a list of operations.
pub open spec fn ops_view(s: Seq<SyncOp>) -> Seq<OpModel> {
    s.map_values(|o: SyncOp| o@)
}

/// The models of a list of operations that are held elsewhere.
pub open spec fn op_refs_view(s: Seq<&SyncOp>) -> Seq<OpModel> {
    s.map_values(|o: &SyncOp| o@)
}

/// The models of a list in which an operation that could not be read is `None`.
pub open spec fn read_ops_view(s: Seq<Option<SyncOp>>) -> Seq<Option<OpModel>> {
    s.map_values(
        |o: Option<SyncOp>|
            match o {
                Some(op) => Some(op@),
                None => None,
            },
    )
}

/// What a request asks for one list.
#[derive(Debug)]
pub struct SyncRequestList {
    /// The ranges of positions to fetch.
    pub ranges: Vec<(UInt, UInt)>,
    /// The order of the list.
    pub sort: Option<Vec<String>>,
    /// The state events to bring with each room: pairs of event type and state key.
    pub required_state: Option<Vec<(String, String)>>,
    /// How many events of the timeline to bring with each room.
    pub timeline_limit: Option<UInt>,
    /// The filter of the list, as JSON text.
    pub filters: Option<String>,
}

/// The model of a [`SyncRequestList`].
#[verifier::ext_equal]
pub struct RequestListModel {
    pub ranges: Seq<(UInt, UInt)>,
    pub sort: Option<Seq<Seq<char>>>,
    pub required_state: Option<Seq<(Seq<char>, Seq<char>)>>,
    pub timeline_limit: Option<UInt>,
    pub filters: Option<Seq<char>>,
}

impl View for SyncRequestList {
    type V = RequestListModel;

    open spec fn view(&self) -> RequestListModel {
        RequestListModel {
            ranges: self.ranges@,
            sort: match self.sort {
                Some(s) => Some(texts_view(s@)),
                None => None,
            },
            required_state: match self.required_state {
                Some(s) => Some(pairs_view(s@)),
                None => None,
            },
            timeline_limit: self.timeline_limit,
            filters: text_view(self.filters),
        }
    }
}

/// The models of what a request asks for each of its lists.
pub open spec fn request_lists_view(s: Seq<SyncRequestList>) -> Seq<RequestListModel> {
    s.map_values(|l: SyncRequestList| l@)
}

/// A request to the server.
#[derive(Debug)]
pub struct Request {
    /// The position of the last response, where there was one.
    pub pos: Option<String>,
    /// What is asked for, list by list.
    pub lists: Vec<SyncRequestList>,
}

/// The model of a [`Request`].
#[verifier::ext_equal]
pub struct RequestModel {
    pub pos: Option<Seq<char>>,
    pub lists: Seq<RequestListModel>,
}

impl View for Request {
    type V = RequestModel;

    open spec fn view(&self) -> RequestModel {
        RequestModel { pos: text_view(self.pos), lists: request_lists_view(self.lists@) }
    }
}

/// A response of the server.
#[derive(Debug)]
pub struct Response {
    /// The position to go on from.
    pub pos: String,
    /// The operations, where there are any; `None` stands for one that could not be read.
    pub ops: Option<Vec<Option<SyncOp>>>,
    /// The number of rooms of each list.
    pub counts: Vec<UInt>,
}

/// The model of a [`Response`].
#[verifier::ext_equal]
pub struct ResponseModel {
    pub pos: Seq<char>,
    pub ops: Option<Seq<Option<OpModel>>>,
    pub counts: Seq<UInt>,
}

impl View for Response {
    type V = ResponseModel;

    open spec fn view(&self) -> ResponseModel {
        ResponseModel {
            pos: self.pos@,
            ops: match self.ops {
                Some(ops) => Some(read_ops_view(ops@)),
                None => None,
            },
            counts: self.counts@,
        }
    }
}

/// Why a text is no room id.
#[derive(Clone, Copy, Debug, PartialEq, Eq, Structural)]
pub enum RoomIdError {
    /// It is longer than 255 bytes.
    MaximumLengthExceeded,
    /// It does not begin with `!`.
    MissingLeadingSigil,
    /// It has no `:` between its local part and its server name.
    MissingDelimiter,
    /// What follows the first `:` is no server name.
    InvalidServerName,
}

/// Why a response could not be taken in.
#[derive(Clone, Copy, Debug, PartialEq, Eq, Structural)]
pub enum SyncError {
    /// A room came without an id.
    MissingRoomId,
    /// A room came with an id that is none.
    InvalidRoomId(RoomIdError),
    /// The range of an operation starts beyond the positions that a list can have.
    RangeTooLarge,
    /// A list has more rooms than can be counted.
    CountTooLarge,
}

/// What an error says.
pub open spec fn error_message(e: SyncError) -> Seq<char> {
    match e {
        SyncError::MissingRoomId => "Sliding Sync without RoomdId"@,
        SyncError::InvalidRoomId(RoomIdError::MaximumLengthExceeded) => "ID exceeds 255 bytes"@,
        SyncError::InvalidRoomId(
            RoomIdError::MissingLeadingSigil,
        ) => "leading sigil is incorrect or missing"@,
        SyncError::InvalidRoomId(RoomIdError::MissingDelimiter) => "required colon is missing"@,
        SyncError::InvalidRoomId(
            RoomIdError::InvalidServerName,
        ) => "server name is not a valid IP address or domain name"@,
        SyncError::RangeTooLarge => "out of range integral type conversion attempted"@,
        SyncError::CountTooLarge => "conversion always works"@,
    }
}

impl SyncError {
    /// The error in words.
    pub fn message(&self) -> (r: String)
        ensures
            r@ == error_message(*self),
    {
        let text: &str = match self {
            SyncError::MissingRoomId => "Sliding Sync without RoomdId",
            SyncError::InvalidRoomId(RoomIdError::MaximumLengthExceeded) => "ID exceeds 255 bytes",
            SyncError::InvalidRoomId(
                RoomIdError::MissingLeadingSigil,
            ) => "leading sigil is incorrect or missing",
            SyncError::InvalidRoomId(RoomIdError::MissingDelimiter) => "required colon is missing",
            SyncError::InvalidRoomId(
                RoomIdError::InvalidServerName,
            ) => "server name is not a valid IP address or domain name",
            SyncError::RangeTooLarge => "out of range integral type conversion attempted",
            SyncError::CountTooLarge => "conversion always works",
        };
        text.to_owned()
    }
}

} // verus!
