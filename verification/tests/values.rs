use sliding_sync::types::MAX_SAFE_UINT;
use sliding_sync::{RoomIdError, SlidingSyncMode, SlidingSyncState, SyncError, UInt};

#[test]
fn integers_have_a_limit() {
    assert_eq!(UInt::new(0).unwrap().value(), 0);
    assert_eq!(UInt::new(MAX_SAFE_UINT).unwrap().value(), 9_007_199_254_740_991);
    assert_eq!(UInt::new(MAX_SAFE_UINT + 1), None);
    assert_eq!(UInt::new(u64::MAX), None);
}

#[test]
fn integers_convert() {
    assert_eq!(UInt::from(7u32), UInt::new(7).unwrap());
    assert_eq!(UInt::from(7u16), UInt::from(7u8));
    assert_eq!(UInt::from(u32::MAX).to_u32(), Some(u32::MAX));
    assert_eq!(UInt::new(u32::MAX as u64 + 1).unwrap().to_u32(), None);
}

#[test]
fn defaults_of_state_and_mode() {
    assert_eq!(SlidingSyncState::default(), SlidingSyncState::Cold);
    assert_eq!(SlidingSyncMode::default(), SlidingSyncMode::FullSync);
}

#[test]
fn errors_in_words() {
    assert_eq!(SyncError::MissingRoomId.message(), "Sliding Sync without RoomdId");
    assert_eq!(
        SyncError::InvalidRoomId(RoomIdError::MaximumLengthExceeded).message(),
        "ID exceeds 255 bytes"
    );
    assert_eq!(
        SyncError::InvalidRoomId(RoomIdError::MissingLeadingSigil).message(),
        "leading sigil is incorrect or missing"
    );
    assert_eq!(
        SyncError::InvalidRoomId(RoomIdError::MissingDelimiter).message(),
        "required colon is missing"
    );
    assert_eq!(
        SyncError::InvalidRoomId(RoomIdError::InvalidServerName).message(),
        "server name is not a valid IP address or domain name"
    );
    assert_eq!(
        SyncError::RangeTooLarge.message(),
        "out of range integral type conversion attempted"
    );
    assert_eq!(SyncError::CountTooLarge.message(), "conversion always works");
}

#[test]
fn errors_read_like_those_of_the_parser() {
    let long = format!("!{}:example.org", "a".repeat(255));
    let cases = vec![
        (long.as_str(), RoomIdError::MaximumLengthExceeded),
        ("room:example.org", RoomIdError::MissingLeadingSigil),
        ("!room", RoomIdError::MissingDelimiter),
        ("!room:exa mple.org", RoomIdError::InvalidServerName),
    ];
    for (text, error) in cases {
        let theirs = ruma::RoomId::parse(text).unwrap_err().to_string();
        assert_eq!(SyncError::InvalidRoomId(error).message(), theirs);
    }
}
