use base64::Engine;
use base64::prelude::BASE64_URL_SAFE;

use axtell_server::cursor::NodeId;
use axtell_server::errors::CursorError;
use axtell_server::models::SchemaTable;

fn b64(payload: &str) -> String {
    BASE64_URL_SAFE.encode(payload)
}

#[test]
fn encode_matches_base64_of_payload() {
    assert_eq!(NodeId(SchemaTable::Users, 7).encode(), b64("users:7"));
    assert_eq!(NodeId(SchemaTable::Challenges, 5).encode(), b64("challenges:5"));
    assert_eq!(NodeId(SchemaTable::ChallengeTypes, 2).encode(), b64("challenge_types:2"));
    assert_eq!(NodeId(SchemaTable::Responses, 10).encode(), b64("responses:10"));
    assert_eq!(NodeId(SchemaTable::Comments, 123).encode(), b64("comments:123"));
    assert_eq!(NodeId(SchemaTable::Users, -42).encode(), b64("users:-42"));
}

#[test]
fn round_trip_every_collection() {
    let tables = [
        SchemaTable::Challenges,
        SchemaTable::Comments,
        SchemaTable::ChallengeTypes,
        SchemaTable::Responses,
        SchemaTable::Users,
    ];
    for t in tables {
        let id = NodeId(t, 17);
        assert_eq!(NodeId::decode(&id.encode()), Ok(id));
    }
}

#[test]
fn round_trip_edge_ids() {
    for id in [0, 1, 9, 10, 42, -1, i32::MAX, i32::MIN] {
        let cursor = NodeId(SchemaTable::Users, id);
        assert_eq!(NodeId::decode(&cursor.encode()), Ok(cursor));
    }
}

#[test]
fn decode_rejects_non_base64() {
    assert_eq!(NodeId::decode("not base64!!"), Err(CursorError::MalformedCursor));
    assert_eq!(NodeId::decode("dXNlcnM6NQ"), Err(CursorError::MalformedCursor));
    assert_eq!(NodeId::decode(""), Err(CursorError::MalformedCursor));
}

#[test]
fn decode_rejects_payload_without_delimiter() {
    assert_eq!(NodeId::decode(&b64("users")), Err(CursorError::MalformedCursor));
    assert_eq!(NodeId::decode(&b64("")), Err(CursorError::MalformedCursor));
}

#[test]
fn decode_rejects_unknown_collection() {
    assert_eq!(NodeId::decode(&b64("widgets:5")), Err(CursorError::UnknownCollection));
    assert_eq!(NodeId::decode(&b64("Users:5")), Err(CursorError::UnknownCollection));
    assert_eq!(NodeId::decode(&b64(":5")), Err(CursorError::UnknownCollection));
}

#[test]
fn decode_rejects_bad_ids() {
    assert_eq!(NodeId::decode(&b64("users:xyz")), Err(CursorError::InvalidId));
    assert_eq!(NodeId::decode(&b64("users:")), Err(CursorError::InvalidId));
    assert_eq!(NodeId::decode(&b64("users:-")), Err(CursorError::InvalidId));
    assert_eq!(NodeId::decode(&b64("users:007")), Err(CursorError::InvalidId));
    assert_eq!(NodeId::decode(&b64("users:-0")), Err(CursorError::InvalidId));
    assert_eq!(NodeId::decode(&b64("users:1:2")), Err(CursorError::InvalidId));
    assert_eq!(NodeId::decode(&b64("users:2147483648")), Err(CursorError::InvalidId));
    assert_eq!(NodeId::decode(&b64("users:-2147483649")), Err(CursorError::InvalidId));
}

#[test]
fn decode_accepts_extreme_ids() {
    assert_eq!(
        NodeId::decode(&b64("users:2147483647")),
        Ok(NodeId(SchemaTable::Users, i32::MAX))
    );
    assert_eq!(
        NodeId::decode(&b64("users:-2147483648")),
        Ok(NodeId(SchemaTable::Users, i32::MIN))
    );
}

#[test]
fn from_str_knows_exactly_the_five_collections() {
    assert_eq!(SchemaTable::from_str("challenges"), Ok(SchemaTable::Challenges));
    assert_eq!(SchemaTable::from_str("comments"), Ok(SchemaTable::Comments));
    assert_eq!(SchemaTable::from_str("challenge_types"), Ok(SchemaTable::ChallengeTypes));
    assert_eq!(SchemaTable::from_str("responses"), Ok(SchemaTable::Responses));
    assert_eq!(SchemaTable::from_str("users"), Ok(SchemaTable::Users));
    let err = SchemaTable::from_str("widgets").unwrap_err();
    assert_eq!(err.table_name().as_str(), "widgets");
}
