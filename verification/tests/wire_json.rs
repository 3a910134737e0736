use chat_core::codec::encode;
use chat_core::events::{ClientboundNotification, RelationshipStatus, User, WebSocketError};

// The verified encoder's output parses as JSON under serde_json with the
// exact tag names the wire contract fixes.
#[test]
fn encoder_output_is_json_with_the_wire_tags() {
    let n = ClientboundNotification::UserRelationship {
        id: "u1".to_string(),
        user: "u2".to_string(),
        status: RelationshipStatus::NoRelation,
    };
    let v: serde_json::Value = serde_json::from_str(&encode(&n)).unwrap();
    assert_eq!(v.get("type").unwrap().as_str().unwrap(), "UserRelationship");
    assert_eq!(v.get("id").unwrap().as_str().unwrap(), "u1");
    assert_eq!(v.get("user").unwrap().as_str().unwrap(), "u2");
    assert_eq!(v.get("status").unwrap().as_str().unwrap(), "None");
}

#[test]
fn encoded_error_and_ready_parse_as_json() {
    let e = ClientboundNotification::Error(WebSocketError::InternalError {
        at: "route".to_string(),
    });
    let v: serde_json::Value = serde_json::from_str(&encode(&e)).unwrap();
    assert_eq!(v.get("type").unwrap().as_str().unwrap(), "Error");
    assert_eq!(v.get("error").unwrap().as_str().unwrap(), "InternalError");
    assert_eq!(v.get("at").unwrap().as_str().unwrap(), "route");

    let r = ClientboundNotification::Ready {
        users: vec![User { id: "u1".to_string(), username: "alice".to_string() }],
    };
    let v: serde_json::Value = serde_json::from_str(&encode(&r)).unwrap();
    assert_eq!(v.get("type").unwrap().as_str().unwrap(), "Ready");
    let users = v.get("users").unwrap().as_array().unwrap();
    assert_eq!(users.len(), 1);
    assert_eq!(users[0].get("username").unwrap().as_str().unwrap(), "alice");
}
