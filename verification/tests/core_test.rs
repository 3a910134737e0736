use chat_core::codec::{decode, decode_serverbound, encode};
use chat_core::events::{
    ClientboundNotification, RelationshipStatus, ServerboundNotification, User, WebSocketError,
};
use chat_core::message::Create;
use chat_core::permissions::{authorize, Error, Permission, PermissionSet};
use chat_core::rank::{compare, effective_rank, is_elevated_over, RankOrder};
use chat_core::registry::{ConnState, Registry, VerifyOutcome};
use chat_core::role::{apply_partial, FieldsRole, PartialRole, Role};
use chat_core::server::{member_rank, req, DataEditRole, Member, RoleEntry, Server};

fn plain_role(name: &str, colour: Option<&str>, hoist: bool, rank: i64) -> Role {
    Role {
        name: name.to_string(),
        colour: colour.map(|c| c.to_string()),
        hoist,
        rank,
        role_requestable: None,
        info_required: None,
        payment_required: None,
        approvement_required: None,
        expires: None,
        cost: None,
        duration: None,
        duration_type: None,
        approval_roles: None,
        fields: None,
    }
}

fn empty_edit() -> DataEditRole {
    DataEditRole {
        name: None,
        colour: None,
        hoist: None,
        rank: None,
        remove: None,
        role_requestable: None,
        info_required: None,
        payment_required: None,
        approvement_required: None,
        expires: None,
        cost: None,
        duration: None,
        duration_type: None,
        approval_roles: None,
        fields: None,
    }
}

fn two_role_server() -> Server {
    Server {
        id: "server1".to_string(),
        roles: vec![
            RoleEntry { id: "owner".to_string(), role: plain_role("Owner", None, false, -100) },
            RoleEntry { id: "member".to_string(), role: plain_role("Member", None, false, 0) },
        ],
    }
}

fn manage_role_perms() -> PermissionSet {
    PermissionSet { bits: 0xFF }
}

#[test]
fn rank_compare_orders_by_privilege() {
    assert_eq!(compare(-100, 0), RankOrder::Higher);
    assert_eq!(compare(0, 0), RankOrder::Equal);
    assert_eq!(compare(5, -1), RankOrder::Lower);
}

#[test]
fn elevation_is_strict() {
    assert!(is_elevated_over(-100, -50));
    assert!(!is_elevated_over(0, 0));
    assert!(!is_elevated_over(0, -50));
}

#[test]
fn effective_rank_is_min_or_sentinel() {
    assert_eq!(effective_rank(&vec![]), i64::MIN);
    assert_eq!(effective_rank(&vec![0, -100, 5]), -100);
    assert_eq!(effective_rank(&vec![7]), 7);
}

#[test]
fn member_rank_joins_roles() {
    let server = two_role_server();
    let member = Member { roles: vec!["member".to_string(), "owner".to_string()] };
    assert_eq!(member_rank(&server.roles, &member), -100);
    let lone = Member { roles: vec!["member".to_string()] };
    assert_eq!(member_rank(&server.roles, &lone), 0);
    let none = Member { roles: vec![] };
    assert_eq!(member_rank(&server.roles, &none), i64::MIN);
}

#[test]
fn authorize_denials() {
    let perms = PermissionSet { bits: 0 };
    assert_eq!(
        authorize(&perms, Permission::ManageRole, 0, None),
        Err(Error::InsufficientPermission)
    );
    let perms = manage_role_perms();
    assert_eq!(authorize(&perms, Permission::ManageRole, 0, Some(-50)), Err(Error::NotElevated));
    assert_eq!(authorize(&perms, Permission::ManageRole, 0, Some(0)), Err(Error::NotElevated));
    assert_eq!(authorize(&perms, Permission::ManageRole, -100, Some(-50)), Ok(()));
}

// Actor of effective rank 0 proposing rank -50 is denied; an owner of
// effective rank -100 proposing -50 is granted.
#[test]
fn rank_edit_scenario() {
    let mut server = two_role_server();
    let mut data = empty_edit();
    data.rank = Some(-50);
    let r = req(&mut server, &manage_role_perms(), Some(0), &"member".to_string(), data);
    assert!(matches!(r, Err(Error::NotElevated)));
    // denied: object unchanged
    assert_eq!(server.roles[1].role.rank, 0);

    let mut data = empty_edit();
    data.rank = Some(-50);
    let r = req(&mut server, &manage_role_perms(), Some(-100), &"member".to_string(), data);
    let updated = r.unwrap();
    assert_eq!(updated.rank, -50);
    assert_eq!(server.roles[1].role.rank, -50);
}

#[test]
fn edit_requires_permission_and_existing_role() {
    let mut server = two_role_server();
    let r = req(
        &mut server,
        &PermissionSet { bits: 0 },
        Some(-100),
        &"member".to_string(),
        empty_edit(),
    );
    assert!(matches!(r, Err(Error::InsufficientPermission)));
    let r = req(
        &mut server,
        &manage_role_perms(),
        Some(-100),
        &"ghost_role".to_string(),
        empty_edit(),
    );
    assert!(matches!(r, Err(Error::NotFound)));
}

// Update {hoist: true} with remove-set {colour} on {colour:"#fff",
// hoist:false} yields {colour: cleared, hoist: true}.
#[test]
fn removal_takes_precedence() {
    let mut role = plain_role("r", Some("#fff"), false, 1);
    let mut partial = PartialRole {
        name: None,
        colour: None,
        hoist: Some(true),
        rank: None,
        role_requestable: None,
        info_required: None,
        payment_required: None,
        approvement_required: None,
        expires: None,
        cost: None,
        duration: None,
        duration_type: None,
        approval_roles: None,
        fields: None,
    };
    // removal wins even when a value is also supplied for the same field
    partial.colour = Some("#000".to_string());
    apply_partial(&mut role, partial, &vec![FieldsRole::Colour]);
    assert_eq!(role.colour, None);
    assert!(role.hoist);
    assert_eq!(role.name, "r");
}

#[test]
fn apply_is_idempotent() {
    let make_partial = || PartialRole {
        name: Some("renamed".to_string()),
        colour: Some("#123".to_string()),
        hoist: Some(true),
        rank: Some(9),
        role_requestable: Some(true),
        info_required: None,
        payment_required: None,
        approvement_required: None,
        expires: None,
        cost: Some(4),
        duration: None,
        duration_type: None,
        approval_roles: None,
        fields: None,
    };
    let remove = vec![FieldsRole::Duration, FieldsRole::Colour];
    let mut once = plain_role("r", Some("#fff"), false, 1);
    apply_partial(&mut once, make_partial(), &remove);
    let mut twice = plain_role("r", Some("#fff"), false, 1);
    apply_partial(&mut twice, make_partial(), &remove);
    apply_partial(&mut twice, make_partial(), &remove);
    assert_eq!(once.name, twice.name);
    assert_eq!(once.colour, twice.colour);
    assert_eq!(once.hoist, twice.hoist);
    assert_eq!(once.rank, twice.rank);
    assert_eq!(once.role_requestable, twice.role_requestable);
    assert_eq!(once.cost, twice.cost);
    assert_eq!(once.duration, twice.duration);
}

#[test]
fn wire_format_is_exact() {
    assert_eq!(encode(&ClientboundNotification::Authenticated), "{\"type\":\"Authenticated\"}");
    assert_eq!(
        encode(&ClientboundNotification::Error(WebSocketError::InvalidSession)),
        "{\"type\":\"Error\",\"error\":\"InvalidSession\"}"
    );
    assert_eq!(
        encode(&ClientboundNotification::Error(WebSocketError::InternalError {
            at: "route".to_string()
        })),
        "{\"type\":\"Error\",\"error\":\"InternalError\",\"at\":\"route\"}"
    );
    assert_eq!(
        encode(&ClientboundNotification::UserPresence { id: "u1".to_string(), online: true }),
        "{\"type\":\"UserPresence\",\"id\":\"u1\",\"online\":true}"
    );
    assert_eq!(
        encode(&ClientboundNotification::UserRelationship {
            id: "u1".to_string(),
            user: "u2".to_string(),
            status: RelationshipStatus::Friend,
        }),
        "{\"type\":\"UserRelationship\",\"id\":\"u1\",\"user\":\"u2\",\"status\":\"Friend\"}"
    );
    assert_eq!(
        encode(&ClientboundNotification::Ready {
            users: vec![
                User { id: "u1".to_string(), username: "alice".to_string() },
                User { id: "u2".to_string(), username: "bob".to_string() },
            ]
        }),
        "{\"type\":\"Ready\",\"users\":[{\"id\":\"u1\",\"username\":\"alice\"},{\"id\":\"u2\",\"username\":\"bob\"}]}"
    );
}

fn assert_round_trip(n: ClientboundNotification) {
    let wire = encode(&n);
    let back = decode(wire.as_str()).expect("canonical encoding must decode");
    match (&n, &back) {
        (ClientboundNotification::Authenticated, ClientboundNotification::Authenticated) => {}
        (
            ClientboundNotification::Error(WebSocketError::InvalidSession),
            ClientboundNotification::Error(WebSocketError::InvalidSession),
        ) => {}
        (
            ClientboundNotification::Error(WebSocketError::InternalError { at: a }),
            ClientboundNotification::Error(WebSocketError::InternalError { at: b }),
        ) => assert_eq!(a, b),
        (
            ClientboundNotification::Ready { users: a },
            ClientboundNotification::Ready { users: b },
        ) => {
            assert_eq!(a.len(), b.len());
            for (x, y) in a.iter().zip(b.iter()) {
                assert_eq!(x.id, y.id);
                assert_eq!(x.username, y.username);
            }
        }
        (
            ClientboundNotification::UserRelationship { id: a, user: b, status: c },
            ClientboundNotification::UserRelationship { id: x, user: y, status: z },
        ) => {
            assert_eq!(a, x);
            assert_eq!(b, y);
            assert_eq!(c, z);
        }
        (
            ClientboundNotification::UserPresence { id: a, online: b },
            ClientboundNotification::UserPresence { id: x, online: y },
        ) => {
            assert_eq!(a, x);
            assert_eq!(b, y);
        }
        _ => panic!("decoded variant differs from the encoded one"),
    }
}

#[test]
fn notifications_round_trip() {
    assert_round_trip(ClientboundNotification::Authenticated);
    assert_round_trip(ClientboundNotification::Error(WebSocketError::InvalidSession));
    assert_round_trip(ClientboundNotification::Error(WebSocketError::InternalError {
        at: "publish".to_string(),
    }));
    assert_round_trip(ClientboundNotification::Ready { users: vec![] });
    assert_round_trip(ClientboundNotification::Ready {
        users: vec![User { id: "u1".to_string(), username: "alice".to_string() }],
    });
    assert_round_trip(ClientboundNotification::Ready {
        users: vec![
            User { id: "u1".to_string(), username: "alice".to_string() },
            User { id: "u2".to_string(), username: "bob".to_string() },
        ],
    });
    assert_round_trip(ClientboundNotification::UserRelationship {
        id: "u1".to_string(),
        user: "u2".to_string(),
        status: RelationshipStatus::Blocked,
    });
    assert_round_trip(ClientboundNotification::UserPresence {
        id: "u9".to_string(),
        online: false,
    });
}

#[test]
fn malformed_wire_input_is_rejected() {
    assert!(decode("").is_none());
    assert!(decode("{\"type\":\"Authenticated\"").is_none());
    assert!(decode("{\"type\":\"Nonsense\"}").is_none());
    assert!(decode("{\"type\":\"Error\",\"error\":\"NoSuchKind\"}").is_none());
    assert!(decode("{\"type\":\"UserPresence\",\"id\":\"u\",\"online\":maybe}").is_none());
}

#[test]
fn error_messages() {
    assert_eq!(WebSocketError::InvalidSession.message(), "Invalid session.");
    assert_eq!(
        WebSocketError::OnboardingNotFinished.message(),
        "User hasn't completed onboarding."
    );
    assert_eq!(
        WebSocketError::AlreadyAuthenticated.message(),
        "Already authenticated with server."
    );
    assert_eq!(
        WebSocketError::InternalError { at: "route".to_string() }.message(),
        "Internal server error."
    );
    assert_eq!(WebSocketError::LabelMe.message(), "This error has not been labelled.");
}

// Authenticating twice: first call authenticates, second is an idempotent
// rejection; subscribing before authenticating is rejected.
#[test]
fn connection_state_machine() {
    let mut reg = Registry::new();
    let c = reg.connect();

    // subscribe before any successful authenticate is rejected
    let r = reg.subscribe(c, "t1".to_string());
    assert!(matches!(r, Err(WebSocketError::InternalError { .. })));

    let snapshot = vec![User { id: "peer".to_string(), username: "p".to_string() }];
    let r = reg.authenticate(
        c,
        VerifyOutcome::Valid { user_id: "me".to_string(), onboarded: true },
        snapshot,
    );
    assert!(r.is_ok());
    assert!(matches!(reg.conns[0].state, ConnState::Authenticated { .. }));
    // subscribed to its own id and to the visible peer
    assert_eq!(reg.conns[0].topics, vec!["me".to_string(), "peer".to_string()]);
    // acknowledgment followed by the Ready snapshot
    assert!(matches!(reg.conns[0].outbox[0], ClientboundNotification::Authenticated));
    assert!(matches!(reg.conns[0].outbox[1], ClientboundNotification::Ready { .. }));

    let r = reg.authenticate(
        c,
        VerifyOutcome::Valid { user_id: "me".to_string(), onboarded: true },
        vec![],
    );
    assert!(matches!(r, Err(WebSocketError::AlreadyAuthenticated)));
    assert!(matches!(reg.conns[0].state, ConnState::Authenticated { .. }));
    assert!(matches!(
        reg.conns[0].outbox[2],
        ClientboundNotification::Error(WebSocketError::AlreadyAuthenticated)
    ));
}

#[test]
fn failed_verification_leaves_connection_unauthenticated() {
    let mut reg = Registry::new();
    let c = reg.connect();
    let r = reg.authenticate(c, VerifyOutcome::Invalid, vec![]);
    assert!(matches!(r, Err(WebSocketError::InvalidSession)));
    assert!(matches!(reg.conns[0].state, ConnState::Unauthenticated));
    let r = reg.authenticate(
        c,
        VerifyOutcome::Valid { user_id: "me".to_string(), onboarded: false },
        vec![],
    );
    assert!(matches!(r, Err(WebSocketError::OnboardingNotFinished)));
    assert!(matches!(reg.conns[0].state, ConnState::Unauthenticated));
    assert!(reg.conns[0].topics.is_empty());
}

// Routing to T1 is observed only by the subscriber of T1, never by a
// connection subscribed only to T2.
#[test]
fn fanout_isolation() {
    let mut reg = Registry::new();
    let c1 = reg.connect();
    let c2 = reg.connect();
    reg.authenticate(
        c1,
        VerifyOutcome::Valid { user_id: "a".to_string(), onboarded: true },
        vec![],
    )
    .unwrap();
    reg.authenticate(
        c2,
        VerifyOutcome::Valid { user_id: "b".to_string(), onboarded: true },
        vec![],
    )
    .unwrap();
    reg.subscribe(c1, "t1".to_string()).unwrap();
    reg.subscribe(c2, "t2".to_string()).unwrap();
    let before1 = reg.conns[0].outbox.len();
    let before2 = reg.conns[1].outbox.len();

    let n = ClientboundNotification::UserPresence { id: "x".to_string(), online: true };
    n.publish(&"t1".to_string(), &mut reg).unwrap();

    assert_eq!(reg.conns[0].outbox.len(), before1 + 1);
    assert!(matches!(
        reg.conns[0].outbox[before1],
        ClientboundNotification::UserPresence { .. }
    ));
    assert_eq!(reg.conns[1].outbox.len(), before2);
}

#[test]
fn route_is_fifo_per_topic_and_skips_closed() {
    let mut reg = Registry::new();
    let c1 = reg.connect();
    let c2 = reg.connect();
    for c in [c1, c2] {
        reg.authenticate(
            c,
            VerifyOutcome::Valid { user_id: format!("u{c}"), onboarded: true },
            vec![],
        )
        .unwrap();
        reg.subscribe(c, "topic".to_string()).unwrap();
    }
    reg.disconnect(c2);
    assert!(matches!(reg.conns[1].state, ConnState::Closed));
    assert!(reg.conns[1].topics.is_empty());
    let before1 = reg.conns[0].outbox.len();
    let before2 = reg.conns[1].outbox.len();

    reg.route(
        &"topic".to_string(),
        &ClientboundNotification::UserPresence { id: "p".to_string(), online: true },
    );
    reg.route(
        &"topic".to_string(),
        &ClientboundNotification::UserPresence { id: "p".to_string(), online: false },
    );

    // FIFO for the live subscriber
    match (&reg.conns[0].outbox[before1], &reg.conns[0].outbox[before1 + 1]) {
        (
            ClientboundNotification::UserPresence { online: first, .. },
            ClientboundNotification::UserPresence { online: second, .. },
        ) => {
            assert!(*first);
            assert!(!*second);
        }
        _ => panic!("expected the two presence updates in order"),
    }
    // closed channel: delivery attempt is a no-op, not a crash
    assert_eq!(reg.conns[1].outbox.len(), before2);
}

#[test]
fn unsubscribe_stops_delivery() {
    let mut reg = Registry::new();
    let c = reg.connect();
    reg.authenticate(
        c,
        VerifyOutcome::Valid { user_id: "me".to_string(), onboarded: true },
        vec![],
    )
    .unwrap();
    reg.subscribe(c, "t".to_string()).unwrap();
    reg.unsubscribe(c, &"t".to_string()).unwrap();
    let before = reg.conns[0].outbox.len();
    reg.route(
        &"t".to_string(),
        &ClientboundNotification::UserPresence { id: "p".to_string(), online: true },
    );
    assert_eq!(reg.conns[0].outbox.len(), before);
}

#[test]
fn serverbound_authenticate_parses() {
    let n = decode_serverbound(
        "{\"type\":\"Authenticate\",\"user_id\":\"u1\",\"session_token\":\"tok\"}",
    )
    .unwrap();
    let ServerboundNotification::Authenticate(session) = n;
    assert_eq!(session.user_id, "u1");
    assert_eq!(session.session_token, "tok");
    assert!(decode_serverbound("{\"type\":\"Ping\"}").is_none());
    assert!(
        decode_serverbound("{\"type\":\"Authenticate\",\"user_id\":\"u1\"}").is_none()
    );
}

#[test]
fn message_create_carries_its_fields() {
    let m = Create {
        id: "m1".to_string(),
        nonce: None,
        channel: "c1".to_string(),
        author: "u1".to_string(),
        content: "hi".to_string(),
    };
    assert_eq!(m.id, "m1");
    assert!(m.nonce.is_none());
    assert_eq!(m.channel, "c1");
    assert_eq!(m.author, "u1");
    assert_eq!(m.content, "hi");
}
