//! Wire codec for the event channel: each notification is one tagged JSON
//! object, and the tag field name and its exact string values are a
//! compatibility contract. String payloads are assumed already validated at
//! the boundary to carry no quote or backslash, so no escaping is needed on
//! the wire.

use crate::events::{
    ClientboundNotification, ClientboundNotificationView, RelationshipStatus,
    ServerboundNotification, ServerboundNotificationView, Session, SessionView, User, UserView,
    WebSocketError, WebSocketErrorView,
};
use vstd::prelude::*;

verus! {

/// A payload string that crosses the wire verbatim: free of the quote that
/// ends it and of the escape character. The boundary validation enforces
/// this before data reaches the core.
pub open spec fn wire_safe(s: Seq<char>) -> bool {
    forall|i: int| 0 <= i < s.len() ==> s[i] != '"' && s[i] != '\\'
}

/// Every string payload of the notification is wire-safe.
pub open spec fn wire_safe_notification(n: ClientboundNotificationView) -> bool {
    match n {
        ClientboundNotificationView::Error(e) => match e {
            WebSocketErrorView::InternalError { at } => wire_safe(at),
            _ => true,
        },
        ClientboundNotificationView::Authenticated => true,
        ClientboundNotificationView::Ready { users } => forall|i: int|
            0 <= i < users.len() ==> wire_safe(#[trigger] users[i].id) && wire_safe(
                users[i].username,
            ),
        ClientboundNotificationView::UserRelationship { id, user, status: _ } => wire_safe(id)
            && wire_safe(user),
        ClientboundNotificationView::UserPresence { id, online: _ } => wire_safe(id),
    }
}

/// The wire tag of a relationship status.
pub open spec fn status_name(st: RelationshipStatus) -> Seq<char> {
    match st {
        RelationshipStatus::NoRelation => "None"@,
        RelationshipStatus::User => "User"@,
        RelationshipStatus::Friend => "Friend"@,
        RelationshipStatus::Outgoing => "Outgoing"@,
        RelationshipStatus::Incoming => "Incoming"@,
        RelationshipStatus::Blocked => "Blocked"@,
        RelationshipStatus::BlockedOther => "BlockedOther"@,
    }
}

/// The status a wire tag stands for.
pub open spec fn status_of_name(t: Seq<char>) -> Option<RelationshipStatus> {
    if t == "None"@ {
        Some(RelationshipStatus::NoRelation)
    } else if t == "User"@ {
        Some(RelationshipStatus::User)
    } else if t == "Friend"@ {
        Some(RelationshipStatus::Friend)
    } else if t == "Outgoing"@ {
        Some(RelationshipStatus::Outgoing)
    } else if t == "Incoming"@ {
        Some(RelationshipStatus::Incoming)
    } else if t == "Blocked"@ {
        Some(RelationshipStatus::Blocked)
    } else if t == "BlockedOther"@ {
        Some(RelationshipStatus::BlockedOther)
    } else {
        None
    }
}

/// The wire tag of an error kind.
pub open spec fn error_name(e: WebSocketErrorView) -> Seq<char> {
    match e {
        WebSocketErrorView::LabelMe => "LabelMe"@,
        WebSocketErrorView::InternalError { at: _ } => "InternalError"@,
        WebSocketErrorView::InvalidSession => "InvalidSession"@,
        WebSocketErrorView::OnboardingNotFinished => "OnboardingNotFinished"@,
        WebSocketErrorView::AlreadyAuthenticated => "AlreadyAuthenticated"@,
    }
}

/// One user of the `Ready` snapshot on the wire.
pub open spec fn spec_encode_user(u: UserView) -> Seq<char> {
    "{\"id\":\""@ + u.id + "\",\"username\":\""@ + u.username + "\"}"@
}

/// A comma-separated user list on the wire.
pub open spec fn spec_encode_users(us: Seq<UserView>) -> Seq<char>
    decreases us.len(),
{
    if us.len() == 0 {
        Seq::empty()
    } else if us.len() == 1 {
        spec_encode_user(us[0])
    } else {
        spec_encode_user(us[0]) + ","@ + spec_encode_users(us.skip(1))
    }
}

/// The exact wire form of a notification: a discriminated JSON object whose
/// `type` tag names the variant.
pub open spec fn spec_encode(n: ClientboundNotificationView) -> Seq<char> {
    match n {
        ClientboundNotificationView::Error(e) => match e {
            WebSocketErrorView::InternalError { at } => "{\"type\":\"Error\",\"error\":\"InternalError\",\"at\":\""@
                + at + "\"}"@,
            _ => "{\"type\":\"Error\",\"error\":\""@ + error_name(e) + "\"}"@,
        },
        ClientboundNotificationView::Authenticated => "{\"type\":\"Authenticated\"}"@,
        ClientboundNotificationView::Ready { users } => "{\"type\":\"Ready\",\"users\":["@
            + spec_encode_users(users) + "]}"@,
        ClientboundNotificationView::UserRelationship { id, user, status } => "{\"type\":\"UserRelationship\",\"id\":\""@
            + id + "\",\"user\":\""@ + user + "\",\"status\":\""@ + status_name(status) + "\"}"@,
        ClientboundNotificationView::UserPresence { id, online } => "{\"type\":\"UserPresence\",\"id\":\""@
            + id + "\",\"online\":"@ + (if online {
            "true}"@
        } else {
            "false}"@
        }),
    }
}

/// The wire tag of a relationship status.
fn status_tag(st: RelationshipStatus) -> (r: &'static str)
    ensures
        r@ == status_name(st),
{
    match st {
        RelationshipStatus::NoRelation => "None",
        RelationshipStatus::User => "User",
        RelationshipStatus::Friend => "Friend",
        RelationshipStatus::Outgoing => "Outgoing",
        RelationshipStatus::Incoming => "Incoming",
        RelationshipStatus::Blocked => "Blocked",
        RelationshipStatus::BlockedOther => "BlockedOther",
    }
}

fn encode_user(u: &User) -> (r: String)
    ensures
        r@ == spec_encode_user(u.deep_view()),
{
    let mut s = String::from_str("{\"id\":\"");
    s.append(u.id.as_str());
    s.append("\",\"username\":\"");
    s.append(u.username.as_str());
    s.append("\"}");
    s
}

proof fn lemma_encode_users_snoc(us: Seq<UserView>, u: UserView)
    ensures
        spec_encode_users(us.push(u)) == if us.len() == 0 {
            spec_encode_user(u)
        } else {
            spec_encode_users(us) + ","@ + spec_encode_user(u)
        },
    decreases us.len(),
{
    if us.len() == 0 {
        assert(us.push(u).len() == 1);
        assert(us.push(u)[0] == u);
    } else {
        assert(us.push(u).skip(1) =~= us.skip(1).push(u));
        lemma_encode_users_snoc(us.skip(1), u);
        assert(us.push(u)[0] == us[0]);
        if us.len() == 1 {
            assert(spec_encode_users(us.push(u)) == spec_encode_user(us[0]) + ","@
                + spec_encode_users(us.skip(1).push(u)));
            assert(spec_encode_users(us.skip(1).push(u)) == spec_encode_user(u));
            assert(spec_encode_users(us) + ","@ + spec_encode_user(u) =~= spec_encode_user(us[0])
                + ","@ + spec_encode_user(u));
        } else {
            assert(spec_encode_users(us.push(u)) == spec_encode_user(us[0]) + ","@ + (
            spec_encode_users(us.skip(1)) + ","@ + spec_encode_user(u)));
            assert(spec_encode_user(us[0]) + ","@ + (spec_encode_users(us.skip(1)) + ","@
                + spec_encode_user(u)) =~= (spec_encode_user(us[0]) + ","@ + spec_encode_users(
                us.skip(1),
            )) + ","@ + spec_encode_user(u));
        }
    }
}

/// Serialize a notification to its exact wire form.
pub fn encode(n: &ClientboundNotification) -> (r: String)
    ensures
        r@ == spec_encode(n.deep_view()),
{
    match n {
        ClientboundNotification::Error(e) => match e {
            WebSocketError::InternalError { at } => {
                let mut s = String::from_str(
                    "{\"type\":\"Error\",\"error\":\"InternalError\",\"at\":\"",
                );
                s.append(at.as_str());
                s.append("\"}");
                s
            },
            _ => {
                let mut s = String::from_str("{\"type\":\"Error\",\"error\":\"");
                let kind = match e {
                    WebSocketError::LabelMe => "LabelMe",
                    WebSocketError::InvalidSession => "InvalidSession",
                    WebSocketError::OnboardingNotFinished => "OnboardingNotFinished",
                    WebSocketError::AlreadyAuthenticated => "AlreadyAuthenticated",
                    WebSocketError::InternalError { at: _ } => "InternalError",
                };
                s.append(kind);
                s.append("\"}");
                s
            },
        },
        ClientboundNotification::Authenticated => String::from_str("{\"type\":\"Authenticated\"}"),
        ClientboundNotification::Ready { users } => {
            let mut s = String::from_str("{\"type\":\"Ready\",\"users\":[");
            let ghost uv = users.deep_view();
            let ghost head = s@;
            let mut i: usize = 0;
            while i < users.len()
                invariant
                    0 <= i <= users@.len(),
                    uv == users.deep_view(),
                    head == "{\"type\":\"Ready\",\"users\":["@,
                    s@ == head + spec_encode_users(uv.take(i as int)),
                decreases users@.len() - i,
            {
                let ghost prev = s@;
                if i > 0 {
                    s.append(",");
                }
                let one = encode_user(&users[i]);
                s.append(one.as_str());
                proof {
                    assert(uv.take(i + 1) =~= uv.take(i as int).push(uv[i as int]));
                    lemma_encode_users_snoc(uv.take(i as int), uv[i as int]);
                    assert(users@[i as int].deep_view() == uv[i as int]);
                    if i > 0 {
                        assert(uv.take(i as int).len() != 0);
                        assert(s@ =~= head + (spec_encode_users(uv.take(i as int)) + ","@
                            + spec_encode_user(uv[i as int])));
                    } else {
                        assert(uv.take(0) =~= Seq::<UserView>::empty());
                        assert(s@ =~= head + spec_encode_user(uv[i as int]));
                    }
                }
                i = i + 1;
            }
            s.append("]}");
            proof {
                assert(uv.take(uv.len() as int) =~= uv);
                assert(s@ =~= head + spec_encode_users(uv) + "]}"@);
            }
            s
        },
        ClientboundNotification::UserRelationship { id, user, status } => {
            let mut s = String::from_str("{\"type\":\"UserRelationship\",\"id\":\"");
            s.append(id.as_str());
            s.append("\",\"user\":\"");
            s.append(user.as_str());
            s.append("\",\"status\":\"");
            s.append(status_tag(*status));
            s.append("\"}");
            proof {
                assert(s@ =~= spec_encode(n.deep_view()));
            }
            s
        },
        ClientboundNotification::UserPresence { id, online } => {
            let mut s = String::from_str("{\"type\":\"UserPresence\",\"id\":\"");
            s.append(id.as_str());
            s.append("\",\"online\":");
            if *online {
                s.append("true}");
            } else {
                s.append("false}");
            }
            proof {
                assert(s@ =~= spec_encode(n.deep_view()));
            }
            s
        },
    }
}

/// `p` is a prefix of `s`.
pub open spec fn has_prefix(s: Seq<char>, p: Seq<char>) -> bool {
    s.len() >= p.len() && s.take(p.len() as int) == p
}

/// Consume an expected literal from the front.
pub open spec fn spec_expect(s: Seq<char>, p: Seq<char>) -> Option<Seq<char>> {
    if has_prefix(s, p) {
        Some(s.skip(p.len() as int))
    } else {
        None
    }
}

/// Index of the first quote, or a negative value when there is none.
pub open spec fn find_quote(s: Seq<char>) -> int
    decreases s.len(),
{
    if s.len() == 0 {
        -1
    } else if s[0] == '"' {
        0
    } else {
        let r = find_quote(s.skip(1));
        if r < 0 {
            -1
        } else {
            1 + r
        }
    }
}

/// Consume a string payload up to and including its closing quote.
pub open spec fn spec_take_quote(s: Seq<char>) -> Option<(Seq<char>, Seq<char>)> {
    let i = find_quote(s);
    if i < 0 {
        None
    } else {
        Some((s.take(i), s.skip(i + 1)))
    }
}

/// Parse one user object of a `Ready` snapshot.
pub open spec fn spec_parse_user(s: Seq<char>) -> Option<(UserView, Seq<char>)> {
    match spec_expect(s, "{\"id\":\""@) {
        Option::None => Option::None,
        Option::Some(r1) => match spec_take_quote(r1) {
            Option::None => Option::None,
            Option::Some((id, r2)) => match spec_expect(r2, ",\"username\":\""@) {
                Option::None => Option::None,
                Option::Some(r3) => match spec_take_quote(r3) {
                    Option::None => Option::None,
                    Option::Some((username, r4)) => match spec_expect(r4, "}"@) {
                        Option::None => Option::None,
                        Option::Some(r5) => Option::Some((UserView { id, username }, r5)),
                    },
                },
            },
        },
    }
}

/// Parse a user list up to and including its closing bracket.
pub open spec fn spec_parse_users(s: Seq<char>) -> Option<(Seq<UserView>, Seq<char>)>
    decreases s.len(),
{
    if s.len() > 0 && s[0] == ']' {
        Option::Some((Seq::empty(), s.skip(1)))
    } else {
        match spec_parse_user(s) {
            Option::None => Option::None,
            Option::Some((u, r)) => if r.len() < s.len() {
                if r.len() > 0 && r[0] == ',' {
                    match spec_parse_users(r.skip(1)) {
                        Option::None => Option::None,
                        Option::Some((us, r2)) => Option::Some((seq![u].add(us), r2)),
                    }
                } else if r.len() > 0 && r[0] == ']' {
                    Option::Some((seq![u], r.skip(1)))
                } else {
                    Option::None
                }
            } else {
                Option::None
            },
        }
    }
}

/// The error kind a wire tag stands for; `InternalError` also carries its
/// origin.
pub open spec fn spec_decode_error(kind: Seq<char>, rest: Seq<char>) -> Option<
    ClientboundNotificationView,
> {
    if kind == "InternalError"@ {
        match spec_expect(rest, ",\"at\":\""@) {
            Option::None => Option::None,
            Option::Some(r1) => match spec_take_quote(r1) {
                Option::None => Option::None,
                Option::Some((at, r2)) => if r2 == "}"@ {
                    Option::Some(
                        ClientboundNotificationView::Error(
                            WebSocketErrorView::InternalError { at },
                        ),
                    )
                } else {
                    Option::None
                },
            },
        }
    } else if rest == "}"@ {
        if kind == "LabelMe"@ {
            Option::Some(ClientboundNotificationView::Error(WebSocketErrorView::LabelMe))
        } else if kind == "InvalidSession"@ {
            Option::Some(ClientboundNotificationView::Error(WebSocketErrorView::InvalidSession))
        } else if kind == "OnboardingNotFinished"@ {
            Option::Some(
                ClientboundNotificationView::Error(WebSocketErrorView::OnboardingNotFinished),
            )
        } else if kind == "AlreadyAuthenticated"@ {
            Option::Some(
                ClientboundNotificationView::Error(WebSocketErrorView::AlreadyAuthenticated),
            )
        } else {
            Option::None
        }
    } else {
        Option::None
    }
}

/// Parse a whole wire message back into the tagged variant it stands for.
pub open spec fn spec_decode(s: Seq<char>) -> Option<ClientboundNotificationView> {
    match spec_expect(s, "{\"type\":\""@) {
        Option::None => Option::None,
        Option::Some(r1) => match spec_take_quote(r1) {
            Option::None => Option::None,
            Option::Some((tag, r2)) => if tag == "Authenticated"@ {
                if r2 == "}"@ {
                    Option::Some(ClientboundNotificationView::Authenticated)
                } else {
                    Option::None
                }
            } else if tag == "Error"@ {
                match spec_expect(r2, ",\"error\":\""@) {
                    Option::None => Option::None,
                    Option::Some(r3) => match spec_take_quote(r3) {
                        Option::None => Option::None,
                        Option::Some((kind, r4)) => spec_decode_error(kind, r4),
                    },
                }
            } else if tag == "Ready"@ {
                match spec_expect(r2, ",\"users\":["@) {
                    Option::None => Option::None,
                    Option::Some(r3) => match spec_parse_users(r3) {
                        Option::None => Option::None,
                        Option::Some((users, r4)) => if r4 == "}"@ {
                            Option::Some(ClientboundNotificationView::Ready { users })
                        } else {
                            Option::None
                        },
                    },
                }
            } else if tag == "UserRelationship"@ {
                match spec_expect(r2, ",\"id\":\""@) {
                    Option::None => Option::None,
                    Option::Some(r3) => match spec_take_quote(r3) {
                        Option::None => Option::None,
                        Option::Some((id, r4)) => match spec_expect(r4, ",\"user\":\""@) {
                            Option::None => Option::None,
                            Option::Some(r5) => match spec_take_quote(r5) {
                                Option::None => Option::None,
                                Option::Some((user, r6)) => match spec_expect(
                                    r6,
                                    ",\"status\":\""@,
                                ) {
                                    Option::None => Option::None,
                                    Option::Some(r7) => match spec_take_quote(r7) {
                                        Option::None => Option::None,
                                        Option::Some((st, r8)) => if r8 == "}"@ {
                                            match status_of_name(st) {
                                                Option::None => Option::None,
                                                Option::Some(status) => Option::Some(
                                                    ClientboundNotificationView::UserRelationship {
                                                        id,
                                                        user,
                                                        status,
                                                    },
                                                ),
                                            }
                                        } else {
                                            Option::None
                                        },
                                    },
                                },
                            },
                        },
                    },
                }
            } else if tag == "UserPresence"@ {
                match spec_expect(r2, ",\"id\":\""@) {
                    Option::None => Option::None,
                    Option::Some(r3) => match spec_take_quote(r3) {
                        Option::None => Option::None,
                        Option::Some((id, r4)) => if r4 == ",\"online\":true}"@ {
                            Option::Some(
                                ClientboundNotificationView::UserPresence { id, online: true },
                            )
                        } else if r4 == ",\"online\":false}"@ {
                            Option::Some(
                                ClientboundNotificationView::UserPresence { id, online: false },
                            )
                        } else {
                            Option::None
                        },
                    },
                }
            } else {
                Option::None
            },
        },
    }
}

proof fn lemma_expect_concat(a: Seq<char>, b: Seq<char>)
    ensures
        spec_expect(a + b, a) == Some(b),
{
    assert((a + b).take(a.len() as int) =~= a);
    assert((a + b).skip(a.len() as int) =~= b);
}

proof fn lemma_find_quote_split(c: Seq<char>, r: Seq<char>)
    requires
        forall|i: int| 0 <= i < c.len() ==> c[i] != '"',
        r.len() > 0,
        r[0] == '"',
    ensures
        find_quote(c + r) == c.len(),
    decreases c.len(),
{
    if c.len() == 0 {
        assert(c + r =~= r);
    } else {
        assert((c + r)[0] == c[0]);
        assert((c + r).skip(1) =~= c.skip(1) + r);
        lemma_find_quote_split(c.skip(1), r);
    }
}

proof fn lemma_take_quote_split(c: Seq<char>, r: Seq<char>)
    requires
        forall|i: int| 0 <= i < c.len() ==> c[i] != '"',
        r.len() > 0,
        r[0] == '"',
    ensures
        spec_take_quote(c + r) == Some((c, r.skip(1))),
{
    lemma_find_quote_split(c, r);
    assert((c + r).take(c.len() as int) =~= c);
    assert((c + r).skip(c.len() as int + 1) =~= r.skip(1));
}

/// A wire-safe payload has no quote.
proof fn lemma_wire_safe_quote_free(s: Seq<char>)
    requires
        wire_safe(s),
    ensures
        forall|i: int| 0 <= i < s.len() ==> s[i] != '"',
{
}

proof fn lemma_find_quote_at(s: Seq<char>, i: int)
    requires
        0 <= i < s.len(),
        s[i] == '"',
        forall|j: int| 0 <= j < i ==> s[j] != '"',
    ensures
        find_quote(s) == i,
    decreases i,
{
    if i > 0 {
        lemma_find_quote_at(s.skip(1), i - 1);
    }
}

proof fn lemma_find_quote_none(s: Seq<char>)
    requires
        forall|j: int| 0 <= j < s.len() ==> s[j] != '"',
    ensures
        find_quote(s) < 0,
    decreases s.len(),
{
    if s.len() > 0 {
        lemma_find_quote_none(s.skip(1));
    }
}

/// Consume an expected literal from the front of the input.
fn expect_lit<'a>(s: &'a str, lit: &str) -> (r: Option<&'a str>)
    ensures
        match spec_expect(s@, lit@) {
            Some(t) => r is Some && r->0@ == t,
            None => r is None,
        },
{
    let n = lit.unicode_len();
    let m = s.unicode_len();
    if m < n {
        return None;
    }
    let mut i: usize = 0;
    while i < n
        invariant
            0 <= i <= n,
            n == lit@.len(),
            m == s@.len(),
            n <= m,
            forall|j: int| 0 <= j < i ==> s@[j] == lit@[j],
        decreases n - i,
    {
        if s.get_char(i) != lit.get_char(i) {
            proof {
                assert(s@.take(n as int)[i as int] != lit@[i as int]);
                assert(s@.take(n as int) != lit@);
            }
            return None;
        }
        i = i + 1;
    }
    proof {
        assert(s@.take(n as int) =~= lit@);
    }
    let rest = s.substring_char(n, m);
    proof {
        assert(rest@ =~= s@.skip(n as int));
    }
    Some(rest)
}

/// Whether the input is exactly the given literal.
fn is_exact(s: &str, lit: &str) -> (r: bool)
    ensures
        r == (s@ == lit@),
{
    match expect_lit(s, lit) {
        Some(rest) => {
            if rest.is_empty() {
                proof {
                    assert(s@ =~= lit@);
                }
                true
            } else {
                proof {
                    if s@ == lit@ {
                        assert(s@.skip(lit@.len() as int) =~= Seq::<char>::empty());
                    }
                }
                false
            }
        },
        None => {
            proof {
                if s@ == lit@ {
                    assert(s@.take(lit@.len() as int) =~= lit@);
                }
            }
            false
        },
    }
}

/// Consume a string payload up to and including its closing quote.
fn take_quote_exec<'a>(s: &'a str) -> (r: Option<(String, &'a str)>)
    ensures
        match spec_take_quote(s@) {
            Some((c, rest)) => r is Some && (r->0).0@ == c && (r->0).1@ == rest,
            None => r is None,
        },
{
    let m = s.unicode_len();
    let mut i: usize = 0;
    while i < m
        invariant
            0 <= i <= m,
            m == s@.len(),
            forall|j: int| 0 <= j < i ==> s@[j] != '"',
        decreases m - i,
    {
        if s.get_char(i) == '"' {
            proof {
                lemma_find_quote_at(s@, i as int);
            }
            let content = s.substring_char(0, i).to_owned();
            let rest = s.substring_char(i + 1, m);
            proof {
                assert(content@ =~= s@.take(i as int));
                assert(rest@ =~= s@.skip(i as int + 1));
            }
            return Some((content, rest));
        }
        i = i + 1;
    }
    proof {
        lemma_find_quote_none(s@);
    }
    None
}

fn parse_user_exec<'a>(s: &'a str) -> (r: Option<(User, &'a str)>)
    ensures
        match spec_parse_user(s@) {
            Some((u, rest)) => r is Some && (r->0).0.deep_view() == u && (r->0).1@ == rest,
            None => r is None,
        },
{
    let r1 = match expect_lit(s, "{\"id\":\"") {
        Some(r1) => r1,
        None => {
            return None;
        },
    };
    let (id, r2) = match take_quote_exec(r1) {
        Some(p) => p,
        None => {
            return None;
        },
    };
    let r3 = match expect_lit(r2, ",\"username\":\"") {
        Some(r3) => r3,
        None => {
            return None;
        },
    };
    let (username, r4) = match take_quote_exec(r3) {
        Some(p) => p,
        None => {
            return None;
        },
    };
    let r5 = match expect_lit(r4, "}") {
        Some(r5) => r5,
        None => {
            return None;
        },
    };
    Some((User { id, username }, r5))
}

fn parse_users_exec<'a>(s: &'a str) -> (r: Option<(Vec<User>, &'a str)>)
    ensures
        match spec_parse_users(s@) {
            Some((us, rest)) => r is Some && (r->0).0.deep_view() == us && (r->0).1@ == rest,
            None => r is None,
        },
    decreases s@.len(),
{
    let m = s.unicode_len();
    if m > 0 && s.get_char(0) == ']' {
        let rest = s.substring_char(1, m);
        let out: Vec<User> = Vec::new();
        proof {
            assert(rest@ =~= s@.skip(1));
            assert(out.deep_view() =~= Seq::<UserView>::empty());
        }
        return Some((out, rest));
    }
    let (u, r1) = match parse_user_exec(s) {
        Some(p) => p,
        None => {
            return None;
        },
    };
    let n1 = r1.unicode_len();
    if !(n1 < m) {
        return None;
    }
    if n1 > 0 && r1.get_char(0) == ',' {
        let tail = r1.substring_char(1, n1);
        proof {
            assert(tail@ =~= r1@.skip(1));
        }
        let (mut us, rest) = match parse_users_exec(tail) {
            Some(p) => p,
            None => {
                return None;
            },
        };
        let ghost usv = us.deep_view();
        let ghost uv = u.deep_view();
        let mut out: Vec<User> = Vec::new();
        out.push(u);
        out.append(&mut us);
        proof {
            assert(out.deep_view() =~= seq![uv].add(usv));
        }
        Some((out, rest))
    } else if n1 > 0 && r1.get_char(0) == ']' {
        let rest = r1.substring_char(1, n1);
        let ghost uv = u.deep_view();
        let mut out: Vec<User> = Vec::new();
        out.push(u);
        proof {
            assert(rest@ =~= r1@.skip(1));
            assert(out.deep_view() =~= seq![uv]);
        }
        Some((out, rest))
    } else {
        None
    }
}

/// Parse a wire message back into the tagged variant it stands for, or
/// nothing when the input is not a well-formed message.
pub fn decode(s: &str) -> (r: Option<ClientboundNotification>)
    ensures
        match spec_decode(s@) {
            Some(nv) => r is Some && r->0.deep_view() == nv,
            None => r is None,
        },
{
    let r1 = match expect_lit(s, "{\"type\":\"") {
        Some(r1) => r1,
        None => {
            return None;
        },
    };
    let (tag, r2) = match take_quote_exec(r1) {
        Some(p) => p,
        None => {
            return None;
        },
    };
    if tag == String::from_str("Authenticated") {
        if is_exact(r2, "}") {
            Some(ClientboundNotification::Authenticated)
        } else {
            None
        }
    } else if tag == String::from_str("Error") {
        let r3 = match expect_lit(r2, ",\"error\":\"") {
            Some(r3) => r3,
            None => {
                return None;
            },
        };
        let (kind, r4) = match take_quote_exec(r3) {
            Some(p) => p,
            None => {
                return None;
            },
        };
        if kind == String::from_str("InternalError") {
            let r5 = match expect_lit(r4, ",\"at\":\"") {
                Some(r5) => r5,
                None => {
                    return None;
                },
            };
            let (at, r6) = match take_quote_exec(r5) {
                Some(p) => p,
                None => {
                    return None;
                },
            };
            if is_exact(r6, "}") {
                Some(ClientboundNotification::Error(WebSocketError::InternalError { at }))
            } else {
                None
            }
        } else if !is_exact(r4, "}") {
            None
        } else if kind == String::from_str("LabelMe") {
            Some(ClientboundNotification::Error(WebSocketError::LabelMe))
        } else if kind == String::from_str("InvalidSession") {
            Some(ClientboundNotification::Error(WebSocketError::InvalidSession))
        } else if kind == String::from_str("OnboardingNotFinished") {
            Some(ClientboundNotification::Error(WebSocketError::OnboardingNotFinished))
        } else if kind == String::from_str("AlreadyAuthenticated") {
            Some(ClientboundNotification::Error(WebSocketError::AlreadyAuthenticated))
        } else {
            None
        }
    } else if tag == String::from_str("Ready") {
        let r3 = match expect_lit(r2, ",\"users\":[") {
            Some(r3) => r3,
            None => {
                return None;
            },
        };
        let (users, r4) = match parse_users_exec(r3) {
            Some(p) => p,
            None => {
                return None;
            },
        };
        if is_exact(r4, "}") {
            Some(ClientboundNotification::Ready { users })
        } else {
            None
        }
    } else if tag == String::from_str("UserRelationship") {
        let r3 = match expect_lit(r2, ",\"id\":\"") {
            Some(r3) => r3,
            None => {
                return None;
            },
        };
        let (id, r4) = match take_quote_exec(r3) {
            Some(p) => p,
            None => {
                return None;
            },
        };
        let r5 = match expect_lit(r4, ",\"user\":\"") {
            Some(r5) => r5,
            None => {
                return None;
            },
        };
        let (user, r6) = match take_quote_exec(r5) {
            Some(p) => p,
            None => {
                return None;
            },
        };
        let r7 = match expect_lit(r6, ",\"status\":\"") {
            Some(r7) => r7,
            None => {
                return None;
            },
        };
        let (st, r8) = match take_quote_exec(r7) {
            Some(p) => p,
            None => {
                return None;
            },
        };
        if !is_exact(r8, "}") {
            return None;
        }
        let status = if st == String::from_str("None") {
            RelationshipStatus::NoRelation
        } else if st == String::from_str("User") {
            RelationshipStatus::User
        } else if st == String::from_str("Friend") {
            RelationshipStatus::Friend
        } else if st == String::from_str("Outgoing") {
            RelationshipStatus::Outgoing
        } else if st == String::from_str("Incoming") {
            RelationshipStatus::Incoming
        } else if st == String::from_str("Blocked") {
            RelationshipStatus::Blocked
        } else if st == String::from_str("BlockedOther") {
            RelationshipStatus::BlockedOther
        } else {
            return None;
        };
        Some(ClientboundNotification::UserRelationship { id, user, status })
    } else if tag == String::from_str("UserPresence") {
        let r3 = match expect_lit(r2, ",\"id\":\"") {
            Some(r3) => r3,
            None => {
                return None;
            },
        };
        let (id, r4) = match take_quote_exec(r3) {
            Some(p) => p,
            None => {
                return None;
            },
        };
        if is_exact(r4, ",\"online\":true}") {
            Some(ClientboundNotification::UserPresence { id, online: true })
        } else if is_exact(r4, ",\"online\":false}") {
            Some(ClientboundNotification::UserPresence { id, online: false })
        } else {
            None
        }
    } else {
        None
    }
}

/// Parse the client-to-server authenticate request: the presented
/// credential's identity and token.
pub open spec fn spec_decode_serverbound(s: Seq<char>) -> Option<ServerboundNotificationView> {
    match spec_expect(s, "{\"type\":\"Authenticate\",\"user_id\":\""@) {
        Option::None => Option::None,
        Option::Some(r1) => match spec_take_quote(r1) {
            Option::None => Option::None,
            Option::Some((user_id, r2)) => match spec_expect(r2, ",\"session_token\":\""@) {
                Option::None => Option::None,
                Option::Some(r3) => match spec_take_quote(r3) {
                    Option::None => Option::None,
                    Option::Some((session_token, r4)) => if r4 == "}"@ {
                        Option::Some(
                            ServerboundNotificationView::Authenticate(
                                SessionView { user_id, session_token },
                            ),
                        )
                    } else {
                        Option::None
                    },
                },
            },
        },
    }
}

/// Parse one client message from the wire, or nothing when it is not a
/// well-formed authenticate request.
pub fn decode_serverbound(s: &str) -> (r: Option<ServerboundNotification>)
    ensures
        match spec_decode_serverbound(s@) {
            Some(nv) => r is Some && r->0.deep_view() == nv,
            None => r is None,
        },
{
    let r1 = match expect_lit(s, "{\"type\":\"Authenticate\",\"user_id\":\"") {
        Some(r1) => r1,
        None => {
            return None;
        },
    };
    let (user_id, r2) = match take_quote_exec(r1) {
        Some(p) => p,
        None => {
            return None;
        },
    };
    let r3 = match expect_lit(r2, ",\"session_token\":\"") {
        Some(r3) => r3,
        None => {
            return None;
        },
    };
    let (session_token, r4) = match take_quote_exec(r3) {
        Some(p) => p,
        None => {
            return None;
        },
    };
    if is_exact(r4, "}") {
        Some(ServerboundNotification::Authenticate(Session { user_id, session_token }))
    } else {
        None
    }
}

proof fn lemma_round_trip_authenticated()
    ensures
        spec_decode(spec_encode(ClientboundNotificationView::Authenticated)) == Some(
            ClientboundNotificationView::Authenticated,
        ),
{
    reveal_strlit("{\"type\":\"Authenticated\"}");
    reveal_strlit("{\"type\":\"");
    reveal_strlit("Authenticated");
    reveal_strlit("\"}");
    reveal_strlit("}");
    let p = "{\"type\":\""@;
    let tag = "Authenticated"@;
    let qr = "\"}"@;
    assert(spec_encode(ClientboundNotificationView::Authenticated) =~= p + (tag + qr));
    lemma_expect_concat(p, tag + qr);
    assert(forall|i: int| 0 <= i < tag.len() ==> tag[i] != '"');
    assert(qr[0] == '"');
    lemma_take_quote_split(tag, qr);
    assert(qr.skip(1) =~= "}"@);
}

proof fn lemma_round_trip_error(e: WebSocketErrorView)
    requires
        wire_safe_notification(ClientboundNotificationView::Error(e)),
    ensures
        spec_decode(spec_encode(ClientboundNotificationView::Error(e))) == Some(
            ClientboundNotificationView::Error(e),
        ),
{
    reveal_strlit("{\"type\":\"");
    reveal_strlit("Authenticated");
    reveal_strlit("Error");
    reveal_strlit("\"");
    reveal_strlit("\",\"error\":\"");
    reveal_strlit(",\"error\":\"");
    reveal_strlit("\"}");
    reveal_strlit("}");
    reveal_strlit("LabelMe");
    reveal_strlit("InternalError");
    reveal_strlit("InvalidSession");
    reveal_strlit("OnboardingNotFinished");
    reveal_strlit("AlreadyAuthenticated");
    reveal_strlit("{\"type\":\"Error\",\"error\":\"");
    reveal_strlit("Ready");
    reveal_strlit("UserRelationship");
    reveal_strlit("UserPresence");
    assert("{\"type\":\""@.len() == 9);
    assert("Authenticated"@.len() == 13);
    assert("Error"@.len() == 5);
    assert("Ready"@.len() == 5);
    assert("UserRelationship"@.len() == 16);
    assert("UserPresence"@.len() == 12);
    assert("Error"@[0] == 'E');
    assert("Ready"@[0] == 'R');
    assert("LabelMe"@.len() == 7);
    assert("InternalError"@.len() == 13);
    assert("InvalidSession"@.len() == 14);
    assert("OnboardingNotFinished"@.len() == 21);
    assert("AlreadyAuthenticated"@.len() == 20);
    let p = "{\"type\":\""@;
    let tag = "Error"@;
    let qerr = "\",\"error\":\""@;
    let name = error_name(e);
    assert(forall|i: int| 0 <= i < tag.len() ==> tag[i] != '"');
    assert(forall|i: int| 0 <= i < name.len() ==> name[i] != '"');
    assert(qerr[0] == '"');
    assert(tag != "Authenticated"@);
    match e {
        WebSocketErrorView::InternalError { at } => {
            reveal_strlit("{\"type\":\"Error\",\"error\":\"InternalError\",\"at\":\"");
            reveal_strlit("\",\"at\":\"");
            reveal_strlit(",\"at\":\"");
            let qat = "\",\"at\":\""@;
            let tl = at + "\"}"@;
            let after_kind = qat + tl;
            let after_tag = qerr + (name + after_kind);
            assert(spec_encode(ClientboundNotificationView::Error(e)) =~= p + (tag + after_tag));
            lemma_expect_concat(p, tag + after_tag);
            assert(after_tag[0] == '"');
            lemma_take_quote_split(tag, after_tag);
            assert(after_tag.skip(1) =~= ",\"error\":\""@ + (name + after_kind));
            lemma_expect_concat(",\"error\":\""@, name + after_kind);
            assert(after_kind[0] == '"');
            lemma_take_quote_split(name, after_kind);
            assert(after_kind.skip(1) =~= ",\"at\":\""@ + tl);
            lemma_expect_concat(",\"at\":\""@, tl);
            lemma_wire_safe_quote_free(at);
            assert(("\"}"@)[0] == '"');
            lemma_take_quote_split(at, "\"}"@);
            assert(("\"}"@).skip(1) =~= "}"@);
        },
        _ => {
            let tl = "\"}"@;
            let after_tag = qerr + (name + tl);
            assert(spec_encode(ClientboundNotificationView::Error(e)) =~= p + (tag + after_tag));
            lemma_expect_concat(p, tag + after_tag);
            assert(after_tag[0] == '"');
            lemma_take_quote_split(tag, after_tag);
            assert(after_tag.skip(1) =~= ",\"error\":\""@ + (name + tl));
            lemma_expect_concat(",\"error\":\""@, name + tl);
            assert(tl[0] == '"');
            lemma_take_quote_split(name, tl);
            assert(tl.skip(1) =~= "}"@);
            assert(name != "InternalError"@);
        },
    }
}

proof fn lemma_round_trip_presence(id: Seq<char>, online: bool)
    requires
        wire_safe(id),
    ensures
        spec_decode(spec_encode(ClientboundNotificationView::UserPresence { id, online })) == Some(
            ClientboundNotificationView::UserPresence { id, online },
        ),
{
    reveal_strlit("{\"type\":\"");
    reveal_strlit("Authenticated");
    reveal_strlit("Error");
    reveal_strlit("Ready");
    reveal_strlit("UserRelationship");
    reveal_strlit("UserPresence");
    reveal_strlit("{\"type\":\"UserPresence\",\"id\":\"");
    reveal_strlit("\",\"id\":\"");
    reveal_strlit(",\"id\":\"");
    reveal_strlit("\",\"online\":");
    reveal_strlit(",\"online\":true}");
    reveal_strlit(",\"online\":false}");
    reveal_strlit("true}");
    reveal_strlit("false}");
    assert("{\"type\":\""@.len() == 9);
    assert("Authenticated"@.len() == 13);
    assert("Error"@.len() == 5);
    assert("Ready"@.len() == 5);
    assert("UserRelationship"@.len() == 16);
    assert("UserPresence"@.len() == 12);
    assert("Error"@[0] == 'E');
    assert("Ready"@[0] == 'R');
    let p = "{\"type\":\""@;
    let tag = "UserPresence"@;
    let qid = "\",\"id\":\""@;
    let qon = "\",\"online\":"@ + (if online {
        "true}"@
    } else {
        "false}"@
    });
    let after_tag = qid + (id + qon);
    assert(spec_encode(ClientboundNotificationView::UserPresence { id, online }) =~= p + (tag
        + after_tag));
    lemma_expect_concat(p, tag + after_tag);
    assert(forall|i: int| 0 <= i < tag.len() ==> tag[i] != '"');
    assert(after_tag[0] == '"');
    lemma_take_quote_split(tag, after_tag);
    assert(tag != "Authenticated"@);
    assert(tag != "Error"@);
    assert(tag != "Ready"@);
    assert(tag != "UserRelationship"@);
    assert(after_tag.skip(1) =~= ",\"id\":\""@ + (id + qon));
    lemma_expect_concat(",\"id\":\""@, id + qon);
    lemma_wire_safe_quote_free(id);
    assert(qon[0] == '"');
    lemma_take_quote_split(id, qon);
    if online {
        assert(qon.skip(1) =~= ",\"online\":true}"@);
    } else {
        assert(qon.skip(1) =~= ",\"online\":false}"@);
        assert(",\"online\":false}"@ != ",\"online\":true}"@);
    }
}

proof fn lemma_status_round_trip(st: RelationshipStatus)
    ensures
        status_of_name(status_name(st)) == Some(st),
{
    reveal_strlit("None");
    reveal_strlit("User");
    reveal_strlit("Friend");
    reveal_strlit("Outgoing");
    reveal_strlit("Incoming");
    reveal_strlit("Blocked");
    reveal_strlit("BlockedOther");
    assert("None"@.len() == 4);
    assert("User"@.len() == 4);
    assert("Friend"@.len() == 6);
    assert("Outgoing"@.len() == 8);
    assert("Incoming"@.len() == 8);
    assert("Blocked"@.len() == 7);
    assert("BlockedOther"@.len() == 12);
    assert("None"@[0] == 'N');
    assert("User"@[0] == 'U');
    assert("Outgoing"@[0] == 'O');
    assert("Incoming"@[0] == 'I');
}

proof fn lemma_round_trip_relationship(id: Seq<char>, user: Seq<char>, status: RelationshipStatus)
    requires
        wire_safe(id),
        wire_safe(user),
    ensures
        spec_decode(spec_encode(ClientboundNotificationView::UserRelationship { id, user, status }))
            == Some(ClientboundNotificationView::UserRelationship { id, user, status }),
{
    reveal_strlit("{\"type\":\"");
    reveal_strlit("Authenticated");
    reveal_strlit("Error");
    reveal_strlit("Ready");
    reveal_strlit("UserRelationship");
    reveal_strlit("{\"type\":\"UserRelationship\",\"id\":\"");
    reveal_strlit("\",\"id\":\"");
    reveal_strlit(",\"id\":\"");
    reveal_strlit("\",\"user\":\"");
    reveal_strlit(",\"user\":\"");
    reveal_strlit("\",\"status\":\"");
    reveal_strlit(",\"status\":\"");
    reveal_strlit("\"}");
    reveal_strlit("}");
    reveal_strlit("None");
    reveal_strlit("User");
    reveal_strlit("Friend");
    reveal_strlit("Outgoing");
    reveal_strlit("Incoming");
    reveal_strlit("Blocked");
    reveal_strlit("BlockedOther");
    reveal_strlit("UserPresence");
    assert("{\"type\":\""@.len() == 9);
    assert("Authenticated"@.len() == 13);
    assert("Error"@.len() == 5);
    assert("Ready"@.len() == 5);
    assert("UserRelationship"@.len() == 16);
    assert("UserPresence"@.len() == 12);
    assert("Error"@[0] == 'E');
    assert("Ready"@[0] == 'R');
    let p = "{\"type\":\""@;
    let tag = "UserRelationship"@;
    let sname = status_name(status);
    let tl = sname + "\"}"@;
    let after_user = "\",\"status\":\""@ + tl;
    let after_id = "\",\"user\":\""@ + (user + after_user);
    let after_tag = "\",\"id\":\""@ + (id + after_id);
    assert(spec_encode(ClientboundNotificationView::UserRelationship { id, user, status }) =~= p + (
    tag + after_tag));
    lemma_expect_concat(p, tag + after_tag);
    assert(forall|i: int| 0 <= i < tag.len() ==> tag[i] != '"');
    assert(after_tag[0] == '"');
    lemma_take_quote_split(tag, after_tag);
    assert(tag != "Authenticated"@);
    assert(tag != "Error"@);
    assert(tag != "Ready"@);
    assert(after_tag.skip(1) =~= ",\"id\":\""@ + (id + after_id));
    lemma_expect_concat(",\"id\":\""@, id + after_id);
    lemma_wire_safe_quote_free(id);
    lemma_wire_safe_quote_free(user);
    assert(after_id[0] == '"');
    lemma_take_quote_split(id, after_id);
    assert(after_id.skip(1) =~= ",\"user\":\""@ + (user + after_user));
    lemma_expect_concat(",\"user\":\""@, user + after_user);
    assert(after_user[0] == '"');
    lemma_take_quote_split(user, after_user);
    assert(after_user.skip(1) =~= ",\"status\":\""@ + tl);
    lemma_expect_concat(",\"status\":\""@, tl);
    assert(forall|i: int| 0 <= i < sname.len() ==> sname[i] != '"');
    assert(("\"}"@)[0] == '"');
    lemma_take_quote_split(sname, "\"}"@);
    assert(("\"}"@).skip(1) =~= "}"@);
    lemma_status_round_trip(status);
}

proof fn lemma_parse_user_round(u: UserView, tail: Seq<char>)
    requires
        wire_safe(u.id),
        wire_safe(u.username),
    ensures
        spec_parse_user(spec_encode_user(u) + tail) == Some((u, tail)),
        spec_encode_user(u).len() > 0,
        (spec_encode_user(u) + tail)[0] == '{',
{
    reveal_strlit("{\"id\":\"");
    reveal_strlit("\",\"username\":\"");
    reveal_strlit(",\"username\":\"");
    reveal_strlit("\"}");
    reveal_strlit("}");
    let after_id = "\",\"username\":\""@ + (u.username + "\"}"@);
    assert(spec_encode_user(u) + tail =~= "{\"id\":\""@ + (u.id + ("\",\"username\":\""@ + (
    u.username + ("\"}"@ + tail)))));
    lemma_expect_concat("{\"id\":\""@, u.id + ("\",\"username\":\""@ + (u.username + ("\"}"@
        + tail))));
    lemma_wire_safe_quote_free(u.id);
    lemma_wire_safe_quote_free(u.username);
    let rest_id = "\",\"username\":\""@ + (u.username + ("\"}"@ + tail));
    assert(rest_id[0] == '"');
    lemma_take_quote_split(u.id, rest_id);
    assert(rest_id.skip(1) =~= ",\"username\":\""@ + (u.username + ("\"}"@ + tail)));
    lemma_expect_concat(",\"username\":\""@, u.username + ("\"}"@ + tail));
    let rest_un = "\"}"@ + tail;
    assert(rest_un[0] == '"');
    lemma_take_quote_split(u.username, rest_un);
    assert(rest_un.skip(1) =~= "}"@ + tail);
    lemma_expect_concat("}"@, tail);
    assert(("{\"id\":\""@).len() == 7);
    assert((spec_encode_user(u) + tail)[0] == '{');
}

proof fn lemma_parse_users_round(us: Seq<UserView>, tail: Seq<char>)
    requires
        forall|i: int|
            0 <= i < us.len() ==> wire_safe(#[trigger] us[i].id) && wire_safe(us[i].username),
    ensures
        spec_parse_users(spec_encode_users(us) + ("]"@ + tail)) == Some((us, tail)),
    decreases us.len(),
{
    reveal_strlit("]");
    reveal_strlit(",");
    assert(("]"@).len() == 1);
    assert(("]"@)[0] == ']');
    assert((","@)[0] == ',');
    if us.len() == 0 {
        assert(spec_encode_users(us) + ("]"@ + tail) =~= "]"@ + tail);
        assert(("]"@ + tail)[0] == ']');
        assert(("]"@ + tail).skip(1) =~= tail);
        assert(Seq::<UserView>::empty() =~= us);
    } else if us.len() == 1 {
        let t1 = "]"@ + tail;
        assert(spec_encode_users(us) + ("]"@ + tail) =~= spec_encode_user(us[0]) + t1);
        lemma_parse_user_round(us[0], t1);
        let s = spec_encode_user(us[0]) + t1;
        assert(s[0] == '{');
        assert(s.len() > t1.len());
        assert(t1[0] == ']');
        assert(t1.skip(1) =~= tail);
        assert(seq![us[0]] =~= us);
    } else {
        let rest = ","@ + (spec_encode_users(us.skip(1)) + ("]"@ + tail));
        assert(spec_encode_users(us) + ("]"@ + tail) =~= spec_encode_user(us[0]) + rest);
        lemma_parse_user_round(us[0], rest);
        let s = spec_encode_user(us[0]) + rest;
        assert(s[0] == '{');
        assert(s.len() > rest.len());
        assert(rest[0] == ',');
        assert(rest.skip(1) =~= spec_encode_users(us.skip(1)) + ("]"@ + tail));
        lemma_parse_users_round(us.skip(1), tail);
        assert(seq![us[0]].add(us.skip(1)) =~= us);
    }
}

proof fn lemma_round_trip_ready(users: Seq<UserView>)
    requires
        wire_safe_notification(ClientboundNotificationView::Ready { users }),
    ensures
        spec_decode(spec_encode(ClientboundNotificationView::Ready { users })) == Some(
            ClientboundNotificationView::Ready { users },
        ),
{
    reveal_strlit("{\"type\":\"");
    reveal_strlit("Authenticated");
    reveal_strlit("Error");
    reveal_strlit("Ready");
    reveal_strlit("{\"type\":\"Ready\",\"users\":[");
    reveal_strlit("\",\"users\":[");
    reveal_strlit(",\"users\":[");
    reveal_strlit("]}");
    reveal_strlit("]");
    reveal_strlit("}");
    assert("Authenticated"@.len() == 13);
    assert("Error"@.len() == 5);
    assert("Ready"@.len() == 5);
    assert("Error"@[0] == 'E');
    assert("Ready"@[0] == 'R');
    let p = "{\"type\":\""@;
    let tag = "Ready"@;
    let body = spec_encode_users(users) + ("]"@ + "}"@);
    let after_tag = "\",\"users\":["@ + body;
    assert("]}"@ =~= "]"@ + "}"@);
    assert(spec_encode(ClientboundNotificationView::Ready { users }) =~= p + (tag + after_tag));
    lemma_expect_concat(p, tag + after_tag);
    assert(forall|i: int| 0 <= i < tag.len() ==> tag[i] != '"');
    assert(after_tag[0] == '"');
    lemma_take_quote_split(tag, after_tag);
    assert(tag != "Authenticated"@);
    assert(tag != "Error"@);
    assert(after_tag.skip(1) =~= ",\"users\":["@ + body);
    lemma_expect_concat(",\"users\":["@, body);
    lemma_parse_users_round(users, "}"@);
}

/// Round trip of the wire codec: any notification whose payload strings are
/// wire-safe decodes, from its exact encoding, back to the identical tagged
/// variant with identical payload fields.
pub proof fn lemma_round_trip(n: ClientboundNotificationView)
    requires
        wire_safe_notification(n),
    ensures
        spec_decode(spec_encode(n)) == Some(n),
{
    match n {
        ClientboundNotificationView::Error(e) => lemma_round_trip_error(e),
        ClientboundNotificationView::Authenticated => lemma_round_trip_authenticated(),
        ClientboundNotificationView::Ready { users } => lemma_round_trip_ready(users),
        ClientboundNotificationView::UserRelationship { id, user, status } =>
            lemma_round_trip_relationship(id, user, status),
        ClientboundNotificationView::UserPresence { id, online } => lemma_round_trip_presence(
            id,
            online,
        ),
    }
}

} // verus!
