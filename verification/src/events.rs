//! Typed notifications of the event channel: errors scoped to a single
//! connection, the client-to-server authenticate request, and the
//! server-to-client state-change events fanned out over topics.

use vstd::prelude::*;

verus! {

/// Connection-scoped errors reported over the event channel. They concern
/// only the offending connection and never tear down others.
#[derive(Debug)]
pub enum WebSocketError {
    /// This error has not been labelled.
    LabelMe,
    /// Internal server error, tagged with where it originated.
    InternalError { at: String },
    /// The presented session credential did not resolve to an identity.
    InvalidSession,
    /// The resolved identity has not completed onboarding.
    OnboardingNotFinished,
    /// The connection is already authenticated; a duplicate request changes
    /// nothing.
    AlreadyAuthenticated,
}

#[verifier::ext_equal]
pub ghost enum WebSocketErrorView {
    LabelMe,
    InternalError { at: Seq<char> },
    InvalidSession,
    OnboardingNotFinished,
    AlreadyAuthenticated,
}

impl DeepView for WebSocketError {
    type V = WebSocketErrorView;

    open spec fn deep_view(&self) -> WebSocketErrorView {
        match self {
            WebSocketError::LabelMe => WebSocketErrorView::LabelMe,
            WebSocketError::InternalError { at } => WebSocketErrorView::InternalError {
                at: at.deep_view(),
            },
            WebSocketError::InvalidSession => WebSocketErrorView::InvalidSession,
            WebSocketError::OnboardingNotFinished => WebSocketErrorView::OnboardingNotFinished,
            WebSocketError::AlreadyAuthenticated => WebSocketErrorView::AlreadyAuthenticated,
        }
    }
}

pub open spec fn spec_error_message(e: WebSocketErrorView) -> Seq<char> {
    match e {
        WebSocketErrorView::LabelMe => "This error has not been labelled."@,
        WebSocketErrorView::InternalError { at: _ } => "Internal server error."@,
        WebSocketErrorView::InvalidSession => "Invalid session."@,
        WebSocketErrorView::OnboardingNotFinished => "User hasn't completed onboarding."@,
        WebSocketErrorView::AlreadyAuthenticated => "Already authenticated with server."@,
    }
}

impl WebSocketError {
    /// Human-readable description of the error.
    pub fn message(&self) -> (r: String)
        ensures
            r@ == spec_error_message(self.deep_view()),
    {
        match self {
            WebSocketError::LabelMe => String::from_str("This error has not been labelled."),
            WebSocketError::InternalError { at: _ } => String::from_str("Internal server error."),
            WebSocketError::InvalidSession => String::from_str("Invalid session."),
            WebSocketError::OnboardingNotFinished => String::from_str(
                "User hasn't completed onboarding.",
            ),
            WebSocketError::AlreadyAuthenticated => String::from_str(
                "Already authenticated with server.",
            ),
        }
    }

    /// A copy with the same abstract value.
    pub fn duplicate(&self) -> (r: WebSocketError)
        ensures
            r.deep_view() == self.deep_view(),
    {
        match self {
            WebSocketError::LabelMe => WebSocketError::LabelMe,
            WebSocketError::InternalError { at } => WebSocketError::InternalError {
                at: at.clone(),
            },
            WebSocketError::InvalidSession => WebSocketError::InvalidSession,
            WebSocketError::OnboardingNotFinished => WebSocketError::OnboardingNotFinished,
            WebSocketError::AlreadyAuthenticated => WebSocketError::AlreadyAuthenticated,
        }
    }
}

/// Standing of one user relative to another.
#[derive(Clone, Copy, Debug, PartialEq, Eq, Structural)]
pub enum RelationshipStatus {
    NoRelation,
    User,
    Friend,
    Outgoing,
    Incoming,
    Blocked,
    BlockedOther,
}

/// The slice of a user visible on the event channel.
#[derive(Debug)]
pub struct User {
    pub id: String,
    pub username: String,
}

#[verifier::ext_equal]
pub ghost struct UserView {
    pub id: Seq<char>,
    pub username: Seq<char>,
}

impl DeepView for User {
    type V = UserView;

    open spec fn deep_view(&self) -> UserView {
        UserView { id: self.id.deep_view(), username: self.username.deep_view() }
    }
}

impl User {
    /// A copy with the same abstract value.
    pub fn duplicate(&self) -> (r: User)
        ensures
            r.deep_view() == self.deep_view(),
    {
        User { id: self.id.clone(), username: self.username.clone() }
    }
}

/// Duplicate a user list, keeping its abstract value.
pub fn duplicate_users(users: &Vec<User>) -> (r: Vec<User>)
    ensures
        r.deep_view() == users.deep_view(),
{
    let mut r: Vec<User> = Vec::new();
    let mut i: usize = 0;
    while i < users.len()
        invariant
            0 <= i <= users@.len(),
            r@.len() == i,
            forall|k: int| 0 <= k < i ==> #[trigger] r@[k].deep_view() == users@[k].deep_view(),
        decreases users@.len() - i,
    {
        r.push(users[i].duplicate());
        i = i + 1;
    }
    proof {
        assert(r.deep_view() =~= users.deep_view());
    }
    r
}

/// A verified session credential: the identity it resolves to and the token
/// that was presented.
#[derive(Debug)]
pub struct Session {
    pub user_id: String,
    pub session_token: String,
}

#[verifier::ext_equal]
pub ghost struct SessionView {
    pub user_id: Seq<char>,
    pub session_token: Seq<char>,
}

impl DeepView for Session {
    type V = SessionView;

    open spec fn deep_view(&self) -> SessionView {
        SessionView {
            user_id: self.user_id.deep_view(),
            session_token: self.session_token.deep_view(),
        }
    }
}

/// Messages a client sends to the server over the event channel.
#[derive(Debug)]
pub enum ServerboundNotification {
    Authenticate(Session),
}

#[verifier::ext_equal]
pub ghost enum ServerboundNotificationView {
    Authenticate(SessionView),
}

impl DeepView for ServerboundNotification {
    type V = ServerboundNotificationView;

    open spec fn deep_view(&self) -> ServerboundNotificationView {
        match self {
            ServerboundNotification::Authenticate(s) => ServerboundNotificationView::Authenticate(
                s.deep_view(),
            ),
        }
    }
}

/// Messages the server fans out to clients: an error, or a typed state
/// change addressed to a topic.
#[derive(Debug)]
pub enum ClientboundNotification {
    Error(WebSocketError),
    Authenticated,
    Ready { users: Vec<User> },
    UserRelationship { id: String, user: String, status: RelationshipStatus },
    UserPresence { id: String, online: bool },
}

#[verifier::ext_equal]
pub ghost enum ClientboundNotificationView {
    Error(WebSocketErrorView),
    Authenticated,
    Ready { users: Seq<UserView> },
    UserRelationship { id: Seq<char>, user: Seq<char>, status: RelationshipStatus },
    UserPresence { id: Seq<char>, online: bool },
}

impl DeepView for ClientboundNotification {
    type V = ClientboundNotificationView;

    open spec fn deep_view(&self) -> ClientboundNotificationView {
        match self {
            ClientboundNotification::Error(e) => ClientboundNotificationView::Error(e.deep_view()),
            ClientboundNotification::Authenticated => ClientboundNotificationView::Authenticated,
            ClientboundNotification::Ready { users } => ClientboundNotificationView::Ready {
                users: users.deep_view(),
            },
            ClientboundNotification::UserRelationship { id, user, status } =>
                ClientboundNotificationView::UserRelationship {
                id: id.deep_view(),
                user: user.deep_view(),
                status: *status,
            },
            ClientboundNotification::UserPresence { id, online } =>
                ClientboundNotificationView::UserPresence { id: id.deep_view(), online: *online },
        }
    }
}

impl ClientboundNotification {
    /// A copy with the same abstract value, for fan-out to many subscribers.
    pub fn duplicate(&self) -> (r: ClientboundNotification)
        ensures
            r.deep_view() == self.deep_view(),
    {
        match self {
            ClientboundNotification::Error(e) => ClientboundNotification::Error(e.duplicate()),
            ClientboundNotification::Authenticated => ClientboundNotification::Authenticated,
            ClientboundNotification::Ready { users } => ClientboundNotification::Ready {
                users: duplicate_users(users),
            },
            ClientboundNotification::UserRelationship { id, user, status } =>
                ClientboundNotification::UserRelationship {
                id: id.clone(),
                user: user.clone(),
                status: *status,
            },
            ClientboundNotification::UserPresence { id, online } =>
                ClientboundNotification::UserPresence { id: id.clone(), online: *online },
        }
    }
}

} // verus!
