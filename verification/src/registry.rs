//! Session channel registry: tracks live connections, enforces the
//! `Unauthenticated -> Authenticated -> Closed` state machine, and fans
//! notifications out to every connection subscribed to a topic. Delivery to
//! a connection means appending to its outbox; the transport drains the
//! outbox outside the core.

use crate::events::{ClientboundNotification, ClientboundNotificationView, User, UserView,
    WebSocketError, WebSocketErrorView};
use vstd::prelude::*;

verus! {

/// Lifecycle state of one connection. A connection authenticates exactly
/// once and never returns from `Closed`.
#[derive(Debug)]
pub enum ConnState {
    Unauthenticated,
    Authenticated { user_id: String },
    Closed,
}

#[verifier::ext_equal]
pub ghost enum ConnStateView {
    Unauthenticated,
    Authenticated { user_id: Seq<char> },
    Closed,
}

impl DeepView for ConnState {
    type V = ConnStateView;

    open spec fn deep_view(&self) -> ConnStateView {
        match self {
            ConnState::Unauthenticated => ConnStateView::Unauthenticated,
            ConnState::Authenticated { user_id } => ConnStateView::Authenticated {
                user_id: user_id.deep_view(),
            },
            ConnState::Closed => ConnStateView::Closed,
        }
    }
}

/// One duplex channel to a client: its lifecycle state, the topics it is
/// subscribed to, and the notifications queued for it in delivery order.
#[derive(Debug)]
pub struct Connection {
    pub id: u64,
    pub state: ConnState,
    pub topics: Vec<String>,
    pub outbox: Vec<ClientboundNotification>,
}

#[verifier::ext_equal]
pub ghost struct ConnectionView {
    pub id: u64,
    pub state: ConnStateView,
    pub topics: Seq<Seq<char>>,
    pub outbox: Seq<ClientboundNotificationView>,
}

impl DeepView for Connection {
    type V = ConnectionView;

    open spec fn deep_view(&self) -> ConnectionView {
        ConnectionView {
            id: self.id,
            state: self.state.deep_view(),
            topics: self.topics.deep_view(),
            outbox: self.outbox.deep_view(),
        }
    }
}

/// What the external credential verification resolved a presented
/// credential to: nothing, or an identity with its onboarding standing.
#[derive(Debug)]
pub enum VerifyOutcome {
    Invalid,
    Valid { user_id: String, onboarded: bool },
}

#[verifier::ext_equal]
pub ghost enum VerifyOutcomeView {
    Invalid,
    Valid { user_id: Seq<char>, onboarded: bool },
}

impl DeepView for VerifyOutcome {
    type V = VerifyOutcomeView;

    open spec fn deep_view(&self) -> VerifyOutcomeView {
        match self {
            VerifyOutcome::Invalid => VerifyOutcomeView::Invalid,
            VerifyOutcome::Valid { user_id, onboarded } => VerifyOutcomeView::Valid {
                user_id: user_id.deep_view(),
                onboarded: *onboarded,
            },
        }
    }
}

/// The registry of live connections.
#[derive(Debug)]
pub struct Registry {
    pub next_id: u64,
    pub conns: Vec<Connection>,
}

/// `i` is the index of the first connection with the given id.
pub open spec fn is_conn_at(conns: Seq<ConnectionView>, id: u64, i: int) -> bool {
    &&& 0 <= i < conns.len()
    &&& conns[i].id == id
    &&& forall|j: int| 0 <= j < i ==> (#[trigger] conns[j].id) != id
}

/// Some live connection carries the id.
pub open spec fn conn_known(conns: Seq<ConnectionView>, id: u64) -> bool {
    exists|i: int| 0 <= i < conns.len() && (#[trigger] conns[i].id) == id
}

/// Whether routing to `topic` delivers to connection `c`: only
/// authenticated connections subscribed to the topic receive it; a closed
/// or unauthenticated channel is skipped as a non-fatal no-op.
pub open spec fn spec_delivered(c: ConnectionView, topic: Seq<char>) -> bool {
    c.state is Authenticated && c.topics.contains(topic)
}

/// One connection after a notification is routed to `topic`.
pub open spec fn spec_route_conn(
    c: ConnectionView,
    topic: Seq<char>,
    n: ClientboundNotificationView,
) -> ConnectionView {
    if spec_delivered(c, topic) {
        ConnectionView { outbox: c.outbox.push(n), ..c }
    } else {
        c
    }
}

/// One connection after an authenticate request with the given verification
/// outcome and `Ready` snapshot: the sole transition of the state machine.
/// A duplicate request or a failed verification only queues the matching
/// error; success subscribes the connection to its own user id and to every
/// visible user's id, and queues the acknowledgment and the snapshot.
pub open spec fn spec_authenticate_conn(
    c: ConnectionView,
    o: VerifyOutcomeView,
    snapshot: Seq<UserView>,
) -> ConnectionView {
    match c.state {
        ConnStateView::Closed => c,
        ConnStateView::Authenticated { user_id: _ } => ConnectionView {
            outbox: c.outbox.push(
                ClientboundNotificationView::Error(WebSocketErrorView::AlreadyAuthenticated),
            ),
            ..c
        },
        ConnStateView::Unauthenticated => match o {
            VerifyOutcomeView::Invalid => ConnectionView {
                outbox: c.outbox.push(
                    ClientboundNotificationView::Error(WebSocketErrorView::InvalidSession),
                ),
                ..c
            },
            VerifyOutcomeView::Valid { user_id, onboarded } => if !onboarded {
                ConnectionView {
                    outbox: c.outbox.push(
                        ClientboundNotificationView::Error(
                            WebSocketErrorView::OnboardingNotFinished,
                        ),
                    ),
                    ..c
                }
            } else {
                ConnectionView {
                    id: c.id,
                    state: ConnStateView::Authenticated { user_id },
                    topics: seq![user_id].add(snapshot.map_values(|u: UserView| u.id)),
                    outbox: c.outbox.push(ClientboundNotificationView::Authenticated).push(
                        ClientboundNotificationView::Ready { users: snapshot },
                    ),
                }
            },
        },
    }
}

/// The connection-scoped error an authenticate request reports, if any.
pub open spec fn spec_authenticate_result(
    c: ConnectionView,
    o: VerifyOutcomeView,
) -> Result<(), WebSocketErrorView> {
    match c.state {
        ConnStateView::Closed => Err(WebSocketErrorView::InternalError { at: "authenticate"@ }),
        ConnStateView::Authenticated { user_id: _ } => Err(
            WebSocketErrorView::AlreadyAuthenticated,
        ),
        ConnStateView::Unauthenticated => match o {
            VerifyOutcomeView::Invalid => Err(WebSocketErrorView::InvalidSession),
            VerifyOutcomeView::Valid { user_id: _, onboarded } => if !onboarded {
                Err(WebSocketErrorView::OnboardingNotFinished)
            } else {
                Ok(())
            },
        },
    }
}

fn empty_connection() -> (r: Connection)
    ensures
        r.deep_view() == (ConnectionView {
            id: 0u64,
            state: ConnStateView::Unauthenticated,
            topics: Seq::empty(),
            outbox: Seq::empty(),
        }),
{
    let r = Connection {
        id: 0,
        state: ConnState::Unauthenticated,
        topics: Vec::new(),
        outbox: Vec::new(),
    };
    proof {
        assert(r.topics.deep_view() =~= Seq::<Seq<char>>::empty());
        assert(r.outbox.deep_view() =~= Seq::<ClientboundNotificationView>::empty());
    }
    r
}

fn topics_contain(topics: &Vec<String>, topic: &String) -> (r: bool)
    ensures
        r == topics.deep_view().contains(topic@),
{
    let mut i: usize = 0;
    while i < topics.len()
        invariant
            0 <= i <= topics@.len(),
            forall|j: int| 0 <= j < i ==> #[trigger] topics.deep_view()[j] != topic@,
        decreases topics@.len() - i,
    {
        if topics[i] == *topic {
            proof {
                assert(topics.deep_view()[i as int] == topics@[i as int]@);
            }
            return true;
        }
        proof {
            assert(topics.deep_view()[i as int] == topics@[i as int]@);
        }
        i = i + 1;
    }
    proof {
        if topics.deep_view().contains(topic@) {
            let j = choose|j: int|
                0 <= j < topics.deep_view().len() && topics.deep_view()[j] == topic@;
            assert(topics.deep_view()[j] != topic@);
        }
    }
    false
}

/// Index of the first connection with the given id, if any is known.
fn conn_index(conns: &Vec<Connection>, id: u64) -> (r: Option<usize>)
    ensures
        match r {
            Some(i) => is_conn_at(conns.deep_view(), id, i as int),
            None => !conn_known(conns.deep_view(), id),
        },
{
    let mut i: usize = 0;
    while i < conns.len()
        invariant
            0 <= i <= conns@.len(),
            forall|j: int| 0 <= j < i ==> (#[trigger] conns.deep_view()[j].id) != id,
        decreases conns@.len() - i,
    {
        if conns[i].id == id {
            proof {
                assert(conns.deep_view()[i as int].id == conns@[i as int].id);
            }
            return Some(i);
        }
        proof {
            assert(conns.deep_view()[i as int].id == conns@[i as int].id);
        }
        i = i + 1;
    }
    None
}

/// `k` is the index of the first subscription equal to `t`.
pub open spec fn is_first_topic_at(topics: Seq<Seq<char>>, t: Seq<char>, k: int) -> bool {
    &&& 0 <= k < topics.len()
    &&& topics[k] == t
    &&& forall|m: int| 0 <= m < k ==> #[trigger] topics[m] != t
}

/// The abstract value of a connection-scoped result.
pub open spec fn result_view(r: Result<(), WebSocketError>) -> Result<(), WebSocketErrorView> {
    match r {
        Ok(()) => Ok(()),
        Err(e) => Err(e.deep_view()),
    }
}

/// One connection after a subscribe request: valid only once authenticated,
/// a no-op (already subscribed) or an appended topic; rejected earlier.
pub open spec fn spec_subscribe_conn(c: ConnectionView, topic: Seq<char>) -> ConnectionView {
    if c.state is Authenticated {
        if c.topics.contains(topic) {
            c
        } else {
            ConnectionView { topics: c.topics.push(topic), ..c }
        }
    } else {
        c
    }
}

/// The result a subscribe or unsubscribe request reports: a labeled
/// internal error unless the connection is authenticated.
pub open spec fn spec_subscription_result(
    c: ConnectionView,
    at: Seq<char>,
) -> Result<(), WebSocketErrorView> {
    if c.state is Authenticated {
        Ok(())
    } else {
        Err(WebSocketErrorView::InternalError { at })
    }
}

/// One connection after its channel closes: terminal, with every
/// subscription dropped atomically with the closure.
pub open spec fn spec_disconnect_conn(c: ConnectionView) -> ConnectionView {
    ConnectionView { state: ConnStateView::Closed, topics: Seq::empty(), ..c }
}

/// Index of the first subscription equal to `topic`, if present.
fn topic_index(topics: &Vec<String>, topic: &String) -> (r: Option<usize>)
    ensures
        match r {
            Some(k) => is_first_topic_at(topics.deep_view(), topic@, k as int),
            None => !topics.deep_view().contains(topic@),
        },
{
    let mut k: usize = 0;
    while k < topics.len()
        invariant
            0 <= k <= topics@.len(),
            forall|m: int| 0 <= m < k ==> #[trigger] topics.deep_view()[m] != topic@,
        decreases topics@.len() - k,
    {
        if topics[k] == *topic {
            proof {
                assert(topics.deep_view()[k as int] == topics@[k as int]@);
            }
            return Some(k);
        }
        proof {
            assert(topics.deep_view()[k as int] == topics@[k as int]@);
        }
        k = k + 1;
    }
    proof {
        if topics.deep_view().contains(topic@) {
            let m = choose|m: int|
                0 <= m < topics.deep_view().len() && topics.deep_view()[m] == topic@;
            assert(topics.deep_view()[m] != topic@);
        }
    }
    None
}

impl Registry {
    /// A registry with no connections.
    pub fn new() -> (r: Registry)
        ensures
            r.next_id == 0u64,
            r.conns.deep_view() == Seq::<ConnectionView>::empty(),
    {
        let r = Registry { next_id: 0, conns: Vec::new() };
        proof {
            assert(r.conns.deep_view() =~= Seq::<ConnectionView>::empty());
        }
        r
    }

    /// Register a newly opened channel: it starts unauthenticated, with no
    /// subscriptions and an empty outbox.
    pub fn connect(&mut self) -> (id: u64)
        requires
            old(self).next_id < u64::MAX,
        ensures
            id == old(self).next_id,
            final(self).next_id == old(self).next_id + 1,
            final(self).conns.deep_view() == old(self).conns.deep_view().push(
                ConnectionView {
                    id,
                    state: ConnStateView::Unauthenticated,
                    topics: Seq::empty(),
                    outbox: Seq::empty(),
                },
            ),
    {
        let id = self.next_id;
        self.next_id = self.next_id + 1;
        let mut c = empty_connection();
        c.id = id;
        self.conns.push(c);
        proof {
            assert(self.conns.deep_view() =~= old(self).conns.deep_view().push(c.deep_view()));
        }
        id
    }

    /// Authenticate a connection with the outcome of the external credential
    /// verification. Valid only from `Unauthenticated`; a duplicate request
    /// is an idempotent rejection that changes no state. On success the
    /// connection is subscribed to its own user id and to every id in the
    /// visible-users snapshot, and the acknowledgment and `Ready` snapshot
    /// are queued for it.
    pub fn authenticate(
        &mut self,
        conn_id: u64,
        outcome: VerifyOutcome,
        snapshot: Vec<User>,
    ) -> (r: Result<(), WebSocketError>)
        ensures
            final(self).next_id == old(self).next_id,
            !conn_known(old(self).conns.deep_view(), conn_id) ==> *final(self) == *old(self)
                && result_view(r) == Err::<(), WebSocketErrorView>(
                WebSocketErrorView::InternalError { at: "authenticate"@ },
            ),
            conn_known(old(self).conns.deep_view(), conn_id) ==> exists|i: int|
                {
                    &&& #[trigger] is_conn_at(old(self).conns.deep_view(), conn_id, i)
                    &&& final(self).conns.deep_view() == old(self).conns.deep_view().update(
                        i,
                        spec_authenticate_conn(
                            old(self).conns.deep_view()[i],
                            outcome.deep_view(),
                            snapshot.deep_view(),
                        ),
                    )
                    &&& result_view(r) == spec_authenticate_result(
                        old(self).conns.deep_view()[i],
                        outcome.deep_view(),
                    )
                },
    {
        let ghost odv = self.conns.deep_view();
        let ghost ov = outcome.deep_view();
        let ghost snapv = snapshot.deep_view();
        let idx = conn_index(&self.conns, conn_id);
        let i = match idx {
            Some(i) => i,
            None => {
                return Err(
                    WebSocketError::InternalError { at: String::from_str("authenticate") },
                );
            },
        };
        let mut c = empty_connection();
        self.conns.set_and_swap(i, &mut c);
        let ghost cv = c.deep_view();
        let res: Result<(), WebSocketError> = match &c.state {
            ConnState::Closed => Err(
                WebSocketError::InternalError { at: String::from_str("authenticate") },
            ),
            ConnState::Authenticated { user_id: _ } => {
                c.outbox.push(ClientboundNotification::Error(WebSocketError::AlreadyAuthenticated));
                proof {
                    assert(c.deep_view() =~= spec_authenticate_conn(cv, ov, snapv));
                }
                Err(WebSocketError::AlreadyAuthenticated)
            },
            ConnState::Unauthenticated => {
                match outcome {
                    VerifyOutcome::Invalid => {
                        c.outbox.push(
                            ClientboundNotification::Error(WebSocketError::InvalidSession),
                        );
                        proof {
                            assert(c.deep_view() =~= spec_authenticate_conn(cv, ov, snapv));
                        }
                        Err(WebSocketError::InvalidSession)
                    },
                    VerifyOutcome::Valid { user_id, onboarded } => {
                        if !onboarded {
                            c.outbox.push(
                                ClientboundNotification::Error(
                                    WebSocketError::OnboardingNotFinished,
                                ),
                            );
                            proof {
                                assert(c.deep_view() =~= spec_authenticate_conn(cv, ov, snapv));
                            }
                            Err(WebSocketError::OnboardingNotFinished)
                        } else {
                            let ghost uidv = user_id@;
                            let ghost ids = snapv.map_values(|u: UserView| u.id);
                            let mut topics: Vec<String> = Vec::new();
                            topics.push(user_id.clone());
                            proof {
                                assert(topics.deep_view() =~= seq![uidv].add(
                                    ids.subrange(0, 0),
                                ));
                            }
                            let mut k: usize = 0;
                            while k < snapshot.len()
                                invariant
                                    0 <= k <= snapshot@.len(),
                                    snapv == snapshot.deep_view(),
                                    ids == snapv.map_values(|u: UserView| u.id),
                                    topics.deep_view() == seq![uidv].add(
                                        ids.subrange(0, k as int),
                                    ),
                                decreases snapshot@.len() - k,
                            {
                                let ghost prev = topics.deep_view();
                                topics.push(snapshot[k].id.clone());
                                proof {
                                    assert(snapshot@[k as int].id@ == snapv[k as int].id);
                                    assert(topics.deep_view() =~= prev.push(ids[k as int]));
                                    assert(seq![uidv].add(ids.subrange(0, k + 1)) =~= prev.push(
                                        ids[k as int],
                                    ));
                                }
                                k = k + 1;
                            }
                            proof {
                                assert(ids.subrange(0, snapshot@.len() as int) =~= ids);
                                assert(topics.deep_view() =~= seq![uidv].add(ids));
                            }
                            c.state = ConnState::Authenticated { user_id };
                            c.topics = topics;
                            c.outbox.push(ClientboundNotification::Authenticated);
                            c.outbox.push(ClientboundNotification::Ready { users: snapshot });
                            proof {
                                assert(c.deep_view() =~= spec_authenticate_conn(cv, ov, snapv));
                            }
                            Ok(())
                        }
                    },
                }
            },
        };
        self.conns.set_and_swap(i, &mut c);
        proof {
            assert(self.conns.deep_view() =~= odv.update(
                i as int,
                spec_authenticate_conn(odv[i as int], ov, snapv),
            ));
        }
        res
    }

    /// Subscribe a connection to a topic. Valid only once authenticated;
    /// earlier it is rejected with a labeled internal error and no state
    /// change. Subscribing twice to one topic is a no-op.
    pub fn subscribe(&mut self, conn_id: u64, topic: String) -> (r: Result<(), WebSocketError>)
        ensures
            final(self).next_id == old(self).next_id,
            !conn_known(old(self).conns.deep_view(), conn_id) ==> *final(self) == *old(self)
                && result_view(r) == Err::<(), WebSocketErrorView>(
                WebSocketErrorView::InternalError { at: "subscribe"@ },
            ),
            conn_known(old(self).conns.deep_view(), conn_id) ==> exists|i: int|
                {
                    &&& #[trigger] is_conn_at(old(self).conns.deep_view(), conn_id, i)
                    &&& final(self).conns.deep_view() == old(self).conns.deep_view().update(
                        i,
                        spec_subscribe_conn(old(self).conns.deep_view()[i], topic@),
                    )
                    &&& result_view(r) == spec_subscription_result(
                        old(self).conns.deep_view()[i],
                        "subscribe"@,
                    )
                },
    {
        let ghost odv = self.conns.deep_view();
        let ghost tv = topic@;
        let idx = conn_index(&self.conns, conn_id);
        let i = match idx {
            Some(i) => i,
            None => {
                return Err(WebSocketError::InternalError { at: String::from_str("subscribe") });
            },
        };
        let mut c = empty_connection();
        self.conns.set_and_swap(i, &mut c);
        let ghost cv = c.deep_view();
        let res: Result<(), WebSocketError> = match &c.state {
            ConnState::Authenticated { user_id: _ } => {
                if !topics_contain(&c.topics, &topic) {
                    let ghost prev = c.topics.deep_view();
                    c.topics.push(topic);
                    proof {
                        assert(c.topics.deep_view() =~= prev.push(tv));
                    }
                }
                proof {
                    assert(c.deep_view() =~= spec_subscribe_conn(cv, tv));
                }
                Ok(())
            },
            _ => Err(WebSocketError::InternalError { at: String::from_str("subscribe") }),
        };
        self.conns.set_and_swap(i, &mut c);
        proof {
            assert(self.conns.deep_view() =~= odv.update(
                i as int,
                spec_subscribe_conn(odv[i as int], tv),
            ));
        }
        res
    }

    /// Unsubscribe a connection from a topic. Valid only once
    /// authenticated; earlier it is rejected with a labeled internal error
    /// and no state change.
    pub fn unsubscribe(&mut self, conn_id: u64, topic: &String) -> (r: Result<
        (),
        WebSocketError,
    >)
        ensures
            final(self).next_id == old(self).next_id,
            !conn_known(old(self).conns.deep_view(), conn_id) ==> *final(self) == *old(self)
                && result_view(r) == Err::<(), WebSocketErrorView>(
                WebSocketErrorView::InternalError { at: "unsubscribe"@ },
            ),
            conn_known(old(self).conns.deep_view(), conn_id) ==> exists|i: int|
                {
                    &&& #[trigger] is_conn_at(old(self).conns.deep_view(), conn_id, i)
                    &&& result_view(r) == spec_subscription_result(
                        old(self).conns.deep_view()[i],
                        "unsubscribe"@,
                    )
                    &&& (!(old(self).conns.deep_view()[i].state is Authenticated) || !old(
                        self,
                    ).conns.deep_view()[i].topics.contains(topic@) ==> final(self).conns.deep_view()
                        == old(self).conns.deep_view())
                    &&& (old(self).conns.deep_view()[i].state is Authenticated && old(
                        self,
                    ).conns.deep_view()[i].topics.contains(topic@) ==> exists|k: int|
                        {
                            &&& #[trigger] is_first_topic_at(
                                old(self).conns.deep_view()[i].topics,
                                topic@,
                                k,
                            )
                            &&& final(self).conns.deep_view() == old(
                                self,
                            ).conns.deep_view().update(
                                i,
                                ConnectionView {
                                    topics: old(self).conns.deep_view()[i].topics.remove(k),
                                    ..old(self).conns.deep_view()[i]
                                },
                            )
                        })
                },
    {
        let ghost odv = self.conns.deep_view();
        let idx = conn_index(&self.conns, conn_id);
        let i = match idx {
            Some(i) => i,
            None => {
                return Err(WebSocketError::InternalError { at: String::from_str("unsubscribe") });
            },
        };
        let mut c = empty_connection();
        self.conns.set_and_swap(i, &mut c);
        let ghost cv = c.deep_view();
        let res: Result<(), WebSocketError> = match &c.state {
            ConnState::Authenticated { user_id: _ } => {
                let found = topic_index(&c.topics, topic);
                if let Some(k0) = found {
                    let ghost prev = c.topics.deep_view();
                    c.topics.remove(k0);
                    proof {
                        assert(is_first_topic_at(prev, topic@, k0 as int));
                        assert(c.topics.deep_view() =~= prev.remove(k0 as int));
                    }
                }
                Ok(())
            },
            _ => Err(WebSocketError::InternalError { at: String::from_str("unsubscribe") }),
        };
        let ghost newcv = c.deep_view();
        self.conns.set_and_swap(i, &mut c);
        proof {
            if cv.state is Authenticated && cv.topics.contains(topic@) {
                assert(self.conns.deep_view() =~= odv.update(i as int, newcv));
            } else {
                assert(self.conns.deep_view() =~= odv);
            }
        }
        res
    }

    /// Drop a connection: its state becomes terminal and every subscription
    /// is removed atomically with the closure, so routing never delivers to
    /// a closed channel. Unknown ids are a non-fatal no-op.
    pub fn disconnect(&mut self, conn_id: u64)
        ensures
            final(self).next_id == old(self).next_id,
            !conn_known(old(self).conns.deep_view(), conn_id) ==> *final(self) == *old(self),
            conn_known(old(self).conns.deep_view(), conn_id) ==> exists|i: int|
                {
                    &&& #[trigger] is_conn_at(old(self).conns.deep_view(), conn_id, i)
                    &&& final(self).conns.deep_view() == old(self).conns.deep_view().update(
                        i,
                        spec_disconnect_conn(old(self).conns.deep_view()[i]),
                    )
                },
    {
        let ghost odv = self.conns.deep_view();
        let idx = conn_index(&self.conns, conn_id);
        let i = match idx {
            Some(i) => i,
            None => {
                return ;
            },
        };
        let mut c = empty_connection();
        self.conns.set_and_swap(i, &mut c);
        let ghost cv = c.deep_view();
        c.state = ConnState::Closed;
        c.topics = Vec::new();
        proof {
            assert(c.topics.deep_view() =~= Seq::<Seq<char>>::empty());
            assert(c.deep_view() =~= spec_disconnect_conn(cv));
        }
        self.conns.set_and_swap(i, &mut c);
        proof {
            assert(self.conns.deep_view() =~= odv.update(
                i as int,
                spec_disconnect_conn(odv[i as int]),
            ));
        }
    }

    /// Fan a notification out to every connection subscribed to `topic`:
    /// delivery appends to each subscriber's outbox in submission order
    /// (FIFO per topic), and skips unauthenticated or closed channels
    /// without affecting delivery to the others.
    pub fn route(&mut self, topic: &String, n: &ClientboundNotification)
        ensures
            final(self).next_id == old(self).next_id,
            final(self).conns.deep_view().len() == old(self).conns.deep_view().len(),
            forall|k: int|
                0 <= k < old(self).conns.deep_view().len() ==> final(self).conns.deep_view()[k]
                    == spec_route_conn(
                    #[trigger] old(self).conns.deep_view()[k],
                    topic@,
                    n.deep_view(),
                ),
    {
        let ghost odv = self.conns.deep_view();
        let mut k: usize = 0;
        while k < self.conns.len()
            invariant
                0 <= k <= self.conns@.len(),
                self.conns@.len() == odv.len(),
                self.next_id == old(self).next_id,
                forall|m: int|
                    0 <= m < k ==> self.conns.deep_view()[m] == spec_route_conn(
                        #[trigger] odv[m],
                        topic@,
                        n.deep_view(),
                    ),
                forall|m: int|
                    k <= m < odv.len() ==> #[trigger] self.conns.deep_view()[m] == odv[m],
            decreases self.conns@.len() - k,
        {
            let ghost prev_dv = self.conns.deep_view();
            let mut c = empty_connection();
            self.conns.set_and_swap(k, &mut c);
            let ghost cv = c.deep_view();
            proof {
                assert(cv == prev_dv[k as int]);
                assert(prev_dv[k as int] == odv[k as int]);
            }
            let deliver = match &c.state {
                ConnState::Authenticated { user_id: _ } => topics_contain(&c.topics, topic),
                _ => false,
            };
            if deliver {
                let ghost prev = c.outbox.deep_view();
                c.outbox.push(n.duplicate());
                proof {
                    assert(c.outbox.deep_view() =~= prev.push(n.deep_view()));
                }
            }
            proof {
                assert(c.deep_view() =~= spec_route_conn(cv, topic@, n.deep_view()));
            }
            let ghost newcv = c.deep_view();
            self.conns.set_and_swap(k, &mut c);
            proof {
                assert(self.conns.deep_view() =~= prev_dv.update(k as int, newcv));
            }
            k = k + 1;
        }
    }
}

impl ClientboundNotification {
    /// Bridge a domain event into the topic model: hand the notification to
    /// the registry for fan-out. Publication is fire-and-forget: it cannot
    /// fail in-process and never affects the mutation that produced it.
    pub fn publish(self, topic: &String, registry: &mut Registry) -> (r: Result<(), String>)
        ensures
            r is Ok,
            final(registry).next_id == old(registry).next_id,
            final(registry).conns.deep_view().len() == old(registry).conns.deep_view().len(),
            forall|k: int|
                0 <= k < old(registry).conns.deep_view().len() ==> final(registry).conns.deep_view()[k] == spec_route_conn(
                    #[trigger] old(registry).conns.deep_view()[k],
                    topic@,
                    self.deep_view(),
                ),
    {
        registry.route(topic, &self);
        Ok(())
    }
}

/// The connection state machine admits one authentication: from
/// `Unauthenticated`, a valid, onboarded credential authenticates the
/// connection, and any second authenticate request — whatever its outcome —
/// only queues the "already authenticated" error and changes nothing else.
pub proof fn lemma_authenticate_once(
    c: ConnectionView,
    o: VerifyOutcomeView,
    snapshot: Seq<UserView>,
    o2: VerifyOutcomeView,
    snapshot2: Seq<UserView>,
)
    requires
        c.state is Unauthenticated,
        o is Valid,
        o->Valid_onboarded,
    ensures
        ({
            let c1 = spec_authenticate_conn(c, o, snapshot);
            &&& spec_authenticate_result(c, o) is Ok
            &&& c1.state == (ConnStateView::Authenticated { user_id: o->Valid_user_id })
            &&& spec_authenticate_result(c1, o2) == Err::<(), WebSocketErrorView>(
                WebSocketErrorView::AlreadyAuthenticated,
            )
            &&& spec_authenticate_conn(c1, o2, snapshot2) == (ConnectionView {
                outbox: c1.outbox.push(
                    ClientboundNotificationView::Error(WebSocketErrorView::AlreadyAuthenticated),
                ),
                ..c1
            })
        }),
{
}

/// A subscribe attempt before any successful authentication is rejected:
/// the connection is unchanged and a labeled internal error is reported.
pub proof fn lemma_subscribe_requires_authentication(c: ConnectionView, topic: Seq<char>)
    requires
        !(c.state is Authenticated),
    ensures
        spec_subscribe_conn(c, topic) == c,
        spec_subscription_result(c, "subscribe"@) is Err,
{
}

/// Fan-out isolation: routing to a topic appends the notification to the
/// outbox of a connection subscribed to it, and leaves every connection not
/// subscribed to that topic — for instance one subscribed only to a
/// different topic — entirely unchanged.
pub proof fn lemma_fanout_isolation(
    c1: ConnectionView,
    c2: ConnectionView,
    t1: Seq<char>,
    n: ClientboundNotificationView,
)
    requires
        spec_delivered(c1, t1),
        !c2.topics.contains(t1),
    ensures
        spec_route_conn(c1, t1, n) == (ConnectionView { outbox: c1.outbox.push(n), ..c1 }),
        spec_route_conn(c2, t1, n) == c2,
{
}

/// FIFO per topic: two notifications routed to one topic reach each
/// subscriber in submission order.
pub proof fn lemma_route_fifo(
    c: ConnectionView,
    t: Seq<char>,
    n1: ClientboundNotificationView,
    n2: ClientboundNotificationView,
)
    ensures
        spec_route_conn(spec_route_conn(c, t, n1), t, n2).outbox == if spec_delivered(c, t) {
            c.outbox.push(n1).push(n2)
        } else {
            c.outbox
        },
{
}

} // verus!
