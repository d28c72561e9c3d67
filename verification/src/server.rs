//! The server's side: the table of sessions, the password check, and the
//! announcement of opponents that follows each join.

use crate::message::{Message, MessageError, MessageKind, MessageView, PAYLOAD_CAPACITY};
use crate::payload::{decoded, encoded, lemma_decode_encode, MessageType, LIST_CAPACITY};
use vstd::bytes::lemma_auto_spec_u64_to_from_le_bytes;
use vstd::pervasive::unreached;
use vstd::prelude::*;

verus! {

/// Seconds to wait before the announcement is written to the session that
/// joined last, so that the others get to act on it first.
pub const JOINER_DELAY_SECS: u64 = 2;

/// How far a session has come in the password exchange.
#[derive(Debug, Clone, Copy, PartialEq, Eq, Structural)]
pub enum AuthState {
    /// The password was asked for and has not been answered.
    AwaitingPassword,
    /// The right password was given.
    Authenticated,
    /// A wrong answer was given; the connection is to be closed.
    Rejected,
}

/// One connected client, with the handle `S` through which it is written to.
struct User<S> {
    id: usize,
    is_finished: bool,
    auth: AuthState,
    stream: S,
}

/// What contracts say of a session: everything but its handle.
pub struct Session {
    pub id: usize,
    pub finished: bool,
    pub auth: AuthState,
}

/// The sessions of a server, in the order in which they were accepted.
/// Sessions are never removed.
pub struct Users<S> {
    users: Vec<User<S>>,
}

/// Session `i` of a table has id `i + 1`: ids count up from 1 in the order of
/// joining.
pub open spec fn ids_in_join_order(sessions: Seq<Session>) -> bool {
    forall|i: int| 0 <= i < sessions.len() ==> (#[trigger] sessions[i]).id == i + 1
}

/// The session that a join adds to a table.
pub open spec fn new_session(sessions: Seq<Session>) -> Session {
    Session {
        id: (sessions.len() + 1) as usize,
        finished: false,
        auth: AuthState::AwaitingPassword,
    }
}

/// The ids of the sessions that have not finished, in the order of joining.
pub open spec fn available_ids(sessions: Seq<Session>) -> Seq<usize>
    decreases sessions.len(),
{
    if sessions.len() == 0 {
        Seq::empty()
    } else if sessions.last().finished {
        available_ids(sessions.drop_last())
    } else {
        available_ids(sessions.drop_last()).push(sessions.last().id)
    }
}

/// The table after session `id` has finished; unchanged where there is no
/// such session.
pub open spec fn finished(sessions: Seq<Session>, id: usize) -> Seq<Session> {
    if 1 <= id <= sessions.len() {
        sessions.update(id - 1, Session { finished: true, ..sessions[id - 1] })
    } else {
        sessions
    }
}

/// Whether `reply` is of a kind that carries text, and its text is the password.
pub open spec fn password_matches(password: Seq<char>, reply: MessageView) -> bool {
    reply.kind.spec_carries_text() && decoded::<String>(reply) == Ok::<Seq<char>, MessageError>(
        password,
    )
}

/// Whether session `id` exists and still owes its password.
pub open spec fn awaits_password(sessions: Seq<Session>, id: usize) -> bool {
    1 <= id <= sessions.len() && sessions[id - 1].auth == AuthState::AwaitingPassword
}

/// The table after session `id` has answered the request for the password.
pub open spec fn answered(sessions: Seq<Session>, id: usize, matches: bool) -> Seq<Session> {
    if awaits_password(sessions, id) {
        sessions.update(
            id - 1,
            Session {
                auth: if matches {
                    AuthState::Authenticated
                } else {
                    AuthState::Rejected
                },
                ..sessions[id - 1]
            },
        )
    } else {
        sessions
    }
}

/// The server's answer to what session `id` sent as its password: the id
/// where it matches, a refusal where it does not.
pub open spec fn verdict(id: usize, matches: bool) -> MessageView {
    if matches {
        encoded::<usize>(id, 0, MessageKind::AssignUid)->Ok_0
    } else {
        encoded::<()>((), 0, MessageKind::WrongPasswd)->Ok_0
    }
}

/// The request for the password, which opens every connection.
pub open spec fn greeting() -> MessageView {
    encoded::<()>((), 0, MessageKind::EnterPasswd)->Ok_0
}

/// One frame of an announcement and the session to write it to.
#[derive(Debug, Clone, PartialEq, Eq)]
pub struct Delivery {
    /// The id of the session to write to.
    pub to: usize,
    /// Whether to wait `JOINER_DELAY_SECS` before writing.
    pub delayed: bool,
    /// The frame to write.
    pub message: Message,
}

/// A delivery as contracts see it.
pub struct DeliveryView {
    pub to: usize,
    pub delayed: bool,
    pub message: MessageView,
}

impl View for Delivery {
    type V = DeliveryView;

    open spec fn view(&self) -> DeliveryView {
        DeliveryView { to: self.to, delayed: self.delayed, message: self.message@ }
    }
}

/// A broadcast to a table: one frame for each session, in the order of
/// joining, that carries `v` and names its receiver as sender. With no session
/// there is nothing to send; else a value too large for one frame is refused.
pub open spec fn broadcast_plan<T: MessageType>(
    sessions: Seq<Session>,
    kind: MessageKind,
    v: T::V,
) -> Result<Seq<DeliveryView>, MessageError> {
    if sessions.len() > 0 && T::payload_of(v).len() > PAYLOAD_CAPACITY {
        Err(MessageError::PayloadTooLarge)
    } else {
        Ok(
            Seq::new(
                sessions.len(),
                |i: int|
                    DeliveryView {
                        to: sessions[i].id,
                        delayed: false,
                        message: encoded::<T>(v, sessions[i].id, kind)->Ok_0,
                    },
            ),
        )
    }
}

/// The announcement of opponents for a table: nothing while fewer than two
/// sessions are there; else a broadcast of the ids of the sessions not
/// finished, as `ShowOpponents`, in which the last frame, that of the newest
/// session, is delayed.
pub open spec fn announcement(sessions: Seq<Session>) -> Result<Seq<DeliveryView>, MessageError> {
    if sessions.len() < 2 {
        Ok(Seq::empty())
    } else {
        match broadcast_plan::<Vec<usize>>(
            sessions,
            MessageKind::ShowOpponents,
            available_ids(sessions),
        ) {
            Ok(plan) => Ok(
                plan.update(plan.len() - 1, DeliveryView { delayed: true, ..plan.last() }),
            ),
            Err(e) => Err(e),
        }
    }
}

/// The deliveries of a plan as contracts see them.
pub open spec fn delivery_views(plan: Seq<Delivery>) -> Seq<DeliveryView> {
    Seq::new(plan.len(), |i: int| plan[i]@)
}

/// What a join gives back: the new session's id, the request for the password
/// to send to it, and the announcement to make to all.
#[derive(Debug)]
pub struct Joined {
    /// The id of the session that joined.
    pub id: usize,
    /// The request for the password, to send to that session.
    pub greeting: Message,
    /// The frames to write to the sessions, in this order; or why no
    /// announcement can be made.
    pub announcement: Result<Vec<Delivery>, MessageError>,
}

impl<S> View for Users<S> {
    type V = Seq<Session>;

    closed spec fn view(&self) -> Seq<Session> {
        Seq::new(
            self.users@.len(),
            |i: int|
                Session {
                    id: self.users@[i].id,
                    finished: self.users@[i].is_finished,
                    auth: self.users@[i].auth,
                },
        )
    }
}

impl<S> Users<S> {
    /// The handles of the sessions, in the order of joining.
    pub closed spec fn streams(&self) -> Seq<S> {
        Seq::new(self.users@.len(), |i: int| self.users@[i].stream)
    }

    /// What every table built by these functions satisfies: ids count up from
    /// 1 in the order of joining, and each session has its handle.
    pub open spec fn well_formed(&self) -> bool {
        ids_in_join_order(self@) && self.streams().len() == self@.len()
    }

    /// An empty table.
    pub fn new() -> (users: Users<S>)
        ensures
            users@ == Seq::<Session>::empty(),
            users.streams() == Seq::<S>::empty(),
            users.well_formed(),
    {
        let users = Users { users: Vec::new() };
        assert(users@ =~= Seq::<Session>::empty());
        assert(users.streams() =~= Seq::<S>::empty());
        users
    }

    /// The number of sessions that have joined.
    pub fn len(&self) -> (n: usize)
        ensures
            n == self@.len(),
    {
        self.users.len()
    }

    /// Adds a session for a connection that was just accepted and gives it the
    /// next id. Nothing is asked of the client before.
    pub fn new_user(&mut self, stream: S) -> (id: usize)
        requires
            old(self).well_formed(),
            old(self)@.len() < usize::MAX,
        ensures
            id == old(self)@.len() + 1,
            final(self)@ == old(self)@.push(new_session(old(self)@)),
            final(self).streams() == old(self).streams().push(stream),
            final(self).well_formed(),
    {
        let id: usize = self.users.len() + 1;
        self.users.push(User { id, is_finished: false, auth: AuthState::AwaitingPassword, stream });
        assert(self@ =~= old(self)@.push(new_session(old(self)@)));
        assert(self.streams() =~= old(self).streams().push(stream));
        id
    }

    /// The ids of the sessions that have not finished, in the order of joining.
    pub fn get_available_users(&self) -> (ids: Vec<usize>)
        ensures
            ids@ == available_ids(self@),
    {
        let mut ids: Vec<usize> = Vec::new();
        let mut i: usize = 0;
        while i < self.users.len()
            invariant
                i <= self.users@.len(),
                self@.len() == self.users@.len(),
                ids@ == available_ids(self@.subrange(0, i as int)),
            decreases self.users@.len() - i,
        {
            assert(self@.subrange(0, i + 1).drop_last() =~= self@.subrange(0, i as int));
            if !self.users[i].is_finished {
                ids.push(self.users[i].id);
            }
            i += 1;
        }
        assert(self@.subrange(0, i as int) =~= self@);
        ids
    }

    /// Marks session `id` as finished, for good. Says whether there is such a
    /// session.
    pub fn mark_finished(&mut self, id: usize) -> (known: bool)
        requires
            old(self).well_formed(),
        ensures
            known == (1 <= id <= old(self)@.len()),
            final(self)@ == finished(old(self)@, id),
            final(self).streams() == old(self).streams(),
            final(self).well_formed(),
    {
        if id == 0 || id > self.users.len() {
            return false;
        }
        self.users[id - 1].is_finished = true;
        assert(self@ =~= finished(old(self)@, id));
        assert(self.streams() =~= old(self).streams());
        true
    }

    /// The handle of session `id`, to write to. The table stays as it is but
    /// for what the caller does to that handle.
    pub fn stream_mut(&mut self, id: usize) -> (stream: Option<&mut S>)
        requires
            old(self).well_formed(),
        ensures
            final(self)@ == old(self)@,
            final(self).well_formed(),
            match stream {
                Some(s) => 1 <= id <= old(self)@.len() && *s == old(self).streams()[id - 1]
                    && final(self).streams() == old(self).streams().update(id - 1, *final(s)),
                None => !(1 <= id <= old(self)@.len()) && final(self).streams() == old(
                    self,
                ).streams(),
            },
    {
        if id == 0 || id > self.users.len() {
            return None;
        }
        let stream = &mut self.users[id - 1].stream;
        proof {
            assert(after_borrow(*self)@ =~= old(self)@);
            assert(after_borrow(*self).streams() =~= old(self).streams().update(
                id - 1,
                *final(stream),
            ));
        }
        Some(stream)
    }

    /// How far session `id` has come in the password exchange.
    pub fn auth_state(&self, id: usize) -> (state: Option<AuthState>)
        ensures
            state == (if 1 <= id <= self@.len() {
                Some(self@[id - 1].auth)
            } else {
                None
            }),
    {
        if id == 0 || id > self.users.len() {
            return None;
        }
        Some(self.users[id - 1].auth)
    }

    /// Whether session `id` has finished.
    pub fn is_finished(&self, id: usize) -> (done: Option<bool>)
        ensures
            done == (if 1 <= id <= self@.len() {
                Some(self@[id - 1].finished)
            } else {
                None
            }),
    {
        if id == 0 || id > self.users.len() {
            return None;
        }
        Some(self.users[id - 1].is_finished)
    }

    /// Takes what session `id` sent in answer to the request for its password.
    /// Gives the frame to send back, `AssignUid` with the id or `WrongPasswd`,
    /// and records the outcome; after `WrongPasswd` the connection is to be
    /// closed. Gives nothing, and changes nothing, where no session `id` owes
    /// a password. No session is added, removed, renumbered or finished.
    pub fn authenticate(&mut self, id: usize, password: &String, reply: &Message) -> (answer:
        Option<Message>)
        requires
            old(self).well_formed(),
        ensures
            final(self).well_formed(),
            final(self)@ == answered(old(self)@, id, password_matches(password@, reply@)),
            final(self).streams() == old(self).streams(),
            match answer {
                Some(m) => awaits_password(old(self)@, id) && m@ == verdict(
                    id,
                    password_matches(password@, reply@),
                ),
                None => !awaits_password(old(self)@, id),
            },
    {
        if id == 0 || id > self.users.len() {
            return None;
        }
        match self.users[id - 1].auth {
            AuthState::AwaitingPassword => {},
            _ => {
                return None;
            },
        }
        let matches = check_password(password, reply);
        let answer = if matches {
            self.users[id - 1].auth = AuthState::Authenticated;
            proof {
                lemma_auto_spec_u64_to_from_le_bytes();
            }
            Message::new_anonymous::<usize>(&id, MessageKind::AssignUid)
        } else {
            self.users[id - 1].auth = AuthState::Rejected;
            Message::new_anonymous::<()>(&(), MessageKind::WrongPasswd)
        };
        assert(self@ =~= answered(old(self)@, id, matches));
        assert(self.streams() =~= old(self).streams());
        match answer {
            Ok(m) => Some(m),
            Err(_) => unreached(),
        }
    }

    /// Plans a broadcast: one frame of the given kind for each session, in
    /// the order of joining, each carrying `payload` and naming its receiver
    /// as sender.
    pub fn broadcast<T: MessageType>(&self, kind: MessageKind, payload: &T) -> (plan: Result<
        Vec<Delivery>,
        MessageError,
    >)
        ensures
            match plan {
                Ok(p) => broadcast_plan::<T>(self@, kind, payload@) == Ok::<
                    Seq<DeliveryView>,
                    MessageError,
                >(delivery_views(p@)),
                Err(e) => broadcast_plan::<T>(self@, kind, payload@) == Err::<
                    Seq<DeliveryView>,
                    MessageError,
                >(e),
            },
    {
        let mut plan: Vec<Delivery> = Vec::new();
        let n: usize = self.users.len();
        let mut i: usize = 0;
        while i < n
            invariant
                i <= n == self.users@.len() == self@.len(),
                i > 0 ==> T::payload_of(payload@).len() <= PAYLOAD_CAPACITY,
                plan@.len() == i,
                forall|j: int|
                    0 <= j < i ==> (#[trigger] plan@[j])@ == (DeliveryView {
                        to: self@[j].id,
                        delayed: false,
                        message: encoded::<T>(payload@, self@[j].id, kind)->Ok_0,
                    }),
            decreases n - i,
        {
            let to: usize = self.users[i].id;
            match Message::new::<T>(payload, to, kind) {
                Ok(message) => {
                    plan.push(Delivery { to, delayed: false, message });
                },
                Err(e) => {
                    return Err(e);
                },
            }
            i += 1;
        }
        assert(delivery_views(plan@) =~= broadcast_plan::<T>(self@, kind, payload@)->Ok_0);
        Ok(plan)
    }

    /// The announcement of opponents to make after a join.
    pub fn opponents_broadcast(&self) -> (plan: Result<Vec<Delivery>, MessageError>)
        ensures
            match plan {
                Ok(p) => announcement(self@) == Ok::<Seq<DeliveryView>, MessageError>(
                    delivery_views(p@),
                ),
                Err(e) => announcement(self@) == Err::<Seq<DeliveryView>, MessageError>(e),
            },
    {
        let n: usize = self.users.len();
        if n < 2 {
            let nothing: Vec<Delivery> = Vec::new();
            assert(delivery_views(nothing@) =~= Seq::<DeliveryView>::empty());
            return Ok(nothing);
        }
        let ids = self.get_available_users();
        match self.broadcast::<Vec<usize>>(MessageKind::ShowOpponents, &ids) {
            Ok(mut plan) => {
                let ghost undelayed = delivery_views(plan@);
                assert(plan@.len() == undelayed.len());
                plan[n - 1].delayed = true;
                assert(delivery_views(plan@) =~= undelayed.update(
                    n - 1,
                    DeliveryView { delayed: true, ..undelayed.last() },
                ));
                Ok(plan)
            },
            Err(e) => Err(e),
        }
    }

    /// Takes in a connection that was just accepted: gives it the next id,
    /// before any password is asked for, and says what to send.
    pub fn join(&mut self, stream: S) -> (joined: Joined)
        requires
            old(self).well_formed(),
            old(self)@.len() < usize::MAX,
        ensures
            final(self).well_formed(),
            final(self)@ == old(self)@.push(new_session(old(self)@)),
            final(self).streams() == old(self).streams().push(stream),
            joined.id == old(self)@.len() + 1,
            joined.greeting@ == greeting(),
            match joined.announcement {
                Ok(p) => announcement(final(self)@) == Ok::<Seq<DeliveryView>, MessageError>(
                    delivery_views(p@),
                ),
                Err(e) => announcement(final(self)@) == Err::<Seq<DeliveryView>, MessageError>(e),
            },
    {
        let id: usize = self.new_user(stream);
        let greeting = match Message::new_anonymous::<()>(&(), MessageKind::EnterPasswd) {
            Ok(m) => m,
            Err(_) => unreached(),
        };
        let announcement = self.opponents_broadcast();
        Joined { id, greeting, announcement }
    }
}

/// Whether `reply` carries the password.
pub fn check_password(password: &String, reply: &Message) -> (ok: bool)
    ensures
        ok == password_matches(password@, reply@),
{
    if !reply.kind.carries_text() {
        return false;
    }
    match reply.value::<String>() {
        Ok(text) => text == *password,
        Err(_) => false,
    }
}

/// Ids are given out as 1, 2, 3, ... in the order of joining, and none is
/// given twice: the id of a session that joins is one more than the number of
/// sessions before it, and differs from every id given before.
pub proof fn lemma_ids_never_reused(sessions: Seq<Session>)
    requires
        ids_in_join_order(sessions),
        sessions.len() < usize::MAX,
    ensures
        new_session(sessions).id == sessions.len() + 1,
        ids_in_join_order(sessions.push(new_session(sessions))),
        forall|i: int| 0 <= i < sessions.len() ==> (#[trigger] sessions[i]).id != new_session(sessions).id,
        forall|i: int, j: int|
            0 <= i < j < sessions.len() ==> (#[trigger] sessions[i]).id != (#[trigger] sessions[j]).id,
{
}

/// An answer to the request for the password, right or wrong, and the end of
/// a session leave every id as it is and the next id to give out the same.
pub proof fn lemma_ids_outlast_sessions(sessions: Seq<Session>, id: usize, matches: bool)
    ensures
        answered(sessions, id, matches).len() == sessions.len(),
        finished(sessions, id).len() == sessions.len(),
        forall|i: int|
            0 <= i < sessions.len() ==> (#[trigger] answered(sessions, id, matches)[i]).id
                == sessions[i].id,
        forall|i: int|
            0 <= i < sessions.len() ==> (#[trigger] finished(sessions, id)[i]).id == sessions[i].id,
        new_session(answered(sessions, id, matches)) == new_session(sessions),
        new_session(finished(sessions, id)) == new_session(sessions),
{
}

/// A session that has finished stays finished, whatever is answered and
/// whoever else finishes.
pub proof fn lemma_finished_for_good(sessions: Seq<Session>, id: usize, matches: bool, i: int)
    requires
        0 <= i < sessions.len(),
        sessions[i].finished,
    ensures
        answered(sessions, id, matches)[i].finished,
        finished(sessions, id)[i].finished,
        sessions.push(new_session(sessions))[i].finished,
{
}

/// A wrong password is answered with `WrongPasswd`, never with `AssignUid`,
/// and the right one with `AssignUid` that carries the session's id. The
/// refusal marks the session as rejected and does not finish it.
pub proof fn lemma_verdict(sessions: Seq<Session>, id: usize, matches: bool)
    requires
        awaits_password(sessions, id),
    ensures
        verdict(id, matches).kind == (if matches {
            MessageKind::AssignUid
        } else {
            MessageKind::WrongPasswd
        }),
        verdict(id, matches).id == 0,
        matches ==> decoded::<usize>(verdict(id, matches)) == Ok::<usize, MessageError>(id),
        answered(sessions, id, matches)[id - 1].auth == (if matches {
            AuthState::Authenticated
        } else {
            AuthState::Rejected
        }),
        answered(sessions, id, matches)[id - 1].finished == sessions[id - 1].finished,
{
    lemma_auto_spec_u64_to_from_le_bytes();
    if matches {
        lemma_decode_encode::<usize>(id, 0, MessageKind::AssignUid);
    }
}

/// The available ids are those of the sessions that have not finished, and
/// only those.
pub proof fn lemma_available_ids(sessions: Seq<Session>, id: usize)
    ensures
        available_ids(sessions).contains(id) <==> exists|i: int|
            0 <= i < sessions.len() && (#[trigger] sessions[i]).id == id && !sessions[i].finished,
    decreases sessions.len(),
{
    if sessions.len() > 0 {
        let front = sessions.drop_last();
        lemma_available_ids(front, id);
        if available_ids(front).contains(id) {
            let i = choose|i: int|
                0 <= i < front.len() && (#[trigger] front[i]).id == id && !front[i].finished;
            assert(sessions[i].id == id && !sessions[i].finished);
        }
        if !sessions.last().finished {
            let rest = available_ids(front);
            assert(rest.push(sessions.last().id).last() == sessions.last().id);
            assert forall|k: int| 0 <= k < rest.len() implies rest.push(sessions.last().id)[k]
                == rest[k] by {}
        }
        if exists|i: int|
            0 <= i < sessions.len() && (#[trigger] sessions[i]).id == id && !sessions[i].finished {
            let i = choose|i: int|
                0 <= i < sessions.len() && (#[trigger] sessions[i]).id == id
                    && !sessions[i].finished;
            if i < front.len() {
                assert(front[i].id == id && !front[i].finished);
            }
        }
    }
}

/// The available ids come in ascending order, each between 1 and the number
/// of sessions.
pub proof fn lemma_available_ids_ascend(sessions: Seq<Session>)
    requires
        ids_in_join_order(sessions),
    ensures
        available_ids(sessions).len() <= sessions.len(),
        forall|k: int|
            0 <= k < available_ids(sessions).len() ==> 1 <= (#[trigger] available_ids(
                sessions,
            )[k]) <= sessions.len(),
        forall|k: int, l: int|
            0 <= k < l < available_ids(sessions).len() ==> available_ids(sessions)[k]
                < available_ids(sessions)[l],
    decreases sessions.len(),
{
    if sessions.len() > 0 {
        let front = sessions.drop_last();
        assert(ids_in_join_order(front)) by {
            assert forall|i: int| 0 <= i < front.len() implies (#[trigger] front[i]).id == i
                + 1 by {
                assert(front[i] == sessions[i]);
            }
        }
        lemma_available_ids_ascend(front);
    }
}

/// An announcement is made exactly when, after a join, at least two sessions
/// are there: once when the second joins, and once more for each join after
/// it. It holds one frame for each session, in the order of joining; the frame
/// of the newest session is the last to be written, and the only one delayed.
/// Each frame is a `ShowOpponents` that lists the available ids. Only a list
/// too long for one frame stops it.
pub proof fn lemma_announcement(sessions: Seq<Session>)
    requires
        ids_in_join_order(sessions),
    ensures
        sessions.len() < 2 ==> announcement(sessions) == Ok::<Seq<DeliveryView>, MessageError>(
            Seq::empty(),
        ),
        announcement(sessions) is Err <==> sessions.len() >= 2 && available_ids(sessions).len()
            > LIST_CAPACITY,
        sessions.len() >= 2 && announcement(sessions) is Ok ==> {
            let plan = announcement(sessions)->Ok_0;
            &&& plan.len() == sessions.len()
            &&& plan.last().to == sessions.len()
            &&& forall|i: int|
                0 <= i < plan.len() ==> {
                    &&& (#[trigger] plan[i]).to == i + 1
                    &&& plan[i].delayed == (i == plan.len() - 1)
                    &&& plan[i].message.kind == MessageKind::ShowOpponents
                    &&& plan[i].message.id == plan[i].to
                    &&& decoded::<Vec<usize>>(plan[i].message) == Ok::<Seq<usize>, MessageError>(
                        available_ids(sessions),
                    )
                }
        },
{
    if sessions.len() >= 2 && announcement(sessions) is Ok {
        let plan = announcement(sessions)->Ok_0;
        assert forall|i: int| 0 <= i < plan.len() implies {
            &&& (#[trigger] plan[i]).to == i + 1
            &&& plan[i].delayed == (i == plan.len() - 1)
            &&& plan[i].message.kind == MessageKind::ShowOpponents
            &&& plan[i].message.id == plan[i].to
            &&& decoded::<Vec<usize>>(plan[i].message) == Ok::<Seq<usize>, MessageError>(
                available_ids(sessions),
            )
        } by {
            lemma_decode_encode::<Vec<usize>>(
                available_ids(sessions),
                sessions[i].id,
                MessageKind::ShowOpponents,
            );
        }
    }
}

} // verus!
