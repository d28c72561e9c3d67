//! The client's side: the password exchange, and the choice of an opponent
//! once the server announces who is there.

use crate::cli::ClientKind;
use crate::message::{Message, MessageError, MessageKind, MessageView};
use crate::payload::{decoded, encoded, lemma_decode_encode};
use vstd::bytes::lemma_auto_spec_u64_to_from_le_bytes;
use vstd::pervasive::unreached;
use vstd::prelude::*;

verus! {

/// How far a client has come.
#[derive(Debug, Clone, Copy, PartialEq, Eq, Structural)]
pub enum ClientPhase {
    /// Connected; nothing was received yet.
    AwaitingGreeting,
    /// The password was sent; the id is awaited.
    AwaitingUid,
    /// The id is known; announcements of opponents are awaited.
    Ready,
}

/// Why a client gives up. Each of these ends the program.
#[derive(Debug, Clone, Copy, PartialEq, Eq, Structural)]
pub enum ClientError {
    /// The server did not answer the password with an id.
    WrongPassword,
    /// The opponent chosen is not in the list announced, or is the client
    /// itself.
    InvalidSelection,
    /// A frame could not be read, or the password could not be sent.
    Malformed(MessageError),
}

/// What the program around a client is to do next.
#[derive(Debug, Clone, PartialEq, Eq)]
pub enum ClientAction {
    /// Send this frame.
    Send(Message),
    /// Tell the operator the client's id, which is now known.
    Identified(usize),
    /// Show these opponents to the operator and ask for a choice.
    Prompt(Vec<usize>),
    /// Nothing: read the next frame.
    Wait,
}

/// An action as contracts see it.
pub enum ActionView {
    Send(MessageView),
    Identified(usize),
    Prompt(Seq<usize>),
    Wait,
}

impl View for ClientAction {
    type V = ActionView;

    open spec fn view(&self) -> ActionView {
        match self {
            ClientAction::Send(m) => ActionView::Send(m@),
            ClientAction::Identified(uid) => ActionView::Identified(*uid),
            ClientAction::Prompt(ids) => ActionView::Prompt(ids@),
            ClientAction::Wait => ActionView::Wait,
        }
    }
}

/// One client: its role and password, its id once known (0 before), and the
/// opponents that were announced last.
pub struct Client {
    kind: ClientKind,
    password: String,
    uid: usize,
    phase: ClientPhase,
    opponents: Vec<usize>,
}

/// A client as contracts see it.
pub struct ClientView {
    pub kind: ClientKind,
    pub password: Seq<char>,
    pub uid: usize,
    pub phase: ClientPhase,
    pub opponents: Seq<usize>,
}

impl View for Client {
    type V = ClientView;

    closed spec fn view(&self) -> ClientView {
        ClientView {
            kind: self.kind,
            password: self.password@,
            uid: self.uid,
            phase: self.phase,
            opponents: self.opponents@,
        }
    }
}

/// The ids of a list but `uid`, in the order of the list.
pub open spec fn others(ids: Seq<usize>, uid: usize) -> Seq<usize>
    decreases ids.len(),
{
    if ids.len() == 0 {
        Seq::empty()
    } else if ids.last() == uid {
        others(ids.drop_last(), uid)
    } else {
        others(ids.drop_last(), uid).push(ids.last())
    }
}

/// Whether a client with id `uid` may choose `selected` from the list `ids`:
/// it is in the list and is not the client itself.
pub open spec fn valid_choice(ids: Seq<usize>, uid: usize, selected: usize) -> bool {
    ids.contains(selected) && selected != uid
}

/// What a client does with a frame from the server, and what it is after.
///
/// The first frame decides: to `EnterPasswd` the client answers with its
/// password; after any other first frame it goes without an id, as 0. The
/// answer to the password must be `AssignUid`, which carries the id. From then
/// on a chooser meets `ShowOpponents` by asking its operator, and every other
/// frame changes nothing.
pub open spec fn step(client: ClientView, frame: MessageView) -> Result<
    (ClientView, ActionView),
    ClientError,
> {
    match client.phase {
        ClientPhase::AwaitingGreeting => if frame.kind == MessageKind::EnterPasswd {
            match encoded::<String>(client.password, 0, MessageKind::EnterPasswd) {
                Ok(reply) => Ok(
                    (
                        ClientView { phase: ClientPhase::AwaitingUid, ..client },
                        ActionView::Send(reply),
                    ),
                ),
                Err(e) => Err(ClientError::Malformed(e)),
            }
        } else {
            Ok((ClientView { phase: ClientPhase::Ready, uid: 0, ..client }, ActionView::Identified(0)))
        },
        ClientPhase::AwaitingUid => if frame.kind != MessageKind::AssignUid {
            Err(ClientError::WrongPassword)
        } else {
            match decoded::<usize>(frame) {
                Ok(uid) => Ok(
                    (
                        ClientView { phase: ClientPhase::Ready, uid, ..client },
                        ActionView::Identified(uid),
                    ),
                ),
                Err(e) => Err(ClientError::Malformed(e)),
            }
        },
        ClientPhase::Ready => if frame.kind == MessageKind::ShowOpponents && client.kind
            == ClientKind::Chooser {
            match decoded::<Vec<usize>>(frame) {
                Ok(ids) => Ok(
                    (
                        ClientView { opponents: ids, ..client },
                        ActionView::Prompt(others(ids, client.uid)),
                    ),
                ),
                Err(e) => Err(ClientError::Malformed(e)),
            }
        } else {
            Ok((client, ActionView::Wait))
        },
    }
}

/// The frame by which a client tells the server its choice, or why the choice
/// is refused.
pub open spec fn selection(client: ClientView, selected: usize) -> Result<
    MessageView,
    ClientError,
> {
    if valid_choice(client.opponents, client.uid, selected) {
        Ok(encoded::<usize>(selected, client.uid, MessageKind::SelectOpponent)->Ok_0)
    } else {
        Err(ClientError::InvalidSelection)
    }
}

/// The ids of a list but `uid`.
pub fn other_ids(ids: &Vec<usize>, uid: usize) -> (rest: Vec<usize>)
    ensures
        rest@ == others(ids@, uid),
{
    let mut rest: Vec<usize> = Vec::new();
    let mut i: usize = 0;
    while i < ids.len()
        invariant
            i <= ids@.len(),
            rest@ == others(ids@.subrange(0, i as int), uid),
        decreases ids@.len() - i,
    {
        assert(ids@.subrange(0, i + 1).drop_last() =~= ids@.subrange(0, i as int));
        if ids[i] != uid {
            rest.push(ids[i]);
        }
        i += 1;
    }
    assert(ids@.subrange(0, i as int) =~= ids@);
    rest
}

/// Whether the client with id `uid` may choose `selected` from `ids`.
pub fn is_valid_choice(ids: &Vec<usize>, uid: usize, selected: usize) -> (valid: bool)
    ensures
        valid == valid_choice(ids@, uid, selected),
{
    if selected == uid {
        return false;
    }
    let mut i: usize = 0;
    while i < ids.len()
        invariant
            i <= ids@.len(),
            selected != uid,
            forall|j: int| 0 <= j < i ==> ids@[j] != selected,
        decreases ids@.len() - i,
    {
        if ids[i] == selected {
            return true;
        }
        i += 1;
    }
    false
}

impl Client {
    /// A client that has just connected.
    pub fn new(kind: ClientKind, password: String) -> (client: Client)
        ensures
            client@ == (ClientView {
                kind,
                password: password@,
                uid: 0,
                phase: ClientPhase::AwaitingGreeting,
                opponents: Seq::empty(),
            }),
    {
        Client { kind, password, uid: 0, phase: ClientPhase::AwaitingGreeting, opponents: Vec::new() }
    }

    /// The client's id; 0 while it has none.
    pub fn uid(&self) -> (uid: usize)
        ensures
            uid == self@.uid,
    {
        self.uid
    }

    /// The client's role.
    pub fn kind(&self) -> (kind: ClientKind)
        ensures
            kind == self@.kind,
    {
        self.kind
    }

    /// How far the client has come.
    pub fn phase(&self) -> (phase: ClientPhase)
        ensures
            phase == self@.phase,
    {
        self.phase
    }

    /// The opponents announced last, the client itself among them.
    pub fn opponents(&self) -> (ids: &Vec<usize>)
        ensures
            ids@ == self@.opponents,
    {
        &self.opponents
    }

    /// Takes a frame from the server and says what to do. After an error the
    /// client is as it was.
    pub fn on_frame(&mut self, frame: &Message) -> (r: Result<ClientAction, ClientError>)
        ensures
            match r {
                Ok(action) => step(old(self)@, frame@) == Ok::<
                    (ClientView, ActionView),
                    ClientError,
                >((final(self)@, action@)),
                Err(e) => step(old(self)@, frame@) == Err::<(ClientView, ActionView), ClientError>(e)
                    && final(self)@ == old(self)@,
            },
    {
        match self.phase {
            ClientPhase::AwaitingGreeting => {
                if frame.kind == MessageKind::EnterPasswd {
                    match Message::new_anonymous::<String>(
                        &self.password,
                        MessageKind::EnterPasswd,
                    ) {
                        Ok(reply) => {
                            self.phase = ClientPhase::AwaitingUid;
                            Ok(ClientAction::Send(reply))
                        },
                        Err(e) => Err(ClientError::Malformed(e)),
                    }
                } else {
                    self.phase = ClientPhase::Ready;
                    self.uid = 0;
                    Ok(ClientAction::Identified(0))
                }
            },
            ClientPhase::AwaitingUid => {
                if frame.kind != MessageKind::AssignUid {
                    return Err(ClientError::WrongPassword);
                }
                match frame.value::<usize>() {
                    Ok(uid) => {
                        self.phase = ClientPhase::Ready;
                        self.uid = uid;
                        Ok(ClientAction::Identified(uid))
                    },
                    Err(e) => Err(ClientError::Malformed(e)),
                }
            },
            ClientPhase::Ready => {
                if frame.kind == MessageKind::ShowOpponents && self.kind == ClientKind::Chooser {
                    match frame.value::<Vec<usize>>() {
                        Ok(ids) => {
                            let shown = other_ids(&ids, self.uid);
                            self.opponents = ids;
                            Ok(ClientAction::Prompt(shown))
                        },
                        Err(e) => Err(ClientError::Malformed(e)),
                    }
                } else {
                    Ok(ClientAction::Wait)
                }
            },
        }
    }

    /// Takes the operator's choice of an opponent. A valid choice gives the
    /// `SelectOpponent` frame to send, with the client as sender; any other is
    /// refused, and there is then nothing to send.
    pub fn on_choice(&self, selected: usize) -> (r: Result<Message, ClientError>)
        ensures
            match r {
                Ok(m) => selection(self@, selected) == Ok::<MessageView, ClientError>(m@),
                Err(e) => selection(self@, selected) == Err::<MessageView, ClientError>(e),
            },
    {
        if !is_valid_choice(&self.opponents, self.uid, selected) {
            return Err(ClientError::InvalidSelection);
        }
        proof {
            lemma_auto_spec_u64_to_from_le_bytes();
        }
        match Message::new::<usize>(&selected, self.uid, MessageKind::SelectOpponent) {
            Ok(m) => Ok(m),
            Err(_) => unreached(),
        }
    }
}

/// The operator is shown every id of the list but the client's own, and no
/// other.
pub proof fn lemma_others(ids: Seq<usize>, uid: usize, id: usize)
    ensures
        others(ids, uid).contains(id) <==> ids.contains(id) && id != uid,
    decreases ids.len(),
{
    if ids.len() > 0 {
        let front = ids.drop_last();
        lemma_others(front, uid, id);
        if front.contains(id) {
            let i = choose|i: int| 0 <= i < front.len() && front[i] == id;
            assert(ids[i] == id);
        }
        if ids.contains(id) {
            let i = choose|i: int| 0 <= i < ids.len() && ids[i] == id;
            if i < front.len() {
                assert(front[i] == id);
            }
        }
        if ids.last() != uid {
            let rest = others(front, uid);
            assert(rest.push(ids.last()).last() == ids.last());
            assert forall|k: int| 0 <= k < rest.len() implies rest.push(ids.last())[k]
                == rest[k] by {}
        }
    }
}

/// A choice that is not in the list announced last, or that is the client's
/// own id, is refused: no frame comes of it. Any other choice gives a
/// `SelectOpponent` frame that carries the choice and names the client as
/// sender.
pub proof fn lemma_selection(client: ClientView, selected: usize)
    ensures
        !client.opponents.contains(selected) || selected == client.uid ==> selection(
            client,
            selected,
        ) == Err::<MessageView, ClientError>(ClientError::InvalidSelection),
        client.opponents.contains(selected) && selected != client.uid ==> {
            &&& selection(client, selected) is Ok
            &&& selection(client, selected)->Ok_0.kind == MessageKind::SelectOpponent
            &&& selection(client, selected)->Ok_0.id == client.uid
            &&& decoded::<usize>(selection(client, selected)->Ok_0) == Ok::<usize, MessageError>(
                selected,
            )
        },
{
    lemma_auto_spec_u64_to_from_le_bytes();
    lemma_decode_encode::<usize>(selected, client.uid, MessageKind::SelectOpponent);
}

} // verus!
