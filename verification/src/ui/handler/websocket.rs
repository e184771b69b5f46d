//! The decisions of a client connection, from the request to connect to the
//! notice that the client has left.

use tokio::sync::mpsc::UnboundedSender;
use vstd::prelude::*;

use crate::domain::repository::{Operation, RepositoryFailure, RoomRepository, StoreModel};
use crate::domain::value_object::{
    valid_client_id, valid_message_content, ClientId, MessageContent, Timestamp,
};
use crate::infrastructure::dto::websocket::{
    participant_info_models, ChatMessage, MessageType, ParticipantJoinedMessage,
    ParticipantLeftMessage, RoomConnectedMessage,
};
use crate::ui::state::{ClientInfo, ConnectQuery};
use crate::usecase::connect_participant::sorted_by_id;
use crate::usecase::send_message::sending;
use crate::usecase::{
    ConnectError, ConnectParticipantUseCase, DisconnectParticipantUseCase, SendMessageError,
    SendMessageUseCase,
};

verus! {

/// Status of a request whose client identifier is not valid.
pub const BAD_REQUEST: u16 = 400;

/// Status of a request whose client identifier is already connected.
pub const CONFLICT: u16 = 409;

/// Status of a request that found the room full.
pub const SERVICE_UNAVAILABLE: u16 = 503;

/// The status a request to connect as `id` is refused with, if it is.
///
/// The identifier is looked at first, then whether it is connected already,
/// then whether the room has a free slot.
pub open spec fn refusal_status(s: StoreModel, id: Seq<char>) -> Option<u16> {
    if !valid_client_id(id) {
        Some(BAD_REQUEST)
    } else if s.is_connected(id) {
        Some(CONFLICT)
    } else if s.room.is_full() {
        Some(SERVICE_UNAVAILABLE)
    } else {
        None
    }
}

/// Answers a request to connect: admits the client named in `query` as of
/// `connected_at` and registers `sender` for it, or refuses with a status.
///
/// A refused request changes nothing.
pub fn websocket_handler<R: RoomRepository>(
    repository: &mut R,
    query: ConnectQuery,
    sender: UnboundedSender<String>,
    connected_at: Timestamp,
) -> (res: Result<ClientId, u16>)
    ensures
        old(repository).state().consistent() ==> final(repository).state().consistent(),
        match res {
            Ok(client_id) => {
                &&& refusal_status(old(repository).state(), query.client_id@) is None
                &&& client_id@ == query.client_id@
                &&& final(repository).state() == old(repository).state().joined(
                    query.client_id@,
                    ClientInfo { sender, connected_at: connected_at@ },
                )
            },
            Err(status) => refusal_status(old(repository).state(), query.client_id@) == Some(
                status,
            ) && final(repository).state() == old(repository).state(),
        },
{
    let client_id = match ClientId::new(query.client_id) {
        Ok(id) => id,
        Err(_) => {
            return Err(BAD_REQUEST);
        },
    };
    let connect_usecase = ConnectParticipantUseCase::new();
    match connect_usecase.execute_at(repository, client_id.clone(), sender, connected_at) {
        Ok(_) => Ok(client_id),
        Err(ConnectError::DuplicateClientId(_)) => Err(CONFLICT),
        Err(ConnectError::RoomCapacityExceeded { .. }) => Err(SERVICE_UNAVAILABLE),
    }
}

/// What is sent when a connection opens.
#[derive(Debug)]
pub struct Opening {
    /// For the new client: everyone in the room.
    pub room_connected: RoomConnectedMessage,
    /// For the others: the new client.
    pub participant_joined: ParticipantJoinedMessage,
    /// The others, in the order they connected.
    pub targets: Vec<String>,
}

/// What to send once `client_id` has connected: to the client itself the
/// participants in ascending order of their identifiers, and to everyone
/// else the news that it joined. Nothing for a client that is not connected.
pub fn opening_events<R: RoomRepository>(repository: &R, client_id: &ClientId) -> (res: Option<
    Opening,
>)
    ensures
        res is Some <==> repository.state().is_connected(client_id@),
        res matches Some(opening) ==> {
            &&& opening.room_connected.message_type == MessageType::RoomConnected
            &&& sorted_by_id(participant_info_models(opening.room_connected.participants@))
            &&& participant_info_models(opening.room_connected.participants@).to_multiset()
                == repository.state().room.participants.to_multiset()
            &&& opening.participant_joined.message_type == MessageType::ParticipantJoined
            &&& opening.participant_joined.client_id@ == client_id@
            &&& exists|i: int|
                0 <= i < repository.state().connections.len() && (
                #[trigger] repository.state().connections[i]).id == client_id@
                    && repository.state().connections[i].info.connected_at
                    == opening.participant_joined.connected_at
            &&& opening.targets.deep_view() == repository.state().peers_of(client_id@)
            &&& !opening.targets.deep_view().contains(client_id@)
        },
{
    let connected_at = match repository.get_client_info(client_id) {
        Ok(info) => info.connected_at,
        Err(_) => {
            return None;
        },
    };
    assert(repository.state().is_connected(client_id@)) by {
        let i = choose|i: int|
            0 <= i < repository.state().connections.len() && (
            #[trigger] repository.state().connections[i]).id == client_id@;
        assert(repository.state().connected_ids()[i] == client_id@);
    }
    let connect_usecase = ConnectParticipantUseCase::new();
    let participants = connect_usecase.build_participant_list(repository);
    let send_usecase = SendMessageUseCase::new();
    let targets = send_usecase.get_broadcast_targets(repository, client_id.as_str());
    Some(
        Opening {
            room_connected: RoomConnectedMessage {
                message_type: MessageType::RoomConnected,
                participants,
            },
            participant_joined: ParticipantJoinedMessage {
                message_type: MessageType::ParticipantJoined,
                client_id: client_id.clone().into_string(),
                connected_at,
            },
            targets,
        },
    )
}

/// The name a message goes under when its sender could not be read.
pub open spec fn unknown_sender() -> Seq<char> {
    "unknown"@
}

/// Whether `message` is the chat message that a text frame stands for: the
/// message the frame was read as or, where it could not be read as one, the
/// whole text from an unknown sender at time zero. Either way its kind is
/// [`MessageType::Chat`].
pub open spec fn is_incoming_chat(
    parsed: Option<ChatMessage>,
    text: String,
    message: ChatMessage,
) -> bool {
    &&& message.message_type == MessageType::Chat
    &&& match parsed {
        Some(read) => message.client_id == read.client_id && message.content == read.content
            && message.timestamp == read.timestamp,
        None => message.client_id@ == unknown_sender() && message.content == text
            && message.timestamp == 0,
    }
}

/// The chat message a text frame stands for.
pub fn incoming_chat(parsed: Option<ChatMessage>, text: String) -> (res: ChatMessage)
    ensures
        is_incoming_chat(parsed, text, res),
{
    match parsed {
        Some(message) => ChatMessage {
            message_type: MessageType::Chat,
            client_id: message.client_id,
            content: message.content,
            timestamp: message.timestamp,
        },
        None => ChatMessage {
            message_type: MessageType::Chat,
            client_id: "unknown".to_owned(),
            content: text,
            timestamp: 0,
        },
    }
}

/// What became of a chat message.
#[derive(Debug, PartialEq, Eq)]
pub enum ChatRelay {
    /// It was recorded; it goes to these clients.
    Broadcast(Vec<String>),
    /// Its sender is no valid client identifier; it was dropped.
    InvalidClientId,
    /// Its text is no valid message content; it was dropped.
    InvalidContent,
    /// The room refused it; only the sender is told.
    Refused(SendMessageError),
}

/// Whether `relay` and `after` are what becomes of `message`, relayed at
/// `timestamp` in the state `before`.
///
/// A message whose sender or text is not valid is dropped and nothing
/// changes; the sender is looked at first. Any other message is sent: it
/// goes to everyone connected but its sender, or a full history refuses it.
pub open spec fn is_relay(
    before: StoreModel,
    after: StoreModel,
    message: ChatMessage,
    timestamp: i64,
    relay: ChatRelay,
) -> bool {
    if !valid_client_id(message.client_id@) {
        relay == ChatRelay::InvalidClientId && after == before
    } else if !valid_message_content(message.content@) {
        relay == ChatRelay::InvalidContent && after == before
    } else {
        &&& after == before.step(sending(message.client_id@, message.content@, timestamp))
        &&& match relay {
            ChatRelay::Broadcast(targets) => before.send_result(message.client_id@) == Ok::<
                Seq<Seq<char>>,
                RepositoryFailure,
            >(targets.deep_view()) && !targets.deep_view().contains(message.client_id@),
            ChatRelay::Refused(e) => before.send_result(message.client_id@) == Err::<
                Seq<Seq<char>>,
                RepositoryFailure,
            >(e@),
            _ => false,
        }
    }
}

/// Records `message` as sent at `timestamp` and tells whom to pass it on to:
/// everyone connected but the sender it names.
///
/// A message whose sender or text is not valid is dropped before the room is
/// touched; the sender is looked at first.
pub fn relay_chat<R: RoomRepository>(
    repository: &mut R,
    message: &ChatMessage,
    timestamp: Timestamp,
) -> (res: ChatRelay)
    ensures
        old(repository).state().consistent() ==> final(repository).state().consistent(),
        is_relay(old(repository).state(), final(repository).state(), *message, timestamp@, res),
{
    let client_id_result = ClientId::new(message.client_id.clone());
    let content_result = MessageContent::new(message.content.clone());
    match (client_id_result, content_result) {
        (Ok(client_id), Ok(content)) => {
            let send_usecase = SendMessageUseCase::new();
            match send_usecase.execute_at(repository, client_id, content, timestamp) {
                Ok(targets) => ChatRelay::Broadcast(targets),
                Err(e) => ChatRelay::Refused(e),
            }
        },
        (Err(_), _) => ChatRelay::InvalidClientId,
        (_, Err(_)) => ChatRelay::InvalidContent,
    }
}

/// What arrived on the socket of a connected client.
#[derive(Debug)]
pub enum Frame {
    /// A text frame: its text, and the chat message it was read as, if it
    /// could be read as one.
    Text { parsed: Option<ChatMessage>, text: String },
    /// A ping. The protocol answers it by itself.
    Ping,
    /// The client asks to close.
    Close,
    /// The socket failed.
    Broken,
    /// Anything else.
    Other,
}

/// What to do about a frame.
#[derive(Debug, PartialEq, Eq)]
pub enum FrameOutcome {
    /// Go on reading. Pass `message` on as `relay` says.
    Relayed { message: ChatMessage, relay: ChatRelay },
    /// Go on reading.
    Ignored,
    /// Stop reading: the connection is over.
    Stopped,
}

/// Handles one frame from a connected client, arrived at `timestamp`.
///
/// A text frame is taken as a chat message and relayed. A request to close,
/// or a failure of the socket, ends the connection. Everything else is passed
/// over. Only a text frame can change the room.
pub fn on_frame<R: RoomRepository>(repository: &mut R, frame: Frame, timestamp: Timestamp) -> (res:
    FrameOutcome)
    ensures
        old(repository).state().consistent() ==> final(repository).state().consistent(),
        match frame {
            Frame::Text { parsed, text } => res matches FrameOutcome::Relayed { message, relay }
                && is_incoming_chat(parsed, text, message) && is_relay(
                old(repository).state(),
                final(repository).state(),
                message,
                timestamp@,
                relay,
            ),
            Frame::Ping | Frame::Other => res == FrameOutcome::Ignored
                && final(repository).state() == old(repository).state(),
            Frame::Close | Frame::Broken => res == FrameOutcome::Stopped
                && final(repository).state() == old(repository).state(),
        },
{
    match frame {
        Frame::Text { parsed, text } => {
            let message = incoming_chat(parsed, text);
            let relay = relay_chat(repository, &message, timestamp);
            FrameOutcome::Relayed { message, relay }
        },
        Frame::Ping => FrameOutcome::Ignored,
        Frame::Close => FrameOutcome::Stopped,
        Frame::Broken => FrameOutcome::Stopped,
        Frame::Other => FrameOutcome::Ignored,
    }
}

/// What is sent when a connection closes.
#[derive(Debug)]
pub struct Closing {
    /// For those who remain: the client that left.
    pub participant_left: ParticipantLeftMessage,
    /// Those who remain, in the order they connected.
    pub targets: Vec<String>,
}

/// Disconnects `client_id` and says what to send: to everyone who remains,
/// the news that it left at `disconnected_at`.
///
/// Nothing is sent, and nothing changes, for an identifier that is not valid
/// or not connected.
pub fn closing_events<R: RoomRepository>(
    repository: &mut R,
    client_id: String,
    disconnected_at: i64,
) -> (res: Option<Closing>)
    ensures
        old(repository).state().consistent() ==> final(repository).state().consistent(),
        !valid_client_id(client_id@) ==> res is None
            && final(repository).state() == old(repository).state(),
        valid_client_id(client_id@) ==> final(repository).state() == old(repository).state().step(
            Operation::Disconnect { id: client_id@ },
        ) && (res is Some <==> old(repository).state().is_connected(client_id@)),
        res matches Some(closing) ==> {
            &&& closing.participant_left.message_type == MessageType::ParticipantLeft
            &&& closing.participant_left.client_id@ == client_id@
            &&& closing.participant_left.disconnected_at == disconnected_at
            &&& closing.targets.deep_view() == old(repository).state().peers_of(client_id@)
            &&& closing.targets.deep_view() == final(repository).state().connected_ids()
            &&& !closing.targets.deep_view().contains(client_id@)
        },
{
    let client_id_vo = match ClientId::new(client_id.clone()) {
        Ok(id) => id,
        Err(_) => {
            return None;
        },
    };
    let disconnect_usecase = DisconnectParticipantUseCase::new();
    match disconnect_usecase.execute(repository, client_id_vo) {
        Ok(targets) => Some(
            Closing {
                participant_left: ParticipantLeftMessage {
                    message_type: MessageType::ParticipantLeft,
                    client_id,
                    disconnected_at,
                },
                targets,
            },
        ),
        Err(_) => None,
    }
}

/// Puts `payload` on the queue behind `sender`, and says whether the queue
/// took it.
///
/// Calls `UnboundedSender::send`, which never waits and fails only when the
/// receiving end is closed or gone. That is for the other end to decide, so
/// nothing is claimed of the result.
#[verifier::external_body]
fn enqueue(sender: &UnboundedSender<String>, payload: String) -> (delivered: bool) {
    sender.send(payload).is_ok()
}

/// The predicate "is a valid identifier with a connection in `s`".
pub open spec fn has_queue(s: StoreModel) -> spec_fn(Seq<char>) -> bool {
    |id: Seq<char>| valid_client_id(id) && s.is_connected(id)
}

/// Those of `targets` that a payload can be handed to in the state `s`: the
/// valid identifiers with a connection, as often and in the order in which
/// `targets` names them.
pub open spec fn recipients_of(s: StoreModel, targets: Seq<Seq<char>>) -> Seq<Seq<char>> {
    targets.filter(has_queue(s))
}

/// The identifiers of a sequence of clients.
pub open spec fn client_ids(clients: Seq<ClientId>) -> Seq<Seq<char>> {
    clients.map_values(|c: ClientId| c@)
}

/// Those of `recipients` whose queue did not take the payload, in the same
/// order: the recipient at a position stays unless `delivered` says yes at
/// that position.
pub open spec fn undelivered_of(recipients: Seq<Seq<char>>, delivered: Seq<bool>) -> Seq<
    Seq<char>,
>
    decreases recipients.len(),
{
    if recipients.len() == 0 {
        Seq::empty()
    } else {
        let last = recipients.len() - 1;
        let before = undelivered_of(recipients.drop_last(), delivered);
        if last < delivered.len() && delivered[last] {
            before
        } else {
            before.push(recipients.last())
        }
    }
}

/// Every recipient left undelivered is one of the recipients, and there are
/// no more of them than recipients.
pub proof fn lemma_undelivered_are_recipients(recipients: Seq<Seq<char>>, delivered: Seq<bool>)
    ensures
        undelivered_of(recipients, delivered).len() <= recipients.len(),
        forall|k: int|
            0 <= k < undelivered_of(recipients, delivered).len() ==> recipients.contains(
                #[trigger] undelivered_of(recipients, delivered)[k],
            ),
    decreases recipients.len(),
{
    if recipients.len() > 0 {
        let front = recipients.drop_last();
        let left = undelivered_of(recipients, delivered);
        let left_front = undelivered_of(front, delivered);
        lemma_undelivered_are_recipients(front, delivered);
        assert forall|k: int| 0 <= k < left.len() implies recipients.contains(
            #[trigger] left[k],
        ) by {
            if k < left_front.len() {
                assert(left[k] == left_front[k]);
                let w = choose|w: int| 0 <= w < front.len() && front[w] == left_front[k];
                assert(recipients[w] == left[k]);
            } else {
                assert(recipients[recipients.len() - 1] == left[k]);
            }
        }
    }
}

/// Those of `targets` that a payload can be handed to: the valid
/// identifiers that are connected, as often and in the order in which
/// `targets` names them.
pub fn recipients<R: RoomRepository>(repository: &R, targets: &Vec<String>) -> (res: Vec<ClientId>)
    ensures
        client_ids(res@) == recipients_of(repository.state(), targets.deep_view()),
{
    let ghost named = targets.deep_view();
    let ghost reachable = has_queue(repository.state());
    let mut found: Vec<ClientId> = Vec::new();
    let mut i: usize = 0;
    proof {
        reveal(Seq::filter);
        assert(client_ids(found@) =~= named.subrange(0, 0).filter(reachable));
    }
    while i < targets.len()
        invariant
            0 <= i <= targets.len(),
            named == targets.deep_view(),
            reachable == has_queue(repository.state()),
            client_ids(found@) == named.subrange(0, i as int).filter(reachable),
        decreases targets.len() - i,
    {
        let ghost so_far = client_ids(found@);
        proof {
            reveal(Seq::filter);
            assert(named.subrange(0, i + 1).drop_last() =~= named.subrange(0, i as int));
        }
        if let Ok(target) = ClientId::new(targets[i].clone()) {
            if repository.get_client_info(&target).is_ok() {
                proof {
                    let w = choose|w: int|
                        0 <= w < repository.state().connections.len() && (
                        #[trigger] repository.state().connections[w]).id == target@;
                    assert(repository.state().connected_ids()[w] == target@);
                }
                found.push(target);
                assert(client_ids(found@) =~= so_far.push(named[i as int]));
            }
        }
        i = i + 1;
    }
    assert(named.subrange(0, i as int) =~= named);
    found
}

/// Those of `recipients` whose queue did not take the payload, in the same
/// order: the recipient at a position stays unless `delivered` says yes at
/// that position.
pub fn undelivered(recipients: &Vec<ClientId>, delivered: &Vec<bool>) -> (res: Vec<String>)
    ensures
        res.deep_view() == undelivered_of(client_ids(recipients@), delivered@),
{
    let ghost ids = client_ids(recipients@);
    let mut left: Vec<String> = Vec::new();
    let mut i: usize = 0;
    assert(left.deep_view() =~= undelivered_of(ids.subrange(0, 0), delivered@));
    while i < recipients.len()
        invariant
            0 <= i <= recipients.len(),
            ids == client_ids(recipients@),
            left.deep_view() == undelivered_of(ids.subrange(0, i as int), delivered@),
        decreases recipients.len() - i,
    {
        let ghost so_far = left.deep_view();
        proof {
            assert(ids.subrange(0, i + 1).drop_last() =~= ids.subrange(0, i as int));
        }
        if !(i < delivered.len() && delivered[i]) {
            left.push(recipients[i].clone().into_string());
            assert(left.deep_view() =~= so_far.push(ids[i as int]));
        }
        i = i + 1;
    }
    assert(ids.subrange(0, i as int) =~= ids);
    left
}

/// Puts `payload` on the queue of each of `targets` that is connected, and
/// returns those whose queue did not take it, in the order of `targets`.
///
/// A target that is not a valid identifier, or not connected, is passed
/// over: nothing is put anywhere for it and it is never returned. Each of
/// the others is handed the payload once for each time `targets` names it.
/// Which queues refuse is for their receiving ends to decide; what is
/// returned is what those refusals leave of the recipients.
pub fn deliver<R: RoomRepository>(repository: &R, targets: &Vec<String>, payload: &str) -> (failed:
    Vec<String>)
    ensures
        exists|delivered: Seq<bool>|
            delivered.len() == recipients_of(repository.state(), targets.deep_view()).len()
                && failed.deep_view() == #[trigger] undelivered_of(
                recipients_of(repository.state(), targets.deep_view()),
                delivered,
            ),
        failed.len() <= targets.len(),
        forall|k: int|
            0 <= k < failed.len() ==> targets.deep_view().contains(#[trigger] failed.deep_view()[k])
                && repository.state().is_connected(failed.deep_view()[k]),
{
    let recipients = recipients(repository, targets);
    let mut delivered: Vec<bool> = Vec::new();
    let mut i: usize = 0;
    while i < recipients.len()
        invariant
            0 <= i <= recipients.len(),
            delivered.len() == i,
        decreases recipients.len() - i,
    {
        let taken = match repository.get_client_info(&recipients[i]) {
            Ok(info) => enqueue(&info.sender, payload.to_owned()),
            Err(_) => false,
        };
        delivered.push(taken);
        i = i + 1;
    }
    let failed = undelivered(&recipients, &delivered);
    proof {
        let named = targets.deep_view();
        let reachable = has_queue(repository.state());
        let handed = recipients_of(repository.state(), named);
        lemma_undelivered_are_recipients(handed, delivered@);
        named.lemma_filter_len(reachable);
        assert forall|k: int| 0 <= k < failed.len() implies named.contains(
            #[trigger] failed.deep_view()[k],
        ) && repository.state().is_connected(failed.deep_view()[k]) by {
            let id = failed.deep_view()[k];
            assert(handed.contains(id));
            let w = choose|w: int| 0 <= w < handed.len() && handed[w] == id;
            named.lemma_filter_pred(reachable, w);
            named.lemma_filter_contains_rev(reachable, id);
        }
    }
    failed
}

} // verus!
