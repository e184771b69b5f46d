//! The room aggregate and the records it holds.

use vstd::prelude::*;

use super::error::RoomError;
use super::value_object::{ClientId, MessageContent, RoomId, Timestamp};

verus! {

/// Number of participants a room admits unless told otherwise.
pub const DEFAULT_PARTICIPANT_CAPACITY: usize = 10;

/// Number of messages a room keeps unless told otherwise.
pub const DEFAULT_MESSAGE_CAPACITY: usize = 100;

/// Mathematical value of a [`Participant`].
pub struct ParticipantModel {
    pub id: Seq<char>,
    pub connected_at: i64,
}

/// Mathematical value of a [`ChatMessage`].
pub struct MessageModel {
    pub from: Seq<char>,
    pub content: Seq<char>,
    pub timestamp: i64,
}

/// Mathematical value of a [`Room`].
pub struct RoomModel {
    pub id: Seq<char>,
    pub participants: Seq<ParticipantModel>,
    pub messages: Seq<MessageModel>,
    pub created_at: i64,
    pub participant_capacity: usize,
    pub message_capacity: usize,
}

/// The predicate "is not the participant `id`".
pub open spec fn other_than(id: Seq<char>) -> spec_fn(ParticipantModel) -> bool {
    |p: ParticipantModel| p.id != id
}

/// Whether position `i` is the first in `participants` that holds `id`.
pub open spec fn is_first_match(
    participants: Seq<ParticipantModel>,
    id: Seq<char>,
    i: int,
) -> bool {
    &&& 0 <= i < participants.len()
    &&& participants[i].id == id
    &&& forall|j: int| 0 <= j < i ==> (#[trigger] participants[j]).id != id
}

/// No two positions of `participants` hold the same identifier.
pub open spec fn ids_distinct(participants: Seq<ParticipantModel>) -> bool {
    forall|i: int, j: int|
        0 <= i < j < participants.len() ==> (#[trigger] participants[i]).id != (
        #[trigger] participants[j]).id
}

/// Whether `a` stands before `b` somewhere in `participants`.
pub open spec fn precedes(participants: Seq<ParticipantModel>, a: Seq<char>, b: Seq<char>) -> bool {
    exists|i: int, j: int|
        0 <= i < j < participants.len() && (#[trigger] participants[i]).id == a && (
        #[trigger] participants[j]).id == b
}

impl RoomModel {
    /// An empty room.
    pub open spec fn empty(
        id: Seq<char>,
        created_at: i64,
        participant_capacity: usize,
        message_capacity: usize,
    ) -> RoomModel {
        RoomModel {
            id,
            participants: Seq::empty(),
            messages: Seq::empty(),
            created_at,
            participant_capacity,
            message_capacity,
        }
    }

    /// Neither sequence is longer than its capacity.
    pub open spec fn within_capacity(self) -> bool {
        &&& self.participants.len() <= self.participant_capacity
        &&& self.messages.len() <= self.message_capacity
    }

    /// No participant slot is free.
    pub open spec fn is_full(self) -> bool {
        self.participants.len() >= self.participant_capacity
    }

    /// No message slot is free.
    pub open spec fn history_is_full(self) -> bool {
        self.messages.len() >= self.message_capacity
    }

    /// The identifiers of the participants, in the order they joined.
    pub open spec fn participant_ids(self) -> Seq<Seq<char>> {
        self.participants.map_values(|p: ParticipantModel| p.id)
    }

    /// Whether a participant with this identifier is in the room.
    pub open spec fn has_participant(self, id: Seq<char>) -> bool {
        exists|i: int| 0 <= i < self.participants.len() && #[trigger] self.participants[i].id == id
    }

    /// No two participants share an identifier.
    pub open spec fn distinct_ids(self) -> bool {
        ids_distinct(self.participants)
    }

    /// The room with `participant` appended.
    pub open spec fn with_participant(self, participant: ParticipantModel) -> RoomModel {
        RoomModel { participants: self.participants.push(participant), ..self }
    }

    /// The room without any participant called `id`; the others keep their order.
    pub open spec fn without_participant(self, id: Seq<char>) -> RoomModel {
        RoomModel { participants: self.participants.filter(other_than(id)), ..self }
    }

    /// The room with `message` appended to its history.
    pub open spec fn with_message(self, message: MessageModel) -> RoomModel {
        RoomModel { messages: self.messages.push(message), ..self }
    }
}

/// A client that occupies a slot of a room.
#[derive(Debug)]
pub struct Participant {
    /// Identifier of the participant.
    pub id: ClientId,
    /// When the participant connected.
    pub connected_at: Timestamp,
}

impl View for Participant {
    type V = ParticipantModel;

    open spec fn view(&self) -> ParticipantModel {
        ParticipantModel { id: self.id@, connected_at: self.connected_at@ }
    }
}

impl Participant {
    /// A participant that connected at `connected_at`.
    pub fn new(id: ClientId, connected_at: Timestamp) -> (res: Self)
        ensures
            res.id == id,
            res.connected_at == connected_at,
    {
        Self { id, connected_at }
    }
}

impl Clone for Participant {
    fn clone(&self) -> (res: Self)
        ensures
            res@ == self@,
    {
        Participant { id: self.id.clone(), connected_at: self.connected_at }
    }
}

/// A message in the history of a room.
#[derive(Debug)]
pub struct ChatMessage {
    /// Identifier of the sender.
    pub from: ClientId,
    /// Text of the message.
    pub content: MessageContent,
    /// When the message was sent.
    pub timestamp: Timestamp,
}

impl View for ChatMessage {
    type V = MessageModel;

    open spec fn view(&self) -> MessageModel {
        MessageModel { from: self.from@, content: self.content@, timestamp: self.timestamp@ }
    }
}

impl ChatMessage {
    /// A message that `from` sent at `timestamp`.
    pub fn new(from: ClientId, content: MessageContent, timestamp: Timestamp) -> (res: Self)
        ensures
            res.from == from,
            res.content == content,
            res.timestamp == timestamp,
    {
        Self { from, content, timestamp }
    }
}

impl Clone for ChatMessage {
    fn clone(&self) -> (res: Self)
        ensures
            res@ == self@,
    {
        ChatMessage {
            from: self.from.clone(),
            content: self.content.clone(),
            timestamp: self.timestamp,
        }
    }
}

/// The values of a sequence of participants.
pub open spec fn participant_models(participants: Seq<Participant>) -> Seq<ParticipantModel> {
    participants.map_values(|p: Participant| p@)
}

/// The values of a sequence of messages.
pub open spec fn message_models(messages: Seq<ChatMessage>) -> Seq<MessageModel> {
    messages.map_values(|m: ChatMessage| m@)
}

/// A chat room: its participants and its message history, both bounded.
#[derive(Debug)]
pub struct Room {
    /// Identifier of the room.
    pub id: RoomId,
    /// The participants, in the order they joined.
    pub participants: Vec<Participant>,
    /// The message history, oldest first.
    pub messages: Vec<ChatMessage>,
    /// When the room was created.
    pub created_at: Timestamp,
    /// Largest number of participants admitted.
    pub participant_capacity: usize,
    /// Largest number of messages kept.
    pub message_capacity: usize,
}

impl View for Room {
    type V = RoomModel;

    open spec fn view(&self) -> RoomModel {
        RoomModel {
            id: self.id@,
            participants: participant_models(self.participants@),
            messages: message_models(self.messages@),
            created_at: self.created_at@,
            participant_capacity: self.participant_capacity,
            message_capacity: self.message_capacity,
        }
    }
}

impl Room {
    /// An empty room with the default capacities.
    pub fn new(id: RoomId, created_at: Timestamp) -> (res: Self)
        ensures
            res@ == RoomModel::empty(
                id@,
                created_at@,
                DEFAULT_PARTICIPANT_CAPACITY,
                DEFAULT_MESSAGE_CAPACITY,
            ),
    {
        Self::with_capacity(id, created_at, DEFAULT_PARTICIPANT_CAPACITY, DEFAULT_MESSAGE_CAPACITY)
    }

    /// An empty room with the given capacities.
    pub fn with_capacity(
        id: RoomId,
        created_at: Timestamp,
        participant_capacity: usize,
        message_capacity: usize,
    ) -> (res: Self)
        ensures
            res@ == RoomModel::empty(id@, created_at@, participant_capacity, message_capacity),
    {
        let room = Self {
            id,
            participants: Vec::new(),
            messages: Vec::new(),
            created_at,
            participant_capacity,
            message_capacity,
        };
        assert(room@.participants =~= Seq::empty());
        assert(room@.messages =~= Seq::empty());
        room
    }

    /// Appends `participant`, unless the room is full.
    ///
    /// A full room is left as it was and reports its capacity and its
    /// occupancy. Whether the identifier is already present is not looked at.
    pub fn add_participant(&mut self, participant: Participant) -> (res: Result<(), RoomError>)
        ensures
            old(self)@.is_full() ==> *final(self) == *old(self) && res == Err::<(), _>(
                RoomError::CapacityExceeded {
                    capacity: old(self).participant_capacity,
                    current: old(self).participants.len(),
                },
            ),
            !old(self)@.is_full() ==> {
                &&& res == Ok::<_, RoomError>(())
                &&& final(self)@ == old(self)@.with_participant(participant@)
                &&& final(self).participants@ == old(self).participants@.push(participant)
            },
    {
        if self.participants.len() >= self.participant_capacity {
            return Err(
                RoomError::CapacityExceeded {
                    capacity: self.participant_capacity,
                    current: self.participants.len(),
                },
            );
        }
        self.participants.push(participant);
        assert(participant_models(self.participants@) =~= participant_models(
            old(self).participants@,
        ).push(participant@));
        Ok(())
    }

    /// Appends `message` to the history, unless the history is full.
    ///
    /// A full history is left as it was and reports its capacity and its
    /// length.
    pub fn add_message(&mut self, message: ChatMessage) -> (res: Result<(), RoomError>)
        ensures
            old(self)@.history_is_full() ==> *final(self) == *old(self) && res == Err::<(), _>(
                RoomError::MessageCapacityExceeded {
                    capacity: old(self).message_capacity,
                    current: old(self).messages.len(),
                },
            ),
            !old(self)@.history_is_full() ==> {
                &&& res == Ok::<_, RoomError>(())
                &&& final(self)@ == old(self)@.with_message(message@)
                &&& final(self).messages@ == old(self).messages@.push(message)
            },
    {
        if self.messages.len() >= self.message_capacity {
            return Err(
                RoomError::MessageCapacityExceeded {
                    capacity: self.message_capacity,
                    current: self.messages.len(),
                },
            );
        }
        self.messages.push(message);
        assert(message_models(self.messages@) =~= message_models(old(self).messages@).push(
            message@,
        ));
        Ok(())
    }

    /// Removes every participant called `participant_id`; the others keep
    /// their order. A room without such a participant is left as it was.
    pub fn remove_participant(&mut self, participant_id: &ClientId)
        ensures
            final(self)@ == old(self)@.without_participant(participant_id@),
    {
        let ghost before = participant_models(self.participants@);
        let ghost keep = other_than(participant_id@);
        let ghost mut seen: int = 0;
        let mut i: usize = 0;
        proof {
            reveal(Seq::filter);
            assert(before.subrange(0, 0).filter(keep) =~= Seq::empty());
        }
        while i < self.participants.len()
            invariant
                self.id == old(self).id,
                self.messages == old(self).messages,
                self.created_at == old(self).created_at,
                self.participant_capacity == old(self).participant_capacity,
                self.message_capacity == old(self).message_capacity,
                before == participant_models(old(self).participants@),
                keep == other_than(participant_id@),
                0 <= i <= self.participants.len(),
                i <= seen <= before.len(),
                self.participants.len() - i == before.len() - seen,
                participant_models(self.participants@).subrange(0, i as int) == before.subrange(
                    0,
                    seen,
                ).filter(keep),
                participant_models(self.participants@).subrange(
                    i as int,
                    self.participants.len() as int,
                ) == before.subrange(seen, before.len() as int),
            decreases self.participants.len() - i,
        {
            let ghost current = participant_models(self.participants@);
            proof {
                reveal(Seq::filter);
                assert(current[i as int] == current.subrange(
                    i as int,
                    self.participants.len() as int,
                )[0]);
                assert(before.subrange(0, seen + 1).drop_last() =~= before.subrange(0, seen));
            }
            if self.participants[i].id == *participant_id {
                self.participants.remove(i);
                proof {
                    let after = participant_models(self.participants@);
                    assert(after.subrange(0, i as int) =~= current.subrange(0, i as int));
                    assert(after.subrange(i as int, after.len() as int) =~= current.subrange(
                        i as int,
                        current.len() as int,
                    ).drop_first());
                    assert(before.subrange(seen + 1, before.len() as int) =~= before.subrange(
                        seen,
                        before.len() as int,
                    ).drop_first());
                    seen = seen + 1;
                }
            } else {
                proof {
                    assert(current.subrange(0, i + 1) =~= current.subrange(0, i as int).push(
                        current[i as int],
                    ));
                    assert(current.subrange(i + 1, current.len() as int) =~= current.subrange(
                        i as int,
                        current.len() as int,
                    ).drop_first());
                    assert(before.subrange(seen + 1, before.len() as int) =~= before.subrange(
                        seen,
                        before.len() as int,
                    ).drop_first());
                    seen = seen + 1;
                }
                i = i + 1;
            }
        }
        proof {
            let after = participant_models(self.participants@);
            assert(after.subrange(0, i as int) =~= after);
            assert(before.subrange(0, seen) =~= before);
        }
    }

    /// The first participant called `participant_id`, if there is one.
    pub fn get_participant(&self, participant_id: &ClientId) -> (res: Option<&Participant>)
        ensures
            match res {
                Some(p) => exists|i: int|
                    #![trigger self.participants[i]]
                    is_first_match(self@.participants, participant_id@, i) && *p
                        == self.participants[i],
                None => !self@.has_participant(participant_id@),
            },
    {
        let mut i: usize = 0;
        while i < self.participants.len()
            invariant
                0 <= i <= self.participants.len(),
                forall|j: int|
                    0 <= j < i ==> (#[trigger] self@.participants[j]).id != participant_id@,
            decreases self.participants.len() - i,
        {
            if self.participants[i].id == *participant_id {
                assert(is_first_match(self@.participants, participant_id@, i as int));
                return Some(&self.participants[i]);
            }
            i = i + 1;
        }
        None
    }
}

impl Clone for Room {
    fn clone(&self) -> (res: Self)
        ensures
            res@ == self@,
    {
        let mut participants: Vec<Participant> = Vec::new();
        let mut i: usize = 0;
        while i < self.participants.len()
            invariant
                0 <= i <= self.participants.len(),
                participant_models(participants@) == participant_models(
                    self.participants@,
                ).subrange(0, i as int),
            decreases self.participants.len() - i,
        {
            let ghost copied = participant_models(participants@);
            let participant = self.participants[i].clone();
            participants.push(participant);
            assert(participant_models(participants@) =~= copied.push(self.participants[i as int]@));
            i = i + 1;
            assert(participant_models(participants@) =~= participant_models(
                self.participants@,
            ).subrange(0, i as int));
        }
        let mut messages: Vec<ChatMessage> = Vec::new();
        let mut k: usize = 0;
        while k < self.messages.len()
            invariant
                0 <= k <= self.messages.len(),
                message_models(messages@) == message_models(self.messages@).subrange(0, k as int),
            decreases self.messages.len() - k,
        {
            let ghost copied = message_models(messages@);
            let message = self.messages[k].clone();
            messages.push(message);
            assert(message_models(messages@) =~= copied.push(self.messages[k as int]@));
            k = k + 1;
            assert(message_models(messages@) =~= message_models(self.messages@).subrange(
                0,
                k as int,
            ));
        }
        assert(participant_models(participants@) =~= participant_models(self.participants@));
        assert(message_models(messages@) =~= message_models(self.messages@));
        Room {
            id: self.id.clone(),
            participants,
            messages,
            created_at: self.created_at,
            participant_capacity: self.participant_capacity,
            message_capacity: self.message_capacity,
        }
    }
}

} // verus!
