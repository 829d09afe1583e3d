//! One client's connection to a room, from its opening to its end. The caller
//! performs each step and hands back what came next.
use crate::order::in_order;
use crate::protocol::{Participant, ServerEvent};
use crate::rooms::{
    is_snapshot, law_without_takes_out_one, participant_leq, without_id, RoomHub, SocketDispatch,
};
use crate::text::{concat3, decimal, decimal_text};
use crate::timestamp::Timestamp;
use vstd::prelude::*;

verus! {

/// What came from the client or from the room.
#[derive(Debug)]
pub enum SocketInput {
    /// A command was read and applied.
    Command { outcome: Result<SocketDispatch, &'static str> },
    /// A message was no command.
    Unreadable,
    /// A transport ping, to be answered with its payload.
    TransportPing,
    /// The client closed the connection.
    TransportClose,
    /// A message of another kind.
    TransportOther,
    /// Receiving failed.
    TransportFailed,
    /// There is nothing more to receive.
    TransportEnded,
    /// An event of the room.
    RoomEvent { event: ServerEvent },
    /// The connection missed this many events of the room.
    Lagged { skipped: u64 },
    /// The room sends no more events.
    RoomClosed,
}

/// What is to be done. Where sending fails, the connection ends.
#[derive(Debug)]
pub enum SocketStep {
    /// Tell everyone in the room.
    Broadcast { event: ServerEvent },
    /// Tell the client.
    Send { event: ServerEvent },
    /// Tell the client both, in this order.
    SendBoth { first: ServerEvent, second: ServerEvent },
    /// Answer a transport ping.
    AnswerPing,
    /// Wait for more.
    Wait,
    /// End the connection.
    Stop,
}

/// Whether `list` holds the participants of the room in their order.
pub open spec fn lists(list: Seq<Participant>, hub: RoomHub) -> bool {
    in_order(list, participant_leq()) && list.to_multiset() == hub.participants@.to_multiset()
}

/// Whether `event` is a snapshot of the room at `now`.
pub open spec fn is_room_snapshot(event: ServerEvent, hub: RoomHub, now: Timestamp) -> bool {
    event matches ServerEvent::Snapshot { room, connection_count, participants } && is_snapshot(
        room,
        hub.room,
        now,
    ) && connection_count == hub.connection_count && lists(participants@, hub)
}

/// Whether `event` is an error message with the given text.
pub open spec fn is_error(event: ServerEvent, text: Seq<char>) -> bool {
    event matches ServerEvent::Error { message } && message@ == text
}

/// The message for a connection that missed events.
pub open spec fn lag_message(skipped: u64) -> Seq<char> {
    "Missed "@ + decimal(skipped as nat) + " room updates. Sending a fresh snapshot."@
}

/// Whether `step` is what follows `input`.
pub open spec fn is_step(
    step: SocketStep,
    input: SocketInput,
    hub: RoomHub,
    now: Timestamp,
) -> bool {
    match input {
        SocketInput::Command { outcome } => match outcome {
            Ok(SocketDispatch::Broadcast(event)) => step == (SocketStep::Broadcast { event }),
            Ok(SocketDispatch::Direct(event)) => step == (SocketStep::Send { event }),
            Err(text) => step matches SocketStep::Send { event } && is_error(event, text@),
        },
        SocketInput::Unreadable => step matches SocketStep::Send { event } && is_error(
            event,
            "Could not parse the playback command."@,
        ),
        SocketInput::TransportPing => step is AnswerPing,
        SocketInput::TransportOther => step is Wait,
        SocketInput::TransportClose
        | SocketInput::TransportFailed
        | SocketInput::TransportEnded
        | SocketInput::RoomClosed => step is Stop,
        SocketInput::RoomEvent { event } => step == (SocketStep::Send { event }),
        SocketInput::Lagged { skipped } => step matches SocketStep::SendBoth { first, second }
            && is_error(first, lag_message(skipped)) && is_room_snapshot(second, hub, now),
    }
}

/// The room as a snapshot event.
pub fn room_snapshot_event(hub: &RoomHub, now: Timestamp) -> (r: ServerEvent)
    requires
        hub.room.clock@.wf(),
        now.formattable(),
    ensures
        is_room_snapshot(r, *hub, now),
{
    ServerEvent::Snapshot {
        room: hub.room.snapshot(now),
        connection_count: hub.connection_count,
        participants: hub.participant_list(),
    }
}

/// What is to be done after `input`.
pub fn handle_room_socket(input: SocketInput, hub: &RoomHub, now: Timestamp) -> (r: SocketStep)
    requires
        hub.room.clock@.wf(),
        now.formattable(),
    ensures
        is_step(r, input, *hub, now),
{
    match input {
        SocketInput::Command { outcome } => match outcome {
            Ok(SocketDispatch::Broadcast(event)) => SocketStep::Broadcast { event },
            Ok(SocketDispatch::Direct(event)) => SocketStep::Send { event },
            Err(text) => SocketStep::Send {
                event: ServerEvent::Error { message: text.to_owned() },
            },
        },
        SocketInput::Unreadable => SocketStep::Send {
            event: ServerEvent::Error {
                message: "Could not parse the playback command.".to_owned(),
            },
        },
        SocketInput::TransportPing => SocketStep::AnswerPing,
        SocketInput::TransportOther => SocketStep::Wait,
        SocketInput::TransportClose
        | SocketInput::TransportFailed
        | SocketInput::TransportEnded
        | SocketInput::RoomClosed => SocketStep::Stop,
        SocketInput::RoomEvent { event } => SocketStep::Send { event },
        SocketInput::Lagged { skipped } => SocketStep::SendBoth {
            first: ServerEvent::Error {
                message: concat3(
                    "Missed ",
                    decimal_text(skipped).as_str(),
                    " room updates. Sending a fresh snapshot.",
                ),
            },
            second: room_snapshot_event(hub, now),
        },
    }
}

/// The participants event of a room.
pub open spec fn is_participants_event(event: ServerEvent, hub: RoomHub) -> bool {
    event matches ServerEvent::ParticipantsUpdated { room_id, participants } && room_id
        == hub.room.id && lists(participants@, hub)
}

/// Whether `event` tells that somebody joined or left.
pub open spec fn is_presence_event(
    event: ServerEvent,
    hub: RoomHub,
    name: Seq<char>,
    came: bool,
) -> bool {
    event matches ServerEvent::PresenceChanged { room_id, connection_count, actor, joined }
        && room_id == hub.room.id && connection_count == hub.connection_count && actor@ == name
        && joined == came
}

/// The room's participants as an event for everyone.
pub fn participants_event(hub: &RoomHub) -> (r: ServerEvent)
    ensures
        is_participants_event(r, *hub),
{
    ServerEvent::ParticipantsUpdated { room_id: hub.room.id, participants: hub.participant_list() }
}

/// What a new connection is sent, and what everyone is told once that was
/// received.
#[derive(Debug)]
pub struct Opening {
    pub snapshot: ServerEvent,
    pub presence: ServerEvent,
    pub participants: ServerEvent,
}

/// Whether a room is as it was, but for one more connection and its client.
pub open spec fn is_opened(
    before: RoomHub,
    after: RoomHub,
    connection_id: u128,
    client_name: Seq<char>,
) -> bool {
    &&& after.room == before.room
    &&& after.connection_count == before.connection_count + 1
    &&& !after.cleanup_scheduled
    &&& after.participants@.len() == without_id(before.participants@, connection_id).len() + 1
    &&& after.participants@.drop_last() == without_id(before.participants@, connection_id)
    &&& after.participants@.last().id == connection_id
    &&& after.participants@.last().name@ == client_name
    &&& after.participants@.last().drift_nanos is None
}

/// Whether a room is as it was, but for one connection less and its client.
pub open spec fn is_closed(before: RoomHub, after: RoomHub, connection_id: u128) -> bool {
    &&& after.room == before.room
    &&& after.connection_count == before.connection_count - 1
    &&& after.cleanup_scheduled == (after.connection_count == 0)
    &&& after.participants@ == without_id(before.participants@, connection_id)
}

/// Opens a connection: it counts, and its client takes part.
pub fn open_connection(
    hub: &mut RoomHub,
    connection_id: u128,
    client_name: &str,
    now: Timestamp,
) -> (r: Opening)
    requires
        old(hub).wf(),
        old(hub).connection_count < usize::MAX,
        old(hub).room.clock@.wf(),
        now.formattable(),
    ensures
        final(hub).wf(),
        is_opened(*old(hub), *final(hub), connection_id, client_name@),
        is_room_snapshot(r.snapshot, *final(hub), now),
        is_presence_event(r.presence, *final(hub), client_name@, true),
        is_participants_event(r.participants, *final(hub)),
{
    let connection_count: usize = hub.join();
    hub.add_participant(connection_id, client_name.to_owned());
    assert(hub.participants@.drop_last() =~= without_id(old(hub).participants@, connection_id));
    Opening {
        snapshot: room_snapshot_event(hub, now),
        presence: ServerEvent::PresenceChanged {
            room_id: hub.room.id,
            connection_count,
            actor: client_name.to_owned(),
            joined: true,
        },
        participants: participants_event(hub),
    }
}

/// What everyone is told when a connection has ended.
#[derive(Debug)]
pub struct Closing {
    pub presence: ServerEvent,
    pub participants: ServerEvent,
}

/// Ends a connection: it no longer counts, and its client no longer takes
/// part. Nobody is told where the connection ended before its client received
/// the first snapshot.
pub fn close_connection(hub: &mut RoomHub, connection_id: u128, client_name: &str) -> (r: Closing)
    requires
        old(hub).wf(),
        old(hub).connection_count > 0,
    ensures
        final(hub).wf(),
        is_closed(*old(hub), *final(hub), connection_id),
        is_presence_event(r.presence, *final(hub), client_name@, false),
        is_participants_event(r.participants, *final(hub)),
{
    hub.remove_participant(connection_id);
    let connection_count: usize = hub.leave();
    Closing {
        presence: ServerEvent::PresenceChanged {
            room_id: hub.room.id,
            connection_count,
            actor: client_name.to_owned(),
            joined: false,
        },
        participants: participants_event(hub),
    }
}

/// A connection that was opened with a new identifier and ended again leaves
/// the room as it was, with its removal scheduled where nobody is connected.
pub proof fn law_closing_undoes_opening(
    before: RoomHub,
    open: RoomHub,
    after: RoomHub,
    connection_id: u128,
    client_name: Seq<char>,
)
    requires
        forall|i: int|
            0 <= i < before.participants@.len() ==> (#[trigger] before.participants@[i]).id
                != connection_id,
        is_opened(before, open, connection_id, client_name),
        is_closed(open, after, connection_id),
    ensures
        after.room == before.room,
        after.participants@ == before.participants@,
        after.connection_count == before.connection_count,
        after.cleanup_scheduled == (before.connection_count == 0),
{
    let list = before.participants@;
    let joined = open.participants@.last();
    let other = |p: Participant| p.id != connection_id;
    lemma_filter_all(list, other);
    list.lemma_filter_push(joined, other);
    assert(open.participants@ =~= list.push(joined));
}

proof fn lemma_filter_all(list: Seq<Participant>, keep: spec_fn(Participant) -> bool)
    requires
        forall|i: int| 0 <= i < list.len() ==> keep(#[trigger] list[i]),
    ensures
        list.filter(keep) == list,
    decreases list.len(),
{
    reveal(Seq::filter);
    if list.len() > 0 {
        lemma_filter_all(list.drop_last(), keep);
        assert(list =~= list.drop_last().push(list.last()));
    } else {
        assert(list.filter(keep) =~= list);
    }
}

/// A client that connects takes part under its name, beside all that took part before, and
/// a pending removal of the room is called off. One that leaves takes part no more, the
/// others stay, and the removal is scheduled with the last one.
pub proof fn law_clients_come_and_go(
    before: RoomHub,
    open: RoomHub,
    closed: RoomHub,
    connection_id: u128,
    client_name: Seq<char>,
    p: Participant,
)
    requires
        is_opened(before, open, connection_id, client_name),
        is_closed(open, closed, connection_id),
    ensures
        open.connection_count == before.connection_count + 1 && closed.connection_count
            == before.connection_count,
        !open.cleanup_scheduled,
        closed.cleanup_scheduled <==> before.connection_count == 0,
        exists|i: int|
            0 <= i < open.participants@.len() && (#[trigger] open.participants@[i]).id
                == connection_id && open.participants@[i].name@ == client_name,
        p.id != connection_id ==> (open.participants@.contains(p)
            <==> before.participants@.contains(p)),
        p.id != connection_id ==> (closed.participants@.contains(p)
            <==> before.participants@.contains(p)),
        p.id == connection_id ==> !closed.participants@.contains(p),
        open.room == before.room && closed.room == before.room,
{
    let n = open.participants@.len() as int;
    assert(open.participants@[n - 1].id == connection_id);
    law_without_takes_out_one(before.participants@, connection_id, p);
    law_without_takes_out_one(open.participants@, connection_id, p);
    let kept = open.participants@.drop_last();
    if p.id != connection_id {
        if open.participants@.contains(p) {
            let k = open.participants@.index_of(p);
            assert(kept[k] == p);
        }
        if kept.contains(p) {
            assert(open.participants@[kept.index_of(p)] == p);
        }
    }
}

/// An event of the room, and the answer to a command, reach those whom they concern: what
/// changed the room goes to everyone, and what concerns the sender to the sender. A refused
/// command is answered with its reason; a connection that missed events is sent the room
/// anew; one that ended is done with.
pub proof fn law_steps_reach_whom_they_concern(
    step: SocketStep,
    input: SocketInput,
    hub: RoomHub,
    now: Timestamp,
)
    requires
        is_step(step, input, hub, now),
    ensures
        input matches SocketInput::RoomEvent { event } ==> step == (SocketStep::Send { event }),
        input matches SocketInput::Command { outcome } ==> {
            &&& outcome matches Ok(SocketDispatch::Broadcast(event)) ==> step
                == (SocketStep::Broadcast { event })
            &&& outcome matches Ok(SocketDispatch::Direct(event)) ==> step == (SocketStep::Send {
                event,
            })
            &&& outcome matches Err(text) ==> (step matches SocketStep::Send { event } && (
            event matches ServerEvent::Error { message } && message@ == text@))
        },
        input is Lagged ==> (step matches SocketStep::SendBoth { first, second } && first is Error
            && (second matches ServerEvent::Snapshot { room, connection_count, participants }
            && room.id == hub.room.id && connection_count == hub.connection_count
            && participants@.len() == hub.participants@.len())),
        step is Stop <==> input is TransportClose || input is TransportFailed || input
            is TransportEnded || input is RoomClosed,
        input is TransportPing ==> step is AnswerPing,
{
    broadcast use vstd::seq_lib::group_to_multiset_ensures;

    if input is Lagged {
        let shown = step->SendBoth_second->Snapshot_participants@;
        assert(shown.to_multiset().len() == hub.participants@.to_multiset().len());
    }
}

/// Everyone hears that a client came or went, with the number of connections there are
/// then and everyone who takes part.
pub proof fn law_everyone_hears_who_came(
    event: ServerEvent,
    list: ServerEvent,
    hub: RoomHub,
    name: Seq<char>,
    came: bool,
    p: Participant,
)
    requires
        is_presence_event(event, hub, name, came),
        is_participants_event(list, hub),
    ensures
        event matches ServerEvent::PresenceChanged { room_id, connection_count, actor, joined }
            && room_id == hub.room.id && connection_count == hub.connection_count && actor@ == name
            && joined == came,
        list matches ServerEvent::ParticipantsUpdated { room_id, participants } && room_id
            == hub.room.id && (participants@.contains(p) <==> hub.participants@.contains(p)),
{
    broadcast use vstd::seq_lib::group_to_multiset_ensures;

    let shown = list->ParticipantsUpdated_participants@;
    assert(shown.to_multiset().count(p) > 0 <==> shown.contains(p));
    assert(hub.participants@.to_multiset().count(p) > 0 <==> hub.participants@.contains(p));
}

} // verus!
