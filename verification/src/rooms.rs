//! Rooms: their playback commands, their participants and their life cycle.
use crate::clock::{
    drift_report, law_drift_is_reported_minus_expected, law_pause_stops_the_clock,
    law_play_starts_the_clock, law_rounding_is_nearest, law_seek_keeps_status, lemma_units, moved,
    round_to, rounded_position, shows, started, stopped,
    AuthoritativePlaybackClock, DriftReport, PlaybackClockCheckpoint, NORMAL_RATE_MICROS,
};
use crate::ids::{is_random_id, random_id};
use crate::order::{
    in_order, insert_in_order, lemma_text_leq_total, lemma_text_leq_transitive, not_after, orders,
    text_leq,
};
use crate::protocol::{
    ClientSocketMessage, DriftCorrectionAction, Participant, PlaybackAction, PlaybackStatus,
    ReportedPosition, Room, ServerEvent,
};
use crate::text::{copy_opt, same_text};
use crate::timestamp::{format_timestamp, Timestamp};
use vstd::prelude::*;

pub mod socket;

verus! {

/// Ceiling on the one-way latency that a client reports, in milliseconds.
/// Larger values would put the clock's anchor arbitrarily far in the past.
pub const MAX_CLIENT_ONE_WAY_MS: u32 = 2_000;

/// The first nanosecond of the year -9999 on the local clock, before which
/// there are no timestamps.
pub const FIRST_LOCAL_NANOS: i128 = -377_705_116_800_000_000_000;

/// The milliseconds by which a command is dated back.
pub open spec fn latency_ms(client_one_way_ms: Option<u32>) -> int {
    match client_one_way_ms {
        Some(ms) => if ms < MAX_CLIENT_ONE_WAY_MS {
            ms as int
        } else {
            MAX_CLIENT_ONE_WAY_MS as int
        },
        None => 0,
    }
}

/// `now`, dated back by the client's latency up to the ceiling.
pub open spec fn back_dated(now: Timestamp, client_one_way_ms: Option<u32>) -> Timestamp {
    Timestamp {
        local_nanos: (now.local_nanos - latency_ms(client_one_way_ms) * 1_000_000) as i128,
        offset_seconds: now.offset_seconds,
    }
}

/// `now`, dated back by the client's latency up to the ceiling.
pub fn back_date_for_client_latency(now: Timestamp, client_one_way_ms: Option<u32>) -> (r: Timestamp)
    requires
        now.local_nanos - latency_ms(client_one_way_ms) * 1_000_000 >= FIRST_LOCAL_NANOS,
    ensures
        r == back_dated(now, client_one_way_ms),
        r.unix() == now.unix() - latency_ms(client_one_way_ms) * 1_000_000,
{
    let clamped: u32 = match client_one_way_ms {
        Some(ms) => if ms < MAX_CLIENT_ONE_WAY_MS {
            ms
        } else {
            MAX_CLIENT_ONE_WAY_MS
        },
        None => 0,
    };
    Timestamp {
        local_nanos: now.local_nanos - clamped as i128 * 1_000_000,
        offset_seconds: now.offset_seconds,
    }
}

/// A command is never dated forward, nor back by more than the ceiling.
pub proof fn law_back_dating_is_bounded(now: Timestamp, client_one_way_ms: Option<u32>)
    requires
        now.local_nanos - latency_ms(client_one_way_ms) * 1_000_000 >= FIRST_LOCAL_NANOS,
    ensures
        now.unix() - MAX_CLIENT_ONE_WAY_MS * 1_000_000 <= back_dated(now, client_one_way_ms).unix()
            <= now.unix(),
{
}

/// The message for a position that is no number.
pub open spec fn not_finite_message() -> Seq<char> {
    "Playback position must be a valid number."@
}

/// The message for a position before the start.
pub open spec fn negative_message() -> Seq<char> {
    "Playback position cannot be negative."@
}

/// A position from a client, rounded to `decimals` places of a second, or why
/// it is refused.
pub open spec fn normalized(position: ReportedPosition, decimals: u32) -> Result<i128, Seq<char>> {
    match position {
        ReportedPosition::NotFinite => Err(not_finite_message()),
        ReportedPosition::Finite(nanos) => if nanos < 0 {
            Err(negative_message())
        } else {
            Ok(rounded_position(nanos as int, decimals))
        },
    }
}

/// A result with the error taken by its text.
pub open spec fn position_result(r: Result<i128, &'static str>) -> Result<i128, Seq<char>> {
    match r {
        Ok(nanos) => Ok(nanos),
        Err(message) => Err(message@),
    }
}

fn validate_position(position: ReportedPosition) -> (r: Result<i128, &'static str>)
    ensures
        match position {
            ReportedPosition::NotFinite => r matches Err(message) && message@
                == not_finite_message(),
            ReportedPosition::Finite(nanos) => if nanos < 0 {
                r matches Err(message) && message@ == negative_message()
            } else {
                r is Ok && r->Ok_0 == nanos
            },
        },
{
    match position {
        ReportedPosition::NotFinite => Err("Playback position must be a valid number."),
        ReportedPosition::Finite(nanos) => {
            if nanos < 0 {
                Err("Playback position cannot be negative.")
            } else {
                Ok(nanos)
            }
        },
    }
}

/// The position of a playback command, to the tenth of a second.
pub fn normalize_command_position(position: ReportedPosition) -> (r: Result<i128, &'static str>)
    ensures
        position_result(r) == normalized(position, 1),
{
    match validate_position(position) {
        Ok(nanos) => Ok(round_to(nanos, 1)),
        Err(message) => Err(message),
    }
}

/// The position in a drift report, to the millisecond.
pub fn normalize_reported_position(position: ReportedPosition) -> (r: Result<i128, &'static str>)
    ensures
        position_result(r) == normalized(position, 3),
{
    match validate_position(position) {
        Ok(nanos) => Ok(round_to(nanos, 3)),
        Err(message) => Err(message),
    }
}

/// A room as it is stored.
#[derive(Debug)]
pub struct RoomRecord {
    pub id: u128,
    pub name: String,
    pub media_id: Option<u128>,
    pub media_title: Option<String>,
    pub created_at: String,
    pub clock: AuthoritativePlaybackClock,
}

/// Whether `room` is what clients see of `record` at `emitted_at`.
pub open spec fn is_snapshot(room: Room, record: RoomRecord, emitted_at: Timestamp) -> bool {
    &&& room.id == record.id
    &&& room.name == record.name
    &&& room.media_id == record.media_id
    &&& room.media_title == record.media_title
    &&& shows(room.playback_state, record.clock@, emitted_at)
    &&& room.created_at == record.created_at
}

/// A paused clock at the start, anchored at `now`.
pub open spec fn fresh_clock(now: Timestamp) -> PlaybackClockCheckpoint {
    PlaybackClockCheckpoint {
        status: PlaybackStatus::Paused,
        anchor_position_nanos: 0,
        updated_at: now,
        playback_rate_micros: NORMAL_RATE_MICROS,
    }
}

/// Whether `record` is a new room of the given identifier, made at `now`.
pub open spec fn is_new_room(
    record: RoomRecord,
    id: u128,
    name: String,
    media_id: Option<u128>,
    media_title: Option<String>,
    now: Timestamp,
) -> bool {
    &&& record.id == id
    &&& record.name == name
    &&& record.media_id == media_id
    &&& record.media_title == media_title
    &&& record.created_at@ == now.rfc3339()
    &&& record.clock@ == fresh_clock(now)
}

impl RoomRecord {
    /// A new room with a random identifier.
    pub fn new(
        name: String,
        media_id: Option<u128>,
        media_title: Option<String>,
        now: Timestamp,
    ) -> (r: RoomRecord)
        requires
            now.formattable(),
        ensures
            is_random_id(r.id),
            is_new_room(r, r.id, name, media_id, media_title, now),
    {
        RoomRecord::with_id(random_id(), name, media_id, media_title, now)
    }

    /// A new room with the given identifier.
    pub fn with_id(
        id: u128,
        name: String,
        media_id: Option<u128>,
        media_title: Option<String>,
        now: Timestamp,
    ) -> (r: RoomRecord)
        requires
            now.formattable(),
        ensures
            is_new_room(r, id, name, media_id, media_title, now),
    {
        RoomRecord {
            id,
            name,
            media_id,
            media_title,
            created_at: format_timestamp(now),
            clock: AuthoritativePlaybackClock::new_paused(now),
        }
    }

    /// What clients see of the room at `emitted_at`.
    pub fn snapshot(&self, emitted_at: Timestamp) -> (r: Room)
        requires
            self.clock@.wf(),
            emitted_at.formattable(),
        ensures
            is_snapshot(r, *self, emitted_at),
    {
        Room {
            id: self.id,
            name: self.name.clone(),
            media_id: self.media_id,
            media_title: copy_opt(&self.media_title),
            playback_state: self.clock.snapshot(emitted_at),
            created_at: self.created_at.clone(),
        }
    }

    /// A copy of the room.
    pub fn copy(&self) -> (r: RoomRecord)
        ensures
            r == *self,
    {
        RoomRecord {
            id: self.id,
            name: self.name.clone(),
            media_id: self.media_id,
            media_title: copy_opt(&self.media_title),
            created_at: self.created_at.clone(),
            clock: self.clock,
        }
    }
}

/// What a command of a client leads to.
#[derive(Debug)]
pub enum CommandEffect {
    /// Store the updated room; once it is stored it replaces the room, and the
    /// event goes to everyone.
    Update { room: RoomRecord, event: ServerEvent },
    /// Note the sender's drift and tell everyone the participants; the event
    /// goes to the sender.
    Drift { drift_nanos: i128, event: ServerEvent },
    /// The event goes to the sender.
    Reply { event: ServerEvent },
    /// Look up the media item, which `apply_select_media` then takes.
    SelectMedia { media_id: u128 },
}

/// The position that a play or pause command names, or why it is refused.
pub open spec fn command_position(position: Option<ReportedPosition>) -> Result<
    Option<i128>,
    Seq<char>,
> {
    match position {
        None => Ok(None),
        Some(value) => match normalized(value, 1) {
            Ok(nanos) => Ok(Some(nanos)),
            Err(message) => Err(message),
        },
    }
}

/// Whether `updated` is `room` with its clock at the given checkpoint.
pub open spec fn has_clock(
    updated: RoomRecord,
    room: RoomRecord,
    clock: PlaybackClockCheckpoint,
) -> bool {
    &&& updated.clock@ == clock
    &&& updated == (RoomRecord { clock: updated.clock, ..room })
}

/// Whether `effect` updates the room to the given clock and tells everyone of
/// the action.
pub open spec fn updates_clock(
    effect: CommandEffect,
    room: RoomRecord,
    clock: PlaybackClockCheckpoint,
    actor: Seq<char>,
    action: PlaybackAction,
    now: Timestamp,
) -> bool {
    effect matches CommandEffect::Update { room: updated, event } && has_clock(updated, room, clock)
        && (event matches ServerEvent::PlaybackUpdated {
        room: snapshot,
        actor: who,
        action: done,
    } && is_snapshot(snapshot, updated, now) && who@ == actor && done == action)
}

/// Whether `effect` reports the given drift to the sender.
pub open spec fn reports_drift(
    effect: CommandEffect,
    room: RoomRecord,
    report: DriftReport,
    actor: Seq<char>,
    now: Timestamp,
) -> bool {
    effect matches CommandEffect::Drift { drift_nanos, event } && drift_nanos == report.delta_nanos
        && (event matches ServerEvent::DriftCorrection {
        room_id,
        actor: who,
        reported_position_nanos,
        expected_position_nanos,
        delta_nanos,
        tolerance_nanos,
        suggested_action,
        measured_at,
    } && room_id == room.id && who@ == actor && reported_position_nanos
        == report.reported_position_nanos && expected_position_nanos
        == report.expected_position_nanos && delta_nanos == report.delta_nanos && tolerance_nanos
        == report.tolerance_nanos && suggested_action == report.suggested_action && measured_at@
        == now.rfc3339())
}

/// Whether a refused command is refused with the given message.
pub open spec fn refused(r: Result<CommandEffect, &'static str>, text: Seq<char>) -> bool {
    r matches Err(message) && message@ == text
}

/// Whether `r` is what `command` of `actor` leads to at `now`.
pub open spec fn is_effect(
    r: Result<CommandEffect, &'static str>,
    room: RoomRecord,
    command: ClientSocketMessage,
    actor: Seq<char>,
    now: Timestamp,
) -> bool {
    match command {
        ClientSocketMessage::Play { position, client_one_way_ms } => match command_position(
            position,
        ) {
            Err(message) => refused(r, message),
            Ok(target) => r is Ok && updates_clock(
                r->Ok_0,
                room,
                started(room.clock@, back_dated(now, client_one_way_ms), target),
                actor,
                PlaybackAction::Play,
                now,
            ),
        },
        ClientSocketMessage::Pause { position, client_one_way_ms } => match command_position(
            position,
        ) {
            Err(message) => refused(r, message),
            Ok(target) => r is Ok && updates_clock(
                r->Ok_0,
                room,
                stopped(room.clock@, back_dated(now, client_one_way_ms), target),
                actor,
                PlaybackAction::Pause,
                now,
            ),
        },
        ClientSocketMessage::Seek { position, client_one_way_ms } => match normalized(position, 1) {
            Err(message) => refused(r, message),
            Ok(target) => r is Ok && updates_clock(
                r->Ok_0,
                room,
                moved(room.clock@, back_dated(now, client_one_way_ms), target),
                actor,
                PlaybackAction::Seek,
                now,
            ),
        },
        ClientSocketMessage::SelectMedia { media_id } => r matches Ok(
            CommandEffect::SelectMedia { media_id: wanted },
        ) && wanted == media_id,
        ClientSocketMessage::ReportPosition { position } => match normalized(position, 3) {
            Err(message) => refused(r, message),
            Ok(reported) => r is Ok && reports_drift(
                r->Ok_0,
                room,
                drift_report(room.clock@, now, reported as int),
                actor,
                now,
            ),
        },
        ClientSocketMessage::Ping { client_sent_at_bits } => r matches Ok(
            CommandEffect::Reply { event: ServerEvent::Pong { client_sent_at_bits: echoed } },
        ) && echoed == client_sent_at_bits,
    }
}

/// Whether a room can take commands at `now`: its clock is well formed, and the
/// last two seconds before `now` have an RFC 3339 form.
pub open spec fn can_command(room: RoomRecord, now: Timestamp) -> bool {
    &&& room.clock@.wf()
    &&& now.formattable()
    &&& back_dated(now, Some(MAX_CLIENT_ONE_WAY_MS)).formattable()
}

fn normalize_optional(position: Option<ReportedPosition>) -> (r: Result<
    Option<i128>,
    &'static str,
>)
    ensures
        match command_position(position) {
            Ok(target) => r is Ok && r->Ok_0 == target,
            Err(message) => r matches Err(text) && text@ == message,
        },
{
    match position {
        None => Ok(None),
        Some(value) => match normalize_command_position(value) {
            Ok(nanos) => Ok(Some(nanos)),
            Err(message) => Err(message),
        },
    }
}

/// What `command` of `actor` leads to at `now`. Nothing is changed yet.
pub fn apply_socket_message(
    room: &RoomRecord,
    command: ClientSocketMessage,
    actor: &str,
    now: Timestamp,
) -> (r: Result<CommandEffect, &'static str>)
    requires
        can_command(*room, now),
    ensures
        is_effect(r, *room, command, actor@, now),
{
    match command {
        ClientSocketMessage::Play { position, client_one_way_ms } => {
            let anchor: Timestamp = back_date_for_client_latency(now, client_one_way_ms);
            let target: Option<i128> = match normalize_optional(position) {
                Ok(target) => target,
                Err(message) => {
                    return Err(message);
                },
            };
            let mut updated: RoomRecord = room.copy();
            updated.clock.play(anchor, target);
            let snapshot: Room = updated.snapshot(now);
            Ok(
                CommandEffect::Update {
                    room: updated,
                    event: ServerEvent::PlaybackUpdated {
                        room: snapshot,
                        actor: actor.to_owned(),
                        action: PlaybackAction::Play,
                    },
                },
            )
        },
        ClientSocketMessage::Pause { position, client_one_way_ms } => {
            let anchor: Timestamp = back_date_for_client_latency(now, client_one_way_ms);
            let target: Option<i128> = match normalize_optional(position) {
                Ok(target) => target,
                Err(message) => {
                    return Err(message);
                },
            };
            let mut updated: RoomRecord = room.copy();
            updated.clock.pause(anchor, target);
            let snapshot: Room = updated.snapshot(now);
            Ok(
                CommandEffect::Update {
                    room: updated,
                    event: ServerEvent::PlaybackUpdated {
                        room: snapshot,
                        actor: actor.to_owned(),
                        action: PlaybackAction::Pause,
                    },
                },
            )
        },
        ClientSocketMessage::Seek { position, client_one_way_ms } => {
            let anchor: Timestamp = back_date_for_client_latency(now, client_one_way_ms);
            let target: i128 = match normalize_command_position(position) {
                Ok(target) => target,
                Err(message) => {
                    return Err(message);
                },
            };
            let mut updated: RoomRecord = room.copy();
            updated.clock.seek(anchor, target);
            let snapshot: Room = updated.snapshot(now);
            Ok(
                CommandEffect::Update {
                    room: updated,
                    event: ServerEvent::PlaybackUpdated {
                        room: snapshot,
                        actor: actor.to_owned(),
                        action: PlaybackAction::Seek,
                    },
                },
            )
        },
        ClientSocketMessage::SelectMedia { media_id } => Ok(
            CommandEffect::SelectMedia { media_id },
        ),
        ClientSocketMessage::ReportPosition { position } => {
            let reported: i128 = match normalize_reported_position(position) {
                Ok(reported) => reported,
                Err(message) => {
                    return Err(message);
                },
            };
            let drift: DriftReport = room.clock.report_drift(now, reported);
            Ok(
                CommandEffect::Drift {
                    drift_nanos: drift.delta_nanos,
                    event: ServerEvent::DriftCorrection {
                        room_id: room.id,
                        actor: actor.to_owned(),
                        reported_position_nanos: drift.reported_position_nanos,
                        expected_position_nanos: drift.expected_position_nanos,
                        delta_nanos: drift.delta_nanos,
                        tolerance_nanos: drift.tolerance_nanos,
                        suggested_action: drift.suggested_action,
                        measured_at: format_timestamp(now),
                    },
                },
            )
        },
        ClientSocketMessage::Ping { client_sent_at_bits } => Ok(
            CommandEffect::Reply { event: ServerEvent::Pong { client_sent_at_bits } },
        ),
    }
}

/// What a lookup of the selected media item found.
#[derive(Debug)]
pub enum MediaLookup {
    Found { media_id: u128, file_name: String },
    Missing,
    Failed,
}

/// Whether `r` is what the selection of a media item leads to: the room shows
/// the item, paused at its start.
pub open spec fn is_selection(
    r: Result<CommandEffect, &'static str>,
    room: RoomRecord,
    lookup: MediaLookup,
    actor: Seq<char>,
    now: Timestamp,
) -> bool {
    match lookup {
        MediaLookup::Missing => refused(r, "Selected media is not in the library."@),
        MediaLookup::Failed => refused(r, "Failed to load the selected media."@),
        MediaLookup::Found { media_id, file_name } => r matches Ok(
            CommandEffect::Update {
                room: updated,
                event: ServerEvent::MediaChanged { room: snapshot, actor: who },
            },
        ) && updated.id == room.id && updated.name == room.name && updated.media_id == Some(
            media_id,
        ) && updated.media_title == Some(file_name) && updated.created_at == room.created_at
            && updated.clock@ == fresh_clock(now) && is_snapshot(snapshot, updated, now) && who@
            == actor,
    }
}

/// What the selection of a media item leads to.
pub fn apply_select_media(
    room: &RoomRecord,
    lookup: MediaLookup,
    actor: &str,
    now: Timestamp,
) -> (r: Result<CommandEffect, &'static str>)
    requires
        now.formattable(),
    ensures
        is_selection(r, *room, lookup, actor@, now),
{
    match lookup {
        MediaLookup::Missing => Err("Selected media is not in the library."),
        MediaLookup::Failed => Err("Failed to load the selected media."),
        MediaLookup::Found { media_id, file_name } => {
            let updated: RoomRecord = RoomRecord {
                id: room.id,
                name: room.name.clone(),
                media_id: Some(media_id),
                media_title: Some(file_name),
                created_at: room.created_at.clone(),
                clock: AuthoritativePlaybackClock::new_paused(now),
            };
            let snapshot: Room = updated.snapshot(now);
            Ok(
                CommandEffect::Update {
                    room: updated,
                    event: ServerEvent::MediaChanged { room: snapshot, actor: actor.to_owned() },
                },
            )
        },
    }
}

/// The room after a command can take further commands: its clock stays well
/// formed.
pub proof fn law_commands_keep_room_wf(
    r: Result<CommandEffect, &'static str>,
    room: RoomRecord,
    command: ClientSocketMessage,
    actor: Seq<char>,
    now: Timestamp,
)
    requires
        can_command(room, now),
        is_effect(r, room, command, actor, now),
    ensures
        r matches Ok(CommandEffect::Update { room: updated, event }) ==> updated.clock@.wf(),
{
}

/// A command never changes anything of a room but its clock; only the
/// selection of a media item does.
pub proof fn law_commands_change_the_clock_alone(
    r: Result<CommandEffect, &'static str>,
    room: RoomRecord,
    command: ClientSocketMessage,
    actor: Seq<char>,
    now: Timestamp,
)
    requires
        is_effect(r, room, command, actor, now),
    ensures
        r matches Ok(CommandEffect::Update { room: updated, event }) ==> updated == (RoomRecord {
            clock: updated.clock,
            ..room
        }),
{
}

/// Who an event goes to.
#[derive(Debug)]
pub enum SocketDispatch {
    Broadcast(ServerEvent),
    Direct(ServerEvent),
}

/// The order of participants: by name, then by identifier.
pub open spec fn participant_leq() -> spec_fn(Participant, Participant) -> bool {
    |a: Participant, b: Participant|
        if a.name@ == b.name@ {
            a.id <= b.id
        } else {
            text_leq(a.name@, b.name@)
        }
}

proof fn lemma_participant_order()
    ensures
        orders(participant_leq()),
{
    let leq = participant_leq();
    assert forall|a: Participant, b: Participant| #[trigger] leq(a, b) || leq(b, a) by {
        lemma_text_leq_total(a.name@, b.name@);
    }
    assert forall|a: Participant, b: Participant, c: Participant| #[trigger]
        leq(a, b) && #[trigger] leq(b, c) implies leq(a, c) by {
        lemma_text_leq_total(a.name@, b.name@);
        lemma_text_leq_total(b.name@, c.name@);
        lemma_text_leq_total(a.name@, c.name@);
        if a.name@ != b.name@ && b.name@ != c.name@ {
            lemma_text_leq_transitive(a.name@, b.name@, c.name@);
            if a.name@ == c.name@ {
                assert(text_leq(b.name@, a.name@));
            }
        }
    }
}

fn participant_not_after(a: &Participant, b: &Participant) -> (r: bool)
    ensures
        r == participant_leq()(*a, *b),
{
    if same_text(a.name.as_str(), b.name.as_str()) {
        a.id <= b.id
    } else {
        not_after(a.name.as_str(), b.name.as_str())
    }
}

/// A room with its connected participants.
#[derive(Debug)]
pub struct RoomHub {
    pub room: RoomRecord,
    pub participants: Vec<Participant>,
    pub connection_count: usize,
    /// Whether the room is to be removed after the grace period.
    pub cleanup_scheduled: bool,
}

/// The participants of a list without the one with the given identifier.
pub open spec fn without_id(list: Seq<Participant>, id: u128) -> Seq<Participant> {
    list.filter(|p: Participant| p.id != id)
}

/// Whether no two participants have the same identifier.
pub open spec fn distinct_ids(list: Seq<Participant>) -> bool {
    forall|i: int, j: int| 0 <= i < j < list.len() ==> (#[trigger] list[i]).id != (#[trigger] list[j]).id
}

/// Whether a room is as it was, but for the drift of one participant.
pub open spec fn is_drift_noted(
    before: RoomHub,
    after: RoomHub,
    id: u128,
    drift_nanos: i128,
) -> bool {
    &&& after.participants@.len() == before.participants@.len()
    &&& forall|i: int|
        0 <= i < before.participants@.len() ==> #[trigger] after.participants@[i] == (
        if before.participants@[i].id == id {
            Participant { drift_nanos: Some(drift_nanos), ..before.participants@[i] }
        } else {
            before.participants@[i]
        })
}

/// Whether a room has taken an update that was stored, or stayed as it was.
pub open spec fn is_committed(
    before: RoomHub,
    after: RoomHub,
    room: RoomRecord,
    event: ServerEvent,
    stored: bool,
    r: Result<SocketDispatch, &'static str>,
) -> bool {
    if stored {
        r == Ok::<SocketDispatch, &'static str>(SocketDispatch::Broadcast(event)) && after == (
        RoomHub { room, ..before })
    } else {
        (r matches Err(message) && message@ == "Failed to persist room state."@) && after == before
    }
}

impl RoomHub {
    /// Whether no two participants have the same identifier, and the removal of
    /// the room is scheduled only while nobody is connected.
    pub open spec fn wf(self) -> bool {
        &&& distinct_ids(self.participants@)
        &&& self.cleanup_scheduled ==> self.connection_count == 0
    }

    /// A room without participants.
    pub fn new(room: RoomRecord) -> (r: RoomHub)
        ensures
            r.wf(),
            r.room == room,
            r.participants@.len() == 0,
            r.connection_count == 0,
            !r.cleanup_scheduled,
    {
        RoomHub { room, participants: Vec::new(), connection_count: 0, cleanup_scheduled: false }
    }

    /// A stored room: nobody is connected to it yet, and it is removed if that
    /// stays so.
    pub fn restored(room: RoomRecord) -> (r: RoomHub)
        ensures
            r.wf(),
            r.room == room,
            r.participants@.len() == 0,
            r.connection_count == 0,
            r.cleanup_scheduled,
    {
        let mut hub: RoomHub = RoomHub::new(room);
        hub.schedule_cleanup();
        hub
    }

    /// The participants by name, those of the same name by identifier.
    pub fn participant_list(&self) -> (r: Vec<Participant>)
        ensures
            in_order(r@, participant_leq()),
            r@.to_multiset() == self.participants@.to_multiset(),
    {
        proof {
            lemma_participant_order();
        }
        let mut list: Vec<Participant> = Vec::new();
        let mut i: usize = 0;
        assert(list@ =~= self.participants@.take(0));
        while i < self.participants.len()
            invariant
                i <= self.participants@.len(),
                orders(participant_leq()),
                in_order(list@, participant_leq()),
                list@.to_multiset() == self.participants@.take(i as int).to_multiset(),
            decreases self.participants@.len() - i,
        {
            proof {
                assert(self.participants@.take(i + 1) =~= self.participants@.take(i as int).push(
                    self.participants@[i as int],
                ));
                vstd::seq_lib::to_multiset_build(
                    self.participants@.take(i as int),
                    self.participants@[i as int],
                );
            }
            let item: Participant = self.participants[i].clone();
            insert_in_order(
                &mut list,
                item,
                participant_not_after,
                Ghost(participant_leq()),
            );
            i = i + 1;
        }
        assert(self.participants@.take(self.participants@.len() as int) =~= self.participants@);
        list
    }

    /// Adds a participant without a drift; one with the same identifier is
    /// replaced.
    pub fn add_participant(&mut self, id: u128, name: String)
        requires
            old(self).wf(),
        ensures
            final(self).wf(),
            final(self).participants@ == without_id(old(self).participants@, id).push(
                Participant { id, name, drift_nanos: None },
            ),
            final(self).room == old(self).room,
            final(self).connection_count == old(self).connection_count,
            final(self).cleanup_scheduled == old(self).cleanup_scheduled,
    {
        self.remove_participant(id);
        self.participants.push(Participant { id, name, drift_nanos: None });
    }

    /// Removes a participant.
    pub fn remove_participant(&mut self, id: u128)
        requires
            old(self).wf(),
        ensures
            final(self).wf(),
            final(self).participants@ == without_id(old(self).participants@, id),
            forall|i: int|
                0 <= i < final(self).participants@.len() ==> (
                #[trigger] final(self).participants@[i]).id != id,
            final(self).room == old(self).room,
            final(self).connection_count == old(self).connection_count,
            final(self).cleanup_scheduled == old(self).cleanup_scheduled,
    {
        let ghost before = self.participants@;
        let ghost other = |p: Participant| p.id != id;
        let mut kept: Vec<Participant> = Vec::new();
        let mut i: usize = 0;
        assert(before.take(0).filter(other) =~= Seq::<Participant>::empty());
        while i < self.participants.len()
            invariant
                i <= self.participants@.len(),
                self.participants@ == before,
                other == (|p: Participant| p.id != id),
                kept@ == before.take(i as int).filter(other),
            decreases self.participants@.len() - i,
        {
            proof {
                assert(before.take(i + 1) =~= before.take(i as int).push(before[i as int]));
                before.take(i as int).lemma_filter_push(before[i as int], other);
            }
            if self.participants[i].id != id {
                kept.push(self.participants[i].clone());
            }
            i = i + 1;
        }
        proof {
            assert(before.take(before.len() as int) =~= before);
            assert forall|k: int| 0 <= k < kept@.len() implies (#[trigger] kept@[k]).id != id by {
                before.lemma_filter_pred(other, k);
            }
            lemma_filter_keeps_distinct(before, id);
        }
        self.participants = kept;
    }

    /// Notes the drift of a participant; nothing changes where there is none
    /// with the identifier.
    pub fn update_participant_drift(&mut self, id: u128, drift_nanos: i128)
        requires
            old(self).wf(),
        ensures
            final(self).wf(),
            final(self).participants@.len() == old(self).participants@.len(),
            forall|i: int|
                0 <= i < old(self).participants@.len() ==> #[trigger] final(self).participants@[i]
                    == (if old(self).participants@[i].id == id {
                    Participant {
                        drift_nanos: Some(drift_nanos),
                        ..old(self).participants@[i]
                    }
                } else {
                    old(self).participants@[i]
                }),
            is_drift_noted(*old(self), *final(self), id, drift_nanos),
            final(self).room == old(self).room,
            final(self).connection_count == old(self).connection_count,
            final(self).cleanup_scheduled == old(self).cleanup_scheduled,
    {
        let ghost before = self.participants@;
        let mut i: usize = 0;
        while i < self.participants.len()
            invariant
                i <= self.participants@.len(),
                self.participants@.len() == before.len(),
                distinct_ids(before),
                self.room == old(self).room,
                self.connection_count == old(self).connection_count,
                self.cleanup_scheduled == old(self).cleanup_scheduled,
                forall|k: int|
                    0 <= k < i ==> #[trigger] self.participants@[k] == (if before[k].id == id {
                        Participant { drift_nanos: Some(drift_nanos), ..before[k] }
                    } else {
                        before[k]
                    }),
                forall|k: int| i <= k < before.len() ==> #[trigger] self.participants@[k] == before[k],
            decreases self.participants@.len() - i,
        {
            if self.participants[i].id == id {
                let name: String = self.participants[i].name.clone();
                self.participants[i] = Participant { id, name, drift_nanos: Some(drift_nanos) };
            }
            i = i + 1;
        }
        assert forall|a: int, b: int| 0 <= a < b < self.participants@.len() implies (
        #[trigger] self.participants@[a]).id != (#[trigger] self.participants@[b]).id by {
            assert(before[a].id != before[b].id);
        }
    }

    /// One more connection. A pending removal of the room is called off:
    /// somebody is back before the grace period is over.
    pub fn join(&mut self) -> (r: usize)
        requires
            old(self).wf(),
            old(self).connection_count < usize::MAX,
        ensures
            final(self).wf(),
            r == old(self).connection_count + 1,
            final(self).connection_count == r,
            !final(self).cleanup_scheduled,
            final(self).room == old(self).room,
            final(self).participants == old(self).participants,
    {
        self.connection_count = self.connection_count + 1;
        self.cleanup_scheduled = false;
        self.connection_count
    }

    /// One connection less. The removal of the room is scheduled when nobody
    /// is left.
    pub fn leave(&mut self) -> (r: usize)
        requires
            old(self).wf(),
            old(self).connection_count > 0,
        ensures
            final(self).wf(),
            r == old(self).connection_count - 1,
            final(self).connection_count == r,
            final(self).cleanup_scheduled == (r == 0),
            final(self).room == old(self).room,
            final(self).participants == old(self).participants,
    {
        self.connection_count = self.connection_count - 1;
        if self.connection_count == 0 {
            self.schedule_cleanup();
        }
        self.connection_count
    }

    /// Schedules the removal of a room that nobody is connected to.
    pub fn schedule_cleanup(&mut self)
        requires
            old(self).wf(),
            old(self).connection_count == 0,
        ensures
            final(self).wf(),
            *final(self) == (RoomHub { cleanup_scheduled: true, ..*old(self) }),
    {
        self.cleanup_scheduled = true;
    }

    /// Whether the room is to be removed now that its grace period is over: not
    /// while anybody is connected. A client may have joined after the period
    /// ended, and a later leave schedules the removal again.
    pub fn should_remove(&self) -> (r: bool)
        ensures
            r == (self.connection_count == 0),
    {
        self.connection_count == 0
    }

    /// Takes the effect of a stored command: the updated room replaces the
    /// room once it is stored, and stays as it was where that failed.
    pub fn commit(&mut self, room: RoomRecord, event: ServerEvent, stored: bool) -> (r: Result<
        SocketDispatch,
        &'static str,
    >)
        requires
            old(self).wf(),
        ensures
            final(self).wf(),
            stored ==> r == Ok::<SocketDispatch, &'static str>(SocketDispatch::Broadcast(event))
                && *final(self) == (RoomHub { room, ..*old(self) }),
            !stored ==> (r matches Err(message) && message@ == "Failed to persist room state."@)
                && *final(self) == *old(self),
            is_committed(*old(self), *final(self), room, event, stored, r),
    {
        if stored {
            self.room = room;
            Ok(SocketDispatch::Broadcast(event))
        } else {
            Err("Failed to persist room state.")
        }
    }
}

proof fn lemma_filter_keeps_distinct(list: Seq<Participant>, id: u128)
    requires
        distinct_ids(list),
    ensures
        distinct_ids(without_id(list, id)),
    decreases list.len(),
{
    let other = |p: Participant| p.id != id;
    reveal(Seq::filter);
    if list.len() > 0 {
        let rest = list.drop_last();
        lemma_filter_keeps_distinct(rest, id);
        if list.last().id != id {
            let kept = rest.filter(other);
            assert(without_id(list, id) =~= kept.push(list.last()));
            assert forall|i: int, j: int| 0 <= i < j < kept.push(list.last()).len() implies (
            #[trigger] kept.push(list.last())[i]).id != (#[trigger] kept.push(list.last())[j]).id by {
                if j == kept.len() {
                    assert(kept.contains(kept[i]));
                    rest.lemma_filter_contains_rev(other, kept[i]);
                    let k = choose|k: int| 0 <= k < rest.len() && rest[k] == kept[i];
                    assert(list[k].id != list[list.len() - 1].id);
                }
            }
        }
    }
}

/// A position is refused exactly where it is no number or lies before the start. One
/// that is taken is the reported one to the nearest tenth of a second in a command,
/// and to the nearest millisecond in a drift report.
pub proof fn law_positions_are_rounded_not_moved(position: ReportedPosition)
    ensures
        normalized(position, 1) is Ok <==> (position matches ReportedPosition::Finite(nanos)
            && nanos >= 0),
        normalized(position, 3) is Ok <==> (position matches ReportedPosition::Finite(nanos)
            && nanos >= 0),
        position is NotFinite ==> normalized(position, 1)->Err_0
            == "Playback position must be a valid number."@ && normalized(position, 3)->Err_0
            == "Playback position must be a valid number."@,
        position matches ReportedPosition::Finite(nanos) ==> {
            &&& nanos < 0 ==> normalized(position, 1)->Err_0
                == "Playback position cannot be negative."@ && normalized(position, 3)->Err_0
                == "Playback position cannot be negative."@
            &&& 0 <= nanos <= 100_000_000_000_000_000_000 ==> {
                &&& normalized(position, 1)->Ok_0 % 100_000_000 == 0
                &&& -50_000_000 <= normalized(position, 1)->Ok_0 - nanos <= 50_000_000
                &&& normalized(position, 3)->Ok_0 % 1_000_000 == 0
                &&& -500_000 <= normalized(position, 3)->Ok_0 - nanos <= 500_000
            }
        },
{
    lemma_units();
    if position is Finite {
        law_rounding_is_nearest(position->Finite_0 as int, 100_000_000);
        law_rounding_is_nearest(position->Finite_0 as int, 1_000_000);
    }
}

/// A command is dated back by the latency that the client reports, two seconds at
/// most, and not at all where it reports none.
pub proof fn law_commands_are_dated_back(now: Timestamp, client_one_way_ms: Option<u32>)
    requires
        now.local_nanos >= FIRST_LOCAL_NANOS + 2_000_000_000,
    ensures
        client_one_way_ms is None ==> back_dated(now, client_one_way_ms) == now,
        client_one_way_ms matches Some(ms) ==> {
            &&& ms <= 2_000 ==> back_dated(now, client_one_way_ms).unix() == now.unix() - ms
                * 1_000_000
            &&& ms > 2_000 ==> back_dated(now, client_one_way_ms).unix() == now.unix()
                - 2_000_000_000
        },
        back_dated(now, client_one_way_ms).offset_seconds == now.offset_seconds,
{
}

/// Whether an effect tells everyone that `actor` did `action`, with the room as it is
/// afterwards.
pub open spec fn announces(effect: CommandEffect, actor: Seq<char>, action: PlaybackAction) -> bool {
    effect matches CommandEffect::Update { room, event } && (event matches
        ServerEvent::PlaybackUpdated { room: shown, actor: who, action: done } && who@ == actor
        && done == action && shown.id == room.id && shown.name == room.name && shown.media_id
        == room.media_id && shown.media_title == room.media_title && shown.created_at
        == room.created_at && shown.playback_state.status == room.clock@.status)
}

/// A seek moves a room and neither starts nor pauses it: a room that was paused is
/// paused at the named position at every later moment. Everyone is told of it.
pub proof fn law_seek_command_keeps_status(
    r: Result<CommandEffect, &'static str>,
    room: RoomRecord,
    nanos: i128,
    client_one_way_ms: Option<u32>,
    actor: Seq<char>,
    now: Timestamp,
    later: Timestamp,
)
    requires
        0 <= nanos <= 100_000_000_000_000_000_000,
        is_effect(
            r,
            room,
            ClientSocketMessage::Seek {
                position: ReportedPosition::Finite(nanos),
                client_one_way_ms,
            },
            actor,
            now,
        ),
    ensures
        r matches Ok(effect) && announces(effect, actor, PlaybackAction::Seek) && (effect matches
            CommandEffect::Update { room: updated, event } && updated.clock@.status
            == room.clock@.status && (room.clock@.status == PlaybackStatus::Paused ==> -50_000_000
            <= updated.clock@.position_at(later) - nanos <= 50_000_000)),
{
    law_positions_are_rounded_not_moved(ReportedPosition::Finite(nanos));
    let updated = r->Ok_0->Update_room;
    let position = normalized(ReportedPosition::Finite(nanos), 1)->Ok_0;
    law_seek_keeps_status(room.clock@, back_dated(now, client_one_way_ms), position, later);
}

/// A play command makes a room play: at the normal rate it shows, at every later
/// moment, the position that was named and the time since the command was sent.
/// Without a position it goes on from where it stood. Everyone is told of it.
pub proof fn law_play_command_starts_the_room(
    r: Result<CommandEffect, &'static str>,
    room: RoomRecord,
    position: Option<ReportedPosition>,
    client_one_way_ms: Option<u32>,
    actor: Seq<char>,
    now: Timestamp,
    later: Timestamp,
)
    requires
        position matches Some(value) ==> (value matches ReportedPosition::Finite(nanos) && 0 <= nanos
            <= 100_000_000_000_000_000_000),
        is_effect(
            r,
            room,
            ClientSocketMessage::Play { position, client_one_way_ms },
            actor,
            now,
        ),
        back_dated(now, client_one_way_ms).unix() <= later.unix()
            <= back_dated(now, client_one_way_ms).unix() + 1_000_000_000_000_000_000_000,
        -100_000_000_000_000_000_000 <= room.clock@.position_at(back_dated(now, client_one_way_ms))
            <= 100_000_000_000_000_000_000,
    ensures
        r matches Ok(effect) && announces(effect, actor, PlaybackAction::Play) && (effect matches
            CommandEffect::Update { room: updated, event } && updated.clock@.status
            == PlaybackStatus::Playing && (room.clock@.playback_rate_micros == 1_000_000 ==> {
            let sent = back_dated(now, client_one_way_ms);
            let start = match position {
                Some(value) => value->Finite_0 as int,
                None => room.clock@.position_at(sent),
            };
            let shown = updated.clock@.position_at(later);
            let expected = start + (later.unix() - sent.unix());
            &&& position is None ==> shown == expected
            &&& -50_000_000 <= shown - expected <= 50_000_000
        })),
{
    let sent = back_dated(now, client_one_way_ms);
    let target: Option<i128> = match position {
        Some(value) => {
            law_positions_are_rounded_not_moved(value);
            Some(normalized(value, 1)->Ok_0)
        },
        None => None,
    };
    law_play_starts_the_clock(room.clock@, sent, target, later);
}

/// A pause command makes a room stand, at every later moment, at the position that
/// was named, or where it stood when the command was sent. Everyone is told of it.
pub proof fn law_pause_command_stops_the_room(
    r: Result<CommandEffect, &'static str>,
    room: RoomRecord,
    position: Option<ReportedPosition>,
    client_one_way_ms: Option<u32>,
    actor: Seq<char>,
    now: Timestamp,
    later: Timestamp,
)
    requires
        position matches Some(value) ==> (value matches ReportedPosition::Finite(nanos) && 0 <= nanos
            <= 100_000_000_000_000_000_000),
        is_effect(
            r,
            room,
            ClientSocketMessage::Pause { position, client_one_way_ms },
            actor,
            now,
        ),
    ensures
        r matches Ok(effect) && announces(effect, actor, PlaybackAction::Pause) && (effect matches
            CommandEffect::Update { room: updated, event } && updated.clock@.status
            == PlaybackStatus::Paused && ({
            let shown = updated.clock@.position_at(later);
            match position {
                Some(value) => -50_000_000 <= shown - value->Finite_0 <= 50_000_000,
                None => shown == room.clock@.position_at(back_dated(now, client_one_way_ms)),
            }
        })),
{
    let sent = back_dated(now, client_one_way_ms);
    let target: Option<i128> = match position {
        Some(value) => {
            law_positions_are_rounded_not_moved(value);
            Some(normalized(value, 1)->Ok_0)
        },
        None => None,
    };
    law_pause_stops_the_clock(room.clock@, sent, target, later);
}

/// A command with a position that is no number, or that lies before the start, is
/// refused, whatever else it says.
pub proof fn law_impossible_positions_are_refused(
    r: Result<CommandEffect, &'static str>,
    room: RoomRecord,
    command: ClientSocketMessage,
    position: ReportedPosition,
    actor: Seq<char>,
    now: Timestamp,
)
    requires
        is_effect(r, room, command, actor, now),
        match command {
            ClientSocketMessage::Play { position: named, .. } => named == Some(position),
            ClientSocketMessage::Pause { position: named, .. } => named == Some(position),
            ClientSocketMessage::Seek { position: named, .. } => named == position,
            ClientSocketMessage::ReportPosition { position: named } => named == position,
            _ => false,
        },
    ensures
        r is Ok <==> (position matches ReportedPosition::Finite(nanos) && nanos >= 0),
        r matches Err(message) ==> {
            &&& position is NotFinite ==> message@ == "Playback position must be a valid number."@
            &&& position is Finite ==> message@ == "Playback position cannot be negative."@
        },
{
}

/// A report of a position changes nothing of the room. Its sender is told the drift
/// from where the room stands, and only the sender.
pub proof fn law_reports_are_answered_to_the_sender(
    r: Result<CommandEffect, &'static str>,
    room: RoomRecord,
    nanos: i128,
    actor: Seq<char>,
    now: Timestamp,
)
    requires
        0 <= nanos <= 100_000_000_000_000_000_000,
        -100_000_000_000_000_000_000 <= room.clock@.position_at(now) <= 100_000_000_000_000_000_000,
        is_effect(
            r,
            room,
            ClientSocketMessage::ReportPosition { position: ReportedPosition::Finite(nanos) },
            actor,
            now,
        ),
    ensures
        r matches Ok(CommandEffect::Drift { drift_nanos, event }) && (event matches
            ServerEvent::DriftCorrection {
            room_id,
            actor: who,
            reported_position_nanos,
            expected_position_nanos,
            delta_nanos,
            tolerance_nanos,
            suggested_action,
            measured_at,
        } && room_id == room.id && who@ == actor && drift_nanos == delta_nanos && -1_000_000
            <= delta_nanos - (nanos - room.clock@.position_at(now)) <= 1_000_000 && -1_000_000
            <= reported_position_nanos - nanos <= 1_000_000 && -1_000_000 <= expected_position_nanos
            - room.clock@.position_at(now) <= 1_000_000 && tolerance_nanos == 350_000_000
            && measured_at@ == now.rfc3339() && ({
            let drift = nanos - room.clock@.position_at(now);
            &&& -349_000_000 <= drift <= 349_000_000 ==> suggested_action
                == DriftCorrectionAction::InSync
            &&& 351_000_000 <= drift <= 1_499_000_000 || -1_499_000_000 <= drift <= -351_000_000
                ==> suggested_action == DriftCorrectionAction::Nudge
            &&& drift >= 1_501_000_000 || drift <= -1_501_000_000 ==> suggested_action
                == DriftCorrectionAction::Seek
        })),
{
    law_positions_are_rounded_not_moved(ReportedPosition::Finite(nanos));
    let reported = normalized(ReportedPosition::Finite(nanos), 3)->Ok_0;
    law_drift_is_reported_minus_expected(room.clock@, now, reported);
}

/// A room that is given another media file shows it from its start, paused, at the
/// normal rate, and keeps its identity. One that is not in the library is refused.
pub proof fn law_selected_media_starts_paused(
    r: Result<CommandEffect, &'static str>,
    room: RoomRecord,
    lookup: MediaLookup,
    actor: Seq<char>,
    now: Timestamp,
    later: Timestamp,
)
    requires
        is_selection(r, room, lookup, actor, now),
    ensures
        r is Ok <==> lookup is Found,
        lookup matches MediaLookup::Found { media_id, file_name } ==> (r->Ok_0 matches
            CommandEffect::Update { room: updated, event } && updated.media_id == Some(media_id)
            && updated.media_title == Some(file_name) && updated.clock@.status
            == PlaybackStatus::Paused && updated.clock@.position_at(later) == 0
            && updated.clock@.playback_rate_micros == 1_000_000 && updated.id == room.id
            && updated.name == room.name && updated.created_at == room.created_at && (event matches
            ServerEvent::MediaChanged { room: shown, actor: who } && who@ == actor && shown.media_id
            == Some(media_id) && shown.media_title == Some(file_name)
            && shown.playback_state.position_nanos == 0)),
{
    lemma_units();
}

/// A new room is paused at the start.
pub proof fn law_new_room_is_paused_at_the_start(
    record: RoomRecord,
    id: u128,
    name: String,
    media_id: Option<u128>,
    media_title: Option<String>,
    now: Timestamp,
    later: Timestamp,
)
    requires
        is_new_room(record, id, name, media_id, media_title, now),
    ensures
        record.id == id && record.name == name && record.media_id == media_id && record.media_title
            == media_title,
        record.clock@.status == PlaybackStatus::Paused,
        record.clock@.position_at(later) == 0,
        record.clock@.playback_rate_micros == 1_000_000,
        record.created_at@ == now.rfc3339(),
{
}

/// Leaving takes out the participant of that identifier, and keeps every other one
/// as often as before, in the same order.
pub proof fn law_without_takes_out_one(list: Seq<Participant>, id: u128, p: Participant)
    ensures
        without_id(list, id).contains(p) <==> list.contains(p) && p.id != id,
        p.id != id ==> without_id(list, id).to_multiset().count(p) == list.to_multiset().count(p),
        without_id(list, id).len() <= list.len(),
    decreases list.len(),
{
    broadcast use vstd::seq_lib::group_to_multiset_ensures;

    reveal(Seq::filter);
    if list.len() > 0 {
        let before = list.drop_last();
        law_without_takes_out_one(before, id, p);
        assert(list =~= before.push(list.last()));
        assert(list.contains(p) <==> before.contains(p) || list.last() == p) by {
            if before.contains(p) {
                assert(list[before.index_of(p)] == p);
            }
            if list.contains(p) && list.last() != p {
                let k = list.index_of(p);
                assert(before[k] == p);
            }
        }
        let kept = without_id(before, id);
        if list.last().id != id {
            assert(without_id(list, id) =~= kept.push(list.last()));
            assert(kept.push(list.last()).contains(p) <==> kept.contains(p) || list.last() == p)
                by {
                if kept.contains(p) {
                    assert(kept.push(list.last())[kept.index_of(p)] == p);
                }
                if list.last() == p {
                    assert(kept.push(list.last())[kept.len() as int] == p);
                }
                if kept.push(list.last()).contains(p) && list.last() != p {
                    let k = kept.push(list.last()).index_of(p);
                    assert(kept[k] == p);
                }
            }
        } else {
            assert(without_id(list, id) =~= kept);
        }
    }
}

/// An update takes effect once it is stored, and then everyone is told. Where it could not
/// be stored the room stays as it was, and only the sender hears of it.
pub proof fn law_only_stored_updates_take_effect(
    before: RoomHub,
    after: RoomHub,
    room: RoomRecord,
    event: ServerEvent,
    stored: bool,
    r: Result<SocketDispatch, &'static str>,
)
    requires
        is_committed(before, after, room, event, stored, r),
    ensures
        stored ==> after.room == room && r == Ok::<SocketDispatch, &'static str>(
            SocketDispatch::Broadcast(event),
        ),
        !stored ==> after == before && r is Err,
        after.participants == before.participants && after.connection_count
            == before.connection_count,
{
}

/// A drift is noted of its sender alone, who stays who they are.
pub proof fn law_drift_is_noted_of_the_sender(
    before: RoomHub,
    after: RoomHub,
    id: u128,
    drift_nanos: i128,
    i: int,
)
    requires
        is_drift_noted(before, after, id, drift_nanos),
        0 <= i < before.participants@.len(),
    ensures
        after.participants@.len() == before.participants@.len(),
        after.participants@[i].id == before.participants@[i].id && after.participants@[i].name
            == before.participants@[i].name,
        before.participants@[i].id == id ==> after.participants@[i].drift_nanos == Some(drift_nanos),
        before.participants@[i].id != id ==> after.participants@[i].drift_nanos
            == before.participants@[i].drift_nanos,
{
}

/// A room is removed only while nobody is connected to it.
pub proof fn law_rooms_in_use_stay(hub: &RoomHub, r: bool)
    requires
        call_ensures(RoomHub::should_remove, (hub,), r),
    ensures
        hub.connection_count > 0 ==> !r,
        hub.connection_count == 0 ==> r,
{
}

/// Participants come by name, and those of one name by identifier.
pub proof fn law_participants_come_by_name(
    hub: &RoomHub,
    list: Vec<Participant>,
    i: int,
    j: int,
)
    requires
        call_ensures(RoomHub::participant_list, (hub,), list),
        0 <= i < j < list@.len(),
    ensures
        text_leq(list@[i].name@, list@[j].name@),
        list@[i].name@ == list@[j].name@ ==> list@[i].id <= list@[j].id,
        list@.to_multiset() == hub.participants@.to_multiset(),
{
    assert(participant_leq()(list@[i], list@[j]));
    lemma_text_leq_total(list@[i].name@, list@[j].name@);
}

/// A room that starts, and one that is restored, has nobody in it; one that is restored is
/// removed if that stays so.
pub proof fn law_rooms_start_empty(room: RoomRecord, fresh: RoomHub, restored: RoomHub)
    requires
        call_ensures(RoomHub::new, (room,), fresh),
        call_ensures(RoomHub::restored, (room,), restored),
    ensures
        fresh.room == room && restored.room == room,
        fresh.participants@.len() == 0 && restored.participants@.len() == 0,
        fresh.connection_count == 0 && restored.connection_count == 0,
        !fresh.cleanup_scheduled && restored.cleanup_scheduled,
{
}

/// A seek leaves a room playing or paused as it was: a paused one is paused at the named
/// position at every later moment.
pub proof fn law_seeking_neither_starts_nor_pauses(
    room: &RoomRecord,
    nanos: i128,
    client_one_way_ms: Option<u32>,
    actor: &str,
    now: Timestamp,
    r: Result<CommandEffect, &'static str>,
    later: Timestamp,
)
    requires
        0 <= nanos <= 100_000_000_000_000_000_000,
        call_ensures(
            apply_socket_message,
            (
                room,
                ClientSocketMessage::Seek {
                    position: ReportedPosition::Finite(nanos),
                    client_one_way_ms,
                },
                actor,
                now,
            ),
            r,
        ),
    ensures
        r matches Ok(effect) && (effect matches CommandEffect::Update { room: updated, event }
            && updated.clock@.status == room.clock@.status && updated.clock@.playback_rate_micros
            == room.clock@.playback_rate_micros && (room.clock@.status == PlaybackStatus::Paused
            ==> -50_000_000 <= updated.clock@.position_at(later) - nanos <= 50_000_000)),
{
    law_seek_command_keeps_status(r, *room, nanos, client_one_way_ms, actor@, now, later);
}

} // verus!
