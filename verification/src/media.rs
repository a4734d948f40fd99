//! The media controls of the desktop: what they ask of the player, and what the player
//! tells them.

use crate::binary64::{Binary64, INFINITY, SECONDS_LIMIT, SIGN};
use crate::state::{
    audio_is_playing, lemma_last_controls_are_told, AudioState, PlayerStatus, StateChange,
};
use core::time::Duration;
use vstd::prelude::*;

verus! {

/// Seconds by which the controls seek forward or backward.
pub const SEEK_STEP_SECS: i32 = 10;

#[derive(Clone, Copy, Debug, PartialEq, Eq, Structural)]
pub enum SeekDirection {
    Forward,
    Backward,
}

/// What the media controls ask for.
#[derive(Debug)]
pub enum ControlEvent {
    Play,
    Pause,
    Toggle,
    Next,
    Previous,
    SetPosition(Duration),
    Seek(SeekDirection),
    /// Anything else; the player does not offer it.
    Other,
}

/// What an event carries.
#[derive(Debug)]
pub enum Payload {
    Nothing,
    /// A position in the track; it is told in seconds.
    Position(Duration),
    /// A number of seconds, forward or, below zero, backward.
    Offset(i32),
}

/// An event for the user interface.
#[derive(Debug)]
pub struct Emission {
    pub event: &'static str,
    pub payload: Payload,
}

/// The event that tells the user interface what the media controls ask for, if the
/// player offers it.
pub fn control_emission(asked: ControlEvent) -> (r: Option<Emission>)
    ensures
        match asked {
            ControlEvent::Play => is_bare(r, "media:play"@),
            ControlEvent::Pause => is_bare(r, "media:pause"@),
            ControlEvent::Toggle => is_bare(r, "media:toggle"@),
            ControlEvent::Next => is_bare(r, "media:next"@),
            ControlEvent::Previous => is_bare(r, "media:prev"@),
            ControlEvent::SetPosition(position) => {
                &&& r is Some
                &&& r->0.event@ == "media:seek"@
                &&& r->0.payload == Payload::Position(position)
            },
            ControlEvent::Seek(direction) => {
                &&& r is Some
                &&& r->0.event@ == "media:seek-relative"@
                &&& r->0.payload == Payload::Offset(seek_offset(direction))
                &&& r->0.payload is Offset
                &&& direction is Forward ==> r->0.payload->Offset_0 == 10
                &&& direction is Backward ==> r->0.payload->Offset_0 == -10
            },
            ControlEvent::Other => r is None,
        },
        asked is Play ==> r is Some && r->0.event@ == "media:play"@,
        asked is Pause ==> r is Some && r->0.event@ == "media:pause"@,
        asked is Toggle ==> r is Some && r->0.event@ == "media:toggle"@,
        asked is Next ==> r is Some && r->0.event@ == "media:next"@,
        asked is Previous ==> r is Some && r->0.event@ == "media:prev"@,
        r is Some && r->0.payload is Position <==> asked is SetPosition,
        r is Some && r->0.payload is Offset <==> asked is Seek,
        emission_view(r) == emission_spec(asked),
{
    match asked {
        ControlEvent::Play => Some(Emission { event: "media:play", payload: Payload::Nothing }),
        ControlEvent::Pause => Some(Emission { event: "media:pause", payload: Payload::Nothing }),
        ControlEvent::Toggle => Some(Emission { event: "media:toggle", payload: Payload::Nothing }),
        ControlEvent::Next => Some(Emission { event: "media:next", payload: Payload::Nothing }),
        ControlEvent::Previous => Some(Emission { event: "media:prev", payload: Payload::Nothing }),
        ControlEvent::SetPosition(position) => Some(
            Emission { event: "media:seek", payload: Payload::Position(position) },
        ),
        ControlEvent::Seek(direction) => {
            let offset: i32 = match direction {
                SeekDirection::Forward => SEEK_STEP_SECS,
                SeekDirection::Backward => -SEEK_STEP_SECS,
            };
            Some(Emission { event: "media:seek-relative", payload: Payload::Offset(offset) })
        },
        ControlEvent::Other => None,
    }
}

/// The name and the payload of an event.
pub open spec fn emission_view(emission: Option<Emission>) -> Option<(Seq<char>, Payload)> {
    match emission {
        Some(e) => Some((e.event@, e.payload)),
        None => None,
    }
}

/// The event that tells what the media controls ask for.
pub open spec fn emission_spec(asked: ControlEvent) -> Option<(Seq<char>, Payload)> {
    match asked {
        ControlEvent::Play => Some(("media:play"@, Payload::Nothing)),
        ControlEvent::Pause => Some(("media:pause"@, Payload::Nothing)),
        ControlEvent::Toggle => Some(("media:toggle"@, Payload::Nothing)),
        ControlEvent::Next => Some(("media:next"@, Payload::Nothing)),
        ControlEvent::Previous => Some(("media:prev"@, Payload::Nothing)),
        ControlEvent::SetPosition(position) => Some(("media:seek"@, Payload::Position(position))),
        ControlEvent::Seek(direction) => Some(
            ("media:seek-relative"@, Payload::Offset(seek_offset(direction))),
        ),
        ControlEvent::Other => None,
    }
}

/// An event of this name that carries nothing.
pub open spec fn is_bare(emission: Option<Emission>, event: Seq<char>) -> bool {
    emission is Some && emission->0.event@ == event && emission->0.payload is Nothing
}

/// The seconds that a direction stands for.
pub open spec fn seek_offset(direction: SeekDirection) -> i32 {
    match direction {
        SeekDirection::Forward => SEEK_STEP_SECS,
        SeekDirection::Backward => (-SEEK_STEP_SECS) as i32,
    }
}

/// A message to the media controls.
#[derive(Debug)]
pub enum MediaCmd {
    SetMetadata {
        title: String,
        artist: String,
        cover_url: Option<String>,
        duration_secs: Binary64,
    },
    SetPlaying(bool),
    /// A position, in seconds.
    SetPosition(Binary64),
}

impl MediaCmd {
    /// Every number of seconds that the controls will be told is one that a duration
    /// can hold.
    pub open spec fn fits_durations_spec(self) -> bool {
        match self {
            MediaCmd::SetMetadata { duration_secs, .. } => duration_secs.is_nan_spec()
                || duration_secs.rank() <= 0 || duration_secs.is_duration_spec(),
            MediaCmd::SetPlaying(_) => true,
            MediaCmd::SetPosition(secs) => secs.is_duration_spec(),
        }
    }

    /// Whether [`media_action`] takes the message.
    pub fn fits_durations(&self) -> (r: bool)
        ensures
            r == self.fits_durations_spec(),
            self is SetPlaying ==> r,
            self is SetPosition ==> (r <==> self->SetPosition_0.is_duration_spec()),
            self is SetMetadata ==> (r <==> !(SECONDS_LIMIT <= self->duration_secs.bits
                <= INFINITY)),
    {
        match self {
            MediaCmd::SetMetadata { duration_secs, .. } => !duration_secs.is_positive()
                || duration_secs.is_duration(),
            MediaCmd::SetPlaying(_) => true,
            MediaCmd::SetPosition(secs) => secs.is_duration(),
        }
    }
}

/// A position to show.
#[derive(Debug)]
pub enum Progress {
    /// The start of the track.
    Start,
    Position(Duration),
    /// A number of seconds that a duration can hold.
    Seconds(Binary64),
}

/// What the media controls are to show.
#[derive(Debug)]
pub enum MediaAction {
    Metadata {
        title: String,
        artist: String,
        cover_url: Option<String>,
        /// The length in seconds, where it is known.
        duration_secs: Option<Binary64>,
    },
    Playback { playing: bool, progress: Progress },
}

/// The player as it was found when a message was handled.
#[derive(Debug)]
pub struct PlayerReading {
    pub position: Duration,
    pub status: PlayerStatus,
}

/// The position of a player, or the start without one.
pub open spec fn reading_progress(reading: Option<PlayerReading>) -> Progress {
    match reading {
        Some(found) => Progress::Position(found.position),
        None => Progress::Start,
    }
}

/// Whether a player was found playing.
pub open spec fn reading_plays(reading: Option<PlayerReading>) -> bool {
    reading is Some && !reading->0.status.paused && !reading->0.status.empty
}

/// What the media controls are to show upon a message.
pub open spec fn media_action_spec(cmd: MediaCmd, reading: Option<PlayerReading>) -> MediaAction {
    match cmd {
        MediaCmd::SetMetadata { title, artist, cover_url, duration_secs } => MediaAction::Metadata {
            title,
            artist,
            cover_url,
            duration_secs: if !duration_secs.is_nan_spec() && duration_secs.rank() > 0 {
                Some(duration_secs)
            } else {
                None
            },
        },
        MediaCmd::SetPlaying(playing) => MediaAction::Playback {
            playing,
            progress: reading_progress(reading),
        },
        MediaCmd::SetPosition(secs) => MediaAction::Playback {
            playing: reading_plays(reading),
            progress: Progress::Seconds(secs),
        },
    }
}

/// What the media controls are to show upon a message. A length that is not above zero
/// is not known. A new position leaves it at whether the track plays, and a change of
/// that leaves it at the position.
pub fn media_action(cmd: MediaCmd, reading: Option<PlayerReading>) -> (r: MediaAction)
    requires
        cmd.fits_durations_spec(),
    ensures
        r == media_action_spec(cmd, reading),
        cmd is SetMetadata ==> {
            &&& r is Metadata
            &&& r->Metadata_title == cmd->title
            &&& r->Metadata_artist == cmd->artist
            &&& r->Metadata_cover_url == cmd->cover_url
            &&& r->Metadata_duration_secs is Some <==> 0 < cmd->SetMetadata_duration_secs.bits
                <= INFINITY
            &&& r->Metadata_duration_secs is Some ==> r->Metadata_duration_secs->0
                == cmd->SetMetadata_duration_secs
        },
        cmd is SetPlaying ==> {
            &&& r is Playback
            &&& r->playing == cmd->SetPlaying_0
            &&& reading is Some ==> r->progress == Progress::Position(reading->0.position)
            &&& reading is None ==> r->progress is Start
        },
        cmd is SetPosition ==> {
            &&& r is Playback
            &&& r->progress == Progress::Seconds(cmd->SetPosition_0)
            &&& r->playing <==> reading is Some && !reading->0.status.paused
                && !reading->0.status.empty
        },
{
    match cmd {
        MediaCmd::SetMetadata { title, artist, cover_url, duration_secs } => {
            let known = if duration_secs.is_positive() {
                Some(duration_secs)
            } else {
                None
            };
            MediaAction::Metadata { title, artist, cover_url, duration_secs: known }
        },
        MediaCmd::SetPlaying(playing) => {
            let progress = match reading {
                Some(found) => Progress::Position(found.position),
                None => Progress::Start,
            };
            MediaAction::Playback { playing, progress }
        },
        MediaCmd::SetPosition(secs) => {
            let status = match reading {
                Some(found) => Some(found.status),
                None => None,
            };
            MediaAction::Playback {
                playing: audio_is_playing(status),
                progress: Progress::Seconds(secs),
            }
        },
    }
}

/// Where the thread that talks to the media controls stands.
#[derive(Clone, Copy, Debug, PartialEq, Eq, Structural)]
pub enum MediaThread {
    /// The controls are being asked for.
    Starting,
    /// The controls are there; the thread waits for a message.
    Serving,
    /// The thread has come to its end.
    Stopped,
}

/// What has happened to the thread.
#[derive(Debug)]
pub enum MediaEvent {
    /// The controls are there.
    Attached,
    /// There are no controls to be had.
    Unavailable,
    /// A message has come, and the player was found like this.
    Message(MediaCmd, Option<PlayerReading>),
    /// There will be no more messages.
    Disconnected,
}

/// What the thread has to do.
#[derive(Debug)]
pub enum MediaStep {
    /// Wait for a message.
    Wait,
    /// Have the controls show this, and wait for a message.
    Show(MediaAction),
    /// End without controls.
    GiveUp,
    Exit,
}

impl MediaThread {
    /// Whether an event can come at this point.
    pub open spec fn expects_spec(self, event: MediaEvent) -> bool {
        match self {
            MediaThread::Starting => event is Attached || event is Unavailable,
            MediaThread::Serving => event is Message || event is Disconnected,
            MediaThread::Stopped => false,
        }
    }

    /// Where the thread stands after an event that it expects.
    pub open spec fn next_state(self, event: MediaEvent) -> MediaThread {
        if event is Attached || event is Message {
            MediaThread::Serving
        } else {
            MediaThread::Stopped
        }
    }

    /// What the thread does upon an event that it expects.
    pub open spec fn next_step(self, event: MediaEvent) -> MediaStep {
        match event {
            MediaEvent::Attached => MediaStep::Wait,
            MediaEvent::Unavailable => MediaStep::GiveUp,
            MediaEvent::Message(cmd, reading) => MediaStep::Show(media_action_spec(cmd, reading)),
            MediaEvent::Disconnected => MediaStep::Exit,
        }
    }

    /// Takes an event in, and says what to do.
    pub fn step(self, event: MediaEvent) -> (r: (MediaThread, MediaStep))
        requires
            self.expects_spec(event),
            event is Message ==> event->Message_0.fits_durations_spec(),
        ensures
            r.0 == self.next_state(event),
            r.1 == self.next_step(event),
            event is Attached ==> r.0 is Serving && r.1 is Wait,
            event is Unavailable ==> r.0 is Stopped && r.1 is GiveUp,
            event is Message ==> r.0 is Serving && r.1 is Show && r.1->Show_0 == media_action_spec(
                event->Message_0,
                event->Message_1,
            ),
            event is Disconnected ==> r.0 is Stopped && r.1 is Exit,
    {
        match event {
            MediaEvent::Attached => (MediaThread::Serving, MediaStep::Wait),
            MediaEvent::Unavailable => (MediaThread::Stopped, MediaStep::GiveUp),
            MediaEvent::Message(cmd, reading) => (
                MediaThread::Serving,
                MediaStep::Show(media_action(cmd, reading)),
            ),
            MediaEvent::Disconnected => (MediaThread::Stopped, MediaStep::Exit),
        }
    }

    /// Where the thread stands after a run of events.
    pub open spec fn after_all(self, events: Seq<MediaEvent>) -> MediaThread
        decreases events.len(),
    {
        if events.len() == 0 {
            self
        } else {
            self.after_all(events.drop_last()).next_state(events.last())
        }
    }

    /// Whether the thread expects the events of a run, each in its turn.
    pub open spec fn expects_all(self, events: Seq<MediaEvent>) -> bool
        decreases events.len(),
    {
        events.len() == 0 || (self.expects_all(events.drop_last()) && self.after_all(
            events.drop_last(),
        ).expects_spec(events.last()))
    }

    /// What the controls are made to show in a run of events, in order.
    pub open spec fn shown(self, events: Seq<MediaEvent>) -> Seq<MediaAction>
        decreases events.len(),
    {
        if events.len() == 0 {
            Seq::empty()
        } else {
            let before = self.shown(events.drop_last());
            match self.after_all(events.drop_last()).next_step(events.last()) {
                MediaStep::Show(action) => before.push(action),
                _ => before,
            }
        }
    }
}

/// The messages of a run of events, in order, each with the player as it was found.
pub open spec fn messages(events: Seq<MediaEvent>) -> Seq<(MediaCmd, Option<PlayerReading>)>
    decreases events.len(),
{
    if events.len() == 0 {
        Seq::empty()
    } else {
        match events.last() {
            MediaEvent::Message(cmd, reading) => messages(events.drop_last()).push((cmd, reading)),
            _ => messages(events.drop_last()),
        }
    }
}

/// Each message is shown by the controls, once, in the order in which they came; nothing
/// else is.
pub proof fn lemma_messages_are_shown_in_order(events: Seq<MediaEvent>)
    requires
        MediaThread::Starting.expects_all(events),
    ensures
        MediaThread::Starting.shown(events) == messages(events).map_values(
            |m: (MediaCmd, Option<PlayerReading>)| media_action_spec(m.0, m.1),
        ),
    decreases events.len(),
{
    if events.len() > 0 {
        lemma_messages_are_shown_in_order(events.drop_last());
    }
}

/// The thread serves until there will be no more messages, and then ends; without controls
/// it ends before the first one.
pub proof fn lemma_media_thread_ends(events: Seq<MediaEvent>)
    requires
        MediaThread::Starting.expects_all(events),
    ensures
        MediaThread::Starting.after_all(events) is Stopped <==> events.len() > 0 && (
        events.last() is Disconnected || events.last() is Unavailable),
        events.len() > 0 && events.last() is Unavailable ==> events.len() == 1,
        MediaThread::Serving.next_step(MediaEvent::Disconnected) == MediaStep::Exit,
    decreases events.len(),
{
    if events.len() > 0 {
        lemma_media_thread_ends(events.drop_last());
    }
}

/// Connects the media controls: messages go to `tx` from now on.
pub fn start_media_controls<P, M, T>(state: &mut AudioState<P, M, T>, tx: T)
    ensures
        *final(state) == (AudioState { media_tx: Some(tx), ..*old(state) }),
        *final(state) == old(state).after(StateChange::AttachMedia(tx)),
        old(state).wf() ==> final(state).wf(),
{
    state.media_tx = Some(tx);
}

/// A message for the media controls, where they are connected.
pub open spec fn message_spec<P, M, T>(state: AudioState<P, M, T>, cmd: MediaCmd) -> Option<
    MediaCmd,
> {
    if state.media_tx is Some {
        Some(cmd)
    } else {
        None
    }
}

/// Tells the media controls about the track. Returns the message, where they are
/// connected.
pub fn audio_set_metadata<P, M, T>(
    state: &AudioState<P, M, T>,
    title: String,
    artist: String,
    cover_url: Option<String>,
    duration_secs: Binary64,
) -> (r: Option<MediaCmd>)
    ensures
        r == if state.media_tx is Some {
            Some(MediaCmd::SetMetadata { title, artist, cover_url, duration_secs })
        } else {
            None
        },
        r == message_spec(
            *state,
            (MediaCmd::SetMetadata { title, artist, cover_url, duration_secs }),
        ),
{
    if state.media_tx.is_some() {
        Some(MediaCmd::SetMetadata { title, artist, cover_url, duration_secs })
    } else {
        None
    }
}

/// Tells the media controls whether the track plays. Returns the message, where they
/// are connected.
pub fn audio_set_playback_state<P, M, T>(state: &AudioState<P, M, T>, playing: bool) -> (r: Option<
    MediaCmd,
>)
    ensures
        r == if state.media_tx is Some {
            Some(MediaCmd::SetPlaying(playing))
        } else {
            None
        },
        r == message_spec(*state, MediaCmd::SetPlaying(playing)),
{
    if state.media_tx.is_some() {
        Some(MediaCmd::SetPlaying(playing))
    } else {
        None
    }
}

/// Tells the media controls the position, in seconds. Returns the message, where they
/// are connected.
pub fn audio_set_media_position<P, M, T>(
    state: &AudioState<P, M, T>,
    position: Binary64,
) -> (r: Option<MediaCmd>)
    ensures
        r == if state.media_tx is Some {
            Some(MediaCmd::SetPosition(position))
        } else {
            None
        },
        r == message_spec(*state, MediaCmd::SetPosition(position)),
{
    if state.media_tx.is_some() {
        Some(MediaCmd::SetPosition(position))
    } else {
        None
    }
}

/// Metadata is shown as it was told, whatever the player does: the same title, the same
/// artist, the same cover, and the length wherever it is above zero.
pub proof fn lemma_metadata_is_shown_as_told(
    title: String,
    artist: String,
    cover_url: Option<String>,
    duration_secs: Binary64,
    reading: Option<PlayerReading>,
)
    ensures
        ({
            let cmd = MediaCmd::SetMetadata { title, artist, cover_url, duration_secs };
            let r = media_action_spec(cmd, reading);
            &&& r is Metadata
            &&& r->Metadata_title == title
            &&& r->Metadata_artist == artist
            &&& r->Metadata_cover_url == cover_url
            &&& 0 < duration_secs.bits <= INFINITY ==> r->Metadata_duration_secs == Some(
                duration_secs,
            )
            &&& !(0 < duration_secs.bits <= INFINITY) ==> r->Metadata_duration_secs is None
        }),
{
}

/// Whether the track plays is shown as it was told, at the position of the player or at the
/// start without one.
pub proof fn lemma_playing_is_shown_as_told(playing: bool, reading: Option<PlayerReading>)
    ensures
        ({
            let r = media_action_spec(MediaCmd::SetPlaying(playing), reading);
            &&& r is Playback
            &&& r->playing == playing
            &&& reading is Some ==> r->progress == Progress::Position(reading->0.position)
            &&& reading is None ==> r->progress is Start
        }),
{
}

/// A position is shown as it was told, and the track as playing exactly where there is a
/// player that is neither paused nor at its end.
pub proof fn lemma_position_is_shown_as_told(secs: Binary64, reading: Option<PlayerReading>)
    ensures
        ({
            let r = media_action_spec(MediaCmd::SetPosition(secs), reading);
            &&& r is Playback
            &&& r->progress == Progress::Seconds(secs)
            &&& r->playing <==> reading is Some && !reading->0.status.paused
                && !reading->0.status.empty
        }),
{
}

/// Seeking forward and backward goes ten seconds, either way.
pub proof fn lemma_seeks_are_opposite()
    ensures
        seek_offset(SeekDirection::Forward) == 10,
        seek_offset(SeekDirection::Backward) == -seek_offset(SeekDirection::Forward),
{
}

/// The message `i` of those that came is the one that is shown in the place `i`: metadata with
/// its title, its artist and its cover, and playback with what was told of it.
pub proof fn lemma_each_message_is_shown(events: Seq<MediaEvent>, i: int)
    requires
        MediaThread::Starting.expects_all(events),
        0 <= i < messages(events).len(),
    ensures
        MediaThread::Starting.shown(events).len() == messages(events).len(),
        ({
            let (cmd, shown) = (messages(events)[i].0, MediaThread::Starting.shown(events)[i]);
            &&& cmd matches MediaCmd::SetMetadata { title, artist, cover_url, .. } ==> {
                &&& shown is Metadata
                &&& shown->Metadata_title == title
                &&& shown->Metadata_artist == artist
                &&& shown->Metadata_cover_url == cover_url
            }
            &&& cmd matches MediaCmd::SetPlaying(playing) ==> shown is Playback && shown->playing
                == playing
            &&& cmd matches MediaCmd::SetPosition(secs) ==> shown is Playback && shown->progress
                == Progress::Seconds(secs)
        }),
{
    lemma_messages_are_shown_in_order(events);
}

/// Once the media controls are connected every message is sent to them as it is, whatever
/// happened since; before that none is.
pub proof fn lemma_messages_reach_the_controls<P, M, T>(
    state: AudioState<P, M, T>,
    changes: Seq<StateChange<P, M, T>>,
    i: int,
    tx: T,
    cmd: MediaCmd,
)
    requires
        0 <= i < changes.len(),
        changes[i] == StateChange::<P, M, T>::AttachMedia(tx),
        forall|j: int| i < j < changes.len() ==> !((#[trigger] changes[j]) is AttachMedia),
    ensures
        message_spec(state.after_all(changes), cmd) == Some(cmd),
        state.media_tx is None ==> message_spec(state, cmd) is None,
{
    lemma_last_controls_are_told(state, changes, i, tx);
}

/// The user interface can tell apart what the media controls ask for: the same event means
/// the same request, with the position or the direction that was asked for; and it is told of
/// everything that the player offers.
pub proof fn lemma_events_tell_requests_apart(a: ControlEvent, b: ControlEvent)
    ensures
        emission_spec(a) is None <==> a is Other,
        emission_spec(a) == emission_spec(b) ==> a == b,
        a matches ControlEvent::SetPosition(position) ==> emission_spec(a) == Some(
            ("media:seek"@, Payload::Position(position)),
        ),
{
    reveal_strlit("media:play");
    reveal_strlit("media:pause");
    reveal_strlit("media:toggle");
    reveal_strlit("media:next");
    reveal_strlit("media:prev");
    reveal_strlit("media:seek");
    reveal_strlit("media:seek-relative");
    assert("media:play"@.len() == 10 && "media:play"@[7] == 'l');
    assert("media:pause"@.len() == 11);
    assert("media:toggle"@.len() == 12);
    assert("media:next"@.len() == 10 && "media:next"@[6] == 'n');
    assert("media:prev"@.len() == 10 && "media:prev"@[7] == 'r');
    assert("media:seek"@.len() == 10 && "media:seek"@[6] == 's');
    assert("media:seek-relative"@.len() == 19);
    assert("media:play"@[6] == 'p' && "media:prev"@[6] == 'p');
}

/// The thread takes whatever can come: the controls may be there or not, and once they are,
/// any message may come at any time, or the end.
pub proof fn lemma_media_thread_takes_what_comes(
    events: Seq<MediaEvent>,
    cmd: MediaCmd,
    reading: Option<PlayerReading>,
)
    requires
        MediaThread::Starting.expects_all(events),
        events.len() > 0,
        events.last() is Attached || events.last() is Message,
    ensures
        MediaThread::Starting.expects_spec(MediaEvent::Attached),
        MediaThread::Starting.expects_spec(MediaEvent::Unavailable),
        MediaThread::Starting.after_all(events).expects_spec(MediaEvent::Message(cmd, reading)),
        MediaThread::Starting.after_all(events).expects_spec(MediaEvent::Disconnected),
{
}

/// The media controls can be told every number of seconds that a duration can hold, and any
/// length that is not shown.
pub proof fn lemma_what_can_be_told(cmd: MediaCmd)
    ensures
        cmd matches MediaCmd::SetPlaying(_) ==> cmd.fits_durations_spec(),
        cmd matches MediaCmd::SetPosition(secs) ==> (cmd.fits_durations_spec() <==> secs.bits
            < SECONDS_LIMIT || secs.bits == SIGN),
        cmd matches MediaCmd::SetMetadata { duration_secs, .. } ==> (cmd.fits_durations_spec()
            <==> !(SECONDS_LIMIT <= duration_secs.bits <= INFINITY)),
{
}

} // verus!
