//! What the player remembers between two commands.

use crate::binary64::{distance, lemma_units_by_exponent, Binary64, INFINITY, SIGN};
use vstd::prelude::*;

verus! {

/// Milliseconds between two looks at the player.
pub const TICK_INTERVAL_MS: u64 = 100;

/// 0.25, the volume at the start.
pub const START_VOLUME: u64 = 0x3fd0_0000_0000_0000;

/// 2, the highest volume; 1 is the volume of the recording.
pub const MAX_VOLUME: u64 = 0x4000_0000_0000_0000;

/// The state of the player. `P` is a player that plays one track, `M` the mixer of
/// the output device, and `T` the way to the media controls.
#[derive(Debug)]
pub struct AudioState<P, M, T> {
    pub player: Option<P>,
    pub mixer: M,
    /// From 0 to 2.
    pub volume: Binary64,
    pub has_track: bool,
    /// Whether the end of the track has been told.
    pub ended_notified: bool,
    /// Counts the times that playback was stopped. A track that was on its way
    /// meanwhile is no longer wanted.
    pub load_gen: u64,
    pub media_tx: Option<T>,
}

/// An order to a player.
#[derive(Clone, Copy, Debug, PartialEq, Eq, Structural)]
pub enum PlayerCommand {
    Play,
    Pause,
    /// Go to a position, in seconds from the start.
    Seek(Binary64),
    SetVolume(Binary64),
}

/// What a look at the player has to tell.
#[derive(Clone, Copy, Debug, PartialEq, Eq, Structural)]
pub enum Tick {
    Nothing,
    /// The track has come to its end.
    Ended,
    /// The track plays on; its position is told.
    Position,
}

/// What can be seen of a player.
#[derive(Clone, Copy, Debug, PartialEq, Eq, Structural)]
pub struct PlayerStatus {
    pub paused: bool,
    /// Nothing is left to play.
    pub empty: bool,
}

/// A volume that a player can be given: a number from 0 to 2.
pub open spec fn volume_in_range(volume: Binary64) -> bool {
    !volume.is_nan_spec() && 0 <= volume.rank() <= MAX_VOLUME
}

/// The volume that is set of a volume that was asked for. What is not a number counts
/// as too loud.
pub open spec fn kept_volume(volume: Binary64) -> Binary64 {
    if volume.is_nan_spec() || volume.rank() > MAX_VOLUME {
        Binary64 { bits: MAX_VOLUME }
    } else if volume.rank() < 0 {
        Binary64 { bits: 0 }
    } else {
        volume
    }
}

impl<P, M, T> AudioState<P, M, T> {
    /// There is a track exactly while there is a player, and the volume is in range.
    pub open spec fn wf(self) -> bool {
        (self.has_track <==> self.player is Some) && volume_in_range(self.volume)
    }

    /// The state once playback has been stopped.
    pub open spec fn after_stop(self) -> Self {
        AudioState {
            player: None,
            has_track: false,
            load_gen: if self.load_gen == u64::MAX {
                0
            } else {
                (self.load_gen + 1) as u64
            },
            ..self
        }
    }

    /// The state once `player` has taken over.
    pub open spec fn after_install(self, player: P) -> Self {
        AudioState { player: Some(player), has_track: true, ended_notified: false, ..self }
    }

    /// What a look at the player tells, where `empty` says of the player that nothing
    /// is left to play.
    pub open spec fn tick_spec(self, empty: bool) -> Tick {
        if !self.has_track || self.player is None {
            Tick::Nothing
        } else if !empty {
            Tick::Position
        } else if self.ended_notified {
            Tick::Nothing
        } else {
            Tick::Ended
        }
    }

    /// The state once a look has been taken at the player.
    pub open spec fn after_tick(self, empty: bool) -> Self {
        AudioState {
            ended_notified: self.ended_notified || self.tick_spec(empty) == Tick::Ended,
            ..self
        }
    }

    /// An order for the player there is, if any.
    pub open spec fn order(self, command: PlayerCommand) -> Option<PlayerCommand> {
        if self.player is Some {
            Some(command)
        } else {
            None
        }
    }
}

/// The state at the start, on the mixer of an open device: no track, and the volume
/// at 0.25.
pub fn init<P, M, T>(mixer: M) -> (r: AudioState<P, M, T>)
    ensures
        r.wf(),
        r.player is None,
        r.mixer == mixer,
        r.volume.bits == START_VOLUME,
        !r.has_track,
        !r.ended_notified,
        r.load_gen == 0,
        r.media_tx is None,
{
    AudioState {
        player: None,
        mixer,
        volume: Binary64 { bits: START_VOLUME },
        has_track: false,
        ended_notified: false,
        load_gen: 0,
        media_tx: None,
    }
}

/// Takes a look at the player. `empty` says whether the player that there is has
/// nothing left to play; without a player it is of no account.
pub fn tick<P, M, T>(state: &mut AudioState<P, M, T>, empty: bool) -> (r: Tick)
    ensures
        r == old(state).tick_spec(empty),
        *final(state) == old(state).after_tick(empty),
        *final(state) == old(state).after(StateChange::Tick(empty)),
        r is Ended <==> old(state).has_track && old(state).player is Some && empty && !old(
            state,
        ).ended_notified,
        r is Position <==> old(state).has_track && old(state).player is Some && !empty,
        final(state).ended_notified == (old(state).ended_notified || r is Ended),
        final(state).player == old(state).player,
        final(state).mixer == old(state).mixer,
        final(state).volume == old(state).volume,
        final(state).has_track == old(state).has_track,
        final(state).load_gen == old(state).load_gen,
        final(state).media_tx == old(state).media_tx,
        old(state).wf() ==> final(state).wf(),
{
    if !state.has_track {
        return Tick::Nothing;
    }
    if state.player.is_none() {
        return Tick::Nothing;
    }
    if empty {
        let told: bool = state.ended_notified;
        state.ended_notified = true;
        if told {
            Tick::Nothing
        } else {
            Tick::Ended
        }
    } else {
        Tick::Position
    }
}

/// The event that a tick is told by: the end without a payload, the position with the
/// position of the player in seconds.
pub fn tick_event(tick: Tick) -> (r: Option<&'static str>)
    ensures
        match tick {
            Tick::Nothing => r is None,
            Tick::Ended => r is Some && r->0@ == "audio:ended"@,
            Tick::Position => r is Some && r->0@ == "audio:tick"@,
        },
{
    match tick {
        Tick::Nothing => None,
        Tick::Ended => Some("audio:ended"),
        Tick::Position => Some("audio:tick"),
    }
}

/// Puts a player with a new track in the place of the old one, which is handed out to
/// be stopped.
pub fn install<P, M, T>(state: &mut AudioState<P, M, T>, player: P) -> (r: Option<P>)
    ensures
        r == old(state).player,
        *final(state) == old(state).after_install(player),
        *final(state) == old(state).after(StateChange::Install(player)),
        final(state).player == Some(player),
        final(state).has_track,
        !final(state).ended_notified,
        final(state).mixer == old(state).mixer,
        final(state).volume == old(state).volume,
        final(state).load_gen == old(state).load_gen,
        final(state).media_tx == old(state).media_tx,
        old(state).wf() ==> final(state).wf(),
{
    let replaced = state.player.take();
    state.player = Some(player);
    state.has_track = true;
    state.ended_notified = false;
    replaced
}

/// Resumes playback. Returns the order for the player, where there is one.
pub fn audio_play<P, M, T>(state: &AudioState<P, M, T>) -> (r: Option<PlayerCommand>)
    ensures
        r == state.order(PlayerCommand::Play),
        state.player is Some ==> r == Some(PlayerCommand::Play),
        state.player is None ==> r is None,
{
    if state.player.is_some() {
        Some(PlayerCommand::Play)
    } else {
        None
    }
}

/// Holds playback. Returns the order for the player, where there is one.
pub fn audio_pause<P, M, T>(state: &AudioState<P, M, T>) -> (r: Option<PlayerCommand>)
    ensures
        r == state.order(PlayerCommand::Pause),
        state.player is Some ==> r == Some(PlayerCommand::Pause),
        state.player is None ==> r is None,
{
    if state.player.is_some() {
        Some(PlayerCommand::Pause)
    } else {
        None
    }
}

/// Ends playback and makes every track that is on its way unwanted. The player is
/// handed out to be stopped.
pub fn audio_stop<P, M, T>(state: &mut AudioState<P, M, T>) -> (r: Option<P>)
    ensures
        r == old(state).player,
        *final(state) == old(state).after_stop(),
        *final(state) == old(state).after(StateChange::Stop),
        final(state).player is None,
        !final(state).has_track,
        final(state).load_gen as int == if old(state).load_gen == u64::MAX {
            0
        } else {
            old(state).load_gen + 1
        },
        final(state).ended_notified == old(state).ended_notified,
        final(state).mixer == old(state).mixer,
        final(state).volume == old(state).volume,
        final(state).media_tx == old(state).media_tx,
        old(state).wf() ==> final(state).wf(),
{
    let stopped = state.player.take();
    state.has_track = false;
    state.load_gen = state.load_gen.wrapping_add(1);
    stopped
}

/// Goes to a position, in seconds. Returns the order for the player, where there is
/// one; only then does the position have to be one that a duration can hold.
pub fn audio_seek<P, M, T>(state: &AudioState<P, M, T>, position: Binary64) -> (r: Option<
    PlayerCommand,
>)
    requires
        state.player is Some ==> position.is_duration_spec(),
    ensures
        r == state.order(PlayerCommand::Seek(position)),
        state.player is Some ==> r == Some(PlayerCommand::Seek(position)),
        state.player is None ==> r is None,
{
    if state.player.is_some() {
        Some(PlayerCommand::Seek(position))
    } else {
        None
    }
}

/// The volume for a player, from 0 to 2. `volume` is the hundredth part of the number on
/// the listener's scale, which goes from 0 to 200.
pub fn volume_to_rodio(volume: Binary64) -> (r: Binary64)
    ensures
        r == kept_volume(volume),
        volume_in_range(r),
        volume.bits <= MAX_VOLUME || volume.bits == SIGN ==> r == volume,
        MAX_VOLUME < volume.bits < SIGN || volume.bits > SIGN + INFINITY ==> r.bits == MAX_VOLUME,
        SIGN < volume.bits <= SIGN + INFINITY ==> r.bits == 0,
{
    let loudest = Binary64 { bits: MAX_VOLUME };
    let silent = Binary64 { bits: 0 };
    if volume.is_nan() || loudest.less_than(&volume) {
        loudest
    } else if volume.less_than(&silent) {
        silent
    } else {
        volume
    }
}

/// Sets the volume, for the player there is and for those to come. `volume` is the
/// hundredth part of the number on the listener's scale, which goes from 0 to 200.
pub fn audio_set_volume<P, M, T>(state: &mut AudioState<P, M, T>, volume: Binary64) -> (r: Option<
    PlayerCommand,
>)
    ensures
        *final(state) == old(state).after(StateChange::SetVolume(volume)),
        final(state).volume == kept_volume(volume),
        volume_in_range(final(state).volume),
        volume_in_range(volume) ==> final(state).volume == volume,
        final(state).player == old(state).player,
        final(state).mixer == old(state).mixer,
        final(state).has_track == old(state).has_track,
        final(state).ended_notified == old(state).ended_notified,
        final(state).load_gen == old(state).load_gen,
        final(state).media_tx == old(state).media_tx,
        r == old(state).order(PlayerCommand::SetVolume(kept_volume(volume))),
        old(state).player is Some ==> r == Some(PlayerCommand::SetVolume(final(state).volume)),
        old(state).player is None ==> r is None,
        old(state).wf() ==> final(state).wf(),
{
    let kept = volume_to_rodio(volume);
    state.volume = kept;
    if state.player.is_some() {
        Some(PlayerCommand::SetVolume(kept))
    } else {
        None
    }
}

/// The position of the track, in seconds: that of the player, or 0 without one.
pub fn audio_get_position(position: Option<Binary64>) -> (r: Binary64)
    ensures
        r == match position {
            Some(p) => p,
            None => Binary64 { bits: 0 },
        },
{
    match position {
        Some(p) => p,
        None => Binary64 { bits: 0 },
    }
}

/// Whether there is a player at work: neither paused nor at its end.
pub open spec fn is_playing_spec(status: Option<PlayerStatus>) -> bool {
    status is Some && !status->0.paused && !status->0.empty
}

/// Whether a track is playing, by what can be seen of the player, where there is one.
pub fn audio_is_playing(status: Option<PlayerStatus>) -> (r: bool)
    ensures
        r == is_playing_spec(status),
        r <==> status is Some && !status->0.paused && !status->0.empty,
{
    match status {
        Some(s) => !s.paused && !s.empty,
        None => false,
    }
}

/// A volume in range is set as it is, so setting it again changes nothing; and a volume
/// that is asked for as louder is not set as softer.
pub proof fn lemma_volume_is_kept(volume: Binary64, louder: Binary64)
    ensures
        volume_in_range(kept_volume(volume)),
        volume_in_range(volume) ==> kept_volume(volume) == volume,
        kept_volume(kept_volume(volume)) == kept_volume(volume),
        volume.lt_spec(louder) ==> kept_volume(volume).rank() <= kept_volume(louder).rank(),
{
}

/// One change of the state.
pub enum StateChange<P, M, T> {
    /// A look at the player, which has nothing left to play or has.
    Tick(bool),
    Install(P),
    Stop,
    SetVolume(Binary64),
    SetMixer(M),
    AttachMedia(T),
}

impl<P, M, T> AudioState<P, M, T> {
    /// The state after one change.
    pub open spec fn after(self, change: StateChange<P, M, T>) -> Self {
        match change {
            StateChange::Tick(empty) => self.after_tick(empty),
            StateChange::Install(player) => self.after_install(player),
            StateChange::Stop => self.after_stop(),
            StateChange::SetVolume(volume) => AudioState { volume: kept_volume(volume), ..self },
            StateChange::SetMixer(mixer) => AudioState { mixer, ..self },
            StateChange::AttachMedia(tx) => AudioState { media_tx: Some(tx), ..self },
        }
    }

    /// The state after a run of changes.
    pub open spec fn after_all(self, changes: Seq<StateChange<P, M, T>>) -> Self
        decreases changes.len(),
    {
        if changes.len() == 0 {
            self
        } else {
            self.after_all(changes.drop_last()).after(changes.last())
        }
    }

    /// How often the end of a track is told in a run of changes.
    pub open spec fn ends_told(self, changes: Seq<StateChange<P, M, T>>) -> nat
        decreases changes.len(),
    {
        if changes.len() == 0 {
            0
        } else {
            let before = self.after_all(changes.drop_last());
            let told: nat = match changes.last() {
                StateChange::Tick(empty) => if before.tick_spec(empty) == Tick::Ended {
                    1
                } else {
                    0
                },
                _ => 0,
            };
            self.ends_told(changes.drop_last()) + told
        }
    }
}

/// How often a run of changes stops playback.
pub open spec fn stops<P, M, T>(changes: Seq<StateChange<P, M, T>>) -> nat
    decreases changes.len(),
{
    if changes.len() == 0 {
        0
    } else {
        let one: nat = if changes.last() is Stop {
            1
        } else {
            0
        };
        stops(changes.drop_last()) + one
    }
}

/// Whatever happens, there is a track exactly while there is a player, and the volume
/// stays in range.
pub proof fn lemma_stays_well_formed<P, M, T>(
    state: AudioState<P, M, T>,
    changes: Seq<StateChange<P, M, T>>,
)
    requires
        state.wf(),
    ensures
        state.after_all(changes).wf(),
    decreases changes.len(),
{
    if changes.len() > 0 {
        lemma_stays_well_formed(state, changes.drop_last());
    }
}

/// The end of a track is told at most once: until another track is installed, a second
/// time never comes.
pub proof fn lemma_end_is_told_once<P, M, T>(
    state: AudioState<P, M, T>,
    changes: Seq<StateChange<P, M, T>>,
)
    requires
        forall|i: int| 0 <= i < changes.len() ==> !(#[trigger] changes[i] is Install),
    ensures
        state.ends_told(changes) <= if state.ended_notified {
            0int
        } else {
            1
        },
        state.after_all(changes).ended_notified == (state.ended_notified || state.ends_told(changes)
            > 0),
    decreases changes.len(),
{
    if changes.len() > 0 {
        assert(!(changes.last() is Install));
        assert forall|i: int| 0 <= i < changes.drop_last().len() implies !(
        #[trigger] changes.drop_last()[i] is Install) by {
            assert(!(changes[i] is Install));
        }
        lemma_end_is_told_once(state, changes.drop_last());
    }
}

impl<P, M, T> AudioState<P, M, T> {
    /// Whether the change `i` of a run is a look that finds a player with nothing left to
    /// play.
    pub open spec fn finds_end(self, changes: Seq<StateChange<P, M, T>>, i: int) -> bool {
        changes[i] == StateChange::<P, M, T>::Tick(true) && self.after_all(
            changes.take(i),
        ).player is Some
    }
}

/// Where there is a track exactly while there is a player, that stays so.
proof fn lemma_player_has_track<P, M, T>(
    state: AudioState<P, M, T>,
    changes: Seq<StateChange<P, M, T>>,
)
    requires
        state.has_track <==> state.player is Some,
    ensures
        state.after_all(changes).has_track <==> state.after_all(changes).player is Some,
    decreases changes.len(),
{
    if changes.len() > 0 {
        lemma_player_has_track(state, changes.drop_last());
    }
}

/// As long as no other track is installed, the end of a track is told exactly where a look
/// finds it.
proof fn lemma_end_is_told_where_found<P, M, T>(
    state: AudioState<P, M, T>,
    changes: Seq<StateChange<P, M, T>>,
)
    requires
        state.has_track <==> state.player is Some,
        !state.ended_notified,
        forall|i: int| 0 <= i < changes.len() ==> !(#[trigger] changes[i] is Install),
    ensures
        state.after_all(changes).ended_notified <==> exists|i: int|
            0 <= i < changes.len() && #[trigger] state.finds_end(changes, i),
    decreases changes.len(),
{
    if changes.len() > 0 {
        let before = changes.drop_last();
        let last = changes.len() - 1;
        assert(!(changes[last] is Install));
        assert forall|i: int| 0 <= i < before.len() implies !(#[trigger] before[i] is Install) by {
            assert(!(changes[i] is Install));
        }
        assert forall|i: int| 0 <= i < before.len() implies #[trigger] state.finds_end(before, i)
            == state.finds_end(changes, i) by {
            assert(before.take(i) == changes.take(i));
        }
        lemma_end_is_told_where_found(state, before);
        lemma_player_has_track(state, before);
        assert(changes.take(last) == before);
        if state.after_all(before).ended_notified {
            let i = choose|i: int| 0 <= i < before.len() && #[trigger] state.finds_end(before, i);
            assert(state.finds_end(changes, i));
        } else if state.after_all(changes).ended_notified {
            assert(state.finds_end(changes, last));
        } else {
            assert forall|i: int| 0 <= i < changes.len() implies !#[trigger] state.finds_end(
                changes,
                i,
            ) by {
                if i < last {
                    assert(!state.finds_end(before, i));
                }
            }
        }
    }
}

/// The end of every installed track is told: until another track is installed, it is told
/// once if any look finds a player with nothing left to play, and at the first such look;
/// looks that find something left to play tell the position.
pub proof fn lemma_end_of_new_track_is_told<P, M, T>(
    state: AudioState<P, M, T>,
    player: P,
    changes: Seq<StateChange<P, M, T>>,
    i: int,
)
    requires
        forall|j: int| 0 <= j < changes.len() ==> !(#[trigger] changes[j] is Install),
        0 <= i < changes.len(),
        state.after_install(player).after_all(changes.take(i)).player is Some,
    ensures
        changes[i] == StateChange::<P, M, T>::Tick(true) ==> state.after_install(player).ends_told(
            changes,
        ) == 1,
        changes[i] == StateChange::<P, M, T>::Tick(true) && (forall|j: int|
            0 <= j < i ==> !#[trigger] state.after_install(player).finds_end(changes, j))
            ==> state.after_install(player).after_all(changes.take(i)).tick_spec(true)
            == Tick::Ended,
        state.after_install(player).after_all(changes.take(i)).tick_spec(false) == Tick::Position,
{
    let installed = state.after_install(player);
    let before = changes.take(i);
    assert forall|j: int| 0 <= j < before.len() implies !(#[trigger] before[j] is Install) by {
        assert(!(changes[j] is Install));
    }
    lemma_player_has_track(installed, before);
    lemma_end_is_told_where_found(installed, before);
    lemma_end_is_told_where_found(installed, changes);
    lemma_end_is_told_once(installed, changes);
    if changes[i] == StateChange::<P, M, T>::Tick(true) {
        assert(installed.finds_end(changes, i));
    }
    assert forall|j: int| 0 <= j < i implies #[trigger] installed.finds_end(before, j)
        == installed.finds_end(changes, j) by {
        assert(before.take(j) == changes.take(j));
    }
}

/// A volume lasts until it is set again, whatever else happens, so every track that is
/// loaded meanwhile starts with it.
pub proof fn lemma_volume_lasts<P, M, T>(
    state: AudioState<P, M, T>,
    changes: Seq<StateChange<P, M, T>>,
)
    requires
        forall|i: int| 0 <= i < changes.len() ==> !(#[trigger] changes[i] is SetVolume),
    ensures
        state.after_all(changes).volume == state.volume,
    decreases changes.len(),
{
    if changes.len() > 0 {
        assert(!(changes.last() is SetVolume));
        assert forall|i: int| 0 <= i < changes.drop_last().len() implies !(
        #[trigger] changes.drop_last()[i] is SetVolume) by {
            assert(!(changes[i] is SetVolume));
        }
        lemma_volume_lasts(state, changes.drop_last());
    }
}

/// Once playback has been stopped there is nothing to tell until another track is
/// installed.
pub proof fn lemma_stopped_is_silent<P, M, T>(
    state: AudioState<P, M, T>,
    changes: Seq<StateChange<P, M, T>>,
    empty: bool,
)
    requires
        forall|i: int| 0 <= i < changes.len() ==> !(#[trigger] changes[i] is Install),
    ensures
        state.after_stop().after_all(changes).player is None,
        state.after_stop().after_all(changes).tick_spec(empty) == Tick::Nothing,
    decreases changes.len(),
{
    if changes.len() > 0 {
        assert(!(changes.last() is Install));
        assert forall|i: int| 0 <= i < changes.drop_last().len() implies !(
        #[trigger] changes.drop_last()[i] is Install) by {
            assert(!(changes[i] is Install));
        }
        lemma_stopped_is_silent(state, changes.drop_last(), empty);
    }
}

/// The counter of stops counts them, and starts over when it is full.
pub proof fn lemma_stops_are_counted<P, M, T>(
    state: AudioState<P, M, T>,
    changes: Seq<StateChange<P, M, T>>,
)
    ensures
        state.after_all(changes).load_gen == (state.load_gen + stops(changes)) % (u64::MAX + 1),
    decreases changes.len(),
{
    if changes.len() > 0 {
        lemma_stops_are_counted(state, changes.drop_last());
    }
}

/// An order is the command itself wherever there is a player, whatever else the state holds,
/// and there is none without a player.
pub proof fn lemma_order_is_the_command<P, M, T>(state: AudioState<P, M, T>, command: PlayerCommand)
    ensures
        state.player is Some ==> state.order(command) == Some(command),
        state.player is None ==> state.order(command) is None,
{
}

/// The volume that is set is the one in range that is nearest to the one that was asked for;
/// what is not a number is set as the loudest.
pub proof fn lemma_nearest_volume_is_set(volume: Binary64, other: Binary64)
    requires
        volume_in_range(other),
    ensures
        !volume.is_nan_spec() ==> distance(kept_volume(volume).rank(), volume.rank()) <= distance(
            other.rank(),
            volume.rank(),
        ),
        volume.is_nan_spec() ==> kept_volume(volume).bits == MAX_VOLUME,
{
}

/// The player is the one that was installed last, whatever came before it and whatever else
/// came after it, until playback is stopped.
pub proof fn lemma_installed_player_stays<P, M, T>(
    state: AudioState<P, M, T>,
    changes: Seq<StateChange<P, M, T>>,
    i: int,
    player: P,
)
    requires
        0 <= i < changes.len(),
        changes[i] == StateChange::<P, M, T>::Install(player),
        forall|j: int|
            i < j < changes.len() ==> !((#[trigger] changes[j]) is Install) && !(
            changes[j] is Stop),
    ensures
        state.after_all(changes).player == Some(player),
        state.after_all(changes).has_track,
    decreases changes.len(),
{
    if i < changes.len() - 1 {
        let before = changes.drop_last();
        assert(!(changes.last() is Install) && !(changes.last() is Stop));
        assert forall|j: int| i < j < before.len() implies !((#[trigger] before[j]) is Install)
            && !(before[j] is Stop) by {
            assert(!(changes[j] is Install));
        }
        lemma_installed_player_stays(state, before, i, player);
    }
}

/// The volume is the one that was set last.
pub proof fn lemma_last_volume_is_set<P, M, T>(
    state: AudioState<P, M, T>,
    changes: Seq<StateChange<P, M, T>>,
    i: int,
    volume: Binary64,
)
    requires
        0 <= i < changes.len(),
        changes[i] == StateChange::<P, M, T>::SetVolume(volume),
        volume_in_range(volume),
        forall|j: int| i < j < changes.len() ==> !((#[trigger] changes[j]) is SetVolume),
    ensures
        state.after_all(changes).volume == volume,
    decreases changes.len(),
{
    if i < changes.len() - 1 {
        let before = changes.drop_last();
        assert(!(changes.last() is SetVolume));
        assert forall|j: int| i < j < before.len() implies !((#[trigger] before[j]) is SetVolume) by {
            assert(!(changes[j] is SetVolume));
        }
        lemma_last_volume_is_set(state, before, i, volume);
    }
}

/// The mixer is the one of the device that was opened last.
pub proof fn lemma_last_mixer_is_used<P, M, T>(
    state: AudioState<P, M, T>,
    changes: Seq<StateChange<P, M, T>>,
    i: int,
    mixer: M,
)
    requires
        0 <= i < changes.len(),
        changes[i] == StateChange::<P, M, T>::SetMixer(mixer),
        forall|j: int| i < j < changes.len() ==> !((#[trigger] changes[j]) is SetMixer),
    ensures
        state.after_all(changes).mixer == mixer,
    decreases changes.len(),
{
    if i < changes.len() - 1 {
        let before = changes.drop_last();
        assert(!(changes.last() is SetMixer));
        assert forall|j: int| i < j < before.len() implies !((#[trigger] before[j]) is SetMixer) by {
            assert(!(changes[j] is SetMixer));
        }
        lemma_last_mixer_is_used(state, before, i, mixer);
    }
}

/// Messages go to the media controls that were connected last, whatever else happens.
pub proof fn lemma_last_controls_are_told<P, M, T>(
    state: AudioState<P, M, T>,
    changes: Seq<StateChange<P, M, T>>,
    i: int,
    tx: T,
)
    requires
        0 <= i < changes.len(),
        changes[i] == StateChange::<P, M, T>::AttachMedia(tx),
        forall|j: int| i < j < changes.len() ==> !((#[trigger] changes[j]) is AttachMedia),
    ensures
        state.after_all(changes).media_tx == Some(tx),
    decreases changes.len(),
{
    if i < changes.len() - 1 {
        let before = changes.drop_last();
        assert(!(changes.last() is AttachMedia));
        assert forall|j: int| i < j < before.len() implies !(
        (#[trigger] before[j]) is AttachMedia) by {
            assert(!(changes[j] is AttachMedia));
        }
        lemma_last_controls_are_told(state, before, i, tx);
    }
}

/// A track plays whenever it was installed after the last stop, however often playback was
/// stopped before: the commands reach its player.
pub proof fn lemma_playback_resumes_after_a_stop<P, M, T>(
    state: AudioState<P, M, T>,
    changes: Seq<StateChange<P, M, T>>,
    player: P,
    command: PlayerCommand,
)
    ensures
        state.after_all(changes).after_stop().after_install(player).player == Some(player),
        state.after_all(changes).after_stop().after_install(player).order(command) == Some(command),
        state.after_all(changes).after_stop().after_install(player).tick_spec(false)
            == Tick::Position,
{
}

/// The bounds of the volume by their values: playback starts at a quarter, and the loudest
/// is two. Two to the power of 1074 units make one.
pub proof fn lemma_volumes_by_value()
    ensures
        4 * (Binary64 { bits: START_VOLUME }).units() == vstd::arithmetic::power2::pow2(1074),
        (Binary64 { bits: MAX_VOLUME }).units() == 2 * vstd::arithmetic::power2::pow2(1074),
{
    vstd::arithmetic::power2::lemma2_to64();
    vstd::arithmetic::power2::lemma2_to64_rest();
    let (p, q) = (
        vstd::arithmetic::power2::pow2(1020) as int,
        vstd::arithmetic::power2::pow2(1023) as int,
    );
    lemma_units_by_exponent(Binary64 { bits: START_VOLUME }, 0x3fd, 0, 54);
    lemma_units_by_exponent(Binary64 { bits: MAX_VOLUME }, 0x400, 0, 51);
    assert(p * 0x40_0000_0000_0000 == 4 * (0x10_0000_0000_0000 * p)) by (nonlinear_arith);
    assert(2 * (q * 0x8_0000_0000_0000) == 0x10_0000_0000_0000 * q) by (nonlinear_arith);
}

/// A track plays exactly where there is a player that is neither paused nor at its end.
pub proof fn lemma_what_is_playing(status: Option<PlayerStatus>)
    ensures
        is_playing_spec(status) ==> status == Some(PlayerStatus { paused: false, empty: false }),
        is_playing_spec(Some(PlayerStatus { paused: false, empty: false })),
        is_playing_spec(status) ==> status is Some,
{
}

} // verus!
