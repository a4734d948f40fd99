//! Loading a track, from a file or from the network.
//!
//! A load goes through its stages in order; each stage takes what the outside world
//! answered and hands out the next one, or the message that the load ends with. Only
//! the last stage touches the state of the player, so a load that fails on the way
//! leaves everything as it was.

use crate::binary64::Binary64;
use crate::state::{install, lemma_stops_are_counted, stops, AudioState, StateChange};
use crate::text::{decimal, join, join_named};
use vstd::prelude::*;

verus! {

/// What follows the number in the text of an HTTP status code: its reason phrase, or a
/// note that there is none.
pub uninterp spec fn status_reason(code: u16) -> Seq<char>;

/// Whether a status code stands for success: those of the third hundred do.
pub open spec fn is_success_spec(code: u16) -> bool {
    code / 100 == 2
}

/// Whether a status code stands for success.
fn status_is_success(code: u16) -> (r: bool)
    ensures
        r == is_success_spec(code),
        r == (200 <= code <= 299),
{
    200 <= code && code <= 299
}

/// The `Display` of `reqwest::StatusCode`: the number in decimal, a space, and
/// [`status_reason`]. A status code is a number of three digits.
#[verifier::external_body]
fn status_text(code: u16) -> (r: String)
    requires
        100 <= code <= 999,
    ensures
        r@ == decimal(code as nat) + " "@ + status_reason(code),
{
    reqwest::StatusCode::from_u16(code).unwrap().to_string()
}

/// Who decodes a track.
#[derive(Clone, Copy, Debug, PartialEq, Eq, Structural)]
pub enum TrackDecoder {
    /// The fast way, for the common formats.
    Rodio,
    /// The fallback.
    Ffmpeg,
}

/// The fallback decodes what rodio does not accept.
pub open spec fn decoder_spec(accepted: bool) -> TrackDecoder {
    if accepted {
        TrackDecoder::Rodio
    } else {
        TrackDecoder::Ffmpeg
    }
}

/// Who decodes a track, by whether rodio accepts it.
pub fn decoder_for(accepted: bool) -> (r: TrackDecoder)
    ensures
        r == decoder_spec(accepted),
        r is Rodio <==> accepted,
{
    if accepted {
        TrackDecoder::Rodio
    } else {
        TrackDecoder::Ffmpeg
    }
}

/// The message of a request that was answered with the status of this text.
pub fn http_error(status: &str) -> (r: String)
    ensures
        r@ == "HTTP "@ + status@,
{
    join("HTTP ", status)
}

/// A header of a request.
#[derive(Debug)]
pub struct HttpHeader {
    pub name: String,
    pub value: String,
}

/// What is remembered of the moment when a track was asked for.
#[derive(Clone, Copy, Debug)]
pub struct LoadTicket {
    load_gen: u64,
}

impl LoadTicket {
    /// The count of stops at that moment.
    pub closed spec fn load_gen(self) -> u64 {
        self.load_gen
    }

    /// Whether playback has been stopped since, so that the track is no longer wanted.
    pub open spec fn is_stale_spec<P, M, T>(self, state: AudioState<P, M, T>) -> bool {
        state.load_gen != self.load_gen()
    }

    /// Whether the track is no longer wanted.
    pub fn is_stale<P, M, T>(&self, state: &AudioState<P, M, T>) -> (r: bool)
        ensures
            r == self.is_stale_spec(*state),
            r <==> state.load_gen != self.load_gen(),
    {
        state.load_gen != self.load_gen
    }
}

/// A track that was asked for by its URL.
#[derive(Debug)]
pub struct UrlLoad {
    pub url: String,
    /// The header to send with the request, if any.
    pub header: Option<HttpHeader>,
    pub cache_path: Option<String>,
    pub ticket: LoadTicket,
}

/// A track whose bytes are on their way.
#[derive(Debug)]
pub struct Download {
    pub cache_path: Option<String>,
    pub ticket: LoadTicket,
}

/// A track that has arrived.
#[derive(Debug)]
pub struct Track {
    pub bytes: Vec<u8>,
    /// Where to keep a copy, if anywhere.
    pub cache_path: Option<String>,
    /// The volume for the player that plays it.
    pub volume: Binary64,
    pub ticket: LoadTicket,
}

/// How the load of a track ended.
#[derive(Debug)]
pub enum Installed<P> {
    /// The track is no longer wanted; its player is handed back to be stopped.
    Unwanted(P),
    /// The track plays; the player that it replaced is handed out to be stopped.
    Playing(Option<P>),
}

impl UrlLoad {
    /// The request has been answered with a status code, or has failed.
    pub fn responded(self, outcome: Result<u16, String>) -> (r: Result<Download, String>)
        requires
            outcome is Ok ==> 100 <= outcome->Ok_0 <= 999,
        ensures
            match outcome {
                Err(cause) => r == Err::<Download, String>(cause),
                Ok(code) => if 200 <= code <= 299 {
                    &&& r is Ok
                    &&& r->Ok_0.ticket == self.ticket
                    &&& r->Ok_0.cache_path == self.cache_path
                } else {
                    &&& r is Err
                    &&& r->Err_0@ == "HTTP "@ + (decimal(code as nat) + " "@ + status_reason(code))
                },
            },
            r is Ok <==> outcome is Ok && is_success_spec(outcome->Ok_0),
    {
        match outcome {
            Err(cause) => Err(cause),
            Ok(code) => {
                if status_is_success(code) {
                    Ok(Download { cache_path: self.cache_path, ticket: self.ticket })
                } else {
                    Err(http_error(status_text(code).as_str()))
                }
            },
        }
    }
}

impl Download {
    /// The bytes have arrived, or have failed to. Nothing is left to do with a track
    /// that is no longer wanted.
    pub fn received<P, M, T>(
        self,
        state: &AudioState<P, M, T>,
        body: Result<Vec<u8>, String>,
    ) -> (r: Result<Option<Track>, String>)
        ensures
            match body {
                Err(cause) => r == Err::<Option<Track>, String>(cause),
                Ok(bytes) => if self.ticket.is_stale_spec(*state) {
                    r == Ok::<Option<Track>, String>(None)
                } else {
                    &&& r is Ok
                    &&& r->Ok_0 is Some
                    &&& r->Ok_0->0.bytes == bytes
                    &&& r->Ok_0->0.cache_path == self.cache_path
                    &&& r->Ok_0->0.volume == state.volume
                    &&& r->Ok_0->0.ticket == self.ticket
                },
            },
            body is Ok ==> r is Ok && (r->Ok_0 is Some <==> state.load_gen == self.ticket.load_gen()),
    {
        match body {
            Err(cause) => Err(cause),
            Ok(bytes) => {
                if self.ticket.is_stale(state) {
                    Ok(None)
                } else {
                    Ok(
                        Some(
                            Track {
                                bytes,
                                cache_path: self.cache_path,
                                volume: state.volume,
                                ticket: self.ticket,
                            },
                        ),
                    )
                }
            },
        }
    }
}

impl Track {
    /// The bytes have been shown to rodio, which accepts them or not. Returns who decodes
    /// the track. Opening a decoder can panic on bytes that are no proper track, so that
    /// is left to the caller.
    pub fn decoder(&self, accepted: bool) -> (r: TrackDecoder)
        ensures
            r == decoder_spec(accepted),
            r is Rodio <==> accepted,
    {
        decoder_for(accepted)
    }

    /// A player with the track is ready. It takes over unless the track has become
    /// unwanted meanwhile.
    pub fn finish<P, M, T>(self, state: &mut AudioState<P, M, T>, player: P) -> (r: Installed<P>)
        ensures
            if self.ticket.is_stale_spec(*old(state)) {
                &&& r == Installed::Unwanted(player)
                &&& *final(state) == *old(state)
            } else {
                &&& r == Installed::Playing(old(state).player)
                &&& *final(state) == old(state).after_install(player)
            },
            r is Playing <==> old(state).load_gen == self.ticket.load_gen(),
            r is Playing ==> {
                &&& r->Playing_0 == old(state).player
                &&& final(state).player == Some(player)
                &&& final(state).has_track
                &&& !final(state).ended_notified
                &&& final(state).mixer == old(state).mixer
                &&& final(state).volume == old(state).volume
                &&& final(state).load_gen == old(state).load_gen
                &&& final(state).media_tx == old(state).media_tx
            },
            r is Unwanted ==> r->Unwanted_0 == player && *final(state) == *old(state),
            old(state).wf() ==> final(state).wf(),
    {
        if self.ticket.is_stale(state) {
            Installed::Unwanted(player)
        } else {
            Installed::Playing(install(state, player))
        }
    }
}

/// Asks for the track at a URL: what is to be requested, with the session if there is
/// one. The track will be kept at `cache_path`, if that is given.
pub fn audio_load_url<P, M, T>(
    state: &AudioState<P, M, T>,
    url: String,
    session_id: Option<String>,
    cache_path: Option<String>,
) -> (r: UrlLoad)
    ensures
        r.url == url,
        match session_id {
            Some(id) => {
                &&& r.header is Some
                &&& r.header->0.name@ == "x-session-id"@
                &&& r.header->0.value == id
            },
            None => r.header is None,
        },
        r.cache_path == cache_path,
        r.ticket.load_gen() == state.load_gen,
{
    let header = match session_id {
        Some(id) => Some(HttpHeader { name: String::from_str("x-session-id"), value: id }),
        None => None,
    };
    UrlLoad {
        url,
        header,
        cache_path,
        ticket: LoadTicket { load_gen: state.load_gen },
    }
}

/// A track that was asked for by its path.
#[derive(Debug)]
pub struct FileLoad {
    pub path: String,
    /// The volume for the player that plays it.
    pub volume: Binary64,
}

/// A track in a file that could be opened.
#[derive(Debug)]
pub struct FileTrack {
    pub path: String,
    pub decoder: TrackDecoder,
}

/// Asks for the track in a file, for a player with the present volume.
pub fn audio_load_file<P, M, T>(state: &AudioState<P, M, T>, path: String) -> (r: FileLoad)
    ensures
        r.path == path,
        r.volume == state.volume,
{
    FileLoad { path, volume: state.volume }
}

impl FileLoad {
    /// The file has been opened and shown to rodio, which accepts it or not; or it
    /// could not be opened.
    pub fn opened(self, outcome: Result<bool, String>) -> (r: Result<FileTrack, String>)
        ensures
            match outcome {
                Err(cause) => {
                    &&& r is Err
                    &&& r->Err_0@ == "Failed to open "@ + self.path@ + ": "@ + cause@
                },
                Ok(accepted) => {
                    &&& r is Ok
                    &&& r->Ok_0.path == self.path
                    &&& r->Ok_0.decoder == decoder_spec(accepted)
                    &&& r->Ok_0.decoder is Rodio <==> accepted
                },
            },
    {
        match outcome {
            Err(cause) => Err(
                join_named("Failed to open ", self.path.as_str(), ": ", cause.as_str()),
            ),
            Ok(accepted) => Ok(FileTrack { path: self.path, decoder: decoder_for(accepted) }),
        }
    }
}

impl FileTrack {
    /// The file has been read for the fallback, or could not be.
    pub fn contents(&self, outcome: Result<Vec<u8>, String>) -> (r: Result<Vec<u8>, String>)
        ensures
            match outcome {
                Err(cause) => {
                    &&& r is Err
                    &&& r->Err_0@ == "Failed to read "@ + self.path@ + ": "@ + cause@
                },
                Ok(bytes) => r == Ok::<Vec<u8>, String>(bytes),
            },
    {
        match outcome {
            Err(cause) => Err(
                join_named("Failed to read ", self.path.as_str(), ": ", cause.as_str()),
            ),
            Ok(bytes) => Ok(bytes),
        }
    }

    /// A player with the track is ready, and takes over. The player that it replaced is
    /// handed out to be stopped.
    pub fn finish<P, M, T>(self, state: &mut AudioState<P, M, T>, player: P) -> (r: Option<P>)
        ensures
            r == old(state).player,
            *final(state) == old(state).after_install(player),
            final(state).player == Some(player),
            final(state).has_track,
            !final(state).ended_notified,
            final(state).mixer == old(state).mixer,
            final(state).volume == old(state).volume,
            final(state).load_gen == old(state).load_gen,
            final(state).media_tx == old(state).media_tx,
            old(state).wf() ==> final(state).wf(),
    {
        install(state, player)
    }
}

/// The outcome of copying a track from the cache to where the listener wants it: the
/// destination, or the reason why it is not there.
pub fn save_track_to_path(dest_path: String, copied: Result<u64, String>) -> (r: Result<
    String,
    String,
>)
    ensures
        match copied {
            Ok(_) => r == Ok::<String, String>(dest_path),
            Err(cause) => r is Err && r->Err_0@ == "Copy failed: "@ + cause@,
        },
{
    match copied {
        Ok(_) => Ok(dest_path),
        Err(cause) => Err(join("Copy failed: ", cause.as_str())),
    }
}

/// Stopping playback makes the tracks that are on their way unwanted, whatever else
/// happens until they arrive, for any number of stops that the counter can tell apart.
pub proof fn lemma_stop_makes_loads_stale<P, M, T>(
    ticket: LoadTicket,
    asked: AudioState<P, M, T>,
    changes: Seq<StateChange<P, M, T>>,
)
    requires
        ticket.load_gen() == asked.load_gen,
        0 < stops(changes) <= u64::MAX,
    ensures
        ticket.is_stale_spec(asked.after_all(changes)),
{
    lemma_stops_are_counted(asked, changes);
}

/// As long as playback is not stopped, a track that is on its way stays wanted,
/// whatever else happens.
pub proof fn lemma_load_stays_wanted<P, M, T>(
    ticket: LoadTicket,
    asked: AudioState<P, M, T>,
    changes: Seq<StateChange<P, M, T>>,
)
    requires
        ticket.load_gen() == asked.load_gen,
        stops(changes) == 0,
    ensures
        !ticket.is_stale_spec(asked.after_all(changes)),
{
    lemma_stops_are_counted(asked, changes);
}

/// A track that is asked for after any run of changes plays as soon as it is ready, unless
/// playback is stopped in between: it is still wanted, and its player is the one that plays.
pub proof fn lemma_wanted_track_plays<P, M, T>(
    ticket: LoadTicket,
    asked: AudioState<P, M, T>,
    changes: Seq<StateChange<P, M, T>>,
    player: P,
)
    requires
        ticket.load_gen() == asked.load_gen,
        forall|i: int| 0 <= i < changes.len() ==> !(#[trigger] changes[i] is Stop),
    ensures
        !ticket.is_stale_spec(asked.after_all(changes)),
        asked.after_all(changes).after_install(player).player == Some(player),
        asked.after_all(changes).after_install(player).has_track,
    decreases changes.len(),
{
    if changes.len() > 0 {
        assert(!(changes.last() is Stop));
        assert forall|i: int| 0 <= i < changes.drop_last().len() implies !(
        #[trigger] changes.drop_last()[i] is Stop) by {
            assert(!(changes[i] is Stop));
        }
        lemma_wanted_track_plays(ticket, asked, changes.drop_last(), player);
    }
}

/// The fallback is asked for exactly the tracks that rodio does not accept.
pub proof fn lemma_fallback_is_for_the_rest(accepted: bool)
    ensures
        decoder_spec(accepted) is Rodio <==> accepted,
        decoder_spec(accepted) is Ffmpeg <==> !accepted,
{
}

/// Whether a track is downloaded depends on the hundreds of the status code alone.
pub proof fn lemma_success_is_by_hundreds(code: u16, other: u16)
    ensures
        is_success_spec(code) <==> 200 <= code <= 299,
        code / 100 == other / 100 ==> is_success_spec(code) == is_success_spec(other),
{
}

} // verus!
