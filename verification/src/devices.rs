//! Output devices: listing them, finding one, and switching to another.

use crate::state::{audio_stop, AudioState, StateChange};
use crate::text::{join, join_named};
use vstd::prelude::*;

verus! {

/// A sink of the sound server.
#[derive(Clone, Debug, PartialEq, Eq)]
pub struct AudioSink {
    /// The name that the sound server knows it by.
    pub name: String,
    /// The name that people know it by.
    pub description: String,
    pub is_default: bool,
}

/// An [`AudioSink`] with its texts as sequences of characters.
pub struct SinkView {
    pub name: Seq<char>,
    pub description: Seq<char>,
    pub is_default: bool,
}

impl View for AudioSink {
    type V = SinkView;

    open spec fn view(&self) -> SinkView {
        SinkView {
            name: self.name@,
            description: self.description@,
            is_default: self.is_default,
        }
    }
}

/// What a listing says about one sink.
#[derive(Debug)]
pub struct SinkEntry {
    pub name: Option<String>,
    pub description: Option<String>,
}

/// A [`SinkEntry`] with its texts as sequences of characters.
pub struct EntryView {
    pub name: Option<Seq<char>>,
    pub description: Option<Seq<char>>,
}

/// A text that may be missing, as a sequence of characters.
pub open spec fn text_view(text: Option<String>) -> Option<Seq<char>> {
    match text {
        Some(t) => Some(t@),
        None => None,
    }
}

/// Whether a text is there exactly where it should be, and is the one that it should be.
pub open spec fn is_text(text: Option<String>, there: bool, wanted: Seq<char>) -> bool {
    (text is Some <==> there) && (text is Some ==> text->0@ == wanted)
}

impl View for SinkEntry {
    type V = EntryView;

    open spec fn view(&self) -> EntryView {
        EntryView { name: text_view(self.name), description: text_view(self.description) }
    }
}

impl EntryView {
    /// Both texts are there.
    pub open spec fn is_complete(self) -> bool {
        self.name is Some && self.description is Some
    }

    /// The sink that a complete entry describes, where `default_sink` is the name of the
    /// default one.
    pub open spec fn sink(self, default_sink: Seq<char>) -> SinkView {
        SinkView {
            name: self.name->0,
            description: self.description->0,
            is_default: self.name->0 == default_sink,
        }
    }
}

/// The views of a list of entries.
pub open spec fn entry_views(entries: Seq<SinkEntry>) -> Seq<EntryView> {
    entries.map_values(|e: SinkEntry| e@)
}

/// The views of a list of sinks.
pub open spec fn sink_views(sinks: Seq<AudioSink>) -> Seq<SinkView> {
    sinks.map_values(|s: AudioSink| s@)
}

/// The sinks that a listing describes: the complete entries, in their order.
pub open spec fn listed_sinks(entries: Seq<EntryView>, default_sink: Seq<char>) -> Seq<SinkView> {
    entries.filter(|e: EntryView| e.is_complete()).map_values(|e: EntryView| e.sink(default_sink))
}

#[verifier::external_type_specification]
#[verifier::external_body]
pub struct ExValue(serde_json::Value);

/// The members of a JSON object whose value is a string, by their names. A value that is
/// no object has none.
pub uninterp spec fn text_members(value: serde_json::Value) -> Map<Seq<char>, Seq<char>>;

/// The text members of each element of the JSON array that the bytes spell, if they
/// spell one.
pub uninterp spec fn json_elements(bytes: Seq<u8>) -> Option<Seq<Map<Seq<char>, Seq<char>>>>;

/// `serde_json::from_slice` to a list of values. Whether it succeeds depends on the bytes
/// alone, and so does what the values hold; both go by the name of [`json_elements`].
#[verifier::external_body]
fn json_array(bytes: &[u8]) -> (r: Option<Vec<serde_json::Value>>)
    ensures
        match r {
            Some(values) => json_elements(bytes@) == Some(
                values@.map_values(|v: serde_json::Value| text_members(v)),
            ),
            None => json_elements(bytes@) is None,
        },
{
    serde_json::from_slice(bytes).ok()
}

/// `serde_json::Value::get` followed by `serde_json::Value::as_str`: the text of a member,
/// where the value is an object with that member and the member is a string.
#[verifier::external_body]
fn text_member(value: &serde_json::Value, key: &str) -> (r: Option<String>)
    ensures
        text_view(r) == if text_members(*value).dom().contains(key@) {
            Some(text_members(*value)[key@])
        } else {
            None
        },
{
    value.get(key).and_then(|member| member.as_str()).map(|text| text.to_string())
}

/// The text of bytes that need not be UTF-8.
pub uninterp spec fn lossy_text(bytes: Seq<u8>) -> Seq<char>;

/// `String::from_utf8_lossy`: the text that the bytes encode; where they are not UTF-8,
/// something depending on them alone that goes by the name of [`lossy_text`].
#[verifier::external_body]
fn text_of_bytes(bytes: &Vec<u8>) -> (r: String)
    ensures
        r@ == lossy_text(bytes@),
        vstd::utf8::valid_utf8(bytes@) ==> r@ == vstd::utf8::decode_utf8(bytes@),
{
    String::from_utf8_lossy(bytes).into_owned()
}

/// The characters with the Unicode property `White_Space`.
pub open spec fn is_white_space(c: char) -> bool {
    let code = c as u32;
    ||| 0x9 <= code <= 0xd
    ||| code == 0x20
    ||| code == 0x85
    ||| code == 0xa0
    ||| code == 0x1680
    ||| 0x2000 <= code <= 0x200a
    ||| code == 0x2028
    ||| code == 0x2029
    ||| code == 0x202f
    ||| code == 0x205f
    ||| code == 0x3000
}

/// The text without the white space that it starts with.
pub open spec fn trim_start(text: Seq<char>) -> Seq<char>
    decreases text.len(),
{
    if text.len() > 0 && is_white_space(text.first()) {
        trim_start(text.drop_first())
    } else {
        text
    }
}

/// The text without the white space that it ends with.
pub open spec fn trim_end(text: Seq<char>) -> Seq<char>
    decreases text.len(),
{
    if text.len() > 0 && is_white_space(text.last()) {
        trim_end(text.drop_last())
    } else {
        text
    }
}

/// `str::trim`: the text without the white space around it.
#[verifier::external_body]
fn trimmed(text: &str) -> (r: String)
    ensures
        r@ == trim_end(trim_start(text@)),
{
    text.trim().to_string()
}

/// What a command of the sound server printed, and whether it was successful.
#[derive(Debug)]
pub struct CommandOutput {
    pub success: bool,
    pub stdout: Vec<u8>,
}

/// The name of the default sink by the output of the command that asks for it, which may
/// not have run; whether it was successful is of no account.
pub open spec fn default_sink_spec(asked: Option<CommandOutput>) -> Seq<char> {
    match asked {
        Some(output) => trim_end(trim_start(lossy_text(output.stdout@))),
        None => Seq::empty(),
    }
}

/// The name of the default sink, or nothing where the question could not be asked.
pub fn default_sink(asked: &Option<CommandOutput>) -> (r: String)
    ensures
        r@ == default_sink_spec(*asked),
        *asked is Some && vstd::utf8::valid_utf8((*asked)->0.stdout@) ==> r@ == trim_end(
            trim_start(vstd::utf8::decode_utf8((*asked)->0.stdout@)),
        ),
{
    match asked {
        Some(output) => trimmed(text_of_bytes(&output.stdout).as_str()),
        None => String::new(),
    }
}

/// What a listing says about a sink, by the text members of its JSON value.
pub open spec fn entry_of(members: Map<Seq<char>, Seq<char>>) -> EntryView {
    EntryView {
        name: if members.dom().contains("name"@) {
            Some(members["name"@])
        } else {
            None
        },
        description: if members.dom().contains("description"@) {
            Some(members["description"@])
        } else {
            None
        },
    }
}

/// The entries of a listing in JSON, if it is one.
pub fn sink_entries(listing: &[u8]) -> (r: Option<Vec<SinkEntry>>)
    ensures
        match r {
            Some(entries) => {
                &&& json_elements(listing@) is Some
                &&& entry_views(entries@) == json_elements(listing@)->0.map_values(
                    |m: Map<Seq<char>, Seq<char>>| entry_of(m),
                )
                &&& entries@.len() == json_elements(listing@)->0.len()
                &&& forall|i: int|
                    0 <= i < entries@.len() ==> {
                        let members = json_elements(listing@)->0[i];
                        &&& is_text(
                            (#[trigger] entries@[i]).name,
                            members.dom().contains("name"@),
                            members["name"@],
                        )
                        &&& is_text(
                            entries@[i].description,
                            members.dom().contains("description"@),
                            members["description"@],
                        )
                    }
            },
            None => json_elements(listing@) is None,
        },
{
    match json_array(listing) {
        None => None,
        Some(values) => {
            let mut entries: Vec<SinkEntry> = Vec::new();
            let mut i: usize = 0;
            while i < values.len()
                invariant
                    i <= values@.len(),
                    entries@.len() == i,
                    forall|j: int|
                        0 <= j < i ==> (#[trigger] entries@[j])@ == entry_of(
                            text_members(values@[j]),
                        ),
                decreases values@.len() - i,
            {
                let name = text_member(&values[i], "name");
                let description = text_member(&values[i], "description");
                entries.push(SinkEntry { name, description });
                i = i + 1;
            }
            Some(entries)
        },
    }
}

/// Whether an entry holds the name and the description of a sink.
pub open spec fn is_entry_of(entry: SinkEntry, sink: AudioSink) -> bool {
    &&& entry.name is Some
    &&& entry.description is Some
    &&& sink.name@ == entry.name->0@
    &&& sink.description@ == entry.description->0@
}

/// The sinks that a listing describes. An entry without a name or without a description
/// is left out.
pub fn select_sinks(entries: &Vec<SinkEntry>, default_sink: &String) -> (r: Vec<AudioSink>)
    ensures
        sink_views(r@) == listed_sinks(entry_views(entries@), default_sink@),
        forall|k: int|
            0 <= k < r@.len() ==> ((#[trigger] r@[k]).is_default <==> r@[k].name@ == default_sink@),
        forall|k: int|
            0 <= k < r@.len() ==> exists|i: int|
                0 <= i < entries@.len() && is_entry_of(#[trigger] entries@[i], #[trigger] r@[k]),
        forall|i: int|
            0 <= i < entries@.len() && (#[trigger] entries@[i]).name is Some
                && entries@[i].description is Some ==> exists|k: int|
                0 <= k < r@.len() && is_entry_of(entries@[i], #[trigger] r@[k]),
        r@.len() <= entries@.len(),
{
    let mut sinks: Vec<AudioSink> = Vec::new();
    let ghost all = entry_views(entries@);
    let ghost complete = |e: EntryView| e.is_complete();
    let ghost sink = |e: EntryView| e.sink(default_sink@);
    proof {
        reveal(Seq::filter);
        assert(sink_views(sinks@) == all.take(0).filter(complete).map_values(sink));
    }
    let mut i: usize = 0;
    while i < entries.len()
        invariant
            i <= entries@.len(),
            all == entry_views(entries@),
            complete == (|e: EntryView| e.is_complete()),
            sink == (|e: EntryView| e.sink(default_sink@)),
            sink_views(sinks@) == all.take(i as int).filter(complete).map_values(sink),
            sinks@.len() <= i,
            forall|k: int|
                0 <= k < sinks@.len() ==> ((#[trigger] sinks@[k]).is_default <==> sinks@[k].name@
                    == default_sink@),
            forall|k: int|
                0 <= k < sinks@.len() ==> exists|j: int|
                    0 <= j < i && is_entry_of(#[trigger] entries@[j], #[trigger] sinks@[k]),
            forall|j: int|
                0 <= j < i && (#[trigger] entries@[j]).name is Some
                    && entries@[j].description is Some ==> exists|k: int|
                    0 <= k < sinks@.len() && is_entry_of(entries@[j], #[trigger] sinks@[k]),
        decreases entries@.len() - i,
    {
        let ghost before = sinks@;
        let ghost kept = all.take(i as int).filter(complete);
        proof {
            reveal(Seq::filter);
            assert(all.take(i + 1).drop_last() == all.take(i as int));
            assert(all.take(i + 1).last() == entries@[i as int]@);
        }
        if let Some(name) = &entries[i].name {
            if let Some(description) = &entries[i].description {
                sinks.push(
                    AudioSink {
                        is_default: *name == *default_sink,
                        name: name.clone(),
                        description: description.clone(),
                    },
                );
                proof {
                    let entry = entries@[i as int]@;
                    assert(sink_views(sinks@) == sink_views(before).push(sinks@.last()@));
                    assert(kept.push(entry).map_values(sink) == kept.map_values(sink).push(
                        sink(entry),
                    ));
                    assert(is_entry_of(entries@[i as int], sinks@[before.len() as int]));
                    assert forall|j: int|
                        0 <= j < i && (#[trigger] entries@[j]).name is Some
                            && entries@[j].description is Some implies exists|k: int|
                        0 <= k < sinks@.len() && is_entry_of(entries@[j], #[trigger] sinks@[k]) by {
                        let k = choose|k: int|
                            0 <= k < before.len() && is_entry_of(entries@[j], #[trigger] before[k]);
                        assert(sinks@[k] == before[k]);
                    }
                    assert forall|k: int| 0 <= k < before.len() implies #[trigger] sinks@[k]
                        == before[k] by {}
                }
            }
        }
        i = i + 1;
    }
    assert(all.take(entries@.len() as int) == all);
    sinks
}

/// The sinks of the sound server, by the outputs of the two commands that were run: the
/// one that lists the sinks in JSON and the one that names the default sink. Nothing is
/// listed where the listing failed or is not a JSON array.
pub fn audio_list_devices(
    listing: &Option<CommandOutput>,
    default_asked: &Option<CommandOutput>,
) -> (r: Vec<AudioSink>)
    ensures
        sink_views(r@) == match *listing {
            Some(output) => if output.success && json_elements(output.stdout@) is Some {
                listed_sinks(
                    json_elements(output.stdout@)->0.map_values(
                        |m: Map<Seq<char>, Seq<char>>| entry_of(m),
                    ),
                    default_sink_spec(*default_asked),
                )
            } else {
                Seq::<SinkView>::empty()
            },
            None => Seq::<SinkView>::empty(),
        },
        r@.len() > 0 ==> *listing is Some && (*listing)->0.success && json_elements(
            (*listing)->0.stdout@,
        ) is Some,
        forall|k: int|
            0 <= k < r@.len() ==> ((#[trigger] r@[k]).is_default <==> r@[k].name@
                == default_sink_spec(*default_asked)),
{
    if let Some(output) = listing {
        if output.success {
            if let Some(entries) = sink_entries(output.stdout.as_slice()) {
                return select_sinks(&entries, &default_sink(default_asked));
            }
        }
    }
    let none: Vec<AudioSink> = Vec::new();
    assert(sink_views(none@) == Seq::<SinkView>::empty());
    none
}

/// The device to open.
#[derive(Clone, Copy, Debug, PartialEq, Eq, Structural)]
pub enum DeviceChoice {
    /// The one that the system prefers.
    Default,
    /// The one at this place in the list of devices.
    Listed(usize),
}

/// Whether the device at a place has this name.
pub open spec fn is_named(names: Seq<Option<String>>, i: int, wanted: Seq<char>) -> bool {
    names[i] is Some && names[i]->0@ == wanted
}

/// Chooses the device to open: the default one, or the first of the given name. `names`
/// lists the devices by their names, which some may lack; there is no list where the
/// devices could not be listed.
pub fn choose_device(wanted: &Option<String>, names: &Option<Vec<Option<String>>>) -> (r: Result<
    DeviceChoice,
    String,
>)
    ensures
        match *wanted {
            None => r == Ok::<DeviceChoice, String>(DeviceChoice::Default),
            Some(name) => match r {
                Ok(choice) => {
                    &&& choice is Listed
                    &&& *names is Some
                    &&& choice->0 < (*names)->0@.len()
                    &&& is_named((*names)->0@, choice->0 as int, name@)
                    &&& (*names)->0@[choice->0 as int] is Some
                    &&& (*names)->0@[choice->0 as int]->0@ == name@
                    &&& forall|j: int|
                        0 <= j < choice->0 && (#[trigger] (*names)->0@[j]) is Some
                            ==> (*names)->0@[j]->0@ != name@
                    &&& forall|j: int| 0 <= j < choice->0 ==> !is_named((*names)->0@, j, name@)
                },
                Err(message) => {
                    &&& message@ == "Device '"@ + name@ + "' not found"@
                    &&& *names is Some ==> forall|j: int|
                        0 <= j < (*names)->0@.len() ==> !is_named((*names)->0@, j, name@)
                    &&& *names is Some ==> forall|j: int|
                        0 <= j < (*names)->0@.len() && (#[trigger] (*names)->0@[j]) is Some
                            ==> (*names)->0@[j]->0@ != name@
                },
            },
        },
{
    let name = match wanted {
        None => return Ok(DeviceChoice::Default),
        Some(name) => name,
    };
    if let Some(list) = names {
        let mut i: usize = 0;
        while i < list.len()
            invariant
                *wanted == Some(*name),
                *names == Some(*list),
                i <= list@.len(),
                forall|j: int| 0 <= j < i ==> !is_named(list@, j, name@),
                forall|j: int|
                    0 <= j < i && (#[trigger] list@[j]) is Some ==> list@[j]->0@ != name@,
            decreases list@.len() - i,
        {
            if let Some(found) = &list[i] {
                if *found == *name {
                    return Ok(DeviceChoice::Listed(i));
                }
            }
            i = i + 1;
        }
    }
    let mut message = join("Device '", name.as_str());
    message.append("' not found");
    Err(message)
}

/// The message about a device that could not be opened: the one of the given name, or
/// else the default one.
pub fn open_error(wanted: &Option<String>, cause: &str) -> (r: String)
    ensures
        r@ == match *wanted {
            Some(name) => "Failed to open device '"@ + name@ + "': "@ + cause@,
            None => "No audio output: "@ + cause@,
        },
{
    match wanted {
        Some(name) => join_named("Failed to open device '", name.as_str(), "': ", cause),
        None => join("No audio output: ", cause),
    }
}

/// The arguments of the command that makes a sink the default one, where a sink is given.
pub fn switch_command(device_name: &Option<String>) -> (r: Option<Vec<String>>)
    ensures
        match *device_name {
            None => r is None,
            Some(name) => {
                &&& r is Some
                &&& r->0@.len() == 2
                &&& r->0@[0]@ == "set-default-sink"@
                &&& r->0@[1]@ == name@
            },
        },
{
    match device_name {
        None => None,
        Some(name) => {
            let mut arguments: Vec<String> = Vec::new();
            arguments.push(String::from_str("set-default-sink"));
            arguments.push(name.clone());
            Some(arguments)
        },
    }
}

/// A switch to another device that has begun.
#[derive(Debug)]
pub struct DeviceSwitch<P> {
    /// The player, to be stopped.
    pub stopped: Option<P>,
    /// The device to open, or the default one.
    pub open: Option<String>,
}

/// Begins to switch to another device, once the command of [`switch_command`], where
/// there is one, has run or has failed to. Playback ends, and the default device is to be
/// opened again, which follows the default sink.
pub fn audio_switch_device<P, M, T>(
    state: &mut AudioState<P, M, T>,
    commanded: Result<(), String>,
) -> (r: Result<DeviceSwitch<P>, String>)
    ensures
        match commanded {
            Err(cause) => {
                &&& r is Err
                &&& r->Err_0@ == "pactl failed: "@ + cause@
                &&& *final(state) == *old(state)
            },
            Ok(_) => {
                &&& r is Ok
                &&& r->Ok_0.stopped == old(state).player
                &&& r->Ok_0.open is None
                &&& *final(state) == old(state).after_stop()
                &&& *final(state) == old(state).after(StateChange::Stop)
                &&& final(state).player is None
                &&& !final(state).has_track
                &&& final(state).load_gen != old(state).load_gen
                &&& final(state).mixer == old(state).mixer
                &&& final(state).volume == old(state).volume
                &&& final(state).ended_notified == old(state).ended_notified
                &&& final(state).media_tx == old(state).media_tx
            },
        },
        old(state).wf() ==> final(state).wf(),
{
    match commanded {
        Err(cause) => Err(join("pactl failed: ", cause.as_str())),
        Ok(_) => Ok(DeviceSwitch { stopped: audio_stop(state), open: None }),
    }
}

/// What became of the request to open the device.
#[derive(Debug)]
pub enum SwitchReply<M> {
    /// It could not be made.
    NotSent(String),
    /// It was not answered.
    NotAnswered(String),
    /// The device could not be opened.
    Refused(String),
    /// The device is open, with this mixer.
    Opened(M),
}

/// Ends the switch to another device: the mixer of the open device is used from now on.
/// Without one the old mixer stays, and playback stays stopped.
pub fn finish_switch<P, M, T>(state: &mut AudioState<P, M, T>, reply: SwitchReply<M>) -> (r: Result<
    (),
    String,
>)
    ensures
        match reply {
            SwitchReply::NotSent(cause) => r == Err::<(), String>(cause) && *final(state) == *old(
                state,
            ),
            SwitchReply::NotAnswered(cause) => {
                &&& r is Err
                &&& r->Err_0@ == "Device switch failed: "@ + cause@
                &&& *final(state) == *old(state)
            },
            SwitchReply::Refused(cause) => r == Err::<(), String>(cause) && *final(state) == *old(
                state,
            ),
            SwitchReply::Opened(mixer) => {
                &&& r is Ok
                &&& *final(state) == (AudioState { mixer, ..*old(state) })
                &&& *final(state) == old(state).after(StateChange::SetMixer(mixer))
            },
        },
        old(state).wf() ==> final(state).wf(),
{
    match reply {
        SwitchReply::NotSent(cause) => Err(cause),
        SwitchReply::NotAnswered(cause) => Err(join("Device switch failed: ", cause.as_str())),
        SwitchReply::Refused(cause) => Err(cause),
        SwitchReply::Opened(mixer) => {
            state.mixer = mixer;
            Ok(())
        },
    }
}

/// Only listed sinks are default: of the sinks that a listing describes, exactly those
/// are marked that bear the name of the default sink.
pub proof fn lemma_default_is_by_name(entries: Seq<EntryView>, default_sink: Seq<char>, i: int)
    requires
        0 <= i < listed_sinks(entries, default_sink).len(),
    ensures
        listed_sinks(entries, default_sink)[i].is_default <==> listed_sinks(
            entries,
            default_sink,
        )[i].name == default_sink,
{
}

/// Every complete entry of a listing is listed, and nothing else is.
pub proof fn lemma_complete_entries_are_listed(
    entries: Seq<EntryView>,
    default_sink: Seq<char>,
    sink: SinkView,
)
    ensures
        listed_sinks(entries, default_sink).contains(sink) <==> exists|i: int|
            0 <= i < entries.len() && (#[trigger] entries[i]).is_complete() && entries[i].sink(
                default_sink,
            ) == sink,
{
    let complete = |e: EntryView| e.is_complete();
    let kept = entries.filter(complete);
    let listed = listed_sinks(entries, default_sink);
    if listed.contains(sink) {
        let k = choose|k: int| 0 <= k < listed.len() && listed[k] == sink;
        assert(kept.contains(kept[k]));
        entries.lemma_filter_pred(complete, k);
        entries.lemma_filter_contains_rev(complete, kept[k]);
        let i = choose|i: int| 0 <= i < entries.len() && entries[i] == kept[k];
        assert(entries[i].is_complete());
    }
    if exists|i: int|
        0 <= i < entries.len() && (#[trigger] entries[i]).is_complete() && entries[i].sink(
            default_sink,
        ) == sink {
        let i = choose|i: int|
            0 <= i < entries.len() && (#[trigger] entries[i]).is_complete() && entries[i].sink(
                default_sink,
            ) == sink;
        entries.lemma_filter_contains(complete, i);
        let k = choose|k: int| 0 <= k < kept.len() && kept[k] == entries[i];
        assert(listed[k] == sink);
    }
}

/// Beginning to switch the device stops playback just as [`audio_stop`] does, so a track
/// that is on its way does not start on the new device.
pub proof fn lemma_switch_stops<P, M, T>(
    state: AudioState<P, M, T>,
    ticket: crate::load::LoadTicket,
    mixer: M,
)
    requires
        ticket.load_gen() == state.load_gen,
    ensures
        ticket.is_stale_spec(AudioState { mixer, ..state.after_stop() }),
{
}

/// A listing is read entry by entry: the sinks of two listings one behind the other are those
/// of the first and then those of the second.
pub proof fn lemma_listings_are_read_in_order(
    a: Seq<EntryView>,
    b: Seq<EntryView>,
    default_sink: Seq<char>,
)
    ensures
        listed_sinks(a + b, default_sink) == listed_sinks(a, default_sink) + listed_sinks(
            b,
            default_sink,
        ),
    decreases b.len(),
{
    reveal(Seq::filter);
    let complete = |e: EntryView| e.is_complete();
    let sink = |e: EntryView| e.sink(default_sink);
    if b.len() == 0 {
        assert(a + b == a);
        assert(b.filter(complete) == Seq::<EntryView>::empty());
        assert(listed_sinks(b, default_sink) == Seq::<SinkView>::empty());
    } else {
        lemma_listings_are_read_in_order(a, b.drop_last(), default_sink);
        assert((a + b).drop_last() == a + b.drop_last());
        let (x, y) = ((a + b.drop_last()).filter(complete), b.drop_last().filter(complete));
        if b.last().is_complete() {
            assert(x.push(b.last()).map_values(sink) == x.map_values(sink).push(sink(b.last())));
            assert(y.push(b.last()).map_values(sink) == y.map_values(sink).push(sink(b.last())));
        }
        assert(listed_sinks(a + b, default_sink) == listed_sinks(a, default_sink) + listed_sinks(
            b,
            default_sink,
        ));
    }
}

/// One entry stands for one sink, with its name and its description, which is the default one
/// exactly where it bears the name of the default sink. An entry without a name or without a
/// description stands for none.
pub proof fn lemma_sink_of_an_entry(entry: EntryView, default_sink: Seq<char>)
    ensures
        entry.name is Some && entry.description is Some ==> {
            let listed = listed_sinks(seq![entry], default_sink);
            &&& listed.len() == 1
            &&& listed[0].name == entry.name->0
            &&& listed[0].description == entry.description->0
            &&& listed[0].is_default <==> entry.name->0 == default_sink
        },
        entry.name is None || entry.description is None ==> listed_sinks(
            seq![entry],
            default_sink,
        ).len() == 0,
{
    reveal(Seq::filter);
    let complete = |e: EntryView| e.is_complete();
    assert(seq![entry].drop_last() == Seq::<EntryView>::empty());
    assert(seq![entry].drop_last().filter(complete) == Seq::<EntryView>::empty());
    assert(seq![entry].last() == entry);
}

/// The name and the description of an entry are the text members of those names, where the
/// JSON value has them, whatever else it has.
pub proof fn lemma_entry_by_its_members(members: Map<Seq<char>, Seq<char>>)
    ensures
        entry_of(members).name is Some <==> members.dom().contains("name"@),
        entry_of(members).name is Some ==> entry_of(members).name->0 == members["name"@],
        entry_of(members).description is Some <==> members.dom().contains("description"@),
        entry_of(members).description is Some ==> entry_of(members).description->0
            == members["description"@],
{
}

/// Trimming takes white space off both ends and nothing else: what is left lies in one piece
/// in the text, all around it is white space, and neither of its own ends is.
pub proof fn lemma_trimming_takes_white_space(text: Seq<char>) -> (ends: (int, int))
    ensures
        0 <= ends.0 <= ends.1 <= text.len(),
        trim_end(trim_start(text)) == text.subrange(ends.0, ends.1),
        forall|i: int| 0 <= i < ends.0 ==> is_white_space(#[trigger] text[i]),
        forall|i: int| ends.1 <= i < text.len() ==> is_white_space(#[trigger] text[i]),
        ends.0 < ends.1 ==> !is_white_space(text[ends.0]) && !is_white_space(text[ends.1 - 1]),
{
    let from = lemma_trim_start(text);
    let rest = trim_start(text);
    let len = lemma_trim_end(rest);
    assert(rest == text.subrange(from, text.len() as int));
    assert(rest.subrange(0, len) == text.subrange(from, from + len));
    assert forall|i: int| from + len <= i < text.len() implies is_white_space(
        #[trigger] text[i],
    ) by {
        assert(rest[i - from] == text[i]);
    }
    if len > 0 {
        assert(rest[0] == text[from]);
        assert(rest[len - 1] == text[from + len - 1]);
    }
    (from, from + len)
}

/// What white space a text starts with is taken off.
proof fn lemma_trim_start(text: Seq<char>) -> (from: int)
    ensures
        0 <= from <= text.len(),
        trim_start(text) == text.subrange(from, text.len() as int),
        forall|i: int| 0 <= i < from ==> is_white_space(#[trigger] text[i]),
        from < text.len() ==> !is_white_space(text[from]),
    decreases text.len(),
{
    if text.len() > 0 && is_white_space(text.first()) {
        let rest = text.drop_first();
        let from = lemma_trim_start(rest);
        assert(rest.subrange(from, rest.len() as int) == text.subrange(
            from + 1,
            text.len() as int,
        ));
        assert forall|i: int| 0 <= i < from + 1 implies is_white_space(#[trigger] text[i]) by {
            if i > 0 {
                assert(rest[i - 1] == text[i]);
            }
        }
        from + 1
    } else {
        assert(text.subrange(0, text.len() as int) == text);
        0
    }
}

/// What white space a text ends with is taken off.
proof fn lemma_trim_end(text: Seq<char>) -> (len: int)
    ensures
        0 <= len <= text.len(),
        trim_end(text) == text.subrange(0, len),
        forall|i: int| len <= i < text.len() ==> is_white_space(#[trigger] text[i]),
        len > 0 ==> !is_white_space(text[len - 1]),
    decreases text.len(),
{
    if text.len() > 0 && is_white_space(text.last()) {
        let rest = text.drop_last();
        let len = lemma_trim_end(rest);
        assert(rest.subrange(0, len) == text.subrange(0, len));
        assert forall|i: int| len <= i < text.len() implies is_white_space(#[trigger] text[i]) by {
            if i < rest.len() {
                assert(rest[i] == text[i]);
            }
        }
        len
    } else {
        assert(text.subrange(0, text.len() as int) == text);
        text.len() as int
    }
}

/// The default sink is known by what the command printed, whether or not it was successful,
/// and there is no name where it did not run.
pub proof fn lemma_default_sink_is_what_was_printed(a: CommandOutput, b: CommandOutput)
    requires
        a.stdout@ == b.stdout@,
    ensures
        default_sink_spec(Some(a)) == default_sink_spec(Some(b)),
        default_sink_spec(Some(a)) == trim_end(trim_start(lossy_text(a.stdout@))),
        default_sink_spec(None).len() == 0,
{
}

/// The views of sinks and of entries hold all that these do.
pub proof fn lemma_sink_views_are_faithful(sink: AudioSink, entry: SinkEntry)
    ensures
        sink@.name == sink.name@,
        sink@.description == sink.description@,
        sink@.is_default == sink.is_default,
        is_text(entry.name, entry@.name is Some, entry@.name->0),
        is_text(entry.description, entry@.description is Some, entry@.description->0),
{
}

/// Every JSON value of a listing with a name and a description that are texts is listed, with
/// these, and marked exactly where the name is that of the default sink.
pub proof fn lemma_every_sink_is_listed(
    values: Seq<Map<Seq<char>, Seq<char>>>,
    default_sink: Seq<char>,
    i: int,
)
    requires
        0 <= i < values.len(),
        values[i].dom().contains("name"@),
        values[i].dom().contains("description"@),
    ensures
        listed_sinks(
            values.map_values(|m: Map<Seq<char>, Seq<char>>| entry_of(m)),
            default_sink,
        ).contains(
            (SinkView {
                name: values[i]["name"@],
                description: values[i]["description"@],
                is_default: values[i]["name"@] == default_sink,
            }),
        ),
{
    let entries = values.map_values(|m: Map<Seq<char>, Seq<char>>| entry_of(m));
    assert(entries[i] == entry_of(values[i]));
    assert(entries[i].is_complete());
    lemma_complete_entries_are_listed(entries, default_sink, entries[i].sink(default_sink));
}

} // verus!
