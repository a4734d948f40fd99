//! The fallback decoder, for the formats that the fast one does not know.
//!
//! FFmpeg takes the file apart; [`Decoding`] decides what becomes of the packets and
//! frames that come out of it, and at the end whether what was decoded is worth
//! playing. Samples are interleaved 32-bit floats, held by their bit patterns.

use crate::text::{append_decimal, join};
use vstd::arithmetic::div_mod::lemma_fundamental_div_mod_converse;
use vstd::prelude::*;

verus! {

/// How the samples of several channels lie in memory.
#[derive(Clone, Copy, Debug, PartialEq, Eq, Structural)]
pub enum Packing {
    /// One sample of each channel in turn.
    Packed,
    /// Each channel on its own.
    Planar,
}

/// The format of a sample.
#[derive(Clone, Copy, Debug, PartialEq, Eq, Structural)]
pub enum SampleFormat {
    Unknown,
    U8(Packing),
    I16(Packing),
    I32(Packing),
    I64(Packing),
    F32(Packing),
    F64(Packing),
}

/// The channels of the decoded track.
#[derive(Clone, Copy, Debug, PartialEq, Eq, Structural)]
pub enum TargetLayout {
    Mono,
    Stereo,
}

/// The layout that frames with this many channels are brought to.
pub open spec fn target_layout_spec(channels: u16) -> TargetLayout {
    if channels <= 1 {
        TargetLayout::Mono
    } else {
        TargetLayout::Stereo
    }
}

/// The number of channels of a layout.
pub open spec fn layout_channels(layout: TargetLayout) -> u16 {
    match layout {
        TargetLayout::Mono => 1,
        TargetLayout::Stereo => 2,
    }
}

/// The layout that frames with this many channels are brought to.
pub fn target_layout(channels: u16) -> (r: TargetLayout)
    ensures
        r == target_layout_spec(channels),
        r is Mono <==> channels <= 1,
{
    if channels <= 1 {
        TargetLayout::Mono
    } else {
        TargetLayout::Stereo
    }
}

/// A frame as it leaves the decoder.
#[derive(Clone, Copy, Debug)]
pub struct FrameInfo {
    pub rate: u32,
    pub format: SampleFormat,
    pub channels: u16,
    /// Whether its channel layout is the one of [`target_layout`].
    pub layout_is_target: bool,
    /// Whether its channel layout is the one that the resampler was last made for.
    pub layout_is_resamplers: bool,
}

/// What a resampler has to be made for.
#[derive(Clone, Copy, Debug, PartialEq, Eq, Structural)]
pub struct ResamplerSpec {
    pub from_format: SampleFormat,
    pub from_rate: u32,
    pub to_format: SampleFormat,
    pub to_layout: TargetLayout,
    pub to_rate: u32,
}

/// What to do with a frame.
#[derive(Clone, Copy, Debug, PartialEq, Eq, Structural)]
pub enum FramePlan {
    /// Append its samples as they are.
    Append,
    /// Send it through the resampler, which first has to be made anew where there is
    /// something to make it for.
    Resample(Option<ResamplerSpec>),
}

/// A track being decoded.
#[derive(Debug)]
pub struct Decoding {
    pub stream_index: usize,
    pub samples: Vec<u32>,
    pub rate: u32,
    pub channels: u16,
    pub total_packets: u32,
    pub failed_packets: u32,
    pub has_resampler: bool,
    /// The format that the resampler was last made for.
    pub resampler_format: SampleFormat,
    /// The rate that the resampler was last made for.
    pub resampler_rate: u32,
}

/// A decoded track.
#[derive(Debug)]
pub struct DecodedAudio {
    pub samples: Vec<u32>,
    pub rate: u32,
    pub channels: u16,
}

/// The steps that come before the first packet.
#[derive(Clone, Copy, Debug, PartialEq, Eq, Structural)]
pub enum DecodeStage {
    TempFile,
    Write,
    Flush,
    Open,
    Decoder,
}

/// What the message about a failed step starts with.
pub open spec fn stage_prefix(stage: DecodeStage) -> Seq<char> {
    match stage {
        DecodeStage::TempFile => "tempfile: "@,
        DecodeStage::Write => "write tmp: "@,
        DecodeStage::Flush => "flush tmp: "@,
        DecodeStage::Open => "FFmpeg open failed: "@,
        DecodeStage::Decoder => "FFmpeg decoder: "@,
    }
}

/// The message about a failed step.
pub fn stage_error(stage: DecodeStage, cause: &str) -> (r: String)
    ensures
        r@ == stage_prefix(stage) + cause@,
        stage is TempFile ==> r@ == "tempfile: "@ + cause@,
        stage is Write ==> r@ == "write tmp: "@ + cause@,
        stage is Flush ==> r@ == "flush tmp: "@ + cause@,
        stage is Open ==> r@ == "FFmpeg open failed: "@ + cause@,
        stage is Decoder ==> r@ == "FFmpeg decoder: "@ + cause@,
{
    match stage {
        DecodeStage::TempFile => join("tempfile: ", cause),
        DecodeStage::Write => join("write tmp: ", cause),
        DecodeStage::Flush => join("flush tmp: ", cause),
        DecodeStage::Open => join("FFmpeg open failed: ", cause),
        DecodeStage::Decoder => join("FFmpeg decoder: ", cause),
    }
}

/// The word at an offset, with the lowest byte first.
pub open spec fn word_le(bytes: Seq<u8>, at: int) -> int {
    bytes[at] + 0x100 * bytes[at + 1] + 0x1_0000 * bytes[at + 2] + 0x100_0000 * bytes[at + 3]
}

/// The word at an offset, with the highest byte first.
pub open spec fn word_be(bytes: Seq<u8>, at: int) -> int {
    0x100_0000 * bytes[at] + 0x1_0000 * bytes[at + 1] + 0x100 * bytes[at + 2] + bytes[at + 3]
}

/// The word at an offset, in the byte order of the machine.
pub open spec fn word_at(bytes: Seq<u8>, at: int) -> int {
    if vstd::endian::endianness() is Little {
        word_le(bytes, at)
    } else {
        word_be(bytes, at)
    }
}

/// The words that the bytes hold, one behind the other.
pub open spec fn words_of(bytes: Seq<u8>) -> Seq<u32> {
    Seq::new(bytes.len() / 4, |i: int| word_at(bytes, 4 * i) as u32)
}

/// `bytemuck::pod_collect_to_vec`: copies the bytes into words, bit for bit, so that each
/// word is the one that the machine reads at its place.
#[verifier::external_body]
fn sample_words(bytes: &[u8]) -> (r: Vec<u32>)
    requires
        bytes@.len() % 4 == 0,
    ensures
        r@ == words_of(bytes@),
{
    bytemuck::pod_collect_to_vec(bytes)
}

impl FrameInfo {
    /// Whether the samples can be appended as they are.
    pub open spec fn is_plain(self) -> bool {
        self.format == SampleFormat::F32(Packing::Packed) && self.layout_is_target
    }

    /// What a resampler for the frame has to be made for: packed 32-bit floats at the
    /// same rate, in the target layout.
    pub open spec fn resampler(self) -> ResamplerSpec {
        ResamplerSpec {
            from_format: self.format,
            from_rate: self.rate,
            to_format: SampleFormat::F32(Packing::Packed),
            to_layout: target_layout_spec(self.channels),
            to_rate: self.rate,
        }
    }
}

/// A [`Decoding`] with its samples as a sequence and its counters without limits.
#[verifier::ext_equal]
pub struct DecodingView {
    pub stream_index: int,
    pub samples: Seq<u32>,
    pub rate: int,
    pub channels: int,
    pub total_packets: int,
    pub failed_packets: int,
    pub has_resampler: bool,
    pub resampler_format: SampleFormat,
    pub resampler_rate: int,
}

impl View for Decoding {
    type V = DecodingView;

    open spec fn view(&self) -> DecodingView {
        DecodingView {
            stream_index: self.stream_index as int,
            samples: self.samples@,
            rate: self.rate as int,
            channels: self.channels as int,
            total_packets: self.total_packets as int,
            failed_packets: self.failed_packets as int,
            has_resampler: self.has_resampler,
            resampler_format: self.resampler_format,
            resampler_rate: self.resampler_rate as int,
        }
    }
}

/// What happens while a track is decoded.
pub enum DecodeEvent {
    /// A packet of this stream has been read.
    Packet(int),
    /// The packet was accepted by the decoder, or not.
    Sent(bool),
    /// A frame has been received.
    Frame(FrameInfo),
    /// A resampler has been made, or could not be.
    Resampler(bool),
    /// Samples have been appended.
    Samples(Seq<u32>),
}

impl DecodingView {
    /// The start, with the audio stream of the file.
    pub open spec fn start(stream_index: int) -> DecodingView {
        DecodingView {
            stream_index,
            samples: Seq::empty(),
            rate: 0,
            channels: 0,
            total_packets: 0,
            failed_packets: 0,
            has_resampler: false,
            resampler_format: SampleFormat::Unknown,
            resampler_rate: 0,
        }
    }

    /// No more packets have failed than there were, and samples have a channel to
    /// belong to.
    pub open spec fn wf(self) -> bool {
        &&& 0 <= self.failed_packets <= self.total_packets
        &&& 0 <= self.channels <= 2
        &&& self.samples.len() > 0 ==> self.channels > 0
    }

    /// Whether the resampler there is, if any, was made for another kind of frame.
    pub open spec fn resampler_is_outdated(self, frame: FrameInfo) -> bool {
        ||| !self.has_resampler
        ||| self.resampler_format != frame.format
        ||| !frame.layout_is_resamplers
        ||| self.resampler_rate != frame.rate
    }

    /// What to do with a frame.
    pub open spec fn plan(self, frame: FrameInfo) -> FramePlan {
        if frame.is_plain() {
            FramePlan::Append
        } else if self.resampler_is_outdated(frame) {
            FramePlan::Resample(Some(frame.resampler()))
        } else {
            FramePlan::Resample(None)
        }
    }

    /// Whether an event can come at this point. Samples come as many for each channel.
    pub open spec fn expects(self, event: DecodeEvent) -> bool {
        match event {
            DecodeEvent::Sent(_) => self.failed_packets < self.total_packets,
            DecodeEvent::Samples(words) => self.channels > 0 && words.len() % (self.channels as nat)
                == 0,
            _ => true,
        }
    }

    /// The state after an event.
    pub open spec fn after(self, event: DecodeEvent) -> DecodingView {
        match event {
            DecodeEvent::Packet(stream_index) => DecodingView {
                total_packets: self.total_packets + if stream_index == self.stream_index {
                    1int
                } else {
                    0
                },
                ..self
            },
            DecodeEvent::Sent(accepted) => DecodingView {
                failed_packets: self.failed_packets + if accepted {
                    0int
                } else {
                    1
                },
                ..self
            },
            DecodeEvent::Frame(frame) => {
                let makes_resampler = !frame.is_plain() && self.resampler_is_outdated(frame);
                DecodingView {
                    rate: frame.rate as int,
                    channels: layout_channels(target_layout_spec(frame.channels)) as int,
                    resampler_format: if makes_resampler {
                        frame.format
                    } else {
                        self.resampler_format
                    },
                    resampler_rate: if makes_resampler {
                        frame.rate as int
                    } else {
                        self.resampler_rate
                    },
                    ..self
                }
            },
            DecodeEvent::Resampler(made) => DecodingView { has_resampler: made, ..self },
            DecodeEvent::Samples(words) => DecodingView { samples: self.samples + words, ..self },
        }
    }

    /// Whether most packets could not be decoded.
    pub open spec fn is_mostly_bad(self) -> bool {
        self.total_packets > 0 && self.failed_packets > self.total_packets / 2
    }

    /// Whether the samples make up less than half a second.
    pub open spec fn is_too_short(self) -> bool {
        2 * self.samples.len() < self.rate * (if self.channels == 0 {
            1
        } else {
            self.channels
        })
    }

    /// Whether the outcome is a track.
    pub open spec fn is_track(self) -> bool {
        self.samples.len() > 0 && self.rate != 0 && !self.is_mostly_bad() && !self.is_too_short()
    }
}

impl Decoding {
    /// Starts with the audio stream of the file, if it has one.
    pub fn new(stream_index: Option<usize>) -> (r: Result<Decoding, String>)
        ensures
            match stream_index {
                None => r is Err && r->Err_0@ == "No audio stream found"@,
                Some(index) => {
                    &&& r is Ok
                    &&& r->Ok_0@ == DecodingView::start(index as int)
                    &&& r->Ok_0.stream_index == index
                    &&& r->Ok_0.samples@.len() == 0
                    &&& r->Ok_0.rate == 0
                    &&& r->Ok_0.channels == 0
                    &&& r->Ok_0.total_packets == 0
                    &&& r->Ok_0.failed_packets == 0
                    &&& !r->Ok_0.has_resampler
                    &&& r->Ok_0@.wf()
                },
            },
    {
        match stream_index {
            None => Err(String::from_str("No audio stream found")),
            Some(index) => Ok(
                Decoding {
                    stream_index: index,
                    samples: Vec::new(),
                    rate: 0,
                    channels: 0,
                    total_packets: 0,
                    failed_packets: 0,
                    has_resampler: false,
                    resampler_format: SampleFormat::Unknown,
                    resampler_rate: 0,
                },
            ),
        }
    }

    /// A packet has been read. Returns whether it is to be sent to the decoder: packets
    /// of other streams are skipped.
    pub fn wants_packet(&mut self, stream_index: usize) -> (r: bool)
        requires
            stream_index == old(self).stream_index ==> old(self).total_packets < u32::MAX,
        ensures
            r == (stream_index == old(self).stream_index),
            final(self)@ == old(self)@.after(DecodeEvent::Packet(stream_index as int)),
            final(self).total_packets == old(self).total_packets + if stream_index == old(
                self,
            ).stream_index {
                1int
            } else {
                0
            },
            final(self).stream_index == old(self).stream_index,
            final(self).samples@ == old(self).samples@,
            final(self).rate == old(self).rate,
            final(self).channels == old(self).channels,
            final(self).failed_packets == old(self).failed_packets,
            final(self).has_resampler == old(self).has_resampler,
            final(self).resampler_format == old(self).resampler_format,
            final(self).resampler_rate == old(self).resampler_rate,
            old(self)@.wf() ==> final(self)@.wf(),
            old(self)@.wf() && r ==> final(self).failed_packets < final(self).total_packets,
    {
        if stream_index != self.stream_index {
            return false;
        }
        self.total_packets = self.total_packets + 1;
        true
    }

    /// A packet has been sent to the decoder, which accepts it or not. Returns whether
    /// there are frames to receive.
    pub fn packet_sent(&mut self, accepted: bool) -> (r: bool)
        requires
            old(self).failed_packets < old(self).total_packets,
        ensures
            r == accepted,
            final(self)@ == old(self)@.after(DecodeEvent::Sent(accepted)),
            final(self).failed_packets == old(self).failed_packets + if accepted {
                0int
            } else {
                1
            },
            final(self).stream_index == old(self).stream_index,
            final(self).samples@ == old(self).samples@,
            final(self).rate == old(self).rate,
            final(self).channels == old(self).channels,
            final(self).total_packets == old(self).total_packets,
            final(self).has_resampler == old(self).has_resampler,
            final(self).resampler_format == old(self).resampler_format,
            final(self).resampler_rate == old(self).resampler_rate,
            old(self)@.wf() ==> final(self)@.wf(),
    {
        if !accepted {
            self.failed_packets = self.failed_packets + 1;
        }
        accepted
    }

    /// A frame has been received. The track takes its rate, and its channels as far as
    /// there are no more than two.
    pub fn frame(&mut self, frame: &FrameInfo) -> (r: FramePlan)
        ensures
            r == old(self)@.plan(*frame),
            final(self)@ == old(self)@.after(DecodeEvent::Frame(*frame)),
            r is Append <==> frame.format == SampleFormat::F32(Packing::Packed)
                && frame.layout_is_target,
            r == FramePlan::Resample(None) <==> r !is Append && old(self).has_resampler && old(
                self,
            ).resampler_format == frame.format && old(self).resampler_rate == frame.rate
                && frame.layout_is_resamplers,
            r matches FramePlan::Resample(Some(spec)) ==> {
                &&& spec.from_format == frame.format
                &&& spec.from_rate == frame.rate
                &&& spec.to_format == SampleFormat::F32(Packing::Packed)
                &&& spec.to_rate == frame.rate
                &&& spec.to_layout is Mono <==> frame.channels <= 1
                &&& final(self).resampler_format == frame.format
                &&& final(self).resampler_rate == frame.rate
            },
            !(r matches FramePlan::Resample(Some(_))) ==> {
                &&& final(self).resampler_format == old(self).resampler_format
                &&& final(self).resampler_rate == old(self).resampler_rate
            },
            final(self).rate == frame.rate,
            final(self).channels == if frame.channels <= 1 {
                1int
            } else {
                2
            },
            final(self).stream_index == old(self).stream_index,
            final(self).samples@ == old(self).samples@,
            final(self).total_packets == old(self).total_packets,
            final(self).failed_packets == old(self).failed_packets,
            final(self).has_resampler == old(self).has_resampler,
            old(self)@.wf() ==> final(self)@.wf(),
    {
        let layout = target_layout(frame.channels);
        self.rate = frame.rate;
        self.channels = match layout {
            TargetLayout::Mono => 1,
            TargetLayout::Stereo => 2,
        };
        let packed = SampleFormat::F32(Packing::Packed);
        if frame.format == packed && frame.layout_is_target {
            return FramePlan::Append;
        }
        if !self.has_resampler || self.resampler_format != frame.format
            || !frame.layout_is_resamplers || self.resampler_rate != frame.rate {
            self.resampler_format = frame.format;
            self.resampler_rate = frame.rate;
            FramePlan::Resample(
                Some(
                    ResamplerSpec {
                        from_format: frame.format,
                        from_rate: frame.rate,
                        to_format: packed,
                        to_layout: layout,
                        to_rate: frame.rate,
                    },
                ),
            )
        } else {
            FramePlan::Resample(None)
        }
    }

    /// A resampler was to be made, which has worked or not. Without one, frames that
    /// need it are dropped, and each of them asks for a new one.
    pub fn resampler_made(&mut self, made: bool)
        ensures
            final(self)@ == old(self)@.after(DecodeEvent::Resampler(made)),
            final(self).has_resampler == made,
            final(self).stream_index == old(self).stream_index,
            final(self).samples@ == old(self).samples@,
            final(self).rate == old(self).rate,
            final(self).channels == old(self).channels,
            final(self).total_packets == old(self).total_packets,
            final(self).failed_packets == old(self).failed_packets,
            final(self).resampler_format == old(self).resampler_format,
            final(self).resampler_rate == old(self).resampler_rate,
            old(self)@.wf() ==> final(self)@.wf(),
    {
        self.has_resampler = made;
    }

    /// Appends the samples of a frame, or of what the resampler has made of it.
    /// `samples` counts those of one channel, and `data` holds those of all channels,
    /// perhaps with something behind them.
    pub fn append(&mut self, samples: usize, data: &[u8])
        requires
            old(self).channels > 0,
            4 * (samples * old(self).channels) <= data@.len(),
        ensures
            final(self)@ == old(self)@.after(
                DecodeEvent::Samples(words_of(data@.take(4 * (samples * old(self).channels)))),
            ),
            old(self)@.expects(
                DecodeEvent::Samples(words_of(data@.take(4 * (samples * old(self).channels)))),
            ),
            final(self).samples@.len() == old(self).samples@.len() + samples * old(self).channels,
            final(self).samples@.take(old(self).samples@.len() as int) == old(self).samples@,
            forall|i: int|
                old(self).samples@.len() <= i < final(self).samples@.len() ==> (
                #[trigger] final(self).samples@[i]) == word_at(
                    data@,
                    4 * (i - old(self).samples@.len()),
                ),
            final(self).stream_index == old(self).stream_index,
            final(self).rate == old(self).rate,
            final(self).channels == old(self).channels,
            final(self).total_packets == old(self).total_packets,
            final(self).failed_packets == old(self).failed_packets,
            final(self).has_resampler == old(self).has_resampler,
            final(self).resampler_format == old(self).resampler_format,
            final(self).resampler_rate == old(self).resampler_rate,
            old(self)@.wf() ==> final(self)@.wf(),
    {
        let size: usize = data.len();
        let ghost words_wanted = samples * self.channels;
        assert(0 <= words_wanted) by (nonlinear_arith)
            requires
                words_wanted == samples * self.channels,
        ;
        assert(4 * words_wanted <= size);
        let count: usize = samples * (self.channels as usize);
        let bytes = vstd::slice::slice_subrange(data, 0, count * 4);
        let words = sample_words(bytes);
        assert(words@.len() == count);
        let ghost before = self.samples@;
        self.samples.extend_from_slice(words.as_slice());
        proof {
            assert(bytes@ == data@.take(4 * count));
            assert(self.samples@ == before + words@);
            vstd::arithmetic::div_mod::lemma_mod_multiples_basic(
                samples as int,
                self.channels as int,
            );
        }
    }

    /// The file has been decoded to its end. Nothing, mostly bad packets and less than
    /// half a second are not a track.
    pub fn finish(self) -> (r: Result<DecodedAudio, String>)
        ensures
            if self.samples@.len() == 0 || self.rate == 0 {
                r is Err && r->Err_0@ == "FFmpeg decoded 0 samples"@
            } else if self@.is_mostly_bad() {
                &&& r is Err
                &&& r->Err_0@ == "FFmpeg: too many bad packets ("@ + crate::text::decimal(
                    self.failed_packets as nat,
                ) + "/"@ + crate::text::decimal(self.total_packets as nat)
                    + "), data likely encrypted"@
            } else if self@.is_too_short() {
                r is Err && r->Err_0@ == "FFmpeg: decoded audio too short, likely corrupt"@
            } else {
                &&& r is Ok
                &&& r->Ok_0.samples == self.samples
                &&& r->Ok_0.rate == self.rate
                &&& r->Ok_0.channels == self.channels
            },
            r is Ok <==> self@.is_track(),
            r is Ok <==> {
                &&& self.samples@.len() > 0
                &&& self.rate > 0
                &&& self.total_packets == 0 || self.failed_packets <= self.total_packets / 2
                &&& 2 * self.samples@.len() >= self.rate * self.channels
                &&& 2 * self.samples@.len() >= self.rate
            },
            self@.wf() && r is Ok ==> {
                &&& r->Ok_0.rate > 0
                &&& 1 <= r->Ok_0.channels <= 2
                &&& 2 * r->Ok_0.samples@.len() >= r->Ok_0.rate * r->Ok_0.channels
            },
    {
        proof {
            let (rate, channels) = (self.rate as int, self.channels as int);
            assert(channels >= 1 ==> rate * channels >= rate) by (nonlinear_arith)
                requires
                    rate >= 0,
            ;
            assert(channels == 0 ==> rate * channels == 0) by (nonlinear_arith);
        }
        if self.samples.len() == 0 || self.rate == 0 {
            return Err(String::from_str("FFmpeg decoded 0 samples"));
        }
        if self.total_packets > 0 && self.failed_packets > self.total_packets / 2 {
            let mut message = String::from_str("FFmpeg: too many bad packets (");
            append_decimal(&mut message, self.failed_packets);
            message.append("/");
            append_decimal(&mut message, self.total_packets);
            message.append("), data likely encrypted");
            return Err(message);
        }
        let channels: u16 = if self.channels == 0 { 1 } else { self.channels };
        let rate: u128 = self.rate as u128;
        assert(rate * channels <= 0xffff_ffff * 0xffff) by (nonlinear_arith)
            requires
                rate <= 0xffff_ffff,
                channels <= 0xffff,
        ;
        if (self.samples.len() as u128) * 2 < rate * (channels as u128) {
            return Err(String::from_str("FFmpeg: decoded audio too short, likely corrupt"));
        }
        Ok(DecodedAudio { samples: self.samples, rate: self.rate, channels: self.channels })
    }
}

/// Whether what the resampler has made of a frame is to be appended: it ran, and there
/// is something.
pub fn resampled_is_kept(ran: bool, samples: usize) -> (r: bool)
    ensures
        r == (ran && samples > 0),
{
    ran && samples > 0
}

impl DecodingView {
    /// The state after a run of events.
    pub open spec fn after_all(self, events: Seq<DecodeEvent>) -> DecodingView
        decreases events.len(),
    {
        if events.len() == 0 {
            self
        } else {
            self.after_all(events.drop_last()).after(events.last())
        }
    }

    /// Whether the events of a run can come, each in its turn.
    pub open spec fn expects_all(self, events: Seq<DecodeEvent>) -> bool
        decreases events.len(),
    {
        events.len() == 0 || (self.expects_all(events.drop_last()) && self.after_all(
            events.drop_last(),
        ).expects(events.last()))
    }
}

/// The packets of a stream in a run of events.
pub open spec fn packets_of(events: Seq<DecodeEvent>, stream_index: int) -> int {
    events.filter(|e: DecodeEvent| e == DecodeEvent::Packet(stream_index)).len() as int
}

/// The packets that were not accepted in a run of events.
pub open spec fn refusals(events: Seq<DecodeEvent>) -> int {
    events.filter(|e: DecodeEvent| e == DecodeEvent::Sent(false)).len() as int
}

/// The samples that were appended in a run of events, one behind the other.
pub open spec fn samples_of(events: Seq<DecodeEvent>) -> Seq<u32>
    decreases events.len(),
{
    if events.len() == 0 {
        Seq::empty()
    } else {
        match events.last() {
            DecodeEvent::Samples(words) => samples_of(events.drop_last()) + words,
            _ => samples_of(events.drop_last()),
        }
    }
}

/// The last frame in a run of events, if there is one.
pub open spec fn last_frame(events: Seq<DecodeEvent>) -> Option<FrameInfo>
    decreases events.len(),
{
    if events.len() == 0 {
        None
    } else {
        match events.last() {
            DecodeEvent::Frame(frame) => Some(frame),
            _ => last_frame(events.drop_last()),
        }
    }
}

/// The channels that a track takes from a frame.
pub open spec fn frame_channels(frame: FrameInfo) -> int {
    layout_channels(target_layout_spec(frame.channels)) as int
}

/// Decoding loses and invents nothing: whatever happens, the packets of the stream and
/// those that were refused are counted, and the samples are those that were appended, in
/// their order, with one or two channels as soon as there are any. The rate and the
/// channels are those of the last frame.
pub proof fn lemma_decoding_keeps_account(stream_index: int, events: Seq<DecodeEvent>)
    requires
        DecodingView::start(stream_index).expects_all(events),
    ensures
        ({
            let end = DecodingView::start(stream_index).after_all(events);
            &&& end.wf()
            &&& end.stream_index == stream_index
            &&& end.total_packets == packets_of(events, stream_index)
            &&& end.failed_packets == refusals(events)
            &&& end.samples == samples_of(events)
            &&& match last_frame(events) {
                Some(frame) => end.rate == frame.rate && end.channels == frame_channels(frame),
                None => end.rate == 0 && end.channels == 0,
            }
        }),
    decreases events.len(),
{
    reveal(Seq::filter);
    if events.len() > 0 {
        lemma_decoding_keeps_account(stream_index, events.drop_last());
    }
}

/// Whether an event concerns a stream: all do but the packets of other streams.
pub open spec fn concerns(event: DecodeEvent, stream_index: int) -> bool {
    event is Packet ==> event->Packet_0 == stream_index
}

/// The packets of other streams are of no account: without them everything comes out the
/// same.
pub proof fn lemma_other_streams_are_ignored(start: DecodingView, events: Seq<DecodeEvent>)
    ensures
        ({
            let concerned = events.filter(|e: DecodeEvent| concerns(e, start.stream_index));
            &&& start.after_all(concerned) == start.after_all(events)
            &&& start.expects_all(concerned) == start.expects_all(events)
            &&& start.after_all(events).stream_index == start.stream_index
        }),
    decreases events.len(),
{
    reveal(Seq::filter);
    let pred = |e: DecodeEvent| concerns(e, start.stream_index);
    if events.len() > 0 {
        let before = events.drop_last().filter(pred);
        lemma_other_streams_are_ignored(start, events.drop_last());
        if pred(events.last()) {
            assert(events.filter(pred) == before.push(events.last()));
            assert(before.push(events.last()).drop_last() == before);
        }
    }
}

/// A track is made of whole frames: where all frames come down to the same number of
/// channels, there are as many samples for each of them.
pub proof fn lemma_channels_have_equal_shares(
    stream_index: int,
    events: Seq<DecodeEvent>,
    channels: int,
)
    requires
        DecodingView::start(stream_index).expects_all(events),
        channels > 0,
        forall|i: int|
            0 <= i < events.len() && (#[trigger] events[i]) is Frame ==> frame_channels(
                events[i]->Frame_0,
            ) == channels,
    ensures
        ({
            let end = DecodingView::start(stream_index).after_all(events);
            &&& end.samples.len() as int % channels == 0
            &&& end.channels == 0 || end.channels == channels
        }),
    decreases events.len(),
{
    if events.len() > 0 {
        let before = events.drop_last();
        let last = events.len() - 1;
        assert(events[last] is Frame ==> frame_channels(events[last]->Frame_0) == channels);
        assert forall|i: int|
            0 <= i < before.len() && (#[trigger] before[i]) is Frame implies frame_channels(
            before[i]->Frame_0,
        ) == channels by {
            assert(events[i] is Frame);
        }
        lemma_channels_have_equal_shares(stream_index, before, channels);
        if let DecodeEvent::Samples(words) = events.last() {
            let old_len = DecodingView::start(stream_index).after_all(before).samples.len() as int;
            vstd::arithmetic::div_mod::lemma_mod_adds(old_len, words.len() as int, channels);
        }
    } else {
        vstd::arithmetic::div_mod::lemma_small_mod(0, channels as nat);
    }
}

/// A track is what has samples and a rate, lasts half a second or longer, and comes from
/// packets of which no more than half, rounded down, were refused.
pub proof fn lemma_what_is_a_track(stream_index: int, events: Seq<DecodeEvent>)
    requires
        DecodingView::start(stream_index).expects_all(events),
    ensures
        ({
            let end = DecodingView::start(stream_index).after_all(events);
            end.is_track() <==> {
                &&& samples_of(events).len() > 0
                &&& end.rate != 0
                &&& refusals(events) <= packets_of(events, stream_index) / 2
                &&& 2 * samples_of(events).len() >= end.rate * end.channels
            }
        }),
{
    lemma_decoding_keeps_account(stream_index, events);
}

/// Frames are appended as they are exactly where they hold packed 32-bit floats in the
/// target layout. All others, planar floats among them, go through a resampler, which is the
/// one there is only where it was made for the same format, layout and rate.
pub proof fn lemma_only_packed_floats_are_appended(decoding: DecodingView, frame: FrameInfo)
    ensures
        decoding.plan(frame) is Append <==> frame.format == SampleFormat::F32(Packing::Packed)
            && frame.layout_is_target,
        decoding.plan(frame) == FramePlan::Resample(None) ==> {
            &&& decoding.has_resampler
            &&& decoding.resampler_format == frame.format
            &&& decoding.resampler_rate == frame.rate
            &&& frame.layout_is_resamplers
        },
        decoding.has_resampler && decoding.resampler_format == frame.format
            && decoding.resampler_rate == frame.rate && frame.layout_is_resamplers ==> !(
        decoding.plan(frame) matches FramePlan::Resample(Some(_))),
{
}

/// A resampler turns frames of their own format and rate into packed 32-bit floats at the
/// same rate, on one channel or on two.
pub proof fn lemma_resampler_keeps_the_rate(decoding: DecodingView, frame: FrameInfo)
    ensures
        decoding.plan(frame) matches FramePlan::Resample(Some(spec)) ==> {
            &&& spec.from_format == frame.format
            &&& spec.from_rate == frame.rate
            &&& spec.to_rate == frame.rate
            &&& spec.to_format == SampleFormat::F32(Packing::Packed)
            &&& spec.to_layout is Mono <==> frame.channels <= 1
            &&& layout_channels(spec.to_layout) == decoding.after(
                DecodeEvent::Frame(frame),
            ).channels
        },
        decoding.after(DecodeEvent::Frame(frame)).rate == frame.rate,
        decoding.after(DecodeEvent::Frame(frame)).channels == if frame.channels <= 1 {
            1int
        } else {
            2
        },
{
}

/// What the last resampler of a run of events was asked to be made for, if any was.
pub open spec fn last_resampler(start: DecodingView, events: Seq<DecodeEvent>) -> Option<
    ResamplerSpec,
>
    decreases events.len(),
{
    if events.len() == 0 {
        None
    } else {
        let before = last_resampler(start, events.drop_last());
        match events.last() {
            DecodeEvent::Frame(frame) => match start.after_all(events.drop_last()).plan(frame) {
                FramePlan::Resample(Some(spec)) => Some(spec),
                _ => before,
            },
            _ => before,
        }
    }
}

/// A frame never goes through a resampler that was made for another kind of frame: where no
/// new one is asked for, the last one that was is for the format and the rate of the frame.
pub proof fn lemma_resampler_fits_the_frame(
    stream_index: int,
    events: Seq<DecodeEvent>,
    frame: FrameInfo,
)
    requires
        last_resampler(DecodingView::start(stream_index), events) is Some,
    ensures
        ({
            let start = DecodingView::start(stream_index);
            let spec = last_resampler(start, events)->0;
            let end = start.after_all(events);
            &&& end.resampler_format == spec.from_format
            &&& end.resampler_rate == spec.from_rate
            &&& spec.to_format == SampleFormat::F32(Packing::Packed)
            &&& end.plan(frame) == FramePlan::Resample(None) ==> spec.from_format == frame.format
                && spec.from_rate == frame.rate
        }),
    decreases events.len(),
{
    let start = DecodingView::start(stream_index);
    if last_resampler(start, events.drop_last()) is Some {
        lemma_resampler_fits_the_frame(stream_index, events.drop_last(), frame);
    }
}

/// The bytes of a word, from the lowest to the highest.
proof fn lemma_bytes_of_word(a: int, b: int, c: int, d: int)
    requires
        0 <= a < 0x100,
        0 <= b < 0x100,
        0 <= c < 0x100,
        0 <= d < 0x100,
    ensures
        ({
            let word = a + 0x100 * b + 0x1_0000 * c + 0x100_0000 * d;
            &&& word % 0x100 == a
            &&& word / 0x100 % 0x100 == b
            &&& word / 0x1_0000 % 0x100 == c
            &&& word / 0x100_0000 == d
        }),
{
    let word = a + 0x100 * b + 0x1_0000 * c + 0x100_0000 * d;
    let (q, r) = (b + 0x100 * c + 0x1_0000 * d, c + 0x100 * d);
    lemma_fundamental_div_mod_converse(word, 0x100, q, a);
    lemma_fundamental_div_mod_converse(word, 0x1_0000, r, a + 0x100 * b);
    lemma_fundamental_div_mod_converse(word, 0x100_0000, d, a + 0x100 * b + 0x1_0000 * c);
    lemma_fundamental_div_mod_converse(q, 0x100, r, b);
    lemma_fundamental_div_mod_converse(r, 0x100, d, c);
}

/// A word holds the four bytes at its place: the first of them lowest on a machine that has
/// the lowest byte first, and highest on the others.
pub proof fn lemma_word_holds_its_bytes(bytes: Seq<u8>, at: int)
    ensures
        0 <= word_at(bytes, at) <= u32::MAX,
        vstd::endian::endianness() is Little ==> {
            &&& word_at(bytes, at) % 0x100 == bytes[at]
            &&& word_at(bytes, at) / 0x100 % 0x100 == bytes[at + 1]
            &&& word_at(bytes, at) / 0x1_0000 % 0x100 == bytes[at + 2]
            &&& word_at(bytes, at) / 0x100_0000 == bytes[at + 3]
        },
        vstd::endian::endianness() is Big ==> {
            &&& word_at(bytes, at) / 0x100_0000 == bytes[at]
            &&& word_at(bytes, at) / 0x1_0000 % 0x100 == bytes[at + 1]
            &&& word_at(bytes, at) / 0x100 % 0x100 == bytes[at + 2]
            &&& word_at(bytes, at) % 0x100 == bytes[at + 3]
        },
{
    let (a, b, c, d) = (
        bytes[at] as int,
        bytes[at + 1] as int,
        bytes[at + 2] as int,
        bytes[at + 3] as int,
    );
    lemma_bytes_of_word(a, b, c, d);
    lemma_bytes_of_word(d, c, b, a);
}

/// Reading two stretches of whole words one after the other is reading them in one.
pub proof fn lemma_words_are_read_in_order(a: Seq<u8>, b: Seq<u8>)
    requires
        a.len() % 4 == 0,
    ensures
        words_of(a + b) == words_of(a) + words_of(b),
        words_of(a).len() == a.len() / 4,
{
    let (whole, parts) = (words_of(a + b), words_of(a) + words_of(b));
    assert(whole.len() == parts.len());
    assert forall|i: int| 0 <= i < whole.len() implies whole[i] == parts[i] by {
        let n = a.len() / 4;
        if i < n {
            assert(word_at(a + b, 4 * i) == word_at(a, 4 * i));
        } else {
            assert(word_at(a + b, 4 * i) == word_at(b, 4 * (i - n)));
        }
    }
    assert(whole == parts);
}

/// The view of a decoding holds all that the decoding does.
pub proof fn lemma_decoding_view_is_faithful(decoding: Decoding)
    ensures
        decoding@.stream_index == decoding.stream_index,
        decoding@.samples == decoding.samples@,
        decoding@.rate == decoding.rate,
        decoding@.channels == decoding.channels,
        decoding@.total_packets == decoding.total_packets,
        decoding@.failed_packets == decoding.failed_packets,
        decoding@.has_resampler == decoding.has_resampler,
        decoding@.resampler_format == decoding.resampler_format,
        decoding@.resampler_rate == decoding.resampler_rate,
{
}

/// Frames with one channel or none become mono, all others stereo.
pub proof fn lemma_layouts(channels: u16)
    ensures
        layout_channels(target_layout_spec(channels)) == 1 <==> channels <= 1,
        layout_channels(target_layout_spec(channels)) == 2 <==> channels >= 2,
        target_layout_spec(channels) is Mono <==> channels <= 1,
{
}

} // verus!
