//! The ten-band equalizer.
//!
//! [`EqParams`] is what the listener sets. [`EqSource`] follows the samples of one
//! track: for each of them it says which filters the sample passes through, and
//! which filters have to be built anew first. The filters themselves, and the
//! arithmetic on samples, belong to whoever owns the audio stream.

use crate::binary64::{
    distance, lemma_difference_keeps_bounds, lemma_rank_orders_numbers, lemma_units_by_exponent,
    lemma_within_is_nearer, Binary64, INFINITY, SIGN,
};
use vstd::prelude::*;

verus! {

pub const EQ_BANDS: usize = 10;

/// The frequency of each band, in hertz.
pub const EQ_FREQS: [u32; 10] = [32, 64, 125, 250, 500, 1000, 2000, 4000, 8000, 16000];

/// 1.414: about one octave of bandwidth for a peaking filter.
pub const EQ_Q: u64 = 0x3ff6_9fbe_76c8_b439;

/// -12 dB, the lowest gain of a band.
pub const MIN_GAIN: u64 = 0xc028_0000_0000_0000;

/// +12 dB, the highest gain of a band.
pub const MAX_GAIN: u64 = 0x4028_0000_0000_0000;

/// A hundredth of a decibel. A gain that moves by less leaves its filter alone.
pub const GAIN_STEP: u64 = 0x3f84_7ae1_47ae_147b;

/// -1, the lowest sample.
pub const MIN_SAMPLE: u64 = 0xbff0_0000_0000_0000;

/// 1, the highest sample.
pub const MAX_SAMPLE: u64 = 0x3ff0_0000_0000_0000;

/// The equalizer as the listener set it, with the gains in decibels.
#[derive(Clone, Copy, Debug)]
pub struct EqParams {
    pub enabled: bool,
    pub gains: [Binary64; EQ_BANDS],
}

/// The gain that is kept of a gain that was asked for.
pub open spec fn kept_gain(gain: Binary64) -> Binary64 {
    gain.clamp_spec(Binary64 { bits: MIN_GAIN }, Binary64 { bits: MAX_GAIN })
}

/// A gain from -12 to +12 dB, or none at all where what was set is not a number.
pub open spec fn gain_in_range(gain: Binary64) -> bool {
    gain.is_nan_spec() || Binary64 { bits: MIN_GAIN }.rank() <= gain.rank() <= Binary64 {
        bits: MAX_GAIN,
    }.rank()
}

impl EqParams {
    /// Every gain is in range.
    pub open spec fn wf(self) -> bool {
        forall|i: int| 0 <= i < EQ_BANDS ==> gain_in_range(#[trigger] self.gains@[i])
    }
}

impl Default for EqParams {
    /// Switched off, with every gain at 0 dB.
    fn default() -> (r: Self)
        ensures
            r.wf(),
            !r.enabled,
            forall|i: int| 0 <= i < EQ_BANDS ==> #[trigger] r.gains@[i] == (Binary64 { bits: 0 }),
    {
        EqParams { enabled: false, gains: [Binary64 { bits: 0 };EQ_BANDS] }
    }
}

/// Switches the equalizer and sets the bands for which there is a gain; further
/// gains are ignored, and further bands keep theirs.
pub fn audio_set_eq(params: &mut EqParams, enabled: bool, gains: &Vec<Binary64>)
    ensures
        final(params).enabled == enabled,
        forall|i: int|
            0 <= i < EQ_BANDS ==> #[trigger] final(params).gains@[i] == if i < gains@.len() {
                kept_gain(gains@[i])
            } else {
                old(params).gains@[i]
            },
        forall|i: int|
            0 <= i < EQ_BANDS && i < gains@.len() && (gains@[i].bits <= MAX_GAIN || SIGN
                <= gains@[i].bits <= MIN_GAIN) ==> #[trigger] final(params).gains@[i] == gains@[i],
        forall|i: int|
            0 <= i < EQ_BANDS && i >= gains@.len() ==> #[trigger] final(params).gains@[i] == old(
                params,
            ).gains@[i],
        old(params).wf() || gains@.len() >= EQ_BANDS ==> final(params).wf(),
{
    params.enabled = enabled;
    let low = Binary64 { bits: MIN_GAIN };
    let high = Binary64 { bits: MAX_GAIN };
    let mut i: usize = 0;
    while i < EQ_BANDS && i < gains.len()
        invariant
            low == (Binary64 { bits: MIN_GAIN }),
            high == (Binary64 { bits: MAX_GAIN }),
            i <= EQ_BANDS,
            i <= gains@.len(),
            params.enabled == enabled,
            forall|j: int|
                0 <= j < EQ_BANDS ==> #[trigger] params.gains@[j] == if j < i {
                    kept_gain(gains@[j])
                } else {
                    old(params).gains@[j]
                },
            forall|j: int| 0 <= j < i ==> gain_in_range(#[trigger] params.gains@[j]),
        decreases EQ_BANDS - i,
    {
        params.gains[i] = gains[i].clamp(low, high);
        i = i + 1;
    }
}

/// The curve of a filter.
#[derive(Clone, Copy, Debug, PartialEq, Eq, Structural)]
pub enum FilterShape {
    LowShelf,
    Peaking,
    HighShelf,
}

/// The quality factor of a filter.
#[derive(Clone, Copy, Debug, PartialEq, Eq, Structural)]
pub enum FilterQ {
    /// That of a Butterworth filter, one over the square root of two.
    Butterworth,
    Value(Binary64),
}

/// What it takes to build the filter of a band.
#[derive(Clone, Copy, Debug, PartialEq, Eq, Structural)]
pub struct BandFilter {
    pub band: usize,
    pub shape: FilterShape,
    pub gain: Binary64,
    pub frequency: u32,
    pub q: FilterQ,
}

/// The filter of a band: shelves at the two ends, peaking filters between them.
pub open spec fn band_filter_spec(band: int, gain: Binary64) -> BandFilter {
    BandFilter {
        band: band as usize,
        shape: if band == 0 {
            FilterShape::LowShelf
        } else if band == EQ_BANDS - 1 {
            FilterShape::HighShelf
        } else {
            FilterShape::Peaking
        },
        gain,
        frequency: EQ_FREQS@[band],
        q: if band == 0 || band == EQ_BANDS - 1 {
            FilterQ::Butterworth
        } else {
            FilterQ::Value(Binary64 { bits: EQ_Q })
        },
    }
}

/// The filter of band `band` at `gain` decibels.
pub fn band_filter(band: usize, gain: Binary64) -> (r: BandFilter)
    requires
        band < EQ_BANDS,
    ensures
        r == band_filter_spec(band as int, gain),
        r.band == band,
        r.gain == gain,
        r.frequency == EQ_FREQS@[band as int],
        r.shape is LowShelf <==> band == 0,
        r.shape is HighShelf <==> band == 9,
        r.q is Butterworth <==> band == 0 || band == 9,
        0 < band < 9 ==> r.q == FilterQ::Value(Binary64 { bits: EQ_Q }),
{
    let shape = if band == 0 {
        FilterShape::LowShelf
    } else if band == EQ_BANDS - 1 {
        FilterShape::HighShelf
    } else {
        FilterShape::Peaking
    };
    let q = if band == 0 || band == EQ_BANDS - 1 {
        FilterQ::Butterworth
    } else {
        FilterQ::Value(Binary64 { bits: EQ_Q })
    };
    BandFilter { band, shape, gain, frequency: EQ_FREQS[band], q }
}

/// The filters of all bands at the given gains.
pub open spec fn all_filters(gains: Seq<Binary64>) -> Seq<BandFilter> {
    Seq::new(EQ_BANDS as nat, |i: int| band_filter_spec(i, gains[i]))
}

/// Whether a gain that has moved by `move_by` decibels needs a new filter.
pub open spec fn has_moved(move_by: Binary64) -> bool {
    !move_by.within_spec(Binary64 { bits: GAIN_STEP })
}

/// The filters of the bands whose gain has moved.
pub open spec fn moved_filters(gains: Seq<Binary64>, moves: Seq<Binary64>) -> Seq<BandFilter> {
    all_filters(gains).filter(|f: BandFilter| has_moved(moves[f.band as int]))
}

/// Whether these are the filters for the bands whose gain has moved by a hundredth of a
/// decibel or more: one for each of them, at its new gain, in the order of the bands.
pub open spec fn are_filters_of_moved(
    filters: Seq<BandFilter>,
    gains: Seq<Binary64>,
    moves: Seq<Binary64>,
) -> bool {
    &&& forall|k: int|
        0 <= k < filters.len() ==> {
            let f = #[trigger] filters[k];
            &&& f.band < EQ_BANDS
            &&& f.gain == gains[f.band as int]
            &&& f == band_filter_spec(f.band as int, f.gain)
            &&& !moves[f.band as int].within_spec(Binary64 { bits: GAIN_STEP })
        }
    &&& forall|j: int, k: int|
        0 <= j < k < filters.len() ==> (#[trigger] filters[j]).band < (#[trigger] filters[k]).band
    &&& forall|b: int|
        0 <= b < EQ_BANDS && !(#[trigger] moves[b]).within_spec(Binary64 { bits: GAIN_STEP })
            ==> has_filter(filters, b, gains[b])
}

/// Whether there is a filter for a band at a gain.
pub open spec fn has_filter(filters: Seq<BandFilter>, band: int, gain: Binary64) -> bool {
    exists|k: int|
        0 <= k < filters.len() && (#[trigger] filters[k]).band == band && filters[k].gain == gain
}

/// Whether all gains are the same numbers.
pub open spec fn gains_equal(a: Seq<Binary64>, b: Seq<Binary64>) -> bool {
    forall|i: int| 0 <= i < EQ_BANDS ==> (#[trigger] a[i]).equals_spec(b[i])
}

/// The equalizer parameters as they were read for one sample.
#[derive(Clone, Copy, Debug)]
pub struct EqSnapshot {
    pub enabled: bool,
    pub gains: [Binary64; EQ_BANDS],
    /// For each band, how far its gain is from the one that the equalizer follows:
    /// the difference of the two.
    pub moves: [Binary64; EQ_BANDS],
}

/// Whether `moves` are the differences of the gains from those before, wherever both are
/// finite.
pub open spec fn are_moves(
    moves: Seq<Binary64>,
    gains: Seq<Binary64>,
    before: Seq<Binary64>,
) -> bool {
    forall|i: int|
        0 <= i < EQ_BANDS && gains[i].is_finite() && before[i].is_finite() ==> (
        #[trigger] moves[i]).is_difference_spec(gains[i], before[i])
}

/// The filters that a sample passes through.
#[derive(Clone, Copy, Debug, PartialEq, Eq, Structural)]
pub enum Lane {
    /// None: the sample is handed on as it is.
    Bypass,
    Left,
    Right,
}

/// What to do with one sample.
#[derive(Debug)]
pub struct SampleStep {
    /// The sample, a 32-bit float held by its bit pattern.
    pub sample: u32,
    /// The filters to build anew, on both lanes, before the sample is filtered.
    pub rebuild: Vec<BandFilter>,
    pub lane: Lane,
}

/// A [`SampleStep`] with its filters as a sequence.
#[verifier::ext_equal]
pub struct StepView {
    pub sample: u32,
    pub rebuild: Seq<BandFilter>,
    pub lane: Lane,
}

impl View for SampleStep {
    type V = StepView;

    open spec fn view(&self) -> StepView {
        StepView { sample: self.sample, rebuild: self.rebuild@, lane: self.lane }
    }
}

/// The equalizer of one track.
#[derive(Debug)]
pub struct EqSource {
    pub channels: u16,
    pub sample_rate: u32,
    /// The channel that the next sample belongs to.
    pub current_channel: u16,
    /// The gains that the equalizer follows.
    pub cached_gains: [Binary64; EQ_BANDS],
    pub cached_enabled: bool,
}

/// The channel after one is the next, and the first after the last.
proof fn lemma_next_channel(channel: int, channels: int)
    requires
        0 <= channel < channels,
    ensures
        (channel + 1) % channels == if channel + 1 == channels {
            0
        } else {
            channel + 1
        },
{
    if channel + 1 < channels {
        vstd::arithmetic::div_mod::lemma_small_mod((channel + 1) as nat, channels as nat);
    } else {
        vstd::arithmetic::div_mod::lemma_mod_self_0(channels);
    }
}

impl EqSource {
    /// There is a channel to play on, and the next sample belongs to one of them.
    pub open spec fn wf(self) -> bool {
        self.sample_rate > 0 && self.current_channel < self.channels
    }

    /// Whether a snapshot differs from what the equalizer follows.
    pub open spec fn changed_by(self, snapshot: EqSnapshot) -> bool {
        snapshot.enabled != self.cached_enabled || !gains_equal(
            snapshot.gains@,
            self.cached_gains@,
        )
    }

    /// Whether a snapshot makes the filters move.
    pub open spec fn refiltered_by(self, snapshot: Option<EqSnapshot>) -> bool {
        match snapshot {
            Some(s) => s.enabled && self.changed_by(s),
            None => false,
        }
    }

    /// The equalizer once a sample has gone through it.
    pub open spec fn after_sample(self, snapshot: Option<EqSnapshot>) -> EqSource {
        EqSource {
            channels: self.channels,
            sample_rate: self.sample_rate,
            current_channel: ((self.current_channel + 1) % (self.channels as int)) as u16,
            cached_gains: if self.refiltered_by(snapshot) {
                snapshot->0.gains
            } else {
                self.cached_gains
            },
            cached_enabled: match snapshot {
                Some(s) => s.enabled,
                None => self.cached_enabled,
            },
        }
    }

    /// The filters that a sample has built anew.
    pub open spec fn rebuilt_by(self, snapshot: Option<EqSnapshot>) -> Seq<BandFilter> {
        if self.refiltered_by(snapshot) {
            moved_filters(snapshot->0.gains@, snapshot->0.moves@)
        } else {
            Seq::empty()
        }
    }

    /// The lane of a sample.
    pub open spec fn lane_of(self, snapshot: Option<EqSnapshot>) -> Lane {
        if !self.after_sample(snapshot).cached_enabled {
            Lane::Bypass
        } else if self.current_channel == 0 {
            Lane::Left
        } else {
            Lane::Right
        }
    }

    /// What to do with what the track gave: nothing where it has come to its end.
    pub open spec fn step_spec(self, sample: Option<u32>, snapshot: Option<EqSnapshot>) -> Option<
        StepView,
    > {
        match sample {
            Some(s) => Some(
                StepView {
                    sample: s,
                    rebuild: self.rebuilt_by(snapshot),
                    lane: self.lane_of(snapshot),
                },
            ),
            None => None,
        }
    }

    /// The equalizer once the track has been asked for a sample.
    pub open spec fn after_draw(self, sample: Option<u32>, snapshot: Option<EqSnapshot>) -> EqSource {
        if sample is Some {
            self.after_sample(snapshot)
        } else {
            self
        }
    }

    /// The equalizer once it follows new gains.
    pub open spec fn after_update(self, gains: [Binary64; EQ_BANDS]) -> EqSource {
        EqSource { cached_gains: gains, ..self }
    }

    /// The equalizer at the start of a track, with the filters to build for each
    /// lane: switched off, and every band at 0 dB.
    pub fn new(channels: u16, sample_rate: u32) -> (r: (Self, Vec<BandFilter>))
        requires
            channels > 0,
            sample_rate > 0,
        ensures
            r.0.wf(),
            r.0.channels == channels,
            r.0.sample_rate == sample_rate,
            r.0.current_channel == 0,
            !r.0.cached_enabled,
            forall|i: int|
                0 <= i < EQ_BANDS ==> #[trigger] r.0.cached_gains@[i] == (Binary64 { bits: 0 }),
            r.1@ == all_filters(r.0.cached_gains@),
            r.1@.len() == EQ_BANDS,
            forall|i: int|
                0 <= i < EQ_BANDS ==> (#[trigger] r.1@[i]).band == i && r.1@[i].gain.bits == 0,
    {
        let zero = Binary64 { bits: 0 };
        let gains = [zero;EQ_BANDS];
        let mut filters: Vec<BandFilter> = Vec::new();
        let mut i: usize = 0;
        while i < EQ_BANDS
            invariant
                i <= EQ_BANDS,
                filters@.len() == i,
                forall|j: int| 0 <= j < EQ_BANDS ==> gains@[j] == zero,
                forall|j: int|
                    0 <= j < i ==> #[trigger] filters@[j] == band_filter_spec(j, gains@[j]),
            decreases EQ_BANDS - i,
        {
            filters.push(band_filter(i, zero));
            i = i + 1;
        }
        let source = EqSource {
            channels,
            sample_rate,
            current_channel: 0,
            cached_gains: gains,
            cached_enabled: false,
        };
        (source, filters)
    }

    /// Takes over new gains. Returns the filters of the bands whose gain has moved,
    /// in the order of the bands.
    pub fn update_coefficients(
        &mut self,
        gains: &[Binary64; EQ_BANDS],
        moves: &[Binary64; EQ_BANDS],
    ) -> (r: Vec<BandFilter>)
        ensures
            r@ == moved_filters(gains@, moves@),
            are_filters_of_moved(r@, gains@, moves@),
            final(self).cached_gains == *gains,
            final(self).channels == old(self).channels,
            final(self).sample_rate == old(self).sample_rate,
            final(self).current_channel == old(self).current_channel,
            final(self).cached_enabled == old(self).cached_enabled,
            *final(self) == old(self).after_update(*gains),
    {
        let mut moved: Vec<BandFilter> = Vec::new();
        let ghost all = all_filters(gains@);
        let ghost pred = |f: BandFilter| has_moved(moves@[f.band as int]);
        let mut i: usize = 0;
        proof {
            reveal(Seq::filter);
        }
        while i < EQ_BANDS
            invariant
                i <= EQ_BANDS,
                all == all_filters(gains@),
                pred == (|f: BandFilter| has_moved(moves@[f.band as int])),
                moved@ == all.take(i as int).filter(pred),
            decreases EQ_BANDS - i,
        {
            proof {
                reveal(Seq::filter);
                assert(all.take(i + 1).drop_last() == all.take(i as int));
                assert(all.take(i + 1).last() == band_filter_spec(i as int, gains@[i as int]));
            }
            if !moves[i].within(Binary64 { bits: GAIN_STEP }) {
                moved.push(band_filter(i, gains[i]));
            }
            i = i + 1;
        }
        assert(all.take(EQ_BANDS as int) == all);
        proof {
            lemma_moved_bands_are_rebuilt(gains@, moves@);
        }
        self.cached_gains = *gains;
        moved
    }

    /// Passes one sample on: moves to the next channel and follows the parameters.
    /// There is no sample at the end of the track; then nothing is passed on and nothing
    /// changes. There is no snapshot where the parameters are being changed at this
    /// moment; the sample is then treated like the one before it.
    pub fn next(&mut self, sample: Option<u32>, snapshot: Option<EqSnapshot>) -> (r: Option<
        SampleStep,
    >)
        requires
            old(self).wf(),
        ensures
            final(self).wf(),
            *final(self) == old(self).after_draw(sample, snapshot),
            match r {
                Some(step) => Some(step@) == old(self).step_spec(sample, snapshot),
                None => old(self).step_spec(sample, snapshot) is None,
            },
            sample is None ==> r is None && *final(self) == *old(self),
            sample is Some ==> {
                &&& r is Some
                &&& r->0.sample == sample->0
                &&& final(self).channels == old(self).channels
                &&& final(self).sample_rate == old(self).sample_rate
                &&& final(self).current_channel == if old(self).current_channel + 1 == old(
                    self,
                ).channels {
                    0
                } else {
                    old(self).current_channel + 1
                }
                &&& final(self).cached_enabled == if snapshot is Some {
                    snapshot->0.enabled
                } else {
                    old(self).cached_enabled
                }
                &&& r->0.lane is Bypass <==> !final(self).cached_enabled
                &&& r->0.lane is Left <==> final(self).cached_enabled && old(self).current_channel
                    == 0
            },
            sample is Some && (snapshot is None || !snapshot->0.enabled) ==> {
                &&& r->0.rebuild@.len() == 0
                &&& final(self).cached_gains == old(self).cached_gains
            },
            sample is Some && snapshot is Some && snapshot->0.enabled ==> {
                let s = snapshot->0;
                &&& forall|b: int|
                    0 <= b < EQ_BANDS ==> (#[trigger] final(self).cached_gains@[b]) == s.gains@[b]
                        || final(self).cached_gains@[b].equals_spec(s.gains@[b])
                &&& forall|b: int|
                    0 <= b < EQ_BANDS && !(#[trigger] s.moves@[b]).within_spec(
                        Binary64 { bits: GAIN_STEP },
                    ) && (!s.gains@[b].equals_spec(old(self).cached_gains@[b]) || !old(
                        self,
                    ).cached_enabled) ==> has_filter(r->0.rebuild@, b, s.gains@[b])
                &&& r->0.rebuild@.len() > 0 ==> are_filters_of_moved(
                    r->0.rebuild@,
                    s.gains@,
                    s.moves@,
                )
            },
    {
        proof {
            lemma_next_channel(self.current_channel as int, self.channels as int);
            if snapshot is Some {
                lemma_moved_bands_are_rebuilt(snapshot->0.gains@, snapshot->0.moves@);
            }
        }
        let sample: u32 = match sample {
            Some(s) => s,
            None => return None,
        };
        let channel: u16 = self.current_channel;
        self.current_channel = (channel + 1) % self.channels;
        let mut rebuild: Vec<BandFilter> = Vec::new();
        if let Some(s) = snapshot {
            if s.enabled != self.cached_enabled || !self.has_gains(&s.gains) {
                if s.enabled {
                    rebuild = self.update_coefficients(&s.gains, &s.moves);
                }
                self.cached_enabled = s.enabled;
            }
        }
        let lane = if !self.cached_enabled {
            Lane::Bypass
        } else if channel == 0 {
            Lane::Left
        } else {
            Lane::Right
        };
        Some(SampleStep { sample, rebuild, lane })
    }

    /// Whether these are the gains that the equalizer follows.
    fn has_gains(&self, gains: &[Binary64; EQ_BANDS]) -> (r: bool)
        ensures
            r == gains_equal(gains@, self.cached_gains@),
    {
        let mut i: usize = 0;
        while i < EQ_BANDS
            invariant
                i <= EQ_BANDS,
                forall|j: int|
                    0 <= j < i ==> (#[trigger] gains@[j]).equals_spec(self.cached_gains@[j]),
            decreases EQ_BANDS - i,
        {
            if !gains[i].equals(&self.cached_gains[i]) {
                return false;
            }
            i = i + 1;
        }
        true
    }
}

/// The sample that is played of a filtered one.
pub open spec fn limited_sample(sample: Binary64) -> Binary64 {
    sample.clamp_spec(Binary64 { bits: MIN_SAMPLE }, Binary64 { bits: MAX_SAMPLE })
}

/// A number from -1 to 1.
pub open spec fn sample_in_range(sample: Binary64) -> bool {
    !sample.is_nan_spec() && Binary64 { bits: MIN_SAMPLE }.rank() <= sample.rank() <= Binary64 {
        bits: MAX_SAMPLE,
    }.rank()
}

/// Limits a filtered sample to the range from -1 to 1.
pub fn limit_sample(sample: Binary64) -> (r: Binary64)
    ensures
        r == limited_sample(sample),
        !sample.is_nan_spec() ==> sample_in_range(r),
        sample.bits <= MAX_SAMPLE || SIGN <= sample.bits <= MIN_SAMPLE ==> r == sample,
        MAX_SAMPLE < sample.bits <= INFINITY ==> r.bits == MAX_SAMPLE,
        MIN_SAMPLE < sample.bits <= SIGN + INFINITY ==> r.bits == MIN_SAMPLE,
        sample.is_nan_spec() ==> r == sample,
{
    sample.clamp(Binary64 { bits: MIN_SAMPLE }, Binary64 { bits: MAX_SAMPLE })
}

/// One turn of a track: the sample that it gave, if it had one, and the parameters as they
/// were read, if they could be.
pub struct Draw {
    pub sample: Option<u32>,
    pub snapshot: Option<EqSnapshot>,
}

impl EqSource {
    /// The equalizer once a track has had a run of turns.
    pub open spec fn after_draws(self, draws: Seq<Draw>) -> EqSource
        decreases draws.len(),
    {
        if draws.len() == 0 {
            self
        } else {
            self.after_draws(draws.drop_last()).after_draw(
                draws.last().sample,
                draws.last().snapshot,
            )
        }
    }

    /// What comes of the turn `k` of a run.
    pub open spec fn step_at(self, draws: Seq<Draw>, k: int) -> Option<StepView> {
        self.after_draws(draws.take(k)).step_spec(draws[k].sample, draws[k].snapshot)
    }

    /// The samples that are passed on in a run of turns.
    pub open spec fn passed_on(self, draws: Seq<Draw>) -> Seq<u32>
        decreases draws.len(),
    {
        if draws.len() == 0 {
            Seq::empty()
        } else {
            let before = self.passed_on(draws.drop_last());
            match self.after_draws(draws.drop_last()).step_spec(
                draws.last().sample,
                draws.last().snapshot,
            ) {
                Some(step) => before.push(step.sample),
                None => before,
            }
        }
    }
}

/// The samples that a track gave in a run of turns.
pub open spec fn samples_given(draws: Seq<Draw>) -> Seq<u32>
    decreases draws.len(),
{
    if draws.len() == 0 {
        Seq::empty()
    } else {
        match draws.last().sample {
            Some(sample) => samples_given(draws.drop_last()).push(sample),
            None => samples_given(draws.drop_last()),
        }
    }
}

/// Each sample of a track is passed on once, in its order, whether the equalizer is on or
/// off, and nothing else is.
pub proof fn lemma_samples_are_passed_on(source: EqSource, draws: Seq<Draw>)
    ensures
        source.passed_on(draws) == samples_given(draws),
    decreases draws.len(),
{
    if draws.len() > 0 {
        lemma_samples_are_passed_on(source, draws.drop_last());
    }
}

/// A track that has come to its end changes nothing: turns without a sample leave the
/// equalizer as it is, whatever the parameters are.
pub proof fn lemma_end_changes_nothing(source: EqSource, draws: Seq<Draw>)
    requires
        forall|i: int| 0 <= i < draws.len() ==> (#[trigger] draws[i]).sample is None,
    ensures
        source.after_draws(draws) == source,
    decreases draws.len(),
{
    if draws.len() > 0 {
        assert(draws.last().sample is None);
        lemma_end_changes_nothing(source, draws.drop_last());
    }
}

/// The channels take turns: `n` samples later the next sample belongs to the channel
/// `n` further on, counted round, whatever happened to the parameters meanwhile.
pub proof fn lemma_channels_take_turns(source: EqSource, draws: Seq<Draw>)
    requires
        source.wf(),
    ensures
        source.after_draws(draws).wf(),
        source.after_draws(draws).channels == source.channels,
        source.after_draws(draws).current_channel == (source.current_channel + samples_given(
            draws,
        ).len()) % (source.channels as int),
    decreases draws.len(),
{
    if draws.len() == 0 {
        vstd::arithmetic::div_mod::lemma_small_mod(
            source.current_channel as nat,
            source.channels as nat,
        );
    } else {
        let n = source.current_channel + samples_given(draws).len();
        lemma_channels_take_turns(source, draws.drop_last());
        if draws.last().sample is Some {
            vstd::arithmetic::div_mod::lemma_add_mod_noop_right(1, n - 1, source.channels as int);
        }
    }
}

/// The filters of the two lanes. `B` is a bank of filters, one for each band, with what
/// they remember of the samples before.
pub struct Lanes<B> {
    pub left: B,
    pub right: B,
}

/// Filters of any kind: how a bank is built anew in some of its bands, and what a sample
/// that runs through a bank makes of the bank and of itself.
#[verifier::reject_recursive_types(B)]
pub struct FilterKind<B> {
    pub build: spec_fn(B, Seq<BandFilter>) -> B,
    pub run: spec_fn(B, u32) -> (B, u32),
}

impl<B> Lanes<B> {
    /// The lanes once a step has built its filters anew.
    pub open spec fn rebuilt(self, kind: FilterKind<B>, step: StepView) -> Lanes<B> {
        Lanes {
            left: (kind.build)(self.left, step.rebuild),
            right: (kind.build)(self.right, step.rebuild),
        }
    }

    /// The lanes once a step has been carried out, where there is one.
    pub open spec fn after_step(self, kind: FilterKind<B>, step: Option<StepView>) -> Lanes<B> {
        match step {
            None => self,
            Some(s) => {
                let lanes = self.rebuilt(kind, s);
                match s.lane {
                    Lane::Bypass => lanes,
                    Lane::Left => Lanes { left: (kind.run)(lanes.left, s.sample).0, ..lanes },
                    Lane::Right => Lanes { right: (kind.run)(lanes.right, s.sample).0, ..lanes },
                }
            },
        }
    }

    /// The sample that a step plays, where there is one.
    pub open spec fn played(self, kind: FilterKind<B>, step: Option<StepView>) -> Option<u32> {
        match step {
            None => None,
            Some(s) => {
                let lanes = self.rebuilt(kind, s);
                Some(
                    match s.lane {
                        Lane::Bypass => s.sample,
                        Lane::Left => (kind.run)(lanes.left, s.sample).1,
                        Lane::Right => (kind.run)(lanes.right, s.sample).1,
                    },
                )
            },
        }
    }

    /// The lanes once a track has had a run of turns.
    pub open spec fn after_draws(
        self,
        kind: FilterKind<B>,
        source: EqSource,
        draws: Seq<Draw>,
    ) -> Lanes<B>
        decreases draws.len(),
    {
        if draws.len() == 0 {
            self
        } else {
            self.after_draws(kind, source, draws.drop_last()).after_step(
                kind,
                source.after_draws(draws.drop_last()).step_spec(
                    draws.last().sample,
                    draws.last().snapshot,
                ),
            )
        }
    }

    /// The sample that the turn `k` of a run plays, where there is one.
    pub open spec fn played_at(
        self,
        kind: FilterKind<B>,
        source: EqSource,
        draws: Seq<Draw>,
        k: int,
    ) -> Option<u32> {
        self.after_draws(kind, source, draws.take(k)).played(kind, source.step_at(draws, k))
    }

    /// The bank of one of the sides.
    pub open spec fn side(self, left: bool) -> B {
        if left {
            self.left
        } else {
            self.right
        }
    }
}

/// Whether the turn `k` of a run belongs to a side: the first channel is on the left, all
/// others are on the right.
pub open spec fn is_on_side(source: EqSource, draws: Seq<Draw>, k: int, left: bool) -> bool {
    (source.after_draws(draws.take(k)).current_channel == 0) == left
}

/// Whether two runs read the same parameters, come to an end at the same time, and agree on
/// the samples of a side.
pub open spec fn agree_on_side(source: EqSource, a: Seq<Draw>, b: Seq<Draw>, left: bool) -> bool {
    &&& a.len() == b.len()
    &&& forall|i: int|
        0 <= i < a.len() ==> {
            &&& (#[trigger] a[i]).snapshot == b[i].snapshot
            &&& (a[i].sample is Some <==> b[i].sample is Some)
            &&& is_on_side(source, a, i, left) ==> a[i].sample == b[i].sample
        }
}

/// Runs that agree on a side leave the equalizer and the bank of that side alike.
proof fn lemma_side_is_kept<B>(
    kind: FilterKind<B>,
    source: EqSource,
    lanes_a: Lanes<B>,
    lanes_b: Lanes<B>,
    a: Seq<Draw>,
    b: Seq<Draw>,
    left: bool,
)
    requires
        agree_on_side(source, a, b, left),
        lanes_a.side(left) == lanes_b.side(left),
    ensures
        source.after_draws(a) == source.after_draws(b),
        lanes_a.after_draws(kind, source, a).side(left) == lanes_b.after_draws(
            kind,
            source,
            b,
        ).side(left),
    decreases a.len(),
{
    if a.len() > 0 {
        let (c, d) = (a.drop_last(), b.drop_last());
        assert forall|i: int| 0 <= i < c.len() implies {
            &&& (#[trigger] c[i]).snapshot == d[i].snapshot
            &&& (c[i].sample is Some <==> d[i].sample is Some)
            &&& is_on_side(source, c, i, left) ==> c[i].sample == d[i].sample
        } by {
            assert(a[i].snapshot == b[i].snapshot);
            assert(c.take(i) == a.take(i));
        }
        lemma_side_is_kept(kind, source, lanes_a, lanes_b, c, d, left);
        let last = a.len() - 1;
        assert(a[last].snapshot == b[last].snapshot);
        assert(a.take(last) == c);
    }
}

/// The two sides do not mix: what is played on a side depends on the samples of that side
/// alone, and on the parameters. Where two runs agree on these, they play the same there,
/// whatever the filters are.
pub proof fn lemma_sides_do_not_mix<B>(
    kind: FilterKind<B>,
    source: EqSource,
    lanes_a: Lanes<B>,
    lanes_b: Lanes<B>,
    a: Seq<Draw>,
    b: Seq<Draw>,
    left: bool,
    k: int,
)
    requires
        agree_on_side(source, a, b, left),
        lanes_a.side(left) == lanes_b.side(left),
        0 <= k < a.len(),
        is_on_side(source, a, k, left),
    ensures
        lanes_a.played_at(kind, source, a, k) == lanes_b.played_at(kind, source, b, k),
{
    let (c, d) = (a.take(k), b.take(k));
    assert forall|i: int| 0 <= i < c.len() implies {
        &&& (#[trigger] c[i]).snapshot == d[i].snapshot
        &&& (c[i].sample is Some <==> d[i].sample is Some)
        &&& is_on_side(source, c, i, left) ==> c[i].sample == d[i].sample
    } by {
        assert(a[i].snapshot == b[i].snapshot);
        assert(c.take(i) == a.take(i));
    }
    lemma_side_is_kept(kind, source, lanes_a, lanes_b, c, d, left);
    assert(a[k].snapshot == b[k].snapshot);
}

/// While the equalizer is off, samples pass as they are and no filter is built.
pub proof fn lemma_off_is_bypass(source: EqSource, snapshot: EqSnapshot)
    requires
        !snapshot.enabled,
    ensures
        source.lane_of(Some(snapshot)) == Lane::Bypass,
        source.rebuilt_by(Some(snapshot)) == Seq::<BandFilter>::empty(),
{
}

/// The equalizer settles: once a sample has followed an enabled snapshot whose gains
/// are numbers, it follows these gains, and the next sample under the same parameters
/// builds no filter.
pub proof fn lemma_settles(source: EqSource, first: EqSnapshot, second: EqSnapshot)
    requires
        first.enabled,
        second.enabled,
        second.gains == first.gains,
        forall|i: int| 0 <= i < EQ_BANDS ==> !(#[trigger] first.gains@[i]).is_nan_spec(),
    ensures
        gains_equal(first.gains@, source.after_sample(Some(first)).cached_gains@),
        source.after_sample(Some(first)).rebuilt_by(Some(second)) == Seq::<BandFilter>::empty(),
{
}

/// Where no gain has moved, no filter is built.
pub proof fn lemma_no_move_builds_nothing(gains: Seq<Binary64>, moves: Seq<Binary64>)
    requires
        forall|i: int| 0 <= i < EQ_BANDS ==> (#[trigger] moves[i]).rank() == 0,
    ensures
        moved_filters(gains, moves) == Seq::<BandFilter>::empty(),
{
    let all = all_filters(gains);
    let pred = |f: BandFilter| has_moved(moves[f.band as int]);
    let moved = all.filter(pred);
    if moved.len() > 0 {
        all.lemma_filter_pred(pred, 0);
        all.lemma_filter_contains_rev(pred, moved[0]);
        let i = choose|i: int| 0 <= i < all.len() && all[i] == moved[0];
        assert(moves[i].rank() == 0);
    }
}

/// Taking over the same gains again changes nothing: where they are finite, no filter is
/// built anew, so none forgets what it remembers, and the equalizer stays as it is.
pub proof fn lemma_same_gains_build_nothing(
    source: EqSource,
    gains: [Binary64; EQ_BANDS],
    moves: Seq<Binary64>,
)
    requires
        forall|i: int| 0 <= i < EQ_BANDS ==> (#[trigger] gains@[i]).is_finite(),
        are_moves(moves, gains@, source.after_update(gains).cached_gains@),
    ensures
        moved_filters(gains@, moves) == Seq::<BandFilter>::empty(),
        source.after_update(gains).after_update(gains) == source.after_update(gains),
{
    assert forall|i: int| 0 <= i < EQ_BANDS implies (#[trigger] moves[i]).rank() == 0 by {
        assert(gains@[i].is_finite());
        lemma_difference_keeps_bounds(moves[i], gains@[i], gains@[i], Binary64 { bits: 0 });
    }
    lemma_no_move_builds_nothing(gains@, moves);
}

/// A gain that has moved by a hundredth of a decibel or more needs a new filter; one that
/// has moved by no more than the double before that does not.
pub proof fn lemma_a_step_is_noticed(gain: Binary64, before: Binary64, move_by: Binary64)
    requires
        gain.is_finite(),
        before.is_finite(),
        move_by.is_difference_spec(gain, before),
    ensures
        distance(gain.units(), before.units()) >= (Binary64 { bits: GAIN_STEP }).units()
            ==> has_moved(move_by),
        distance(gain.units(), before.units()) <= (Binary64 {
            bits: (GAIN_STEP - 1) as u64,
        }).units() ==> !has_moved(move_by),
{
    let step = Binary64 { bits: GAIN_STEP };
    let less = Binary64 { bits: (GAIN_STEP - 1) as u64 };
    lemma_within_is_nearer(move_by, step);
    lemma_rank_orders_numbers(less, step);
    lemma_difference_keeps_bounds(move_by, gain, before, step);
    lemma_difference_keeps_bounds(move_by, gain, before, less);
}

/// Setting the equalizer twice in the same way is setting it once: a gain that was
/// kept is kept again as it is.
pub proof fn lemma_kept_gain_is_kept(gain: Binary64)
    ensures
        gain_in_range(kept_gain(gain)),
        kept_gain(kept_gain(gain)) == kept_gain(gain),
        gain_in_range(gain) ==> kept_gain(gain) == gain,
{
}

/// The filters of the first bands whose gain has moved.
proof fn lemma_moved_among_first(gains: Seq<Binary64>, moves: Seq<Binary64>, n: int)
    requires
        0 <= n <= EQ_BANDS,
    ensures
        ({
            let pred = |f: BandFilter| has_moved(moves[f.band as int]);
            let moved = all_filters(gains).take(n).filter(pred);
            &&& forall|k: int|
                0 <= k < moved.len() ==> {
                    let f = #[trigger] moved[k];
                    &&& f.band < n
                    &&& f == band_filter_spec(f.band as int, gains[f.band as int])
                    &&& has_moved(moves[f.band as int])
                }
            &&& forall|j: int, k: int|
                0 <= j < k < moved.len() ==> (#[trigger] moved[j]).band < (#[trigger] moved[k]).band
            &&& forall|b: int|
                0 <= b < n && has_moved(#[trigger] moves[b]) ==> has_filter(moved, b, gains[b])
        }),
    decreases n,
{
    reveal(Seq::filter);
    let pred = |f: BandFilter| has_moved(moves[f.band as int]);
    let all = all_filters(gains);
    let moved = all.take(n).filter(pred);
    if n > 0 {
        lemma_moved_among_first(gains, moves, n - 1);
        assert(all.take(n).drop_last() == all.take(n - 1));
        let before = all.take(n - 1).filter(pred);
        let last = all.take(n).last();
        assert(last == band_filter_spec(n - 1, gains[n - 1]));
        assert(last.band == n - 1);
        assert forall|b: int| 0 <= b < n && has_moved(#[trigger] moves[b]) implies has_filter(
            moved,
            b,
            gains[b],
        ) by {
            if b < n - 1 {
                assert(has_filter(before, b, gains[b]));
                let k = choose|k: int|
                    0 <= k < before.len() && (#[trigger] before[k]).band == b && before[k].gain
                        == gains[b];
                assert(moved[k] == before[k]);
            } else {
                assert(moved == before.push(last));
                assert(moved[moved.len() - 1] == last);
            }
        }
    }
}

/// New gains have a filter built for each band whose gain has moved by a hundredth of a
/// decibel or more, at its new gain, in the order of the bands, and for no other.
pub proof fn lemma_moved_bands_are_rebuilt(gains: Seq<Binary64>, moves: Seq<Binary64>)
    ensures
        are_filters_of_moved(moved_filters(gains, moves), gains, moves),
{
    lemma_moved_among_first(gains, moves, EQ_BANDS as int);
    assert(all_filters(gains).take(EQ_BANDS as int) == all_filters(gains));
    assert forall|b: int|
        0 <= b < EQ_BANDS && !(#[trigger] moves[b]).within_spec(
            Binary64 { bits: GAIN_STEP },
        ) implies has_filter(moved_filters(gains, moves), b, gains[b]) by {
        assert(has_moved(moves[b]));
    }
}

/// The filter of a band is at the frequency of the band and at the gain that was asked for;
/// a shelf at either end, and a peak everywhere else.
pub proof fn lemma_filter_of_a_band(band: int, gain: Binary64)
    requires
        0 <= band < EQ_BANDS,
    ensures
        ({
            let f = band_filter_spec(band, gain);
            &&& f.band == band
            &&& f.gain == gain
            &&& f.frequency == EQ_FREQS@[band]
            &&& f.shape is LowShelf <==> band == 0
            &&& f.shape is HighShelf <==> band == 9
            &&& f.q is Butterworth <==> band == 0 || band == 9
            &&& 0 < band < 9 ==> f.q == FilterQ::Value(Binary64 { bits: EQ_Q })
        }),
{
}

/// The bands go up by octaves, or nearly so: each is at twice the frequency before it, give
/// or take three hertz, from 32 Hz up to 16 kHz.
pub proof fn lemma_bands_are_octaves(band: int)
    requires
        0 <= band < EQ_BANDS,
    ensures
        EQ_FREQS@[0] == 32,
        EQ_FREQS@[9] == 16000,
        0 < band ==> distance(EQ_FREQS@[band] as int, 2 * EQ_FREQS@[band - 1]) <= 3,
        band >= 2 ==> EQ_FREQS@[band] * 8 == 1000 * vstd::arithmetic::power2::pow2(
            (band - 2) as nat,
        ),
{
    vstd::arithmetic::power2::lemma2_to64();
    assert(EQ_FREQS@ == seq![32u32, 64, 125, 250, 500, 1000, 2000, 4000, 8000, 16000]);
}

/// A gain from -12 to +12 dB is kept as it is, a lower or higher one as the bound, and what
/// is not a number stays as it is.
pub proof fn lemma_kept_gain_by_pattern(gain: Binary64)
    ensures
        gain.bits <= MAX_GAIN || SIGN <= gain.bits <= MIN_GAIN ==> kept_gain(gain) == gain,
        MAX_GAIN < gain.bits <= INFINITY ==> kept_gain(gain).bits == MAX_GAIN,
        MIN_GAIN < gain.bits <= SIGN + INFINITY ==> kept_gain(gain).bits == MIN_GAIN,
        INFINITY < gain.bits < SIGN || SIGN + INFINITY < gain.bits ==> kept_gain(gain) == gain,
{
}

/// A sample from -1 to 1 is played as it is, a lower or higher one as the bound.
pub proof fn lemma_limited_sample_by_pattern(sample: Binary64)
    ensures
        sample.bits <= MAX_SAMPLE || SIGN <= sample.bits <= MIN_SAMPLE ==> limited_sample(sample)
            == sample,
        MAX_SAMPLE < sample.bits <= INFINITY ==> limited_sample(sample).bits == MAX_SAMPLE,
        MIN_SAMPLE < sample.bits <= SIGN + INFINITY ==> limited_sample(sample).bits == MIN_SAMPLE,
{
}

/// Whether a snapshot tells of gains that are finite numbers, each of which is the one that
/// the equalizer follows or has moved from it by a hundredth of a decibel or more.
pub open spec fn moves_by_steps(snapshot: EqSnapshot, followed: Seq<Binary64>) -> bool {
    &&& are_moves(snapshot.moves@, snapshot.gains@, followed)
    &&& forall|b: int|
        0 <= b < EQ_BANDS ==> {
            &&& (#[trigger] snapshot.gains@[b]).is_finite()
            &&& snapshot.gains@[b].units() == followed[b].units() || distance(
                snapshot.gains@[b].units(),
                followed[b].units(),
            ) >= (Binary64 { bits: GAIN_STEP }).units()
        }
}

/// A band whose gain the listener has moved by a hundredth of a decibel or more gets a new
/// filter at the new gain with the next sample, whatever the channel of the sample and
/// whether the equalizer was on before. The equalizer follows the new gains from then on.
pub proof fn lemma_moved_band_is_rebuilt(source: EqSource, snapshot: EqSnapshot, band: int)
    requires
        snapshot.enabled,
        0 <= band < EQ_BANDS,
        snapshot.gains@[band].is_finite(),
        source.cached_gains@[band].is_finite(),
        are_moves(snapshot.moves@, snapshot.gains@, source.cached_gains@),
        distance(snapshot.gains@[band].units(), source.cached_gains@[band].units()) >= (Binary64 {
            bits: GAIN_STEP,
        }).units(),
    ensures
        has_filter(source.rebuilt_by(Some(snapshot)), band, snapshot.gains@[band]),
        source.after_sample(Some(snapshot)).cached_gains == snapshot.gains,
        source.after_sample(Some(snapshot)).cached_enabled,
{
    let step = Binary64 { bits: GAIN_STEP };
    let (gain, before, move_by) = (
        snapshot.gains@[band],
        source.cached_gains@[band],
        snapshot.moves@[band],
    );
    lemma_difference_keeps_bounds(move_by, gain, before, step);
    lemma_within_is_nearer(move_by, step);
    lemma_rank_orders_numbers(gain, before);
    lemma_rank_orders_numbers(Binary64 { bits: 0 }, step);
    assert(!gain.equals_spec(before));
    lemma_moved_bands_are_rebuilt(snapshot.gains@, snapshot.moves@);
}

impl EqSource {
    /// The gain of the filter that was last built for a band in a run of turns, where the
    /// one at the start has the gain `first`.
    pub open spec fn last_built(self, draws: Seq<Draw>, band: int, first: Binary64) -> Binary64
        decreases draws.len(),
    {
        if draws.len() == 0 {
            first
        } else {
            let before = self.last_built(draws.drop_last(), band, first);
            match self.after_draws(draws.drop_last()).step_spec(
                draws.last().sample,
                draws.last().snapshot,
            ) {
                Some(step) => if exists|k: int|
                    0 <= k < step.rebuild.len() && (#[trigger] step.rebuild[k]).band == band {
                    step.rebuild[choose|k: int|
                        0 <= k < step.rebuild.len() && (#[trigger] step.rebuild[k]).band
                            == band].gain
                } else {
                    before
                },
                None => before,
            }
        }
    }
}

/// The filters follow the gains: over any run of turns in which gains move by a hundredth of
/// a decibel or more, or not at all, the filter that was last built for each band has the
/// gain that the equalizer follows; and once a sample has been played with the equalizer on,
/// that is the gain that the listener has set.
pub proof fn lemma_filters_follow_the_gains(
    source: EqSource,
    draws: Seq<Draw>,
    band: int,
    first: Binary64,
)
    requires
        0 <= band < EQ_BANDS,
        forall|b: int| 0 <= b < EQ_BANDS ==> (#[trigger] source.cached_gains@[b]).is_finite(),
        first.units() == source.cached_gains@[band].units(),
        forall|i: int|
            0 <= i < draws.len() && (#[trigger] draws[i]).sample is Some && draws[i].snapshot is Some
                && draws[i].snapshot->0.enabled ==> moves_by_steps(
                draws[i].snapshot->0,
                source.after_draws(draws.take(i)).cached_gains@,
            ),
    ensures
        forall|b: int|
            0 <= b < EQ_BANDS ==> (#[trigger] source.after_draws(
                draws,
            ).cached_gains@[b]).is_finite(),
        source.last_built(draws, band, first).units() == source.after_draws(
            draws,
        ).cached_gains@[band].units(),
        draws.len() > 0 && draws.last().sample is Some && draws.last().snapshot is Some
            && draws.last().snapshot->0.enabled ==> source.last_built(draws, band, first).units()
            == draws.last().snapshot->0.gains@[band].units(),
    decreases draws.len(),
{
    if draws.len() > 0 {
        let before = draws.drop_last();
        let last = draws.last();
        assert forall|i: int|
            0 <= i < before.len() && (#[trigger] before[i]).sample is Some
                && before[i].snapshot is Some
                && before[i].snapshot->0.enabled implies moves_by_steps(
            before[i].snapshot->0,
            source.after_draws(before.take(i)).cached_gains@,
        ) by {
            assert(draws[i].sample is Some);
            assert(before.take(i) == draws.take(i));
        }
        lemma_filters_follow_the_gains(source, before, band, first);
        let now = source.after_draws(before);
        if last.sample is Some && last.snapshot is Some && last.snapshot->0.enabled {
            let s = last.snapshot->0;
            assert(draws[draws.len() - 1].sample is Some);
            assert(draws.take(draws.len() - 1) == before);
            assert(moves_by_steps(s, now.cached_gains@));
            let filters = moved_filters(s.gains@, s.moves@);
            lemma_moved_bands_are_rebuilt(s.gains@, s.moves@);
            assert forall|b: int| 0 <= b < EQ_BANDS implies (#[trigger] source.after_draws(
                draws,
            ).cached_gains@[b]).is_finite() by {
                assert(s.gains@[b].is_finite());
            }
            assert(s.gains@[band].is_finite());
            assert(now.cached_gains@[band].is_finite());
            if s.gains@[band].units() == now.cached_gains@[band].units() {
                lemma_difference_keeps_bounds(
                    s.moves@[band],
                    s.gains@[band],
                    now.cached_gains@[band],
                    Binary64 { bits: 0 },
                );
                assert(s.moves@[band].within_spec(Binary64 { bits: GAIN_STEP }));
            } else {
                lemma_moved_band_is_rebuilt(now, s, band);
                assert(has_filter(now.rebuilt_by(Some(s)), band, s.gains@[band]));
            }
        }
    }
}

/// The bounds and steps of the equalizer by their values: the gains go from -12 to 12 and
/// the samples from -1 to 1; the step and the quality factor are the doubles nearest to a
/// hundredth and to 1.414. Two to the power of 1074 units make one.
pub proof fn lemma_bounds_by_value()
    ensures
        ({
            let one = vstd::arithmetic::power2::pow2(1074) as int;
            let step = (Binary64 { bits: GAIN_STEP }).units();
            let q = (Binary64 { bits: EQ_Q }).units();
            &&& (Binary64 { bits: MAX_GAIN }).units() == 12 * one
            &&& (Binary64 { bits: MIN_GAIN }).units() == -12 * one
            &&& (Binary64 { bits: MAX_SAMPLE }).units() == one
            &&& (Binary64 { bits: MIN_SAMPLE }).units() == -one
            &&& 2 * distance(100 * step, one) <= 100 * (step - (Binary64 {
                bits: (GAIN_STEP - 1) as u64,
            }).units())
            &&& 2 * distance(1000 * q, 1414 * one) <= 1000 * (q - (Binary64 {
                bits: (EQ_Q - 1) as u64,
            }).units())
        }),
{
    vstd::arithmetic::power2::lemma2_to64();
    vstd::arithmetic::power2::lemma2_to64_rest();
    let one = vstd::arithmetic::power2::pow2(1074) as int;
    let (p, r, t) = (
        vstd::arithmetic::power2::pow2(1025) as int,
        vstd::arithmetic::power2::pow2(1022) as int,
        vstd::arithmetic::power2::pow2(1015) as int,
    );
    lemma_units_by_exponent(Binary64 { bits: MAX_GAIN }, 0x402, 0x8_0000_0000_0000, 49);
    assert(12 * (p * 0x2_0000_0000_0000) == (0x10_0000_0000_0000 + 0x8_0000_0000_0000) * p)
        by (nonlinear_arith);
    lemma_units_by_exponent(Binary64 { bits: MAX_SAMPLE }, 0x3ff, 0, 52);
    assert(r * 0x10_0000_0000_0000 == 0x10_0000_0000_0000 * r) by (nonlinear_arith);
    lemma_units_by_exponent(Binary64 { bits: GAIN_STEP }, 0x3f8, 0x4_7ae1_47ae_147b, 59);
    lemma_units_by_exponent(
        Binary64 { bits: (GAIN_STEP - 1) as u64 },
        0x3f8,
        0x4_7ae1_47ae_147a,
        59,
    );
    let step = (Binary64 { bits: GAIN_STEP }).units();
    assert(2 * distance(100 * step, one) <= 100 * (step - (Binary64 {
        bits: (GAIN_STEP - 1) as u64,
    }).units())) by {
        assert(one == 0x800_0000_0000_0000 * t);
        assert(step == (0x10_0000_0000_0000 + 0x4_7ae1_47ae_147b) * t);
        vstd::arithmetic::power2::lemma_pow2_pos(1015);
    }
    lemma_units_by_exponent(Binary64 { bits: EQ_Q }, 0x3ff, 0x6_9fbe_76c8_b439, 52);
    lemma_units_by_exponent(Binary64 { bits: (EQ_Q - 1) as u64 }, 0x3ff, 0x6_9fbe_76c8_b438, 52);
    vstd::arithmetic::power2::lemma_pow2_pos(1022);
}

/// The view of a step holds all that the step does.
pub proof fn lemma_step_view_is_faithful(step: SampleStep)
    ensures
        step@.sample == step.sample,
        step@.rebuild == step.rebuild@,
        step@.lane == step.lane,
{
}

/// A sample passes the left lane on the first channel and the right lane on all others, while
/// the equalizer is on, and no lane while it is off. The parameters decide whether it is on,
/// as they were last read.
pub proof fn lemma_lane_of_a_sample(source: EqSource, snapshot: Option<EqSnapshot>)
    ensures
        ({
            let on = if snapshot is Some {
                snapshot->0.enabled
            } else {
                source.cached_enabled
            };
            &&& source.lane_of(snapshot) is Bypass <==> !on
            &&& source.lane_of(snapshot) is Left <==> on && source.current_channel == 0
            &&& source.after_sample(snapshot).cached_enabled == on
        }),
{
}

/// The equalizer follows the gains of the listener while it is on, and leaves its own alone
/// while it is off or cannot read the parameters; then no filter is built either.
pub proof fn lemma_gains_are_followed_while_on(
    source: EqSource,
    snapshot: Option<EqSnapshot>,
    band: int,
)
    requires
        0 <= band < EQ_BANDS,
    ensures
        snapshot is Some && snapshot->0.enabled ==> {
            let (gain, followed) = (
                snapshot->0.gains@[band],
                source.after_sample(snapshot).cached_gains@[band],
            );
            followed == gain || (followed.rank() == gain.rank() && !gain.is_nan_spec())
        },
        snapshot is None || !snapshot->0.enabled ==> {
            &&& source.after_sample(snapshot).cached_gains == source.cached_gains
            &&& source.rebuilt_by(snapshot).len() == 0
        },
{
    if source.refiltered_by(snapshot) {
    } else if snapshot is Some && snapshot->0.enabled {
        assert(snapshot->0.gains@[band].equals_spec(source.cached_gains@[band]));
    }
}

/// Switching the equalizer on has a filter built for every band whose gain is away from the
/// one that its filter has by a hundredth of a decibel or more.
pub proof fn lemma_switching_on_rebuilds(source: EqSource, snapshot: EqSnapshot)
    requires
        snapshot.enabled,
        !source.cached_enabled,
    ensures
        are_filters_of_moved(source.rebuilt_by(Some(snapshot)), snapshot.gains@, snapshot.moves@),
        source.after_sample(Some(snapshot)).cached_gains == snapshot.gains,
        source.after_sample(Some(snapshot)).cached_enabled,
{
    lemma_moved_bands_are_rebuilt(snapshot.gains@, snapshot.moves@);
}

} // verus!
