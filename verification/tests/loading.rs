use audio_player::binary64::Binary64;
use audio_player::decode::{
    resampled_is_kept, stage_error, target_layout, DecodeStage, Decoding, FrameInfo, FramePlan,
    Packing, ResamplerSpec, SampleFormat, TargetLayout,
};
use audio_player::load::{
    audio_load_file, audio_load_url, decoder_for, http_error, save_track_to_path, Installed,
    TrackDecoder,
};
use audio_player::state::{audio_set_volume, audio_stop, init, install, AudioState};

type State = AudioState<&'static str, u8, char>;

const F32: SampleFormat = SampleFormat::F32(Packing::Packed);

fn double(x: f64) -> Binary64 {
    Binary64::from_bits(x.to_bits())
}

/// A mono WAV file with the given 16-bit samples.
fn wav(samples: &[i16]) -> Vec<u8> {
    let data = samples.len() as u32 * 2;
    let mut bytes = Vec::new();
    bytes.extend_from_slice(b"RIFF");
    bytes.extend_from_slice(&(36 + data).to_le_bytes());
    bytes.extend_from_slice(b"WAVEfmt ");
    bytes.extend_from_slice(&16u32.to_le_bytes());
    bytes.extend_from_slice(&1u16.to_le_bytes());
    bytes.extend_from_slice(&1u16.to_le_bytes());
    bytes.extend_from_slice(&44100u32.to_le_bytes());
    bytes.extend_from_slice(&88200u32.to_le_bytes());
    bytes.extend_from_slice(&2u16.to_le_bytes());
    bytes.extend_from_slice(&16u16.to_le_bytes());
    bytes.extend_from_slice(b"data");
    bytes.extend_from_slice(&data.to_le_bytes());
    for sample in samples {
        bytes.extend_from_slice(&sample.to_le_bytes());
    }
    bytes
}

#[test]
fn a_track_from_the_network_takes_over() {
    let mut state: State = init(0);
    install(&mut state, "old");
    audio_set_volume(&mut state, double(0.5));
    let load = audio_load_url(
        &state,
        "http://host/track".to_string(),
        Some("abc".to_string()),
        Some("/cache/1".to_string()),
    );
    assert_eq!(load.url, "http://host/track");
    let header = load.header.as_ref().unwrap();
    assert_eq!((header.name.as_str(), header.value.as_str()), ("x-session-id", "abc"));
    let download = load.responded(Ok(200)).unwrap();
    let bytes = wav(&[0, 100, -100, 0]);
    let track = download.received(&state, Ok(bytes.clone())).unwrap().unwrap();
    assert_eq!(track.bytes, bytes);
    assert_eq!(track.cache_path, Some("/cache/1".to_string()));
    assert_eq!(track.volume, double(0.5));
    let accepted = rodio::Decoder::new(std::io::Cursor::new(track.bytes.clone())).is_ok();
    assert_eq!(track.decoder(accepted), TrackDecoder::Rodio);
    match track.finish(&mut state, "new") {
        Installed::Playing(replaced) => assert_eq!(replaced, Some("old")),
        other => panic!("{:?}", other),
    }
    assert_eq!(state.player, Some("new"));
    assert!(state.has_track);
    assert!(!state.ended_notified);
}

#[test]
fn no_session_no_header() {
    let state: State = init(0);
    let load = audio_load_url(&state, "u".to_string(), None, None);
    assert!(load.header.is_none());
    assert_eq!(load.cache_path, None);
}

#[test]
fn unknown_formats_go_to_the_fallback() {
    let state: State = init(0);
    let load = audio_load_url(&state, "u".to_string(), None, None);
    let download = load.responded(Ok(206)).unwrap();
    let track = download.received(&state, Ok(b"not a track at all".to_vec())).unwrap().unwrap();
    let accepted = rodio::Decoder::new(std::io::Cursor::new(track.bytes.clone())).is_ok();
    assert_eq!(track.decoder(accepted), TrackDecoder::Ffmpeg);
    assert_eq!(decoder_for(true), TrackDecoder::Rodio);
    assert_eq!(decoder_for(false), TrackDecoder::Ffmpeg);
}

#[test]
fn failures_of_the_network_end_a_load() {
    let state: State = init(0);
    let ask = || audio_load_url(&state, "u".to_string(), None, None);
    assert_eq!(ask().responded(Err("refused".to_string())).unwrap_err(), "refused");
    assert_eq!(ask().responded(Ok(404)).unwrap_err(), "HTTP 404 Not Found");
    assert_eq!(ask().responded(Ok(301)).unwrap_err(), "HTTP 301 Moved Permanently");
    assert_eq!(ask().responded(Ok(199)).unwrap_err(), "HTTP 199 <unknown status code>");
    assert!(ask().responded(Ok(299)).is_ok());
    assert!(ask().responded(Ok(300)).is_err());
    let download = ask().responded(Ok(200)).unwrap();
    assert_eq!(download.received(&state, Err("cut off".to_string())).unwrap_err(), "cut off");
    assert_eq!(http_error("418 I'm a teapot"), "HTTP 418 I'm a teapot");
}

#[test]
fn a_track_that_was_stopped_on_its_way_is_dropped() {
    let mut state: State = init(0);
    let early = audio_load_url(&state, "u".to_string(), None, None).responded(Ok(200)).unwrap();
    let late = audio_load_url(&state, "u".to_string(), None, None).responded(Ok(200)).unwrap();
    let late = late.received(&state, Ok(vec![1])).unwrap().unwrap();
    assert!(!late.ticket.is_stale(&state));
    audio_stop(&mut state);
    assert!(late.ticket.is_stale(&state));
    assert!(early.received(&state, Ok(vec![1])).unwrap().is_none());
    match late.finish(&mut state, "new") {
        Installed::Unwanted(player) => assert_eq!(player, "new"),
        other => panic!("{:?}", other),
    }
    assert_eq!(state.player, None);
    assert!(!state.has_track);
}

#[test]
fn a_second_track_leaves_the_first_wanted() {
    let mut state: State = init(0);
    let load = audio_load_url(&state, "u".to_string(), None, None);
    install(&mut state, "other");
    assert!(!load.ticket.is_stale(&state));
}

#[test]
fn a_file_takes_over() {
    let mut state: State = init(0);
    let load = audio_load_file(&state, "/music/a.mp3".to_string());
    assert_eq!(load.path, "/music/a.mp3");
    assert_eq!(load.volume, double(0.25));
    let track = load.opened(Ok(true)).unwrap();
    assert_eq!(track.decoder, TrackDecoder::Rodio);
    assert_eq!(track.finish(&mut state, "new"), None);
    assert_eq!(state.player, Some("new"));
    assert!(state.has_track);
}

#[test]
fn failures_of_a_file_are_told_with_its_path() {
    let state: State = init(0);
    let message = audio_load_file(&state, "/a".to_string()).opened(Err("denied".to_string()));
    assert_eq!(message.unwrap_err(), "Failed to open /a: denied");
    let track = audio_load_file(&state, "/a".to_string()).opened(Ok(false)).unwrap();
    assert_eq!(track.decoder, TrackDecoder::Ffmpeg);
    assert_eq!(track.contents(Ok(vec![1, 2])), Ok(vec![1, 2]));
    assert_eq!(track.contents(Err("gone".to_string())), Err("Failed to read /a: gone".to_string()));
}

#[test]
fn saving_a_track_names_the_destination() {
    assert_eq!(save_track_to_path("/d".to_string(), Ok(10)), Ok("/d".to_string()));
    assert_eq!(
        save_track_to_path("/d".to_string(), Err("disk full".to_string())),
        Err("Copy failed: disk full".to_string())
    );
}

fn frame(rate: u32, format: SampleFormat, channels: u16) -> FrameInfo {
    FrameInfo { rate, format, channels, layout_is_target: true, layout_is_resamplers: true }
}

fn bytes_of(samples: &[f32]) -> Vec<u8> {
    samples.iter().flat_map(|s| s.to_ne_bytes()).collect()
}

#[test]
fn steps_before_decoding_have_messages() {
    assert_eq!(stage_error(DecodeStage::TempFile, "x"), "tempfile: x");
    assert_eq!(stage_error(DecodeStage::Write, "x"), "write tmp: x");
    assert_eq!(stage_error(DecodeStage::Flush, "x"), "flush tmp: x");
    assert_eq!(stage_error(DecodeStage::Open, "x"), "FFmpeg open failed: x");
    assert_eq!(stage_error(DecodeStage::Decoder, "x"), "FFmpeg decoder: x");
    assert_eq!(Decoding::new(None).unwrap_err(), "No audio stream found");
}

#[test]
fn plain_frames_are_appended() {
    let mut decoding = Decoding::new(Some(1)).unwrap();
    assert!(!decoding.wants_packet(0));
    assert!(decoding.wants_packet(1));
    assert!(decoding.packet_sent(true));
    assert_eq!((decoding.total_packets, decoding.failed_packets), (1, 0));
    assert_eq!(decoding.frame(&frame(4, F32, 2)), FramePlan::Append);
    let samples = [0.5f32, -0.25, 1.0, -1.0];
    let mut data = bytes_of(&samples);
    data.extend_from_slice(&[9, 9, 9]);
    decoding.append(2, &data);
    let audio = decoding.finish().unwrap();
    assert_eq!((audio.rate, audio.channels), (4, 2));
    let decoded: Vec<f32> = audio.samples.iter().map(|s| f32::from_bits(*s)).collect();
    assert_eq!(decoded, samples);
}

#[test]
fn a_track_has_the_rate_and_channels_of_its_last_frame() {
    let mut decoding = Decoding::new(Some(0)).unwrap();
    decoding.frame(&frame(48000, F32, 2));
    decoding.append(3, &bytes_of(&[0.0; 6]));
    assert_eq!(decoding.samples.len() % 2, 0);
    decoding.frame(&frame(4, F32, 1));
    decoding.append(1, &bytes_of(&[1.0]));
    let audio = decoding.finish().unwrap();
    assert_eq!((audio.rate, audio.channels, audio.samples.len()), (4, 1, 7));
}

#[test]
fn packets_of_other_streams_are_of_no_account() {
    let run = |others: usize| {
        let mut decoding = Decoding::new(Some(3)).unwrap();
        for _ in 0..others {
            assert!(!decoding.wants_packet(2));
        }
        assert!(decoding.wants_packet(3));
        assert!(!decoding.packet_sent(false));
        for _ in 0..others {
            assert!(!decoding.wants_packet(4));
        }
        decoding.frame(&frame(2, F32, 1));
        decoding.append(1, &bytes_of(&[0.5]));
        decoding.finish().unwrap_err()
    };
    assert_eq!(run(0), "FFmpeg: too many bad packets (1/1), data likely encrypted");
    assert_eq!(run(5), run(0));
}

#[test]
fn samples_are_read_in_the_order_of_the_machine() {
    let mut decoding = Decoding::new(Some(0)).unwrap();
    decoding.frame(&frame(2, F32, 1));
    decoding.append(1, &[1, 2, 3, 4]);
    decoding.append(1, &[5, 6, 7, 8, 9, 10, 11, 12]);
    assert_eq!(
        decoding.samples,
        vec![u32::from_ne_bytes([1, 2, 3, 4]), u32::from_ne_bytes([5, 6, 7, 8])]
    );
}

#[test]
fn other_frames_are_resampled() {
    let planar = SampleFormat::I16(Packing::Planar);
    let spec = ResamplerSpec {
        from_format: planar,
        from_rate: 48000,
        to_format: F32,
        to_layout: TargetLayout::Stereo,
        to_rate: 48000,
    };
    let mut decoding = Decoding::new(Some(0)).unwrap();
    assert_eq!(decoding.frame(&frame(48000, planar, 6)), FramePlan::Resample(Some(spec)));
    assert_eq!(decoding.channels, 2);
    decoding.resampler_made(false);
    assert_eq!(decoding.frame(&frame(48000, planar, 6)), FramePlan::Resample(Some(spec)));
    decoding.resampler_made(true);
    assert_eq!(decoding.frame(&frame(48000, planar, 6)), FramePlan::Resample(None));

    let moved = FrameInfo { layout_is_resamplers: false, ..frame(48000, planar, 6) };
    assert_eq!(decoding.frame(&moved), FramePlan::Resample(Some(spec)));
    decoding.resampler_made(true);
    let slower = decoding.frame(&frame(44100, planar, 6));
    assert_eq!(
        slower,
        FramePlan::Resample(Some(ResamplerSpec { from_rate: 44100, to_rate: 44100, ..spec }))
    );
    decoding.resampler_made(true);
    let layout = FrameInfo { layout_is_target: false, ..frame(44100, F32, 1) };
    assert_eq!(
        decoding.frame(&layout),
        FramePlan::Resample(Some(ResamplerSpec {
            from_format: F32,
            from_rate: 44100,
            to_format: F32,
            to_layout: TargetLayout::Mono,
            to_rate: 44100,
        }))
    );
    assert_eq!(decoding.channels, 1);
    assert!(resampled_is_kept(true, 1));
    assert!(!resampled_is_kept(true, 0));
    assert!(!resampled_is_kept(false, 1));
}

#[test]
fn layouts_are_mono_or_stereo() {
    assert_eq!(target_layout(0), TargetLayout::Mono);
    assert_eq!(target_layout(1), TargetLayout::Mono);
    assert_eq!(target_layout(2), TargetLayout::Stereo);
    assert_eq!(target_layout(6), TargetLayout::Stereo);
}

fn decoded(rate: u32, samples: usize, good: u32, bad: u32) -> Decoding {
    let mut decoding = Decoding::new(Some(0)).unwrap();
    for i in 0..good + bad {
        assert!(decoding.wants_packet(0));
        assert_eq!(decoding.packet_sent(i < good), i < good);
    }
    assert_eq!(decoding.frame(&frame(rate, F32, 1)), FramePlan::Append);
    decoding.append(samples, &vec![0; samples * 4]);
    decoding
}

#[test]
fn nothing_decoded_is_no_track() {
    let empty = Decoding::new(Some(0)).unwrap().finish();
    assert_eq!(empty.unwrap_err(), "FFmpeg decoded 0 samples");
    assert_eq!(decoded(0, 10, 1, 0).finish().unwrap_err(), "FFmpeg decoded 0 samples");
    assert_eq!(decoded(8, 0, 0, 9).finish().unwrap_err(), "FFmpeg decoded 0 samples");
}

#[test]
fn mostly_bad_packets_are_no_track() {
    assert_eq!(
        decoded(8, 8, 9, 10).finish().unwrap_err(),
        "FFmpeg: too many bad packets (10/19), data likely encrypted"
    );
    assert!(decoded(8, 8, 10, 10).finish().is_ok());
    assert_eq!(
        decoded(8, 8, 0, 1).finish().unwrap_err(),
        "FFmpeg: too many bad packets (1/1), data likely encrypted"
    );
    assert!(decoded(8, 8, 0, 0).finish().is_ok());
}

#[test]
fn less_than_half_a_second_is_no_track() {
    let short = "FFmpeg: decoded audio too short, likely corrupt";
    assert_eq!(decoded(44100, 22049, 1, 0).finish().unwrap_err(), short);
    assert!(decoded(44100, 22050, 1, 0).finish().is_ok());
    assert_eq!(decoded(44101, 22050, 1, 0).finish().unwrap_err(), short);
    for (rate, samples) in [(44100u32, 22049usize), (44100, 22050), (44101, 22050), (3, 1), (2, 1)] {
        let duration = samples as f64 / (rate as f64 * 1.0);
        assert_eq!(decoded(rate, samples, 1, 0).finish().is_err(), duration < 0.5);
    }
}
