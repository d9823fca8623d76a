use reddit_video::config;
use reddit_video::span::Span;
use reddit_video::audio::{
    get_audio_duration, is_measurable, is_oversized_at, length_from_parts, probe_audio_duration,
    starts_frame,
};
use reddit_video::emoji::remove_emojis;
use reddit_video::voice::{
    after_attempt, attempt_from_response, batch_after_attempt, batch_attempt, copy_settings,
    create_voices, start_voice, voice_attempt, voice_url, BatchStep, VoiceError, VoiceRequest,
    VoiceStep, MAX_ATTEMPTS,
};

/// One MPEG-1 layer III frame of 128 kbit/s at 44.1 kHz: 417 bytes that
/// play for 1152 samples.
fn frame() -> Vec<u8> {
    let mut bytes = vec![0xFF, 0xFB, 0x90, 0x00];
    bytes.resize(417, 0);
    bytes
}

fn frames(count: usize) -> Vec<u8> {
    let mut bytes = Vec::new();
    for _ in 0..count {
        bytes.extend(frame());
    }
    bytes
}

/// A first frame that carries a frame count behind the mark `Xing`.
fn counted(count: [u8; 4]) -> Vec<u8> {
    let mut bytes = frame();
    bytes[36..40].copy_from_slice(b"Xing");
    bytes[43] = 1;
    bytes[44..48].copy_from_slice(&count);
    bytes
}

#[test]
fn remove_emojis_takes_out_the_listed_ranges() {
    assert_eq!(remove_emojis("hi \u{1F600}there\u{1F680}\u{1F300}!"), "hi there!");
    assert_eq!(remove_emojis("\u{2702}cut\u{27B0}"), "cut");
    assert_eq!(remove_emojis("flag \u{1F1E9}\u{1F1EA}"), "flag ");
    assert_eq!(remove_emojis("\u{24C2}\u{1F251}"), "");
}

#[test]
fn remove_emojis_keeps_other_text() {
    assert_eq!(remove_emojis(""), "");
    assert_eq!(remove_emojis("plain \u{e9}\u{24C1}\u{1F252} text"), "plain \u{e9}\u{24C1}\u{1F252} text");
}

#[test]
fn voice_url_names_text_and_settings() {
    let settings = config::Voice::default();
    assert_eq!(
        voice_url(&settings, "hello"),
        "https://texttospeech.responsivevoice.org/v1/text:synthesize?text=hello&lang=en-GB&engine=g1&name=&pitch=0.5&rate=0.5&volume=1&key=kvfbSITh&gender=male"
    );
    let other = config::Voice {
        language: "de-DE".to_string(),
        gender: "female".to_string(),
        pitch: "0.25".to_string(),
        rate: "1".to_string(),
    };
    assert_eq!(
        voice_url(&other, "a b"),
        "https://texttospeech.responsivevoice.org/v1/text:synthesize?text=a b&lang=de-DE&engine=g1&name=&pitch=0.25&rate=1&volume=1&key=kvfbSITh&gender=female"
    );
}

#[test]
fn audio_duration_adds_up_the_frames() {
    assert_eq!(get_audio_duration(&frame()), Ok(Span::new(0, 26_122_448)));
    assert_eq!(get_audio_duration(&frames(3)), Ok(Span::new(0, 3 * 26_122_448)));
    assert_eq!(get_audio_duration(&frames(40)), Ok(Span::new(1, 44_897_920)));
    assert_eq!(probe_audio_duration(&frames(3)), Ok(Span::new(0, 3 * 26_122_448)));
}

#[test]
fn audio_duration_of_no_data_is_zero() {
    assert_eq!(get_audio_duration(&[]), Ok(Span::zero()));
}

#[test]
fn audio_duration_is_taken_from_a_frame_count() {
    // 1000 frames of 1152 samples at 44.1 kHz.
    assert_eq!(
        get_audio_duration(&counted([0, 0, 0x03, 0xE8])),
        Ok(Span::new(26, 122_448_979))
    );
}

#[test]
fn audio_duration_rejects_what_is_no_mp3() {
    match get_audio_duration(&[1, 2, 3, 4]) {
        Err(VoiceError::Decode(message)) => assert!(message.contains("UnexpectedFrame")),
        other => panic!("{other:?}"),
    }
}

#[test]
fn audio_duration_rejects_a_cut_off_frame() {
    let mut bytes = frames(2);
    bytes.truncate(500);
    match get_audio_duration(&bytes) {
        Err(VoiceError::Decode(message)) => assert!(message.contains("UnexpectedEOF")),
        other => panic!("{other:?}"),
    }
}

#[test]
fn measured_parts_become_a_length_or_a_decode_error() {
    assert_eq!(length_from_parts(Ok((2, 500_000_000))), Ok(Span::from_millis(2500)));
    assert_eq!(
        length_from_parts(Err("bad".to_string())),
        Err(VoiceError::Decode("bad".to_string()))
    );
}

#[test]
fn a_large_number_elsewhere_does_no_harm() {
    // The mark stands in a title, not where a frame keeps its count.
    let mut text = b"ID3 Information about this".to_vec();
    text.resize(64, 0xFF);
    assert!(is_measurable(&text));
    // The frame holds the mark, but says that no count follows it.
    let mut unflagged = counted([0xFF, 0xFF, 0xFF, 0xFF]);
    unflagged[43] = 0;
    assert!(!is_oversized_at(&unflagged, 36));
    assert!(is_measurable(&unflagged));
    assert_eq!(probe_audio_duration(&unflagged), Ok(Span::new(0, 26_122_448)));
    // The mark stands behind a shorter header block.
    let mut short = vec![0xFF, 0xF3, 0x90, 0xC0];
    short.resize(104, 0);
    short[13..17].copy_from_slice(b"Info");
    short[20] = 3;
    short[21] = 1;
    assert!(is_oversized_at(&short, 13));
    assert!(!is_measurable(&short));
    assert!(starts_frame(&short, 0));
    assert!(!starts_frame(&short, 1));
    assert!(!starts_frame(&short, 103));
}

#[test]
fn oversized_tag_sizes_are_not_measured() {
    let mut bytes = b"APETAGEX".to_vec();
    bytes.extend([0u8; 4]);
    bytes.extend([0xFF, 0xFF, 0xFF, 0xFF]);
    let too_large = (u32::MAX as u64) + 16 > usize::MAX as u64;
    assert_eq!(is_oversized_at(&bytes, 0), too_large);
    assert_eq!(is_measurable(&bytes), !too_large);
    assert!(!is_oversized_at(&bytes, 1));
}

#[test]
fn oversized_frame_counts_are_not_measured() {
    let large = counted([0, 0x80, 0, 0]);
    assert!(is_oversized_at(&large, 36));
    assert!(!is_oversized_at(&large, 35));
    assert!(!is_measurable(&large));
    assert_eq!(
        probe_audio_duration(&large),
        Err(VoiceError::Decode("frame count or tag size out of range".to_string()))
    );
    let small = counted([0, 0x7F, 0xFF, 0xFF]);
    assert!(is_measurable(&small));
    assert!(probe_audio_duration(&small).is_ok());
    assert!(is_measurable(&frames(2)));
    assert!(is_measurable(&[]));
}

#[test]
fn start_voice_strips_emoji_from_the_address_only() {
    let request = start_voice(&config::Voice::default(), "hi \u{1F600}".to_string());
    assert_eq!(request.text, "hi \u{1F600}");
    assert_eq!(request.attempts, 0);
    assert_eq!(request.url, voice_url(&config::Voice::default(), "hi "));
}

#[test]
fn a_good_answer_ends_the_work() {
    let request = start_voice(&config::Voice::default(), "text".to_string());
    match voice_attempt(request, Ok(frame())) {
        VoiceStep::Done(voice) => {
            assert_eq!(voice.text, "text");
            assert_eq!(voice.bytes, frame());
            assert_eq!(voice.duration, Span::new(0, 26_122_448));
        }
        other => panic!("{other:?}"),
    }
}

#[test]
fn a_failure_asks_again() {
    let request = start_voice(&config::Voice::default(), "text".to_string());
    let url = request.url.clone();
    match voice_attempt(request, Err("no route".to_string())) {
        VoiceStep::Retry(next) => {
            assert_eq!(next.attempts, 1);
            assert_eq!(next.url, url);
            assert_eq!(next.text, "text");
        }
        other => panic!("{other:?}"),
    }
}

#[test]
fn bad_audio_counts_as_a_failed_attempt() {
    let request = start_voice(&config::Voice::default(), "text".to_string());
    match voice_attempt(request, Ok(vec![1, 2, 3, 4])) {
        VoiceStep::Retry(next) => assert_eq!(next.attempts, 1),
        other => panic!("{other:?}"),
    }
    assert!(matches!(
        attempt_from_response(Ok(vec![1, 2, 3, 4])),
        Err(VoiceError::Decode(_))
    ));
    assert_eq!(
        attempt_from_response(Err("down".to_string())),
        Err(VoiceError::Transport("down".to_string()))
    );
    assert_eq!(attempt_from_response(Ok(frame())), Ok((frame(), Span::new(0, 26_122_448))));
}

/// Runs a request against a service that fails `failures` times and then
/// answers; gives the last step and the number of attempts made.
fn run(failures: usize) -> (VoiceStep, usize) {
    let mut request = start_voice(&config::Voice::default(), "text".to_string());
    let mut made = 0;
    loop {
        let response = if made < failures {
            Err(format!("failure {made}"))
        } else {
            Ok(frame())
        };
        made += 1;
        match voice_attempt(request, response) {
            VoiceStep::Retry(next) => request = next,
            ended => return (ended, made),
        }
    }
}

#[test]
fn success_after_k_failures_takes_k_plus_one_attempts() {
    for k in 0..MAX_ATTEMPTS {
        let (step, made) = run(k);
        assert_eq!(made, k + 1);
        match step {
            VoiceStep::Done(voice) => {
                assert_eq!(voice.text, "text");
                assert_eq!(voice.bytes, frame());
            }
            other => panic!("{other:?}"),
        }
    }
}

#[test]
fn a_service_that_always_fails_is_asked_ten_times() {
    let (step, made) = run(usize::MAX);
    assert_eq!(made, 10);
    match step {
        VoiceStep::Failed(error) => {
            assert_eq!(error, VoiceError::Transport("failure 9".to_string()));
            assert_eq!(error.message(), "failure 9");
        }
        other => panic!("{other:?}"),
    }
}

#[test]
fn the_tenth_failure_is_the_last() {
    let request = VoiceRequest { text: "t".to_string(), url: "u".to_string(), attempts: 9 };
    assert!(matches!(
        after_attempt(request.clone(), Err(VoiceError::Decode("bad".to_string()))),
        VoiceStep::Failed(VoiceError::Decode(_))
    ));
    let request = VoiceRequest { text: "t".to_string(), url: "u".to_string(), attempts: 8 };
    assert!(matches!(
        after_attempt(request, Err(VoiceError::Decode("bad".to_string()))),
        VoiceStep::Retry(_)
    ));
}

fn texts(items: &[&str]) -> Vec<String> {
    items.iter().map(|item| item.to_string()).collect()
}

#[test]
fn no_texts_need_no_clips() {
    match create_voices(&config::Voice::default(), Vec::new()) {
        BatchStep::Done(voices) => assert!(voices.is_empty()),
        other => panic!("{other:?}"),
    }
}

#[test]
fn clips_come_in_the_order_of_the_texts() {
    let settings = config::Voice::default();
    let mut step = create_voices(&settings, texts(&["one", "two \u{1F600}", "three"]));
    let mut asked = Vec::new();
    let voices = loop {
        match step {
            BatchStep::Fetch(batch) => {
                asked.push(batch.url().to_string());
                // Every second request fails once.
                let response = if asked.len() % 2 == 0 { Err("busy".to_string()) } else { Ok(frames(asked.len())) };
                step = batch_attempt(batch, response);
            }
            BatchStep::Done(voices) => break voices,
            BatchStep::Failed(error) => panic!("{error:?}"),
        }
    };
    let spoken: Vec<&str> = voices.iter().map(|voice| voice.text.as_str()).collect();
    assert_eq!(spoken, vec!["one", "two \u{1F600}", "three"]);
    assert_eq!(
        asked,
        vec![
            voice_url(&settings, "one"),
            voice_url(&settings, "two "),
            voice_url(&settings, "two "),
            voice_url(&settings, "three"),
            voice_url(&settings, "three"),
        ]
    );
    assert_eq!(voices[0].bytes, frames(1));
    assert_eq!(voices[1].bytes, frames(3));
    assert_eq!(voices[2].duration, Span::new(0, 5 * 26_122_448));
}

#[test]
fn one_text_that_cannot_be_spoken_fails_the_run() {
    let mut step = create_voices(&config::Voice::default(), texts(&["one", "two", "three"]));
    let mut asked = 0;
    let error = loop {
        match step {
            BatchStep::Fetch(batch) => {
                asked += 1;
                let response = if batch.clips_made() == 0 { Ok(frame()) } else { Err(format!("down {asked}")) };
                step = batch_attempt(batch, response);
            }
            BatchStep::Done(voices) => panic!("{voices:?}"),
            BatchStep::Failed(error) => break error,
        }
    };
    assert_eq!(asked, 11);
    assert_eq!(error, VoiceError::Transport("down 11".to_string()));
}

#[test]
fn a_batch_goes_on_after_an_attempt_with_known_outcome() {
    let step = create_voices(&config::Voice::default(), texts(&["one", "two"]));
    let BatchStep::Fetch(batch) = step else { panic!("nothing to fetch") };
    let BatchStep::Fetch(next) = batch_after_attempt(batch, Ok((frame(), Span::from_secs(1)))) else {
        panic!("nothing to fetch")
    };
    assert_eq!(next.clips_made(), 1);
    assert_eq!(next.attempts(), 0);
    assert_eq!(next.url(), voice_url(&config::Voice::default(), "two"));
    let BatchStep::Fetch(again) = batch_attempt(next, Err("busy".to_string())) else {
        panic!("nothing to fetch")
    };
    assert_eq!(again.clips_made(), 1);
    assert_eq!(again.attempts(), 1);
    match batch_after_attempt(again, Ok((frames(2), Span::from_secs(2)))) {
        BatchStep::Done(voices) => {
            assert_eq!(voices.len(), 2);
            assert_eq!(voices[0].duration, Span::from_secs(1));
            assert_eq!(voices[1].text, "two");
            assert_eq!(voices[1].bytes, frames(2));
        }
        other => panic!("{other:?}"),
    }
    assert_eq!(copy_settings(&config::Voice::default()).language, "en-GB");
}
