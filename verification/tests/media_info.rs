use vidlib::mediainfo::{
    audio_bit_rate, audio_wants_max_rate, create_media_info, format_bit_rate, format_sample_rate,
    frame_rate_is_positive, get_codec_name, media_info_event, media_info_reply,
    video_wants_max_rate, AudioStreamProbe, CodecNames, FrameRate, MediaProbe,
    VideoMediaInfoChannelMessage, VideoStreamProbe,
};

fn codec(name: &str, long_name: &str) -> CodecNames {
    CodecNames { name: name.to_string(), long_name: long_name.to_string() }
}

fn video_stream() -> VideoStreamProbe {
    VideoStreamProbe {
        codec: codec("h264", "H.264 / AVC / MPEG-4 AVC / MPEG-4 part 10"),
        width: 1920,
        height: 1080,
        bit_rate: 4_500_999,
        max_rate: None,
        frame_rate: FrameRate { num: 30000, den: 1001 },
    }
}

fn audio_stream() -> AudioStreamProbe {
    AudioStreamProbe {
        codec: codec("aac", "AAC (Advanced Audio Coding)"),
        sample_rate: 48000,
        channels: 2,
        bits_per_sample: 0,
        bit_rate: 128_000,
        max_rate: None,
    }
}

fn probe() -> MediaProbe {
    MediaProbe {
        file_size: 2 * 1024 * 1024,
        duration: 3_661_990_000,
        bit_rate: 5_000_000,
        video: Some(video_stream()),
        audio: Some(audio_stream()),
    }
}

#[test]
fn codec_name_is_cut_at_the_first_slash() {
    assert_eq!(get_codec_name(&codec("h264", "H.264 / AVC / MPEG-4 AVC")), Some("H.264".to_string()));
    assert_eq!(get_codec_name(&codec("aac", "AAC (Advanced Audio Coding)")), Some("AAC (Advanced Audio Coding)".to_string()));
    assert_eq!(get_codec_name(&codec("x", "  padded \t/ rest")), Some("padded".to_string()));
    assert_eq!(get_codec_name(&codec("x", "/rest")), Some(String::new()));
    assert_eq!(get_codec_name(&codec("x", "  keeps spaces ")), Some("  keeps spaces ".to_string()));
    assert_eq!(get_codec_name(&codec("x", "")), Some(String::new()));
    for long in ["H.264 / AVC", " a\u{a0}/b", "\u{2003}x\u{3000} / y", "no slash", "/"] {
        let expected = match long.split_once('/') {
            Some((head, _)) => head.trim().to_string(),
            None => long.to_string(),
        };
        assert_eq!(get_codec_name(&codec("n", long)), Some(expected), "name {:?}", long);
    }
}

#[test]
fn rates_are_formatted() {
    assert_eq!(format_bit_rate(1), "0 kb/s");
    assert_eq!(format_bit_rate(999), "0 kb/s");
    assert_eq!(format_bit_rate(1000), "1 kb/s");
    assert_eq!(format_bit_rate(4_500_999), "4500 kb/s");
    assert_eq!(format_bit_rate(i64::MAX), "9223372036854775 kb/s");
    assert_eq!(format_sample_rate(48000), "48000 Hz");
    assert_eq!(format_sample_rate(-1), "-1 Hz");
}

#[test]
fn frame_rate_sign() {
    assert!(frame_rate_is_positive(FrameRate { num: 30000, den: 1001 }));
    assert!(frame_rate_is_positive(FrameRate { num: -1, den: -1 }));
    assert!(frame_rate_is_positive(FrameRate { num: 1, den: 0 }));
    assert!(!frame_rate_is_positive(FrameRate { num: 0, den: 1 }));
    assert!(!frame_rate_is_positive(FrameRate { num: 0, den: 0 }));
    assert!(!frame_rate_is_positive(FrameRate { num: -1, den: 0 }));
    assert!(!frame_rate_is_positive(FrameRate { num: 1, den: -1 }));
    assert!(!frame_rate_is_positive(FrameRate { num: -1, den: 1 }));
    for (num, den) in [(30000, 1001), (-1, -1), (1, 0), (0, 1), (0, 0), (-1, 0), (1, -1), (-1, 1), (i32::MAX, i32::MIN), (i32::MIN, i32::MIN)] {
        let fps = num as f64 / den as f64;
        assert_eq!(frame_rate_is_positive(FrameRate { num, den }), fps > 0.0, "{}/{}", num, den);
    }
}

#[test]
fn audio_rate_from_sample_size_or_stream() {
    let mut a = audio_stream();
    assert_eq!(audio_bit_rate(&a), 128_000);
    assert!(!audio_wants_max_rate(&a));
    a.bits_per_sample = 16;
    assert_eq!(audio_bit_rate(&a), 48000 * 2 * 16);
    a.sample_rate = i32::MAX;
    a.channels = i32::MAX;
    a.bits_per_sample = 32;
    assert_eq!(audio_bit_rate(&a), 0);
    assert!(audio_wants_max_rate(&a));
    a.bits_per_sample = 1;
    assert_eq!(audio_bit_rate(&a), i32::MAX as i64 * i32::MAX as i64);
    a.sample_rate = -48000;
    a.channels = 2;
    a.bits_per_sample = 16;
    assert!(audio_bit_rate(&a) <= 0);
    a.bits_per_sample = 0;
    a.bit_rate = -5;
    assert!(audio_wants_max_rate(&a));
    let mut v = video_stream();
    assert!(!video_wants_max_rate(&v));
    v.bit_rate = 0;
    assert!(video_wants_max_rate(&v));
}

#[test]
fn media_info_of_a_full_probe() {
    let info = create_media_info(&probe());
    assert_eq!(info.width, Some(1920));
    assert_eq!(info.height, Some(1080));
    assert_eq!(info.framerate, Some(FrameRate { num: 30000, den: 1001 }));
    assert_eq!(info.filesize.as_deref(), Some("2.0 MB"));
    assert_eq!(info.bitrate.as_deref(), Some("4500 kb/s"));
    assert_eq!(info.length, "01:01:01.099");
    assert_eq!(info.codec.as_deref(), Some("H.264"));
    assert_eq!(info.abitrate.as_deref(), Some("128 kb/s"));
    assert_eq!(info.acodec.as_deref(), Some("AAC (Advanced Audio Coding)"));
    assert_eq!(info.asample.as_deref(), Some("48000 Hz"));
}

#[test]
fn media_info_without_streams() {
    let info = create_media_info(&MediaProbe {
        file_size: 10,
        duration: 0,
        bit_rate: 0,
        video: None,
        audio: None,
    });
    assert_eq!(info.filesize.as_deref(), Some("10 B"));
    assert_eq!(info.length, "00:00:00.000");
    assert!(info.width.is_none() && info.height.is_none() && info.framerate.is_none());
    assert!(info.bitrate.is_none() && info.codec.is_none());
    assert!(info.abitrate.is_none() && info.acodec.is_none() && info.asample.is_none());
}

#[test]
fn bit_rate_falls_back_in_order() {
    let mut p = probe();
    p.video.as_mut().unwrap().bit_rate = 0;
    assert_eq!(create_media_info(&p).bitrate.as_deref(), Some("5000 kb/s"));
    p.video.as_mut().unwrap().max_rate = Some(0);
    assert_eq!(create_media_info(&p).bitrate.as_deref(), Some("5000 kb/s"));
    p.video.as_mut().unwrap().max_rate = Some(8_000_000);
    assert_eq!(create_media_info(&p).bitrate.as_deref(), Some("8000 kb/s"));
    p.bit_rate = 0;
    p.video.as_mut().unwrap().max_rate = None;
    assert!(create_media_info(&p).bitrate.is_none());
    // An audio stream without a rate of its own lends the maximum rate of
    // its codec context to the shown bit rate.
    p.audio.as_mut().unwrap().bit_rate = 0;
    p.audio.as_mut().unwrap().max_rate = Some(320_000);
    let info = create_media_info(&p);
    assert_eq!(info.bitrate.as_deref(), Some("320 kb/s"));
    assert!(info.abitrate.is_none());
    p.video.as_mut().unwrap().bit_rate = 4_000_000;
    assert_eq!(create_media_info(&p).bitrate.as_deref(), Some("320 kb/s"));
    p.audio.as_mut().unwrap().bit_rate = 64_000;
    let info = create_media_info(&p);
    assert_eq!(info.bitrate.as_deref(), Some("4000 kb/s"));
    assert_eq!(info.abitrate.as_deref(), Some("64 kb/s"));
}

#[test]
fn media_info_leaves_out_what_is_not_positive() {
    let mut p = probe();
    p.video.as_mut().unwrap().width = 0;
    p.video.as_mut().unwrap().frame_rate = FrameRate { num: 0, den: 1 };
    p.audio.as_mut().unwrap().sample_rate = 0;
    let info = create_media_info(&p);
    assert!(info.width.is_none());
    assert!(info.height.is_none());
    assert!(info.framerate.is_none());
    assert!(info.asample.is_none());
    assert_eq!(info.abitrate.as_deref(), Some("128 kb/s"));
}

#[test]
fn pipeline_messages_carry_identifier_and_metadata() {
    let input = VideoMediaInfoChannelMessage::new("ab".to_string(), "/lib/a.mp4".to_string(), None);
    assert!(media_info_reply(input, None).is_none());
    let input = VideoMediaInfoChannelMessage::new("ab".to_string(), "/lib/a.mp4".to_string(), None);
    let output = media_info_reply(input, Some(&probe())).unwrap();
    assert_eq!((output.id.as_str(), output.path.as_str()), ("ab", "/lib/a.mp4"));
    assert_eq!(output.info.as_ref().unwrap().length, "01:01:01.099");
    let (name, event) = media_info_event(output);
    assert_eq!(name, "update_mediainfo_ab");
    assert_eq!(event.media_info.codec.as_deref(), Some("H.264"));
}
