//! Technical metadata of a video, made from what a probe of its container and
//! streams found.

use vstd::prelude::*;
use crate::text::{
    append_decimal,
    append_decimal_padded,
    chars_of,
    decimal,
    decimal_padded,
    find_first,
    index_of,
    lemma_index_of_bounds,
    slice_text,
    text_of_option,
    trim_bounds,
    trimmed,
};
use crate::util::{format_file_size, size_text};

verus! {

/// The time base of a container: its durations count microseconds.
pub const TIME_BASE: i64 = 1000000;

/// The names of a codec.
pub struct CodecNames {
    pub name: String,
    pub long_name: String,
}

/// A frame rate as a fraction.
#[derive(Clone, Copy, Debug, PartialEq, Eq, Structural)]
pub struct FrameRate {
    pub num: i32,
    pub den: i32,
}

/// What a probe found of the best video stream.
pub struct VideoStreamProbe {
    pub codec: CodecNames,
    pub width: i32,
    pub height: i32,
    pub bit_rate: i64,
    /// The maximum rate of a codec context opened for the stream, where one
    /// was opened. It is read only where `video_wants_max_rate` holds.
    pub max_rate: Option<i64>,
    pub frame_rate: FrameRate,
}

/// What a probe found of the best audio stream.
pub struct AudioStreamProbe {
    pub codec: CodecNames,
    pub sample_rate: i32,
    pub channels: i32,
    /// The bits of one sample of the codec, or zero where it has no fixed
    /// number.
    pub bits_per_sample: i32,
    pub bit_rate: i64,
    /// The maximum rate of a codec context opened for the stream, where one
    /// was opened. It is read only where `audio_wants_max_rate` holds.
    pub max_rate: Option<i64>,
}

/// What a probe found of a file.
pub struct MediaProbe {
    pub file_size: u64,
    pub duration: i64,
    pub bit_rate: i64,
    pub video: Option<VideoStreamProbe>,
    pub audio: Option<AudioStreamProbe>,
}

/// The technical metadata shown for a video.
pub struct VideoMediaInfo {
    pub width: Option<i32>,
    pub height: Option<i32>,
    pub framerate: Option<FrameRate>,
    pub filesize: Option<String>,
    pub bitrate: Option<String>,
    pub length: String,
    pub codec: Option<String>,
    pub abitrate: Option<String>,
    pub acodec: Option<String>,
    pub asample: Option<String>,
}

/// The mathematical value of a `VideoMediaInfo`.
pub struct MediaInfoView {
    pub width: Option<i32>,
    pub height: Option<i32>,
    pub framerate: Option<FrameRate>,
    pub filesize: Option<Seq<char>>,
    pub bitrate: Option<Seq<char>>,
    pub length: Seq<char>,
    pub codec: Option<Seq<char>>,
    pub abitrate: Option<Seq<char>>,
    pub acodec: Option<Seq<char>>,
    pub asample: Option<Seq<char>>,
}

impl View for VideoMediaInfo {
    type V = MediaInfoView;

    open spec fn view(&self) -> MediaInfoView {
        MediaInfoView {
            width: self.width,
            height: self.height,
            framerate: self.framerate,
            filesize: text_of_option(self.filesize),
            bitrate: text_of_option(self.bitrate),
            length: self.length@,
            codec: text_of_option(self.codec),
            abitrate: text_of_option(self.abitrate),
            acodec: text_of_option(self.acodec),
            asample: text_of_option(self.asample),
        }
    }
}

/// `a / b` rounded towards zero.
pub open spec fn quotient(a: int, b: int) -> int
    recommends
        b > 0,
{
    if a >= 0 {
        a / b
    } else {
        -((-a) / b)
    }
}

/// What `a / b` rounded towards zero leaves over; it has the sign of `a`.
pub open spec fn remainder(a: int, b: int) -> int
    recommends
        b > 0,
{
    a - b * quotient(a, b)
}

/// The text of a duration in microseconds: hours, minutes and seconds with
/// two digits each, and hundredths of a second with three,
/// `hh:mm:ss.0cc`. Half a hundredth is added first, unless that would
/// overflow.
pub open spec fn duration_text(duration: i64) -> Seq<char> {
    let d = if duration <= i64::MAX - 5000 {
        duration + 5000
    } else {
        duration as int
    };
    let all_seconds = quotient(d, TIME_BASE as int);
    let micros = remainder(d, TIME_BASE as int);
    let hundredths = quotient(100 * micros, TIME_BASE as int);
    let all_minutes = quotient(all_seconds, 60);
    let seconds = remainder(all_seconds, 60);
    let hours = quotient(all_minutes, 60);
    let minutes = remainder(all_minutes, 60);
    decimal_padded(hours, 2) + seq![':'] + decimal_padded(minutes, 2) + seq![':']
        + decimal_padded(seconds, 2) + seq!['.'] + decimal_padded(hundredths, 3)
}

/// The text of a positive bit rate: whole thousands of bits per second.
pub open spec fn rate_text(rate: i64) -> Seq<char> {
    decimal(rate as int / 1000) + seq![' ', 'k', 'b', '/', 's']
}

/// The text of a sample rate.
pub open spec fn sample_text(rate: i32) -> Seq<char> {
    decimal(rate as int) + seq![' ', 'H', 'z']
}

/// The name shown for a codec: its long name, cut before the first `/` and
/// trimmed where it has one.
pub open spec fn codec_text(names: CodecNames) -> Seq<char> {
    let long = names.long_name@;
    if long.contains('/') {
        trimmed(long.subrange(0, index_of(long, '/')))
    } else {
        long
    }
}

/// Whether a frame rate is above zero. A positive numerator over zero counts
/// as above zero.
pub open spec fn rate_is_positive(rate: FrameRate) -> bool {
    (rate.num > 0 && rate.den >= 0) || (rate.num < 0 && rate.den < 0)
}

/// The bit rate of an audio stream: samples per second times channels times
/// bits per sample where the codec has a fixed sample size (zero where that
/// exceeds `i64::MAX`), else the rate that the stream states.
pub open spec fn audio_rate(audio: AudioStreamProbe) -> int {
    if audio.bits_per_sample > 0 {
        let per_second = audio.sample_rate as int * audio.channels as int;
        if per_second > (i64::MAX as int) / (audio.bits_per_sample as int) {
            0
        } else {
            per_second * audio.bits_per_sample
        }
    } else {
        audio.bit_rate as int
    }
}

/// Whether the maximum rate of the video stream's codec context is wanted:
/// where the stream states no bit rate.
pub open spec fn video_wants_rate(video: VideoStreamProbe) -> bool {
    video.bit_rate <= 0
}

/// Whether the maximum rate of the audio stream's codec context is wanted:
/// where the stream has no bit rate.
pub open spec fn audio_wants_rate(audio: AudioStreamProbe) -> bool {
    audio_rate(audio) <= 0
}

/// The bit rate shown after the container's own rate is looked at.
pub open spec fn container_bitrate(probe: MediaProbe) -> Option<Seq<char>> {
    if probe.bit_rate > 0 {
        Some(rate_text(probe.bit_rate))
    } else {
        None
    }
}

/// The bit rate shown after the video stream is looked at: the stream's own
/// rate, else the maximum rate of its codec context, else what was shown
/// before.
pub open spec fn video_bitrate(probe: MediaProbe) -> Option<Seq<char>> {
    match probe.video {
        Some(video) => {
            if video.bit_rate > 0 {
                Some(rate_text(video.bit_rate))
            } else if video.max_rate is Some && video.max_rate->0 > 0 {
                Some(rate_text(video.max_rate->0))
            } else {
                container_bitrate(probe)
            }
        },
        None => container_bitrate(probe),
    }
}

/// The bit rate shown in the end: where the audio stream has no bit rate of
/// its own and its codec context has a maximum rate, that rate; else what
/// was shown before.
pub open spec fn shown_bitrate(probe: MediaProbe) -> Option<Seq<char>> {
    match probe.audio {
        Some(audio) => {
            if audio_rate(audio) <= 0 && audio.max_rate is Some && audio.max_rate->0 > 0 {
                Some(rate_text(audio.max_rate->0))
            } else {
                video_bitrate(probe)
            }
        },
        None => video_bitrate(probe),
    }
}

/// The metadata that a probe gives.
pub open spec fn media_info_of(probe: MediaProbe) -> MediaInfoView {
    MediaInfoView {
        width: match probe.video {
            Some(video) => if video.width > 0 {
                Some(video.width)
            } else {
                None
            },
            None => None,
        },
        height: match probe.video {
            Some(video) => if video.width > 0 {
                Some(video.height)
            } else {
                None
            },
            None => None,
        },
        framerate: match probe.video {
            Some(video) => if rate_is_positive(video.frame_rate) {
                Some(video.frame_rate)
            } else {
                None
            },
            None => None,
        },
        filesize: Some(size_text(probe.file_size as nat)),
        bitrate: shown_bitrate(probe),
        length: duration_text(probe.duration),
        codec: match probe.video {
            Some(video) => Some(codec_text(video.codec)),
            None => None,
        },
        abitrate: match probe.audio {
            Some(audio) => if audio_rate(audio) > 0 {
                Some(rate_text(audio_rate(audio) as i64))
            } else {
                None
            },
            None => None,
        },
        acodec: match probe.audio {
            Some(audio) => Some(codec_text(audio.codec)),
            None => None,
        },
        asample: match probe.audio {
            Some(audio) => if audio.sample_rate > 0 {
                Some(sample_text(audio.sample_rate))
            } else {
                None
            },
            None => None,
        },
    }
}

/// `a / b` rounded towards zero.
fn divide(a: i64, b: i64) -> (q: i64)
    requires
        b > 0,
        a > i64::MIN,
    ensures
        q == quotient(a as int, b as int),
{
    if a >= 0 {
        a / b
    } else {
        let m: i64 = -a;
        -(m / b)
    }
}

/// What `a / b` rounded towards zero leaves over.
fn left_over(a: i64, b: i64) -> (r: i64)
    requires
        b > 0,
        a > i64::MIN,
    ensures
        r == remainder(a as int, b as int),
        -b < r < b,
{
    if a >= 0 {
        assert(a as int == b * (a as int / b as int) + (a as int % b as int)) by (nonlinear_arith)
            requires
                b > 0,
        ;
        a % b
    } else {
        let m: i64 = -a;
        assert(m as int == b * (m as int / b as int) + (m as int % b as int)) by (nonlinear_arith)
            requires
                b > 0,
        ;
        assert(b * (-(m as int / b as int)) == -(b * (m as int / b as int))) by (nonlinear_arith);
        -(m % b)
    }
}

/// The text of a duration in microseconds.
pub fn format_duration(duration: i64) -> (text: String)
    ensures
        text@ == duration_text(duration),
{
    let d: i64 = if duration <= i64::MAX - 5000 {
        duration + 5000
    } else {
        duration
    };
    let all_seconds: i64 = divide(d, TIME_BASE);
    let micros: i64 = left_over(d, TIME_BASE);
    let hundredths: i64 = divide(100 * micros, TIME_BASE);
    let all_minutes: i64 = divide(all_seconds, 60);
    let seconds: i64 = left_over(all_seconds, 60);
    let hours: i64 = divide(all_minutes, 60);
    let minutes: i64 = left_over(all_minutes, 60);
    let mut text = String::new();
    proof {
        reveal_strlit(":");
        reveal_strlit(".");
    }
    append_decimal_padded(&mut text, hours, 2);
    text.append(":");
    append_decimal_padded(&mut text, minutes, 2);
    text.append(":");
    append_decimal_padded(&mut text, seconds, 2);
    text.append(".");
    append_decimal_padded(&mut text, hundredths, 3);
    assert(text@ =~= duration_text(duration));
    text
}

/// The text of a positive bit rate.
pub fn format_bit_rate(rate: i64) -> (text: String)
    requires
        rate > 0,
    ensures
        text@ == rate_text(rate),
{
    let mut text = String::new();
    append_decimal(&mut text, rate / 1000);
    proof {
        reveal_strlit(" kb/s");
    }
    text.append(" kb/s");
    assert(text@ =~= rate_text(rate));
    text
}

/// The text of a sample rate.
pub fn format_sample_rate(rate: i32) -> (text: String)
    ensures
        text@ == sample_text(rate),
{
    let mut text = String::new();
    append_decimal(&mut text, rate as i64);
    proof {
        reveal_strlit(" Hz");
    }
    text.append(" Hz");
    assert(text@ =~= sample_text(rate));
    text
}

/// The name shown for a codec.
pub fn get_codec_name(codec: &CodecNames) -> (name: Option<String>)
    ensures
        name is Some,
        name->0@ == codec_text(*codec),
{
    let chars = chars_of(codec.long_name.as_str());
    let cut: usize = find_first(&chars, '/');
    proof {
        lemma_index_of_bounds(chars@, '/');
    }
    if cut < chars.len() {
        let bounds = trim_bounds(&chars, 0, cut);
        let name = slice_text(codec.long_name.as_str(), bounds.0, bounds.1);
        Some(name)
    } else {
        Some(codec.long_name.clone())
    }
}

/// Whether a frame rate is above zero.
pub fn frame_rate_is_positive(rate: FrameRate) -> (positive: bool)
    ensures
        positive == rate_is_positive(rate),
{
    (rate.num > 0 && rate.den >= 0) || (rate.num < 0 && rate.den < 0)
}

/// The bit rate of an audio stream where it is above zero, else a number
/// that is not.
pub fn audio_bit_rate(audio: &AudioStreamProbe) -> (rate: i64)
    ensures
        rate > 0 <==> audio_rate(*audio) > 0,
        rate > 0 ==> rate == audio_rate(*audio),
{
    if audio.bits_per_sample > 0 {
        let bits: i64 = audio.bits_per_sample as i64;
        assert(-4611686018427387904 <= (audio.sample_rate as int) * (audio.channels as int)
            <= 4611686018427387904) by (nonlinear_arith)
            requires
                -2147483648 <= audio.sample_rate <= 2147483647,
                -2147483648 <= audio.channels <= 2147483647,
        ;
        let per_second: i64 = audio.sample_rate as i64 * audio.channels as i64;
        if per_second <= 0 {
            assert(audio_rate(*audio) <= 0) by (nonlinear_arith)
                requires
                    per_second <= 0,
                    bits > 0,
                    audio_rate(*audio) == if per_second > (i64::MAX as int) / (bits as int) {
                        0
                    } else {
                        per_second * bits
                    },
            ;
            0
        } else if per_second > i64::MAX / bits {
            0
        } else {
            assert(0 < per_second * bits <= i64::MAX) by (nonlinear_arith)
                requires
                    0 < per_second <= (i64::MAX as int) / (bits as int),
                    bits > 0,
            ;
            per_second * bits
        }
    } else {
        audio.bit_rate
    }
}

/// Whether the maximum rate of the video stream's codec context is wanted.
pub fn video_wants_max_rate(video: &VideoStreamProbe) -> (wanted: bool)
    ensures
        wanted == video_wants_rate(*video),
{
    video.bit_rate <= 0
}

/// Whether the maximum rate of the audio stream's codec context is wanted.
pub fn audio_wants_max_rate(audio: &AudioStreamProbe) -> (wanted: bool)
    ensures
        wanted == audio_wants_rate(*audio),
{
    audio_bit_rate(audio) <= 0
}

/// The bit rate taken from the maximum rate of a codec context, where the
/// context was opened and has one; else the rate shown before.
fn calculate_bit_rate(shown: Option<String>, max_rate: Option<i64>) -> (bitrate: Option<String>)
    ensures
        text_of_option(bitrate) == if max_rate is Some && max_rate->0 > 0 {
            Some(rate_text(max_rate->0))
        } else {
            text_of_option(shown)
        },
{
    match max_rate {
        Some(rate) => {
            if rate > 0 {
                Some(format_bit_rate(rate))
            } else {
                shown
            }
        },
        None => shown,
    }
}

/// The technical metadata of a file, from what a probe found of it.
pub fn create_media_info(probe: &MediaProbe) -> (info: VideoMediaInfo)
    ensures
        info@ == media_info_of(*probe),
{
    let filesize: Option<String> = Some(format_file_size(probe.file_size));
    let length: String = format_duration(probe.duration);
    let mut bitrate: Option<String> = None;
    if probe.bit_rate > 0 {
        bitrate = Some(format_bit_rate(probe.bit_rate));
    }
    assert(text_of_option(bitrate) == container_bitrate(*probe));
    let mut width: Option<i32> = None;
    let mut height: Option<i32> = None;
    let mut framerate: Option<FrameRate> = None;
    let mut codec: Option<String> = None;
    match &probe.video {
        Some(video) => {
            codec = get_codec_name(&video.codec);
            if video.width > 0 {
                width = Some(video.width);
                height = Some(video.height);
            }
            if video.bit_rate > 0 {
                bitrate = Some(format_bit_rate(video.bit_rate));
            } else {
                bitrate = calculate_bit_rate(bitrate, video.max_rate);
            }
            if frame_rate_is_positive(video.frame_rate) {
                framerate = Some(video.frame_rate);
            }
        },
        None => {},
    }
    assert(text_of_option(bitrate) == video_bitrate(*probe));
    let mut abitrate: Option<String> = None;
    let mut acodec: Option<String> = None;
    let mut asample: Option<String> = None;
    match &probe.audio {
        Some(audio) => {
            acodec = get_codec_name(&audio.codec);
            if audio.sample_rate > 0 {
                asample = Some(format_sample_rate(audio.sample_rate));
            }
            let rate: i64 = audio_bit_rate(audio);
            if rate > 0 {
                abitrate = Some(format_bit_rate(rate));
            } else {
                bitrate = calculate_bit_rate(bitrate, audio.max_rate);
            }
        },
        None => {},
    }
    assert(text_of_option(bitrate) == shown_bitrate(*probe));
    VideoMediaInfo {
        width,
        height,
        framerate,
        filesize,
        bitrate,
        length,
        codec,
        abitrate,
        acodec,
        asample,
    }
}

/// The event that tells a user interface of a video's metadata.
pub struct VideoMediaInfoEmitEvent {
    pub media_info: VideoMediaInfo,
}

impl VideoMediaInfoEmitEvent {
    pub fn new(path: VideoMediaInfo) -> (event: Self)
        ensures
            event.media_info == path,
    {
        Self { media_info: path }
    }
}

/// A job of the metadata pipeline, or its result: an identifier with the
/// path of the video, and the metadata once it is made.
pub struct VideoMediaInfoChannelMessage {
    pub id: String,
    pub path: String,
    pub info: Option<VideoMediaInfo>,
}

impl VideoMediaInfoChannelMessage {
    pub fn new(id: String, path: String, info: Option<VideoMediaInfo>) -> (message: Self)
        ensures
            message.id == id,
            message.path == path,
            message.info == info,
    {
        Self { id, path, info }
    }
}

/// Ends a job of the metadata pipeline. `probe` is what the probe of the
/// job's video found, or none where it failed. The message for the output
/// channel carries the job's identifier and path with the metadata; a
/// failed probe gives no message.
pub fn media_info_reply(
    input: VideoMediaInfoChannelMessage,
    probe: Option<&MediaProbe>,
) -> (output: Option<VideoMediaInfoChannelMessage>)
    ensures
        probe is None ==> output is None,
        probe is Some ==> output is Some,
        probe is Some ==> output->0.id == input.id && output->0.path == input.path,
        probe is Some ==> output->0.info is Some,
        probe is Some ==> output->0.info->0@ == media_info_of(*probe->0),
{
    match probe {
        Some(probe) => {
            let m = create_media_info(probe);
            Some(VideoMediaInfoChannelMessage::new(input.id, input.path, Some(m)))
        },
        None => None,
    }
}

/// The name of the event that tells of the metadata of an identifier.
pub open spec fn media_info_event_name(id: Seq<char>) -> Seq<char> {
    "update_mediainfo_"@ + id
}

/// The event for a message of the output channel, with its name.
pub fn media_info_event(
    output: VideoMediaInfoChannelMessage,
) -> (event: (String, VideoMediaInfoEmitEvent))
    requires
        output.info is Some,
    ensures
        event.0@ == media_info_event_name(output.id@),
        event.1.media_info == output.info->0,
{
    let mut name: String = "update_mediainfo_".to_owned();
    name.append(output.id.as_str());
    (name, VideoMediaInfoEmitEvent::new(output.info.unwrap()))
}

} // verus!
