//! Video frames handed to the renderer, the codec and quality options sent
//! to the peer, the audio stream, and the shared clipboard.
use crate::text::chars_of;
use vstd::prelude::*;
use vstd::utf8::{decode_utf8, valid_utf8};

verus! {

// ------------------------------------------------------------ video frames

/// The encodings a video frame can arrive in.
#[derive(Clone, Copy, Debug, PartialEq, Eq, Structural)]
pub enum VideoCodec {
    Vp9,
    H264,
    H265,
    Vp8,
    Av1,
}

/// The byte that tells the renderer a frame's codec.
pub open spec fn spec_codec_tag(codec: VideoCodec) -> u8 {
    match codec {
        VideoCodec::Vp9 => 86,
        VideoCodec::H264 => 72,
        VideoCodec::H265 => 53,
        VideoCodec::Vp8 => 56,
        VideoCodec::Av1 => 65,
    }
}

/// `b'V'`, `b'H'`, `b'5'`, `b'8'` or `b'A'`.
pub fn codec_tag(codec: VideoCodec) -> (r: u8)
    ensures
        r == spec_codec_tag(codec),
{
    match codec {
        VideoCodec::Vp9 => 86,
        VideoCodec::H264 => 72,
        VideoCodec::H265 => 53,
        VideoCodec::Vp8 => 56,
        VideoCodec::Av1 => 65,
    }
}

/// The magic that starts every frame handed to the renderer: `SRD0`.
pub open spec fn frame_magic() -> Seq<u8> {
    seq![83u8, 82u8, 68u8, 48u8]
}

/// A frame as the renderer receives it: the magic, the codec tag, the data.
pub open spec fn spec_tagged_frame(tag: u8, data: Seq<u8>) -> Seq<u8> {
    frame_magic() + seq![tag] + data
}

pub fn tag_video_frame(tag: u8, data: &[u8]) -> (r: Vec<u8>)
    ensures
        r@ == spec_tagged_frame(tag, data@),
{
    let mut r: Vec<u8> = Vec::new();
    r.push(83);
    r.push(82);
    r.push(68);
    r.push(48);
    r.push(tag);
    let mut i: usize = 0;
    while i < data.len()
        invariant
            i <= data@.len(),
            r@ == spec_tagged_frame(tag, data@.subrange(0, i as int)),
        decreases data@.len() - i,
    {
        r.push(data[i]);
        i = i + 1;
        assert(r@ =~= spec_tagged_frame(tag, data@.subrange(0, i as int)));
    }
    assert(data@.subrange(0, data@.len() as int) =~= data@);
    r
}

/// The non-empty frames of a batch, tagged, in order.
pub open spec fn spec_tagged_batch(tag: u8, frames: Seq<Seq<u8>>) -> Seq<Seq<u8>>
    decreases frames.len(),
{
    if frames.len() == 0 {
        Seq::empty()
    } else {
        let rest = spec_tagged_batch(tag, frames.drop_last());
        if frames.last().len() == 0 {
            rest
        } else {
            rest.push(spec_tagged_frame(tag, frames.last()))
        }
    }
}

pub open spec fn frame_views(frames: Seq<Vec<u8>>) -> Seq<Seq<u8>> {
    frames.map_values(|f: Vec<u8>| f@)
}

/// Tags every non-empty frame of a batch; empty ones are skipped.
pub fn tag_encoded_frames(codec: VideoCodec, frames: &Vec<Vec<u8>>) -> (r: Vec<Vec<u8>>)
    ensures
        frame_views(r@) == spec_tagged_batch(spec_codec_tag(codec), frame_views(frames@)),
{
    let tag = codec_tag(codec);
    let mut r: Vec<Vec<u8>> = Vec::new();
    let mut i: usize = 0;
    while i < frames.len()
        invariant
            i <= frames@.len(),
            tag == spec_codec_tag(codec),
            frame_views(r@) == spec_tagged_batch(tag, frame_views(frames@.subrange(0, i as int))),
        decreases frames@.len() - i,
    {
        let ghost before = frame_views(frames@.subrange(0, i as int));
        let ghost after = frame_views(frames@.subrange(0, i + 1));
        assert(after.drop_last() =~= before);
        assert(after.last() == frames@[i as int]@);
        if frames[i].len() > 0 {
            let t = tag_video_frame(tag, frames[i].as_slice());
            r.push(t);
            assert(frame_views(r@) =~= spec_tagged_batch(tag, before).push(t@));
        }
        i = i + 1;
    }
    assert(frames@.subrange(0, frames@.len() as int) =~= frames@);
    r
}

// ------------------------------------------------------------ quality

/// The image quality asked of the peer.
#[derive(Clone, Copy, Debug, PartialEq, Eq, Structural)]
pub enum ImageQuality {
    Low,
    Balanced,
}

impl ImageQuality {
    /// The protocol value of the quality.
    pub fn value(&self) -> (r: i32)
        ensures
            r == (match *self {
                ImageQuality::Low => 2i32,
                ImageQuality::Balanced => 3i32,
            }),
    {
        match self {
            ImageQuality::Low => 2,
            ImageQuality::Balanced => 3,
        }
    }
}

/// Frame rate and quality asked of the peer.
#[derive(Clone, Copy, Debug, PartialEq, Eq, Structural)]
pub struct PerformanceConfig {
    pub fps: i32,
    pub quality: ImageQuality,
}

pub open spec fn config(fps: i32, quality: ImageQuality) -> PerformanceConfig {
    PerformanceConfig { fps, quality }
}

/// The settings of a named preset; unknown names get the default, `smooth`.
pub open spec fn spec_preset(name: Seq<char>) -> PerformanceConfig {
    if name == "stable"@ {
        config(30, ImageQuality::Balanced)
    } else if name == "high_fps"@ {
        config(60, ImageQuality::Balanced)
    } else if name == "silky"@ {
        config(60, ImageQuality::Low)
    } else {
        config(45, ImageQuality::Low)
    }
}

/// How the named presets relate: `high_fps` and `silky` both run at 60
/// frames a second, twice the rate of `stable`; `stable` and `high_fps` ask
/// for balanced quality, `silky` and the default `smooth` for low quality;
/// `stable` is slower than `smooth`, which is slower than `high_fps`; and any
/// name that is not a preset gets exactly the settings of `smooth`.
pub proof fn presets_trade_frame_rate_against_quality(name: Seq<char>)
    ensures
        spec_preset("high_fps"@).fps == 60,
        spec_preset("high_fps"@).fps == spec_preset("silky"@).fps,
        spec_preset("high_fps"@).fps == 2 * spec_preset("stable"@).fps,
        spec_preset("stable"@).fps < spec_preset("smooth"@).fps < spec_preset("high_fps"@).fps,
        spec_preset("high_fps"@).quality == ImageQuality::Balanced,
        spec_preset("stable"@).quality == ImageQuality::Balanced,
        spec_preset("silky"@).quality == ImageQuality::Low,
        spec_preset("smooth"@).quality == ImageQuality::Low,
        name != "stable"@ && name != "high_fps"@ && name != "silky"@ ==> spec_preset(name)
            == spec_preset("smooth"@),
{
    reveal_strlit("stable");
    reveal_strlit("high_fps");
    reveal_strlit("silky");
    reveal_strlit("smooth");
    assert("high_fps"@.len() != "stable"@.len());
    assert("silky"@.len() != "stable"@.len() && "silky"@.len() != "high_fps"@.len());
    assert("smooth"@[1] != "stable"@[1]);
    assert("smooth"@.len() != "high_fps"@.len() && "smooth"@.len() != "silky"@.len());
}

pub fn performance_preset(name: &str) -> (r: PerformanceConfig)
    ensures
        r == spec_preset(name@),
{
    if crate::connect::str_equal(name, "stable") {
        PerformanceConfig { fps: 30, quality: ImageQuality::Balanced }
    } else if crate::connect::str_equal(name, "high_fps") {
        PerformanceConfig { fps: 60, quality: ImageQuality::Balanced }
    } else if crate::connect::str_equal(name, "silky") {
        PerformanceConfig { fps: 60, quality: ImageQuality::Low }
    } else {
        PerformanceConfig { fps: 45, quality: ImageQuality::Low }
    }
}

/// The settings in effect: two low-quality frames a second while the app is
/// in the background, the configured ones otherwise.
pub fn performance_config(configured: PerformanceConfig, background: bool) -> (r: PerformanceConfig)
    ensures
        r == (if background {
            config(2, ImageQuality::Low)
        } else {
            configured
        }),
{
    if background {
        PerformanceConfig { fps: 2, quality: ImageQuality::Low }
    } else {
        configured
    }
}

// ------------------------------------------------------------ codecs

/// Which decoders this device has.
#[derive(Clone, Copy, Debug, PartialEq, Eq, Structural)]
pub struct CodecSupport {
    pub h264: bool,
    pub vp9: bool,
    pub vp8: bool,
    pub av1: bool,
    pub h265: bool,
}

/// The decoding abilities announced to the peer: every decoder available,
/// and VP9 preferred only when asked for and available.
#[derive(Clone, Copy, Debug, PartialEq, Eq, Structural)]
pub struct SupportedDecoding {
    pub ability_vp8: i32,
    pub ability_vp9: i32,
    pub ability_av1: i32,
    pub ability_h264: i32,
    pub ability_h265: i32,
    pub prefer_vp9: bool,
}

pub open spec fn ability(b: bool) -> i32 {
    if b {
        1
    } else {
        0
    }
}

pub fn supported_decoding_options(support: CodecSupport, prefer_vp9: bool) -> (r: SupportedDecoding)
    ensures
        r == (SupportedDecoding {
            ability_vp8: ability(support.vp8),
            ability_vp9: ability(support.vp9),
            ability_av1: ability(support.av1),
            ability_h264: ability(support.h264),
            ability_h265: ability(support.h265),
            prefer_vp9: prefer_vp9 && support.vp9,
        }),
{
    SupportedDecoding {
        ability_vp8: if support.vp8 {
            1
        } else {
            0
        },
        ability_vp9: if support.vp9 {
            1
        } else {
            0
        },
        ability_av1: if support.av1 {
            1
        } else {
            0
        },
        ability_h264: if support.h264 {
            1
        } else {
            0
        },
        ability_h265: if support.h265 {
            1
        } else {
            0
        },
        prefer_vp9: prefer_vp9 && support.vp9,
    }
}

pub fn preferred_codec_name(support: CodecSupport, prefer_vp9: bool) -> (r: &'static str)
    ensures
        r@ == (if prefer_vp9 && support.vp9 {
            "vp9"@
        } else {
            "auto"@
        }),
{
    if prefer_vp9 && support.vp9 {
        "vp9"
    } else {
        "auto"
    }
}

/// Whether a fallback to VP9 can be asked for: only while connected (`-1`
/// otherwise) and with a VP9 decoder (`-3` otherwise).
pub fn vp9_fallback_check(connected: bool, support: CodecSupport) -> (r: i32)
    ensures
        r == (if !connected {
            -1i32
        } else if !support.vp9 {
            -3i32
        } else {
            0i32
        }),
{
    if !connected {
        -1
    } else if !support.vp9 {
        -3
    } else {
        0
    }
}

// ------------------------------------------------------------ audio

/// The channel count handed to the player: mono or stereo.
pub fn audio_channels(channels: u32) -> (r: i32)
    ensures
        r == (if channels < 1 {
            1
        } else if channels > 2 {
            2
        } else {
            channels as i32
        }),
{
    if channels < 1 {
        1
    } else if channels > 2 {
        2
    } else {
        channels as i32
    }
}

/// Hands a non-empty audio frame to the player, if one is registered.
/// Returns whether it was handed on.
pub fn handle_audio_frame<F: Fn(&[u8])>(data: &[u8], player: Option<F>) -> (r: bool)
    requires
        player matches Some(f) ==> f.requires((data,)),
    ensures
        r == (data@.len() > 0 && player is Some),
{
    if data.len() == 0 {
        return false;
    }
    match player {
        Some(f) => {
            f(data);
            true
        },
        None => false,
    }
}

/// Stops the player, if one is registered. Returns whether it was told to.
pub fn reset_audio<F: Fn()>(stop: Option<F>) -> (r: bool)
    requires
        stop matches Some(f) ==> f.requires(()),
    ensures
        r == (stop is Some),
{
    match stop {
        Some(f) => {
            f();
            true
        },
        None => false,
    }
}

/// Starts a background reset of the player unless one is running. Returns
/// whether this call started it.
pub fn begin_audio_reset(in_progress: &mut bool) -> (r: bool)
    ensures
        r == !*old(in_progress),
        *final(in_progress),
{
    if *in_progress {
        return false;
    }
    *in_progress = true;
    true
}

// ------------------------------------------------------------ clipboard

/// `String::from_utf8`: the text that `bytes` encode, or `None` when they
/// are not valid UTF-8.
#[verifier::external_body]
fn utf8_text(bytes: Vec<u8>) -> (r: Option<String>)
    ensures
        match r {
            Some(s) => valid_utf8(bytes@) && s@ == decode_utf8(bytes@),
            None => !valid_utf8(bytes@),
        },
{
    String::from_utf8(bytes).ok()
}

/// The clipboard text exchanged with the peer.
pub struct ClipboardState {
    /// Text received from the peer and not yet taken by the app.
    pub remote_text: Option<String>,
    /// The text last sent to the peer.
    pub last_sent: String,
}

impl ClipboardState {
    pub fn new() -> (r: ClipboardState)
        ensures
            r.remote_text is None,
            r.last_sent@ == Seq::<char>::empty(),
    {
        ClipboardState { remote_text: None, last_sent: String::new() }
    }
}

/// Forgets the clipboard of the previous session.
pub fn clear_clipboard_state(state: &mut ClipboardState)
    ensures
        final(state).remote_text is None,
        final(state).last_sent@ == Seq::<char>::empty(),
{
    state.remote_text = None;
    state.last_sent = String::new();
}

/// One clipboard item from the peer, its content decompressed.
pub struct ClipboardItem {
    pub is_text: bool,
    pub content: Vec<u8>,
}

pub open spec fn first_text_index(items: Seq<ClipboardItem>) -> int {
    choose|i: int|
        0 <= i < items.len() && items[i].is_text && forall|j: int| 0 <= j < i ==> !items[j].is_text
}

/// Takes in the peer's clipboard: the first text item, when it is valid
/// UTF-8, not empty, and not the text this client sent last. Returns
/// whether it was kept for the app.
pub fn accept_remote_clipboard(state: &mut ClipboardState, items: Vec<ClipboardItem>) -> (r: bool)
    ensures
        !(exists|i: int| 0 <= i < items@.len() && items@[i].is_text) ==> !r,
        (exists|i: int| 0 <= i < items@.len() && items@[i].is_text) ==> {
            let bytes = items@[first_text_index(items@)].content@;
            r == (valid_utf8(bytes) && decode_utf8(bytes).len() > 0 && decode_utf8(bytes)
                != old(state).last_sent@)
        },
        r ==> (final(state).remote_text matches Some(t) && t@ == decode_utf8(
            items@[first_text_index(items@)].content@,
        )),
        !r ==> final(state).remote_text == old(state).remote_text,
        final(state).last_sent == old(state).last_sent,
{
    let mut items = items;
    let ghost all = items@;
    let mut i: usize = 0;
    while i < items.len()
        invariant
            items@ == all,
            i <= all.len(),
            forall|j: int| 0 <= j < i ==> !all[j].is_text,
        ensures
            i <= all.len(),
            forall|j: int| 0 <= j < i ==> !all[j].is_text,
            i < all.len() ==> all[i as int].is_text,
        decreases all.len() - i,
    {
        if items[i].is_text {
            break;
        }
        i = i + 1;
    }
    if i >= items.len() {
        return false;
    }
    proof {
        assert(all[i as int].is_text);
        assert(0 <= i < all.len() && all[i as int].is_text && forall|j: int|
            0 <= j < i ==> !all[j].is_text);
        let f = first_text_index(all);
        assert(f == i as int) by {
            if f < i {
                assert(!all[f].is_text);
            } else if f > i {
                assert(!all[i as int].is_text);
            }
        }
    }
    let item = items.swap_remove(i);
    let text = match utf8_text(item.content) {
        Some(t) => t,
        None => return false,
    };
    if text.as_str().is_empty() {
        return false;
    }
    if crate::connect::str_equal(text.as_str(), state.last_sent.as_str()) {
        return false;
    }
    state.remote_text = Some(text);
    true
}

/// Hands the received clipboard text to the app, once; empty when none.
pub fn take_remote_clipboard_text(state: &mut ClipboardState) -> (r: String)
    ensures
        final(state).remote_text is None,
        r@ == (match old(state).remote_text {
            Some(t) => t@,
            None => Seq::<char>::empty(),
        }),
        final(state).last_sent == old(state).last_sent,
{
    match state.remote_text.take() {
        Some(t) => t,
        None => String::new(),
    }
}

/// Whether a local clipboard text goes to the peer: not when it is empty or
/// the same as the text sent last. When it goes, it is remembered.
pub fn note_clipboard_sent(state: &mut ClipboardState, text: &str) -> (r: bool)
    ensures
        r == (text@.len() > 0 && text@ != old(state).last_sent@),
        r ==> final(state).last_sent@ == text@,
        !r ==> final(state).last_sent == old(state).last_sent,
        final(state).remote_text == old(state).remote_text,
{
    if text.is_empty() {
        return false;
    }
    if crate::connect::str_equal(text, state.last_sent.as_str()) {
        return false;
    }
    let v = chars_of(text);
    state.last_sent = crate::text::string_from_chars(&v);
    true
}

/// Clipboard content is sent compressed only when that is shorter.
pub fn use_compressed_clipboard(compressed_len: usize, plain_len: usize) -> (r: bool)
    ensures
        r == (compressed_len < plain_len),
{
    compressed_len < plain_len
}


/// The decoders this device reported, as nonzero flags.
pub fn codec_support_from_flags(h264: i32, vp9: i32, vp8: i32, av1: i32, h265: i32) -> (r: CodecSupport)
    ensures
        r == (CodecSupport { h264: h264 != 0, vp9: vp9 != 0, vp8: vp8 != 0, av1: av1 != 0, h265: h265 != 0 }),
{
    CodecSupport { h264: h264 != 0, vp9: vp9 != 0, vp8: vp8 != 0, av1: av1 != 0, h265: h265 != 0 }
}

/// The audio format handed to the player: the sample rate as a signed
/// number (wrapping like `as i32`) and mono or stereo.
pub fn audio_format_values(sample_rate: u32, channels: u32) -> (r: (i32, i32))
    ensures
        r.0 as u32 == sample_rate,
        r.1 == (if channels < 1 {
            1
        } else if channels > 2 {
            2
        } else {
            channels as i32
        }),
{
    let rate = sample_rate as i32;
    assert(rate as u32 == sample_rate) by (bit_vector)
        requires
            rate == sample_rate as i32,
    ;
    (rate, audio_channels(channels))
}

/// The options the client asks of the peer.
#[derive(Clone, Copy, Debug, PartialEq, Eq, Structural)]
pub struct PeerOptions {
    pub quality: ImageQuality,
    pub fps: i32,
    pub decoding: SupportedDecoding,
    pub disable_audio: bool,
    pub show_remote_cursor: bool,
}

/// The options sent after login, on a mode change and on a codec fallback:
/// the performance in effect, the decoders, audio and cursor settings.
pub fn peer_options(
    configured: PerformanceConfig,
    background: bool,
    support: CodecSupport,
    prefer_vp9: bool,
    audio_enabled: bool,
    show_remote_cursor: bool,
) -> (r: PeerOptions)
    ensures
        ({
            let p = if background {
                config(2, ImageQuality::Low)
            } else {
                configured
            };
            &&& r.quality == p.quality
            &&& r.fps == p.fps
            &&& r.decoding == (SupportedDecoding {
                ability_vp8: ability(support.vp8),
                ability_vp9: ability(support.vp9),
                ability_av1: ability(support.av1),
                ability_h264: ability(support.h264),
                ability_h265: ability(support.h265),
                prefer_vp9: prefer_vp9 && support.vp9,
            })
            &&& r.disable_audio == !audio_enabled
            &&& r.show_remote_cursor == show_remote_cursor
        }),
{
    let p = performance_config(configured, background);
    PeerOptions {
        quality: p.quality,
        fps: p.fps,
        decoding: supported_decoding_options(support, prefer_vp9),
        disable_audio: !audio_enabled,
        show_remote_cursor,
    }
}

/// The frame rate hinted to the peer: the configured one, as unsigned.
pub fn fps_hint(p: PerformanceConfig) -> (r: u32)
    ensures
        r == p.fps as u32,
{
    p.fps as u32
}

} // verus!
