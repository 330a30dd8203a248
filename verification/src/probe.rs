//! What `inspect` reads from ffprobe's description of a file: codecs, track
//! counts, the frame size and recommended next steps, and the summary it
//! prints.

use vstd::prelude::*;
use crate::plan::{join_spec, join_texts, opt_string_chars, push_string, push_text, text};
use crate::text::{chars_eq_str, dec, parse_u64, parse_u64_spec, push_char, push_decimal, push_str};

verus! {

/// One stream as ffprobe describes it: its type (`video`, `audio`,
/// `subtitle`, ...), codec, and frame size.
pub struct ProbeStream {
    pub codec_type: Option<String>,
    pub codec_name: Option<String>,
    pub width: Option<u64>,
    pub height: Option<u64>,
}

/// What `inspect` reports of a file, but for its duration and metadata.
pub struct MediaInfo {
    pub path: String,
    pub format: Option<String>,
    pub resolution: Option<String>,
    pub video_codecs: Vec<String>,
    pub audio_codecs: Vec<String>,
    pub bitrate: Option<u64>,
    pub audio_tracks: usize,
    pub subtitle_tracks: usize,
    pub file_size_bytes: u64,
    pub recommended_actions: Vec<String>,
}

/// A stream is of the given type.
pub open spec fn has_type(s: ProbeStream, t: Seq<char>) -> bool {
    opt_string_chars(s.codec_type) == Some(t)
}

/// The codecs of the streams of one type, in order, where they are named.
pub open spec fn codecs_of(ss: Seq<ProbeStream>, t: Seq<char>) -> Seq<Seq<char>>
    decreases ss.len(),
{
    if ss.len() == 0 {
        Seq::<Seq<char>>::empty()
    } else {
        let rest = codecs_of(ss.drop_last(), t);
        let s = ss.last();
        if has_type(s, t) && s.codec_name is Some {
            rest.push(s.codec_name->0@)
        } else {
            rest
        }
    }
}

/// The number of streams of one type.
pub open spec fn count_of(ss: Seq<ProbeStream>, t: Seq<char>) -> nat
    decreases ss.len(),
{
    if ss.len() == 0 {
        0
    } else {
        count_of(ss.drop_last(), t) + if has_type(ss.last(), t) {
            1nat
        } else {
            0nat
        }
    }
}

/// The frame size of the first video stream that has both a width and a
/// height, as `WxH`.
pub open spec fn resolution_of(ss: Seq<ProbeStream>) -> Option<Seq<char>>
    decreases ss.len(),
{
    if ss.len() == 0 {
        None
    } else {
        let s = ss[0];
        if has_type(s, "video"@) && s.width is Some && s.height is Some {
            Some(dec(s.width->0 as nat) + seq!['x'] + dec(s.height->0 as nat))
        } else {
            resolution_of(ss.drop_first())
        }
    }
}

/// The steps `inspect` recommends for a file of this size with these codecs
/// and audio tracks.
pub open spec fn recommendations(file_size: nat, video_codecs: Seq<Seq<char>>, audio_tracks: nat) -> Seq<
    Seq<char>,
> {
    (if file_size > 100000000 {
        seq!["try `forge compress` for a smaller shareable copy"@]
    } else {
        Seq::<Seq<char>>::empty()
    }) + (if video_codecs.len() > 0 && !video_codecs.contains("h264"@) {
        seq!["convert to h264/mp4 for broad compatibility"@]
    } else {
        Seq::<Seq<char>>::empty()
    }) + (if audio_tracks > 0 {
        seq!["use `forge audio --normalize` for spoken-word cleanup"@]
    } else {
        Seq::<Seq<char>>::empty()
    })
}

/// `inspect` recommends compressing exactly the files over 100 MB, first;
/// converting files whose video is not h264; normalizing files with audio,
/// last; and nothing else.
pub proof fn lemma_recommendations(file_size: nat, video_codecs: Seq<Seq<char>>, audio_tracks: nat)
    ensures
        ({
            let r = recommendations(file_size, video_codecs, audio_tracks);
            let convert = video_codecs.len() > 0 && !video_codecs.contains("h264"@);
            &&& r.len() == (if file_size > 100000000 { 1int } else { 0int }) + (if convert {
                1int
            } else {
                0int
            }) + (if audio_tracks > 0 { 1int } else { 0int })
            &&& file_size > 100000000 ==> r[0] == "try `forge compress` for a smaller shareable copy"@
            &&& convert ==> r.contains("convert to h264/mp4 for broad compatibility"@)
            &&& audio_tracks > 0 ==> r.last()
                == "use `forge audio --normalize` for spoken-word cleanup"@
        }),
{
    let r = recommendations(file_size, video_codecs, audio_tracks);
    let convert = video_codecs.len() > 0 && !video_codecs.contains("h264"@);
    if convert {
        let k: int = if file_size > 100000000 { 1 } else { 0 };
        assert(r[k] == "convert to h264/mp4 for broad compatibility"@);
    }
}

fn is_type(s: &ProbeStream, t: &str) -> (r: bool)
    ensures
        r == has_type(*s, t@),
{
    match &s.codec_type {
        Some(ct) => chars_eq_str(&crate::text::chars_of(ct.as_str()), t),
        None => false,
    }
}

fn resolution_text(w: u64, h: u64) -> (r: String)
    ensures
        r@ == dec(w as nat) + seq!['x'] + dec(h as nat),
{
    let mut r = String::new();
    push_decimal(&mut r, w);
    push_char(&mut r, 'x');
    push_decimal(&mut r, h);
    assert(r@ =~= dec(w as nat) + seq!['x'] + dec(h as nat));
    r
}

proof fn lemma_resolution_skip(ss: Seq<ProbeStream>, i: int)
    requires
        0 <= i <= ss.len(),
        forall|j: int|
            0 <= j < i ==> !(has_type(#[trigger] ss[j], "video"@) && ss[j].width is Some
                && ss[j].height is Some),
    ensures
        resolution_of(ss) == resolution_of(ss.skip(i)),
    decreases i,
{
    if i > 0 {
        let t = ss.drop_first();
        assert forall|j: int| 0 <= j < i - 1 implies !(has_type(#[trigger] t[j], "video"@)
            && t[j].width is Some && t[j].height is Some) by {
            assert(t[j] == ss[j + 1]);
        }
        lemma_resolution_skip(t, i - 1);
        assert(t.skip(i - 1) =~= ss.skip(i));
        assert(!(has_type(ss[0], "video"@) && ss[0].width is Some && ss[0].height is Some));
    } else {
        assert(ss.skip(0) =~= ss);
    }
}

/// Reads what `inspect` reports from ffprobe's format and stream
/// descriptions: the container, the bitrate (where it is a whole number),
/// video and audio codecs, track counts, the first video frame size, and
/// recommended next steps.
pub fn media_info_from_probe(
    path: &str,
    format_name: Option<String>,
    bit_rate: Option<&str>,
    streams: &Vec<ProbeStream>,
    file_size: u64,
) -> (r: MediaInfo)
    ensures
        r.path@ == path@,
        r.format == format_name,
        r.bitrate == match bit_rate {
            Some(b) => parse_u64_spec(b@),
            None => None,
        },
        r.video_codecs.deep_view() == codecs_of(streams@, "video"@),
        r.audio_codecs.deep_view() == codecs_of(streams@, "audio"@),
        r.audio_tracks as nat == count_of(streams@, "audio"@),
        r.subtitle_tracks as nat == count_of(streams@, "subtitle"@),
        opt_string_chars(r.resolution) == resolution_of(streams@),
        r.file_size_bytes == file_size,
        r.recommended_actions.deep_view() == recommendations(
            file_size as nat,
            codecs_of(streams@, "video"@),
            count_of(streams@, "audio"@),
        ),
{
    let mut video_codecs: Vec<String> = Vec::new();
    let mut audio_codecs: Vec<String> = Vec::new();
    let mut audio_tracks: usize = 0;
    let mut subtitle_tracks: usize = 0;
    let mut resolution: Option<String> = None;
    let ghost ss = streams@;
    let mut i: usize = 0;
    while i < streams.len()
        invariant
            i <= streams.len(),
            ss == streams@,
            video_codecs.deep_view() == codecs_of(ss.take(i as int), "video"@),
            audio_codecs.deep_view() == codecs_of(ss.take(i as int), "audio"@),
            audio_tracks as nat == count_of(ss.take(i as int), "audio"@),
            subtitle_tracks as nat == count_of(ss.take(i as int), "subtitle"@),
            audio_tracks <= i,
            subtitle_tracks <= i,
            resolution is None ==> forall|j: int|
                0 <= j < i ==> !(has_type(#[trigger] ss[j], "video"@) && ss[j].width is Some
                    && ss[j].height is Some),
            resolution is Some ==> opt_string_chars(resolution) == resolution_of(ss),
        decreases streams.len() - i,
    {
        let s = &streams[i];
        proof {
            reveal_strlit("video");
            reveal_strlit("audio");
            reveal_strlit("subtitle");
            assert("video"@ != "audio"@ && "video"@ != "subtitle"@ && "audio"@ != "subtitle"@) by {
                assert("video"@[0] != "audio"@[0]);
                assert("video"@.len() != "subtitle"@.len());
                assert("audio"@.len() != "subtitle"@.len());
            }
            assert(ss.take(i + 1).drop_last() =~= ss.take(i as int));
            assert(ss.take(i + 1).last() == *s);
        }
        if is_type(s, "video") {
            match &s.codec_name {
                Some(c) => push_string(&mut video_codecs, c.clone()),
                None => {},
            }
            if resolution.is_none() {
                match (s.width, s.height) {
                    (Some(w), Some(h)) => {
                        proof {
                            lemma_resolution_skip(ss, i as int);
                        }
                        resolution = Some(resolution_text(w, h));
                    },
                    _ => {},
                }
            }
        } else if is_type(s, "audio") {
            audio_tracks += 1;
            match &s.codec_name {
                Some(c) => push_string(&mut audio_codecs, c.clone()),
                None => {},
            }
        } else if is_type(s, "subtitle") {
            subtitle_tracks += 1;
        }
        i += 1;
    }
    proof {
        assert(ss.take(streams.len() as int) =~= ss);
        if resolution is None {
            lemma_resolution_skip(ss, ss.len() as int);
            assert(ss.skip(ss.len() as int) =~= Seq::<ProbeStream>::empty());
        }
    }
    let mut recommended: Vec<String> = Vec::new();
    if file_size > 100_000_000 {
        push_text(&mut recommended, "try `forge compress` for a smaller shareable copy");
    }
    let mut has_h264 = false;
    let mut k: usize = 0;
    while k < video_codecs.len()
        invariant
            k <= video_codecs.len(),
            has_h264 == exists|j: int| 0 <= j < k && (#[trigger] video_codecs@[j])@ == "h264"@,
        decreases video_codecs.len() - k,
    {
        let is_h264 = chars_eq_str(&crate::text::chars_of(video_codecs[k].as_str()), "h264");
        proof {
            if is_h264 {
                assert(video_codecs@[k as int]@ == "h264"@);
            }
        }
        has_h264 = has_h264 || is_h264;
        k += 1;
    }
    proof {
        let vc = video_codecs.deep_view();
        if has_h264 {
            let j = choose|j: int| 0 <= j < video_codecs@.len() && (#[trigger] video_codecs@[j])@
                == "h264"@;
            assert(vc[j] == "h264"@);
        } else {
            assert forall|j: int| 0 <= j < vc.len() implies vc[j] != "h264"@ by {
                assert(vc[j] == video_codecs@[j]@);
            }
        }
    }
    if video_codecs.len() > 0 && !has_h264 {
        push_text(&mut recommended, "convert to h264/mp4 for broad compatibility");
    }
    if audio_tracks > 0 {
        push_text(&mut recommended, "use `forge audio --normalize` for spoken-word cleanup");
    }
    assert(recommended.deep_view() =~= recommendations(
        file_size as nat,
        codecs_of(ss, "video"@),
        count_of(ss, "audio"@),
    ));
    let bitrate = match bit_rate {
        Some(b) => parse_u64(b),
        None => None,
    };
    MediaInfo {
        path: text(path),
        format: format_name,
        resolution,
        video_codecs,
        audio_codecs,
        bitrate,
        audio_tracks,
        subtitle_tracks,
        file_size_bytes: file_size,
        recommended_actions: recommended,
    }
}


/// ffprobe's description of a file, as far as `inspect` reads it: the
/// container's names and bitrate text, and the streams.
pub struct ProbeDoc {
    pub format_name: Option<String>,
    pub bit_rate: Option<String>,
    pub streams: Vec<ProbeStream>,
}

/// What `inspect` reports of the file at `path`, `file_size` bytes long,
/// from ffprobe's description of it.
pub fn inspect_from_probe(path: &str, doc: &ProbeDoc, file_size: u64) -> (r: MediaInfo)
    ensures
        r.path@ == path@,
        r.format == doc.format_name,
        r.bitrate == match doc.bit_rate {
            Some(b) => parse_u64_spec(b@),
            None => None,
        },
        r.video_codecs.deep_view() == codecs_of(doc.streams@, "video"@),
        r.audio_codecs.deep_view() == codecs_of(doc.streams@, "audio"@),
        r.audio_tracks as nat == count_of(doc.streams@, "audio"@),
        r.subtitle_tracks as nat == count_of(doc.streams@, "subtitle"@),
        opt_string_chars(r.resolution) == resolution_of(doc.streams@),
        r.file_size_bytes == file_size,
        r.recommended_actions.deep_view() == recommendations(
            file_size as nat,
            codecs_of(doc.streams@, "video"@),
            count_of(doc.streams@, "audio"@),
        ),
{
    let format_name = match &doc.format_name {
        Some(f) => Some(f.clone()),
        None => None,
    };
    let bit_rate: Option<&str> = match &doc.bit_rate {
        Some(b) => Some(b.as_str()),
        None => None,
    };
    media_info_from_probe(path, format_name, bit_rate, &doc.streams, file_size)
}

/// An optional text, or `unknown`.
pub open spec fn or_unknown(o: Option<Seq<char>>) -> Seq<char> {
    match o {
        Some(s) => s,
        None => "unknown"@,
    }
}

/// A list joined by commas, or `none`.
pub open spec fn list_or_none(l: Seq<Seq<char>>) -> Seq<char> {
    if l.len() == 0 {
        "none"@
    } else {
        join_spec(l, ", "@)
    }
}

/// The recommended steps as dash items, one per line, or `- none`.
pub open spec fn recommended_lines(l: Seq<Seq<char>>) -> Seq<char> {
    if l.len() == 0 {
        "- none"@
    } else {
        join_spec(l.map_values(|a: Seq<char>| "- "@ + a), "\n"@)
    }
}

/// A number of whole seconds as `HH:MM:SS`, or `unknown`.
pub open spec fn duration_spec(seconds: Option<u64>) -> Seq<char> {
    match seconds {
        Some(t) => crate::size::hms_spec(t as nat),
        None => "unknown"@,
    }
}

/// Shows a duration in whole seconds as `HH:MM:SS`, or `unknown` where it is
/// not known.
pub fn format_duration(seconds: Option<u64>) -> (r: String)
    ensures
        r@ == duration_spec(seconds),
{
    match seconds {
        Some(t) => crate::size::format_hms(t),
        None => text("unknown"),
    }
}

/// The text `inspect` prints for a file.
pub open spec fn summary_spec(info: MediaInfo, duration: Seq<char>, size: Seq<char>) -> Seq<char> {
    "File: "@ + info.path@ + "\nDuration: "@ + duration + "\nFormat: "@ + or_unknown(
        opt_string_chars(info.format),
    ) + "\nResolution: "@ + or_unknown(opt_string_chars(info.resolution)) + "\nVideo: "@
        + list_or_none(info.video_codecs.deep_view()) + "\nAudio: "@ + dec(
        info.audio_tracks as nat,
    ) + " tracks ("@ + list_or_none(info.audio_codecs.deep_view()) + ")\nSubtitles: "@ + dec(
        info.subtitle_tracks as nat,
    ) + " tracks\nBitrate: "@ + match info.bitrate {
        Some(b) => dec(b as nat),
        None => "unknown"@,
    } + "\nSize: "@ + size + "\nRecommended:\n"@ + recommended_lines(
        info.recommended_actions.deep_view(),
    )
}

fn push_opt_or_unknown(r: &mut String, o: &Option<String>)
    ensures
        final(r)@ == old(r)@ + or_unknown(opt_string_chars(*o)),
{
    match o {
        Some(s) => push_str(r, s.as_str()),
        None => push_str(r, "unknown"),
    }
}

fn push_list_or_none(r: &mut String, l: &Vec<String>)
    ensures
        final(r)@ == old(r)@ + list_or_none(l.deep_view()),
{
    if l.len() == 0 {
        push_str(r, "none");
    } else {
        let j = join_texts(l, ", ");
        push_str(r, j.as_str());
    }
}

/// The human summary `inspect` prints for a file, given its duration and size
/// as already shown.
pub fn inspect_summary(info: &MediaInfo, duration: &str, size: &str) -> (r: String)
    ensures
        r@ == summary_spec(*info, duration@, size@),
{
    let mut r = text("File: ");
    push_str(&mut r, info.path.as_str());
    push_str(&mut r, "\nDuration: ");
    push_str(&mut r, duration);
    push_str(&mut r, "\nFormat: ");
    push_opt_or_unknown(&mut r, &info.format);
    push_str(&mut r, "\nResolution: ");
    push_opt_or_unknown(&mut r, &info.resolution);
    push_str(&mut r, "\nVideo: ");
    push_list_or_none(&mut r, &info.video_codecs);
    push_str(&mut r, "\nAudio: ");
    push_decimal(&mut r, info.audio_tracks as u64);
    push_str(&mut r, " tracks (");
    push_list_or_none(&mut r, &info.audio_codecs);
    push_str(&mut r, ")\nSubtitles: ");
    push_decimal(&mut r, info.subtitle_tracks as u64);
    push_str(&mut r, " tracks\nBitrate: ");
    match info.bitrate {
        Some(b) => push_decimal(&mut r, b),
        None => push_str(&mut r, "unknown"),
    }
    push_str(&mut r, "\nSize: ");
    push_str(&mut r, size);
    push_str(&mut r, "\nRecommended:\n");
    let recs = &info.recommended_actions;
    if recs.len() == 0 {
        push_str(&mut r, "- none");
    } else {
        let mut items: Vec<String> = Vec::new();
        let mut i: usize = 0;
        while i < recs.len()
            invariant
                i <= recs.len(),
                items.deep_view() == recs.deep_view().take(i as int).map_values(
                    |a: Seq<char>| "- "@ + a,
                ),
            decreases recs.len() - i,
        {
            let mut item = text("- ");
            push_str(&mut item, recs[i].as_str());
            push_string(&mut items, item);
            i += 1;
            assert(items.deep_view() =~= recs.deep_view().take(i as int).map_values(
                |a: Seq<char>| "- "@ + a,
            ));
        }
        assert(recs.deep_view().take(recs.len() as int) =~= recs.deep_view());
        let j = join_texts(&items, "\n");
        push_str(&mut r, j.as_str());
    }
    assert(r@ =~= summary_spec(*info, duration@, size@));
    r
}

} // verus!
