//! The ffmpeg jobs: for each media operation, the command it runs and the
//! plan it reports, given the input, the job's folder and the output path.

use vstd::prelude::*;
use crate::command::{CommandSpec, JobPlan};
use crate::paths::{extension_or, path_extension_or};
use crate::presets::{find, preset_table};
use crate::size::{
    number_part, size_number_ok, size_parts, size_text, size_unit_ok, unit_multiplier, unit_part,
    SizeError,
};
use crate::text::{
    chars_eq_str, chars_of, dec, lower_all, lower_all_exec, push_decimal, push_str,
    slice_chars, string_of, trim_start_exec, trim_start_set, CharSet,
};

verus! {

// ---------------------------------------------------------------------------
// Building blocks

/// A `String` holding the text `s`.
pub fn text(s: &str) -> (r: String)
    ensures
        r@ == s@,
{
    let mut r = String::new();
    push_str(&mut r, s);
    assert(r@ =~= s@);
    r
}

/// Adds the text `s` at the end of a list of arguments.
pub fn push_text(v: &mut Vec<String>, s: &str)
    ensures
        final(v).deep_view() == old(v).deep_view().push(s@),
{
    let ghost before = v.deep_view();
    v.push(text(s));
    assert(v.deep_view() =~= before.push(s@));
}

/// Adds a `String` at the end of a list of arguments.
pub fn push_string(v: &mut Vec<String>, s: String)
    ensures
        final(v).deep_view() == old(v).deep_view().push(s@),
{
    let ghost before = v.deep_view();
    let ghost sv = s@;
    v.push(s);
    assert(v.deep_view() =~= before.push(sv));
}

/// A plan of one ffmpeg command that writes one output and has no warnings.
pub open spec fn is_ffmpeg_plan(
    p: JobPlan,
    name: Seq<char>,
    job_dir: String,
    ops: Seq<Seq<char>>,
    args: Seq<Seq<char>>,
    output: Seq<char>,
) -> bool {
    &&& p.job_name@ == name
    &&& p.job_dir == job_dir
    &&& p.operations.deep_view() == ops
    &&& p.commands@.len() == 1
    &&& p.commands@[0].program@ == "ffmpeg"@
    &&& p.commands@[0].args_view() == args
    &&& p.outputs.deep_view() == seq![output]
    &&& p.warnings@.len() == 0
}

/// The plan of one ffmpeg command with the given arguments.
pub(crate) fn ffmpeg_plan(name: &str, job_dir: String, ops: Vec<String>, args: Vec<String>, output: String) -> (r:
    JobPlan)
    ensures
        is_ffmpeg_plan(r, name@, job_dir, ops.deep_view(), args.deep_view(), output@),
{
    let ghost ops_v = ops.deep_view();
    let ghost args_v = args.deep_view();
    let ghost out_v = output@;
    let mut plan = JobPlan::new(name, job_dir);
    plan.operations = ops;
    let cmd = CommandSpec::new("ffmpeg").args(args);
    assert(cmd.args_view() =~= args_v);
    plan.commands.push(cmd);
    push_string(&mut plan.outputs, output);
    assert(plan.outputs.deep_view() =~= seq![out_v]);
    plan
}

/// The arguments every job on an input starts with.
pub open spec fn input_args(input: Seq<char>) -> Seq<Seq<char>> {
    seq!["-hide_banner"@, "-y"@, "-i"@, input]
}

pub(crate) fn input_args_exec(input: &str) -> (r: Vec<String>)
    ensures
        r.deep_view() == input_args(input@),
{
    let mut v: Vec<String> = Vec::new();
    push_text(&mut v, "-hide_banner");
    push_text(&mut v, "-y");
    push_text(&mut v, "-i");
    push_text(&mut v, input);
    assert(v.deep_view() =~= input_args(input@));
    v
}

// ---------------------------------------------------------------------------
// convert

/// The target format of a conversion: the requested extension without
/// leading dots, in lower case.
pub open spec fn convert_ext(to: Seq<char>) -> Seq<char> {
    lower_all(trim_start_set(to, CharSet::Dot))
}

/// The codec arguments for a target format.
pub open spec fn convert_codec_args(ext: Seq<char>) -> Seq<Seq<char>> {
    if ext == "mp4"@ {
        seq!["-c:v"@, "libx264"@, "-c:a"@, "aac"@, "-movflags"@, "+faststart"@]
    } else if ext == "mp3"@ {
        seq!["-vn"@, "-c:a"@, "libmp3lame"@, "-q:a"@, "2"@]
    } else if ext == "webp"@ {
        seq!["-lossless"@, "0"@, "-quality"@, "82"@]
    } else if ext == "wav"@ {
        seq!["-c:a"@, "pcm_s16le"@]
    } else {
        seq!["-c"@, "copy"@]
    }
}

/// Converts `input` to another format, named by extension (`mp4`, `.MP3`,
/// ...): h264/aac for mp4, LAME for mp3, lossy webp, 16-bit PCM for wav, a
/// stream copy for anything else.
pub fn plan_convert(input: &str, to: &str, job_dir: String, output: String) -> (r: JobPlan)
    ensures
        is_ffmpeg_plan(
            r,
            "convert"@,
            job_dir,
            seq!["convert to "@ + convert_ext(to@)],
            input_args(input@) + convert_codec_args(convert_ext(to@)) + seq![output@],
            output@,
        ),
{
    let to_cs = chars_of(to);
    let trimmed = trim_start_exec(&to_cs, CharSet::Dot);
    let ext = lower_all_exec(&trimmed);
    let ghost e = ext@;
    let mut args = input_args_exec(input);
    let ghost base = args.deep_view();
    if chars_eq_str(&ext, "mp4") {
        push_text(&mut args, "-c:v");
        push_text(&mut args, "libx264");
        push_text(&mut args, "-c:a");
        push_text(&mut args, "aac");
        push_text(&mut args, "-movflags");
        push_text(&mut args, "+faststart");
    } else if chars_eq_str(&ext, "mp3") {
        push_text(&mut args, "-vn");
        push_text(&mut args, "-c:a");
        push_text(&mut args, "libmp3lame");
        push_text(&mut args, "-q:a");
        push_text(&mut args, "2");
    } else if chars_eq_str(&ext, "webp") {
        push_text(&mut args, "-lossless");
        push_text(&mut args, "0");
        push_text(&mut args, "-quality");
        push_text(&mut args, "82");
    } else if chars_eq_str(&ext, "wav") {
        push_text(&mut args, "-c:a");
        push_text(&mut args, "pcm_s16le");
    } else {
        push_text(&mut args, "-c");
        push_text(&mut args, "copy");
    }
    assert(args.deep_view() =~= base + convert_codec_args(e));
    let ghost out_v = output@;
    push_string(&mut args, output.clone());
    assert(args.deep_view() =~= input_args(input@) + convert_codec_args(e) + seq![out_v]);
    let mut op = text("convert to ");
    let ext_text = string_of(&ext);
    push_str(&mut op, ext_text.as_str());
    let mut ops: Vec<String> = Vec::new();
    push_string(&mut ops, op);
    assert(ops.deep_view() =~= seq!["convert to "@ + e]);
    ffmpeg_plan("convert", job_dir, ops, args, output)
}


// ---------------------------------------------------------------------------
// Errors

/// Why a job could not be planned.
#[derive(Debug)]
pub enum PlanError {
    /// No built-in preset has this name.
    UnknownPreset { name: String },
    /// Cropping supports 9:16, 1:1 and 16:9 only.
    UnsupportedAspect { aspect: String },
}

impl PlanError {
    /// The message shown for the error.
    pub fn message(&self) -> (r: String)
        ensures
            self matches PlanError::UnknownPreset { name } ==> r@ == "unknown preset `"@ + name@
                + "`"@,
            self matches PlanError::UnsupportedAspect { aspect } ==> r@
                == "unsupported crop aspect `"@ + aspect@ + "`. Try 9:16, 1:1, or 16:9"@,
    {
        match self {
            PlanError::UnknownPreset { name } => {
                let mut r = text("unknown preset `");
                push_str(&mut r, name.as_str());
                push_str(&mut r, "`");
                r
            },
            PlanError::UnsupportedAspect { aspect } => {
                let mut r = text("unsupported crop aspect `");
                push_str(&mut r, aspect.as_str());
                push_str(&mut r, "`. Try 9:16, 1:1, or 16:9");
                r
            },
        }
    }
}

// ---------------------------------------------------------------------------
// compress

/// The extension the output of a compression keeps: the input's, or `mp4`.
pub open spec fn compress_ext(input: Seq<char>) -> Seq<char> {
    extension_or(input, "mp4"@)
}

/// An extension of a still image format.
pub open spec fn is_image_ext(e: Seq<char>) -> bool {
    let l = lower_all(e);
    l == "png"@ || l == "jpg"@ || l == "jpeg"@ || l == "webp"@
}

/// A quality setting, or its default.
pub open spec fn quality_or(q: Option<u8>, default: nat) -> nat {
    match q {
        Some(v) => v as nat,
        None => default,
    }
}

/// The encoding arguments of a compression.
pub open spec fn compress_codec_args(is_image: bool, quality: Option<u8>, video_kbps: Option<u64>) -> Seq<
    Seq<char>,
> {
    if is_image {
        seq!["-compression_level"@, "6"@, "-quality"@, dec(quality_or(quality, 82))]
    } else {
        match video_kbps {
            Some(k) => seq![
                "-c:v"@,
                "libx264"@,
                "-b:v"@,
                dec(k as nat) + "k"@,
                "-c:a"@,
                "aac"@,
                "-b:a"@,
                "128k"@,
                "-movflags"@,
                "+faststart"@,
            ],
            None => seq![
                "-c:v"@,
                "libx264"@,
                "-crf"@,
                dec(quality_or(quality, 24)),
                "-preset"@,
                "medium"@,
                "-c:a"@,
                "aac"@,
                "-b:a"@,
                "128k"@,
            ],
        }
    }
}

/// Whether compressing `input` treats it as a still image (png, jpg, jpeg or
/// webp, in any case).
pub fn compress_is_image(input: &str) -> (r: bool)
    ensures
        r == is_image_ext(compress_ext(input@)),
{
    let ext = path_extension_or(input, "mp4");
    let cs = chars_of(ext.as_str());
    let l = lower_all_exec(&cs);
    chars_eq_str(&l, "png") || chars_eq_str(&l, "jpg") || chars_eq_str(&l, "jpeg")
        || chars_eq_str(&l, "webp")
}

/// What a target size asks of a compression: nothing for a still image,
/// without a target, or where the input's duration is not known; otherwise
/// the target read as a number and the bytes of its unit, from which the
/// video bitrate is worked out.
pub fn compress_target(input: &str, target: Option<&str>, duration_known: bool) -> (r: Result<
    Option<(String, u64)>,
    SizeError,
>)
    ensures
        is_image_ext(compress_ext(input@)) || target is None || !duration_known ==> r matches Ok(
            None,
        ),
        !is_image_ext(compress_ext(input@)) && duration_known ==> match target {
            Some(t) => {
                &&& r is Ok <==> size_number_ok(t@) && size_unit_ok(t@)
                &&& r matches Ok(Some((num, mult))) ==> num@ == number_part(size_text(t@))
                    && mult as nat == unit_multiplier(unit_part(size_text(t@)))->0
                &&& r matches Ok(None) ==> false
                &&& r matches Err(SizeError::InvalidNumber { input: v }) ==> !size_number_ok(t@)
                    && v@ == t@
                &&& r matches Err(SizeError::UnknownUnit { unit }) ==> size_number_ok(t@)
                    && !size_unit_ok(t@) && unit@ == unit_part(size_text(t@))
            },
            None => true,
        },
{
    if compress_is_image(input) || !duration_known {
        return Ok(None);
    }
    match target {
        None => Ok(None),
        Some(t) => match size_parts(t) {
            Ok(p) => Ok(Some(p)),
            Err(e) => Err(e),
        },
    }
}

/// Compression keeps the quality it is asked for. In the arguments of the
/// command, a still image gets `-compression_level 6 -quality q` right after
/// its input, where `q` is the quality given, written in decimal, and `82`
/// only where none was given; a video with a bitrate gets h264 at that many
/// kbit/s; a video without one gets `-crf q`, with `24` only where no quality
/// was given.
pub proof fn lemma_compress_quality_kept(
    input: Seq<char>,
    quality: Option<u8>,
    video_kbps: Option<u64>,
    output: Seq<char>,
)
    ensures
        ({
            let args = input_args(input) + compress_codec_args(
                is_image_ext(compress_ext(input)),
                quality,
                video_kbps,
            ) + seq![output];
            &&& args[0] == "-hide_banner"@
            &&& args[2] == "-i"@
            &&& args[3] == input
            &&& args.last() == output
            &&& is_image_ext(compress_ext(input)) ==> {
                &&& args.len() == 9
                &&& args[4] == "-compression_level"@
                &&& args[5] == "6"@
                &&& args[6] == "-quality"@
                &&& quality matches Some(q) ==> args[7] == dec(q as nat)
                &&& quality is None ==> args[7] == seq!['8', '2']
            }
            &&& !is_image_ext(compress_ext(input)) && video_kbps is Some ==> {
                &&& args[4] == "-c:v"@
                &&& args[5] == "libx264"@
                &&& args[6] == "-b:v"@
                &&& args[7] == dec(video_kbps->0 as nat) + "k"@
                &&& args[8] == "-c:a"@
                &&& args[9] == "aac"@
            }
            &&& !is_image_ext(compress_ext(input)) && video_kbps is None ==> {
                &&& args[4] == "-c:v"@
                &&& args[5] == "libx264"@
                &&& args[6] == "-crf"@
                &&& quality matches Some(q) ==> args[7] == dec(q as nat)
                &&& quality is None ==> args[7] == seq!['2', '4']
            }
        }),
{
    reveal_with_fuel(dec, 2);
    assert(dec(82) =~= seq!['8', '2']);
    assert(dec(24) =~= seq!['2', '4']);
}

/// Shrinks `input`: a still image is re-encoded at `quality` (82 by default);
/// a video gets the bitrate `video_kbps` where one was worked out from a
/// target size (see `compress_target`), and otherwise constant quality
/// `quality` (CRF 24 by default).
pub fn plan_compress(
    input: &str,
    target: Option<&str>,
    quality: Option<u8>,
    video_kbps: Option<u64>,
    job_dir: String,
    output: String,
) -> (r: JobPlan)
    requires
        video_kbps is Some ==> !is_image_ext(compress_ext(input@)) && target is Some,
    ensures
        is_ffmpeg_plan(
            r,
            "compress"@,
            job_dir,
            seq!["compress "@ + input@] + match target {
                Some(t) => seq!["target size "@ + t@],
                None => Seq::<Seq<char>>::empty(),
            },
            input_args(input@) + compress_codec_args(
                is_image_ext(compress_ext(input@)),
                quality,
                video_kbps,
            ) + seq![output@],
            output@,
        ),
{
    let is_image = compress_is_image(input);
    let mut args = input_args_exec(input);
    let ghost base = args.deep_view();
    if is_image {
        push_text(&mut args, "-compression_level");
        push_text(&mut args, "6");
        push_text(&mut args, "-quality");
        let q: u8 = match quality {
            Some(v) => v,
            None => 82,
        };
        let mut qs = String::new();
        push_decimal(&mut qs, q as u64);
        push_string(&mut args, qs);
    } else {
        match video_kbps {
            Some(k) => {
                push_text(&mut args, "-c:v");
                push_text(&mut args, "libx264");
                push_text(&mut args, "-b:v");
                let mut ks = String::new();
                push_decimal(&mut ks, k);
                push_str(&mut ks, "k");
                push_string(&mut args, ks);
                push_text(&mut args, "-c:a");
                push_text(&mut args, "aac");
                push_text(&mut args, "-b:a");
                push_text(&mut args, "128k");
                push_text(&mut args, "-movflags");
                push_text(&mut args, "+faststart");
            },
            None => {
                push_text(&mut args, "-c:v");
                push_text(&mut args, "libx264");
                push_text(&mut args, "-crf");
                let q: u8 = match quality {
                    Some(v) => v,
                    None => 24,
                };
                let mut qs = String::new();
                push_decimal(&mut qs, q as u64);
                push_string(&mut args, qs);
                push_text(&mut args, "-preset");
                push_text(&mut args, "medium");
                push_text(&mut args, "-c:a");
                push_text(&mut args, "aac");
                push_text(&mut args, "-b:a");
                push_text(&mut args, "128k");
            },
        }
    }
    let ghost codec = compress_codec_args(is_image, quality, video_kbps);
    assert(args.deep_view() =~= base + codec);
    let ghost out_v = output@;
    push_string(&mut args, output.clone());
    assert(args.deep_view() =~= input_args(input@) + codec + seq![out_v]);
    let mut ops: Vec<String> = Vec::new();
    let mut op = text("compress ");
    push_str(&mut op, input);
    push_string(&mut ops, op);
    match target {
        Some(t) => {
            let mut op2 = text("target size ");
            push_str(&mut op2, t);
            push_string(&mut ops, op2);
        },
        None => {},
    }
    let ghost ops_expected = seq!["compress "@ + input@] + match target {
        Some(t) => seq!["target size "@ + t@],
        None => Seq::<Seq<char>>::empty(),
    };
    assert(ops.deep_view() =~= ops_expected);
    ffmpeg_plan("compress", job_dir, ops, args, output)
}

// ---------------------------------------------------------------------------
// clip

/// The index of the first `..` in `s`.
pub open spec fn find_double_dot(s: Seq<char>) -> Option<int>
    decreases s.len(),
{
    if s.len() < 2 {
        None
    } else if s[0] == '.' && s[1] == '.' {
        Some(0)
    } else {
        match find_double_dot(s.drop_first()) {
            Some(i) => Some(i + 1),
            None => None,
        }
    }
}

/// An optional text as characters.
pub open spec fn opt_chars(o: Option<&str>) -> Option<Seq<char>> {
    match o {
        Some(s) => Some(s@),
        None => None,
    }
}

/// An optional `String` as characters.
pub open spec fn opt_string_chars(o: Option<String>) -> Option<Seq<char>> {
    match o {
        Some(s) => Some(s@),
        None => None,
    }
}

/// The start and end of a clip: `range` split at its first `..` where it has
/// one, otherwise `from` and `to`.
pub open spec fn range_spec(
    from: Option<Seq<char>>,
    to: Option<Seq<char>>,
    range: Option<Seq<char>>,
) -> (Option<Seq<char>>, Option<Seq<char>>) {
    match range {
        Some(r) => match find_double_dot(r) {
            Some(i) => (Some(r.take(i)), Some(r.skip(i + 2))),
            None => (from, to),
        },
        None => (from, to),
    }
}

proof fn lemma_find_double_dot(s: Seq<char>, i: int)
    requires
        0 <= i,
        i + 1 <= s.len(),
        forall|j: int| 0 <= j < i ==> !(#[trigger] s[j] == '.' && s[j + 1] == '.'),
    ensures
        i + 1 < s.len() && s[i] == '.' && s[i + 1] == '.' ==> find_double_dot(s) == Some(i),
        i + 1 == s.len() ==> find_double_dot(s) is None,
    decreases i,
{
    if i > 0 {
        let t = s.drop_first();
        assert forall|j: int| 0 <= j < i - 1 implies !(#[trigger] t[j] == '.' && t[j + 1] == '.') by {
            assert(t[j] == s[j + 1] && t[j + 1] == s[j + 2]);
        }
        lemma_find_double_dot(t, i - 1);
    }
}

/// Where `find_double_dot` finds a `..`, it is there, and it is the first.
proof fn lemma_find_double_dot_found(s: Seq<char>)
    ensures
        find_double_dot(s) matches Some(i) ==> 0 <= i && i + 1 < s.len() && s[i] == '.' && s[i
            + 1] == '.',
    decreases s.len(),
{
    if s.len() >= 2 && !(s[0] == '.' && s[1] == '.') {
        let t = s.drop_first();
        lemma_find_double_dot_found(t);
        if let Some(i) = find_double_dot(t) {
            assert(s[i + 1] == t[i] && s[i + 2] == t[i + 1]);
        }
    }
}

/// A range that splits rejoins to itself: the start, `..`, and the end give
/// back the range, so nothing of it is lost.
pub proof fn lemma_range_rejoins(
    from: Option<Seq<char>>,
    to: Option<Seq<char>>,
    range: Seq<char>,
)
    requires
        find_double_dot(range) is Some,
    ensures
        range_spec(from, to, Some(range)).0 is Some,
        range_spec(from, to, Some(range)).1 is Some,
        range_spec(from, to, Some(range)).0->0 + ".."@ + range_spec(from, to, Some(range)).1->0
            == range,
{
    lemma_find_double_dot_found(range);
    reveal_strlit("..");
    let i = find_double_dot(range)->0;
    assert(range.take(i) + ".."@ + range.skip(i + 2) =~= range);
}

fn opt_text(o: Option<&str>) -> (r: Option<String>)
    ensures
        opt_string_chars(r) == opt_chars(o),
{
    match o {
        Some(s) => Some(text(s)),
        None => None,
    }
}

/// The start and end of a clip: a `range` such as `00:01:00..00:02:30` wins
/// over `from` and `to` where it holds a `..`.
pub fn parse_range(from: Option<&str>, to: Option<&str>, range: Option<&str>) -> (r: (
    Option<String>,
    Option<String>,
))
    ensures
        (opt_string_chars(r.0), opt_string_chars(r.1)) == range_spec(
            opt_chars(from),
            opt_chars(to),
            opt_chars(range),
        ),
{
    match range {
        Some(rg) => {
            let cs = chars_of(rg);
            if cs.len() >= 1 {
                let mut i: usize = 0;
                while i + 1 < cs.len()
                    invariant
                        i + 1 <= cs.len(),
                        cs@ == rg@,
                        opt_chars(range) == Some(rg@),
                        forall|j: int| 0 <= j < i ==> !(#[trigger] cs@[j] == '.' && cs@[j + 1] == '.'),
                    decreases cs.len() - i,
                {
                    if cs[i] == '.' && cs[i + 1] == '.' {
                        proof {
                            lemma_find_double_dot(cs@, i as int);
                        }
                        let a = slice_chars(&cs, 0, i);
                        let b = slice_chars(&cs, i + 2, cs.len());
                        return (Some(string_of(&a)), Some(string_of(&b)));
                    }
                    i += 1;
                }
                proof {
                    lemma_find_double_dot(cs@, i as int);
                }
            }
            (opt_text(from), opt_text(to))
        },
        None => (opt_text(from), opt_text(to)),
    }
}

/// The filter that drops leading silence.
pub open spec fn silence_filter() -> Seq<char> {
    "silenceremove=start_periods=1:start_threshold=-45dB:detection=peak"@
}

/// The arguments of a clip.
pub open spec fn clip_args(
    input: Seq<char>,
    from: Option<Seq<char>>,
    to: Option<Seq<char>>,
    remove_silence: bool,
    output: Seq<char>,
) -> Seq<Seq<char>> {
    seq!["-hide_banner"@, "-y"@] + match from {
        Some(f) => seq!["-ss"@, f],
        None => Seq::<Seq<char>>::empty(),
    } + match to {
        Some(t) => seq!["-to"@, t],
        None => Seq::<Seq<char>>::empty(),
    } + seq!["-i"@, input] + if remove_silence {
        seq!["-af"@, silence_filter(), "-c:v"@, "copy"@]
    } else {
        seq!["-c"@, "copy"@]
    } + seq![output]
}

/// Cuts a time range out of `input` without re-encoding; where leading
/// silence is dropped, the filtered audio is re-encoded and the video copied.
pub fn plan_clip(
    input: &str,
    from: Option<&str>,
    to: Option<&str>,
    range: Option<&str>,
    remove_silence: bool,
    job_dir: String,
    output: String,
) -> (r: JobPlan)
    ensures
        is_ffmpeg_plan(
            r,
            "clip"@,
            job_dir,
            seq!["clip "@ + input@] + if remove_silence {
                seq!["remove silence"@]
            } else {
                Seq::<Seq<char>>::empty()
            },
            clip_args(
                input@,
                range_spec(opt_chars(from), opt_chars(to), opt_chars(range)).0,
                range_spec(opt_chars(from), opt_chars(to), opt_chars(range)).1,
                remove_silence,
                output@,
            ),
            output@,
        ),
{
    let (f, t) = parse_range(from, to, range);
    let ghost fv = opt_string_chars(f);
    let ghost tv = opt_string_chars(t);
    let mut args: Vec<String> = Vec::new();
    push_text(&mut args, "-hide_banner");
    push_text(&mut args, "-y");
    match f {
        Some(x) => {
            push_text(&mut args, "-ss");
            push_string(&mut args, x);
        },
        None => {},
    }
    match t {
        Some(x) => {
            push_text(&mut args, "-to");
            push_string(&mut args, x);
        },
        None => {},
    }
    push_text(&mut args, "-i");
    push_text(&mut args, input);
    if remove_silence {
        push_text(&mut args, "-af");
        push_text(&mut args, "silenceremove=start_periods=1:start_threshold=-45dB:detection=peak");
        push_text(&mut args, "-c:v");
        push_text(&mut args, "copy");
    } else {
        push_text(&mut args, "-c");
        push_text(&mut args, "copy");
    }
    let ghost out_v = output@;
    push_string(&mut args, output.clone());
    assert(args.deep_view() =~= clip_args(input@, fv, tv, remove_silence, out_v));
    let mut ops: Vec<String> = Vec::new();
    let mut op = text("clip ");
    push_str(&mut op, input);
    push_string(&mut ops, op);
    if remove_silence {
        push_text(&mut ops, "remove silence");
    }
    let ghost ops_expected = seq!["clip "@ + input@] + if remove_silence {
        seq!["remove silence"@]
    } else {
        Seq::<Seq<char>>::empty()
    };
    assert(ops.deep_view() =~= ops_expected);
    ffmpeg_plan("clip", job_dir, ops, args, output)
}


// ---------------------------------------------------------------------------
// resize

/// An optional number, or another where it is missing.
pub open spec fn or_u32(a: Option<u32>, b: Option<u32>) -> Option<u32> {
    match a {
        Some(x) => Some(x),
        None => b,
    }
}

/// The frame size a resize targets: the given width and height, with a
/// preset filling in the ones not given.
pub fn resize_dimensions(width: Option<u32>, height: Option<u32>, preset: Option<&str>) -> (r: Result<
    (Option<u32>, Option<u32>),
    PlanError,
>)
    ensures
        preset is None ==> (r matches Ok(d) && d == (width, height)),
        preset matches Some(name) ==> match r {
            Ok(d) => exists|i: int|
                0 <= i < preset_table().len() && (#[trigger] preset_table()[i]).0 == name@ && d == (
                    or_u32(width, preset_table()[i].2),
                    or_u32(height, preset_table()[i].3),
                ),
            Err(PlanError::UnknownPreset { name: n }) => n@ == name@ && forall|i: int|
                0 <= i < preset_table().len() ==> (#[trigger] preset_table()[i]).0 != name@,
            Err(_) => false,
        },
{
    match preset {
        None => Ok((width, height)),
        Some(name) => match find(name) {
            Some(p) => {
                let w = match width {
                    Some(x) => Some(x),
                    None => p.width,
                };
                let h = match height {
                    Some(x) => Some(x),
                    None => p.height,
                };
                Ok((w, h))
            },
            None => Err(PlanError::UnknownPreset { name: text(name) }),
        },
    }
}

/// The scale filter for a frame size: a missing side keeps the aspect ratio
/// (`-2`), and with neither side the width is 1080.
pub open spec fn scale_spec(width: Option<u32>, height: Option<u32>) -> Seq<char> {
    match (width, height) {
        (Some(w), Some(h)) => "scale="@ + dec(w as nat) + ":"@ + dec(h as nat),
        (Some(w), None) => "scale="@ + dec(w as nat) + ":-2"@,
        (None, Some(h)) => "scale=-2:"@ + dec(h as nat),
        (None, None) => "scale=1080:-2"@,
    }
}

/// A scale filter keeps each side it is given, in decimal: the width right
/// after `scale=`, the height after the `:`; a missing side is `-2`, which
/// keeps the aspect ratio, and with neither side the width is 1080.
pub proof fn lemma_scale_sides(width: Option<u32>, height: Option<u32>)
    ensures
        ("scale="@).is_prefix_of(scale_spec(width, height)),
        width matches Some(w) ==> ("scale="@ + dec(w as nat) + ":"@).is_prefix_of(
            scale_spec(width, height),
        ),
        height matches Some(h) ==> (":"@ + dec(h as nat)).is_suffix_of(scale_spec(width, height)),
        width is None && height is Some ==> ("scale=-2:"@).is_prefix_of(scale_spec(width, height)),
        width is Some && height is None ==> (":-2"@).is_suffix_of(scale_spec(width, height)),
        width is None && height is None ==> scale_spec(width, height) == "scale=1080:-2"@,
{
    reveal_strlit("scale=");
    reveal_strlit(":");
    reveal_strlit(":-2");
    reveal_strlit("scale=-2:");
    reveal_strlit("scale=1080:-2");
    let sc = "scale="@;
    let cl = ":"@;
    match (width, height) {
        (Some(w), Some(h)) => {
            let t = sc + dec(w as nat) + cl + dec(h as nat);
            assert(t.subrange(0, sc.len() as int) =~= sc);
            assert(t.subrange(0, (sc + dec(w as nat) + cl).len() as int) =~= sc + dec(w as nat) + cl);
            assert(t.subrange(t.len() - (cl + dec(h as nat)).len(), t.len() as int) =~= cl + dec(h as nat));
        },
        (Some(w), None) => {
            let t = sc + dec(w as nat) + ":-2"@;
            assert(t.subrange(0, sc.len() as int) =~= sc);
            assert(t.subrange(0, (sc + dec(w as nat) + cl).len() as int) =~= sc + dec(w as nat) + cl);
            assert(t.subrange(t.len() - (":-2"@).len(), t.len() as int) =~= ":-2"@);
        },
        (None, Some(h)) => {
            let t = "scale=-2:"@ + dec(h as nat);
            assert(t.subrange(0, ("scale=-2:"@).len() as int) =~= "scale=-2:"@);
            assert(t.subrange(0, sc.len() as int) =~= sc);
            assert(t.subrange(t.len() - (cl + dec(h as nat)).len(), t.len() as int) =~= cl + dec(h as nat));
        },
        (None, None) => {
            assert(("scale=1080:-2"@).subrange(0, sc.len() as int) =~= sc);
        },
    }
}

/// A side given to a resize wins over the preset's; a preset only fills in a
/// side that was not given.
pub proof fn lemma_given_sides_win(given: Option<u32>, preset_side: Option<u32>)
    ensures
        given matches Some(x) ==> or_u32(given, preset_side) == Some(x),
        given is None ==> or_u32(given, preset_side) == preset_side,
{
}

/// The scale filter for a frame size.
pub fn scale_filter(width: Option<u32>, height: Option<u32>) -> (r: String)
    ensures
        r@ == scale_spec(width, height),
{
    match (width, height) {
        (Some(w), Some(h)) => {
            let mut r = text("scale=");
            push_decimal(&mut r, w as u64);
            push_str(&mut r, ":");
            push_decimal(&mut r, h as u64);
            r
        },
        (Some(w), None) => {
            let mut r = text("scale=");
            push_decimal(&mut r, w as u64);
            push_str(&mut r, ":-2");
            r
        },
        (None, Some(h)) => {
            let mut r = text("scale=-2:");
            push_decimal(&mut r, h as u64);
            r
        },
        (None, None) => text("scale=1080:-2"),
    }
}

/// Resizes `input` to a frame size (see `resize_dimensions`), keeping its
/// audio as it is.
pub fn plan_resize(
    input: &str,
    width: Option<u32>,
    height: Option<u32>,
    job_dir: String,
    output: String,
) -> (r: JobPlan)
    ensures
        is_ffmpeg_plan(
            r,
            "resize"@,
            job_dir,
            seq!["resize with "@ + scale_spec(width, height)],
            input_args(input@) + seq![
                "-vf"@,
                scale_spec(width, height),
                "-c:a"@,
                "copy"@,
                output@,
            ],
            output@,
        ),
{
    let scale = scale_filter(width, height);
    let mut op = text("resize with ");
    push_str(&mut op, scale.as_str());
    let mut ops: Vec<String> = Vec::new();
    push_string(&mut ops, op);
    let mut args = input_args_exec(input);
    push_text(&mut args, "-vf");
    push_string(&mut args, scale);
    push_text(&mut args, "-c:a");
    push_text(&mut args, "copy");
    let ghost out_v = output@;
    push_string(&mut args, output.clone());
    assert(args.deep_view() =~= input_args(input@) + seq![
        "-vf"@,
        scale_spec(width, height),
        "-c:a"@,
        "copy"@,
        out_v,
    ]);
    assert(ops.deep_view() =~= seq!["resize with "@ + scale_spec(width, height)]);
    ffmpeg_plan("resize", job_dir, ops, args, output)
}

// ---------------------------------------------------------------------------
// crop

/// The crop filter for a supported aspect ratio.
pub open spec fn crop_spec(aspect: Seq<char>) -> Option<Seq<char>> {
    if aspect == "9:16"@ {
        Some("crop=ih*9/16:ih"@)
    } else if aspect == "1:1"@ {
        Some("crop=min(iw\\,ih):min(iw\\,ih)"@)
    } else if aspect == "16:9"@ {
        Some("crop=iw:iw*9/16"@)
    } else {
        None
    }
}

/// The crop filter for an aspect ratio: 9:16, 1:1 or 16:9.
pub fn crop_filter(aspect: &str) -> (r: Result<String, PlanError>)
    ensures
        crop_spec(aspect@) matches Some(f) ==> (r matches Ok(s) && s@ == f),
        crop_spec(aspect@) is None ==> (r matches Err(PlanError::UnsupportedAspect { aspect: a })
            && a@ == aspect@),
{
    let cs = chars_of(aspect);
    if chars_eq_str(&cs, "9:16") {
        Ok(text("crop=ih*9/16:ih"))
    } else if chars_eq_str(&cs, "1:1") {
        Ok(text("crop=min(iw\\,ih):min(iw\\,ih)"))
    } else if chars_eq_str(&cs, "16:9") {
        Ok(text("crop=iw:iw*9/16"))
    } else {
        Err(PlanError::UnsupportedAspect { aspect: text(aspect) })
    }
}

/// Crops `input` to an aspect ratio, keeping its audio as it is.
pub fn plan_crop(input: &str, aspect: &str, job_dir: String, output: String) -> (r: Result<
    JobPlan,
    PlanError,
>)
    ensures
        crop_spec(aspect@) matches Some(f) ==> (r matches Ok(p) && is_ffmpeg_plan(
            p,
            "crop"@,
            job_dir,
            seq!["crop to "@ + aspect@],
            input_args(input@) + seq!["-vf"@, f, "-c:a"@, "copy"@, output@],
            output@,
        )),
        crop_spec(aspect@) is None ==> (r matches Err(PlanError::UnsupportedAspect { aspect: a })
            && a@ == aspect@),
{
    let filter = match crop_filter(aspect) {
        Ok(f) => f,
        Err(e) => {
            return Err(e);
        },
    };
    let ghost fv = filter@;
    let mut op = text("crop to ");
    push_str(&mut op, aspect);
    let mut ops: Vec<String> = Vec::new();
    push_string(&mut ops, op);
    let mut args = input_args_exec(input);
    push_text(&mut args, "-vf");
    push_string(&mut args, filter);
    push_text(&mut args, "-c:a");
    push_text(&mut args, "copy");
    let ghost out_v = output@;
    push_string(&mut args, output.clone());
    assert(args.deep_view() =~= input_args(input@) + seq!["-vf"@, fv, "-c:a"@, "copy"@, out_v]);
    assert(ops.deep_view() =~= seq!["crop to "@ + aspect@]);
    Ok(ffmpeg_plan("crop", job_dir, ops, args, output))
}

// ---------------------------------------------------------------------------
// thumbnail

/// The arguments of a thumbnail job.
pub open spec fn thumbnail_args(
    input: Seq<char>,
    at: Option<Seq<char>>,
    grid: bool,
    best_frame: bool,
    output: Seq<char>,
) -> Seq<Seq<char>> {
    seq!["-hide_banner"@, "-y"@] + match at {
        Some(t) => seq!["-ss"@, t],
        None => if best_frame {
            seq!["-ss"@, "00:00:01"@]
        } else {
            Seq::<Seq<char>>::empty()
        },
    } + seq!["-i"@, input] + if grid {
        seq!["-vf"@, "fps=1/10,scale=320:-1,tile=3x3"@, "-frames:v"@, "1"@]
    } else {
        seq!["-frames:v"@, "1"@, "-q:v"@, "2"@]
    } + seq![output]
}

/// A thumbnail taken without a time but at the best frame seeks to one
/// second before reading the input, grid or not; a thumbnail at a time seeks
/// there; with neither, the input is read from its start. A grid tiles one
/// frame every ten seconds 3x3 into one image; a still is one frame at high
/// quality.
pub proof fn lemma_thumbnail_seeks(
    input: Seq<char>,
    at: Option<Seq<char>>,
    grid: bool,
    best_frame: bool,
    output: Seq<char>,
)
    ensures
        ({
            let args = thumbnail_args(input, at, grid, best_frame, output);
            &&& args[0] == "-hide_banner"@
            &&& args[1] == "-y"@
            &&& args.last() == output
            &&& at matches Some(t) ==> args[2] == "-ss"@ && args[3] == t && args[4] == "-i"@
                && args[5] == input
            &&& at is None && best_frame ==> args[2] == "-ss"@ && args[3] == "00:00:01"@
                && args[4] == "-i"@ && args[5] == input
            &&& at is None && !best_frame ==> args[2] == "-i"@ && args[3] == input
            &&& grid ==> {
                &&& args[args.len() - 5] == "-vf"@
                &&& args[args.len() - 4] == "fps=1/10,scale=320:-1,tile=3x3"@
                &&& args[args.len() - 3] == "-frames:v"@
                &&& args[args.len() - 2] == "1"@
            }
            &&& !grid ==> {
                &&& args[args.len() - 5] == "-frames:v"@
                &&& args[args.len() - 4] == "1"@
                &&& args[args.len() - 3] == "-q:v"@
                &&& args[args.len() - 2] == "2"@
            }
        }),
{
}

/// Takes one still of `input` (at a time, or at one second for the best
/// frame), or a 3x3 grid of frames ten seconds apart.
pub fn plan_thumbnail(
    input: &str,
    at: Option<&str>,
    grid: bool,
    best_frame: bool,
    job_dir: String,
    output: String,
) -> (r: JobPlan)
    ensures
        is_ffmpeg_plan(
            r,
            "thumbnail"@,
            job_dir,
            seq![
                if grid {
                    "thumbnail grid"@
                } else {
                    "thumbnail still"@
                },
            ],
            thumbnail_args(input@, opt_chars(at), grid, best_frame, output@),
            output@,
        ),
{
    let mut args: Vec<String> = Vec::new();
    push_text(&mut args, "-hide_banner");
    push_text(&mut args, "-y");
    match at {
        Some(t) => {
            push_text(&mut args, "-ss");
            push_text(&mut args, t);
        },
        None => {
            if best_frame {
                push_text(&mut args, "-ss");
                push_text(&mut args, "00:00:01");
            }
        },
    }
    push_text(&mut args, "-i");
    push_text(&mut args, input);
    if grid {
        push_text(&mut args, "-vf");
        push_text(&mut args, "fps=1/10,scale=320:-1,tile=3x3");
        push_text(&mut args, "-frames:v");
        push_text(&mut args, "1");
    } else {
        push_text(&mut args, "-frames:v");
        push_text(&mut args, "1");
        push_text(&mut args, "-q:v");
        push_text(&mut args, "2");
    }
    let ghost out_v = output@;
    push_string(&mut args, output.clone());
    assert(args.deep_view() =~= thumbnail_args(input@, opt_chars(at), grid, best_frame, out_v));
    let mut ops: Vec<String> = Vec::new();
    if grid {
        push_text(&mut ops, "thumbnail grid");
    } else {
        push_text(&mut ops, "thumbnail still");
    }
    let ghost ops_expected = seq![
        if grid {
            "thumbnail grid"@
        } else {
            "thumbnail still"@
        },
    ];
    assert(ops.deep_view() =~= ops_expected);
    ffmpeg_plan("thumbnail", job_dir, ops, args, output)
}

// ---------------------------------------------------------------------------
// audio

/// The texts of a list joined by a separator.
pub open spec fn join_spec(list: Seq<Seq<char>>, sep: Seq<char>) -> Seq<char>
    decreases list.len(),
{
    if list.len() == 0 {
        Seq::<char>::empty()
    } else if list.len() == 1 {
        list[0]
    } else {
        join_spec(list.drop_last(), sep) + sep + list.last()
    }
}

/// The texts of a list joined by a separator (`[String]::join`).
pub fn join_texts(list: &Vec<String>, sep: &str) -> (r: String)
    ensures
        r@ == join_spec(list.deep_view(), sep@),
{
    let mut r = String::new();
    let ghost lv = list.deep_view();
    let mut i: usize = 0;
    while i < list.len()
        invariant
            i <= list.len(),
            lv == list.deep_view(),
            r@ == join_spec(lv.take(i as int), sep@),
        decreases list.len() - i,
    {
        proof {
            assert(lv.take(i + 1).drop_last() =~= lv.take(i as int));
            assert(lv.take(i + 1).last() == list@[i as int]@);
        }
        if i > 0 {
            push_str(&mut r, sep);
        } else {
            assert(lv.take(0) =~= Seq::<Seq<char>>::empty());
        }
        push_str(&mut r, list[i].as_str());
        i += 1;
        proof {
            if i == 1 {
                assert(lv.take(1)[0] == list@[0]@);
                assert(r@ =~= join_spec(lv.take(i as int), sep@));
            }
        }
    }
    assert(lv.take(list.len() as int) =~= lv);
    r
}

/// The audio filters asked for, in order: loudness normalization, leading
/// silence removal, and a band-pass clean-up.
pub open spec fn audio_filters(normalize: bool, remove_silence: bool, clean: bool) -> Seq<Seq<char>> {
    (if normalize {
        seq!["loudnorm"@]
    } else {
        Seq::<Seq<char>>::empty()
    }) + (if remove_silence {
        seq![silence_filter()]
    } else {
        Seq::<Seq<char>>::empty()
    }) + (if clean {
        seq!["highpass=f=80,lowpass=f=12000"@]
    } else {
        Seq::<Seq<char>>::empty()
    })
}

/// The arguments of an audio job.
pub open spec fn audio_args(
    input: Seq<char>,
    normalize: bool,
    remove_silence: bool,
    clean: bool,
    extract: bool,
    output: Seq<char>,
) -> Seq<Seq<char>> {
    let filters = audio_filters(normalize, remove_silence, clean);
    input_args(input) + (if filters.len() > 0 {
        seq!["-af"@, join_spec(filters, ","@)]
    } else {
        Seq::<Seq<char>>::empty()
    }) + (if extract {
        seq!["-vn"@, "-c:a"@, "libmp3lame"@, "-q:a"@, "2"@]
    } else {
        Seq::<Seq<char>>::empty()
    }) + seq![output]
}

/// `needle` occurs in `hay`.
pub open spec fn contains_text(hay: Seq<char>, needle: Seq<char>) -> bool {
    exists|i: int|
        0 <= i && i + needle.len() <= hay.len() && #[trigger] hay.subrange(i, i + needle.len())
            == needle
}

proof fn lemma_contains_middle(pre: Seq<char>, needle: Seq<char>, post: Seq<char>)
    ensures
        contains_text(pre + needle + post, needle),
{
    let hay = pre + needle + post;
    assert(hay.subrange(pre.len() as int, (pre.len() + needle.len()) as int) =~= needle);
}

proof fn lemma_contains_extend(hay: Seq<char>, needle: Seq<char>, more: Seq<char>)
    requires
        contains_text(hay, needle),
    ensures
        contains_text(hay + more, needle),
{
    let i = choose|i: int|
        0 <= i && i + needle.len() <= hay.len() && #[trigger] hay.subrange(i, i + needle.len())
            == needle;
    assert((hay + more).subrange(i, i + needle.len()) =~= hay.subrange(i, i + needle.len()));
}

/// Each text of a list occurs in the list joined.
pub proof fn lemma_join_contains(list: Seq<Seq<char>>, sep: Seq<char>, j: int)
    requires
        0 <= j < list.len(),
    ensures
        contains_text(join_spec(list, sep), list[j]),
    decreases list.len(),
{
    if list.len() == 1 {
        lemma_contains_middle(Seq::<char>::empty(), list[0], Seq::<char>::empty());
        assert(Seq::<char>::empty() + list[0] + Seq::<char>::empty() =~= list[0]);
    } else if j == list.len() - 1 {
        lemma_contains_middle(join_spec(list.drop_last(), sep) + sep, list.last(), Seq::<char>::empty());
        assert(join_spec(list.drop_last(), sep) + sep + list.last() + Seq::<char>::empty()
            =~= join_spec(list, sep));
    } else {
        lemma_join_contains(list.drop_last(), sep, j);
        assert(list.drop_last()[j] == list[j]);
        lemma_contains_extend(join_spec(list.drop_last(), sep), list[j], sep + list.last());
        assert(join_spec(list.drop_last(), sep) + (sep + list.last()) =~= join_spec(list, sep));
    }
}

/// An audio job filters its audio with each clean-up asked for: right after
/// the input come `-af` and a filter chain that holds `loudnorm` where
/// normalizing was asked for, the silenceremove filter where silence removal
/// was, and the band-pass filter where cleaning was. With none of them there
/// is no filter, and extracting adds the mp3 encoder before the output.
pub proof fn lemma_audio_filters_asked(
    input: Seq<char>,
    normalize: bool,
    remove_silence: bool,
    clean: bool,
    extract: bool,
    output: Seq<char>,
)
    ensures
        ({
            let args = audio_args(input, normalize, remove_silence, clean, extract, output);
            &&& args[0] == "-hide_banner"@
            &&& args[2] == "-i"@
            &&& args[3] == input
            &&& args.last() == output
            &&& normalize || remove_silence || clean ==> {
                &&& args[4] == "-af"@
                &&& normalize ==> contains_text(args[5], "loudnorm"@)
                &&& remove_silence ==> contains_text(
                    args[5],
                    "silenceremove=start_periods=1:start_threshold=-45dB:detection=peak"@,
                )
                &&& clean ==> contains_text(args[5], "highpass=f=80,lowpass=f=12000"@)
                &&& args.len() == (if extract { 12int } else { 7int })
            }
            &&& !(normalize || remove_silence || clean) ==> args.len() == (if extract {
                10int
            } else {
                5int
            })
            &&& extract ==> {
                &&& args[args.len() - 6] == "-vn"@
                &&& args[args.len() - 5] == "-c:a"@
                &&& args[args.len() - 4] == "libmp3lame"@
                &&& args[args.len() - 3] == "-q:a"@
                &&& args[args.len() - 2] == "2"@
            }
        }),
{
    let f = audio_filters(normalize, remove_silence, clean);
    let c = ","@;
    let n: int = if normalize { 1 } else { 0 };
    let m: int = if remove_silence { n + 1 } else { n };
    if normalize {
        assert(f[0] == "loudnorm"@);
        lemma_join_contains(f, c, 0);
    }
    if remove_silence {
        assert(f[n] == "silenceremove=start_periods=1:start_threshold=-45dB:detection=peak"@);
        lemma_join_contains(f, c, n);
    }
    if clean {
        assert(f[m] == "highpass=f=80,lowpass=f=12000"@);
        lemma_join_contains(f, c, m);
    }
}

/// A clip seeks to its start before reading the input and stops at its end,
/// where they are given; it copies every stream, but where leading silence
/// is removed it filters the audio with silenceremove and copies only the
/// video.
pub proof fn lemma_clip_args(
    input: Seq<char>,
    from: Option<Seq<char>>,
    to: Option<Seq<char>>,
    remove_silence: bool,
    output: Seq<char>,
)
    ensures
        ({
            let args = clip_args(input, from, to, remove_silence, output);
            let fk: int = if from is Some { 2int } else { 0int };
            let k: int = fk + (if to is Some { 2int } else { 0int });
            &&& args[0] == "-hide_banner"@
            &&& args[1] == "-y"@
            &&& from matches Some(f) ==> args[2] == "-ss"@ && args[3] == f
            &&& to matches Some(t) ==> args[fk + 2] == "-to"@ && args[fk + 3] == t
            &&& args[k + 2] == "-i"@
            &&& args[k + 3] == input
            &&& args.last() == output
            &&& remove_silence ==> {
                &&& args.len() == k + 9
                &&& args[k + 4] == "-af"@
                &&& args[k + 5]
                    == "silenceremove=start_periods=1:start_threshold=-45dB:detection=peak"@
                &&& args[k + 6] == "-c:v"@
                &&& args[k + 7] == "copy"@
            }
            &&& !remove_silence ==> {
                &&& args.len() == k + 7
                &&& args[k + 4] == "-c"@
                &&& args[k + 5] == "copy"@
            }
        }),
{
}

/// Cleans up the audio of `input` (normalize, trim leading silence, band-pass)
/// and, when asked, extracts it as mp3.
pub fn plan_audio(
    input: &str,
    normalize: bool,
    remove_silence: bool,
    clean: bool,
    extract: bool,
    job_dir: String,
    output: String,
) -> (r: JobPlan)
    ensures
        is_ffmpeg_plan(
            r,
            "audio"@,
            job_dir,
            seq!["audio workflow"@],
            audio_args(input@, normalize, remove_silence, clean, extract, output@),
            output@,
        ),
{
    let mut filters: Vec<String> = Vec::new();
    if normalize {
        push_text(&mut filters, "loudnorm");
    }
    if remove_silence {
        push_text(
            &mut filters,
            "silenceremove=start_periods=1:start_threshold=-45dB:detection=peak",
        );
    }
    if clean {
        push_text(&mut filters, "highpass=f=80,lowpass=f=12000");
    }
    assert(filters.deep_view() =~= audio_filters(normalize, remove_silence, clean));
    let mut args = input_args_exec(input);
    if filters.len() > 0 {
        push_text(&mut args, "-af");
        let joined = join_texts(&filters, ",");
        push_string(&mut args, joined);
    }
    if extract {
        push_text(&mut args, "-vn");
        push_text(&mut args, "-c:a");
        push_text(&mut args, "libmp3lame");
        push_text(&mut args, "-q:a");
        push_text(&mut args, "2");
    }
    let ghost out_v = output@;
    push_string(&mut args, output.clone());
    assert(args.deep_view() =~= audio_args(
        input@,
        normalize,
        remove_silence,
        clean,
        extract,
        out_v,
    ));
    let mut ops: Vec<String> = Vec::new();
    push_text(&mut ops, "audio workflow");
    assert(ops.deep_view() =~= seq!["audio workflow"@]);
    ffmpeg_plan("audio", job_dir, ops, args, output)
}

} // verus!
