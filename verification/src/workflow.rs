//! The decisions of the command-line workflows that are not media plans of
//! their own: captions, downloads, folder batches, overwrite prompts, job
//! folders and ffmpeg's list of hardware accelerators.

use vstd::prelude::*;
use crate::command::{CommandSpec, ForgeReport, JobPlan, RunOptions};
use crate::naming::{
    extension_spec, ffmpeg_filter_path, filter_path_spec, output_file_name, output_name_spec, slug,
    slug_spec,
};
use crate::paths::{join_path, utf8_path_join};
use crate::plan::{input_args, is_ffmpeg_plan, opt_chars, push_string, push_text, text};
use crate::text::{
    chars_eq_str, chars_of, lower_all, lower_all_exec, push_str, string_of, trim_exec, trim_set,
    CharSet,
};

verus! {

// ---------------------------------------------------------------------------
// Job folders and output paths

/// The folder a job gets under the output root, before it is made unique:
/// the root joined with the slug of the job's name.
pub fn job_dir_path(root: &str, job_name: &str) -> (r: String)
    ensures
        r@ == utf8_path_join(root@, slug_spec(job_name@)),
{
    let s = slug(job_name);
    join_path(root, s.as_str())
}

/// The path of an output made from `source` in `job_dir`, before it is made
/// unique: the folder joined with `<stem>.<extension>`.
pub fn output_path(job_dir: &str, source: &str, extension: &str) -> (r: String)
    ensures
        r@ == utf8_path_join(job_dir@, output_name_spec(source@, extension@)),
{
    let name = output_file_name(source, extension);
    join_path(job_dir, name.as_str())
}

// ---------------------------------------------------------------------------
// Overwrite prompts

/// An answer that means yes: `y` or `yes`, in any case, around white space.
pub open spec fn affirmative_spec(answer: Seq<char>) -> bool {
    let a = lower_all(trim_set(answer, CharSet::White));
    a == "y"@ || a == "yes"@
}

/// Whether the answer to an overwrite prompt is yes.
pub fn is_affirmative(answer: &str) -> (r: bool)
    ensures
        r == affirmative_spec(answer@),
{
    let cs = chars_of(answer);
    let t = trim_exec(&cs, CharSet::White);
    let l = lower_all_exec(&t);
    chars_eq_str(&l, "y") || chars_eq_str(&l, "yes")
}

// ---------------------------------------------------------------------------
// Captions

/// The caption file to use: the subtitles where given, else the transcript;
/// `None` where neither is.
pub fn caption_source(srt: Option<&str>, transcript: Option<&str>) -> (r: Option<String>)
    ensures
        crate::plan::opt_string_chars(r) == match opt_chars(srt) {
            Some(s) => Some(s),
            None => opt_chars(transcript),
        },
{
    match srt {
        Some(s) => Some(text(s)),
        None => match transcript {
            Some(t) => Some(text(t)),
            None => None,
        },
    }
}

/// The extension a captioned output keeps: the input's, or `mp4`.
pub fn caption_extension(input: &str) -> (r: String)
    ensures
        r@ == extension_spec(input@, "mp4"@),
{
    crate::naming::input_extension(input, "mp4")
}

/// The subtitle codec a container needs for an attached subtitle file, where
/// a plain stream copy does not fit it: `mov_text` for mp4, mov and m4v,
/// `webvtt` for webm.
pub open spec fn subtitle_codec_args(ext: Seq<char>) -> Seq<Seq<char>> {
    if ext == "mp4"@ || ext == "mov"@ || ext == "m4v"@ {
        seq!["-c:s"@, "mov_text"@]
    } else if ext == "webm"@ {
        seq!["-c:s"@, "webvtt"@]
    } else {
        Seq::<Seq<char>>::empty()
    }
}

/// The arguments of a captions job: burnt into the picture, or attached as a
/// second input mapped as a subtitle stream, all streams copied.
pub open spec fn captions_args(
    input: Seq<char>,
    source: Seq<char>,
    ext: Seq<char>,
    burn: bool,
    output: Seq<char>,
) -> Seq<Seq<char>> {
    input_args(input) + if burn {
        seq!["-vf"@, "subtitles='"@ + filter_path_spec(source) + "'"@, "-c:a"@, "copy"@]
    } else {
        seq!["-i"@, source, "-map"@, "0"@, "-map"@, "1"@, "-c"@, "copy"@] + subtitle_codec_args(
            ext,
        )
    } + seq![output]
}

/// Burnt captions draw the subtitle file into the picture with the
/// subtitles filter and copy the audio; attached captions add the subtitle
/// file as a second input, map both inputs and copy every stream, with the
/// subtitles converted to mov_text for mp4, mov and m4v and to webvtt for
/// webm.
pub proof fn lemma_captions_attach_or_burn(
    input: Seq<char>,
    source: Seq<char>,
    ext: Seq<char>,
    burn: bool,
    output: Seq<char>,
)
    ensures
        ({
            let a = captions_args(input, source, ext, burn, output);
            &&& a[2] == "-i"@
            &&& a[3] == input
            &&& a.last() == output
            &&& burn ==> {
                &&& a.len() == 9
                &&& a[4] == "-vf"@
                &&& a[5] == "subtitles='"@ + filter_path_spec(source) + "'"@
                &&& a[6] == "-c:a"@
                &&& a[7] == "copy"@
            }
            &&& !burn ==> {
                &&& a[4] == "-i"@
                &&& a[5] == source
                &&& a[6] == "-map"@
                &&& a[7] == "0"@
                &&& a[8] == "-map"@
                &&& a[9] == "1"@
                &&& a[10] == "-c"@
                &&& a[11] == "copy"@
            }
            &&& !burn && (ext == "mp4"@ || ext == "mov"@ || ext == "m4v"@) ==> {
                &&& a.len() == 15
                &&& a[12] == "-c:s"@
                &&& a[13] == "mov_text"@
            }
            &&& !burn && ext == "webm"@ ==> {
                &&& a.len() == 15
                &&& a[12] == "-c:s"@
                &&& a[13] == "webvtt"@
            }
            &&& !burn && ext != "mp4"@ && ext != "mov"@ && ext != "m4v"@ && ext != "webm"@
                ==> a.len() == 13
        }),
{
    reveal_strlit("mp4");
    reveal_strlit("mov");
    reveal_strlit("m4v");
    reveal_strlit("webm");
    let a = captions_args(input, source, ext, burn, output);
    if !burn {
        let base = input_args(input) + seq!["-i"@, source, "-map"@, "0"@, "-map"@, "1"@, "-c"@, "copy"@];
        assert(a =~= base + subtitle_codec_args(ext) + seq![output]);
        if ext == "webm"@ {
            assert(ext.len() == 4);
            assert(ext != "mp4"@ && ext != "mov"@ && ext != "m4v"@);
            assert(subtitle_codec_args(ext) == seq!["-c:s"@, "webvtt"@]);
        }
    }
}

/// Captions `input` from the subtitle file `source`: burnt into the picture
/// where asked, otherwise attached as a subtitle stream of the output; the
/// caption style is recorded where one was given.
pub fn plan_captions(
    input: &str,
    source: &str,
    burn: bool,
    style: Option<&str>,
    job_dir: String,
    output: String,
) -> (r: JobPlan)
    ensures
        is_ffmpeg_plan(
            r,
            "captions"@,
            job_dir,
            seq!["captions from "@ + source@] + match style {
                Some(s) => seq!["caption style "@ + s@],
                None => Seq::<Seq<char>>::empty(),
            },
            captions_args(input@, source@, extension_spec(input@, "mp4"@), burn, output@),
            output@,
        ),
{
    let ext = caption_extension(input);
    let ext_cs = chars_of(ext.as_str());
    let mut args = crate::plan::input_args_exec(input);
    let ghost base = args.deep_view();
    if burn {
        push_text(&mut args, "-vf");
        let mut f = text("subtitles='");
        let p = ffmpeg_filter_path(source);
        push_str(&mut f, p.as_str());
        push_str(&mut f, "'");
        push_string(&mut args, f);
        push_text(&mut args, "-c:a");
        push_text(&mut args, "copy");
    } else {
        push_text(&mut args, "-i");
        push_text(&mut args, source);
        push_text(&mut args, "-map");
        push_text(&mut args, "0");
        push_text(&mut args, "-map");
        push_text(&mut args, "1");
        push_text(&mut args, "-c");
        push_text(&mut args, "copy");
        if chars_eq_str(&ext_cs, "mp4") || chars_eq_str(&ext_cs, "mov") || chars_eq_str(
            &ext_cs,
            "m4v",
        ) {
            push_text(&mut args, "-c:s");
            push_text(&mut args, "mov_text");
        } else if chars_eq_str(&ext_cs, "webm") {
            push_text(&mut args, "-c:s");
            push_text(&mut args, "webvtt");
        }
    }
    let ghost out_v = output@;
    push_string(&mut args, output.clone());
    assert(args.deep_view() =~= captions_args(input@, source@, ext@, burn, out_v));
    let mut ops: Vec<String> = Vec::new();
    let mut op = text("captions from ");
    push_str(&mut op, source);
    push_string(&mut ops, op);
    match style {
        Some(s) => {
            let mut op2 = text("caption style ");
            push_str(&mut op2, s);
            push_string(&mut ops, op2);
        },
        None => {},
    }
    let ghost ops_expected = seq!["captions from "@ + source@] + match style {
        Some(s) => seq!["caption style "@ + s@],
        None => Seq::<Seq<char>>::empty(),
    };
    assert(ops.deep_view() =~= ops_expected);
    crate::plan::ffmpeg_plan("captions", job_dir, ops, args, output)
}

// ---------------------------------------------------------------------------
// YouTube downloads

/// What a download asks yt-dlp for besides the video.
pub struct YoutubeOptions {
    /// Extract the audio as mp3.
    pub audio: bool,
    /// Write subtitles, automatic ones too, as srt.
    pub transcript: bool,
    /// Write the thumbnail.
    pub thumbnail: bool,
    /// Write the metadata as JSON.
    pub metadata: bool,
    /// Keep a download archive in the job's folder.
    pub archive: bool,
    /// Extract metadata without downloading media.
    pub simulate: bool,
}

/// The output template yt-dlp names downloads by.
pub open spec fn youtube_template() -> Seq<char> {
    "%(title).180B [%(id)s].%(ext)s"@
}

/// `s` where `c` holds, nothing otherwise.
pub open spec fn when(c: bool, s: Seq<Seq<char>>) -> Seq<Seq<char>> {
    if c {
        s
    } else {
        Seq::<Seq<char>>::empty()
    }
}

/// The arguments of a download.
pub open spec fn youtube_args(url: Seq<char>, o: YoutubeOptions, job_dir: Seq<char>) -> Seq<Seq<char>> {
    seq!["--paths"@, job_dir, "-o"@, utf8_path_join(job_dir, youtube_template())]
        + when(o.audio, seq!["-x"@, "--audio-format"@, "mp3"@])
        + when(o.transcript, seq!["--write-subs"@, "--write-auto-subs"@, "--sub-format"@, "srt"@])
        + when(o.thumbnail, seq!["--write-thumbnail"@])
        + when(o.metadata, seq!["--write-info-json"@])
        + when(o.archive, seq!["--download-archive"@, utf8_path_join(job_dir, "archive.txt"@)])
        + when(o.simulate, seq!["--simulate"@])
        + seq![url]
}

/// Every option asked for adds its flags to the download: `-x --audio-format
/// mp3` for audio, `--write-subs --write-auto-subs --sub-format srt` for a
/// transcript, `--write-thumbnail`, `--write-info-json` for metadata,
/// `--download-archive` for an archive and `--simulate`; the folder comes
/// first and the URL last.
pub proof fn lemma_youtube_flags(url: Seq<char>, o: YoutubeOptions, job_dir: Seq<char>)
    ensures
        ({
            let a = youtube_args(url, o, job_dir);
            &&& a[0] == "--paths"@
            &&& a[1] == job_dir
            &&& a[2] == "-o"@
            &&& a.last() == url
            &&& o.audio ==> a.contains("-x"@) && a.contains("--audio-format"@) && a.contains(
                "mp3"@,
            )
            &&& o.transcript ==> a.contains("--write-subs"@) && a.contains("--write-auto-subs"@)
                && a.contains("--sub-format"@) && a.contains("srt"@)
            &&& o.thumbnail ==> a.contains("--write-thumbnail"@)
            &&& o.metadata ==> a.contains("--write-info-json"@)
            &&& o.archive ==> a.contains("--download-archive"@)
            &&& o.simulate ==> a.contains("--simulate"@)
        }),
{
    let d = job_dir;
    let h = seq!["--paths"@, d, "-o"@, utf8_path_join(d, youtube_template())];
    let w1 = when(o.audio, seq!["-x"@, "--audio-format"@, "mp3"@]);
    let w2 = when(o.transcript, seq!["--write-subs"@, "--write-auto-subs"@, "--sub-format"@, "srt"@]);
    let w3 = when(o.thumbnail, seq!["--write-thumbnail"@]);
    let w4 = when(o.metadata, seq!["--write-info-json"@]);
    let w5 = when(o.archive, seq!["--download-archive"@, utf8_path_join(d, "archive.txt"@)]);
    let w6 = when(o.simulate, seq!["--simulate"@]);
    let a = youtube_args(url, o, job_dir);
    assert(a =~= h + w1 + w2 + w3 + w4 + w5 + w6 + seq![url]);
    let k1 = h.len() as int;
    let k2 = k1 + w1.len();
    let k3 = k2 + w2.len();
    let k4 = k3 + w3.len();
    let k5 = k4 + w4.len();
    let k6 = k5 + w5.len();
    if o.audio {
        assert(a[k1] == "-x"@);
        assert(a[k1 + 1] == "--audio-format"@);
        assert(a[k1 + 2] == "mp3"@);
    }
    if o.transcript {
        assert(a[k2] == "--write-subs"@);
        assert(a[k2 + 1] == "--write-auto-subs"@);
        assert(a[k2 + 2] == "--sub-format"@);
        assert(a[k2 + 3] == "srt"@);
    }
    if o.thumbnail {
        assert(a[k3] == "--write-thumbnail"@);
    }
    if o.metadata {
        assert(a[k4] == "--write-info-json"@);
    }
    if o.archive {
        assert(a[k5] == "--download-archive"@);
    }
    if o.simulate {
        assert(a[k6] == "--simulate"@);
    }
}

/// Downloads `url` with yt-dlp into the job's folder.
pub fn plan_youtube(url: &str, options: &YoutubeOptions, job_dir: String) -> (r: JobPlan)
    ensures
        r.job_name@ == "youtube"@,
        r.job_dir == job_dir,
        r.operations.deep_view() == seq!["youtube download workflow"@],
        r.commands@.len() == 1,
        r.commands@[0].program@ == "yt-dlp"@,
        r.commands@[0].args_view() == youtube_args(url@, *options, job_dir@),
        r.outputs@.len() == 0,
        r.warnings@.len() == 0,
{
    let ghost d = job_dir@;
    let o = options;
    let mut args: Vec<String> = Vec::new();
    push_text(&mut args, "--paths");
    push_text(&mut args, job_dir.as_str());
    push_text(&mut args, "-o");
    let template = join_path(job_dir.as_str(), "%(title).180B [%(id)s].%(ext)s");
    push_string(&mut args, template);
    let ghost a0 = args.deep_view();
    assert(a0 =~= seq!["--paths"@, d, "-o"@, utf8_path_join(d, youtube_template())]);
    if o.audio {
        push_text(&mut args, "-x");
        push_text(&mut args, "--audio-format");
        push_text(&mut args, "mp3");
    }
    let ghost a1 = a0 + when(o.audio, seq!["-x"@, "--audio-format"@, "mp3"@]);
    assert(args.deep_view() =~= a1);
    if o.transcript {
        push_text(&mut args, "--write-subs");
        push_text(&mut args, "--write-auto-subs");
        push_text(&mut args, "--sub-format");
        push_text(&mut args, "srt");
    }
    let ghost a2 = a1 + when(
        o.transcript,
        seq!["--write-subs"@, "--write-auto-subs"@, "--sub-format"@, "srt"@],
    );
    assert(args.deep_view() =~= a2);
    if o.thumbnail {
        push_text(&mut args, "--write-thumbnail");
    }
    let ghost a3 = a2 + when(o.thumbnail, seq!["--write-thumbnail"@]);
    assert(args.deep_view() =~= a3);
    if o.metadata {
        push_text(&mut args, "--write-info-json");
    }
    let ghost a4 = a3 + when(o.metadata, seq!["--write-info-json"@]);
    assert(args.deep_view() =~= a4);
    if o.archive {
        push_text(&mut args, "--download-archive");
        let a = join_path(job_dir.as_str(), "archive.txt");
        push_string(&mut args, a);
    }
    let ghost a5 = a4 + when(o.archive, seq!["--download-archive"@, utf8_path_join(d, "archive.txt"@)]);
    assert(args.deep_view() =~= a5);
    if o.simulate {
        push_text(&mut args, "--simulate");
    }
    let ghost a6 = a5 + when(o.simulate, seq!["--simulate"@]);
    assert(args.deep_view() =~= a6);
    push_text(&mut args, url);
    assert(args.deep_view() =~= a6 + seq![url@]);
    let mut plan = JobPlan::new("youtube", job_dir);
    push_text(&mut plan.operations, "youtube download workflow");
    assert(plan.operations.deep_view() =~= seq!["youtube download workflow"@]);
    let cmd = CommandSpec::new("yt-dlp").args(args);
    plan.commands.push(cmd);
    plan
}

// ---------------------------------------------------------------------------
// Folder batches

/// One operation a batch runs on each file.
pub enum BatchStep {
    /// Convert to the format of this extension.
    Convert(String),
    /// Compress, to the batch's target size where it has one.
    Compress,
    /// Resize to this width.
    Resize(u32),
    /// Transcribe.
    Transcribe,
    /// Write notes.
    Notes,
}

/// The steps as plain values: 0 convert, 1 compress, 2 resize, 3 transcribe,
/// 4 notes, with the extension or width where the step has one.
pub open spec fn step_view(s: BatchStep) -> (nat, Seq<char>, u32) {
    match s {
        BatchStep::Convert(e) => (0, e@, 0),
        BatchStep::Compress => (1, Seq::<char>::empty(), 0),
        BatchStep::Resize(w) => (2, Seq::<char>::empty(), w),
        BatchStep::Transcribe => (3, Seq::<char>::empty(), 0),
        BatchStep::Notes => (4, Seq::<char>::empty(), 0),
    }
}

/// The steps a batch runs on each file, in this order: convert, compress,
/// resize, transcribe, notes; each where asked for.
pub open spec fn batch_steps_spec(
    to: Option<Seq<char>>,
    compress: bool,
    resize: Option<u32>,
    transcribe: bool,
    notes: bool,
) -> Seq<(nat, Seq<char>, u32)> {
    (match to {
        Some(e) => seq![(0nat, e, 0u32)],
        None => Seq::empty(),
    }) + (if compress {
        seq![(1nat, Seq::<char>::empty(), 0u32)]
    } else {
        Seq::empty()
    }) + (match resize {
        Some(w) => seq![(2nat, Seq::<char>::empty(), w)],
        None => Seq::empty(),
    }) + (if transcribe {
        seq![(3nat, Seq::<char>::empty(), 0u32)]
    } else {
        Seq::empty()
    }) + (if notes {
        seq![(4nat, Seq::<char>::empty(), 0u32)]
    } else {
        Seq::empty()
    })
}

/// Each step of a batch is there exactly when it was asked for, and they
/// run in one fixed order: convert (to the format asked for), compress,
/// resize (to the width asked for), transcribe, notes.
pub proof fn lemma_batch_steps_asked(
    to: Option<Seq<char>>,
    compress: bool,
    resize: Option<u32>,
    transcribe: bool,
    notes: bool,
)
    ensures
        ({
            let b = batch_steps_spec(to, compress, resize, transcribe, notes);
            &&& b.len() == (if to is Some { 1int } else { 0int }) + (if compress {
                1int
            } else {
                0int
            }) + (if resize is Some { 1int } else { 0int }) + (if transcribe {
                1int
            } else {
                0int
            }) + (if notes { 1int } else { 0int })
            &&& forall|i: int, j: int| 0 <= i < j < b.len() ==> #[trigger] b[i].0 < #[trigger] b[j].0
            &&& to matches Some(e) ==> b[0] == (0nat, e, 0u32)
            &&& compress ==> b.contains((1nat, Seq::<char>::empty(), 0u32))
            &&& resize matches Some(w) ==> b.contains((2nat, Seq::<char>::empty(), w))
            &&& transcribe ==> b.contains((3nat, Seq::<char>::empty(), 0u32))
            &&& notes ==> b.last() == (4nat, Seq::<char>::empty(), 0u32)
        }),
{
    let b = batch_steps_spec(to, compress, resize, transcribe, notes);
    let p0: int = if to is Some { 1 } else { 0 };
    let p1: int = p0 + if compress { 1int } else { 0int };
    let p2: int = p1 + if resize is Some { 1int } else { 0int };
    let p3: int = p2 + if transcribe { 1int } else { 0int };
    assert forall|i: int| 0 <= i < b.len() implies {
        &&& (i < p0 ==> b[i].0 == 0)
        &&& (p0 <= i < p1 ==> b[i].0 == 1)
        &&& (p1 <= i < p2 ==> b[i].0 == 2)
        &&& (p2 <= i < p3 ==> b[i].0 == 3)
        &&& (p3 <= i ==> b[i].0 == 4)
    } by {}
    if compress {
        assert(b[p0] == (1nat, Seq::<char>::empty(), 0u32));
    }
    if resize is Some {
        assert(b[p1] == (2nat, Seq::<char>::empty(), resize->0));
    }
    if transcribe {
        assert(b[p2] == (3nat, Seq::<char>::empty(), 0u32));
    }
}

/// Each kind of step has its own number, in the order the steps run.
pub proof fn lemma_step_kinds(e: String, w: u32)
    ensures
        step_view(BatchStep::Convert(e)) == (0nat, e@, 0u32),
        step_view(BatchStep::Compress) == (1nat, Seq::<char>::empty(), 0u32),
        step_view(BatchStep::Resize(w)) == (2nat, Seq::<char>::empty(), w),
        step_view(BatchStep::Transcribe) == (3nat, Seq::<char>::empty(), 0u32),
        step_view(BatchStep::Notes) == (4nat, Seq::<char>::empty(), 0u32),
{
}

/// The steps a batch runs on each file it finds.
pub fn batch_steps(
    to: Option<&str>,
    compress: bool,
    resize: Option<u32>,
    transcribe: bool,
    notes: bool,
) -> (r: Vec<BatchStep>)
    ensures
        r@.map_values(|s: BatchStep| step_view(s)) == batch_steps_spec(
            opt_chars(to),
            compress,
            resize,
            transcribe,
            notes,
        ),
{
    let mut v: Vec<BatchStep> = Vec::new();
    match to {
        Some(e) => v.push(BatchStep::Convert(text(e))),
        None => {},
    }
    if compress {
        v.push(BatchStep::Compress);
    }
    match resize {
        Some(w) => v.push(BatchStep::Resize(w)),
        None => {},
    }
    if transcribe {
        v.push(BatchStep::Transcribe);
    }
    if notes {
        v.push(BatchStep::Notes);
    }
    assert(v@.map_values(|s: BatchStep| step_view(s)) =~= batch_steps_spec(
        opt_chars(to),
        compress,
        resize,
        transcribe,
        notes,
    ));
    v
}


// ---------------------------------------------------------------------------
// Hardware acceleration

/// The pieces of `s` between newlines (the last one after the last newline,
/// empty where `s` ends with one).
pub open spec fn split_lines(s: Seq<char>) -> Seq<Seq<char>>
    decreases s.len(),
{
    if s.len() == 0 {
        seq![Seq::<char>::empty()]
    } else {
        let p = split_lines(s.drop_last());
        if s.last() == '\n' {
            p.push(Seq::<char>::empty())
        } else {
            p.update(p.len() - 1, p.last().push(s.last()))
        }
    }
}

proof fn lemma_split_lines_nonempty(s: Seq<char>)
    ensures
        split_lines(s).len() >= 1,
    decreases s.len(),
{
    if s.len() > 0 {
        lemma_split_lines_nonempty(s.drop_last());
    }
}

/// The heading ffmpeg prints above its list of hardware accelerators.
pub open spec fn hwaccel_header() -> Seq<char> {
    "Hardware acceleration methods:"@
}

/// The accelerators named by lines of ffmpeg's output: each line trimmed of
/// white space (a carriage return included), without empty lines and the
/// heading.
pub open spec fn accel_names(lines: Seq<Seq<char>>) -> Seq<Seq<char>>
    decreases lines.len(),
{
    if lines.len() == 0 {
        Seq::<Seq<char>>::empty()
    } else {
        let rest = accel_names(lines.drop_last());
        let t = trim_set(lines.last(), CharSet::White);
        if t.len() > 0 && t != hwaccel_header() {
            rest.push(t)
        } else {
            rest
        }
    }
}

/// The accelerators ffmpeg lists, or none where it could not be run.
pub open spec fn hwaccels_spec(output: Option<Seq<char>>) -> Seq<Seq<char>> {
    match output {
        Some(s) => accel_names(split_lines(s)),
        None => Seq::<Seq<char>>::empty(),
    }
}

proof fn lemma_accel_last(lines: Seq<Seq<char>>)
    requires
        lines.len() >= 1,
    ensures
        accel_names(lines) == accel_names(lines.drop_last()) + accel_names(seq![lines.last()]),
{
    let x = lines.last();
    let t = trim_set(x, CharSet::White);
    let single = seq![x];
    assert(single.drop_last() =~= Seq::<Seq<char>>::empty());
    assert(accel_names(Seq::<Seq<char>>::empty()) =~= Seq::<Seq<char>>::empty());
    let a = accel_names(lines.drop_last());
    if t.len() > 0 && t != hwaccel_header() {
        assert(accel_names(single) =~= seq![t]);
        assert(a.push(t) =~= a + seq![t]);
    } else {
        assert(accel_names(single) =~= Seq::<Seq<char>>::empty());
        assert(a =~= a + Seq::<Seq<char>>::empty());
    }
}

/// No name in ffmpeg's accelerator list is empty or the heading.
pub proof fn lemma_hwaccel_names_clean(lines: Seq<Seq<char>>)
    ensures
        forall|i: int|
            0 <= i < accel_names(lines).len() ==> (#[trigger] accel_names(lines)[i]).len() > 0
                && accel_names(lines)[i] != hwaccel_header(),
    decreases lines.len(),
{
    if lines.len() > 0 {
        lemma_hwaccel_names_clean(lines.drop_last());
        let rest = accel_names(lines.drop_last());
        assert forall|i: int| 0 <= i < accel_names(lines).len() implies (#[trigger] accel_names(
            lines,
        )[i]).len() > 0 && accel_names(lines)[i] != hwaccel_header() by {
            if i < rest.len() {
                assert(accel_names(lines)[i] == rest[i]);
            }
        }
    }
}

fn push_accel(out: &mut Vec<String>, line: &Vec<char>)
    ensures
        final(out).deep_view() == old(out).deep_view() + accel_names(seq![line@]),
{
    let t = trim_exec(line, CharSet::White);
    let header = chars_of("Hardware acceleration methods:");
    proof {
        assert(seq![line@].drop_last() =~= Seq::<Seq<char>>::empty());
        assert(accel_names(Seq::<Seq<char>>::empty()) =~= Seq::<Seq<char>>::empty());
    }
    if t.len() > 0 && !crate::text::chars_eq(&t, &header) {
        push_string(out, string_of(&t));
    }
    assert(out.deep_view() =~= old(out).deep_view() + accel_names(seq![line@]));
}

/// The hardware accelerators in the output of `ffmpeg -hwaccels`: one per
/// line after the heading; none where ffmpeg could not be run (`None`).
pub fn detect_hwaccels(output: Option<&str>) -> (r: Vec<String>)
    ensures
        r.deep_view() == hwaccels_spec(opt_chars(output)),
{
    let s = match output {
        Some(s) => s,
        None => {
            let v: Vec<String> = Vec::new();
            assert(v.deep_view() =~= Seq::<Seq<char>>::empty());
            return v;
        },
    };
    let cs = chars_of(s);
    let mut out: Vec<String> = Vec::new();
    let mut cur: Vec<char> = Vec::new();
    let mut i: usize = 0;
    proof {
        assert(cs@.take(0) =~= Seq::<char>::empty());
        assert(split_lines(cs@.take(0)).drop_last() =~= Seq::<Seq<char>>::empty());
    }
    while i < cs.len()
        invariant
            i <= cs.len(),
            split_lines(cs@.take(i as int)).len() >= 1,
            out.deep_view() == accel_names(split_lines(cs@.take(i as int)).drop_last()),
            cur@ == split_lines(cs@.take(i as int)).last(),
        decreases cs.len() - i,
    {
        let c = cs[i];
        let ghost before = split_lines(cs@.take(i as int));
        proof {
            assert(cs@.take(i + 1).drop_last() =~= cs@.take(i as int));
            assert(cs@.take(i + 1).last() == c);
        }
        if c == '\n' {
            proof {
                let after = split_lines(cs@.take(i + 1));
                assert(after.drop_last() =~= before);
                lemma_accel_last(before);
            }
            push_accel(&mut out, &cur);
            cur = Vec::new();
            proof {
                assert(cur@ =~= Seq::<char>::empty());
            }
        } else {
            cur.push(c);
            proof {
                let after = split_lines(cs@.take(i + 1));
                assert(after.drop_last() =~= before.drop_last());
            }
        }
        i += 1;
    }
    proof {
        assert(cs@.take(cs.len() as int) =~= cs@);
        let all = split_lines(cs@);
        lemma_accel_last(all);
    }
    push_accel(&mut out, &cur);
    out
}


// ---------------------------------------------------------------------------
// Running a plan

/// The next thing a run of a plan does.
pub enum RunStep {
    /// Stop after the plan was printed: a dry run.
    PrintOnly,
    /// Ask whether to overwrite the outputs that exist.
    Ask,
    /// Stop: the answer was no.
    Aborted,
    /// Stop before running this command: the run was cancelled.
    Cancelled(usize),
    /// Run this command.
    Run(usize),
    /// All commands ran: write the report.
    Report,
}

/// The decision of a run, given what happened so far: a dry run stops after
/// printing; existing outputs are overwritten only with `--yes` or a yes to
/// the prompt; then each command runs in order unless the run was cancelled
/// before it; the report comes after the last command.
pub open spec fn run_step_spec(
    dry_run: bool,
    yes: bool,
    n_commands: nat,
    existing_outputs: nat,
    answer: Option<bool>,
    done: nat,
    cancelled: bool,
) -> RunStep {
    if dry_run {
        RunStep::PrintOnly
    } else if existing_outputs > 0 && !yes && answer is None {
        RunStep::Ask
    } else if existing_outputs > 0 && !yes && answer == Some(false) {
        RunStep::Aborted
    } else if done < n_commands {
        if cancelled {
            RunStep::Cancelled(done as usize)
        } else {
            RunStep::Run(done as usize)
        }
    } else {
        RunStep::Report
    }
}

/// The next step of running a plan of `n_commands` commands, of which `done`
/// ran, where `existing_outputs` of its outputs exist already, `answer` is
/// the answer to the overwrite prompt where it was asked, and `cancelled`
/// says whether the user cancelled the run.
pub fn next_run_step(
    run: &RunOptions,
    n_commands: usize,
    existing_outputs: usize,
    answer: Option<bool>,
    done: usize,
    cancelled: bool,
) -> (r: RunStep)
    ensures
        r == run_step_spec(
            run.dry_run,
            run.yes,
            n_commands as nat,
            existing_outputs as nat,
            answer,
            done as nat,
            cancelled,
        ),
{
    if run.dry_run {
        RunStep::PrintOnly
    } else if existing_outputs > 0 && !run.yes && answer.is_none() {
        RunStep::Ask
    } else if existing_outputs > 0 && !run.yes && answer == Some(false) {
        RunStep::Aborted
    } else if done < n_commands {
        if cancelled {
            RunStep::Cancelled(done)
        } else {
            RunStep::Run(done)
        }
    } else {
        RunStep::Report
    }
}

/// A run never runs a command after a dry run or a no to the prompt, and the
/// command it runs is the next one of the plan. A dry run only prints; with
/// outputs in the way and no `--yes`, the run asks before anything else and
/// stops on a no; a cancel stops it before the next command; and the report
/// comes only once every command ran.
pub proof fn lemma_run_steps_safe(
    dry_run: bool,
    yes: bool,
    n_commands: usize,
    existing_outputs: usize,
    answer: Option<bool>,
    done: usize,
    cancelled: bool,
)
    ensures
        run_step_spec(
            dry_run,
            yes,
            n_commands as nat,
            existing_outputs as nat,
            answer,
            done as nat,
            cancelled,
        ) matches RunStep::Run(i) ==> {
            &&& !dry_run
            &&& !cancelled
            &&& i == done
            &&& done < n_commands
            &&& (existing_outputs == 0 || yes || answer == Some(true))
        },
        ({
            let step = run_step_spec(
                dry_run,
                yes,
                n_commands as nat,
                existing_outputs as nat,
                answer,
                done as nat,
                cancelled,
            );
            &&& (step is PrintOnly <==> dry_run)
            &&& (step is Ask <==> !dry_run && existing_outputs > 0 && !yes && answer is None)
            &&& (step is Aborted <==> !dry_run && existing_outputs > 0 && !yes && answer == Some(
                false,
            ))
            &&& (step matches RunStep::Cancelled(i) ==> i == done && done < n_commands && cancelled)
            &&& (step is Report ==> !dry_run && done >= n_commands)
            &&& (!dry_run && (existing_outputs == 0 || yes || answer == Some(true)) && done
                < n_commands ==> step is Run || step is Cancelled)
        }),
{
}

// ---------------------------------------------------------------------------
// Transcript and notes jobs

/// The path of the notes made from `source` in `job_dir`: the folder joined
/// with `<stem>-notes.md`.
pub fn notes_output_path(job_dir: &str, source: &str) -> (r: String)
    ensures
        r@ == utf8_path_join(job_dir@, crate::naming::stem_spec(source@) + "-notes.md"@),
{
    let mut name = crate::naming::input_stem(source);
    push_str(&mut name, "-notes.md");
    join_path(job_dir, name.as_str())
}

/// The report of a job that made files without running commands.
fn provider_report(
    job_name: &str,
    operation: String,
    warning: &str,
    inputs: Vec<String>,
    outputs: Vec<String>,
    started_at: String,
    duration_ms: u128,
    size_before_bytes: u64,
    size_after_bytes: u64,
) -> (r: ForgeReport)
    ensures
        r.job_name@ == job_name@,
        r.started_at == started_at,
        r.duration_ms == duration_ms,
        r.input_files == inputs,
        r.output_files == outputs,
        r.operations_performed.deep_view() == seq![operation@],
        r.commands_run@.len() == 0,
        r.size_before_bytes == size_before_bytes,
        r.size_after_bytes == size_after_bytes,
        r.quality_settings@.len() == 0,
        r.warnings.deep_view() == seq![warning@],
{
    let mut ops: Vec<String> = Vec::new();
    let ghost op_v = operation@;
    push_string(&mut ops, operation);
    assert(ops.deep_view() =~= seq![op_v]);
    let mut warnings: Vec<String> = Vec::new();
    push_text(&mut warnings, warning);
    assert(warnings.deep_view() =~= seq![warning@]);
    ForgeReport {
        job_name: text(job_name),
        started_at,
        duration_ms,
        input_files: inputs,
        output_files: outputs,
        operations_performed: ops,
        commands_run: Vec::new(),
        size_before_bytes,
        size_after_bytes,
        quality_settings: Vec::new(),
        warnings,
    }
}

/// The warning a mock transcript carries.
pub open spec fn mock_transcript_warning() -> Seq<char> {
    "mock provider output is for workflow testing; configure a real local provider for production transcripts"@
}

/// The report of a transcription made by the provider called `provider`.
pub fn transcribe_report(
    provider: &str,
    inputs: Vec<String>,
    outputs: Vec<String>,
    started_at: String,
    duration_ms: u128,
    size_before_bytes: u64,
    size_after_bytes: u64,
) -> (r: ForgeReport)
    ensures
        r.job_name@ == "transcribe"@,
        r.started_at == started_at,
        r.duration_ms == duration_ms,
        r.input_files == inputs,
        r.output_files == outputs,
        r.operations_performed.deep_view() == seq!["transcribe with "@ + provider@ + " provider"@],
        r.commands_run@.len() == 0,
        r.size_before_bytes == size_before_bytes,
        r.size_after_bytes == size_after_bytes,
        r.quality_settings@.len() == 0,
        r.warnings.deep_view() == seq![mock_transcript_warning()],
{
    let mut op = text("transcribe with ");
    push_str(&mut op, provider);
    push_str(&mut op, " provider");
    provider_report(
        "transcribe",
        op,
        "mock provider output is for workflow testing; configure a real local provider for production transcripts",
        inputs,
        outputs,
        started_at,
        duration_ms,
        size_before_bytes,
        size_after_bytes,
    )
}

/// The warning mock notes carry.
pub open spec fn mock_notes_warning() -> Seq<char> {
    "mock notes are placeholders until a local AI provider is configured"@
}

/// The report of notes made from `source` into `output` by the provider
/// called `provider`.
pub fn notes_report(
    provider: &str,
    source: String,
    output: String,
    started_at: String,
    duration_ms: u128,
    size_before_bytes: u64,
    size_after_bytes: u64,
) -> (r: ForgeReport)
    ensures
        r.job_name@ == "notes"@,
        r.started_at == started_at,
        r.duration_ms == duration_ms,
        r.input_files.deep_view() == seq![source@],
        r.output_files.deep_view() == seq![output@],
        r.operations_performed.deep_view() == seq![
            "generate notes with "@ + provider@ + " provider"@,
        ],
        r.commands_run@.len() == 0,
        r.size_before_bytes == size_before_bytes,
        r.size_after_bytes == size_after_bytes,
        r.quality_settings@.len() == 0,
        r.warnings.deep_view() == seq![mock_notes_warning()],
{
    let mut op = text("generate notes with ");
    push_str(&mut op, provider);
    push_str(&mut op, " provider");
    let mut inputs: Vec<String> = Vec::new();
    let ghost sv = source@;
    push_string(&mut inputs, source);
    assert(inputs.deep_view() =~= seq![sv]);
    let mut outputs: Vec<String> = Vec::new();
    let ghost ov = output@;
    push_string(&mut outputs, output);
    assert(outputs.deep_view() =~= seq![ov]);
    provider_report(
        "notes",
        op,
        "mock notes are placeholders until a local AI provider is configured",
        inputs,
        outputs,
        started_at,
        duration_ms,
        size_before_bytes,
        size_after_bytes,
    )
}

} // verus!
