use forge::command::RunOptions;
use forge::transcribe::{transcript_outputs, ExternalCommandProvider, MockProvider, WhisperCppProvider};
use forge::workflow::{
    batch_steps, caption_extension, caption_source, detect_hwaccels, is_affirmative, job_dir_path,
    next_run_step, notes_output_path, notes_report, output_path, plan_captions, plan_youtube,
    transcribe_report, BatchStep, RunStep, YoutubeOptions,
};

#[test]
fn mock_transcripts() {
    let t = MockProvider.transcribe("talk.wav", true);
    assert_eq!(t.text, "Mock transcript for talk.wav");
    assert_eq!(t.srt.as_deref(), Some("1\n00:00:00,000 --> 00:00:01,000\nMock transcript.\n"));
    assert_eq!(t.provider, "mock");
    assert!(MockProvider.transcribe("x", false).srt.is_none());
    assert!(MockProvider.available());
    assert_eq!(MockProvider.name(), "mock");
}

#[test]
fn external_and_whisper_providers() {
    let p = ExternalCommandProvider { command: "whisper".to_string() };
    let t = p.transcript_from_output("  hello there \n");
    assert_eq!(t.text, "hello there");
    assert!(t.srt.is_none());
    assert_eq!(t.provider, "external-command");
    assert_eq!(p.name(), "external-command");
    assert_eq!(WhisperCppProvider.name(), "whisper.cpp");
    assert!(WhisperCppProvider.transcribe("a", false).is_err());
}

#[test]
fn transcripts_are_written_next_to_each_other() {
    let t = MockProvider.transcribe("talks/Day One.wav", true);
    let files = transcript_outputs("out/transcribe", "talks/Day One.wav", t);
    assert_eq!(files.len(), 2);
    assert_eq!(files[0].path, "out/transcribe/day-one.txt");
    assert_eq!(files[0].contents, "Mock transcript for talks/Day One.wav");
    assert_eq!(files[1].path, "out/transcribe/day-one.srt");
    let one = transcript_outputs("out", "a.wav", MockProvider.transcribe("a.wav", false));
    assert_eq!(one.len(), 1);
}

#[test]
fn job_folders_and_output_paths() {
    assert_eq!(job_dir_path("forge-output", "Convert"), "forge-output/convert");
    assert_eq!(job_dir_path("out/", "thumbnail"), "out/thumbnail");
    assert_eq!(output_path("out/convert", "Launch Clip.mov", "mp4"), "out/convert/launch-clip.mp4");
}

#[test]
fn overwrite_answers() {
    assert!(is_affirmative("y"));
    assert!(is_affirmative(" YES\n"));
    assert!(is_affirmative("Yes"));
    assert!(!is_affirmative(""));
    assert!(!is_affirmative("no"));
    assert!(!is_affirmative("yes please"));
}

#[test]
fn captions_plans() {
    assert_eq!(caption_source(Some("a.srt"), Some("t.txt")), Some("a.srt".to_string()));
    assert_eq!(caption_source(None, Some("t.txt")), Some("t.txt".to_string()));
    assert_eq!(caption_source(None, None), None);
    let p = plan_captions("in.mp4", "C:\\subs\\a.srt", true, Some("bold"), "d".to_string(), "o.mp4".to_string());
    assert_eq!(
        p.commands[0].args,
        vec!["-hide_banner", "-y", "-i", "in.mp4", "-vf", "subtitles='C\\:/subs/a.srt'", "-c:a", "copy", "o.mp4"]
    );
    assert_eq!(p.operations, vec!["captions from C:\\subs\\a.srt", "caption style bold"]);
    let q = plan_captions("in.mp4", "a.srt", false, None, "d".to_string(), "o.mp4".to_string());
    assert_eq!(
        q.commands[0].args,
        vec![
            "-hide_banner", "-y", "-i", "in.mp4", "-i", "a.srt", "-map", "0", "-map", "1", "-c",
            "copy", "-c:s", "mov_text", "o.mp4"
        ]
    );
    let w = plan_captions("in.webm", "a.vtt", false, None, "d".to_string(), "o.webm".to_string());
    assert_eq!(
        w.commands[0].args,
        vec![
            "-hide_banner", "-y", "-i", "in.webm", "-i", "a.vtt", "-map", "0", "-map", "1", "-c",
            "copy", "-c:s", "webvtt", "o.webm"
        ]
    );
    let k = plan_captions("in.mkv", "a.srt", false, None, "d".to_string(), "o.mkv".to_string());
    assert_eq!(
        k.commands[0].args,
        vec!["-hide_banner", "-y", "-i", "in.mkv", "-i", "a.srt", "-map", "0", "-map", "1", "-c", "copy", "o.mkv"]
    );
    assert_eq!(caption_extension("in.mkv"), "mkv");
    assert_eq!(caption_extension("noext"), "mp4");
}

#[test]
fn youtube_plans() {
    let o = YoutubeOptions { audio: true, transcript: false, thumbnail: true, metadata: false, archive: true, simulate: true };
    let p = plan_youtube("https://youtu.be/x", &o, "out/youtube".to_string());
    assert_eq!(p.commands[0].program, "yt-dlp");
    assert_eq!(
        p.commands[0].args,
        vec![
            "--paths", "out/youtube", "-o", "out/youtube/%(title).180B [%(id)s].%(ext)s",
            "-x", "--audio-format", "mp3", "--write-thumbnail", "--download-archive",
            "out/youtube/archive.txt", "--simulate", "https://youtu.be/x"
        ]
    );
    assert_eq!(p.operations, vec!["youtube download workflow"]);
    assert!(p.outputs.is_empty());
}

#[test]
fn batch_steps_in_order() {
    let steps = batch_steps(Some("mp4"), true, Some(720), true, true);
    assert_eq!(steps.len(), 5);
    assert!(matches!(&steps[0], BatchStep::Convert(e) if e == "mp4"));
    assert!(matches!(steps[1], BatchStep::Compress));
    assert!(matches!(steps[2], BatchStep::Resize(720)));
    assert!(matches!(steps[3], BatchStep::Transcribe));
    assert!(matches!(steps[4], BatchStep::Notes));
    let only = batch_steps(None, false, Some(1), false, false);
    assert_eq!(only.len(), 1);
    let notes = batch_steps(None, false, None, false, true);
    assert_eq!(notes.len(), 1);
    assert!(matches!(notes[0], BatchStep::Notes));
    assert!(batch_steps(None, false, None, false, false).is_empty());
}

#[test]
fn hardware_accelerators_from_ffmpeg() {
    let out = "Hardware acceleration methods:\r\nvdpau\r\ncuda\n\n  vaapi  \n";
    assert_eq!(detect_hwaccels(Some(out)), vec!["vdpau", "cuda", "vaapi"]);
    assert!(detect_hwaccels(None).is_empty());
    assert!(detect_hwaccels(Some("")).is_empty());
    assert_eq!(detect_hwaccels(Some("qsv")), vec!["qsv"]);
}

#[test]
fn accelerator_names_are_never_empty_or_the_heading() {
    let out = "Hardware acceleration methods:\n\n \nHardware acceleration methods:\ndrm\n";
    let names = detect_hwaccels(Some(out));
    assert_eq!(names, vec!["drm"]);
    for n in names {
        assert!(!n.is_empty() && n != "Hardware acceleration methods:");
    }
}

fn opts(dry_run: bool, yes: bool) -> RunOptions {
    RunOptions { json: false, dry_run, yes, output_root: "forge-output".to_string() }
}

#[test]
fn run_steps() {
    let plain = opts(false, false);
    assert!(matches!(next_run_step(&opts(true, true), 2, 1, None, 0, false), RunStep::PrintOnly));
    assert!(matches!(next_run_step(&plain, 2, 1, None, 0, false), RunStep::Ask));
    assert!(matches!(next_run_step(&plain, 2, 1, Some(false), 0, false), RunStep::Aborted));
    assert!(matches!(next_run_step(&plain, 2, 1, Some(true), 0, false), RunStep::Run(0)));
    assert!(matches!(next_run_step(&opts(false, true), 2, 1, None, 0, false), RunStep::Run(0)));
    assert!(matches!(next_run_step(&plain, 2, 0, None, 1, false), RunStep::Run(1)));
    assert!(matches!(next_run_step(&plain, 2, 0, None, 1, true), RunStep::Cancelled(1)));
    assert!(matches!(next_run_step(&plain, 2, 0, None, 2, false), RunStep::Report));
    assert!(matches!(next_run_step(&plain, 2, 0, None, 2, true), RunStep::Report));
    assert!(matches!(next_run_step(&plain, 0, 0, None, 0, false), RunStep::Report));
}

#[test]
fn notes_and_transcript_reports() {
    assert_eq!(notes_output_path("out/notes", "a/Talk.wav"), "out/notes/talk-notes.md");
    let n = notes_report(
        "mock",
        "a/Talk.wav".to_string(),
        "out/notes/talk-notes.md".to_string(),
        "2024-01-01T00:00:00+00:00".to_string(),
        12,
        100,
        7,
    );
    assert_eq!(n.job_name, "notes");
    assert_eq!(n.input_files, vec!["a/Talk.wav"]);
    assert_eq!(n.output_files, vec!["out/notes/talk-notes.md"]);
    assert_eq!(n.operations_performed, vec!["generate notes with mock provider"]);
    assert!(n.commands_run.is_empty());
    assert_eq!(n.warnings, vec!["mock notes are placeholders until a local AI provider is configured"]);
    assert_eq!((n.duration_ms, n.size_before_bytes, n.size_after_bytes), (12, 100, 7));
    let t = transcribe_report(
        "mock",
        vec!["a.wav".to_string()],
        vec!["d/a.txt".to_string(), "d/a.srt".to_string()],
        "2024-01-01T00:00:00+00:00".to_string(),
        5,
        10,
        20,
    );
    assert_eq!(t.job_name, "transcribe");
    assert_eq!(t.operations_performed, vec!["transcribe with mock provider"]);
    assert_eq!(t.output_files, vec!["d/a.txt", "d/a.srt"]);
    assert_eq!(
        t.warnings,
        vec!["mock provider output is for workflow testing; configure a real local provider for production transcripts"]
    );
    assert!(t.quality_settings.is_empty());
}
