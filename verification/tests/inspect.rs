use forge::command::ForgeReport;
use forge::presets::{builtins, find, list_line, preset_template};
use forge::probe::{
    format_duration, inspect_from_probe, inspect_summary, media_info_from_probe, ProbeDoc, ProbeStream,
};
use forge::report::render_markdown;

fn stream(t: &str, c: Option<&str>, w: Option<u64>, h: Option<u64>) -> ProbeStream {
    ProbeStream {
        codec_type: Some(t.to_string()),
        codec_name: c.map(|x| x.to_string()),
        width: w,
        height: h,
    }
}

#[test]
fn probe_streams_are_summarized() {
    let streams = vec![
        stream("audio", Some("aac"), None, None),
        stream("video", Some("hevc"), None, Some(90)),
        stream("video", Some("vp9"), Some(160), Some(90)),
        stream("video", None, Some(1), Some(1)),
        stream("subtitle", Some("mov_text"), None, None),
        stream("data", Some("bin"), None, None),
    ];
    let info = media_info_from_probe("sample.mp4", Some("mov,mp4".to_string()), Some("123456"), &streams, 200_000_000);
    assert_eq!(info.video_codecs, vec!["hevc", "vp9"]);
    assert_eq!(info.audio_codecs, vec!["aac"]);
    assert_eq!(info.audio_tracks, 1);
    assert_eq!(info.subtitle_tracks, 1);
    assert_eq!(info.resolution, Some("160x90".to_string()));
    assert_eq!(info.bitrate, Some(123456));
    assert_eq!(
        info.recommended_actions,
        vec![
            "try `forge compress` for a smaller shareable copy",
            "convert to h264/mp4 for broad compatibility",
            "use `forge audio --normalize` for spoken-word cleanup",
        ]
    );
}

#[test]
fn h264_video_needs_no_conversion() {
    let streams = vec![stream("video", Some("h264"), Some(1920), Some(1080))];
    let info = media_info_from_probe("a.mp4", None, Some("n/a"), &streams, 10);
    assert!(info.recommended_actions.is_empty());
    assert_eq!(info.bitrate, None);
    assert_eq!(info.resolution, Some("1920x1080".to_string()));
    let empty = media_info_from_probe("a.mp4", None, None, &vec![], 0);
    assert_eq!(empty.resolution, None);
    assert_eq!(empty.audio_tracks, 0);
}

#[test]
fn inspect_summary_text() {
    let streams = vec![stream("video", Some("h264"), Some(160), Some(90)), stream("audio", Some("aac"), None, None)];
    let info = media_info_from_probe("sample.mp4", Some("mov,mp4".to_string()), Some("1000"), &streams, 5);
    let text = inspect_summary(&info, &format_duration(Some(1)), "5 B");
    assert_eq!(
        text,
        "File: sample.mp4\nDuration: 00:00:01\nFormat: mov,mp4\nResolution: 160x90\nVideo: h264\nAudio: 1 tracks (aac)\nSubtitles: 0 tracks\nBitrate: 1000\nSize: 5 B\nRecommended:\n- use `forge audio --normalize` for spoken-word cleanup"
    );
    let bare = media_info_from_probe("x", None, None, &vec![], 0);
    assert_eq!(
        inspect_summary(&bare, &format_duration(None), "0 B"),
        "File: x\nDuration: unknown\nFormat: unknown\nResolution: unknown\nVideo: none\nAudio: 0 tracks (none)\nSubtitles: 0 tracks\nBitrate: unknown\nSize: 0 B\nRecommended:\n- none"
    );
}

#[test]
fn preset_snapshot_lists_creator_presets() {
    let names: Vec<String> = builtins().into_iter().map(|p| p.name).collect();
    assert!(names.contains(&"tiktok".to_string()));
    assert!(names.contains(&"youtube-short".to_string()));
    assert!(names.contains(&"podcast".to_string()));
    assert_eq!(names.len(), 9);
}

#[test]
fn presets_are_found_by_name() {
    let p = find("tiktok").unwrap();
    assert_eq!((p.width, p.height), (Some(1080), Some(1920)));
    assert_eq!(p.description, "1080x1920 vertical MP4, h264/aac, creator captions in mind.");
    assert!(find("TikTok").is_none());
    assert!(find("").is_none());
    assert_eq!(list_line(&find("web").unwrap()), "web            compact web-friendly media.");
    assert_eq!(
        preset_template("mine"),
        "Preset `mine` template:\n{\n  \"name\": \"mine\",\n  \"container\": \"mp4\",\n  \"video_codec\": \"libx264\",\n  \"audio_codec\": \"aac\"\n}"
    );
}

#[test]
fn markdown_report() {
    let report = ForgeReport {
        job_name: "convert".to_string(),
        started_at: "2024-01-01T00:00:00Z".to_string(),
        duration_ms: 1234,
        input_files: vec!["in.wav".to_string()],
        output_files: vec!["out/convert/in.mp3".to_string()],
        operations_performed: vec!["convert to mp3".to_string()],
        commands_run: vec!["ffmpeg -i in.wav out/convert/in.mp3".to_string()],
        size_before_bytes: 2000,
        size_after_bytes: 900,
        quality_settings: vec![],
        warnings: vec!["check levels".to_string()],
    };
    assert_eq!(
        render_markdown(&report, "2.0 KB", "900 B"),
        "# Forge Report: convert\n\n- Duration: 1234 ms\n- Size: 2.0 KB -> 900 B\n\n## Inputs\n- `in.wav`\n\n## Outputs\n- `out/convert/in.mp3`\n\n## Operations\n- convert to mp3\n\n## Commands\n- `ffmpeg -i in.wav out/convert/in.mp3`\n\n## Warnings\n- check levels\n"
    );
}

#[test]
fn preset_names_are_unique() {
    let names: Vec<String> = builtins().into_iter().map(|p| p.name).collect();
    for (i, a) in names.iter().enumerate() {
        for b in &names[i + 1..] {
            assert_ne!(a, b);
        }
        assert_eq!(find(a).unwrap().name, *a);
    }
}

#[test]
fn probe_descriptions_are_read() {
    let doc = ProbeDoc {
        format_name: Some("matroska,webm".to_string()),
        bit_rate: Some("64000".to_string()),
        streams: vec![stream("video", Some("vp9"), Some(640), Some(360)), stream("audio", Some("opus"), None, None)],
    };
    let info = inspect_from_probe("clip.webm", &doc, 42);
    assert_eq!(info.path, "clip.webm");
    assert_eq!(info.format, Some("matroska,webm".to_string()));
    assert_eq!(info.bitrate, Some(64000));
    assert_eq!(info.video_codecs, vec!["vp9"]);
    assert_eq!(info.audio_codecs, vec!["opus"]);
    assert_eq!(info.resolution, Some("640x360".to_string()));
    assert_eq!(info.file_size_bytes, 42);
    assert_eq!(
        info.recommended_actions,
        vec![
            "convert to h264/mp4 for broad compatibility",
            "use `forge audio --normalize` for spoken-word cleanup",
        ]
    );
    let bare = inspect_from_probe("x", &ProbeDoc { format_name: None, bit_rate: None, streams: vec![] }, 0);
    assert_eq!(bare.format, None);
    assert_eq!(bare.bitrate, None);
    assert!(bare.recommended_actions.is_empty());
}
