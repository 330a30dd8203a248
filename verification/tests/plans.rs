use forge::plan::{
    compress_is_image, compress_target, crop_filter, join_texts, parse_range, plan_audio, plan_clip,
    plan_compress, plan_convert, plan_crop, plan_resize, plan_thumbnail, resize_dimensions,
    scale_filter, PlanError,
};
use forge::size::SizeError;

fn s(v: &[&str]) -> Vec<String> {
    v.iter().map(|x| x.to_string()).collect()
}

#[test]
fn convert_to_mp4_uses_h264_and_aac() {
    let p = plan_convert("in.mov", ".MP4", "out/convert".to_string(), "out/convert/in.mp4".to_string());
    assert_eq!(p.job_name, "convert");
    assert_eq!(p.job_dir, "out/convert");
    assert_eq!(p.operations, s(&["convert to mp4"]));
    assert_eq!(p.outputs, s(&["out/convert/in.mp4"]));
    assert_eq!(p.commands.len(), 1);
    assert_eq!(p.commands[0].program, "ffmpeg");
    assert_eq!(
        p.commands[0].args,
        s(&[
            "-hide_banner", "-y", "-i", "in.mov", "-c:v", "libx264", "-c:a", "aac",
            "-movflags", "+faststart", "out/convert/in.mp4"
        ])
    );
    assert!(p.warnings.is_empty());
}

#[test]
fn convert_codecs_by_format() {
    let args = |to: &str| plan_convert("a", to, "d".to_string(), "o".to_string()).commands[0].args.clone();
    assert_eq!(args("mp3"), s(&["-hide_banner", "-y", "-i", "a", "-vn", "-c:a", "libmp3lame", "-q:a", "2", "o"]));
    assert_eq!(args("webp"), s(&["-hide_banner", "-y", "-i", "a", "-lossless", "0", "-quality", "82", "o"]));
    assert_eq!(args("wav"), s(&["-hide_banner", "-y", "-i", "a", "-c:a", "pcm_s16le", "o"]));
    assert_eq!(args("mkv"), s(&["-hide_banner", "-y", "-i", "a", "-c", "copy", "o"]));
}

#[test]
fn compress_images_videos_and_targets() {
    assert!(compress_is_image("photo.PNG"));
    assert!(compress_is_image("a/b.jpeg"));
    assert!(!compress_is_image("clip.mp4"));
    assert!(!compress_is_image("noext"));

    let img = plan_compress("photo.png", None, None, None, "d".to_string(), "o.png".to_string());
    assert_eq!(
        img.commands[0].args,
        s(&["-hide_banner", "-y", "-i", "photo.png", "-compression_level", "6", "-quality", "82", "o.png"])
    );
    assert_eq!(img.operations, s(&["compress photo.png"]));

    let crf = plan_compress("v.mp4", None, Some(30), None, "d".to_string(), "o.mp4".to_string());
    assert_eq!(
        crf.commands[0].args,
        s(&["-hide_banner", "-y", "-i", "v.mp4", "-c:v", "libx264", "-crf", "30", "-preset", "medium", "-c:a", "aac", "-b:a", "128k", "o.mp4"])
    );

    let target = plan_compress("v.mp4", Some("50mb"), None, Some(3000), "d".to_string(), "o.mp4".to_string());
    assert_eq!(
        target.commands[0].args,
        s(&["-hide_banner", "-y", "-i", "v.mp4", "-c:v", "libx264", "-b:v", "3000k", "-c:a", "aac", "-b:a", "128k", "-movflags", "+faststart", "o.mp4"])
    );
    assert_eq!(target.operations, s(&["compress v.mp4", "target size 50mb"]));
    assert_eq!(target.job_name, "compress");
}

#[test]
fn ranges_win_over_from_and_to() {
    assert_eq!(
        parse_range(Some("1"), Some("2"), Some("00:01:00..00:02:30")),
        (Some("00:01:00".to_string()), Some("00:02:30".to_string()))
    );
    assert_eq!(parse_range(Some("1"), None, Some("no-dots")), (Some("1".to_string()), None));
    assert_eq!(parse_range(None, Some("9"), None), (None, Some("9".to_string())));
    assert_eq!(parse_range(None, None, Some("..")), (Some(String::new()), Some(String::new())));
    assert_eq!(parse_range(None, None, Some("a...b")), (Some("a".to_string()), Some(".b".to_string())));
}

#[test]
fn clip_cuts_and_removes_silence() {
    let p = plan_clip("in.mp4", None, None, Some("00:01:00..00:02:30"), true, "d".to_string(), "o.mp4".to_string());
    assert_eq!(
        p.commands[0].args,
        s(&[
            "-hide_banner", "-y", "-ss", "00:01:00", "-to", "00:02:30", "-i", "in.mp4", "-af",
            "silenceremove=start_periods=1:start_threshold=-45dB:detection=peak", "-c:v", "copy", "o.mp4"
        ])
    );
    assert_eq!(p.operations, s(&["clip in.mp4", "remove silence"]));
    let q = plan_clip("in.mp4", None, Some("5"), None, false, "d".to_string(), "o.mp4".to_string());
    assert_eq!(q.commands[0].args, s(&["-hide_banner", "-y", "-to", "5", "-i", "in.mp4", "-c", "copy", "o.mp4"]));
}

#[test]
fn resize_scales_and_presets() {
    assert_eq!(scale_filter(Some(1280), Some(720)), "scale=1280:720");
    assert_eq!(scale_filter(Some(1280), None), "scale=1280:-2");
    assert_eq!(scale_filter(None, Some(720)), "scale=-2:720");
    assert_eq!(scale_filter(None, None), "scale=1080:-2");
    assert_eq!(resize_dimensions(None, None, Some("tiktok")).unwrap(), (Some(1080), Some(1920)));
    assert_eq!(resize_dimensions(Some(720), None, Some("youtube")).unwrap(), (Some(720), Some(1080)));
    assert_eq!(resize_dimensions(None, None, Some("podcast")).unwrap(), (None, None));
    assert_eq!(resize_dimensions(Some(1), Some(2), None).unwrap(), (Some(1), Some(2)));
    match resize_dimensions(None, None, Some("nope")) {
        Err(e @ PlanError::UnknownPreset { .. }) => assert_eq!(e.message(), "unknown preset `nope`"),
        other => panic!("{other:?}"),
    }
    let p = plan_resize("in.mp4", Some(1080), Some(1920), "d".to_string(), "o.mp4".to_string());
    assert_eq!(p.operations, s(&["resize with scale=1080:1920"]));
    assert_eq!(
        p.commands[0].args,
        s(&["-hide_banner", "-y", "-i", "in.mp4", "-vf", "scale=1080:1920", "-c:a", "copy", "o.mp4"])
    );
}

#[test]
fn crop_aspects() {
    assert_eq!(crop_filter("9:16").unwrap(), "crop=ih*9/16:ih");
    assert_eq!(crop_filter("1:1").unwrap(), "crop=min(iw\\,ih):min(iw\\,ih)");
    assert_eq!(crop_filter("16:9").unwrap(), "crop=iw:iw*9/16");
    let e = crop_filter("4:3").unwrap_err();
    assert_eq!(e.message(), "unsupported crop aspect `4:3`. Try 9:16, 1:1, or 16:9");
    let p = plan_crop("in.mp4", "9:16", "d".to_string(), "o.mp4".to_string()).unwrap();
    assert_eq!(p.operations, s(&["crop to 9:16"]));
    assert_eq!(
        p.commands[0].args,
        s(&["-hide_banner", "-y", "-i", "in.mp4", "-vf", "crop=ih*9/16:ih", "-c:a", "copy", "o.mp4"])
    );
    assert!(plan_crop("in.mp4", "2:1", "d".to_string(), "o.mp4".to_string()).is_err());
}

#[test]
fn thumbnails_still_and_grid() {
    let p = plan_thumbnail("in.mp4", Some("00:00:15"), false, true, "d".to_string(), "o.jpg".to_string());
    assert_eq!(
        p.commands[0].args,
        s(&["-hide_banner", "-y", "-ss", "00:00:15", "-i", "in.mp4", "-frames:v", "1", "-q:v", "2", "o.jpg"])
    );
    assert_eq!(p.operations, s(&["thumbnail still"]));
    let g = plan_thumbnail("in.mp4", None, true, true, "d".to_string(), "o.jpg".to_string());
    assert_eq!(
        g.commands[0].args,
        s(&["-hide_banner", "-y", "-ss", "00:00:01", "-i", "in.mp4", "-vf", "fps=1/10,scale=320:-1,tile=3x3", "-frames:v", "1", "o.jpg"])
    );
    assert_eq!(g.operations, s(&["thumbnail grid"]));
    let plain = plan_thumbnail("in.mp4", None, false, false, "d".to_string(), "o.jpg".to_string());
    assert_eq!(plain.commands[0].args[2], "-i");
}

#[test]
fn audio_filters_join_in_order() {
    let p = plan_audio("pod.mp3", true, false, true, false, "d".to_string(), "o.mp3".to_string());
    assert_eq!(
        p.commands[0].args,
        s(&["-hide_banner", "-y", "-i", "pod.mp3", "-af", "loudnorm,highpass=f=80,lowpass=f=12000", "o.mp3"])
    );
    assert_eq!(p.operations, s(&["audio workflow"]));
    let x = plan_audio("v.mp4", false, false, false, true, "d".to_string(), "o.mp3".to_string());
    assert_eq!(
        x.commands[0].args,
        s(&["-hide_banner", "-y", "-i", "v.mp4", "-vn", "-c:a", "libmp3lame", "-q:a", "2", "o.mp3"])
    );
    assert_eq!(join_texts(&s(&["a", "b", "c"]), ", "), "a, b, c");
    assert_eq!(join_texts(&s(&[]), ","), "");
}

#[test]
fn every_plan_writes_its_output_last() {
    let plans = vec![
        plan_convert("a", "mp4", "d".to_string(), "OUT".to_string()),
        plan_compress("a", None, None, None, "d".to_string(), "OUT".to_string()),
        plan_clip("a", None, None, None, false, "d".to_string(), "OUT".to_string()),
        plan_resize("a", None, None, "d".to_string(), "OUT".to_string()),
        plan_thumbnail("a", None, false, false, "d".to_string(), "OUT".to_string()),
        plan_audio("a", false, false, false, false, "d".to_string(), "OUT".to_string()),
    ];
    for p in plans {
        assert_eq!(p.commands[0].args.last().unwrap(), "OUT");
        assert_eq!(p.outputs, vec!["OUT".to_string()]);
        assert_eq!(p.job_dir, "d");
    }
}

#[test]
fn split_ranges_rejoin() {
    for r in ["00:01:00..00:02:30", "a...b", "..", "x..y..z"] {
        let (a, b) = parse_range(None, None, Some(r));
        assert_eq!(format!("{}..{}", a.unwrap(), b.unwrap()), r);
    }
}

#[test]
fn compress_targets_only_for_timed_videos() {
    assert!(matches!(compress_target("photo.png", Some("50mb"), true), Ok(None)));
    assert!(matches!(compress_target("v.mp4", None, true), Ok(None)));
    assert!(matches!(compress_target("v.mp4", Some("50mb"), false), Ok(None)));
    assert!(matches!(compress_target("v.mp4", Some("bad"), false), Ok(None)));
    match compress_target("v.mp4", Some("50mb"), true) {
        Ok(Some((number, multiplier))) => {
            assert_eq!(number, "50");
            assert_eq!(multiplier, 1_000_000);
        }
        other => panic!("gave {other:?}"),
    }
    match compress_target("clip.MOV", Some(" 1.5 GiB"), true) {
        Ok(Some((number, multiplier))) => {
            assert_eq!(number, "1.5");
            assert_eq!(multiplier, 1_073_741_824);
        }
        other => panic!("gave {other:?}"),
    }
    match compress_target("v.mp4", Some("bad"), true) {
        Err(SizeError::InvalidNumber { input }) => assert_eq!(input, "bad"),
        other => panic!("gave {other:?}"),
    }
    match compress_target("v.mp4", Some("5tb"), true) {
        Err(SizeError::UnknownUnit { unit }) => assert_eq!(unit, "tb"),
        other => panic!("gave {other:?}"),
    }
}
