use forge::naming::{
    ffmpeg_filter_path, input_extension, input_stem, is_media_extension, numbered_file_name,
    output_file_name, slug,
};

#[test]
fn url_sources_have_stable_names() {
    assert_eq!(
        input_stem("https://cdn.example.com/media/Launch Clip.mp4?token=abc"),
        "launch-clip"
    );
    assert_eq!(
        input_extension(
            "https://cdn.example.com/media/Launch Clip.mp4?token=abc",
            "bin"
        ),
        "mp4"
    );
    assert_eq!(input_stem("https://cdn.example.com/media/"), "media");
}

#[test]
fn slug_keeps_letters_and_digits_in_lower_case() {
    assert_eq!(slug("Hello World!"), "hello-world");
    assert_eq!(slug("  Déjà vu -- 2024 "), "d-j-vu-2024");
    assert_eq!(slug("convert"), "convert");
    assert_eq!(slug("A__B"), "a-b");
}

#[test]
fn slug_of_nothing_is_job() {
    assert_eq!(slug(""), "job");
    assert_eq!(slug("---"), "job");
    assert_eq!(slug("!!!"), "job");
}

#[test]
fn slug_is_idempotent_on_examples() {
    for s in ["Hello World!", "", "--a--b--", "Ünïcödé", "x.y.z", "job"] {
        let once = slug(s);
        assert_eq!(slug(&once), once);
    }
}

#[test]
fn stems_of_paths_and_urls() {
    assert_eq!(input_stem("videos/My Trip.final.MOV"), "my-trip-final");
    assert_eq!(input_stem("C:\\media\\clip.mp4"), "clip");
    assert_eq!(input_stem(""), "output");
    assert_eq!(input_stem("///"), "output");
    assert_eq!(input_stem("https://x.test/a/b.mp3#t=10"), "b");
    assert_eq!(input_stem(".hidden"), "job");
}

#[test]
fn extensions_of_paths_and_urls() {
    assert_eq!(input_extension("clip.MP4", "bin"), "mp4");
    assert_eq!(input_extension("noext", "bin"), "bin");
    assert_eq!(input_extension("trailing.", ".BIN"), "bin");
    assert_eq!(input_extension("https://x.test/a.webm?x=1.2", "mp4"), "webm");
    assert_eq!(input_extension("dir.d/file", "mp4"), "mp4");
}

#[test]
fn output_names_join_stem_and_extension() {
    assert_eq!(output_file_name("videos/Launch Clip.mov", ".mp4"), "launch-clip.mp4");
    assert_eq!(output_file_name("a.wav", "mp3"), "a.mp3");
    assert_eq!(output_file_name("a.wav", "..mp3"), "a.mp3");
}

#[test]
fn numbered_names_go_before_the_extension() {
    assert_eq!(numbered_file_name("clip.mp4", 2), "clip-2.mp4");
    assert_eq!(numbered_file_name("convert", 3), "convert-3");
    assert_eq!(numbered_file_name(".hidden", 2), ".hidden-2");
    assert_eq!(numbered_file_name("a.tar.gz", 10), "a.tar-10.gz");
    assert_eq!(numbered_file_name("x.", 2), "x-2.");
    assert_ne!(numbered_file_name("clip.mp4", 2), numbered_file_name("clip.mp4", 3));
}

#[test]
fn filter_paths_are_escaped() {
    assert_eq!(ffmpeg_filter_path("C:\\subs\\it's.srt"), "C\\:/subs/it\\'s.srt");
    assert_eq!(ffmpeg_filter_path("plain/path.srt"), "plain/path.srt");
}

#[test]
fn media_extensions_ignore_case() {
    assert!(is_media_extension("mp4"));
    assert!(is_media_extension("JPEG"));
    assert!(is_media_extension("Flac"));
    assert!(!is_media_extension("txt"));
    assert!(!is_media_extension(""));
    assert!(!is_media_extension("mp44"));
}

#[test]
fn stems_are_stable() {
    for s in ["https://x.test/My Clip.mp4?t=1", "a/b/c.tar.gz", "", "...", "Ünï"] {
        let once = input_stem(s);
        assert_eq!(input_stem(&once), once);
    }
}

#[test]
fn queries_and_fragments_do_not_change_names() {
    let base = "https://x.test/media/Launch Clip.MP4";
    for tail in ["?token=abc", "#t=10", "?a=b.c/d"] {
        let url = format!("{base}{tail}");
        assert_eq!(input_stem(&url), input_stem(base));
        assert_eq!(input_extension(&url, "bin"), input_extension(base, "bin"));
    }
}
