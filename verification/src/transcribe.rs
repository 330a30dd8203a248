//! Transcription providers: a mock that needs nothing, an external command
//! whose standard output is the transcript, and the whisper.cpp provider,
//! which is not usable yet.

use vstd::prelude::*;
use crate::naming::{input_stem, stem_spec};
use crate::paths::{join_path, utf8_path_join};
use crate::plan::{opt_string_chars, text};
use crate::text::{chars_of, push_str, string_of, trim_exec, trim_set, CharSet};

verus! {

/// A transcript, with subtitles where they were asked for and made.
pub struct Transcript {
    pub text: String,
    pub srt: Option<String>,
    pub provider: String,
}

/// A provider that writes a fixed transcript, for tests and local workflows.
pub struct MockProvider;

/// A provider that runs a command on the input and takes what it prints.
pub struct ExternalCommandProvider {
    pub command: String,
}

/// The whisper.cpp provider.
pub struct WhisperCppProvider;

/// The subtitles the mock provider writes.
pub open spec fn mock_srt() -> Seq<char> {
    "1\n00:00:00,000 --> 00:00:01,000\nMock transcript.\n"@
}

impl MockProvider {
    /// `mock`.
    pub fn name(&self) -> (r: &'static str)
        ensures
            r@ == "mock"@,
    {
        "mock"
    }

    /// Always available.
    pub fn available(&self) -> (r: bool)
        ensures
            r,
    {
        true
    }

    /// `Mock transcript for <input>`, with one subtitle cue when `srt` is
    /// asked for.
    pub fn transcribe(&self, input: &str, srt: bool) -> (r: Transcript)
        ensures
            r.text@ == "Mock transcript for "@ + input@,
            opt_string_chars(r.srt) == if srt {
                Some(mock_srt())
            } else {
                None
            },
            r.provider@ == "mock"@,
    {
        let mut t = text("Mock transcript for ");
        push_str(&mut t, input);
        let s = if srt {
            Some(text("1\n00:00:00,000 --> 00:00:01,000\nMock transcript.\n"))
        } else {
            None
        };
        Transcript { text: t, srt: s, provider: text("mock") }
    }
}

impl ExternalCommandProvider {
    /// `external-command`.
    pub fn name(&self) -> (r: &'static str)
        ensures
            r@ == "external-command"@,
    {
        "external-command"
    }

    /// The transcript an external command gives: what it printed, trimmed of
    /// white space, without subtitles.
    pub fn transcript_from_output(&self, stdout: &str) -> (r: Transcript)
        ensures
            r.text@ == trim_set(stdout@, CharSet::White),
            r.srt is None,
            r.provider@ == "external-command"@,
    {
        let cs = chars_of(stdout);
        let t = trim_exec(&cs, CharSet::White);
        Transcript { text: string_of(&t), srt: None, provider: text("external-command") }
    }
}

impl WhisperCppProvider {
    /// `whisper.cpp`.
    pub fn name(&self) -> (r: &'static str)
        ensures
            r@ == "whisper.cpp"@,
    {
        "whisper.cpp"
    }

    /// Not usable yet: always the error that says to configure an external
    /// command provider instead.
    pub fn transcribe(&self, input: &str, srt: bool) -> (r: Result<Transcript, String>)
        ensures
            r matches Err(m) && m@
                == "whisper.cpp provider is detected as an architecture placeholder; configure an external command provider for now"@,
    {
        Err(
            text(
                "whisper.cpp provider is detected as an architecture placeholder; configure an external command provider for now",
            ),
        )
    }
}

/// A file a job writes, with its contents.
pub struct OutputFile {
    pub path: String,
    pub contents: String,
}

/// The files a transcript of `source` is written to, in order: the text as
/// `<stem>.txt` and the subtitles, where there are any, as `<stem>.srt`.
pub fn transcript_outputs(job_dir: &str, source: &str, transcript: Transcript) -> (r: Vec<OutputFile>)
    ensures
        r@.len() == if transcript.srt is Some {
            2nat
        } else {
            1nat
        },
        r@[0].path@ == utf8_path_join(job_dir@, stem_spec(source@) + ".txt"@),
        r@[0].contents == transcript.text,
        transcript.srt matches Some(s) ==> r@[1].path@ == utf8_path_join(
            job_dir@,
            stem_spec(source@) + ".srt"@,
        ) && r@[1].contents == s,
{
    let stem = input_stem(source);
    let mut txt = stem.clone();
    push_str(&mut txt, ".txt");
    let mut v: Vec<OutputFile> = Vec::new();
    v.push(OutputFile { path: join_path(job_dir, txt.as_str()), contents: transcript.text });
    match transcript.srt {
        Some(s) => {
            let mut name = stem;
            push_str(&mut name, ".srt");
            v.push(OutputFile { path: join_path(job_dir, name.as_str()), contents: s });
        },
        None => {},
    }
    v
}

} // verus!
