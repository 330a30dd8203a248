# forge

The planning core of Forgy, a terminal-native media toolkit that drives
ffmpeg, ffprobe and yt-dlp. The library in `src/` is verified with Verus: each
public function states in its contract exactly what it returns.

- `naming` — slugs, stems and extensions of files and URLs, output names and
  their numbered alternatives, escaping of paths for ffmpeg filters.
- `command` — external commands and how they are shown on a command line, job
  plans, run options and job reports.
- `size` — splitting sizes such as `50mb` or `1.5GiB` into number and unit,
  byte units, `HH:MM:SS`.
- `plan` — the ffmpeg jobs: convert, compress, clip, resize, crop, thumbnail,
  audio.
- `presets` — the built-in creator presets.
- `probe` — what `inspect` reads from ffprobe and the summary it prints.
- `report` — the Markdown report of a job.
- `transcribe` — transcription providers and the files a transcript goes to.
- `workflow` — captions, downloads, batches, the steps of running a plan
  (dry runs, overwrite prompts, cancelling), notes and transcript reports, job
  folders and hardware accelerators.
- `paths`, `text` — camino's path joining and extensions, and the character
  helpers the rest is built on.

`app/` is the `forge` command line around the library: argument parsing,
files and folders, running programs, JSON output and progress bars, and the
floating-point parts: the bytes of a size, a target bitrate, durations.
