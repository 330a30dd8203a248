use forge::command::{shell_quote, CommandSpec, ForgeReport, JobPlan, RunOptions, DEFAULT_OUTPUT_DIR};

#[test]
fn plain_arguments_are_not_quoted() {
    assert_eq!(shell_quote("abc"), "abc");
    assert_eq!(shell_quote("-c:v"), "-c:v");
    assert_eq!(shell_quote("a/b\\c.d=e_f"), "a/b\\c.d=e_f");
    assert_eq!(shell_quote(""), "");
}

#[test]
fn other_arguments_are_quoted_and_escaped() {
    assert_eq!(shell_quote("a b"), "\"a b\"");
    assert_eq!(shell_quote("say \"hi\""), "\"say \\\"hi\\\"\"");
    assert_eq!(shell_quote("scale=1080:-2,x"), "\"scale=1080:-2,x\"");
}

#[test]
fn commands_display_as_command_lines() {
    let cmd = CommandSpec::new("ffmpeg").arg("-i").arg("my file.mp4");
    assert_eq!(cmd.display(), "ffmpeg -i \"my file.mp4\"");
    assert_eq!(CommandSpec::new("yt-dlp").display(), "yt-dlp");
}

#[test]
fn args_add_in_order() {
    let a = CommandSpec::new("p").arg("1").arg("2").arg("3");
    let b = CommandSpec::new("p").args(vec!["1".to_string(), "2".to_string()]).arg("3");
    assert_eq!(a.args, b.args);
    assert_eq!(a.args, vec!["1", "2", "3"]);
    assert_eq!(a.program, "p");
}

#[test]
fn default_run_options() {
    let r = RunOptions::default();
    assert!(!r.json && !r.dry_run && !r.yes);
    assert_eq!(r.output_root, "forge-output");
    assert_eq!(DEFAULT_OUTPUT_DIR, "forge-output");
}

#[test]
fn reports_take_name_outputs_and_warnings_from_the_plan() {
    let mut plan = JobPlan::new("convert", "out/convert".to_string());
    assert!(plan.operations.is_empty() && plan.commands.is_empty());
    plan.outputs.push("out/convert/a.mp3".to_string());
    plan.operations.push("convert to mp3".to_string());
    plan.warnings.push("careful".to_string());
    let report = ForgeReport::from_plan(
        plan,
        vec!["a.wav".to_string()],
        vec!["ffmpeg -i a.wav".to_string()],
        "2024-01-01T00:00:00Z".to_string(),
        42,
        100,
        50,
    );
    assert_eq!(report.job_name, "convert");
    assert_eq!(report.output_files, vec!["out/convert/a.mp3"]);
    assert_eq!(report.operations_performed, vec!["convert to mp3"]);
    assert_eq!(report.warnings, vec!["careful"]);
    assert!(report.quality_settings.is_empty());
    assert_eq!(report.duration_ms, 42);
}
