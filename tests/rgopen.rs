use rgopen::cli::Args;
use rgopen::command::{build_rg_args, build_sk_args, decimal_string, preview_cmd, Shell};
use rgopen::config::{config_candidates, config_format, Config, ConfigFormat};
use rgopen::pipeline::{PipelineError, Stage};
use rgopen::preflight::{check_binaries, preflight};
use rgopen::selection::selection_from_output;
use rgopen::settings::Settings;

fn args(pattern: &str) -> Args {
    Args {
        pattern: pattern.to_string(),
        path: ".".to_string(),
        ignore_case: false,
        hidden: false,
        follow: false,
        no_ignore: false,
        multi: false,
        no_preview: false,
        open: None,
        preview_width: None,
        preview_context: None,
    }
}

fn settings(pattern: &str) -> Settings {
    Settings::from(&args(pattern), &Config::empty())
}

fn strs(v: &[&str]) -> Vec<String> {
    v.iter().map(|s| s.to_string()).collect()
}

#[test]
fn defaults_when_both_layers_are_empty() {
    let s = settings("foo");
    assert_eq!(s.pattern, "foo");
    assert_eq!(s.path, ".");
    assert!(!s.ignore_case && !s.hidden && !s.follow && !s.no_ignore && !s.multi && !s.no_preview);
    assert_eq!(s.open, None);
    assert_eq!(s.preview_width, "right:60%");
    assert_eq!(s.preview_context, 2);
}

#[test]
fn toggles_are_the_or_of_both_layers() {
    let mut a = args("x");
    a.ignore_case = true;
    a.follow = true;
    let mut c = Config::empty();
    c.hidden = Some(true);
    c.follow = Some(false);
    c.ignore_case = Some(false);
    c.multi = Some(true);
    c.no_preview = Some(false);
    let s = Settings::from(&a, &c);
    assert!(s.ignore_case);
    assert!(s.hidden);
    assert!(s.follow);
    assert!(!s.no_ignore);
    assert!(s.multi);
    assert!(!s.no_preview);
}

#[test]
fn explicit_values_override_persisted_ones() {
    let mut a = args("x");
    a.open = Some("vim".to_string());
    a.preview_width = Some("up:40%".to_string());
    a.preview_context = Some(5);
    let mut c = Config::empty();
    c.open = Some("code".to_string());
    c.preview_width = Some("down:30%".to_string());
    c.preview_context = Some(7);
    let s = Settings::from(&a, &c);
    assert_eq!(s.open.as_deref(), Some("vim"));
    assert_eq!(s.preview_width, "up:40%");
    assert_eq!(s.preview_context, 5);
}

#[test]
fn persisted_values_override_defaults() {
    let mut c = Config::empty();
    c.open = Some("code".to_string());
    c.preview_width = Some("down:30%".to_string());
    c.preview_context = Some(0);
    let s = Settings::from(&args("x"), &c);
    assert_eq!(s.open.as_deref(), Some("code"));
    assert_eq!(s.preview_width, "down:30%");
    assert_eq!(s.preview_context, 0);
}

#[test]
fn search_args_with_no_toggles() {
    let s = settings("fn main");
    assert_eq!(
        build_rg_args(&s),
        strs(&["-l", "--color=never", "--no-messages", "--", "fn main", "."])
    );
}

#[test]
fn search_args_with_all_toggles_in_fixed_order() {
    let mut a = args("-i");
    a.path = "src".to_string();
    a.ignore_case = true;
    a.hidden = true;
    a.follow = true;
    a.no_ignore = true;
    let s = Settings::from(&a, &Config::empty());
    assert_eq!(
        build_rg_args(&s),
        strs(&["-l", "--color=never", "--no-messages", "-i", "--hidden", "-L", "-uu", "--", "-i", "src"])
    );
}

#[test]
fn search_args_each_toggle_alone() {
    let cases: [(&str, fn(&mut Args)); 4] = [
        ("-i", |a| a.ignore_case = true),
        ("--hidden", |a| a.hidden = true),
        ("-L", |a| a.follow = true),
        ("-uu", |a| a.no_ignore = true),
    ];
    for (flag, set) in cases.iter() {
        let mut a = args("p");
        set(&mut a);
        let s = Settings::from(&a, &Config::empty());
        assert_eq!(
            build_rg_args(&s),
            strs(&["-l", "--color=never", "--no-messages", flag, "--", "p", "."])
        );
    }
}

#[test]
fn search_args_are_stable_across_calls() {
    let mut a = args("needle");
    a.hidden = true;
    a.no_ignore = true;
    let s = Settings::from(&a, &Config::empty());
    let first = build_rg_args(&s);
    for _ in 0..5 {
        assert_eq!(build_rg_args(&s), first);
    }
}

#[test]
fn preview_command_posix_plain() {
    let s = settings("foo");
    assert_eq!(
        preview_cmd(&s, Shell::Posix),
        "sh -c \"rg --color=always --line-number --max-columns=300 --no-messages --context 2 -- 'foo' '{}' | head -n 200\""
    );
}

#[test]
fn preview_command_posix_escapes_single_quote() {
    let s = settings("it's");
    assert_eq!(
        preview_cmd(&s, Shell::Posix),
        "sh -c \"rg --color=always --line-number --max-columns=300 --no-messages --context 2 -- 'it'\\\"'\\\"'s' '{}' | head -n 200\""
    );
}

#[test]
fn preview_command_powershell_escapes_single_quote() {
    let mut a = args("a'b");
    a.ignore_case = true;
    a.preview_context = Some(10);
    let s = Settings::from(&a, &Config::empty());
    assert_eq!(
        preview_cmd(&s, Shell::PowerShell),
        "powershell -NoProfile -Command rg --color=always --line-number --max-columns=300 --no-messages --context 10 -i -- 'a''b' '{}' | Select-Object -First 200"
    );
}

#[test]
fn preview_command_carries_search_toggles() {
    let mut a = args("x");
    a.hidden = true;
    a.follow = true;
    a.no_ignore = true;
    let s = Settings::from(&a, &Config::empty());
    assert_eq!(
        preview_cmd(&s, Shell::Posix),
        "sh -c \"rg --color=always --line-number --max-columns=300 --no-messages --context 2 --hidden -L -uu -- 'x' '{}' | head -n 200\""
    );
}

#[test]
fn selector_args_with_preview() {
    let s = settings("foo");
    let mut expected = strs(&["--ansi", "--prompt", "files> ", "--reverse", "--expect", "enter", "--preview"]);
    expected.push(preview_cmd(&s, Shell::Posix));
    expected.push("--preview-window".to_string());
    expected.push("right:60%".to_string());
    assert_eq!(build_sk_args(&s, Shell::Posix), expected);
}

#[test]
fn selector_args_multi_without_preview() {
    let mut a = args("foo");
    a.multi = true;
    a.no_preview = true;
    let s = Settings::from(&a, &Config::empty());
    assert_eq!(
        build_sk_args(&s, Shell::Posix),
        strs(&["--ansi", "--prompt", "files> ", "--reverse", "--expect", "enter", "--multi"])
    );
}

#[test]
fn selection_round_trip() {
    assert_eq!(
        selection_from_output(true, "enter\nfoo.rs\nbar/baz.rs\n"),
        strs(&["foo.rs", "bar/baz.rs"])
    );
}

#[test]
fn selection_key_line_alone_is_empty() {
    assert!(selection_from_output(true, "enter\n").is_empty());
    assert!(selection_from_output(true, "enter").is_empty());
}

#[test]
fn selection_failed_exit_is_empty() {
    assert!(selection_from_output(false, "enter\nfoo.rs\nbar/baz.rs\n").is_empty());
    assert!(selection_from_output(false, "").is_empty());
}

#[test]
fn selection_without_key_is_empty() {
    assert!(selection_from_output(true, "\nfoo.rs\n").is_empty());
    assert!(selection_from_output(true, "").is_empty());
}

#[test]
fn selection_trims_and_drops_blank_lines() {
    assert_eq!(
        selection_from_output(true, "enter\r\n  a b.rs \r\n\n \t \nc.rs"),
        strs(&["a b.rs", "c.rs"])
    );
}

#[test]
fn selection_keeps_non_ascii_paths() {
    assert_eq!(
        selection_from_output(true, "enter\n\u{3000}ünï.rs\u{a0}\n"),
        strs(&["ünï.rs"])
    );
}

#[test]
fn preflight_names_search_engine_first() {
    let e = preflight(false, true).unwrap_err();
    assert_eq!(e.name, "rg");
    let e = preflight(false, false).unwrap_err();
    assert_eq!(e.name, "rg");
}

#[test]
fn preflight_names_selector_when_only_it_is_missing() {
    let e = preflight(true, false).unwrap_err();
    assert_eq!(e.name, "sk");
    assert!(preflight(true, true).is_ok());
}

#[test]
fn missing_binary_message_names_tool() {
    let e = preflight(false, true).unwrap_err();
    assert_eq!(e.message(), "rg not found in PATH. Try installing it with cargo install rg");
}

#[test]
fn check_binaries_reports_a_known_tool() {
    match check_binaries() {
        Ok(()) => {}
        Err(e) => assert!(e.name == "rg" || e.name == "sk"),
    }
}

#[test]
fn pipeline_error_messages_name_the_engine() {
    assert_eq!(
        PipelineError::SpawnFailed { stage: Stage::Search }.message(),
        "failed to launch rg"
    );
    assert_eq!(
        PipelineError::StreamUnavailable { stage: Stage::Selector }.message(),
        "standard streams unavailable for sk"
    );
}

#[test]
fn decimal_rendering() {
    assert_eq!(decimal_string(0), "0");
    assert_eq!(decimal_string(7), "7");
    assert_eq!(decimal_string(10), "10");
    assert_eq!(decimal_string(1234), "1234");
    assert_eq!(decimal_string(usize::MAX), usize::MAX.to_string());
}

#[test]
fn config_format_by_extension() {
    assert_eq!(config_format("config.toml"), ConfigFormat::Toml);
    assert_eq!(config_format("config.yaml"), ConfigFormat::Yaml);
    assert_eq!(config_format("config.yml"), ConfigFormat::Yaml);
    assert_eq!(config_format("config.json"), ConfigFormat::Unknown);
    assert_eq!(config_format("toml"), ConfigFormat::Unknown);
}

#[test]
fn config_candidates_in_order() {
    assert_eq!(
        config_candidates(),
        strs(&[
            ".config/rgopen/config.toml",
            ".config/rgopen/config.yaml",
            ".config/rgopen/config.yml",
            ".rgopen/config.toml",
            ".rgopen/config.yaml",
            ".rgopen/config.yml",
        ])
    );
}

#[test]
fn preview_command_posix_case_and_ignore_with_context() {
    let mut a = args("foo");
    a.ignore_case = true;
    a.no_ignore = true;
    a.preview_context = Some(5);
    let s = Settings::from(&a, &Config::empty());
    assert_eq!(
        preview_cmd(&s, Shell::Posix),
        "sh -c \"rg --color=always --line-number --max-columns=300 --no-messages --context 5 -i -uu -- 'foo' '{}' | head -n 200\""
    );
}

#[test]
fn preview_command_posix_escapes_double_quote_specials() {
    let s = settings("a\"b$c`d\\e");
    assert_eq!(
        preview_cmd(&s, Shell::Posix),
        "sh -c \"rg --color=always --line-number --max-columns=300 --no-messages --context 2 -- 'a\\\"b\\$c\\`d\\\\e' '{}' | head -n 200\""
    );
}

#[test]
fn selector_args_multi_with_preview() {
    let mut a = args("foo");
    a.multi = true;
    let s = Settings::from(&a, &Config::empty());
    assert_eq!(
        build_sk_args(&s, Shell::Posix),
        strs(&[
            "--ansi",
            "--prompt",
            "files> ",
            "--reverse",
            "--expect",
            "enter",
            "--multi",
            "--preview",
            "sh -c \"rg --color=always --line-number --max-columns=300 --no-messages --context 2 -- 'foo' '{}' | head -n 200\"",
            "--preview-window",
            "right:60%",
        ])
    );
}

#[test]
fn preview_command_powershell_doubles_every_single_quote_form() {
    let s = settings("it\u{2019}s \u{2018}x\u{2019} \u{201A}y\u{201B} 'z'");
    assert_eq!(
        preview_cmd(&s, Shell::PowerShell),
        "powershell -NoProfile -Command rg --color=always --line-number --max-columns=300 --no-messages --context 2 -- 'it\u{2019}\u{2019}s \u{2018}\u{2018}x\u{2019}\u{2019} \u{201A}\u{201A}y\u{201B}\u{201B} ''z''' '{}' | Select-Object -First 200"
    );
}
