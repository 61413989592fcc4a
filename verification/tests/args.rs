use gamescope_gui::args::{parse_args, ArgsError, LaunchRequest, ParseOutcome};

fn os_args(args: &[&str]) -> Vec<Vec<u8>> {
    args.iter().map(|arg| arg.as_bytes().to_vec()).collect()
}

#[test]
fn parses_command_after_separator() {
    let mut out = Vec::new();
    let mut err = Vec::new();
    let result = parse_args(
        os_args(&["gamescope-gui", "--", "game", "-arg", "value"]),
        &mut out,
        &mut err,
    )
    .unwrap();

    assert_eq!(
        result,
        ParseOutcome::Run(LaunchRequest {
            game_command: os_args(&["game", "-arg", "value"])
        })
    );
}

#[test]
fn rejects_missing_separator() {
    let mut out = Vec::new();
    let mut err = Vec::new();
    let result = parse_args(os_args(&["gamescope-gui", "game"]), &mut out, &mut err);

    assert_eq!(result, Err(ArgsError::MissingSeparator));
}

#[test]
fn rejects_wrapper_args_before_separator() {
    let mut out = Vec::new();
    let mut err = Vec::new();
    let result = parse_args(
        os_args(&["gamescope-gui", "--fullscreen", "--", "game"]),
        &mut out,
        &mut err,
    );

    assert_eq!(
        result,
        Err(ArgsError::UnsupportedArgument("--fullscreen".to_string()))
    );
}

#[test]
fn missing_separator_is_reported_on_stderr() {
    let mut out = Vec::new();
    let mut err = Vec::new();
    let _ = parse_args(os_args(&["gamescope-gui", "game"]), &mut out, &mut err);
    assert!(out.is_empty());
    assert_eq!(
        String::from_utf8(err).unwrap(),
        "missing `--`; use `gamescope-gui -- %command%` in Steam launch options\n"
    );
}

#[test]
fn empty_command_line_misses_the_separator() {
    let mut out = Vec::new();
    let mut err = Vec::new();
    let result = parse_args(Vec::new(), &mut out, &mut err);
    assert_eq!(result, Err(ArgsError::MissingSeparator));
}

#[test]
fn rejects_separator_without_game_command() {
    let mut out = Vec::new();
    let mut err = Vec::new();
    let result = parse_args(os_args(&["gamescope-gui", "--"]), &mut out, &mut err);
    assert_eq!(result, Err(ArgsError::MissingGameCommand));
    assert_eq!(
        String::from_utf8(err).unwrap(),
        "missing game command after `--`; use `gamescope-gui -- %command%`\n"
    );
}

#[test]
fn unsupported_argument_message_names_the_argument() {
    let mut out = Vec::new();
    let mut err = Vec::new();
    let result = parse_args(os_args(&["gamescope-gui", "-x", "-y", "--", "g"]), &mut out, &mut err);
    assert_eq!(result, Err(ArgsError::UnsupportedArgument("-x".to_string())));
    assert_eq!(
        String::from_utf8(err).unwrap(),
        "unsupported wrapper argument `-x` before `--`\n"
    );
}

#[test]
fn unsupported_argument_is_decoded_lossily() {
    let mut out = Vec::new();
    let mut err = Vec::new();
    let args = vec![b"gamescope-gui".to_vec(), vec![b'-', 0xff], b"--".to_vec(), b"g".to_vec()];
    let result = parse_args(args, &mut out, &mut err);
    assert_eq!(result, Err(ArgsError::UnsupportedArgument("-\u{fffd}".to_string())));
}

#[test]
fn forwards_everything_after_the_first_separator_unchanged() {
    let mut out = Vec::new();
    let mut err = Vec::new();
    let raw = vec![
        b"gamescope-gui".to_vec(),
        b"--".to_vec(),
        b"/games/run".to_vec(),
        b"--".to_vec(),
        vec![0xfe, 0x80],
        b"-h".to_vec(),
    ];
    let result = parse_args(raw.clone(), &mut out, &mut err);
    // `-h` after the separator belongs to the game command.
    assert_eq!(
        result,
        Ok(ParseOutcome::Run(LaunchRequest {
            game_command: raw[2..].to_vec()
        }))
    );
    assert!(out.is_empty());

    let raw = vec![
        b"gamescope-gui".to_vec(),
        b"--".to_vec(),
        b"/games/run".to_vec(),
        b"--".to_vec(),
        vec![0xfe, 0x80],
    ];
    let result = parse_args(raw.clone(), &mut out, &mut err).unwrap();
    assert_eq!(
        result,
        ParseOutcome::Run(LaunchRequest {
            game_command: raw[2..].to_vec()
        })
    );
    assert!(err.is_empty());
}

#[test]
fn help_flag_prints_help_and_exits() {
    let mut out = Vec::new();
    let mut err = Vec::new();
    let result = parse_args(os_args(&["my-wrapper", "--help"]), &mut out, &mut err);
    assert_eq!(result, Ok(ParseOutcome::Exit(0)));
    let text = String::from_utf8(out).unwrap();
    assert!(text.contains("Configure Gamescope per Steam game before launching it"));
    assert!(text.contains("Usage: my-wrapper"));
    assert!(text.contains("-h, --help"));
    assert!(text.contains("Everything after `--` is passed unchanged as the game command."));
    assert!(text.ends_with("\n"));
    assert!(err.is_empty());
}

#[test]
fn short_help_wins_over_version_and_errors() {
    let mut out = Vec::new();
    let mut err = Vec::new();
    let result = parse_args(os_args(&["gamescope-gui", "-V", "junk", "-h"]), &mut out, &mut err);
    assert_eq!(result, Ok(ParseOutcome::Exit(0)));
    assert!(String::from_utf8(out).unwrap().contains("Usage: gamescope-gui"));
}

#[test]
fn version_flag_prints_name_and_version() {
    let mut out = Vec::new();
    let mut err = Vec::new();
    let result = parse_args(os_args(&["gamescope-gui", "--version"]), &mut out, &mut err);
    assert_eq!(result, Ok(ParseOutcome::Exit(0)));
    assert_eq!(String::from_utf8(out).unwrap(), "gamescope-gui 0.1.0\n");
    let mut out = Vec::new();
    let result = parse_args(os_args(&["gamescope-gui", "-V"]), &mut out, &mut err);
    assert_eq!(result, Ok(ParseOutcome::Exit(0)));
    assert_eq!(String::from_utf8(out).unwrap(), "gamescope-gui 0.1.0\n");
}

#[test]
fn args_error_messages() {
    assert_eq!(
        ArgsError::Help("broken pipe".to_string()).message(),
        "failed to render help: broken pipe"
    );
    assert_eq!(
        ArgsError::MissingGameCommand.message(),
        "missing game command after `--`; use `gamescope-gui -- %command%`"
    );
}

#[test]
fn help_and_version_after_separator_go_to_the_game() {
    let mut out = Vec::new();
    let mut err = Vec::new();
    let result = parse_args(os_args(&["gamescope-gui", "--", "game", "--help"]), &mut out, &mut err);
    assert_eq!(
        result,
        Ok(ParseOutcome::Run(LaunchRequest {
            game_command: os_args(&["game", "--help"])
        }))
    );
    let result = parse_args(os_args(&["gamescope-gui", "--", "game", "-V"]), &mut out, &mut err);
    assert_eq!(
        result,
        Ok(ParseOutcome::Run(LaunchRequest {
            game_command: os_args(&["game", "-V"])
        }))
    );
    assert!(out.is_empty());
    assert!(err.is_empty());
}

#[test]
fn help_before_separator_still_shows_help() {
    let mut out = Vec::new();
    let mut err = Vec::new();
    let result = parse_args(os_args(&["gamescope-gui", "-h", "--", "game"]), &mut out, &mut err);
    assert_eq!(result, Ok(ParseOutcome::Exit(0)));
    assert!(String::from_utf8(out).unwrap().contains("Usage: gamescope-gui"));
}
