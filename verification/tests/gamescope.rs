use gamescope_gui::gamescope::{
    build_gamescope_command, exit_code_from_i32, process_exit_code, render_command_preview,
    render_launch_error, IoFailure, LaunchError,
};
use gamescope_gui::settings::{GamescopeSettings, Resolution, SettingsError, WindowMode};

fn os_args(args: &[&str]) -> Vec<Vec<u8>> {
    args.iter().map(|arg| arg.as_bytes().to_vec()).collect()
}

#[test]
fn inserts_separator_before_game_command() {
    let settings = GamescopeSettings {
        output_resolution: Some(Resolution {
            width: 1920,
            height: 1080,
        }),
        window_mode: WindowMode::Borderless,
        steam: true,
        ..Default::default()
    };

    let command = build_gamescope_command(&settings, &os_args(&["game", "-safe"]))
        .expect("valid command");
    let rendered: Vec<String> = command
        .args
        .iter()
        .map(|arg| String::from_utf8_lossy(arg).into_owned())
        .collect();

    assert_eq!(
        rendered,
        vec![
            "-W", "1920", "-H", "1080", "-b", "--steam", "--", "game", "-safe"
        ]
    );
    assert_eq!(command.program, b"gamescope".to_vec());
}

#[test]
fn game_command_bytes_pass_unchanged() {
    let game = vec![b"/opt/game".to_vec(), vec![0xff, 0x00, 0x41], b"--".to_vec()];
    let command = build_gamescope_command(&GamescopeSettings::default(), &game).unwrap();
    let mut expected = vec![b"--".to_vec()];
    expected.extend(game.iter().cloned());
    assert_eq!(command.args, expected);
}

#[test]
fn build_reports_settings_errors() {
    let settings = GamescopeSettings {
        nested_refresh: Some(0),
        ..Default::default()
    };
    assert_eq!(
        build_gamescope_command(&settings, &os_args(&["game"])),
        Err(SettingsError::EmptyRefresh)
    );
}

#[test]
fn exit_codes() {
    assert_eq!(process_exit_code(Some(3), Some(9)), 3);
    assert_eq!(process_exit_code(None, Some(9)), 137);
    assert_eq!(process_exit_code(None, None), 1);
    assert_eq!(exit_code_from_i32(-4), 0);
    assert_eq!(exit_code_from_i32(300), 255);
    assert_eq!(exit_code_from_i32(42), 42);
}

#[test]
fn launch_errors_are_rendered() {
    let missing = LaunchError::Spawn(IoFailure {
        not_found: true,
        description: "No such file or directory (os error 2)".to_string(),
    });
    assert_eq!(
        render_launch_error(&missing),
        "failed to start gamescope: gamescope was not found in PATH"
    );
    let denied = LaunchError::Spawn(IoFailure {
        not_found: false,
        description: "Permission denied (os error 13)".to_string(),
    });
    assert_eq!(
        render_launch_error(&denied),
        "failed to start gamescope: Permission denied (os error 13)"
    );
    let wait = LaunchError::Wait(IoFailure {
        not_found: true,
        description: "interrupted".to_string(),
    });
    assert_eq!(render_launch_error(&wait), "failed while waiting for gamescope: interrupted");
    let settings = LaunchError::Settings(SettingsError::EmptyResolution);
    assert_eq!(render_launch_error(&settings), "resolution must be greater than zero");
}

#[test]
fn command_preview_joins_arguments() {
    assert_eq!(render_command_preview(&os_args(&["game", "-safe", "a b"])), "game -safe a b");
    assert_eq!(render_command_preview(&[]), "");
    assert_eq!(render_command_preview(&[vec![0x61, 0xff]]), "a\u{fffd}");
}
