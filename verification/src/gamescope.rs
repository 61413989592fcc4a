//! The Gamescope command line that starts a game, and how its failures
//! and exit status are reported.
use vstd::prelude::*;
use vstd::utf8::encode_utf8;

use crate::args::{byte_args, rest_args, separator_index};
use crate::settings::{gamescope_args, settings_error_text, GamescopeSettings, SettingsError, SettingsErrorView};
use crate::text::{ascii_bytes, ascii_vec, copy_bytes, joined, lossy_text, text_bytes, utf8_lossy};

verus! {

/// A program and its arguments, as raw bytes.
#[derive(Debug, Clone, PartialEq, Eq)]
pub struct GamescopeCommand {
    pub program: Vec<u8>,
    pub args: Vec<Vec<u8>>,
}

/// What the library needs to know of an operating-system error: whether
/// the program was not found, and the error's text.
#[derive(Debug, Clone, PartialEq, Eq)]
pub struct IoFailure {
    pub not_found: bool,
    pub description: String,
}

/// Why Gamescope could not be run.
#[derive(Debug, Clone, PartialEq, Eq)]
pub enum LaunchError {
    Settings(SettingsError),
    Spawn(IoFailure),
    Wait(IoFailure),
}

/// The UTF-8 bytes of each text.
pub open spec fn encoded_args(args: Seq<Seq<char>>) -> Seq<Seq<u8>> {
    args.map_values(|a: Seq<char>| encode_utf8(a))
}

/// The Gamescope arguments for the settings, then `--`, then the game
/// command unchanged.
pub open spec fn command_args(settings_args: Seq<Seq<char>>, game_command: Seq<Seq<u8>>) -> Seq<
    Seq<u8>,
> {
    encoded_args(settings_args) + seq![ascii_bytes("--"@)] + game_command
}

/// Builds `gamescope [settings arguments] -- [game command]`.
pub fn build_gamescope_command(settings: &GamescopeSettings, game_command: &[Vec<u8>]) -> (r:
    Result<GamescopeCommand, SettingsError>)
    ensures
        match r {
            Ok(command) => {
                &&& command.program@ == ascii_bytes("gamescope"@)
                &&& gamescope_args(*settings) matches Ok(a) && byte_args(command.args@)
                    == command_args(a, byte_args(game_command@))
            },
            Err(e) => gamescope_args(*settings) == Err::<Seq<Seq<char>>, SettingsErrorView>(e@),
        },
{
    let options = match settings.to_gamescope_args() {
        Ok(options) => options,
        Err(e) => return Err(e),
    };
    let ghost option_text = options.deep_view();
    let mut args: Vec<Vec<u8>> = Vec::new();
    let mut i: usize = 0;
    while i < options.len()
        invariant
            i <= options@.len(),
            option_text == options.deep_view(),
            byte_args(args@) =~= encoded_args(option_text.subrange(0, i as int)),
        decreases options@.len() - i,
    {
        assert(option_text[i as int] == options@[i as int]@);
        let ghost before = args@;
        let piece = text_bytes(options[i].as_str());
        args.push(piece);
        assert(byte_args(args@) =~= byte_args(before).push(piece@));
        assert(encoded_args(option_text.subrange(0, i + 1)) =~= encoded_args(
            option_text.subrange(0, i as int),
        ).push(encode_utf8(option_text[i as int])));
        i = i + 1;
    }
    assert(option_text.subrange(0, options@.len() as int) =~= option_text);
    proof {
        reveal_strlit("--");
        reveal_strlit("gamescope");
    }
    args.push(ascii_vec("--"));
    let ghost head = byte_args(args@);
    let mut j: usize = 0;
    while j < game_command.len()
        invariant
            j <= game_command@.len(),
            byte_args(args@) =~= head + byte_args(game_command@).subrange(0, j as int),
        decreases game_command@.len() - j,
    {
        let piece = copy_bytes(game_command[j].as_slice());
        assert(piece@ == byte_args(game_command@)[j as int]);
        let ghost before = args@;
        args.push(piece);
        assert(byte_args(args@) =~= byte_args(before).push(piece@));
        assert(byte_args(game_command@).subrange(0, j + 1) =~= byte_args(game_command@).subrange(
            0,
            j as int,
        ).push(piece@));
        j = j + 1;
    }
    assert(byte_args(game_command@).subrange(0, game_command@.len() as int) =~= byte_args(
        game_command@,
    ));
    Ok(GamescopeCommand { program: ascii_vec("gamescope"), args })
}

/// The exit status to report for a finished Gamescope: its exit code, else
/// 128 plus the signal that ended it, else 1.
pub fn process_exit_code(code: Option<i32>, signal: Option<i32>) -> (status: i32)
    requires
        signal matches Some(s) ==> s <= i32::MAX - 128,
    ensures
        status == match (code, signal) {
            (Some(c), _) => c as int,
            (None, Some(s)) => 128 + s,
            (None, None) => 1,
        },
{
    if let Some(code) = code {
        return code;
    }
    if let Some(signal) = signal {
        return 128 + signal;
    }
    1
}

/// An exit status as a process exit code: clamped to `0..=255`.
pub fn exit_code_from_i32(code: i32) -> (byte: u8)
    ensures
        byte == if code < 0 {
            0
        } else if code > 255 {
            255
        } else {
            code
        },
{
    if code < 0 {
        0
    } else if code > 255 {
        255
    } else {
        code as u8
    }
}

/// The message of a [`LaunchError`].
pub open spec fn launch_error_text(e: LaunchError) -> Seq<char> {
    match e {
        LaunchError::Settings(s) => settings_error_text(s@),
        LaunchError::Spawn(f) => "failed to start gamescope: "@ + f.description@,
        LaunchError::Wait(f) => "failed while waiting for gamescope: "@ + f.description@,
    }
}

impl LaunchError {
    /// The message shown for this error.
    pub fn message(&self) -> (text: String)
        ensures
            text@ == launch_error_text(*self),
    {
        match self {
            LaunchError::Settings(s) => s.message(),
            LaunchError::Spawn(f) => {
                let mut text = "failed to start gamescope: ".to_owned();
                text.append(f.description.as_str());
                text
            },
            LaunchError::Wait(f) => {
                let mut text = "failed while waiting for gamescope: ".to_owned();
                text.append(f.description.as_str());
                text
            },
        }
    }
}

/// The text reported when Gamescope could not be run: a clear hint when
/// the program is missing from `PATH`, the error's own message otherwise.
pub open spec fn launch_report(e: LaunchError) -> Seq<char> {
    match e {
        LaunchError::Spawn(f) if f.not_found => "failed to start gamescope: gamescope was not found in PATH"@,
        _ => launch_error_text(e),
    }
}

/// The text reported when Gamescope could not be run.
pub fn render_launch_error(error: &LaunchError) -> (text: String)
    ensures
        text@ == launch_report(*error),
{
    match error {
        LaunchError::Spawn(f) if f.not_found => {
            "failed to start gamescope: gamescope was not found in PATH".to_owned()
        },
        _ => error.message(),
    }
}

/// The game command as shown to the user: each argument decoded (invalid
/// UTF-8 replaced) and joined with spaces.
pub fn render_command_preview(command: &[Vec<u8>]) -> (text: String)
    ensures
        text@ == joined(byte_args(command@).map_values(|a: Seq<u8>| utf8_lossy(a)), " "@),
{
    let ghost items = byte_args(command@).map_values(|a: Seq<u8>| utf8_lossy(a));
    let mut text = String::new();
    let mut i: usize = 0;
    while i < command.len()
        invariant
            i <= command@.len(),
            items == byte_args(command@).map_values(|a: Seq<u8>| utf8_lossy(a)),
            text@ == joined(items.subrange(0, i as int), " "@),
        decreases command@.len() - i,
    {
        let ghost before = text@;
        if i > 0 {
            text.append(" ");
        }
        let part = lossy_text(command[i].as_slice());
        text.append(part.as_str());
        proof {
            let done = items.subrange(0, i + 1);
            assert(done.drop_last() =~= items.subrange(0, i as int));
            if i == 0 {
                assert(text@ =~= done[0]);
            } else {
                assert(text@ =~= before + " "@ + done.last());
            }
        }
        i = i + 1;
    }
    assert(items.subrange(0, command@.len() as int) =~= items);
    text
}

/// Everything after the first `--` of an accepted wrapper command line
/// reaches Gamescope unchanged, right after a `--` that follows the
/// settings' own options.
pub proof fn lemma_game_command_passes_through(args: Seq<Seq<u8>>, options: Seq<Seq<char>>)
    requires
        separator_index(rest_args(args)) == 0,
        rest_args(args).len() > 1,
    ensures
        ({
            let rest = rest_args(args);
            let game = rest.subrange(1, rest.len() as int);
            let command = command_args(options, game);
            &&& command.subrange(0, options.len() as int) == encoded_args(options)
            &&& command[options.len() as int] == ascii_bytes("--"@)
            &&& command.subrange(options.len() as int + 1, command.len() as int) == game
            &&& game == args.subrange(2, args.len() as int)
        }),
{
    let rest = rest_args(args);
    let game = rest.subrange(1, rest.len() as int);
    let command = command_args(options, game);
    assert(command.subrange(0, options.len() as int) =~= encoded_args(options));
    assert(command.subrange(options.len() as int + 1, command.len() as int) =~= game);
    assert(game =~= args.subrange(2, args.len() as int));
}

} // verus!
