//! The wrapper's own command line: `gamescope-gui -- GAME COMMAND...`.
//!
//! Arguments are raw bytes, as the operating system hands them over, so
//! that the game command is forwarded unchanged.
use vstd::prelude::*;
use vstd::utf8::encode_utf8;

use crate::text::{ascii_bytes, bytes_equal_ascii, copy_bytes, lossy_text, text_bytes, utf8_lossy};

verus! {

/// The wrapper's program name.
pub const PROGRAM_NAME: &'static str = "gamescope-gui";

/// The wrapper's version.
pub const PROGRAM_VERSION: &'static str = "0.1.0";

/// What the help screen says the wrapper is for.
pub const ABOUT: &'static str = "Configure Gamescope per Steam game before launching it";

/// What the help screen says after the options.
pub const AFTER_HELP: &'static str =
    "Steam launch option:\n  gamescope-gui -- %command%\n\nEverything after `--` is passed unchanged as the game command.";

/// The short name of the help flag.
pub const HELP_SHORT: char = 'h';

/// The long name of the help flag.
pub const HELP_LONG: &'static str = "help";

/// What the help screen says of the help flag.
pub const HELP_DESCRIPTION: &'static str = "Print help";

/// The game command to start, everything after `--`.
#[derive(Debug, Clone, PartialEq, Eq)]
pub struct LaunchRequest {
    pub game_command: Vec<Vec<u8>>,
}

/// Why the wrapper's command line is refused.
#[derive(Debug, Clone, PartialEq, Eq)]
pub enum ArgsError {
    MissingSeparator,
    MissingGameCommand,
    UnsupportedArgument(String),
    Help(String),
}

/// The mathematical value of an [`ArgsError`].
pub enum ArgsErrorView {
    MissingSeparator,
    MissingGameCommand,
    UnsupportedArgument(Seq<char>),
    Help(Seq<char>),
}

impl View for ArgsError {
    type V = ArgsErrorView;

    open spec fn view(&self) -> ArgsErrorView {
        match self {
            ArgsError::MissingSeparator => ArgsErrorView::MissingSeparator,
            ArgsError::MissingGameCommand => ArgsErrorView::MissingGameCommand,
            ArgsError::UnsupportedArgument(a) => ArgsErrorView::UnsupportedArgument(a@),
            ArgsError::Help(m) => ArgsErrorView::Help(m@),
        }
    }
}

/// What to do after reading the command line: run a game, or exit with a
/// status because help or the version was shown.
#[derive(Debug, Clone, PartialEq, Eq)]
pub enum ParseOutcome {
    Run(LaunchRequest),
    Exit(i32),
}

/// The message of an [`ArgsError`].
pub open spec fn args_error_text(e: ArgsErrorView) -> Seq<char> {
    match e {
        ArgsErrorView::MissingSeparator => "missing `--`; use `gamescope-gui -- %command%` in Steam launch options"@,
        ArgsErrorView::MissingGameCommand => "missing game command after `--`; use `gamescope-gui -- %command%`"@,
        ArgsErrorView::UnsupportedArgument(a) => "unsupported wrapper argument `"@ + a
            + "` before `--`"@,
        ArgsErrorView::Help(m) => "failed to render help: "@ + m,
    }
}

impl ArgsError {
    /// The message shown for this error.
    pub fn message(&self) -> (text: String)
        ensures
            text@ == args_error_text(self@),
    {
        match self {
            ArgsError::MissingSeparator => {
                "missing `--`; use `gamescope-gui -- %command%` in Steam launch options".to_owned()
            },
            ArgsError::MissingGameCommand => {
                "missing game command after `--`; use `gamescope-gui -- %command%`".to_owned()
            },
            ArgsError::UnsupportedArgument(a) => {
                let mut text = "unsupported wrapper argument `".to_owned();
                text.append(a.as_str());
                text.append("` before `--`");
                text
            },
            ArgsError::Help(m) => {
                let mut text = "failed to render help: ".to_owned();
                text.append(m.as_str());
                text
            },
        }
    }
}

/// The bytes of each argument.
pub open spec fn byte_args(args: Seq<Vec<u8>>) -> Seq<Seq<u8>> {
    args.map_values(|a: Vec<u8>| a@)
}

/// The arguments after the program name.
pub open spec fn rest_args(args: Seq<Seq<u8>>) -> Seq<Seq<u8>> {
    if args.len() == 0 {
        Seq::empty()
    } else {
        args.drop_first()
    }
}

/// The program name that help is shown for.
pub open spec fn program_name(args: Seq<Seq<u8>>) -> Seq<char> {
    if args.len() == 0 {
        PROGRAM_NAME@
    } else {
        utf8_lossy(args[0])
    }
}

/// Whether one of `args` is exactly `short` or `long`.
pub open spec fn has_flag(args: Seq<Seq<u8>>, short: Seq<char>, long: Seq<char>) -> bool {
    exists|i: int|
        0 <= i < args.len() && (#[trigger] args[i] == ascii_bytes(short) || args[i] == ascii_bytes(
            long,
        ))
}

/// The position of the first `--` in `args`, or -1 when there is none.
pub open spec fn separator_index(args: Seq<Seq<u8>>) -> int
    decreases args.len(),
{
    if args.len() == 0 {
        -1
    } else if args[0] == ascii_bytes("--"@) {
        0
    } else if separator_index(args.drop_first()) < 0 {
        -1
    } else {
        separator_index(args.drop_first()) + 1
    }
}

/// The wrapper's own arguments: those before the first `--`, or all of
/// them when there is none.
pub open spec fn wrapper_options(rest: Seq<Seq<u8>>) -> Seq<Seq<u8>> {
    if separator_index(rest) < 0 {
        rest
    } else {
        rest.subrange(0, separator_index(rest))
    }
}

/// What `clap` renders as the long help of the wrapper's command, whose
/// name, version, description, closing text and help flag (short name,
/// long name, description) are given, shown for the program name
/// `bin_name`.
pub uninterp spec fn clap_long_help(
    name: Seq<char>,
    version: Seq<char>,
    about: Seq<char>,
    after_help: Seq<char>,
    help_short: char,
    help_long: Seq<char>,
    help_description: Seq<char>,
    bin_name: Seq<char>,
) -> Seq<char>;

/// The wrapper's help screen for a program name.
pub open spec fn help_text(bin_name: Seq<char>) -> Seq<char> {
    clap_long_help(
        PROGRAM_NAME@,
        PROGRAM_VERSION@,
        ABOUT@,
        AFTER_HELP@,
        HELP_SHORT,
        HELP_LONG@,
        HELP_DESCRIPTION@,
        bin_name,
    )
}

/// The version line: name, a space, the version.
pub open spec fn version_text() -> Seq<char> {
    PROGRAM_NAME@ + " "@ + PROGRAM_VERSION@
}

/// The bytes of a line of text: its UTF-8 encoding and a newline.
pub open spec fn line_bytes(text: Seq<char>) -> Seq<u8> {
    encode_utf8(text) + seq![10u8]
}

/// Renders the long help of the wrapper's command with `clap`.
///
/// Trusted: builds a `clap::Command` with the given name, version,
/// description and closing text, no version flag, and a help flag of its
/// own with the given short and long names and description, and calls
/// `Command::render_long_help` for the program name `bin_name`. Its
/// contract claims that the text is a function of these arguments alone
/// (clap renders it without colour and, without its `wrap_help` feature,
/// at a fixed width); what the text says is left to clap. Clap panics on a
/// short name `-` and on a long name that starts with `-`; those are left
/// out.
#[verifier::external_body]
fn render_long_help(
    name: &'static str,
    version: &'static str,
    about: &'static str,
    after_help: &'static str,
    help_short: char,
    help_long: &'static str,
    help_description: &'static str,
    bin_name: &str,
) -> (help: String)
    requires
        help_short != '-',
        help_long@.len() > 0,
        help_long@[0] != '-',
    ensures
        help@ == clap_long_help(
            name@,
            version@,
            about@,
            after_help@,
            help_short,
            help_long@,
            help_description@,
            bin_name@,
        ),
{
    let help_flag = clap::Arg::new("help").short(help_short).long(help_long).action(
        clap::ArgAction::Help,
    ).help(help_description);
    let mut command = clap::Command::new(name).version(version).about(about).disable_help_flag(
        true,
    ).disable_version_flag(true).arg(help_flag).after_help(after_help).bin_name(bin_name);
    command.render_long_help().to_string()
}

/// Appends a line of text to an output buffer.
fn write_line(out: &mut Vec<u8>, text: &str)
    ensures
        final(out)@ == old(out)@ + line_bytes(text@),
{
    let mut bytes = text_bytes(text);
    out.append(&mut bytes);
    out.push(10u8);
}

/// Whether an argument at an index in `1..end` of `args` is exactly
/// `short` or `long`.
fn find_flag(args: &Vec<Vec<u8>>, end: usize, short: &str, long: &str) -> (found: bool)
    requires
        short.is_ascii(),
        long.is_ascii(),
        1 <= end <= args@.len(),
    ensures
        found == has_flag(byte_args(args@).subrange(1, end as int), short@, long@),
{
    let ghost options = byte_args(args@).subrange(1, end as int);
    let mut i: usize = 1;
    while i < end
        invariant
            short.is_ascii(),
            long.is_ascii(),
            1 <= i <= end,
            end <= args@.len(),
            options == byte_args(args@).subrange(1, end as int),
            forall|j: int|
                0 <= j < i - 1 ==> options[j] != ascii_bytes(short@) && options[j]
                    != ascii_bytes(long@),
        decreases end - i,
    {
        let arg = args[i].as_slice();
        assert(options[i - 1] == byte_args(args@)[i as int]);
        if bytes_equal_ascii(arg, short) || bytes_equal_ascii(arg, long) {
            return true;
        }
        i = i + 1;
    }
    false
}

proof fn lemma_separator_index(args: Seq<Seq<u8>>)
    ensures
        separator_index(args) >= -1,
        separator_index(args) < args.len(),
        separator_index(args) < 0 ==> forall|k: int|
            0 <= k < args.len() ==> args[k] != ascii_bytes("--"@),
        separator_index(args) >= 0 ==> args[separator_index(args)] == ascii_bytes("--"@),
        separator_index(args) >= 0 ==> forall|k: int|
            0 <= k < separator_index(args) ==> args[k] != ascii_bytes("--"@),
    decreases args.len(),
{
    if args.len() > 0 && args[0] != ascii_bytes("--"@) {
        lemma_separator_index(args.drop_first());
        assert forall|k: int| 1 <= k < args.len() implies args[k] == args.drop_first()[k - 1] by {}
    }
}

proof fn lemma_separator_index_is(args: Seq<Seq<u8>>, r: int)
    requires
        0 <= r < args.len(),
        args[r] == ascii_bytes("--"@),
        forall|k: int| 0 <= k < r ==> args[k] != ascii_bytes("--"@),
    ensures
        separator_index(args) == r,
{
    lemma_separator_index(args);
}

/// The position in `args` of the first `--` after the program name.
fn find_separator(args: &Vec<Vec<u8>>) -> (r: Option<usize>)
    requires
        byte_args(args@).len() > 0,
    ensures
        match r {
            Some(i) => 1 <= i < byte_args(args@).len() && i - 1 == separator_index(rest_args(byte_args(args@))),
            None => separator_index(rest_args(byte_args(args@))) < 0,
        },
{
    let ghost rest = rest_args(byte_args(args@));
    proof {
        reveal_strlit("--");
    }
    let mut i: usize = 1;
    while i < args.len()
        invariant
            "--".is_ascii(),
            1 <= i <= byte_args(args@).len(),
            rest == rest_args(byte_args(args@)),
            rest.len() == byte_args(args@).len() - 1,
            forall|j: int| 0 <= j < i - 1 ==> rest[j] != ascii_bytes("--"@),
        decreases byte_args(args@).len() - i,
    {
        if bytes_equal_ascii(args[i].as_slice(), "--") {
            proof {
                assert(rest[i - 1] == byte_args(args@)[i as int]);
                lemma_separator_index_is(rest, i - 1);
            }
            return Some(i);
        }
        assert(rest[i - 1] == byte_args(args@)[i as int]);
        i = i + 1;
    }
    proof {
        lemma_separator_index(rest);
        if separator_index(rest) >= 0 {
            let r = separator_index(rest);
            assert(rest[r] == ascii_bytes("--"@));
        }
    }
    None
}

/// Reads the wrapper's command line (`args[0]` is the program name).
///
/// `-h`/`--help` before the first `--` writes the help screen to `stdout`
/// and asks to exit with 0; otherwise `-V`/`--version` before it writes the
/// version line and asks the same. Otherwise the command line must be
/// `PROGRAM -- GAME...`: no `--` is [`ArgsError::MissingSeparator`], an
/// argument before it is [`ArgsError::UnsupportedArgument`] (the first
/// one), nothing after it is [`ArgsError::MissingGameCommand`]; each
/// error's message is written as a line to `stderr`. Everything after the
/// first `--` is the game command, unchanged.
pub fn parse_args(args: Vec<Vec<u8>>, stdout: &mut Vec<u8>, stderr: &mut Vec<u8>) -> (r: Result<
    ParseOutcome,
    ArgsError,
>)
    ensures
        ({
            let rest = rest_args(byte_args(args@));
            let sep = separator_index(rest);
            let options = wrapper_options(rest);
            if has_flag(options, "-h"@, "--help"@) {
                &&& r == Ok::<ParseOutcome, ArgsError>(ParseOutcome::Exit(0))
                &&& final(stdout)@ == old(stdout)@ + line_bytes(help_text(program_name(byte_args(args@))))
                &&& final(stderr)@ == old(stderr)@
            } else if has_flag(options, "-V"@, "--version"@) {
                &&& r == Ok::<ParseOutcome, ArgsError>(ParseOutcome::Exit(0))
                &&& final(stdout)@ == old(stdout)@ + line_bytes(version_text())
                &&& final(stderr)@ == old(stderr)@
            } else {
                &&& final(stdout)@ == old(stdout)@
                &&& if sep < 0 {
                    &&& r matches Err(e) && e@ == ArgsErrorView::MissingSeparator
                    &&& final(stderr)@ == old(stderr)@ + line_bytes(
                        args_error_text(ArgsErrorView::MissingSeparator),
                    )
                } else if sep > 0 {
                    let e = ArgsErrorView::UnsupportedArgument(utf8_lossy(rest[0]));
                    &&& r matches Err(x) && x@ == e
                    &&& final(stderr)@ == old(stderr)@ + line_bytes(args_error_text(e))
                } else if rest.len() == 1 {
                    &&& r matches Err(e) && e@ == ArgsErrorView::MissingGameCommand
                    &&& final(stderr)@ == old(stderr)@ + line_bytes(
                        args_error_text(ArgsErrorView::MissingGameCommand),
                    )
                } else {
                    &&& r matches Ok(ParseOutcome::Run(request)) && byte_args(
                        request.game_command@,
                    ) == rest.subrange(1, rest.len() as int)
                    &&& final(stderr)@ == old(stderr)@
                }
            }
        }),
{
    proof {
        reveal_strlit("-h");
        reveal_strlit("--help");
        reveal_strlit("-V");
        reveal_strlit("--version");
        reveal_strlit("help");
    }
    let ghost rest = rest_args(byte_args(args@));
    let separator: Option<usize> = if args.len() == 0 {
        None
    } else {
        find_separator(&args)
    };
    let end: usize = match separator {
        Some(i) => i,
        None => args.len(),
    };
    proof {
        lemma_separator_index(rest);
        if args.len() > 0 {
            assert(byte_args(args@).subrange(1, end as int) =~= wrapper_options(rest));
        }
    }
    if end > 1 && find_flag(&args, end, "-h", "--help") {
        let program = if args.len() > 0 {
            lossy_text(args[0].as_slice())
        } else {
            PROGRAM_NAME.to_owned()
        };
        let help = render_long_help(
            PROGRAM_NAME,
            PROGRAM_VERSION,
            ABOUT,
            AFTER_HELP,
            HELP_SHORT,
            HELP_LONG,
            HELP_DESCRIPTION,
            program.as_str(),
        );
        write_line(stdout, help.as_str());
        return Ok(ParseOutcome::Exit(0));
    }
    if end > 1 && find_flag(&args, end, "-V", "--version") {
        let mut line = PROGRAM_NAME.to_owned();
        line.append(" ");
        line.append(PROGRAM_VERSION);
        write_line(stdout, line.as_str());
        return Ok(ParseOutcome::Exit(0));
    }
    let separator = match separator {
        Some(i) => i,
        None => {
            let error = ArgsError::MissingSeparator;
            let message = error.message();
            write_line(stderr, message.as_str());
            return Err(error);
        },
    };
    if separator > 1 {
        assert(rest[0] == byte_args(args@)[1]);
        let rendered = lossy_text(args[1].as_slice());
        let error = ArgsError::UnsupportedArgument(rendered);
        let message = error.message();
        write_line(stderr, message.as_str());
        return Err(error);
    }
    if separator + 1 == args.len() {
        let error = ArgsError::MissingGameCommand;
        let message = error.message();
        write_line(stderr, message.as_str());
        return Err(error);
    }
    let mut args = args;
    let game_command = args.split_off(separator + 1);
    assert(byte_args(game_command@) =~= rest.subrange(separator as int, rest.len() as int));
    Ok(ParseOutcome::Run(LaunchRequest { game_command }))
}

} // verus!
