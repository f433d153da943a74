//! The setup program's command line and the decisions of its install step.
//!
//! ```text
//! setup install [--user-only] [--quantized]
//! setup uninstall [--purge]
//! setup default-voice [TOKEN]
//! setup test [TOKEN]
//! ```
//!
//! `machine-register ASSETS` and `machine-unregister` are what the elevated
//! child process runs.

use vstd::prelude::*;

use crate::text::{push_str, str_eq, str_starts_with};

verus! {

/// The voice that becomes the default and is spoken in the smoke test when
/// no token is given.
pub const DEFAULT_TOKEN: &'static str = "KokoroHeart";

/// What the setup program was asked to do.
#[derive(Debug)]
pub enum Command {
    /// Download assets, install the DLL, register the voices, set the default.
    Install { user_only: bool, quantized: bool },
    /// Remove the registrations; with `purge` also the assets.
    Uninstall { purge: bool },
    /// Make `token` the default voice.
    DefaultVoice { token: String },
    /// Speak a test sentence with `token`.
    Test { token: String },
    /// The elevated child's part of `install`: machine-wide tokens for `assets`.
    MachineRegister { assets: String },
    /// The elevated child's part of `uninstall`.
    MachineUnregister,
    /// Unknown command: print the usage and exit with code 2.
    Usage,
}

/// The first argument, or the empty string.
pub open spec fn command_word(args: Seq<Seq<char>>) -> Seq<char> {
    if args.len() > 0 {
        args[0]
    } else {
        Seq::empty()
    }
}

/// Whether some argument is `name`.
pub open spec fn has_flag(args: Seq<Seq<char>>, name: Seq<char>) -> bool {
    exists|i: int| 0 <= i < args.len() && #[trigger] args[i] == name
}

/// The voice token argument: the second argument unless it is missing or
/// starts with `--`, in which case the default token.
pub open spec fn token_arg_spec(args: Seq<Seq<char>>) -> Seq<char> {
    if args.len() > 1 && !"--"@.is_prefix_of(args[1]) {
        args[1]
    } else {
        DEFAULT_TOKEN@
    }
}

/// The second argument, or the empty string.
pub open spec fn second_arg(args: Seq<Seq<char>>) -> Seq<char> {
    if args.len() > 1 {
        args[1]
    } else {
        Seq::empty()
    }
}

/// The views of the arguments.
pub open spec fn args_view(args: Seq<String>) -> Seq<Seq<char>> {
    args.map_values(|s: String| s@)
}

/// The command that the arguments (the program name left out) ask for.
pub open spec fn command_spec_holds(args: Seq<Seq<char>>, c: Command) -> bool {
    let w = command_word(args);
    if w == "install"@ {
        c == Command::Install {
            user_only: has_flag(args, "--user-only"@),
            quantized: has_flag(args, "--quantized"@),
        }
    } else if w == "uninstall"@ {
        c == Command::Uninstall { purge: has_flag(args, "--purge"@) }
    } else if w == "default-voice"@ {
        c matches Command::DefaultVoice { token } && token@ == token_arg_spec(args)
    } else if w == "test"@ {
        c matches Command::Test { token } && token@ == token_arg_spec(args)
    } else if w == "machine-register"@ {
        c matches Command::MachineRegister { assets } && assets@ == second_arg(args)
    } else if w == "machine-unregister"@ {
        c is MachineUnregister
    } else {
        c is Usage
    }
}

/// Whether some argument is `name`.
fn flag(args: &Vec<String>, name: &str) -> (r: bool)
    ensures
        r == has_flag(args_view(args@), name@),
{
    let ghost av = args_view(args@);
    let mut i: usize = 0;
    while i < args.len()
        invariant
            i <= args@.len(),
            av == args_view(args@),
            forall|j: int| 0 <= j < i ==> av[j] != name@,
        decreases args@.len() - i,
    {
        if str_eq(args[i].as_str(), name) {
            assert(av[i as int] == name@);
            return true;
        }
        i = i + 1;
    }
    false
}

/// A `String` with the characters of `s`.
fn owned(s: &str) -> (r: String)
    ensures
        r@ == s@,
{
    let mut r = String::new();
    push_str(&mut r, s);
    r
}

/// The voice token argument, defaulting to `DEFAULT_TOKEN`.
fn token_arg(args: &Vec<String>) -> (r: String)
    ensures
        r@ == token_arg_spec(args_view(args@)),
{
    if args.len() > 1 && !str_starts_with(args[1].as_str(), "--") {
        args[1].clone()
    } else {
        owned(DEFAULT_TOKEN)
    }
}

/// Reads the command from the arguments that follow the program name.
/// Flags may stand anywhere; the voice token is the second argument.
pub fn parse_command(args: &Vec<String>) -> (r: Command)
    ensures
        command_spec_holds(args_view(args@), r),
{
    let ghost av = args_view(args@);
    let word: &str = if args.len() > 0 {
        args[0].as_str()
    } else {
        ""
    };
    proof {
        reveal_strlit("");
    }
    assert(word@ == command_word(av));
    if str_eq(word, "install") {
        Command::Install { user_only: flag(args, "--user-only"), quantized: flag(args, "--quantized") }
    } else if str_eq(word, "uninstall") {
        Command::Uninstall { purge: flag(args, "--purge") }
    } else if str_eq(word, "default-voice") {
        Command::DefaultVoice { token: token_arg(args) }
    } else if str_eq(word, "test") {
        Command::Test { token: token_arg(args) }
    } else if str_eq(word, "machine-register") {
        let assets = if args.len() > 1 {
            args[1].clone()
        } else {
            String::new()
        };
        Command::MachineRegister { assets }
    } else if str_eq(word, "machine-unregister") {
        Command::MachineUnregister
    } else {
        Command::Usage
    }
}

/// How `install` registers the voices machine-wide.
#[derive(Debug, Clone, Copy, PartialEq, Eq)]
pub enum MachineStep {
    /// `--user-only`: skipped, so Chrome will not see the voices.
    Skip,
    /// Already elevated: register directly.
    Direct,
    /// Re-run the setup program elevated (one UAC prompt).
    Elevate,
}

/// How `install` registers the voices machine-wide: skipped with
/// `--user-only`, directly when already elevated, else through an elevated
/// child process.
pub fn machine_step(user_only: bool, elevated: bool) -> (r: MachineStep)
    ensures
        user_only ==> r == MachineStep::Skip,
        !user_only && elevated ==> r == MachineStep::Direct,
        !user_only && !elevated ==> r == MachineStep::Elevate,
{
    if user_only {
        MachineStep::Skip
    } else if elevated {
        MachineStep::Direct
    } else {
        MachineStep::Elevate
    }
}

/// What `install` does once the elevated child of the machine step is done.
#[derive(Debug, Clone, Copy, PartialEq, Eq)]
pub enum ElevatedOutcome {
    /// The child exited with 0: go on to set the default voice.
    Registered,
    /// The child exited with another code: `install` fails with it.
    Failed { code: u32 },
    /// The child could not be started (the UAC prompt was declined, say):
    /// `install` goes on without the machine-wide voices.
    Skipped,
}

/// What `install` does with the elevated child's result: its exit code, or
/// `None` where the child could not be run at all.
pub fn elevated_outcome(exit_code: Option<u32>) -> (r: ElevatedOutcome)
    ensures
        r == match exit_code {
            Some(c) => if c == 0 {
                ElevatedOutcome::Registered
            } else {
                ElevatedOutcome::Failed { code: c }
            },
            None => ElevatedOutcome::Skipped,
        },
{
    match exit_code {
        Some(0) => ElevatedOutcome::Registered,
        Some(code) => ElevatedOutcome::Failed { code },
        None => ElevatedOutcome::Skipped,
    }
}

/// The parameters of the elevated child for the machine step:
/// `machine-register "ASSETS"`.
pub fn machine_register_params(assets: &str) -> (r: String)
    ensures
        r@ == "machine-register \""@ + assets@ + "\""@,
{
    let mut s = owned("machine-register \"");
    push_str(&mut s, assets);
    push_str(&mut s, "\"");
    s
}

/// The voice that `install` makes the default, and that a missing token
/// argument stands for, is one of the registered voices, so `set_default`
/// accepts it.
pub proof fn lemma_default_token_is_registered()
    ensures
        crate::registry::is_voice_token(DEFAULT_TOKEN@),
{
    assert(crate::registry::spec_voices()[0].token@ == DEFAULT_TOKEN@);
}

/// For `install`, `user_only` holds exactly when some argument is
/// `--user-only`, and `quantized` exactly when some argument is
/// `--quantized`; neither flag affects the other.
pub proof fn lemma_install_flags(args: Seq<Seq<char>>, c: Command)
    requires
        args.len() > 0,
        args[0] == "install"@,
        command_spec_holds(args, c),
    ensures
        c matches Command::Install { user_only, quantized } && (user_only <==> exists|i: int|
            0 <= i < args.len() && args[i] == "--user-only"@) && (quantized <==> exists|i: int|
            0 <= i < args.len() && args[i] == "--quantized"@),
{
}

/// Adding `--quantized` to an `install` command line leaves `user_only` as it
/// was, and adding `--user-only` leaves `quantized` as it was.
pub proof fn lemma_install_flags_independent(args: Seq<Seq<char>>, c1: Command, c2: Command, c3: Command)
    requires
        args.len() > 0,
        args[0] == "install"@,
        command_spec_holds(args, c1),
        command_spec_holds(args.push("--quantized"@), c2),
        command_spec_holds(args.push("--user-only"@), c3),
    ensures
        c1 matches Command::Install { user_only: u1, quantized: q1 } && c2 matches Command::Install {
            user_only: u2,
            quantized: q2,
        } && c3 matches Command::Install { user_only: u3, quantized: q3 } && u1 == u2 && q2 && q1 == q3
            && u3,
{
    reveal_strlit("--quantized");
    reveal_strlit("--user-only");
    assert("--quantized"@ != "--user-only"@) by {
        assert("--quantized"@[2] != "--user-only"@[2]);
    }
    let a2 = args.push("--quantized"@);
    let a3 = args.push("--user-only"@);
    assert(a2[0] == "install"@);
    assert(a3[0] == "install"@);
    assert(a2[args.len() as int] == "--quantized"@);
    assert(a3[args.len() as int] == "--user-only"@);
    if has_flag(a2, "--user-only"@) {
        let i = choose|i: int| 0 <= i < a2.len() && #[trigger] a2[i] == "--user-only"@;
        assert(i < args.len());
        assert(args[i] == a2[i]);
    }
    if has_flag(args, "--user-only"@) {
        let i = choose|i: int| 0 <= i < args.len() && #[trigger] args[i] == "--user-only"@;
        assert(a2[i] == args[i]);
    }
    if has_flag(a3, "--quantized"@) {
        let i = choose|i: int| 0 <= i < a3.len() && #[trigger] a3[i] == "--quantized"@;
        assert(i < args.len());
        assert(args[i] == a3[i]);
    }
    if has_flag(args, "--quantized"@) {
        let i = choose|i: int| 0 <= i < args.len() && #[trigger] args[i] == "--quantized"@;
        assert(a3[i] == args[i]);
    }
}

} // verus!
