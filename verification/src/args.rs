//! Command-line arguments.
use crate::text::{eq_str, from_chars, has_prefix, parse_u64, parse_u64_spec, slice_to_vec, starts_with_str, to_chars};
use vstd::prelude::*;

verus! {

/// What the program is asked to do.
#[derive(Debug, Clone, Copy, PartialEq, Eq, Structural)]
pub enum Mode {
    Gui,
    Screenshot,
}

/// The parsed command line.
#[derive(Debug, Clone, Copy, PartialEq, Eq, Structural)]
pub struct Args {
    pub mode: Mode,
    pub debug_mode: bool,
    pub debug_mode_timeout_secs: Option<u64>,
    /// The backend that `--impl=rust` (true) or `--impl=shell` (false)
    /// asks for; `None` when the command line names none.
    pub use_rust_impl: Option<bool>,
}

/// The result of reading the command line.
#[derive(Debug, Clone, PartialEq, Eq)]
pub enum ArgsOutcome {
    /// Run with these settings.
    Run(Args),
    /// `--help` or `-h`: print the help text and stop.
    ShowHelp,
    /// `--version` or `-v`: print the version and stop.
    ShowVersion,
    /// `--timeout=` followed by something that is not a number.
    InvalidTimeout(String),
    /// `--impl=` followed by something other than `rust` or `shell`.
    InvalidImpl(String),
    /// An argument the program does not know (print the help text too).
    UnknownArgument(String),
}

/// The outcome as plain values.
pub enum ArgsOutcomeView {
    Run(Args),
    ShowHelp,
    ShowVersion,
    InvalidTimeout(Seq<char>),
    InvalidImpl(Seq<char>),
    UnknownArgument(Seq<char>),
}

impl View for ArgsOutcome {
    type V = ArgsOutcomeView;

    open spec fn view(&self) -> ArgsOutcomeView {
        match self {
            ArgsOutcome::Run(a) => ArgsOutcomeView::Run(*a),
            ArgsOutcome::ShowHelp => ArgsOutcomeView::ShowHelp,
            ArgsOutcome::ShowVersion => ArgsOutcomeView::ShowVersion,
            ArgsOutcome::InvalidTimeout(s) => ArgsOutcomeView::InvalidTimeout(s@),
            ArgsOutcome::InvalidImpl(s) => ArgsOutcomeView::InvalidImpl(s@),
            ArgsOutcome::UnknownArgument(s) => ArgsOutcomeView::UnknownArgument(s@),
        }
    }
}

pub open spec fn timeout_prefix() -> Seq<char> {
    "--timeout="@
}

pub open spec fn impl_prefix() -> Seq<char> {
    "--impl="@
}

/// Reads `rest` (the arguments still to read) given what was read so far:
/// help and version stop at once, flags set the mode, debug mode, timeout
/// and backend, and the first bad argument stops with its error. The last
/// mode flag wins; the mode is the GUI when no flag names one.
pub open spec fn args_from(
    rest: Seq<Seq<char>>,
    mode: Option<Mode>,
    debug: bool,
    timeout: Option<u64>,
    rust_impl: Option<bool>,
) -> ArgsOutcomeView
    decreases rest.len(),
{
    if rest.len() == 0 {
        ArgsOutcomeView::Run(
            Args {
                mode: match mode {
                    Some(m) => m,
                    None => Mode::Gui,
                },
                debug_mode: debug,
                debug_mode_timeout_secs: timeout,
                use_rust_impl: rust_impl,
            },
        )
    } else {
        let a = rest[0];
        let tail = rest.drop_first();
        if a == "--help"@ || a == "-h"@ {
            ArgsOutcomeView::ShowHelp
        } else if a == "--version"@ || a == "-v"@ {
            ArgsOutcomeView::ShowVersion
        } else if a == "--debug"@ {
            args_from(tail, mode, true, timeout, rust_impl)
        } else if a == "--gui"@ {
            args_from(tail, Some(Mode::Gui), debug, timeout, rust_impl)
        } else if a == "--screenshot"@ || a == "-s"@ {
            args_from(tail, Some(Mode::Screenshot), debug, timeout, rust_impl)
        } else if has_prefix(a, timeout_prefix()) {
            let v = a.skip(timeout_prefix().len() as int);
            match parse_u64_spec(v) {
                Some(secs) => args_from(tail, mode, debug, Some(secs), rust_impl),
                None => ArgsOutcomeView::InvalidTimeout(v),
            }
        } else if has_prefix(a, impl_prefix()) {
            let v = a.skip(impl_prefix().len() as int);
            if v == "rust"@ {
                args_from(tail, mode, debug, timeout, Some(true))
            } else if v == "shell"@ {
                args_from(tail, mode, debug, timeout, Some(false))
            } else {
                ArgsOutcomeView::InvalidImpl(v)
            }
        } else {
            ArgsOutcomeView::UnknownArgument(a)
        }
    }
}

/// What a command line (program name first) asks for.
pub open spec fn args_outcome(args: Seq<Seq<char>>) -> ArgsOutcomeView {
    if args.len() == 0 {
        args_from(seq![], None, false, None, None)
    } else {
        args_from(args.drop_first(), None, false, None, None)
    }
}

pub open spec fn string_views(v: Seq<String>) -> Seq<Seq<char>> {
    v.map_values(|s: String| s@)
}

/// `-h` stands for `--help`, `-v` for `--version` and `-s` for
/// `--screenshot`.
pub open spec fn short_alias(short: Seq<char>, long: Seq<char>) -> bool {
    ||| short == "-h"@ && long == "--help"@
    ||| short == "-v"@ && long == "--version"@
    ||| short == "-s"@ && long == "--screenshot"@
}

proof fn lemma_flags_distinct()
    ensures
        "-h"@ != "-v"@,
        "-h"@ != "-s"@,
        "-v"@ != "-s"@,
        "-h"@.len() == 2 && "-v"@.len() == 2 && "-s"@.len() == 2,
        "--help"@.len() == 6 && "--version"@.len() == 9 && "--debug"@.len() == 7,
        "--gui"@.len() == 5 && "--screenshot"@.len() == 12,
{
    reveal_strlit("-h");
    reveal_strlit("--help");
    reveal_strlit("-v");
    reveal_strlit("--version");
    reveal_strlit("-s");
    reveal_strlit("--screenshot");
    reveal_strlit("--debug");
    reveal_strlit("--gui");
    assert("-h"@[1] != "-v"@[1]);
    assert("-h"@[1] != "-s"@[1]);
    assert("-v"@[1] != "-s"@[1]);
}

proof fn lemma_alias_from(
    rest: Seq<Seq<char>>,
    i: int,
    short: Seq<char>,
    long: Seq<char>,
    mode: Option<Mode>,
    debug: bool,
    timeout: Option<u64>,
    rust_impl: Option<bool>,
)
    requires
        0 <= i < rest.len(),
        short_alias(short, long),
    ensures
        args_from(rest.update(i, short), mode, debug, timeout, rust_impl) == args_from(
            rest.update(i, long),
            mode,
            debug,
            timeout,
            rust_impl,
        ),
    decreases rest.len(),
{
    lemma_flags_distinct();
    let rs = rest.update(i, short);
    let rl = rest.update(i, long);
    if i == 0 {
        assert(rs.drop_first() =~= rl.drop_first());
    } else {
        let tail = rest.drop_first();
        assert(rs.drop_first() =~= tail.update(i - 1, short));
        assert(rl.drop_first() =~= tail.update(i - 1, long));
        assert(rs[0] == rest[0] && rl[0] == rest[0]);
        let a = rest[0];
        if a == "--debug"@ {
            lemma_alias_from(tail, i - 1, short, long, mode, true, timeout, rust_impl);
        } else if a == "--gui"@ {
            lemma_alias_from(tail, i - 1, short, long, Some(Mode::Gui), debug, timeout, rust_impl);
        } else if a == "--screenshot"@ || a == "-s"@ {
            lemma_alias_from(tail, i - 1, short, long, Some(Mode::Screenshot), debug, timeout, rust_impl);
        } else if has_prefix(a, timeout_prefix()) {
            let v = a.skip(timeout_prefix().len() as int);
            match parse_u64_spec(v) {
                Some(secs) => {
                    lemma_alias_from(tail, i - 1, short, long, mode, debug, Some(secs), rust_impl);
                },
                None => {},
            }
        } else if has_prefix(a, impl_prefix()) {
            lemma_alias_from(tail, i - 1, short, long, mode, debug, timeout, Some(true));
            lemma_alias_from(tail, i - 1, short, long, mode, debug, timeout, Some(false));
        }
    }
}

/// A short flag means the same as its long form wherever it stands:
/// replacing `--help`, `--version` or `--screenshot` by `-h`, `-v` or `-s`
/// anywhere after the program name leaves the outcome unchanged.
pub proof fn law_short_flags_are_aliases(args: Seq<Seq<char>>, i: int, short: Seq<char>, long: Seq<char>)
    requires
        1 <= i < args.len(),
        short_alias(short, long),
    ensures
        args_outcome(args.update(i, short)) == args_outcome(args.update(i, long)),
{
    assert(args.update(i, short).drop_first() =~= args.drop_first().update(i - 1, short));
    assert(args.update(i, long).drop_first() =~= args.drop_first().update(i - 1, long));
    lemma_alias_from(args.drop_first(), i - 1, short, long, None, false, None, None);
}

/// Asking for the version or for help first stops at once: a command line
/// whose first argument is `-v` or `--version` shows the version, and one
/// whose first argument is `-h` or `--help` shows the help, whatever
/// follows.
pub proof fn law_version_and_help_first(args: Seq<Seq<char>>)
    requires
        args.len() >= 2,
    ensures
        (args[1] == "-v"@ || args[1] == "--version"@) ==> args_outcome(args)
            == ArgsOutcomeView::ShowVersion,
        (args[1] == "-h"@ || args[1] == "--help"@) ==> args_outcome(args)
            == ArgsOutcomeView::ShowHelp,
{
    lemma_flags_distinct();
    assert(args.drop_first()[0] == args[1]);
}

impl Args {
    /// Reads the command line `args`, whose first element is the program.
    pub fn parse_args(args: &Vec<String>) -> (r: ArgsOutcome)
        ensures
            r@ == args_outcome(string_views(args@)),
    {
        let ghost all = string_views(args@);
        let mut mode: Option<Mode> = None;
        let mut debug_mode = false;
        let mut timeout_secs: Option<u64> = None;
        let mut rust_impl: Option<bool> = None;
        let mut i: usize = if args.len() == 0 {
            0
        } else {
            1
        };
        proof {
            if args.len() > 0 {
                assert(all.drop_first() =~= all.skip(1));
            } else {
                assert(all.skip(0) =~= Seq::<Seq<char>>::empty());
            }
        }
        while i < args.len()
            invariant
                all == string_views(args@),
                args.len() == 0 ==> i == 0,
                args.len() > 0 ==> 1 <= i,
                i <= args.len(),
                args_outcome(all) == args_from(
                    all.skip(i as int),
                    mode,
                    debug_mode,
                    timeout_secs,
                    rust_impl,
                ),
            decreases args.len() - i,
        {
            let ghost rest = all.skip(i as int);
            assert(rest[0] == args@[i as int]@);
            assert(rest.drop_first() =~= all.skip(i + 1));
            let a = to_chars(args[i].as_str());
            if eq_str(&a, "--help") || eq_str(&a, "-h") {
                return ArgsOutcome::ShowHelp;
            } else if eq_str(&a, "--version") || eq_str(&a, "-v") {
                return ArgsOutcome::ShowVersion;
            } else if eq_str(&a, "--debug") {
                debug_mode = true;
            } else if eq_str(&a, "--gui") {
                mode = Some(Mode::Gui);
            } else if eq_str(&a, "--screenshot") || eq_str(&a, "-s") {
                mode = Some(Mode::Screenshot);
            } else if starts_with_str(&a, "--timeout=") {
                let prefix_len = to_chars("--timeout=").len();
                let v = slice_to_vec(&a, prefix_len, a.len());
                assert(v@ =~= a@.skip(timeout_prefix().len() as int));
                match parse_u64(&v) {
                    Some(secs) => {
                        timeout_secs = Some(secs);
                    },
                    None => {
                        return ArgsOutcome::InvalidTimeout(from_chars(&v));
                    },
                }
            } else if starts_with_str(&a, "--impl=") {
                let prefix_len = to_chars("--impl=").len();
                let v = slice_to_vec(&a, prefix_len, a.len());
                assert(v@ =~= a@.skip(impl_prefix().len() as int));
                if eq_str(&v, "rust") {
                    rust_impl = Some(true);
                } else if eq_str(&v, "shell") {
                    rust_impl = Some(false);
                } else {
                    return ArgsOutcome::InvalidImpl(from_chars(&v));
                }
            } else {
                return ArgsOutcome::UnknownArgument(from_chars(&a));
            }
            i += 1;
        }
        assert(all.skip(i as int) =~= Seq::<Seq<char>>::empty());
        ArgsOutcome::Run(
            Args {
                mode: match mode {
                    Some(m) => m,
                    None => Mode::Gui,
                },
                debug_mode,
                debug_mode_timeout_secs: timeout_secs,
                use_rust_impl: rust_impl,
            },
        )
    }
}

/// Picks the ADB backend from a flag that says whether the pure-Rust one
/// is wanted.
pub trait AdbImplementationSelector {
    /// The choice the selector stands for.
    spec fn selects_rust(&self) -> bool;

    fn is_rust(&self) -> (r: bool)
        ensures
            r == self.selects_rust(),
    ;

    /// The name of the chosen backend: `rust` or `shell`.
    fn impl_str(&self) -> (r: &'static str)
        ensures
            r@ == (if self.selects_rust() {
                "rust"@
            } else {
                "shell"@
            }),
    {
        if self.is_rust() {
            "rust"
        } else {
            "shell"
        }
    }
}

impl AdbImplementationSelector for bool {
    open spec fn selects_rust(&self) -> bool {
        *self
    }

    fn is_rust(&self) -> (r: bool) {
        *self
    }
}

} // verus!
