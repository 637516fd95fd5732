//! The command lines of Bun's subcommands.
use crate::lines::{join, joined, push_first, texts};
use vstd::prelude::*;

verus! {

/// A command to run, and what is said about it.
#[verifier::ext_equal]
pub struct InvocationParts {
    pub program: Seq<char>,
    pub args: Seq<Seq<char>>,
    pub env: Seq<(Seq<char>, Seq<char>)>,
    pub announcement: Option<Seq<char>>,
    pub label: Seq<char>,
    pub tee: Seq<char>,
}

/// A command to run, and what is said about it.
pub struct Invocation {
    /// The program's name.
    pub program: String,
    /// Its arguments.
    pub args: Vec<String>,
    /// The environment variables that are set for it.
    pub env: Vec<(String, String)>,
    /// What is said before it runs, in verbose mode.
    pub announcement: Option<String>,
    /// What its run is recorded as.
    pub label: String,
    /// What the file with its full output is named after.
    pub tee: String,
}

/// The content of an environment.
pub open spec fn env_texts(env: Seq<(String, String)>) -> Seq<(Seq<char>, Seq<char>)> {
    env.map_values(|v: (String, String)| (v.0@, v.1@))
}

impl View for Invocation {
    type V = InvocationParts;

    open spec fn view(&self) -> InvocationParts {
        InvocationParts {
            program: self.program@,
            args: texts(self.args@),
            env: env_texts(self.env@),
            announcement: match self.announcement {
                Some(a) => Some(a@),
                None => None,
            },
            label: self.label@,
            tee: self.tee@,
        }
    }
}

/// The variable that keeps Bun's messages in one language.
pub open spec fn plain_locale() -> (Seq<char>, Seq<char>) {
    ("LC_ALL"@, "C"@)
}

/// The variable that keeps a project from checking its environment.
pub open spec fn no_env_validation() -> (Seq<char>, Seq<char>) {
    ("SKIP_ENV_VALIDATION"@, "1"@)
}

/// A run of Bun: `words` is the command line behind the program's name, as it is
/// shown, and `args` as it is passed.
pub open spec fn bun_invocation(
    words: Seq<char>,
    args: Seq<Seq<char>>,
    env: Seq<(Seq<char>, Seq<char>)>,
    verbose: bool,
    tee: Seq<char>,
) -> InvocationParts {
    InvocationParts {
        program: "bun"@,
        args,
        env,
        announcement: if verbose {
            Some("Running: bun "@ + words)
        } else {
            None
        },
        label: words,
        tee,
    }
}

/// The command line of a subcommand, as it is shown.
pub open spec fn shown(subcommand: Seq<char>, args: Seq<Seq<char>>) -> Seq<char> {
    subcommand + " "@ + joined(args, " "@)
}

/// The variables of a run in one language, that skips the project's checks or not.
pub open spec fn env_of(locale: bool, skip_env: bool) -> Seq<(Seq<char>, Seq<char>)> {
    (if locale {
        seq![plain_locale()]
    } else {
        seq![]
    }) + (if skip_env {
        seq![no_env_validation()]
    } else {
        seq![]
    })
}

/// The arguments of `bun run`: the flag, the script and what the script is given.
pub open spec fn run_arg_texts(script: Seq<char>, args: Seq<Seq<char>>) -> Seq<Seq<char>> {
    seq!["run"@, "--silent"@, script] + args
}

/// `subcommand` and `args`, as they are shown.
fn show(subcommand: &str, args: &[String]) -> (r: String)
    ensures
        r@ == shown(subcommand@, texts(args@)),
{
    let mut out = subcommand.to_string();
    out.append(" ");
    out.append(join(args, " ").as_str());
    out
}

/// `subcommand` and `args`, as they are passed.
fn with_subcommand(subcommand: &str, args: &[String]) -> (r: Vec<String>)
    ensures
        texts(r@) == seq![subcommand@] + texts(args@),
{
    let mut argv: Vec<String> = Vec::new();
    argv.push(subcommand.to_string());
    push_first(&mut argv, args, args.len());
    assert(texts(args@).take(args@.len() as int) =~= texts(args@));
    assert(texts(argv@) =~= seq![subcommand@] + texts(args@));
    argv
}

/// The variables of a run.
fn make_env(locale: bool, skip_env: bool) -> (r: Vec<(String, String)>)
    ensures
        env_texts(r@) == env_of(locale, skip_env),
{
    let mut env: Vec<(String, String)> = Vec::new();
    if locale {
        env.push(("LC_ALL".to_string(), "C".to_string()));
    }
    if skip_env {
        env.push(("SKIP_ENV_VALIDATION".to_string(), "1".to_string()));
    }
    assert(env_texts(env@) =~= env_of(locale, skip_env));
    env
}

/// A run of Bun.
fn invocation(
    words: String,
    args: Vec<String>,
    env: Vec<(String, String)>,
    verbose: u8,
    tee: &str,
) -> (r: Invocation)
    ensures
        r@ == bun_invocation(words@, texts(args@), env_texts(env@), verbose > 0, tee@),
{
    let announcement = if verbose > 0 {
        let mut a = "Running: bun ".to_string();
        a.append(words.as_str());
        Some(a)
    } else {
        None
    };
    Invocation {
        program: "bun".to_string(),
        args,
        env,
        announcement,
        label: words,
        tee: tee.to_string(),
    }
}

/// Each argument of a run stands in its place, behind the words it begins with, and so does
/// each variable.
proof fn lemma_places(r: Invocation, words: Seq<Seq<char>>, args: Seq<String>)
    requires
        r@.args == words + texts(args),
    ensures
        r.args@.len() == words.len() + args.len(),
        forall|k: int| 0 <= k < words.len() ==> (#[trigger] r.args@[k])@ == words[k],
        forall|k: int| 0 <= k < args.len() ==> r.args@[words.len() + k]@ == (#[trigger] args[k])@,
        r.env@.len() == r@.env.len(),
        forall|k: int|
            0 <= k < r.env@.len() ==> r@.env[k] == ((#[trigger] r.env@[k]).0@, r.env@[k].1@),
{
    let all = texts(r.args@);
    assert(all.len() == r.args@.len());
    assert forall|k: int| 0 <= k < words.len() implies (#[trigger] r.args@[k])@ == words[k] by {
        assert(all[k] == r.args@[k]@);
    }
    assert forall|k: int| 0 <= k < args.len() implies r.args@[words.len() + k]@
        == (#[trigger] args[k])@ by {
        assert(all[words.len() + k] == r.args@[words.len() + k]@);
        assert(texts(args)[k] == args[k]@);
    }
}

/// The run of `bun test`.
pub fn test_invocation(args: &[String], verbose: u8) -> (r: Invocation)
    ensures
        r@ == bun_invocation(
            shown("test"@, texts(args@)),
            seq!["test"@] + texts(args@),
            env_of(true, false),
            verbose > 0,
            "bun-test"@,
        ),
        r.program@ == "bun"@,
        r.args@.len() == args@.len() + 1,
        r.args@[0]@ == "test"@,
        forall|k: int| 0 <= k < args@.len() ==> r.args@[1 + k]@ == (#[trigger] args@[k])@,
        r.env@[0].0@ == "LC_ALL"@ && r.env@[0].1@ == "C"@,
        r.env@.len() == 1,
        r.label@ == "test "@ + joined(texts(args@), " "@),
        verbose == 0 <==> r.announcement is None,
        r.announcement matches Some(a) ==> a@ == "Running: bun test "@ + joined(
            texts(args@),
            " "@,
        ),
        r.tee@ == "bun-test"@,
{
    let r = invocation(
        show("test", args),
        with_subcommand("test", args),
        make_env(true, false),
        verbose,
        "bun-test",
    );
    proof {
        reveal_strlit("test");
        reveal_strlit(" ");
        reveal_strlit("test ");
        reveal_strlit("Running: bun ");
        reveal_strlit("Running: bun test ");
        let shown_args = joined(texts(args@), " "@);
        assert("test "@ =~= "test"@ + " "@);
        assert("Running: bun test "@ + shown_args =~= "Running: bun "@ + ("test "@ + shown_args));
        lemma_places(r, seq!["test"@], args@);
    }
    r
}

/// The run of `bun install`.
pub fn install_invocation(args: &[String], verbose: u8, skip_env: bool) -> (r: Invocation)
    ensures
        r@ == bun_invocation(
            shown("install"@, texts(args@)),
            seq!["install"@] + texts(args@),
            env_of(true, skip_env),
            verbose > 0,
            "bun-install"@,
        ),
        r.program@ == "bun"@,
        r.args@.len() == args@.len() + 1,
        r.args@[0]@ == "install"@,
        forall|k: int| 0 <= k < args@.len() ==> r.args@[1 + k]@ == (#[trigger] args@[k])@,
        r.env@[0].0@ == "LC_ALL"@ && r.env@[0].1@ == "C"@,
        skip_env ==> r.env@.len() == 2 && r.env@[1].0@ == "SKIP_ENV_VALIDATION"@ && r.env@[1].1@
            == "1"@,
        !skip_env ==> r.env@.len() == 1,
        r.label@ == "install "@ + joined(texts(args@), " "@),
        verbose == 0 <==> r.announcement is None,
        r.announcement matches Some(a) ==> a@ == "Running: bun install "@ + joined(
            texts(args@),
            " "@,
        ),
        r.tee@ == "bun-install"@,
{
    let r = invocation(
        show("install", args),
        with_subcommand("install", args),
        make_env(true, skip_env),
        verbose,
        "bun-install",
    );
    proof {
        reveal_strlit("install");
        reveal_strlit(" ");
        reveal_strlit("install ");
        reveal_strlit("Running: bun ");
        reveal_strlit("Running: bun install ");
        let shown_args = joined(texts(args@), " "@);
        assert("install "@ =~= "install"@ + " "@);
        assert("Running: bun install "@ + shown_args =~= "Running: bun "@ + ("install "@
            + shown_args));
        lemma_places(r, seq!["install"@], args@);
    }
    r
}

/// The run of `bun build`.
pub fn build_invocation(args: &[String], verbose: u8) -> (r: Invocation)
    ensures
        r@ == bun_invocation(
            shown("build"@, texts(args@)),
            seq!["build"@] + texts(args@),
            env_of(true, false),
            verbose > 0,
            "bun-build"@,
        ),
        r.program@ == "bun"@,
        r.args@.len() == args@.len() + 1,
        r.args@[0]@ == "build"@,
        forall|k: int| 0 <= k < args@.len() ==> r.args@[1 + k]@ == (#[trigger] args@[k])@,
        r.env@[0].0@ == "LC_ALL"@ && r.env@[0].1@ == "C"@,
        r.env@.len() == 1,
        r.label@ == "build "@ + joined(texts(args@), " "@),
        verbose == 0 <==> r.announcement is None,
        r.announcement matches Some(a) ==> a@ == "Running: bun build "@ + joined(
            texts(args@),
            " "@,
        ),
        r.tee@ == "bun-build"@,
{
    let r = invocation(
        show("build", args),
        with_subcommand("build", args),
        make_env(true, false),
        verbose,
        "bun-build",
    );
    proof {
        reveal_strlit("build");
        reveal_strlit(" ");
        reveal_strlit("build ");
        reveal_strlit("Running: bun ");
        reveal_strlit("Running: bun build ");
        let shown_args = joined(texts(args@), " "@);
        assert("build "@ =~= "build"@ + " "@);
        assert("Running: bun build "@ + shown_args =~= "Running: bun "@ + ("build "@ + shown_args));
        lemma_places(r, seq!["build"@], args@);
    }
    r
}

/// The run of `bun run`.
///
/// Unlike the others it does NOT force LC_ALL=C: `bun run` executes an arbitrary user
/// script, and overriding the locale for the whole child process tree changes its
/// behaviour (e.g. a Python build step would fall back to ASCII stdio). The filter of
/// its output does not parse structured output, so consistent locale isn't needed.
pub fn run_invocation(script: &str, args: &[String], verbose: u8, skip_env: bool) -> (r: Invocation)
    ensures
        r@ == bun_invocation(
            "run "@ + shown(script@, texts(args@)),
            run_arg_texts(script@, texts(args@)),
            env_of(false, skip_env),
            verbose > 0,
            "bun-run"@,
        ),
        r.program@ == "bun"@,
        r.args@.len() == args@.len() + 3,
        r.args@[0]@ == "run"@ && r.args@[1]@ == "--silent"@ && r.args@[2]@ == script@,
        forall|k: int| 0 <= k < args@.len() ==> r.args@[3 + k]@ == (#[trigger] args@[k])@,
        skip_env ==> r.env@.len() == 1 && r.env@[0].0@ == "SKIP_ENV_VALIDATION"@ && r.env@[0].1@
            == "1"@,
        !skip_env ==> r.env@.len() == 0,
        r.label@ == "run "@ + script@ + " "@ + joined(texts(args@), " "@),
        verbose == 0 <==> r.announcement is None,
        r.announcement matches Some(a) ==> a@ == "Running: bun run "@ + script@ + " "@ + joined(
            texts(args@),
            " "@,
        ),
        r.tee@ == "bun-run"@,
{
    let mut words = "run ".to_string();
    words.append(show(script, args).as_str());
    let argv = run_args(script, args);
    let r = invocation(words, argv, make_env(false, skip_env), verbose, "bun-run");
    proof {
        reveal_strlit("run ");
        reveal_strlit("Running: bun ");
        reveal_strlit("Running: bun run ");
        let shown_args = joined(texts(args@), " "@);
        assert(r.label@ =~= "run "@ + script@ + " "@ + shown_args);
        assert("Running: bun run "@ + script@ + " "@ + shown_args =~= "Running: bun "@ + r.label@);
        lemma_places(r, seq!["run"@, "--silent"@, script@], args@);
    }
    r
}

/// argv for `bun run`.
///
/// `--silent` suppresses the `$ <cmd>` echo at the source, and it has to come
/// before the script name or bun forwards it to the script. Stripping the echo
/// from the output instead does not work: bun writes it to stderr while the
/// script writes to stdout, and stdout lands first in the capture, so "drop the
/// first $-prefixed line" eats a line of the script's own output.
pub fn run_args(script: &str, args: &[String]) -> (r: Vec<String>)
    ensures
        texts(r@) == run_arg_texts(script@, texts(args@)),
        r@.len() == args@.len() + 3,
        r@[0]@ == "run"@,
        r@[1]@ == "--silent"@,
        r@[2]@ == script@,
        forall|k: int| 0 <= k < args@.len() ==> r@[3 + k]@ == (#[trigger] args@[k])@,
{
    let mut argv: Vec<String> = Vec::new();
    argv.push("run".to_string());
    argv.push("--silent".to_string());
    argv.push(script.to_string());
    push_first(&mut argv, args, args.len());
    assert(texts(args@).take(args@.len() as int) =~= texts(args@));
    assert(texts(argv@) =~= run_arg_texts(script@, texts(args@)));
    proof {
        let all = texts(argv@);
        assert(all[0] == argv@[0]@ && all[1] == argv@[1]@ && all[2] == argv@[2]@);
        assert forall|k: int| 0 <= k < args@.len() implies argv@[3 + k]@ == (
        #[trigger] args@[k])@ by {
            assert(all[3 + k] == argv@[3 + k]@);
            assert(texts(args@)[k] == args@[k]@);
        }
    }
    argv
}

/// Only the script of `bun run` keeps its locale: no variable of its run is
/// `LC_ALL`, whatever else is asked for.
pub proof fn law_run_keeps_locale(skip_env: bool)
    ensures
        forall|i: int|
            0 <= i < env_of(false, skip_env).len() ==> (#[trigger] env_of(false, skip_env)[i]).0
                != "LC_ALL"@,
        env_of(true, skip_env)[0] == ("LC_ALL"@, "C"@),
{
    reveal_strlit("LC_ALL");
    reveal_strlit("SKIP_ENV_VALIDATION");
    assert("LC_ALL"@.len() != "SKIP_ENV_VALIDATION"@.len());
}

/// The arguments of `bun run`, of any number: the flag comes before the script, and what
/// the script is given behind it, in its order.
pub proof fn law_silent_comes_before_the_script(script: Seq<char>, args: Seq<Seq<char>>)
    ensures
        run_arg_texts(script, args).len() == args.len() + 3,
        run_arg_texts(script, args)[0] == "run"@,
        run_arg_texts(script, args)[1] == "--silent"@,
        run_arg_texts(script, args)[2] == script,
        run_arg_texts(script, args).skip(3) == args,
{
    assert(run_arg_texts(script, args).skip(3) =~= args);
}

} // verus!
