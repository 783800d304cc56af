//! The arguments of the cargo command a `cargo` request runs, built from the
//! client's `CARGO_OPTIONS` (the JSON form of the sub-command's option set):
//! by the `cargo_options` crate, and for `clean`, which it has no option set
//! for, from [`CleanOptions`].
use vstd::prelude::*;
use crate::server::{cargo_word, CargoSubcommand};
use crate::text::views;

verus! {

/// What `cargo_options::Build` makes of a `CARGO_OPTIONS` text with its colour
/// set to `color`: the arguments of its `command()` (starting with `build`),
/// none when the text does not read as that option set.
pub uninterp spec fn cargo_build_args(options_json: Seq<char>, color: Seq<char>) -> Option<Seq<Seq<char>>>;

/// `serde_json::from_str::<cargo_options::Build>`, then the colour, then the
/// arguments of `Build::command` (`Command::get_args`). The arguments are the
/// function of the two texts named [`cargo_build_args`]; the first is `build`, as
/// `command()` adds it before any other.
#[verifier::external_body]
fn cargo_build_command_args(options_json: &str, color: &str) -> (r: Option<Vec<String>>)
    ensures
        r matches Some(v) ==> cargo_build_args(options_json@, color@) == Some(views(v@)),
        r matches Some(v) ==> v@.len() >= 1 && v@[0]@ == "build"@,
        r is None ==> cargo_build_args(options_json@, color@) is None,
{
    match serde_json::from_str::<cargo_options::Build>(options_json) {
        Ok(mut o) => {
            o.color = Some(color.to_string());
            Some(o.command().get_args().map(|a| a.to_string_lossy().into_owned()).collect())
        },
        Err(_) => None,
    }
}

/// What `cargo_options::Check` makes of a `CARGO_OPTIONS` text with its colour
/// set to `color`: the arguments of its `command()` (starting with `check`),
/// none when the text does not read as that option set.
pub uninterp spec fn cargo_check_args(options_json: Seq<char>, color: Seq<char>) -> Option<Seq<Seq<char>>>;

/// `serde_json::from_str::<cargo_options::Check>`, then the colour, then the
/// arguments of `Check::command` (`Command::get_args`). The arguments are the
/// function of the two texts named [`cargo_check_args`]; the first is `check`, as
/// `command()` adds it before any other.
#[verifier::external_body]
fn cargo_check_command_args(options_json: &str, color: &str) -> (r: Option<Vec<String>>)
    ensures
        r matches Some(v) ==> cargo_check_args(options_json@, color@) == Some(views(v@)),
        r matches Some(v) ==> v@.len() >= 1 && v@[0]@ == "check"@,
        r is None ==> cargo_check_args(options_json@, color@) is None,
{
    match serde_json::from_str::<cargo_options::Check>(options_json) {
        Ok(mut o) => {
            o.color = Some(color.to_string());
            Some(o.command().get_args().map(|a| a.to_string_lossy().into_owned()).collect())
        },
        Err(_) => None,
    }
}

/// What `cargo_options::Clippy` makes of a `CARGO_OPTIONS` text with its colour
/// set to `color`: the arguments of its `command()` (starting with `clippy`),
/// none when the text does not read as that option set.
pub uninterp spec fn cargo_clippy_args(options_json: Seq<char>, color: Seq<char>) -> Option<Seq<Seq<char>>>;

/// `serde_json::from_str::<cargo_options::Clippy>`, then the colour, then the
/// arguments of `Clippy::command` (`Command::get_args`). The arguments are the
/// function of the two texts named [`cargo_clippy_args`]; the first is `clippy`, as
/// `command()` adds it before any other.
#[verifier::external_body]
fn cargo_clippy_command_args(options_json: &str, color: &str) -> (r: Option<Vec<String>>)
    ensures
        r matches Some(v) ==> cargo_clippy_args(options_json@, color@) == Some(views(v@)),
        r matches Some(v) ==> v@.len() >= 1 && v@[0]@ == "clippy"@,
        r is None ==> cargo_clippy_args(options_json@, color@) is None,
{
    match serde_json::from_str::<cargo_options::Clippy>(options_json) {
        Ok(mut o) => {
            o.color = Some(color.to_string());
            Some(o.command().get_args().map(|a| a.to_string_lossy().into_owned()).collect())
        },
        Err(_) => None,
    }
}

/// What `cargo_options::Doc` makes of a `CARGO_OPTIONS` text with its colour
/// set to `color`: the arguments of its `command()` (starting with `doc`),
/// none when the text does not read as that option set.
pub uninterp spec fn cargo_doc_args(options_json: Seq<char>, color: Seq<char>) -> Option<Seq<Seq<char>>>;

/// `serde_json::from_str::<cargo_options::Doc>`, then the colour, then the
/// arguments of `Doc::command` (`Command::get_args`). The arguments are the
/// function of the two texts named [`cargo_doc_args`]; the first is `doc`, as
/// `command()` adds it before any other.
#[verifier::external_body]
fn cargo_doc_command_args(options_json: &str, color: &str) -> (r: Option<Vec<String>>)
    ensures
        r matches Some(v) ==> cargo_doc_args(options_json@, color@) == Some(views(v@)),
        r matches Some(v) ==> v@.len() >= 1 && v@[0]@ == "doc"@,
        r is None ==> cargo_doc_args(options_json@, color@) is None,
{
    match serde_json::from_str::<cargo_options::Doc>(options_json) {
        Ok(mut o) => {
            o.color = Some(color.to_string());
            Some(o.command().get_args().map(|a| a.to_string_lossy().into_owned()).collect())
        },
        Err(_) => None,
    }
}

/// What `cargo_options::Install` makes of a `CARGO_OPTIONS` text with its colour
/// set to `color`: the arguments of its `command()` (starting with `install`),
/// none when the text does not read as that option set.
pub uninterp spec fn cargo_install_args(options_json: Seq<char>, color: Seq<char>) -> Option<Seq<Seq<char>>>;

/// `serde_json::from_str::<cargo_options::Install>`, then the colour, then the
/// arguments of `Install::command` (`Command::get_args`). The arguments are the
/// function of the two texts named [`cargo_install_args`]; the first is `install`, as
/// `command()` adds it before any other.
#[verifier::external_body]
fn cargo_install_command_args(options_json: &str, color: &str) -> (r: Option<Vec<String>>)
    ensures
        r matches Some(v) ==> cargo_install_args(options_json@, color@) == Some(views(v@)),
        r matches Some(v) ==> v@.len() >= 1 && v@[0]@ == "install"@,
        r is None ==> cargo_install_args(options_json@, color@) is None,
{
    match serde_json::from_str::<cargo_options::Install>(options_json) {
        Ok(mut o) => {
            o.color = Some(color.to_string());
            Some(o.command().get_args().map(|a| a.to_string_lossy().into_owned()).collect())
        },
        Err(_) => None,
    }
}

/// What `cargo_options::Metadata` makes of a `CARGO_OPTIONS` text with its colour
/// set to `color`: the arguments of its `command()` (starting with `metadata`),
/// none when the text does not read as that option set.
pub uninterp spec fn cargo_metadata_args(options_json: Seq<char>, color: Seq<char>) -> Option<Seq<Seq<char>>>;

/// `serde_json::from_str::<cargo_options::Metadata>`, then the colour, then the
/// arguments of `Metadata::command` (`Command::get_args`). The arguments are the
/// function of the two texts named [`cargo_metadata_args`]; the first is `metadata`, as
/// `command()` adds it before any other.
#[verifier::external_body]
fn cargo_metadata_command_args(options_json: &str, color: &str) -> (r: Option<Vec<String>>)
    ensures
        r matches Some(v) ==> cargo_metadata_args(options_json@, color@) == Some(views(v@)),
        r matches Some(v) ==> v@.len() >= 1 && v@[0]@ == "metadata"@,
        r is None ==> cargo_metadata_args(options_json@, color@) is None,
{
    match serde_json::from_str::<cargo_options::Metadata>(options_json) {
        Ok(mut o) => {
            o.color = Some(color.to_string());
            Some(o.command().get_args().map(|a| a.to_string_lossy().into_owned()).collect())
        },
        Err(_) => None,
    }
}

/// What `cargo_options::Run` makes of a `CARGO_OPTIONS` text with its colour
/// set to `color`: the arguments of its `command()` (starting with `run`),
/// none when the text does not read as that option set.
pub uninterp spec fn cargo_run_args(options_json: Seq<char>, color: Seq<char>) -> Option<Seq<Seq<char>>>;

/// `serde_json::from_str::<cargo_options::Run>`, then the colour, then the
/// arguments of `Run::command` (`Command::get_args`). The arguments are the
/// function of the two texts named [`cargo_run_args`]; the first is `run`, as
/// `command()` adds it before any other.
#[verifier::external_body]
fn cargo_run_command_args(options_json: &str, color: &str) -> (r: Option<Vec<String>>)
    ensures
        r matches Some(v) ==> cargo_run_args(options_json@, color@) == Some(views(v@)),
        r matches Some(v) ==> v@.len() >= 1 && v@[0]@ == "run"@,
        r is None ==> cargo_run_args(options_json@, color@) is None,
{
    match serde_json::from_str::<cargo_options::Run>(options_json) {
        Ok(mut o) => {
            o.color = Some(color.to_string());
            Some(o.command().get_args().map(|a| a.to_string_lossy().into_owned()).collect())
        },
        Err(_) => None,
    }
}

/// What `cargo_options::Rustc` makes of a `CARGO_OPTIONS` text with its colour
/// set to `color`: the arguments of its `command()` (starting with `rustc`),
/// none when the text does not read as that option set.
pub uninterp spec fn cargo_rustc_args(options_json: Seq<char>, color: Seq<char>) -> Option<Seq<Seq<char>>>;

/// `serde_json::from_str::<cargo_options::Rustc>`, then the colour, then the
/// arguments of `Rustc::command` (`Command::get_args`). The arguments are the
/// function of the two texts named [`cargo_rustc_args`]; the first is `rustc`, as
/// `command()` adds it before any other.
#[verifier::external_body]
fn cargo_rustc_command_args(options_json: &str, color: &str) -> (r: Option<Vec<String>>)
    ensures
        r matches Some(v) ==> cargo_rustc_args(options_json@, color@) == Some(views(v@)),
        r matches Some(v) ==> v@.len() >= 1 && v@[0]@ == "rustc"@,
        r is None ==> cargo_rustc_args(options_json@, color@) is None,
{
    match serde_json::from_str::<cargo_options::Rustc>(options_json) {
        Ok(mut o) => {
            o.color = Some(color.to_string());
            Some(o.command().get_args().map(|a| a.to_string_lossy().into_owned()).collect())
        },
        Err(_) => None,
    }
}

/// What `cargo_options::Test` makes of a `CARGO_OPTIONS` text with its colour
/// set to `color`: the arguments of its `command()` (starting with `test`),
/// none when the text does not read as that option set.
pub uninterp spec fn cargo_test_args(options_json: Seq<char>, color: Seq<char>) -> Option<Seq<Seq<char>>>;

/// `serde_json::from_str::<cargo_options::Test>`, then the colour, then the
/// arguments of `Test::command` (`Command::get_args`). The arguments are the
/// function of the two texts named [`cargo_test_args`]; the first is `test`, as
/// `command()` adds it before any other.
#[verifier::external_body]
fn cargo_test_command_args(options_json: &str, color: &str) -> (r: Option<Vec<String>>)
    ensures
        r matches Some(v) ==> cargo_test_args(options_json@, color@) == Some(views(v@)),
        r matches Some(v) ==> v@.len() >= 1 && v@[0]@ == "test"@,
        r is None ==> cargo_test_args(options_json@, color@) is None,
{
    match serde_json::from_str::<cargo_options::Test>(options_json) {
        Ok(mut o) => {
            o.color = Some(color.to_string());
            Some(o.command().get_args().map(|a| a.to_string_lossy().into_owned()).collect())
        },
        Err(_) => None,
    }
}
/// The options of `cargo clean`, which `cargo_options` has no option set
/// for: the packages, profile and targets to clean and cargo's global flags.
/// A `CARGO_OPTIONS` text is read into it outside the library (JSON, field
/// names as written here, each optional).
#[derive(Clone, Debug)]
pub struct CleanOptions {
    pub quiet: bool,
    pub verbose: u8,
    pub color: Option<String>,
    pub frozen: bool,
    pub locked: bool,
    pub offline: bool,
    pub config: Vec<String>,
    pub unstable_flags: Vec<String>,
    pub manifest_path: Option<String>,
    pub release: bool,
    pub profile: Option<String>,
    pub packages: Vec<String>,
    pub target: Vec<String>,
    pub target_dir: Option<String>,
    pub doc: bool,
}

/// `word` when `on`, else nothing.
pub open spec fn flag_arg(on: bool, word: Seq<char>) -> Seq<Seq<char>> {
    if on {
        seq![word]
    } else {
        seq![]
    }
}

/// `word` and the value, when there is one.
pub open spec fn value_arg(word: Seq<char>, value: Option<String>) -> Seq<Seq<char>> {
    match value {
        Some(v) => seq![word, v@],
        None => seq![],
    }
}

/// `word` before each of `values`.
pub open spec fn repeated_arg(word: Seq<char>, values: Seq<Seq<char>>) -> Seq<Seq<char>>
    decreases values.len(),
{
    if values.len() == 0 {
        seq![]
    } else {
        repeated_arg(word, values.drop_last()) + seq![word, values.last()]
    }
}

/// `-v` repeated `n` times as one word (`-vv` for two), nothing for none.
pub open spec fn verbose_arg(n: u8) -> Seq<Seq<char>> {
    if n == 0 {
        seq![]
    } else {
        seq![seq!['-'] + Seq::new(n as nat, |i: int| 'v')]
    }
}

/// The arguments of `cargo clean` with `o`, its colour set to `color`.
pub open spec fn clean_args(o: CleanOptions, color: Seq<char>) -> Seq<Seq<char>> {
    seq!["clean"@] + flag_arg(o.quiet, "--quiet"@) + verbose_arg(o.verbose) + seq!["--color"@, color]
        + flag_arg(o.frozen, "--frozen"@) + flag_arg(o.locked, "--locked"@) + flag_arg(o.offline, "--offline"@)
        + repeated_arg("--config"@, views(o.config@)) + repeated_arg("-Z"@, views(o.unstable_flags@))
        + value_arg("--manifest-path"@, o.manifest_path) + flag_arg(o.release, "--release"@)
        + value_arg("--profile"@, o.profile) + repeated_arg("--package"@, views(o.packages@))
        + repeated_arg("--target"@, views(o.target@)) + value_arg("--target-dir"@, o.target_dir)
        + flag_arg(o.doc, "--doc"@)
}

fn push_flag(v: &mut Vec<String>, on: bool, word: &str)
    ensures
        views(final(v)@) == views(old(v)@) + flag_arg(on, word@),
{
    let ghost before = views(v@);
    if on {
        v.push(String::from_str(word));
    }
    assert(views(v@) =~= before + flag_arg(on, word@));
}

fn push_pair(v: &mut Vec<String>, a: &str, b: &str)
    ensures
        views(final(v)@) == views(old(v)@) + seq![a@, b@],
{
    let ghost before = views(v@);
    v.push(String::from_str(a));
    v.push(String::from_str(b));
    assert(views(v@) =~= before + seq![a@, b@]);
}

fn push_value(v: &mut Vec<String>, word: &str, value: &Option<String>)
    ensures
        views(final(v)@) == views(old(v)@) + value_arg(word@, *value),
{
    let ghost before = views(v@);
    match value {
        Some(x) => {
            v.push(String::from_str(word));
            v.push(String::from_str(x.as_str()));
        },
        None => {},
    }
    assert(views(v@) =~= before + value_arg(word@, *value));
}

fn push_repeated(v: &mut Vec<String>, word: &str, values: &Vec<String>)
    ensures
        views(final(v)@) == views(old(v)@) + repeated_arg(word@, views(values@)),
{
    let ghost before = views(v@);
    let mut i: usize = 0;
    while i < values.len()
        invariant
            i <= values@.len(),
            views(v@) == before + repeated_arg(word@, views(values@).take(i as int)),
        decreases values@.len() - i,
    {
        let ghost prev = views(v@);
        v.push(String::from_str(word));
        v.push(String::from_str(values[i].as_str()));
        i = i + 1;
        assert(views(values@).take(i as int).drop_last() =~= views(values@).take(i - 1));
        assert(views(v@) =~= prev + seq![word@, values@[i - 1]@]);
    }
    assert(views(values@).take(values@.len() as int) =~= views(values@));
}

fn push_verbose(v: &mut Vec<String>, n: u8)
    ensures
        views(final(v)@) == views(old(v)@) + verbose_arg(n),
{
    let ghost before = views(v@);
    if n > 0 {
        let mut w = String::new();
        w.push('-');
        assert(w@ =~= seq!['-'] + Seq::new(0nat, |i: int| 'v'));
        let mut k: u8 = 0;
        while k < n
            invariant
                k <= n,
                w@ == seq!['-'] + Seq::new(k as nat, |i: int| 'v'),
            decreases n - k,
        {
            w.push('v');
            k = k + 1;
            assert(w@ =~= seq!['-'] + Seq::new(k as nat, |i: int| 'v'));
        }
        v.push(w);
    }
    assert(views(v@) =~= before + verbose_arg(n));
}

/// The arguments of `cargo clean` with `o`, coloured as `color` says (see
/// [`clean_args`]).
pub fn cargo_clean_args(o: &CleanOptions, color: &str) -> (r: Vec<String>)
    ensures
        views(r@) == clean_args(*o, color@),
{
    let mut v: Vec<String> = Vec::new();
    v.push(String::from_str("clean"));
    assert(views(v@) =~= seq!["clean"@]);
    push_flag(&mut v, o.quiet, "--quiet");
    push_verbose(&mut v, o.verbose);
    push_pair(&mut v, "--color", color);
    push_flag(&mut v, o.frozen, "--frozen");
    push_flag(&mut v, o.locked, "--locked");
    push_flag(&mut v, o.offline, "--offline");
    push_repeated(&mut v, "--config", &o.config);
    push_repeated(&mut v, "-Z", &o.unstable_flags);
    push_value(&mut v, "--manifest-path", &o.manifest_path);
    push_flag(&mut v, o.release, "--release");
    push_value(&mut v, "--profile", &o.profile);
    push_repeated(&mut v, "--package", &o.packages);
    push_repeated(&mut v, "--target", &o.target);
    push_value(&mut v, "--target-dir", &o.target_dir);
    push_flag(&mut v, o.doc, "--doc");
    v
}

/// What `cargo_options` makes of a `CARGO_OPTIONS` text for a sub-command
/// with an option set there (every one but `clean`, which reads it into
/// [`CleanOptions`]), its colour set to `color`.
pub open spec fn cargo_named_args(sub: CargoSubcommand, options_json: Seq<char>, color: Seq<char>) -> Option<Seq<Seq<char>>> {
    match sub {
        CargoSubcommand::Build => cargo_build_args(options_json, color),
        CargoSubcommand::Check => cargo_check_args(options_json, color),
        CargoSubcommand::Clippy => cargo_clippy_args(options_json, color),
        CargoSubcommand::Doc => cargo_doc_args(options_json, color),
        CargoSubcommand::Install => cargo_install_args(options_json, color),
        CargoSubcommand::Metadata => cargo_metadata_args(options_json, color),
        CargoSubcommand::Run => cargo_run_args(options_json, color),
        CargoSubcommand::Rustc => cargo_rustc_args(options_json, color),
        CargoSubcommand::Test => cargo_test_args(options_json, color),
        CargoSubcommand::Clean => None,
    }
}

/// Why the cargo command of a request cannot be built.
#[derive(Clone, Copy, Debug, PartialEq, Eq, Structural)]
pub enum CargoOptionsError {
    /// `CARGO_OPTIONS` does not read as the sub-command's option set.
    Malformed,
}

impl CargoOptionsError {
    /// The message the request is answered with.
    pub fn message(&self) -> (r: &'static str)
        ensures
            r@ == "CARGO_OPTIONS 格式错误!"@,
    {
        match *self {
            CargoOptionsError::Malformed => "CARGO_OPTIONS 格式错误!",
        }
    }
}

/// The word the command runs: `zigbuild` for a build through `cargo
/// zigbuild`, else the sub-command's own word.
pub open spec fn run_word(sub: CargoSubcommand, zigbuild: bool) -> Seq<char> {
    if zigbuild && sub == CargoSubcommand::Build {
        "zigbuild"@
    } else {
        cargo_word(sub)
    }
}

/// `args` with its first word (the sub-command's) replaced by `word`.
pub open spec fn with_word(word: Seq<char>, args: Seq<Seq<char>>) -> Seq<Seq<char>> {
    if args.len() == 0 {
        seq![word]
    } else {
        seq![word] + args.drop_first()
    }
}

/// The arguments of `cargo` for a sub-command, given the arguments its option
/// set makes (which start with the sub-command's word): that word becomes
/// `zigbuild` for a build through `cargo zigbuild`, the rest is kept.
pub fn cargo_command_line(sub: CargoSubcommand, zigbuild: bool, args: Vec<String>) -> (r: Vec<String>)
    ensures
        views(r@) == with_word(run_word(sub, zigbuild), views(args@)),
{
    let word = if zigbuild && sub == CargoSubcommand::Build {
        String::from_str("zigbuild")
    } else {
        String::from_str(sub.name())
    };
    let mut v = args;
    if v.len() == 0 {
        v.push(word);
        assert(views(v@) =~= with_word(run_word(sub, zigbuild), views(args@)));
    } else {
        let ghost before = v@;
        v.set(0, word);
        assert(views(v@) =~= with_word(run_word(sub, zigbuild), views(before)));
    }
    v
}

/// The arguments of `cargo` for a sub-command's option set as the wrapper
/// gave them, or why there are none.
fn command_line_of(sub: CargoSubcommand, zigbuild: bool, made: Option<Vec<String>>) -> (r: Result<Vec<String>, CargoOptionsError>)
    ensures
        made is None ==> r == Err::<Vec<String>, CargoOptionsError>(CargoOptionsError::Malformed),
        made matches Some(a) ==> (r matches Ok(v) && views(v@) == with_word(run_word(sub, zigbuild), views(a@))),
{
    match made {
        Some(a) => Ok(cargo_command_line(sub, zigbuild, a)),
        None => Err(CargoOptionsError::Malformed),
    }
}

/// The arguments of the `cargo` command a request runs: `CARGO_OPTIONS` read
/// as the option set of the sub-command, always coloured; the sub-command's
/// word (`zigbuild` for a build through `cargo zigbuild`) followed by the
/// arguments of that option set. It fails when the text does not read as
/// the option set. For `clean`, `clean_options` holds `CARGO_OPTIONS` as read
/// into [`CleanOptions`] (none when it does not read so); the other
/// sub-commands read the text through `cargo_options` and ignore it.
pub fn cargo_invocation(
    sub: CargoSubcommand,
    options_json: &str,
    clean_options: Option<CleanOptions>,
    zigbuild: bool,
) -> (r: Result<Vec<String>, CargoOptionsError>)
    ensures
        sub == CargoSubcommand::Clean ==> match clean_options {
            None => r == Err::<Vec<String>, CargoOptionsError>(CargoOptionsError::Malformed),
            Some(o) => r matches Ok(v) && views(v@) == clean_args(o, "always"@),
        },
        sub != CargoSubcommand::Clean ==> match cargo_named_args(sub, options_json@, "always"@) {
            None => r == Err::<Vec<String>, CargoOptionsError>(CargoOptionsError::Malformed),
            Some(a) => r matches Ok(v) && views(v@) == with_word(run_word(sub, zigbuild), a),
        },
        sub != CargoSubcommand::Clean && run_word(sub, zigbuild) == cargo_word(sub) ==> (r matches Ok(v) ==> cargo_named_args(sub, options_json@, "always"@) == Some(views(v@))),
{
    let made = match sub {
        CargoSubcommand::Build => cargo_build_command_args(options_json, "always"),
        CargoSubcommand::Check => cargo_check_command_args(options_json, "always"),
        CargoSubcommand::Clippy => cargo_clippy_command_args(options_json, "always"),
        CargoSubcommand::Doc => cargo_doc_command_args(options_json, "always"),
        CargoSubcommand::Install => cargo_install_command_args(options_json, "always"),
        CargoSubcommand::Metadata => cargo_metadata_command_args(options_json, "always"),
        CargoSubcommand::Run => cargo_run_command_args(options_json, "always"),
        CargoSubcommand::Rustc => cargo_rustc_command_args(options_json, "always"),
        CargoSubcommand::Test => cargo_test_command_args(options_json, "always"),
        CargoSubcommand::Clean => {
            return match clean_options {
                Some(o) => Ok(cargo_clean_args(&o, "always")),
                None => Err(CargoOptionsError::Malformed),
            };
        },
    };
    proof {
        if made is Some {
            let a = made->0;
            assert(views(a@).len() >= 1 && views(a@)[0] == cargo_word(sub));
            assert(with_word(cargo_word(sub), views(a@)) =~= views(a@));
        }
    }
    command_line_of(sub, zigbuild, made)
}

} // verus!
