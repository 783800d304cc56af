use workhorse::cargo::{cargo_clean_args, cargo_command_line, cargo_invocation, CargoOptionsError, CleanOptions};
use workhorse::server::CargoSubcommand;

fn words(w: &[&str]) -> Vec<String> {
    w.iter().map(|s| s.to_string()).collect()
}

#[test]
fn build_options_become_arguments() {
    let r = cargo_invocation(CargoSubcommand::Build, r#"{"release":true}"#, None, false);
    assert_eq!(r, Ok(words(&["build", "--color", "always", "--release"])));
}

#[test]
fn zigbuild_replaces_the_build_word() {
    let r = cargo_invocation(CargoSubcommand::Build, r#"{"release":true}"#, None, true);
    assert_eq!(r, Ok(words(&["zigbuild", "--color", "always", "--release"])));
}

#[test]
fn zigbuild_only_changes_builds() {
    let r = cargo_invocation(CargoSubcommand::Test, "{}", None, true);
    assert_eq!(r, Ok(words(&["test", "--color", "always"])));
}

#[test]
fn colour_is_always_forced() {
    let r = cargo_invocation(CargoSubcommand::Check, r#"{"color":"never"}"#, None, false);
    assert_eq!(r, Ok(words(&["check", "--color", "always"])));
}

#[test]
fn malformed_options_are_refused() {
    assert_eq!(cargo_invocation(CargoSubcommand::Build, "not json", None, false), Err(CargoOptionsError::Malformed));
    assert_eq!(CargoOptionsError::Malformed.message(), "CARGO_OPTIONS 格式错误!");
}

fn clean_options() -> CleanOptions {
    CleanOptions {
        quiet: false,
        verbose: 0,
        color: None,
        frozen: false,
        locked: false,
        offline: false,
        config: vec![],
        unstable_flags: vec![],
        manifest_path: None,
        release: false,
        profile: None,
        packages: vec![],
        target: vec![],
        target_dir: None,
        doc: false,
    }
}

#[test]
fn clean_runs_with_its_options() {
    let mut o = clean_options();
    o.release = true;
    o.packages = words(&["a", "b"]);
    o.verbose = 2;
    o.color = Some("never".to_string());
    assert_eq!(
        cargo_invocation(CargoSubcommand::Clean, "{}", Some(o), false),
        Ok(words(&["clean", "-vv", "--color", "always", "--release", "--package", "a", "--package", "b"]))
    );
    assert_eq!(cargo_invocation(CargoSubcommand::Clean, "{}", Some(clean_options()), true), Ok(words(&["clean", "--color", "always"])));
}

#[test]
fn clean_without_options_is_malformed() {
    assert_eq!(cargo_invocation(CargoSubcommand::Clean, "not json", None, false), Err(CargoOptionsError::Malformed));
}

#[test]
fn clean_arguments_in_order() {
    let mut o = clean_options();
    o.quiet = true;
    o.frozen = true;
    o.config = words(&["k=v"]);
    o.unstable_flags = words(&["x"]);
    o.manifest_path = Some("C.toml".to_string());
    o.profile = Some("dev".to_string());
    o.target = words(&["t"]);
    o.target_dir = Some("out".to_string());
    o.doc = true;
    assert_eq!(
        cargo_clean_args(&o, "auto"),
        words(&[
            "clean", "--quiet", "--color", "auto", "--frozen", "--config", "k=v", "-Z", "x", "--manifest-path", "C.toml",
            "--profile", "dev", "--target", "t", "--target-dir", "out", "--doc",
        ])
    );
}

#[test]
fn command_line_keeps_the_rest() {
    assert_eq!(
        cargo_command_line(CargoSubcommand::Build, true, words(&["build", "--release"])),
        words(&["zigbuild", "--release"])
    );
    assert_eq!(cargo_command_line(CargoSubcommand::Doc, false, vec![]), words(&["doc"]));
}
