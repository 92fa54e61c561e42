use pglsp_core::flags::{ClientOpt, Exit, FlagsError, Install, Xtask, XtaskCmd};

fn args(list: &[&str]) -> Vec<String> {
    list.iter().map(|s| s.to_string()).collect()
}

fn install(client: bool, code_bin: Option<&str>, server: bool) -> Xtask {
    Xtask {
        subcommand: XtaskCmd::Install(Install {
            client,
            code_bin: code_bin.map(|s| s.to_string()),
            server,
        }),
    }
}

#[test]
fn install_without_flags() {
    assert_eq!(Xtask::from_vec(args(&["install"])), Ok(install(false, None, false)));
}

#[test]
fn install_with_flags() {
    assert_eq!(
        Xtask::from_vec(args(&["install", "--client", "--code-bin", "codium"])),
        Ok(install(true, Some("codium"), false))
    );
    assert_eq!(Xtask::from_vec(args(&["install", "--server"])), Ok(install(false, None, true)));
    assert_eq!(
        Xtask::from_vec(args(&["install", "--server", "--code-bin", "code", "--client"])),
        Ok(install(true, Some("code"), true))
    );
}

#[test]
fn value_is_taken_as_it_comes() {
    assert_eq!(
        Xtask::from_vec(args(&["install", "--code-bin", "--server"])),
        Ok(install(false, Some("--server"), false))
    );
    assert_eq!(
        Xtask::from_vec(args(&["install", "--code-bin", "--"])),
        Ok(install(false, Some("--"), false))
    );
    assert_eq!(
        Xtask::from_vec(args(&["install", "--code-bin", ""])),
        Ok(install(false, Some(""), false))
    );
}

#[test]
fn subcommand_is_required() {
    assert_eq!(Xtask::from_vec(args(&[])), Err(FlagsError::SubcommandRequired));
    assert_eq!(Xtask::from_vec(args(&["--"])), Err(FlagsError::SubcommandRequired));
}

#[test]
fn flags_need_their_subcommand() {
    assert_eq!(
        Xtask::from_vec(args(&["--client"])),
        Err(FlagsError::UnexpectedFlag("--client".to_string()))
    );
    assert_eq!(
        Xtask::from_vec(args(&["--server", "install"])),
        Err(FlagsError::UnexpectedFlag("--server".to_string()))
    );
}

#[test]
fn unknown_flags_are_refused() {
    assert_eq!(
        Xtask::from_vec(args(&["install", "--code-bin=x"])),
        Err(FlagsError::UnexpectedFlag("--code-bin=x".to_string()))
    );
    assert_eq!(
        Xtask::from_vec(args(&["install", "-c"])),
        Err(FlagsError::UnexpectedFlag("-c".to_string()))
    );
    assert_eq!(Xtask::from_vec(args(&["-"])), Err(FlagsError::UnexpectedFlag("-".to_string())));
}

#[test]
fn stray_arguments_are_refused() {
    assert_eq!(
        Xtask::from_vec(args(&["build"])),
        Err(FlagsError::UnexpectedArgument("build".to_string()))
    );
    assert_eq!(
        Xtask::from_vec(args(&["install", "extra"])),
        Err(FlagsError::UnexpectedArgument("extra".to_string()))
    );
    assert_eq!(
        Xtask::from_vec(args(&["install", "install"])),
        Err(FlagsError::UnexpectedArgument("install".to_string()))
    );
    assert_eq!(
        Xtask::from_vec(args(&[""])),
        Err(FlagsError::UnexpectedArgument("".to_string()))
    );
}

#[test]
fn missing_value() {
    assert_eq!(
        Xtask::from_vec(args(&["install", "--code-bin"])),
        Err(FlagsError::MissingValue("--code-bin".to_string()))
    );
}

#[test]
fn repeated_flags() {
    assert_eq!(
        Xtask::from_vec(args(&["install", "--client", "--client"])),
        Err(FlagsError::Repeated("--client".to_string()))
    );
    assert_eq!(
        Xtask::from_vec(args(&["install", "--code-bin", "a", "--code-bin", "b"])),
        Err(FlagsError::Repeated("--code-bin".to_string()))
    );
    assert_eq!(
        Xtask::from_vec(args(&["install", "--server", "--server"])),
        Err(FlagsError::Repeated("--server".to_string()))
    );
    // the flags are checked in the order in which the command declares them
    assert_eq!(
        Xtask::from_vec(args(&["install", "--server", "--server", "--client", "--client"])),
        Err(FlagsError::Repeated("--client".to_string()))
    );
    // an error met while reading comes before any of them
    assert_eq!(
        Xtask::from_vec(args(&["install", "--client", "--client", "oops"])),
        Err(FlagsError::UnexpectedArgument("oops".to_string()))
    );
}

#[test]
fn help_is_asked_for() {
    assert_eq!(Xtask::from_vec(args(&["-h"])), Err(FlagsError::Help));
    assert_eq!(Xtask::from_vec(args(&["--help"])), Err(FlagsError::Help));
    assert_eq!(Xtask::from_vec(args(&["install", "--client", "--help"])), Err(FlagsError::Help));
    assert_eq!(
        Xtask::from_vec(args(&["install", "--code-bin", "--help"])),
        Ok(install(false, Some("--help"), false))
    );
}

#[test]
fn double_dash_ends_the_flags() {
    assert_eq!(Xtask::from_vec(args(&["install", "--"])), Ok(install(false, None, false)));
    assert_eq!(Xtask::from_vec(args(&["--", "install"])), Ok(install(false, None, false)));
    assert_eq!(
        Xtask::from_vec(args(&["--", "install", "--client"])),
        Err(FlagsError::UnexpectedArgument("--client".to_string()))
    );
    assert_eq!(
        Xtask::from_vec(args(&["install", "--", "--help"])),
        Err(FlagsError::UnexpectedArgument("--help".to_string()))
    );
    assert_eq!(
        Xtask::from_vec(args(&["install", "--", "--"])),
        Err(FlagsError::UnexpectedArgument("--".to_string()))
    );
}

#[test]
fn program_name_is_dropped() {
    assert_eq!(Xtask::from_env(args(&["xtask", "install"])), Ok(install(false, None, false)));
    assert_eq!(
        Xtask::from_env(args(&["install", "--client"])),
        Err(FlagsError::UnexpectedFlag("--client".to_string()))
    );
    assert_eq!(Xtask::from_env(args(&["xtask"])), Err(FlagsError::SubcommandRequired));
    assert_eq!(Xtask::from_env(args(&[])), Err(FlagsError::SubcommandRequired));
}

#[test]
fn exit_on_a_bad_command_line() {
    assert_eq!(
        Xtask::from_env_or_exit(args(&["xtask", "install", "--server"])),
        Ok(install(false, None, true))
    );
    assert_eq!(
        Xtask::from_env_or_exit(args(&["xtask", "--help"])),
        Err(Exit { error: FlagsError::Help, status: 0 })
    );
    assert_eq!(
        Xtask::from_env_or_exit(args(&["xtask", "bogus"])),
        Err(Exit { error: FlagsError::UnexpectedArgument("bogus".to_string()), status: 2 })
    );
    assert_eq!(
        Xtask::from_env_or_exit(args(&[])),
        Err(Exit { error: FlagsError::SubcommandRequired, status: 2 })
    );
}

#[test]
fn what_to_install() {
    let pick = |client: bool, server: bool| Install {
        client,
        code_bin: Some("codium".to_string()),
        server,
    };
    let opt = Some(ClientOpt { code_bin: Some("codium".to_string()) });
    assert_eq!(pick(false, false).server(), Some(()));
    assert_eq!(pick(false, false).client(), opt);
    assert_eq!(pick(true, false).server(), None);
    assert_eq!(pick(true, false).client(), opt);
    assert_eq!(pick(false, true).server(), Some(()));
    assert_eq!(pick(false, true).client(), None);
    assert_eq!(pick(true, true).server(), Some(()));
    assert_eq!(pick(true, true).client(), opt);
    let bare = Install { client: true, code_bin: None, server: false };
    assert_eq!(bare.client(), Some(ClientOpt { code_bin: None }));
}
