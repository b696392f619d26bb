use remote_shell::commands::{is_io_command_name, Commands, Opts};

#[test]
fn parses_copy_with_short_recursive_flag() {
    let c = Commands::new("cp asd assd -r");
    assert_eq!(
        c,
        Commands::Cp { source: "asd", destination: "assd", recursive: true, symlink: false }
    );
}

#[test]
fn parses_move_ignoring_unknown_flag() {
    let c = Commands::new("mv asd assd -p");
    assert_eq!(c, Commands::Mv { source: "asd", destination: "assd" });
}

#[test]
fn long_flag_is_not_looked_at_when_short_letter_is_asked() {
    let c = Commands::new("cp a b --recursive --link");
    assert_eq!(c, Commands::Cp { source: "a", destination: "b", recursive: false, symlink: false });
}

#[test]
fn short_flags_in_one_group() {
    let c = Commands::new("ls -lA");
    assert_eq!(c, Commands::Ls { almost_all: true, list: true, reverse: false, recursive: false });
    let c = Commands::new("ls -R -r");
    assert_eq!(c, Commands::Ls { almost_all: false, list: false, reverse: true, recursive: true });
}

#[test]
fn short_letter_found_anywhere_in_a_group() {
    let c = Commands::new("rm -dr x");
    assert_eq!(c, Commands::Rm { path: "x", recursive: true, directory: true });
    let c = Commands::new("rmdir x -p");
    assert_eq!(c, Commands::Rmdir { path: "x", parent: true });
    let c = Commands::new("mkdir dir");
    assert_eq!(c, Commands::Mkdir { path: "dir", parent: false });
}

#[test]
fn missing_operands_make_an_unknown_command() {
    assert_eq!(Commands::new("mkdir"), Commands::UnknowCommand { command: "mkdir" });
    assert_eq!(Commands::new("cp a"), Commands::UnknowCommand { command: "cp" });
    assert_eq!(Commands::new("cd -p"), Commands::UnknowCommand { command: "cd" });
}

#[test]
fn commands_without_operands() {
    assert_eq!(Commands::new("pwd"), Commands::Pwd);
    assert_eq!(Commands::new("popd"), Commands::Popd);
    assert_eq!(Commands::new("pwd extra"), Commands::Pwd);
    assert_eq!(
        Commands::new("ls"),
        Commands::Ls { almost_all: false, list: false, reverse: false, recursive: false }
    );
}

#[test]
fn unknown_word_and_empty_line() {
    assert_eq!(Commands::new("foo bar"), Commands::UnknowCommand { command: "foo" });
    assert_eq!(Commands::new(""), Commands::UnknowCommand { command: "" });
    assert_eq!(Commands::new("PWD"), Commands::UnknowCommand { command: "PWD" });
}

#[test]
fn double_space_gives_an_empty_operand() {
    assert_eq!(Commands::new("cd  x"), Commands::Cd { path: "" });
    assert_eq!(Commands::new("touch f"), Commands::Touch { file: "f" });
    assert_eq!(Commands::new("pushd /tmp"), Commands::Pushd { path: "/tmp" });
}

#[test]
fn as_string_names_the_command() {
    assert_eq!(Commands::new("cp a b").as_string(), "cp");
    assert_eq!(Commands::new("mkdir").as_string(), "mkdir");
    assert_eq!(Commands::new("hello world").as_string(), "hello");
    assert_eq!(Commands::new("popd").as_string(), "popd");
    assert_eq!(Commands::new("ls -l").as_string(), "ls");
}

#[test]
fn opts_sorts_words_by_kind() {
    let o = Opts::new(vec!["cp", "-r", "a", "--link", "b", "-", "--"]);
    assert_eq!(o.command, "cp");
    assert_eq!(o.non_options, vec!["a", "b"]);
    assert_eq!(o.double_dash_options, vec!["--link", "--"]);
    assert_eq!(o.single_dash_options, vec!["-r", "-"]);
    assert_eq!(o.mandatory_count(), 2);
    assert_eq!(o.nth_non_option(1), "b");
}

#[test]
fn is_exist_cases() {
    let o = Opts::new(vec!["x", "-ab", "--long"]);
    assert!(o.is_exist(Some("long"), None));
    assert!(!o.is_exist(Some("lon"), None));
    assert!(o.is_exist(None, Some('b')));
    assert!(!o.is_exist(Some("long"), Some('c')));
    assert!(!o.is_exist(None, None));
}

#[test]
fn generators_and_operand_check() {
    let o = Opts::new(vec!["mv", "a"]);
    let c = Commands::check_mandory_args_and_generate(Commands::generate_mv, o, 2);
    assert_eq!(c, Commands::UnknowCommand { command: "mv" });
    let o = Opts::new(vec!["mv", "a", "b"]);
    let c = Commands::check_mandory_args_and_generate(Commands::generate_mv, o, 2);
    assert_eq!(c, Commands::Mv { source: "a", destination: "b" });
    let o = Opts::new(vec!["whatever", "p"]);
    assert_eq!(Commands::generate_unknown(o), Commands::UnknowCommand { command: "whatever" });
}

#[test]
fn operand_limit() {
    let mut line = String::from("mkdir");
    for _ in 0..256 {
        line.push_str(" a");
    }
    assert!(!Commands::operand_count_fits(&line));
    let mut line = String::from("pwd");
    for _ in 0..256 {
        line.push_str(" a");
    }
    assert!(Commands::operand_count_fits(&line));
    assert_eq!(Commands::new(&line), Commands::Pwd);
    assert!(Commands::operand_count_fits("cp a b"));
}

#[test]
fn io_command_names() {
    assert!(is_io_command_name("pushd"));
    assert!(is_io_command_name("ls"));
    assert!(!is_io_command_name("cat"));
    assert!(!is_io_command_name(""));
}
