use remote_shell::commands::Commands;
use remote_shell::io::{
    entry_listed, join_path, move_step, render_listing, touch_step, FileOperation,
    IOOperationHandler, ListedEntry, MoveStep, Outcome, TouchStep,
};

fn handler() -> IOOperationHandler {
    IOOperationHandler::new("/home/user".to_string())
}

#[test]
fn join_path_cases() {
    assert_eq!(join_path("/home", "x"), "/home/x");
    assert_eq!(join_path("/home/", "x"), "/home/x");
    assert_eq!(join_path("/home", "/etc"), "/etc");
    assert_eq!(join_path("", "x"), "x");
    assert_eq!(join_path("/home", ""), "/home/");
    assert_eq!(join_path("/home", ".."), "/home/..");
}

#[test]
fn pwd_replies_working_directory() {
    let mut h = handler();
    assert_eq!(h.perform_operation(Commands::Pwd), Outcome::Reply(Some("/home/user".to_string())));
    assert_eq!(h.get_wd(), "/home/user");
    assert_eq!(h.pwd(Commands::Popd), None);
}

#[test]
fn pushd_then_popd() {
    let mut h = handler();
    assert_eq!(h.perform_operation(Commands::Pushd { path: "/tmp" }), Outcome::Reply(None));
    assert_eq!(h.get_wd(), "/home/user");
    assert_eq!(h.perform_operation(Commands::Pushd { path: "rel" }), Outcome::Reply(None));
    assert_eq!(h.perform_operation(Commands::Popd), Outcome::Reply(Some("rel".to_string())));
    assert_eq!(h.get_wd(), "rel");
    assert_eq!(h.perform_operation(Commands::Popd), Outcome::Reply(Some("/tmp".to_string())));
    assert_eq!(h.get_wd(), "/tmp");
    assert_eq!(
        h.perform_operation(Commands::Popd),
        Outcome::Fail("Directory stack is empty.".to_string())
    );
    assert_eq!(h.get_wd(), "/tmp");
}

#[test]
fn popd_on_empty_stack() {
    let mut h = handler();
    assert_eq!(h.popd(Commands::Popd), Outcome::Fail("Directory stack is empty.".to_string()));
    assert_eq!(h.popd(Commands::Pwd), Outcome::Reply(None));
    assert_eq!(h.pushd(Commands::Pwd), None);
}

#[test]
fn unknown_command_messages() {
    let mut h = handler();
    assert_eq!(
        h.perform_operation(Commands::new("mkdir")),
        Outcome::Fail("Missing operands.".to_string())
    );
    assert_eq!(
        h.perform_operation(Commands::new("cat x")),
        Outcome::Fail("Command not found.".to_string())
    );
    assert_eq!(h.unkown_command(Commands::Pwd), Outcome::Fail("Command not found.".to_string()));
}

#[test]
fn file_operations_are_relative_to_working_directory() {
    let mut h = handler();
    assert_eq!(
        h.perform_operation(Commands::new("mkdir -p a/b")),
        Outcome::Perform(FileOperation::CreateDir { path: "/home/user/a/b".to_string(), all: true })
    );
    assert_eq!(
        h.perform_operation(Commands::new("cp x /tmp/y -l")),
        Outcome::Perform(FileOperation::Symlink {
            source: "/home/user/x".to_string(),
            destination: "/tmp/y".to_string()
        })
    );
    assert_eq!(
        h.perform_operation(Commands::new("cp x y")),
        Outcome::Perform(FileOperation::Copy {
            source: "/home/user/x".to_string(),
            destination: "/home/user/y".to_string()
        })
    );
    assert_eq!(
        h.perform_operation(Commands::new("mv x y")),
        Outcome::Perform(FileOperation::Move {
            source: "/home/user/x".to_string(),
            destination: "/home/user/y".to_string()
        })
    );
    assert_eq!(
        h.perform_operation(Commands::new("touch f")),
        Outcome::Perform(FileOperation::Touch { path: "/home/user/f".to_string() })
    );
    assert_eq!(
        h.perform_operation(Commands::new("rmdir d")),
        Outcome::Perform(FileOperation::RemoveDir { path: "/home/user/d".to_string(), all: false })
    );
    assert_eq!(
        h.perform_operation(Commands::new("ls -Rl")),
        Outcome::Perform(FileOperation::List {
            path: "/home/user".to_string(),
            recursive: true,
            almost_all: false,
            list: true,
            reverse: false
        })
    );
    assert_eq!(
        h.perform_operation(Commands::new("cd ..")),
        Outcome::Perform(FileOperation::ChangeDir { path: "/home/user/..".to_string() })
    );
    assert_eq!(h.get_wd(), "/home/user");
}

#[test]
fn rm_variants() {
    let h = handler();
    assert_eq!(
        h.rm(Commands::new("rm f")),
        Outcome::Perform(FileOperation::RemoveFile { path: "/home/user/f".to_string() })
    );
    assert_eq!(
        h.rm(Commands::new("rm -r d")),
        Outcome::Perform(FileOperation::RemoveTree { path: "/home/user/d".to_string() })
    );
    assert_eq!(
        h.rm(Commands::new("rm -d d")),
        Outcome::Perform(FileOperation::RemoveDir { path: "/home/user/d".to_string(), all: false })
    );
    assert_eq!(
        h.rm(Commands::new("rm -rd d")),
        Outcome::Perform(FileOperation::RemoveDir { path: "/home/user/d".to_string(), all: true })
    );
    assert_eq!(h.rm(Commands::Pwd), Outcome::Reply(None));
    assert_eq!(h.mkdir(Commands::Pwd), Outcome::Reply(None));
    assert_eq!(h.cp(Commands::Pwd), Outcome::Reply(None));
    assert_eq!(h.mv(Commands::Pwd), Outcome::Reply(None));
    assert_eq!(h.touch(Commands::Pwd), Outcome::Reply(None));
    assert_eq!(h.rmdir(Commands::Pwd), Outcome::Reply(None));
    assert_eq!(h.ls(Commands::Pwd), Outcome::Reply(None));
    assert_eq!(h.cd(Commands::Pwd), Outcome::Reply(None));
}

#[test]
fn enter_directory_then_pwd() {
    let mut h = handler();
    h.perform_operation(Commands::new("pushd /srv"));
    assert_eq!(h.enter_directory("/var/log".to_string()), Some("/var/log".to_string()));
    assert_eq!(h.get_wd(), "/var/log");
    assert_eq!(h.perform_operation(Commands::Pwd), Outcome::Reply(Some("/var/log".to_string())));
    assert_eq!(h.perform_operation(Commands::Popd), Outcome::Reply(Some("/srv".to_string())));
}

#[test]
fn listing_rules() {
    assert!(entry_listed("file", false));
    assert!(!entry_listed(".hidden", false));
    assert!(!entry_listed("file", true));
    assert_eq!(move_step(true), MoveStep::RemoveSource);
    assert_eq!(move_step(false), MoveStep::CopyThenRemoveSource);
    assert_eq!(touch_step(true), TouchStep::Open);
    assert_eq!(touch_step(false), TouchStep::Create);
}

fn entry(name: &str, size: u64, created: &str) -> ListedEntry {
    ListedEntry { name: name.to_string(), size, created: created.to_string() }
}

#[test]
fn short_listing() {
    let folders = vec![vec![entry("a", 0, ""), entry("b", 0, "")], vec![entry("c", 0, "")]];
    assert_eq!(render_listing(&folders, false, false), "a b \n\nc \n\n");
    assert_eq!(render_listing(&folders, false, true), "b a \n\nc \n\n");
    assert_eq!(render_listing(&vec![], false, false), "");
    assert_eq!(render_listing(&vec![vec![]], false, false), "\n\n");
}

#[test]
fn long_listing() {
    let folders = vec![vec![entry("notes.txt", 1234, "01/02/2021 10:11:12"), entry("big", 123456789, "x")]];
    let expected = format!(
        "\n{:>8} {:20} {}\n{:>8} {:20} {}\n\n",
        1234, "01/02/2021 10:11:12", "notes.txt", 123456789, "x", "big"
    );
    assert_eq!(render_listing(&folders, true, false), expected);
    assert_eq!(
        render_listing(&folders, true, false),
        "\n    1234 01/02/2021 10:11:12  notes.txt\n123456789 x                    big\n\n"
    );
    let zero = vec![vec![entry("z", 0, "")]];
    assert_eq!(render_listing(&zero, true, false), "\n       0                      z\n\n");
}
