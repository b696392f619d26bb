use vstd::prelude::*;
use vstd::string::*;
use crate::commands::CommandView;
use crate::commands::Commands;
use crate::commands::is_io_command;
use crate::commands::is_io_command_name;
use crate::text::begins_with;
use crate::text::decimal;
use crate::text::has_prefix;
use crate::text::lemma_decimal_reads_back;
use crate::text::split_words;
use crate::commands::parse_command;
use crate::text::pad_left;
use crate::text::pad_right;
use crate::text::push_decimal;
use crate::text::push_spaces;
use crate::text::push_char;
use crate::text::push_str;
use crate::text::str_begins_with;

verus! {

/// `path` taken relative to `base`, as a path join does on Unix: an absolute
/// `path` stands for itself; otherwise it follows `base`, with one `/`
/// between them unless `base` is empty or already ends with `/`.
pub open spec fn joined_path(base: Seq<char>, path: Seq<char>) -> Seq<char> {
    if begins_with(path, '/') {
        path
    } else if base.len() == 0 || base.last() == '/' {
        base + path
    } else {
        base + seq!['/'] + path
    }
}

/// Returns `path` taken relative to `base`; see `joined_path`.
pub fn join_path(base: &str, path: &str) -> (r: String)
    ensures
        r@ == joined_path(base@, path@),
{
    if str_begins_with(path, '/') {
        path.to_owned()
    } else {
        let mut r = base.to_owned();
        let n = base.unicode_len();
        if n > 0 && base.get_char(n - 1) != '/' {
            push_char(&mut r, '/');
        }
        push_str(&mut r, path);
        r
    }
}

/// A file-system operation that a command asks for, by the characters of its
/// paths.
pub enum FileOperationView {
    CreateDir { path: Seq<char>, all: bool },
    RemoveDir { path: Seq<char>, all: bool },
    RemoveFile { path: Seq<char> },
    RemoveTree { path: Seq<char> },
    Copy { source: Seq<char>, destination: Seq<char> },
    Symlink { source: Seq<char>, destination: Seq<char> },
    Move { source: Seq<char>, destination: Seq<char> },
    Touch { path: Seq<char> },
    List { path: Seq<char>, recursive: bool, almost_all: bool, list: bool, reverse: bool },
    ChangeDir { path: Seq<char> },
}

/// A file-system operation that a command asks for. Its paths are already
/// taken relative to the working directory.
#[derive(Debug, PartialEq, Eq)]
pub enum FileOperation {
    /// Create the directory; with `all`, its missing parents too.
    CreateDir { path: String, all: bool },
    /// Remove the empty directory; with `all`, the directory and all it holds.
    RemoveDir { path: String, all: bool },
    /// Remove the file.
    RemoveFile { path: String },
    /// Check that the directory can be read, then remove its files and
    /// subdirectories, deepest first, and the directory itself.
    RemoveTree { path: String },
    /// Copy the file.
    Copy { source: String, destination: String },
    /// Make `destination` a symbolic link to `source`.
    Symlink { source: String, destination: String },
    /// Move the file; see `move_step`.
    Move { source: String, destination: String },
    /// Open the file, or create it; see `touch_step`.
    Touch { path: String },
    /// List the directory; see `entry_listed` and `render_listing`.
    List { path: String, recursive: bool, almost_all: bool, list: bool, reverse: bool },
    /// Check that the directory can be read, resolve it to its canonical form
    /// and hand that to `IOOperationHandler::enter_directory`.
    ChangeDir { path: String },
}

impl View for FileOperation {
    type V = FileOperationView;

    open spec fn view(&self) -> FileOperationView {
        match self {
            FileOperation::CreateDir { path, all } => FileOperationView::CreateDir {
                path: path@,
                all: *all,
            },
            FileOperation::RemoveDir { path, all } => FileOperationView::RemoveDir {
                path: path@,
                all: *all,
            },
            FileOperation::RemoveFile { path } => FileOperationView::RemoveFile { path: path@ },
            FileOperation::RemoveTree { path } => FileOperationView::RemoveTree { path: path@ },
            FileOperation::Copy { source, destination } => FileOperationView::Copy {
                source: source@,
                destination: destination@,
            },
            FileOperation::Symlink { source, destination } => FileOperationView::Symlink {
                source: source@,
                destination: destination@,
            },
            FileOperation::Move { source, destination } => FileOperationView::Move {
                source: source@,
                destination: destination@,
            },
            FileOperation::Touch { path } => FileOperationView::Touch { path: path@ },
            FileOperation::List { path, recursive, almost_all, list, reverse } =>
                FileOperationView::List {
                path: path@,
                recursive: *recursive,
                almost_all: *almost_all,
                list: *list,
                reverse: *reverse,
            },
            FileOperation::ChangeDir { path } => FileOperationView::ChangeDir { path: path@ },
        }
    }
}

/// What handling a command gives, by characters.
pub enum OutcomeView {
    Reply(Option<Seq<char>>),
    Fail(Seq<char>),
    Perform(FileOperationView),
}

/// What handling a command gives: a reply (with an optional text), a
/// refusal with its message, or a file-system operation to perform.
#[derive(Debug, PartialEq, Eq)]
pub enum Outcome {
    Reply(Option<String>),
    Fail(String),
    Perform(FileOperation),
}

impl View for Outcome {
    type V = OutcomeView;

    open spec fn view(&self) -> OutcomeView {
        match self {
            Outcome::Reply(Some(s)) => OutcomeView::Reply(Some(s@)),
            Outcome::Reply(None) => OutcomeView::Reply(None),
            Outcome::Fail(m) => OutcomeView::Fail(m@),
            Outcome::Perform(op) => OutcomeView::Perform(op@),
        }
    }
}

/// The state of a session: its working directory and its directory stack,
/// the top last.
pub struct HandlerView {
    pub working_directory: Seq<char>,
    pub directory_stack: Seq<Seq<char>>,
}

/// The message of `popd` on an empty stack.
pub open spec fn empty_stack_message() -> Seq<char> {
    "Directory stack is empty."@
}

/// The message for a command word that names a command given too few operands.
pub open spec fn missing_operands_message() -> Seq<char> {
    "Missing operands."@
}

/// The message for a command word that names no command.
pub open spec fn not_found_message() -> Seq<char> {
    "Command not found."@
}

/// The refusal of an unknown command.
pub open spec fn unknown_message(name: Seq<char>) -> Seq<char> {
    if is_io_command(name) {
        missing_operands_message()
    } else {
        not_found_message()
    }
}

/// The state after a command and what the command gives. Only `pushd` and
/// `popd` change the state here; `cd` changes it once its directory has been
/// resolved, through `IOOperationHandler::enter_directory`.
pub open spec fn handle(h: HandlerView, c: CommandView) -> (HandlerView, OutcomeView) {
    let wd = h.working_directory;
    match c {
        CommandView::Cd { path } => (
            h,
            OutcomeView::Perform(FileOperationView::ChangeDir { path: joined_path(wd, path) }),
        ),
        CommandView::Ls { almost_all, list, reverse, recursive } => (
            h,
            OutcomeView::Perform(
                FileOperationView::List { path: wd, recursive, almost_all, list, reverse },
            ),
        ),
        CommandView::Mkdir { path, parent } => (
            h,
            OutcomeView::Perform(
                FileOperationView::CreateDir { path: joined_path(wd, path), all: parent },
            ),
        ),
        CommandView::Rm { path, recursive, directory } => (
            h,
            OutcomeView::Perform(
                if directory {
                    FileOperationView::RemoveDir { path: joined_path(wd, path), all: recursive }
                } else if recursive {
                    FileOperationView::RemoveTree { path: joined_path(wd, path) }
                } else {
                    FileOperationView::RemoveFile { path: joined_path(wd, path) }
                },
            ),
        ),
        CommandView::Rmdir { path, parent } => (
            h,
            OutcomeView::Perform(
                FileOperationView::RemoveDir { path: joined_path(wd, path), all: parent },
            ),
        ),
        CommandView::Cp { source, destination, recursive, symlink } => (
            h,
            OutcomeView::Perform(
                if symlink {
                    FileOperationView::Symlink {
                        source: joined_path(wd, source),
                        destination: joined_path(wd, destination),
                    }
                } else {
                    FileOperationView::Copy {
                        source: joined_path(wd, source),
                        destination: joined_path(wd, destination),
                    }
                },
            ),
        ),
        CommandView::Mv { source, destination } => (
            h,
            OutcomeView::Perform(
                FileOperationView::Move {
                    source: joined_path(wd, source),
                    destination: joined_path(wd, destination),
                },
            ),
        ),
        CommandView::Touch { file } => (
            h,
            OutcomeView::Perform(FileOperationView::Touch { path: joined_path(wd, file) }),
        ),
        CommandView::Pwd => (h, OutcomeView::Reply(Some(wd))),
        CommandView::Pushd { path } => (
            HandlerView {
                working_directory: wd,
                directory_stack: h.directory_stack.push(path),
            },
            OutcomeView::Reply(None),
        ),
        CommandView::Popd => if h.directory_stack.len() == 0 {
            (h, OutcomeView::Fail(empty_stack_message()))
        } else {
            (
                HandlerView {
                    working_directory: h.directory_stack.last(),
                    directory_stack: h.directory_stack.drop_last(),
                },
                OutcomeView::Reply(Some(h.directory_stack.last())),
            )
        },
        CommandView::UnknowCommand { command } => (
            h,
            OutcomeView::Fail(unknown_message(command)),
        ),
    }
}

/// The session state of the shell: the working directory and the stack of
/// directories that `pushd` saved.
pub struct IOOperationHandler {
    working_directory: String,
    directory_stack: Vec<String>,
}

impl View for IOOperationHandler {
    type V = HandlerView;

    closed spec fn view(&self) -> HandlerView {
        HandlerView {
            working_directory: self.working_directory@,
            directory_stack: self.directory_stack@.map_values(|s: String| s@),
        }
    }
}

impl IOOperationHandler {
    /// A session in `working_directory` with an empty directory stack.
    pub fn new(working_directory: String) -> (h: IOOperationHandler)
        ensures
            h@ == (HandlerView {
                working_directory: working_directory@,
                directory_stack: Seq::empty(),
            }),
    {
        let directory_stack: Vec<String> = Vec::new();
        let h = IOOperationHandler { working_directory, directory_stack };
        assert(h@.directory_stack =~= Seq::<Seq<char>>::empty());
        h
    }

    /// Handles a command; see `handle`.
    pub fn perform_operation(&mut self, command: Commands) -> (r: Outcome)
        ensures
            final(self)@ == handle(old(self)@, command@).0,
            r@ == handle(old(self)@, command@).1,
    {
        match command {
            Commands::Cd { .. } => self.cd(command),
            Commands::Ls { .. } => self.ls(command),
            Commands::Mkdir { .. } => self.mkdir(command),
            Commands::Rm { .. } => self.rm(command),
            Commands::Rmdir { .. } => self.rmdir(command),
            Commands::Cp { .. } => self.cp(command),
            Commands::Mv { .. } => self.mv(command),
            Commands::Touch { .. } => self.touch(command),
            Commands::Pwd => Outcome::Reply(self.pwd(command)),
            Commands::Pushd { .. } => Outcome::Reply(self.pushd(command)),
            Commands::Popd => self.popd(command),
            Commands::UnknowCommand { .. } => self.unkown_command(command),
        }
    }

    /// The working directory.
    pub fn get_wd(&self) -> (wd: &String)
        ensures
            wd@ == self@.working_directory,
    {
        &self.working_directory
    }

    /// `cp`: a copy, or with `-l` a symbolic link, between the two paths
    /// taken relative to the working directory.
    pub fn cp(&self, command: Commands) -> (r: Outcome)
        ensures
            r@ == (match command@ {
                CommandView::Cp { .. } => handle(self@, command@).1,
                _ => OutcomeView::Reply(None),
            }),
    {
        if let Commands::Cp { source, destination, recursive: _, symlink } = command {
            let source_path = join_path(self.working_directory.as_str(), source);
            let destination_path = join_path(self.working_directory.as_str(), destination);
            if symlink {
                return Outcome::Perform(
                    FileOperation::Symlink { source: source_path, destination: destination_path },
                );
            } else {
                return Outcome::Perform(
                    FileOperation::Copy { source: source_path, destination: destination_path },
                );
            }
        }
        Outcome::Reply(None)
    }

    /// `mv`: a move between the two paths taken relative to the working
    /// directory.
    pub fn mv(&self, command: Commands) -> (r: Outcome)
        ensures
            r@ == (match command@ {
                CommandView::Mv { .. } => handle(self@, command@).1,
                _ => OutcomeView::Reply(None),
            }),
    {
        if let Commands::Mv { source, destination } = command {
            let source_path = join_path(self.working_directory.as_str(), source);
            let destination_path = join_path(self.working_directory.as_str(), destination);
            return Outcome::Perform(
                FileOperation::Move { source: source_path, destination: destination_path },
            );
        }
        Outcome::Reply(None)
    }

    /// `touch`: the file taken relative to the working directory.
    pub fn touch(&self, command: Commands) -> (r: Outcome)
        ensures
            r@ == (match command@ {
                CommandView::Touch { .. } => handle(self@, command@).1,
                _ => OutcomeView::Reply(None),
            }),
    {
        if let Commands::Touch { file } = command {
            let path = join_path(self.working_directory.as_str(), file);
            return Outcome::Perform(FileOperation::Touch { path });
        }
        Outcome::Reply(None)
    }

    /// The refusal of an unknown command: a known command word lacked
    /// operands, or the word names no command.
    pub fn unkown_command(&self, command: Commands) -> (r: Outcome)
        ensures
            r@ == (match command@ {
                CommandView::UnknowCommand { command } => OutcomeView::Fail(
                    unknown_message(command),
                ),
                _ => OutcomeView::Fail(not_found_message()),
            }),
    {
        let mut missing = false;
        if let Commands::UnknowCommand { command } = command {
            if is_io_command_name(command) {
                missing = true;
            }
        }
        if missing {
            Outcome::Fail("Missing operands.".to_owned())
        } else {
            Outcome::Fail("Command not found.".to_owned())
        }
    }

    /// `rmdir`: the directory taken relative to the working directory, with
    /// all it holds under `-p`.
    pub fn rmdir(&self, command: Commands) -> (r: Outcome)
        ensures
            r@ == (match command@ {
                CommandView::Rmdir { .. } => handle(self@, command@).1,
                _ => OutcomeView::Reply(None),
            }),
    {
        if let Commands::Rmdir { path, parent } = command {
            let path = join_path(self.working_directory.as_str(), path);
            return Outcome::Perform(FileOperation::RemoveDir { path, all: parent });
        }
        Outcome::Reply(None)
    }

    /// `rm`: with `-d` as `rmdir` (with `-r` standing for `-p`); otherwise a
    /// whole tree under `-r`, or a single file.
    pub fn rm(&self, command: Commands) -> (r: Outcome)
        ensures
            r@ == (match command@ {
                CommandView::Rm { .. } => handle(self@, command@).1,
                _ => OutcomeView::Reply(None),
            }),
    {
        if let Commands::Rm { path, recursive, directory } = command {
            let rm_path = join_path(self.working_directory.as_str(), path);
            if directory {
                return self.rmdir(Commands::Rmdir { path, parent: recursive });
            } else if !recursive {
                return Outcome::Perform(FileOperation::RemoveFile { path: rm_path });
            } else {
                return Outcome::Perform(FileOperation::RemoveTree { path: rm_path });
            }
        }
        Outcome::Reply(None)
    }

    /// `mkdir`: the directory taken relative to the working directory, with
    /// its missing parents under `-p`.
    pub fn mkdir(&self, command: Commands) -> (r: Outcome)
        ensures
            r@ == (match command@ {
                CommandView::Mkdir { .. } => handle(self@, command@).1,
                _ => OutcomeView::Reply(None),
            }),
    {
        if let Commands::Mkdir { path, parent } = command {
            let path = join_path(self.working_directory.as_str(), path);
            return Outcome::Perform(FileOperation::CreateDir { path, all: parent });
        }
        Outcome::Reply(None)
    }

    /// `pushd`: saves the path, as given, on the directory stack.
    pub fn pushd(&mut self, command: Commands) -> (r: Option<String>)
        ensures
            r is None,
            final(self)@ == (match command@ {
                CommandView::Pushd { .. } => handle(old(self)@, command@).0,
                _ => old(self)@,
            }),
    {
        if let Commands::Pushd { path } = command {
            let ghost before = self.directory_stack@;
            self.directory_stack.push(path.to_owned());
            assert(self.directory_stack@.map_values(|s: String| s@) =~= before.map_values(
                |s: String| s@,
            ).push(path@));
        }
        None
    }

    /// `popd`: takes the top of the directory stack as the working directory
    /// and replies with it; refused when the stack is empty.
    pub fn popd(&mut self, command: Commands) -> (r: Outcome)
        ensures
            match command@ {
                CommandView::Popd => {
                    &&& final(self)@ == handle(old(self)@, command@).0
                    &&& r@ == handle(old(self)@, command@).1
                },
                _ => final(self)@ == old(self)@ && r@ == OutcomeView::Reply(None),
            },
    {
        if let Commands::Popd = command {
            if self.directory_stack.len() == 0 {
                return Outcome::Fail("Directory stack is empty.".to_owned());
            } else {
                let ghost before = self.directory_stack@;
                let last = self.directory_stack.pop();
                match last {
                    Some(last) => {
                        assert(self.directory_stack@.map_values(|s: String| s@)
                            =~= before.map_values(|s: String| s@).drop_last());
                        self.working_directory = last.clone();
                        return Outcome::Reply(Some(last));
                    },
                    None => {
                        return Outcome::Reply(None);
                    },
                }
            }
        }
        Outcome::Reply(None)
    }

    /// `cd`: the directory taken relative to the working directory, to be
    /// resolved before the session enters it.
    pub fn cd(&self, command: Commands) -> (r: Outcome)
        ensures
            r@ == (match command@ {
                CommandView::Cd { .. } => handle(self@, command@).1,
                _ => OutcomeView::Reply(None),
            }),
    {
        if let Commands::Cd { path } = command {
            let new_dir = join_path(self.working_directory.as_str(), path);
            return Outcome::Perform(FileOperation::ChangeDir { path: new_dir });
        }
        Outcome::Reply(None)
    }

    /// Makes the resolved directory of a `cd` the working directory, and
    /// replies with it as `pwd` does.
    pub fn enter_directory(&mut self, directory: String) -> (r: Option<String>)
        ensures
            final(self)@ == (HandlerView {
                working_directory: directory@,
                directory_stack: old(self)@.directory_stack,
            }),
            r matches Some(s) && s@ == directory@,
    {
        self.working_directory = directory;
        self.pwd(Commands::Pwd)
    }

    /// `ls`: a listing of the working directory.
    pub fn ls(&self, command: Commands) -> (r: Outcome)
        ensures
            r@ == (match command@ {
                CommandView::Ls { .. } => handle(self@, command@).1,
                _ => OutcomeView::Reply(None),
            }),
    {
        if let Commands::Ls { almost_all, list, recursive, reverse } = command {
            return Outcome::Perform(
                FileOperation::List {
                    path: self.working_directory.clone(),
                    recursive,
                    almost_all,
                    list,
                    reverse,
                },
            );
        }
        Outcome::Reply(None)
    }

    /// `pwd`: the working directory.
    pub fn pwd(&self, command: Commands) -> (r: Option<String>)
        ensures
            match command@ {
                CommandView::Pwd => r matches Some(s) && s@ == self@.working_directory,
                _ => r is None,
            },
    {
        if let Commands::Pwd = command {
            return Some(self.working_directory.clone());
        }
        None
    }
}


/// How a move goes on: a read-only source is only removed; any other is
/// copied to the destination and then removed.
#[derive(Debug, PartialEq, Eq)]
pub enum MoveStep {
    RemoveSource,
    CopyThenRemoveSource,
}

/// The way `mv` goes on, from whether its source is read-only.
pub fn move_step(source_readonly: bool) -> (s: MoveStep)
    ensures
        source_readonly <==> s is RemoveSource,
{
    if source_readonly {
        MoveStep::RemoveSource
    } else {
        MoveStep::CopyThenRemoveSource
    }
}

/// How `touch` goes on: an existing file is opened, anything else created.
#[derive(Debug, PartialEq, Eq)]
pub enum TouchStep {
    Open,
    Create,
}

/// The way `touch` goes on, from whether its path is an existing file.
pub fn touch_step(is_file: bool) -> (s: TouchStep)
    ensures
        is_file <==> s is Open,
{
    if is_file {
        TouchStep::Open
    } else {
        TouchStep::Create
    }
}

/// Whether `ls` lists a directory entry of this name (and, when recursive,
/// looks into it): only without `-A`, and only names that do not start with
/// `.`; with `-A` no entry is listed.
pub open spec fn listed(name: Seq<char>, almost_all: bool) -> bool {
    !almost_all && !begins_with(name, '.')
}

/// Returns whether `ls` lists an entry named `name`; see `listed`.
pub fn entry_listed(name: &str, almost_all: bool) -> (r: bool)
    ensures
        r == listed(name@, almost_all),
{
    if !almost_all {
        return !str_begins_with(name, '.');
    }
    false
}

/// A directory entry as `ls` shows it: its name, and for the long listing
/// its size in bytes and its creation time, already written out.
#[derive(Debug)]
pub struct ListedEntry {
    pub name: String,
    pub size: u64,
    pub created: String,
}

/// One entry of a listing: the name and a space, or in the long listing a
/// new line, the size right-aligned in 8 columns, the creation time
/// left-aligned in 20, and the name, separated by spaces.
pub open spec fn entry_text(e: ListedEntry, list: bool) -> Seq<char> {
    if list {
        seq!['\n'] + pad_left(decimal(e.size as nat), 8) + seq![' '] + pad_right(e.created@, 20)
            + seq![' '] + e.name@
    } else {
        e.name@.push(' ')
    }
}

/// The entries of one directory, one after the other.
pub open spec fn entries_text(es: Seq<ListedEntry>, list: bool) -> Seq<char>
    decreases es.len(),
{
    if es.len() == 0 {
        Seq::empty()
    } else {
        entries_text(es.drop_last(), list) + entry_text(es.last(), list)
    }
}

/// One directory of a listing: its entries, in reverse order under `-r`,
/// then an empty line.
pub open spec fn folder_text(es: Seq<ListedEntry>, list: bool, reverse: bool) -> Seq<char> {
    entries_text(if reverse { es.reverse() } else { es }, list) + seq!['\n', '\n']
}

/// A whole listing: its directories one after the other.
pub open spec fn listing_text(folders: Seq<Seq<ListedEntry>>, list: bool, reverse: bool) -> Seq<
    char,
>
    decreases folders.len(),
{
    if folders.len() == 0 {
        Seq::empty()
    } else {
        listing_text(folders.drop_last(), list, reverse) + folder_text(folders.last(), list, reverse)
    }
}

/// The entries of each directory of a listing.
pub open spec fn folder_entries(folders: Seq<Vec<ListedEntry>>) -> Seq<Seq<ListedEntry>> {
    folders.map_values(|f: Vec<ListedEntry>| f@)
}

/// Appends `s` preceded by spaces up to `width` characters.
fn push_padded_left(out: &mut String, s: &str, width: usize)
    ensures
        final(out)@ == old(out)@ + pad_left(s@, width as nat),
{
    let n = s.unicode_len();
    if n < width {
        push_spaces(out, width - n);
    }
    push_str(out, s);
    assert(final(out)@ =~= old(out)@ + pad_left(s@, width as nat));
}

/// Appends `s` followed by spaces up to `width` characters.
fn push_padded_right(out: &mut String, s: &str, width: usize)
    ensures
        final(out)@ == old(out)@ + pad_right(s@, width as nat),
{
    let n = s.unicode_len();
    push_str(out, s);
    if n < width {
        push_spaces(out, width - n);
    }
    assert(final(out)@ =~= old(out)@ + pad_right(s@, width as nat));
}

/// Appends the text of one entry; see `entry_text`.
pub fn push_entry(out: &mut String, e: &ListedEntry, list: bool)
    ensures
        final(out)@ == old(out)@ + entry_text(*e, list),
{
    if list {
        push_char(out, '\n');
        let mut size = String::new();
        push_decimal(&mut size, e.size);
        assert(size@ =~= decimal(e.size as nat));
        push_padded_left(out, size.as_str(), 8);
        push_char(out, ' ');
        push_padded_right(out, e.created.as_str(), 20);
        push_char(out, ' ');
        push_str(out, e.name.as_str());
    } else {
        push_str(out, e.name.as_str());
        push_char(out, ' ');
    }
    assert(final(out)@ =~= old(out)@ + entry_text(*e, list));
}

/// The text of a listing; see `listing_text`.
pub fn render_listing(folders: &Vec<Vec<ListedEntry>>, list: bool, reverse: bool) -> (s: String)
    ensures
        s@ == listing_text(folder_entries(folders@), list, reverse),
{
    let mut output = String::new();
    let ghost fs = folder_entries(folders@);
    let nf = folders.len();
    let mut k: usize = 0;
    assert(fs.take(0) =~= Seq::<Seq<ListedEntry>>::empty());
    while k < nf
        invariant
            nf == folders.len(),
            fs == folder_entries(folders@),
            k <= nf,
            output@ == listing_text(fs.take(k as int), list, reverse),
        decreases nf - k,
    {
        let dir_vec = &folders[k];
        let ghost es = dir_vec@;
        let ghost ordered = if reverse { es.reverse() } else { es };
        let ghost start = output@;
        let n = dir_vec.len();
        let mut j: usize = 0;
        assert(ordered.take(0) =~= Seq::<ListedEntry>::empty());
        while j < n
            invariant
                n == dir_vec.len(),
                es == dir_vec@,
                ordered == (if reverse { es.reverse() } else { es }),
                j <= n,
                output@ == start + entries_text(ordered.take(j as int), list),
            decreases n - j,
        {
            let index = if reverse { n - 1 - j } else { j };
            assert(ordered[j as int] == dir_vec@[index as int]);
            push_entry(&mut output, &dir_vec[index], list);
            assert(ordered.take(j + 1).drop_last() =~= ordered.take(j as int));
            assert(start + entries_text(ordered.take(j + 1), list) =~= start + entries_text(
                ordered.take(j as int),
                list,
            ) + entry_text(ordered[j as int], list));
            j = j + 1;
        }
        assert(ordered.take(n as int) =~= ordered);
        push_char(&mut output, '\n');
        push_char(&mut output, '\n');
        assert(fs.take(k + 1).drop_last() =~= fs.take(k as int));
        assert(fs[k as int] == es);
        assert(output@ =~= listing_text(fs.take(k + 1), list, reverse));
        k = k + 1;
    }
    assert(fs.take(nf as int) =~= fs);
    output
}

/// Listing every directory in reverse order is listing the directories with
/// their entries reversed.
pub proof fn lemma_reverse_listing(folders: Seq<Seq<ListedEntry>>, list: bool)
    ensures
        listing_text(folders, list, true) == listing_text(
            folders.map_values(|es: Seq<ListedEntry>| es.reverse()),
            list,
            false,
        ),
    decreases folders.len(),
{
    let rev = folders.map_values(|es: Seq<ListedEntry>| es.reverse());
    if folders.len() > 0 {
        lemma_reverse_listing(folders.drop_last(), list);
        assert(rev.drop_last() =~= folders.drop_last().map_values(
            |es: Seq<ListedEntry>| es.reverse(),
        ));
    }
}


/// `popd` undoes `pushd`: after `pushd p` then `popd`, the working directory
/// is `p`, the directory stack is as it was before, and `popd` replies `p`.
pub proof fn lemma_pushd_then_popd(h: HandlerView, p: Seq<char>)
    ensures
        handle(handle(h, CommandView::Pushd { path: p }).0, CommandView::Popd) == (
            HandlerView { working_directory: p, directory_stack: h.directory_stack },
            OutcomeView::Reply(Some(p)),
        ),
{
    assert(h.directory_stack.push(p).drop_last() =~= h.directory_stack);
}

/// `popd` on an empty directory stack is refused and changes nothing.
pub proof fn lemma_popd_on_empty_stack(h: HandlerView)
    requires
        h.directory_stack.len() == 0,
    ensures
        handle(h, CommandView::Popd) == (h, OutcomeView::Fail(empty_stack_message())),
{
}

/// Only `pushd` and `popd` change the session state when handled.
pub proof fn lemma_state_kept(h: HandlerView, c: CommandView)
    requires
        !(c is Pushd),
        !(c is Popd),
    ensures
        handle(h, c).0 == h,
{
}

/// A directory stack grows by one with each `pushd` and shrinks by one with
/// each accepted `popd`.
pub proof fn lemma_stack_depth(h: HandlerView, c: CommandView)
    ensures
        c is Pushd ==> handle(h, c).0.directory_stack.len() == h.directory_stack.len() + 1,
        c is Popd && h.directory_stack.len() > 0 ==> handle(h, c).0.directory_stack.len()
            == h.directory_stack.len() - 1,
{
}

/// After entering a directory, `pwd` replies with it.
pub proof fn lemma_enter_then_pwd(h: HandlerView, d: Seq<char>)
    ensures
        handle(
            HandlerView { working_directory: d, directory_stack: h.directory_stack },
            CommandView::Pwd,
        ).1 == OutcomeView::Reply(Some(d)),
{
}

/// A relative path is taken under the working directory: the result starts
/// with the working directory and ends with the path.
pub proof fn lemma_join_relative(base: Seq<char>, path: Seq<char>)
    requires
        !begins_with(path, '/'),
    ensures
        has_prefix(joined_path(base, path), base),
        joined_path(base, path).subrange(
            joined_path(base, path).len() - path.len(),
            joined_path(base, path).len() as int,
        ) == path,
{
    let j = joined_path(base, path);
    assert(j.subrange(0, base.len() as int) =~= base);
    assert(j.subrange(j.len() - path.len(), j.len() as int) =~= path);
}


/// An absolute path is taken as it is, whatever the working directory.
pub proof fn lemma_join_absolute(base: Seq<char>, path: Seq<char>)
    requires
        begins_with(path, '/'),
    ensures
        joined_path(base, path) == path,
{
}

/// `ls` lists the working directory with the command's own flags: each of
/// `recursive`, `almost_all`, `list` and `reverse` of the listing is the flag
/// of the same name; the session state is kept.
pub proof fn lemma_ls_keeps_its_flags(h: HandlerView, c: CommandView)
    requires
        c is Ls,
    ensures
        handle(h, c).0 == h,
        handle(h, c).1 matches OutcomeView::Perform(
            FileOperationView::List { path: p, recursive: r, almost_all: a, list: l, reverse: v },
        ) && p == h.working_directory && r == c->Ls_recursive && a == c->Ls_almost_all
            && l == c->Ls_list && v == c->Ls_reverse,
{
}

/// `mkdir` creates the directory at the path taken relative to the working
/// directory, creating missing parents exactly under `-p`.
pub proof fn lemma_mkdir_parents_only_with_flag(h: HandlerView, c: CommandView)
    requires
        c is Mkdir,
    ensures
        handle(h, c).0 == h,
        handle(h, c).1 matches OutcomeView::Perform(FileOperationView::CreateDir { path: q, all })
            && q == joined_path(h.working_directory, c->Mkdir_path) && all == c->Mkdir_parent,
{
}

/// `rmdir` removes the directory at the path taken relative to the working
/// directory, with all it holds exactly under `-p`.
pub proof fn lemma_rmdir_all_only_with_flag(h: HandlerView, c: CommandView)
    requires
        c is Rmdir,
    ensures
        handle(h, c).0 == h,
        handle(h, c).1 matches OutcomeView::Perform(FileOperationView::RemoveDir { path: q, all })
            && q == joined_path(h.working_directory, c->Rmdir_path) && all == c->Rmdir_parent,
{
}

/// `rm` removes a directory under `-d` (with all it holds exactly when `-r`
/// is given too), a whole tree under `-r` alone, and a single file otherwise,
/// always at the path taken relative to the working directory.
pub proof fn lemma_rm_kinds(h: HandlerView, c: CommandView)
    requires
        c is Rm,
    ensures
        handle(h, c).0 == h,
        c->Rm_directory ==> (handle(h, c).1 matches OutcomeView::Perform(
            FileOperationView::RemoveDir { path: q, all },
        ) && q == joined_path(h.working_directory, c->Rm_path) && all == c->Rm_recursive),
        !c->Rm_directory && c->Rm_recursive ==> handle(h, c).1 == OutcomeView::Perform(
            FileOperationView::RemoveTree { path: joined_path(h.working_directory, c->Rm_path) },
        ),
        !c->Rm_directory && !c->Rm_recursive ==> handle(h, c).1 == OutcomeView::Perform(
            FileOperationView::RemoveFile { path: joined_path(h.working_directory, c->Rm_path) },
        ),
{
}

/// `cp` copies (or under `-l` links) from its first operand to its second,
/// and `mv` moves from its first to its second, both taken relative to the
/// working directory; neither changes the session state.
pub proof fn lemma_copy_and_move_direction(h: HandlerView, c: CommandView)
    ensures
        c is Cp ==> handle(h, c).0 == h,
        c is Cp && c->Cp_symlink ==> handle(h, c).1 == OutcomeView::Perform(
            FileOperationView::Symlink {
                source: joined_path(h.working_directory, c->Cp_source),
                destination: joined_path(h.working_directory, c->Cp_destination),
            },
        ),
        c is Cp && !c->Cp_symlink ==> handle(h, c).1 == OutcomeView::Perform(
            FileOperationView::Copy {
                source: joined_path(h.working_directory, c->Cp_source),
                destination: joined_path(h.working_directory, c->Cp_destination),
            },
        ),
        c is Mv ==> handle(h, c) == (
            h,
            OutcomeView::Perform(
                FileOperationView::Move {
                    source: joined_path(h.working_directory, c->Mv_source),
                    destination: joined_path(h.working_directory, c->Mv_destination),
                },
            ),
        ),
{
}

/// `touch` and `cd` act on their operand taken relative to the working
/// directory, and do not change the session state by themselves.
pub proof fn lemma_touch_and_cd_paths(h: HandlerView, c: CommandView)
    ensures
        c is Touch ==> handle(h, c) == (
            h,
            OutcomeView::Perform(
                FileOperationView::Touch { path: joined_path(h.working_directory, c->Touch_file) },
            ),
        ),
        c is Cd ==> handle(h, c) == (
            h,
            OutcomeView::Perform(
                FileOperationView::ChangeDir { path: joined_path(h.working_directory, c->Cd_path) },
            ),
        ),
{
}


/// A relative path follows the working directory directly when that ends
/// with `/` (or is empty), and after exactly one inserted `/` otherwise.
pub proof fn lemma_join_separator(base: Seq<char>, path: Seq<char>)
    requires
        !begins_with(path, '/'),
    ensures
        base.len() == 0 || base.last() == '/' ==> joined_path(base, path).len() == base.len()
            + path.len(),
        base.len() > 0 && base.last() != '/' ==> joined_path(base, path).len() == base.len()
            + path.len() + 1 && joined_path(base, path)[base.len() as int] == '/',
{
}

/// An unknown command is refused with `Missing operands.` when its word is
/// one of the shell's commands (which then lacked operands), and with
/// `Command not found.` otherwise; the session state is kept.
pub proof fn lemma_unknown_refusal(h: HandlerView, line: Seq<char>)
    requires
        parse_command(line) is UnknowCommand,
    ensures
        ({
            let n = split_words(line)[0];
            let known = n == "mkdir"@ || n == "rm"@ || n == "rmdir"@ || n == "ls"@ || n == "cp"@
                || n == "mv"@ || n == "touch"@ || n == "cd"@ || n == "pwd"@ || n == "pushd"@
                || n == "popd"@;
            &&& handle(h, parse_command(line)).0 == h
            &&& known ==> handle(h, parse_command(line)).1 == OutcomeView::Fail(
                "Missing operands."@,
            )
            &&& !known ==> handle(h, parse_command(line)).1 == OutcomeView::Fail(
                "Command not found."@,
            )
        }),
{
    crate::commands::lemma_command_name_is_first_word(line);
}

/// The columns of a long listing entry, for sizes of at most eight digits
/// and times of at most twenty characters: a new line, the size's digits
/// right-aligned to end in column 9, a space, the time starting in column 10
/// and padded to column 30, a space, and the name from column 31 on.
pub proof fn lemma_long_entry_columns(e: ListedEntry)
    requires
        decimal(e.size as nat).len() <= 8,
        e.created@.len() <= 20,
    ensures
        ({
            let t = entry_text(e, true);
            let d = decimal(e.size as nat);
            &&& t.len() == 31 + e.name@.len()
            &&& t[0] == '\n'
            &&& forall|i: int| 1 <= i < 9 - d.len() ==> #[trigger] t[i] == ' '
            &&& t.subrange(9 - d.len(), 9) == d
            &&& t[9] == ' '
            &&& t.subrange(10, 10 + e.created@.len() as int) == e.created@
            &&& forall|i: int| 10 + e.created@.len() <= i < 31 ==> #[trigger] t[i] == ' '
            &&& t.subrange(31, t.len() as int) == e.name@
        }),
{
    let t = entry_text(e, true);
    let d = decimal(e.size as nat);
    lemma_decimal_reads_back(e.size as nat);
    assert(t.subrange(9 - d.len(), 9) =~= d);
    assert(t.subrange(10, 10 + e.created@.len() as int) =~= e.created@);
    assert(t.subrange(31, t.len() as int) =~= e.name@);
}

/// A short listing entry is the name followed by one space.
pub proof fn lemma_short_entry(e: ListedEntry)
    ensures
        entry_text(e, false).len() == e.name@.len() + 1,
        entry_text(e, false).subrange(0, e.name@.len() as int) == e.name@,
        entry_text(e, false).last() == ' ',
{
    assert(entry_text(e, false).subrange(0, e.name@.len() as int) =~= e.name@);
}

/// Each directory of a listing ends with an empty line, and its entries
/// keep their order unless `-r` is given.
pub proof fn lemma_folder_layout(es: Seq<ListedEntry>, list: bool)
    ensures
        folder_text(es, list, false) == entries_text(es, list) + seq!['\n', '\n'],
        folder_text(es, list, true) == entries_text(es.reverse(), list) + seq!['\n', '\n'],
{
}

} // verus!
