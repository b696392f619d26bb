use vstd::prelude::*;
use vstd::string::*;
use crate::text::begins_with;
use crate::text::lemma_split_nonempty;
use crate::text::lemma_split_at_space;
use crate::text::lemma_split_no_space;
use crate::text::push_char;
use crate::text::push_str;
use crate::text::split_on_spaces;
use crate::text::split_words;
use crate::text::str_begins_with;
use crate::text::str_contains_char;
use crate::text::str_equal;
use crate::text::str_views;

verus! {

/// How a word after the command name is read: an operand, a `--long`
/// option or a `-short` option group.
#[derive(Debug, PartialEq, Eq)]
pub enum WordKind {
    NonOption,
    LongOption,
    ShortOption,
}

/// The kind of the word `w`: it is an option when it starts with `-`, and a
/// long one when it starts with `--`.
pub open spec fn word_kind(w: Seq<char>) -> WordKind {
    if !begins_with(w, '-') {
        WordKind::NonOption
    } else if w.len() >= 2 && w[1] == '-' {
        WordKind::LongOption
    } else {
        WordKind::ShortOption
    }
}

/// The words of `ws` of kind `k`, in their order.
pub open spec fn words_of_kind(ws: Seq<Seq<char>>, k: WordKind) -> Seq<Seq<char>>
    decreases ws.len(),
{
    if ws.len() == 0 {
        Seq::empty()
    } else {
        let prev = words_of_kind(ws.drop_last(), k);
        if word_kind(ws.last()) == k {
            prev.push(ws.last())
        } else {
            prev
        }
    }
}

/// The parts of a command line, by their characters.
pub struct OptsView {
    pub command: Seq<char>,
    pub single_dash_options: Seq<Seq<char>>,
    pub double_dash_options: Seq<Seq<char>>,
    pub non_options: Seq<Seq<char>>,
}

/// The first word is the command; each later word goes to the list of its kind.
pub open spec fn opts_of(words: Seq<Seq<char>>) -> OptsView {
    let rest = words.drop_first();
    OptsView {
        command: words[0],
        single_dash_options: words_of_kind(rest, WordKind::ShortOption),
        double_dash_options: words_of_kind(rest, WordKind::LongOption),
        non_options: words_of_kind(rest, WordKind::NonOption),
    }
}

/// Whether an option is given. When a short letter is asked for, the answer
/// is whether some short option group holds that letter, and the long name is
/// not looked at; otherwise it is whether `--` followed by the long name was
/// given.
pub open spec fn option_present(o: OptsView, long: Option<Seq<char>>, short: Option<char>) -> bool {
    match short {
        Some(c) => exists|i: int| 0 <= i < o.single_dash_options.len() && #[trigger] o.single_dash_options[i].contains(c),
        None => match long {
            Some(d) => exists|i: int|
                0 <= i < o.double_dash_options.len() && #[trigger] o.double_dash_options[i] == seq!['-', '-'] + d,
            None => false,
        },
    }
}

/// The characters of an optional string.
pub open spec fn opt_str_view(o: Option<&str>) -> Option<Seq<char>> {
    match o {
        Some(s) => Some(s@),
        None => None,
    }
}

/// A command line split into its command, its options and its operands.
pub struct Opts<'a> {
    pub command: &'a str,
    pub single_dash_options: Vec<&'a str>,
    pub double_dash_options: Vec<&'a str>,
    pub non_options: Vec<&'a str>,
}

impl<'a> View for Opts<'a> {
    type V = OptsView;

    open spec fn view(&self) -> OptsView {
        OptsView {
            command: self.command@,
            single_dash_options: str_views(self.single_dash_options@),
            double_dash_options: str_views(self.double_dash_options@),
            non_options: str_views(self.non_options@),
        }
    }
}

/// Returns the kind of `w`.
fn kind_of(w: &str) -> (k: WordKind)
    ensures
        k == word_kind(w@),
{
    if !str_begins_with(w, '-') {
        WordKind::NonOption
    } else if w.unicode_len() >= 2 && w.get_char(1) == '-' {
        WordKind::LongOption
    } else {
        WordKind::ShortOption
    }
}

/// Returns whether `word` is `--` followed by `name`.
fn is_long_option(word: &str, name: &str) -> (r: bool)
    ensures
        r == (word@ == seq!['-', '-'] + name@),
{
    let mut full = String::new();
    push_char(&mut full, '-');
    push_char(&mut full, '-');
    push_str(&mut full, name);
    assert(full@ =~= seq!['-', '-'] + name@);
    str_equal(full.as_str(), word)
}

impl<'a> Opts<'a> {
    /// Reads the words of a command line: the first is the command, and each
    /// later one is a short option, a long option or an operand.
    pub fn new(mut words: Vec<&'a str>) -> (o: Opts<'a>)
        requires
            words.len() > 0,
        ensures
            o@ == opts_of(str_views(words@)),
    {
        let ghost all = str_views(words@);
        let command = words.remove(0);
        let ghost rest = words@;
        assert(str_views(rest) =~= all.drop_first());
        let mut single_dash_options: Vec<&'a str> = Vec::new();
        let mut double_dash_options: Vec<&'a str> = Vec::new();
        let mut non_options: Vec<&'a str> = Vec::new();
        let n = words.len();
        let mut i: usize = 0;
        assert(str_views(rest).take(0) =~= Seq::<Seq<char>>::empty());
        assert(str_views(single_dash_options@) =~= Seq::<Seq<char>>::empty());
        assert(str_views(double_dash_options@) =~= Seq::<Seq<char>>::empty());
        assert(str_views(non_options@) =~= Seq::<Seq<char>>::empty());
        while i < n
            invariant
                n == words.len(),
                words@ == rest,
                i <= n,
                str_views(single_dash_options@) == words_of_kind(
                    str_views(rest).take(i as int),
                    WordKind::ShortOption,
                ),
                str_views(double_dash_options@) == words_of_kind(
                    str_views(rest).take(i as int),
                    WordKind::LongOption,
                ),
                str_views(non_options@) == words_of_kind(
                    str_views(rest).take(i as int),
                    WordKind::NonOption,
                ),
            decreases n - i,
        {
            let w = words[i];
            let ghost s1 = single_dash_options@;
            let ghost s2 = double_dash_options@;
            let ghost s3 = non_options@;
            let ghost pre = str_views(rest).take(i as int);
            let ghost next = str_views(rest).take(i + 1);
            assert(next.drop_last() =~= pre);
            assert(next.last() == w@);
            match kind_of(w) {
                WordKind::NonOption => {
                    non_options.push(w);
                    assert(str_views(non_options@) =~= str_views(s3).push(w@));
                },
                WordKind::LongOption => {
                    double_dash_options.push(w);
                    assert(str_views(double_dash_options@) =~= str_views(s2).push(w@));
                },
                WordKind::ShortOption => {
                    single_dash_options.push(w);
                    assert(str_views(single_dash_options@) =~= str_views(s1).push(w@));
                },
            }
            i = i + 1;
        }
        assert(str_views(rest).take(n as int) =~= str_views(rest));
        Opts { command, single_dash_options, double_dash_options, non_options }
    }

    /// Whether an option is given; see `option_present`.
    pub fn is_exist(&self, double_dash: Option<&str>, single_dash: Option<char>) -> (r: bool)
        ensures
            r == option_present(self@, opt_str_view(double_dash), single_dash),
    {
        let mut exist = false;
        if let Some(double) = double_dash {
            let n = self.double_dash_options.len();
            let mut i: usize = 0;
            while i < n
                invariant
                    n == self.double_dash_options.len(),
                    i <= n,
                    exist == exists|j: int|
                        0 <= j < i && #[trigger] self@.double_dash_options[j] == seq!['-', '-']
                            + double@,
                decreases n - i,
            {
                assert(self@.double_dash_options[i as int] == self.double_dash_options@[i as int]@);
                if is_long_option(self.double_dash_options[i], double) {
                    exist = true;
                }
                i = i + 1;
            }
        }
        if let Some(single) = single_dash {
            exist = false;
            let n = self.single_dash_options.len();
            let mut i: usize = 0;
            while i < n
                invariant
                    n == self.single_dash_options.len(),
                    i <= n,
                    exist == exists|j: int|
                        0 <= j < i && #[trigger] self@.single_dash_options[j].contains(single),
                decreases n - i,
            {
                assert(self@.single_dash_options[i as int] == self.single_dash_options@[i as int]@);
                if str_contains_char(self.single_dash_options[i], single) {
                    exist = true;
                }
                i = i + 1;
            }
        }
        exist
    }

    /// The operand at `index`.
    pub fn nth_non_option(&self, index: usize) -> (w: &'a str)
        requires
            index < self@.non_options.len(),
        ensures
            w@ == self@.non_options[index as int],
    {
        self.non_options[index]
    }

    /// The number of operands.
    pub fn mandatory_count(&self) -> (c: u8)
        requires
            self@.non_options.len() <= 255,
        ensures
            c == self@.non_options.len(),
    {
        self.non_options.len() as u8
    }
}


/// A parsed command, by the characters of its operands.
pub enum CommandView {
    Mkdir { path: Seq<char>, parent: bool },
    Rm { path: Seq<char>, recursive: bool, directory: bool },
    Rmdir { path: Seq<char>, parent: bool },
    Ls { almost_all: bool, list: bool, reverse: bool, recursive: bool },
    Cp { source: Seq<char>, destination: Seq<char>, recursive: bool, symlink: bool },
    Mv { source: Seq<char>, destination: Seq<char> },
    Touch { file: Seq<char> },
    Cd { path: Seq<char> },
    Pwd,
    Pushd { path: Seq<char> },
    Popd,
    UnknowCommand { command: Seq<char> },
}

/// A command of the shell, borrowing its operands from the command line.
#[derive(Debug, Clone, PartialEq, Eq)]
pub enum Commands<'a> {
    Mkdir { path: &'a str, parent: bool },
    Rm { path: &'a str, recursive: bool, directory: bool },
    Rmdir { path: &'a str, parent: bool },
    Ls { almost_all: bool, list: bool, reverse: bool, recursive: bool },
    Cp { source: &'a str, destination: &'a str, recursive: bool, symlink: bool },
    Mv { source: &'a str, destination: &'a str },
    Touch { file: &'a str },
    Cd { path: &'a str },
    Pwd,
    Pushd { path: &'a str },
    Popd,
    UnknowCommand { command: &'a str },
}

impl<'a> View for Commands<'a> {
    type V = CommandView;

    open spec fn view(&self) -> CommandView {
        match *self {
            Commands::Mkdir { path, parent } => CommandView::Mkdir { path: path@, parent },
            Commands::Rm { path, recursive, directory } => CommandView::Rm {
                path: path@,
                recursive,
                directory,
            },
            Commands::Rmdir { path, parent } => CommandView::Rmdir { path: path@, parent },
            Commands::Ls { almost_all, list, reverse, recursive } => CommandView::Ls {
                almost_all,
                list,
                reverse,
                recursive,
            },
            Commands::Cp { source, destination, recursive, symlink } => CommandView::Cp {
                source: source@,
                destination: destination@,
                recursive,
                symlink,
            },
            Commands::Mv { source, destination } => CommandView::Mv {
                source: source@,
                destination: destination@,
            },
            Commands::Touch { file } => CommandView::Touch { file: file@ },
            Commands::Cd { path } => CommandView::Cd { path: path@ },
            Commands::Pwd => CommandView::Pwd,
            Commands::Pushd { path } => CommandView::Pushd { path: path@ },
            Commands::Popd => CommandView::Popd,
            Commands::UnknowCommand { command } => CommandView::UnknowCommand { command: command@ },
        }
    }
}

/// The name under which a command is reported: the command word itself.
pub open spec fn command_name(c: CommandView) -> Seq<char> {
    match c {
        CommandView::Mkdir { .. } => "mkdir"@,
        CommandView::Rm { .. } => "rm"@,
        CommandView::Rmdir { .. } => "rmdir"@,
        CommandView::Ls { .. } => "ls"@,
        CommandView::Cp { .. } => "cp"@,
        CommandView::Mv { .. } => "mv"@,
        CommandView::Touch { .. } => "touch"@,
        CommandView::Cd { .. } => "cd"@,
        CommandView::Pwd => "pwd"@,
        CommandView::Pushd { .. } => "pushd"@,
        CommandView::Popd => "popd"@,
        CommandView::UnknowCommand { command } => command,
    }
}

/// The command that a split command line stands for. A known command with
/// fewer operands than it needs (one for `mkdir`, `rm`, `rmdir`, `touch`,
/// `cd`, `pushd`; two for `cp` and `mv`; none for `ls`) is an unknown command
/// under its own name, as is any word that names no command. Extra operands
/// are ignored.
pub open spec fn command_of(o: OptsView) -> CommandView {
    let n = o.command;
    let non = o.non_options;
    let unknown = CommandView::UnknowCommand { command: n };
    if n == "mkdir"@ {
        if non.len() < 1 {
            unknown
        } else {
            CommandView::Mkdir {
                path: non[0],
                parent: option_present(o, Some("parent"@), Some('p')),
            }
        }
    } else if n == "rm"@ {
        if non.len() < 1 {
            unknown
        } else {
            CommandView::Rm {
                path: non[0],
                recursive: option_present(o, Some("recursive"@), Some('r')),
                directory: option_present(o, Some("directory"@), Some('d')),
            }
        }
    } else if n == "rmdir"@ {
        if non.len() < 1 {
            unknown
        } else {
            CommandView::Rmdir {
                path: non[0],
                parent: option_present(o, Some("parent"@), Some('p')),
            }
        }
    } else if n == "ls"@ {
        CommandView::Ls {
            almost_all: option_present(o, Some("almost-all"@), Some('A')),
            list: option_present(o, Some("list"@), Some('l')),
            reverse: option_present(o, Some("reverse"@), Some('r')),
            recursive: option_present(o, Some("recursive"@), Some('R')),
        }
    } else if n == "cp"@ {
        if non.len() < 2 {
            unknown
        } else {
            CommandView::Cp {
                source: non[0],
                destination: non[1],
                recursive: option_present(o, Some("recursive"@), Some('r')),
                symlink: option_present(o, Some("link"@), Some('l')),
            }
        }
    } else if n == "mv"@ {
        if non.len() < 2 {
            unknown
        } else {
            CommandView::Mv { source: non[0], destination: non[1] }
        }
    } else if n == "touch"@ {
        if non.len() < 1 {
            unknown
        } else {
            CommandView::Touch { file: non[0] }
        }
    } else if n == "cd"@ {
        if non.len() < 1 {
            unknown
        } else {
            CommandView::Cd { path: non[0] }
        }
    } else if n == "pwd"@ {
        CommandView::Pwd
    } else if n == "pushd"@ {
        if non.len() < 1 {
            unknown
        } else {
            CommandView::Pushd { path: non[0] }
        }
    } else if n == "popd"@ {
        CommandView::Popd
    } else {
        unknown
    }
}

/// Whether reading the command counts its operands: every command but `pwd`
/// and `popd` does.
pub open spec fn counts_operands(n: Seq<char>) -> bool {
    !(n == "pwd"@ || n == "popd"@)
}

/// The command that a command line stands for.
pub open spec fn parse_command(line: Seq<char>) -> CommandView {
    command_of(opts_of(split_words(line)))
}

/// The lines that can be read: the operand count, where it is taken, must fit
/// in a `u8`.
pub open spec fn operand_count_fits(line: Seq<char>) -> bool {
    let o = opts_of(split_words(line));
    counts_operands(o.command) ==> o.non_options.len() <= 255
}

/// Whether `name` is one of the commands that read the file system or the
/// working directory.
pub open spec fn is_io_command(name: Seq<char>) -> bool {
    name == "mkdir"@ || name == "rm"@ || name == "rmdir"@ || name == "ls"@ || name == "cp"@
        || name == "mv"@ || name == "touch"@ || name == "cd"@ || name == "pwd"@
        || name == "pushd"@ || name == "popd"@
}

/// Returns whether `name` is one of the commands of the shell.
pub fn is_io_command_name(name: &str) -> (r: bool)
    ensures
        r == is_io_command(name@),
{
    str_equal(name, "mkdir") || str_equal(name, "rm") || str_equal(name, "rmdir")
        || str_equal(name, "ls") || str_equal(name, "cp") || str_equal(name, "mv")
        || str_equal(name, "touch") || str_equal(name, "cd") || str_equal(name, "pwd")
        || str_equal(name, "pushd") || str_equal(name, "popd")
}

impl<'a> Commands<'a> {
    /// The name under which the command is reported.
    pub fn as_string(&self) -> (s: String)
        ensures
            s@ == command_name(self@),
    {
        match self {
            Commands::Mkdir { .. } => "mkdir".to_owned(),
            Commands::Rm { .. } => "rm".to_owned(),
            Commands::Rmdir { .. } => "rmdir".to_owned(),
            Commands::Ls { .. } => "ls".to_owned(),
            Commands::Cp { .. } => "cp".to_owned(),
            Commands::Mv { .. } => "mv".to_owned(),
            Commands::Touch { .. } => "touch".to_owned(),
            Commands::Cd { .. } => "cd".to_owned(),
            Commands::Pwd => "pwd".to_owned(),
            Commands::Pushd { .. } => "pushd".to_owned(),
            Commands::Popd => "popd".to_owned(),
            Commands::UnknowCommand { command } => (*command).to_owned(),
        }
    }

    /// Returns whether `command` can be read: see `operand_count_fits`.
    pub fn operand_count_fits(command: &'a str) -> (r: bool)
        ensures
            r == operand_count_fits(command@),
    {
        let words = split_on_spaces(command);
        proof {
            lemma_split_nonempty(command@);
        }
        let opts = Opts::new(words);
        let n = opts.command;
        let counted = !(str_equal(n, "pwd") || str_equal(n, "popd"));
        !counted || opts.non_options.len() <= 255
    }

    /// Reads a command line: the words between spaces, the first naming the
    /// command. See `command_of`.
    pub fn new(command: &'a str) -> (c: Commands<'a>)
        requires
            operand_count_fits(command@),
        ensures
            c@ == parse_command(command@),
    {
        let words = split_on_spaces(command);
        proof {
            lemma_split_nonempty(command@);
        }
        let opts = Opts::new(words);
        let name = opts.command;
        proof {
            // The command words have lengths other than those of `pwd` and
            // `popd`, so each of them counts its operands.
            reveal_strlit("pwd");
            reveal_strlit("popd");
            reveal_strlit("mkdir");
            reveal_strlit("rm");
            reveal_strlit("rmdir");
            reveal_strlit("ls");
            reveal_strlit("cp");
            reveal_strlit("mv");
            reveal_strlit("touch");
            reveal_strlit("cd");
            reveal_strlit("pushd");
            assert("pwd"@.len() == 3 && "popd"@.len() == 4);
            assert("mkdir"@.len() == 5 && "rmdir"@.len() == 5 && "touch"@.len() == 5
                && "pushd"@.len() == 5);
            assert("rm"@.len() == 2 && "ls"@.len() == 2 && "cp"@.len() == 2 && "mv"@.len() == 2
                && "cd"@.len() == 2);
        }
        if str_equal(name, "mkdir") {
            Commands::check_mandory_args_and_generate(Commands::generate_mkdir, opts, 1)
        } else if str_equal(name, "rm") {
            Commands::check_mandory_args_and_generate(Commands::generate_rm, opts, 1)
        } else if str_equal(name, "rmdir") {
            Commands::check_mandory_args_and_generate(Commands::generate_rmdir, opts, 1)
        } else if str_equal(name, "ls") {
            Commands::check_mandory_args_and_generate(Commands::generate_ls, opts, 0)
        } else if str_equal(name, "cp") {
            Commands::check_mandory_args_and_generate(Commands::generate_cp, opts, 2)
        } else if str_equal(name, "mv") {
            Commands::check_mandory_args_and_generate(Commands::generate_mv, opts, 2)
        } else if str_equal(name, "touch") {
            Commands::check_mandory_args_and_generate(Commands::generate_touch, opts, 1)
        } else if str_equal(name, "cd") {
            Commands::check_mandory_args_and_generate(Commands::generate_cd, opts, 1)
        } else if str_equal(name, "pwd") {
            Commands::Pwd
        } else if str_equal(name, "pushd") {
            Commands::check_mandory_args_and_generate(Commands::generate_pushd, opts, 1)
        } else if str_equal(name, "popd") {
            Commands::Popd
        } else {
            Commands::check_mandory_args_and_generate(Commands::generate_unknown, opts, 1)
        }
    }

    /// An unknown command under the command word.
    pub fn generate_unknown(opts: Opts<'a>) -> (c: Commands<'a>)
        ensures
            c@ == (CommandView::UnknowCommand { command: opts@.command }),
    {
        Commands::UnknowCommand { command: opts.command }
    }

    /// `cp SOURCE DESTINATION`, with `-r` and `-l`.
    pub fn generate_cp(opts: Opts<'a>) -> (c: Commands<'a>)
        requires
            opts@.non_options.len() >= 2,
        ensures
            c@ == (CommandView::Cp {
                source: opts@.non_options[0],
                destination: opts@.non_options[1],
                recursive: option_present(opts@, Some("recursive"@), Some('r')),
                symlink: option_present(opts@, Some("link"@), Some('l')),
            }),
    {
        Commands::Cp {
            source: opts.nth_non_option(0),
            destination: opts.nth_non_option(1),
            recursive: opts.is_exist(Some("recursive"), Some('r')),
            symlink: opts.is_exist(Some("link"), Some('l')),
        }
    }

    /// `rm PATH`, with `-r` and `-d`.
    pub fn generate_rm(opts: Opts<'a>) -> (c: Commands<'a>)
        requires
            opts@.non_options.len() >= 1,
        ensures
            c@ == (CommandView::Rm {
                path: opts@.non_options[0],
                recursive: option_present(opts@, Some("recursive"@), Some('r')),
                directory: option_present(opts@, Some("directory"@), Some('d')),
            }),
    {
        Commands::Rm {
            path: opts.nth_non_option(0),
            recursive: opts.is_exist(Some("recursive"), Some('r')),
            directory: opts.is_exist(Some("directory"), Some('d')),
        }
    }

    /// `rmdir PATH`, with `-p`.
    pub fn generate_rmdir(opts: Opts<'a>) -> (c: Commands<'a>)
        requires
            opts@.non_options.len() >= 1,
        ensures
            c@ == (CommandView::Rmdir {
                path: opts@.non_options[0],
                parent: option_present(opts@, Some("parent"@), Some('p')),
            }),
    {
        Commands::Rmdir {
            path: opts.nth_non_option(0),
            parent: opts.is_exist(Some("parent"), Some('p')),
        }
    }

    /// `ls`, with `-A`, `-l`, `-r` and `-R`.
    pub fn generate_ls(opts: Opts<'a>) -> (c: Commands<'a>)
        ensures
            c@ == (CommandView::Ls {
                almost_all: option_present(opts@, Some("almost-all"@), Some('A')),
                list: option_present(opts@, Some("list"@), Some('l')),
                reverse: option_present(opts@, Some("reverse"@), Some('r')),
                recursive: option_present(opts@, Some("recursive"@), Some('R')),
            }),
    {
        Commands::Ls {
            almost_all: opts.is_exist(Some("almost-all"), Some('A')),
            list: opts.is_exist(Some("list"), Some('l')),
            reverse: opts.is_exist(Some("reverse"), Some('r')),
            recursive: opts.is_exist(Some("recursive"), Some('R')),
        }
    }

    /// `touch FILE`.
    pub fn generate_touch(opts: Opts<'a>) -> (c: Commands<'a>)
        requires
            opts@.non_options.len() >= 1,
        ensures
            c@ == (CommandView::Touch { file: opts@.non_options[0] }),
    {
        Commands::Touch { file: opts.nth_non_option(0) }
    }

    /// `mv SOURCE DESTINATION`.
    pub fn generate_mv(opts: Opts<'a>) -> (c: Commands<'a>)
        requires
            opts@.non_options.len() >= 2,
        ensures
            c@ == (CommandView::Mv {
                source: opts@.non_options[0],
                destination: opts@.non_options[1],
            }),
    {
        Commands::Mv { source: opts.nth_non_option(0), destination: opts.nth_non_option(1) }
    }

    /// `mkdir PATH`, with `-p`.
    pub fn generate_mkdir(opts: Opts<'a>) -> (c: Commands<'a>)
        requires
            opts@.non_options.len() >= 1,
        ensures
            c@ == (CommandView::Mkdir {
                path: opts@.non_options[0],
                parent: option_present(opts@, Some("parent"@), Some('p')),
            }),
    {
        Commands::Mkdir {
            path: opts.nth_non_option(0),
            parent: opts.is_exist(Some("parent"), Some('p')),
        }
    }

    /// `cd PATH`.
    pub fn generate_cd(opts: Opts<'a>) -> (c: Commands<'a>)
        requires
            opts@.non_options.len() >= 1,
        ensures
            c@ == (CommandView::Cd { path: opts@.non_options[0] }),
    {
        Commands::Cd { path: opts.nth_non_option(0) }
    }

    /// `pushd PATH`.
    pub fn generate_pushd(opts: Opts<'a>) -> (c: Commands<'a>)
        requires
            opts@.non_options.len() >= 1,
        ensures
            c@ == (CommandView::Pushd { path: opts@.non_options[0] }),
    {
        Commands::Pushd { path: opts.nth_non_option(0) }
    }

    /// Builds the command with `generator` when at least `mandatory_count`
    /// operands were given, and an unknown command under the command word
    /// otherwise.
    pub fn check_mandory_args_and_generate(
        generator: impl Fn(Opts<'a>) -> Commands<'a>,
        opts: Opts<'a>,
        mandatory_count: u8,
    ) -> (c: Commands<'a>)
        requires
            opts@.non_options.len() <= 255,
            mandatory_count <= opts@.non_options.len() ==> call_requires(generator, (opts,)),
        ensures
            opts@.non_options.len() < mandatory_count ==> c@ == (CommandView::UnknowCommand {
                command: opts@.command,
            }),
            mandatory_count <= opts@.non_options.len() ==> call_ensures(generator, (opts,), c),
    {
        if opts.mandatory_count() < mandatory_count {
            Self::generate_unknown(opts)
        } else {
            generator(opts)
        }
    }
}

/// The name under which a command line's command is reported is always the
/// first word of the line, whether the command is known, lacks operands or
/// names nothing.
pub proof fn lemma_command_name_is_first_word(line: Seq<char>)
    ensures
        command_name(parse_command(line)) == split_words(line)[0],
{
    lemma_split_nonempty(line);
}


/// Every word after the command lands in exactly one of the three lists of
/// a command line: the lists together are as long as the words.
pub proof fn lemma_words_partitioned(ws: Seq<Seq<char>>)
    ensures
        words_of_kind(ws, WordKind::ShortOption).len() + words_of_kind(ws, WordKind::LongOption).len()
            + words_of_kind(ws, WordKind::NonOption).len() == ws.len(),
    decreases ws.len(),
{
    if ws.len() > 0 {
        lemma_words_partitioned(ws.drop_last());
    }
}


/// The words of a line that are operands: those whose first character is
/// not `-` (the empty word among them).
pub open spec fn is_operand_word(w: Seq<char>) -> bool {
    w.len() == 0 || w[0] != '-'
}

/// The words of a line that are long options: those starting with `--`.
pub open spec fn is_long_option_word(w: Seq<char>) -> bool {
    w.len() >= 2 && w[0] == '-' && w[1] == '-'
}

/// The words of a line that are short option groups: those starting with a
/// single `-`.
pub open spec fn is_short_option_word(w: Seq<char>) -> bool {
    w.len() >= 1 && w[0] == '-' && !(w.len() >= 2 && w[1] == '-')
}

/// Sorting words by kind keeps exactly the words of each kind, in their
/// order: the operands are the words not starting with `-`, the long options
/// those starting with `--`, the short option groups those starting with one
/// `-`.
pub proof fn lemma_words_of_kind_filters(ws: Seq<Seq<char>>)
    ensures
        words_of_kind(ws, WordKind::NonOption) == ws.filter(|w: Seq<char>| is_operand_word(w)),
        words_of_kind(ws, WordKind::LongOption) == ws.filter(|w: Seq<char>| is_long_option_word(w)),
        words_of_kind(ws, WordKind::ShortOption) == ws.filter(
            |w: Seq<char>| is_short_option_word(w),
        ),
    decreases ws.len(),
{
    broadcast use vstd::seq_lib::group_seq_properties;

    if ws.len() == 0 {
        reveal_with_fuel(Seq::filter, 1);
        assert(ws.filter(|w: Seq<char>| is_operand_word(w)) =~= Seq::<Seq<char>>::empty());
        assert(ws.filter(|w: Seq<char>| is_long_option_word(w)) =~= Seq::<Seq<char>>::empty());
        assert(ws.filter(|w: Seq<char>| is_short_option_word(w)) =~= Seq::<Seq<char>>::empty());
    } else {
        let init = ws.drop_last();
        lemma_words_of_kind_filters(init);
        assert(init.push(ws.last()) =~= ws);
        init.lemma_filter_push(ws.last(), |w: Seq<char>| is_operand_word(w));
        init.lemma_filter_push(ws.last(), |w: Seq<char>| is_long_option_word(w));
        init.lemma_filter_push(ws.last(), |w: Seq<char>| is_short_option_word(w));
    }
}

/// The operands of a command line are its words after the command that do
/// not start with `-`, in order; the option lists hold the other words.
pub proof fn lemma_operands_of_line(line: Seq<char>)
    ensures
        opts_of(split_words(line)).command == split_words(line)[0],
        opts_of(split_words(line)).non_options == split_words(line).drop_first().filter(
            |w: Seq<char>| is_operand_word(w),
        ),
        opts_of(split_words(line)).double_dash_options == split_words(line).drop_first().filter(
            |w: Seq<char>| is_long_option_word(w),
        ),
        opts_of(split_words(line)).single_dash_options == split_words(line).drop_first().filter(
            |w: Seq<char>| is_short_option_word(w),
        ),
{
    lemma_words_of_kind_filters(split_words(line).drop_first());
}


/// `cd` followed by one word that does not start with `-` changes to that
/// word, whatever other characters (such as `-`) it holds.
pub proof fn lemma_cd_takes_its_operand(w: Seq<char>)
    requires
        !w.contains(' '),
        is_operand_word(w),
    ensures
        parse_command(seq!['c', 'd', ' '] + w) == (CommandView::Cd { path: w }),
{
    let name = seq!['c', 'd'];
    let line = seq!['c', 'd', ' '] + w;
    assert(line =~= name + seq![' '] + w);
    lemma_split_at_space(name, w);
    lemma_split_no_space(w);
    assert(!name.contains(' ')) by {
        if name.contains(' ') {
            let i = choose|i: int| 0 <= i < name.len() && name[i] == ' ';
            assert(name[i] != ' ');
        }
    }
    lemma_split_no_space(name);
    let ws = split_words(line);
    assert(ws =~= seq![name, w]);
    assert(ws.drop_first() =~= seq![w]);
    assert(seq![w].drop_last() =~= Seq::<Seq<char>>::empty());
    let o = opts_of(ws);
    assert(words_of_kind(Seq::<Seq<char>>::empty(), WordKind::NonOption) =~= Seq::<Seq<char>>::empty());
    assert(word_kind(w) == WordKind::NonOption);
    assert(o.non_options =~= seq![w]);
    reveal_strlit("cd");
    reveal_strlit("mkdir");
    reveal_strlit("rm");
    reveal_strlit("rmdir");
    reveal_strlit("ls");
    reveal_strlit("cp");
    reveal_strlit("mv");
    reveal_strlit("touch");
    assert(o.command =~= "cd"@);
    assert("mkdir"@.len() == 5 && "rmdir"@.len() == 5 && "touch"@.len() == 5);
    assert("rm"@[0] == 'r' && "ls"@[0] == 'l' && "mv"@[0] == 'm' && "cp"@[1] == 'p');
}


/// The operands of a command line: its words after the command that do not
/// start with `-`, in order.
pub open spec fn operand_words(line: Seq<char>) -> Seq<Seq<char>> {
    split_words(line).drop_first().filter(|w: Seq<char>| is_operand_word(w))
}

/// Whether some short option group of the line (a word after the command
/// starting with a single `-`) holds the letter `c`.
pub open spec fn short_letter_given(line: Seq<char>, c: char) -> bool {
    exists|i: int| 0 <= i < short_groups(line).len() && #[trigger] short_groups(line)[i].contains(c)
}

/// The short option groups of a line: its words after the command that start
/// with a single `-`, in order.
pub open spec fn short_groups(line: Seq<char>) -> Seq<Seq<char>> {
    split_words(line).drop_first().filter(|w: Seq<char>| is_short_option_word(w))
}

/// A short letter is present exactly when some short option group of the
/// line holds it, whatever long name is asked for too.
proof fn lemma_short_option_present(o: OptsView, line: Seq<char>, long: Option<Seq<char>>, c: char)
    requires
        o.single_dash_options == short_groups(line),
    ensures
        option_present(o, long, Some(c)) == short_letter_given(line, c),
{
    if option_present(o, long, Some(c)) {
        let i = choose|i: int|
            0 <= i < o.single_dash_options.len() && #[trigger] o.single_dash_options[i].contains(c);
        assert(short_groups(line)[i].contains(c));
        assert(short_letter_given(line, c));
    }
    if short_letter_given(line, c) {
        let i = choose|i: int|
            0 <= i < short_groups(line).len() && #[trigger] short_groups(line)[i].contains(c);
        assert(o.single_dash_options[i].contains(c));
        assert(exists|j: int|
            0 <= j < o.single_dash_options.len() && #[trigger] o.single_dash_options[j].contains(c));
        let sc: Option<char> = Some(c);
        assert(sc->0 == c);
        assert(option_present(o, long, sc));
    }
}

/// The command words and what each makes of a line, stated from the line's
/// words alone: its first word names the command, its operands are its later
/// words that do not start with `-`, and each flag is set exactly when some
/// short option group holds its letter (`ls`: `A`, `l`, `r`, `R`; `rm`: `r`,
/// `d`; `mkdir` and `rmdir`: `p`; `cp`: `r`, `l`). A command given fewer
/// operands than it needs, or a first word naming no command, reads as an
/// unknown command under that word.
pub proof fn lemma_command_table(line: Seq<char>)
    ensures
        ({
            let n = split_words(line)[0];
            let ops = operand_words(line);
            let unknown = CommandView::UnknowCommand { command: n };
            &&& n == "ls"@ ==> parse_command(line) == CommandView::Ls {
                almost_all: short_letter_given(line, 'A'),
                list: short_letter_given(line, 'l'),
                reverse: short_letter_given(line, 'r'),
                recursive: short_letter_given(line, 'R'),
            }
            &&& n == "mkdir"@ ==> parse_command(line) == if ops.len() >= 1 {
                CommandView::Mkdir { path: ops[0], parent: short_letter_given(line, 'p') }
            } else {
                unknown
            }
            &&& n == "rm"@ ==> parse_command(line) == if ops.len() >= 1 {
                CommandView::Rm {
                    path: ops[0],
                    recursive: short_letter_given(line, 'r'),
                    directory: short_letter_given(line, 'd'),
                }
            } else {
                unknown
            }
            &&& n == "rmdir"@ ==> parse_command(line) == if ops.len() >= 1 {
                CommandView::Rmdir { path: ops[0], parent: short_letter_given(line, 'p') }
            } else {
                unknown
            }
            &&& n == "cp"@ ==> parse_command(line) == if ops.len() >= 2 {
                CommandView::Cp {
                    source: ops[0],
                    destination: ops[1],
                    recursive: short_letter_given(line, 'r'),
                    symlink: short_letter_given(line, 'l'),
                }
            } else {
                unknown
            }
            &&& n == "mv"@ ==> parse_command(line) == if ops.len() >= 2 {
                CommandView::Mv { source: ops[0], destination: ops[1] }
            } else {
                unknown
            }
            &&& n == "touch"@ ==> parse_command(line) == if ops.len() >= 1 {
                CommandView::Touch { file: ops[0] }
            } else {
                unknown
            }
            &&& n == "cd"@ ==> parse_command(line) == if ops.len() >= 1 {
                CommandView::Cd { path: ops[0] }
            } else {
                unknown
            }
            &&& n == "pushd"@ ==> parse_command(line) == if ops.len() >= 1 {
                CommandView::Pushd { path: ops[0] }
            } else {
                unknown
            }
            &&& n == "pwd"@ ==> parse_command(line) == CommandView::Pwd
            &&& n == "popd"@ ==> parse_command(line) == CommandView::Popd
            &&& !(n == "ls"@ || n == "mkdir"@ || n == "rm"@ || n == "rmdir"@ || n == "cp"@
                || n == "mv"@ || n == "touch"@ || n == "cd"@ || n == "pushd"@ || n == "pwd"@
                || n == "popd"@) ==> parse_command(line) == unknown
        }),
{
    lemma_operands_of_line(line);
    lemma_split_nonempty(line);
    reveal_strlit("mkdir");
    reveal_strlit("rm");
    reveal_strlit("rmdir");
    reveal_strlit("ls");
    reveal_strlit("cp");
    reveal_strlit("mv");
    reveal_strlit("touch");
    reveal_strlit("cd");
    reveal_strlit("pwd");
    reveal_strlit("pushd");
    reveal_strlit("popd");
    assert("mkdir"@.len() == 5 && "rmdir"@.len() == 5 && "touch"@.len() == 5
        && "pushd"@.len() == 5);
    assert("rm"@.len() == 2 && "ls"@.len() == 2 && "cp"@.len() == 2 && "mv"@.len() == 2
        && "cd"@.len() == 2);
    assert("pwd"@.len() == 3 && "popd"@.len() == 4);
    assert("mkdir"@[0] == 'm' && "rmdir"@[0] == 'r' && "touch"@[0] == 't' && "pushd"@[0] == 'p');
    assert("rm"@[0] == 'r' && "ls"@[0] == 'l' && "cp"@[0] == 'c' && "mv"@[0] == 'm'
        && "cd"@[0] == 'c');
    assert("cp"@[1] == 'p' && "cd"@[1] == 'd');
    let o = opts_of(split_words(line));
    assert(o.non_options == operand_words(line));
    assert(o.single_dash_options == short_groups(line));
    assert forall|c: char, long: Option<Seq<char>>| #[trigger] option_present(o, long, Some(c))
        == short_letter_given(line, c) by {
        lemma_short_option_present(o, line, long, c);
    }
}

} // verus!
