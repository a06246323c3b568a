//! The command line: command names and their aliases, and when a command's
//! help is shown instead of running it.

use vstd::prelude::*;
use crate::text::{same_text, string_from, views};

verus! {

/// A command of the tool.
#[derive(Debug, Clone, Copy, PartialEq, Eq, Structural)]
pub enum Command {
    Help,
    Version,
    Docs,
    New,
    Init,
    Compat,
    Add,
    Remove,
    Update,
    Status,
    Fetch,
    Build,
    Test,
    Check,
    Clean,
    Run,
    Repl,
    Tree,
    Why,
    Bundle,
    Vendor,
}

/// The command a name selects, aliases included.
pub open spec fn command_of(name: Seq<char>) -> Option<Command> {
    if name == "help"@ || name == "-h"@ || name == "--help"@ {
        Some(Command::Help)
    } else if name == "version"@ || name == "-V"@ || name == "--version"@ {
        Some(Command::Version)
    } else if name == "docs"@ {
        Some(Command::Docs)
    } else if name == "new"@ {
        Some(Command::New)
    } else if name == "init"@ || name == "i"@ {
        Some(Command::Init)
    } else if name == "compat"@ {
        Some(Command::Compat)
    } else if name == "add"@ || name == "a"@ {
        Some(Command::Add)
    } else if name == "remove"@ || name == "rm"@ {
        Some(Command::Remove)
    } else if name == "update"@ || name == "up"@ {
        Some(Command::Update)
    } else if name == "status"@ || name == "st"@ {
        Some(Command::Status)
    } else if name == "fetch"@ || name == "sync"@ {
        Some(Command::Fetch)
    } else if name == "build"@ || name == "b"@ {
        Some(Command::Build)
    } else if name == "test"@ || name == "t"@ {
        Some(Command::Test)
    } else if name == "check"@ {
        Some(Command::Check)
    } else if name == "clean"@ {
        Some(Command::Clean)
    } else if name == "run"@ || name == "r"@ {
        Some(Command::Run)
    } else if name == "repl"@ {
        Some(Command::Repl)
    } else if name == "tree"@ {
        Some(Command::Tree)
    } else if name == "why"@ {
        Some(Command::Why)
    } else if name == "bundle"@ {
        Some(Command::Bundle)
    } else if name == "vendor"@ {
        Some(Command::Vendor)
    } else {
        None
    }
}

/// `a` and `b` are the two names `x` and `y`, in either order.
pub open spec fn same_pair(a: Seq<char>, b: Seq<char>, x: Seq<char>, y: Seq<char>) -> bool {
    (a == x && b == y) || (a == y && b == x)
}

/// `a` and `b` are two documented names of one command.
pub open spec fn documented_aliases(a: Seq<char>, b: Seq<char>) -> bool {
    ||| same_pair(a, b, "help"@, "-h"@)
    ||| same_pair(a, b, "help"@, "--help"@)
    ||| same_pair(a, b, "-h"@, "--help"@)
    ||| same_pair(a, b, "version"@, "-V"@)
    ||| same_pair(a, b, "version"@, "--version"@)
    ||| same_pair(a, b, "-V"@, "--version"@)
    ||| same_pair(a, b, "init"@, "i"@)
    ||| same_pair(a, b, "add"@, "a"@)
    ||| same_pair(a, b, "remove"@, "rm"@)
    ||| same_pair(a, b, "update"@, "up"@)
    ||| same_pair(a, b, "status"@, "st"@)
    ||| same_pair(a, b, "fetch"@, "sync"@)
    ||| same_pair(a, b, "build"@, "b"@)
    ||| same_pair(a, b, "test"@, "t"@)
    ||| same_pair(a, b, "run"@, "r"@)
}

/// The full name of each command.
pub open spec fn command_name(c: Command) -> Seq<char> {
    match c {
        Command::Help => "help"@,
        Command::Version => "version"@,
        Command::Docs => "docs"@,
        Command::New => "new"@,
        Command::Init => "init"@,
        Command::Compat => "compat"@,
        Command::Add => "add"@,
        Command::Remove => "remove"@,
        Command::Update => "update"@,
        Command::Status => "status"@,
        Command::Fetch => "fetch"@,
        Command::Build => "build"@,
        Command::Test => "test"@,
        Command::Check => "check"@,
        Command::Clean => "clean"@,
        Command::Run => "run"@,
        Command::Repl => "repl"@,
        Command::Tree => "tree"@,
        Command::Why => "why"@,
        Command::Bundle => "bundle"@,
        Command::Vendor => "vendor"@,
    }
}

/// Two different names select the same command only when they are
/// documented aliases of each other: every other name has a command of its
/// own.
pub proof fn lemma_names_select_distinct_commands(a: Seq<char>, b: Seq<char>)
    requires
        command_of(a) is Some,
        command_of(a) == command_of(b),
        a != b,
    ensures
        documented_aliases(a, b),
{
}

/// Each command's full name selects that very command.
pub proof fn lemma_full_names_select_their_commands(c: Command)
    ensures
        command_of(command_name(c)) == Some(c),
{
    reveal_strlit("help");
    assert("help"@.len() == 4);
    assert("help"@[0] == 'h');
    assert("help"@[1] == 'e');
    assert("help"@[2] == 'l');
    assert("help"@[3] == 'p');
    reveal_strlit("-h");
    assert("-h"@.len() == 2);
    assert("-h"@[0] == '-');
    assert("-h"@[1] == 'h');
    reveal_strlit("--help");
    assert("--help"@.len() == 6);
    assert("--help"@[0] == '-');
    assert("--help"@[1] == '-');
    assert("--help"@[2] == 'h');
    assert("--help"@[3] == 'e');
    assert("--help"@[4] == 'l');
    assert("--help"@[5] == 'p');
    reveal_strlit("version");
    assert("version"@.len() == 7);
    assert("version"@[0] == 'v');
    assert("version"@[1] == 'e');
    assert("version"@[2] == 'r');
    assert("version"@[3] == 's');
    assert("version"@[4] == 'i');
    assert("version"@[5] == 'o');
    assert("version"@[6] == 'n');
    reveal_strlit("-V");
    assert("-V"@.len() == 2);
    assert("-V"@[0] == '-');
    assert("-V"@[1] == 'V');
    reveal_strlit("--version");
    assert("--version"@.len() == 9);
    assert("--version"@[0] == '-');
    assert("--version"@[1] == '-');
    assert("--version"@[2] == 'v');
    assert("--version"@[3] == 'e');
    assert("--version"@[4] == 'r');
    assert("--version"@[5] == 's');
    assert("--version"@[6] == 'i');
    assert("--version"@[7] == 'o');
    assert("--version"@[8] == 'n');
    reveal_strlit("docs");
    assert("docs"@.len() == 4);
    assert("docs"@[0] == 'd');
    assert("docs"@[1] == 'o');
    assert("docs"@[2] == 'c');
    assert("docs"@[3] == 's');
    reveal_strlit("new");
    assert("new"@.len() == 3);
    assert("new"@[0] == 'n');
    assert("new"@[1] == 'e');
    assert("new"@[2] == 'w');
    reveal_strlit("init");
    assert("init"@.len() == 4);
    assert("init"@[0] == 'i');
    assert("init"@[1] == 'n');
    assert("init"@[2] == 'i');
    assert("init"@[3] == 't');
    reveal_strlit("i");
    assert("i"@.len() == 1);
    assert("i"@[0] == 'i');
    reveal_strlit("compat");
    assert("compat"@.len() == 6);
    assert("compat"@[0] == 'c');
    assert("compat"@[1] == 'o');
    assert("compat"@[2] == 'm');
    assert("compat"@[3] == 'p');
    assert("compat"@[4] == 'a');
    assert("compat"@[5] == 't');
    reveal_strlit("add");
    assert("add"@.len() == 3);
    assert("add"@[0] == 'a');
    assert("add"@[1] == 'd');
    assert("add"@[2] == 'd');
    reveal_strlit("a");
    assert("a"@.len() == 1);
    assert("a"@[0] == 'a');
    reveal_strlit("remove");
    assert("remove"@.len() == 6);
    assert("remove"@[0] == 'r');
    assert("remove"@[1] == 'e');
    assert("remove"@[2] == 'm');
    assert("remove"@[3] == 'o');
    assert("remove"@[4] == 'v');
    assert("remove"@[5] == 'e');
    reveal_strlit("rm");
    assert("rm"@.len() == 2);
    assert("rm"@[0] == 'r');
    assert("rm"@[1] == 'm');
    reveal_strlit("update");
    assert("update"@.len() == 6);
    assert("update"@[0] == 'u');
    assert("update"@[1] == 'p');
    assert("update"@[2] == 'd');
    assert("update"@[3] == 'a');
    assert("update"@[4] == 't');
    assert("update"@[5] == 'e');
    reveal_strlit("up");
    assert("up"@.len() == 2);
    assert("up"@[0] == 'u');
    assert("up"@[1] == 'p');
    reveal_strlit("status");
    assert("status"@.len() == 6);
    assert("status"@[0] == 's');
    assert("status"@[1] == 't');
    assert("status"@[2] == 'a');
    assert("status"@[3] == 't');
    assert("status"@[4] == 'u');
    assert("status"@[5] == 's');
    reveal_strlit("st");
    assert("st"@.len() == 2);
    assert("st"@[0] == 's');
    assert("st"@[1] == 't');
    reveal_strlit("fetch");
    assert("fetch"@.len() == 5);
    assert("fetch"@[0] == 'f');
    assert("fetch"@[1] == 'e');
    assert("fetch"@[2] == 't');
    assert("fetch"@[3] == 'c');
    assert("fetch"@[4] == 'h');
    reveal_strlit("sync");
    assert("sync"@.len() == 4);
    assert("sync"@[0] == 's');
    assert("sync"@[1] == 'y');
    assert("sync"@[2] == 'n');
    assert("sync"@[3] == 'c');
    reveal_strlit("build");
    assert("build"@.len() == 5);
    assert("build"@[0] == 'b');
    assert("build"@[1] == 'u');
    assert("build"@[2] == 'i');
    assert("build"@[3] == 'l');
    assert("build"@[4] == 'd');
    reveal_strlit("b");
    assert("b"@.len() == 1);
    assert("b"@[0] == 'b');
    reveal_strlit("test");
    assert("test"@.len() == 4);
    assert("test"@[0] == 't');
    assert("test"@[1] == 'e');
    assert("test"@[2] == 's');
    assert("test"@[3] == 't');
    reveal_strlit("t");
    assert("t"@.len() == 1);
    assert("t"@[0] == 't');
    reveal_strlit("check");
    assert("check"@.len() == 5);
    assert("check"@[0] == 'c');
    assert("check"@[1] == 'h');
    assert("check"@[2] == 'e');
    assert("check"@[3] == 'c');
    assert("check"@[4] == 'k');
    reveal_strlit("clean");
    assert("clean"@.len() == 5);
    assert("clean"@[0] == 'c');
    assert("clean"@[1] == 'l');
    assert("clean"@[2] == 'e');
    assert("clean"@[3] == 'a');
    assert("clean"@[4] == 'n');
    reveal_strlit("run");
    assert("run"@.len() == 3);
    assert("run"@[0] == 'r');
    assert("run"@[1] == 'u');
    assert("run"@[2] == 'n');
    reveal_strlit("r");
    assert("r"@.len() == 1);
    assert("r"@[0] == 'r');
    reveal_strlit("repl");
    assert("repl"@.len() == 4);
    assert("repl"@[0] == 'r');
    assert("repl"@[1] == 'e');
    assert("repl"@[2] == 'p');
    assert("repl"@[3] == 'l');
    reveal_strlit("tree");
    assert("tree"@.len() == 4);
    assert("tree"@[0] == 't');
    assert("tree"@[1] == 'r');
    assert("tree"@[2] == 'e');
    assert("tree"@[3] == 'e');
    reveal_strlit("why");
    assert("why"@.len() == 3);
    assert("why"@[0] == 'w');
    assert("why"@[1] == 'h');
    assert("why"@[2] == 'y');
    reveal_strlit("bundle");
    assert("bundle"@.len() == 6);
    assert("bundle"@[0] == 'b');
    assert("bundle"@[1] == 'u');
    assert("bundle"@[2] == 'n');
    assert("bundle"@[3] == 'd');
    assert("bundle"@[4] == 'l');
    assert("bundle"@[5] == 'e');
    reveal_strlit("vendor");
    assert("vendor"@.len() == 6);
    assert("vendor"@[0] == 'v');
    assert("vendor"@[1] == 'e');
    assert("vendor"@[2] == 'n');
    assert("vendor"@[3] == 'd');
    assert("vendor"@[4] == 'o');
    assert("vendor"@[5] == 'r');
}

/// Commands with a help page of their own.
pub open spec fn has_help_page(c: Command) -> bool {
    !(c is Help || c is Version || c is Docs)
}

/// The arguments ask for the command's help: `run` and `repl` pass their
/// arguments to Julia, so for them only a leading `-h` or `--help` counts;
/// for the others, one anywhere.
pub open spec fn asks_for_help(name: Seq<char>, rest: Seq<Seq<char>>) -> bool {
    if name == "run"@ || name == "r"@ || name == "repl"@ {
        rest.len() > 0 && (rest[0] == "-h"@ || rest[0] == "--help"@)
    } else {
        exists|i: int| 0 <= i < rest.len() && (rest[i] == "-h"@ || rest[i] == "--help"@)
    }
}

/// What the tool does with its arguments (the program name left out).
pub enum Invocation {
    /// Print the summary of all commands.
    Summary,
    /// Print this command's help page.
    CommandHelp(Command),
    /// Run this command on the arguments after its name.
    Run(Command),
    /// An unknown command name.
    Unknown(String),
}

/// The command a name selects, aliases included.
pub fn parse_command(name: &str) -> (r: Option<Command>)
    ensures
        r == command_of(name@),
{
    if same_text(name, "help") || same_text(name, "-h") || same_text(name, "--help") {
        Some(Command::Help)
    } else if same_text(name, "version") || same_text(name, "-V") || same_text(name, "--version") {
        Some(Command::Version)
    } else if same_text(name, "docs") {
        Some(Command::Docs)
    } else if same_text(name, "new") {
        Some(Command::New)
    } else if same_text(name, "init") || same_text(name, "i") {
        Some(Command::Init)
    } else if same_text(name, "compat") {
        Some(Command::Compat)
    } else if same_text(name, "add") || same_text(name, "a") {
        Some(Command::Add)
    } else if same_text(name, "remove") || same_text(name, "rm") {
        Some(Command::Remove)
    } else if same_text(name, "update") || same_text(name, "up") {
        Some(Command::Update)
    } else if same_text(name, "status") || same_text(name, "st") {
        Some(Command::Status)
    } else if same_text(name, "fetch") || same_text(name, "sync") {
        Some(Command::Fetch)
    } else if same_text(name, "build") || same_text(name, "b") {
        Some(Command::Build)
    } else if same_text(name, "test") || same_text(name, "t") {
        Some(Command::Test)
    } else if same_text(name, "check") {
        Some(Command::Check)
    } else if same_text(name, "clean") {
        Some(Command::Clean)
    } else if same_text(name, "run") || same_text(name, "r") {
        Some(Command::Run)
    } else if same_text(name, "repl") {
        Some(Command::Repl)
    } else if same_text(name, "tree") {
        Some(Command::Tree)
    } else if same_text(name, "why") {
        Some(Command::Why)
    } else if same_text(name, "bundle") {
        Some(Command::Bundle)
    } else if same_text(name, "vendor") {
        Some(Command::Vendor)
    } else {
        None
    }
}

fn is_help_flag(a: &str) -> (r: bool)
    ensures
        r == (a@ == "-h"@ || a@ == "--help"@),
{
    same_text(a, "-h") || same_text(a, "--help")
}

/// Whether the arguments after a command's name ask for its help.
pub fn wants_command_help(name: &str, rest: &[String]) -> (r: bool)
    ensures
        r == asks_for_help(name@, views(rest@)),
{
    let ghost vr = views(rest@);
    if same_text(name, "run") || same_text(name, "r") || same_text(name, "repl") {
        if rest.len() == 0 {
            return false;
        }
        assert(vr[0] == rest@[0]@);
        return is_help_flag(rest[0].as_str());
    }
    let mut i: usize = 0;
    while i < rest.len()
        invariant
            i <= rest@.len(),
            vr == views(rest@),
            !(name@ == "run"@ || name@ == "r"@ || name@ == "repl"@),
            forall|j: int| 0 <= j < i ==> !(vr[j] == "-h"@ || vr[j] == "--help"@),
        decreases rest@.len() - i,
    {
        assert(vr[i as int] == rest@[i as int]@);
        if is_help_flag(rest[i].as_str()) {
            assert(0 <= i < vr.len() && (vr[i as int] == "-h"@ || vr[i as int] == "--help"@));
            return true;
        }
        i = i + 1;
    }
    false
}

/// The arguments after the first.
fn tail(args: &[String]) -> (r: Vec<String>)
    requires
        args@.len() > 0,
    ensures
        views(r@) == views(args@).drop_first(),
{
    let mut r: Vec<String> = Vec::new();
    let mut i: usize = 1;
    while i < args.len()
        invariant
            1 <= i <= args@.len(),
            views(r@) == views(args@.subrange(1, i as int)),
        decreases args@.len() - i,
    {
        r.push(args[i].clone());
        assert(views(args@.subrange(1, i + 1)) =~= views(args@.subrange(1, i as int)).push(
            args@[i as int]@,
        ));
        i = i + 1;
    }
    assert(views(args@.subrange(1, args@.len() as int)) =~= views(args@).drop_first());
    r
}

/// Decides what the tool does with its arguments: the summary when there
/// are none; a command's help page when its arguments ask for it and it has
/// one; else the command itself, or an unknown-command error.
pub fn invocation(args: &[String]) -> (r: Invocation)
    ensures
        args@.len() == 0 ==> (r matches Invocation::Summary),
        args@.len() > 0 ==> {
            let name = args@[0]@;
            let rest = views(args@).drop_first();
            match command_of(name) {
                Some(c) => if asks_for_help(name, rest) && has_help_page(c) {
                    r == Invocation::CommandHelp(c)
                } else {
                    r == Invocation::Run(c)
                },
                None => (r matches Invocation::Unknown(n) && n@ == name),
            }
        },
{
    if args.len() == 0 {
        return Invocation::Summary;
    }
    let name = args[0].as_str();
    let rest = tail(args);
    let help = wants_command_help(name, rest.as_slice());
    match parse_command(name) {
        Some(c) => {
            let page = match c {
                Command::Help | Command::Version | Command::Docs => false,
                _ => true,
            };
            if help && page {
                Invocation::CommandHelp(c)
            } else {
                Invocation::Run(c)
            }
        },
        None => Invocation::Unknown(string_from(name)),
    }
}

} // verus!
