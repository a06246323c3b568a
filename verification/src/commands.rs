//! The commands' own rules: which arguments each accepts, and what it asks
//! Julia to do with them.

use vstd::prelude::*;
use crate::julia::{call_is, pkg_code, run_pkg_command, JuliaCall, TEST_PROJECT_CODE, UPDATE_ALL_CODE};
use crate::names::{is_valid_project_name, valid_project_name};
use crate::packages::{package_entries, package_source, packages_from_file, source_of, PackageError, PackageSource};
use crate::text::{text_lines, has_prefix, same_text, starts_with, string_from, trim, trimmed, views, chars_of, append_char};
use crate::julia::{call_with, plain_call, TREE_SCRIPT, VENDOR_SCRIPT};

verus! {

/// What a package command does next.
pub enum Plan {
    /// Run this call.
    Run(JuliaCall),
    /// Read the package file at `path`, then run the `Pkg` function
    /// `function` on the packages it lists (see [`packages_call`]).
    ReadPackages { path: String, function: String },
}

/// Why a command refuses its arguments.
#[derive(Debug)]
pub enum CommandError {
    /// Required arguments are missing: the command's usage applies.
    Usage,
    /// An option the command does not know.
    UnknownOption(String),
    /// No package list could be made.
    Packages(PackageError),
    /// A project name that is not a Julia identifier.
    InvalidProjectName(String),
    /// `vendor --deps --all`.
    ConflictingVendorModes,
    /// `vendor` with package names and `--deps` or `--all`.
    NamesWithVendorMode,
}

/// `r` is what a package command running the `Pkg` function `function`
/// does next with the arguments `args`.
pub open spec fn plan_matches(
    function: Seq<char>,
    args: Seq<Seq<char>>,
    r: Result<Plan, PackageError>,
) -> bool {
    match source_of(args) {
        Err(e) => r == Err::<Plan, PackageError>(e),
        Ok(None) => (r matches Ok(Plan::Run(c)) && call_is(c, pkg_code(function), args)),
        Ok(Some(path)) => (r matches Ok(Plan::ReadPackages { path: p, function: f }) && p@ == path
            && f@ == function),
    }
}

/// The package-list outcome within a command's result.
pub open spec fn package_part(r: Result<Plan, CommandError>) -> Result<Plan, PackageError> {
    match r {
        Ok(p) => Ok(p),
        Err(CommandError::Packages(e)) => Err(e),
        Err(_) => Err(PackageError::NoPackages),
    }
}

/// The arguments without `-y` and `--yes`.
pub open spec fn without_yes(args: Seq<Seq<char>>) -> Seq<Seq<char>>
    decreases args.len(),
{
    if args.len() == 0 {
        args
    } else {
        let pre = without_yes(args.drop_last());
        if args.last() == "-y"@ || args.last() == "--yes"@ {
            pre
        } else {
            pre.push(args.last())
        }
    }
}

/// `a` is among the arguments.
pub open spec fn has_arg(args: Seq<Seq<char>>, a: Seq<char>) -> bool {
    exists|i: int| 0 <= i < args.len() && args[i] == a
}

/// `i` is the first argument that is not `allowed`.
pub open spec fn is_first_other(args: Seq<Seq<char>>, allowed: Seq<char>, i: int) -> bool {
    &&& 0 <= i < args.len()
    &&& args[i] != allowed
    &&& forall|j: int| 0 <= j < i ==> args[j] == allowed
}

/// `i` is the first argument that looks like an option (`--…`) and is
/// neither `--deps` nor `--all`.
pub open spec fn is_first_unknown_vendor_option(args: Seq<Seq<char>>, i: int) -> bool {
    &&& 0 <= i < args.len()
    &&& unknown_vendor_option(args[i])
    &&& forall|j: int| 0 <= j < i ==> !unknown_vendor_option(args[j])
}

pub open spec fn unknown_vendor_option(a: Seq<char>) -> bool {
    has_prefix(a, "--"@) && a != "--deps"@ && a != "--all"@
}

/// The ASCII lower case of `c`; other characters are unchanged.
pub open spec fn ascii_lower(c: char) -> char {
    if 'A' <= c && c <= 'Z' {
        ((c as int) + 32) as char
    } else {
        c
    }
}

/// The answer to a confirmation prompt says yes: trimmed, and in any ASCII
/// case, it is `y` or `yes`.
pub open spec fn confirms(answer: Seq<char>) -> bool {
    let a = trim(answer).map_values(|c: char| ascii_lower(c));
    a == seq!['y'] || a == seq!['y', 'e', 's']
}

/// An answer confirms exactly when, trimmed, it is one of `y`, `Y`, or
/// `yes` in any mix of cases; in particular a blank answer never confirms.
pub proof fn lemma_confirmation_words(answer: Seq<char>)
    ensures
        confirms(answer) <==> {
            let t = trim(answer);
            ||| t.len() == 1 && (t[0] == 'y' || t[0] == 'Y')
            ||| t.len() == 3 && (t[0] == 'y' || t[0] == 'Y') && (t[1] == 'e' || t[1] == 'E') && (
            t[2] == 's' || t[2] == 'S')
        },
        trim(answer).len() == 0 ==> !confirms(answer),
{
    let t = trim(answer);
    let a = t.map_values(|c: char| ascii_lower(c));
    assert(a.len() == t.len());
    if t.len() == 1 {
        assert(a[0] == ascii_lower(t[0]));
        if a =~= seq!['y'] {
            assert(a[0] == 'y');
        }
        if t[0] == 'y' || t[0] == 'Y' {
            assert(a =~= seq!['y']);
        }
    }
    if t.len() == 3 {
        assert(a[0] == ascii_lower(t[0]));
        assert(a[1] == ascii_lower(t[1]));
        assert(a[2] == ascii_lower(t[2]));
        if a =~= seq!['y', 'e', 's'] {
            assert(a[0] == 'y' && a[1] == 'e' && a[2] == 's');
        }
        if (t[0] == 'y' || t[0] == 'Y') && (t[1] == 'e' || t[1] == 'E') && (t[2] == 's' || t[2]
            == 'S') {
            assert(a =~= seq!['y', 'e', 's']);
        }
    }
    if a == seq!['y'] {
        assert(a.len() == 1);
    }
    if a == seq!['y', 'e', 's'] {
        assert(a.len() == 3);
    }
}

/// Reads `docs` options from the front of `args`, given those read so far:
/// `-o <file>`, `--force` and `--stdout`. `Err(None)` is a `-o` without a
/// file, `Err(Some(a))` an unknown option `a`.
pub open spec fn docs_parse(
    args: Seq<Seq<char>>,
    output: Option<Seq<char>>,
    force: bool,
    to_stdout: bool,
) -> Result<(Option<Seq<char>>, bool, bool), Option<Seq<char>>>
    decreases args.len(),
{
    if args.len() == 0 {
        Ok((output, force, to_stdout))
    } else if args[0] == "-o"@ {
        if args.len() >= 2 {
            docs_parse(args.skip(2), Some(args[1]), force, to_stdout)
        } else {
            Err(None)
        }
    } else if args[0] == "--force"@ {
        docs_parse(args.drop_first(), output, true, to_stdout)
    } else if args[0] == "--stdout"@ {
        docs_parse(args.drop_first(), output, force, true)
    } else {
        Err(Some(args[0]))
    }
}

/// Decides what a package command running the `Pkg` function
/// `julia_function` does with its arguments: run it on the listed packages,
/// or first read the package file that `--from-file` names.
pub fn package_plan(julia_function: &str, args: &Vec<String>) -> (r: Result<Plan, PackageError>)
    ensures
        plan_matches(julia_function@, views(args@), r),
{
    match package_source(args) {
        Ok(PackageSource::Listed(names)) => Ok(Plan::Run(run_pkg_command(julia_function, &names))),
        Ok(PackageSource::File(path)) => Ok(
            Plan::ReadPackages { path, function: string_from(julia_function) },
        ),
        Err(e) => Err(e),
    }
}

/// The call a package command makes once its package file has been read:
/// the `Pkg` function `julia_function` on the packages that `content` lists.
pub fn packages_call(julia_function: &str, content: &str) -> (r: Result<JuliaCall, PackageError>)
    ensures
        r matches Ok(c) ==> call_is(
            c,
            pkg_code(julia_function@),
            package_entries(text_lines(content@)),
        ) && package_entries(text_lines(content@)).len() > 0,
        r is Err ==> r == Err::<JuliaCall, PackageError>(PackageError::NoPackagesInFile)
            && package_entries(text_lines(content@)).len() == 0,
{
    match packages_from_file(content) {
        Ok(names) => Ok(run_pkg_command(julia_function, &names)),
        Err(e) => Err(e),
    }
}

/// `add`: at least one argument, then the packages to add.
pub fn add(args: &Vec<String>) -> (r: Result<Plan, CommandError>)
    ensures
        args@.len() == 0 ==> (r matches Err(CommandError::Usage)),
        args@.len() > 0 ==> (r is Ok || r matches Err(CommandError::Packages(_))) && plan_matches(
            "add"@,
            views(args@),
            package_part(r),
        ),
{
    if args.len() == 0 {
        return Err(CommandError::Usage);
    }
    match package_plan("add", args) {
        Ok(p) => Ok(p),
        Err(e) => Err(CommandError::Packages(e)),
    }
}

/// What `remove` does: whether to ask before removing, and its plan.
pub struct RemovePlan {
    /// Ask for confirmation first (no `-y` or `--yes`).
    pub confirm: bool,
    pub plan: Plan,
}

/// `remove`: at least one argument; `-y` or `--yes` skips the confirmation;
/// the other arguments name the packages to remove.
pub fn remove(args: &Vec<String>) -> (r: Result<RemovePlan, CommandError>)
    ensures
        args@.len() == 0 ==> (r matches Err(CommandError::Usage)),
        args@.len() > 0 ==> (r is Ok || r matches Err(CommandError::Packages(_))) && plan_matches(
            "rm"@,
            without_yes(views(args@)),
            match r {
                Ok(p) => Ok(p.plan),
                Err(CommandError::Packages(e)) => Err(e),
                Err(_) => Err(PackageError::NoPackages),
            },
        ),
        r matches Ok(p) ==> p.confirm == !(has_arg(views(args@), "-y"@) || has_arg(
            views(args@),
            "--yes"@,
        )),
{
    if args.len() == 0 {
        return Err(CommandError::Usage);
    }
    let ghost va = views(args@);
    let mut yes = false;
    let mut rest: Vec<String> = Vec::new();
    let mut i: usize = 0;
    while i < args.len()
        invariant
            i <= args@.len(),
            va == views(args@),
            yes == (has_arg(va.subrange(0, i as int), "-y"@) || has_arg(
                va.subrange(0, i as int),
                "--yes"@,
            )),
            views(rest@) == without_yes(va.subrange(0, i as int)),
        decreases args@.len() - i,
    {
        let a = args[i].as_str();
        let ghost pre = va.subrange(0, i as int);
        let ghost cur = va.subrange(0, i + 1);
        proof {
            assert(cur.drop_last() =~= pre);
            assert(cur.last() == a@);
            assert(va[i as int] == a@);
        }
        let is_yes = same_text(a, "-y") || same_text(a, "--yes");
        if is_yes {
            yes = true;
            proof {
                assert(cur[i as int] == a@);
            }
        } else {
            rest.push(args[i].clone());
            proof {
                assert(views(rest@) =~= views(rest@.drop_last()).push(a@));
            }
        }
        proof {
            if has_arg(pre, "-y"@) {
                let k = choose|k: int| 0 <= k < pre.len() && pre[k] == "-y"@;
                assert(cur[k] == "-y"@);
            }
            if has_arg(pre, "--yes"@) {
                let k = choose|k: int| 0 <= k < pre.len() && pre[k] == "--yes"@;
                assert(cur[k] == "--yes"@);
            }
            if has_arg(cur, "-y"@) {
                let k = choose|k: int| 0 <= k < cur.len() && cur[k] == "-y"@;
                if k < i {
                    assert(pre[k] == "-y"@);
                }
            }
            if has_arg(cur, "--yes"@) {
                let k = choose|k: int| 0 <= k < cur.len() && cur[k] == "--yes"@;
                if k < i {
                    assert(pre[k] == "--yes"@);
                }
            }
        }
        i = i + 1;
    }
    assert(va.subrange(0, va.len() as int) =~= va);
    match package_plan("rm", &rest) {
        Ok(plan) => Ok(RemovePlan { confirm: !yes, plan }),
        Err(e) => Err(CommandError::Packages(e)),
    }
}

/// The ASCII lower case of a character.
fn to_lower(c: char) -> (r: char)
    ensures
        r == ascii_lower(c),
{
    if 'A' <= c && c <= 'Z' {
        let b: u8 = (c as u32 + 32) as u8;
        b as char
    } else {
        c
    }
}

/// Whether an answer to `remove`'s prompt confirms it.
pub fn is_confirmation(answer: &str) -> (r: bool)
    ensures
        r == confirms(answer@),
{
    let t = trimmed(answer);
    let v = chars_of(t.as_str());
    let ghost low = trim(answer@).map_values(|c: char| ascii_lower(c));
    assert(low.len() == v@.len());
    if v.len() == 1 {
        let a = to_lower(v[0]);
        assert(low[0] == a);
        if a == 'y' {
            assert(low =~= seq!['y']);
            return true;
        }
        return false;
    }
    if v.len() == 3 {
        let a = to_lower(v[0]);
        let b = to_lower(v[1]);
        let c = to_lower(v[2]);
        assert(low[0] == a && low[1] == b && low[2] == c);
        if a == 'y' && b == 'e' && c == 's' {
            assert(low =~= seq!['y', 'e', 's']);
            return true;
        }
        assert(low != seq!['y', 'e', 's']) by {
            if low == seq!['y', 'e', 's'] {
                assert(low[0] == 'y' && low[1] == 'e' && low[2] == 's');
            }
        }
        return false;
    }
    false
}

/// `update`: every dependency when no argument is given, else the packages
/// the arguments name.
pub fn update(args: &Vec<String>) -> (r: Result<Plan, PackageError>)
    ensures
        args@.len() == 0 ==> (r matches Ok(Plan::Run(c)) && call_is(
            c,
            UPDATE_ALL_CODE@,
            Seq::<Seq<char>>::empty(),
        )),
        args@.len() > 0 ==> plan_matches("update"@, views(args@), r),
{
    if args.len() == 0 {
        Ok(Plan::Run(plain_call(UPDATE_ALL_CODE)))
    } else {
        package_plan("update", args)
    }
}

/// `test`: the project's tests when no argument is given, else those of the
/// packages the arguments name.
pub fn test(args: &Vec<String>) -> (r: Result<Plan, PackageError>)
    ensures
        args@.len() == 0 ==> (r matches Ok(Plan::Run(c)) && call_is(
            c,
            TEST_PROJECT_CODE@,
            Seq::<Seq<char>>::empty(),
        )),
        args@.len() > 0 ==> plan_matches("test"@, views(args@), r),
{
    if args.len() == 0 {
        Ok(Plan::Run(plain_call(TEST_PROJECT_CODE)))
    } else {
        package_plan("test", args)
    }
}

/// `why`: at least one package; explains why each is present.
pub fn why(args: &Vec<String>) -> (r: Result<JuliaCall, CommandError>)
    ensures
        args@.len() == 0 ==> (r matches Err(CommandError::Usage)),
        args@.len() > 0 ==> (r matches Ok(c) && call_is(c, pkg_code("why"@), views(args@))),
{
    if args.len() == 0 {
        return Err(CommandError::Usage);
    }
    Ok(run_pkg_command("why", args))
}

/// The first argument other than `allowed`, if any.
fn first_other(args: &Vec<String>, allowed: &str) -> (r: Option<usize>)
    ensures
        r matches Some(i) ==> is_first_other(views(args@), allowed@, i as int),
        r is None ==> forall|j: int| 0 <= j < args@.len() ==> views(args@)[j] == allowed@,
{
    let ghost va = views(args@);
    let mut i: usize = 0;
    while i < args.len()
        invariant
            i <= args@.len(),
            va == views(args@),
            forall|j: int| 0 <= j < i ==> va[j] == allowed@,
        decreases args@.len() - i,
    {
        assert(va[i as int] == args@[i as int]@);
        if !same_text(args[i].as_str(), allowed) {
            return Some(i);
        }
        i = i + 1;
    }
    None
}

/// `tree`: the only option is `--all`; the arguments go to the tree script.
pub fn tree(args: &Vec<String>) -> (r: Result<JuliaCall, CommandError>)
    ensures
        r matches Ok(c) ==> call_is(c, TREE_SCRIPT@, views(args@)),
        r is Ok <==> forall|j: int| 0 <= j < args@.len() ==> views(args@)[j] == "--all"@,
        r matches Err(e) ==> (e matches CommandError::UnknownOption(a) && exists|i: int|
            #![trigger views(args@)[i]]
            is_first_other(views(args@), "--all"@, i) && a@ == views(args@)[i]),
{
    match first_other(args, "--all") {
        Some(i) => {
            assert(views(args@)[i as int] == args@[i as int]@);
            Err(CommandError::UnknownOption(args[i].clone()))
        },
        None => {
            let r = call_with(TREE_SCRIPT, args);
            Ok(r)
        },
    }
}

/// `vendor`: `--deps`, `--all` or package names, one kind at a time; the
/// arguments go to the vendor script.
pub fn vendor(args: &Vec<String>) -> (r: Result<JuliaCall, CommandError>)
    ensures
        (exists|i: int| 0 <= i < args@.len() && unknown_vendor_option(#[trigger] views(args@)[i]))
            ==> (r matches Err(CommandError::UnknownOption(a)) && exists|i: int|
            #![trigger views(args@)[i]]
            is_first_unknown_vendor_option(views(args@), i) && a@ == views(args@)[i]),
        !(exists|i: int| 0 <= i < args@.len() && unknown_vendor_option(#[trigger] views(args@)[i]))
            ==> {
            let va = views(args@);
            let deps = has_arg(va, "--deps"@);
            let all = has_arg(va, "--all"@);
            let names = exists|i: int| 0 <= i < va.len() && !has_prefix(#[trigger] va[i], "--"@);
            &&& deps && all ==> (r matches Err(CommandError::ConflictingVendorModes))
            &&& !(deps && all) && names && (deps || all) ==> (r matches Err(
                CommandError::NamesWithVendorMode,
            ))
            &&& !(deps && all) && !(names && (deps || all)) ==> (r matches Ok(c) && call_is(
                c,
                VENDOR_SCRIPT@,
                va,
            ))
        },
{
    let ghost va = views(args@);
    let mut deps = false;
    let mut all = false;
    let mut names = false;
    let mut i: usize = 0;
    while i < args.len()
        invariant
            i <= args@.len(),
            va == views(args@),
            deps == exists|j: int| 0 <= j < i && va[j] == "--deps"@,
            all == exists|j: int| 0 <= j < i && va[j] == "--all"@,
            names == exists|j: int| 0 <= j < i && !has_prefix(#[trigger] va[j], "--"@),
            forall|j: int| 0 <= j < i ==> !unknown_vendor_option(#[trigger] va[j]),
        decreases args@.len() - i,
    {
        let a = args[i].as_str();
        assert(va[i as int] == a@);
        let is_deps = same_text(a, "--deps");
        let is_all = same_text(a, "--all");
        let dashed = starts_with(a, "--");
        if dashed && !is_deps && !is_all {
            proof {
                assert(is_first_unknown_vendor_option(va, i as int));
            }
            return Err(CommandError::UnknownOption(args[i].clone()));
        }
        if is_deps {
            deps = true;
        }
        if is_all {
            all = true;
        }
        if !dashed {
            names = true;
        }
        i = i + 1;
    }
    if deps && all {
        return Err(CommandError::ConflictingVendorModes);
    }
    if names && (deps || all) {
        return Err(CommandError::NamesWithVendorMode);
    }
    Ok(call_with(VENDOR_SCRIPT, args))
}

/// `clean`: the only option is `--global`; `Ok(true)` when it is given.
pub fn clean(args: &Vec<String>) -> (r: Result<bool, CommandError>)
    ensures
        r matches Ok(g) ==> g == (args@.len() > 0),
        r is Ok <==> forall|j: int| 0 <= j < args@.len() ==> views(args@)[j] == "--global"@,
        r matches Err(e) ==> (e matches CommandError::UnknownOption(a) && exists|i: int|
            #![trigger views(args@)[i]]
            is_first_other(views(args@), "--global"@, i) && a@ == views(args@)[i]),
{
    match first_other(args, "--global") {
        Some(i) => {
            assert(views(args@)[i as int] == args@[i as int]@);
            Err(CommandError::UnknownOption(args[i].clone()))
        },
        None => Ok(args.len() > 0),
    }
}

/// `run`: needs at least the script (or Julia's own options).
pub fn run(args: &Vec<String>) -> (r: Result<(), CommandError>)
    ensures
        r is Ok <==> args@.len() > 0,
        r matches Err(e) ==> e is Usage,
{
    if args.len() == 0 {
        Err(CommandError::Usage)
    } else {
        Ok(())
    }
}

/// `new`: exactly one argument, a Julia identifier, names the package.
pub fn new(args: &Vec<String>) -> (r: Result<String, CommandError>)
    ensures
        args@.len() != 1 ==> (r matches Err(CommandError::Usage)),
        args@.len() == 1 && !valid_project_name(args@[0]@) ==> (r matches Err(
            CommandError::InvalidProjectName(n),
        ) && n@ == args@[0]@),
        args@.len() == 1 && valid_project_name(args@[0]@) ==> (r matches Ok(n) && n@
            == args@[0]@),
{
    if args.len() != 1 {
        return Err(CommandError::Usage);
    }
    if !is_valid_project_name(args[0].as_str()) {
        return Err(CommandError::InvalidProjectName(args[0].clone()));
    }
    Ok(args[0].clone())
}

/// What `docs` was asked for.
pub struct DocsOptions {
    /// `-o <file>`: where to write the reference.
    pub output: Option<String>,
    /// `--force`: overwrite an existing file.
    pub force: bool,
    /// `--stdout`: print the reference instead of writing a file.
    pub to_stdout: bool,
}

/// Reads the options of `docs`.
pub fn docs_options(args: &Vec<String>) -> (r: Result<DocsOptions, CommandError>)
    ensures
        match r {
            Ok(o) => docs_parse(views(args@), None, false, false) == Ok::<
                (Option<Seq<char>>, bool, bool),
                Option<Seq<char>>,
            >((crate::init::opt_view(o.output), o.force, o.to_stdout)),
            Err(CommandError::Usage) => docs_parse(views(args@), None, false, false) == Err::<
                (Option<Seq<char>>, bool, bool),
                Option<Seq<char>>,
            >(None),
            Err(CommandError::UnknownOption(a)) => docs_parse(views(args@), None, false, false)
                == Err::<(Option<Seq<char>>, bool, bool), Option<Seq<char>>>(Some(a@)),
            Err(_) => false,
        },
{
    let ghost va = views(args@);
    let mut output: Option<String> = None;
    let mut force = false;
    let mut to_stdout = false;
    let mut i: usize = 0;
    assert(va.skip(0) =~= va);
    while i < args.len()
        invariant
            i <= args@.len(),
            va == views(args@),
            docs_parse(va, None, false, false) == docs_parse(
                va.skip(i as int),
                crate::init::opt_view(output),
                force,
                to_stdout,
            ),
        decreases args@.len() - i,
    {
        let a = args[i].as_str();
        let ghost rest = va.skip(i as int);
        proof {
            assert(rest[0] == a@);
            assert(rest.drop_first() =~= va.skip(i + 1));
        }
        if same_text(a, "-o") {
            if i + 1 < args.len() {
                proof {
                    assert(rest[1] == args@[i + 1]@);
                    assert(rest.skip(2) =~= va.skip(i + 2));
                }
                output = Some(args[i + 1].clone());
                i = i + 2;
            } else {
                return Err(CommandError::Usage);
            }
        } else if same_text(a, "--force") {
            force = true;
            i = i + 1;
        } else if same_text(a, "--stdout") {
            to_stdout = true;
            i = i + 1;
        } else {
            return Err(CommandError::UnknownOption(args[i].clone()));
        }
    }
    assert(va.skip(i as int) =~= Seq::<Seq<char>>::empty());
    Ok(DocsOptions { output, force, to_stdout })
}

} // verus!
