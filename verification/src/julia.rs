//! The Julia code each command runs and the command lines that run it.

use vstd::prelude::*;
use crate::text::{append_str, string_from, views};

verus! {

/// Julia code to run with `julia -e`, and the arguments it sees in `ARGS`.
pub struct JuliaCall {
    pub code: String,
    pub args: Vec<String>,
}

/// `call` runs `code` with the arguments `args`.
pub open spec fn call_is(call: JuliaCall, code: Seq<char>, args: Seq<Seq<char>>) -> bool {
    call.code@ == code && views(call.args@) == args
}

/// `using Pkg; Pkg.<function>(ARGS)`.
pub open spec fn pkg_code(function: Seq<char>) -> Seq<char> {
    "using Pkg; Pkg."@ + function + "(ARGS)"@
}

/// The `--project=<root>` option.
pub open spec fn project_flag(root: Seq<char>) -> Seq<char> {
    "--project="@ + root
}

/// Installs what `Manifest.toml` pins, without precompiling.
pub const FETCH_CODE: &'static str = "using Pkg; Pkg.autoprecompilation_enabled(false); Pkg.instantiate()";

/// Lists the direct dependencies.
pub const STATUS_CODE: &'static str = "using Pkg; Pkg.status()";

/// Records `[compat]` bounds for the current dependencies.
pub const COMPAT_CODE: &'static str = "using Pkg; Pkg.compat(current=true)";

/// Installs, then precompiles.
pub const INSTALL_AND_PRECOMPILE_CODE: &'static str = "using Pkg; Pkg.instantiate(); Pkg.precompile()";

/// Collects unreachable packages.
pub const GC_CODE: &'static str = "using Pkg; Pkg.gc()";

/// Updates every dependency.
pub const UPDATE_ALL_CODE: &'static str = "using Pkg; Pkg.update()";

/// Runs the project's own tests.
pub const TEST_PROJECT_CODE: &'static str = "using Pkg; Pkg.test()";

/// Creates the package named by `ARGS[1]`.
pub const GENERATE_CODE: &'static str = "using Pkg; Pkg.generate(ARGS[1])";

/// Prints the dependency tree; `--all` in `ARGS` keeps the standard
/// libraries. A subtree already printed is marked `(*)`.
pub const TREE_SCRIPT: &'static str = r#"
using Pkg

deps = Pkg.dependencies()
show_all = "--all" in ARGS

function is_stdlib(pkg)
    isnothing(pkg.source) && return false
    source = normpath(pkg.source)
    stdlib = normpath(Sys.STDLIB)
    startswith(source, stdlib)
end

function show_dep(uuid, seen, prefix="", last=true)
    haskey(deps, uuid) || return
    pkg = deps[uuid]
    branch = last ? "└── " : "├── "
    version = isnothing(pkg.version) ? "" : " v$(pkg.version)"

    if uuid in seen
        println(prefix, branch, pkg.name, version, " (*)")
        return
    end

    println(prefix, branch, pkg.name, version)
    push!(seen, uuid)
    children = [
        child for child in values(pkg.dependencies) 
        if haskey(deps, child) && (show_all || !is_stdlib(deps[child]))
    ]
    sort!(children, by = u -> deps[u].name)
    child_prefix = prefix * (last ? "    " : "│   ")

    for (i, child) in enumerate(children)
        show_dep(child, seen, child_prefix, i == length(children))
    end
end

project = Pkg.project()
println(project.name === nothing ? "Project" : project.name)

roots = [
    uuid for (uuid, pkg) in deps 
    if pkg.is_direct_dep && (show_all || !is_stdlib(pkg))
]
sort!(roots, by = u -> deps[u].name)
seen = Set{Base.UUID}()

for (i, uuid) in enumerate(roots)
    show_dep(uuid, seen, "", i == length(roots))
end

"#;

/// Copies dependency sources into `./vendor`: the packages named in `ARGS`,
/// or with `--deps` the direct dependencies, with `--all` the whole graph,
/// and by default the whole graph without the standard libraries.
pub const VENDOR_SCRIPT: &'static str = r#"
using Pkg

deps = Pkg.dependencies()
project_root = dirname(Base.active_project())
vendor_dir = joinpath(project_root, "vendor")

deps_only = "--deps" in ARGS
show_all = "--all" in ARGS

requested = Set(
    arg for arg in ARGS
    if !startswith(arg, "--")
)

function is_stdlib(pkg)
    isnothing(pkg.source) && return false

    source = normpath(pkg.source)
    stdlib = normpath(Sys.STDLIB)

    startswith(source, stdlib)
end

packages = if !isempty(requested)

    # Explicit package selection.
    selected = [
        pkg for pkg in values(deps)
        if pkg.name in requested && pkg.source !== nothing
    ]

    # Fail cleanly if a requested package wasn't found.
    found = Set(pkg.name for pkg in selected)
    not_found = sort!(collect(setdiff(requested, found)))

    if !isempty(not_found)
        println(stderr,
            "Package(s) not found in dependency graph: ",
            join(not_found, ", ")
        )
        exit(1)
    end

    selected

elseif deps_only

    # Direct [deps] only, excluding stdlibs.
    [
        pkg for pkg in values(deps)
        if pkg.source !== nothing && pkg.is_direct_dep && !is_stdlib(pkg)
    ]

elseif show_all

    # Entire dependency graph, including stdlibs.
    [
        pkg for pkg in values(deps)
        if pkg.source !== nothing
    ]

else

    # Default:
    # entire transitive dependency graph,
    # excluding Julia stdlibs.
    [
        pkg for pkg in values(deps)
        if pkg.source !== nothing && !is_stdlib(pkg)
    ]

end

sort!(packages, by = pkg -> pkg.name)

if isdir(vendor_dir)
    rm(vendor_dir; recursive=true, force=true)
end

mkpath(vendor_dir)

for pkg in packages
    dest = joinpath(vendor_dir, pkg.name)
    println("Vendoring ", pkg.name)
    cp(pkg.source, dest)
end

println()
println(
    "Vendored ",
    length(packages),
    " package(s) into ",
    vendor_dir
)
"#;

/// Resolves offline, then loads every direct dependency.
pub const CHECK_SCRIPT: &'static str = r#"
using Pkg, TOML
Pkg.offline(true)
Pkg.instantiate()

proj = TOML.parsefile(Base.active_project())

for name in sort!(collect(keys(get(proj, "deps", Dict()))))
    print("  loading $name ... ")
    @eval using $(Symbol(name))
    println("ok")
end

println("offline check passed")
"#;

fn strings(v: &Vec<String>) -> (r: Vec<String>)
    ensures
        views(r@) == views(v@),
{
    let mut r: Vec<String> = Vec::new();
    let mut i: usize = 0;
    while i < v.len()
        invariant
            i <= v@.len(),
            views(r@) == views(v@.subrange(0, i as int)),
        decreases v@.len() - i,
    {
        r.push(v[i].clone());
        assert(views(v@.subrange(0, i + 1)) =~= views(v@.subrange(0, i as int)).push(v@[i as int]@));
        i = i + 1;
    }
    assert(v@.subrange(0, v@.len() as int) =~= v@);
    r
}

/// A call of `code` with no arguments.
pub fn plain_call(code: &str) -> (r: JuliaCall)
    ensures
        call_is(r, code@, Seq::<Seq<char>>::empty()),
{
    let r = JuliaCall { code: string_from(code), args: Vec::new() };
    assert(views(r.args@) =~= Seq::<Seq<char>>::empty());
    r
}

/// A call of `code` with the given arguments.
pub fn call_with(code: &str, args: &Vec<String>) -> (r: JuliaCall)
    ensures
        call_is(r, code@, views(args@)),
{
    JuliaCall { code: string_from(code), args: strings(args) }
}

/// Runs the `Pkg` function `julia_function` on the given packages.
pub fn run_pkg_command(julia_function: &str, packages: &Vec<String>) -> (r: JuliaCall)
    ensures
        call_is(r, pkg_code(julia_function@), views(packages@)),
{
    let mut code = string_from("using Pkg; Pkg.");
    append_str(&mut code, julia_function);
    append_str(&mut code, "(ARGS)");
    JuliaCall { code, args: strings(packages) }
}

/// `fetch`: install the versions pinned in `Manifest.toml`, without
/// precompiling.
pub fn fetch() -> (r: JuliaCall)
    ensures
        call_is(r, FETCH_CODE@, Seq::<Seq<char>>::empty()),
{
    plain_call(FETCH_CODE)
}

/// `status`: list the direct dependencies and their versions.
pub fn status() -> (r: JuliaCall)
    ensures
        call_is(r, STATUS_CODE@, Seq::<Seq<char>>::empty()),
{
    plain_call(STATUS_CODE)
}

/// `compat`: record bounds for every direct dependency that lacks one.
pub fn compat() -> (r: JuliaCall)
    ensures
        call_is(r, COMPAT_CODE@, Seq::<Seq<char>>::empty()),
{
    plain_call(COMPAT_CODE)
}

/// `build`: install the dependencies, then precompile them.
pub fn build() -> (r: JuliaCall)
    ensures
        call_is(r, INSTALL_AND_PRECOMPILE_CODE@, Seq::<Seq<char>>::empty()),
{
    plain_call(INSTALL_AND_PRECOMPILE_CODE)
}

/// `--project=<root>`.
pub fn project_option(project_root: &str) -> (r: String)
    ensures
        r@ == project_flag(project_root@),
{
    let mut r = string_from("--project=");
    append_str(&mut r, project_root);
    r
}

/// The command line of `julia` for a call in the project at `project_root`:
/// `--project=<root> -e <code> -- <args>...`.
pub fn julia_arguments(project_root: &str, call: &JuliaCall) -> (r: Vec<String>)
    ensures
        views(r@) == seq![project_flag(project_root@), "-e"@, call.code@, "--"@] + views(
            call.args@,
        ),
{
    let mut r: Vec<String> = Vec::new();
    r.push(project_option(project_root));
    r.push(string_from("-e"));
    r.push(call.code.clone());
    r.push(string_from("--"));
    let ghost head = views(r@);
    let mut i: usize = 0;
    while i < call.args.len()
        invariant
            i <= call.args@.len(),
            head.len() == 4,
            views(r@) == head + views(call.args@.subrange(0, i as int)),
        decreases call.args@.len() - i,
    {
        r.push(call.args[i].clone());
        assert(views(call.args@.subrange(0, i + 1)) =~= views(call.args@.subrange(0, i as int)).push(
            call.args@[i as int]@,
        ));
        assert(views(r@) =~= views(r@.drop_last()).push(call.args@[i as int]@));
        assert(head + views(call.args@.subrange(0, i + 1)) =~= (head + views(
            call.args@.subrange(0, i as int),
        )).push(call.args@[i as int]@));
        i = i + 1;
    }
    assert(call.args@.subrange(0, call.args@.len() as int) =~= call.args@);
    r
}

/// The command line of `julia` that runs `code` in the project at
/// `project_root` with nothing passed in `ARGS`: `--project=<root> -e <code>`.
pub fn julia_code_arguments(project_root: &str, code: &str) -> (r: Vec<String>)
    ensures
        views(r@) == seq![project_flag(project_root@), "-e"@, code@],
{
    let mut r: Vec<String> = Vec::new();
    r.push(project_option(project_root));
    r.push(string_from("-e"));
    r.push(string_from(code));
    r
}

/// The command line of `julia` that starts it in the project at
/// `project_root` with the user's own arguments: `--project=<root> <args>...`
/// (`run` and `repl`).
pub fn forwarded_arguments(project_root: &str, args: &Vec<String>) -> (r: Vec<String>)
    ensures
        views(r@) == seq![project_flag(project_root@)] + views(args@),
{
    let mut r: Vec<String> = Vec::new();
    r.push(project_option(project_root));
    let ghost head = views(r@);
    let mut i: usize = 0;
    while i < args.len()
        invariant
            i <= args@.len(),
            head == seq![project_flag(project_root@)],
            views(r@) == head + views(args@.subrange(0, i as int)),
        decreases args@.len() - i,
    {
        r.push(args[i].clone());
        assert(views(args@.subrange(0, i + 1)) =~= views(args@.subrange(0, i as int)).push(
            args@[i as int]@,
        ));
        assert(views(r@) =~= views(r@.drop_last()).push(args@[i as int]@));
        assert(head + views(args@.subrange(0, i + 1)) =~= (head + views(
            args@.subrange(0, i as int),
        )).push(args@[i as int]@));
        i = i + 1;
    }
    assert(args@.subrange(0, args@.len() as int) =~= args@);
    r
}

/// The command line of `julia` that creates the package `name` in the
/// current directory: `-e <generate> -- <name>`.
pub fn generate_arguments(name: &str) -> (r: Vec<String>)
    ensures
        views(r@) == seq!["-e"@, GENERATE_CODE@, "--"@, name@],
{
    let mut r: Vec<String> = Vec::new();
    r.push(string_from("-e"));
    r.push(string_from(GENERATE_CODE));
    r.push(string_from("--"));
    r.push(string_from(name));
    r
}

/// The value of `JULIA_DEPOT_PATH` that puts the local depot first: its path
/// and the list separator (`;` on Windows, `:` elsewhere), so that Julia
/// still appends its default depots after it.
pub fn depot_path_entry(depot: &str, windows: bool) -> (r: String)
    ensures
        r@ == depot@ + if windows {
            ";"@
        } else {
            ":"@
        },
{
    let mut r = string_from(depot);
    if windows {
        append_str(&mut r, ";");
    } else {
        append_str(&mut r, ":");
    }
    r
}

} // verus!
