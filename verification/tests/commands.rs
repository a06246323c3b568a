use jlpkg::commands::test as test_command;
use jlpkg::julia::{
    forwarded_arguments, generate_arguments, julia_arguments, julia_code_arguments, depot_path_entry,
    CHECK_SCRIPT, TREE_SCRIPT, VENDOR_SCRIPT,
};
use jlpkg::{
    add, build, clean, compat, docs_options, fetch, is_confirmation, new, packages_call, remove,
    run, run_pkg_command, status, tree, update, vendor, why, CommandError, PackageError, Plan,
};

fn strings(v: &[&str]) -> Vec<String> {
    v.iter().map(|s| s.to_string()).collect()
}

#[test]
fn fixed_calls() {
    let c = fetch();
    assert_eq!(c.code, "using Pkg; Pkg.autoprecompilation_enabled(false); Pkg.instantiate()");
    assert!(c.args.is_empty());
    assert_eq!(status().code, "using Pkg; Pkg.status()");
    assert_eq!(compat().code, "using Pkg; Pkg.compat(current=true)");
    assert_eq!(build().code, "using Pkg; Pkg.instantiate(); Pkg.precompile()");
}

#[test]
fn pkg_command_code() {
    let c = run_pkg_command("add", &strings(&["A", "B"]));
    assert_eq!(c.code, "using Pkg; Pkg.add(ARGS)");
    assert_eq!(c.args, strings(&["A", "B"]));
}

#[test]
fn add_plans() {
    assert!(matches!(add(&vec![]), Err(CommandError::Usage)));
    match add(&strings(&["DataFrames"])).unwrap() {
        Plan::Run(c) => {
            assert_eq!(c.code, "using Pkg; Pkg.add(ARGS)");
            assert_eq!(c.args, strings(&["DataFrames"]));
        }
        _ => panic!(),
    }
    match add(&strings(&["--from-file", "f.txt"])).unwrap() {
        Plan::ReadPackages { path, function } => {
            assert_eq!(path, "f.txt");
            assert_eq!(function, "add");
        }
        _ => panic!(),
    }
    assert!(matches!(
        add(&strings(&["--from-file"])),
        Err(CommandError::Packages(PackageError::MissingFilePath))
    ));
}

#[test]
fn packages_from_a_file_call() {
    let c = packages_call("add", "A\n# x\nB\n").unwrap();
    assert_eq!(c.code, "using Pkg; Pkg.add(ARGS)");
    assert_eq!(c.args, strings(&["A", "B"]));
    assert!(matches!(packages_call("add", "\n"), Err(PackageError::NoPackagesInFile)));
}

#[test]
fn remove_plans() {
    assert!(matches!(remove(&vec![]), Err(CommandError::Usage)));
    let r = remove(&strings(&["A", "-y", "B"])).unwrap();
    assert!(!r.confirm);
    match r.plan {
        Plan::Run(c) => {
            assert_eq!(c.code, "using Pkg; Pkg.rm(ARGS)");
            assert_eq!(c.args, strings(&["A", "B"]));
        }
        _ => panic!(),
    }
    assert!(remove(&strings(&["A"])).unwrap().confirm);
    assert!(!remove(&strings(&["--yes", "A"])).unwrap().confirm);
    assert!(matches!(
        remove(&strings(&["-y"])),
        Err(CommandError::Packages(PackageError::NoPackages))
    ));
}

#[test]
fn confirmation_answers() {
    for yes in ["y", "Y", "yes", "YES", " Yes \n"] {
        assert!(is_confirmation(yes), "{yes:?}");
    }
    for no in ["", "n", "no", "ye", "yess", "y e s"] {
        assert!(!is_confirmation(no), "{no:?}");
    }
}

#[test]
fn update_and_test_plans() {
    match update(&vec![]).unwrap() {
        Plan::Run(c) => assert_eq!(c.code, "using Pkg; Pkg.update()"),
        _ => panic!(),
    }
    match update(&strings(&["A"])).unwrap() {
        Plan::Run(c) => assert_eq!(c.code, "using Pkg; Pkg.update(ARGS)"),
        _ => panic!(),
    }
    match test_command(&vec![]).unwrap() {
        Plan::Run(c) => assert_eq!(c.code, "using Pkg; Pkg.test()"),
        _ => panic!(),
    }
    match test_command(&strings(&["--from-file=t.txt"])).unwrap() {
        Plan::ReadPackages { path, function } => {
            assert_eq!(path, "t.txt");
            assert_eq!(function, "test");
        }
        _ => panic!(),
    }
    assert!(matches!(update(&strings(&["--from-file"])), Err(PackageError::MissingFilePath)));
}

#[test]
fn why_and_tree() {
    assert!(matches!(why(&vec![]), Err(CommandError::Usage)));
    let c = why(&strings(&["Parsers"])).unwrap();
    assert_eq!(c.code, "using Pkg; Pkg.why(ARGS)");
    let c = tree(&strings(&["--all"])).unwrap();
    assert_eq!(c.code, TREE_SCRIPT);
    assert_eq!(c.args, strings(&["--all"]));
    assert!(matches!(tree(&strings(&["--all", "-x", "y"])), Err(CommandError::UnknownOption(a)) if a == "-x"));
}

#[test]
fn clean_options() {
    assert_eq!(clean(&vec![]).unwrap(), false);
    assert_eq!(clean(&strings(&["--global"])).unwrap(), true);
    assert!(matches!(clean(&strings(&["--global", "--now"])), Err(CommandError::UnknownOption(a)) if a == "--now"));
}

#[test]
fn vendor_modes() {
    assert_eq!(vendor(&vec![]).unwrap().code, VENDOR_SCRIPT);
    assert!(vendor(&strings(&["--deps"])).is_ok());
    assert!(vendor(&strings(&["A", "B"])).is_ok());
    assert!(matches!(vendor(&strings(&["--deps", "--bogus"])), Err(CommandError::UnknownOption(a)) if a == "--bogus"));
    assert!(matches!(vendor(&strings(&["--deps", "--all"])), Err(CommandError::ConflictingVendorModes)));
    assert!(matches!(vendor(&strings(&["A", "--all"])), Err(CommandError::NamesWithVendorMode)));
}

#[test]
fn run_and_new() {
    assert!(matches!(run(&vec![]), Err(CommandError::Usage)));
    assert!(run(&strings(&["--threads", "6", "fit.jl"])).is_ok());
    assert!(matches!(new(&vec![]), Err(CommandError::Usage)));
    assert!(matches!(new(&strings(&["A", "B"])), Err(CommandError::Usage)));
    assert!(matches!(new(&strings(&["my-pkg"])), Err(CommandError::InvalidProjectName(n)) if n == "my-pkg"));
    assert_eq!(new(&strings(&["MyPkg"])).unwrap(), "MyPkg");
}

#[test]
fn docs_option_parsing() {
    let o = docs_options(&strings(&["-o", "ref.md", "--force"])).unwrap();
    assert_eq!(o.output.as_deref(), Some("ref.md"));
    assert!(o.force && !o.to_stdout);
    assert!(docs_options(&strings(&["--stdout"])).unwrap().to_stdout);
    assert!(matches!(docs_options(&strings(&["-o"])), Err(CommandError::Usage)));
    assert!(matches!(docs_options(&strings(&["--x"])), Err(CommandError::UnknownOption(a)) if a == "--x"));
}

#[test]
fn julia_command_lines() {
    let c = run_pkg_command("add", &strings(&["A"]));
    assert_eq!(
        julia_arguments("/p", &c),
        strings(&["--project=/p", "-e", "using Pkg; Pkg.add(ARGS)", "--", "A"])
    );
    assert_eq!(julia_code_arguments("/p", CHECK_SCRIPT), strings(&["--project=/p", "-e", CHECK_SCRIPT]));
    assert_eq!(
        forwarded_arguments("/p", &strings(&["--threads", "6", "fit.jl"])),
        strings(&["--project=/p", "--threads", "6", "fit.jl"])
    );
    assert_eq!(
        generate_arguments("Foo"),
        strings(&["-e", "using Pkg; Pkg.generate(ARGS[1])", "--", "Foo"])
    );
    assert_eq!(depot_path_entry("/p/.julia", false), "/p/.julia:");
    assert_eq!(depot_path_entry("C:\\p\\.julia", true), "C:\\p\\.julia;");
}
