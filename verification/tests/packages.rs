use jlpkg::{package_source, packages_from_file, PackageError, PackageSource};

fn strings(v: &[&str]) -> Vec<String> {
    v.iter().map(|s| s.to_string()).collect()
}

#[test]
fn listed_packages() {
    match package_source(&strings(&["DataFrames", "CSV"])) {
        Ok(PackageSource::Listed(v)) => assert_eq!(v, strings(&["DataFrames", "CSV"])),
        _ => panic!("expected a list"),
    }
}

#[test]
fn from_file_forms() {
    match package_source(&strings(&["--from-file", "pkgs.txt", "ignored"])) {
        Ok(PackageSource::File(p)) => assert_eq!(p, "pkgs.txt"),
        _ => panic!("expected a file"),
    }
    match package_source(&strings(&["--from-file=deps.txt"])) {
        Ok(PackageSource::File(p)) => assert_eq!(p, "deps.txt"),
        _ => panic!("expected a file"),
    }
}

#[test]
fn package_source_errors() {
    assert!(matches!(package_source(&vec![]), Err(PackageError::NoPackages)));
    assert!(matches!(
        package_source(&strings(&["--from-file"])),
        Err(PackageError::MissingFilePath)
    ));
    assert!(matches!(
        package_source(&strings(&["--from-file="])),
        Err(PackageError::MissingFilePath)
    ));
}

#[test]
fn file_lines_are_trimmed_and_filtered() {
    let text = "  DataFrames \n\n# a comment\r\nCSV\r\n   #also\n\tPlots\t";
    assert_eq!(packages_from_file(text).unwrap(), strings(&["DataFrames", "CSV", "Plots"]));
}

#[test]
fn empty_package_file_is_an_error() {
    assert_eq!(packages_from_file("# nothing\n\n  \n"), Err(PackageError::NoPackagesInFile));
    assert_eq!(packages_from_file(""), Err(PackageError::NoPackagesInFile));
}
