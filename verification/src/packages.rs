//! Where a command's package names come from: the arguments themselves, or
//! a file named by `--from-file`, one package per line.

use vstd::prelude::*;
use crate::text::{
    chars_of, has_prefix, lemma_trim_idempotent, line_ranges, same_text, string_of, strip_prefix, text_lines, trim,
    trim_range, views,
};

verus! {

/// Where the package names are.
pub enum PackageSource {
    /// The arguments are the package names.
    Listed(Vec<String>),
    /// The names are in the file at this path.
    File(String),
}

/// Why no package list could be made.
#[derive(Debug, PartialEq, Eq, Structural)]
pub enum PackageError {
    /// No arguments at all.
    NoPackages,
    /// `--from-file` without a path.
    MissingFilePath,
    /// The file names no package.
    NoPackagesInFile,
}

/// The file named by the arguments (`Ok(Some(path))`), or `Ok(None)` when the
/// arguments are the package names themselves.
pub open spec fn source_of(args: Seq<Seq<char>>) -> Result<Option<Seq<char>>, PackageError> {
    if args.len() == 0 {
        Err(PackageError::NoPackages)
    } else if args[0] == "--from-file"@ {
        if args.len() > 1 {
            Ok(Some(args[1]))
        } else {
            Err(PackageError::MissingFilePath)
        }
    } else if has_prefix(args[0], "--from-file="@) {
        let path = args[0].subrange("--from-file="@.len() as int, args[0].len() as int);
        if path.len() == 0 {
            Err(PackageError::MissingFilePath)
        } else {
            Ok(Some(path))
        }
    } else {
        Ok(None)
    }
}

/// The package names a file lists: its lines, trimmed, without the blank
/// ones and those that begin with `#`.
pub open spec fn package_entries(lines: Seq<Seq<char>>) -> Seq<Seq<char>>
    decreases lines.len(),
{
    if lines.len() == 0 {
        Seq::<Seq<char>>::empty()
    } else {
        let t = trim(lines[0]);
        let rest = package_entries(lines.drop_first());
        if t.len() > 0 && t[0] != '#' {
            seq![t] + rest
        } else {
            rest
        }
    }
}

/// Every package a file lists is trimmed, not empty, and not a comment.
pub proof fn lemma_package_entries_clean(lines: Seq<Seq<char>>)
    ensures
        forall|i: int|
            0 <= i < package_entries(lines).len() ==> {
                let e = #[trigger] package_entries(lines)[i];
                &&& e.len() > 0
                &&& e[0] != '#'
                &&& trim(e) == e
            },
    decreases lines.len(),
{
    if lines.len() > 0 {
        lemma_package_entries_clean(lines.drop_first());
        let t = trim(lines[0]);
        lemma_trim_idempotent(lines[0]);
        let rest = package_entries(lines.drop_first());
        let all = package_entries(lines);
        if t.len() > 0 && t[0] != '#' {
            assert forall|i: int| 0 <= i < all.len() implies {
                let e = #[trigger] all[i];
                &&& e.len() > 0
                &&& e[0] != '#'
                &&& trim(e) == e
            } by {
                if i > 0 {
                    assert(all[i] == rest[i - 1]);
                }
            }
        }
    }
}

fn copy_strings(args: &Vec<String>) -> (r: Vec<String>)
    ensures
        views(r@) == views(args@),
{
    let mut r: Vec<String> = Vec::new();
    let mut i: usize = 0;
    while i < args.len()
        invariant
            i <= args@.len(),
            views(r@) == views(args@.subrange(0, i as int)),
        decreases args@.len() - i,
    {
        r.push(args[i].clone());
        assert(views(args@.subrange(0, i + 1)) =~= views(args@.subrange(0, i as int)).push(
            args@[i as int]@,
        ));
        i = i + 1;
    }
    assert(args@.subrange(0, args@.len() as int) =~= args@);
    r
}

/// Decides where the package names of `add`, `remove`, `update` and `test`
/// come from: `--from-file <path>` or `--from-file=<path>` as the first
/// argument names a file, anything else lists the packages.
pub fn package_source(args: &Vec<String>) -> (r: Result<PackageSource, PackageError>)
    ensures
        match r {
            Ok(PackageSource::File(path)) => source_of(views(args@)) == Ok::<
                Option<Seq<char>>,
                PackageError,
            >(Some(path@)),
            Ok(PackageSource::Listed(names)) => source_of(views(args@)) == Ok::<
                Option<Seq<char>>,
                PackageError,
            >(None) && views(names@) == views(args@),
            Err(e) => source_of(views(args@)) == Err::<Option<Seq<char>>, PackageError>(e),
        },
{
    if args.len() == 0 {
        return Err(PackageError::NoPackages);
    }
    let first = args[0].as_str();
    assert(views(args@)[0] == first@);
    if same_text(first, "--from-file") {
        if args.len() > 1 {
            assert(views(args@)[1] == args@[1]@);
            return Ok(PackageSource::File(args[1].clone()));
        } else {
            return Err(PackageError::MissingFilePath);
        }
    }
    match strip_prefix(first, "--from-file=") {
        Some(path) => {
            if path.as_str().is_empty() {
                Err(PackageError::MissingFilePath)
            } else {
                Ok(PackageSource::File(path))
            }
        },
        None => Ok(PackageSource::Listed(copy_strings(args))),
    }
}

/// The package names listed in the text of a package file; an error when it
/// lists none.
pub fn packages_from_file(content: &str) -> (r: Result<Vec<String>, PackageError>)
    ensures
        r matches Ok(names) ==> views(names@) == package_entries(text_lines(content@))
            && names@.len() > 0,
        r is Err ==> r == Err::<Vec<String>, PackageError>(PackageError::NoPackagesInFile)
            && package_entries(text_lines(content@)).len() == 0,
{
    let v = chars_of(content);
    let lines = line_ranges(&v);
    let ghost all = text_lines(v@);
    let mut out: Vec<String> = Vec::new();
    let mut i: usize = 0;
    assert(all.skip(0) =~= all);
    while i < lines.len()
        invariant
            v@ == content@,
            all == text_lines(v@),
            i <= lines@.len() == all.len(),
            forall|k: int|
                0 <= k < lines@.len() ==> {
                    &&& (#[trigger] lines@[k]).0 <= lines@[k].1 <= v@.len()
                    &&& v@.subrange(lines@[k].0 as int, lines@[k].1 as int) == all[k]
                },
            package_entries(all) == views(out@) + package_entries(all.skip(i as int)),
        decreases lines@.len() - i,
    {
        let (lo, hi) = lines[i];
        let (a, b) = trim_range(&v, lo, hi);
        let ghost rest = all.skip(i as int);
        proof {
            assert(rest[0] == all[i as int]);
            assert(rest.drop_first() =~= all.skip(i + 1));
        }
        if a < b && v[a] != '#' {
            let s = string_of(&v, a, b);
            proof {
                assert(trim(rest[0])[0] == v@[a as int]);
            }
            out.push(s);
            proof {
                assert(views(out@) =~= views(out@.drop_last()).push(s@));
                assert(seq![s@] + package_entries(all.skip(i + 1)) =~= package_entries(all.skip(
                    i + 1,
                )).insert(0, s@));
                assert(views(out@) + package_entries(all.skip(i + 1)) =~= views(out@.drop_last())
                    + (seq![s@] + package_entries(all.skip(i + 1))));
            }
        } else {
            proof {
                if a < b {
                    assert(trim(rest[0])[0] == v@[a as int]);
                }
            }
        }
        i = i + 1;
    }
    assert(all.skip(all.len() as int) =~= Seq::<Seq<char>>::empty());
    assert(views(out@) + Seq::<Seq<char>>::empty() =~= views(out@));
    if out.len() == 0 {
        Err(PackageError::NoPackagesInFile)
    } else {
        Ok(out)
    }
}

} // verus!
