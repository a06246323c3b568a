//! `init`: reading its options, choosing the project's name and deciding
//! what to do with the `Project.toml` already there, if any.

use vstd::prelude::*;
use crate::names::{is_valid_project_name, normalize_julia_name, normalized, valid_project_name};
use crate::project::{
    field_of, lemma_identity_fields, lemma_keys, lemma_new_project_fields, name_key,
    new_project_text, read_top_level_value, uuid_key, version_key, with_identity,
};
use crate::text::{has_prefix, same_text, starts_with, string_from, views};
use crate::uuid::is_v4_uuid_text;

verus! {

/// What `init` was asked for.
pub struct InitOptions {
    /// `--package`: also create the module file.
    pub package: bool,
    /// The value of `--name`, if given.
    pub requested_name: Option<String>,
}

/// Why `init` refuses.
#[derive(Debug)]
pub enum InitError {
    /// `--name` is last, or followed by another option.
    NameRequiresValue,
    /// The name to use is not a Julia identifier.
    InvalidName(String),
    /// The existing `Project.toml` holds a name that is not a Julia identifier.
    InvalidExistingName(String),
    /// The existing `Project.toml` holds another name than the one requested.
    NameConflict { existing: String, requested: String },
}

/// What `init` does to the project file.
pub enum InitAction {
    /// No `Project.toml`: write a new one for this name.
    Create(String),
    /// The file already has this name, a uuid and a version: leave it.
    AlreadyInitialized(String),
    /// The file lacks some identity field: add those it lacks, with this
    /// name (its own name when it has one).
    AddIdentity(String),
}

/// The outcome of `init`, over character sequences.
pub enum InitOutcome {
    Create(Seq<char>),
    AlreadyInitialized(Seq<char>),
    AddIdentity(Seq<char>),
    InvalidName(Seq<char>),
    InvalidExistingName(Seq<char>),
    NameConflict(Seq<char>, Seq<char>),
}

/// `a` is among the arguments.
pub open spec fn arg_present(args: Seq<Seq<char>>, a: Seq<char>) -> bool {
    exists|i: int| 0 <= i < args.len() && args[i] == a
}

/// `i` is the first position of `a` among the arguments.
pub open spec fn is_first_arg(args: Seq<Seq<char>>, a: Seq<char>, i: int) -> bool {
    &&& 0 <= i < args.len()
    &&& args[i] == a
    &&& forall|j: int| 0 <= j < i ==> args[j] != a
}

pub open spec fn first_arg(args: Seq<Seq<char>>, a: Seq<char>) -> int {
    choose|i: int| is_first_arg(args, a, i)
}

/// The name requested with `--name` (`Ok(None)` when there is no
/// `--name`); `Err` when the first `--name` has no value after it.
pub open spec fn requested_name_of(args: Seq<Seq<char>>) -> Result<Option<Seq<char>>, ()> {
    if !arg_present(args, "--name"@) {
        Ok(None)
    } else {
        let p = first_arg(args, "--name"@);
        if p + 1 < args.len() && !has_prefix(args[p + 1], "--"@) {
            Ok(Some(args[p + 1]))
        } else {
            Err(())
        }
    }
}

/// The name a directory gives a project: the directory's own name when it is
/// a Julia identifier, else its normalized form.
pub open spec fn default_name(folder: Seq<char>) -> Seq<char> {
    if valid_project_name(folder) {
        folder
    } else {
        normalized(folder)
    }
}

/// What `init` does, given the requested name, the directory's name and the
/// text of the existing `Project.toml`.
pub open spec fn init_outcome(
    requested: Option<Seq<char>>,
    folder: Seq<char>,
    existing: Option<Seq<char>>,
) -> InitOutcome {
    let proposed = match requested {
        Some(n) => n,
        None => default_name(folder),
    };
    if !valid_project_name(proposed) {
        InitOutcome::InvalidName(proposed)
    } else {
        match existing {
            None => InitOutcome::Create(proposed),
            Some(c) => match field_of(c, name_key()) {
                Some(en) => if !valid_project_name(en) {
                    InitOutcome::InvalidExistingName(en)
                } else if requested is Some && requested->0 != en {
                    InitOutcome::NameConflict(en, requested->0)
                } else if field_of(c, uuid_key()) is None || field_of(c, version_key()) is None {
                    InitOutcome::AddIdentity(en)
                } else {
                    InitOutcome::AlreadyInitialized(en)
                },
                None => InitOutcome::AddIdentity(proposed),
            },
        }
    }
}

pub open spec fn opt_view(o: Option<String>) -> Option<Seq<char>> {
    match o {
        Some(s) => Some(s@),
        None => None,
    }
}

proof fn lemma_first_arg_unique(args: Seq<Seq<char>>, a: Seq<char>, i: int)
    requires
        is_first_arg(args, a, i),
    ensures
        arg_present(args, a),
        first_arg(args, a) == i,
{
    assert(exists|k: int| is_first_arg(args, a, k));
    let k = first_arg(args, a);
    if k < i {
        assert(args[k] != a);
    }
    if i < k {
        assert(args[i] != a);
    }
}

/// Reads the options of `init`: `--package`, and `--name <name>`.
pub fn init_options(args: &Vec<String>) -> (r: Result<InitOptions, InitError>)
    ensures
        match r {
            Ok(o) => o.package == arg_present(views(args@), "--package"@) && requested_name_of(
                views(args@),
            ) == Ok::<Option<Seq<char>>, ()>(opt_view(o.requested_name)),
            Err(e) => e is NameRequiresValue && requested_name_of(views(args@)) is Err,
        },
{
    let ghost va = views(args@);
    let mut package = false;
    let mut i: usize = 0;
    while i < args.len()
        invariant
            i <= args@.len(),
            va == views(args@),
            package == exists|j: int| 0 <= j < i && va[j] == "--package"@,
        decreases args@.len() - i,
    {
        if same_text(args[i].as_str(), "--package") {
            package = true;
        }
        assert(va[i as int] == args@[i as int]@);
        i = i + 1;
    }
    let mut p: usize = 0;
    while p < args.len() && !same_text(args[p].as_str(), "--name")
        invariant
            p <= args@.len(),
            va == views(args@),
            forall|j: int| 0 <= j < p ==> va[j] != "--name"@,
        decreases args@.len() - p,
    {
        assert(va[p as int] == args@[p as int]@);
        p = p + 1;
    }
    if p == args.len() {
        assert(!arg_present(va, "--name"@));
        return Ok(InitOptions { package, requested_name: None });
    }
    proof {
        assert(va[p as int] == args@[p as int]@);
        lemma_first_arg_unique(va, "--name"@, p as int);
    }
    if p + 1 < args.len() {
        assert(va[p + 1] == args@[p + 1]@);
        if !starts_with(args[p + 1].as_str(), "--") {
            return Ok(InitOptions { package, requested_name: Some(args[p + 1].clone()) });
        }
    }
    Err(InitError::NameRequiresValue)
}

/// The name a directory gives a project. A name that is already a Julia
/// identifier is kept exactly (`CMS_HGLM` stays `CMS_HGLM`); only other names
/// are normalized (`julia-pkg-cli` becomes `JuliaPkgCli`).
pub fn default_project_name(folder_name: &str) -> (r: String)
    ensures
        r@ == default_name(folder_name@),
{
    if is_valid_project_name(folder_name) {
        string_from(folder_name)
    } else {
        normalize_julia_name(folder_name)
    }
}

/// Decides what `init` does. The requested name, else the directory's, must
/// be a Julia identifier; a `Project.toml` that already has a name must have
/// a valid one, the requested one if a name was requested. A file that lacks
/// its uuid or its version gets them added, under the name it already has.
pub fn init_action(
    requested: &Option<String>,
    folder_name: &str,
    existing: &Option<String>,
) -> (r: Result<InitAction, InitError>)
    ensures
        match r {
            Ok(InitAction::Create(n)) => init_outcome(opt_view(*requested), folder_name@, opt_view(*existing))
                == InitOutcome::Create(n@),
            Ok(InitAction::AlreadyInitialized(n)) => init_outcome(
                opt_view(*requested),
                folder_name@,
                opt_view(*existing),
            ) == InitOutcome::AlreadyInitialized(n@),
            Ok(InitAction::AddIdentity(n)) => init_outcome(opt_view(*requested), folder_name@, opt_view(*existing))
                == InitOutcome::AddIdentity(n@),
            Err(InitError::InvalidName(n)) => init_outcome(opt_view(*requested), folder_name@, opt_view(*existing))
                == InitOutcome::InvalidName(n@),
            Err(InitError::InvalidExistingName(n)) => init_outcome(
                opt_view(*requested),
                folder_name@,
                opt_view(*existing),
            ) == InitOutcome::InvalidExistingName(n@),
            Err(InitError::NameConflict { existing: e, requested: q }) => init_outcome(
                opt_view(*requested),
                folder_name@,
                opt_view(*existing),
            ) == InitOutcome::NameConflict(e@, q@),
            Err(InitError::NameRequiresValue) => false,
        },
{
    let proposed = match requested {
        Some(n) => n.clone(),
        None => default_project_name(folder_name),
    };
    if !is_valid_project_name(proposed.as_str()) {
        return Err(InitError::InvalidName(proposed));
    }
    match existing {
        None => Ok(InitAction::Create(proposed)),
        Some(content) => {
            proof {
                lemma_keys();
            }
            match read_top_level_value(content.as_str(), "name") {
                Some(name) => {
                    if !is_valid_project_name(name.as_str()) {
                        return Err(InitError::InvalidExistingName(name));
                    }
                    match requested {
                        Some(q) => {
                            if !same_text(q.as_str(), name.as_str()) {
                                return Err(
                                    InitError::NameConflict { existing: name, requested: q.clone() },
                                );
                            }
                        },
                        None => {},
                    }
                    let complete = read_top_level_value(content.as_str(), "uuid").is_some()
                        && read_top_level_value(content.as_str(), "version").is_some();
                    if complete {
                        Ok(InitAction::AlreadyInitialized(name))
                    } else {
                        Ok(InitAction::AddIdentity(name))
                    }
                },
                None => Ok(InitAction::AddIdentity(proposed)),
            }
        },
    }
}

/// `init` settles: when it creates a project file, or adds the missing
/// identity fields to one, running it again with the same request on the text it
/// wrote finds the project already initialized under the same name.
pub proof fn lemma_init_settles(
    requested: Option<Seq<char>>,
    folder: Seq<char>,
    existing: Option<Seq<char>>,
    u: Seq<char>,
)
    requires
        is_v4_uuid_text(u),
    ensures
        init_outcome(requested, folder, existing) matches InitOutcome::Create(n) ==> init_outcome(
            requested,
            folder,
            Some(new_project_text(n, u)),
        ) == InitOutcome::AlreadyInitialized(n),
        init_outcome(requested, folder, existing) matches InitOutcome::AddIdentity(n) ==> init_outcome(
            requested,
            folder,
            Some(with_identity(existing->0, n, u)),
        ) == InitOutcome::AlreadyInitialized(n),
{
    match init_outcome(requested, folder, existing) {
        InitOutcome::Create(n) => {
            lemma_new_project_fields(n, u);
        },
        InitOutcome::AddIdentity(n) => {
            lemma_identity_fields(existing->0, n, u);
        },
        _ => {},
    }
}

} // verus!
