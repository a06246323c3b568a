//! The decision logic of a Cargo-style command-line front end for Julia's
//! package manager: project names, `Project.toml` identity fields, package
//! lists, UUIDs and the Julia invocations each command makes.

pub mod cli;
pub mod commands;
pub mod init;
pub mod julia;
pub mod names;
pub mod packages;
pub mod project;
pub mod text;
pub mod uuid;

pub use cli::{invocation, parse_command, wants_command_help, Command, Invocation};
pub use commands::{
    add, clean, docs_options, is_confirmation, new, package_plan, packages_call, remove, run,
    tree, update, vendor, why, CommandError, DocsOptions, Plan, RemovePlan,
};
pub use init::{
    default_project_name, init_action, init_options, InitAction, InitError, InitOptions,
};
pub use julia::{build, compat, fetch, run_pkg_command, status, JuliaCall};
pub use names::{is_valid_project_name, normalize_julia_name};
pub use packages::{package_source, packages_from_file, PackageError, PackageSource};
pub use project::{
    add_project_identity, module_definition, new_project_toml, project_toml_text,
    project_with_identity, read_top_level_value,
};
pub use uuid::{format_uuid_v4, uuid_v4};
