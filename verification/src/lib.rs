//! Management of boilerplate (ignore-file template) repositories: a local
//! cache of template fragments kept in version-controlled clones, and the
//! name-resolution engine that turns queries — possibly aliases of other
//! names — into ordered lists of concrete fragments.
//!
//! The library is verified: every public operation carries a contract, and
//! the resolution, alias-expansion, merge-strategy and error-aggregation
//! rules are proved against mathematical models of the data. Calls into the
//! git backend and the directory walker are made through a small set of
//! trusted wrappers whose contracts state only what those crates document.

pub mod alias;
pub mod errors;
pub mod gitbridge;
pub mod gixor;
pub mod name;
pub mod repos;
pub mod routine;
pub mod strutil;
pub mod terminal;

pub use alias::Alias;
pub use alias::Aliases;
pub use errors::GixorError;
pub use errors::Result;
pub use errors::errs_vec_to_result;
pub use errors::merge_errors;
pub use errors::single_err_or_errs_array;
pub use errors::vec_result_to_result_vec;
pub use gitbridge::Strategy;
pub use gitbridge::can_fast_forward;
pub use gitbridge::find_merge_strategy;
pub use gitbridge::resolve_local_ref;
pub use gixor::AliasManager;
pub use gixor::Config;
pub use gixor::Gixor;
pub use gixor::GixorBuilder;
pub use gixor::LogLevel;
pub use gixor::RepositoryManager;
pub use gixor::find_boilerplates;
pub use gixor::find_target_repositories;
pub use gixor::update_base_path;
pub use name::Name;
pub use repos::Boilerplate;
pub use repos::DirProbe;
pub use repos::Repository;
pub use repos::hex_encode_upper;
pub use repos::url_to_owner_and_repo_name;
pub use routine::entries;
pub use routine::load_prologue;
pub use routine::map_to_boilerplate_name;
pub use routine::resolve_list_in;
pub use routine::resolve_many_in;
pub use routine::resolve_one_in;
pub use routine::search_boilerplates;
pub use terminal::Terminal;
pub use terminal::padding_list;
