use gixor::Alias;
use gixor::Boilerplate;
use gixor::GixorError;
use gixor::Name;
use gixor::Repository;
use gixor::entries;
use gixor::load_prologue;
use gixor::resolve_many_in;
use gixor::resolve_one_in;

fn default_repo() -> Repository {
    Repository::new_with("default", "https://host/github/gitignore.git")
}

fn entry(repo: &Repository, name: &str) -> Boilerplate {
    let base = "base".to_string();
    let path = format!("base/{}/{}.gitignore", repo.name, name);
    Boilerplate::new(name.to_string(), path, repo, &base)
}

fn os_catalog() -> Vec<Boilerplate> {
    let repo = default_repo();
    vec![
        entry(&repo, "Linux"),
        entry(&repo, "Windows"),
        entry(&repo, "macOS"),
        entry(&repo, "Rust"),
        entry(&repo, "VisualStudioCode"),
        entry(&repo, "Emacs"),
        entry(&repo, "Vim"),
    ]
}

fn os_list_alias() -> Alias {
    Alias::new(
        "os-list".to_string(),
        "operating systems".to_string(),
        vec![Name::parse("linux"), Name::parse("windows"), Name::parse("macos")],
    )
}

#[test]
fn test_query_resolves_one_entry() {
    // A repository list with one entry; a bare query finds the boilerplate
    // whose name matches case-insensitively.
    let catalog = os_catalog();
    let aliases: Vec<Alias> = Vec::new();
    let r = resolve_one_in(&aliases, &catalog, &Name::parse("rust"), 1).unwrap();
    assert_eq!(r.len(), 1);
    assert_eq!(r[0].boilerplate_name(), "Rust");
    assert_eq!(r[0].repository_name(), "default");
}

#[test]
fn test_matching_is_case_insensitive() {
    let catalog = os_catalog();
    let aliases: Vec<Alias> = Vec::new();
    let upper = resolve_one_in(&aliases, &catalog, &Name::parse("RUST"), 1).unwrap();
    let lower = resolve_one_in(&aliases, &catalog, &Name::parse("rust"), 1).unwrap();
    assert_eq!(upper.len(), 1);
    assert_eq!(lower.len(), 1);
    assert_eq!(upper[0].boilerplate_name(), lower[0].boilerplate_name());
    assert_eq!(upper[0].boilerplate_name(), "Rust");
}

#[test]
fn test_repository_qualified_query() {
    let catalog = os_catalog();
    let aliases: Vec<Alias> = Vec::new();
    let r = resolve_one_in(&aliases, &catalog, &Name::parse("default/rust"), 1).unwrap();
    assert_eq!(r[0].boilerplate_name(), "Rust");
    let miss = resolve_one_in(&aliases, &catalog, &Name::parse("other/rust"), 1);
    assert!(matches!(miss, Err(GixorError::BoilerplateNotFound(_))));
}

#[test]
fn test_alias_expands_in_order() {
    // The os-list alias yields exactly its three members, in order.
    let catalog = os_catalog();
    let aliases = vec![os_list_alias()];
    let r = resolve_one_in(&aliases, &catalog, &Name::parse("os-list"), 2).unwrap();
    assert_eq!(r.len(), 3);
    assert_eq!(r[0].boilerplate_name(), "Linux");
    assert_eq!(r[1].boilerplate_name(), "Windows");
    assert_eq!(r[2].boilerplate_name(), "macOS");
}

#[test]
fn test_alias_with_repository_marker() {
    // Querying under the alias namespace marker yields the identical result.
    let catalog = os_catalog();
    let aliases = vec![os_list_alias()];
    let direct = resolve_one_in(&aliases, &catalog, &Name::parse("os-list"), 2).unwrap();
    let marked = resolve_one_in(&aliases, &catalog, &Name::parse("alias/os-list"), 2).unwrap();
    assert_eq!(direct.len(), marked.len());
    for (a, b) in direct.iter().zip(marked.iter()) {
        assert_eq!(a.boilerplate_name(), b.boilerplate_name());
    }
}

#[test]
fn test_nested_alias_flattens() {
    // An alias whose members include another alias resolves to the
    // flattened, order-preserving concatenation of the ultimate non-alias
    // members.
    let catalog = os_catalog();
    let editors = Alias::new(
        "editor-list".to_string(),
        "editors".to_string(),
        vec![
            Name::parse("visualstudiocode"),
            Name::parse("emacs"),
            Name::parse("vim"),
        ],
    );
    let my_default = Alias::new(
        "my-default".to_string(),
        "both".to_string(),
        vec![Name::parse("os-list"), Name::parse("editor-list")],
    );
    let aliases = vec![os_list_alias(), editors, my_default];
    let fuel = aliases.len() + 1;
    let r = resolve_one_in(&aliases, &catalog, &Name::parse("my-default"), fuel).unwrap();
    assert_eq!(r.len(), 6);
    assert_eq!(r[0].boilerplate_name(), "Linux");
    assert_eq!(r[1].boilerplate_name(), "Windows");
    assert_eq!(r[2].boilerplate_name(), "macOS");
    assert_eq!(r[3].boilerplate_name(), "VisualStudioCode");
    assert_eq!(r[4].boilerplate_name(), "Emacs");
    assert_eq!(r[5].boilerplate_name(), "Vim");
}

#[test]
fn test_cyclic_alias_is_not_found() {
    // An alias that names itself cannot resolve; the bounded expansion
    // falls back to the catalog and reports the name as missing.
    let catalog = os_catalog();
    let aliases = vec![Alias::new(
        "loop".to_string(),
        String::new(),
        vec![Name::parse("loop")],
    )];
    let fuel = aliases.len() + 1;
    let r = resolve_one_in(&aliases, &catalog, &Name::parse("loop"), fuel);
    assert!(matches!(r, Err(GixorError::BoilerplateNotFound(_))));
}

#[test]
fn test_batch_single_failure_is_not_wrapped() {
    // One invalid and one valid name: a single error identifying only the
    // invalid one.
    let catalog = os_catalog();
    let aliases: Vec<Alias> = Vec::new();
    let names = vec![Name::parse("rust"), Name::parse("missing")];
    match resolve_many_in(&aliases, &catalog, &names, 1) {
        Err(GixorError::BoilerplateNotFound(n)) => assert_eq!(n, "missing"),
        _ => panic!("expected a single not-found error"),
    }
}

#[test]
fn test_batch_two_failures_are_wrapped() {
    // Two invalid names: a composite error naming both.
    let catalog = os_catalog();
    let aliases: Vec<Alias> = Vec::new();
    let names = vec![Name::parse("nope1"), Name::parse("rust"), Name::parse("nope2")];
    match resolve_many_in(&aliases, &catalog, &names, 1) {
        Err(GixorError::Array(errs)) => {
            assert_eq!(errs.len(), 2);
            assert!(matches!(&errs[0], GixorError::BoilerplateNotFound(n) if n == "nope1"));
            assert!(matches!(&errs[1], GixorError::BoilerplateNotFound(n) if n == "nope2"));
        }
        _ => panic!("expected a composite error"),
    }
}

#[test]
fn test_batch_success_preserves_order() {
    let catalog = os_catalog();
    let aliases = vec![os_list_alias()];
    let names = vec![Name::parse("rust"), Name::parse("os-list")];
    let r = resolve_many_in(&aliases, &catalog, &names, 2).unwrap();
    assert_eq!(r.len(), 4);
    assert_eq!(r[0].boilerplate_name(), "Rust");
    assert_eq!(r[1].boilerplate_name(), "Linux");
    assert_eq!(r[2].boilerplate_name(), "Windows");
    assert_eq!(r[3].boilerplate_name(), "macOS");
}

#[test]
fn test_entries_from_lines() {
    let lines = vec![
        "node_modules/".to_string(),
        "### Generated by Gixor (https://github.com/tamada/gixor) (default/Rust)".to_string(),
        "### https://raw.github.com/github/gitignore/ABCD/Rust.gitignore".to_string(),
        "target/".to_string(),
        "### https://raw.github.com/github/gitignore/ABCD/Global/macOS.gitignore".to_string(),
    ];
    let names = entries(&lines);
    assert_eq!(names, vec!["Rust".to_string(), "macOS".to_string()]);
}

#[test]
fn test_prologue_is_preserved() {
    let lines = vec![
        "# my own rules".to_string(),
        "*.swp".to_string(),
        "### Generated by Gixor (https://github.com/tamada/gixor) (default/Rust)".to_string(),
        "target/".to_string(),
    ];
    let prologue = load_prologue(&lines);
    assert_eq!(prologue, vec!["# my own rules".to_string(), "*.swp".to_string()]);
}

#[test]
fn test_prologue_without_marker_keeps_all() {
    let lines = vec!["a".to_string(), "b".to_string()];
    assert_eq!(load_prologue(&lines).len(), 2);
}
