use gixor::Alias;
use gixor::AliasManager;
use gixor::Aliases;
use gixor::Boilerplate;
use gixor::Config;
use gixor::DirProbe;
use gixor::Gixor;
use gixor::GixorBuilder;
use gixor::GixorError;
use gixor::Name;
use gixor::Repository;
use gixor::RepositoryManager;
use gixor::Strategy;
use gixor::can_fast_forward;
use gixor::find_merge_strategy;
use gixor::find_target_repositories;
use gixor::hex_encode_upper;
use gixor::resolve_local_ref;
use gixor::gitbridge::clone;
use gixor::gitbridge::hash;
use gixor::gitbridge::pull;

fn sample_gixor() -> Gixor {
    let config = Config {
        repositories: vec![Repository::default()],
        aliases: None,
        base_path: "no_such_base".to_string(),
    };
    Gixor::new(config, "no_such_base/config.json".to_string())
}

#[test]
fn test_find_target_repositories() {
    let gixor = sample_gixor();
    let r = find_target_repositories(&gixor, &vec!["default".to_string()]).unwrap();
    assert_eq!(r.len(), 1);
    assert_eq!(r[0].name, "default");

    let r = find_target_repositories(&gixor, &vec!["not_found".to_string()]);
    match r {
        Err(GixorError::RepositoryNotFound(name)) => assert_eq!(name, "not_found"),
        _ => panic!("expected a repository-not-found error"),
    }

    let r = find_target_repositories(&gixor, &Vec::new()).unwrap();
    assert_eq!(r.len(), 1);
}

#[test]
fn test_find_target_repositories_two_missing() {
    let gixor = sample_gixor();
    let r = find_target_repositories(
        &gixor,
        &vec!["a".to_string(), "default".to_string(), "b".to_string()],
    );
    match r {
        Err(GixorError::Array(errs)) => {
            assert_eq!(errs.len(), 2);
            assert!(matches!(&errs[0], GixorError::RepositoryNotFound(n) if n == "a"));
            assert!(matches!(&errs[1], GixorError::RepositoryNotFound(n) if n == "b"));
        }
        _ => panic!("expected a composite error"),
    }
}

#[test]
fn test_merge_strategy_decision() {
    let one = vec![1u8, 2, 3];
    let two = vec![9u8, 9, 9];
    assert_eq!(find_merge_strategy(&one, &one, &None), Strategy::NoNeed);
    assert_eq!(
        find_merge_strategy(&one, &two, &Some(one.clone())),
        Strategy::FastForward
    );
    assert_eq!(
        find_merge_strategy(&one, &two, &Some(two.clone())),
        Strategy::Merge
    );
    assert_eq!(find_merge_strategy(&one, &two, &None), Strategy::Merge);
    assert!(can_fast_forward(&Some(one.clone()), &one));
    assert!(!can_fast_forward(&None, &one));
}

#[test]
fn test_resolve_local_ref() {
    let local = vec![1u8];
    let remote = vec![2u8];
    // Equal commits: the ref keeps its value.
    assert_eq!(resolve_local_ref(&local, &local, &None).unwrap(), local);
    // The local commit is the merge base: the ref moves to the remote id.
    assert_eq!(
        resolve_local_ref(&local, &remote, &Some(local.clone())).unwrap(),
        remote
    );
    // Diverging histories: a reported error, never an attempted merge.
    let e = resolve_local_ref(&local, &remote, &None).unwrap_err();
    assert_eq!(e.to_message(), "Git error: Merge commit is not supported yet");
}

#[test]
fn test_clone_rejects_unknown_protocol() {
    let r = clone("ftp://example.com/x.git", &"unused".to_string(), None);
    match r {
        Err(e) => assert_eq!(e.to_message(), "Fatal error: ftp://example.com/x.git: Unsupported protocol"),
        _ => panic!("expected a fatal error"),
    }
}

#[test]
fn test_clone_ssh_needs_a_key() {
    let r = clone("git@example.com:a/b.git", &"unused".to_string(), None);
    match r {
        Err(e) => assert_eq!(e.to_message(), "Fatal error: No private key found"),
        _ => panic!("expected a fatal error"),
    }
}

#[test]
fn test_pull_reports_missing_repository() {
    let r = pull(&"no_such_repository_path".to_string(), "origin", "main");
    assert!(matches!(r, Err(GixorError::Git(_))));
}

#[test]
fn test_hash_reports_missing_repository() {
    let repo = Repository::default();
    let base = "no_such_base".to_string();
    let bp = Boilerplate::new(
        "Rust".to_string(),
        "no_such_base/default/Rust.gitignore".to_string(),
        &repo,
        &base,
    );
    let r = hash(&bp, &base);
    assert!(matches!(r, Err(GixorError::Git(_))));
    let u = bp.content_url();
    assert!(u.is_err());
}

#[test]
fn test_hex_encode_upper() {
    assert_eq!(hex_encode_upper(&vec![0xABu8, 0x01, 0xF0]), "AB01F0");
    assert_eq!(hex_encode_upper(&Vec::new()), "");
}

#[test]
fn test_repository_manager() {
    let mut gixor = sample_gixor();
    assert_eq!(gixor.len(), 1);
    assert!(!gixor.is_empty());
    assert!(gixor.repository("default").is_some());
    assert!(gixor.repository("missing").is_none());

    // A probe that reports an existing clone makes the validating clone a
    // no-op, so the entry is accepted.
    let probe = DirProbe { exists: true, has_dot_git: true };
    let repo = Repository::new_with("tamada", "https://github.com/tamada/gitignore.git");
    gixor.add_repository(repo, probe, None).unwrap();
    assert_eq!(gixor.len(), 2);
    assert_eq!(gixor.repositories()[1].name, "tamada");

    let removed = gixor.remove_repository_with("tamada", true).unwrap();
    assert_eq!(removed, None);
    assert_eq!(gixor.len(), 1);

    let path = gixor.remove_repository("default").unwrap();
    assert_eq!(path, Some("no_such_base/default".to_string()));
    assert!(gixor.is_empty());

    let r = gixor.remove_repository("default");
    match r {
        Err(e) => {
            assert!(matches!(e, GixorError::RepositoryNotFound(_)));
            assert_eq!(e.to_message(), "default: repository not found");
        }
        _ => panic!("expected a repository-not-found error"),
    }
}

#[test]
fn test_default_repository() {
    let repo = Repository::default();
    assert_eq!(repo.name, "default");
    assert_eq!(repo.url, "https://github.com/github/gitignore.git");
    assert_eq!(repo.owner, "github");
    assert_eq!(repo.repo_name, "gitignore");
}

#[test]
fn test_prepare_without_network() {
    let gixor = sample_gixor();
    let probes = vec![DirProbe { exists: false, has_dot_git: false }];
    assert!(gixor.prepare(true, &probes, None).is_ok());
}

#[test]
fn test_find_on_empty_clone_is_not_found() {
    // Nothing is cloned under the base path, so the walk discovers nothing
    // and the query fails naming the boilerplate.
    let gixor = sample_gixor();
    let r = gixor.find(&Name::parse("rust"));
    match r {
        Err(GixorError::BoilerplateNotFound(n)) => assert_eq!(n, "rust"),
        _ => panic!("expected a not-found error"),
    }
}

#[test]
fn test_alias_manager() {
    let mut config = Config {
        repositories: Vec::new(),
        aliases: Some(Aliases::new(Vec::new())),
        base_path: "base".to_string(),
    };
    config
        .add_alias(Alias::new(
            "os-list".to_string(),
            String::new(),
            vec![Name::parse("linux")],
        ))
        .unwrap();
    assert_eq!(config.iter_aliases().len(), 1);
    assert_eq!(config.iter_aliases()[0].name, "os-list");

    let missing = config.remove_alias("nope");
    match missing {
        Err(e) => {
            assert!(matches!(e, GixorError::AliasNotFound(_)));
            assert_eq!(e.to_message(), "nope: alias not found");
        }
        _ => panic!("expected an alias-not-found error"),
    }
    config.remove_alias("os-list").unwrap();
    assert_eq!(config.iter_aliases().len(), 0);

    let mut bare = Config { repositories: Vec::new(), aliases: None, base_path: String::new() };
    let r = bare.remove_alias("os-list");
    assert!(matches!(r, Err(GixorError::AliasNotFound(_))));
}

#[test]
fn test_aliases_find_and_merge() {
    let a = Alias::new("os-list".to_string(), String::new(), vec![Name::parse("linux")]);
    let b = Alias::new("editors".to_string(), String::new(), vec![Name::parse("vim")]);
    let table = Aliases::new(vec![a]);
    assert_eq!(table.find("os-list").unwrap().name, "os-list");
    assert!(table.find("editors").is_none());

    let shadow = Alias::new("os-list".to_string(), String::new(), vec![Name::parse("macos")]);
    let other = Aliases::new(vec![shadow, b]);
    let merged = table.merge(&other);
    assert_eq!(merged.aliases().len(), 2);
    assert_eq!(merged.aliases()[0].name, "os-list");
    // The first table's entry wins over the duplicate name.
    assert_eq!(merged.aliases()[0].boilerplates[0].boilerplate_name, "linux");
    assert_eq!(merged.aliases()[1].name, "editors");
}

#[test]
fn test_builder_resolves_base_path() {
    let g = GixorBuilder::build(
        vec![Repository::default()],
        None,
        "boilerplates".to_string(),
        "testdata/config.json".to_string(),
    );
    assert_eq!(g.base_path(), "testdata/boilerplates");

    let g = GixorBuilder::build(
        Vec::new(),
        None,
        "/absolute/boilerplates".to_string(),
        "testdata/config.json".to_string(),
    );
    assert_eq!(g.base_path(), "/absolute/boilerplates");

    let g = GixorBuilder::build(
        Vec::new(),
        None,
        "./boilerplates".to_string(),
        "testdata/config.json".to_string(),
    );
    assert_eq!(g.base_path(), "./boilerplates");

    let g = GixorBuilder::build(
        Vec::new(),
        None,
        "boilerplates".to_string(),
        "config.json".to_string(),
    );
    assert_eq!(g.base_path(), "boilerplates");
}

#[test]
fn test_boilerplate_accessors() {
    let repo = Repository::default();
    let base = "base".to_string();
    let bp = Boilerplate::new(
        "Rust".to_string(),
        "base/default/Rust.gitignore".to_string(),
        &repo,
        &base,
    );
    assert_eq!(bp.boilerplate_name(), "Rust");
    assert_eq!(bp.repository_name(), "default");
    let n = bp.name();
    assert_eq!(n.repository_name, Some("default".to_string()));
    assert_eq!(n.boilerplate_name, "Rust");
    assert!(bp.matches(&Name::parse("rust")));
    assert!(bp.matches(&Name::parse("DEFAULT/RUST")));
    assert!(!bp.matches(&Name::parse("other/rust")));
    assert!(Name::parse("rust").matches(&bp));
}
