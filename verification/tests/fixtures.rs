use gixor::Config;
use gixor::Gixor;
use gixor::Name;
use gixor::search_boilerplates;

#[test]
fn test_search_boilerplates() {
    let names = vec![
        "Rust".to_string(),
        "NetBeans".to_string(),
        "JetBrains".to_string(),
        "macOS".to_string(),
    ];
    let hits = search_boilerplates(&names, &vec!["rust".to_string()]);
    assert_eq!(hits, vec!["Rust".to_string()]);
    let hits = search_boilerplates(&names, &vec!["beans".to_string(), "brains".to_string()]);
    assert_eq!(hits, vec!["NetBeans".to_string(), "JetBrains".to_string()]);
    let hits = search_boilerplates(&names, &vec!["zzz".to_string()]);
    assert!(hits.is_empty());
}

/// Seeds a git repository holding the given boilerplate files, committed
/// and checked out into the working tree.
fn seed_repository(path: &str, files: &[(&str, &str)]) -> String {
    let repo = match git2::Repository::open(path) {
        Ok(r) => r,
        Err(_) => {
            let mut opts = git2::RepositoryInitOptions::new();
            opts.initial_head("main");
            git2::Repository::init_opts(path, &opts).unwrap()
        }
    };
    if let Ok(head) = repo.head() {
        // An earlier run already seeded this repository.
        return format!("{}", head.peel_to_commit().unwrap().id());
    }
    let sig = git2::Signature::now("someone", "someone@example.com").unwrap();
    let tree_id = {
        let mut tb = repo.treebuilder(None).unwrap();
        for (name, content) in files {
            let blob = repo.blob(content.as_bytes()).unwrap();
            tb.insert(*name, blob, 0o100644).unwrap();
        }
        tb.write().unwrap()
    };
    let tree = repo.find_tree(tree_id).unwrap();
    let commit_id = repo
        .commit(Some("HEAD"), &sig, &sig, "seed", &tree, &[])
        .unwrap();
    let mut checkout = git2::build::CheckoutBuilder::new();
    checkout.force();
    repo.checkout_head(Some(&mut checkout)).unwrap();
    format!("{}", commit_id)
}

#[test]
fn test_content_url_from_local_commit() {
    // A commit made through the git backend gives the boilerplate a
    // raw-content URL carrying the uppercase hex of that commit's id.
    let root = "/tmp/gixor_fixture_content_url";
    let commit_hex = seed_repository(
        &format!("{}/default", root),
        &[("Rust.gitignore", "target/\n")],
    );

    let r = gixor::Repository::new_with("default", "https://github.com/github/gitignore.git");
    let base = root.to_string();
    let bp = gixor::Boilerplate::new(
        "Rust".to_string(),
        format!("{}/default/Rust.gitignore", root),
        &r,
        &base,
    );
    let url = bp.content_url().unwrap();
    assert_eq!(
        url,
        format!(
            "https://raw.github.com/github/gitignore/{}/Rust.gitignore",
            commit_hex.to_uppercase()
        )
    );
}

/// A fresh path for a fixture, so repeated runs never collide.
fn unique_root(tag: &str) -> String {
    let stamp = std::time::SystemTime::now()
        .duration_since(std::time::UNIX_EPOCH)
        .unwrap()
        .as_nanos();
    format!("/tmp/gixor_fixture_{}_{}", tag, stamp)
}

/// Adds a commit on top of the repository's HEAD, changing one file.
fn advance(path: &str, name: &str, content: &str) -> String {
    let repo = git2::Repository::open(path).unwrap();
    let sig = git2::Signature::now("someone", "someone@example.com").unwrap();
    let parent = repo.head().unwrap().peel_to_commit().unwrap();
    let tree_id = {
        let mut tb = repo.treebuilder(Some(&parent.tree().unwrap())).unwrap();
        let blob = repo.blob(content.as_bytes()).unwrap();
        tb.insert(name, blob, 0o100644).unwrap();
        tb.write().unwrap()
    };
    let tree = repo.find_tree(tree_id).unwrap();
    let id = repo
        .commit(Some("HEAD"), &sig, &sig, "advance", &tree, &[&parent])
        .unwrap();
    format!("{}", id)
}

#[test]
fn test_pull_fast_forwards() {
    // A clone behind its remote is brought up to date by a fast-forward:
    // after the pull, the local branch stands at the remote's new commit.
    let root = unique_root("pull");
    let src = format!("{}/src", root);
    let dst = format!("{}/dst", root);
    seed_repository(&src, &[("Rust.gitignore", "target/\n")]);
    let cloned = git2::Repository::clone(&src, &dst).unwrap();
    let branch = cloned.head().unwrap().shorthand().unwrap().to_string();
    drop(cloned);

    let new_tip = advance(&src, "Rust.gitignore", "target/\nCargo.lock\n");
    gixor::gitbridge::pull(&dst, "origin", &branch).unwrap();

    let pulled = git2::Repository::open(&dst).unwrap();
    let local_tip = format!("{}", pulled.head().unwrap().peel_to_commit().unwrap().id());
    assert_eq!(local_tip, new_tip);
    drop(pulled);

    // Pulling again finds nothing to do.
    gixor::gitbridge::pull(&dst, "origin", &branch).unwrap();
}

#[test]
fn test_pull_refuses_diverged_histories() {
    let root = unique_root("diverge");
    let src = format!("{}/src", root);
    let dst = format!("{}/dst", root);
    seed_repository(&src, &[("Rust.gitignore", "target/\n")]);
    let cloned = git2::Repository::clone(&src, &dst).unwrap();
    let branch = cloned.head().unwrap().shorthand().unwrap().to_string();
    drop(cloned);

    // Both sides move on independently.
    advance(&src, "Rust.gitignore", "target/\nremote-change\n");
    advance(&dst, "Rust.gitignore", "target/\nlocal-change\n");

    let e = gixor::gitbridge::pull(&dst, "origin", &branch).unwrap_err();
    assert_eq!(e.to_message(), "Git error: Merge commit is not supported yet");

    // The local branch is unchanged by the refused merge.
    let repo = git2::Repository::open(&dst).unwrap();
    let tip = repo.head().unwrap().peel_to_commit().unwrap();
    assert_eq!(tip.message().unwrap(), "advance");
}

#[test]
fn test_repo() {
    let repo = gixor::Repository::new_with("tamada", "https://github.com/tamada/gitignore.git");
    assert_eq!(repo.name, "tamada");
    assert_eq!(repo.url, "https://github.com/tamada/gitignore.git");

    // A local remote stands in for the hosted one: its clone under the
    // base path is what prepare pulls and the walk reads.
    let root = unique_root("repo");
    seed_repository(
        &format!("{}/src", root),
        &[("devcontainer.gitignore", ".devcontainer/\n")],
    );
    git2::Repository::clone(&format!("{}/src", root), &format!("{}/tamada", root)).unwrap();

    let base_path = root.clone();
    let probe = gixor::DirProbe { exists: true, has_dot_git: true };
    if let Err(e) = repo.prepare(&base_path, probe, None) {
        panic!("Failed to prepare the repository: {}", e.to_message());
    }
    let boilerplates = repo.iter(&base_path);
    assert_eq!(boilerplates.len(), 1);

    if let Some(b) = repo.find(&gixor::Name::new_of("devcontainer"), &base_path) {
        assert_eq!(b.path, format!("{}/tamada/devcontainer.gitignore", root));
    } else {
        panic!("Failed to find the devcontainer.gitignore");
    }
}

#[test]
fn test_find_walks_the_clone() {
    // Boilerplate files checked out under a repository's clone directory
    // are discovered by the walk and resolved case-insensitively.
    let root = "/tmp/gixor_fixture_find_walk";
    seed_repository(
        &format!("{}/default", root),
        &[
            ("Rust.gitignore", "target/\n"),
            ("macOS.gitignore", ".DS_Store\n"),
            ("README.md", "not a boilerplate\n"),
        ],
    );

    let config = Config {
        repositories: vec![gixor::Repository::new_with(
            "default",
            "https://host/github/gitignore.git",
        )],
        aliases: None,
        base_path: root.to_string(),
    };
    let gixor = Gixor::new(config, format!("{}/config.json", root));

    let found = gixor.find(&Name::parse("rust")).unwrap();
    assert_eq!(found.len(), 1);
    assert_eq!(found[0].boilerplate_name(), "Rust");
    assert_eq!(found[0].repository_name(), "default");

    let found = gixor.find(&Name::parse("MACOS")).unwrap();
    assert_eq!(found[0].boilerplate_name(), "macOS");

    assert!(gixor.find(&Name::parse("readme")).is_err());

    let all = gixor.iter();
    assert_eq!(all.len(), 2);
}
