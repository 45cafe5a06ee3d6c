use gixor::Name;
use gixor::url_to_owner_and_repo_name;

#[test]
fn test_url_to_name() {
    let url = "https://github.com/github/gitignore.git";
    let (owner, name) = url_to_owner_and_repo_name(url);
    assert_eq!(owner, "github");
    assert_eq!(name, "gitignore");
}

#[test]
fn test_url_to_name2() {
    let url = "git@github.com:tamada/gitignore.git";
    let (owner, name) = url_to_owner_and_repo_name(url);
    assert_eq!(owner, "tamada");
    assert_eq!(name, "gitignore");
}

#[test]
fn test_target_name() {
    let target = Name::new("tamada", "devcontainer");
    assert_eq!(target.repository_name, Some("tamada".to_string()));
    assert_eq!(target.boilerplate_name, "devcontainer");

    let target = Name::parse("tamada/devcontainer");
    assert_eq!(target.repository_name, Some("tamada".to_string()));
    assert_eq!(target.boilerplate_name, "devcontainer");

    let target = Name::parse("devcontainer");
    assert_eq!(target.repository_name, None);
    assert_eq!(target.boilerplate_name, "devcontainer");
}

#[test]
fn test_name_to_string() {
    assert_eq!(Name::new("tamada", "devcontainer").to_string(), "tamada/devcontainer");
    assert_eq!(Name::new_of("rust").to_string(), "rust");
}

#[test]
fn test_name_round_trip() {
    let n = Name::new("repo", "boiler");
    let back = Name::parse(n.to_string().as_str());
    assert_eq!(back.repository_name, Some("repo".to_string()));
    assert_eq!(back.boilerplate_name, "boiler");

    let n = Name::new_of("boiler");
    let back = Name::parse(n.to_string().as_str());
    assert_eq!(back.repository_name, None);
    assert_eq!(back.boilerplate_name, "boiler");
}

#[test]
fn test_parse_splits_on_first_slash() {
    let n = Name::parse("a/b/c");
    assert_eq!(n.repository_name, Some("a".to_string()));
    assert_eq!(n.boilerplate_name, "b/c");
    assert_eq!(n.to_string(), "a/b/c");
}

#[test]
fn test_parse_empty() {
    let n = Name::parse("");
    assert_eq!(n.repository_name, None);
    assert_eq!(n.boilerplate_name, "");
}

#[test]
fn test_url_without_dot_git() {
    let (owner, name) = url_to_owner_and_repo_name("https://gitlab.com/someone/templates");
    assert_eq!(owner, "someone");
    assert_eq!(name, "templates");
}

#[test]
fn test_url_single_segment() {
    let (owner, name) = url_to_owner_and_repo_name("gitignore.git");
    assert_eq!(owner, "unknown");
    assert_eq!(name, "gitignore");
}
