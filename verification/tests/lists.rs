use crater::config::Config;
use crater::crates::{prepare, Crate, GitHubRepo, PrepareError, RegistryCrate};
use crater::lists::{split_crate_lines, write_crate_list};

fn registry(name: &str, version: &str) -> Crate {
    Crate::Registry(RegistryCrate {
        name: name.to_string(),
        version: version.to_string(),
    })
}

fn repo(name: &str, sha: Option<&str>) -> Crate {
    Crate::GitHub {
        repo: GitHubRepo {
            org: "rust-lang".to_string(),
            name: name.to_string(),
        },
        sha: sha.map(|s| s.to_string()),
    }
}

#[test]
fn lists_are_kept_one_crate_on_each_line() {
    let lines = write_crate_list(&vec![
        ("lazy_static".to_string(), "1.0.0".to_string()),
        ("log".to_string(), "0.4.0".to_string()),
    ]);
    assert_eq!(lines, vec!["lazy_static:1.0.0", "log:0.4.0"]);
    assert_eq!(
        split_crate_lines(&lines),
        vec![registry("lazy_static", "1.0.0"), registry("log", "0.4.0")]
    );
    assert!(write_crate_list(&vec![]).is_empty());
}

#[test]
fn lines_without_a_colon_are_left_out() {
    let lines: Vec<String> = vec![
        "lazy_static:1.0.0".into(),
        "".into(),
        "no version".into(),
        ":1".into(),
        "a:".into(),
        "a:b:c".into(),
    ];
    assert_eq!(
        split_crate_lines(&lines),
        vec![
            registry("lazy_static", "1.0.0"),
            registry("", "1"),
            registry("a", ""),
            registry("a", "b:c"),
        ]
    );
}

#[test]
fn half_of_the_crates_must_be_ready() {
    let config = Config::default();
    let list = vec![
        registry("a", "1"),
        registry("b", "1"),
        repo("c", Some("f00")),
        registry("d", "1"),
        registry("e", "1"),
    ];
    assert_eq!(
        prepare(&list, &config, &vec![true, false, true, false, false]),
        Ok(())
    );
    assert_eq!(
        prepare(&list, &config, &vec![false, false, true, false, false]),
        Err(PrepareError::TooFewCrates)
    );
    assert_eq!(prepare(&vec![], &config, &vec![]), Ok(()));
    assert_eq!(prepare(&list[..1].to_vec(), &config, &vec![false]), Ok(()));

    // Crates on the blacklist count as ready
    let mut blacklist = Config::default();
    blacklist.blacklist.push(registry("a", "1"));
    assert_eq!(
        prepare(&list, &blacklist, &vec![false, false, true, false, false]),
        Ok(())
    );
}

#[test]
fn a_repository_needs_its_commit() {
    let config = Config::default();
    let list = vec![registry("a", "1"), repo("b", None), repo("c", None)];
    assert_eq!(
        prepare(&list, &config, &vec![true, true, true]),
        Err(PrepareError::MissingSha("rust-lang/b".to_string()))
    );
    let mut blacklist = Config::default();
    blacklist.blacklist.push(repo("b", None));
    assert_eq!(
        prepare(&list, &blacklist, &vec![true, true, true]),
        Err(PrepareError::MissingSha("rust-lang/c".to_string()))
    );
}
