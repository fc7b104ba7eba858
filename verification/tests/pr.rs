use tix_git::commands::pr::{
    build_pr_url, detect_provider, parse_origin, pr_cli_args, provider_cli, OriginUrl, Provider,
};

#[test]
fn parses_ssh_origin() {
    let url = "git@github.com:owner/repo.git";
    let o = parse_origin(url).unwrap();
    assert_eq!(o.host, "github.com");
    assert_eq!(o.owner, "owner");
    assert_eq!(o.repo, "repo");
}

#[test]
fn parses_https_origin() {
    let url = "https://github.com/owner/repo.git";
    let o = parse_origin(url).unwrap();
    assert_eq!(o.host, "github.com");
    assert_eq!(o.owner, "owner");
    assert_eq!(o.repo, "repo");
}

#[test]
fn parses_https_without_dot_git_suffix() {
    let url = "https://gitlab.com/group/project";
    let o = parse_origin(url).unwrap();
    assert_eq!(o.host, "gitlab.com");
    assert_eq!(o.owner, "group");
    assert_eq!(o.repo, "project");
}

#[test]
fn parses_origin_with_surrounding_space_and_trailing_slashes() {
    let o = parse_origin("  ssh://git@host.example/team/tool.git.git//\n").unwrap();
    assert_eq!(o.host, "git@host.example");
    assert_eq!(o.owner, "team");
    assert_eq!(o.repo, "tool");
}

#[test]
fn keeps_nested_path_in_repo_part() {
    let o = parse_origin("https://gitlab.com/group/sub/project").unwrap();
    assert_eq!(o.owner, "group");
    assert_eq!(o.repo, "sub/project");
}

#[test]
fn rejects_unknown_origin_shapes() {
    assert_eq!(parse_origin("/local/path/repo"), None);
    assert_eq!(parse_origin("git@github.com-no-colon/repo"), None);
    assert_eq!(parse_origin("https://github.com/only-owner"), None);
    assert_eq!(parse_origin(""), None);
}

#[test]
fn detects_github() {
    assert_eq!(detect_provider("github.com", "gitlab"), Provider::GitHub);
}

#[test]
fn detects_gitlab() {
    assert_eq!(detect_provider("gitlab.com", "github"), Provider::GitLab);
}

#[test]
fn detects_bitbucket_subdomain() {
    assert_eq!(
        detect_provider("team.bitbucket.org", "github"),
        Provider::Bitbucket
    );
}

#[test]
fn falls_back_to_config_pr_provider() {
    assert_eq!(
        detect_provider("git.internal.example.com", "gitlab"),
        Provider::GitLab
    );
}

#[test]
fn unknown_fallback_means_github() {
    assert_eq!(detect_provider("git.internal", "bitbucket"), Provider::Bitbucket);
    assert_eq!(detect_provider("git.internal", "sourcehut"), Provider::GitHub);
}

#[test]
fn builds_github_compare_url() {
    let o = OriginUrl {
        host: "github.com".into(),
        owner: "o".into(),
        repo: "r".into(),
    };
    assert_eq!(
        build_pr_url(&o, Provider::GitHub, "feat/POD-1"),
        "https://github.com/o/r/compare/feat/POD-1?expand=1"
    );
}

#[test]
fn builds_gitlab_mr_url_with_url_encoded_brackets() {
    let o = OriginUrl {
        host: "gitlab.com".into(),
        owner: "o".into(),
        repo: "r".into(),
    };
    let url = build_pr_url(&o, Provider::GitLab, "feat/POD-1");
    assert!(url.contains("merge_request%5Bsource_branch%5D=feat/POD-1"));
}

#[test]
fn builds_bitbucket_pull_request_url() {
    let o = OriginUrl {
        host: "bitbucket.org".into(),
        owner: "o".into(),
        repo: "r".into(),
    };
    assert_eq!(
        build_pr_url(&o, Provider::Bitbucket, "b"),
        "https://bitbucket.org/o/r/pull-requests/new?source=b"
    );
}

#[test]
fn provider_tools_and_their_arguments() {
    assert_eq!(provider_cli(Provider::GitHub), Some("gh"));
    assert_eq!(provider_cli(Provider::GitLab), Some("glab"));
    assert_eq!(provider_cli(Provider::Bitbucket), None);
    assert_eq!(
        pr_cli_args("gh", Some("POD-1")).unwrap(),
        vec!["pr", "create", "--web", "--title", "POD-1 "]
    );
    assert_eq!(
        pr_cli_args("glab", None).unwrap(),
        vec!["mr", "create", "--web"]
    );
    assert_eq!(pr_cli_args("hub", None), None);
}

#[test]
fn every_known_shape_gives_back_its_parts() {
    let expected = OriginUrl {
        host: "git.example.org".to_string(),
        owner: "team".to_string(),
        repo: "widget".to_string(),
    };
    for url in [
        "git@git.example.org:team/widget.git",
        "https://git.example.org/team/widget",
        "http://git.example.org/team/widget",
        "ssh://git.example.org/team/widget",
        "https://git.example.org/team/widget.git/",
        "http://git.example.org/team/widget.git/",
        "ssh://git.example.org/team/widget.git/",
    ] {
        assert_eq!(parse_origin(url), Some(expected.clone()), "{url}");
    }
}
