use tunnel_deck::application::hosts::{
    discover_hosts, keep_bounded, logical_lines, parse_effective, split_words, Answers, Canonical,
    ConnectionOutcome, Discovery, DiscoveryWarningKind, HostCatalog, HostDiscovery, HostError,
    Lookup, ProcessOutput, Sources, TraversalKind, MAX_DIAGNOSTIC_BYTES, MAX_INCLUDE_DEPTH,
};

const SSH_HOME: &str = "/home/user/.ssh";

fn sources() -> Sources {
    Sources { canonical: Answers::new(), contents: Answers::new(), matches: Answers::new() }
}

/// Answers questions from a list of files until the discovery ends.
fn discover(files: &[(&str, &str)], patterns: &[(&str, &[&str])]) -> Discovery {
    let mut known = sources();
    loop {
        let result = discover_hosts(
            b"/home/user/.ssh/config",
            SSH_HOME.as_bytes(),
            b"/home/user",
            &known,
        );
        match result {
            Discovery::Needs(Lookup::Canonical(path)) => {
                let name = String::from_utf8(path.clone()).unwrap();
                let answer = if files.iter().any(|(file, _)| *file == name) {
                    Canonical::Found(path.clone())
                } else {
                    Canonical::Missing
                };
                known.canonical.add(path, answer);
            }
            Discovery::Needs(Lookup::Contents(path)) => {
                let name = String::from_utf8(path.clone()).unwrap();
                let answer = files
                    .iter()
                    .find(|(file, _)| *file == name)
                    .map(|(_, contents)| contents.to_string());
                known.contents.add(path, answer);
            }
            Discovery::Needs(Lookup::Matches(pattern)) => {
                let name = String::from_utf8(pattern.clone()).unwrap();
                let answer = match patterns.iter().find(|(candidate, _)| *candidate == name) {
                    Some((_, paths)) => Some(paths.iter().map(|p| p.as_bytes().to_vec()).collect()),
                    None if name.contains('[') => None,
                    None if files.iter().any(|(file, _)| *file == name) => {
                        Some(vec![pattern.clone()])
                    }
                    None => Some(vec![]),
                };
                known.matches.add(pattern, answer);
            }
            finished => return finished,
        }
    }
}

fn found(result: Discovery) -> HostDiscovery {
    match result {
        Discovery::Finished(found) => found,
        other => panic!("{other:?}"),
    }
}

#[test]
fn fixture_discovery_follows_includes_and_cycles_without_expanding_patterns() {
    let result = found(discover(
        &[
            (
                "/home/user/.ssh/config",
                "Host web *.example.com !blocked\nInclude conf.d/*.conf\nInclude missing.conf\n",
            ),
            (
                "/home/user/.ssh/conf.d/api.conf",
                "Host api db\n  HostName 192.0.2.1\nInclude ~/.ssh/config\n",
            ),
            ("/home/user/.ssh/conf.d/any.conf", "Host *\n  User nobody\n"),
        ],
        &[(
            "/home/user/.ssh/conf.d/*.conf",
            &["/home/user/.ssh/conf.d/any.conf", "/home/user/.ssh/conf.d/api.conf"],
        )],
    ));
    assert_eq!(result.aliases, ["api", "db", "web"]);
    assert!(result.warnings.iter().any(|warning| {
        warning.kind == DiscoveryWarningKind::Missing && warning.path.ends_with(b"missing.conf")
    }));
}

#[test]
fn excessive_include_depth_fails_instead_of_returning_partial_hosts() {
    let mut files: Vec<(String, String)> =
        vec![("/home/user/.ssh/config".to_owned(), "Include level-0.conf\n".to_owned())];
    for level in 0..=MAX_INCLUDE_DEPTH {
        files.push((
            format!("/home/user/.ssh/level-{level}.conf"),
            format!("Host partial-{level}\nInclude level-{}.conf\n", level + 1),
        ));
    }
    let borrowed: Vec<(&str, &str)> =
        files.iter().map(|(name, text)| (name.as_str(), text.as_str())).collect();
    assert!(matches!(
        discover(&borrowed, &[]),
        Discovery::Refused(HostError::TraversalLimit {
            kind: TraversalKind::IncludeDepth,
            limit: MAX_INCLUDE_DEPTH
        })
    ));
}

#[test]
fn too_many_files_fail_instead_of_returning_partial_hosts() {
    let names: Vec<String> = (0..300).map(|n| format!("/home/user/.ssh/d/{n:03}.conf")).collect();
    let mut files: Vec<(&str, &str)> = vec![("/home/user/.ssh/config", "Include d/*.conf\n")];
    for name in &names {
        files.push((name, "Host x\n"));
    }
    let paths: Vec<&str> = names.iter().map(|name| name.as_str()).collect();
    let result = discover(&files, &[("/home/user/.ssh/d/*.conf", &paths)]);
    match result {
        Discovery::Refused(error) => assert_eq!(
            error.to_string(),
            "SSH config traversal exceeded the 256 file-count limit"
        ),
        other => panic!("{other:?}"),
    }
}

#[test]
fn malformed_patterns_are_warnings() {
    let result = found(discover(
        &[("/home/user/.ssh/config", "Include conf.d/[*\nHost one\n")],
        &[],
    ));
    assert_eq!(result.aliases, ["one"]);
    assert_eq!(result.warnings.len(), 1);
    assert_eq!(result.warnings[0].kind, DiscoveryWarningKind::InvalidIncludePattern);
}

#[test]
fn effective_settings_keep_multiple_identities_and_proxy_information() {
    let output = b"host example\nhostname 192.0.2.10\nuser deploy\nport 2222\nidentityfile ~/.ssh/one\nidentityfile ~/.ssh/two\nproxyjump bastion\nproxycommand none\n";
    let host = parse_effective("example", output).unwrap();
    assert_eq!(host.hostname, "192.0.2.10");
    assert_eq!(host.user, "deploy");
    assert_eq!(host.port, 2222);
    assert_eq!(host.identity_files, ["~/.ssh/one", "~/.ssh/two"]);
    assert_eq!(host.proxy_jump.as_deref(), Some("bastion"));
    assert_eq!(host.proxy_command, None);
}

#[test]
fn unreadable_effective_settings_are_refused() {
    for output in [&b"user deploy\nport 22\n"[..], b"hostname h\nuser u\nport x\n", b"\xff\xfe"] {
        assert!(matches!(
            parse_effective("example", output),
            Err(HostError::InvalidEffectiveConfiguration)
        ));
    }
}

fn words(line: &[char]) -> Vec<String> {
    split_words(line).iter().map(|word| word.iter().collect()).collect()
}

#[test]
fn tokenizer_handles_comments_quotes_equals_and_continuations() {
    let text = [
        "Host first \\",
        " second",
        "Include=\"conf.d/*.conf\" # ignored",
    ]
    .join("\n");
    let lines = logical_lines(&text);
    assert_eq!(words(&lines[0]), ["Host", "first", "second"]);
    assert_eq!(words(&lines[1]), ["Include", "conf.d/*.conf"]);
}

#[test]
fn a_comment_changes_nothing_and_no_word_is_empty() {
    let split = |line: &str| words(&line.chars().collect::<Vec<char>>());
    for line in ["", "  ", "Host=a\t= b ", "one", "==x=="] {
        for rest in ["", " more words", "'\"\\ = #"] {
            assert_eq!(split(&format!("{line}#{rest}")), split(line));
        }
        let runs: Vec<&str> = line
            .split(|c: char| c.is_whitespace() || c == '=')
            .filter(|run| !run.is_empty())
            .collect();
        assert_eq!(split(line), runs);
    }
    assert_eq!(split("a\\#b '#' \"\" ''"), ["a#b", "#"]);
    assert!(split("\"\" = '' \\").iter().all(|word| !word.is_empty()));
}

fn catalog() -> HostCatalog {
    HostCatalog::new(
        b"/home/user/.ssh/config".to_vec(),
        SSH_HOME.as_bytes().to_vec(),
        b"/home/user".to_vec(),
        b"ssh".to_vec(),
    )
}

fn output(success: bool, stdout: &[u8], stderr: &[u8]) -> ProcessOutput {
    ProcessOutput {
        success,
        stdout: stdout.to_vec(),
        stderr: stderr.to_vec(),
        timed_out: false,
    }
}

#[test]
fn fake_openssh_covers_details_success_authentication_and_host_key_failure() {
    let catalog = catalog();
    let details = output(
        true,
        b"hostname fixture.example\nuser fixture\nport 22\nidentityfile /fixture/key\nproxyjump none\nproxycommand none\n",
        b"",
    );
    assert_eq!(
        catalog.effective("details", &details).unwrap().hostname,
        "fixture.example"
    );
    let test = |alias: &str, success: bool, stderr: &[u8]| {
        catalog
            .test_connection(alias, &output(success, b"", stderr))
            .unwrap()
    };
    assert_eq!(test("success", true, b""), ConnectionOutcome::Success);
    let auth = test("auth", false, b"Permission denied (publickey). secret-marker\n");
    assert_eq!(auth, ConnectionOutcome::AuthenticationFailed);
    assert!(!auth.diagnostic().contains("secret-marker"));
    assert_eq!(
        test("unknown-key", false, b"\xff Host key verification failed. secret-marker\n"),
        ConnectionOutcome::HostKeyVerificationFailed
    );
}

#[test]
fn queries_pass_the_alias_behind_the_options() {
    let catalog = catalog();
    assert_eq!(catalog.query_arguments("server").unwrap(), ["-G", "--", "server"]);
    let arguments = catalog.test_arguments("server").unwrap();
    assert_eq!(arguments[arguments.len() - 3..], ["--", "server", "true"]);
    assert!(arguments.contains(&"ClearAllForwardings=yes".to_owned()));
    assert!(matches!(
        catalog.query_arguments("-oProxyCommand=bad"),
        Err(HostError::InvalidAlias(_))
    ));
}

#[test]
fn failed_and_late_queries_are_told_apart() {
    let catalog = catalog();
    let mut late = output(false, b"", b"");
    late.timed_out = true;
    assert!(matches!(catalog.effective("a", &late), Err(HostError::QueryTimedOut)));
    let failed = output(false, b"", b"");
    assert!(matches!(catalog.effective("a", &failed), Err(HostError::QueryFailed)));
    assert!(matches!(
        catalog.effective("bad alias", &failed),
        Err(HostError::InvalidAlias(_))
    ));
    assert!(matches!(
        catalog.import_preview("a", &late, &[], &[]),
        Err(HostError::QueryTimedOut)
    ));
    assert!(matches!(
        catalog.import_preview("a", &output(true, b"\xff", b""), &[], &[]),
        Err(HostError::InvalidEffectiveConfiguration)
    ));
}

#[test]
fn a_refresh_replaces_the_aliases_once_it_is_finished() {
    let mut catalog = catalog();
    let mut known = sources();
    assert!(matches!(catalog.refresh(&known), Discovery::Needs(_)));
    assert!(catalog.aliases().is_empty());
    let config = b"/home/user/.ssh/config".to_vec();
    known.canonical.add(config.clone(), Canonical::Found(config.clone()));
    known.contents.add(config, Some("Host b a\n".to_owned()));
    assert!(matches!(catalog.refresh(&known), Discovery::Finished(_)));
    assert_eq!(*catalog.aliases(), ["a", "b"]);
}

#[test]
fn captured_output_is_bounded_however_it_is_cut() {
    let long = vec![b'x'; MAX_DIAGNOSTIC_BYTES + 10];
    let mut whole = Vec::new();
    keep_bounded(&mut whole, &long);
    let mut pieces = Vec::new();
    for piece in long.chunks(1000) {
        keep_bounded(&mut pieces, piece);
    }
    assert_eq!(whole.len(), MAX_DIAGNOSTIC_BYTES);
    assert_eq!(whole, pieces);
}
