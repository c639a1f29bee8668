use tunnel_deck::config::LogLevel;
use tunnel_deck::logging::{
    generation_name, is_written, plan_write, record_line, rotated_name, rotation_plan, single_line,
    RotateAction, WritePlan,
};
use tunnel_deck::platform::browser::command_for;
use tunnel_deck::platform::paths::{Paths, XdgOverrides};
use tunnel_deck::platform::private_fs::{
    check, component, directory_plan, DirectoryPlan, FileFacts, FileKind, FileLookup,
};
use tunnel_deck::platform::Platform;

#[test]
fn browser_commands_pass_the_url_as_one_argument() {
    let url = "https://127.0.0.1:3000/a?b=c&d=e";
    let linux = command_for(Platform::Linux, url);
    assert_eq!(linux.program, "xdg-open");
    assert_eq!(linux.arguments, [url]);
    let mac = command_for(Platform::MacOs, url);
    assert_eq!(mac.program, "open");
    assert_eq!(mac.arguments, [url]);
}

fn resolve(platform: Platform, overrides: XdgOverrides, private: bool) -> Paths {
    Paths::resolve(platform, b"/injected/home", 123, &overrides, private).unwrap()
}

fn text(path: &[u8]) -> String {
    String::from_utf8(path.to_vec()).unwrap()
}

#[test]
fn both_platform_defaults_are_resolved_without_reading_home() {
    let linux = resolve(Platform::Linux, XdgOverrides::default(), true);
    assert_eq!(text(&linux.config), "/injected/home/.config/tunnel-deck/config.toml");
    assert_eq!(
        text(&linux.log),
        "/injected/home/.local/state/tunnel-deck/tunnel-deck.log"
    );
    assert_eq!(text(&linux.runtime), "/tmp/tunnel-deck-123");
    let mac = resolve(Platform::MacOs, XdgOverrides::default(), true);
    assert_eq!(
        text(&mac.config),
        "/injected/home/Library/Application Support/TunnelDeck/config.toml"
    );
    assert_eq!(
        text(&mac.log),
        "/injected/home/Library/Logs/TunnelDeck/tunnel-deck.log"
    );
    assert_eq!(text(&mac.runtime), "/private/tmp/tunnel-deck-123");
}

#[test]
fn absolute_overrides_work_on_both_platforms_and_relative_values_are_ignored() {
    for platform in [Platform::Linux, Platform::MacOs] {
        let root = Some(&b"/root"[..]);
        let paths = resolve(
            platform,
            XdgOverrides { config: root, state: root, runtime: root },
            true,
        );
        assert_eq!(text(&paths.config), "/root/tunnel-deck/config.toml");
        assert_eq!(text(&paths.log), "/root/tunnel-deck/tunnel-deck.log");
        assert_eq!(text(&paths.runtime), "/root/tunnel-deck");
        let relative = Some(&b"relative"[..]);
        assert_eq!(
            resolve(
                platform,
                XdgOverrides { config: relative, state: relative, runtime: relative },
                true
            ),
            resolve(platform, XdgOverrides::default(), true)
        );
    }
    assert!(
        Paths::resolve(Platform::Linux, b"relative", 1, &XdgOverrides::default(), true).is_err()
    );
}

#[test]
fn unsafe_runtime_override_falls_back() {
    let overrides =
        XdgOverrides { runtime: Some(&b"/root/runtime"[..]), ..XdgOverrides::default() };
    assert_eq!(
        text(&resolve(Platform::Linux, overrides, false).runtime),
        "/tmp/tunnel-deck-123"
    );
}

#[test]
fn socket_length_includes_multibyte_paths_and_terminator() {
    for (platform, limit) in [(Platform::Linux, 108), (Platform::MacOs, 104)] {
        let mut paths = Paths {
            config: Vec::new(),
            log: Vec::new(),
            runtime: format!("/{}", "a".repeat(limit - 13)).into_bytes(),
        };
        assert!(paths.socket_path(platform).is_ok());
        paths.runtime.extend_from_slice("/é".as_bytes());
        assert!(paths.socket_path(platform).is_err());
    }
}

fn facts(uid: u32, mode: u32, kind: FileKind, links: u64) -> FileFacts {
    FileFacts { uid, mode, kind, links }
}

#[test]
fn wrong_owner_is_rejected_for_files_and_directories() {
    let file = facts(1000, 0o100600, FileKind::File, 1);
    let directory = facts(1000, 0o040700, FileKind::Directory, 2);
    assert!(check(&file, 1000, false).is_ok());
    assert!(check(&directory, 1000, true).is_ok());
    assert!(check(&file, 1001, false).is_err());
    assert!(check(&directory, 1001, true).is_err());
}

#[test]
fn modes_links_and_kinds_are_checked() {
    assert!(check(&facts(1, 0o100644, FileKind::File, 1), 1, false).is_err());
    assert!(check(&facts(1, 0o104600, FileKind::File, 1), 1, false).is_err());
    assert!(check(&facts(1, 0o100600, FileKind::File, 2), 1, false).is_err());
    assert!(check(&facts(1, 0o120600, FileKind::Other, 1), 1, false).is_err());
    assert!(check(&facts(1, 0o040755, FileKind::Directory, 2), 1, true).is_err());
    assert_eq!(
        check(&facts(1, 0o100600, FileKind::File, 1), 1, true),
        Err("unsafe file type, ownership, permissions, or hard links")
    );
}

#[test]
fn file_names_do_not_lead_out_of_their_directory() {
    assert!(component("config.toml").is_ok());
    for bad in ["", ".", "..", "a/b", "/"] {
        assert_eq!(component(bad), Err("expected one file name"), "{bad:?}");
    }
    assert_eq!(component("a\0b"), Err("invalid file name"));
}

#[test]
fn directories_are_used_created_or_refused() {
    let directory = FileLookup::Found(facts(1, 0o040700, FileKind::Directory, 2));
    assert_eq!(directory_plan(&directory), Ok(DirectoryPlan::Use));
    assert_eq!(directory_plan(&FileLookup::NotFound), Ok(DirectoryPlan::Create));
    assert!(directory_plan(&FileLookup::Found(facts(1, 0o120777, FileKind::Other, 1))).is_err());
    assert_eq!(
        directory_plan(&FileLookup::Failed("denied".to_owned())),
        Err("denied".to_owned())
    );
}

#[test]
fn rotates_at_limit_and_never_writes_multiline_records() {
    assert_eq!(single_line("first\nline\r\t"), "first line  ");
    let record = record_line("info\nforged", "first\nline");
    assert_eq!(record, "info forged\tfirst line\n");
    let mut size = None;
    let mut rotations = 0;
    for (level, message) in [("info\nforged", "first\nline"), ("info", "second"), ("info", "third")]
    {
        let length = record_line(level, message).len();
        match plan_write(length, size, 32) {
            WritePlan::Append => size = Some(size.unwrap_or(0) + length as u64),
            WritePlan::RotateAndAppend => {
                rotations += 1;
                size = Some(length as u64);
            }
            WritePlan::Refuse => panic!("refused"),
        }
        assert!(size.unwrap() <= 32);
    }
    assert_eq!(rotations, 1);
    assert_eq!(plan_write(33, None, 32), WritePlan::Refuse);
    assert_eq!(plan_write(32, Some(0), 32), WritePlan::Append);
    assert_eq!(plan_write(1, Some(u64::MAX), u64::MAX), WritePlan::RotateAndAppend);
}

#[test]
fn rotated_path_preserves_non_utf8_bytes() {
    assert_eq!(rotated_name(b"log-\xff", 2), b"log-\xff.2");
    assert_eq!(rotated_name(b"log", 0), b"log.0");
    assert_eq!(generation_name(b"log", 0), b"log");
    assert_eq!(generation_name(b"log", 3), b"log.3");
}

#[test]
fn records_are_written_up_to_the_level_that_is_set() {
    assert!(is_written(LogLevel::Error, LogLevel::Error));
    assert!(!is_written(LogLevel::Info, LogLevel::Error));
    assert!(is_written(LogLevel::Info, LogLevel::Info));
    assert!(!is_written(LogLevel::Trace, LogLevel::Debug));
    assert!(is_written(LogLevel::Warn, LogLevel::Trace));
}

#[test]
fn rotation_drops_the_oldest_generation_and_shifts_the_others() {
    let mut files = vec![Some("new"), Some("one"), Some("two")];
    for action in rotation_plan(2) {
        match action {
            RotateAction::Remove(index) => files[index] = None,
            RotateAction::Rename { from, to } => {
                if files[from].is_some() {
                    files[to] = files[from].take();
                }
            }
            RotateAction::Synchronize => {}
        }
    }
    assert_eq!(files, [None, Some("new"), Some("one")]);
    assert_eq!(rotation_plan(0), [RotateAction::Remove(0)]);
}
