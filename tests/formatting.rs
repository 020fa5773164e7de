use bot_core::access::{entries_to_show, plan_perm_event, user_and_permission, AccessPlugin, PermissionEvent, StoreOp};
use bot_core::config::Config;
use bot_core::error::Error;
use bot_core::formatter::{
    decimal, format_authors, format_duration, format_git_metadata, format_package, format_seconds,
    format_version,
};
use bot_core::metadata::{GitMetadata, Package, Version};
use bot_core::permission::{Permission, PermissionMap};
use bot_core::style::{DefaultDynStyle, DefaultStyle, DynStyle, Style};

fn git(commit: &str, dirty: bool, tag: &str) -> GitMetadata {
    GitMetadata {
        branch: "main".to_string(),
        commit: commit.to_string(),
        dirty,
        tag: tag.to_string(),
        repo: "unknown".to_string(),
    }
}

#[test]
fn decimals() {
    assert_eq!(decimal(0), "0");
    assert_eq!(decimal(7), "7");
    assert_eq!(decimal(1050), "1050");
    assert_eq!(decimal(u64::MAX), "18446744073709551615");
}

#[test]
fn version_text() {
    assert_eq!(format_version(Version { major: 1, minor: 20, patch: 3 }), "v1.20.3");
}

#[test]
fn package_text() {
    let pkg = Package {
        name: "bot".to_string(),
        version: Version { major: 0, minor: 1, patch: 0 },
        authors: vec!["a".to_string()],
        repo: "r".to_string(),
    };
    assert_eq!(format_package(pkg), "bot v0.1.0");
}

#[test]
fn authors_text() {
    assert_eq!(format_authors(vec![]), "[]");
    assert_eq!(format_authors(vec!["Ann".to_string()]), "[\"Ann\"]");
    assert_eq!(
        format_authors(vec!["Ann <a@b>".to_string(), "Bo \"B\"".to_string()]),
        "[\"Ann <a@b>\", \"Bo \\\"B\\\"\"]"
    );
    assert_eq!(Package::parse_authors("a:b"), vec!["a".to_string(), "b".to_string()]);
    assert_eq!(Package::parse_authors(""), vec![String::new()]);
}

#[test]
fn git_text() {
    assert_eq!(format_git_metadata(&git("0123456789abcdef", false, "")), "main@0123456");
    assert_eq!(format_git_metadata(&git("abc", true, "v1")), "main@abc* (v1)");
    assert_eq!(GitMetadata::parse_dirty("0"), Some(false));
    assert_eq!(GitMetadata::parse_dirty("1"), Some(true));
    assert_eq!(GitMetadata::parse_dirty("2"), None);
    assert_eq!(GitMetadata::parse_dirty(""), None);
}

#[test]
fn durations() {
    assert_eq!(format_seconds(0), "0s");
    assert_eq!(format_seconds(59), "59s");
    assert_eq!(format_seconds(61), "1m 1s");
    assert_eq!(format_seconds(3600), "1h 0m 0s");
    assert_eq!(format_seconds(90061), "25h 1m 1s");
    assert_eq!(format_duration(std::time::Duration::from_millis(125_900)), "2m 5s");
}

#[test]
fn error_messages() {
    assert_eq!(Error::ContextDisposed.message(), "context is disposed");
    assert_eq!(Error::InvalidCommandUsage("/x".to_string()).message(), "usage: /x");
    assert_eq!(Error::InvalidOption("user_id".to_string()).message(), "invalid user_id");
    assert_eq!(Error::CommandNotFound("x".to_string()).message(), "command x not found");
    assert_eq!(Error::OptionNotSpecified("perm".to_string()).message(), "perm not specified");
    assert_eq!(Error::UnknownOption("perm x".to_string()).message(), "unknown perm x");
    assert_eq!(Error::NotFound("file".to_string()).message(), "file not found");
    assert_eq!(Error::IsEmpty("map".to_string()).message(), "map is empty");
}

#[test]
fn config_values() {
    let c = Config::default();
    assert_eq!(c.get_token(), "");
    assert_eq!(c.get_prefixes(), vec!['/']);
    let c = Config::new("t0k".to_string(), vec!['!', '.']);
    assert_eq!(c.get_token(), "t0k");
    assert_eq!(c.get_prefixes(), vec!['!', '.']);
}

#[test]
fn styles() {
    assert_eq!(<DefaultStyle as Style>::err(), "✕");
    assert_eq!(<DefaultStyle as Style>::ok(), "✓");
    assert_eq!(DefaultDynStyle.bullet(), "⇛");
    assert_eq!(DefaultDynStyle.info(), "⇒");
    assert_eq!(DynStyle::arrow(&DefaultStyle), "⨠");
}

fn strings(v: &[&str]) -> Vec<String> {
    v.iter().map(|s| s.to_string()).collect()
}

#[test]
fn user_and_permission_from_arguments() {
    let _ = AccessPlugin::new();
    let r = user_and_permission(None, &strings(&["42", "admin"]), true, true).unwrap();
    assert_eq!(r.0, Some(42));
    assert_eq!(r.1.map(|p| p.bits()), Some(2));
    let r = user_and_permission(Some(Some(9)), &strings(&["owner"]), true, true).unwrap();
    assert_eq!(r.0, Some(9));
    assert_eq!(r.1.map(|p| p.bits()), Some(4));
    let r = user_and_permission(Some(None), &strings(&[]), true, false).unwrap();
    assert_eq!(r, (None, None));
    let r = user_and_permission(None, &strings(&["x"]), false, false).unwrap();
    assert_eq!(r, (None, None));
}

#[test]
fn user_and_permission_errors() {
    assert_eq!(
        user_and_permission(None, &strings(&[]), true, true),
        Err(Error::OptionNotSpecified("user_id".to_string()))
    );
    assert_eq!(
        user_and_permission(None, &strings(&["x", "admin"]), true, true),
        Err(Error::InvalidOption("user_id".to_string()))
    );
    assert_eq!(
        user_and_permission(None, &strings(&["42"]), true, true),
        Err(Error::OptionNotSpecified("perm".to_string()))
    );
    assert_eq!(
        user_and_permission(None, &strings(&["42", "boss"]), true, true),
        Err(Error::UnknownOption("perm boss".to_string()))
    );
}

#[test]
fn permission_event_plans() {
    let p = Permission::admin();
    assert_eq!(plan_perm_event(PermissionEvent::Grant, Some(p), Some(1)), Ok(StoreOp::Grant(1, p)));
    assert_eq!(plan_perm_event(PermissionEvent::Revoke, Some(p), Some(1)), Ok(StoreOp::Revoke(1, p)));
    assert_eq!(plan_perm_event(PermissionEvent::Assign, Some(p), Some(1)), Ok(StoreOp::Assign(1, p)));
    assert_eq!(plan_perm_event(PermissionEvent::Reset, None, Some(1)), Ok(StoreOp::Reset(1)));
    assert_eq!(
        plan_perm_event(PermissionEvent::Grant, None, Some(1)),
        Err(Error::OptionNotSpecified("permission".to_string()))
    );
    assert_eq!(
        plan_perm_event(PermissionEvent::Reset, Some(p), None),
        Err(Error::OptionNotSpecified("user_id".to_string()))
    );
}

#[test]
fn entries_shown() {
    let mut map = PermissionMap::new();
    assert_eq!(
        entries_to_show(&map, None),
        Err(Error::IsEmpty("permission map".to_string()))
    );
    map.insert(3, Permission::admin());
    map.insert(4, Permission::user());
    assert_eq!(entries_to_show(&map, Some(3)), Ok(vec![(3, 2)]));
    assert_eq!(
        entries_to_show(&map, Some(5)),
        Err(Error::NotFound("permissions".to_string()))
    );
    let mut all = entries_to_show(&map, None).unwrap();
    all.sort();
    assert_eq!(all, vec![(3, 2), (4, 1)]);
}

#[test]
fn short_commit_counts_bytes() {
    let mut g = git("éabcdefg", false, "");
    g.branch = "m".to_string();
    assert_eq!(format_git_metadata(&g), "m@éabcde");
    assert_eq!(bot_core::formatter::short_commit_of("abcdef€x"), "abcdef");
    assert_eq!(bot_core::formatter::short_commit_of("abcdeéx"), "abcdeé");
    assert_eq!(bot_core::formatter::short_commit_of("€€€"), "€€");
    assert_eq!(bot_core::formatter::short_commit_of(""), "");
}
