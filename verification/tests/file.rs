use limpid_output::delivery::DeliveryAction;
use limpid_output::file::{
    check_resolved, file_line, open_error, parse_mode, render_failed, FileOutput, MetadataLedger,
    PathKey, PathSetting,
};
use limpid_output::file_path::{
    check_no_traversal, render_path, sanitize_path_component, split_segments, PathPart,
};
use limpid_output::file_windows;
use limpid_output::file_write::{FileAction, FileEvent, FileWrite};
use limpid_output::metrics::OutputMetrics;
use limpid_output::props::{Expr, Property, TemplateFragment};
use limpid_output::retry::{BackoffStrategy, RetryConfig};

const DEFAULTS: RetryConfig = RetryConfig {
    max_attempts: 3,
    initial_wait: 1_000_000_000,
    max_wait: 30_000_000_000,
    backoff: BackoffStrategy::Exponential,
};

fn literal(s: &str) -> PathPart {
    PathPart::Literal(s.to_string())
}

fn value(s: &str) -> PathPart {
    PathPart::Value(s.to_string())
}

fn render(parts: Vec<PathPart>) -> Result<String, String> {
    render_path(&parts).map_err(|e| e.message().to_string())
}

fn kv(key: &str, value: Expr) -> Property {
    Property::KeyValue { key: key.to_string(), value }
}

fn text(s: &str) -> Expr {
    Expr::StringLit(s.to_string())
}

fn build(props: Vec<Property>) -> FileOutput {
    FileOutput::from_properties("f", &props, DEFAULTS).unwrap()
}

fn build_error(props: Vec<Property>) -> String {
    FileOutput::from_properties("f", &props, DEFAULTS).err().unwrap().message().to_string()
}

#[test]
fn render_static_path() {
    let out = build(vec![kv("path", text("/var/log/app.log"))]);
    let PathSetting::Static(path) = &out.path else { panic!("dynamic") };
    assert_eq!(path, "/var/log/app.log");
}

#[test]
fn render_template_with_ident_interp() {
    let fragments = vec![
        TemplateFragment::Literal("/var/log/".to_string()),
        TemplateFragment::Interp(Box::new(Expr::Ident(vec![
            "source".to_string(),
            "ip".to_string(),
        ]))),
        TemplateFragment::Literal(".log".to_string()),
    ];
    let out = build(vec![kv("path", Expr::Template(fragments))]);
    assert!(matches!(out.path, PathSetting::Template(_)));
    let wanted = out.wanted_values();
    assert_eq!(wanted.len(), 1);
    assert!(matches!(wanted[0], Expr::Ident(parts) if parts[0] == "source" && parts[1] == "ip"));
    let rendered = out.resolve_path(&[Ok("192.168.1.10".to_string())]).unwrap();
    assert_eq!(rendered, ("/var/log/192.168.1.10.log".to_string(), true));
}

#[test]
fn render_template_sanitizes_workspace_reference() {
    let rendered = render(vec![literal("/var/log/"), value("10.0.0.1/24"), literal(".log")]);
    assert_eq!(rendered.unwrap(), "/var/log/10.0.0.1_24.log");
}

#[test]
fn render_template_sanitises_every_interpolation() {
    let rendered = render(vec![literal("a-"), value("192.168.1.10"), literal("-b")]);
    assert_eq!(rendered.unwrap(), "a-192.168.1.10-b");
}

#[test]
fn sanitize_path_component_replaces_unix_separator() {
    assert_eq!(sanitize_path_component("a/b/c"), "a_b_c");
}

#[test]
fn sanitize_path_component_replaces_windows_separator() {
    assert_eq!(sanitize_path_component("a\\b\\c"), "a_b_c");
}

#[test]
fn sanitize_path_component_replaces_mixed_separators() {
    assert_eq!(sanitize_path_component("a/b\\c/d\\e"), "a_b_c_d_e");
}

#[test]
fn sanitize_path_component_leaves_dots_alone() {
    assert_eq!(sanitize_path_component("web01.example.com"), "web01.example.com");
}

#[test]
fn render_template_sanitises_backslash_from_workspace() {
    let rendered = render(vec![literal("/var/log/"), value("C:\\Users\\bob"), literal(".log")]);
    assert_eq!(rendered.unwrap(), "/var/log/C:_Users_bob.log");
}

#[test]
fn render_template_errors_on_empty_interpolation() {
    let err = render(vec![literal("/var/log/"), value(""), literal(".log")]).unwrap_err();
    assert!(err.contains("evaluated to empty"), "unexpected error: {}", err);
}

#[test]
fn render_template_errors_on_trailing_slash() {
    let err = render(vec![literal("/var/log/"), value("web01"), literal("/")]).unwrap_err();
    assert!(err.contains("ends with `/`"), "unexpected error: {}", err);
    // The path is shown quoted.
    assert!(err.ends_with("\"/var/log/web01/\""), "unexpected error: {}", err);
}

#[test]
fn render_template_errors_when_traversal_appears_in_path() {
    let err = render(vec![value("..")]).unwrap_err();
    assert!(err.contains("traversal component"), "unexpected error: {}", err);
}

#[test]
fn an_interpolation_that_fails_fails_the_path() {
    let parts = vec![literal("/a/"), PathPart::Failed("no such field".to_string()), value("")];
    assert_eq!(render(parts).unwrap_err(), "no such field");
    assert!(render(vec![]).unwrap_err().contains("rendered path is empty"));
}

/// Whatever the values hold, they add no directory to those of the template.
#[test]
fn values_add_no_directories() {
    let path = render(vec![literal("/x/"), value("a/b\\c"), literal("/y")]).unwrap();
    assert_eq!(split_segments(&path), vec!["", "x", "a_b_c", "y"]);
}

#[test]
fn check_no_traversal_accepts_clean_paths() {
    assert!(check_no_traversal("/var/log/foo.log").is_ok());
    assert!(check_no_traversal("/var/log/web01.example.com.log").is_ok());
    assert!(check_no_traversal("/var/log/.hidden.log").is_ok());
    assert!(check_no_traversal("/var/log/.../foo.log").is_ok());
    assert!(check_no_traversal("a/..../b").is_ok());
}

#[test]
fn check_no_traversal_rejects_dot_dot_sequences() {
    assert!(check_no_traversal("/var/log/../etc/passwd").is_err());
    assert!(check_no_traversal("/var/log/../../etc/passwd").is_err());
    assert!(check_no_traversal("/var/log/x/../etc/passwd").is_err());
    assert!(check_no_traversal("/var/log/..").is_err());
    assert!(check_no_traversal("..").is_err());
}

#[test]
fn interpolation_cannot_select_an_alternate_data_stream() {
    assert_eq!(file_windows::sanitize_path_component("host:stream"), "host_stream");
    assert_eq!(file_windows::sanitize_path_component("C:\\logs/host"), "C__logs_host");
    assert_eq!(
        file_windows::sanitize_path_component("ホスト.example.com"),
        "ホスト.example.com"
    );
}

#[test]
fn only_plain_files_are_written_to_on_windows() {
    assert!(file_windows::is_plain_file(true, 0x20));
    assert!(!file_windows::is_plain_file(true, 0x420));
    assert!(!file_windows::is_plain_file(false, 0));
}

#[test]
fn write_payload_refuses_symlink_at_final_component() {
    let err = open_error("/var/log/out.log", true, "too many levels");
    assert!(err.message().contains("refusing to follow symlink"), "{}", err.message());
    assert_eq!(open_error("/x", false, "denied").message(), "denied");
}

#[test]
fn write_payload_appends_to_regular_file() {
    let mut file = file_line(b"hello");
    file.extend(file_line(b"hello"));
    assert_eq!(file, b"hello\nhello\n");
    // Bytes that are no text stay as they are.
    assert_eq!(file_line(&[0xff, 0xfe]), [0xff, 0xfe, b'\n']);
}

#[test]
fn write_payload_applies_mode_via_fchmod_to_created_file() {
    let out = build(vec![kv("path", text("/l/modeful.log")), kv("mode", text("0640"))]);
    assert_eq!(out.mode, Some(0o640));
    assert!(out.wants_metadata());
    let steps = out.metadata_steps(None, None);
    assert_eq!(steps.chmod, Some(0o640));
    assert_eq!(steps.chown, None);

    let mut ledger = MetadataLedger::new();
    let sample = ledger.sample("/l/modeful.log", false);
    assert!(ledger.opened("/l/modeful.log", sample));
    ledger.settled("/l/modeful.log");
    // A second write leaves the file as the operator has it by then.
    let sample = ledger.sample("/l/modeful.log", true);
    assert!(!ledger.opened("/l/modeful.log", sample));
}

#[test]
fn failed_first_write_does_not_skip_mode_on_the_retry() {
    let mut ledger = MetadataLedger::new();
    // The first attempt takes its sample and fails to open the file.
    let first = ledger.sample("/l/guarded.log", true);
    assert!(!first.owes && !first.applied);
    // The second one creates it.
    let second = ledger.sample("/l/guarded.log", false);
    assert!(ledger.opened("/l/guarded.log", second));
}

#[test]
fn outstanding_metadata_obligation_reapplies_on_next_write() {
    let mut ledger = MetadataLedger::new();
    let first = ledger.sample("/l/obligation.log", false);
    assert!(ledger.opened("/l/obligation.log", first));
    // The write broke off here: the file exists, its metadata are still owed.
    let second = ledger.sample("/l//obligation.log", true);
    assert!(second.owes);
    assert!(ledger.opened("/l/obligation.log", second));
    ledger.settled("/l/obligation.log");
    let third = ledger.sample("/l/obligation.log", true);
    assert!(!third.owes && third.applied);
}

#[test]
fn preexisting_file_from_another_producer_keeps_its_mode() {
    let mut ledger = MetadataLedger::new();
    let sample = ledger.sample("/l/foreign.log", true);
    assert!(!ledger.opened("/l/foreign.log", sample));
    let after = ledger.sample("/l/foreign.log", true);
    assert!(!after.owes && !after.applied);
}

#[test]
fn paths_that_differ_in_spelling_only_are_one_path() {
    assert!(PathKey::of("/a//b/./c").same(&PathKey::of("/a/b/c")));
    assert!(PathKey::of("/a/b/").same(&PathKey::of("/a/b")));
    assert!(!PathKey::of("/a/b").same(&PathKey::of("a/b")));
    assert!(!PathKey::of("./a").same(&PathKey::of("a")));
}

/// The parts of a path come in the order of its template, its literals as they are
/// and its values without separators.
#[test]
fn templates_are_filled_in_order() {
    let interp = |name: &str| {
        TemplateFragment::Interp(Box::new(Expr::Ident(vec![name.to_string()])))
    };
    let out = build(vec![kv(
        "path",
        Expr::Template(vec![
            interp("a"),
            TemplateFragment::Literal("/x/".to_string()),
            interp("b"),
            TemplateFragment::Literal("-".to_string()),
            interp("a"),
        ]),
    )]);
    assert_eq!(out.wanted_values().len(), 3);
    let value = |s: &str| Ok(s.to_string());
    let path = out.resolve_path(&[value("1"), value("2/3"), value("4")]).unwrap();
    assert_eq!(path, ("1/x/2_3-4".to_string(), true));
    let parts = [value("1"), Err("no field".to_string()), value("4")];
    assert!(out.resolve_path(&parts).err().unwrap().message().contains("no field"));
    let fixed = build(vec![kv("path", text("/var/log/app.log"))]);
    assert!(fixed.wanted_values().is_empty());
    assert_eq!(fixed.resolve_path(&[]).unwrap(), ("/var/log/app.log".to_string(), false));
}

#[test]
fn modes_are_octal() {
    assert_eq!(parse_mode("0640"), Some(0o640));
    assert_eq!(parse_mode("640"), Some(0o640));
    assert_eq!(parse_mode("+7"), Some(7));
    assert_eq!(parse_mode("0"), Some(0));
    assert_eq!(parse_mode("000"), Some(0));
    assert_eq!(parse_mode(""), None);
    assert_eq!(parse_mode("0690"), None);
    assert_eq!(parse_mode("8"), None);
    assert_eq!(parse_mode("37777777777"), Some(u32::MAX));
    assert_eq!(parse_mode("40000000000"), None);
}

#[test]
fn configurations_without_a_usable_path_or_mode_are_refused() {
    assert_eq!(build_error(vec![]), "output 'f': file requires 'path'");
    let err = build_error(vec![kv("path", Expr::IntLit(7))]);
    assert_eq!(err, "output 'f': file 'path' must be a string, got IntLit(7)");
    let ident = Expr::Ident(vec!["a".to_string(), "b".to_string()]);
    let err = build_error(vec![kv("path", ident)]);
    assert_eq!(err, "output 'f': file 'path' must be a string, got Ident([\"a\", \"b\"])");
    let err = build_error(vec![kv("path", text("/x")), kv("mode", text("rw"))]);
    assert!(err.contains("invalid mode"), "{}", err);
    let closed = build(vec![kv("path", text("/x")), kv("mode", text("000"))]);
    assert_eq!(closed.mode, Some(0));
}

#[test]
fn ownership_is_set_where_a_name_is_known() {
    let out = build(vec![kv("path", text("/x")), kv("owner", text("syslog"))]);
    assert_eq!(out.metadata_steps(Some(104), None).chown, Some((104, u32::MAX)));
    assert_eq!(out.metadata_steps(None, None).chown, None);
}

#[test]
fn static_paths_may_not_climb() {
    assert!(check_resolved("/var/log/a.log").is_ok());
    let err = check_resolved("/var/../etc").err().unwrap();
    assert_eq!(err.message(), "path traversal rejected: /var/../etc");
}

#[test]
fn a_path_that_cannot_be_rendered_dead_letters_the_event() {
    let mut metrics = OutputMetrics::new();
    let action = render_failed("no path", &mut metrics);
    assert!(matches!(action, DeliveryAction::DeadLetter { reason } if reason == "render failed: no path"));
    assert_eq!(metrics.events_failed, 1);
}

#[test]
fn a_new_file_gets_its_line_and_then_its_metadata() {
    let mut ledger = MetadataLedger::new();
    let (mut write, action) = FileWrite::new("/l/a/x.log", true);
    assert!(matches!(action, FileAction::MakeDirectory));
    assert!(matches!(write.step(FileEvent::DirectoryTried, &mut ledger), FileAction::Probe));
    let action = write.step(FileEvent::Probed { exists: false }, &mut ledger);
    assert!(matches!(action, FileAction::Open));
    assert!(matches!(write.step(FileEvent::Opened, &mut ledger), FileAction::Write));
    assert!(!write.written());
    assert!(ledger.sample("/l/a/x.log", true).owes);
    assert!(matches!(write.step(FileEvent::Written, &mut ledger), FileAction::SetMetadata));
    assert!(write.written());
    assert!(matches!(write.step(FileEvent::MetadataTried, &mut ledger), FileAction::Done));
    let after = ledger.sample("/l/a/x.log", true);
    assert!(after.applied && !after.owes);
}

#[test]
fn a_file_that_was_there_gets_its_line_only() {
    let mut ledger = MetadataLedger::new();
    let (mut write, action) = FileWrite::new("/l/x.log", false);
    assert!(matches!(action, FileAction::Probe));
    write.step(FileEvent::Probed { exists: true }, &mut ledger);
    write.step(FileEvent::Opened, &mut ledger);
    assert!(matches!(write.step(FileEvent::Written, &mut ledger), FileAction::Done));
    let after = ledger.sample("/l/x.log", true);
    assert!(!after.applied && !after.owes);
}

#[test]
fn a_write_that_fails_leaves_the_metadata_owed() {
    let mut ledger = MetadataLedger::new();
    let (mut write, _) = FileWrite::new("/l/x.log", false);
    write.step(FileEvent::Probed { exists: false }, &mut ledger);
    write.step(FileEvent::Opened, &mut ledger);
    let full = FileEvent::WriteFailed { error: "no space".to_string() };
    assert!(matches!(
        write.step(full, &mut ledger),
        FileAction::Fail { error } if error == "no space"
    ));
    let (mut write, _) = FileWrite::new("/l/x.log", false);
    write.step(FileEvent::Probed { exists: true }, &mut ledger);
    write.step(FileEvent::Opened, &mut ledger);
    assert!(matches!(write.step(FileEvent::Written, &mut ledger), FileAction::SetMetadata));
}

#[test]
fn a_climbing_path_or_a_link_is_refused() {
    let mut ledger = MetadataLedger::new();
    let (_, action) = FileWrite::new("/l/../etc/x", false);
    let text = "path traversal rejected: /l/../etc/x";
    assert!(matches!(action, FileAction::Fail { error } if error == text));
    let (mut write, _) = FileWrite::new("/l/x.log", false);
    write.step(FileEvent::Probed { exists: true }, &mut ledger);
    let link = FileEvent::OpenFailed { is_symlink: true, error: "loop".to_string() };
    let text = "refusing to follow symlink at output path: /l/x.log";
    assert!(matches!(
        write.step(link, &mut ledger),
        FileAction::Fail { error } if error == text
    ));
}
