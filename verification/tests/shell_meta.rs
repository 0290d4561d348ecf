use pty_sessions::meta::{
    extract_text_from_content, is_command_content, project_display, scan_done, scan_start,
    scan_step, session_id_from_filename, sort_projects_newest_first, sort_sessions_newest_first,
    latest_activity, system_time_to_unix_ms, trim_str, truncate, ContentBlock, LineRecord,
    MessageContent, ProjectInfo, SessionInfo,
};
use pty_sessions::shell::{build_shell_command, geometry};
use pty_sessions::text::{starts_with, str_eq};

#[test]
fn geometry_zeroes_the_pixel_dimensions() {
    let g = geometry(80, 24);
    assert_eq!(g.cols, 80);
    assert_eq!(g.rows, 24);
    assert_eq!(g.pixel_width, 0);
    assert_eq!(g.pixel_height, 0);
}

#[test]
fn shell_command_uses_the_given_shell_and_cwd() {
    let c = build_shell_command(Some("/bin/bash".to_string()), Some("/tmp".to_string()));
    assert_eq!(c.program, "/bin/bash");
    assert_eq!(c.args, vec!["-l".to_string()]);
    assert_eq!(c.env, vec![("TERM".to_string(), "xterm-256color".to_string())]);
    assert_eq!(c.cwd, Some("/tmp".to_string()));
}

#[test]
fn shell_command_falls_back_to_zsh() {
    let c = build_shell_command(None, Some("/tmp".to_string()));
    assert_eq!(c.program, "/bin/zsh");
    assert_eq!(c.args, vec!["-l".to_string()]);
}

#[test]
fn truncate_keeps_short_text_and_cuts_long_text() {
    assert_eq!(truncate("hello", 10), "hello");
    assert_eq!(truncate("hello", 5), "hello");
    assert_eq!(truncate("hello world", 5), "hello...");
    assert_eq!(truncate("", 0), "");
    assert_eq!(truncate("héllo", 3), "hél...");
}

#[test]
fn trim_removes_whitespace_from_both_ends() {
    assert_eq!(trim_str("  a b \t\n"), "a b");
    assert_eq!(trim_str("a"), "a");
    assert_eq!(trim_str(" \t\r\n "), "");
    assert_eq!(trim_str(""), "");
}

#[test]
fn command_markup_is_recognised_after_leading_whitespace() {
    assert!(is_command_content("<command-message>restart</command-message>"));
    assert!(is_command_content("  \n<command-name>go</command-name>"));
    assert!(is_command_content("\t<local-command-stdout>x"));
    assert!(!is_command_content("hello <command-message>"));
    assert!(!is_command_content(""));
    assert!(!is_command_content("   plain text"));
}

#[test]
fn plain_string_content_is_trimmed_and_truncated() {
    let c = MessageContent::Text("  hello there  ".to_string());
    assert_eq!(extract_text_from_content(c), Some("hello there".to_string()));
    let c = MessageContent::Text("   \n ".to_string());
    assert_eq!(extract_text_from_content(c), None);
    let long = "x".repeat(130);
    let c = MessageContent::Text(long.clone());
    assert_eq!(
        extract_text_from_content(c),
        Some(format!("{}...", "x".repeat(120)))
    );
}

#[test]
fn block_content_yields_the_first_nonempty_text_block() {
    let blocks = vec![
        ContentBlock { kind: "image".to_string(), text: None },
        ContentBlock { kind: "text".to_string(), text: Some("   ".to_string()) },
        ContentBlock { kind: "tool_use".to_string(), text: Some("skip me".to_string()) },
        ContentBlock { kind: "text".to_string(), text: Some(" first real \n".to_string()) },
        ContentBlock { kind: "text".to_string(), text: Some("second".to_string()) },
    ];
    let c = MessageContent::Blocks(blocks);
    assert_eq!(extract_text_from_content(c), Some("first real".to_string()));
    assert_eq!(extract_text_from_content(MessageContent::Blocks(Vec::new())), None);
    assert_eq!(extract_text_from_content(MessageContent::Other), None);
}

#[test]
fn unix_millis_follow_the_system_time() {
    let epoch = std::time::SystemTime::UNIX_EPOCH;
    assert_eq!(system_time_to_unix_ms(epoch), Some(0));
    let later = epoch + std::time::Duration::from_millis(1234);
    assert_eq!(system_time_to_unix_ms(later), Some(1234));
    let earlier = epoch - std::time::Duration::from_secs(1);
    assert_eq!(system_time_to_unix_ms(earlier), None);
}

#[test]
fn string_helpers_compare_by_characters() {
    assert!(str_eq("abc", "abc"));
    assert!(!str_eq("abc", "abd"));
    assert!(!str_eq("abc", "ab"));
    assert!(starts_with("abcdef", "abc"));
    assert!(starts_with("abc", ""));
    assert!(!starts_with("ab", "abc"));
}

#[test]
fn project_display_splits_the_path_or_falls_back() {
    let (path, name) = project_display(Some("/home/user/work/my-app".to_string()), "ignored");
    assert_eq!(path, "/home/user/work/my-app");
    assert_eq!(name, "my-app");
    let (path, name) = project_display(Some("plain".to_string()), "ignored");
    assert_eq!(path, "plain");
    assert_eq!(name, "plain");
    let (path, name) = project_display(Some("trailing/".to_string()), "ignored");
    assert_eq!(path, "trailing/");
    assert_eq!(name, "");
    let (path, name) = project_display(None, "--home-user-work");
    assert_eq!(path, "");
    assert_eq!(name, "home-user-work");
}

#[test]
fn session_id_drops_every_log_extension() {
    assert_eq!(session_id_from_filename("abc123.jsonl"), "abc123");
    assert_eq!(session_id_from_filename("abc.jsonl.jsonl"), "abc");
    assert_eq!(session_id_from_filename("noext"), "noext");
    assert_eq!(session_id_from_filename(".jsonl"), "");
}

fn session_with(id: &str, updated_at: Option<u64>) -> SessionInfo {
    SessionInfo {
        id: id.to_string(),
        project_id: "p".to_string(),
        created_at: None,
        updated_at,
        first_message: None,
        git_branch: None,
        cwd: None,
    }
}

#[test]
fn sessions_sort_newest_first_with_unknown_times_last() {
    let sessions = vec![
        session_with("a", None),
        session_with("b", Some(5)),
        session_with("c", Some(9)),
        session_with("d", Some(5)),
    ];
    let sorted = sort_sessions_newest_first(sessions);
    let times: Vec<Option<u64>> = sorted.iter().map(|s| s.updated_at).collect();
    assert_eq!(times, vec![Some(9), Some(5), Some(5), None]);
    let mut ids: Vec<String> = sorted.iter().map(|s| s.id.clone()).collect();
    ids.sort();
    assert_eq!(ids, vec!["a", "b", "c", "d"]);
}

#[test]
fn projects_sort_newest_first() {
    let mk = |id: &str, last_activity: Option<u64>| ProjectInfo {
        id: id.to_string(),
        path: String::new(),
        display_name: id.to_string(),
        session_count: 1,
        last_activity,
    };
    let projects = vec![mk("old", Some(1)), mk("none", None), mk("new", Some(7))];
    let sorted = sort_projects_newest_first(projects);
    let ids: Vec<String> = sorted.iter().map(|p| p.id.clone()).collect();
    assert_eq!(ids, vec!["new", "old", "none"]);
}

fn plain_line(text: &str) -> LineRecord {
    LineRecord {
        is_user: true,
        parent_null: true,
        is_meta: false,
        cwd: None,
        timestamp: None,
        git_branch: None,
        content: Some(MessageContent::Text(text.to_string())),
    }
}

#[test]
fn scan_collects_metadata_from_the_right_lines() {
    let mut st = scan_start();
    assert!(!scan_done(&st));

    // A non-user line contributes nothing.
    let mut skipped = plain_line("ignored");
    skipped.is_user = false;
    skipped.cwd = Some("/elsewhere".to_string());
    st = scan_step(st, skipped);
    assert_eq!(st.cwd, None);

    // A meta root line gives cwd, timestamp and branch, but no first
    // message.
    let mut meta = plain_line("<command-message>boot</command-message>");
    meta.is_meta = true;
    meta.cwd = Some("/work".to_string());
    meta.timestamp = Some("2024-01-01T00:00:00Z".to_string());
    meta.git_branch = Some("main".to_string());
    st = scan_step(st, meta);
    assert_eq!(st.cwd, Some("/work".to_string()));
    assert_eq!(st.created_at, Some("2024-01-01T00:00:00Z".to_string()));
    assert_eq!(st.git_branch, Some("main".to_string()));
    assert_eq!(st.first_message, None);
    assert!(!scan_done(&st));

    // Command markup never becomes the first message.
    st = scan_step(st, plain_line("  <command-name>go</command-name>"));
    assert_eq!(st.first_message, None);

    // The first displayable root message is taken, trimmed.
    st = scan_step(st, plain_line("  hello world  "));
    assert_eq!(st.first_message, Some("hello world".to_string()));
    assert!(scan_done(&st));

    // Later lines change nothing that was already found.
    let mut late = plain_line("later");
    late.cwd = Some("/late".to_string());
    late.timestamp = Some("2030-01-01T00:00:00Z".to_string());
    st = scan_step(st, late);
    assert_eq!(st.cwd, Some("/work".to_string()));
    assert_eq!(st.created_at, Some("2024-01-01T00:00:00Z".to_string()));
    assert_eq!(st.first_message, Some("hello world".to_string()));
}

#[test]
fn scan_takes_timestamp_only_from_root_user_lines() {
    let mut st = scan_start();
    let mut child = plain_line("child message");
    child.parent_null = false;
    child.timestamp = Some("2024-05-05T05:05:05Z".to_string());
    st = scan_step(st, child);
    assert_eq!(st.created_at, None);
    assert_eq!(st.first_message, None);

    let mut root = plain_line("root message");
    root.timestamp = Some("2024-06-06T06:06:06Z".to_string());
    st = scan_step(st, root);
    assert_eq!(st.created_at, Some("2024-06-06T06:06:06Z".to_string()));
    assert_eq!(st.first_message, Some("root message".to_string()));
}

#[test]
fn latest_activity_is_the_largest_known_time() {
    assert_eq!(latest_activity(&vec![]), None);
    assert_eq!(latest_activity(&vec![None, None]), None);
    assert_eq!(latest_activity(&vec![Some(3), None, Some(9), Some(4)]), Some(9));
    assert_eq!(latest_activity(&vec![None, Some(2)]), Some(2));
}
