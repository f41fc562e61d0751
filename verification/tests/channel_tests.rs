use tuke::channel::{
    channel_outcome, classify_line, serialize_command, ChannelCommand, ChannelError, ResponseKind,
};

fn cmd(name: &str, args: &[&str]) -> ChannelCommand {
    ChannelCommand {
        name: name.to_string(),
        args: args.iter().map(|a| a.to_string()).collect(),
    }
}

fn lines(ls: &[&str]) -> Vec<String> {
    ls.iter().map(|l| l.to_string()).collect()
}

#[test]
fn serialize_plain_arguments() {
    let s = serialize_command(&cmd("send-keys", &["-t", ".0", "a"]));
    assert_eq!(s, "send-keys -t .0 a");
}

#[test]
fn serialize_no_arguments() {
    let s = serialize_command(&cmd("display-panes", &[]));
    assert_eq!(s, "display-panes");
}

#[test]
fn arguments_with_spaces_are_quoted() {
    let s = serialize_command(&cmd("send-keys", &["hello world"]));
    assert_eq!(s, "send-keys \"hello world\"");
}

#[test]
fn arguments_with_the_separator_are_quoted() {
    let s = serialize_command(&cmd("send-keys", &["a;b"]));
    assert_eq!(s, "send-keys \"a;b\"");
}

#[test]
fn internal_quotes_are_escaped_inside_quoting() {
    let s = serialize_command(&cmd("send-keys", &["say \"hi\" now"]));
    assert_eq!(s, "send-keys \"say \\\"hi\\\" now\"");
}

#[test]
fn quotes_alone_do_not_force_quoting() {
    // a quote without a space or separator is passed verbatim
    let s = serialize_command(&cmd("send-keys", &["\""]));
    assert_eq!(s, "send-keys \"");
}

#[test]
fn classify_marker_lines() {
    assert_eq!(classify_line("%end 123"), ResponseKind::Success);
    assert_eq!(classify_line("%end"), ResponseKind::Success);
    assert_eq!(classify_line("%error 123"), ResponseKind::Failure);
    assert_eq!(classify_line("%error"), ResponseKind::Failure);
    assert_eq!(classify_line("%begin 123"), ResponseKind::Other);
    assert_eq!(classify_line("output"), ResponseKind::Other);
    assert_eq!(classify_line(""), ResponseKind::Other);
    assert_eq!(classify_line("%en"), ResponseKind::Other);
}

#[test]
fn stream_ending_in_success_marker_succeeds() {
    let r = channel_outcome(&lines(&["%begin 1 1", "some output", "%end 1 1"]));
    assert_eq!(r, Ok(()));
}

#[test]
fn stream_ending_in_error_marker_is_rejected() {
    let r = channel_outcome(&lines(&["%begin 1 1", "bad command", "%error 1 1"]));
    assert_eq!(r, Err(ChannelError::Rejected));
}

#[test]
fn marker_decides_regardless_of_preceding_line_count() {
    assert_eq!(channel_outcome(&lines(&["%end"])), Ok(()));
    assert_eq!(channel_outcome(&lines(&["%error"])), Err(ChannelError::Rejected));
    let many: Vec<String> =
        (0..100).map(|i| format!("line {}", i)).chain(["%end".to_string()]).collect();
    assert_eq!(channel_outcome(&many), Ok(()));
    let many: Vec<String> =
        (0..100).map(|i| format!("line {}", i)).chain(["%error".to_string()]).collect();
    assert_eq!(channel_outcome(&many), Err(ChannelError::Rejected));
}

#[test]
fn first_marker_wins() {
    let r = channel_outcome(&lines(&["%end", "%error"]));
    assert_eq!(r, Ok(()));
    let r = channel_outcome(&lines(&["%error", "%end"]));
    assert_eq!(r, Err(ChannelError::Rejected));
}

#[test]
fn stream_without_a_marker_is_a_transport_failure() {
    assert_eq!(channel_outcome(&lines(&[])), Err(ChannelError::Transport));
    assert_eq!(channel_outcome(&lines(&["a", "b"])), Err(ChannelError::Transport));
}
