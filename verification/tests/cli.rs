use deskstamp::cli::{parse_command, preview_file, usage_line, CliCommand};

fn args(words: &[&str]) -> Vec<String> {
    words.iter().map(|w| w.to_string()).collect()
}

#[test]
fn no_command_opens_the_menu() {
    assert_eq!(parse_command(&args(&["deskstamp"])), CliCommand::Menu);
}

#[test]
fn command_words() {
    let cases = [
        ("menu", CliCommand::Menu),
        ("quick", CliCommand::Menu),
        ("settings", CliCommand::Settings),
        ("studio", CliCommand::Settings),
        ("gui", CliCommand::Settings),
        ("toggle", CliCommand::Toggle),
        ("reload", CliCommand::Reload),
        ("status", CliCommand::Status),
        ("preview", CliCommand::Preview),
        ("config", CliCommand::Config),
        ("test", CliCommand::Test),
        ("daemon", CliCommand::Daemon),
        ("Daemon", CliCommand::Usage),
        ("", CliCommand::Usage),
    ];
    for (w, c) in cases {
        assert_eq!(parse_command(&args(&["deskstamp", w])), c, "{}", w);
    }
}

#[test]
fn preview_targets() {
    assert_eq!(preview_file(&args(&["deskstamp", "preview"])), "deskstamp_preview.png");
    assert_eq!(preview_file(&args(&["deskstamp", "preview", "out.png"])), "out.png");
}

#[test]
fn usage() {
    assert_eq!(
        usage_line(),
        "Usage: deskstamp [gui | daemon | test | toggle | reload | status | preview | config]"
    );
}
