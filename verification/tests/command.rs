use pager_theme::command::{Action, CommandResult, TransparentCommand};

#[test]
fn transparent_command_toggles_background() {
    let cmd = TransparentCommand;
    assert_eq!(cmd.name(), "transparent");
    assert_eq!(cmd.aliases(), vec!["transparent-bg", "transparency"]);
    assert_eq!(cmd.description(), "Toggle transparent terminal background");
    assert!(!cmd.available_in_minimal());
    assert_eq!(cmd.usage(), "/transparent");
    assert_eq!(cmd.run(""), CommandResult::Action(Action::ToggleTransparentBackground));
    assert_eq!(cmd.run("on"), CommandResult::Action(Action::ToggleTransparentBackground));
}
