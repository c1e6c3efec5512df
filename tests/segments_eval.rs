use zsh_infinite::prompt::Prompt;
use zsh_infinite::segments::{collect_present, CommandOutcome};
use zsh_infinite::theme::{PromptContent, PromptContents};

fn sh(script: &str) -> PromptContent {
    PromptContent::new(vec!["sh".to_string(), "-c".to_string(), script.to_string()])
}

fn finished(success: bool, stdout: &str) -> CommandOutcome {
    CommandOutcome::Finished { success, stdout: stdout.to_string() }
}

#[test]
fn failed_and_blank_segments_are_dropped() {
    let specs = vec![sh("echo first"), sh("exit 1"), sh("printf '  '")];
    let outcomes = vec![finished(true, "first\n"), finished(false, "oops\n"), finished(true, "  \n\t")];
    let values: Vec<Option<String>> =
        specs.iter().zip(outcomes.iter()).map(|(s, o)| s.content_from(o)).collect();
    assert_eq!(values, vec![Some("first".to_string()), None, None]);
    assert_eq!(collect_present(&values), vec!["first".to_string()]);
}

#[test]
fn output_is_trimmed() {
    assert_eq!(sh("x").content_from(&finished(true, " \u{3000}hi there\r\n")), Some("hi there".to_string()));
}

#[test]
fn spawn_failure_gives_no_value() {
    assert_eq!(sh("x").content_from(&CommandOutcome::NotStarted), None);
}

#[test]
fn empty_command_gives_no_value() {
    let empty = PromptContent::new(vec![]);
    assert!(!empty.launchable());
    assert_eq!(empty.content_from(&finished(true, "text")), None);
}

#[test]
fn order_is_kept() {
    let values = vec![None, Some("b".to_string()), Some("a".to_string()), None, Some("c".to_string())];
    assert_eq!(collect_present(&values), vec!["b".to_string(), "a".to_string(), "c".to_string()]);
}

#[test]
fn prompt_from_segments_keeps_sides() {
    let p = Prompt::from_segments(&vec![Some("l".to_string()), None], &vec![None, Some("r".to_string())]);
    let mut q = Prompt::new();
    q.add_left("l");
    q.add_right("r");
    let row = PromptContents::default();
    assert_eq!(p.render_left(&row).build(), q.render_left(&row).build());
    assert_eq!(p.render_right(&row).build(), q.render_right(&row).build());
}

#[test]
fn default_row_commands() {
    let row = PromptContents::default();
    assert_eq!(row.left.len(), 2);
    assert_eq!(row.left[0].shell(), &vec!["zsh".to_string(), "-c".to_string(), "whoami".to_string()]);
    assert_eq!(row.left[1].shell()[2], "hostname");
    assert_eq!(row.right[1].shell()[2], "echo $?");
}
