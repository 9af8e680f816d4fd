use auto_commit_msg::chat::{
    extract_assistant_message, instruction_text, Choice, ChoiceMessage, Completion,
};
use auto_commit_msg::config::{resolve_config, PartialConfig};
use auto_commit_msg::errors::PipelineError;
use auto_commit_msg::pipeline::{compose_output, plan_request, select_model, total_changes};
use auto_commit_msg::trace::TraceData;

fn completion_of(roles_and_contents: Vec<(&str, &str)>) -> Completion {
    let choices = roles_and_contents
        .into_iter()
        .map(|(role, content)| Choice {
            message: ChoiceMessage {
                role: role.to_string(),
                content: content.to_string(),
            },
        })
        .collect();
    Completion { choices }
}

#[test]
fn total_changes_adds() {
    assert_eq!(total_changes(2, 3), 5);
    assert_eq!(total_changes(u32::MAX, u32::MAX), 2 * (u32::MAX as u64));
}

#[test]
fn selection_below_threshold_is_short() {
    let c = resolve_config(PartialConfig::empty());
    assert_eq!(select_model(&c.diff, 199), "gemini-2.5-flash-lite");
}

#[test]
fn selection_at_threshold_is_long() {
    let c = resolve_config(PartialConfig::empty());
    assert_eq!(select_model(&c.diff, 200), "gemini-2.5-flash");
    assert_eq!(select_model(&c.diff, 100000), "gemini-2.5-flash");
}

#[test]
fn empty_diff_is_fatal_before_any_request() {
    let c = resolve_config(PartialConfig::empty());
    let r = plan_request(&c, String::new(), "1 file changed, 5 insertions(+)");
    assert_eq!(r.unwrap_err(), PipelineError::EmptyDiff);
}

#[test]
fn planned_request_carries_instruction_and_diff() {
    let c = resolve_config(PartialConfig::empty());
    let diff = "diff --git a/x b/x\n+line\n".to_string();
    let req = plan_request(&c, diff.clone(), "1 file changed, 1 insertion(+)").unwrap();
    assert_eq!(req.model, "gemini-2.5-flash-lite");
    assert_eq!(req.messages.len(), 2);
    assert_eq!(req.messages[0].role, "developer");
    assert_eq!(req.messages[0].content, instruction_text());
    assert_eq!(req.messages[1].role, "user");
    assert_eq!(req.messages[1].content, diff);
}

#[test]
fn planned_request_uses_long_model_at_threshold() {
    let c = resolve_config(PartialConfig::empty());
    let req = plan_request(
        &c,
        "some diff".to_string(),
        "4 files changed, 150 insertions(+), 50 deletions(-)",
    )
    .unwrap();
    assert_eq!(req.model, "gemini-2.5-flash");
}

#[test]
fn planned_request_uses_short_model_below_threshold() {
    let c = resolve_config(PartialConfig::empty());
    let req = plan_request(
        &c,
        "some diff".to_string(),
        "4 files changed, 150 insertions(+), 49 deletions(-)",
    )
    .unwrap();
    assert_eq!(req.model, "gemini-2.5-flash-lite");
}

#[test]
fn unreadable_count_is_fatal() {
    let c = resolve_config(PartialConfig::empty());
    let r = plan_request(
        &c,
        "some diff".to_string(),
        "1 file changed, 4294967296 insertions(+)",
    );
    assert_eq!(r.unwrap_err(), PipelineError::CountOutOfRange);
}

#[test]
fn first_assistant_choice_wins() {
    let c = completion_of(vec![
        ("system", "ignored"),
        ("assistant", "feat: add parser"),
        ("assistant", "ignored too"),
    ]);
    assert_eq!(extract_assistant_message(&c).unwrap(), "feat: add parser");
}

#[test]
fn missing_assistant_choice_is_fatal() {
    let c = completion_of(vec![("system", "a"), ("user", "b")]);
    assert_eq!(
        extract_assistant_message(&c).unwrap_err(),
        PipelineError::NoAssistantMessage
    );
}

#[test]
fn empty_choices_is_fatal() {
    let c = completion_of(vec![]);
    assert_eq!(
        extract_assistant_message(&c).unwrap_err(),
        PipelineError::NoAssistantMessage
    );
}

#[test]
fn output_without_trace_is_the_message() {
    let out = compose_output("feat: x".to_string(), &None);
    assert_eq!(out, "feat: x");
}

#[test]
fn output_with_trace_keeps_the_body() {
    let t = TraceData {
        model: "m".to_string(),
        response_centis: 123,
        execution_centis: 456,
    };
    let out = compose_output("feat: x".to_string(), &Some(t));
    assert!(out.starts_with("feat: x\n---\n"));
    let expected = "feat: x\n---\n{\"auto-commit-msg\":{\"language\":\"rust\",\"model\":\"m\",\"response_time\":1.23,\"execution_time\":4.56}}";
    assert_eq!(out, expected);
}

#[test]
fn error_descriptions() {
    assert_eq!(
        PipelineError::EmptyDiff.describe(),
        "`git diff --cached` output is empty"
    );
    assert_eq!(
        PipelineError::NoAssistantMessage.describe(),
        "at least one message is expected"
    );
    assert_eq!(
        PipelineError::CountOutOfRange.describe(),
        "change count in `git diff --cached --shortstat` is out of range"
    );
}
