use bender::jobs::{JobState, JobStore};
use bender::project_config::ProjectConfig;
use bender::requirements::{answer, draft, next_question, start, start_configured, take_plan, user_message, validate_draft};

#[test]
fn task_specific_multi_turn_state_is_persisted_and_regenerated() {
    let mut project = ProjectConfig::default();
    project.commands.insert("unit".into(), vec!["true".into()]);
    let mut store = JobStore::new("/srv/project");
    let job = store.create("Add account deletion", "web", Some("shared-chat".into()), 10, 1, 1);
    start(job, "/srv/project", &project, 11).unwrap();
    assert_eq!(job.record.state, JobState::Clarifying);
    assert!(job.requirements.as_ref().unwrap().draft.clarifying_questions[0].question.contains("deletion"));
    answer(job, "Delay deletion for 30 days.", 12).unwrap();
    assert_eq!(job.record.state, JobState::AwaitingApproval);
    assert_eq!(job.requirements.as_ref().unwrap().answers[0].question_id, "Q1");
    assert!(job.specification().contains("30 days"));
    assert_eq!(job.requirements.as_ref().unwrap().revisions, 2);
}

#[test]
fn clear_task_can_have_zero_questions() {
    let project = ProjectConfig::default();
    let draft = draft("Add a unit test proving empty input returns HTTP 400.", "/srv/project", &project);
    assert!(draft.clarifying_questions.is_empty());
}

#[test]
fn drafts_of_tasks_are_valid() {
    let project = ProjectConfig::default();
    for request in ["Add account deletion", "Improve it", "x"] {
        assert!(validate_draft(&draft(request, "/srv/project", &project)).is_ok());
    }
}

#[test]
fn incomplete_plans_are_refused() {
    let project = ProjectConfig::default();
    let mut empty = draft("Add a button", "/srv/project", &project);
    empty.summary = "  ".into();
    assert_eq!(
        validate_draft(&empty).unwrap_err().message(),
        "requirements planner returned an empty summary or no criteria"
    );
    let mut partial = draft("Add a button", "/srv/project", &project);
    partial.proposed_acceptance_criteria[0].required_evidence.clear();
    assert_eq!(
        validate_draft(&partial).unwrap_err().message(),
        "requirements planner returned an incomplete acceptance criterion"
    );
    let mut store = JobStore::new("/srv/project");
    let job = store.create("Add a button", "web", None, 10, 1, 1);
    assert!(take_plan(job, partial, 11).is_err());
    assert_eq!(job.record.state, JobState::Received);
}

#[test]
fn answering_without_a_question_is_refused() {
    let project = ProjectConfig::default();
    let mut store = JobStore::new("/srv/project");
    let job = store.create("Add a unit test proving empty input returns HTTP 400.", "web", None, 10, 1, 1);
    start(job, "/srv/project", &project, 11).unwrap();
    assert_eq!(job.record.state, JobState::AwaitingApproval);
    assert!(next_question(job.requirements.as_ref().unwrap()).is_none());
    assert_eq!(answer(job, "more", 12).unwrap_err().message(), "no unanswered clarification question remains");
}

#[test]
fn users_are_asked_the_open_question() {
    let project = ProjectConfig::default();
    let mut store = JobStore::new("/srv/project");
    let job = store.create("Add account deletion", "web", None, 10, 1, 1);
    start(job, "/srv/project", &project, 11).unwrap();
    let conversation = job.requirements.as_ref().unwrap();
    let question = next_question(conversation).unwrap().question.clone();
    assert!(user_message(job, conversation).contains(&question));
}

#[test]
fn configured_planning_asks_the_model() {
    let mut project = ProjectConfig::default();
    let mut store = JobStore::new("/srv/project");
    {
        let job = store.create("Add account deletion", "web", None, 10, 1, 1);
        project.requirements.use_primary_model = false;
        assert!(start_configured(job, "/srv/project", &project, None, 11).unwrap().is_none());
        assert_eq!(job.record.state, JobState::Clarifying);
    }
    let job = store.create("Add account deletion", "web", None, 12, 1, 2);
    project.requirements.use_primary_model = true;
    let prompt = start_configured(job, "/srv/project", &project, Some("src/lib.rs"), 13).unwrap().unwrap();
    assert!(prompt.contains("Add account deletion"));
    assert!(prompt.contains("src/lib.rs"));
    assert_eq!(job.record.state, JobState::Received);
}
