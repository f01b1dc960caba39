use pointeuse::timelog::{finish_action, pending_after_stop};
use pointeuse::timer::TimerResult;
use pointeuse::outbox::OutboxAction;
use pointeuse::settings::DefaultTaskConfig;
use pointeuse::timelog::{
    after_refusal, effective_description, flush_step, log_time_result, note_pending_line, private_task_refusal,
    settled_by_amend, settled_by_flush, settled_line, settled_offline, take_pending, AfterRefusal, FlushStep,
    LogTimeResult, PendingLog, PendingUse,
};

fn default_task() -> DefaultTaskConfig {
    DefaultTaskConfig { task_id: 99, task_name: "Admin".into(), project_id: 9, project_name: "Internal".into() }
}

#[test]
fn a_blank_description_becomes_the_task_name() {
    assert_eq!(effective_description("  \t", "Fix bug"), "Fix bug");
    assert_eq!(effective_description(" Notes ", "Fix bug"), " Notes ");
}

#[test]
fn private_task_refusals_go_to_the_default_task() {
    assert!(private_task_refusal("XML-RPC fault 2: You cannot log time on a Private Task"));
    assert!(!private_task_refusal("timeout"));
    let dt = default_task();
    match after_refusal("Private task!", Some(&dt), "Secret", "work") {
        AfterRefusal::UseDefaultTask { task_id, project_id, description, .. } => {
            assert_eq!((task_id, project_id), (99, 9));
            assert_eq!(description, "[Secret] work");
        }
        AfterRefusal::Queue => panic!("expected a redirect"),
    }
    assert!(matches!(after_refusal("Private task!", None, "Secret", "work"), AfterRefusal::Queue));
    assert!(matches!(after_refusal("network down", Some(&dt), "Secret", "work"), AfterRefusal::Queue));
}

#[test]
fn log_results() {
    assert_eq!(log_time_result(Some(4), false), LogTimeResult { success: true, odoo_id: Some(4), queued: false });
    assert_eq!(log_time_result(None, true), LogTimeResult { success: false, odoo_id: None, queued: true });
}

#[test]
fn outbox_rows_settle_by_action_and_line() {
    assert_eq!(flush_step(OutboxAction::Finalize, Some(3)), FlushStep::FinalizeLine(3));
    assert_eq!(flush_step(OutboxAction::Finalize, None), FlushStep::LogNew);
    assert_eq!(flush_step(OutboxAction::Discard, Some(3)), FlushStep::DeleteLine(3));
    assert_eq!(flush_step(OutboxAction::Discard, None), FlushStep::Nothing);
    assert_eq!(settled_line(None, Some(7)), Some(7));
    assert_eq!(settled_line(Some(8), Some(7)), Some(8));
}

const SEC: i64 = 1_000_000_000;

fn pending(task_id: i64, stopped_at: i64) -> Option<PendingLog> {
    Some(PendingLog { session_id: "s1".into(), task_id, odoo_line_id: None, stopped_at })
}

#[test]
fn an_open_log_form_settles_its_own_session_within_an_hour() {
    let mut p = pending(5, 1_000 * SEC);
    assert_eq!(take_pending(&mut p, 6, 1_100 * SEC), PendingUse::NewEntry);
    assert!(p.is_some());
    assert_eq!(
        take_pending(&mut p, 5, (1_000 + 59 * 60) * SEC + SEC - 1),
        PendingUse::Settle { session_id: "s1".into(), odoo_line_id: None }
    );
    assert!(p.is_none());
    let mut p = pending(5, 1_000 * SEC);
    assert_eq!(take_pending(&mut p, 5, (1_000 + 3_600) * SEC), PendingUse::Expired);
    assert!(p.is_none());
    let mut none: Option<PendingLog> = None;
    assert_eq!(take_pending(&mut none, 5, 0), PendingUse::NewEntry);
}

#[test]
fn a_settled_line_is_noted_on_the_matching_form() {
    let mut p = pending(5, 0);
    note_pending_line(&mut p, "other", Some(3));
    assert_eq!(p.as_ref().unwrap().odoo_line_id, None);
    note_pending_line(&mut p, "s1", None);
    assert_eq!(p.as_ref().unwrap().odoo_line_id, None);
    note_pending_line(&mut p, "s1", Some(3));
    assert_eq!(p.as_ref().unwrap().odoo_line_id, Some(3));
}

#[test]
fn settling_results() {
    assert_eq!(settled_offline(), LogTimeResult { success: false, odoo_id: None, queued: true });
    assert_eq!(settled_by_flush(Some(Some(4))), LogTimeResult { success: true, odoo_id: Some(4), queued: false });
    assert_eq!(settled_by_flush(Some(None)), LogTimeResult { success: false, odoo_id: None, queued: true });
    assert_eq!(settled_by_flush(None), LogTimeResult { success: false, odoo_id: None, queued: true });
    assert_eq!(settled_by_amend(None, false), LogTimeResult { success: true, odoo_id: None, queued: false });
    assert_eq!(settled_by_amend(Some(4), false), LogTimeResult { success: false, odoo_id: Some(4), queued: false });
    assert_eq!(settled_by_amend(Some(4), true), LogTimeResult { success: true, odoo_id: Some(4), queued: false });
}

#[test]
fn stopping_hands_the_run_to_the_outbox() {
    assert_eq!(finish_action(0), OutboxAction::Discard);
    assert_eq!(finish_action(5), OutboxAction::Finalize);
    let r = TimerResult {
        task_id: 3,
        task_name: "T".into(),
        project_id: 1,
        project_name: "P".into(),
        elapsed_secs: 60,
        session_id: "s".into(),
        odoo_line_id: Some(2),
    };
    let p = pending_after_stop(&r, true, 1_000).unwrap();
    assert_eq!((p.session_id.as_str(), p.task_id, p.odoo_line_id, p.stopped_at), ("s", 3, Some(2), 1_000));
    assert!(pending_after_stop(&r, false, 1_000).is_none());
}
