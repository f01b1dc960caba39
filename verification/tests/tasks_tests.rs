use pointeuse::models::OdooProject;
use pointeuse::tasks::{
    max_frequency, project_infos, suggestion_reason, task_stage_info, user_infos, weekday_name, CachedProject,
    ProjectInfo, ProjectLike,
};

#[test]
fn weekday_names() {
    assert_eq!(weekday_name(0), "Sundays");
    assert_eq!(weekday_name(3), "Wednesdays");
    assert_eq!(weekday_name(6), "Saturdays");
    assert_eq!(weekday_name(7), "this day");
}

#[test]
fn the_most_frequent_count_is_at_least_one() {
    assert_eq!(max_frequency(&[]), 1);
    assert_eq!(max_frequency(&[0, 0]), 1);
    assert_eq!(max_frequency(&[3, 9, 4]), 9);
}

#[test]
fn reasons_follow_the_history() {
    assert_eq!(suggestion_reason(0, 5, 0, 1, 10, 1), "Active today");
    assert_eq!(suggestion_reason(1, 12, 0, 1, 10, 1), "Worked on 12 days recently");
    assert_eq!(suggestion_reason(2, 5, 3, 1, 10, 2), "Common on Tuesdays");
    assert_eq!(suggestion_reason(2, 5, 2, 6, 10, 2), "Frequent (6 days/month)");
    assert_eq!(suggestion_reason(2, 5, 2, 5, 10, 2), "");
    assert_eq!(suggestion_reason(9, 5, 0, 0, 1, 2), "");
}

#[test]
fn stage_information_combines_state_and_stages() {
    let info = task_stage_info(
        (Some((4, "Review".to_string())), Some("01_in_progress".to_string()), None),
        vec![(3, "New".to_string()), (4, "Review".to_string())],
    );
    assert_eq!(info.stage_id, Some(4));
    assert_eq!(info.stage_name.as_deref(), Some("Review"));
    assert_eq!(info.state.as_deref(), Some("01_in_progress"));
    assert_eq!(info.kanban_state, None);
    assert_eq!(info.available_stages.len(), 2);
    assert_eq!(info.available_stages[0].name, "New");
    let info = task_stage_info((None, None, None), Vec::new());
    assert_eq!((info.stage_id, info.stage_name), (None, None));
}

#[test]
fn users_and_projects_keep_their_order() {
    let us = user_infos(vec![(2, "B".to_string()), (1, "A".to_string())]);
    assert_eq!((us[0].id, us[1].name.as_str()), (2, "A"));
    let ps = project_infos(vec![OdooProject { id: 9, name: "Web".to_string() }]);
    assert_eq!((ps[0].id, ps[0].name.as_str()), (9, "Web"));
    let p = ProjectInfo { id: 1, name: "x".to_string() };
    assert_eq!((p.project_id(), p.project_name_ref()), (1, "x"));
    let c = CachedProject { id: 2, name: "y".to_string() };
    assert_eq!((c.project_id(), c.project_name_ref()), (2, "y"));
}
