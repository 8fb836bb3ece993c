use ztask_web::handlers::dashboard::{
    build_dashboard_view, dashboard_order, new_project_outcome, sort_link, CreateProjectForm, NewProjectOutcome,
    SortQuery,
};
use ztask_web::handlers::project::{
    build_project_view, default_filter, matches_filter, new_task_ids_valid, sort_tasks_by_id, CreateTaskForm,
    FilterQuery,
};
use ztask_web::handlers::task::task_row;
use ztask_web::models::Task;
use ztask_web::tasks::TaskError;
use ztask_web::queries::{ProjectSummary, SortDir, SortKey};

fn task_with_status(id: &str, status: &str) -> Task {
    let mut task = Task::new(id);
    task.status = status.to_string();
    task
}

#[test]
fn sort_link_flips_the_active_column_and_keeps_the_direction_for_the_others() {
    assert_eq!(sort_link(SortKey::Total, SortKey::Total, SortDir::Asc), "/?sort=total&dir=desc");
    assert_eq!(sort_link(SortKey::Total, SortKey::Total, SortDir::Desc), "/?sort=total&dir=asc");
    assert_eq!(sort_link(SortKey::Name, SortKey::Total, SortDir::Desc), "/?sort=name&dir=desc");
    assert_eq!(sort_link(SortKey::Wip, SortKey::Name, SortDir::Asc), "/?sort=wip&dir=asc");
}

#[test]
fn dashboard_view_sorts_projects_and_builds_links() {
    let projects = vec![
        ProjectSummary { id: "small".into(), total: 1, incomplete: 1, wip: 0, last_activity: None },
        ProjectSummary { id: "big".into(), total: 2, incomplete: 2, wip: 0, last_activity: None },
    ];
    let view = build_dashboard_view(projects, SortKey::Total, SortDir::Desc, None, String::new(), String::new(), String::new());
    assert_eq!(view.projects[0].id, "big");
    assert_eq!(view.projects[1].id, "small");
    assert_eq!(view.sort_total_href, "/?sort=total&dir=asc");
    assert_eq!(view.sort_name_href, "/?sort=name&dir=desc");
    assert_eq!(view.sort_activity_href, "/?sort=activity&dir=desc");
    assert_eq!(view.active_sort, "total");
    assert_eq!(view.active_dir, "desc");
    assert!(view.form_error.is_none());
}

fn form(project_id: &str, task_id: &str) -> CreateProjectForm {
    CreateProjectForm { project_id: project_id.into(), task_id: task_id.into(), criteria: String::new() }
}

#[test]
fn new_project_outcome_refuses_invalid_ids_then_existing_projects() {
    assert_eq!(
        new_project_outcome(&form("bad*id", "t1"), false),
        NewProjectOutcome::InvalidId("Invalid project or task ID.".into())
    );
    assert_eq!(
        new_project_outcome(&form("p", ""), true),
        NewProjectOutcome::InvalidId("Invalid project or task ID.".into())
    );
    assert_eq!(
        new_project_outcome(&form("existing", "t2"), true),
        NewProjectOutcome::AlreadyExists("Project 'existing' already exists.".into())
    );
    assert_eq!(new_project_outcome(&form("newproj", "t1"), false), NewProjectOutcome::Create("/projects/newproj".into()));
}

#[test]
fn project_view_lists_only_incomplete_tasks_when_filtered() {
    let tasks = vec![task_with_status("t2", "COMPLETED"), task_with_status("t1", "PENDING")];
    let view = build_project_view("p1".into(), tasks, &FilterQuery { filter: "incomplete".into() });
    assert_eq!(view.project_id, "p1");
    assert_eq!(view.tasks.iter().map(|t| t.id.as_str()).collect::<Vec<_>>(), vec!["t1"]);
}

#[test]
fn project_view_defaults_to_all_tasks_in_id_order() {
    let tasks = vec![task_with_status("t2", "COMPLETED"), task_with_status("t1", "PENDING")];
    let view = build_project_view("p1".into(), tasks, &FilterQuery { filter: default_filter() });
    assert_eq!(view.tasks.iter().map(|t| t.id.as_str()).collect::<Vec<_>>(), vec!["t1", "t2"]);
}

#[test]
fn matches_filter_compares_in_upper_case() {
    assert!(matches_filter(&task_with_status("t", "in_progress"), "wip"));
    assert!(!matches_filter(&task_with_status("t", "pending"), "wip"));
    assert!(!matches_filter(&task_with_status("t", "completed"), "incomplete"));
    assert!(matches_filter(&task_with_status("t", "completed"), "all"));
    assert!(matches_filter(&task_with_status("t", "completed"), "anything"));
    assert_eq!(default_filter(), "all");
}

#[test]
fn sort_tasks_by_id_orders_and_keeps_equal_ids_in_order() {
    let mut tasks = vec![task_with_status("b", "1"), task_with_status("a", "2"), task_with_status("b", "3")];
    sort_tasks_by_id(&mut tasks);
    assert_eq!(tasks.iter().map(|t| t.status.as_str()).collect::<Vec<_>>(), vec!["2", "1", "3"]);
}

#[test]
fn new_task_ids_must_both_be_valid() {
    let task_form = |id: &str| CreateTaskForm { task_id: id.into(), criteria: String::new() };
    assert!(new_task_ids_valid("p1", &task_form("t1")));
    assert!(!new_task_ids_valid("*", &task_form("t1")));
    assert!(!new_task_ids_valid("p1", &task_form("a/b")));
    assert!(!new_task_ids_valid("p1", &task_form("")));
}

#[test]
fn dashboard_order_reads_the_query_and_defaults_to_name_ascending() {
    let query = |sort: &str, dir: &str| SortQuery { sort: sort.into(), dir: dir.into() };
    assert_eq!(dashboard_order(&query("wip", "desc")), (SortKey::Wip, SortDir::Desc));
    assert_eq!(dashboard_order(&query("activity", "asc")), (SortKey::Activity, SortDir::Asc));
    assert_eq!(dashboard_order(&query("", "")), (SortKey::Name, SortDir::Asc));
    assert_eq!(dashboard_order(&query("bogus", "DESC")), (SortKey::Name, SortDir::Asc));
}

#[test]
fn task_row_shows_the_task_or_passes_the_error_on() {
    let row = task_row("p1".into(), Ok(task_with_status("t1", "PENDING"))).ok().unwrap();
    assert_eq!(row.project_id, "p1");
    assert_eq!(row.task.id, "t1");
    assert_eq!(row.task.status, "PENDING");
    assert!(matches!(task_row("p1".into(), Err(TaskError::NotFound)), Err(TaskError::NotFound)));
}
