//! The all-projects dashboard: its sortable table and the new-project form.
use vstd::prelude::*;

use crate::queries::{
    flipped, same_key_classes, sort_dir_named, sort_dir_text, sort_key_named, sort_key_text,
    sort_projects, sorted_for, summary_views, ProjectSummary, SortDir, SortKey,
};
use crate::text::join2;
use crate::{is_valid_id, valid_id};

verus! {

/// What the dashboard page shows.
pub struct DashboardTemplate {
    pub projects: Vec<ProjectSummary>,
    pub sort_name_href: String,
    pub sort_total_href: String,
    pub sort_incomplete_href: String,
    pub sort_wip_href: String,
    pub sort_activity_href: String,
    pub active_sort: String,
    pub active_dir: String,
    pub form_error: Option<String>,
    pub form_project_id: String,
    pub form_task_id: String,
    pub form_criteria: String,
}

/// The query of the dashboard page: the column and the direction asked
/// for, each empty when the query leaves it out.
pub struct SortQuery {
    pub sort: String,
    pub dir: String,
}

/// The column and direction a dashboard query asks for (see
/// `sort_key_named` and `sort_dir_named`).
pub fn dashboard_order(query: &SortQuery) -> (r: (SortKey, SortDir))
    ensures
        r.0 == sort_key_named(query.sort@),
        r.1 == sort_dir_named(query.dir@),
{
    (SortKey::parse(query.sort.as_str()), SortDir::parse(query.dir.as_str()))
}

/// The direction a column header's link asks for: the other direction for
/// the column the table is ordered by, the current direction for any other
/// column.
pub open spec fn link_dir(col: SortKey, current_sort: SortKey, current_dir: SortDir) -> SortDir {
    if col == current_sort {
        flipped(current_dir)
    } else {
        current_dir
    }
}

/// The link of a column header: `/?sort={column}&dir={direction}`.
pub open spec fn sort_href(col: SortKey, current_sort: SortKey, current_dir: SortDir) -> Seq<char> {
    "/?sort="@ + sort_key_text(col) + "&dir="@ + sort_dir_text(link_dir(col, current_sort, current_dir))
}

/// Builds the link of a column header (see `sort_href`).
pub fn sort_link(col: SortKey, current_sort: SortKey, current_dir: SortDir) -> (r: String)
    ensures
        r@ == sort_href(col, current_sort, current_dir),
{
    let dir = if col == current_sort {
        current_dir.flip()
    } else {
        current_dir
    };
    let mut out = join2("/?sort=", col.as_str());
    out.append("&dir=");
    out.append(dir.as_str());
    out
}

/// The dashboard for the given projects, ordered by `sort` and `dir`, with
/// the column links, the active column and direction, and the form's error
/// and values.
pub fn build_dashboard_view(
    projects: Vec<ProjectSummary>,
    sort: SortKey,
    dir: SortDir,
    form_error: Option<String>,
    form_project_id: String,
    form_task_id: String,
    form_criteria: String,
) -> (r: DashboardTemplate)
    ensures
        sorted_for(summary_views(r.projects@), sort, dir),
        summary_views(r.projects@).to_multiset() == summary_views(projects@).to_multiset(),
        same_key_classes(summary_views(r.projects@), summary_views(projects@), sort),
        r.sort_name_href@ == sort_href(SortKey::Name, sort, dir),
        r.sort_total_href@ == sort_href(SortKey::Total, sort, dir),
        r.sort_incomplete_href@ == sort_href(SortKey::Incomplete, sort, dir),
        r.sort_wip_href@ == sort_href(SortKey::Wip, sort, dir),
        r.sort_activity_href@ == sort_href(SortKey::Activity, sort, dir),
        r.active_sort@ == sort_key_text(sort),
        r.active_dir@ == sort_dir_text(dir),
        r.form_error == form_error,
        r.form_project_id == form_project_id,
        r.form_task_id == form_task_id,
        r.form_criteria == form_criteria,
{
    let mut projects = projects;
    sort_projects(projects.as_mut_slice(), sort, dir);
    DashboardTemplate {
        projects,
        sort_name_href: sort_link(SortKey::Name, sort, dir),
        sort_total_href: sort_link(SortKey::Total, sort, dir),
        sort_incomplete_href: sort_link(SortKey::Incomplete, sort, dir),
        sort_wip_href: sort_link(SortKey::Wip, sort, dir),
        sort_activity_href: sort_link(SortKey::Activity, sort, dir),
        active_sort: String::from_str(sort.as_str()),
        active_dir: String::from_str(dir.as_str()),
        form_error,
        form_project_id,
        form_task_id,
        form_criteria,
    }
}

/// The values of the new-project form.
pub struct CreateProjectForm {
    pub project_id: String,
    pub task_id: String,
    pub criteria: String,
}

/// What becomes of a new-project form.
#[derive(Debug, Clone, PartialEq)]
pub enum NewProjectOutcome {
    /// An id is not valid: the form is shown again with this message.
    InvalidId(String),
    /// The project already has tasks: the form is shown again with this message.
    AlreadyExists(String),
    /// The project's first task is created and the browser sent to this path.
    Create(String),
}

/// The message for a form with an invalid id.
pub open spec fn invalid_id_message() -> Seq<char> {
    "Invalid project or task ID."@
}

/// The message for a project that already has tasks.
pub open spec fn exists_message(project_id: Seq<char>) -> Seq<char> {
    "Project '"@ + project_id + "' already exists."@
}

/// The page of a project: `/projects/{project_id}`.
pub open spec fn project_path(project_id: Seq<char>) -> Seq<char> {
    "/projects/"@ + project_id
}

/// Whether both ids of the new-project form are valid.
pub fn new_project_ids_valid(form: &CreateProjectForm) -> (r: bool)
    ensures
        r == (valid_id(form.project_id@) && valid_id(form.task_id@)),
{
    is_valid_id(form.project_id.as_str()) && is_valid_id(form.task_id.as_str())
}

/// What becomes of a new-project form, given whether the project already
/// has tasks: an invalid id is refused first, then an existing project;
/// otherwise the first task is created and the browser sent to the
/// project's page.
pub fn new_project_outcome(form: &CreateProjectForm, project_has_tasks: bool) -> (r: NewProjectOutcome)
    ensures
        !(valid_id(form.project_id@) && valid_id(form.task_id@)) ==> (r matches NewProjectOutcome::InvalidId(m) && m@ == invalid_id_message()),
        valid_id(form.project_id@) && valid_id(form.task_id@) && project_has_tasks ==> (r matches NewProjectOutcome::AlreadyExists(m) && m@ == exists_message(form.project_id@)),
        valid_id(form.project_id@) && valid_id(form.task_id@) && !project_has_tasks ==> (r matches NewProjectOutcome::Create(p) && p@ == project_path(form.project_id@)),
{
    if !new_project_ids_valid(form) {
        return NewProjectOutcome::InvalidId(String::from_str("Invalid project or task ID."));
    }
    if project_has_tasks {
        let mut message = join2("Project '", form.project_id.as_str());
        message.append("' already exists.");
        return NewProjectOutcome::AlreadyExists(message);
    }
    NewProjectOutcome::Create(join2("/projects/", form.project_id.as_str()))
}

} // verus!
