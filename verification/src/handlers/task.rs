//! A task's row: the forms that change a task and the row shown after.
use vstd::prelude::*;

use crate::models::Task;
use crate::tasks::TaskError;

verus! {

/// What a task's row shows.
pub struct TaskRowTemplate {
    pub project_id: String,
    pub task: Task,
}

/// The values of the status form: the new status and the note that goes
/// with it.
pub struct UpdateStatusForm {
    pub status: String,
    pub note: String,
}

/// The values of the criteria form.
pub struct EditCriteriaForm {
    pub criteria: String,
}

/// The row shown after an operation on a task of the project: the task's
/// row where the operation gave the task, its error where it gave one.
pub fn task_row(project_id: String, outcome: Result<Task, TaskError>) -> (r: Result<TaskRowTemplate, TaskError>)
    ensures
        outcome is Ok ==> (r matches Ok(row) && row.project_id == project_id && row.task == outcome->Ok_0),
        outcome is Err ==> r == Err::<TaskRowTemplate, TaskError>(outcome->Err_0),
{
    match outcome {
        Ok(task) => Ok(TaskRowTemplate { project_id, task }),
        Err(e) => Err(e),
    }
}

} // verus!
