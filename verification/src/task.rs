use vstd::prelude::*;

verus! {

/// The task ids a piece of work can run under: one set for an async task,
/// and one set by hand for blocking work. Log lines go to the log of the
/// current task.
#[derive(Clone, Debug)]
pub struct TaskContext {
    pub async_task_id: Option<String>,
    pub blocking_task_id: Option<String>,
}

/// The task ids as plain values: (async id, blocking id).
pub open spec fn task_ids(ctx: TaskContext) -> (Option<Seq<char>>, Option<Seq<char>>) {
    (ctx.async_task_id.deep_view(), ctx.blocking_task_id.deep_view())
}

/// The ids after the blocking id is set to `id`.
pub open spec fn with_blocking(ids: (Option<Seq<char>>, Option<Seq<char>>), id: Seq<char>) -> (
    Option<Seq<char>>,
    Option<Seq<char>>,
) {
    (ids.0, Some(id))
}

/// The ids after the blocking id is cleared.
pub open spec fn without_blocking(ids: (Option<Seq<char>>, Option<Seq<char>>)) -> (
    Option<Seq<char>>,
    Option<Seq<char>>,
) {
    (ids.0, None)
}

/// The id that work runs under: the async task's when there is one, else the
/// blocking one.
pub open spec fn current_id(ids: (Option<Seq<char>>, Option<Seq<char>>)) -> Option<Seq<char>> {
    match ids.0 {
        Some(a) => Some(a),
        None => ids.1,
    }
}

fn copy_id(id: &Option<String>) -> (res: Option<String>)
    ensures
        res.deep_view() == id.deep_view(),
{
    match id {
        Some(s) => Some(s.clone()),
        None => None,
    }
}

impl TaskContext {
    /// A context with neither id set.
    pub fn new() -> (res: Self)
        ensures
            task_ids(res) == (None::<Seq<char>>, None::<Seq<char>>),
    {
        TaskContext { async_task_id: None, blocking_task_id: None }
    }
}

/// Sets the id that blocking work runs under.
pub fn set_blocking_task_id(ctx: &mut TaskContext, id: String)
    ensures
        task_ids(*final(ctx)) == with_blocking(task_ids(*old(ctx)), id@),
{
    ctx.blocking_task_id = Some(id);
}

/// The id that blocking work runs under, if set.
pub fn get_blocking_task_id(ctx: &TaskContext) -> (res: Option<String>)
    ensures
        res.deep_view() == task_ids(*ctx).1,
{
    copy_id(&ctx.blocking_task_id)
}

/// Forgets the id that blocking work runs under.
pub fn clear_blocking_task_id(ctx: &mut TaskContext)
    ensures
        task_ids(*final(ctx)) == without_blocking(task_ids(*old(ctx))),
{
    ctx.blocking_task_id = None;
}

/// The id of the task the current work belongs to: the async task's id when
/// there is one, else the blocking id.
pub fn current_task_id(ctx: &TaskContext) -> (res: Option<String>)
    ensures
        res.deep_view() == current_id(task_ids(*ctx)),
{
    match &ctx.async_task_id {
        Some(a) => Some(a.clone()),
        None => copy_id(&ctx.blocking_task_id),
    }
}

/// After the blocking id is set, reading it gives back the id set, and work
/// outside an async task runs under it; clearing it leaves no blocking id,
/// whatever was set before.
pub proof fn lemma_blocking_id_read_back(ids: (Option<Seq<char>>, Option<Seq<char>>), id: Seq<char>)
    ensures
        with_blocking(ids, id).1 == Some(id),
        ids.0 is None ==> current_id(with_blocking(ids, id)) == Some(id),
        without_blocking(ids).1 is None,
        without_blocking(with_blocking(ids, id)) == without_blocking(ids),
        ids.0 is None ==> current_id(without_blocking(ids)) is None,
{
}

/// An async task's id always wins over the blocking id.
pub proof fn lemma_async_id_wins(ids: (Option<Seq<char>>, Option<Seq<char>>), id: Seq<char>)
    requires
        ids.0 is Some,
    ensures
        current_id(with_blocking(ids, id)) == ids.0,
        current_id(without_blocking(ids)) == ids.0,
{
}

/// Where a task's log is written: `./data/task_logs/{task_id}.log`.
pub fn task_log_path(task_id: &str) -> (res: String)
    ensures
        res@ == "./data/task_logs/"@ + task_id@ + ".log"@,
{
    let mut s = String::from_str("./data/task_logs/");
    s.append(task_id);
    s.append(".log");
    s
}

} // verus!
