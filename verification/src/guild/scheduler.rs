//! Handing a guild's tasks to whichever bot is free, one queue for each kind of request.
use crate::task_handle::{all_routes, Task, TaskHandlerError, TaskRoute};
use std::time::Duration;
use vstd::prelude::*;

verus! {

/// How many tasks wait in one queue at most.
pub const ROUTE_QUEUE_LIMIT: usize = 100;

/// Why a queue did not take a task.
#[derive(Clone, Copy, Debug, PartialEq, Eq, Structural)]
pub enum TrySendError {
    Full,
    Closed,
}

/// Why a task could not be processed.
#[derive(Debug)]
pub enum SchedulerError<T> {
    SendError(TrySendError),
    /// Whoever carried the task out went away without a result.
    TaskResultReceiveError(),
    NoRouteScheduler(TaskRoute),
    TaskHandlerError(TaskHandlerError<T>),
}

/// The queues of a guild. A queue is known by its place.
pub struct GuildScheduler {
    routes: Vec<TaskRoute>,
}

impl View for GuildScheduler {
    type V = Seq<TaskRoute>;

    closed spec fn view(&self) -> Seq<TaskRoute> {
        self.routes@
    }
}

impl GuildScheduler {
    /// One queue for every kind of request.
    pub fn new() -> (r: GuildScheduler)
        ensures
            r@ == all_routes(),
    {
        GuildScheduler { routes: TaskRoute::iter() }
    }

    /// The queue that a task goes to.
    pub fn process_enqueue<T: Task>(&self, task: &T) -> (r: Result<usize, SchedulerError<T>>)
        ensures
            match r {
                Ok(i) => i < self@.len() && self@[i as int] == task.spec_route(),
                Err(e) => e == SchedulerError::<T>::NoRouteScheduler(task.spec_route())
                    && !self@.contains(task.spec_route()),
            },
    {
        let route = task.route();
        let mut i: usize = 0;
        while i < self.routes.len()
            invariant
                i <= self.routes@.len(),
                route == task.spec_route(),
                forall|j: int| 0 <= j < i ==> self.routes@[j] != route,
            decreases self.routes.len() - i,
        {
            if self.routes[i] == route {
                return Ok(i);
            }
            i += 1;
        }
        Err(SchedulerError::NoRouteScheduler(route))
    }

    /// What processing a task comes to, once its queue took it or not and the task, where it was
    /// taken, came to something: `None` where whoever carried it out went away.
    pub fn process<T>(
        enqueued: Result<(), SchedulerError<T>>,
        result: Option<Result<T, TaskHandlerError<T>>>,
    ) -> (r: Result<T, SchedulerError<T>>)
        ensures
            r == task_result(enqueued, result),
    {
        match enqueued {
            Err(e) => Err(e),
            Ok(_) => match result {
                Some(Ok(task)) => Ok(task),
                Some(Err(e)) => Err(SchedulerError::TaskHandlerError(e)),
                None => Err(SchedulerError::TaskResultReceiveError()),
            },
        }
    }
}

/// What a task came to, given whether it was queued and what was made of it.
pub open spec fn task_result<T>(
    enqueued: Result<(), SchedulerError<T>>,
    result: Option<Result<T, TaskHandlerError<T>>>,
) -> Result<T, SchedulerError<T>> {
    match (enqueued, result) {
        (Err(e), _) => Err(e),
        (Ok(_), Some(Ok(task))) => Ok(task),
        (Ok(_), Some(Err(e))) => Err(SchedulerError::TaskHandlerError(e)),
        (Ok(_), None) => Err(SchedulerError::TaskResultReceiveError()),
    }
}

/// How the work on a queue goes on.
pub open spec fn worker_goes_on(reply: WorkerReply) -> WorkerNext {
    match reply {
        WorkerReply::Begin => WorkerNext::ReadLimit,
        WorkerReply::Limit(Some((remaining, Some(until)))) => if remaining <= 0 {
            WorkerNext::Sleep(until)
        } else {
            WorkerNext::Wait
        },
        WorkerReply::Limit(_) => WorkerNext::Wait,
        WorkerReply::Slept => WorkerNext::Wait,
        WorkerReply::Waiting(true) => WorkerNext::CheckGuild,
        WorkerReply::Waiting(false) => WorkerNext::Stop,
        WorkerReply::SeesGuild(true) => WorkerNext::Take,
        WorkerReply::SeesGuild(false) => WorkerNext::ReadLimit,
        WorkerReply::Taken(true) => WorkerNext::Run,
        WorkerReply::Taken(false) => WorkerNext::Stop,
        WorkerReply::Ran => WorkerNext::ReadLimit,
    }
}

/// A guild has a queue for every task.
pub proof fn law_every_task_has_a_queue<T: Task>(task: T)
    ensures
        all_routes().contains(task.spec_route()),
{
    crate::task_handle::law_routes_are_complete_and_distinct(
        task.spec_route(),
        task.spec_route(),
        crate::ids::ChannelId(0),
        crate::ids::ChannelId(0),
    );
}

/// What a bot that serves a queue has seen last.
pub enum WorkerReply {
    Begin,
    /// How many requests Discord still takes and how long it is until it takes more, where there
    /// is a limit and it is not over yet.
    Limit(Option<(i64, Option<Duration>)>),
    Slept,
    /// Whether a task waits; else the queue is closed.
    Waiting(bool),
    /// Whether the bot sees the guild.
    SeesGuild(bool),
    /// Whether the task was there to be taken.
    Taken(bool),
    /// The task was carried out, well or not.
    Ran,
}

/// What the bot does next.
pub enum WorkerNext {
    ReadLimit,
    Sleep(Duration),
    /// The bot reserves the queue and waits for a task.
    Wait,
    CheckGuild,
    /// The bot takes the task and frees the queue.
    Take,
    Run,
    Stop,
}

/// The queue for one kind of request.
pub struct RouteScheduler;

impl RouteScheduler {
    /// How a bot serves a queue. It waits for the limit to be over, then for a task, which it takes
    /// only where it sees the guild; else it leaves the task to the other bots and begins again. It
    /// stops once the queue is closed.
    pub fn serve(reply: WorkerReply) -> (r: WorkerNext)
        ensures
            r == worker_goes_on(reply),
    {
        match reply {
            WorkerReply::Begin => WorkerNext::ReadLimit,
            WorkerReply::Limit(limit) => match limit {
                Some((remaining, Some(until))) => if remaining <= 0 {
                    WorkerNext::Sleep(until)
                } else {
                    WorkerNext::Wait
                },
                _ => WorkerNext::Wait,
            },
            WorkerReply::Slept => WorkerNext::Wait,
            WorkerReply::Waiting(waiting) => if waiting {
                WorkerNext::CheckGuild
            } else {
                WorkerNext::Stop
            },
            WorkerReply::SeesGuild(sees) => if sees {
                WorkerNext::Take
            } else {
                WorkerNext::ReadLimit
            },
            WorkerReply::Taken(taken) => if taken {
                WorkerNext::Run
            } else {
                WorkerNext::Stop
            },
            WorkerReply::Ran => WorkerNext::ReadLimit,
        }
    }

    /// What it comes to that a queue took a task or not.
    pub fn enqueue<T>(sent: Result<(), TrySendError>) -> (r: Result<(), SchedulerError<T>>)
        ensures
            match sent {
                Ok(_) => r is Ok,
                Err(e) => r == Err::<(), SchedulerError<T>>(SchedulerError::SendError(e)),
            },
    {
        match sent {
            Ok(_) => Ok(()),
            Err(e) => Err(SchedulerError::SendError(e)),
        }
    }
}

/// A task is run only once it was taken, and taken only where the guild is seen; after each the limit
/// is read again. The work stops only where nothing waits or can be taken any more.
pub proof fn law_work_goes_step_by_step(reply: WorkerReply)
    ensures
        worker_goes_on(reply) is Run <==> reply == WorkerReply::Taken(true),
        worker_goes_on(reply) is Take <==> reply == WorkerReply::SeesGuild(true),
        worker_goes_on(reply) is CheckGuild <==> reply == WorkerReply::Waiting(true),
        worker_goes_on(reply) is Stop <==> reply == WorkerReply::Waiting(false) || reply
            == WorkerReply::Taken(false),
        worker_goes_on(reply) is ReadLimit <==> reply is Begin || reply is Ran || reply
            == WorkerReply::SeesGuild(false),
        worker_goes_on(reply) matches WorkerNext::Sleep(until) ==> (
        reply matches WorkerReply::Limit(Some((remaining, Some(reset)))) && remaining <= 0 && until
            == reset),
        (reply matches WorkerReply::Limit(Some((remaining, reset))) && remaining <= 0 && reset
            is Some) ==> worker_goes_on(reply) is Sleep,
        worker_goes_on(reply) is Wait <==> reply is Slept || (reply matches WorkerReply::Limit(limit)
            && !(limit matches Some((remaining, reset)) && remaining <= 0 && reset is Some)),
{
}

/// A task that was queued and carried out is handed back; each thing that can go wrong has its
/// error.
pub proof fn law_results_are_handed_back<T>(
    task: T,
    refusal: SchedulerError<T>,
    failure: TaskHandlerError<T>,
    result: Option<Result<T, TaskHandlerError<T>>>,
)
    ensures
        task_result(Ok(()), Some(Ok(task))) == Ok::<T, SchedulerError<T>>(task),
        task_result(Err(refusal), result) == Err::<T, SchedulerError<T>>(refusal),
        task_result(Ok(()), Some(Err(failure))) == Err::<T, SchedulerError<T>>(
            SchedulerError::TaskHandlerError(failure),
        ),
        task_result(Ok(()), None::<Result<T, TaskHandlerError<T>>>) == Err::<T, SchedulerError<T>>(
            SchedulerError::TaskResultReceiveError(),
        ),
{
}

} // verus!
