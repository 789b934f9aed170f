//! Handing a guild's tasks to the connections that carry them out: one place sorts the tasks by
//! kind, and each connection takes tasks of a kind whenever Discord lets it.
use crate::guild::scheduler::TrySendError;
use crate::ids::{ChannelId, GuildId};
use crate::task_handle::{all_routes, Route, TaskRoute};
use std::time::Duration;
use vstd::prelude::*;

verus! {

/// How many tasks wait at most, before they are sorted and after.
pub const QUEUE_LIMIT: usize = 1000;

/// How long to wait before looking again whether a guild can be seen, in seconds.
pub const GUILD_CHECK_SLEEP_SECS: u64 = 60;

/// Why scheduling came to an end.
#[derive(Clone, Copy, Debug, PartialEq, Eq, Structural)]
pub enum SchedulerError {
    Receive(GuildId),
    Send(GuildId, TaskRoute),
    RateLimit(Route, GuildId, ChannelId),
    ResetTime(Route, GuildId, ChannelId),
}

/// What happened where tasks are sorted.
pub enum SplitReply {
    /// A task of a kind came, or none can come any more.
    Received(Option<TaskRoute>),
    /// The queue of a kind took the task, or not.
    Sent(TaskRoute, Result<(), TrySendError>),
}

/// What follows.
#[derive(Clone, Copy, Debug, PartialEq, Eq, Structural)]
pub enum SplitNext {
    Receive,
    /// The task goes to the queue of a kind.
    Send(TaskRoute),
    /// The task is given up, and the next one is awaited.
    GiveUp,
    End(SchedulerError),
}

/// What happened at a connection that carries out tasks of a kind.
pub enum HttpReply {
    /// Whether the connection sees the guild.
    SeesGuild(bool),
    SleptForGuild,
    /// How many requests Discord still takes, and after how long it takes more; `None` where no
    /// limit is known.
    Limit(Option<(i64, Option<Duration>)>),
    SleptForLimit,
    /// A task came and was carried out, well or not.
    Ran(bool),
}

/// What follows.
pub enum HttpNext {
    CheckGuild,
    SleepForGuild(u64),
    ReadLimit,
    SleepForLimit(Duration),
    /// The connection waits for a task and carries it out.
    ReceiveAndRun,
    End(SchedulerError),
}

/// Whether there is a queue for a kind.
fn has_queue(queues: &Vec<TaskRoute>, route: TaskRoute) -> (r: bool)
    ensures
        r == queues@.contains(route),
{
    let mut i: usize = 0;
    while i < queues.len()
        invariant
            i <= queues@.len(),
            forall|j: int| 0 <= j < i ==> queues@[j] != route,
        decreases queues.len() - i,
    {
        if queues[i] == route {
            return true;
        }
        i += 1;
    }
    false
}

/// The scheduler of one guild.
#[derive(Clone, Copy, Debug)]
pub struct TaskScheduler {
    pub guild_id: GuildId,
    pub channel_id: ChannelId,
}

/// Each kind of request with its route in the scheduler's channel.
pub open spec fn routes_of(scheduler: TaskScheduler) -> Seq<(TaskRoute, Route)> {
    all_routes().map_values(|t: TaskRoute| (t, t.route_in(scheduler.channel_id)))
}

/// How the sorting of tasks goes on.
pub open spec fn split_goes_on(
    scheduler: TaskScheduler,
    queues: Seq<TaskRoute>,
    reply: SplitReply,
) -> SplitNext {
    match reply {
        SplitReply::Received(None) => SplitNext::End(SchedulerError::Receive(scheduler.guild_id)),
        SplitReply::Received(Some(route)) => if queues.contains(route) {
            SplitNext::Send(route)
        } else {
            SplitNext::GiveUp
        },
        SplitReply::Sent(_, Ok(_)) => SplitNext::Receive,
        SplitReply::Sent(_, Err(TrySendError::Full)) => SplitNext::GiveUp,
        SplitReply::Sent(route, Err(TrySendError::Closed)) => SplitNext::End(
            SchedulerError::Send(scheduler.guild_id, route),
        ),
    }
}

/// How a connection goes on that carries out tasks of a kind.
pub open spec fn http_goes_on(
    scheduler: TaskScheduler,
    route: TaskRoute,
    reply: HttpReply,
) -> HttpNext {
    match reply {
        HttpReply::SeesGuild(true) => HttpNext::ReadLimit,
        HttpReply::SeesGuild(false) => HttpNext::SleepForGuild(GUILD_CHECK_SLEEP_SECS),
        HttpReply::SleptForGuild => HttpNext::CheckGuild,
        HttpReply::Limit(None) => HttpNext::End(
            SchedulerError::RateLimit(
                route.route_in(scheduler.channel_id),
                scheduler.guild_id,
                scheduler.channel_id,
            ),
        ),
        HttpReply::Limit(Some((remaining, reset))) => if remaining > 0 {
            HttpNext::ReceiveAndRun
        } else {
            match reset {
                Some(after) => HttpNext::SleepForLimit(after),
                None => HttpNext::End(
                    SchedulerError::ResetTime(
                        route.route_in(scheduler.channel_id),
                        scheduler.guild_id,
                        scheduler.channel_id,
                    ),
                ),
            }
        },
        HttpReply::SleptForLimit => HttpNext::ReadLimit,
        HttpReply::Ran(true) => HttpNext::ReadLimit,
        HttpReply::Ran(false) => HttpNext::CheckGuild,
    }
}

impl TaskScheduler {
    /// A scheduler for a guild and the channel that it is served in.
    pub fn new(guild_id: GuildId, channel_id: ChannelId) -> (r: TaskScheduler)
        ensures
            r.guild_id == guild_id,
            r.channel_id == channel_id,
    {
        TaskScheduler { guild_id, channel_id }
    }

    /// The queues to make: one for each kind, with Discord's name for the kind in the channel, and
    /// for each queue so many loops as there are connections.
    pub fn run_async(&self) -> (r: Vec<(TaskRoute, Route)>)
        ensures
            r@ == routes_of(*self),
    {
        let routes = TaskRoute::iter();
        let mut r: Vec<(TaskRoute, Route)> = Vec::new();
        let mut i: usize = 0;
        let ghost named = all_routes().map_values(
            |t: TaskRoute| (t, t.route_in(self.channel_id)),
        );
        while i < routes.len()
            invariant
                routes@ == all_routes(),
                named == all_routes().map_values(
                    |t: TaskRoute| (t, t.route_in(self.channel_id)),
                ),
                i <= routes@.len(),
                r@ == named.take(i as int),
            decreases routes.len() - i,
        {
            let route = routes[i];
            r.push((route, route.get_serenity_route(self.channel_id, self.guild_id)));
            i += 1;
            assert(r@ =~= named.take(i as int));
        }
        assert(r@ =~= named);
        r
    }

    /// Sorts the tasks: each goes to the queue of its kind. A task whose kind has no queue, or whose
    /// queue is full, is given up. Sorting ends once no task can come any more, or once a queue is
    /// closed.
    pub fn split_receive(&self, queues: &Vec<TaskRoute>, reply: SplitReply) -> (r: SplitNext)
        ensures
            r == split_goes_on(*self, queues@, reply),
    {
        match reply {
            SplitReply::Received(None) => SplitNext::End(SchedulerError::Receive(self.guild_id)),
            SplitReply::Received(Some(route)) => if has_queue(queues, route) {
                SplitNext::Send(route)
            } else {
                SplitNext::GiveUp
            },
            SplitReply::Sent(route, sent) => match sent {
                Ok(_) => SplitNext::Receive,
                Err(TrySendError::Full) => SplitNext::GiveUp,
                Err(TrySendError::Closed) => SplitNext::End(
                    SchedulerError::Send(self.guild_id, route),
                ),
            },
        }
    }

    /// How a connection carries out tasks of a kind. It has to see the guild first, and again after
    /// a task that failed. It takes a task only while Discord takes requests, and waits else.
    pub fn task_http_loop(&self, route: TaskRoute, reply: HttpReply) -> (r: HttpNext)
        ensures
            r == http_goes_on(*self, route, reply),
    {
        let name = route.get_serenity_route(self.channel_id, self.guild_id);
        match reply {
            HttpReply::SeesGuild(sees) => if sees {
                HttpNext::ReadLimit
            } else {
                HttpNext::SleepForGuild(GUILD_CHECK_SLEEP_SECS)
            },
            HttpReply::SleptForGuild => HttpNext::CheckGuild,
            HttpReply::Limit(None) => HttpNext::End(
                SchedulerError::RateLimit(name, self.guild_id, self.channel_id),
            ),
            HttpReply::Limit(Some((remaining, reset))) => if remaining > 0 {
                HttpNext::ReceiveAndRun
            } else {
                match reset {
                    Some(after) => HttpNext::SleepForLimit(after),
                    None => HttpNext::End(
                        SchedulerError::ResetTime(name, self.guild_id, self.channel_id),
                    ),
                }
            },
            HttpReply::SleptForLimit => HttpNext::ReadLimit,
            HttpReply::Ran(well) => if well {
                HttpNext::ReadLimit
            } else {
                HttpNext::CheckGuild
            },
        }
    }
}

/// With a queue for each kind, no task is given up for want of a queue.
pub proof fn law_every_kind_is_sorted(route: TaskRoute)
    ensures
        all_routes().contains(route),
{
    crate::task_handle::law_routes_are_complete_and_distinct(
        route,
        route,
        ChannelId(0),
        ChannelId(0),
    );
}

/// A task goes to the queue of its own kind where there is one, and is given up where there is none
/// or where that is full. The sorting ends only where no task can come any more or a queue is closed.
pub proof fn law_tasks_go_to_their_queues(
    scheduler: TaskScheduler,
    queues: Seq<TaskRoute>,
    route: TaskRoute,
)
    ensures
        queues.contains(route) ==> split_goes_on(
            scheduler,
            queues,
            SplitReply::Received(Some(route)),
        ) == SplitNext::Send(route),
        !queues.contains(route) ==> split_goes_on(
            scheduler,
            queues,
            SplitReply::Received(Some(route)),
        ) == SplitNext::GiveUp,
        split_goes_on(scheduler, queues, SplitReply::Received(None)) == SplitNext::End(
            SchedulerError::Receive(scheduler.guild_id),
        ),
        split_goes_on(scheduler, queues, SplitReply::Sent(route, Ok(()))) == SplitNext::Receive,
        split_goes_on(scheduler, queues, SplitReply::Sent(route, Err(TrySendError::Full)))
            == SplitNext::GiveUp,
        split_goes_on(scheduler, queues, SplitReply::Sent(route, Err(TrySendError::Closed)))
            == SplitNext::End(SchedulerError::Send(scheduler.guild_id, route)),
{
}

/// A task is carried out only where the guild is seen and Discord still takes requests; else the
/// connection waits as long as it is told to, and looks again.
pub proof fn law_limits_are_kept(
    scheduler: TaskScheduler,
    route: TaskRoute,
    reply: HttpReply,
    remaining: i64,
    reset: Duration,
)
    ensures
        http_goes_on(scheduler, route, reply) is ReceiveAndRun <==> (reply matches HttpReply::Limit(
            Some((left, _)),
        ) && left > 0),
        remaining <= 0 ==> http_goes_on(
            scheduler,
            route,
            HttpReply::Limit(Some((remaining, Some(reset)))),
        ) == HttpNext::SleepForLimit(reset),
        http_goes_on(scheduler, route, HttpReply::SeesGuild(true)) == HttpNext::ReadLimit,
        http_goes_on(scheduler, route, HttpReply::SeesGuild(false)) == HttpNext::SleepForGuild(60),
        http_goes_on(scheduler, route, HttpReply::SleptForGuild) == HttpNext::CheckGuild,
        http_goes_on(scheduler, route, HttpReply::SleptForLimit) == HttpNext::ReadLimit,
        http_goes_on(scheduler, route, HttpReply::Ran(true)) == HttpNext::ReadLimit,
        http_goes_on(scheduler, route, HttpReply::Ran(false)) == HttpNext::CheckGuild,
        http_goes_on(scheduler, route, reply) is End ==> (reply matches HttpReply::Limit(limit) && (
        limit is None || (limit matches Some((left, after)) && left <= 0 && after is None))),
        http_goes_on(scheduler, route, HttpReply::Limit(None)) is End,
        remaining <= 0 ==> http_goes_on(
            scheduler,
            route,
            HttpReply::Limit(Some((remaining, None))),
        ) is End,
{
}

/// Every kind of request is served, once, by its route in the scheduler's channel.
pub proof fn law_every_kind_is_served(scheduler: TaskScheduler, route: TaskRoute, i: int, j: int)
    ensures
        routes_of(scheduler).contains((route, route.route_in(scheduler.channel_id))),
        0 <= i < j < routes_of(scheduler).len() ==> routes_of(scheduler)[i].0 != routes_of(
            scheduler,
        )[j].0,
        0 <= i < routes_of(scheduler).len() ==> routes_of(scheduler)[i].1 == routes_of(
            scheduler,
        )[i].0.route_in(scheduler.channel_id),
{
    law_every_kind_is_sorted(route);
    let k = choose|k: int| 0 <= k < all_routes().len() && all_routes()[k] == route;
    assert(routes_of(scheduler)[k] == (route, route.route_in(scheduler.channel_id)));
}

} // verus!
