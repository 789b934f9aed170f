use reciprocity_bot::discord::ReactionType;
use reciprocity_bot::guild::scheduler::{
    GuildScheduler, RouteScheduler, SchedulerError as GuildSchedulerError, TrySendError, WorkerNext,
    WorkerReply,
};
use reciprocity_bot::ids::{ChannelId, GuildId, MessageId, UserId};
use reciprocity_bot::scheduler::{
    HttpNext, HttpReply, SchedulerError, SplitNext, SplitReply, TaskScheduler,
};
use reciprocity_bot::task_handle::{
    AddMessageReactionTask, DeleteMessagePoolTask, DeleteMessageReactionTask, Deletion, Route,
    SendNext, SendReply, SendSearchMessage, Task, TaskHandle, TaskHandlerError, TaskRoute,
};
use std::time::Duration;

fn pool(n: u64) -> Vec<MessageId> {
    (0..n).map(MessageId).collect()
}

fn flat(deletions: &[Deletion]) -> Vec<MessageId> {
    let mut all = vec![];
    for d in deletions {
        match d {
            Deletion::Single(m) => all.push(*m),
            Deletion::Bulk(ms) => all.extend(ms.iter().copied()),
        }
    }
    all
}

#[test]
fn pools_are_deleted_a_hundred_at_a_time() {
    let task = DeleteMessagePoolTask { channel: ChannelId(1) };
    assert!(task.run(pool(0)).is_empty());
    assert!(matches!(task.run(pool(1))[..], [Deletion::Single(MessageId(0))]));
    for n in vec![2, 99, 100, 101, 102, 200, 201, 250] {
        let r = task.run(pool(n));
        assert_eq!(flat(&r), pool(n));
        assert_eq!(r.len() as u64, (n + 99) / 100);
        for d in &r {
            if let Deletion::Bulk(ms) = d {
                assert!(ms.len() >= 2 && ms.len() <= 100);
            }
        }
    }
    assert!(matches!(task.run(pool(101))[1], Deletion::Single(MessageId(100))));
}

#[test]
fn deleting_a_pool_comes_to_its_last_request() {
    assert!(DeleteMessagePoolTask::outcome(vec![]).is_ok());
    assert!(DeleteMessagePoolTask::outcome(vec![Err("a".to_string()), Ok(())]).is_ok());
    assert_eq!(
        DeleteMessagePoolTask::outcome(vec![Ok(()), Err("b".to_string())]),
        Err("b".to_string())
    );
}

#[test]
fn tasks_know_their_route() {
    let reaction = ReactionType::Unicode("x".to_string());
    let delete = DeleteMessageReactionTask {
        channel: ChannelId(1),
        message: MessageId(2),
        user: UserId(3),
        reaction: reaction.clone(),
    };
    let add = AddMessageReactionTask { channel: ChannelId(1), message: MessageId(2), reaction };
    let send = SendSearchMessage { channel: ChannelId(1), text: "t".to_string(), uuid: 9 };
    assert_eq!(delete.route(), TaskRoute::ChannelMessageReaction);
    assert_eq!(add.route(), TaskRoute::ChannelMessageReactionSelf);
    assert_eq!(send.route(), TaskRoute::ChannelMessage);
    let pool = DeleteMessagePoolTask { channel: ChannelId(1) };
    assert_eq!(pool.route(), TaskRoute::ChannelMessagesBulkDelete);
    let scheduler = GuildScheduler::new();
    let mut places = vec![
        scheduler.process_enqueue(&delete).unwrap(),
        scheduler.process_enqueue(&add).unwrap(),
        scheduler.process_enqueue(&send).unwrap(),
        scheduler.process_enqueue(&pool).unwrap(),
    ];
    places.sort();
    assert_eq!(places, vec![0, 1, 2, 3]);
}

#[test]
fn routes_are_named_by_channel() {
    let (ch, guild) = (ChannelId(7), GuildId(1));
    let name = |r: TaskRoute| r.get_serenity_route(ch, guild);
    assert_eq!(
        name(TaskRoute::ChannelMessageReaction),
        Route::ChannelsIdMessagesIdReactions(7)
    );
    assert_eq!(name(TaskRoute::ChannelMessage), Route::ChannelsIdMessages(7));
    assert_eq!(
        name(TaskRoute::ChannelMessageReactionSelf),
        Route::ChannelsIdMessagesIdReactionsUserIdType(7)
    );
    assert_eq!(
        name(TaskRoute::ChannelMessagesBulkDelete),
        Route::ChannelsIdMessagesBulkDelete(7)
    );
    assert_eq!(TaskRoute::iter().len(), 4);
}

#[test]
fn a_search_message_is_sent_while_it_matters() {
    let send = SendSearchMessage { channel: ChannelId(1), text: "t".to_string(), uuid: 9 };
    assert!(matches!(
        send.run(SendReply::Relevant(true)),
        SendNext::Send(ChannelId(1), text) if text == "t"
    ));
    assert!(matches!(send.run(SendReply::Relevant(false)), SendNext::Done(None, Ok(()))));
    assert!(matches!(
        send.run(SendReply::Sent(Ok(MessageId(5)))),
        SendNext::Done(Some(MessageId(5)), Ok(()))
    ));
    assert!(matches!(
        send.run(SendReply::Sent(Err("no".to_string()))),
        SendNext::Done(None, Err(_))
    ));
}

#[test]
fn whoever_waits_for_a_task_hears_once() {
    let mut done = TaskHandle::new("job");
    let task = done.begin().unwrap();
    assert!(done.begin().is_none());
    let (told, outcome) = done.run(task, Ok(()));
    assert!(matches!(told, Some(Ok("job"))));
    assert!(outcome.is_ok());
    assert!(done.drop_task().is_none());
    let (told, _) = done.run("job", Ok(()));
    assert!(told.is_none());

    let mut failed = TaskHandle::new("job");
    let task = failed.begin().unwrap();
    let (told, outcome) = failed.run(task, Err("down".to_string()));
    assert!(matches!(told, Some(Err(TaskHandlerError::FailedExecution(e))) if e == "down"));
    assert!(outcome.is_err());

    let mut dropped = TaskHandle::new("job");
    assert!(matches!(dropped.drop_task(), Some(TaskHandlerError::Dropped(Some("job")))));
    assert!(dropped.drop_task().is_none());
    let mut begun = TaskHandle::new("job");
    begun.begin();
    assert!(matches!(begun.drop_task(), Some(TaskHandlerError::Dropped(None))));
}

#[test]
fn processing_comes_to_what_the_task_came_to() {
    let full: Result<(), GuildSchedulerError<&str>> =
        RouteScheduler::enqueue(Err(TrySendError::Full));
    assert!(matches!(full, Err(GuildSchedulerError::SendError(TrySendError::Full))));
    let refused = GuildScheduler::process(full, Some(Ok("job")));
    assert!(matches!(refused, Err(GuildSchedulerError::SendError(TrySendError::Full))));
    let taken = || RouteScheduler::enqueue::<&str>(Ok(()));
    assert!(matches!(GuildScheduler::process(taken(), Some(Ok("job"))), Ok("job")));
    assert!(matches!(
        GuildScheduler::process(taken(), None),
        Err(GuildSchedulerError::TaskResultReceiveError())
    ));
    assert!(matches!(
        GuildScheduler::process(taken(), Some(Err(TaskHandlerError::Dropped(None)))),
        Err(GuildSchedulerError::TaskHandlerError(_))
    ));
}

#[test]
fn a_bot_takes_tasks_of_guilds_it_sees() {
    let second = Duration::from_secs(1);
    assert!(matches!(RouteScheduler::serve(WorkerReply::Begin), WorkerNext::ReadLimit));
    assert!(matches!(
        RouteScheduler::serve(WorkerReply::Limit(Some((0, Some(second))))),
        WorkerNext::Sleep(d) if d == second
    ));
    assert!(matches!(
        RouteScheduler::serve(WorkerReply::Limit(Some((1, Some(second))))),
        WorkerNext::Wait
    ));
    assert!(matches!(
        RouteScheduler::serve(WorkerReply::Limit(Some((0, None)))),
        WorkerNext::Wait
    ));
    assert!(matches!(RouteScheduler::serve(WorkerReply::Limit(None)), WorkerNext::Wait));
    assert!(matches!(RouteScheduler::serve(WorkerReply::Slept), WorkerNext::Wait));
    assert!(matches!(RouteScheduler::serve(WorkerReply::Waiting(true)), WorkerNext::CheckGuild));
    assert!(matches!(RouteScheduler::serve(WorkerReply::Waiting(false)), WorkerNext::Stop));
    assert!(matches!(RouteScheduler::serve(WorkerReply::SeesGuild(true)), WorkerNext::Take));
    assert!(matches!(
        RouteScheduler::serve(WorkerReply::SeesGuild(false)),
        WorkerNext::ReadLimit
    ));
    assert!(matches!(RouteScheduler::serve(WorkerReply::Taken(true)), WorkerNext::Run));
    assert!(matches!(RouteScheduler::serve(WorkerReply::Taken(false)), WorkerNext::Stop));
    assert!(matches!(RouteScheduler::serve(WorkerReply::Ran), WorkerNext::ReadLimit));
}

#[test]
fn tasks_are_sorted_by_kind() {
    let s = TaskScheduler::new(GuildId(1), ChannelId(7));
    let made = s.run_async();
    assert_eq!(made.len(), 4);
    assert_eq!(made[1], (TaskRoute::ChannelMessage, Route::ChannelsIdMessages(7)));
    let queues: Vec<TaskRoute> = made.iter().map(|(r, _)| *r).collect();
    let route = TaskRoute::ChannelMessage;
    assert_eq!(
        s.split_receive(&queues, SplitReply::Received(None)),
        SplitNext::End(SchedulerError::Receive(GuildId(1)))
    );
    assert_eq!(
        s.split_receive(&queues, SplitReply::Received(Some(route))),
        SplitNext::Send(route)
    );
    assert_eq!(
        s.split_receive(&vec![], SplitReply::Received(Some(route))),
        SplitNext::GiveUp
    );
    assert_eq!(s.split_receive(&queues, SplitReply::Sent(route, Ok(()))), SplitNext::Receive);
    assert_eq!(
        s.split_receive(&queues, SplitReply::Sent(route, Err(TrySendError::Full))),
        SplitNext::GiveUp
    );
    assert_eq!(
        s.split_receive(&queues, SplitReply::Sent(route, Err(TrySendError::Closed))),
        SplitNext::End(SchedulerError::Send(GuildId(1), route))
    );
}

#[test]
fn a_connection_heeds_guild_and_limit() {
    let s = TaskScheduler::new(GuildId(1), ChannelId(7));
    let step = |reply| s.task_http_loop(TaskRoute::ChannelMessage, reply);
    assert!(matches!(step(HttpReply::SeesGuild(false)), HttpNext::SleepForGuild(60)));
    assert!(matches!(step(HttpReply::SleptForGuild), HttpNext::CheckGuild));
    assert!(matches!(step(HttpReply::SeesGuild(true)), HttpNext::ReadLimit));
    assert!(matches!(
        step(HttpReply::Limit(None)),
        HttpNext::End(SchedulerError::RateLimit(
            Route::ChannelsIdMessages(7),
            GuildId(1),
            ChannelId(7)
        ))
    ));
    assert!(matches!(step(HttpReply::Limit(Some((1, None)))), HttpNext::ReceiveAndRun));
    assert!(matches!(
        step(HttpReply::Limit(Some((0, None)))),
        HttpNext::End(SchedulerError::ResetTime(_, _, _))
    ));
    let second = Duration::from_secs(1);
    assert!(matches!(
        step(HttpReply::Limit(Some((0, Some(second))))),
        HttpNext::SleepForLimit(d) if d == second
    ));
    assert!(matches!(step(HttpReply::SleptForLimit), HttpNext::ReadLimit));
    assert!(matches!(step(HttpReply::Ran(true)), HttpNext::ReadLimit));
    assert!(matches!(step(HttpReply::Ran(false)), HttpNext::CheckGuild));
}
