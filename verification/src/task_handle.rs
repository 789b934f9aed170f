//! Tasks that wait for a bot to carry them out.
use crate::discord::ReactionType;
use crate::ids::{ChannelId, GuildId, MessageId, UserId};
use vstd::prelude::*;

verus! {

/// The kinds of requests whose rate Discord limits each on its own.
#[derive(Clone, Copy, Debug, PartialEq, Eq, Structural)]
pub enum TaskRoute {
    ChannelMessageReaction,
    ChannelMessage,
    ChannelMessageReactionSelf,
    ChannelMessagesBulkDelete,
}

/// Discord's name for such a kind in one channel.
#[derive(Clone, Copy, Debug, PartialEq, Eq, Structural)]
pub enum Route {
    ChannelsIdMessagesIdReactions(u64),
    ChannelsIdMessages(u64),
    ChannelsIdMessagesIdReactionsUserIdType(u64),
    ChannelsIdMessagesBulkDelete(u64),
}

impl TaskRoute {
    /// All kinds.
    pub fn iter() -> (r: Vec<TaskRoute>)
        ensures
            r@ == all_routes(),
    {
        let mut r: Vec<TaskRoute> = Vec::new();
        r.push(TaskRoute::ChannelMessageReaction);
        r.push(TaskRoute::ChannelMessage);
        r.push(TaskRoute::ChannelMessageReactionSelf);
        r.push(TaskRoute::ChannelMessagesBulkDelete);
        assert(r@ =~= all_routes());
        r
    }

    /// Discord's name for a kind in a channel.
    pub open spec fn route_in(self, channel: ChannelId) -> Route {
        match self {
            TaskRoute::ChannelMessageReaction => Route::ChannelsIdMessagesIdReactions(channel.0),
            TaskRoute::ChannelMessage => Route::ChannelsIdMessages(channel.0),
            TaskRoute::ChannelMessageReactionSelf => Route::ChannelsIdMessagesIdReactionsUserIdType(
                channel.0,
            ),
            TaskRoute::ChannelMessagesBulkDelete => Route::ChannelsIdMessagesBulkDelete(channel.0),
        }
    }

    /// Discord's name for the kind in a channel; the guild makes no difference.
    pub fn get_serenity_route(&self, channel: ChannelId, _guild: GuildId) -> (r: Route)
        ensures
            r == self.route_in(channel),
    {
        match self {
            TaskRoute::ChannelMessageReaction => Route::ChannelsIdMessagesIdReactions(channel.0),
            TaskRoute::ChannelMessage => Route::ChannelsIdMessages(channel.0),
            TaskRoute::ChannelMessageReactionSelf => Route::ChannelsIdMessagesIdReactionsUserIdType(
                channel.0,
            ),
            TaskRoute::ChannelMessagesBulkDelete => Route::ChannelsIdMessagesBulkDelete(channel.0),
        }
    }
}

/// All kinds, in the order in which they are declared.
pub open spec fn all_routes() -> Seq<TaskRoute> {
    seq![
        TaskRoute::ChannelMessageReaction,
        TaskRoute::ChannelMessage,
        TaskRoute::ChannelMessageReactionSelf,
        TaskRoute::ChannelMessagesBulkDelete,
    ]
}

/// Every kind is listed, and no two kinds or channels share a name.
pub proof fn law_routes_are_complete_and_distinct(
    a: TaskRoute,
    b: TaskRoute,
    c: ChannelId,
    d: ChannelId,
)
    ensures
        all_routes().contains(a),
        all_routes().no_duplicates(),
        a.route_in(c) == b.route_in(d) ==> a == b && c == d,
{
    match a {
        TaskRoute::ChannelMessageReaction => assert(all_routes()[0] == a),
        TaskRoute::ChannelMessage => assert(all_routes()[1] == a),
        TaskRoute::ChannelMessageReactionSelf => assert(all_routes()[2] == a),
        TaskRoute::ChannelMessagesBulkDelete => assert(all_routes()[3] == a),
    }
}

/// Something that a bot is to do, and the kind of request that it takes.
pub trait Task {
    /// The kind of request that the task takes.
    spec fn spec_route(&self) -> TaskRoute;

    /// The kind of request that the task takes.
    fn route(&self) -> (r: TaskRoute)
        ensures
            r == self.spec_route(),
    ;
}

/// Takes a user's reaction away.
#[derive(Debug)]
pub struct DeleteMessageReactionTask {
    pub channel: ChannelId,
    pub message: MessageId,
    pub user: UserId,
    pub reaction: ReactionType,
}

impl Task for DeleteMessageReactionTask {
    open spec fn spec_route(&self) -> TaskRoute {
        TaskRoute::ChannelMessageReaction
    }

    fn route(&self) -> (r: TaskRoute) {
        TaskRoute::ChannelMessageReaction
    }
}

/// Deletes the messages that wait for it in a channel.
#[derive(Clone, Copy, Debug)]
pub struct DeleteMessagePoolTask {
    pub channel: ChannelId,
}

impl Task for DeleteMessagePoolTask {
    open spec fn spec_route(&self) -> TaskRoute {
        TaskRoute::ChannelMessagesBulkDelete
    }

    fn route(&self) -> (r: TaskRoute) {
        TaskRoute::ChannelMessagesBulkDelete
    }
}

/// Adds a reaction of the bot's own.
#[derive(Debug)]
pub struct AddMessageReactionTask {
    pub channel: ChannelId,
    pub message: MessageId,
    pub reaction: ReactionType,
}

impl Task for AddMessageReactionTask {
    open spec fn spec_route(&self) -> TaskRoute {
        TaskRoute::ChannelMessageReactionSelf
    }

    fn route(&self) -> (r: TaskRoute) {
        TaskRoute::ChannelMessageReactionSelf
    }
}

/// Sends the message of a search with a number.
#[derive(Debug)]
pub struct SendSearchMessage {
    pub channel: ChannelId,
    pub text: String,
    pub uuid: u128,
}

impl Task for SendSearchMessage {
    open spec fn spec_route(&self) -> TaskRoute {
        TaskRoute::ChannelMessage
    }

    fn route(&self) -> (r: TaskRoute) {
        TaskRoute::ChannelMessage
    }
}

/// What has happened while a search message is sent.
pub enum SendReply {
    /// Whether the search is still anybody's.
    Relevant(bool),
    /// Discord took the message, or refused it.
    Sent(Result<MessageId, String>),
}

/// What follows.
pub enum SendNext {
    /// The text is sent to the channel.
    Send(ChannelId, String),
    /// Whoever waits is told of the message, if there is one, and the task ends.
    Done(Option<MessageId>, Result<(), String>),
}

impl SendSearchMessage {
    /// Sends the message of a search, unless the search is nobody's any more. Whoever waits is
    /// told of a message only where it was sent.
    pub fn run(&self, reply: SendReply) -> (r: SendNext)
        ensures
            sending_goes_on(*self, reply, r),
    {
        match reply {
            SendReply::Relevant(relevant) => if relevant {
                SendNext::Send(self.channel, self.text.clone())
            } else {
                SendNext::Done(None, Ok(()))
            },
            SendReply::Sent(Ok(message)) => SendNext::Done(Some(message), Ok(())),
            SendReply::Sent(Err(e)) => SendNext::Done(None, Err(e)),
        }
    }
}

/// How many messages one request deletes at most.
pub const BULK_LIMIT: usize = 100;

/// One request that deletes messages.
#[derive(Debug)]
pub enum Deletion {
    Single(MessageId),
    Bulk(Vec<MessageId>),
}

/// The messages that a request deletes.
pub open spec fn deleted_by(deletion: Deletion) -> Seq<MessageId> {
    match deletion {
        Deletion::Single(message) => seq![message],
        Deletion::Bulk(messages) => messages@,
    }
}

/// The messages that requests delete, in order.
pub open spec fn deleted_by_all(deletions: Seq<Deletion>) -> Seq<MessageId>
    decreases deletions.len(),
{
    if deletions.len() == 0 {
        Seq::empty()
    } else {
        deleted_by_all(deletions.drop_last()) + deleted_by(deletions.last())
    }
}

/// How many requests a pool of so many messages takes: full ones as long as more than a full one
/// is left, and one for the rest.
pub open spec fn deletions_for(n: nat) -> nat
    decreases n,
{
    if n == 0 {
        0
    } else if n <= BULK_LIMIT {
        1
    } else {
        1 + deletions_for((n - BULK_LIMIT) as nat)
    }
}

/// Whether a request is one that Discord takes: a single message by itself, several up to the
/// limit together.
pub open spec fn is_well_sized(deletion: Deletion) -> bool {
    deletion matches Deletion::Bulk(messages) ==> 2 <= messages@.len() <= BULK_LIMIT
}

impl DeleteMessagePoolTask {
    /// The requests that delete a pool, in order. They delete each message of the pool once and in
    /// its order; all but the last are full.
    pub fn run(&self, pool: Vec<MessageId>) -> (r: Vec<Deletion>)
        ensures
            pool_deleted(pool@, r@),
    {
        let mut r: Vec<Deletion> = Vec::new();
        let mut done: usize = 0;
        assert(pool@.take(0) =~= Seq::empty());
        while pool.len() - done > BULK_LIMIT
            invariant
                done <= pool@.len(),
                deleted_by_all(r@) == pool@.take(done as int),
                r@.len() + deletions_for((pool@.len() - done) as nat) == deletions_for(
                    pool@.len(),
                ),
                forall|i: int| 0 <= i < r@.len() ==> is_well_sized(#[trigger] r@[i]),
                forall|i: int|
                    0 <= i < r@.len() ==> deleted_by(#[trigger] r@[i]).len() == BULK_LIMIT,
                pool@.len() > 0 ==> done < pool@.len(),
            decreases pool.len() - done,
        {
            let batch = copy_range(&pool, done, done + BULK_LIMIT);
            let ghost before = r@;
            r.push(Deletion::Bulk(batch));
            proof {
                assert(r@.drop_last() =~= before);
                assert(pool@.take(done + BULK_LIMIT) =~= pool@.take(done as int) + batch@);
            }
            done += BULK_LIMIT;
        }
        let left: usize = pool.len() - done;
        if left > 0 {
            let ghost before = r@;
            if left == 1 {
                r.push(Deletion::Single(pool[done]));
            } else {
                let batch = copy_range(&pool, done, pool.len());
                r.push(Deletion::Bulk(batch));
            }
            proof {
                assert(r@.drop_last() =~= before);
                assert(pool@ =~= pool@.take(done as int) + deleted_by(r@.last()));
            }
        } else {
            assert(pool@.take(done as int) =~= pool@);
        }
        r
    }

    /// What deleting a pool comes to: what the last request came to. Failures before it are passed
    /// over, and there is nothing to fail where there was nothing to delete.
    pub fn outcome(results: Vec<Result<(), String>>) -> (r: Result<(), String>)
        ensures
            is_outcome(results@, r),
    {
        let mut results = results;
        match results.pop() {
            Some(last) => last,
            None => Ok(()),
        }
    }
}

/// A part of a list.
fn copy_range(pool: &Vec<MessageId>, from: usize, to: usize) -> (r: Vec<MessageId>)
    requires
        from <= to <= pool@.len(),
    ensures
        r@ == pool@.subrange(from as int, to as int),
{
    let mut r: Vec<MessageId> = Vec::new();
    let mut i: usize = from;
    while i < to
        invariant
            from <= i <= to <= pool@.len(),
            r@ == pool@.subrange(from as int, i as int),
        decreases to - i,
    {
        r.push(pool[i]);
        i += 1;
        assert(r@ =~= pool@.subrange(from as int, i as int));
    }
    r
}

/// Why a task came to nothing.
#[derive(Debug)]
pub enum TaskHandlerError<T> {
    FailedExecution(String),
    /// Nobody carried the task out; where it was not begun, it is handed back.
    Dropped(Option<T>),
}

/// A task with somebody who waits for what becomes of it.
#[derive(Debug)]
pub struct TaskHandle<T> {
    waiting: bool,
    task: Option<T>,
}

impl<T> TaskHandle<T> {
    /// Whether somebody still waits.
    pub closed spec fn is_awaited(self) -> bool {
        self.waiting
    }

    /// The task, unless somebody took it to carry it out.
    pub closed spec fn spec_task(self) -> Option<T> {
        self.task
    }

    /// A task that somebody waits for.
    pub fn new(task: T) -> (r: TaskHandle<T>)
        ensures
            r.is_awaited(),
            r.spec_task() == Some(task),
    {
        TaskHandle { waiting: true, task: Some(task) }
    }

    /// Takes the task to carry it out.
    pub fn begin(&mut self) -> (r: Option<T>)
        ensures
            r == old(self).spec_task(),
            final(self).spec_task() is None,
            final(self).is_awaited() == old(self).is_awaited(),
    {
        self.task.take()
    }

    /// Takes what carrying out the task came to. Returns what whoever waits is told, and what the
    /// run comes to.
    pub fn run(&mut self, task: T, result: Result<(), String>) -> (r: (
        Option<Result<T, TaskHandlerError<T>>>,
        Result<(), ()>,
    ))
        ensures
            r.0 == told_of(old(self).is_awaited(), task, result),
            r.1 is Ok <==> result is Ok,
            !final(self).is_awaited(),
            final(self).spec_task() == old(self).spec_task(),
    {
        let outcome: Result<(), ()> = match &result {
            Ok(_) => Ok(()),
            Err(_) => Err(()),
        };
        if self.waiting {
            self.waiting = false;
            let told = match result {
                Ok(_) => Ok(task),
                Err(e) => Err(TaskHandlerError::FailedExecution(e)),
            };
            (Some(told), outcome)
        } else {
            (None, outcome)
        }
    }

    /// Gives the task up. Whoever still waits is told so, and gets the task back where it was not
    /// begun.
    pub fn drop_task(&mut self) -> (r: Option<TaskHandlerError<T>>)
        ensures
            r == told_when_dropped(old(self).is_awaited(), old(self).spec_task()),
            !final(self).is_awaited(),
            old(self).is_awaited() ==> final(self).spec_task() is None,
    {
        if self.waiting {
            self.waiting = false;
            Some(TaskHandlerError::Dropped(self.task.take()))
        } else {
            None
        }
    }
}

/// Each kind of request goes by its own route of Discord in the channel that it is for.
pub proof fn law_requests_go_by_their_routes(channel: ChannelId)
    ensures
        TaskRoute::ChannelMessageReaction.route_in(channel) == Route::ChannelsIdMessagesIdReactions(
            channel.0,
        ),
        TaskRoute::ChannelMessage.route_in(channel) == Route::ChannelsIdMessages(channel.0),
        TaskRoute::ChannelMessageReactionSelf.route_in(channel)
            == Route::ChannelsIdMessagesIdReactionsUserIdType(channel.0),
        TaskRoute::ChannelMessagesBulkDelete.route_in(channel)
            == Route::ChannelsIdMessagesBulkDelete(channel.0),
{
}

/// Deletions delete one after another what each of them names.
pub proof fn law_deletions_add_up(a: Seq<Deletion>, b: Seq<Deletion>, deletion: Deletion)
    ensures
        deleted_by_all(a + b) == deleted_by_all(a) + deleted_by_all(b),
        deleted_by_all(seq![deletion]) == match deletion {
            Deletion::Single(message) => seq![message],
            Deletion::Bulk(messages) => messages@,
        },
    decreases b.len(),
{
    let one = seq![deletion];
    reveal_with_fuel(deleted_by_all, 2);
    assert(one.drop_last() =~= Seq::<Deletion>::empty());
    assert(deleted_by_all(one) =~= deleted_by(deletion));
    if b.len() == 0 {
        assert(a + b =~= a);
        assert(deleted_by_all(a) + deleted_by_all(b) =~= deleted_by_all(a));
    } else {
        assert((a + b).drop_last() =~= a + b.drop_last());
        assert((a + b).last() == b.last());
        law_deletions_add_up(a, b.drop_last(), deletion);
        assert(deleted_by_all(a + b) =~= deleted_by_all(a) + deleted_by_all(b));
    }
}

/// As few deletions as possible are made, of at most a hundred messages each.
pub proof fn law_deletions_are_few(n: nat)
    ensures
        deletions_for(n) * 100 >= n,
        n > 0 ==> (deletions_for(n) - 1) * 100 < n,
        n == 0 ==> deletions_for(n) == 0,
    decreases n,
{
    if n > 100 {
        law_deletions_are_few((n - 100) as nat);
    }
}

/// Discord deletes two to a hundred messages at once.
pub proof fn law_bulk_deletions_are_well_sized(message: MessageId, messages: Vec<MessageId>)
    ensures
        is_well_sized(Deletion::Single(message)),
        is_well_sized(Deletion::Bulk(messages)) <==> 2 <= messages@.len() <= 100,
{
}

/// Whether a step in sending the message of a search was taken as it should.
pub open spec fn sending_goes_on(task: SendSearchMessage, reply: SendReply, r: SendNext) -> bool {
    match reply {
        SendReply::Relevant(true) => r matches SendNext::Send(channel, text) && channel
            == task.channel && text@ == task.text@,
        SendReply::Relevant(false) => r == SendNext::Done(None, Ok(())),
        SendReply::Sent(Ok(message)) => r == SendNext::Done(Some(message), Ok(())),
        SendReply::Sent(Err(e)) => r == SendNext::Done(None, Err(e)),
    }
}

/// What whoever waits for a task is told of it, if anybody does.
pub open spec fn told_of<T>(awaited: bool, task: T, result: Result<(), String>) -> Option<
    Result<T, TaskHandlerError<T>>,
> {
    if awaited {
        Some(
            match result {
                Ok(_) => Ok(task),
                Err(e) => Err(TaskHandlerError::FailedExecution(e)),
            },
        )
    } else {
        None
    }
}

/// What whoever waits for a task is told once it is dropped, if anybody does.
pub open spec fn told_when_dropped<T>(awaited: bool, task: Option<T>) -> Option<
    TaskHandlerError<T>,
> {
    if awaited {
        Some(TaskHandlerError::Dropped(task))
    } else {
        None
    }
}

/// Each task goes by the route of what it does.
pub proof fn law_tasks_have_their_routes(
    delete_reaction: DeleteMessageReactionTask,
    delete_pool: DeleteMessagePoolTask,
    add_reaction: AddMessageReactionTask,
    send: SendSearchMessage,
)
    ensures
        delete_reaction.spec_route() == TaskRoute::ChannelMessageReaction,
        delete_pool.spec_route() == TaskRoute::ChannelMessagesBulkDelete,
        add_reaction.spec_route() == TaskRoute::ChannelMessageReactionSelf,
        send.spec_route() == TaskRoute::ChannelMessage,
{
}

/// The message of a search is sent, with its text and to its channel, exactly where the search is
/// still somebody's. Whoever waits is told of a message exactly where Discord took it.
pub proof fn law_searches_are_sent_where_they_matter(
    task: SendSearchMessage,
    reply: SendReply,
    r: SendNext,
)
    requires
        sending_goes_on(task, reply, r),
    ensures
        r is Send <==> reply == SendReply::Relevant(true),
        r matches SendNext::Send(channel, text) ==> channel == task.channel && text@ == task.text@,
        reply == SendReply::Relevant(false) ==> r == SendNext::Done(None, Ok(())),
        reply matches SendReply::Sent(Ok(message)) ==> r == SendNext::Done(Some(message), Ok(())),
        reply matches SendReply::Sent(Err(e)) ==> r == SendNext::Done(None, Err(e)),
{
}

/// Whoever waits gets the task back where it was carried out, its error where it was not, and the
/// task itself, if it is left, where it was dropped. Where nobody waits, nobody is told.
pub proof fn law_whoever_waits_is_told<T>(
    task: T,
    result: Result<(), String>,
    error: String,
    left: Option<T>,
)
    ensures
        told_of(true, task, Ok(())) == Some(Ok::<T, TaskHandlerError<T>>(task)),
        told_of(true, task, Err(error)) == Some(
            Err::<T, TaskHandlerError<T>>(TaskHandlerError::FailedExecution(error)),
        ),
        told_of(false, task, result) is None,
        told_when_dropped(true, left) == Some(TaskHandlerError::Dropped(left)),
        told_when_dropped(false, left) is None,
{
}

/// Whether deletions delete a pool as they should: in order, in as few as possible, and each but the
/// last as large as can be.
pub open spec fn pool_deleted(pool: Seq<MessageId>, deletions: Seq<Deletion>) -> bool {
    &&& deleted_by_all(deletions) == pool
    &&& deletions.len() == deletions_for(pool.len())
    &&& forall|i: int| 0 <= i < deletions.len() ==> is_well_sized(#[trigger] deletions[i])
    &&& forall|i: int|
        0 <= i < deletions.len() - 1 ==> deleted_by(#[trigger] deletions[i]).len() == BULK_LIMIT
}

/// Whether a result is what several deletions came to: what the last of them did.
pub open spec fn is_outcome(results: Seq<Result<(), String>>, r: Result<(), String>) -> bool {
    &&& results.len() == 0 ==> r is Ok
    &&& results.len() > 0 ==> r == results.last()
}

/// Every message of a pool is deleted, and nothing else is; each deletion but the last is of a
/// hundred, none is of more, and there are no more of them than that takes.
pub proof fn law_whole_pool_is_deleted(
    pool: Seq<MessageId>,
    deletions: Seq<Deletion>,
    message: MessageId,
    i: int,
)
    requires
        pool_deleted(pool, deletions),
    ensures
        pool.contains(message) <==> deleted_by_all(deletions).contains(message),
        deleted_by_all(deletions).len() == pool.len(),
        deletions.len() * 100 >= pool.len(),
        pool.len() > 0 ==> (deletions.len() - 1) * 100 < pool.len(),
        0 <= i < deletions.len() ==> (deletions[i] matches Deletion::Bulk(messages) ==> 2
            <= messages@.len() <= 100),
        0 <= i < deletions.len() - 1 ==> (deletions[i] matches Deletion::Bulk(messages)
            && messages@.len() == 100),
{
    law_deletions_are_few(pool.len());
    if 0 <= i < deletions.len() - 1 {
        assert(deleted_by(deletions[i]).len() == 100);
    }
    if 0 <= i < deletions.len() {
        assert(is_well_sized(deletions[i]));
    }
}

/// Several deletions come to what the last of them did, and none come to no error.
pub proof fn law_last_deletion_decides(
    results: Seq<Result<(), String>>,
    last: Result<(), String>,
    r: Result<(), String>,
)
    ensures
        is_outcome(results.push(last), r) <==> r == last,
        is_outcome(Seq::empty(), r) <==> r is Ok,
{
}

} // verus!
