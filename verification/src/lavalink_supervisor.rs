//! The Lavalink clients of all bots.
use crate::ids::{ClientId, UserId};
use std::collections::HashMap;
use vstd::prelude::*;
use vstd::std_specs::iter::IteratorSpec;

verus! {

/// Which client each bot has. A bot whose client could not be built has none.
pub struct LavalinkSupervisor {
    clients: HashMap<u64, Option<ClientId>>,
}

impl View for LavalinkSupervisor {
    type V = Map<u64, Option<ClientId>>;

    closed spec fn view(&self) -> Map<u64, Option<ClientId>> {
        self.clients@
    }
}

/// The clients that a list gives to bots; what stands later counts.
pub open spec fn clients_of(list: Seq<(UserId, Option<ClientId>)>) -> Map<u64, Option<ClientId>>
    decreases list.len(),
{
    if list.len() == 0 {
        Map::empty()
    } else {
        let (bot, client) = list.last();
        clients_of(list.drop_last()).insert(bot.0, client)
    }
}

/// Whether a bot's client is to be replaced: the bot is known, and its client is missing or is
/// the one that failed.
pub open spec fn is_stale(
    clients: Map<u64, Option<ClientId>>,
    bot: UserId,
    failed: ClientId,
) -> bool {
    clients.contains_key(bot.0) && match clients[bot.0] {
        Some(current) => current == failed,
        None => true,
    }
}

/// A bot's client, if the bot is known and has one.
pub open spec fn client_of(clients: Map<u64, Option<ClientId>>, bot: UserId) -> Option<ClientId> {
    if clients.contains_key(bot.0) {
        clients[bot.0]
    } else {
        None
    }
}

impl LavalinkSupervisor {
    /// A supervisor of the given bots, each with the client that was built for it.
    pub fn new(built: Vec<(UserId, Option<ClientId>)>) -> (r: LavalinkSupervisor)
        ensures
            r@ == clients_of(built@),
    {
        let mut clients: HashMap<u64, Option<ClientId>> = HashMap::new();
        let mut i: usize = 0;
        assert(built@.take(0) =~= Seq::empty());
        while i < built.len()
            invariant
                i <= built@.len(),
                clients@ == clients_of(built@.take(i as int)),
            decreases built.len() - i,
        {
            let (bot, client) = built[i];
            clients.insert(bot.0, client);
            assert(built@.take(i + 1).drop_last() =~= built@.take(i as int));
            i += 1;
        }
        assert(built@.take(i as int) =~= built@);
        LavalinkSupervisor { clients }
    }

    /// All bots, each once. In which order is left open.
    pub fn get_bots(&self) -> (r: Vec<UserId>)
        ensures
            r@.no_duplicates(),
            forall|bot: UserId| r@.contains(bot) <==> self@.contains_key(bot.0),
    {
        let mut r: Vec<UserId> = Vec::new();
        let ghost walked = self.clients.keys().remaining();
        for key in it: self.clients.keys()
            invariant
                it.seq() == walked,
                r@.len() == it.index(),
                forall|i: int| 0 <= i < r@.len() ==> (#[trigger] r@[i]).0 == *walked[i],
        {
            r.push(UserId(*key));
        }
        proof {
            assert(walked.no_duplicates());
            assert forall|i: int, j: int| 0 <= i < r@.len() && 0 <= j < r@.len() && i
                != j implies r@[i] != r@[j] by {
                assert(walked[i] != walked[j]);
            }
            assert forall|bot: UserId| r@.contains(bot) <==> self@.contains_key(bot.0) by {
                if r@.contains(bot) {
                    let i = r@.index_of(bot);
                    assert(walked.unref().to_set().contains(*walked[i])) by {
                        assert(walked.unref()[i] == *walked[i]);
                    }
                }
                if self@.contains_key(bot.0) {
                    assert(walked.unref().to_set().contains(bot.0));
                    let i = walked.unref().index_of(bot.0);
                    assert(walked.unref()[i] == *walked[i]);
                    assert(r@[i] == bot);
                }
            }
        }
        r
    }

    /// The client that a bot has now.
    pub fn request_current(&self, bot: UserId) -> (r: Option<ClientId>)
        ensures
            r == client_of(self@, bot),
    {
        match self.clients.get(&bot.0) {
            Some(client) => *client,
            None => None,
        }
    }

    /// Whether a new client has to be built for a bot whose client failed. It has not where
    /// somebody replaced the client meanwhile, or where the bot is not known.
    pub fn needs_new(&self, bot: UserId, failed: ClientId) -> (r: bool)
        ensures
            r == is_stale(self@, bot, failed),
    {
        match self.clients.get(&bot.0) {
            Some(Some(current)) => *current == failed,
            Some(None) => true,
            None => false,
        }
    }

    /// Takes the client that was built for a bot whose client failed, and returns the one that the
    /// bot has from now on. A client that somebody else put in meanwhile stays.
    pub fn request_new(
        &mut self,
        bot: UserId,
        failed: ClientId,
        built: Option<ClientId>,
    ) -> (r: Option<ClientId>)
        ensures
            final(self)@ == renewed(old(self)@, bot, failed, built),
            r == client_of(final(self)@, bot),
    {
        if self.needs_new(bot, failed) {
            self.clients.insert(bot.0, built);
        }
        self.request_current(bot)
    }
}

/// The clients after a client of a bot was reported to have failed, and another was built or not.
pub open spec fn renewed(
    clients: Map<u64, Option<ClientId>>,
    bot: UserId,
    failed: ClientId,
    built: Option<ClientId>,
) -> Map<u64, Option<ClientId>> {
    if is_stale(clients, bot, failed) {
        clients.insert(bot.0, built)
    } else {
        clients
    }
}

/// Two callers that report the same failed client replace it once: whoever comes second, with a
/// client in place that is not the failed one, changes nothing and gets what the first put in.
pub proof fn law_second_report_changes_nothing(
    clients: Map<u64, Option<ClientId>>,
    bot: UserId,
    failed: ClientId,
    built: ClientId,
)
    requires
        is_stale(clients, bot, failed),
        built != failed,
    ensures
        !is_stale(clients.insert(bot.0, Some(built)), bot, failed),
        client_of(clients.insert(bot.0, Some(built)), bot) == Some(built),
{
}

/// Of several clients of a bot the last that is listed counts; bots that are not listed have none.
pub proof fn law_last_client_counts(
    list: Seq<(UserId, Option<ClientId>)>,
    bot: UserId,
    client: Option<ClientId>,
    other: UserId,
)
    ensures
        client_of(clients_of(list.push((bot, client))), bot) == client,
        clients_of(list.push((bot, client))).contains_key(bot.0),
        other.0 != bot.0 ==> client_of(clients_of(list.push((bot, client))), other) == client_of(
            clients_of(list),
            other,
        ),
        other.0 != bot.0 ==> (clients_of(list.push((bot, client))).contains_key(other.0)
            <==> clients_of(list).contains_key(other.0)),
        !clients_of(Seq::empty()).contains_key(bot.0),
{
    assert(list.push((bot, client)).drop_last() =~= list);
}

/// A bot's client is to be replaced where it is the one that failed or where there is none; a client
/// that took its place already stays, and so does a bot that is not known.
pub proof fn law_only_failed_clients_are_stale(
    clients: Map<u64, Option<ClientId>>,
    bot: UserId,
    failed: ClientId,
)
    ensures
        !clients.contains_key(bot.0) ==> !is_stale(clients, bot, failed) && client_of(clients, bot)
            is None,
        clients.contains_key(bot.0) ==> client_of(clients, bot) == clients[bot.0],
        clients.contains_key(bot.0) && clients[bot.0] is None ==> is_stale(clients, bot, failed),
        clients.contains_key(bot.0) && clients[bot.0] is Some ==> (is_stale(clients, bot, failed)
            <==> clients[bot.0] == Some(failed)),
{
}

/// The client that was built takes the place of the one that failed, where that one is still in use;
/// a client that took its place already, and the clients of other bots, stay.
pub proof fn law_failed_clients_are_replaced(
    clients: Map<u64, Option<ClientId>>,
    bot: UserId,
    failed: ClientId,
    current: ClientId,
    built: Option<ClientId>,
    other: UserId,
)
    ensures
        client_of(clients, bot) == Some(failed) ==> client_of(
            renewed(clients, bot, failed, built),
            bot,
        ) == built,
        client_of(clients, bot) == Some(current) && current != failed ==> renewed(
            clients,
            bot,
            failed,
            built,
        ) == clients,
        clients.contains_key(bot.0) && clients[bot.0] is None ==> client_of(
            renewed(clients, bot, failed, built),
            bot,
        ) == built,
        !clients.contains_key(bot.0) ==> renewed(clients, bot, failed, built) == clients,
        other.0 != bot.0 ==> client_of(renewed(clients, bot, failed, built), other) == client_of(
            clients,
            other,
        ),
        renewed(clients, bot, failed, built).dom() == clients.dom(),
{
    assert(renewed(clients, bot, failed, built).dom() =~= clients.dom());
}

} // verus!
