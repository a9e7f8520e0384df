//! Removes a user together with the user's links.

use vstd::prelude::*;

use crate::database::{user, user_station};
use crate::error::{Cause, Error};
use crate::exchange::{Asked, Replied, Reply, Request};
use crate::store::Store;

verus! {

/// How far a removal has come.
pub enum Removal {
    /// Waits for the user with this email address.
    FindingUser(Seq<char>),
    /// Waits for the user's links to go.
    DeletingLinks(i32),
    /// Waits for the user to go.
    DeletingUser(i32),
    /// Waits for nothing.
    Finished(Result<(), Error>),
}

impl Removal {
    /// Only the email address is known yet.
    pub open spec fn start(email: Seq<char>) -> Removal {
        Removal::FindingUser(email)
    }

    /// What is asked of the database next.
    pub open spec fn request(self) -> Option<Asked> {
        match self {
            Removal::FindingUser(email) => Some(Asked::FindUser(email)),
            Removal::DeletingLinks(user_id) => Some(Asked::DeleteUserStations(user_id)),
            Removal::DeletingUser(user_id) => Some(Asked::DeleteUser(user_id)),
            Removal::Finished(_) => None,
        }
    }

    /// Where the removal stands after a reply. A failure ends it, and so does a user who is not
    /// there. A reply that does not answer the request changes nothing.
    pub open spec fn next(self, reply: Replied) -> Removal {
        match (self, reply) {
            (Removal::Finished(_), _) => self,
            (_, Replied::Failed(cause)) => Removal::Finished(Err(Error::DbError(cause))),
            (Removal::FindingUser(_), Replied::Found(Some(user))) => Removal::DeletingLinks(
                user.id,
            ),
            (Removal::FindingUser(_), Replied::Found(None)) => Removal::Finished(Ok(())),
            (Removal::DeletingLinks(user_id), Replied::Done) => Removal::DeletingUser(user_id),
            (Removal::DeletingUser(_), Replied::Done) => Removal::Finished(Ok(())),
            _ => self,
        }
    }
}

enum State {
    FindingUser { email: String },
    DeletingLinks { user_id: i32 },
    DeletingUser { user_id: i32 },
    Finished { result: Result<(), Error> },
}

/// A removal on its way: it says what to ask of the database, and is told the reply.
pub struct UserRemoval {
    state: State,
}

impl View for UserRemoval {
    type V = Removal;

    closed spec fn view(&self) -> Removal {
        match self.state {
            State::FindingUser { email } => Removal::FindingUser(email@),
            State::DeletingLinks { user_id } => Removal::DeletingLinks(user_id),
            State::DeletingUser { user_id } => Removal::DeletingUser(user_id),
            State::Finished { result } => Removal::Finished(result),
        }
    }
}

impl UserRemoval {
    /// What to ask of the database next; nothing, once the removal has ended.
    pub fn request(&self) -> (result: Option<Request>)
        ensures
            match result {
                Some(request) => self@.request() == Some(request@),
                None => self@.request() is None,
            },
    {
        match &self.state {
            State::FindingUser { email } => Some(Request::FindUser(email.clone())),
            State::DeletingLinks { user_id } => Some(Request::DeleteUserStations(*user_id)),
            State::DeletingUser { user_id } => Some(Request::DeleteUser(*user_id)),
            State::Finished { .. } => None,
        }
    }

    /// Tells the removal what the database replied.
    pub fn resume(self, reply: Reply) -> (result: UserRemoval)
        ensures
            result@ == self@.next(reply@),
    {
        let state = match (self.state, reply) {
            (State::Finished { result }, _) => State::Finished { result },
            (_, Reply::Failed(cause)) => State::Finished { result: Err(Error::DbError(cause)) },
            (State::FindingUser { .. }, Reply::Found(Some(user))) => State::DeletingLinks {
                user_id: user.id,
            },
            (State::FindingUser { .. }, Reply::Found(None)) => State::Finished { result: Ok(()) },
            (State::DeletingLinks { user_id }, Reply::Done) => State::DeletingUser { user_id },
            (State::DeletingUser { .. }, Reply::Done) => State::Finished { result: Ok(()) },
            (state, _) => state,
        };
        UserRemoval { state }
    }

    /// How the removal ended, once nothing more is asked.
    pub fn finish(self) -> (result: Option<Result<(), Error>>)
        ensures
            match result {
                Some(result) => self@ == Removal::Finished(result),
                None => !(self@ is Finished),
            },
    {
        match self.state {
            State::Finished { result } => Some(result),
            _ => None,
        }
    }
}

/// Begins to remove the user with this email address.
pub fn remove_user_by_email(email: String) -> (result: UserRemoval)
    ensures
        result@ == Removal::start(email@),
{
    UserRemoval { state: State::FindingUser { email } }
}

/// Begins to remove a user who has been found.
pub fn delete_user(user: user::Model) -> (result: UserRemoval)
    ensures
        result@ == Removal::DeletingLinks(user.id),
{
    UserRemoval { state: State::DeletingLinks { user_id: user.id } }
}

/// The user and the user's links are gone, and nothing else has changed.
pub open spec fn is_removed(before: Store, after: Store, user_id: i32) -> bool {
    after == (Store {
        users: before.users.remove(user_id),
        links: before.links_but_of(user_id),
        ..before
    })
}

/// A removal against a database.
pub open spec fn is_run(stores: Seq<Store>, removals: Seq<Removal>, replies: Seq<Replied>) -> bool {
    &&& stores.len() == replies.len() + 1
    &&& removals.len() == replies.len() + 1
    &&& forall|i: int|
        0 <= i < replies.len() ==> is_step(
            stores[i],
            removals[i],
            #[trigger] replies[i],
            stores[i + 1],
            removals[i + 1],
        )
}

/// One request, served, and what the removal makes of the reply.
pub open spec fn is_step(
    store: Store,
    removal: Removal,
    reply: Replied,
    after: Store,
    next: Removal,
) -> bool {
    &&& removal.request() matches Some(request) && store.serves(request, reply, after)
    &&& next == removal.next(reply)
}

/// What holds at each moment of a removal.
spec fn is_on_its_way(before: Store, now: Store, email: Seq<char>, removal: Removal) -> bool {
    match removal {
        Removal::FindingUser(e) => e == email && now == before,
        Removal::DeletingLinks(user_id) => {
            &&& before.users.contains_key(user_id)
            &&& before.users[user_id] == email
            &&& now == before
        },
        Removal::DeletingUser(user_id) => {
            &&& before.users.contains_key(user_id)
            &&& before.users[user_id] == email
            &&& now == (Store { links: before.links_but_of(user_id), ..before })
        },
        Removal::Finished(result) => {
            &&& result is Ok
            &&& if before.has_email(email) {
                exists|user_id: i32| #[trigger]
                    before.users.contains_key(user_id) && before.users[user_id] == email
                        && is_removed(before, now, user_id)
            } else {
                now == before
            }
        },
    }
}

proof fn lemma_run(
    email: Seq<char>,
    stores: Seq<Store>,
    removals: Seq<Removal>,
    replies: Seq<Replied>,
    n: int,
)
    requires
        is_run(stores, removals, replies),
        removals[0] == Removal::start(email),
        0 <= n <= replies.len(),
    ensures
        is_on_its_way(stores[0], stores[n], email, removals[n]),
    decreases n,
{
    if n > 0 {
        lemma_run(email, stores, removals, replies, n - 1);
        let reply = replies[n - 1];
        assert(is_step(
            stores[n - 1],
            removals[n - 1],
            reply,
            stores[n - 1 + 1],
            removals[n - 1 + 1],
        ));
        match removals[n - 1] {
            Removal::DeletingUser(user_id) => {
                assert(stores[0].users.contains_key(user_id));
                assert(stores[n - 1].accepts(Asked::DeleteUser(user_id)));
            },
            _ => {},
        }
    }
}

/// A removal that ends against the database succeeds. Where a user has the email address, one such
/// user and all links of that user are gone; everything else is as it was.
pub proof fn law_removal_removes_user_and_links(
    email: Seq<char>,
    stores: Seq<Store>,
    removals: Seq<Removal>,
    replies: Seq<Replied>,
)
    requires
        is_run(stores, removals, replies),
        removals[0] == Removal::start(email),
        removals.last() is Finished,
    ensures
        removals.last() == Removal::Finished(Ok(())),
        if stores[0].has_email(email) {
            exists|user_id: i32| #[trigger]
                stores[0].users.contains_key(user_id) && stores[0].users[user_id] == email
                    && is_removed(stores[0], stores.last(), user_id)
        } else {
            stores.last() == stores[0]
        },
        stores[0].is_consistent() ==> stores.last().is_consistent(),
{
    lemma_run(email, stores, removals, replies, replies.len() as int);
    match removals.last() {
        Removal::Finished(Ok(unit)) => {
            assert(unit == ());
        },
        _ => {},
    }
}

/// At each moment of a removal, finished or not, the stations, the lines and the users with another
/// email address are as they were, and so are the links of those users. Nobody is added, and a user
/// is gone only once that user's links are.
pub proof fn law_removal_touches_one_user(
    email: Seq<char>,
    stores: Seq<Store>,
    removals: Seq<Removal>,
    replies: Seq<Replied>,
    n: int,
)
    requires
        is_run(stores, removals, replies),
        removals[0] == Removal::start(email),
        0 <= n < stores.len(),
    ensures
        stores[n].stations == stores[0].stations,
        stores[n].lines == stores[0].lines,
        forall|id: i32| #[trigger]
            stores[n].users.contains_key(id) ==> stores[0].users.contains_key(id)
                && stores[n].users[id] == stores[0].users[id],
        forall|id: i32| #[trigger]
            stores[0].users.contains_key(id) && stores[0].users[id] != email
                ==> stores[n].users.contains_key(id),
        forall|link: user_station::Model|
            stores[0].users.contains_key(link.user_id) && stores[0].users[link.user_id] != email
                ==> (#[trigger] stores[n].links.contains(link) <==> stores[0].links.contains(link)),
        forall|link: user_station::Model| #[trigger]
            stores[n].links.contains(link) && stores[0].users.contains_key(link.user_id)
                ==> stores[n].users.contains_key(link.user_id),
{
    lemma_run(email, stores, removals, replies, n);
}

/// Where no two users have the email address, nobody has it after a removal.
pub proof fn law_removed_address_is_unknown(
    email: Seq<char>,
    stores: Seq<Store>,
    removals: Seq<Removal>,
    replies: Seq<Replied>,
)
    requires
        is_run(stores, removals, replies),
        removals[0] == Removal::start(email),
        removals.last() is Finished,
        stores[0].is_unique(email),
    ensures
        !stores.last().has_email(email),
{
    law_removal_removes_user_and_links(email, stores, removals, replies);
    if stores.last().has_email(email) {
        let other = choose|id: i32| #[trigger]
            stores.last().users.contains_key(id) && stores.last().users[id] == email;
        assert(stores[0].users.contains_key(other) && stores[0].users[other] == email);
        let user_id = choose|user_id: i32| #[trigger]
            stores[0].users.contains_key(user_id) && stores[0].users[user_id] == email
                && is_removed(stores[0], stores.last(), user_id);
    }
}

/// What holds at each moment after a user has been found.
spec fn is_deleting(before: Store, now: Store, user_id: i32, removal: Removal) -> bool {
    match removal {
        Removal::FindingUser(_) => false,
        Removal::DeletingLinks(id) => id == user_id && now == before,
        Removal::DeletingUser(id) => id == user_id && now == (Store {
            links: before.links_but_of(user_id),
            ..before
        }),
        Removal::Finished(result) => result is Ok && is_removed(before, now, user_id),
    }
}

proof fn lemma_deletion_run(
    user_id: i32,
    stores: Seq<Store>,
    removals: Seq<Removal>,
    replies: Seq<Replied>,
    n: int,
)
    requires
        is_run(stores, removals, replies),
        removals[0] == Removal::DeletingLinks(user_id),
        0 <= n <= replies.len(),
    ensures
        is_deleting(stores[0], stores[n], user_id, removals[n]),
    decreases n,
{
    if n > 0 {
        lemma_deletion_run(user_id, stores, removals, replies, n - 1);
        let reply = replies[n - 1];
        assert(is_step(
            stores[n - 1],
            removals[n - 1],
            reply,
            stores[n - 1 + 1],
            removals[n - 1 + 1],
        ));
        match removals[n - 1] {
            Removal::DeletingUser(id) => {
                assert(stores[n - 1].accepts(Asked::DeleteUser(id)));
            },
            _ => {},
        }
    }
}

/// The deletion of a user who has been found, where it ends against the database, succeeds. The
/// user and all links of that user are gone; everything else is as it was.
pub proof fn law_deletion_removes_user_and_links(
    user_id: i32,
    stores: Seq<Store>,
    removals: Seq<Removal>,
    replies: Seq<Replied>,
)
    requires
        is_run(stores, removals, replies),
        removals[0] == Removal::DeletingLinks(user_id),
        removals.last() is Finished,
    ensures
        removals.last() == Removal::Finished(Ok(())),
        is_removed(stores[0], stores.last(), user_id),
        stores[0].is_consistent() ==> stores.last().is_consistent(),
{
    lemma_deletion_run(user_id, stores, removals, replies, replies.len() as int);
    match removals.last() {
        Removal::Finished(Ok(unit)) => {
            assert(unit == ());
        },
        _ => {},
    }
}

/// At each moment of the deletion of a user who has been found, finished or not, the stations, the
/// lines, the other users and their links are as they were, and the user is gone only once the
/// user's links are.
pub proof fn law_deletion_touches_one_user(
    user_id: i32,
    stores: Seq<Store>,
    removals: Seq<Removal>,
    replies: Seq<Replied>,
    n: int,
)
    requires
        is_run(stores, removals, replies),
        removals[0] == Removal::DeletingLinks(user_id),
        0 <= n < stores.len(),
    ensures
        stores[n].stations == stores[0].stations,
        stores[n].lines == stores[0].lines,
        stores[n].users == stores[0].users || stores[n].users == stores[0].users.remove(user_id),
        stores[n].links == stores[0].links || stores[n].links == stores[0].links_but_of(user_id),
        stores[n].users != stores[0].users ==> stores[n].links == stores[0].links_but_of(user_id),
{
    lemma_deletion_run(user_id, stores, removals, replies, n);
}

/// Nothing that the deletion of a user who has been found asks of the database is refused.
pub proof fn law_deletion_is_never_refused(
    user_id: i32,
    stores: Seq<Store>,
    removals: Seq<Removal>,
    replies: Seq<Replied>,
    n: int,
)
    requires
        is_run(stores, removals, replies),
        removals[0] == Removal::DeletingLinks(user_id),
        0 <= n < removals.len(),
    ensures
        removals[n].request() matches Some(request) ==> stores[n].accepts(request),
{
    lemma_deletion_run(user_id, stores, removals, replies, n);
}

/// Nothing that a removal asks of the database is refused: a user goes only after the links.
pub proof fn law_removal_is_never_refused(
    email: Seq<char>,
    stores: Seq<Store>,
    removals: Seq<Removal>,
    replies: Seq<Replied>,
    n: int,
)
    requires
        is_run(stores, removals, replies),
        removals[0] == Removal::start(email),
        0 <= n < removals.len(),
    ensures
        removals[n].request() matches Some(request) ==> stores[n].accepts(request),
{
    lemma_run(email, stores, removals, replies, n);
}

/// How many exchanges a removal has before it, at most.
pub open spec fn phase(removal: Removal) -> nat {
    match removal {
        Removal::FindingUser(_) => 3,
        Removal::DeletingLinks(_) => 2,
        Removal::DeletingUser(_) => 1,
        Removal::Finished(_) => 0,
    }
}

/// Each exchange with the database brings a removal nearer to its end.
pub proof fn law_removal_comes_to_an_end(
    store: Store,
    removal: Removal,
    reply: Replied,
    after: Store,
)
    requires
        removal.request() matches Some(request) && store.serves(request, reply, after),
    ensures
        phase(removal.next(reply)) < phase(removal),
{
}

/// The first failure of the database ends a removal with that failure, and nothing more is asked.
pub proof fn law_failure_ends_removal(removal: Removal, cause: Cause)
    requires
        removal.request() is Some,
    ensures
        removal.next(Replied::Failed(cause)) == Removal::Finished(Err(Error::DbError(cause))),
        removal.next(Replied::Failed(cause)).request() is None,
{
}

/// A removal, told what the database replies: first it asks for the user with the email address.
/// Where there is none, it has ended well. Otherwise it asks for the links of the user that was
/// found to go, then for that user to go, and then has ended well.
pub proof fn law_removal_asks_in_turn(email: Seq<char>, user: user::Model)
    ensures
        Removal::start(email).request() == Some(Asked::FindUser(email)),
        Removal::start(email).next(Replied::Found(None)) == Removal::Finished(Ok(())),
        ({
            let found = Removal::start(email).next(Replied::Found(Some(user)));
            let unlinked = found.next(Replied::Done);
            &&& found == Removal::DeletingLinks(user.id)
            &&& found.request() == Some(Asked::DeleteUserStations(user.id))
            &&& unlinked.request() == Some(Asked::DeleteUser(user.id))
            &&& unlinked.next(Replied::Done) == Removal::Finished(Ok(()))
        }),
        Removal::Finished(Ok(())).request() is None,
{
}

/// A reply to something else than was asked leaves a removal as it was, and so does any reply to
/// one that has ended.
pub proof fn law_removal_takes_only_answers(removal: Removal, reply: Replied)
    requires
        !(reply is Failed) || removal is Finished,
        removal is FindingUser ==> !(reply is Found),
        removal is DeletingLinks ==> !(reply is Done),
        removal is DeletingUser ==> !(reply is Done),
    ensures
        removal.next(reply) == removal,
{
}

/// After a removal that has ended against the database, every user but one, and every link but
/// those of that user, is as it was; that user has the email address, and is gone with all links.
/// Where nobody has the email address, everybody is as they were.
pub proof fn law_removal_takes_one_user(
    email: Seq<char>,
    stores: Seq<Store>,
    removals: Seq<Removal>,
    replies: Seq<Replied>,
)
    requires
        is_run(stores, removals, replies),
        removals[0] == Removal::start(email),
        removals.last() is Finished,
    ensures
        stores.last().stations == stores[0].stations,
        stores.last().lines == stores[0].lines,
        (forall|id: i32| #[trigger]
            stores[0].users.contains_key(id) ==> stores[0].users[id] != email)
            ==> stores.last().users == stores[0].users && stores.last().links == stores[0].links,
        (exists|id: i32| #[trigger]
            stores[0].users.contains_key(id) && stores[0].users[id] == email) ==> exists|id: i32|
            {
                &&& #[trigger] stores[0].users.contains_key(id)
                &&& stores[0].users[id] == email
                &&& stores.last().users == stores[0].users.remove(id)
                &&& forall|link: user_station::Model| #[trigger]
                    stores.last().links.contains(link) <==> stores[0].links.contains(link)
                        && link.user_id != id
            },
{
    law_removal_removes_user_and_links(email, stores, removals, replies);
    if exists|id: i32| #[trigger] stores[0].users.contains_key(id) && stores[0].users[id] == email {
        assert(stores[0].has_email(email));
    }
}

} // verus!
