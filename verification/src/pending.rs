//! The verification codes that wait to be entered, and the timers that end the wait.

use tokio::task::AbortHandle;
use vstd::hash_map::StringHashMap;
use vstd::prelude::*;

use crate::address::Address;
use crate::text::CodeType;
use crate::timer::Stopped;

verus! {

/// How long a code waits, in seconds.
pub const TIMEOUT_SECS: u64 = 60;

/// A code that waits to be entered, and the timer that ends the wait.
pub struct TempData {
    timeout: AbortHandle,
    code: CodeType,
}

impl TempData {
    /// The timer that ends the wait.
    pub closed spec fn spec_timeout(self) -> AbortHandle {
        self.timeout
    }

    /// The code that waits.
    pub closed spec fn spec_code(self) -> CodeType {
        self.code
    }

    /// A code that waits until the timer ends.
    pub fn new(timeout: AbortHandle, code: CodeType) -> (result: TempData)
        ensures
            result.spec_timeout() == timeout,
            result.spec_code() == code,
    {
        TempData { timeout, code }
    }

    /// Stops the timer, and says whether the code that waited is `code`.
    pub fn end(&self, code: CodeType, stopped: &mut Stopped) -> (result: bool)
        ensures
            final(stopped)@ == old(stopped)@.push(self.spec_timeout()),
            result == (self.spec_code() == code),
    {
        stopped.stop(&self.timeout);
        self.code == code
    }
}

/// The codes that wait, by the text of the address that each was mailed to, and the timers that
/// were stopped before their time, in the order in which they were stopped.
pub struct Pending {
    pub entries: Map<Seq<char>, TempData>,
    pub stopped: Seq<AbortHandle>,
}

impl Pending {
    /// Nothing waits.
    pub open spec fn empty() -> Pending {
        Pending { entries: Map::empty(), stopped: Seq::empty() }
    }

    /// Stops the timer of the address, where one runs.
    pub open spec fn stop(self, email: Seq<char>) -> Pending {
        if self.entries.contains_key(email) {
            Pending { stopped: self.stopped.push(self.entries[email].spec_timeout()), ..self }
        } else {
            self
        }
    }

    /// A new code waits for the address, in place of one that may have waited.
    pub open spec fn insert(self, email: Seq<char>, data: TempData) -> Pending {
        Pending { entries: self.entries.insert(email, data), ..self.stop(email) }
    }

    /// The code of the address is taken out, and its timer stopped.
    pub open spec fn take(self, email: Seq<char>) -> Pending {
        Pending { entries: self.entries.remove(email), ..self.stop(email) }
    }

    /// The timer of the address has ended.
    pub open spec fn expire(self, email: Seq<char>) -> Pending {
        Pending { entries: self.entries.remove(email), ..self }
    }

    /// This code waits for this address.
    pub open spec fn admits(self, email: Seq<char>, code: CodeType) -> bool {
        self.entries.contains_key(email) && self.entries[email].spec_code() == code
    }
}

/// What became of a code that was entered.
#[derive(Clone, Copy, Debug, PartialEq, Eq, Structural)]
pub enum Entered {
    /// It was the code that waited.
    Matches,
    /// Another code waited.
    Differs,
    /// No code waited.
    Absent,
}

/// The codes that wait.
pub struct TempDb {
    entries: StringHashMap<TempData>,
    stopped: Stopped,
}

impl View for TempDb {
    type V = Pending;

    closed spec fn view(&self) -> Pending {
        Pending { entries: self.entries@, stopped: self.stopped@ }
    }
}

impl TempDb {
    /// No code waits yet.
    pub fn new() -> (result: TempDb)
        ensures
            result@ == Pending::empty(),
    {
        TempDb { entries: StringHashMap::new(), stopped: Stopped::new() }
    }

    /// The timers that were told to stop.
    pub fn stopped(&self) -> (result: &Stopped)
        ensures
            result@ == self@.stopped,
    {
        &self.stopped
    }

    /// Stops the timer of the address, where one runs, and compares the code that waits.
    fn stop(&mut self, email: &Address, code: CodeType) -> (result: Entered)
        ensures
            final(self)@ == old(self)@.stop(email@),
            result == match old(self)@.entries.contains_key(email@) {
                true => if old(self)@.entries[email@].spec_code() == code {
                    Entered::Matches
                } else {
                    Entered::Differs
                },
                false => Entered::Absent,
            },
    {
        match self.entries.get(email.as_str()) {
            Some(data) => {
                if data.end(code, &mut self.stopped) {
                    Entered::Matches
                } else {
                    Entered::Differs
                }
            },
            None => Entered::Absent,
        }
    }

    /// Lets a new code wait for the address. One that waited before is forgotten, and its timer
    /// stopped.
    pub fn insert(&mut self, email: &Address, data: TempData)
        ensures
            final(self)@ == old(self)@.insert(email@, data),
            final(self)@.entries == old(self)@.entries.insert(email@, data),
    {
        self.stop(email, data.code);
        self.entries.insert(email.as_str().to_owned(), data);
    }

    /// Takes out the code that waits for the address, stops its timer, and says whether it is
    /// `code`. Whatever the answer, the code waits no longer.
    pub fn end(&mut self, email: &Address, code: CodeType) -> (result: Entered)
        ensures
            final(self)@ == old(self)@.take(email@),
            final(self)@.entries == old(self)@.entries.remove(email@),
            result is Matches <==> old(self)@.admits(email@, code),
            result is Matches <==> old(self)@.entries.contains_key(email@)
                && old(self)@.entries[email@].spec_code() == code,
            result is Absent <==> !old(self)@.entries.contains_key(email@),
    {
        let result = self.stop(email, code);
        self.entries.remove(email.as_str());
        result
    }

    /// Forgets the code of the address, because its timer has ended.
    pub fn expire(&mut self, email: &Address)
        ensures
            final(self)@ == old(self)@.expire(email@),
            final(self)@.entries == old(self)@.entries.remove(email@),
            final(self)@.stopped == old(self)@.stopped,
    {
        self.entries.remove(email.as_str());
    }
}

/// What happens to the codes that wait.
pub enum Event {
    /// A new code waits for the address.
    Submitted(Seq<char>, TempData),
    /// A code was entered for the address.
    Entered(Seq<char>),
    /// A timer has ended.
    TimedOut(AbortHandle),
}

/// The codes that wait, and the timers that run, each with the address it was started for.
pub struct Wait {
    pub pending: Pending,
    pub running: Map<AbortHandle, Seq<char>>,
}

impl Wait {
    /// Nothing waits and no timer runs.
    pub open spec fn empty() -> Wait {
        Wait { pending: Pending::empty(), running: Map::empty() }
    }

    /// The timers that still run once the codes that wait are as in `after`.
    pub open spec fn still_running(self, after: Pending) -> Map<AbortHandle, Seq<char>> {
        self.running.remove_keys(
            after.stopped.skip(self.pending.stopped.len() as int).to_set(),
        )
    }

    /// A timer is started only once, and ends only while it runs.
    pub open spec fn allows(self, event: Event) -> bool {
        match event {
            Event::Submitted(_, data) => !self.running.contains_key(data.spec_timeout()),
            Event::Entered(_) => true,
            Event::TimedOut(timer) => self.running.contains_key(timer),
        }
    }

    /// The wait after one event.
    pub open spec fn next(self, event: Event) -> Wait {
        match event {
            Event::Submitted(email, data) => {
                let pending = self.pending.insert(email, data);
                Wait {
                    pending,
                    running: self.still_running(pending).insert(data.spec_timeout(), email),
                }
            },
            Event::Entered(email) => {
                let pending = self.pending.take(email);
                Wait { pending, running: self.still_running(pending) }
            },
            Event::TimedOut(timer) => {
                let pending = self.pending.expire(self.running[timer]);
                Wait { pending, running: self.still_running(pending).remove(timer) }
            },
        }
    }

    /// The wait after a run of events.
    pub open spec fn after(events: Seq<Event>) -> Wait
        decreases events.len(),
    {
        if events.len() == 0 {
            Wait::empty()
        } else {
            Wait::after(events.drop_last()).next(events.last())
        }
    }

    /// Each event of a run was allowed when it happened.
    pub open spec fn is_run(events: Seq<Event>) -> bool {
        forall|i: int|
            0 <= i < events.len() ==> Wait::after(#[trigger] events.take(i)).allows(events[i])
    }

    /// The timers that run are those of the codes that wait, one for each.
    pub open spec fn is_paired(self) -> bool {
        &&& forall|email: Seq<char>| #[trigger]
            self.pending.entries.contains_key(email) ==> {
                let timer = self.pending.entries[email].spec_timeout();
                self.running.contains_key(timer) && self.running[timer] == email
            }
        &&& forall|timer: AbortHandle| #[trigger]
            self.running.contains_key(timer) ==> {
                let email = self.running[timer];
                self.pending.entries.contains_key(email)
                    && self.pending.entries[email].spec_timeout() == timer
            }
    }
}

proof fn lemma_next_is_paired(wait: Wait, event: Event)
    requires
        wait.is_paired(),
        wait.allows(event),
    ensures
        wait.next(event).is_paired(),
{
    let next = wait.next(event);
    let before = wait.pending.stopped;
    let news = next.pending.stopped.skip(before.len() as int);
    match event {
        Event::Submitted(email, _) | Event::Entered(email) => {
            if wait.pending.entries.contains_key(email) {
                let timer = wait.pending.entries[email].spec_timeout();
                assert(news =~= seq![timer]);
                assert(news[0] == timer);
                assert(forall|t: AbortHandle| news.to_set().contains(t) <==> t == timer);
            } else {
                assert(news =~= Seq::empty());
            }
        },
        Event::TimedOut(timer) => {
            assert(news =~= Seq::empty());
        },
    }
}

/// Whatever is submitted, entered and timed out: a timer runs exactly for each code that waits. No
/// timer outlives its code, and none is left to end the wait of a later code.
pub proof fn law_timers_pair_with_codes(events: Seq<Event>)
    requires
        Wait::is_run(events),
    ensures
        Wait::after(events).is_paired(),
    decreases events.len(),
{
    if events.len() > 0 {
        let earlier = events.drop_last();
        assert forall|i: int| 0 <= i < earlier.len() implies Wait::after(
            #[trigger] earlier.take(i),
        ).allows(earlier[i]) by {
            assert(earlier.take(i) =~= events.take(i));
        }
        law_timers_pair_with_codes(earlier);
        assert(events.take(events.len() - 1) =~= earlier);
        lemma_next_is_paired(Wait::after(earlier), events.last());
    }
}

/// A timer that ends takes out the code that it was started with, and no other.
pub proof fn law_timer_ends_its_own_wait(events: Seq<Event>, timer: AbortHandle, email: Seq<char>)
    requires
        Wait::is_run(events),
        Wait::after(events).allows(Event::TimedOut(timer)),
    ensures
        ({
            let before = Wait::after(events).pending.entries;
            let after = Wait::after(events).next(Event::TimedOut(timer)).pending.entries;
            if before.contains_key(email) && before[email].spec_timeout() != timer {
                after.contains_key(email) && after[email] == before[email]
            } else {
                !after.contains_key(email)
            }
        }),
{
    law_timers_pair_with_codes(events);
}

/// A code that is submitted is the one that waits, whatever waited before.
pub proof fn law_submitted_code_waits(pending: Pending, email: Seq<char>, data: TempData)
    ensures
        forall|code: CodeType|
            #![auto]
            pending.insert(email, data).admits(email, code) <==> code == data.spec_code(),
{
}

/// A code can be entered once: whether it matched or not, nothing waits afterwards.
pub proof fn law_code_is_entered_once(pending: Pending, email: Seq<char>)
    ensures
        forall|code: CodeType| !(#[trigger] pending.take(email).admits(email, code)),
{
}

/// A code that has timed out waits no longer.
pub proof fn law_code_times_out(pending: Pending, email: Seq<char>)
    ensures
        forall|code: CodeType| !(#[trigger] pending.expire(email).admits(email, code)),
{
}

/// What happens to one address leaves the codes of all others as they are.
pub proof fn law_addresses_are_separate(
    pending: Pending,
    email: Seq<char>,
    other: Seq<char>,
    data: TempData,
    code: CodeType,
)
    requires
        email != other,
    ensures
        pending.insert(email, data).admits(other, code) == pending.admits(other, code),
        pending.take(email).admits(other, code) == pending.admits(other, code),
        pending.expire(email).admits(other, code) == pending.admits(other, code),
{
}

/// What becomes of the codes, the timers and the address that something happens to. At first
/// nothing waits and no timer was stopped. A code that is submitted waits with its timer, and
/// whatever waited for the same address has its timer stopped. A code that is entered waits no
/// longer, and its timer is stopped. A code that has timed out waits no longer, and no timer is
/// stopped. Nothing else is changed.
pub proof fn law_codes_wait_by_address(
    pending: Pending,
    email: Seq<char>,
    data: TempData,
    code: CodeType,
)
    ensures
        Pending::empty().entries == Map::<Seq<char>, TempData>::empty(),
        Pending::empty().stopped == Seq::<AbortHandle>::empty(),
        pending.insert(email, data).entries == pending.entries.insert(email, data),
        pending.take(email).entries == pending.entries.remove(email),
        pending.expire(email).entries == pending.entries.remove(email),
        pending.expire(email).stopped == pending.stopped,
        pending.entries.contains_key(email) ==> {
            let stopped = pending.stopped.push(pending.entries[email].spec_timeout());
            pending.insert(email, data).stopped == stopped && pending.take(email).stopped == stopped
        },
        !pending.entries.contains_key(email) ==> {
            &&& pending.insert(email, data).stopped == pending.stopped
            &&& pending.take(email).stopped == pending.stopped
        },
        pending.admits(email, code) <==> pending.entries.contains_key(email)
            && pending.entries[email].spec_code() == code,
{
}

} // verus!
