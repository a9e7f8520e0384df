//! Who may change a subscription: whoever enters the code that was mailed to its address.

use vstd::prelude::*;

use crate::address::Address;
use crate::error::Error;
use crate::pending::{Entered, Pending, TempData, TempDb};
use crate::removal::{remove_user_by_email, Removal, UserRemoval};
use crate::text::CodeType;
use crate::update::{update_user_stations, Update, UserStationsUpdate};

verus! {

/// An address, and the code that was entered for it.
pub struct UserAuth {
    pub email: Address,
    pub code: CodeType,
}

impl UserAuth {
    /// The code waits for the address.
    pub open spec fn is_admitted(self, pending: Pending) -> bool {
        pending.admits(self.email@, self.code)
    }

    /// `error` says why the code is not admitted.
    pub open spec fn is_refusal(self, pending: Pending, error: Error) -> bool {
        if pending.entries.contains_key(self.email@) {
            error == Error::CodeDoesNotMatch(self.code)
        } else {
            error matches Error::EmailNotFound(address) && address@ == self.email@
        }
    }

    /// Admits whoever enters the code that waits for the address. Whatever the answer, the code
    /// waits no longer, and its timer is stopped.
    pub fn auth(&self, temp_db: &mut TempDb) -> (result: Result<(), Error>)
        ensures
            final(temp_db)@ == old(temp_db)@.take(self.email@),
            final(temp_db)@.entries == old(temp_db)@.entries.remove(self.email@),
            result is Ok <==> self.is_admitted(old(temp_db)@),
            result is Ok <==> old(temp_db)@.entries.contains_key(self.email@)
                && old(temp_db)@.entries[self.email@].spec_code() == self.code,
            result matches Err(error) ==> self.is_refusal(old(temp_db)@, error),
    {
        match temp_db.end(&self.email, self.code) {
            Entered::Matches => Ok(()),
            Entered::Differs => Err(Error::CodeDoesNotMatch(self.code)),
            Entered::Absent => Err(Error::EmailNotFound(self.email.clone())),
        }
    }
}

/// The stations that the user of an address selected.
pub struct Subscription {
    pub user_auth: UserAuth,
    pub stations: Vec<String>,
}

/// Begins to remove the user of the address, where the code is admitted.
pub fn unsubscribe(temp_db: &mut TempDb, user_auth: UserAuth) -> (result: Result<
    UserRemoval,
    Error,
>)
    ensures
        final(temp_db)@ == old(temp_db)@.take(user_auth.email@),
        result is Ok <==> user_auth.is_admitted(old(temp_db)@),
        match result {
            Ok(removal) => removal@ == Removal::start(user_auth.email@),
            Err(error) => user_auth.is_refusal(old(temp_db)@, error),
        },
{
    match user_auth.auth(temp_db) {
        Ok(_) => Ok(remove_user_by_email(user_auth.email.as_str().to_owned())),
        Err(error) => Err(error),
    }
}

/// Begins to bring the links of the user of the address in line with the selected stations, where
/// the code is admitted.
pub fn update_subscription(temp_db: &mut TempDb, subscription: Subscription) -> (result: Result<
    UserStationsUpdate,
    Error,
>)
    ensures
        final(temp_db)@ == old(temp_db)@.take(subscription.user_auth.email@),
        result is Ok <==> subscription.user_auth.is_admitted(old(temp_db)@),
        match result {
            Ok(update) => update@ == Update::start(
                subscription.stations@,
                subscription.user_auth.email@,
            ),
            Err(error) => subscription.user_auth.is_refusal(old(temp_db)@, error),
        },
{
    match subscription.user_auth.auth(temp_db) {
        Ok(_) => Ok(
            update_user_stations(
                subscription.stations,
                subscription.user_auth.email.as_str().to_owned(),
            ),
        ),
        Err(error) => Err(error),
    }
}

/// A refusal is answered as a timeout where no code waits, and as unauthorized where another one
/// does.
pub proof fn law_refusal_status(user_auth: UserAuth, pending: Pending, error: Error)
    requires
        user_auth.is_refusal(pending, error),
    ensures
        error.status() == if pending.entries.contains_key(user_auth.email@) {
            401u16
        } else {
            408u16
        },
{
}

/// The code that was submitted last is admitted, and every other code is refused.
pub proof fn law_last_code_is_admitted(
    pending: Pending,
    data: TempData,
    user_auth: UserAuth,
)
    ensures
        user_auth.is_admitted(pending.insert(user_auth.email@, data)) <==> user_auth.code
            == data.spec_code(),
{
}

/// Whoever was answered once, admitted or not, is refused with a timeout until a new code is
/// submitted for the address.
pub proof fn law_second_try_is_refused(
    pending: Pending,
    first: UserAuth,
    second: UserAuth,
    error: Error,
)
    requires
        first.email@ == second.email@,
        second.is_refusal(pending.take(first.email@), error),
    ensures
        !second.is_admitted(pending.take(first.email@)),
        error.status() == 408,
{
}

/// Who is admitted and why others are not: exactly the one whose code waits for the address. Of the
/// others, whoever has entered another code than the one that waits is told that very code, and
/// whoever has no code waiting is told the very address.
pub proof fn law_waiting_code_admits(user_auth: UserAuth, pending: Pending, error: Error)
    ensures
        user_auth.is_admitted(pending) <==> pending.entries.contains_key(user_auth.email@)
            && pending.entries[user_auth.email@].spec_code() == user_auth.code,
        user_auth.is_refusal(pending, error) && pending.entries.contains_key(user_auth.email@)
            ==> error == Error::CodeDoesNotMatch(user_auth.code),
        user_auth.is_refusal(pending, error) && !pending.entries.contains_key(user_auth.email@)
            ==> (error matches Error::EmailNotFound(address) && address@ == user_auth.email@),
{
}

/// Whatever is entered for one address, whoever enters a code for another one is answered as
/// before.
pub proof fn law_entering_leaves_other_addresses(pending: Pending, first: UserAuth, other: UserAuth)
    requires
        first.email@ != other.email@,
    ensures
        other.is_admitted(pending.take(first.email@)) == other.is_admitted(pending),
        other.is_admitted(pending.expire(first.email@)) == other.is_admitted(pending),
{
}

} // verus!
