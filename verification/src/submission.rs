//! A request for a verification code.

use tokio::task::AbortHandle;
use vstd::prelude::*;
use vstd::utf8::{encode_utf8, is_ascii_chars_encode_utf8};

use crate::address::{address_fault, Address};
use crate::auth::UserAuth;
use crate::error::Error;
use crate::mail::{
    dated, is_date, is_headed, is_header_text, is_media_type, is_outcome, is_sent, is_short_line,
    media_type, Mailbox, MessageBuilder, Outgoing, Stamped,
};
use crate::pending::{Pending, TempData, TempDb};
use crate::text::{
    code_text, decimal, is_digit, law_decimal_is_injective, law_decimal_reads_back,
    lemma_decimal_digits, CodeType,
};

verus! {

/// What the mails are about.
pub const SUBJECT: &'static str = "WMATA Fire-Alarm Verification Code";

/// What the bodies of the mails are: plain text.
pub const CONTENT_TYPE: &'static str = "text/plain; charset=utf-8";

/// A code drawn by chance.
///
/// Calls `rand::random`, which draws every code alike; nothing is claimed of the one it draws.
#[verifier::external_body]
fn random_code() -> CodeType {
    rand::random()
}

/// An address, and the code that is to be mailed to it.
pub struct Submission {
    address: Address,
    code: CodeType,
}

impl Submission {
    /// The address.
    pub closed spec fn spec_address(self) -> Seq<char> {
        self.address@
    }

    /// The code.
    pub closed spec fn spec_code(self) -> CodeType {
        self.code
    }

    /// This code for the address that `email` is.
    pub fn with_code(email: &str, code: CodeType) -> (result: Result<Submission, Error>)
        ensures
            match result {
                Ok(submission) => {
                    &&& address_fault(email@) is None
                    &&& submission.spec_address() == email@
                    &&& submission.spec_code() == code
                },
                Err(error) => address_fault(email@) matches Some(fault) && error
                    == Error::AddressError(fault),
            },
    {
        match Address::parse(email) {
            Ok(address) => Ok(Submission { address, code }),
            Err(fault) => Err(Error::AddressError(fault)),
        }
    }

    /// The address.
    pub fn address(&self) -> (result: &Address)
        ensures
            result@ == self.spec_address(),
    {
        &self.address
    }

    /// The code.
    pub fn code(&self) -> (result: CodeType)
        ensures
            result == self.spec_code(),
    {
        self.code
    }
}

/// Draws a code for the address that `email` is.
pub fn submit_email(email: &str) -> (result: Result<Submission, Error>)
    ensures
        match result {
            Ok(submission) => address_fault(email@) is None && submission.spec_address() == email@,
            Err(error) => address_fault(email@) matches Some(fault) && error == Error::AddressError(
                fault,
            ),
        },
{
    Submission::with_code(email, random_code())
}

/// The answer to a request whose mail the transport took, or refused with an error in debug
/// notation.
pub fn sent(outcome: Result<(), String>) -> (result: Result<(), Error>)
    ensures
        match (outcome, result) {
            (Ok(_), Ok(_)) => true,
            (Err(text), Err(error)) => error == Error::SendError(text),
            _ => false,
        },
{
    match outcome {
        Ok(_) => Ok(()),
        Err(text) => Err(Error::SendError(text)),
    }
}

/// The mail data ends in an empty line and then the code in decimal.
pub open spec fn carries(data: Seq<u8>, code: CodeType) -> bool {
    exists|head: Seq<u8>| data == #[trigger] ending_in(head, code)
}

/// The lines `head`, an empty line, and the code in decimal.
pub open spec fn ending_in(head: Seq<u8>, code: CodeType) -> Seq<u8> {
    head + seq![13u8, 10, 13, 10] + encode_utf8(decimal(code as nat))
}

/// A submission whose mail is composed, so that its code can wait to be entered.
pub struct Prepared {
    submission: Submission,
    mail: Outgoing,
}

impl Prepared {
    /// The submission.
    pub closed spec fn spec_submission(self) -> Submission {
        self.submission
    }

    /// The mail that carries the code.
    pub closed spec fn spec_mail(self) -> Outgoing {
        self.mail
    }

    /// The submission.
    pub fn submission(&self) -> (result: &Submission)
        ensures
            *result == self.spec_submission(),
    {
        &self.submission
    }
}

/// What the service knows between requests: the codes that wait, and how mails are written.
pub struct AppState {
    pub temp_db: TempDb,
    pub message_builder: MessageBuilder,
}

impl AppState {
    /// No code waits yet; mails are from `mailbox`.
    pub fn new(mailbox: Mailbox) -> (result: AppState)
        ensures
            result.temp_db@ == Pending::empty(),
            result.temp_db@.entries == Map::<Seq<char>, TempData>::empty(),
            result.message_builder.spec_from() == mailbox,
            result.message_builder.spec_subject() == SUBJECT@,
            result.message_builder.spec_subject() == "WMATA Fire-Alarm Verification Code"@,
            result.message_builder.spec_content_type() == "text/plain; charset=utf-8"@,
            is_header_text(result.message_builder.spec_subject()),
            result.message_builder.spec_content_type().len() < 60,
    {
        proof {
            lemma_plain_text_is_media_type();
            reveal_strlit("WMATA Fire-Alarm Verification Code");
            reveal_strlit("text/plain; charset=utf-8");
        }
        AppState {
            temp_db: TempDb::new(),
            message_builder: MessageBuilder::new(mailbox, SUBJECT, CONTENT_TYPE),
        }
    }

    /// Composes the mail that carries a submission's code to its address.
    pub fn prepare(&self, submission: Submission) -> (result: Result<Prepared, Error>)
        ensures
            ({
                let to = submission.spec_address();
                let body = decimal(submission.spec_code() as nat);
                let builder = self.message_builder;
                match result {
                    Ok(prepared) => {
                        &&& prepared.spec_submission() == submission
                        &&& is_outcome(builder.outcome(to, body), body, Ok(prepared.spec_mail()))
                        &&& builder.is_simple(to) ==> is_sent(
                            builder.spec_from().spec_email(),
                            to,
                            Ok(prepared.spec_mail()),
                        )
                        &&& carries(prepared.spec_mail().data@, submission.spec_code())
                    },
                    Err(error) => {
                        &&& !builder.is_simple(to)
                        &&& error matches Error::EmailError(cause) && is_outcome(
                            builder.outcome(to, body),
                            body,
                            Err(cause),
                        )
                    },
                }
            }),
            result is Ok && is_header_text(self.message_builder.spec_subject())
                && self.message_builder.spec_content_type().len() < 60 ==> is_headed(
                self.message_builder.spec_from().spec_name(),
                self.message_builder.spec_from().spec_email(),
                self.message_builder.spec_subject(),
                self.message_builder.spec_content_type(),
                submission.spec_address(),
                Ok(result->Ok_0.spec_mail()),
            ),
    {
        let body = code_text(submission.code);
        proof {
            lemma_code_is_short_line(submission.code);
        }
        match self.message_builder.body(&submission.address, body.as_str()) {
            Ok(mail) => {
                proof {
                    let outcome = self.message_builder.outcome(submission.address@, body@);
                    lemma_mail_carries_code(outcome, submission.code, mail);
                }
                Ok(Prepared { submission, mail })
            },
            Err(cause) => Err(Error::EmailError(cause)),
        }
    }

    /// Lets the code of a submission whose mail is composed wait for its address until the timer
    /// ends, and hands out the mail. A code that waited before is forgotten, and its timer
    /// stopped.
    pub fn register(&mut self, prepared: Prepared, timeout: AbortHandle) -> (result: Outgoing)
        ensures
            is_registered(
                old(self).temp_db@,
                prepared.spec_submission(),
                timeout,
                final(self).temp_db@,
            ),
            final(self).temp_db@.entries.contains_key(prepared.spec_submission().spec_address()),
            final(self).temp_db@.entries[prepared.spec_submission().spec_address()].spec_code()
                == prepared.spec_submission().spec_code(),
            final(self).temp_db@.entries[prepared.spec_submission().spec_address()].spec_timeout()
                == timeout,
            final(self).temp_db@.entries.remove(prepared.spec_submission().spec_address())
                == old(self).temp_db@.entries.remove(prepared.spec_submission().spec_address()),
            final(self).message_builder == old(self).message_builder,
            result == prepared.spec_mail(),
    {
        let submission = prepared.submission;
        let data = TempData::new(timeout, submission.code);
        let ghost before = self.temp_db@;
        self.temp_db.insert(&submission.address, data);
        assert(self.temp_db@ == before.insert(submission.spec_address(), data));
        prepared.mail
    }
}

/// In `after` the code of the submission waits for its address and for the timer; the rest is as
/// in `before`.
pub open spec fn is_registered(
    before: Pending,
    submission: Submission,
    timeout: AbortHandle,
    after: Pending,
) -> bool {
    exists|data: TempData|
        {
            &&& data.spec_timeout() == timeout
            &&& data.spec_code() == submission.spec_code()
            &&& after == #[trigger] before.insert(submission.spec_address(), data)
        }
}

/// Plain text is a type, a subtype, and a parameter with its value.
proof fn lemma_plain_text_is_media_type()
    ensures
        is_media_type(CONTENT_TYPE@),
{
    reveal_strlit("text/plain; charset=utf-8");
    reveal_strlit("text");
    reveal_strlit("/");
    reveal_strlit("plain");
    reveal_strlit("; ");
    reveal_strlit("charset");
    reveal_strlit("=");
    reveal_strlit("utf-8");
    assert(CONTENT_TYPE@ =~= media_type("text"@, "plain"@, "charset"@, "utf-8"@));
}

/// A code in decimal is a short line.
proof fn lemma_code_is_short_line(code: CodeType)
    ensures
        is_short_line(decimal(code as nat)),
{
    lemma_decimal_digits(code as nat);
}

/// A mail whose body is a code carries it.
proof fn lemma_mail_carries_code(
    outcome: Result<Stamped, (Seq<char>, Seq<char>)>,
    code: CodeType,
    mail: Outgoing,
)
    requires
        is_outcome(outcome, decimal(code as nat), Ok(mail)),
    ensures
        carries(mail.data@, code),
{
    let head = outcome->Ok_0.2;
    let body = decimal(code as nat);
    let date = choose|date: Seq<u8>|
        is_date(date) && mail.data@ == #[trigger] dated(head, date, body);
    let lines = head + seq![68u8, 97, 116, 101, 58, 32] + date;
    assert(mail.data@ == ending_in(lines, code));
}

/// A mail carries no more than one code.
pub proof fn law_mail_carries_one_code(data: Seq<u8>, code: CodeType, other: CodeType)
    requires
        carries(data, code),
        carries(data, other),
    ensures
        code == other,
{
    let head = choose|head: Seq<u8>| data == #[trigger] ending_in(head, code);
    let other_head = choose|head: Seq<u8>| data == #[trigger] ending_in(head, other);
    let text = decimal(code as nat);
    let other_text = decimal(other as nat);
    lemma_code_is_short_line(code);
    lemma_code_is_short_line(other);
    lemma_decimal_digits(code as nat);
    lemma_decimal_digits(other as nat);
    is_ascii_chars_encode_utf8(text);
    is_ascii_chars_encode_utf8(other_text);
    let len = data.len() as int;
    let start = len - text.len();
    let other_start = len - other_text.len();
    assert(data[start - 1] == 10);
    assert(data[other_start - 1] == 10);
    assert forall|i: int| start <= i < len implies data[i] == text[i - start] as u8 && data[i]
        != 10 by {
        assert(encode_utf8(text)[i - start] == data[i]);
        assert(is_digit(text[i - start]));
    }
    assert forall|i: int| other_start <= i < len implies data[i] == other_text[i
        - other_start] as u8 && data[i] != 10 by {
        assert(encode_utf8(other_text)[i - other_start] == data[i]);
        assert(is_digit(other_text[i - other_start]));
    }
    assert(start == other_start);
    assert forall|i: int| 0 <= i < text.len() implies text[i] == other_text[i] by {
        assert(is_digit(text[i]) && is_digit(other_text[i]));
        assert(data[i + start] == text[i] as u8);
        assert(data[i + start] == other_text[i] as u8);
    }
    assert(text =~= other_text);
    law_decimal_is_injective(code as nat, other as nat);
}

/// Once a submission is registered, whoever enters the code that its mail carries is admitted, and
/// whoever enters another code for the address is not.
pub proof fn law_mailed_code_is_admitted(
    before: Pending,
    submission: Submission,
    timeout: AbortHandle,
    after: Pending,
    mail: Outgoing,
    user_auth: UserAuth,
)
    requires
        carries(mail.data@, submission.spec_code()),
        is_registered(before, submission, timeout, after),
        user_auth.email@ == submission.spec_address(),
    ensures
        user_auth.is_admitted(after) <==> carries(mail.data@, user_auth.code),
{
    if carries(mail.data@, user_auth.code) {
        law_mail_carries_one_code(mail.data@, submission.spec_code(), user_auth.code);
    }
}

/// Once a submission is registered, its code waits for its address with the timer; the codes that
/// wait for all other addresses wait on; and the timer of a code that waited for the address, and
/// no other, is stopped.
pub proof fn law_registering_leaves_other_addresses(
    before: Pending,
    submission: Submission,
    timeout: AbortHandle,
    after: Pending,
    user_auth: UserAuth,
    other: Seq<char>,
)
    requires
        is_registered(before, submission, timeout, after),
        other != submission.spec_address(),
    ensures
        after.entries.contains_key(submission.spec_address()),
        after.entries[submission.spec_address()].spec_code() == submission.spec_code(),
        after.entries[submission.spec_address()].spec_timeout() == timeout,
        after.entries.contains_key(other) <==> before.entries.contains_key(other),
        before.entries.contains_key(other) ==> after.entries[other] == before.entries[other],
        user_auth.email@ != submission.spec_address() ==> user_auth.is_admitted(after)
            == user_auth.is_admitted(before),
        user_auth.email@ == submission.spec_address() ==> (user_auth.is_admitted(after)
            <==> user_auth.code == submission.spec_code()),
        before.entries.contains_key(submission.spec_address()) ==> after.stopped
            == before.stopped.push(before.entries[submission.spec_address()].spec_timeout()),
        !before.entries.contains_key(submission.spec_address()) ==> after.stopped
            == before.stopped,
{
}

/// A mail that carries a code ends in an empty line and then digits, which read in base ten from
/// left to right are the code.
pub proof fn law_carried_code_reads_back(data: Seq<u8>, code: CodeType)
    requires
        carries(data, code),
    ensures
        exists|start: int|
            {
                &&& 4 <= start < data.len()
                &&& #[trigger] data.subrange(start - 4, start) == seq![13u8, 10, 13, 10]
                &&& forall|i: int| start <= i < data.len() ==> 48 <= #[trigger] data[i] <= 57
                &&& data.skip(start).fold_left(
                    0int,
                    |value: int, byte: u8| 10 * value + (byte - 48),
                ) == code
            },
{
    let head = choose|head: Seq<u8>| data == #[trigger] ending_in(head, code);
    let text = decimal(code as nat);
    let bytes = encode_utf8(text);
    let start = head.len() as int + 4;
    lemma_code_is_short_line(code);
    lemma_decimal_digits(code as nat);
    law_decimal_reads_back(code as nat);
    is_ascii_chars_encode_utf8(text);
    assert(data.subrange(start - 4, start) =~= seq![13u8, 10, 13, 10]);
    assert(data.skip(start) =~= bytes);
    assert forall|i: int| start <= i < data.len() implies 48 <= #[trigger] data[i] <= 57 by {
        assert(data[i] == bytes[i - start]);
        assert(is_digit(text[i - start]));
    }
    assert forall|i: int| 0 <= i < text.len() implies (#[trigger] text[i]) as int - 48
        == bytes[i] - 48 by {
        assert(is_digit(text[i]));
    }
    lemma_same_reading(text, bytes);
}

/// Digits read alike as characters and as bytes.
proof fn lemma_same_reading(text: Seq<char>, bytes: Seq<u8>)
    requires
        text.len() == bytes.len(),
        forall|i: int| 0 <= i < text.len() ==> (#[trigger] text[i]) as int - 48 == bytes[i] - 48,
    ensures
        text.fold_left(0int, |value: int, c: char| 10 * value + (c as int - '0' as int))
            == bytes.fold_left(0int, |value: int, byte: u8| 10 * value + (byte - 48)),
    decreases text.len(),
{
    if text.len() > 0 {
        assert forall|i: int| 0 <= i < text.drop_last().len() implies (
        #[trigger] text.drop_last()[i]) as int - 48 == bytes.drop_last()[i] - 48 by {
            assert(text[i] as int - 48 == bytes[i] - 48);
        }
        lemma_same_reading(text.drop_last(), bytes.drop_last());
        assert(text[text.len() - 1] as int - 48 == bytes[text.len() - 1] - 48);
    }
}

} // verus!
