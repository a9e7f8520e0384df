//! Requesting a code, entering it, and what the subscriber is told.

use std::time::Duration;

use tokio::runtime::{Builder, Runtime};
use tokio::task::JoinHandle;

use wmata_fire_alarm::address::{Address, AddressError};
use wmata_fire_alarm::auth::{unsubscribe, update_subscription, Subscription, UserAuth};
use wmata_fire_alarm::error::{Cause, Error};
use wmata_fire_alarm::exchange::Request;
use wmata_fire_alarm::mail::{is_writable_name, Mailbox, Outgoing};
use wmata_fire_alarm::pending::{Entered, TempData, TempDb, TIMEOUT_SECS};
use wmata_fire_alarm::submission::{
    sent, submit_email, AppState, Submission, CONTENT_TYPE, SUBJECT,
};
use wmata_fire_alarm::text::code_text;
use wmata_fire_alarm::timer::Stopped;

fn runtime() -> Runtime {
    Builder::new_current_thread().enable_time().build().unwrap()
}

fn timer(runtime: &Runtime) -> JoinHandle<()> {
    runtime.spawn(async { tokio::time::sleep(Duration::from_secs(TIMEOUT_SECS)).await })
}

fn is_stopped(runtime: &Runtime, timer: JoinHandle<()>) -> bool {
    runtime.block_on(async {
        match tokio::time::timeout(Duration::from_millis(50), timer).await {
            Ok(result) => result.unwrap_err().is_cancelled(),
            Err(_) => false,
        }
    })
}

fn address(text: &str) -> Address {
    Address::parse(text).unwrap()
}

fn state() -> AppState {
    AppState::new(Mailbox::new(Some(String::from("Fire Alarm")), address("alarm@wmata.org")))
}

fn user_auth(email: &str, code: u16) -> UserAuth {
    UserAuth { email: address(email), code }
}

fn register(state: &mut AppState, email: &str, code: u16, timer: &JoinHandle<()>) -> Outgoing {
    let submission = Submission::with_code(email, code).ok().unwrap();
    let prepared = state.prepare(submission).ok().unwrap();
    assert_eq!(prepared.submission().code(), code);
    state.register(prepared, timer.abort_handle())
}

#[test]
fn addresses_keep_their_text() {
    for text in ["leia@alderaan.org", "r2+d2@droids.example", "a@b"] {
        assert_eq!(address(text).as_str(), text);
        assert_eq!(address(text).clone(), address(text));
    }
}

#[test]
fn addresses_with_a_fault_are_refused() {
    assert_eq!(Address::parse("leia"), Err(AddressError::MissingParts));
    assert_eq!(Address::parse(""), Err(AddressError::MissingParts));
    assert_eq!(Address::parse("@alderaan.org"), Err(AddressError::InvalidUser));
    assert_eq!(Address::parse("le ia@alderaan.org"), Err(AddressError::InvalidUser));
    assert_eq!(Address::parse("leia@"), Err(AddressError::InvalidDomain));
    assert_eq!(Address::parse("leia@alde raan"), Err(AddressError::InvalidDomain));
}

#[test]
fn address_is_shown_in_debug_notation() {
    assert_eq!(
        address("leia@alderaan.org").debug_text(),
        "Address { serialized: \"leia@alderaan.org\", at_start: 4 }"
    );
    assert_eq!(
        address("\"le@ia\"@alderaan.org").debug_text(),
        "Address { serialized: \"\\\"le@ia\\\"@alderaan.org\", at_start: 7 }"
    );
    assert_eq!(
        address("lé@alderaan.org").debug_text(),
        "Address { serialized: \"lé@alderaan.org\", at_start: 3 }"
    );
}

#[test]
fn submission_of_a_fault_is_refused() {
    let error = submit_email("leia").err().unwrap();
    assert!(matches!(error, Error::AddressError(AddressError::MissingParts)));
    assert_eq!(error.status_code(), 400);
}

#[test]
fn submission_keeps_the_address() {
    let submission = submit_email("leia@alderaan.org").ok().unwrap();
    assert_eq!(submission.address().as_str(), "leia@alderaan.org");
}

#[test]
fn codes_are_drawn_anew() {
    let first = submit_email("leia@alderaan.org").ok().unwrap().code();
    let mut draws = (0..64).map(|_| submit_email("leia@alderaan.org").ok().unwrap().code());
    assert!(draws.any(|code| code != first));
}

#[test]
fn mail_carries_the_code() {
    let runtime = runtime();
    let mut state = state();
    let mail = register(&mut state, "leia@alderaan.org", 1138, &timer(&runtime));
    assert_eq!(mail.sender, Some(String::from("alarm@wmata.org")));
    assert_eq!(mail.recipients, ["leia@alderaan.org"]);

    let data = String::from_utf8(mail.data).unwrap();
    let (head, body) = data.split_once("\r\n\r\n").unwrap();
    assert_eq!(body, "1138");
    let lines: Vec<&str> = head.split("\r\n").collect();
    assert_eq!(
        lines[..5],
        [
            "From: \"Fire Alarm\" <alarm@wmata.org>",
            "Subject: WMATA Fire-Alarm Verification Code",
            "Content-Type: text/plain; charset=utf-8",
            "To: leia@alderaan.org",
            "Content-Transfer-Encoding: 7bit",
        ]
    );
    assert!(lines[5].starts_with("Date: "));
    assert_eq!(lines.len(), 6);
    assert_eq!(SUBJECT, "WMATA Fire-Alarm Verification Code");
    assert_eq!(CONTENT_TYPE, "text/plain; charset=utf-8");
}

#[test]
fn mail_from_a_bare_address() {
    let mut state = AppState::new(Mailbox::new(None, address("alarm@wmata.org")));
    let runtime = runtime();
    let mail = register(&mut state, "leia@alderaan.org", 0, &timer(&runtime));
    assert!(mail.data.starts_with(b"From: alarm@wmata.org\r\n"));
    assert!(mail.data.ends_with(b"\r\n\r\n0"));
}

#[test]
fn mail_from_any_writable_name() {
    let runtime = runtime();
    let names = [
        "",
        "  ",
        " Fire  Alarm ",
        "WMATA",
        " \n Fire Alarm \r\n",
        "Fire, \"Alarm\"",
        "Fuoco è",
        "Mr. Fire <9>",
        "fire@alarm",
        "Fire\tAlarm\\",
        "Fire\u{1}\u{b}\u{7f} Alarm",
        "\u{a0}Fire\u{a0}Alarm",
    ];
    for name in names {
        assert!(is_writable_name(name));
        let mailbox = Mailbox::new(Some(name.to_string()), address("alarm@wmata.org"));
        let mut state = AppState::new(mailbox);
        let mail = register(&mut state, "leia@alderaan.org", 1138, &timer(&runtime));
        assert_eq!(mail.sender, Some(String::from("alarm@wmata.org")));
        assert_eq!(mail.recipients, ["leia@alderaan.org"]);
    }
}

#[test]
fn names_that_break_a_header_are_found() {
    assert!(is_writable_name("Fire Alarm"));
    assert!(is_writable_name(""));
    assert!(is_writable_name("\r\n"));
    assert!(is_writable_name(" \n Fire Alarm \r\n"));
    assert!(!is_writable_name("Fire\nAlarm"));
    assert!(!is_writable_name("Fire \r Alarm"));
    let mailbox = |name: Option<&str>| {
        Mailbox::try_new(name.map(String::from), address("alarm@wmata.org"))
    };
    assert!(mailbox(None).is_some());
    assert!(mailbox(Some("Fire Alarm\n")).is_some());
    assert!(mailbox(Some("Fire\nAlarm")).is_none());
}

#[test]
fn code_is_admitted_once() {
    let runtime = runtime();
    let mut state = state();
    let timer = timer(&runtime);
    register(&mut state, "leia@alderaan.org", 1138, &timer);

    let auth = user_auth("leia@alderaan.org", 1138);
    assert!(auth.auth(&mut state.temp_db).is_ok());
    assert!(is_stopped(&runtime, timer));

    let error = auth.auth(&mut state.temp_db).unwrap_err();
    assert_eq!(error.status_code(), 408);
    assert_eq!(
        error.to_string(),
        "Email could not be found, could have timed out: leia@alderaan.org"
    );
}

#[test]
fn wrong_code_uses_up_the_wait() {
    let runtime = runtime();
    let mut state = state();
    let timer = timer(&runtime);
    register(&mut state, "leia@alderaan.org", 1138, &timer);

    let error = user_auth("leia@alderaan.org", 1139).auth(&mut state.temp_db).unwrap_err();
    assert!(is_stopped(&runtime, timer));
    assert_eq!(error.to_string(), "Code does not match: 1139");
    assert_eq!(error.into_response(), (401, String::from("CodeDoesNotMatch(1139)")));

    let error = user_auth("leia@alderaan.org", 1138).auth(&mut state.temp_db).unwrap_err();
    assert_eq!(error.status_code(), 408);
}

#[test]
fn later_code_replaces_an_earlier_one() {
    let runtime = runtime();
    let mut state = state();
    let first = timer(&runtime);
    let second = timer(&runtime);
    register(&mut state, "leia@alderaan.org", 1138, &first);
    register(&mut state, "leia@alderaan.org", 2187, &second);
    assert!(is_stopped(&runtime, first));
    assert!(user_auth("leia@alderaan.org", 2187).auth(&mut state.temp_db).is_ok());
    assert!(is_stopped(&runtime, second));
}

#[test]
fn code_times_out() {
    let runtime = runtime();
    let mut state = state();
    let timer = timer(&runtime);
    register(&mut state, "leia@alderaan.org", 1138, &timer);
    state.temp_db.expire(&address("leia@alderaan.org"));
    let error = user_auth("leia@alderaan.org", 1138).auth(&mut state.temp_db).unwrap_err();
    assert_eq!(error.status_code(), 408);
    assert!(!is_stopped(&runtime, timer));
    assert_eq!(TIMEOUT_SECS, 60);
}

#[test]
fn addresses_wait_apart() {
    let runtime = runtime();
    let mut db = TempDb::new();
    let leia = address("leia@alderaan.org");
    let han = address("han@falcon.org");
    db.insert(&leia, TempData::new(timer(&runtime).abort_handle(), 1138));
    db.insert(&han, TempData::new(timer(&runtime).abort_handle(), 2187));
    assert_eq!(db.end(&leia, 2187), Entered::Differs);
    assert_eq!(db.end(&leia, 1138), Entered::Absent);
    assert_eq!(db.end(&han, 2187), Entered::Matches);
    assert_eq!(db.end(&address("Han@falcon.org"), 2187), Entered::Absent);
}

#[test]
fn timer_ends_with_its_data() {
    let runtime = runtime();
    let timer = timer(&runtime);
    let data = TempData::new(timer.abort_handle(), 7);
    let mut stopped = Stopped::new();
    assert!(!data.end(8, &mut stopped));
    assert!(data.end(7, &mut stopped));
    assert!(is_stopped(&runtime, timer));
}

#[test]
fn unsubscribing_asks_for_the_user() {
    let runtime = runtime();
    let mut state = state();
    register(&mut state, "leia@alderaan.org", 1138, &timer(&runtime));
    let auth = user_auth("leia@alderaan.org", 1138);
    let removal = unsubscribe(&mut state.temp_db, auth).ok().unwrap();
    assert!(
        matches!(removal.request(), Some(Request::FindUser(email)) if email == "leia@alderaan.org")
    );
}

#[test]
fn unsubscribing_without_a_code_is_refused() {
    let runtime = runtime();
    let mut state = state();
    let error = unsubscribe(&mut state.temp_db, user_auth("leia@alderaan.org", 1138));
    assert_eq!(error.err().unwrap().status_code(), 408);

    register(&mut state, "leia@alderaan.org", 1138, &timer(&runtime));
    let error = unsubscribe(&mut state.temp_db, user_auth("leia@alderaan.org", 1));
    assert_eq!(error.err().unwrap().status_code(), 401);
}

#[test]
fn updating_asks_for_the_stations() {
    let runtime = runtime();
    let mut state = state();
    register(&mut state, "leia@alderaan.org", 1138, &timer(&runtime));
    let subscription = Subscription {
        user_auth: user_auth("leia@alderaan.org", 1138),
        stations: vec![String::from("Rosslyn")],
    };
    let update = update_subscription(&mut state.temp_db, subscription).ok().unwrap();
    assert!(matches!(update.request(), Some(Request::ListStations)));
}

#[test]
fn updating_without_a_code_is_refused() {
    let mut state = state();
    let subscription = Subscription {
        user_auth: user_auth("leia@alderaan.org", 1138),
        stations: vec![String::from("Rosslyn")],
    };
    let error = update_subscription(&mut state.temp_db, subscription).err().unwrap();
    assert_eq!(
        error.into_response(),
        (
            408,
            String::from(
                "EmailNotFound(Address { serialized: \"leia@alderaan.org\", at_start: 4 })"
            )
        )
    );
}

#[test]
fn sending_may_fail() {
    assert!(sent(Ok(())).is_ok());
    let error = sent(Err(String::from("Network(\"down\")"))).unwrap_err();
    assert_eq!(error.to_string(), "Failed to send email: Network(\"down\")");
    assert_eq!(
        error.into_response(),
        (500, String::from("SendError(\"Network(\\\"down\\\")\")"))
    );
}

#[test]
fn errors_are_told() {
    let cause = || Cause {
        display: String::from("gone"),
        debug: String::from("Gone { now: true }"),
    };
    let told = |error: Error| (error.status_code(), error.debug_text(), error.to_string());
    assert_eq!(
        told(Error::IoError(cause())),
        (500, String::from("IoError(Gone { now: true })"), String::from("IO error: gone"))
    );
    assert_eq!(
        told(Error::DbError(cause())),
        (500, String::from("DbError(Gone { now: true })"), String::from("Database Error: gone"))
    );
    assert_eq!(
        told(Error::EmailError(cause())),
        (
            500,
            String::from("EmailError(Gone { now: true })"),
            String::from("Failed to generate email message: gone")
        )
    );
    let faults = [
        (AddressError::MissingParts, "MissingParts", "Missing domain or user"),
        (AddressError::Unbalanced, "Unbalanced", "Unbalanced angle bracket"),
        (AddressError::InvalidUser, "InvalidUser", "Invalid email user"),
        (AddressError::InvalidDomain, "InvalidDomain", "Invalid email domain"),
        (AddressError::InvalidInput, "InvalidInput", "Invalid input"),
    ];
    for (fault, name, sentence) in faults {
        assert_eq!(
            told(Error::AddressError(fault)),
            (
                400,
                format!("AddressError({name})"),
                format!("Invalid Email Address: {sentence}")
            )
        );
    }
}

#[test]
fn codes_read_in_decimal() {
    for code in [0, 9, 10, 99, 100, 1138, 10000, 65535] {
        assert_eq!(code_text(code), format!("{code}"));
    }
}

#[test]
fn address_that_no_header_takes_is_refused() {
    for text in ["\"le ia\"@alderaan.org", "\"le@ia\"@alderaan.org", "leia@[127.0.0.1]"] {
        let submission = Submission::with_code(text, 1138).ok().unwrap();
        assert_eq!(submission.address().as_str(), text);
        let error = state().prepare(submission).err().unwrap();
        assert_eq!(
            error.to_string(),
            "Failed to generate email message: missing destination address, invalid envelope"
        );
        assert_eq!(error.into_response(), (500, String::from("EmailError(MissingTo)")));
    }
}

#[test]
fn unquoted_addresses_come_back() {
    let runtime = runtime();
    let texts = [
        "le'ia/o=rgana!#$%&*+-?^_`{|}~@alderaan.org",
        "lé.ïa@alderåan.org",
        "a.b.c@x-y.z9",
        "leia@127.0.0.1",
        "レイア@alderaan.org",
    ];
    for text in texts {
        let mut state = AppState::new(Mailbox::new(Some(String::from("Fire")), address(text)));
        let mail = register(&mut state, text, 1138, &timer(&runtime));
        assert_eq!(mail.sender, Some(text.to_string()));
        assert_eq!(mail.recipients, [text]);
    }
}

#[test]
fn null_character_in_the_name_is_refused() {
    let mailbox = Mailbox::new(Some(String::from("Fire\0Alarm")), address("alarm@wmata.org"));
    let submission = Submission::with_code("leia@alderaan.org", 1138).ok().unwrap();
    let error = AppState::new(mailbox).prepare(submission).err().unwrap();
    assert_eq!(error.into_response(), (500, String::from("EmailError(MissingFrom)")));
}

#[test]
fn needless_quotes_are_dropped_from_the_envelope() {
    let runtime = runtime();
    let mut state = state();
    let mail = register(&mut state, "\"leia\"@alderaan.org", 1138, &timer(&runtime));
    assert_eq!(mail.recipients, ["leia@alderaan.org"]);
    assert!(user_auth("\"leia\"@alderaan.org", 1138).auth(&mut state.temp_db).is_ok());
}

#[test]
fn only_the_mailed_code_is_admitted() {
    let runtime = runtime();
    for code in [0, 7, 42, 1138, 65535] {
        let mut state = state();
        let mail = register(&mut state, "leia@alderaan.org", code, &timer(&runtime));
        let data = String::from_utf8(mail.data).unwrap();
        let entered: u16 = data.rsplit("\r\n\r\n").next().unwrap().parse().unwrap();
        assert!(user_auth("leia@alderaan.org", entered).auth(&mut state.temp_db).is_ok());

        register(&mut state, "leia@alderaan.org", code, &timer(&runtime));
        let other = entered.wrapping_add(1);
        assert!(user_auth("leia@alderaan.org", other).auth(&mut state.temp_db).is_err());
    }
}
