//! The mails that carry verification codes.

use vstd::prelude::*;
use vstd::utf8::{encode_utf8, is_ascii_chars};

use crate::address::{address_fault, Address};
use crate::error::Cause;
use crate::text::texts;

verus! {

/// White space, as Unicode has it.
pub open spec fn is_space(c: char) -> bool {
    ||| 0x9 <= c as u32 <= 0xd
    ||| c as u32 == 0x20
    ||| c as u32 == 0x85
    ||| c as u32 == 0xa0
    ||| c as u32 == 0x1680
    ||| 0x2000 <= c as u32 <= 0x200a
    ||| c as u32 == 0x2028
    ||| c as u32 == 0x2029
    ||| c as u32 == 0x202f
    ||| c as u32 == 0x205f
    ||| c as u32 == 0x3000
}

/// A line feed or a carriage return.
pub open spec fn is_line_break(c: char) -> bool {
    c == '\n' || c == '\r'
}

/// `name` is broken into lines by more than the white space around it.
pub open spec fn is_broken(name: Seq<char>) -> bool {
    exists|i: int, j: int, k: int|
        0 <= i < j < k < name.len() && !is_space(#[trigger] name[i]) && is_line_break(
            #[trigger] name[j],
        ) && !is_space(#[trigger] name[k])
}

/// Whether a display name can stand in a mail header.
pub open spec fn is_writable(name: Option<Seq<char>>) -> bool {
    name matches Some(text) ==> !is_broken(text)
}

/// A text that is there or not.
pub open spec fn optional_text(text: Option<String>) -> Option<Seq<char>> {
    match text {
        Some(text) => Some(text@),
        None => None,
    }
}

fn is_space_char(c: char) -> (result: bool)
    ensures
        result == is_space(c),
{
    let n: u32 = c as u32;
    (0x9 <= n && n <= 0xd) || n == 0x20 || n == 0x85 || n == 0xa0 || n == 0x1680 || (0x2000 <= n
        && n <= 0x200a) || n == 0x2028 || n == 0x2029 || n == 0x202f || n == 0x205f || n == 0x3000
}

/// Whether a display name can stand in a mail header: one that is broken into lines cannot.
pub fn is_writable_name(name: &str) -> (result: bool)
    ensures
        result == is_writable(Some(name@)),
{
    let ghost text = name@;
    let mut started: bool = false;
    let mut broken: bool = false;
    for c in it: name.chars()
        invariant
            it.seq() == text,
            text == name@,
            started == exists|i: int| 0 <= i < it.index() && !is_space(#[trigger] text[i]),
            broken == exists|i: int, j: int|
                0 <= i < j < it.index() && !is_space(#[trigger] text[i]) && is_line_break(
                    #[trigger] text[j],
                ),
            forall|i: int, j: int, k: int|
                0 <= i < j < k < it.index() && !is_space(#[trigger] text[i]) && is_line_break(
                    #[trigger] text[j],
                ) ==> is_space(#[trigger] text[k]),
    {
        assert(c == text[it.index()]);
        if broken && !is_space_char(c) {
            proof {
                let (i, j) = choose|i: int, j: int|
                    0 <= i < j < it.index() && !is_space(#[trigger] text[i]) && is_line_break(
                        #[trigger] text[j],
                    );
                let k = it.index();
                assert(!is_space(text[i]) && is_line_break(text[j]) && !is_space(text[k]));
                assert(is_broken(text));
            }
            return false;
        }
        if started && (c == '\n' || c == '\r') {
            assert(is_line_break(text[it.index()]));
            broken = true;
        }
        if !is_space_char(c) {
            assert(!is_space(text[it.index()]));
            started = true;
        }
    }
    true
}

/// Who a mail is from.
pub struct Mailbox {
    name: Option<String>,
    email: Address,
}

impl Mailbox {
    /// The name can stand in a mail header.
    #[verifier::type_invariant]
    spec fn writable(self) -> bool {
        is_writable(optional_text(self.name))
    }

    /// The display name.
    pub closed spec fn spec_name(self) -> Option<Seq<char>> {
        optional_text(self.name)
    }

    /// The text of the address.
    pub closed spec fn spec_email(self) -> Seq<char> {
        self.email@
    }

    /// A mailbox with a display name, or with the bare address.
    pub fn new(name: Option<String>, email: Address) -> (result: Mailbox)
        requires
            is_writable(optional_text(name)),
        ensures
            result.spec_name() == optional_text(name),
            result.spec_email() == email@,
    {
        Mailbox { name, email }
    }

    /// A mailbox with a display name, or with the bare address, where the name can stand in a mail
    /// header.
    pub fn try_new(name: Option<String>, email: Address) -> (result: Option<Mailbox>)
        ensures
            result is Some <==> is_writable(optional_text(name)),
            result matches Some(mailbox) ==> mailbox.spec_name() == optional_text(name)
                && mailbox.spec_email() == email@,
    {
        let writable: bool = match &name {
            Some(text) => is_writable_name(text.as_str()),
            None => true,
        };
        if writable {
            Some(Mailbox::new(name, email))
        } else {
            None
        }
    }
}

/// A composed mail: its envelope, and the lines that go over the wire.
pub struct Outgoing {
    pub sender: Option<String>,
    pub recipients: Vec<String>,
    pub data: Vec<u8>,
}

/// The part of a composed mail that does not depend on the time: the sender and the recipients of
/// the envelope, and the header lines that stand above the `Date` line.
pub type Stamped = (Option<Seq<char>>, Seq<Seq<char>>, Seq<u8>);

/// What `lettre` makes of a sender's display name and address, a subject, a content type, a
/// recipient's address and a body: the mail without its date, or the error in its display and
/// debug notations.
pub uninterp spec fn composed(
    name: Option<Seq<char>>,
    from: Seq<char>,
    subject: Seq<char>,
    content_type: Seq<char>,
    to: Seq<char>,
    body: Seq<char>,
) -> Result<Stamped, (Seq<char>, Seq<char>)>;

/// A short line of ASCII text.
pub open spec fn is_short_line(text: Seq<char>) -> bool {
    &&& is_ascii_chars(text)
    &&& text.len() < 76
    &&& forall|i: int| 0 <= i < text.len() ==> #[trigger] text[i] != '\n'
}

/// The header lines `head`, a line with the date, an empty line, and the body.
pub open spec fn dated(head: Seq<u8>, date: Seq<u8>, body: Seq<char>) -> Seq<u8> {
    head + seq![68u8, 97, 116, 101, 58, 32] + date + seq![13u8, 10, 13, 10] + encode_utf8(body)
}

/// A letter of ASCII.
pub open spec fn is_letter_byte(byte: u8) -> bool {
    65 <= byte <= 90 || 97 <= byte <= 122
}

/// A digit of ASCII.
pub open spec fn is_digit_byte(byte: u8) -> bool {
    48 <= byte <= 57
}

/// A weekday, a day, a month, a year, and a time of day in universal time, as in
/// `Sun, 06 Nov 1994 08:49:37 +0000`.
pub open spec fn is_date(date: Seq<u8>) -> bool {
    &&& date.len() == 31
    &&& is_letter_byte(date[0]) && is_letter_byte(date[1]) && is_letter_byte(date[2])
    &&& date[3] == 44 && date[4] == 32
    &&& is_digit_byte(date[5]) && is_digit_byte(date[6]) && date[7] == 32
    &&& is_letter_byte(date[8]) && is_letter_byte(date[9]) && is_letter_byte(date[10])
    &&& date[11] == 32
    &&& is_digit_byte(date[12]) && is_digit_byte(date[13]) && is_digit_byte(date[14])
    &&& is_digit_byte(date[15]) && date[16] == 32
    &&& is_digit_byte(date[17]) && is_digit_byte(date[18]) && date[19] == 58
    &&& is_digit_byte(date[20]) && is_digit_byte(date[21]) && date[22] == 58
    &&& is_digit_byte(date[23]) && is_digit_byte(date[24])
    &&& date.skip(25) == seq![32u8, 43, 48, 48, 48, 48]
}

/// `data` is such lines with some date.
pub open spec fn is_dated(head: Seq<u8>, body: Seq<char>, data: Seq<u8>) -> bool {
    exists|date: Seq<u8>| is_date(date) && data == #[trigger] dated(head, date, body)
}

/// `result` is the named outcome of a mail with this body: the mail with some date, or the error.
pub open spec fn is_outcome(
    outcome: Result<Stamped, (Seq<char>, Seq<char>)>,
    body: Seq<char>,
    result: Result<Outgoing, Cause>,
) -> bool {
    match (outcome, result) {
        (Ok(stamped), Ok(mail)) => {
            &&& optional_text(mail.sender) == stamped.0
            &&& texts(mail.recipients@) == stamped.1
            &&& is_dated(stamped.2, body, mail.data@)
        },
        (Err(texts), Err(cause)) => cause.display@ == texts.0 && cause.debug@ == texts.1,
        _ => false,
    }
}

/// `result` is a mail from the one address to the other and to no one else.
pub open spec fn is_sent(from: Seq<char>, to: Seq<char>, result: Result<Outgoing, Cause>) -> bool {
    match result {
        Ok(mail) => optional_text(mail.sender) == Some(from) && texts(mail.recipients@) == seq![to],
        Err(_) => false,
    }
}

/// A character that an address can hold without quotes: a letter or a digit of ASCII, one of the
/// signs that may stand in an atom of a mail header, or a character beyond ASCII.
pub open spec fn is_plain(c: char) -> bool {
    ||| 'a' <= c <= 'z'
    ||| 'A' <= c <= 'Z'
    ||| '0' <= c <= '9'
    ||| c == '!' || c == '#' || c == '$' || c == '%' || c == '&' || c == '\'' || c == '*'
    ||| c == '+' || c == '-' || c == '/' || c == '=' || c == '?' || c == '^' || c == '_'
    ||| c == '`' || c == '{' || c == '|' || c == '}' || c == '~'
    ||| c as u32 >= 0x80
}

/// Runs of plain characters with single dots between them.
pub open spec fn is_dotted(text: Seq<char>) -> bool {
    &&& text.len() > 0
    &&& text[0] != '.'
    &&& text.last() != '.'
    &&& forall|i: int| 0 <= i < text.len() ==> is_plain(#[trigger] text[i]) || text[i] == '.'
    &&& forall|i: int, j: int|
        0 <= i < text.len() && j == i + 1 && j < text.len() && #[trigger] text[i] == '.'
            ==> #[trigger] text[j] != '.'
}

/// An address that needs no quoting: dotted runs of plain characters on both sides of the `@`.
pub open spec fn is_simple_address(text: Seq<char>) -> bool {
    exists|user: Seq<char>, domain: Seq<char>|
        text == user + seq!['@'] + domain && #[trigger] is_dotted(user) && #[trigger] is_dotted(
            domain,
        )
}

/// No display name, or one without a null character.
pub open spec fn is_simple_name(name: Option<Seq<char>>) -> bool {
    name matches Some(text) ==> !text.contains('\0')
}

/// One or more lower-case letters, digits and hyphens of ASCII.
pub open spec fn is_word(text: Seq<char>) -> bool {
    &&& text.len() > 0
    &&& forall|i: int|
        0 <= i < text.len() ==> 'a' <= #[trigger] text[i] <= 'z' || '0' <= text[i] <= '9'
            || text[i] == '-'
}

/// A type, a subtype, and a parameter with its value.
pub open spec fn media_type(
    kind: Seq<char>,
    subtype: Seq<char>,
    parameter: Seq<char>,
    value: Seq<char>,
) -> Seq<char> {
    kind + "/"@ + subtype + "; "@ + parameter + "="@ + value
}

/// `text` is a type, a subtype, and a parameter with its value, each a plain word.
pub open spec fn is_media_type(text: Seq<char>) -> bool {
    exists|kind: Seq<char>, subtype: Seq<char>, parameter: Seq<char>, value: Seq<char>|
        text == #[trigger] media_type(kind, subtype, parameter, value) && is_word(kind) && is_word(
            subtype,
        ) && is_word(parameter) && is_word(value)
}

/// Printable ASCII text, short enough to stand on one header line.
pub open spec fn is_header_text(text: Seq<char>) -> bool {
    &&& text.len() < 60
    &&& forall|i: int| 0 <= i < text.len() ==> ' ' <= #[trigger] text[i] <= '~'
}

/// A letter or a digit of ASCII, a hyphen, an underscore or a dot.
pub open spec fn is_label_char(c: char) -> bool {
    'a' <= c <= 'z' || 'A' <= c <= 'Z' || '0' <= c <= '9' || c == '-' || c == '_' || c == '.'
}

/// A label, and an address in angle brackets.
pub open spec fn labelled(label: Seq<char>, email: Seq<char>) -> Seq<char> {
    label + " <"@ + email + ">"@
}

/// `shown` is how a mailbox stands in a header: the bare address, or the address behind a label. A
/// display name that is a plain word is the label itself, and one of a few plain words in quotes.
pub open spec fn is_shown(name: Option<Seq<char>>, email: Seq<char>, shown: Seq<char>) -> bool {
    match name {
        None => shown == email,
        Some(text) => exists|label: Seq<char>|
            {
                &&& shown == #[trigger] labelled(label, email)
                &&& (forall|i: int| 0 <= i < text.len() ==> is_label_char(#[trigger] text[i]))
                    ==> label == text
                &&& text.len() < 60 && text.contains(' ') && (forall|i: int|
                    0 <= i < text.len() ==> is_label_char(#[trigger] text[i]) || text[i] == ' ')
                    ==> label == "\""@ + text + "\""@
            },
    }
}

/// The lines at the head of a mail, and then `rest`.
pub open spec fn headed(
    shown: Seq<char>,
    subject: Seq<char>,
    content_type: Seq<char>,
    to: Seq<char>,
    rest: Seq<u8>,
) -> Seq<u8> {
    encode_utf8("From: "@ + shown) + encode_utf8("\r\nSubject: "@ + subject) + encode_utf8(
        "\r\nContent-Type: "@ + content_type,
    ) + encode_utf8("\r\nTo: "@ + to) + encode_utf8(
        "\r\nContent-Transfer-Encoding: 7bit\r\nDate: "@,
    ) + rest
}

/// `result`, where it is a mail, has these lines at its head.
pub open spec fn is_headed(
    name: Option<Seq<char>>,
    from: Seq<char>,
    subject: Seq<char>,
    content_type: Seq<char>,
    to: Seq<char>,
    result: Result<Outgoing, Cause>,
) -> bool {
    result matches Ok(mail) ==> exists|shown: Seq<char>, rest: Seq<u8>|
        is_shown(name, from, shown) && mail.data@ == #[trigger] headed(
            shown,
            subject,
            content_type,
            to,
            rest,
        )
}

/// Composes a mail.
///
/// Calls the message builder of `lettre`: `Message::builder`, `from`, `subject`, `header` with what
/// `ContentType::parse` makes of the content type, `to` and `body`, and then `envelope` and
/// `formatted` on the message. But for the current time, which stands in the `Date` line, the last
/// of the header lines, in a fixed format, the outcome is a function of the arguments, and is given
/// a name here. A short ASCII line is not encoded as a body, so the body stands at the end of the
/// data as it is; a longer or an encoded body is left out. The builder writes the two addresses
/// into headers and parses them again: it may refuse an address that needs quoting, or hand it on
/// unquoted; one that needs none comes back as it was, beside any display name without a null
/// character. The header lines stand in the order in which they are set, and then those for the
/// encoding and the date. The two addresses stand in them as they are, and so do a subject and a
/// content type that fit on one line; a longer or an encoded subject is left out, and of the
/// display name only that a plain word stands as it is, and a few plain words in quotes. A display
/// name that is broken into lines, an address that does not parse, and a content type that does not
/// parse would panic and are left out; one that is made of plain words parses. A system clock
/// before 1970 or after 9999 would panic too.
#[verifier::external_body]
fn build_message(
    name: &Option<String>,
    from: &str,
    subject: &str,
    content_type: &str,
    to: &str,
    body: &str,
) -> (result: Result<Outgoing, Cause>)
    requires
        is_writable(optional_text(*name)),
        is_media_type(content_type@),
        address_fault(from@) is None,
        address_fault(to@) is None,
        is_short_line(body@),
    ensures
        is_outcome(
            composed(optional_text(*name), from@, subject@, content_type@, to@, body@),
            body@,
            result,
        ),
        is_simple_name(optional_text(*name)) && is_simple_address(from@) && is_simple_address(to@)
            ==> is_sent(from@, to@, result),
        is_header_text(subject@) && content_type@.len() < 60 ==> is_headed(
            optional_text(*name),
            from@,
            subject@,
            content_type@,
            to@,
            result,
        ),
{
    lettre::Message::builder()
        .from(lettre::message::Mailbox::new(name.clone(), from.parse().unwrap()))
        .subject(subject)
        .header(lettre::message::header::ContentType::parse(content_type).unwrap())
        .to(lettre::message::Mailbox::from(to.parse::<lettre::Address>().unwrap()))
        .body(body.to_string())
        .map(|message| Outgoing {
            sender: message.envelope().from().map(|address| address.to_string()),
            recipients: message.envelope().to().iter().map(|address| address.to_string()).collect(),
            data: message.formatted(),
        })
        .map_err(|error| Cause { display: error.to_string(), debug: format!("{:?}", error) })
}

/// The mails from one mailbox about one subject, with one type of content.
pub struct MessageBuilder {
    from: Mailbox,
    subject: String,
    content_type: String,
}

impl MessageBuilder {
    /// The content type is one.
    #[verifier::type_invariant]
    spec fn typed(self) -> bool {
        is_media_type(self.content_type@)
    }

    /// The mailbox that the mails are from.
    pub closed spec fn spec_from(self) -> Mailbox {
        self.from
    }

    /// The subject of the mails.
    pub closed spec fn spec_subject(self) -> Seq<char> {
        self.subject@
    }

    /// The content type of the mails.
    pub closed spec fn spec_content_type(self) -> Seq<char> {
        self.content_type@
    }

    /// What comes of a mail with this body to this address.
    pub open spec fn outcome(self, to: Seq<char>, body: Seq<char>) -> Result<
        Stamped,
        (Seq<char>, Seq<char>),
    > {
        composed(
            self.spec_from().spec_name(),
            self.spec_from().spec_email(),
            self.spec_subject(),
            self.spec_content_type(),
            to,
            body,
        )
    }

    /// Neither address needs quoting, and the display name holds no null character.
    pub open spec fn is_simple(self, to: Seq<char>) -> bool {
        is_simple_name(self.spec_from().spec_name()) && is_simple_address(
            self.spec_from().spec_email(),
        ) && is_simple_address(to)
    }

    /// Mails from `from` about `subject` whose body is of type `content_type`.
    pub(crate) fn new(from: Mailbox, subject: &str, content_type: &str) -> (result: MessageBuilder)
        requires
            is_media_type(content_type@),
        ensures
            result.spec_from() == from,
            result.spec_subject() == subject@,
            result.spec_content_type() == content_type@,
    {
        MessageBuilder {
            from,
            subject: subject.to_owned(),
            content_type: content_type.to_owned(),
        }
    }

    /// The mail with this body to this address.
    pub(crate) fn body(&self, to: &Address, body: &str) -> (result: Result<Outgoing, Cause>)
        requires
            is_short_line(body@),
        ensures
            is_outcome(self.outcome(to@, body@), body@, result),
            self.is_simple(to@) ==> is_sent(self.spec_from().spec_email(), to@, result),
            is_header_text(self.spec_subject()) && self.spec_content_type().len() < 60
                ==> is_headed(
                self.spec_from().spec_name(),
                self.spec_from().spec_email(),
                self.spec_subject(),
                self.spec_content_type(),
                to@,
                result,
            ),
    {
        proof {
            use_type_invariant(self);
            use_type_invariant(&self.from);
        }
        build_message(
            &self.from.name,
            self.from.email.as_str(),
            self.subject.as_str(),
            self.content_type.as_str(),
            to.as_str(),
            body,
        )
    }
}

/// What comes of a mail is what `lettre` makes of the builder's own sender, subject and content
/// type, and of the recipient and the body, whatever each of them is.
pub proof fn law_outcome_is_of_the_parts(builder: MessageBuilder, to: Seq<char>, body: Seq<char>)
    ensures
        builder.outcome(to, body) == composed(
            builder.spec_from().spec_name(),
            builder.spec_from().spec_email(),
            builder.spec_subject(),
            builder.spec_content_type(),
            to,
            body,
        ),
{
}

/// Text is encoded piece by piece.
proof fn lemma_encode_concat(a: Seq<char>, b: Seq<char>)
    ensures
        encode_utf8(a + b) == encode_utf8(a) + encode_utf8(b),
    decreases a.len(),
{
    if a.len() == 0 {
        assert(a + b =~= b);
        assert(encode_utf8(a) + encode_utf8(b) =~= encode_utf8(b));
    } else {
        lemma_encode_concat(a.drop_first(), b);
        assert((a + b).drop_first() =~= a.drop_first() + b);
        let first = vstd::utf8::encode_scalar(a[0] as u32);
        assert(first + (encode_utf8(a.drop_first()) + encode_utf8(b)) =~= first + encode_utf8(
            a.drop_first(),
        ) + encode_utf8(b));
    }
}

/// The head of a mail holds a line with the subject, one with the content type and one with the
/// recipient's address, each in full, and begins with the sender's: with the bare address, where
/// there is no display name, and otherwise with the address in angle brackets at its end.
pub proof fn law_mail_holds_its_header_lines(
    name: Option<Seq<char>>,
    from: Seq<char>,
    subject: Seq<char>,
    content_type: Seq<char>,
    to: Seq<char>,
    mail: Outgoing,
)
    requires
        is_headed(name, from, subject, content_type, to, Ok(mail)),
    ensures
        exists|head: Seq<u8>, rest: Seq<u8>|
            mail.data@ == #[trigger] (head + encode_utf8("\r\nSubject: "@ + subject + "\r\n"@)
                + rest),
        exists|head: Seq<u8>, rest: Seq<u8>|
            mail.data@ == #[trigger] (head + encode_utf8(
                "\r\nContent-Type: "@ + content_type + "\r\n"@,
            ) + rest),
        exists|head: Seq<u8>, rest: Seq<u8>|
            mail.data@ == #[trigger] (head + encode_utf8("\r\nTo: "@ + to + "\r\n"@) + rest),
        name is None ==> exists|rest: Seq<u8>|
            mail.data@ == #[trigger] (encode_utf8("From: "@ + from + "\r\n"@) + rest),
        name is Some ==> exists|label: Seq<char>, rest: Seq<u8>|
            mail.data@ == #[trigger] (encode_utf8(
                "From: "@ + label + " <"@ + from + ">"@ + "\r\n"@,
            ) + rest),
{
    let (shown, rest) = choose|shown: Seq<char>, rest: Seq<u8>|
        is_shown(name, from, shown) && mail.data@ == #[trigger] headed(
            shown,
            subject,
            content_type,
            to,
            rest,
        );
    let end = "\r\n"@;
    let from_line = encode_utf8("From: "@ + shown);
    let subject_line = encode_utf8("\r\nSubject: "@ + subject);
    let type_line = encode_utf8("\r\nContent-Type: "@ + content_type);
    let to_line = encode_utf8("\r\nTo: "@ + to);
    let date_line = encode_utf8("\r\nContent-Transfer-Encoding: 7bit\r\nDate: "@);
    lemma_lines_begin_with_a_break(subject, content_type, to);
    let last = "Content-Transfer-Encoding: 7bit\r\nDate: "@;
    lemma_line_ends(from_line + subject_line + type_line, "\r\nTo: "@ + to, last, rest);
    lemma_line_ends(
        from_line + subject_line,
        "\r\nContent-Type: "@ + content_type,
        "To: "@ + to,
        date_line + rest,
    );
    lemma_line_ends(
        from_line,
        "\r\nSubject: "@ + subject,
        "Content-Type: "@ + content_type,
        to_line + (date_line + rest),
    );
    lemma_line_ends(
        Seq::empty(),
        "From: "@ + shown,
        "Subject: "@ + subject,
        type_line + (to_line + (date_line + rest)),
    );
    lemma_regroup(from_line, subject_line, type_line, to_line, date_line, rest);
    if name is Some {
        let label = choose|label: Seq<char>| shown == #[trigger] labelled(label, from);
        assert("From: "@ + shown + end =~= "From: "@ + label + " <"@ + from + ">"@ + end);
    }
}

/// A line ends where the next one begins.
proof fn lemma_line_ends(before: Seq<u8>, line: Seq<char>, next: Seq<char>, rest: Seq<u8>)
    ensures
        before + encode_utf8(line) + encode_utf8("\r\n"@ + next) + rest == before + encode_utf8(
            line + "\r\n"@,
        ) + (encode_utf8(next) + rest),
{
    lemma_encode_concat(line, "\r\n"@);
    lemma_encode_concat("\r\n"@, next);
    let end = encode_utf8("\r\n"@);
    assert(before + encode_utf8(line) + (end + encode_utf8(next)) + rest =~= before + (encode_utf8(
        line,
    ) + end) + (encode_utf8(next) + rest));
}

/// The same bytes, grouped in other ways.
proof fn lemma_regroup(a: Seq<u8>, b: Seq<u8>, c: Seq<u8>, d: Seq<u8>, e: Seq<u8>, f: Seq<u8>)
    ensures
        a + b + c + d + e + f == a + b + c + d + (e + f),
        a + b + c + d + e + f == a + b + c + (d + (e + f)),
        a + b + c + d + e + f == Seq::empty() + a + b + (c + (d + (e + f))),
        forall|x: Seq<u8>| #[trigger] (Seq::<u8>::empty() + x) == x,
{
    assert(a + b + c + d + e + f =~= a + b + c + d + (e + f));
    assert(a + b + c + d + (e + f) =~= a + b + c + (d + (e + f)));
    assert(a + b + c + (d + (e + f)) =~= Seq::empty() + a + b + (c + (d + (e + f))));
    assert forall|x: Seq<u8>| #[trigger] (Seq::<u8>::empty() + x) == x by {
        assert(Seq::<u8>::empty() + x =~= x);
    }
}

/// The lines after the first begin with a line break.
proof fn lemma_lines_begin_with_a_break(
    subject: Seq<char>,
    content_type: Seq<char>,
    to: Seq<char>,
)
    ensures
        "\r\nSubject: "@ + subject == "\r\n"@ + ("Subject: "@ + subject),
        "\r\nContent-Type: "@ + content_type == "\r\n"@ + ("Content-Type: "@ + content_type),
        "\r\nTo: "@ + to == "\r\n"@ + ("To: "@ + to),
        "\r\nContent-Transfer-Encoding: 7bit\r\nDate: "@ == "\r\n"@
            + "Content-Transfer-Encoding: 7bit\r\nDate: "@,
{
    reveal_strlit("\r\n");
    reveal_strlit("Subject: ");
    reveal_strlit("\r\nSubject: ");
    assert("\r\nSubject: "@ + subject =~= "\r\n"@ + ("Subject: "@ + subject));
    reveal_strlit("Content-Type: ");
    reveal_strlit("\r\nContent-Type: ");
    assert("\r\nContent-Type: "@ + content_type =~= "\r\n"@ + ("Content-Type: "@
        + content_type));
    reveal_strlit("To: ");
    reveal_strlit("\r\nTo: ");
    assert("\r\nTo: "@ + to =~= "\r\n"@ + ("To: "@ + to));
    reveal_strlit("Content-Transfer-Encoding: 7bit\r\nDate: ");
    reveal_strlit("\r\nContent-Transfer-Encoding: 7bit\r\nDate: ");
    assert("\r\nContent-Transfer-Encoding: 7bit\r\nDate: "@ =~= "\r\n"@
        + "Content-Transfer-Encoding: 7bit\r\nDate: "@);
}

/// A named outcome, spelled out: a mail has the envelope of the outcome, begins with its lines and
/// ends in an empty line and the body; an error is told in both notations; and there is a mail
/// exactly where the outcome is one.
pub proof fn law_outcome_is_told_in_full(
    outcome: Result<Stamped, (Seq<char>, Seq<char>)>,
    body: Seq<char>,
    result: Result<Outgoing, Cause>,
)
    requires
        is_outcome(outcome, body, result),
    ensures
        outcome is Ok <==> result is Ok,
        result matches Ok(mail) ==> {
            let (sender, recipients, head) = outcome->Ok_0;
            &&& mail.sender is Some <==> sender is Some
            &&& mail.sender matches Some(text) ==> sender == Some(text@)
            &&& mail.recipients@.len() == recipients.len()
            &&& forall|i: int|
                0 <= i < recipients.len() ==> (#[trigger] mail.recipients@[i])@ == recipients[i]
            &&& mail.data@.len() == head.len() + 41 + encode_utf8(body).len()
            &&& mail.data@.take(head.len() as int) == head
            &&& forall|i: int|
                head.len() <= i < head.len() + 37 ==> 32 <= #[trigger] mail.data@[i] <= 126
            &&& mail.data@.subrange(head.len() as int, head.len() as int + 6) == seq![
                68u8,
                97,
                116,
                101,
                58,
                32,
            ]
            &&& mail.data@.skip(mail.data@.len() - encode_utf8(body).len() - 4) == seq![
                13u8,
                10,
                13,
                10,
            ] + encode_utf8(body)
        },
        result matches Err(cause) ==> cause.display@ == outcome->Err_0.0 && cause.debug@
            == outcome->Err_0.1,
{
    match (outcome, result) {
        (Ok(stamped), Ok(mail)) => {
            let head = stamped.2;
            let date = choose|date: Seq<u8>|
                is_date(date) && mail.data@ == #[trigger] dated(head, date, body);
            assert(mail.data@.take(head.len() as int) =~= head);
            assert forall|i: int| head.len() <= i < head.len() + 37 implies 32
                <= #[trigger] mail.data@[i] <= 126 by {
                if i >= head.len() + 31 {
                    let j = i - head.len() - 31;
                    assert(date.skip(25)[j] == mail.data@[i]);
                } else if i >= head.len() + 6 {
                    assert(date[i - head.len() - 6] == mail.data@[i]);
                }
            }
            assert(mail.data@.subrange(head.len() as int, head.len() as int + 6) =~= seq![
                68u8,
                97,
                116,
                101,
                58,
                32,
            ]);
            assert(mail.data@.skip(mail.data@.len() - encode_utf8(body).len() - 4) =~= seq![
                13u8,
                10,
                13,
                10,
            ] + encode_utf8(body));
            assert forall|i: int| 0 <= i < stamped.1.len() implies (
            #[trigger] mail.recipients@[i])@ == stamped.1[i] by {
                assert(texts(mail.recipients@)[i] == mail.recipients@[i]@);
            }
        },
        _ => {},
    }
}

/// A mail that is sent from one address to another has exactly these in its envelope.
pub proof fn law_sent_mail_goes_to_one_address(
    from: Seq<char>,
    to: Seq<char>,
    result: Result<Outgoing, Cause>,
)
    requires
        is_sent(from, to, result),
    ensures
        result matches Ok(mail) && {
            &&& mail.sender matches Some(sender) && sender@ == from
            &&& mail.recipients@.len() == 1
            &&& mail.recipients@[0]@ == to
        },
{
    let mail = result->Ok_0;
    assert(texts(mail.recipients@).len() == 1);
    assert(texts(mail.recipients@)[0] == mail.recipients@[0]@);
}

/// An address needs no quoting where it is made, on both sides of the `@`, of parts with a dot
/// between any two, and each part of letters, digits, signs of an atom and characters beyond ASCII.
/// So whoever adds a part to such a side still has one.
pub proof fn law_unquoted_addresses_are_simple(user: Seq<char>, domain: Seq<char>, part: Seq<char>)
    requires
        part.len() > 0,
        forall|i: int|
            0 <= i < part.len() ==> {
                let c = #[trigger] part[i];
                'a' <= c <= 'z' || 'A' <= c <= 'Z' || '0' <= c <= '9' || c as u32 >= 0x80
                    || "!#$%&'*+-/=?^_`{|}~"@.contains(c)
            },
    ensures
        is_dotted(part),
        is_dotted(user) ==> is_dotted(user + seq!['.'] + part),
        is_dotted(user) && is_dotted(domain) ==> is_simple_address(user + seq!['@'] + domain),
{
    reveal_strlit("!#$%&'*+-/=?^_`{|}~");
    assert forall|i: int| 0 <= i < part.len() implies is_plain(#[trigger] part[i]) && part[i]
        != '.' by {
        let c = part[i];
        if "!#$%&'*+-/=?^_`{|}~"@.contains(c) {
            let j = choose|j: int|
                0 <= j < "!#$%&'*+-/=?^_`{|}~"@.len() && "!#$%&'*+-/=?^_`{|}~"@[j] == c;
        }
    }
    if is_dotted(user) {
        let longer = user + seq!['.'] + part;
        assert forall|i: int| 0 <= i < longer.len() implies is_plain(#[trigger] longer[i])
            || longer[i] == '.' by {
            if i > user.len() {
                assert(longer[i] == part[i - user.len() - 1]);
            } else if i < user.len() {
                assert(longer[i] == user[i]);
            }
        }
        assert forall|i: int, j: int|
            0 <= i < longer.len() && j == i + 1 && j < longer.len() && #[trigger] longer[i]
                == '.' implies #[trigger] longer[j] != '.' by {
            if j < user.len() {
                assert(longer[i] == user[i] && longer[j] == user[j]);
            } else if j == user.len() {
                assert(longer[i] == user.last());
            } else {
                assert(longer[j] == part[j - user.len() - 1]);
            }
        }
        assert(longer[0] == user[0]);
        assert(longer.last() == part.last());
    }
}

/// A display name is simple where it has no null character, at whatever place.
pub proof fn law_names_without_null_are_simple(text: Seq<char>)
    ensures
        is_simple_name(None),
        is_simple_name(Some(text)) <==> !text.contains('\0'),
{
}

/// White space is exactly the characters with that property in Unicode.
pub proof fn law_white_space_is_that_of_unicode(c: char)
    ensures
        is_space(c) <==> seq![
            0x9u32,
            0xa,
            0xb,
            0xc,
            0xd,
            0x20,
            0x85,
            0xa0,
            0x1680,
            0x2000,
            0x2001,
            0x2002,
            0x2003,
            0x2004,
            0x2005,
            0x2006,
            0x2007,
            0x2008,
            0x2009,
            0x200a,
            0x2028,
            0x2029,
            0x202f,
            0x205f,
            0x3000,
        ].contains(c as u32),
{
    let all = seq![
        0x9u32,
        0xa,
        0xb,
        0xc,
        0xd,
        0x20,
        0x85,
        0xa0,
        0x1680,
        0x2000,
        0x2001,
        0x2002,
        0x2003,
        0x2004,
        0x2005,
        0x2006,
        0x2007,
        0x2008,
        0x2009,
        0x200a,
        0x2028,
        0x2029,
        0x202f,
        0x205f,
        0x3000,
    ];
    if is_space(c) {
        let n = c as u32;
        if n <= 0xd {
            assert(all[n - 0x9] == n);
        } else if 0x2000 <= n <= 0x200a {
            assert(all[9 + (n - 0x2000)] == n);
        } else {
            assert(all[5] == 0x20 && all[6] == 0x85 && all[7] == 0xa0 && all[8] == 0x1680);
            assert(all[20] == 0x2028 && all[21] == 0x2029 && all[22] == 0x202f);
            assert(all[23] == 0x205f && all[24] == 0x3000);
        }
    }
}

/// A display name cannot stand in a header where a line break, at whatever place, has something
/// visible on both sides.
pub proof fn law_line_break_inside_is_not_writable(
    before: Seq<char>,
    line_break: char,
    after: Seq<char>,
    i: int,
    k: int,
)
    requires
        line_break == '\n' || line_break == '\r',
        0 <= i < before.len(),
        !is_space(before[i]),
        0 <= k < after.len(),
        !is_space(after[k]),
    ensures
        !is_writable(Some(before + seq![line_break] + after)),
{
    let name = before + seq![line_break] + after;
    assert(name[i] == before[i]);
    assert(name[before.len() as int] == line_break);
    assert(name[before.len() + 1 + k] == after[k]);
    assert(is_broken(name));
}

/// A display name can stand in a header where it has no line break but among the white space in
/// front of it and behind it. No name is one too.
pub proof fn law_line_breaks_around_are_writable(
    before: Seq<char>,
    name: Seq<char>,
    after: Seq<char>,
)
    requires
        forall|i: int| 0 <= i < before.len() ==> is_space(#[trigger] before[i]),
        forall|i: int|
            0 <= i < name.len() ==> {
                let c = #[trigger] name[i];
                c != '\n' && c != '\r'
            },
        forall|i: int| 0 <= i < after.len() ==> is_space(#[trigger] after[i]),
    ensures
        is_writable(Some(before + name + after)),
        is_writable(None),
{
    let text = before + name + after;
    if is_broken(text) {
        let (i, j, k) = choose|i: int, j: int, k: int|
            0 <= i < j < k < text.len() && !is_space(#[trigger] text[i]) && is_line_break(
                #[trigger] text[j],
            ) && !is_space(#[trigger] text[k]);
        if i < before.len() {
            assert(text[i] == before[i]);
        } else if k >= before.len() + name.len() {
            assert(text[k] == after[k - before.len() - name.len()]);
        } else {
            assert(text[j] == name[j - before.len()]);
        }
    }
}

/// A text that is there keeps its characters.
pub proof fn law_optional_text_is_the_text(text: String)
    ensures
        optional_text(Some(text)) == Some(text@),
        optional_text(None) == None::<Seq<char>>,
{
}

} // verus!
