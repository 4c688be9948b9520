//! Emails of one day, from a local mailbox file.
//!
//! The mailbox is scanned from its end (see the module `mailbox`). The
//! messages that are newer than the day are passed over by their headers
//! alone; those of the day become events; the first message that is older
//! ends the work.

use crate::events::events::Event;
use crate::events::events::EventBody;
use crate::events::events::SourceError;
use crate::events::mailbox::next_mail;
use crate::events::mailbox::ParsingState;
use crate::events::mailbox::BUF_SIZE;
use crate::icons::Icon;
use crate::text::contains;
use crate::text::push_signed;
use crate::text::push_str;
use crate::text::same;
use crate::text::spec_contains;
use crate::text::string_of;
use crate::time::display_local;
use crate::time::offset_format_instant;
use crate::time::parse_from_rfc2822;
use crate::time::parse_from_str;
use crate::time::rfc2822_instant;
use crate::time::zoneless_reading;
use crate::time::DayWindow;
use crate::time::LocalDateTime;
use crate::time::TimeOfDay;
use crate::config::Config;
use crate::events::events::chosen_values;
use crate::events::events::field_values;
use crate::events::events::value_for;
use crate::events::events::ConfigType;
use crate::events::events::EventProvider;
use vstd::prelude::*;
use vstd::string::StrSliceExecFns;

verus! {

/// One configured mailbox.
#[derive(Clone, Debug)]
pub struct EmailConfig {
    /// The path of the mailbox file.
    pub mbox_file_path: String,
}

/// The source of events that reads a mailbox file.
#[derive(Clone, Copy, Debug, PartialEq, Eq, Structural)]
pub struct Email;

/// One header of a message: its name and its value, decoded.
#[derive(Clone, Debug, PartialEq)]
pub struct HeaderField {
    pub key: String,
    pub value: String,
}

/// A message, or one part of a message in several parts, as far as the
/// events need it.
#[derive(Debug, PartialEq)]
pub struct MailPart {
    /// The headers, in the order of the message.
    pub headers: Vec<HeaderField>,
    /// The type of the content, such as `text/plain`.
    pub mimetype: String,
    /// The body as text, or why it cannot be read as text.
    pub body: Result<String, SourceError>,
    /// The parts of a message in several parts.
    pub subparts: Vec<MailPart>,
}

#[verifier::external_type_specification]
#[verifier::external_body]
pub struct ExParsedMail<'a>(mailparse::ParsedMail<'a>);

/// What a message, or one part of a message, holds, as texts: the names and
/// the values of the headers, the type of the content, the body or the words
/// of the error that kept it from being read, and the parts.
pub struct MailTexts {
    pub headers: Seq<(Seq<char>, Seq<char>)>,
    pub mimetype: Seq<char>,
    pub body: Result<Seq<char>, Seq<char>>,
    pub subparts: Seq<MailTexts>,
}

/// The names and the values of `headers`, as texts.
pub open spec fn header_texts(headers: Seq<HeaderField>) -> Seq<(Seq<char>, Seq<char>)> {
    Seq::new(headers.len(), |i: int| (headers[i].key@, headers[i].value@))
}

/// What `mail` holds, as texts.
pub open spec fn mail_texts(mail: MailPart) -> MailTexts
    decreases mail,
{
    MailTexts {
        headers: header_texts(mail.headers@),
        mimetype: mail.mimetype@,
        body: match mail.body {
            Ok(text) => Ok(text@),
            Err(e) => Err(e.text()),
        },
        subparts: Seq::new(
            mail.subparts@.len(),
            |i: int|
                if 0 <= i < mail.subparts@.len() {
                    mail_texts(mail.subparts@[i])
                } else {
                    arbitrary()
                },
        ),
    }
}

/// What was read as a message, as texts: the texts of the message, or the
/// words of the error.
pub open spec fn mail_reading(r: Result<MailPart, SourceError>) -> Result<MailTexts, Seq<char>> {
    match r {
        Ok(mail) => Ok(mail_texts(mail)),
        Err(e) => Err(e.text()),
    }
}

/// What was read as headers, as texts: the names and the values, or the
/// words of the error.
pub open spec fn headers_reading(r: Result<Vec<HeaderField>, SourceError>) -> Result<
    Seq<(Seq<char>, Seq<char>)>,
    Seq<char>,
> {
    match r {
        Ok(headers) => Ok(header_texts(headers@)),
        Err(e) => Err(e.text()),
    }
}

/// What `mailparse` reads the bytes of a message as; the words of its error
/// where it reads none.
pub uninterp spec fn parsed_mail(bytes: Seq<u8>) -> Result<MailTexts, Seq<char>>;

/// The headers that `mailparse` reads at the beginning of the bytes of a
/// message; the words of its error where it reads none.
pub uninterp spec fn parsed_headers(bytes: Seq<u8>) -> Result<
    Seq<(Seq<char>, Seq<char>)>,
    Seq<char>,
>;

/// Copies what `mailparse` has parsed: the headers through
/// `mailparse::MailHeader::get_key` and `get_value`, the type of the content,
/// the body through `mailparse::ParsedMail::get_body`, and the parts in the
/// same way. Nothing is claimed of the copy.
#[verifier::external_body]
fn copy_mail(mail: &mailparse::ParsedMail) -> MailPart {
    MailPart {
        headers: mail.headers.iter().map(
            |h| HeaderField { key: h.get_key(), value: h.get_value() },
        ).collect(),
        mimetype: mail.ctype.mimetype.clone(),
        body: mail.get_body().map_err(|e| SourceError::Parse(e.to_string())),
        subparts: mail.subparts.iter().map(copy_mail).collect(),
    }
}

/// `mailparse::parse_mail`. What is read depends on the bytes alone; its
/// error is handed on as one of the kind `Parse`.
#[verifier::external_body]
pub(crate) fn parse_mail(bytes: &[u8]) -> (r: Result<MailPart, SourceError>)
    ensures
        mail_reading(r) == parsed_mail(bytes@),
        r matches Err(e) ==> e is Parse,
{
    match mailparse::parse_mail(bytes) {
        Ok(mail) => Ok(copy_mail(&mail)),
        Err(e) => Err(SourceError::Parse(e.to_string())),
    }
}

/// `mailparse::parse_headers`, each header copied through
/// `mailparse::MailHeader::get_key` and `get_value`. What is read depends on
/// the bytes alone; its error is handed on as one of the kind `Parse`.
#[verifier::external_body]
pub(crate) fn parse_headers(bytes: &[u8]) -> (r: Result<Vec<HeaderField>, SourceError>)
    ensures
        headers_reading(r) == parsed_headers(bytes@),
        r matches Err(e) ==> e is Parse,
{
    match mailparse::parse_headers(bytes) {
        Ok((headers, _)) => Ok(
            headers.iter().map(
                |h| HeaderField { key: h.get_key(), value: h.get_value() },
            ).collect(),
        ),
        Err(e) => Err(SourceError::Parse(e.to_string())),
    }
}

/// The value of the first header named `name`.
pub open spec fn spec_header_val(headers: Seq<HeaderField>, name: Seq<char>) -> Option<String>
    decreases headers.len(),
{
    if headers.len() == 0 {
        None
    } else if headers[0].key@ == name {
        Some(headers[0].value)
    } else {
        spec_header_val(headers.skip(1), name)
    }
}

/// The value of the first of the headers `headers`, which are given as
/// texts, that is named `name`.
pub open spec fn spec_header_text(headers: Seq<(Seq<char>, Seq<char>)>, name: Seq<char>) -> Option<
    Seq<char>,
>
    decreases headers.len(),
{
    if headers.len() == 0 {
        None
    } else if headers[0].0 == name {
        Some(headers[0].1)
    } else {
        spec_header_text(headers.skip(1), name)
    }
}

/// The value of a header is the same whether it is looked for among the
/// headers or among their texts.
pub proof fn lemma_header_text(headers: Seq<HeaderField>, name: Seq<char>)
    ensures
        match spec_header_val(headers, name) {
            Some(value) => spec_header_text(header_texts(headers), name) == Some(value@),
            None => spec_header_text(header_texts(headers), name) is None,
        },
    decreases headers.len(),
{
    if headers.len() > 0 {
        assert(header_texts(headers).skip(1) =~= header_texts(headers.skip(1)));
        lemma_header_text(headers.skip(1), name);
    }
}

/// `text` without its last six characters, if it has more than six: the
/// place where a date carries the name of its time zone in brackets.
pub open spec fn spec_drop_tz(text: Seq<char>) -> Seq<char> {
    if text.len() > 6 {
        text.take(text.len() - 6)
    } else {
        text
    }
}

/// The first of four readings of a date that gave one.
pub open spec fn spec_first_parsed(
    a: Option<LocalDateTime>,
    b: Option<LocalDateTime>,
    c: Option<LocalDateTime>,
    d: Option<LocalDateTime>,
) -> Option<LocalDateTime> {
    if a is Some {
        a
    } else if b is Some {
        b
    } else if c is Some {
        c
    } else {
        d
    }
}

/// The instant of a date that names its own time zone: read as RFC 2822, or
/// else, without a time zone's name at its end, in the same shape less
/// strictly. `None` where neither reads it.
pub open spec fn spec_zoned_date(text: Seq<char>) -> Option<(int, int)> {
    match rfc2822_instant(text) {
        Some(i) => Some(i),
        None => offset_format_instant(spec_drop_tz(text), "%a, %-d %b %Y %T %z"@),
    }
}

/// Whether the text of a date names a date and a time in one of the two
/// shapes without a time zone.
pub open spec fn has_zoneless_reading(text: Seq<char>) -> bool {
    zoneless_reading(text, "%b %d %T %Y"@) is Some || zoneless_reading(
        text,
        "%a %b %e %T %Y"@,
    ) is Some
}

/// Whether `time` is the time of day that the text of a date names in one of
/// the two shapes without a time zone.
pub open spec fn is_zoneless_time(time: TimeOfDay, text: Seq<char>) -> bool {
    ||| zoneless_reading(text, "%b %d %T %Y"@) matches Some(clock) && clock.time == time
    ||| zoneless_reading(text, "%a %b %e %T %Y"@) matches Some(clock) && clock.time == time
}

/// What to do with a message of the given date while looking for the first
/// message sent before the end of the day.
#[derive(Clone, Copy, Debug, PartialEq, Eq, Structural)]
pub enum MailStep {
    /// There is no message, or it has no date: the search is over.
    Stop,
    /// The message was sent before the end of the day: it is the one.
    Take,
    /// The message was sent later: go on to the next.
    Skip,
}

/// Whether a part can be read for the text of a message: it is plain text,
/// or holds the same content in several forms.
pub open spec fn is_readable_part(part: MailPart) -> bool {
    spec_contains(part.mimetype@, "text/plain"@) || spec_contains(
        part.mimetype@,
        "multipart/alternative"@,
    )
}

/// The position of the first readable part at or after `from`.
pub open spec fn first_readable(parts: Seq<MailPart>, from: int) -> Option<int>
    decreases parts.len() - from,
{
    if from < 0 || from >= parts.len() {
        None
    } else if is_readable_part(parts[from]) {
        Some(from)
    } else {
        first_readable(parts, from + 1)
    }
}

/// The text of a message. Of a message in several parts it is that of the
/// first readable part: its body, or, where that part holds alternatives, the
/// text found in it in the same way. `None` where a message in several parts
/// has no readable part.
pub open spec fn spec_message_body(mail: MailPart) -> Option<Result<String, SourceError>>
    decreases mail,
{
    if mail.subparts@.len() > 1 {
        match first_readable(mail.subparts@, 0) {
            Some(i) => if 0 <= i < mail.subparts@.len() {
                let part = mail.subparts@[i];
                if spec_contains(part.mimetype@, "multipart/alternative"@) {
                    spec_message_body(part)
                } else {
                    Some(part.body)
                }
            } else {
                None
            },
            None => None,
        }
    } else {
        Some(mail.body)
    }
}

/// The text of the event of a message: whom it was sent to, whom in copy,
/// and the message.
pub open spec fn spec_event_text(to: Option<String>, cc: Option<String>, body: Seq<char>) -> Seq<
    char,
> {
    (match to {
        Some(t) => "To: "@ + t@ + "\n"@,
        None => Seq::<char>::empty(),
    }) + (match cc {
        Some(c) => "Cc: "@ + c@ + "\n\n"@,
        None => Seq::<char>::empty(),
    }) + body
}

/// The subject of a message, `-` where it has none.
pub open spec fn spec_subject(headers: Seq<HeaderField>) -> Seq<char> {
    match spec_header_val(headers, "Subject"@) {
        Some(s) => s@,
        None => "-"@,
    }
}

/// Whether `e` is the event of a message with the given headers and text,
/// at the time `date`.
pub open spec fn is_email_event(
    e: Event,
    headers: Seq<HeaderField>,
    body: Seq<char>,
    date: LocalDateTime,
) -> bool {
    &&& e.event_type_desc == "Email"
    &&& e.event_type_icon.spec_name() == "envelope-symbolic"
    &&& e.event_time == date.time
    &&& e.event_info@ == spec_subject(headers)
    &&& e.event_contents_header@ == spec_subject(headers)
    &&& e.event_contents_body matches EventBody::PlainText(text)
    &&& text@ == spec_event_text(
        spec_header_val(headers, "To"@),
        spec_header_val(headers, "Cc"@),
        body,
    )
    &&& e.event_extra_details == spec_header_val(headers, "To"@)
}

/// The instant of the date of a message with the headers `headers`, where
/// the date names its own time zone.
pub open spec fn spec_named_date(headers: Seq<(Seq<char>, Seq<char>)>) -> Option<(int, int)> {
    match spec_header_text(headers, "Date"@) {
        Some(text) => spec_zoned_date(text),
        None => None,
    }
}

/// Whether `date` can be the date of a message with the headers `headers`:
/// the message has a date, and where that names its own time zone it is the
/// instant of `date`.
pub open spec fn is_date_of(date: LocalDateTime, headers: Seq<(Seq<char>, Seq<char>)>) -> bool {
    &&& spec_header_text(headers, "Date"@) is Some
    &&& spec_named_date(headers) matches Some(i) ==> date.instant() == i
}

/// Whether a message with the headers `headers` can have been sent at
/// `bound` or later: it has a date, and where that names its own time zone it
/// is not before `bound`.
pub open spec fn may_be_sent_from(headers: Seq<(Seq<char>, Seq<char>)>, bound: int) -> bool {
    &&& spec_header_text(headers, "Date"@) is Some
    &&& spec_named_date(headers) matches Some(i) ==> i.0 >= bound
}

/// Whether a message with the headers `headers` can be without a date that
/// is `bound` or later: where its date names its own time zone it is before
/// `bound`.
pub open spec fn may_be_sent_before(headers: Seq<(Seq<char>, Seq<char>)>, bound: int) -> bool {
    spec_named_date(headers) matches Some(i) ==> i.0 < bound
}

/// Whether a scan that sets out with the cursor at `from` comes, message by
/// message, to the cursor `to`. Where no further message is found the scan
/// ends with the cursor at 0.
pub open spec fn reaches(file: Seq<u8>, from: int, to: int) -> bool
    decreases from,
{
    from == to || (0 < from && match next_mail(file, from) {
        Some((_, cursor)) => 0 <= cursor < from && reaches(file, cursor, to),
        None => to == 0,
    })
}

/// Whether a scan that sets out with the cursor at `from` comes to the
/// cursor `to` over messages only that can have been sent at
/// `next_day_start` or later.
pub open spec fn passes_over(file: Seq<u8>, from: int, to: int, next_day_start: int) -> bool
    decreases from,
{
    from == to || (0 < from && match next_mail(file, from) {
        Some((mail, cursor)) => {
            &&& 0 <= cursor < from
            &&& parsed_headers(mail) matches Ok(headers)
            &&& may_be_sent_from(headers, next_day_start)
            &&& passes_over(file, cursor, to, next_day_start)
        },
        None => false,
    })
}

/// The messages that a scan recovers on its way from the cursor `from` to
/// the cursor `to`, the newest first.
pub open spec fn mails_between(file: Seq<u8>, from: int, to: int) -> Seq<Seq<u8>>
    decreases from,
{
    if from == to || from <= 0 {
        Seq::empty()
    } else {
        match next_mail(file, from) {
            Some((mail, cursor)) => if 0 <= cursor < from {
                seq![mail] + mails_between(file, cursor, to)
            } else {
                Seq::empty()
            },
            None => Seq::empty(),
        }
    }
}

/// Where the cursor stands after a scan has gone on from the cursor `from`
/// by one message: behind that message, or at 0 where there is none.
pub open spec fn cursor_after(file: Seq<u8>, from: int) -> int {
    match next_mail(file, from) {
        Some((_, cursor)) => cursor,
        None => 0,
    }
}

/// Whether `mail` holds the texts that `mailparse` reads the bytes `bytes`
/// as.
pub open spec fn is_mail_of(mail: MailPart, bytes: Seq<u8>) -> bool {
    parsed_mail(bytes) == Ok::<MailTexts, Seq<char>>(mail_texts(mail))
}

/// Whether `e` is the event of the message with the bytes `bytes`, at the
/// time `date`.
pub open spec fn is_event_of_mail(e: Event, bytes: Seq<u8>, date: LocalDateTime) -> bool {
    exists|mail: MailPart|
        {
            &&& #[trigger] is_mail_of(mail, bytes)
            &&& spec_message_body(mail) matches Some(Ok(body))
            &&& is_email_event(e, mail.headers@, body@, date)
        }
}

/// Whether `e` is the event of the message with the bytes `bytes`, at a date
/// of that message that is `day_start` or later.
pub open spec fn is_in_day_event(e: Event, bytes: Seq<u8>, day_start: int) -> bool {
    exists|date: LocalDateTime|
        {
            &&& date.wf()
            &&& date.timestamp >= day_start
            &&& #[trigger] is_event_of_mail(e, bytes, date)
            &&& parsed_mail(bytes) matches Ok(mail)
            &&& is_date_of(date, mail.headers)
        }
}

/// Whether `events` are the events of the messages `mails`, one for each in
/// their order, each at a date that is `day_start` or later.
pub open spec fn are_in_day_events(events: Seq<Event>, mails: Seq<Seq<u8>>, day_start: int) -> bool {
    &&& events.len() == mails.len()
    &&& forall|k: int|
        0 <= k < events.len() ==> is_in_day_event(#[trigger] events[k], mails[k], day_start)
}

/// Whether the message with the bytes `bytes` can be read but is none of the
/// day: it has no date that is `day_start` or later.
pub open spec fn is_before_day(bytes: Seq<u8>, day_start: int) -> bool {
    parsed_mail(bytes) matches Ok(mail) && may_be_sent_before(mail.headers, day_start)
}

/// Whether `e` is the error of a message in several parts none of which can
/// be read as text: its words are `Email of `, the date of the message as it
/// is shown to the reader, and `: can't find a text/plain part`.
pub open spec fn is_no_plain_text_error(e: SourceError) -> bool {
    exists|shown: Seq<char>|
        #[trigger] e.is_parse("Email of "@ + shown + ": can't find a text/plain part"@)
}

/// Whether turning the message with the bytes `bytes` into an event fails
/// with the error `e`: the message cannot be read, or its text cannot.
pub open spec fn mail_fails_with(bytes: Seq<u8>, e: SourceError) -> bool {
    match parsed_mail(bytes) {
        Err(words) => e.is_parse(words),
        Ok(_) => exists|mail: MailPart|
            #[trigger] is_mail_of(mail, bytes) && match spec_message_body(mail) {
                Some(Err(x)) => x == e,
                Some(Ok(_)) => false,
                None => is_no_plain_text_error(e),
            },
    }
}

/// Whether the search for the first message sent before `next_day_start`,
/// which sets out at the cursor `top`, can have found the message `bytes`
/// with the date `date` and left the cursor at `after`: the scan comes to the
/// message over messages only that can have been sent later, and `date` can
/// be the date of the message.
pub open spec fn is_first_mail_before(
    mbox: Seq<u8>,
    top: int,
    next_day_start: int,
    bytes: Seq<u8>,
    date: LocalDateTime,
    after: int,
) -> bool {
    exists|cursor: int|
        {
            &&& #[trigger] passes_over(mbox, top, cursor, next_day_start)
            &&& next_mail(mbox, cursor) == Some((bytes, after))
            &&& parsed_headers(bytes) matches Ok(headers)
            &&& is_date_of(date, headers)
        }
}

/// Whether the search for the first message sent before `next_day_start`,
/// which sets out at the cursor `top`, can have ended without a message and
/// with the cursor at `after`: the scan comes, over messages only that can
/// have been sent later, to the end of the mailbox or to a message without a
/// date that can be read.
pub open spec fn is_search_over(mbox: Seq<u8>, top: int, next_day_start: int, after: int) -> bool {
    exists|cursor: int|
        {
            &&& #[trigger] passes_over(mbox, top, cursor, next_day_start)
            &&& after == cursor_after(mbox, cursor)
            &&& match next_mail(mbox, cursor) {
                Some((mail, _)) => parsed_headers(mail) matches Ok(headers) && spec_named_date(
                    headers,
                ) is None,
                None => true,
            }
        }
}

/// Whether the search for the first message sent before `next_day_start`,
/// which sets out at the cursor `top`, can have failed with `e` and left the
/// cursor at `after`: the scan comes, over messages only that can have been
/// sent later, to a message whose headers cannot be read.
pub open spec fn is_search_failed(
    mbox: Seq<u8>,
    top: int,
    next_day_start: int,
    e: SourceError,
    after: int,
) -> bool {
    exists|cursor: int|
        {
            &&& #[trigger] passes_over(mbox, top, cursor, next_day_start)
            &&& next_mail(mbox, cursor) matches Some((mail, behind))
            &&& behind == after
            &&& parsed_headers(mail) matches Err(words)
            &&& e.is_parse(words)
        }
}

/// Whether reading the messages of the day, which sets out at the cursor
/// `top`, can have given `events` and left the cursor at `after`: the events
/// are those of the messages down to some cursor, each sent at `day_start` or
/// later, and there the mailbox ends or a message stands that is none of the
/// day.
pub open spec fn is_day_reading(
    mbox: Seq<u8>,
    top: int,
    day_start: int,
    events: Seq<Event>,
    after: int,
) -> bool {
    exists|stop: int|
        {
            &&& #[trigger] reaches(mbox, top, stop)
            &&& are_in_day_events(events, mails_between(mbox, top, stop), day_start)
            &&& after == cursor_after(mbox, stop)
            &&& match next_mail(mbox, stop) {
                Some((mail, _)) => is_before_day(mail, day_start),
                None => true,
            }
        }
}

/// Whether reading the messages of the day, which sets out at the cursor
/// `top`, can have failed with `e`: the scan comes to a message that cannot
/// be turned into an event.
pub open spec fn is_day_reading_failed(mbox: Seq<u8>, top: int, e: SourceError, after: int) -> bool {
    exists|stop: int|
        {
            &&& #[trigger] reaches(mbox, top, stop)
            &&& next_mail(mbox, stop) matches Some((mail, behind))
            &&& behind == after
            &&& mail_fails_with(mail, e)
        }
}

/// Whether the search from the end of the mailbox `mbox` for the first
/// message sent before the end of the day `day` can have found the message
/// `first` with the date `date` and left the cursor at `after`.
pub open spec fn is_first_of_day(
    mbox: Seq<u8>,
    day: DayWindow,
    first: Seq<u8>,
    date: LocalDateTime,
    after: int,
) -> bool {
    &&& date.wf()
    &&& date.timestamp < day.next_day_start
    &&& is_first_mail_before(mbox, mbox.len() as int, day.next_day_start as int, first, date, after)
}

/// Whether the mailbox `mbox` can be without an event on the day `day`: the
/// search for the first message sent before the end of the day finds none, or
/// finds one that was sent before the day.
pub open spec fn is_day_without_mail(mbox: Seq<u8>, day: DayWindow) -> bool {
    ||| exists|after: int|
        #[trigger] is_search_over(mbox, mbox.len() as int, day.next_day_start as int, after)
    ||| exists|first: Seq<u8>, date: LocalDateTime, after: int|
        #[trigger] is_first_of_day(mbox, day, first, date, after) && date.timestamp < day.day_start
}

/// Whether `events` can be the events of the day `day` from the mailbox
/// `mbox`, where the day has events: the search from the end of the mailbox
/// finds a first message sent on the day; the events are those of the
/// messages read from there on, and last that of the first message.
pub open spec fn is_day_with_mail(mbox: Seq<u8>, day: DayWindow, events: Seq<Event>) -> bool {
    exists|first: Seq<u8>, date: LocalDateTime, after: int, end: int|
        {
            &&& #[trigger] is_first_of_day(mbox, day, first, date, after)
            &&& day.day_start <= date.timestamp
            &&& events.len() > 0
            &&& #[trigger] is_day_reading(mbox, after, day.day_start as int, events.drop_last(), end)
            &&& is_event_of_mail(events.last(), first, date)
        }
}

/// Whether `events` can be the events of the day `day` from the mailbox
/// `mbox`.
pub open spec fn is_timeline_of_day(mbox: Seq<u8>, day: DayWindow, events: Seq<Event>) -> bool {
    if events.len() == 0 {
        is_day_without_mail(mbox, day)
    } else {
        is_day_with_mail(mbox, day, events)
    }
}

/// Whether reading the events of the day `day` from the mailbox `mbox` can
/// have failed with `e`: the headers of a message cannot be read while the
/// first message of the day is looked for, or a message of the day cannot be
/// turned into an event.
pub open spec fn is_timeline_failed(mbox: Seq<u8>, day: DayWindow, e: SourceError) -> bool {
    ||| exists|after: int|
        #[trigger] is_search_failed(mbox, mbox.len() as int, day.next_day_start as int, e, after)
    ||| exists|first: Seq<u8>, date: LocalDateTime, after: int, end: int|
        {
            &&& #[trigger] is_first_of_day(mbox, day, first, date, after)
            &&& day.day_start <= date.timestamp
            &&& #[trigger] is_day_reading_failed(mbox, after, e, end)
        }
    ||| exists|first: Seq<u8>, date: LocalDateTime, after: int|
        {
            &&& #[trigger] is_first_of_day(mbox, day, first, date, after)
            &&& day.day_start <= date.timestamp
            &&& mail_fails_with(first, e)
        }
}

/// Whether a scan that sets out with the cursor at `from` comes to the
/// cursor `to` from message to message, each found at a boundary.
pub open spec fn links(file: Seq<u8>, from: int, to: int) -> bool
    decreases from,
{
    from == to || (0 < from && match next_mail(file, from) {
        Some((_, cursor)) => 0 <= cursor < from && links(file, cursor, to),
        None => false,
    })
}

/// The messages `mails`, which are given the newest first, in the order of
/// the file and with a newline between each two.
pub open spec fn joined(mails: Seq<Seq<u8>>) -> Seq<u8>
    decreases mails.len(),
{
    if mails.len() == 0 {
        Seq::empty()
    } else if mails.len() == 1 {
        mails[0]
    } else {
        joined(mails.drop_first()) + seq![0x0au8] + mails[0]
    }
}

/// The messages that a scan recovers between any two of its boundaries are,
/// joined by the newlines that part them, the content of the file between
/// these boundaries, byte for byte: from where the oldest of the messages
/// begins, which is at the lower cursor or behind the newline at it, up to
/// the upper cursor.
pub proof fn law_recovered_mails_rebuild_any_stretch(file: Seq<u8>, from: int, to: int)
    requires
        0 <= to < from <= file.len(),
        links(file, from, to),
    ensures
        mails_between(file, from, to).len() >= 1,
        ({
            let content = joined(mails_between(file, from, to));
            let begin = from - content.len();
            &&& to <= begin <= to + 1
            &&& begin == to + 1 ==> file[to] == 0x0au8
            &&& content == file.subrange(begin, from)
        }),
    decreases from,
{
    crate::events::mailbox::lemma_scan_back_bounds(file, 0, from, 0);
    let newest = next_mail(file, from).unwrap().0;
    let cursor = next_mail(file, from).unwrap().1;
    let rest = mails_between(file, cursor, to);
    let mails = mails_between(file, from, to);
    assert(mails =~= seq![newest] + rest);
    if cursor == to {
        assert(rest =~= Seq::<Seq<u8>>::empty());
        assert(mails =~= seq![newest]);
    } else {
        lemma_links_below(file, cursor, to);
        law_recovered_mails_rebuild_any_stretch(file, cursor, to);
        assert(mails.drop_first() =~= rest);
        let older = joined(rest);
        let begin = cursor - older.len();
        assert(older + seq![0x0au8] + newest =~= file.subrange(begin, from));
    }
}

/// A scan comes down from message to message, never up.
pub proof fn lemma_links_below(file: Seq<u8>, from: int, to: int)
    requires
        links(file, from, to),
        0 <= from,
    ensures
        0 <= to <= from,
    decreases from,
{
    if from != to {
        let cursor = next_mail(file, from).unwrap().1;
        lemma_links_below(file, cursor, to);
    }
}

/// A scan comes down to a cursor, never up.
pub proof fn lemma_reaches_below(file: Seq<u8>, from: int, to: int)
    requires
        reaches(file, from, to),
        0 <= from,
    ensures
        0 <= to <= from,
    decreases from,
{
    if from != to {
        match next_mail(file, from) {
            Some((_, cursor)) => {
                lemma_reaches_below(file, cursor, to);
            },
            None => {},
        }
    }
}

/// A scan that passes over messages to a cursor reaches that cursor.
pub proof fn lemma_passes_over_reaches(file: Seq<u8>, from: int, to: int, next_day_start: int)
    requires
        passes_over(file, from, to, next_day_start),
    ensures
        reaches(file, from, to),
    decreases from,
{
    if from != to {
        let cursor = next_mail(file, from).unwrap().1;
        lemma_passes_over_reaches(file, cursor, to, next_day_start);
    }
}

/// A scan that passes over messages to `mid`, and over the message there,
/// passes over messages to the cursor behind that message.
pub proof fn lemma_passes_over_step(file: Seq<u8>, from: int, mid: int, next_day_start: int)
    requires
        passes_over(file, from, mid, next_day_start),
        0 < mid,
        next_mail(file, mid) matches Some((mail, cursor)) && 0 <= cursor < mid && (parsed_headers(
            mail,
        ) matches Ok(headers) && may_be_sent_from(headers, next_day_start)),
    ensures
        passes_over(file, from, next_mail(file, mid).unwrap().1, next_day_start),
    decreases from,
{
    if from != mid {
        let cursor = next_mail(file, from).unwrap().1;
        lemma_passes_over_step(file, cursor, mid, next_day_start);
    } else {
        let cursor = next_mail(file, mid).unwrap().1;
        assert(passes_over(file, cursor, cursor, next_day_start));
    }
}

/// A scan that reaches `mid`, and from there `to`, reaches `to`.
pub proof fn lemma_reaches_trans(file: Seq<u8>, from: int, mid: int, to: int)
    requires
        reaches(file, from, mid),
        reaches(file, mid, to),
    ensures
        reaches(file, from, to),
    decreases from,
{
    if from != mid {
        match next_mail(file, from) {
            Some((_, cursor)) => {
                lemma_reaches_trans(file, cursor, mid, to);
            },
            None => {
                // the scan is over at 0, and from 0 only 0 is reached
                assert(mid == 0);
                assert(to == 0);
            },
        }
    }
}

/// A scan that reaches `mid` and finds no further message there ends with
/// the cursor at 0.
pub proof fn lemma_reaches_end(file: Seq<u8>, from: int, mid: int)
    requires
        reaches(file, from, mid),
        0 <= mid,
        next_mail(file, mid) is None,
    ensures
        reaches(file, from, 0),
    decreases from,
{
    if from != mid {
        if next_mail(file, from) is Some {
            let cursor = next_mail(file, from).unwrap().1;
            lemma_reaches_end(file, cursor, mid);
        }
    }
}

/// A scan that reaches `mid` and goes on from there by one message reaches
/// the cursor behind that message, and has recovered that message last.
pub proof fn lemma_reaches_step(file: Seq<u8>, from: int, mid: int)
    requires
        reaches(file, from, mid),
        0 <= from,
        0 < mid,
        next_mail(file, mid) is Some,
        0 <= next_mail(file, mid).unwrap().1 < mid,
    ensures
        reaches(file, from, next_mail(file, mid).unwrap().1),
        mails_between(file, from, next_mail(file, mid).unwrap().1) == mails_between(
            file,
            from,
            mid,
        ).push(next_mail(file, mid).unwrap().0),
    decreases from,
{
    let mail = next_mail(file, mid).unwrap().0;
    let behind = next_mail(file, mid).unwrap().1;
    if from != mid {
        lemma_reaches_below(file, from, mid);
        let cursor = next_mail(file, from).unwrap().1;
        let first = next_mail(file, from).unwrap().0;
        lemma_reaches_below(file, cursor, mid);
        lemma_reaches_step(file, cursor, mid);
        assert(seq![first] + mails_between(file, cursor, mid).push(mail) =~= (seq![first]
            + mails_between(file, cursor, mid)).push(mail));
    } else {
        assert(reaches(file, behind, behind));
        assert(mails_between(file, behind, behind) =~= Seq::<Seq<u8>>::empty());
        assert(seq![mail] + Seq::<Seq<u8>>::empty() =~= Seq::<Seq<u8>>::empty().push(mail));
    }
}

/// Where the reading of the messages of a day stands, between one message
/// and the next.
#[derive(Debug, PartialEq)]
pub enum DayReading {
    /// The first message sent before the end of the day is looked for.
    Searching,
    /// The first message sent before the end of the day is found, and was
    /// sent on the day: the messages below it are read, and `events` are
    /// their events so far.
    Reading { first: Vec<u8>, date: LocalDateTime, events: Vec<Event> },
    /// The reading is over, with the events of the day or an error.
    Over(Result<Vec<Event>, SourceError>),
}

/// The bytes of a message that was read, if one was.
pub open spec fn bytes_of(mail: Option<Vec<u8>>) -> Option<Seq<u8>> {
    match mail {
        Some(bytes) => Some(bytes@),
        None => None,
    }
}

/// Whether `next` is where the search for the first message sent before the
/// end of the day `day` stands after `mail` was read. Without a message the
/// day has no event. A message whose headers cannot be read is an error. A
/// message that can have been sent after the day is passed over. A message
/// without a date that can be read, or sent before the day, leaves the day
/// without an event. Any other is the first message of the day.
pub open spec fn is_search_step(mail: Option<Seq<u8>>, day: DayWindow, next: DayReading) -> bool {
    match mail {
        None => next matches DayReading::Over(Ok(events)) && events@.len() == 0,
        Some(bytes) => match parsed_headers(bytes) {
            Err(words) => next matches DayReading::Over(Err(e)) && e.is_parse(words),
            Ok(headers) => match next {
                DayReading::Searching => may_be_sent_from(headers, day.next_day_start as int),
                DayReading::Reading { first, date, events } => {
                    &&& first@ == bytes
                    &&& events@.len() == 0
                    &&& date.wf()
                    &&& day.day_start <= date.timestamp < day.next_day_start
                    &&& is_date_of(date, headers)
                },
                DayReading::Over(Ok(events)) => {
                    &&& events@.len() == 0
                    &&& spec_named_date(headers) is None || is_sent_before_day(headers, day)
                },
                DayReading::Over(Err(_)) => false,
            },
        },
    }
}

/// Whether a message with the headers `headers` can have been sent before
/// the day `day`, and before its end: it has such a date.
pub open spec fn is_sent_before_day(headers: Seq<(Seq<char>, Seq<char>)>, day: DayWindow) -> bool {
    exists|date: LocalDateTime|
        {
            &&& #[trigger] is_date_of(date, headers)
            &&& date.wf()
            &&& date.timestamp < day.next_day_start
            &&& date.timestamp < day.day_start
        }
}

/// Whether `r` is what the reading of a day ends with, where `first` is the
/// first message of the day, sent at `date`, and `events` are the events of
/// the messages below it: these events and last that of the first message,
/// or the error that keeps the first message from being an event.
pub open spec fn is_day_end(
    r: Result<Vec<Event>, SourceError>,
    first: Seq<u8>,
    date: LocalDateTime,
    events: Seq<Event>,
) -> bool {
    match r {
        Ok(all) => {
            &&& all@.len() == events.len() + 1
            &&& all@.drop_last() == events
            &&& is_event_of_mail(all@.last(), first, date)
        },
        Err(e) => mail_fails_with(first, e),
    }
}

/// Whether `next` is where the reading of the messages of the day `day`
/// stands after `mail` was read below the first message `first`, sent at
/// `date`, when the events so far were `events`. A message of the day adds
/// its event. Without a message, and with a message that was sent before the
/// day or has no date that can be read, the reading ends. A message that
/// cannot be turned into an event is an error.
pub open spec fn is_reading_step(
    first: Seq<u8>,
    date: LocalDateTime,
    events: Seq<Event>,
    mail: Option<Seq<u8>>,
    day: DayWindow,
    next: DayReading,
) -> bool {
    match next {
        DayReading::Searching => false,
        DayReading::Reading { first: same_first, date: same_date, events: more } => {
            &&& mail matches Some(bytes)
            &&& same_first@ == first
            &&& same_date == date
            &&& more@.len() == events.len() + 1
            &&& more@.drop_last() == events
            &&& is_in_day_event(more@.last(), bytes, day.day_start as int)
        },
        DayReading::Over(r) => {
            ||| mail matches Some(bytes) && r matches Err(e) && mail_fails_with(bytes, e)
            ||| {
                &&& mail matches Some(bytes) ==> is_before_day(bytes, day.day_start as int)
                &&& is_day_end(r, first, date, events)
            }
        },
    }
}

/// Whether `next` is where the reading of the messages of the day `day`
/// stands after it stood at `reading` and `mail` was read. A reading that is
/// over stays as it is.
pub open spec fn is_day_step(
    reading: DayReading,
    mail: Option<Seq<u8>>,
    day: DayWindow,
    next: DayReading,
) -> bool {
    match reading {
        DayReading::Searching => is_search_step(mail, day, next),
        DayReading::Reading { first, date, events } => is_reading_step(
            first@,
            date,
            events@,
            mail,
            day,
            next,
        ),
        DayReading::Over(_) => next == reading,
    }
}

/// Whether the reading of the messages of the day `day` from the mailbox
/// `mbox` can stand at `reading` when the cursor is at `cursor`. While the
/// first message is looked for, the scan has come from the end of the
/// mailbox over messages only that can have been sent after the day. Later
/// the first message was found with the cursor left at `after`, and the
/// events so far are those of the messages from there on.
pub open spec fn is_reading_at(
    mbox: Seq<u8>,
    day: DayWindow,
    reading: DayReading,
    after: int,
    cursor: int,
) -> bool {
    match reading {
        DayReading::Searching => passes_over(
            mbox,
            mbox.len() as int,
            cursor,
            day.next_day_start as int,
        ),
        DayReading::Reading { first, date, events } => {
            &&& is_first_of_day(mbox, day, first@, date, after)
            &&& day.day_start <= date.timestamp
            &&& 0 <= after
            &&& reaches(mbox, after, cursor)
            &&& are_in_day_events(events@, mails_between(mbox, after, cursor), day.day_start as int)
        },
        DayReading::Over(_) => false,
    }
}

/// One step of the reading of a day leads from a place where the reading can
/// stand to another, or ends the reading with what the mailbox gives for the
/// day. The result is the cursor at which the first message of the day was
/// left.
pub proof fn lemma_day_step(
    mbox: Seq<u8>,
    day: DayWindow,
    reading: DayReading,
    after: int,
    before: int,
    mail: Option<Seq<u8>>,
    cursor: int,
    next: DayReading,
) -> (found: int)
    requires
        0 <= before <= mbox.len(),
        is_reading_at(mbox, day, reading, after, before),
        match next_mail(mbox, before) {
            Some((bytes, behind)) => mail == Some(bytes) && cursor == behind && 0 <= behind
                < before,
            None => mail is None && cursor == 0,
        },
        is_day_step(reading, mail, day, next),
    ensures
        match next {
            DayReading::Over(Ok(events)) => is_timeline_of_day(mbox, day, events@),
            DayReading::Over(Err(e)) => is_timeline_failed(mbox, day, e),
            _ => is_reading_at(mbox, day, next, found, cursor),
        },
{
    let top = mbox.len() as int;
    let day_start = day.day_start as int;
    let day_end = day.next_day_start as int;
    match reading {
        DayReading::Searching => {
            match mail {
                None => {
                    assert(is_search_over(mbox, top, day_end, cursor));
                    after
                },
                Some(bytes) => {
                    match parsed_headers(bytes) {
                        Err(words) => {
                            assert(is_search_failed(mbox, top, day_end, next->Over_0->Err_0, cursor));
                            after
                        },
                        Ok(headers) => {
                            match next {
                                DayReading::Searching => {
                                    lemma_passes_over_step(mbox, top, before, day_end);
                                    after
                                },
                                DayReading::Reading { first, date, events } => {
                                    assert(is_first_mail_before(
                                        mbox,
                                        top,
                                        day_end,
                                        first@,
                                        date,
                                        cursor,
                                    ));
                                    assert(reaches(mbox, cursor, cursor));
                                    assert(mails_between(mbox, cursor, cursor) =~= Seq::<
                                        Seq<u8>,
                                    >::empty());
                                    cursor
                                },
                                DayReading::Over(Ok(events)) => {
                                    if spec_named_date(headers) is None {
                                        assert(is_search_over(mbox, top, day_end, cursor));
                                    } else {
                                        let date = choose|date: LocalDateTime|
                                            {
                                                &&& #[trigger] is_date_of(date, headers)
                                                &&& date.wf()
                                                &&& date.timestamp < day.next_day_start
                                                &&& date.timestamp < day.day_start
                                            };
                                        assert(is_first_mail_before(
                                            mbox,
                                            top,
                                            day_end,
                                            bytes,
                                            date,
                                            cursor,
                                        ));
                                        assert(is_first_of_day(mbox, day, bytes, date, cursor));
                                    }
                                    after
                                },
                                DayReading::Over(Err(_)) => after,
                            }
                        },
                    }
                },
            }
        },
        DayReading::Reading { first, date, events } => {
            match next {
                DayReading::Searching => after,
                DayReading::Reading { first: same_first, date: same_date, events: more } => {
                    let bytes = mail->Some_0;
                    lemma_reaches_step(mbox, after, before);
                    let seen = mails_between(mbox, after, before);
                    let mails = mails_between(mbox, after, cursor);
                    assert(mails == seen.push(bytes));
                    assert forall|k: int| 0 <= k < more@.len() implies is_in_day_event(
                        #[trigger] more@[k],
                        mails[k],
                        day_start,
                    ) by {
                        if k < events@.len() {
                            assert(more@[k] == more@.drop_last()[k]);
                            assert(mails[k] == seen[k]);
                        }
                    }
                    after
                },
                DayReading::Over(r) => {
                    if mail matches Some(bytes) && r matches Err(e) && mail_fails_with(bytes, e) {
                        assert(is_day_reading_failed(mbox, after, r->Err_0, cursor));
                    } else {
                        match r {
                            Ok(all) => {
                                assert(is_day_reading(
                                    mbox,
                                    after,
                                    day_start,
                                    all@.drop_last(),
                                    cursor,
                                ));
                                assert(is_day_with_mail(mbox, day, all@));
                            },
                            Err(e) => {},
                        }
                    }
                    after
                },
            }
        },
        DayReading::Over(_) => after,
    }
}

impl Email {
    /// The value of the first header named `header_name`.
    pub fn get_header_val(headers: &Vec<HeaderField>, header_name: &str) -> (r: Option<String>)
        ensures
            r == spec_header_val(headers@, header_name@),
    {
        let mut i: usize = 0;
        assert(headers@.skip(0) =~= headers@);
        while i < headers.len()
            invariant
                i <= headers@.len(),
                spec_header_val(headers@, header_name@) == spec_header_val(
                    headers@.skip(i as int),
                    header_name@,
                ),
            decreases headers.len() - i,
        {
            assert(headers@.skip(i as int).skip(1) =~= headers@.skip(i + 1));
            if same(headers[i].key.as_str(), header_name) {
                return Some(headers[i].value.clone());
            }
            i = i + 1;
        }
        None
    }

    /// `dt_str` without its last six characters, if it has more than six.
    /// Some dates end in the name of their time zone in brackets, such as
    /// ` (CET)`, which the date formats cannot read.
    pub fn drop_string_tz_if_present(dt_str: &str) -> (r: &str)
        ensures
            r@ == spec_drop_tz(dt_str@),
    {
        let n = dt_str.unicode_len();
        if n > 6 {
            dt_str.substring_char(0, n - 6)
        } else {
            dt_str
        }
    }

    /// The first of four readings of a date that gave one.
    pub fn first_parsed(
        a: Option<LocalDateTime>,
        b: Option<LocalDateTime>,
        c: Option<LocalDateTime>,
        d: Option<LocalDateTime>,
    ) -> (r: Option<LocalDateTime>)
        ensures
            r == spec_first_parsed(a, b, c, d),
    {
        if a.is_some() {
            a
        } else if b.is_some() {
            b
        } else if c.is_some() {
            c
        } else {
            d
        }
    }

    /// Reads the date of a message. Four shapes are tried in turn: RFC 2822;
    /// the same less strictly, after a time zone's name at the end is
    /// dropped; and two shapes without a time zone, which are taken as local
    /// time.
    ///
    /// A date in one of the first two shapes names its own time zone, so
    /// which instant it is depends on the text alone. A date in one of the
    /// other two is read in the time zone of the machine.
    pub fn parse_email_date(dt_str: &str) -> (r: Option<LocalDateTime>)
        ensures
            r matches Some(d) ==> d.wf(),
            match spec_zoned_date(dt_str@) {
                Some(i) => r matches Some(d) && d.instant() == i,
                None => match r {
                    Some(d) => is_zoneless_time(d.time, dt_str@),
                    None => true,
                },
            },
            spec_zoned_date(dt_str@) is None && !has_zoneless_reading(dt_str@) ==> r is None,
    {
        let a = parse_from_rfc2822(dt_str);
        let b = parse_from_str(Self::drop_string_tz_if_present(dt_str), "%a, %-d %b %Y %T %z");
        let c = LocalDateTime::read_local(dt_str, "%b %d %T %Y");
        let d = LocalDateTime::read_local(dt_str, "%a %b %e %T %Y");
        Self::first_parsed(a, b, c, d)
    }

    /// The date of a message, from its `Date` header.
    pub fn parse_email_headers_date(headers: &Vec<HeaderField>) -> (r: Option<LocalDateTime>)
        ensures
            r matches Some(d) ==> d.wf(),
            match spec_header_val(headers@, "Date"@) {
                Some(text) => match spec_zoned_date(text@) {
                    Some(i) => r matches Some(d) && d.instant() == i,
                    None => true,
                },
                None => r is None,
            },
    {
        match Self::get_header_val(headers, "Date") {
            Some(text) => Self::parse_email_date(text.as_str()),
            None => None,
        }
    }

    /// What to do with a message of the date `email_date` while looking for
    /// the first message sent before `next_day_start`.
    pub fn first_mail_step(email_date: Option<LocalDateTime>, next_day_start: i64) -> (r: MailStep)
        ensures
            r == match email_date {
                None => MailStep::Stop,
                Some(date) => if date.timestamp < next_day_start {
                    MailStep::Take
                } else {
                    MailStep::Skip
                },
            },
    {
        match email_date {
            None => MailStep::Stop,
            Some(date) => {
                if date.timestamp < next_day_start {
                    MailStep::Take
                } else {
                    MailStep::Skip
                }
            },
        }
    }

    /// The date of the message with the bytes `email_bytes`, read from its
    /// headers alone: `None` where it has no `Date` header or none that can
    /// be read.
    pub fn mail_date(email_bytes: &[u8]) -> (r: Result<Option<LocalDateTime>, SourceError>)
        ensures
            match parsed_headers(email_bytes@) {
                Ok(headers) => match r {
                    Ok(Some(d)) => d.wf() && is_date_of(d, headers),
                    Ok(None) => spec_named_date(headers) is None,
                    Err(_) => false,
                },
                Err(words) => r matches Err(e) && e.is_parse(words),
            },
    {
        match parse_headers(email_bytes) {
            Ok(headers) => {
                proof {
                    lemma_header_text(headers@, "Date"@);
                }
                Ok(Self::parse_email_headers_date(&headers))
            },
            Err(e) => Err(e),
        }
    }

    /// The event of the message with the bytes `email_bytes`, which was sent
    /// at `email_date`.
    pub fn mail_to_event(email_bytes: &[u8], email_date: &LocalDateTime) -> (r: Result<
        Event,
        SourceError,
    >)
        ensures
            match r {
                Ok(e) => is_event_of_mail(e, email_bytes@, *email_date),
                Err(e) => mail_fails_with(email_bytes@, e),
            },
    {
        match parse_mail(email_bytes) {
            Ok(mail) => {
                let r = Self::email_to_event(&mail, email_date);
                assert(is_mail_of(mail, email_bytes@));
                r
            },
            Err(e) => Err(e),
        }
    }

    /// The event of the message with the bytes `email_bytes` if the message
    /// was sent at `day_start` or later: `None` where it has no date that can
    /// be read or was sent before.
    pub fn mail_in_day(email_bytes: &[u8], day_start: i64) -> (r: Result<Option<Event>, SourceError>)
        ensures
            match r {
                Ok(Some(e)) => is_in_day_event(e, email_bytes@, day_start as int),
                Ok(None) => is_before_day(email_bytes@, day_start as int),
                Err(e) => mail_fails_with(email_bytes@, e),
            },
    {
        let email_contents = match parse_mail(email_bytes) {
            Ok(mail) => mail,
            Err(e) => {
                return Err(e);
            },
        };
        assert(is_mail_of(email_contents, email_bytes@));
        proof {
            lemma_header_text(email_contents.headers@, "Date"@);
        }
        let email_date = Self::parse_email_headers_date(&email_contents.headers);
        match Self::in_day_date(email_date, day_start) {
            None => Ok(None),
            Some(d) => match Self::email_to_event(&email_contents, &d) {
                Ok(event) => {
                    assert(is_event_of_mail(event, email_bytes@, d));
                    Ok(Some(event))
                },
                Err(e) => Err(e),
            },
        }
    }

    /// Passes over the messages that were sent at `next_day_start` or later,
    /// reading their headers only, and returns the first that was sent
    /// before, with its date. The search is over, with `None`, when the
    /// mailbox has no further message or a message has no date that can be
    /// read.
    ///
    /// The message that is returned is one that the scan recovers from the
    /// mailbox, and the cursor is left behind it. A date that names its own
    /// time zone decides by its instant alone whether a message is passed
    /// over; a date without a time zone is read in the time zone of the
    /// machine.
    pub fn find_first_mail_sent_before(
        mbox: &[u8],
        buf: &mut Vec<u8>,
        parsing_state: &mut ParsingState,
        next_day_start: i64,
    ) -> (r: Result<Option<(Vec<u8>, LocalDateTime)>, SourceError>)
        requires
            old(buf)@.len() > 0,
            old(parsing_state).bytes_left <= mbox@.len(),
        ensures
            final(buf)@.len() == old(buf)@.len(),
            final(parsing_state).bytes_left <= old(parsing_state).bytes_left,
            match r {
                Ok(Some((email_bytes, date))) => {
                    &&& date.wf()
                    &&& date.timestamp < next_day_start
                    &&& is_first_mail_before(
                        mbox@,
                        old(parsing_state).bytes_left as int,
                        next_day_start as int,
                        email_bytes@,
                        date,
                        final(parsing_state).bytes_left as int,
                    )
                },
                Ok(None) => is_search_over(
                    mbox@,
                    old(parsing_state).bytes_left as int,
                    next_day_start as int,
                    final(parsing_state).bytes_left as int,
                ),
                Err(e) => is_search_failed(
                    mbox@,
                    old(parsing_state).bytes_left as int,
                    next_day_start as int,
                    e,
                    final(parsing_state).bytes_left as int,
                ),
            },
    {
        let ghost top = parsing_state.bytes_left as int;
        let ghost bound = next_day_start as int;
        loop
            invariant
                buf@.len() == old(buf)@.len(),
                buf@.len() > 0,
                top == old(parsing_state).bytes_left,
                bound == next_day_start,
                parsing_state.bytes_left <= top <= mbox@.len(),
                passes_over(mbox@, top, parsing_state.bytes_left as int, bound),
            decreases parsing_state.bytes_left,
        {
            let ghost before = parsing_state.bytes_left as int;
            let email_bytes = Self::read_next_mail(mbox, buf, parsing_state);
            proof {
                crate::events::mailbox::law_consumed_mail_is_not_returned_again(mbox@, before);
            }
            let email_date = match &email_bytes {
                Some(bytes) => match Self::mail_date(bytes.as_slice()) {
                    Ok(date) => date,
                    Err(e) => {
                        assert(is_search_failed(
                            mbox@,
                            top,
                            bound,
                            e,
                            parsing_state.bytes_left as int,
                        ));
                        return Err(e);
                    },
                },
                None => None,
            };
            match Self::first_mail_step(email_date, next_day_start) {
                MailStep::Stop => {
                    assert(is_search_over(mbox@, top, bound, parsing_state.bytes_left as int));
                    return Ok(None);
                },
                MailStep::Take => {
                    let bytes = email_bytes.unwrap();
                    let date = email_date.unwrap();
                    assert(is_first_mail_before(
                        mbox@,
                        top,
                        bound,
                        bytes@,
                        date,
                        parsing_state.bytes_left as int,
                    ));
                    return Ok(Some((bytes, date)));
                },
                MailStep::Skip => {
                    proof {
                        lemma_passes_over_step(mbox@, top, before, bound);
                    }
                },
            }
        }
    }

    /// The text of a message: of a message in several parts, the text of its
    /// first part that is plain text or holds alternatives, which are
    /// searched in the same way. A message in several parts none of which
    /// can be read so is an error: the text of another form is not put in
    /// its place.
    pub fn find_message_body(email_contents: &MailPart, email_date: &LocalDateTime) -> (r: Result<
        String,
        SourceError,
    >)
        ensures
            match spec_message_body(*email_contents) {
                Some(body) => r == body,
                None => r matches Err(e) && is_no_plain_text_error(e),
            },
        decreases email_contents,
    {
        if email_contents.subparts.len() > 1 {
            let mut i: usize = 0;
            while i < email_contents.subparts.len()
                invariant
                    i <= email_contents.subparts@.len(),
                    email_contents.subparts@.len() > 1,
                    first_readable(email_contents.subparts@, 0) == first_readable(
                        email_contents.subparts@,
                        i as int,
                    ),
                decreases email_contents.subparts.len() - i,
            {
                let part = &email_contents.subparts[i];
                if contains(part.mimetype.as_str(), "multipart/alternative") {
                    assert(first_readable(email_contents.subparts@, i as int) == Some(i as int));
                    return Self::find_message_body(part, email_date);
                }
                if contains(part.mimetype.as_str(), "text/plain") {
                    assert(first_readable(email_contents.subparts@, i as int) == Some(i as int));
                    return match &part.body {
                        Ok(text) => Ok(text.clone()),
                        Err(e) => Err(e.duplicate()),
                    };
                }
                i = i + 1;
            }
            let shown = match display_local(email_date) {
                Some(shown) => shown,
                None => {
                    let mut digits: Vec<char> = Vec::new();
                    push_signed(&mut digits, email_date.timestamp as i128);
                    string_of(&digits)
                },
            };
            let mut words: Vec<char> = Vec::new();
            push_str(&mut words, "Email of ");
            push_str(&mut words, shown.as_str());
            push_str(&mut words, ": can't find a text/plain part");
            let e = SourceError::Parse(string_of(&words));
            assert(e.is_parse("Email of "@ + shown@ + ": can't find a text/plain part"@)) by {
                assert(words@ =~= "Email of "@ + shown@ + ": can't find a text/plain part"@);
            }
            Err(e)
        } else {
            match &email_contents.body {
                Ok(text) => Ok(text.clone()),
                Err(e) => Err(e.duplicate()),
            }
        }
    }

    /// The event of a message that was sent at `email_date`.
    pub fn email_to_event(email_contents: &MailPart, email_date: &LocalDateTime) -> (r: Result<
        Event,
        SourceError,
    >)
        ensures
            match spec_message_body(*email_contents) {
                Some(Ok(body)) => r matches Ok(e) && is_email_event(
                    e,
                    email_contents.headers@,
                    body@,
                    *email_date,
                ),
                Some(Err(e)) => r == Err::<Event, SourceError>(e),
                None => r matches Err(e) && is_no_plain_text_error(e),
            },
    {
        let message_body = match Self::find_message_body(email_contents, email_date) {
            Ok(body) => body,
            Err(e) => {
                return Err(e);
            },
        };
        let to = Self::get_header_val(&email_contents.headers, "To");
        let cc = Self::get_header_val(&email_contents.headers, "Cc");
        let mut text: Vec<char> = Vec::new();
        match &to {
            Some(t) => {
                push_str(&mut text, "To: ");
                push_str(&mut text, t.as_str());
                push_str(&mut text, "\n");
            },
            None => {},
        }
        match &cc {
            Some(c) => {
                push_str(&mut text, "Cc: ");
                push_str(&mut text, c.as_str());
                push_str(&mut text, "\n\n");
            },
            None => {},
        }
        push_str(&mut text, message_body.as_str());
        assert(text@ =~= spec_event_text(to, cc, message_body@));
        let email_subject = match Self::get_header_val(&email_contents.headers, "Subject") {
            Some(s) => s,
            None => "-".to_owned(),
        };
        Ok(
            Event::new(
                "Email",
                Icon::envelope(),
                email_date.time,
                email_subject.clone(),
                email_subject,
                EventBody::PlainText(string_of(&text)),
                to,
            ),
        )
    }

    /// The events of the messages from the cursor down to `day_start`: the
    /// messages are read, newest first, until the mailbox has no further
    /// message or a message has no date or was sent before `day_start`.
    ///
    /// There is one event for each message that the scan recovers before it
    /// stops, in their order, and the cursor is left behind the message at
    /// which it stopped.
    pub fn read_emails_until_day_start(
        mbox: &[u8],
        buf: &mut Vec<u8>,
        day_start: i64,
        parsing_state: &mut ParsingState,
    ) -> (r: Result<Vec<Event>, SourceError>)
        requires
            old(buf)@.len() > 0,
            old(parsing_state).bytes_left <= mbox@.len(),
        ensures
            final(buf)@.len() == old(buf)@.len(),
            final(parsing_state).bytes_left <= old(parsing_state).bytes_left,
            match r {
                Ok(events) => is_day_reading(
                    mbox@,
                    old(parsing_state).bytes_left as int,
                    day_start as int,
                    events@,
                    final(parsing_state).bytes_left as int,
                ),
                Err(e) => is_day_reading_failed(
                    mbox@,
                    old(parsing_state).bytes_left as int,
                    e,
                    final(parsing_state).bytes_left as int,
                ),
            },
    {
        let mut result: Vec<Event> = Vec::new();
        let ghost top = parsing_state.bytes_left as int;
        let ghost bound = day_start as int;
        proof {
            assert(mails_between(mbox@, top, top) =~= Seq::<Seq<u8>>::empty());
        }
        loop
            invariant
                buf@.len() == old(buf)@.len(),
                buf@.len() > 0,
                top == old(parsing_state).bytes_left,
                bound == day_start,
                parsing_state.bytes_left <= top <= mbox@.len(),
                reaches(mbox@, top, parsing_state.bytes_left as int),
                are_in_day_events(
                    result@,
                    mails_between(mbox@, top, parsing_state.bytes_left as int),
                    bound,
                ),
            decreases parsing_state.bytes_left,
        {
            let ghost before = parsing_state.bytes_left as int;
            let ghost seen = mails_between(mbox@, top, before);
            let next = Self::read_next_mail(mbox, buf, parsing_state);
            proof {
                crate::events::mailbox::law_consumed_mail_is_not_returned_again(mbox@, before);
            }
            match next {
                None => {
                    assert(is_day_reading(
                        mbox@,
                        top,
                        bound,
                        result@,
                        parsing_state.bytes_left as int,
                    ));
                    return Ok(result);
                },
                Some(email_bytes) => {
                    match Self::mail_in_day(email_bytes.as_slice(), day_start) {
                        Ok(None) => {
                            assert(is_day_reading(
                                mbox@,
                                top,
                                bound,
                                result@,
                                parsing_state.bytes_left as int,
                            ));
                            return Ok(result);
                        },
                        Ok(Some(event)) => {
                            let ghost events = result@;
                            result.push(event);
                            proof {
                                lemma_reaches_step(mbox@, top, before);
                                let mails = mails_between(
                                    mbox@,
                                    top,
                                    parsing_state.bytes_left as int,
                                );
                                assert(mails == seen.push(email_bytes@));
                                assert forall|k: int| 0 <= k < result@.len() implies is_in_day_event(
                                    #[trigger] result@[k],
                                    mails[k],
                                    bound,
                                ) by {
                                    if k < events.len() {
                                        assert(result@[k] == events[k]);
                                        assert(mails[k] == seen[k]);
                                    }
                                }
                            }
                        },
                        Err(e) => {
                            assert(is_day_reading_failed(
                                mbox@,
                                top,
                                e,
                                parsing_state.bytes_left as int,
                            ));
                            return Err(e);
                        },
                    }
                },
            }
        }
    }

    /// Whether a message of the date `email_date` was sent before the day
    /// `day` began. Where the first message sent before the end of the day
    /// is such a message, no message is of the day.
    pub fn is_older_than_day(email_date: &LocalDateTime, day: &DayWindow) -> (r: bool)
        ensures
            r == (email_date.timestamp < day.day_start),
    {
        email_date.timestamp < day.day_start
    }

    /// The date of a message if the message was sent at `day_start` or
    /// later: `None` where it has no date or was sent before.
    pub fn in_day_date(email_date: Option<LocalDateTime>, day_start: i64) -> (r: Option<
        LocalDateTime,
    >)
        ensures
            r == match email_date {
                Some(d) => if d.timestamp >= day_start {
                    Some(d)
                } else {
                    None
                },
                None => None,
            },
    {
        match email_date {
            Some(d) => {
                if d.timestamp >= day_start {
                    Some(d)
                } else {
                    None
                }
            },
            None => None,
        }
    }

    /// What the reading of a day ends with: the events of the messages
    /// below the first message of the day, and last the event of that first
    /// message.
    pub fn end_of_day(first: Vec<u8>, date: LocalDateTime, events: Vec<Event>) -> (r: Result<
        Vec<Event>,
        SourceError,
    >)
        ensures
            is_day_end(r, first@, date, events@),
    {
        let mut all = events;
        match Self::mail_to_event(first.as_slice(), &date) {
            Ok(event) => {
                all.push(event);
                assert(all@.drop_last() =~= events@);
                Ok(all)
            },
            Err(e) => Err(e),
        }
    }

    /// Where the reading of the messages of the day `day` stands after it
    /// stood at `reading` and the message `mail` was read next, going
    /// backward; `None` where the mailbox has no further message.
    ///
    /// The messages sent after the day are passed over, with only their
    /// headers read. Where the first message sent before the end of the day
    /// was sent before its beginning too, no message is of the day.
    /// Otherwise the messages are read on until one is older than the day;
    /// each becomes an event, and the event of the first message comes last.
    pub fn day_step(reading: DayReading, mail: Option<Vec<u8>>, day: &DayWindow) -> (next:
        DayReading)
        ensures
            is_day_step(reading, bytes_of(mail), *day, next),
    {
        match reading {
            DayReading::Searching => match mail {
                None => DayReading::Over(Ok(Vec::new())),
                Some(bytes) => match Self::mail_date(bytes.as_slice()) {
                    Err(e) => DayReading::Over(Err(e)),
                    Ok(email_date) => match Self::first_mail_step(email_date, day.next_day_start) {
                        MailStep::Stop => DayReading::Over(Ok(Vec::new())),
                        MailStep::Skip => DayReading::Searching,
                        MailStep::Take => {
                            let date = email_date.unwrap();
                            if Self::is_older_than_day(&date, day) {
                                assert(is_sent_before_day(
                                    parsed_headers(bytes@)->Ok_0,
                                    *day,
                                ));
                                DayReading::Over(Ok(Vec::new()))
                            } else {
                                DayReading::Reading { first: bytes, date, events: Vec::new() }
                            }
                        },
                    },
                },
            },
            DayReading::Reading { first, date, events } => match mail {
                None => DayReading::Over(Self::end_of_day(first, date, events)),
                Some(bytes) => match Self::mail_in_day(bytes.as_slice(), day.day_start) {
                    Err(e) => DayReading::Over(Err(e)),
                    Ok(None) => DayReading::Over(Self::end_of_day(first, date, events)),
                    Ok(Some(event)) => {
                        let mut more = events;
                        more.push(event);
                        assert(more@.drop_last() =~= events@);
                        DayReading::Reading { first, date, events: more }
                    },
                },
            },
            DayReading::Over(r) => DayReading::Over(r),
        }
    }

    /// The events of the messages in the mailbox `mbox` that were sent on
    /// the day `day`.
    ///
    /// The mailbox is read from its end. The messages sent after the day are
    /// passed over. Where the first message sent before the end of the day
    /// was sent before its beginning too, no message is of the day.
    /// Otherwise the messages are read on until one is older than the day;
    /// each becomes an event, and the event of the first message comes last.
    pub fn get_events(mbox: &[u8], day: &DayWindow) -> (r: Result<Vec<Event>, SourceError>)
        ensures
            match r {
                Ok(events) => is_timeline_of_day(mbox@, *day, events@),
                Err(e) => is_timeline_failed(mbox@, *day, e),
            },
    {
        let mut buf: Vec<u8> = Vec::new();
        buf.resize(BUF_SIZE as usize, 0u8);
        let mut parsing_state = ParsingState::new(mbox.len() as u64);
        let mut reading = DayReading::Searching;
        let ghost mut after: int = mbox@.len() as int;
        loop
            invariant
                buf@.len() > 0,
                parsing_state.bytes_left <= mbox@.len(),
                is_reading_at(mbox@, *day, reading, after, parsing_state.bytes_left as int),
            decreases parsing_state.bytes_left,
        {
            let ghost before = parsing_state.bytes_left as int;
            let ghost was = reading;
            let mail = Self::read_next_mail(mbox, &mut buf, &mut parsing_state);
            let next = Self::day_step(reading, mail, day);
            proof {
                crate::events::mailbox::law_consumed_mail_is_not_returned_again(mbox@, before);
                after =
                lemma_day_step(
                    mbox@,
                    *day,
                    was,
                    after,
                    before,
                    bytes_of(mail),
                    parsing_state.bytes_left as int,
                    next,
                );
            }
            match next {
                DayReading::Over(r) => {
                    return r;
                },
                other => {
                    reading = other;
                },
            }
        }
    }
}

impl EventProvider for Email {
    open spec fn spec_name(&self) -> &'static str {
        "Email"
    }

    open spec fn spec_icon_name(&self) -> &'static str {
        "envelope-symbolic"
    }

    open spec fn spec_config_fields(&self) -> Seq<(&'static str, ConfigType)> {
        seq![("Mbox file path", ConfigType::File)]
    }

    open spec fn spec_config_names(&self, config: &Config) -> Seq<Seq<char>> {
        config.email.names()
    }

    open spec fn spec_config_values(&self, config: &Config, config_name: Seq<char>) -> Option<
        Seq<Seq<char>>,
    > {
        if config.email.contains(config_name) {
            Some(seq![config.email.value(config_name).mbox_file_path@])
        } else {
            None
        }
    }

    fn get_config_fields(&self) -> (r: Vec<(&'static str, ConfigType)>) {
        let mut fields: Vec<(&'static str, ConfigType)> = Vec::new();
        fields.push(("Mbox file path", ConfigType::File));
        assert(fields@ =~= self.spec_config_fields());
        fields
    }

    fn name(&self) -> (r: &'static str) {
        "Email"
    }

    fn default_icon(&self) -> (r: Icon) {
        Icon::envelope()
    }

    fn get_config_names(&self, config: &Config) -> (r: Vec<String>) {
        config.email.get_names()
    }

    fn get_config_values(&self, config: &Config, config_name: &str) -> (r: Vec<
        (&'static str, String),
    >) {
        let mut values: Vec<(&'static str, String)> = Vec::new();
        match config.email.get(config_name) {
            Some(source) => {
                values.push(("Mbox file path", source.mbox_file_path.clone()));
            },
            None => {},
        }
        assert(field_values(values@) =~= self.spec_config_values(config, config_name@).unwrap());
        values
    }

    fn add_config_values(
        &self,
        config: &mut Config,
        config_name: String,
        config_values: Vec<(&'static str, String)>,
    )
        ensures
            final(config).email.as_map() == old(config).email.as_map().insert(
                config_name@,
                final(config).email.value(config_name@),
            ),
            final(config).git == old(config).git,
            final(config).ical == old(config).ical,
            final(config).redmine == old(config).redmine,
            final(config).gitlab == old(config).gitlab,
            final(config).stackexchange == old(config).stackexchange,
            final(config).prefer_dark_theme == old(config).prefer_dark_theme,
            final(config).prev_next_day_skip_weekends == old(config).prev_next_day_skip_weekends,
    {
        proof {
            let fields = self.spec_config_fields();
            assert(fields[0].0@ == "Mbox file path"@);
        }
        let mbox_file_path = value_for(&config_values, "Mbox file path");
        let ghost added = EmailConfig { mbox_file_path };
        config.email.insert(config_name, EmailConfig { mbox_file_path });
        proof {
            let table = config.email.as_map();
            assert(table == old(config).email.as_map().insert(config_name@, added));
            assert(table.dom().contains(config_name@));
            assert(table[config_name@] == added);
            assert(config.email.contains(config_name@));
            assert(config.email.value(config_name@) == added);
            assert(self.spec_config_values(config, config_name@).unwrap() =~= chosen_values(
                self.spec_config_fields(),
                config_values@,
            ));
        }
    }

    fn remove_config(&self, config: &mut Config, config_name: String)
        ensures
            final(config).email.as_map() == old(config).email.as_map().remove(config_name@),
            final(config).git == old(config).git,
            final(config).ical == old(config).ical,
            final(config).redmine == old(config).redmine,
            final(config).gitlab == old(config).gitlab,
            final(config).stackexchange == old(config).stackexchange,
            final(config).prefer_dark_theme == old(config).prefer_dark_theme,
            final(config).prev_next_day_skip_weekends == old(config).prev_next_day_skip_weekends,
    {
        config.email.remove(config_name.as_str());
        proof {
            assert(!config.email.as_map().dom().contains(config_name@));
        }
    }
}

} // verus!
