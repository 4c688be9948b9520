//! The event record that every source produces, and what the sources have
//! in common.

use crate::config::Config;
use crate::events::email::Email;
use crate::events::git::Git;
use crate::events::gitlab::Gitlab;
use crate::events::ical::Ical;
use crate::events::redmine::Redmine;
use crate::events::stackexchange::StackExchange;
use crate::icons::Icon;
use crate::sorting::is_sorted_by_time;
use crate::sorting::sort_by_time;
use crate::sorting::sorted_by_time;
use crate::text::push_str;
use crate::text::same;
use crate::text::string_of;
use crate::time::TimeOfDay;
use vstd::prelude::*;

verus! {

/// The kind of a configuration field, as a form shows it.
#[derive(PartialEq, Copy, Clone)]
pub enum ConfigType {
    /// Free text, with the value that the field begins with.
    Text(&'static str),
    /// A secret.
    Password,
    /// The path of a file.
    File,
    /// The path of a folder.
    Folder,
    /// One of a list of choices.
    Combo,
}

/// Whether the lines of a marked-up body are wrapped.
#[derive(Clone, Copy, Debug, PartialEq, Eq, Structural)]
pub enum WordWrapMode {
    WordWrap,
    NoWordWrap,
}

/// The body of an event: plain text, which is never read as markup, or
/// markup that may hold simple inline formatting and links.
#[derive(Clone, Debug, PartialEq)]
pub enum EventBody {
    PlainText(String),
    Markup(String, WordWrapMode),
}

impl EventBody {
    /// The text of the body, whichever kind it is.
    pub open spec fn text(&self) -> Seq<char> {
        match self {
            EventBody::Markup(s, _) => s@,
            EventBody::PlainText(s) => s@,
        }
    }

    /// Whether the body is markup.
    pub fn is_markup(&self) -> (r: bool)
        ensures
            r == (self is Markup),
    {
        match self {
            EventBody::Markup(_, _) => true,
            EventBody::PlainText(_) => false,
        }
    }

    /// The text of the body.
    pub fn as_str(&self) -> (r: &str)
        ensures
            r@ == self.text(),
    {
        match self {
            EventBody::Markup(s, _) => s.as_str(),
            EventBody::PlainText(s) => s.as_str(),
        }
    }

    /// Whether the body is markup whose lines are wrapped.
    pub fn is_word_wrap(&self) -> (r: bool)
        ensures
            r == (self matches EventBody::Markup(_, mode) && mode == WordWrapMode::WordWrap),
    {
        match self {
            EventBody::Markup(_, WordWrapMode::WordWrap) => true,
            _ => false,
        }
    }

    /// A copy of the body.
    pub fn duplicate(&self) -> (r: EventBody)
        ensures
            r == *self,
    {
        match self {
            EventBody::Markup(s, mode) => EventBody::Markup(s.clone(), *mode),
            EventBody::PlainText(s) => EventBody::PlainText(s.clone()),
        }
    }
}

/// One thing that happened on the day that was asked for.
#[derive(Clone, Debug, PartialEq)]
pub struct Event {
    /// The short display name of the kind of source.
    pub event_type_desc: &'static str,
    /// The icon of the kind of source.
    pub event_type_icon: Icon,
    /// The wall-clock time of the event. The date is that of the day that was
    /// asked for.
    pub event_time: TimeOfDay,
    /// A summary in one line.
    pub event_info: String,
    /// The header of the details.
    pub event_contents_header: String,
    /// The details.
    pub event_contents_body: EventBody,
    /// A short annotation.
    pub event_extra_details: Option<String>,
}

impl Event {
    /// The event with the given fields.
    pub fn new(
        event_type_desc: &'static str,
        event_type_icon: Icon,
        event_time: TimeOfDay,
        event_info: String,
        event_contents_header: String,
        event_contents_body: EventBody,
        event_extra_details: Option<String>,
    ) -> (r: Event)
        ensures
            r == (Event {
                event_type_desc,
                event_type_icon,
                event_time,
                event_info,
                event_contents_header,
                event_contents_body,
                event_extra_details,
            }),
    {
        Event {
            event_type_desc,
            event_type_icon,
            event_time,
            event_info,
            event_contents_header,
            event_contents_body,
            event_extra_details,
        }
    }
}

/// Why a source could not give its events.
#[derive(Clone, Debug, PartialEq)]
pub enum SourceError {
    /// A file or a server could not be reached or read.
    Io(String),
    /// What was read is not what was expected: a date, a message, a page.
    Parse(String),
    /// The server turned the login down.
    Authentication(String),
    /// Something that was looked for is not there.
    NotFound(String),
}

impl SourceError {
    /// The words of the error.
    pub open spec fn text(&self) -> Seq<char> {
        match self {
            SourceError::Io(s) => s@,
            SourceError::Parse(s) => s@,
            SourceError::Authentication(s) => s@,
            SourceError::NotFound(s) => s@,
        }
    }

    /// Whether the error is of the kind `Io` and has the words `words`.
    pub open spec fn is_io(&self, words: Seq<char>) -> bool {
        self matches SourceError::Io(w) && w@ == words
    }

    /// Whether the error is of the kind `Parse` and has the words `words`.
    pub open spec fn is_parse(&self, words: Seq<char>) -> bool {
        self matches SourceError::Parse(w) && w@ == words
    }

    /// Whether the error is of the kind `Authentication` and has the words
    /// `words`.
    pub open spec fn is_authentication(&self, words: Seq<char>) -> bool {
        self matches SourceError::Authentication(w) && w@ == words
    }

    /// Whether the error is of the kind `NotFound` and has the words `words`.
    pub open spec fn is_not_found(&self, words: Seq<char>) -> bool {
        self matches SourceError::NotFound(w) && w@ == words
    }

    /// A copy of the error.
    pub fn duplicate(&self) -> (r: SourceError)
        ensures
            r == *self,
    {
        match self {
            SourceError::Io(s) => SourceError::Io(s.clone()),
            SourceError::Parse(s) => SourceError::Parse(s.clone()),
            SourceError::Authentication(s) => SourceError::Authentication(s.clone()),
            SourceError::NotFound(s) => SourceError::NotFound(s.clone()),
        }
    }

    /// The words of the error.
    pub fn message(&self) -> (r: String)
        ensures
            r@ == self.text(),
    {
        match self {
            SourceError::Io(s) => s.clone(),
            SourceError::Parse(s) => s.clone(),
            SourceError::Authentication(s) => s.clone(),
            SourceError::NotFound(s) => s.clone(),
        }
    }
}

/// The failure of one source, with the names that tell which source it was.
#[derive(Clone, Debug, PartialEq)]
pub struct ProviderError {
    /// The name of the provider.
    pub provider_name: &'static str,
    /// The name of the configured source.
    pub config_name: String,
    /// What went wrong.
    pub err: SourceError,
}

/// The words of the failure `err` of the source `config_name` of the
/// provider `provider_name`.
pub open spec fn spec_provider_error_text(
    provider_name: Seq<char>,
    config_name: Seq<char>,
    err: Seq<char>,
) -> Seq<char> {
    provider_name + " - "@ + config_name + ": "@ + err
}

impl ProviderError {
    /// The failure `err` of the source `config_name` of the provider
    /// `provider_name`.
    pub fn new(provider_name: &'static str, config_name: String, err: SourceError) -> (r:
        ProviderError)
        ensures
            r == (ProviderError { provider_name, config_name, err }),
    {
        ProviderError { provider_name, config_name, err }
    }

    /// The words of the failure: the provider, the source and what went
    /// wrong.
    pub fn message(&self) -> (r: String)
        ensures
            r@ == spec_provider_error_text(self.provider_name@, self.config_name@, self.err.text()),
    {
        let mut words: Vec<char> = Vec::new();
        push_str(&mut words, self.provider_name);
        push_str(&mut words, " - ");
        push_str(&mut words, self.config_name.as_str());
        push_str(&mut words, ": ");
        push_str(&mut words, self.err.message().as_str());
        string_of(&words)
    }
}

/// What one source gave when it was asked for the events of a day.
#[derive(Debug, PartialEq)]
pub struct SourceEvents {
    /// The name of the provider.
    pub provider_name: &'static str,
    /// The name of the configured source.
    pub config_name: String,
    /// The events, or why there are none.
    pub events: Result<Vec<Event>, SourceError>,
}

/// The position of the first source at or after `from` that failed.
pub open spec fn first_failure(outcomes: Seq<SourceEvents>, from: int) -> Option<int>
    decreases outcomes.len() - from,
{
    if from < 0 || from >= outcomes.len() {
        None
    } else if outcomes[from].events is Err {
        Some(from)
    } else {
        first_failure(outcomes, from + 1)
    }
}

/// The first failure is a failure, and no source before it failed.
pub proof fn lemma_first_failure(outcomes: Seq<SourceEvents>, from: int)
    requires
        0 <= from,
    ensures
        match first_failure(outcomes, from) {
            Some(i) => from <= i < outcomes.len() && outcomes[i].events is Err && forall|j: int|
                from <= j < i ==> (#[trigger] outcomes[j]).events is Ok,
            None => forall|j: int| from <= j < outcomes.len() ==> (#[trigger] outcomes[j]).events is Ok,
        },
    decreases outcomes.len() - from,
{
    if from < outcomes.len() && outcomes[from].events is Ok {
        lemma_first_failure(outcomes, from + 1);
    }
}

/// Where one source failed, the whole fails: there is a first failure, and
/// it is that of the source at `i` where every source before it gave its
/// events. What the other sources gave does not matter.
pub proof fn law_one_failure_fails_all(outcomes: Seq<SourceEvents>, i: int)
    requires
        0 <= i < outcomes.len(),
        outcomes[i].events is Err,
    ensures
        first_failure(outcomes, 0) is Some,
        first_failure(outcomes, 0).unwrap() <= i,
        (forall|j: int| 0 <= j < i ==> (#[trigger] outcomes[j]).events is Ok) ==> first_failure(
            outcomes,
            0,
        ) == Some(i),
{
    lemma_first_failure(outcomes, 0);
}

/// The events of all sources, one source after the other.
pub open spec fn all_events(outcomes: Seq<SourceEvents>) -> Seq<Event>
    decreases outcomes.len(),
{
    if outcomes.len() == 0 {
        Seq::empty()
    } else {
        all_events(outcomes.drop_last()) + match outcomes.last().events {
            Ok(events) => events@,
            Err(_) => Seq::empty(),
        }
    }
}

/// The events of one day from what the sources gave, all or nothing.
///
/// Where every source gave its events, the result is all of them in the
/// order of their times, events of the same time in the order of their
/// sources. Where a source failed, the result is the failure of the first
/// such source, under the names of its provider and of the source, and the
/// events of the other sources are dropped.
pub fn get_all_events(outcomes: Vec<SourceEvents>) -> (r: Result<Vec<Event>, ProviderError>)
    ensures
        match first_failure(outcomes@, 0) {
            Some(i) => {
                &&& r matches Err(e)
                &&& e.provider_name == outcomes@[i].provider_name
                &&& e.config_name == outcomes@[i].config_name
                &&& outcomes@[i].events == Err::<Vec<Event>, SourceError>(e.err)
            },
            None => {
                &&& r matches Ok(events)
                &&& events@ == sorted_by_time(all_events(outcomes@))
                &&& is_sorted_by_time(events@)
                &&& events@.to_multiset() == all_events(outcomes@).to_multiset()
            },
        },
{
    let ghost all = outcomes@;
    let mut events: Vec<Event> = Vec::new();
    for outcome in it: outcomes
        invariant
            it.seq() == all,
            first_failure(all, 0) == first_failure(all, it.index() as int),
            events@ == all_events(all.take(it.index() as int)),
    {
        proof {
            let next = all.take(it.index() + 1);
            assert(next.drop_last() =~= all.take(it.index() as int));
            assert(next.last() == outcome);
        }
        match outcome.events {
            Ok(mut source_events) => {
                events.append(&mut source_events);
            },
            Err(err) => {
                return Err(ProviderError::new(outcome.provider_name, outcome.config_name, err));
            },
        }
    }
    assert(all.take(all.len() as int) =~= all);
    Ok(sort_by_time(events))
}

/// The value that stands with the field `key` among `values`: the first, if
/// the field stands there more than once.
pub open spec fn spec_value_of(values: Seq<(&'static str, String)>, key: Seq<char>) -> Option<
    String,
>
    decreases values.len(),
{
    if values.len() == 0 {
        None
    } else if values[0].0@ == key {
        Some(values[0].1)
    } else {
        spec_value_of(values.skip(1), key)
    }
}

/// The values alone, in their order.
pub open spec fn field_values(values: Seq<(&'static str, String)>) -> Seq<Seq<char>> {
    values.map_values(|v: (&'static str, String)| v.1@)
}

/// For each of `fields`, in their order, the value that stands with it among
/// `values`.
pub open spec fn chosen_values(
    fields: Seq<(&'static str, ConfigType)>,
    values: Seq<(&'static str, String)>,
) -> Seq<Seq<char>> {
    fields.map_values(
        |f: (&'static str, ConfigType)|
            match spec_value_of(values, f.0@) {
                Some(v) => v@,
                None => Seq::empty(),
            },
    )
}

/// Whether `values` give a value for each of `fields`.
pub open spec fn gives_all(
    fields: Seq<(&'static str, ConfigType)>,
    values: Seq<(&'static str, String)>,
) -> bool {
    forall|i: int| 0 <= i < fields.len() ==> spec_value_of(values, (#[trigger] fields[i]).0@) is Some
}

/// The value that stands with the field `key` among `values`.
pub fn value_for(values: &Vec<(&'static str, String)>, key: &str) -> (r: String)
    requires
        spec_value_of(values@, key@) is Some,
    ensures
        r == spec_value_of(values@, key@).unwrap(),
{
    let mut i: usize = 0;
    assert(values@.skip(0) =~= values@);
    while i < values.len()
        invariant
            i <= values@.len(),
            spec_value_of(values@, key@) == spec_value_of(values@.skip(i as int), key@),
            spec_value_of(values@, key@) is Some,
        decreases values.len() - i,
    {
        assert(values@.skip(i as int).skip(1) =~= values@.skip(i + 1));
        if same(values[i].0, key) {
            return values[i].1.clone();
        }
        i = i + 1;
    }
    String::new()
}

/// A kind of source of events. A provider knows its name and its icon,
/// which fields a source of its kind is configured with, and where the
/// sources of its kind stand in the configuration. Asking a source for its
/// events is left to the caller, which reads the files and asks the servers.
pub trait EventProvider {
    /// The name of the provider, by which its sources and its cache files
    /// are told from those of the others.
    spec fn spec_name(&self) -> &'static str;

    /// The symbolic name of the icon of the provider.
    spec fn spec_icon_name(&self) -> &'static str;

    /// The fields that a source of this provider is configured with, each
    /// with the kind of its value.
    spec fn spec_config_fields(&self) -> Seq<(&'static str, ConfigType)>;

    /// The names of the configured sources of this provider.
    spec fn spec_config_names(&self, config: &Config) -> Seq<Seq<char>>;

    /// The values of the fields of the source `config_name`, in the order
    /// of the fields; `None` where the provider has no such source.
    spec fn spec_config_values(&self, config: &Config, config_name: Seq<char>) -> Option<
        Seq<Seq<char>>,
    >;

    /// The fields that a source of this provider is configured with.
    fn get_config_fields(&self) -> (r: Vec<(&'static str, ConfigType)>)
        ensures
            r@ == self.spec_config_fields(),
    ;

    /// The names of the configured sources of this provider.
    fn get_config_names(&self, config: &Config) -> (r: Vec<String>)
        ensures
            r@.map_values(|s: String| s@) == self.spec_config_names(config),
    ;

    /// The values of the fields of the source `config_name`, each with the
    /// name of its field.
    fn get_config_values(&self, config: &Config, config_name: &str) -> (r: Vec<
        (&'static str, String),
    >)
        requires
            config.wf(),
            self.spec_config_values(config, config_name@) is Some,
        ensures
            r@.len() == self.spec_config_fields().len(),
            forall|i: int| 0 <= i < r@.len() ==> (#[trigger] r@[i]).0 == self.spec_config_fields()[i].0,
            field_values(r@) == self.spec_config_values(config, config_name@).unwrap(),
    ;

    /// Puts the source `config_name` with the values `config_values` into
    /// the configuration, in the place of a source of this provider that had
    /// the name. Afterwards the source has, for each field, the value that
    /// was given for it.
    fn add_config_values(
        &self,
        config: &mut Config,
        config_name: String,
        config_values: Vec<(&'static str, String)>,
    )
        requires
            old(config).wf(),
            gives_all(self.spec_config_fields(), config_values@),
        ensures
            final(config).wf(),
            self.spec_config_values(final(config), config_name@) == Some(
                chosen_values(self.spec_config_fields(), config_values@),
            ),
            self.spec_config_names(final(config)) == if self.spec_config_values(
                old(config),
                config_name@,
            ) is Some {
                self.spec_config_names(old(config))
            } else {
                self.spec_config_names(old(config)).push(config_name@)
            },
    ;

    /// Takes the source `config_name` of this provider out of the
    /// configuration.
    fn remove_config(&self, config: &mut Config, config_name: String)
        requires
            old(config).wf(),
        ensures
            final(config).wf(),
            self.spec_config_values(final(config), config_name@) is None,
            self.spec_config_names(final(config)) == self.spec_config_names(old(config)).filter(
                crate::named::other_than(config_name@),
            ),
    ;

    /// The name of the provider.
    fn name(&self) -> (r: &'static str)
        ensures
            r == self.spec_name(),
    ;

    /// The icon of the provider.
    fn default_icon(&self) -> (r: Icon)
        ensures
            r.spec_name() == self.spec_icon_name(),
    ;
}

/// The providers, one of each kind.
#[derive(Clone, Copy, Debug, PartialEq, Eq, Structural)]
pub enum Provider {
    Git(Git),
    Email(Email),
    Ical(Ical),
    Redmine(Redmine),
    Gitlab(Gitlab),
    StackExchange(StackExchange),
}

impl EventProvider for Provider {
    open spec fn spec_name(&self) -> &'static str {
        match self {
            Provider::Git(p) => p.spec_name(),
            Provider::Email(p) => p.spec_name(),
            Provider::Ical(p) => p.spec_name(),
            Provider::Redmine(p) => p.spec_name(),
            Provider::Gitlab(p) => p.spec_name(),
            Provider::StackExchange(p) => p.spec_name(),
        }
    }

    open spec fn spec_icon_name(&self) -> &'static str {
        match self {
            Provider::Git(p) => p.spec_icon_name(),
            Provider::Email(p) => p.spec_icon_name(),
            Provider::Ical(p) => p.spec_icon_name(),
            Provider::Redmine(p) => p.spec_icon_name(),
            Provider::Gitlab(p) => p.spec_icon_name(),
            Provider::StackExchange(p) => p.spec_icon_name(),
        }
    }

    open spec fn spec_config_fields(&self) -> Seq<(&'static str, ConfigType)> {
        match self {
            Provider::Git(p) => p.spec_config_fields(),
            Provider::Email(p) => p.spec_config_fields(),
            Provider::Ical(p) => p.spec_config_fields(),
            Provider::Redmine(p) => p.spec_config_fields(),
            Provider::Gitlab(p) => p.spec_config_fields(),
            Provider::StackExchange(p) => p.spec_config_fields(),
        }
    }

    open spec fn spec_config_names(&self, config: &Config) -> Seq<Seq<char>> {
        match self {
            Provider::Git(p) => p.spec_config_names(config),
            Provider::Email(p) => p.spec_config_names(config),
            Provider::Ical(p) => p.spec_config_names(config),
            Provider::Redmine(p) => p.spec_config_names(config),
            Provider::Gitlab(p) => p.spec_config_names(config),
            Provider::StackExchange(p) => p.spec_config_names(config),
        }
    }

    open spec fn spec_config_values(&self, config: &Config, config_name: Seq<char>) -> Option<
        Seq<Seq<char>>,
    > {
        match self {
            Provider::Git(p) => p.spec_config_values(config, config_name),
            Provider::Email(p) => p.spec_config_values(config, config_name),
            Provider::Ical(p) => p.spec_config_values(config, config_name),
            Provider::Redmine(p) => p.spec_config_values(config, config_name),
            Provider::Gitlab(p) => p.spec_config_values(config, config_name),
            Provider::StackExchange(p) => p.spec_config_values(config, config_name),
        }
    }

    fn get_config_fields(&self) -> (r: Vec<(&'static str, ConfigType)>) {
        match self {
            Provider::Git(p) => p.get_config_fields(),
            Provider::Email(p) => p.get_config_fields(),
            Provider::Ical(p) => p.get_config_fields(),
            Provider::Redmine(p) => p.get_config_fields(),
            Provider::Gitlab(p) => p.get_config_fields(),
            Provider::StackExchange(p) => p.get_config_fields(),
        }
    }

    fn get_config_names(&self, config: &Config) -> (r: Vec<String>) {
        match self {
            Provider::Git(p) => p.get_config_names(config),
            Provider::Email(p) => p.get_config_names(config),
            Provider::Ical(p) => p.get_config_names(config),
            Provider::Redmine(p) => p.get_config_names(config),
            Provider::Gitlab(p) => p.get_config_names(config),
            Provider::StackExchange(p) => p.get_config_names(config),
        }
    }

    fn get_config_values(&self, config: &Config, config_name: &str) -> (r: Vec<
        (&'static str, String),
    >) {
        match self {
            Provider::Git(p) => p.get_config_values(config, config_name),
            Provider::Email(p) => p.get_config_values(config, config_name),
            Provider::Ical(p) => p.get_config_values(config, config_name),
            Provider::Redmine(p) => p.get_config_values(config, config_name),
            Provider::Gitlab(p) => p.get_config_values(config, config_name),
            Provider::StackExchange(p) => p.get_config_values(config, config_name),
        }
    }

    fn add_config_values(
        &self,
        config: &mut Config,
        config_name: String,
        config_values: Vec<(&'static str, String)>,
    ) {
        match self {
            Provider::Git(p) => p.add_config_values(config, config_name, config_values),
            Provider::Email(p) => p.add_config_values(config, config_name, config_values),
            Provider::Ical(p) => p.add_config_values(config, config_name, config_values),
            Provider::Redmine(p) => p.add_config_values(config, config_name, config_values),
            Provider::Gitlab(p) => p.add_config_values(config, config_name, config_values),
            Provider::StackExchange(p) => p.add_config_values(config, config_name, config_values),
        }
    }

    fn remove_config(&self, config: &mut Config, config_name: String) {
        match self {
            Provider::Git(p) => p.remove_config(config, config_name),
            Provider::Email(p) => p.remove_config(config, config_name),
            Provider::Ical(p) => p.remove_config(config, config_name),
            Provider::Redmine(p) => p.remove_config(config, config_name),
            Provider::Gitlab(p) => p.remove_config(config, config_name),
            Provider::StackExchange(p) => p.remove_config(config, config_name),
        }
    }

    fn name(&self) -> (r: &'static str) {
        match self {
            Provider::Git(p) => p.name(),
            Provider::Email(p) => p.name(),
            Provider::Ical(p) => p.name(),
            Provider::Redmine(p) => p.name(),
            Provider::Gitlab(p) => p.name(),
            Provider::StackExchange(p) => p.name(),
        }
    }

    fn default_icon(&self) -> (r: Icon) {
        match self {
            Provider::Git(p) => p.default_icon(),
            Provider::Email(p) => p.default_icon(),
            Provider::Ical(p) => p.default_icon(),
            Provider::Redmine(p) => p.default_icon(),
            Provider::Gitlab(p) => p.default_icon(),
            Provider::StackExchange(p) => p.default_icon(),
        }
    }
}

/// The providers in the order in which their sources are asked.
pub open spec fn spec_event_providers() -> Seq<Provider> {
    seq![
        Provider::Git(Git),
        Provider::Email(Email),
        Provider::Ical(Ical),
        Provider::Redmine(Redmine),
        Provider::Gitlab(Gitlab),
        Provider::StackExchange(StackExchange),
    ]
}

/// The sources of `providers` in `config`, provider after provider, each
/// source as its provider and its name.
pub open spec fn spec_configs_to_fetch(providers: Seq<Provider>, config: &Config) -> Seq<
    (Provider, Seq<char>),
>
    decreases providers.len(),
{
    if providers.len() == 0 {
        Seq::empty()
    } else {
        spec_configs_to_fetch(providers.drop_last(), config) + providers.last().spec_config_names(
            config,
        ).map_values(|name: Seq<char>| (providers.last(), name))
    }
}

/// The providers, one of each kind.
pub fn get_event_providers() -> (r: Vec<Provider>)
    ensures
        r@ == spec_event_providers(),
{
    let mut providers: Vec<Provider> = Vec::new();
    providers.push(Provider::Git(Git));
    providers.push(Provider::Email(Email));
    providers.push(Provider::Ical(Ical));
    providers.push(Provider::Redmine(Redmine));
    providers.push(Provider::Gitlab(Gitlab));
    providers.push(Provider::StackExchange(StackExchange));
    assert(providers@ =~= spec_event_providers());
    providers
}

/// Every configured source that is to be asked for its events: the sources
/// of each provider, provider after provider.
pub fn configs_to_fetch(config: &Config) -> (r: Vec<(Provider, String)>)
    ensures
        r@.map_values(|s: (Provider, String)| (s.0, s.1@)) == spec_configs_to_fetch(
            spec_event_providers(),
            config,
        ),
{
    let eps = get_event_providers();
    let mut sources: Vec<(Provider, String)> = Vec::new();
    let mut p: usize = 0;
    assert(eps@.take(0) =~= Seq::<Provider>::empty());
    while p < eps.len()
        invariant
            p <= eps@.len(),
            eps@ == spec_event_providers(),
            sources@.map_values(|s: (Provider, String)| (s.0, s.1@)) == spec_configs_to_fetch(
                eps@.take(p as int),
                config,
            ),
        decreases eps.len() - p,
    {
        let ep = eps[p];
        let names = ep.get_config_names(config);
        let ghost done = sources@.map_values(|s: (Provider, String)| (s.0, s.1@));
        let ghost all_names = ep.spec_config_names(config);
        let mut i: usize = 0;
        while i < names.len()
            invariant
                i <= names@.len(),
                names@.map_values(|s: String| s@) == all_names,
                sources@.map_values(|s: (Provider, String)| (s.0, s.1@)) == done
                    + all_names.take(i as int).map_values(|name: Seq<char>| (ep, name)),
            decreases names.len() - i,
        {
            let ghost before = sources@.map_values(|s: (Provider, String)| (s.0, s.1@));
            sources.push((ep, names[i].clone()));
            proof {
                assert(all_names[i as int] == names@[i as int]@);
                assert(sources@.map_values(|s: (Provider, String)| (s.0, s.1@)) =~= before.push(
                    (ep, all_names[i as int]),
                ));
                assert(all_names.take(i + 1).map_values(|name: Seq<char>| (ep, name))
                    =~= all_names.take(i as int).map_values(|name: Seq<char>| (ep, name)).push(
                    (ep, all_names[i as int]),
                ));
            }
            i = i + 1;
        }
        proof {
            assert(all_names.take(names@.len() as int) =~= all_names);
            let next = eps@.take(p + 1);
            assert(next.drop_last() =~= eps@.take(p as int));
            assert(next.last() == ep);
        }
        p = p + 1;
    }
    assert(eps@.take(eps@.len() as int) =~= eps@);
    sources
}

/// The names of `sources`, each once, in the order in which they first occur.
pub open spec fn spec_source_names(sources: Seq<(Provider, Seq<char>)>) -> Seq<Seq<char>>
    decreases sources.len(),
{
    if sources.len() == 0 {
        Seq::empty()
    } else {
        let front = spec_source_names(sources.drop_last());
        if front.contains(sources.last().1) {
            front
        } else {
            front.push(sources.last().1)
        }
    }
}

/// The position of the first of `providers`, from `from` on, that has the
/// name `name`.
pub open spec fn spec_provider_by_name(providers: Seq<Provider>, name: Seq<char>, from: int)
    -> Option<int>
    decreases providers.len() - from,
{
    if from < 0 || from >= providers.len() {
        None
    } else if providers[from].spec_name()@ == name {
        Some(from)
    } else {
        spec_provider_by_name(providers, name, from + 1)
    }
}

/// Whether `name` is one of `names`.
pub fn holds_name(names: &Vec<String>, name: &str) -> (r: bool)
    ensures
        r == names@.map_values(|s: String| s@).contains(name@),
{
    let ghost views = names@.map_values(|s: String| s@);
    let mut i: usize = 0;
    while i < names.len()
        invariant
            i <= names@.len(),
            views == names@.map_values(|s: String| s@),
            forall|k: int| 0 <= k < i ==> views[k] != name@,
        decreases names.len() - i,
    {
        if same(names[i].as_str(), name) {
            assert(views[i as int] == name@);
            return true;
        }
        i = i + 1;
    }
    false
}

/// The names under which sources are configured, whatever their provider,
/// each once.
pub fn config_source_names(config: &Config) -> (r: Vec<String>)
    ensures
        r@.map_values(|s: String| s@) == spec_source_names(
            spec_configs_to_fetch(spec_event_providers(), config),
        ),
{
    let sources = configs_to_fetch(config);
    let ghost all = sources@.map_values(|s: (Provider, String)| (s.0, s.1@));
    let mut names: Vec<String> = Vec::new();
    let mut i: usize = 0;
    assert(all.take(0) =~= Seq::<(Provider, Seq<char>)>::empty());
    while i < sources.len()
        invariant
            i <= sources@.len(),
            all == sources@.map_values(|s: (Provider, String)| (s.0, s.1@)),
            names@.map_values(|s: String| s@) == spec_source_names(all.take(i as int)),
        decreases sources.len() - i,
    {
        proof {
            let next = all.take(i + 1);
            assert(next.drop_last() =~= all.take(i as int));
            assert(next.last() == all[i as int]);
            assert(all[i as int].1 == sources@[i as int].1@);
        }
        if !holds_name(&names, sources[i].1.as_str()) {
            let ghost before = names@.map_values(|s: String| s@);
            names.push(sources[i].1.clone());
            assert(names@.map_values(|s: String| s@) =~= before.push(sources@[i as int].1@));
        }
        i = i + 1;
    }
    assert(all.take(all.len() as int) =~= all);
    names
}

/// The provider of the name `providername`, if there is one.
pub fn get_event_provider_by_name(providername: &str) -> (r: Option<Provider>)
    ensures
        match spec_provider_by_name(spec_event_providers(), providername@, 0) {
            Some(i) => r == Some(spec_event_providers()[i]),
            None => r is None,
        },
{
    let providers = get_event_providers();
    let mut i: usize = 0;
    while i < providers.len()
        invariant
            i <= providers@.len(),
            providers@ == spec_event_providers(),
            spec_provider_by_name(providers@, providername@, 0) == spec_provider_by_name(
                providers@,
                providername@,
                i as int,
            ),
        decreases providers.len() - i,
    {
        if same(providers[i].name(), providername) {
            return Some(providers[i]);
        }
        i = i + 1;
    }
    None
}

} // verus!
