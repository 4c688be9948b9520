//! The configuration of the sources, and the rules of the file cache.

use crate::events::email::EmailConfig;
use crate::events::git::GitConfig;
use crate::events::gitlab::GitlabConfig;
use crate::events::ical::IcalConfig;
use crate::events::redmine::RedmineConfig;
use crate::events::stackexchange::StackExchangeConfig;
use crate::named::Named;
use crate::text::chars_of;
use crate::text::push_str;
use crate::text::string_of;
use crate::time::LocalDateTime;
use vstd::prelude::*;

verus! {

/// Whether going to the day before or after passes over the weekend.
#[derive(Clone, Copy, Debug, PartialEq, Eq, Structural)]
pub enum PrevNextDaySkipWeekends {
    Skip,
    DontSkip,
}

impl Default for PrevNextDaySkipWeekends {
    fn default() -> (r: Self)
        ensures
            r == PrevNextDaySkipWeekends::Skip,
    {
        PrevNextDaySkipWeekends::Skip
    }
}

/// Whether `c` may stand in the name of a cache file as it is: a letter of
/// the basic Latin alphabet or a digit.
pub open spec fn is_filename_char(c: char) -> bool {
    ('A' as u32 <= c as u32 <= 'Z' as u32) || ('a' as u32 <= c as u32 <= 'z' as u32) || ('0' as u32
        <= c as u32 <= '9' as u32)
}

/// `c` where it may stand in a file name, `_` in its place otherwise.
pub open spec fn sanitized_char(c: char) -> char {
    if is_filename_char(c) {
        c
    } else {
        '_'
    }
}

/// `text` with every character that may not stand in a file name replaced by
/// `_`, one for one.
pub open spec fn sanitized(text: Seq<char>) -> Seq<char> {
    text.map_values(|c: char| sanitized_char(c))
}

/// The name of the cache file of the source `config_name` of the provider
/// `provider_name`.
pub open spec fn spec_cache_file_name(provider_name: Seq<char>, config_name: Seq<char>) -> Seq<
    char,
> {
    provider_name + seq!['_'] + sanitized(config_name) + seq!['.', 'c', 'a', 'c', 'h', 'e']
}

/// What the user has configured: two preferences, and for each provider
/// its sources by their names.
#[derive(Clone, Debug)]
pub struct Config {
    pub prefer_dark_theme: bool,
    pub prev_next_day_skip_weekends: PrevNextDaySkipWeekends,
    pub git: Named<GitConfig>,
    pub email: Named<EmailConfig>,
    pub ical: Named<IcalConfig>,
    pub redmine: Named<RedmineConfig>,
    pub gitlab: Named<GitlabConfig>,
    pub stackexchange: Named<StackExchangeConfig>,
}

impl Config {
    /// No provider has two sources of the same name.
    pub open spec fn wf(&self) -> bool {
        &&& self.git.wf()
        &&& self.email.wf()
        &&& self.ical.wf()
        &&& self.redmine.wf()
        &&& self.gitlab.wf()
        &&& self.stackexchange.wf()
    }

    /// The configuration before anything is configured: no source, the
    /// light theme, and weekends passed over.
    pub fn default_config() -> (r: Config)
        ensures
            r.wf(),
            !r.prefer_dark_theme,
            r.prev_next_day_skip_weekends == PrevNextDaySkipWeekends::Skip,
            r.git.entries@.len() == 0,
            r.email.entries@.len() == 0,
            r.ical.entries@.len() == 0,
            r.redmine.entries@.len() == 0,
            r.gitlab.entries@.len() == 0,
            r.stackexchange.entries@.len() == 0,
    {
        Config {
            git: Named::new(),
            email: Named::new(),
            ical: Named::new(),
            redmine: Named::new(),
            gitlab: Named::new(),
            stackexchange: Named::new(),
            prefer_dark_theme: false,
            prev_next_day_skip_weekends: PrevNextDaySkipWeekends::Skip,
        }
    }


    /// `text` made safe as a part of a file name: every character but the
    /// letters `A` to `Z` and `a` to `z` and the digits becomes `_`. Two
    /// names may come out the same.
    pub fn sanitize_for_filename(text: &str) -> (r: String)
        ensures
            r@ == sanitized(text@),
    {
        let chars = chars_of(text);
        let mut out: Vec<char> = Vec::new();
        let mut i: usize = 0;
        while i < chars.len()
            invariant
                i <= chars.len(),
                chars@ == text@,
                out@ == sanitized(text@).take(i as int),
            decreases chars.len() - i,
        {
            let c = chars[i];
            let code = c as u32;
            if (65 <= code && code <= 90) || (97 <= code && code <= 122) || (48 <= code && code
                <= 57) {
                out.push(c);
            } else {
                out.push('_');
            }
            assert(out@ =~= sanitized(text@).take(i + 1));
            i = i + 1;
        }
        assert(out@ =~= sanitized(text@));
        string_of(&out)
    }

    /// The name of the cache file of one source of one provider, within the
    /// folder of the configuration.
    pub fn cache_file_name(provider_name: &str, config_name: &str) -> (r: String)
        ensures
            r@ == spec_cache_file_name(provider_name@, config_name@),
    {
        let mut out: Vec<char> = Vec::new();
        push_str(&mut out, provider_name);
        out.push('_');
        let safe = Self::sanitize_for_filename(config_name);
        push_str(&mut out, safe.as_str());
        out.push('.');
        out.push('c');
        out.push('a');
        out.push('c');
        out.push('h');
        out.push('e');
        assert(out@ =~= spec_cache_file_name(provider_name@, config_name@));
        string_of(&out)
    }

    /// Whether a cache file that was last written at `file_date` still
    /// answers a question that needs content as new as `date`: it does when
    /// it was written at `date` or later. A file from before `date` is never
    /// served.
    pub fn is_cache_fresh(file_date: &LocalDateTime, date: &LocalDateTime) -> (r: bool)
        ensures
            r == !file_date.spec_is_before(date),
    {
        !file_date.is_before(date)
    }

    /// What the cache answers when content as new as `date` is asked for:
    /// the content of the file, where there is one and it is fresh.
    /// `cached` holds when the file was last written and what it holds, or
    /// `None` where there is no file.
    pub fn get_cached_contents(cached: Option<(LocalDateTime, String)>, date: &LocalDateTime) -> (r:
        Option<String>)
        ensures
            r == match cached {
                Some((file_date, contents)) => if file_date.spec_is_before(date) {
                    None
                } else {
                    Some(contents)
                },
                None => None,
            },
    {
        match cached {
            Some((file_date, contents)) => {
                if Self::is_cache_fresh(&file_date, date) {
                    Some(contents)
                } else {
                    None
                }
            },
            None => None,
        }
    }
}

} // verus!
