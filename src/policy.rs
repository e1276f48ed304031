//! The retention policy: two thresholds, their layered overrides, and the
//! classification of a record's age.
use vstd::prelude::*;
use crate::keyvalue::{ini_parsed, load_text, lookup, value_of, Sections};

verus! {

/// The two thresholds, in days. `warn_after_days <= delete_after_days` is
/// expected but not required: where it fails, expiry takes precedence and there
/// is no warning window.
#[derive(Debug, Clone, Copy, PartialEq, Eq, Structural)]
pub struct PolicyConfig {
    pub warn_after_days: i64,
    pub delete_after_days: i64,
}

/// Days before a warning, when no settings file says otherwise.
pub const DEFAULT_WARN_AFTER_DAYS: i64 = 50;

/// Days before expiry, when no settings file says otherwise.
pub const DEFAULT_DELETE_AFTER_DAYS: i64 = 60;

/// The configuration before any override.
pub open spec fn default_config() -> PolicyConfig {
    PolicyConfig { warn_after_days: 50, delete_after_days: 60 }
}

impl Default for PolicyConfig {
    fn default() -> (r: PolicyConfig)
        ensures
            r == default_config(),
    {
        PolicyConfig {
            warn_after_days: DEFAULT_WARN_AFTER_DAYS,
            delete_after_days: DEFAULT_DELETE_AFTER_DAYS,
        }
    }
}

/// Whether `c` is an ASCII decimal digit.
pub open spec fn is_digit(c: char) -> bool {
    '0' <= c && c <= '9'
}

/// The value of a string of decimal digits.
pub open spec fn digits_value(s: Seq<char>) -> int
    decreases s.len(),
{
    if s.len() == 0 {
        0
    } else {
        10 * digits_value(s.drop_last()) + (s.last() as int - '0' as int)
    }
}

/// The integer that a text writes in decimal: an optional `+` or `-`, then one
/// or more digits and nothing else.
pub open spec fn decimal_of(s: Seq<char>) -> Option<int> {
    let signed = s.len() > 0 && (s[0] == '-' || s[0] == '+');
    let digits = if signed {
        s.skip(1)
    } else {
        s
    };
    if digits.len() > 0 && forall|i: int| 0 <= i < digits.len() ==> is_digit(#[trigger] digits[i]) {
        if s[0] == '-' {
            Some(-digits_value(digits))
        } else {
            Some(digits_value(digits))
        }
    } else {
        None
    }
}

/// The `i64` that a text writes in decimal, where it is in range.
pub open spec fn i64_of(s: Seq<char>) -> Option<i64> {
    match decimal_of(s) {
        Some(v) => if i64::MIN <= v <= i64::MAX {
            Some(v as i64)
        } else {
            None
        },
        None => None,
    }
}

/// Relies on `i64::from_str`: an optional sign followed by digits only, the
/// value in range; anything else is an error.
#[verifier::external_body]
fn parse_i64(s: &str) -> (r: Option<i64>)
    ensures
        r == i64_of(s@),
{
    <i64 as std::str::FromStr>::from_str(s).ok()
}

/// The settings key of the expiry threshold.
pub open spec fn delete_key() -> Seq<char> {
    seq!['d', 'e', 'l', 'e', 't', 'e', '_', 'a', 'f', 't', 'e', 'r', '_', 'd', 'a', 'y', 's']
}

/// The settings key of the warning threshold.
pub open spec fn warn_key() -> Seq<char> {
    seq!['w', 'a', 'r', 'n', '_', 'a', 'f', 't', 'e', 'r', '_', 'd', 'a', 'y', 's']
}

/// The value that a settings text gives to `key` outside any section, where
/// the text parses and that value is an integer.
pub open spec fn override_of(secs: Option<Sections>, key: Seq<char>) -> Option<i64> {
    match secs {
        Some(s) => match lookup(s, None, key) {
            Some(v) => i64_of(v),
            None => None,
        },
        None => None,
    }
}

/// `c` with the overrides of one settings text applied, key by key.
pub open spec fn applied(c: PolicyConfig, text: Seq<char>) -> PolicyConfig {
    let secs = ini_parsed(text);
    PolicyConfig {
        warn_after_days: match override_of(secs, warn_key()) {
            Some(v) => v,
            None => c.warn_after_days,
        },
        delete_after_days: match override_of(secs, delete_key()) {
            Some(v) => v,
            None => c.delete_after_days,
        },
    }
}

/// The defaults with each settings text applied in turn, least preferred first.
pub open spec fn loaded(texts: Seq<Seq<char>>) -> PolicyConfig
    decreases texts.len(),
{
    if texts.len() == 0 {
        default_config()
    } else {
        applied(loaded(texts.drop_last()), texts.last())
    }
}

/// A key's value where present in the settings text but not an integer.
pub open spec fn rejected_of(secs: Option<Sections>, key: Seq<char>) -> Option<Seq<char>> {
    match secs {
        Some(s) => match lookup(s, None, key) {
            Some(v) => if i64_of(v) is None {
                Some(v)
            } else {
                None
            },
            None => None,
        },
        None => None,
    }
}

/// What applying one settings text found wrong with it. None of it is fatal.
pub struct OverrideReport {
    /// The text is not key-value data; nothing was taken from it.
    pub unreadable: bool,
    /// The value of `delete_after_days`, where it is not an integer.
    pub bad_delete: Option<String>,
    /// The value of `warn_after_days`, where it is not an integer.
    pub bad_warn: Option<String>,
}

/// The text of an optional string.
pub open spec fn opt_string_text(s: Option<String>) -> Option<Seq<char>> {
    match s {
        Some(t) => Some(t@),
        None => None,
    }
}

/// Whether `r` tells exactly what was wrong with the settings text `text`.
pub open spec fn reports_on(r: OverrideReport, text: Seq<char>) -> bool {
    &&& r.unreadable == ini_parsed(text) is None
    &&& opt_string_text(r.bad_delete) == rejected_of(ini_parsed(text), delete_key())
    &&& opt_string_text(r.bad_warn) == rejected_of(ini_parsed(text), warn_key())
}

impl PolicyConfig {
    /// Applies the overrides of one settings text: each of the two keys that it
    /// sets to an integer replaces the current value; the others stay.
    pub fn apply_override(&mut self, text: &str) -> (r: OverrideReport)
        ensures
            *final(self) == applied(*old(self), text@),
            reports_on(r, text@),
    {
        let dkey = "delete_after_days";
        let wkey = "warn_after_days";
        proof {
            reveal_strlit("delete_after_days");
            reveal_strlit("warn_after_days");
            assert(dkey@ =~= delete_key());
            assert(wkey@ =~= warn_key());
        }
        let doc = match load_text(text) {
            Some(d) => d,
            None => {
                return OverrideReport { unreadable: true, bad_delete: None, bad_warn: None };
            },
        };
        let mut bad_delete: Option<String> = None;
        let mut bad_warn: Option<String> = None;
        if let Some(v) = value_of(&doc, None, dkey) {
            match parse_i64(v.as_str()) {
                Some(i) => {
                    self.delete_after_days = i;
                },
                None => {
                    bad_delete = Some(v);
                },
            }
        }
        if let Some(v) = value_of(&doc, None, wkey) {
            match parse_i64(v.as_str()) {
                Some(i) => {
                    self.warn_after_days = i;
                },
                None => {
                    bad_warn = Some(v);
                },
            }
        }
        OverrideReport { unreadable: false, bad_delete, bad_warn }
    }

    /// The configuration that the settings texts give, least preferred first,
    /// over the defaults, with what was wrong with each text, in the same order.
    /// Files that say nothing valid change nothing.
    pub fn load(texts: &Vec<String>) -> (r: (PolicyConfig, Vec<OverrideReport>))
        ensures
            r.0 == loaded(texts@.map_values(|t: String| t@)),
            r.1@.len() == texts@.len(),
            forall|i: int| 0 <= i < texts@.len() ==> reports_on(#[trigger] r.1@[i], texts@[i]@),
    {
        let mut cfg = PolicyConfig::default();
        let mut reports: Vec<OverrideReport> = Vec::new();
        let mut i: usize = 0;
        while i < texts.len()
            invariant
                i <= texts@.len(),
                cfg == loaded(texts@.subrange(0, i as int).map_values(|t: String| t@)),
                reports@.len() == i,
                forall|j: int| 0 <= j < i ==> reports_on(#[trigger] reports@[j], texts@[j]@),
            decreases texts@.len() - i,
        {
            let report = cfg.apply_override(texts[i].as_str());
            reports.push(report);
            proof {
                let prev = texts@.subrange(0, i as int).map_values(|t: String| t@);
                let next = texts@.subrange(0, i + 1).map_values(|t: String| t@);
                assert(next.drop_last() =~= prev);
            }
            i = i + 1;
        }
        assert(texts@.subrange(0, texts@.len() as int) =~= texts@);
        (cfg, reports)
    }
}

/// Overrides compose key by key: with a less preferred text `first` and a more
/// preferred text `second`, each threshold comes from `second` where it sets an
/// integer for it, else from `first` where that does, else from the defaults.
/// One text never wipes out what the other set for the other key.
pub proof fn lemma_overrides_compose(first: Seq<char>, second: Seq<char>)
    ensures
        loaded(seq![first, second]).delete_after_days == match override_of(
            ini_parsed(second),
            delete_key(),
        ) {
            Some(v) => v,
            None => match override_of(ini_parsed(first), delete_key()) {
                Some(v) => v,
                None => 60,
            },
        },
        loaded(seq![first, second]).warn_after_days == match override_of(
            ini_parsed(second),
            warn_key(),
        ) {
            Some(v) => v,
            None => match override_of(ini_parsed(first), warn_key()) {
                Some(v) => v,
                None => 50,
            },
        },
{
    let s = seq![first, second];
    let one = seq![first];
    assert(s.drop_last() =~= one);
    assert(one.drop_last() =~= Seq::<Seq<char>>::empty());
    assert(loaded(one.drop_last()) == default_config());
    assert(loaded(one) == applied(default_config(), first));
    assert(loaded(s) == applied(loaded(one), second));
}

/// What the policy decides of a record.
#[derive(Debug, Clone, Copy, PartialEq, Eq, Structural)]
pub enum Decision {
    /// Past the expiry threshold: remove payload and descriptor.
    Expire,
    /// Past the warning threshold only: report, with the days left before expiry.
    Warn { days_left: i128 },
    /// Neither: leave it, silently.
    Fresh,
}

/// The decision for a record `age` days old: expiry first, then the warning.
pub open spec fn decision_of(age: int, c: PolicyConfig) -> Decision {
    if c.delete_after_days <= age {
        Decision::Expire
    } else if c.warn_after_days <= age {
        Decision::Warn { days_left: (c.delete_after_days - age) as i128 }
    } else {
        Decision::Fresh
    }
}

impl PolicyConfig {
    /// Classifies a record `age_days` old, as `decision_of` says.
    pub fn classify(&self, age_days: i64) -> (r: Decision)
        ensures
            r == decision_of(age_days as int, *self),
    {
        if self.delete_after_days <= age_days {
            Decision::Expire
        } else if self.warn_after_days <= age_days {
            Decision::Warn { days_left: self.delete_after_days as i128 - age_days as i128 }
        } else {
            Decision::Fresh
        }
    }
}

/// A record at or past the expiry threshold expires, whatever the warning
/// threshold, even above the expiry one.
pub proof fn lemma_expiry_precedes_warning(age: int, c: PolicyConfig)
    requires
        c.delete_after_days <= age,
    ensures
        decision_of(age, c) == Decision::Expire,
{
}

/// A warning always leaves at least one day before expiry.
pub proof fn lemma_warning_days_left(age: int, c: PolicyConfig)
    requires
        decision_of(age, c) is Warn,
    ensures
        decision_of(age, c)->days_left >= 1,
        decision_of(age, c)->days_left == c.delete_after_days - age,
{
}

} // verus!
