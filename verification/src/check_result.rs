//! The result of one certificate check: a closed set of states, the record
//! a check produces for one domain, and its textual renderings.

use vstd::prelude::*;
use vstd::string::StringExecFns;

use crate::bindings::{
    en_grouped_of, format_grouped_en, rfc3339_of, rfc3339_utc, MAX_RFC3339_TIMESTAMP,
    MIN_RFC3339_TIMESTAMP,
};
use crate::decimal::{append_dec_u128, spec_dec_nat};

verus! {

/// State of a checked certificate.
#[derive(Clone, Copy, Debug, PartialEq, Eq, Structural)]
pub enum CheckState {
    /// The handshake succeeded but no usable validity data was obtained.
    Unknown,
    /// The certificate is valid beyond the grace period.
    Valid,
    /// The certificate expires within the grace period.
    Warning,
    /// The certificate has expired, or no trustworthy session could be
    /// established at all.
    Expired,
}

impl Default for CheckState {
    /// The state before anything is known of a certificate.
    fn default() -> (r: Self)
        ensures
            r == CheckState::Unknown,
    {
        CheckState::Unknown
    }
}

impl CheckState {
    /// The name of the state as it appears in the JSON rendering.
    pub fn name(&self) -> (r: &'static str)
        ensures
            r@ == spec_state_name(*self),
    {
        match self {
            CheckState::Unknown => "Unknown",
            CheckState::Valid => "OK",
            CheckState::Warning => "WARNING",
            CheckState::Expired => "EXPIRED",
        }
    }
}

/// The name of a state as it appears in the JSON rendering.
pub open spec fn spec_state_name(s: CheckState) -> Seq<char> {
    match s {
        CheckState::Unknown => "Unknown"@,
        CheckState::Valid => "OK"@,
        CheckState::Warning => "WARNING"@,
        CheckState::Expired => "EXPIRED"@,
    }
}

/// The outcome of checking one domain's certificate. Created once per domain
/// per run and not changed afterwards.
#[derive(Debug)]
pub struct CheckResult {
    /// State of the certificate.
    pub state: CheckState,
    /// When the check took place, in seconds since the Unix epoch.
    pub checked_at: i64,
    /// Days remaining until the expiration date; negative once past it.
    pub days: i64,
    /// The domain name that was checked.
    pub domain_name: String,
    /// The certificate's not-after instant, in seconds since the Unix epoch;
    /// zero when no certificate was obtained.
    pub not_after: i64,
    /// Wall-clock time the check took, in milliseconds; zero when such
    /// instrumentation is off.
    pub elapsed: u128,
}

impl Default for CheckResult {
    /// A result with nothing known: state `Unknown`, zeroed timestamps, and
    /// an empty domain name.
    fn default() -> (r: Self)
        ensures
            r.state == CheckState::Unknown,
            r.checked_at == 0,
            r.days == 0,
            r.domain_name@ == Seq::<char>::empty(),
            r.not_after == 0,
            r.elapsed == 0,
    {
        CheckResult {
            state: CheckState::Unknown,
            checked_at: 0,
            days: 0,
            domain_name: String::new(),
            not_after: 0,
            elapsed: 0,
        }
    }
}

impl CheckResult {
    /// The sentinel result for a domain where no trustworthy encrypted
    /// session could be established: state `Expired`, not-after left zero.
    pub fn expired(domain_name: &str, checked_at: i64) -> (r: Self)
        ensures
            r.state == CheckState::Expired,
            r.checked_at == checked_at,
            r.days == 0,
            r.domain_name@ == domain_name@,
            r.not_after == 0,
            r.elapsed == 0,
    {
        CheckResult {
            state: CheckState::Expired,
            checked_at,
            days: 0,
            domain_name: domain_name.to_owned(),
            not_after: 0,
            elapsed: 0,
        }
    }

    /// The bracketed icon the report prefixes to a result.
    pub fn state_icon(&self) -> (r: &'static str)
        ensures
            r@ == spec_state_icon(self.state),
    {
        match self.state {
            CheckState::Unknown => "[?]",
            CheckState::Valid => "[v]",
            CheckState::Warning => "[-]",
            CheckState::Expired => "[x]",
        }
    }

    /// The sentence the report writes for this result: the domain followed
    /// by when its certificate expires, or that it has expired.
    pub fn sentence(&self) -> (r: String)
        requires
            self.state != CheckState::Expired ==> MIN_RFC3339_TIMESTAMP <= self.not_after
                <= MAX_RFC3339_TIMESTAMP,
        ensures
            r@ == spec_sentence(*self),
    {
        let mut s = "certificate of ".to_owned();
        s.append(self.domain_name.as_str());
        if self.state == CheckState::Expired {
            s.append(" has expired");
        } else {
            s.append(" expires in ");
            let days_text = format_grouped_en(self.days);
            s.append(days_text.as_str());
            s.append(" days (");
            let ts_text = rfc3339_utc(self.not_after);
            s.append(ts_text.as_str());
            s.append(")");
        }
        proof {
            assert(s@ =~= spec_sentence(*self));
        }
        s
    }

    /// The one-line report for this result: icon, sentence, and the elapsed
    /// time when that instrumentation is on.
    pub fn to_display_string(&self) -> (r: String)
        requires
            self.state != CheckState::Expired ==> MIN_RFC3339_TIMESTAMP <= self.not_after
                <= MAX_RFC3339_TIMESTAMP,
        ensures
            r@ == spec_display_string(*self),
    {
        let mut s = self.state_icon().to_owned();
        s.append(" ");
        let sent = self.sentence();
        s.append(sent.as_str());
        if self.elapsed > 0 {
            s.append(", ");
            append_dec_u128(&mut s, self.elapsed);
            s.append("ms elapsed");
        }
        proof {
            assert(s@ =~= spec_display_string(*self));
        }
        s
    }

    /// The JSON-ready rendering of this result; see `CheckResultJSON::new`.
    pub fn to_json(&self) -> (r: CheckResultJSON)
        requires
            MIN_RFC3339_TIMESTAMP <= self.checked_at <= MAX_RFC3339_TIMESTAMP,
            MIN_RFC3339_TIMESTAMP <= self.not_after <= MAX_RFC3339_TIMESTAMP,
        ensures
            spec_json_of_result(r, *self),
    {
        CheckResultJSON::new(self)
    }
}

/// The bracketed icon the report prefixes to a result in a given state.
pub open spec fn spec_state_icon(s: CheckState) -> Seq<char> {
    match s {
        CheckState::Unknown => "[?]"@,
        CheckState::Valid => "[v]"@,
        CheckState::Warning => "[-]"@,
        CheckState::Expired => "[x]"@,
    }
}

/// The sentence the report writes for a result.
pub open spec fn spec_sentence(r: CheckResult) -> Seq<char> {
    "certificate of "@ + r.domain_name@ + if r.state == CheckState::Expired {
        " has expired"@
    } else {
        " expires in "@ + en_grouped_of(r.days as int) + " days ("@ + rfc3339_of(
            r.not_after as int,
        ) + ")"@
    }
}

/// The one-line report for a result.
pub open spec fn spec_display_string(r: CheckResult) -> Seq<char> {
    spec_state_icon(r.state) + " "@ + spec_sentence(r) + if r.elapsed > 0 {
        ", "@ + spec_dec_nat(r.elapsed as nat) + "ms elapsed"@
    } else {
        Seq::<char>::empty()
    }
}

/// A check result with every field rendered the way the JSON report writes
/// it: timestamps as RFC 3339 text, the state by its name.
#[derive(Debug)]
pub struct CheckResultJSON {
    /// Name of the certificate's state.
    pub state: String,
    /// When the check took place, as RFC 3339 text.
    pub checked_at: String,
    /// Days remaining until the expiration date; negative once past it.
    pub days: i64,
    /// The domain name that was checked.
    pub domain_name: String,
    /// The certificate's not-after instant, as RFC 3339 text.
    pub expired_at: String,
    /// Wall-clock time the check took, in milliseconds.
    pub elapsed: u128,
}

/// How a `CheckResultJSON` renders a `CheckResult`: the state by its name,
/// both timestamps as RFC 3339 text, days, domain and elapsed time kept.
pub open spec fn spec_json_of_result(j: CheckResultJSON, r: CheckResult) -> bool {
    &&& j.state@ == spec_state_name(r.state)
    &&& j.checked_at@ == rfc3339_of(r.checked_at as int)
    &&& j.days == r.days
    &&& j.domain_name@ == r.domain_name@
    &&& j.expired_at@ == rfc3339_of(r.not_after as int)
    &&& j.elapsed == r.elapsed
}

impl Default for CheckResultJSON {
    /// A rendering with nothing known: empty texts and zeroed numbers.
    fn default() -> (r: Self)
        ensures
            r.state@ == Seq::<char>::empty(),
            r.checked_at@ == Seq::<char>::empty(),
            r.days == 0,
            r.domain_name@ == Seq::<char>::empty(),
            r.expired_at@ == Seq::<char>::empty(),
            r.elapsed == 0,
    {
        CheckResultJSON {
            state: String::new(),
            checked_at: String::new(),
            days: 0,
            domain_name: String::new(),
            expired_at: String::new(),
            elapsed: 0,
        }
    }
}

impl CheckResultJSON {
    /// Render a result for the JSON report.
    pub fn new(result: &CheckResult) -> (r: CheckResultJSON)
        requires
            MIN_RFC3339_TIMESTAMP <= result.checked_at <= MAX_RFC3339_TIMESTAMP,
            MIN_RFC3339_TIMESTAMP <= result.not_after <= MAX_RFC3339_TIMESTAMP,
        ensures
            spec_json_of_result(r, *result),
    {
        CheckResultJSON {
            state: result.state.name().to_owned(),
            checked_at: rfc3339_utc(result.checked_at),
            days: result.days,
            domain_name: result.domain_name.as_str().to_owned(),
            expired_at: rfc3339_utc(result.not_after),
            elapsed: result.elapsed,
        }
    }
}

} // verus!
