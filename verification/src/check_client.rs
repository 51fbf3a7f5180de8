//! The certificate-check client: pre-flight validation of domain names,
//! evaluation of one fetched certificate against the grace period, and the
//! order-preserving join of a concurrent batch.
//!
//! The client never touches the network itself. A connector outside the
//! library opens `domain:443`, performs the TLS handshake against the
//! client's trust anchors, writes one minimal HTTP request, and reports
//! what happened as a `Fetch`; everything from there on is verified.

use vstd::prelude::*;
use vstd::set_lib::{lemma_int_range, set_int_range};
use vstd::string::StringExecFns;

use std::sync::Arc;

use crate::bindings::{
    default_tls_config, der_validity_of, dns_name_is_valid, dns_name_ok, parse_der_validity,
};
use crate::check_result::{CheckResult, CheckState};
use crate::classify::{classify, spec_remaining_days, spec_state_for};

verus! {

/// A structural error: the batch never started, no network work was done.
#[derive(Clone, Copy, Debug, PartialEq, Eq, Structural)]
pub enum CheckError {
    /// A domain name is not valid DNS-name syntax.
    InvalidDomainName,
    /// The fetches handed to a batch do not carry exactly one fetch per
    /// input domain.
    MismatchedFetches,
}

/// A leaf certificate's validity window, in whole-second UTC epoch values.
#[derive(Clone, Copy, Debug, PartialEq, Eq, Structural)]
pub struct CertificateValidity {
    /// Start of the window.
    pub not_before: i64,
    /// End of the window.
    pub not_after: i64,
}

/// Extract the validity window from a leaf certificate's DER bytes, or
/// nothing when the bytes do not decode to a certificate.
pub fn parse_validity(leaf_der: &[u8]) -> (r: Option<CertificateValidity>)
    ensures
        r matches Some(v) ==> der_validity_of(leaf_der@) == Some((v.not_before, v.not_after)),
        r is Some <==> der_validity_of(leaf_der@) is Some,
{
    match parse_der_validity(leaf_der) {
        Some((not_before, not_after)) => Some(CertificateValidity { not_before, not_after }),
        None => None,
    }
}

/// What the connector observed for one domain.
#[derive(Debug)]
pub enum FetchOutcome {
    /// No trustworthy encrypted session: name resolution, TCP connect, the
    /// TLS handshake, or the write after it failed.
    Failed,
    /// The handshake succeeded; the peer presented this certificate chain,
    /// leaf first, each certificate as its DER bytes. The chain may be
    /// empty.
    Completed(Vec<Vec<u8>>),
}

/// One domain's fetch: when it was checked, how long it took, and what the
/// connector observed.
#[derive(Debug)]
pub struct Fetch {
    /// When the check took place, in seconds since the Unix epoch.
    pub checked_at: i64,
    /// Wall-clock milliseconds the fetch took; zero when instrumentation
    /// is off.
    pub elapsed: u128,
    /// What the connector observed.
    pub outcome: FetchOutcome,
}

/// A fetch tagged with the position of its domain in the batch input, so a
/// batch can be joined in input order whatever order the fetches finished
/// in.
#[derive(Debug)]
pub struct IndexedFetch {
    /// Position of the fetched domain in the batch input.
    pub index: usize,
    /// The fetch itself.
    pub fetch: Fetch,
}

/// How a check result renders one domain's fetch under a grace period:
/// a failed session is reported as `Expired` with no expiry data; an empty
/// chain or an unreadable leaf as `Unknown`; otherwise the leaf's not-after
/// is classified against the time of the check. Every field of the result
/// is fixed by the domain, the fetch and the grace period alone.
pub open spec fn spec_result_for(
    r: CheckResult,
    grace_in_days: int,
    domain: Seq<char>,
    f: Fetch,
) -> bool {
    &&& r.domain_name@ == domain
    &&& r.checked_at == f.checked_at
    &&& r.elapsed == f.elapsed
    &&& match f.outcome {
        FetchOutcome::Failed => {
            &&& r.state == CheckState::Expired
            &&& r.days == 0
            &&& r.not_after == 0
        },
        FetchOutcome::Completed(chain) => {
            if chain@.len() == 0 {
                &&& r.state == CheckState::Unknown
                &&& r.days == 0
                &&& r.not_after == 0
            } else {
                match der_validity_of(chain@[0]@) {
                    None => {
                        &&& r.state == CheckState::Unknown
                        &&& r.days == 0
                        &&& r.not_after == 0
                    },
                    Some(v) => {
                        &&& r.not_after == v.1
                        &&& r.days == spec_remaining_days(v.1 as int, f.checked_at as int)
                        &&& r.state == spec_state_for(r.days as int, grace_in_days)
                    },
                }
            }
        },
    }
}

/// Exactly one fetch per input position: as many fetches as domains, every
/// tag within range, and no two fetches tagged alike.
pub open spec fn spec_fetch_cover(fetches: Seq<IndexedFetch>, n: int) -> bool {
    &&& fetches.len() == n
    &&& forall|j: int| 0 <= j < fetches.len() ==> (#[trigger] fetches[j].index) < n
    &&& forall|j: int, k: int|
        0 <= j < k < fetches.len() ==> fetches[j].index != fetches[k].index
}

/// Entry `i` of a joined batch stands for the fetch that was tagged `i`:
/// some fetch carries tag `i` and the entry renders it for domain `i`.
pub open spec fn spec_batch_entry(
    results: Seq<CheckResult>,
    grace_in_days: int,
    domains: Seq<String>,
    fetches: Seq<IndexedFetch>,
    i: int,
) -> bool {
    exists|j: int|
        0 <= j < fetches.len() && (#[trigger] fetches[j]).index == i && spec_result_for(
            results[i],
            grace_in_days,
            domains[i]@,
            fetches[j].fetch,
        )
}

/// A joined batch: one result per domain, index-aligned with the input,
/// each entry standing for the fetch that was tagged with its position.
pub open spec fn spec_batch_joined(
    results: Seq<CheckResult>,
    grace_in_days: int,
    domains: Seq<String>,
    fetches: Seq<IndexedFetch>,
) -> bool {
    &&& results.len() == domains.len()
    &&& forall|i: int|
        0 <= i < results.len() ==> #[trigger] spec_batch_entry(
            results,
            grace_in_days,
            domains,
            fetches,
            i,
        )
}

/// Check that every domain name in a batch is valid DNS-name syntax. A
/// batch is aborted by the first invalid name, before any network work.
pub fn validate_domain_names(domain_names: &Vec<String>) -> (r: Result<(), CheckError>)
    ensures
        match r {
            Ok(_) => forall|i: int|
                0 <= i < domain_names@.len() ==> #[trigger] dns_name_ok(domain_names@[i]@),
            Err(e) => {
                &&& e == CheckError::InvalidDomainName
                &&& exists|i: int|
                    0 <= i < domain_names@.len() && !(#[trigger] dns_name_ok(domain_names@[i]@))
            },
        },
{
    let n = domain_names.len();
    for i in 0..n
        invariant
            n == domain_names@.len(),
            forall|j: int| 0 <= j < i ==> #[trigger] dns_name_ok(domain_names@[j]@),
    {
        if !dns_name_is_valid(domain_names[i].as_str()) {
            return Err(CheckError::InvalidDomainName);
        }
    }
    Ok(())
}

/// Client to check TLS certificates: the trust anchors every connection
/// shares, constructed once, and the grace period results are classified
/// against.
pub struct CheckClient {
    config: Arc<rustls::ClientConfig>,
    grace_in_days: i64,
}

impl CheckClient {
    /// The grace period, in days, this client classifies against.
    pub closed spec fn spec_grace(&self) -> int {
        self.grace_in_days as int
    }

    /// Create a client with the default grace period of 7 days.
    pub fn new() -> (r: Self)
        ensures
            r.spec_grace() == 7,
    {
        Self::new_with_grace_in_days(7)
    }

    /// Create a client with a grace period in days. The trust anchors are
    /// the bundled TLS server roots, shared by reference across all of the
    /// client's connections.
    pub fn new_with_grace_in_days(grace_in_days: i64) -> (r: Self)
        ensures
            r.spec_grace() == grace_in_days,
    {
        CheckClient { config: default_tls_config(), grace_in_days }
    }

    /// The grace period, in days, this client classifies against.
    pub fn grace_in_days(&self) -> (r: i64)
        ensures
            r == self.spec_grace(),
    {
        self.grace_in_days
    }

    /// The TLS client configuration a connector should perform handshakes
    /// with; trust anchors are never mutated after construction.
    pub fn tls_config(&self) -> &Arc<rustls::ClientConfig> {
        &self.config
    }

    /// The result for one domain's fetch; see `spec_result_for`.
    fn evaluate(&self, domain_name: &str, fetch: &Fetch) -> (r: CheckResult)
        ensures
            spec_result_for(r, self.spec_grace(), domain_name@, *fetch),
    {
        match &fetch.outcome {
            FetchOutcome::Failed => CheckResult {
                state: CheckState::Expired,
                checked_at: fetch.checked_at,
                days: 0,
                domain_name: domain_name.to_owned(),
                not_after: 0,
                elapsed: fetch.elapsed,
            },
            FetchOutcome::Completed(chain) => {
                if chain.len() == 0 {
                    self.unknown_result(domain_name, fetch)
                } else {
                    let leaf: &Vec<u8> = &chain[0];
                    match parse_validity(leaf.as_slice()) {
                        None => self.unknown_result(domain_name, fetch),
                        Some(v) => {
                            let (state, days) = classify(
                                v.not_after,
                                fetch.checked_at,
                                self.grace_in_days,
                            );
                            CheckResult {
                                state,
                                checked_at: fetch.checked_at,
                                days,
                                domain_name: domain_name.to_owned(),
                                not_after: v.not_after,
                                elapsed: fetch.elapsed,
                            }
                        },
                    }
                }
            },
        }
    }

    /// The result for a fetch that yielded no usable validity data.
    fn unknown_result(&self, domain_name: &str, fetch: &Fetch) -> (r: CheckResult)
        ensures
            r.state == CheckState::Unknown,
            r.checked_at == fetch.checked_at,
            r.days == 0,
            r.domain_name@ == domain_name@,
            r.not_after == 0,
            r.elapsed == fetch.elapsed,
    {
        CheckResult {
            state: CheckState::Unknown,
            checked_at: fetch.checked_at,
            days: 0,
            domain_name: domain_name.to_owned(),
            not_after: 0,
            elapsed: fetch.elapsed,
        }
    }

    /// Check one domain against its fetch: the domain's syntax is validated
    /// first, and a valid domain always yields a result, whatever the fetch
    /// observed.
    pub fn check_certificate(&self, domain_name: &str, fetch: &Fetch) -> (r: Result<
        CheckResult,
        CheckError,
    >)
        ensures
            match r {
                Ok(res) => {
                    &&& dns_name_ok(domain_name@)
                    &&& spec_result_for(res, self.spec_grace(), domain_name@, *fetch)
                },
                Err(e) => {
                    &&& !dns_name_ok(domain_name@)
                    &&& e == CheckError::InvalidDomainName
                },
            },
    {
        if !dns_name_is_valid(domain_name) {
            return Err(CheckError::InvalidDomainName);
        }
        Ok(self.evaluate(domain_name, fetch))
    }

    /// Join a batch: validate every domain before any result is produced,
    /// then place each fetched outcome at its domain's input position. The
    /// result list is index-aligned with the input, whatever order the
    /// fetches arrived in, and every domain yields exactly one entry.
    pub fn check_certificates(
        &self,
        domain_names: &Vec<String>,
        fetches: Vec<IndexedFetch>,
    ) -> (r: Result<Vec<CheckResult>, CheckError>)
        ensures
            match r {
                Ok(results) => {
                    &&& forall|i: int|
                        0 <= i < domain_names@.len() ==> #[trigger] dns_name_ok(
                            domain_names@[i]@,
                        )
                    &&& spec_fetch_cover(fetches@, domain_names@.len() as int)
                    &&& spec_batch_joined(results@, self.spec_grace(), domain_names@, fetches@)
                },
                Err(CheckError::InvalidDomainName) => exists|i: int|
                    0 <= i < domain_names@.len() && !(#[trigger] dns_name_ok(
                        domain_names@[i]@,
                    )),
                Err(CheckError::MismatchedFetches) => {
                    &&& forall|i: int|
                        0 <= i < domain_names@.len() ==> #[trigger] dns_name_ok(
                            domain_names@[i]@,
                        )
                    &&& !spec_fetch_cover(fetches@, domain_names@.len() as int)
                },
            },
    {
        if let Err(e) = validate_domain_names(domain_names) {
            return Err(e);
        }
        let n = domain_names.len();
        if fetches.len() != n {
            return Err(CheckError::MismatchedFetches);
        }

        let mut slots: Vec<Option<CheckResult>> = Vec::new();
        let mut k: usize = 0;
        while k < n
            invariant
                k <= n,
                slots@.len() == k,
                forall|m: int| 0 <= m < k ==> (#[trigger] slots@[m]) is None,
            decreases n - k,
        {
            slots.push(None);
            k += 1;
        }

        let ghost mut seen: Set<int> = Set::empty();
        let ghost mut owner: Map<int, int> = Map::empty();
        let mut j: usize = 0;
        while j < n
            invariant
                n == domain_names@.len(),
                n == fetches@.len(),
                forall|i: int|
                    0 <= i < domain_names@.len() ==> #[trigger] dns_name_ok(domain_names@[i]@),
                slots@.len() == n,
                j <= n,
                seen.finite(),
                seen.len() == j,
                forall|t: int| seen.contains(t) ==> 0 <= t < n,
                forall|m: int|
                    0 <= m < j ==> seen.contains((#[trigger] fetches@[m]).index as int),
                forall|m: int| 0 <= m < j ==> (#[trigger] fetches@[m]).index < n,
                forall|m1: int, m2: int|
                    0 <= m1 < m2 < j ==> fetches@[m1].index != fetches@[m2].index,
                forall|t: int|
                    0 <= t < n ==> ((#[trigger] slots@[t]) is Some <==> seen.contains(t)),
                forall|t: int|
                    0 <= t < n && (#[trigger] slots@[t]) is Some ==> {
                        &&& 0 <= owner[t] < j
                        &&& fetches@[owner[t]].index == t
                        &&& spec_result_for(
                            slots@[t].unwrap(),
                            self.spec_grace(),
                            domain_names@[t]@,
                            fetches@[owner[t]].fetch,
                        )
                    },
            decreases n - j,
        {
            let idx = fetches[j].index;
            if idx >= n {
                proof {
                    assert(fetches@[j as int].index >= n);
                    assert(!spec_fetch_cover(fetches@, n as int));
                }
                return Err(CheckError::MismatchedFetches);
            }
            if slots[idx].is_some() {
                proof {
                    let m = owner[idx as int];
                    assert(fetches@[m].index == fetches@[j as int].index);
                    assert(0 <= m < j as int);
                    assert(!spec_fetch_cover(fetches@, n as int));
                }
                return Err(CheckError::MismatchedFetches);
            }
            let item = &fetches[j];
            let res = self.evaluate(domain_names[idx].as_str(), &item.fetch);
            slots[idx] = Some(res);
            proof {
                seen = seen.insert(idx as int);
                owner = owner.insert(idx as int, j as int);
            }
            j += 1;
        }

        proof {
            lemma_int_range(0, n as int);
            let range = set_int_range(0, n as int);
            assert forall|t: int| 0 <= t < n implies seen.contains(t) by {
                if !seen.contains(t) {
                    seen.lemma_subset_not_in_lt(range, t);
                }
            }
            assert(spec_fetch_cover(fetches@, n as int));
        }

        let mut rest = slots;
        let mut results: Vec<CheckResult> = Vec::new();
        let mut i: usize = 0;
        while i < n
            invariant
                n == domain_names@.len(),
                n == fetches@.len(),
                forall|i2: int|
                    0 <= i2 < domain_names@.len() ==> #[trigger] dns_name_ok(domain_names@[i2]@),
                spec_fetch_cover(fetches@, n as int),
                i <= n,
                rest@.len() + i == n,
                results@.len() == i,
                forall|t: int|
                    0 <= t < rest@.len() ==> {
                        &&& (#[trigger] rest@[t]) is Some
                        &&& 0 <= owner[t + i] < n
                        &&& fetches@[owner[t + i]].index == t + i
                        &&& spec_result_for(
                            rest@[t].unwrap(),
                            self.spec_grace(),
                            domain_names@[t + i]@,
                            fetches@[owner[t + i]].fetch,
                        )
                    },
                forall|t: int|
                    #![trigger owner[t]]
                    0 <= t < i ==> {
                        &&& 0 <= owner[t] < n
                        &&& fetches@[owner[t]].index == t
                        &&& spec_result_for(
                            results@[t],
                            self.spec_grace(),
                            domain_names@[t]@,
                            fetches@[owner[t]].fetch,
                        )
                    },
            decreases n - i,
        {
            let ghost old_rest = rest@;
            let ghost old_results = results@;
            let ghost old_i = i as int;
            proof {
                assert(old_rest[0] is Some);
            }
            let item = rest.remove(0);
            match item {
                Some(res) => results.push(res),
                None => {
                    proof {
                        assert(false);
                    }
                    return Err(CheckError::MismatchedFetches);
                },
            }
            i += 1;
            proof {
                assert forall|t: int| #![trigger owner[t]] 0 <= t < i implies {
                    &&& 0 <= owner[t] < n
                    &&& fetches@[owner[t]].index == t
                    &&& spec_result_for(
                        results@[t],
                        self.spec_grace(),
                        domain_names@[t]@,
                        fetches@[owner[t]].fetch,
                    )
                } by {
                    if t < old_i {
                        assert(results@[t] == old_results[t]);
                    } else {
                        assert(results@[t] == old_rest[0].unwrap());
                    }
                }
                assert forall|t: int| 0 <= t < rest@.len() implies {
                    &&& (#[trigger] rest@[t]) is Some
                    &&& 0 <= owner[t + i] < n
                    &&& fetches@[owner[t + i]].index == t + i
                    &&& spec_result_for(
                        rest@[t].unwrap(),
                        self.spec_grace(),
                        domain_names@[t + i]@,
                        fetches@[owner[t + i]].fetch,
                    )
                } by {
                    assert(rest@[t] == old_rest[t + 1]);
                    assert(old_rest[t + 1] is Some);
                }
            }
        }
        proof {
            assert forall|i2: int|
                0 <= i2 < results@.len() implies #[trigger] spec_batch_entry(
                results@,
                self.spec_grace(),
                domain_names@,
                fetches@,
                i2,
            ) by {
                assert(0 <= i2 < i);
                let w = owner[i2];
                assert(0 <= w < n);
                assert(0 <= w < fetches@.len() && fetches@[w].index == i2 && spec_result_for(
                    results@[i2],
                    self.spec_grace(),
                    domain_names@[i2]@,
                    fetches@[w].fetch,
                ));
            }
            assert(spec_batch_joined(results@, self.spec_grace(), domain_names@, fetches@));
        }
        Ok(results)
    }

    /// The minimal HTTP request a connector writes after the handshake, so
    /// that the peer completes the exchange and releases session data; the
    /// response itself is discarded.
    pub fn build_http_headers(domain_name: &str) -> (r: String)
        ensures
            r@ == spec_http_headers(domain_name@),
    {
        let mut s = "GET / HTTP/1.1\r\nHost: ".to_owned();
        s.append(domain_name);
        s.append("\r\nConnection: close\r\nAccept-Encoding: identity\r\n\r\n");
        proof {
            assert(s@ =~= spec_http_headers(domain_name@));
        }
        s
    }
}

/// The minimal HTTP request written for a domain after the handshake.
pub open spec fn spec_http_headers(domain: Seq<char>) -> Seq<char> {
    "GET / HTTP/1.1\r\nHost: "@ + domain
        + "\r\nConnection: close\r\nAccept-Encoding: identity\r\n\r\n"@
}

/// The fields of a check result are fixed by its domain, fetch and grace
/// period: two results standing for the same fetch agree everywhere.
pub proof fn lemma_result_determined(
    r1: CheckResult,
    r2: CheckResult,
    grace_in_days: int,
    domain: Seq<char>,
    f: Fetch,
)
    requires
        spec_result_for(r1, grace_in_days, domain, f),
        spec_result_for(r2, grace_in_days, domain, f),
    ensures
        r1.state == r2.state,
        r1.checked_at == r2.checked_at,
        r1.days == r2.days,
        r1.domain_name@ == r2.domain_name@,
        r1.not_after == r2.not_after,
        r1.elapsed == r2.elapsed,
{
}

/// Domains in a batch are isolated from one another: replacing one domain's
/// fetch — say by a connectivity failure — cannot change any other entry of
/// the batch result, because each entry is fixed by its own domain and
/// fetch alone.
pub proof fn lemma_batch_isolation(
    results1: Seq<CheckResult>,
    results2: Seq<CheckResult>,
    grace_in_days: int,
    domains: Seq<Seq<char>>,
    fetches1: Seq<Fetch>,
    fetches2: Seq<Fetch>,
    changed: int,
)
    requires
        results1.len() == domains.len(),
        results2.len() == domains.len(),
        fetches1.len() == domains.len(),
        fetches2.len() == domains.len(),
        forall|i: int|
            0 <= i < domains.len() ==> spec_result_for(
                #[trigger] results1[i],
                grace_in_days,
                domains[i],
                fetches1[i],
            ),
        forall|i: int|
            0 <= i < domains.len() ==> spec_result_for(
                #[trigger] results2[i],
                grace_in_days,
                domains[i],
                fetches2[i],
            ),
        forall|i: int| 0 <= i < domains.len() && i != changed ==> fetches1[i] == fetches2[i],
    ensures
        forall|i: int|
            0 <= i < domains.len() && i != changed ==> {
                &&& (#[trigger] results1[i]).state == results2[i].state
                &&& results1[i].checked_at == results2[i].checked_at
                &&& results1[i].days == results2[i].days
                &&& results1[i].domain_name@ == results2[i].domain_name@
                &&& results1[i].not_after == results2[i].not_after
                &&& results1[i].elapsed == results2[i].elapsed
            },
{
    assert forall|i: int| 0 <= i < domains.len() && i != changed implies {
        &&& (#[trigger] results1[i]).state == results2[i].state
        &&& results1[i].checked_at == results2[i].checked_at
        &&& results1[i].days == results2[i].days
        &&& results1[i].domain_name@ == results2[i].domain_name@
        &&& results1[i].not_after == results2[i].not_after
        &&& results1[i].elapsed == results2[i].elapsed
    } by {
        lemma_result_determined(
            results1[i],
            results2[i],
            grace_in_days,
            domains[i],
            fetches1[i],
        );
    }
}

} // verus!
