//! Strict TOFU: a first key needs confirmation and a changed key blocks the connection.
use vstd::prelude::*;
use crate::domain::{
    destination_error, known_host_error, normal_destination, normalize_destination, DomainError,
    KnownHost, Timestamp,
};
use crate::repositories::{KnownHostRepository, RepositoryError};
use crate::text::{str_eq, trim};

verus! {

#[derive(Clone, Copy, Debug, PartialEq, Eq, Structural)]
pub enum TrustDecision {
    ConfirmFirstUse,
    Trusted,
    Changed,
}

/// Compares a received fingerprint with the one on record.
pub fn verify(known_fingerprint: Option<&str>, received_fingerprint: &str) -> (d: TrustDecision)
    ensures
        match known_fingerprint {
            None => d == TrustDecision::ConfirmFirstUse,
            Some(k) => if k@ == received_fingerprint@ {
                d == TrustDecision::Trusted
            } else {
                d == TrustDecision::Changed
            },
        },
{
    match known_fingerprint {
        None => TrustDecision::ConfirmFirstUse,
        Some(known) => if str_eq(known, received_fingerprint) {
            TrustDecision::Trusted
        } else {
            TrustDecision::Changed
        },
    }
}

/// The decision for a presented key given the record found for its destination and port.
pub open spec fn trust_decision(known: Option<KnownHost>, algorithm: Seq<char>, fingerprint: Seq<char>) -> TrustDecision {
    match known {
        None => TrustDecision::ConfirmFirstUse,
        Some(k) => if k.algorithm@ == algorithm && k.fingerprint@ == fingerprint {
            TrustDecision::Trusted
        } else {
            TrustDecision::Changed
        },
    }
}

/// Decides on a presented key from the record the repository holds, if any.
pub fn decide_trust(known: Option<&KnownHost>, algorithm: &str, fingerprint: &str) -> (d: TrustDecision)
    ensures
        d == trust_decision(
            match known {
                Some(k) => Some(*k),
                None => None,
            },
            algorithm@,
            fingerprint@,
        ),
{
    match known {
        None => TrustDecision::ConfirmFirstUse,
        Some(k) => if str_eq(k.algorithm.as_str(), algorithm) && str_eq(
            k.fingerprint.as_str(),
            fingerprint,
        ) {
            TrustDecision::Trusted
        } else {
            TrustDecision::Changed
        },
    }
}

#[derive(Clone, Debug, PartialEq, Eq)]
pub enum TrustError {
    Domain(DomainError),
    Repository(RepositoryError),
    ChangedIdentity,
}

/// What assessing a presented key gives on the repository's answer for the normalized
/// destination and port.
pub open spec fn assessment(
    destination: Seq<char>,
    algorithm: Seq<char>,
    fingerprint: Seq<char>,
    found: Result<Option<KnownHost>, RepositoryError>,
) -> Result<TrustDecision, TrustError> {
    match destination_error(destination) {
        Some(e) => Err(TrustError::Domain(e)),
        None => match found {
            Err(e) => Err(TrustError::Repository(e)),
            Ok(k) => Ok(trust_decision(k, algorithm, fingerprint)),
        },
    }
}

/// For a valid destination, `found` is the repository's answer to looking up the key of
/// the normalized destination and the port; an invalid one is looked up nowhere.
pub open spec fn looked_up<R: KnownHostRepository>(
    repo: &R,
    destination: Seq<char>,
    port: u16,
    found: Result<Option<KnownHost>, RepositoryError>,
) -> bool {
    destination_error(destination) is None ==> repo.finds_known_host(normal_destination(destination), port, found)
}

/// A trusted key is returned as stored; a record that has gone is `NotFound`.
pub open spec fn trusted_outcome(stored: Result<Option<KnownHost>, RepositoryError>) -> Result<KnownHost, TrustError> {
    match stored {
        Ok(Some(k)) => Ok(k),
        Ok(None) => Err(TrustError::Repository(RepositoryError::NotFound)),
        Err(e) => Err(TrustError::Repository(e)),
    }
}

/// What confirming a key gives for a decision, from the answers the later steps get: the
/// stored record of a trusted key, and for a first use the key record built and the
/// repository's answer to inserting it.
pub open spec fn first_use_spec(
    decision: TrustDecision,
    stored: Option<Result<Option<KnownHost>, RepositoryError>>,
    built: Option<Result<KnownHost, DomainError>>,
    inserted: Option<Result<(), RepositoryError>>,
) -> Result<KnownHost, TrustError> {
    match decision {
        TrustDecision::Changed => Err(TrustError::ChangedIdentity),
        TrustDecision::Trusted => match stored {
            Some(s) => trusted_outcome(s),
            None => Err(TrustError::Repository(RepositoryError::NotFound)),
        },
        TrustDecision::ConfirmFirstUse => match built {
            Some(Ok(k)) => match inserted {
                Some(Err(e)) => Err(TrustError::Repository(e)),
                _ => Ok(k),
            },
            Some(Err(e)) => Err(TrustError::Domain(e)),
            None => Err(TrustError::Repository(RepositoryError::NotFound)),
        },
    }
}

/// The result of confirming a key, from the decision and the later answers.
pub fn first_use_result(
    decision: TrustDecision,
    stored: Option<Result<Option<KnownHost>, RepositoryError>>,
    built: Option<Result<KnownHost, DomainError>>,
    inserted: Option<Result<(), RepositoryError>>,
) -> (r: Result<KnownHost, TrustError>)
    ensures
        r == first_use_spec(decision, stored, built, inserted),
{
    match decision {
        TrustDecision::Changed => Err(TrustError::ChangedIdentity),
        TrustDecision::Trusted => match stored {
            Some(Ok(Some(k))) => Ok(k),
            Some(Ok(None)) => Err(TrustError::Repository(RepositoryError::NotFound)),
            Some(Err(e)) => Err(TrustError::Repository(e)),
            None => Err(TrustError::Repository(RepositoryError::NotFound)),
        },
        TrustDecision::ConfirmFirstUse => match built {
            Some(Ok(k)) => match inserted {
                Some(Err(e)) => Err(TrustError::Repository(e)),
                _ => Ok(k),
            },
            Some(Err(e)) => Err(TrustError::Domain(e)),
            None => Err(TrustError::Repository(RepositoryError::NotFound)),
        },
    }
}

/// `k` records the presented key as a first use at `now`: the normalized destination,
/// the port, the trimmed algorithm and fingerprint.
pub open spec fn records_key(
    k: KnownHost,
    destination: Seq<char>,
    port: u16,
    algorithm: Seq<char>,
    fingerprint: Seq<char>,
    now: Timestamp,
) -> bool {
    &&& k.destination@ == normal_destination(destination)
    &&& k.port == port
    &&& k.algorithm@ == trim(algorithm)
    &&& k.fingerprint@ == trim(fingerprint)
    &&& k.created_at == now
    &&& k.updated_at == now
}

/// `r` is what confirming the presented key gives, on the repository's answer `found` to
/// the assessment, its answer `stored` to looking the key up again when it is trusted,
/// and, for a first use, the key `recorded` and its answer `inserted` to recording it.
pub open spec fn first_use_matches<R: KnownHostRepository>(
    repo: &R,
    destination: Seq<char>,
    port: u16,
    algorithm: Seq<char>,
    fingerprint: Seq<char>,
    now: Timestamp,
    found: Result<Option<KnownHost>, RepositoryError>,
    stored: Result<Option<KnownHost>, RepositoryError>,
    recorded: KnownHost,
    inserted: Result<(), RepositoryError>,
    r: Result<KnownHost, TrustError>,
) -> bool {
    &&& looked_up(repo, destination, port, found)
    &&& match assessment(destination, algorithm, fingerprint, found) {
        Err(e) => r == Err::<KnownHost, TrustError>(e),
        Ok(TrustDecision::Changed) => r == Err::<KnownHost, TrustError>(TrustError::ChangedIdentity),
        Ok(TrustDecision::Trusted) => repo.finds_known_host(destination, port, stored) && r == trusted_outcome(stored),
        Ok(TrustDecision::ConfirmFirstUse) => match known_host_error(destination, port, algorithm, fingerprint) {
            Some(e) => r == Err::<KnownHost, TrustError>(TrustError::Domain(e)),
            None => {
                &&& records_key(recorded, destination, port, algorithm, fingerprint, now)
                &&& repo.inserts_known_host(recorded, inserted)
                &&& match inserted {
                    Err(e) => r == Err::<KnownHost, TrustError>(TrustError::Repository(e)),
                    Ok(()) => r == Ok::<KnownHost, TrustError>(recorded),
                }
            },
        },
    }
}

/// Trust decisions backed by a repository of known host keys.
pub struct TrustService<'a, R> {
    repository: &'a R,
}

impl<'a, R: KnownHostRepository> TrustService<'a, R> {
    /// The repository of known host keys the service decides from and records in.
    pub closed spec fn held_repository(&self) -> &'a R {
        self.repository
    }

    pub fn new(repository: &'a R) -> (s: Self)
        ensures
            s.held_repository() == repository,
    {
        TrustService { repository }
    }

    /// Looks the normalized destination up and decides on the presented key.
    pub fn assess(&self, destination: &str, port: u16, algorithm: &str, fingerprint: &str) -> (r:
        Result<TrustDecision, TrustError>)
        ensures
            destination_error(destination@) matches Some(e) ==> r == Err::<
                TrustDecision,
                TrustError,
            >(TrustError::Domain(e)),
            r matches Err(TrustError::Domain(_)) ==> destination_error(destination@) is Some,
            r !is Err || r->Err_0 is Domain || r->Err_0 is Repository,
            exists|found: Result<Option<KnownHost>, RepositoryError>|
                #[trigger] assessment(destination@, algorithm@, fingerprint@, found) == r && looked_up(
                    self.held_repository(),
                    destination@,
                    port,
                    found,
                ),
    {
        let normalized = match normalize_destination(destination) {
            Ok(d) => d,
            Err(e) => {
                let res: Result<TrustDecision, TrustError> = Err(TrustError::Domain(e));
                assert(assessment(destination@, algorithm@, fingerprint@, Ok(None)) == res && looked_up(
                    self.held_repository(),
                    destination@,
                    port,
                    Ok(None),
                ));
                return res;
            },
        };
        let found = self.repository.find_known_host(normalized.as_str(), port);
        let ghost answer = found;
        let known = match found {
            Ok(k) => k,
            Err(e) => {
                let res: Result<TrustDecision, TrustError> = Err(TrustError::Repository(e));
                assert(assessment(destination@, algorithm@, fingerprint@, answer) == res && looked_up(
            self.held_repository(),
            destination@,
            port,
            answer,
        ));
                return res;
            },
        };
        let decision = match &known {
            Some(k) => decide_trust(Some(k), algorithm, fingerprint),
            None => decide_trust(None, algorithm, fingerprint),
        };
        let res: Result<TrustDecision, TrustError> = Ok(decision);
        assert(assessment(destination@, algorithm@, fingerprint@, answer) == res && looked_up(
            self.held_repository(),
            destination@,
            port,
            answer,
        ));
        res
    }

    /// Records a key on first use; a changed key is refused, a trusted one is returned as stored.
    pub fn confirm_first_use(
        &self,
        destination: &str,
        port: u16,
        algorithm: &str,
        fingerprint: &str,
        now: Timestamp,
    ) -> (r: Result<KnownHost, TrustError>)
        ensures
            destination_error(destination@) matches Some(e) ==> r == Err::<KnownHost, TrustError>(
                TrustError::Domain(e),
            ),
            r matches Err(TrustError::Domain(e)) ==> known_host_error(
                destination@,
                port,
                algorithm@,
                fingerprint@,
            ) is Some,
            exists|
                found: Result<Option<KnownHost>, RepositoryError>,
                stored: Result<Option<KnownHost>, RepositoryError>,
                recorded: KnownHost,
                inserted: Result<(), RepositoryError>,
            |
                #[trigger] first_use_matches(
                    self.held_repository(),
                    destination@,
                    port,
                    algorithm@,
                    fingerprint@,
                    now,
                    found,
                    stored,
                    recorded,
                    inserted,
                    r,
                ),
    {
        let assessed = self.assess(destination, port, algorithm, fingerprint);
        let ghost found = choose|found: Result<Option<KnownHost>, RepositoryError>|
            #[trigger] assessment(destination@, algorithm@, fingerprint@, found) == assessed && looked_up(
                self.held_repository(),
                destination@,
                port,
                found,
            );
        let ghost any_key: KnownHost = arbitrary();
        let decision = match assessed {
            Ok(d) => d,
            Err(e) => {
                let res: Result<KnownHost, TrustError> = Err(e);
                assert(first_use_matches(self.held_repository(), destination@, port, algorithm@, fingerprint@, now, found, Ok(None), any_key, Ok(()), res));
                return res;
            },
        };
        let stored = match decision {
            TrustDecision::Trusted => Some(self.repository.find_known_host(destination, port)),
            _ => None,
        };
        let built = match decision {
            TrustDecision::ConfirmFirstUse => Some(KnownHost::new(destination, port, algorithm, fingerprint, now)),
            _ => None,
        };
        let inserted = match &built {
            Some(Ok(k)) => Some(self.repository.insert_known_host(k)),
            _ => None,
        };
        let ghost answers = (stored, built, inserted);
        let res = first_use_result(decision, stored, built, inserted);
        proof {
            let s = match answers.0 {
                Some(v) => v,
                None => Ok(None),
            };
            let k = match answers.1 {
                Some(Ok(k)) => k,
                _ => any_key,
            };
            let i = match answers.2 {
                Some(v) => v,
                None => Ok(()),
            };
            assert(first_use_matches(self.held_repository(), destination@, port, algorithm@, fingerprint@, now, found, s, k, i, res));
        }
        res
    }

    /// Forgets the key of a destination.
    pub fn remove(&self, destination: &str, port: u16) -> (r: Result<(), TrustError>)
        ensures
            destination_error(destination@) matches Some(e) ==> r == Err::<(), TrustError>(
                TrustError::Domain(e),
            ),
            r matches Err(TrustError::Domain(_)) ==> destination_error(destination@) is Some,
            r !is Err || r->Err_0 is Domain || r->Err_0 is Repository,
            destination_error(destination@) is None ==> exists|a: Result<(), RepositoryError>|
                #[trigger] self.held_repository().removes_known_host(normal_destination(destination@), port, a)
                    && match a {
                    Ok(()) => r is Ok,
                    Err(e) => r == Err::<(), TrustError>(TrustError::Repository(e)),
                },
    {
        let ghost given = destination@;
        let normal = match normalize_destination(destination) {
            Ok(d) => d,
            Err(e) => {
                return Err(TrustError::Domain(e));
            },
        };
        let answer = self.repository.remove_known_host(normal.as_str(), port);
        let ghost a = answer;
        let res: Result<(), TrustError> = match answer {
            Ok(()) => Ok(()),
            Err(e) => Err(TrustError::Repository(e)),
        };
        assert(self.held_repository().removes_known_host(normal_destination(given), port, a));
        res
    }
}

/// Strict trust on first use: a key recorded for a destination is trusted when the same
/// key is presented again, and any other fingerprint or algorithm is a changed identity.
/// Keys are recorded trimmed, so the law is stated for presented texts without
/// surrounding white space.
pub proof fn lemma_recorded_key_trusted(
    k: KnownHost,
    algorithm: Seq<char>,
    fingerprint: Seq<char>,
    other_algorithm: Seq<char>,
    other_fingerprint: Seq<char>,
)
    requires
        k.algorithm@ == crate::text::trim(algorithm),
        k.fingerprint@ == crate::text::trim(fingerprint),
        crate::text::trim(algorithm) == algorithm,
        crate::text::trim(fingerprint) == fingerprint,
    ensures
        trust_decision(Some(k), algorithm, fingerprint) == TrustDecision::Trusted,
        (other_algorithm != algorithm || other_fingerprint != fingerprint) ==> trust_decision(
            Some(k),
            other_algorithm,
            other_fingerprint,
        ) == TrustDecision::Changed,
        trust_decision(None, algorithm, fingerprint) == TrustDecision::ConfirmFirstUse,
{
}

} // verus!
