//! Vault contract: secrets live only in the system vault, never in local storage.
use vstd::prelude::*;
use vstd::cell::invcell::InvCell;
use crate::domain::CredentialRef;
use crate::repositories::{CredentialCleanupRepository, RepositoryError};
use crate::text::str_eq;

pub use crate::domain::CredentialRef as SecretRef;

verus! {

/// A secret value held only in memory on its way to or from the vault.
#[derive(Clone, PartialEq, Eq)]
pub struct SecretValue(String);

impl View for SecretValue {
    type V = Seq<char>;

    closed spec fn view(&self) -> Seq<char> {
        self.0@
    }
}

impl SecretValue {
    pub fn new(value: &str) -> (s: Self)
        ensures
            s@ == value@,
    {
        SecretValue(value.to_owned())
    }

    pub fn expose(&self) -> (s: &str)
        ensures
            s@ == self@,
    {
        self.0.as_str()
    }

    /// Debug text that never shows the secret.
    pub fn redacted_debug(&self) -> (s: String)
        ensures
            s@ == "SecretValue(<redacted>)"@,
    {
        String::from_str("SecretValue(<redacted>)")
    }
}

#[derive(Clone, Debug, PartialEq, Eq)]
pub enum VaultError {
    NotFound,
    Platform(String),
    UnsupportedPlatform,
}

impl VaultError {
    pub fn duplicate(&self) -> (r: VaultError)
        ensures
            r == *self,
    {
        match self {
            VaultError::NotFound => VaultError::NotFound,
            VaultError::Platform(m) => VaultError::Platform(m.clone()),
            VaultError::UnsupportedPlatform => VaultError::UnsupportedPlatform,
        }
    }
}

/// The system's vault of secrets. The relations name of which request an answer is; a
/// vault that states nothing more keeps the default: any answer.
pub trait SecretVault {
    /// `r` is an answer of this vault to storing `secret` under `reference`.
    closed spec fn stores(&self, reference: Seq<char>, secret: Seq<char>, r: Result<(), VaultError>) -> bool {
        true
    }

    /// `r` is an answer of this vault to reading the secret under `reference`.
    closed spec fn reads(&self, reference: Seq<char>, r: Result<SecretValue, VaultError>) -> bool {
        true
    }

    /// `r` is an answer of this vault to removing the secret under `reference`.
    closed spec fn removes(&self, reference: Seq<char>, r: Result<(), VaultError>) -> bool {
        true
    }

    fn store(&self, reference: &SecretRef, secret: &SecretValue) -> (r: Result<(), VaultError>)
        ensures
            self.stores(reference@, secret@, r),
    ;

    fn read(&self, reference: &SecretRef) -> (r: Result<SecretValue, VaultError>)
        ensures
            self.reads(reference@, r),
    ;

    fn remove(&self, reference: &SecretRef) -> (r: Result<(), VaultError>)
        ensures
            self.removes(reference@, r),
    ;
}

/// No reference has two entries, as in a map from references to secrets.
pub open spec fn references_unique(v: Seq<(String, String)>) -> bool {
    forall|i: int, j: int| 0 <= i < j < v.len() ==> (#[trigger] v[i]).0@ != (#[trigger] v[j]).0@
}

/// The entries of the fake vault: one per reference.
pub struct UniqueReferences;

impl vstd::predicate::Predicate<Vec<(String, String)>> for UniqueReferences {
    open spec fn predicate(&self, v: Vec<(String, String)>) -> bool {
        references_unique(v@)
    }
}

/// An in-memory vault for tests, holding one secret per reference, which can be made to
/// fail every call.
pub struct FakeSecretVault {
    values: InvCell<Vec<(String, String)>, UniqueReferences>,
    fail_with: Option<VaultError>,
}

impl FakeSecretVault {
    /// The error every call returns, if any.
    pub closed spec fn failure(&self) -> Option<VaultError> {
        self.fail_with
    }

    /// A vault on which every call fails with `error`.
    pub fn failing(error: VaultError) -> (v: Self)
        ensures
            v.failure() == Some(error),
    {
        FakeSecretVault { values: InvCell::new(Vec::new(), Ghost(UniqueReferences)), fail_with: Some(error) }
    }

    fn position(entries: &Vec<(String, String)>, reference: &SecretRef) -> (r: Option<usize>)
        ensures
            r matches Some(i) ==> i < entries@.len() && entries@[i as int].0@ == reference@,
            r is None ==> forall|i: int|
                0 <= i < entries@.len() ==> (#[trigger] entries@[i]).0@ != reference@,
    {
        let mut i: usize = 0;
        while i < entries.len()
            invariant
                i <= entries@.len(),
                forall|j: int| 0 <= j < i ==> (#[trigger] entries@[j]).0@ != reference@,
            decreases entries@.len() - i,
        {
            if str_eq(entries[i].0.as_str(), reference.as_str()) {
                return Some(i);
            }
            i += 1;
        }
        None
    }
}

impl Default for FakeSecretVault {
    /// An empty vault that never fails.
    fn default() -> (v: Self)
        ensures
            v.failure() is None,
    {
        FakeSecretVault { values: InvCell::new(Vec::new(), Ghost(UniqueReferences)), fail_with: None }
    }
}

impl SecretVault for FakeSecretVault {
    /// A failing vault answers with its error; any other takes every secret.
    open spec fn stores(&self, reference: Seq<char>, secret: Seq<char>, r: Result<(), VaultError>) -> bool {
        match self.failure() {
            Some(e) => r == Err::<(), VaultError>(e),
            None => r is Ok,
        }
    }

    /// A failing vault answers with its error; any other gives a secret or `NotFound`.
    open spec fn reads(&self, reference: Seq<char>, r: Result<SecretValue, VaultError>) -> bool {
        match self.failure() {
            Some(e) => r == Err::<SecretValue, VaultError>(e),
            None => r is Ok || r == Err::<SecretValue, VaultError>(VaultError::NotFound),
        }
    }

    /// A failing vault answers with its error; any other removes or gives `NotFound`.
    open spec fn removes(&self, reference: Seq<char>, r: Result<(), VaultError>) -> bool {
        match self.failure() {
            Some(e) => r == Err::<(), VaultError>(e),
            None => r is Ok || r == Err::<(), VaultError>(VaultError::NotFound),
        }
    }

    fn store(&self, reference: &SecretRef, secret: &SecretValue) -> (r: Result<(), VaultError>)
        ensures
            self.failure() matches Some(e) ==> r == Err::<(), VaultError>(e),
            self.failure() is None ==> r is Ok,
    {
        if let Some(error) = &self.fail_with {
            return Err(error.duplicate());
        }
        let mut entries = self.values.replace(Vec::new());
        let ghost before = entries@;
        let entry = (reference.as_str().to_owned(), secret.expose().to_owned());
        match Self::position(&entries, reference) {
            Some(i) => {
                entries.set(i, entry);
                assert(references_unique(entries@)) by {
                    assert forall|a: int, b: int| 0 <= a < b < entries@.len() implies (
                    #[trigger] entries@[a]).0@ != (#[trigger] entries@[b]).0@ by {
                        if a != i as int && b != i as int {
                            assert(entries@[a] == before[a] && entries@[b] == before[b]);
                        } else if a == i as int {
                            assert(entries@[b] == before[b]);
                        } else {
                            assert(entries@[a] == before[a]);
                        }
                    }
                }
            },
            None => {
                entries.push(entry);
                assert(references_unique(entries@)) by {
                    assert forall|a: int, b: int| 0 <= a < b < entries@.len() implies (
                    #[trigger] entries@[a]).0@ != (#[trigger] entries@[b]).0@ by {
                        assert(entries@[a] == before[a]);
                        if b < before.len() {
                            assert(entries@[b] == before[b]);
                        }
                    }
                }
            },
        }
        self.values.set(entries);
        Ok(())
    }

    fn read(&self, reference: &SecretRef) -> (r: Result<SecretValue, VaultError>)
        ensures
            self.failure() matches Some(e) ==> r == Err::<SecretValue, VaultError>(e),
            self.failure() is None ==> (r is Ok || r == Err::<SecretValue, VaultError>(
                VaultError::NotFound,
            )),
    {
        if let Some(error) = &self.fail_with {
            return Err(error.duplicate());
        }
        let entries = self.values.replace(Vec::new());
        let found = match Self::position(&entries, reference) {
            Some(i) => Ok(SecretValue::new(entries[i].1.as_str())),
            None => Err(VaultError::NotFound),
        };
        self.values.set(entries);
        found
    }

    fn remove(&self, reference: &SecretRef) -> (r: Result<(), VaultError>)
        ensures
            self.failure() matches Some(e) ==> r == Err::<(), VaultError>(e),
            self.failure() is None ==> (r is Ok || r == Err::<(), VaultError>(
                VaultError::NotFound,
            )),
    {
        if let Some(error) = &self.fail_with {
            return Err(error.duplicate());
        }
        let mut entries = self.values.replace(Vec::new());
        let ghost before = entries@;
        let found = match Self::position(&entries, reference) {
            Some(i) => {
                entries.remove(i);
                assert(references_unique(entries@)) by {
                    assert forall|a: int, b: int| 0 <= a < b < entries@.len() implies (
                    #[trigger] entries@[a]).0@ != (#[trigger] entries@[b]).0@ by {
                        if b < i {
                            assert(entries@[a] == before[a] && entries@[b] == before[b]);
                        } else if a < i {
                            assert(entries@[a] == before[a] && entries@[b] == before[b + 1]);
                        } else {
                            assert(entries@[a] == before[a + 1] && entries@[b] == before[b + 1]);
                        }
                    }
                }
                Ok(())
            },
            None => Err(VaultError::NotFound),
        };
        self.values.set(entries);
        found
    }
}

#[derive(Clone, Debug, PartialEq, Eq)]
pub enum SecretServiceError {
    Vault(VaultError),
    Repository(RepositoryError),
}

/// Whether a vault removal settles the cleanup of a reference: it was removed or was already gone.
pub open spec fn removal_settles(result: Result<(), VaultError>) -> bool {
    result is Ok || result == Err::<(), VaultError>(VaultError::NotFound)
}

/// Whether the queue is cleared of a reference, given what the store said of it and, for
/// an unreferenced one, the vault's removal: a reference in use again, or a secret that is
/// removed or already gone.
pub open spec fn completion_asked(
    referenced: Result<bool, RepositoryError>,
    removal: Option<Result<(), VaultError>>,
) -> bool {
    ||| referenced == Ok::<bool, RepositoryError>(true)
    ||| referenced == Ok::<bool, RepositoryError>(false) && (removal matches Some(v) && removal_settles(v))
}

/// What removing an orphaned secret gives, from the answers it gets: whether the store
/// still references it, the vault's removal (asked only for an unreferenced one), and the
/// clearing of the queue (asked only as `completion_asked` says).
pub open spec fn orphan_outcome(
    referenced: Result<bool, RepositoryError>,
    removal: Option<Result<(), VaultError>>,
    completion: Option<Result<(), RepositoryError>>,
) -> Result<bool, SecretServiceError> {
    match referenced {
        Err(e) => Err(SecretServiceError::Repository(e)),
        Ok(true) => match completion {
            Some(Err(e)) => Err(SecretServiceError::Repository(e)),
            _ => Ok(false),
        },
        Ok(false) => match removal {
            Some(Err(e)) => if e == VaultError::NotFound {
                match completion {
                    Some(Err(c)) => Err(SecretServiceError::Repository(c)),
                    _ => Ok(true),
                }
            } else {
                Err(SecretServiceError::Vault(e))
            },
            _ => match completion {
                Some(Err(c)) => Err(SecretServiceError::Repository(c)),
                _ => Ok(true),
            },
        },
    }
}

/// The result of removing an orphaned secret, from the answers it got.
pub fn orphan_outcome_of(
    referenced: Result<bool, RepositoryError>,
    removal: Option<Result<(), VaultError>>,
    completion: Option<Result<(), RepositoryError>>,
) -> (r: Result<bool, SecretServiceError>)
    ensures
        r == orphan_outcome(referenced, removal, completion),
{
    match referenced {
        Err(e) => Err(SecretServiceError::Repository(e)),
        Ok(true) => match completion {
            Some(Err(e)) => Err(SecretServiceError::Repository(e)),
            _ => Ok(false),
        },
        Ok(false) => match removal {
            Some(Err(e)) => match e {
                VaultError::NotFound => match completion {
                    Some(Err(c)) => Err(SecretServiceError::Repository(c)),
                    _ => Ok(true),
                },
                _ => Err(SecretServiceError::Vault(e)),
            },
            _ => match completion {
                Some(Err(c)) => Err(SecretServiceError::Repository(c)),
                _ => Ok(true),
            },
        },
    }
}

/// The answers removing an orphaned `reference` got, each for that reference: the
/// store's check, the vault's removal (asked only for an unreferenced one) and the
/// clearing of the queue (asked only as `completion_asked` says).
pub open spec fn orphan_answers_of<V: SecretVault, R: CredentialCleanupRepository>(
    vault: &V,
    cleanup: &R,
    reference: Seq<char>,
    referenced: Result<bool, RepositoryError>,
    removal: Option<Result<(), VaultError>>,
    completion: Option<Result<(), RepositoryError>>,
) -> bool {
    &&& cleanup.checks_reference(reference, referenced)
    &&& (removal is Some <==> referenced == Ok::<bool, RepositoryError>(false))
    &&& (removal matches Some(v) ==> vault.removes(reference, v))
    &&& (completion is Some <==> completion_asked(referenced, removal))
    &&& (completion matches Some(c) ==> cleanup.completes_cleanup(reference, c))
}

/// `outcome` is what removing an orphaned `reference` gives on some answers to the
/// requests it makes for that reference.
pub open spec fn orphan_result_of<V: SecretVault, R: CredentialCleanupRepository>(
    vault: &V,
    cleanup: &R,
    reference: Seq<char>,
    outcome: Result<bool, SecretServiceError>,
) -> bool {
    exists|
        referenced: Result<bool, RepositoryError>,
        removal: Option<Result<(), VaultError>>,
        completion: Option<Result<(), RepositoryError>>,
    |
        #[trigger] orphan_outcome(referenced, removal, completion) == outcome && orphan_answers_of(
            vault,
            cleanup,
            reference,
            referenced,
            removal,
            completion,
        )
}

/// A run of the cleanup: the store's listing of the queue, then one outcome per listed
/// reference in order, each of removing that reference, up to the first failure.
pub open spec fn cleanup_run_of<V: SecretVault, R: CredentialCleanupRepository>(
    vault: &V,
    cleanup: &R,
    listed: Result<Vec<CredentialRef>, RepositoryError>,
    outcomes: Seq<Result<bool, SecretServiceError>>,
) -> bool {
    &&& cleanup.lists_pending(listed)
    &&& match listed {
        Err(_) => outcomes.len() == 0,
        Ok(refs) => {
            &&& outcomes.len() <= refs@.len()
            &&& forall|i: int| 0 <= i < outcomes.len() ==> orphan_result_of(vault, cleanup, refs@[i]@, #[trigger] outcomes[i])
            &&& forall|i: int| 0 <= i < outcomes.len() - 1 ==> (#[trigger] outcomes[i]) is Ok
            &&& outcomes.len() < refs@.len() ==> outcomes.len() > 0 && outcomes.last() is Err
        },
    }
}

/// The vault and store were asked to clean up the pending references.
pub open spec fn cleanup_asked<V: SecretVault, R: CredentialCleanupRepository>(vault: &V, cleanup: &R) -> bool {
    exists|listed: Result<Vec<CredentialRef>, RepositoryError>, outcomes: Seq<Result<bool, SecretServiceError>>|
        #[trigger] cleanup_run_of(vault, cleanup, listed, outcomes)
}

/// Stores secrets and removes those no Host references any more.
pub struct SecretService<'a, V, R> {
    vault: &'a V,
    cleanup: &'a R,
}

impl<'a, V: SecretVault, R: CredentialCleanupRepository> SecretService<'a, V, R> {
    /// The vault the service stores in and removes from.
    pub closed spec fn held_vault(&self) -> &'a V {
        self.vault
    }

    /// The store whose cleanup queue the service works through.
    pub closed spec fn held_cleanup(&self) -> &'a R {
        self.cleanup
    }

    pub fn new(vault: &'a V, cleanup: &'a R) -> (s: Self)
        ensures
            s.held_vault() == vault,
            s.held_cleanup() == cleanup,
    {
        SecretService { vault, cleanup }
    }

    /// The answers removing an orphaned `reference` got, each for that reference.
    pub open spec fn orphan_answers(
        &self,
        reference: Seq<char>,
        referenced: Result<bool, RepositoryError>,
        removal: Option<Result<(), VaultError>>,
        completion: Option<Result<(), RepositoryError>>,
    ) -> bool {
        orphan_answers_of(self.held_vault(), self.held_cleanup(), reference, referenced, removal, completion)
    }

    /// `outcome` is what removing an orphaned `reference` gives on some answers to the
    /// requests it makes for that reference.
    pub open spec fn orphan_result_for(&self, reference: Seq<char>, outcome: Result<bool, SecretServiceError>) -> bool {
        orphan_result_of(self.held_vault(), self.held_cleanup(), reference, outcome)
    }

    /// A run of the cleanup with this service's vault and store.
    pub open spec fn cleanup_run(
        &self,
        listed: Result<Vec<CredentialRef>, RepositoryError>,
        outcomes: Seq<Result<bool, SecretServiceError>>,
    ) -> bool {
        cleanup_run_of(self.held_vault(), self.held_cleanup(), listed, outcomes)
    }

    /// Stores the secret in the vault; a vault failure is reported, never worked around.
    pub fn store(&self, reference: &SecretRef, secret: &SecretValue) -> (r: Result<(), SecretServiceError>)
        ensures
            r is Ok || r is Err && r->Err_0 is Vault,
            exists|answer: Result<(), VaultError>|
                self.held_vault().stores(reference@, secret@, answer) && r == #[trigger] vault_store_result(answer),
    {
        let answer = self.vault.store(reference, secret);
        let ghost got = answer;
        let res = match answer {
            Ok(()) => Ok(()),
            Err(e) => Err(SecretServiceError::Vault(e)),
        };
        assert(res == vault_store_result(got));
        res
    }

    /// Removes the secret of a reference no Host uses and clears it from the cleanup queue.
    /// A reference in use again only leaves the queue (`Ok(false)`); a removed or already
    /// missing secret gives `Ok(true)`; any other vault failure keeps it queued.
    pub fn remove_if_orphaned(&self, reference: &SecretRef) -> (r: Result<bool, SecretServiceError>)
        ensures
            r matches Err(SecretServiceError::Vault(e)) ==> e != VaultError::NotFound,
            self.orphan_result_for(reference@, r),
    {
        let referenced = self.cleanup.is_credential_referenced(reference);
        let removal = match &referenced {
            Ok(false) => Some(self.vault.remove(reference)),
            _ => None,
        };
        let asked = match &referenced {
            Ok(true) => true,
            Ok(false) => match &removal {
                Some(v) => removal_outcome_settles(v),
                None => false,
            },
            Err(_) => false,
        };
        let completion = if asked {
            Some(self.cleanup.complete_credential_cleanup(reference))
        } else {
            None
        };
        let ghost answers = (referenced, removal, completion);
        let res = orphan_outcome_of(referenced, removal, completion);
        assert(orphan_outcome(answers.0, answers.1, answers.2) == res && self.orphan_answers(
            reference@,
            answers.0,
            answers.1,
            answers.2,
        ));
        res
    }

    /// Runs `remove_if_orphaned` over the queue in order, stopping at the first failure;
    /// returns how many secrets were removed.
    pub fn cleanup_pending(&self) -> (r: Result<usize, SecretServiceError>)
        ensures
            r matches Err(SecretServiceError::Vault(e)) ==> e != VaultError::NotFound,
            exists|listed: Result<Vec<CredentialRef>, RepositoryError>, outcomes: Seq<Result<bool, SecretServiceError>>|
                #[trigger] self.cleanup_run(listed, outcomes) && count_view(r) == match listed {
                    Err(e) => Err(SecretServiceError::Repository(e)),
                    Ok(_) => removal_count(outcomes),
                },
    {
        let listed = self.cleanup.list_pending_credential_cleanup();
        let ghost listing = listed;
        let references = match listed {
            Ok(v) => v,
            Err(e) => {
                let res: Result<usize, SecretServiceError> = Err(SecretServiceError::Repository(e));
                assert(self.cleanup_run(listing, Seq::empty()));
                return res;
            },
        };
        let mut outcomes: Vec<Result<bool, SecretServiceError>> = Vec::new();
        let mut failed = false;
        let mut i: usize = 0;
        while i < references.len() && !failed
            invariant
                i <= references@.len(),
                outcomes@.len() == i,
                no_missing_vault_error(outcomes@),
                forall|j: int| 0 <= j < i ==> self.orphan_result_for(references@[j]@, #[trigger] outcomes@[j]),
                forall|j: int| 0 <= j < i - 1 ==> (#[trigger] outcomes@[j]) is Ok,
                failed ==> i > 0 && outcomes@.last() is Err,
                !failed ==> forall|j: int| 0 <= j < i ==> (#[trigger] outcomes@[j]) is Ok,
            decreases references@.len() - i,
        {
            let outcome = self.remove_if_orphaned(&references[i]);
            failed = outcome.is_err();
            outcomes.push(outcome);
            i += 1;
        }
        let ghost seen = outcomes@;
        assert(self.cleanup_run(listing, seen));
        let res = count_removed(outcomes);
        proof {
            lemma_removal_error_from(seen);
        }
        assert(removal_count(seen) == count_view(res) && no_missing_vault_error(seen));
        res
    }
}

/// What storing a secret reports on the vault's answer.
pub open spec fn vault_store_result(answer: Result<(), VaultError>) -> Result<(), SecretServiceError> {
    match answer {
        Ok(()) => Ok(()),
        Err(e) => Err(SecretServiceError::Vault(e)),
    }
}

/// How many secrets a run of removals removed: the number of `Ok(true)` outcomes, or the
/// first failure.
pub open spec fn removal_count(outcomes: Seq<Result<bool, SecretServiceError>>) -> Result<nat, SecretServiceError>
    decreases outcomes.len(),
{
    if outcomes.len() == 0 {
        Ok(0)
    } else {
        match removal_count(outcomes.drop_last()) {
            Err(e) => Err(e),
            Ok(n) => match outcomes.last() {
                Err(e) => Err(e),
                Ok(true) => Ok(n + 1),
                Ok(false) => Ok(n),
            },
        }
    }
}

/// A count result by its mathematical value.
pub open spec fn count_view(r: Result<usize, SecretServiceError>) -> Result<nat, SecretServiceError> {
    match r {
        Ok(n) => Ok(n as nat),
        Err(e) => Err(e),
    }
}

/// No outcome is a vault failure for a secret that was already gone.
pub open spec fn no_missing_vault_error(outcomes: Seq<Result<bool, SecretServiceError>>) -> bool {
    forall|i: int| 0 <= i < outcomes.len() ==> !((#[trigger] outcomes[i]) matches Err(SecretServiceError::Vault(e)) && e == VaultError::NotFound)
}

proof fn lemma_removal_error_from(s: Seq<Result<bool, SecretServiceError>>)
    ensures
        removal_count(s) matches Err(e) ==> exists|i: int| 0 <= i < s.len() && #[trigger] s[i] == Err::<bool, SecretServiceError>(e),
    decreases s.len(),
{
    if s.len() > 0 {
        lemma_removal_error_from(s.drop_last());
        if removal_count(s.drop_last()) is Err {
            let e = removal_count(s.drop_last())->Err_0;
            let i = choose|i: int| 0 <= i < s.drop_last().len() && #[trigger] s.drop_last()[i] == Err::<bool, SecretServiceError>(e);
            assert(s[i] == s.drop_last()[i]);
        } else {
            assert(s[s.len() - 1] == s.last());
        }
    }
}

proof fn lemma_removal_error_stays(s: Seq<Result<bool, SecretServiceError>>, k: int, e: SecretServiceError)
    requires
        0 <= k <= s.len(),
        removal_count(s.take(k)) == Err::<nat, SecretServiceError>(e),
    ensures
        removal_count(s) == Err::<nat, SecretServiceError>(e),
    decreases s.len() - k,
{
    if k == s.len() {
        assert(s.take(k) =~= s);
    } else {
        assert(s.drop_last().take(k) =~= s.take(k));
        lemma_removal_error_stays(s.drop_last(), k, e);
    }
}

/// The count of removed secrets over the outcomes of a run of removals, in order: the
/// number of `Ok(true)` before the first failure, or that failure.
pub fn count_removed(outcomes: Vec<Result<bool, SecretServiceError>>) -> (r: Result<usize, SecretServiceError>)
    ensures
        count_view(r) == removal_count(outcomes@),
{
    let ghost all = outcomes@;
    let mut rest = outcomes;
    let mut count: usize = 0;
    let ghost mut k: int = 0;
    let total = rest.len();
    assert(all.len() == total);
    assert(all.take(0) =~= Seq::<Result<bool, SecretServiceError>>::empty());
    while rest.len() > 0
        invariant
            all == outcomes@,
            all.len() <= usize::MAX,
            0 <= k <= all.len(),
            rest@ == all.skip(k),
            count <= k,
            removal_count(all.take(k)) == Ok::<nat, SecretServiceError>(count as nat),
        decreases rest@.len(),
    {
        let outcome = rest.remove(0);
        assert(outcome == all[k]);
        assert(all.take(k + 1).drop_last() =~= all.take(k));
        assert(all.take(k + 1).last() == all[k]);
        match outcome {
            Ok(true) => {
                count += 1;
            },
            Ok(false) => {},
            Err(e) => {
                proof {
                    assert(removal_count(all.take(k + 1)) == Err::<nat, SecretServiceError>(e));
                    lemma_removal_error_stays(all, k + 1, e);
                }
                let res: Result<usize, SecretServiceError> = Err(e);
                assert(count_view(res) == removal_count(all));
                return res;
            },
        }
        proof {
            k = k + 1;
        }
        assert(rest@ =~= all.skip(k));
    }
    assert(all.take(k) =~= all);
    Ok(count)
}

/// Whether a vault removal result settles the cleanup.
pub fn removal_outcome_settles(result: &Result<(), VaultError>) -> (r: bool)
    ensures
        r == removal_settles(*result),
{
    match result {
        Ok(()) => true,
        Err(VaultError::NotFound) => true,
        Err(_) => false,
    }
}

} // verus!
