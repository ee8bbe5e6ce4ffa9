//! The desktop commands over the configuration stores: identifiers in public text form,
//! answers as interface data, and storage failures reported without detail.
use vstd::prelude::*;
use crate::desktop::{
    group_dto_of, host_dto_of, recent_limit, recent_limit_of, removal_policy, repository_error,
    repository_error_message, HostDto, HostGroupDto,
};
use crate::domain::{CredentialRef, Host, HostGroup, Timestamp};
use crate::ids::{spec_uuid_parse, GroupId, HostId};
use crate::portability::{
    entries_view, host_names, ignored_views, is_workspace_export, is_workspace_preview, openssh_import,
    parse_openssh_config, preview_workspace, settings_view, workspace_export, ImportPreview,
    WorkspaceExport, EXPORT_SCHEMA_VERSION,
};
use crate::repositories::{
    CredentialCleanupRepository, GroupRepository, HostQuery, HostRepository, RecentHost,
    RecentHostRepository, RepositoryError, Setting, SettingsRepository,
};
use crate::text::trim;
use crate::vault::{cleanup_asked, SecretService, SecretVault};

verus! {

/// The two texts a storage failure is reported with.
pub open spec fn repository_message(m: Seq<char>) -> bool {
    m == "group still contains hosts; choose to move them first"@ || m == "could not update OwnTerm storage"@
}

/// `v` lists the interface forms of the Hosts of `hosts`, in order.
pub open spec fn host_dtos_of(hosts: Seq<Host>, v: Seq<HostDto>) -> bool {
    &&& v.len() == hosts.len()
    &&& forall|i: int| 0 <= i < hosts.len() ==> host_dto_of(#[trigger] hosts[i], v[i])
}

/// `v` lists the interface forms of the groups of `groups`, in order.
pub open spec fn group_dtos_of(groups: Seq<HostGroup>, v: Seq<HostGroupDto>) -> bool {
    &&& v.len() == groups.len()
    &&& forall|i: int| 0 <= i < groups.len() ==> group_dto_of(#[trigger] groups[i], v[i])
}

fn dtos_of(hosts: Vec<Host>) -> (r: Vec<HostDto>)
    ensures
        host_dtos_of(hosts@, r@),
{
    let mut r: Vec<HostDto> = Vec::new();
    let mut rest = hosts;
    let ghost all = rest@;
    while rest.len() > 0
        invariant
            r@.len() + rest@.len() == all.len(),
            rest@ == all.skip(r@.len() as int),
            forall|j: int| 0 <= j < r@.len() ==> host_dto_of(#[trigger] all[j], r@[j]),
        decreases rest@.len(),
    {
        let ghost k = r@.len() as int;
        let h = rest.remove(0);
        assert(h == all[k]);
        assert(rest@ =~= all.skip(k + 1));
        r.push(HostDto::from_host(h));
    }
    r
}

/// `r` reports the storage failure `e` as the interface is told of it.
pub open spec fn storage_failure<T>(r: Result<T, String>, e: RepositoryError) -> bool {
    r matches Err(m) && m@ == repository_error_message(e)
}

/// `r` is what the interface is told of the store's answer `a` to a request that gives
/// nothing back.
pub open spec fn unit_answer(a: Result<(), RepositoryError>, r: Result<(), String>) -> bool {
    match a {
        Ok(()) => r is Ok,
        Err(e) => storage_failure(r, e),
    }
}

/// The query for the Hosts whose text matches `search`, in every group; with no search
/// text, every Host.
pub open spec fn search_query(search: Option<String>) -> HostQuery {
    HostQuery { search, group_id: None, favorites_only: false }
}

/// `r` is what the interface is told of the store's answer `a` to a listing of Hosts.
pub open spec fn host_listing(a: Result<Vec<Host>, RepositoryError>, r: Result<Vec<HostDto>, String>) -> bool {
    match a {
        Ok(hosts) => r matches Ok(v) && host_dtos_of(hosts@, v@),
        Err(e) => storage_failure(r, e),
    }
}

/// Lists the Hosts that match `search`, as interface data.
pub fn list_hosts<S: HostRepository>(store: &S, search: Option<String>) -> (r: Result<Vec<HostDto>, String>)
    ensures
        r matches Err(m) ==> repository_message(m@),
        exists|a: Result<Vec<Host>, RepositoryError>|
            #[trigger] store.lists_hosts(search_query(search), a) && host_listing(a, r),
{
    let ghost asked = search_query(search);
    let query = HostQuery { search, group_id: None, favorites_only: false };
    let answer = store.list_hosts(&query);
    let ghost a = answer;
    let res: Result<Vec<HostDto>, String> = match answer {
        Ok(hosts) => Ok(dtos_of(hosts)),
        Err(e) => Err(repository_error(e)),
    };
    assert(store.lists_hosts(asked, a) && host_listing(a, res));
    res
}

/// The Hosts that `get_host` answers name, in order, skipping those that are gone; the
/// first failed answer is the result instead.
pub open spec fn recent_hosts(answers: Seq<Result<Option<Host>, RepositoryError>>) -> Result<Seq<Host>, RepositoryError>
    decreases answers.len(),
{
    if answers.len() == 0 {
        Ok(Seq::empty())
    } else {
        match recent_hosts(answers.drop_last()) {
            Err(e) => Err(e),
            Ok(hs) => match answers.last() {
                Err(e) => Err(e),
                Ok(Some(h)) => Ok(hs.push(h)),
                Ok(None) => Ok(hs),
            },
        }
    }
}

/// `r` is the recent-Hosts answer for the `get_host` answers: the interface forms of the
/// Hosts still there, or the message of the first failure.
pub open spec fn recent_listing(answers: Seq<Result<Option<Host>, RepositoryError>>, r: Result<Vec<HostDto>, String>) -> bool {
    match recent_hosts(answers) {
        Err(e) => r matches Err(m) && m@ == repository_error_message(e),
        Ok(hs) => r matches Ok(v) && host_dtos_of(hs, v@),
    }
}

proof fn lemma_recent_error_stays(s: Seq<Result<Option<Host>, RepositoryError>>, k: int, e: RepositoryError)
    requires
        0 <= k <= s.len(),
        recent_hosts(s.take(k)) == Err::<Seq<Host>, RepositoryError>(e),
    ensures
        recent_hosts(s) == Err::<Seq<Host>, RepositoryError>(e),
    decreases s.len() - k,
{
    if k == s.len() {
        assert(s.take(k) =~= s);
    } else {
        assert(s.drop_last().take(k) =~= s.take(k));
        lemma_recent_error_stays(s.drop_last(), k, e);
    }
}

/// The recent-Hosts answer from the `get_host` answers for the recent entries, in order.
pub fn recent_dtos(answers: Vec<Result<Option<Host>, RepositoryError>>) -> (r: Result<Vec<HostDto>, String>)
    ensures
        recent_listing(answers@, r),
{
    let ghost all = answers@;
    let mut rest = answers;
    let mut hosts: Vec<HostDto> = Vec::new();
    let ghost mut found: Seq<Host> = Seq::empty();
    let ghost mut k: int = 0;
    assert(all.take(0) =~= Seq::<Result<Option<Host>, RepositoryError>>::empty());
    while rest.len() > 0
        invariant
            all == answers@,
            0 <= k <= all.len(),
            rest@ == all.skip(k),
            recent_hosts(all.take(k)) == Ok::<Seq<Host>, RepositoryError>(found),
            host_dtos_of(found, hosts@),
        decreases rest@.len(),
    {
        let answer = rest.remove(0);
        assert(answer == all[k]);
        assert(all.take(k + 1).drop_last() =~= all.take(k));
        assert(all.take(k + 1).last() == all[k]);
        match answer {
            Ok(Some(host)) => {
                proof {
                    found = found.push(host);
                }
                hosts.push(HostDto::from_host(host));
            },
            Ok(None) => {},
            Err(e) => {
                proof {
                    assert(recent_hosts(all.take(k + 1)) == Err::<Seq<Host>, RepositoryError>(e));
                    lemma_recent_error_stays(all, k + 1, e);
                }
                let res: Result<Vec<HostDto>, String> = Err(repository_error(e));
                assert(res->Err_0@ == repository_error_message(e));
                assert(recent_hosts(all) == Err::<Seq<Host>, RepositoryError>(e));
                assert(recent_listing(all, res));
                return res;
            },
        }
        proof {
            k = k + 1;
        }
        assert(rest@ =~= all.skip(k));
    }
    assert(all.take(k) =~= all);
    Ok(hosts)
}

/// `answers` are the store's answers to looking up the Hosts of the entries `recent`, one
/// per entry in order, up to and including the first failure.
pub open spec fn recent_lookups<S: HostRepository>(
    store: &S,
    recent: Seq<RecentHost>,
    answers: Seq<Result<Option<Host>, RepositoryError>>,
) -> bool {
    &&& answers.len() <= recent.len()
    &&& forall|i: int| 0 <= i < answers.len() ==> store.finds_host(recent[i].host_id, #[trigger] answers[i])
    &&& forall|i: int| 0 <= i < answers.len() - 1 ==> (#[trigger] answers[i]) is Ok
    &&& answers.len() < recent.len() ==> answers.len() > 0 && answers.last() is Err
}

/// `r` is the recent-Hosts answer from the store's listing `listed` of the recent entries
/// and its lookups `answers` of their Hosts.
pub open spec fn recent_outcome<S: HostRepository>(
    store: &S,
    listed: Result<Vec<RecentHost>, RepositoryError>,
    answers: Seq<Result<Option<Host>, RepositoryError>>,
    r: Result<Vec<HostDto>, String>,
) -> bool {
    match listed {
        Err(e) => storage_failure(r, e),
        Ok(recent) => recent_lookups(store, recent@, answers) && recent_listing(answers, r),
    }
}

/// Lists the most recently opened Hosts that still exist, at most `recent_limit(limit)`
/// of them asked for, in the order the store gives them.
pub fn list_recent_hosts<S: HostRepository + RecentHostRepository>(store: &S, limit: Option<usize>) -> (r: Result<
    Vec<HostDto>,
    String,
>)
    ensures
        r matches Err(m) ==> repository_message(m@),
        exists|listed: Result<Vec<RecentHost>, RepositoryError>, answers: Seq<Result<Option<Host>, RepositoryError>>|
            #[trigger] recent_outcome(store, listed, answers, r) && store.lists_recent(
                recent_limit_of(limit),
                listed,
            ),
{
    let listed = store.list_recent(recent_limit(limit));
    let ghost listed_answer = listed;
    let recent = match listed {
        Ok(v) => v,
        Err(e) => {
            let res: Result<Vec<HostDto>, String> = Err(repository_error(e));
            let ghost none: Seq<Result<Option<Host>, RepositoryError>> = Seq::empty();
            assert(recent_outcome(store, listed_answer, none, res));
            return res;
        },
    };
    let mut answers: Vec<Result<Option<Host>, RepositoryError>> = Vec::new();
    let mut failed = false;
    let mut i: usize = 0;
    while i < recent.len() && !failed
        invariant
            i <= recent@.len(),
            answers@.len() == i,
            forall|j: int| 0 <= j < i ==> store.finds_host(recent@[j].host_id, #[trigger] answers@[j]),
            forall|j: int| 0 <= j < i - 1 ==> (#[trigger] answers@[j]) is Ok,
            failed <==> (i > 0 && answers@[i - 1] is Err),
        decreases recent@.len() - i,
    {
        let answer = store.get_host(recent[i].host_id);
        failed = answer.is_err();
        answers.push(answer);
        i += 1;
    }
    let ghost seen = answers@;
    assert(recent_lookups(store, recent@, seen));
    let res = recent_dtos(answers);
    assert(recent_outcome(store, listed_answer, seen, res));
    res
}

/// The interface forms of groups, in order.
pub fn group_dtos(groups: Vec<HostGroup>) -> (r: Vec<HostGroupDto>)
    ensures
        group_dtos_of(groups@, r@),
{
    let mut r: Vec<HostGroupDto> = Vec::new();
    let mut rest = groups;
    let ghost all = rest@;
    while rest.len() > 0
        invariant
            r@.len() + rest@.len() == all.len(),
            rest@ == all.skip(r@.len() as int),
            forall|j: int| 0 <= j < r@.len() ==> group_dto_of(#[trigger] all[j], r@[j]),
        decreases rest@.len(),
    {
        let ghost k = r@.len() as int;
        let g = rest.remove(0);
        assert(g == all[k]);
        assert(rest@ =~= all.skip(k + 1));
        r.push(HostGroupDto::from_group(g));
    }
    r
}

/// `r` is what the interface is told of the store's answer `a` to a listing of groups.
pub open spec fn group_listing(a: Result<Vec<HostGroup>, RepositoryError>, r: Result<Vec<HostGroupDto>, String>) -> bool {
    match a {
        Ok(groups) => r matches Ok(v) && group_dtos_of(groups@, v@),
        Err(e) => storage_failure(r, e),
    }
}

/// Lists the Host groups, as interface data.
pub fn list_host_groups<S: GroupRepository>(store: &S) -> (r: Result<Vec<HostGroupDto>, String>)
    ensures
        r matches Err(m) ==> repository_message(m@),
        exists|a: Result<Vec<HostGroup>, RepositoryError>| #[trigger] store.lists_groups(a) && group_listing(a, r),
{
    let answer = store.list_groups();
    let ghost a = answer;
    let res: Result<Vec<HostGroupDto>, String> = match answer {
        Ok(groups) => Ok(group_dtos(groups)),
        Err(e) => Err(repository_error(e)),
    };
    assert(store.lists_groups(a) && group_listing(a, res));
    res
}

/// What the interface sends to save a group.
#[derive(Clone, Debug)]
pub struct SaveGroupRequest {
    pub id: Option<String>,
    pub name: String,
    pub sort_order: i32,
}

/// The request names no group it cannot parse, and its name is not blank.
pub open spec fn group_request_valid(request: SaveGroupRequest) -> bool {
    &&& !(request.id is Some && spec_uuid_parse(request.id->0@) is None)
    &&& trim(request.name@).len() > 0
}

/// `g` is the group `request` describes, and `a` the store's answer to saving it: the
/// update of the group the request names, or the creation of a new one.
pub open spec fn group_saved<S: GroupRepository>(
    store: &S,
    request: SaveGroupRequest,
    g: HostGroup,
    a: Result<(), RepositoryError>,
) -> bool {
    &&& g.name@ == trim(request.name@)
    &&& g.sort_order == request.sort_order
    &&& match request.id {
        Some(text) => spec_uuid_parse(text@) == Some(g.id@) && store.updates_group(g, a),
        None => store.creates_group(g, a),
    }
}

/// `r` is what the interface is told when the store answered `a` to saving `g`.
pub open spec fn group_save_answer(g: HostGroup, a: Result<(), RepositoryError>, r: Result<HostGroupDto, String>) -> bool {
    match a {
        Ok(()) => r matches Ok(d) && group_dto_of(g, d),
        Err(e) => storage_failure(r, e),
    }
}

/// Creates a group, or renames and reorders the one the request names.
pub fn save_host_group<S: GroupRepository>(store: &S, request: SaveGroupRequest) -> (r: Result<HostGroupDto, String>)
    ensures
        request.id is Some && spec_uuid_parse(request.id->0@) is None ==> (r matches Err(m) && m@
            == "invalid group id"@),
        !(request.id is Some && spec_uuid_parse(request.id->0@) is None) && trim(request.name@).len() == 0
            ==> (r matches Err(m) && m@ == "group_name must not be empty"@),
        group_request_valid(request) ==> exists|g: HostGroup, a: Result<(), RepositoryError>|
            #[trigger] group_saved(store, request, g, a) && group_save_answer(g, a, r),
{
    proof {
        reveal_strlit("group_name");
        reveal_strlit(" must not be empty");
        reveal_strlit("group_name must not be empty");
    }
    let ghost req = request;
    let built = match &request.id {
        Some(text) => match GroupId::parse(text.as_str()) {
            Some(id) => HostGroup::rehydrate(id, request.name.as_str(), request.sort_order),
            None => {
                return Err(String::from_str("invalid group id"));
            },
        },
        None => HostGroup::new(request.name.as_str(), request.sort_order),
    };
    let group = match built {
        Ok(g) => g,
        Err(e) => {
            return Err(e.message());
        },
    };
    let saved = if request.id.is_some() {
        store.update_group(&group)
    } else {
        store.create_group(&group)
    };
    let ghost g = group;
    let ghost a = saved;
    let res: Result<HostGroupDto, String> = match saved {
        Ok(()) => Ok(HostGroupDto::from_group(group)),
        Err(e) => Err(repository_error(e)),
    };
    assert(group_saved(store, req, g, a) && group_save_answer(g, a, res));
    res
}

/// Removes a group; its Hosts are moved out only when asked, otherwise a non-empty group
/// stays.
pub fn delete_host_group<S: GroupRepository>(store: &S, id: &str, move_hosts_to_ungrouped: bool) -> (r: Result<
    (),
    String,
>)
    ensures
        spec_uuid_parse(id@) is None ==> (r matches Err(m) && m@ == "invalid group id"@),
        r is Err && spec_uuid_parse(id@) is Some ==> repository_message(r->Err_0@),
        spec_uuid_parse(id@) matches Some(v) ==> exists|group: GroupId, a: Result<(), RepositoryError>|
            group@ == v && #[trigger] store.deletes_group(group, removal_policy(move_hosts_to_ungrouped), a)
                && unit_answer(a, r),
{
    let id = match GroupId::parse(id) {
        Some(g) => g,
        None => {
            return Err(String::from_str("invalid group id"));
        },
    };
    let policy = crate::desktop::group_removal(move_hosts_to_ungrouped);
    let answer = store.delete_group(id, policy);
    let ghost a = answer;
    let res: Result<(), String> = match answer {
        Ok(()) => Ok(()),
        Err(e) => Err(repository_error(e)),
    };
    assert(store.deletes_group(id, removal_policy(move_hosts_to_ungrouped), a) && unit_answer(a, res));
    res
}

/// `r` is what the interface is told when the store answered `a` to removing a Host: a
/// failure as such; after a removal, the vault and the store were asked to clean up the
/// references no Host uses any more, whatever that cleanup found.
pub open spec fn host_removal_answer<V: SecretVault, S: CredentialCleanupRepository>(
    vault: &V,
    store: &S,
    a: Result<Vec<CredentialRef>, RepositoryError>,
    r: Result<(), String>,
) -> bool {
    match a {
        Ok(_) => r is Ok && cleanup_asked(vault, store),
        Err(e) => storage_failure(r, e),
    }
}

/// Removes a Host, then removes from the vault every secret no Host uses any more.
pub fn delete_host<V: SecretVault, S: HostRepository + CredentialCleanupRepository>(vault: &V, store: &S, id: &str) -> (r:
    Result<(), String>)
    ensures
        spec_uuid_parse(id@) is None ==> (r matches Err(m) && m@ == "invalid host id"@),
        r is Err && spec_uuid_parse(id@) is Some ==> repository_message(r->Err_0@),
        spec_uuid_parse(id@) matches Some(v) ==> exists|host: HostId, a: Result<Vec<CredentialRef>, RepositoryError>|
            host@ == v && #[trigger] store.deletes_host(host, a) && host_removal_answer(vault, store, a, r),
{
    let id = match HostId::parse(id) {
        Some(h) => h,
        None => {
            return Err(String::from_str("invalid host id"));
        },
    };
    let answer = store.delete_host(id);
    let ghost a = answer;
    match answer {
        Ok(_) => {},
        Err(e) => {
            let res: Result<(), String> = Err(repository_error(e));
            assert(store.deletes_host(id, a) && host_removal_answer(vault, store, a, res));
            return res;
        },
    }
    let service = SecretService::new(vault, store);
    let _ = service.cleanup_pending();
    assert(cleanup_asked(vault, store));
    let res: Result<(), String> = Ok(());
    assert(store.deletes_host(id, a) && host_removal_answer(vault, store, a, res));
    res
}

/// Records that a Host was opened at `now`.
pub fn record_recent_host<S: RecentHostRepository>(store: &S, id: &str, now: Timestamp) -> (r: Result<(), String>)
    ensures
        spec_uuid_parse(id@) is None ==> (r matches Err(m) && m@ == "invalid host id"@),
        r is Err && spec_uuid_parse(id@) is Some ==> repository_message(r->Err_0@),
        spec_uuid_parse(id@) matches Some(v) ==> exists|host: HostId, a: Result<(), RepositoryError>|
            host@ == v && #[trigger] store.records_recent((RecentHost { host_id: host, opened_at: now }), a)
                && unit_answer(a, r),
{
    let host_id = match HostId::parse(id) {
        Some(h) => h,
        None => {
            return Err(String::from_str("invalid host id"));
        },
    };
    let entry = RecentHost { host_id, opened_at: now };
    let answer = store.record_recent(&entry);
    let ghost a = answer;
    let res: Result<(), String> = match answer {
        Ok(()) => Ok(()),
        Err(e) => Err(repository_error(e)),
    };
    assert(store.records_recent(entry, a) && unit_answer(a, res));
    res
}

/// `p` is the import preview of the OpenSSH configuration `content` against the saved
/// Hosts `hosts`: its entries and ignored lines, and no groups or settings.
pub open spec fn openssh_preview(content: Seq<char>, hosts: Seq<Host>, p: ImportPreview) -> bool {
    &&& p.groups@.len() == 0
    &&& p.settings@.len() == 0
    &&& entries_view(p.entries@) == openssh_import(content, host_names(hosts)).entries
    &&& ignored_views(p.ignored@) == openssh_import(content, host_names(hosts)).ignored
}

/// The import preview of an OpenSSH configuration against the saved Hosts.
pub fn preview_openssh_import<S: HostRepository>(store: &S, content: &str) -> (r: Result<ImportPreview, String>)
    ensures
        r matches Err(m) ==> repository_message(m@),
        exists|a: Result<Vec<Host>, RepositoryError>|
            #[trigger] store.lists_hosts(search_query(None), a) && match a {
                Ok(hosts) => r matches Ok(p) && openssh_preview(content@, hosts@, p),
                Err(e) => storage_failure(r, e),
            },
{
    let answer = store.list_hosts(&HostQuery { search: None, group_id: None, favorites_only: false });
    let ghost a = answer;
    let existing = match answer {
        Ok(h) => h,
        Err(e) => {
            let res: Result<ImportPreview, String> = Err(repository_error(e));
            assert(store.lists_hosts(search_query(None), a) && storage_failure(res, e));
            return res;
        },
    };
    let p = parse_openssh_config(content, existing.as_slice());
    let res: Result<ImportPreview, String> = Ok(p);
    assert(store.lists_hosts(search_query(None), a) && openssh_preview(content@, existing@, p));
    res
}

/// `r` is the workspace preview of `export` against the saved Hosts `hosts`: refused unless
/// the document has the supported schema.
pub open spec fn workspace_preview_answer(export: WorkspaceExport, hosts: Seq<Host>, r: Result<ImportPreview, String>) -> bool {
    if export.schema_version == EXPORT_SCHEMA_VERSION {
        r matches Ok(p) && is_workspace_preview(p, export, host_names(hosts))
    } else {
        r matches Err(m) && m@ == "workspace schema version is unsupported"@
    }
}

/// The import preview of a workspace document against the saved Hosts.
pub fn preview_workspace_import<S: HostRepository>(store: &S, export: WorkspaceExport) -> (r: Result<ImportPreview, String>)
    ensures
        exists|a: Result<Vec<Host>, RepositoryError>|
            #[trigger] store.lists_hosts(search_query(None), a) && match a {
                Ok(hosts) => workspace_preview_answer(export, hosts@, r),
                Err(e) => storage_failure(r, e),
            },
{
    let ghost document = export;
    let answer = store.list_hosts(&HostQuery { search: None, group_id: None, favorites_only: false });
    let ghost a = answer;
    let existing = match answer {
        Ok(h) => h,
        Err(e) => {
            let res: Result<ImportPreview, String> = Err(repository_error(e));
            assert(store.lists_hosts(search_query(None), a) && storage_failure(res, e));
            return res;
        },
    };
    let res: Result<ImportPreview, String> = match preview_workspace(export, existing.as_slice()) {
        Ok(p) => Ok(p),
        Err(e) => Err(String::from_str(e.message())),
    };
    assert(store.lists_hosts(search_query(None), a) && workspace_preview_answer(document, existing@, res));
    res
}

/// Settings as key and value texts, in order.
pub open spec fn setting_pairs(settings: Seq<Setting>) -> Seq<(Seq<char>, Seq<char>)> {
    settings.map_values(|s: Setting| (s.key@, s.value@))
}

/// `r` is the workspace document exported at `exported_at` from the store's answers:
/// groups first, then Hosts, then settings, each asked only after the one before it was
/// answered; the first failure is reported instead.
pub open spec fn export_outcome<S: HostRepository + GroupRepository + SettingsRepository>(
    store: &S,
    groups: Result<Vec<HostGroup>, RepositoryError>,
    hosts: Result<Vec<Host>, RepositoryError>,
    settings: Result<Vec<Setting>, RepositoryError>,
    exported_at: Seq<char>,
    r: Result<WorkspaceExport, String>,
) -> bool {
    &&& store.lists_groups(groups)
    &&& match groups {
        Err(e) => storage_failure(r, e),
        Ok(gs) => {
            &&& store.lists_hosts(search_query(None), hosts)
            &&& match hosts {
                Err(e) => storage_failure(r, e),
                Ok(hs) => {
                    &&& store.lists_settings(settings)
                    &&& match settings {
                        Err(e) => storage_failure(r, e),
                        Ok(ss) => r matches Ok(w) && is_workspace_export(w, gs@, hs@, setting_pairs(ss@), exported_at),
                    }
                },
            }
        },
    }
}

/// The workspace document of everything saved, exported at `exported_at`.
pub fn export_workspace_document<S: HostRepository + GroupRepository + SettingsRepository>(
    store: &S,
    exported_at: String,
) -> (r: Result<WorkspaceExport, String>)
    ensures
        r matches Err(m) ==> repository_message(m@),
        exists|
            groups: Result<Vec<HostGroup>, RepositoryError>,
            hosts: Result<Vec<Host>, RepositoryError>,
            settings: Result<Vec<Setting>, RepositoryError>,
        | #[trigger] export_outcome(store, groups, hosts, settings, exported_at@, r),
{
    let ghost at = exported_at@;
    let group_answer = store.list_groups();
    let ghost ga = group_answer;
    let groups = match group_answer {
        Ok(g) => g,
        Err(e) => {
            let res: Result<WorkspaceExport, String> = Err(repository_error(e));
            let ghost hosts_unasked: Result<Vec<Host>, RepositoryError> = Err(e);
            let ghost settings_unasked: Result<Vec<Setting>, RepositoryError> = Err(e);
            assert(export_outcome(store, ga, hosts_unasked, settings_unasked, at, res));
            return res;
        },
    };
    let host_answer = store.list_hosts(&HostQuery { search: None, group_id: None, favorites_only: false });
    let ghost ha = host_answer;
    let hosts = match host_answer {
        Ok(h) => h,
        Err(e) => {
            let res: Result<WorkspaceExport, String> = Err(repository_error(e));
            let ghost settings_unasked: Result<Vec<Setting>, RepositoryError> = Err(e);
            assert(export_outcome(store, ga, ha, settings_unasked, at, res));
            return res;
        },
    };
    let setting_answer = store.list_settings();
    let ghost sa = setting_answer;
    let settings = match setting_answer {
        Ok(s) => s,
        Err(e) => {
            let res: Result<WorkspaceExport, String> = Err(repository_error(e));
            assert(export_outcome(store, ga, ha, sa, at, res));
            return res;
        },
    };
    let mut pairs: Vec<(String, String)> = Vec::new();
    let mut i: usize = 0;
    while i < settings.len()
        invariant
            i <= settings@.len(),
            pairs@.len() == i,
            forall|j: int|
                0 <= j < i ==> (#[trigger] pairs@[j]).0@ == settings@[j].key@ && pairs@[j].1@ == settings@[j].value@,
        decreases settings@.len() - i,
    {
        pairs.push((settings[i].key.clone(), settings[i].value.clone()));
        i += 1;
    }
    assert(settings_view(pairs@) =~= setting_pairs(settings@));
    let w = workspace_export(groups.as_slice(), hosts.as_slice(), pairs, exported_at);
    let res: Result<WorkspaceExport, String> = Ok(w);
    assert(export_outcome(store, ga, ha, sa, at, res));
    res
}

} // verus!
