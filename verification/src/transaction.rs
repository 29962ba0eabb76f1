use vstd::prelude::*;
use crate::key::{canonical_seq, channel_view, PackageKey};
use crate::repo::{has_installer, has_package, package_of, RepoIndex, RepoRecord};
use crate::status::{PackageStatus, PackageStatusError};
use crate::store::{
    cached_view, ck_has, has_repo, lemma_cached_view, receipts_view, repo_index_of, rv_distinct,
    rv_get, rv_has, rv_remove, rv_upsert, spec_status, store_wf, InstallTarget,
    PrefixPackageStore,
};

verus! {

/// Kind of change a package action requests.
#[derive(Clone, Copy, Debug, PartialEq, Eq, Structural)]
pub enum PackageActionKind {
    Install,
    Uninstall,
}

impl PackageActionKind {
    /// Stable numeric code for the action kind, used across the
    /// foreign-function boundary. Existing codes are never renumbered.
    pub fn to_u8(&self) -> (r: u8)
        ensures
            r == 0 <==> *self is Install,
            r == 1 <==> *self is Uninstall,
    {
        match self {
            PackageActionKind::Install => 0,
            PackageActionKind::Uninstall => 1,
        }
    }
}

/// One requested change: which package, what to do, into which target.
/// Immutable once placed in a transaction.
#[derive(Clone, Debug)]
pub struct PackageAction {
    pub key: PackageKey,
    pub kind: PackageActionKind,
    pub target: InstallTarget,
}

/// What one progress event reports about one package.
#[derive(Clone, Copy, Debug, PartialEq, Eq, Structural)]
pub enum PackageEventKind {
    Downloading,
    Installing,
    Uninstalling,
    Completed,
    Error,
}

impl PackageEventKind {
    /// Stable numeric code for the event, used across the foreign-function
    /// boundary. Existing codes are never renumbered; new ones are appended.
    pub fn to_u32(&self) -> (r: u32)
        ensures
            r == 0 <==> *self is Downloading,
            r == 1 <==> *self is Installing,
            r == 2 <==> *self is Uninstalling,
            r == 3 <==> *self is Completed,
            r == 4 <==> *self is Error,
    {
        match self {
            PackageEventKind::Downloading => 0,
            PackageEventKind::Installing => 1,
            PackageEventKind::Uninstalling => 2,
            PackageEventKind::Completed => 3,
            PackageEventKind::Error => 4,
        }
    }
}

/// One entry of the progress stream a transaction emits: the package it
/// concerns and what happened.
#[derive(Clone, Debug)]
pub struct TransactionEvent {
    pub key: PackageKey,
    pub kind: PackageEventKind,
}

/// The view of an event stream: canonical key strings paired with event
/// kinds.
pub open spec fn events_view(v: Seq<TransactionEvent>) -> Seq<(Seq<char>, PackageEventKind)> {
    v.map_values(|e: TransactionEvent| (canonical_seq(e.key), e.kind))
}

/// Why a transaction is rejected at construction, before any side effect.
/// Every variant carries the offending key.
#[derive(Clone, Debug)]
pub enum PackageTransactionError {
    /// A status query for this key failed hard.
    Status(PackageKey, PackageStatusError),
    /// An `Install` action targets a key that is already up to date.
    AlreadyInstalled(PackageKey),
    /// An `Uninstall` action targets a key that is not installed.
    NotInstalled(PackageKey),
    /// The same `(key, target)` pair appears with conflicting kinds.
    Conflict(PackageKey),
}

/// What `status` answers for one action's key and target.
pub open spec fn action_status(s: PrefixPackageStore, a: PackageAction) -> Result<
    PackageStatus,
    PackageStatusError,
> {
    spec_status(s, a.key.repository_url@, a.key.package_id@, channel_view(a.key), a.target)
}

/// Two actions name the same `(key, target)` pair.
pub open spec fn same_pair(a: PackageAction, b: PackageAction) -> bool {
    &&& a.key.repository_url@ == b.key.repository_url@
    &&& a.key.package_id@ == b.key.package_id@
    &&& channel_view(a.key) == channel_view(b.key)
    &&& a.target == b.target
}

/// Two actions contradict each other: same pair, different kinds.
pub open spec fn actions_conflict(a: PackageAction, b: PackageAction) -> bool {
    same_pair(a, b) && a.kind != b.kind
}

/// What is wrong with one action on its own, given current state: a hard
/// status failure, an install of something already up to date, or an
/// uninstall of something not installed.
pub open spec fn action_violation(s: PrefixPackageStore, a: PackageAction) -> Option<
    PackageTransactionError,
> {
    match action_status(s, a) {
        Result::Err(e) => Option::Some(PackageTransactionError::Status(a.key, e)),
        Result::Ok(st) => {
            if a.kind is Install && st is UpToDate {
                Option::Some(PackageTransactionError::AlreadyInstalled(a.key))
            } else if a.kind is Uninstall && st is NotInstalled {
                Option::Some(PackageTransactionError::NotInstalled(a.key))
            } else {
                Option::None
            }
        },
    }
}

/// The first reason, scanning the actions in order from `i`, to reject the
/// list: for each action, first a contradiction with any earlier action,
/// then the action's own violation.
pub open spec fn first_violation_from(
    s: PrefixPackageStore,
    actions: Seq<PackageAction>,
    i: int,
) -> Option<PackageTransactionError>
    decreases actions.len() - i,
{
    if !(0 <= i < actions.len()) {
        Option::None
    } else if exists|j: int| 0 <= j < i && actions_conflict(actions[j], actions[i]) {
        Option::Some(PackageTransactionError::Conflict(actions[i].key))
    } else {
        match action_violation(s, actions[i]) {
            Option::Some(e) => Option::Some(e),
            Option::None => first_violation_from(s, actions, i + 1),
        }
    }
}

/// A violation anywhere in the list is caught by the scan from the start.
pub proof fn lemma_violation_detected(
    s: PrefixPackageStore,
    actions: Seq<PackageAction>,
    k: int,
    i: int,
)
    requires
        0 <= k <= i < actions.len(),
        (exists|j: int| 0 <= j < i && actions_conflict(actions[j], actions[i]))
            || action_violation(s, actions[i]) is Some,
    ensures
        first_violation_from(s, actions, k) is Some,
    decreases i - k,
{
    if k < i {
        lemma_violation_detected(s, actions, k + 1, i);
    }
}

/// Validation correctness: a list holding an `Install` for a key that is
/// already up to date is rejected; construction fails before any side
/// effect, so nothing is downloaded or run.
pub proof fn lemma_install_up_to_date_rejected(
    s: PrefixPackageStore,
    actions: Seq<PackageAction>,
    i: int,
)
    requires
        0 <= i < actions.len(),
        actions[i].kind is Install,
        action_status(s, actions[i]) == Result::<PackageStatus, PackageStatusError>::Ok(
            PackageStatus::UpToDate,
        ),
    ensures
        first_violation_from(s, actions, 0) is Some,
{
    lemma_violation_detected(s, actions, 0, i);
}

/// Conflict detection: a list holding both an `Install` and an `Uninstall`
/// for the same `(key, target)` pair is rejected at construction.
pub proof fn lemma_conflict_rejected(
    s: PrefixPackageStore,
    actions: Seq<PackageAction>,
    i: int,
    j: int,
)
    requires
        0 <= i < j < actions.len(),
        same_pair(actions[i], actions[j]),
        actions[i].kind != actions[j].kind,
    ensures
        first_violation_from(s, actions, 0) is Some,
{
    assert(actions_conflict(actions[i], actions[j]));
    lemma_violation_detected(s, actions, 0, j);
}

/// An ordered, validated batch of install and uninstall actions. Validation
/// happens once, inside construction, against current status; the list is
/// then frozen verbatim. Processing consumes the transaction, so no
/// transaction instance is ever processed twice.
#[derive(Debug)]
pub struct PackageTransaction {
    actions: Vec<PackageAction>,
}

impl View for PackageTransaction {
    type V = Seq<PackageAction>;

    closed spec fn view(&self) -> Seq<PackageAction> {
        self.actions@
    }
}

/// Whether two actions name the same `(key, target)` pair.
fn same_pair_exec(a: &PackageAction, b: &PackageAction) -> (r: bool)
    ensures
        r == same_pair(*a, *b),
{
    if !(a.key.repository_url == b.key.repository_url) {
        return false;
    }
    if !(a.key.package_id == b.key.package_id) {
        return false;
    }
    if !(a.target == b.target) {
        return false;
    }
    match (&a.key.channel, &b.key.channel) {
        (Option::Some(x), Option::Some(y)) => *x == *y,
        (Option::None, Option::None) => true,
        _ => false,
    }
}

impl PackageTransaction {
    /// Validate an ordered action list against current status and freeze it.
    /// Rejected with the first reason found, scanning in order, if an
    /// `Install` targets a key already up to date, an `Uninstall` targets a
    /// key not installed, the same `(key, target)` pair appears with
    /// conflicting kinds, or any status query fails hard. Nothing is
    /// executed here; rejection has no side effects.
    pub fn new(store: &PrefixPackageStore, actions: Vec<PackageAction>) -> (r: Result<
        PackageTransaction,
        PackageTransactionError,
    >)
        requires
            store_wf(*store),
        ensures
            match r {
                Result::Ok(t) => t@ == actions@ && first_violation_from(*store, actions@, 0)
                    is None,
                Result::Err(e) => first_violation_from(*store, actions@, 0) == Option::Some(e),
            },
    {
        let mut acts = actions;
        let n = acts.len();
        let mut i: usize = 0;
        while i < n
            invariant
                store_wf(*store),
                n == acts@.len(),
                acts@ == actions@,
                0 <= i <= n,
                first_violation_from(*store, actions@, 0) == first_violation_from(
                    *store,
                    actions@,
                    i as int,
                ),
            decreases n - i,
        {
            let mut j: usize = 0;
            while j < i
                invariant
                    store_wf(*store),
                    n == acts@.len(),
                    acts@ == actions@,
                    0 <= j <= i < n,
                    forall|q: int| 0 <= q < j ==> !actions_conflict(actions@[q], actions@[
                        i as int
                    ]),
                    first_violation_from(*store, actions@, 0) == first_violation_from(
                        *store,
                        actions@,
                        i as int,
                    ),
                decreases i - j,
            {
                let conflict = same_pair_exec(&acts[j], &acts[i]) && !(acts[j].kind
                    == acts[i].kind);
                if conflict {
                    proof {
                        assert(actions_conflict(actions@[j as int], actions@[i as int]));
                    }
                    let a = acts.remove(i);
                    return Result::Err(PackageTransactionError::Conflict(a.key));
                }
                j += 1;
            }
            let st = store.status(&acts[i].key, acts[i].target);
            match st {
                Result::Err(e) => {
                    let a = acts.remove(i);
                    return Result::Err(PackageTransactionError::Status(a.key, e));
                },
                Result::Ok(PackageStatus::UpToDate) => {
                    if matches!(acts[i].kind, PackageActionKind::Install) {
                        let a = acts.remove(i);
                        return Result::Err(PackageTransactionError::AlreadyInstalled(a.key));
                    }
                },
                Result::Ok(PackageStatus::NotInstalled) => {
                    if matches!(acts[i].kind, PackageActionKind::Uninstall) {
                        let a = acts.remove(i);
                        return Result::Err(PackageTransactionError::NotInstalled(a.key));
                    }
                },
                Result::Ok(_) => {},
            }
            i += 1;
        }
        Result::Ok(PackageTransaction { actions: acts })
    }

    /// The frozen action list, in the caller's declared order.
    pub fn actions(&self) -> (r: &Vec<PackageAction>)
        ensures
            r@ == self@,
    {
        &self.actions
    }
}

/// How the backend's work for one action ended, as the adapter driving the
/// installers reports it: the distinction tells download failures from
/// installer-invocation failures from post-install verification failures.
#[derive(Clone, Copy, Debug, PartialEq, Eq, Structural)]
pub enum ActionOutcome {
    Success,
    DownloadFailed,
    InstallerFailed,
    VerificationFailed,
}

/// The evolving state of one processing run: the receipts and cache as they
/// stand, the events emitted so far, and whether the run has stopped at a
/// failure.
pub struct RunModel {
    pub receipts: Seq<(Seq<char>, InstallTarget, Seq<char>)>,
    pub cached: Seq<Seq<char>>,
    pub events: Seq<(Seq<char>, PackageEventKind)>,
    pub failed: bool,
}

/// One action carried out against the model. Installs resolve the
/// descriptor, download unless cached, then install and record the receipt;
/// uninstalls remove the receipt. Every step emits its events; the first
/// failure marks the run stopped.
pub open spec fn spec_step(
    repos: Seq<(RepoRecord, RepoIndex)>,
    platform: Seq<char>,
    m: RunModel,
    a: PackageAction,
    o: ActionOutcome,
) -> RunModel {
    let k = canonical_seq(a.key);
    match a.kind {
        PackageActionKind::Install => {
            if !has_repo(repos, a.key.repository_url@) || !has_package(
                repo_index_of(repos, a.key.repository_url@),
                a.key.package_id@,
            ) || !has_installer(
                package_of(repo_index_of(repos, a.key.repository_url@), a.key.package_id@),
                platform,
            ) {
                RunModel {
                    receipts: m.receipts,
                    cached: m.cached,
                    events: m.events.push((k, PackageEventKind::Error)),
                    failed: true,
                }
            } else {
                let d = package_of(repo_index_of(repos, a.key.repository_url@), a.key.package_id@);
                let was = ck_has(m.cached, k);
                let ev0 = if was {
                    m.events
                } else {
                    m.events.push((k, PackageEventKind::Downloading))
                };
                if !was && o is DownloadFailed {
                    RunModel {
                        receipts: m.receipts,
                        cached: m.cached,
                        events: ev0.push((k, PackageEventKind::Error)),
                        failed: true,
                    }
                } else {
                    let c1 = if was {
                        m.cached
                    } else {
                        m.cached.push(k)
                    };
                    let ev1 = ev0.push((k, PackageEventKind::Installing));
                    if o is Success {
                        RunModel {
                            receipts: rv_upsert(m.receipts, a.key.package_id@, a.target, d.version@),
                            cached: c1,
                            events: ev1.push((k, PackageEventKind::Completed)),
                            failed: false,
                        }
                    } else {
                        RunModel {
                            receipts: m.receipts,
                            cached: c1,
                            events: ev1.push((k, PackageEventKind::Error)),
                            failed: true,
                        }
                    }
                }
            }
        },
        PackageActionKind::Uninstall => {
            let ev1 = m.events.push((k, PackageEventKind::Uninstalling));
            if o is Success {
                RunModel {
                    receipts: rv_remove(m.receipts, a.key.package_id@, a.target),
                    cached: m.cached,
                    events: ev1.push((k, PackageEventKind::Completed)),
                    failed: false,
                }
            } else {
                RunModel {
                    receipts: m.receipts,
                    cached: m.cached,
                    events: ev1.push((k, PackageEventKind::Error)),
                    failed: true,
                }
            }
        },
    }
}

/// Upserting one pair leaves every other pair's lookup unchanged and keeps
/// the pairs distinct.
pub proof fn lemma_rv_upsert_frame(
    rs: Seq<(Seq<char>, InstallTarget, Seq<char>)>,
    aid: Seq<char>,
    at: InstallTarget,
    v: Seq<char>,
    id: Seq<char>,
    t: InstallTarget,
)
    requires
        rv_distinct(rs),
        !(id == aid && t == at),
    ensures
        rv_distinct(rv_upsert(rs, aid, at, v)),
        rv_get(rv_upsert(rs, aid, at, v), id, t) == rv_get(rs, id, t),
{
    let after = rv_upsert(rs, aid, at, v);
    if rv_has(rs, aid, at) {
        let w = choose|i: int| 0 <= i < rs.len() && rs[i].0 == aid && rs[i].1 == at;
        assert(after == rs.update(w, (aid, at, v)));
        assert forall|p: int, q: int| 0 <= p < q < after.len() implies !(after[p].0 == after[q].0
            && after[p].1 == after[q].1) by {
            assert(!(rs[p].0 == rs[q].0 && rs[p].1 == rs[q].1));
        }
        if rv_has(after, id, t) {
            let wa = choose|i: int| 0 <= i < after.len() && after[i].0 == id && after[i].1 == t;
            assert(wa != w);
            assert(rs[wa].0 == id && rs[wa].1 == t);
            let wb = choose|i: int| 0 <= i < rs.len() && rs[i].0 == id && rs[i].1 == t;
            if wb != wa {
                if wb < wa {
                    assert(!(rs[wb].0 == rs[wa].0 && rs[wb].1 == rs[wa].1));
                } else {
                    assert(!(rs[wa].0 == rs[wb].0 && rs[wa].1 == rs[wb].1));
                }
            }
        } else {
            if rv_has(rs, id, t) {
                let wb = choose|i: int| 0 <= i < rs.len() && rs[i].0 == id && rs[i].1 == t;
                assert(wb != w);
                assert(after[wb].0 == id && after[wb].1 == t);
            }
        }
    } else {
        assert(after == rs.push((aid, at, v)));
        assert forall|p: int, q: int| 0 <= p < q < after.len() implies !(after[p].0 == after[q].0
            && after[p].1 == after[q].1) by {
            if q < rs.len() {
                assert(!(rs[p].0 == rs[q].0 && rs[p].1 == rs[q].1));
            } else {
                assert(!(rs[p].0 == aid && rs[p].1 == at));
            }
        }
        if rv_has(after, id, t) {
            let wa = choose|i: int| 0 <= i < after.len() && after[i].0 == id && after[i].1 == t;
            assert(wa != rs.len());
            assert(rs[wa].0 == id && rs[wa].1 == t);
            let wb = choose|i: int| 0 <= i < rs.len() && rs[i].0 == id && rs[i].1 == t;
            if wb != wa {
                if wb < wa {
                    assert(!(rs[wb].0 == rs[wa].0 && rs[wb].1 == rs[wa].1));
                } else {
                    assert(!(rs[wa].0 == rs[wb].0 && rs[wa].1 == rs[wb].1));
                }
            }
        } else {
            if rv_has(rs, id, t) {
                let wb = choose|i: int| 0 <= i < rs.len() && rs[i].0 == id && rs[i].1 == t;
                assert(after[wb].0 == id && after[wb].1 == t);
            }
        }
    }
}

/// Removing one pair leaves every other pair's lookup unchanged and keeps
/// the pairs distinct.
pub proof fn lemma_rv_remove_frame(
    rs: Seq<(Seq<char>, InstallTarget, Seq<char>)>,
    aid: Seq<char>,
    at: InstallTarget,
    id: Seq<char>,
    t: InstallTarget,
)
    requires
        rv_distinct(rs),
        !(id == aid && t == at),
    ensures
        rv_distinct(rv_remove(rs, aid, at)),
        rv_get(rv_remove(rs, aid, at), id, t) == rv_get(rs, id, t),
{
    if rv_has(rs, aid, at) {
        let w = choose|i: int| 0 <= i < rs.len() && rs[i].0 == aid && rs[i].1 == at;
        let after = rs.remove(w);
        assert forall|p: int, q: int| 0 <= p < q < after.len() implies !(after[p].0 == after[q].0
            && after[p].1 == after[q].1) by {
            let op = if p < w { p } else { p + 1 };
            let oq = if q < w { q } else { q + 1 };
            assert(after[p] == rs[op]);
            assert(after[q] == rs[oq]);
            assert(!(rs[op].0 == rs[oq].0 && rs[op].1 == rs[oq].1));
        }
        if rv_has(rs, id, t) {
            let wb = choose|i: int| 0 <= i < rs.len() && rs[i].0 == id && rs[i].1 == t;
            assert(wb != w);
            let na = if wb < w { wb } else { wb - 1 };
            assert(after[na] == rs[wb]);
            assert(rv_has(after, id, t));
            let wa = choose|i: int| 0 <= i < after.len() && after[i].0 == id && after[i].1 == t;
            let oa = if wa < w { wa } else { wa + 1 };
            assert(after[wa] == rs[oa]);
            if oa != wb {
                if oa < wb {
                    assert(!(rs[oa].0 == rs[wb].0 && rs[oa].1 == rs[wb].1));
                } else {
                    assert(!(rs[wb].0 == rs[oa].0 && rs[wb].1 == rs[oa].1));
                }
            }
        } else {
            if rv_has(after, id, t) {
                let wa = choose|i: int|
                    0 <= i < after.len() && after[i].0 == id && after[i].1 == t;
                let oa = if wa < w { wa } else { wa + 1 };
                assert(after[wa] == rs[oa]);
            }
        }
    }
}

/// The whole run from action `i` on: actions are carried out strictly in
/// list order; once a step fails, nothing further is attempted.
pub open spec fn spec_run(
    repos: Seq<(RepoRecord, RepoIndex)>,
    platform: Seq<char>,
    m: RunModel,
    actions: Seq<PackageAction>,
    outcomes: Seq<ActionOutcome>,
    i: int,
) -> RunModel
    decreases actions.len() - i,
{
    if !(0 <= i < actions.len()) || m.failed {
        m
    } else {
        spec_run(repos, platform, spec_step(repos, platform, m, actions[i], outcomes[i]),
            actions, outcomes, i + 1)
    }
}

/// After an upsert, the pair's lookup answers the new version.
pub proof fn lemma_rv_upsert_gets(
    rs: Seq<(Seq<char>, InstallTarget, Seq<char>)>,
    id: Seq<char>,
    t: InstallTarget,
    v: Seq<char>,
)
    requires
        rv_distinct(rs),
    ensures
        rv_get(rv_upsert(rs, id, t, v), id, t) == Option::Some(v),
{
    let after = rv_upsert(rs, id, t, v);
    if rv_has(rs, id, t) {
        let w = choose|i: int| 0 <= i < rs.len() && rs[i].0 == id && rs[i].1 == t;
        assert(after == rs.update(w, (id, t, v)));
        assert(after[w].0 == id && after[w].1 == t);
        assert(rv_has(after, id, t));
        let wa = choose|i: int| 0 <= i < after.len() && after[i].0 == id && after[i].1 == t;
        if wa != w {
            assert(rs[wa].0 == id && rs[wa].1 == t);
            if wa < w {
                assert(!(rs[wa].0 == rs[w].0 && rs[wa].1 == rs[w].1));
            } else {
                assert(!(rs[w].0 == rs[wa].0 && rs[w].1 == rs[wa].1));
            }
        }
    } else {
        assert(after == rs.push((id, t, v)));
        assert(after[rs.len() as int].0 == id && after[rs.len() as int].1 == t);
        assert(rv_has(after, id, t));
        let wa = choose|i: int| 0 <= i < after.len() && after[i].0 == id && after[i].1 == t;
        if wa != rs.len() {
            assert(rs[wa].0 == id && rs[wa].1 == t);
        }
    }
}

/// After a removal, the pair's lookup answers nothing.
pub proof fn lemma_rv_remove_gets(
    rs: Seq<(Seq<char>, InstallTarget, Seq<char>)>,
    id: Seq<char>,
    t: InstallTarget,
)
    requires
        rv_distinct(rs),
    ensures
        rv_get(rv_remove(rs, id, t), id, t) is None,
{
    if rv_has(rs, id, t) {
        let w = choose|i: int| 0 <= i < rs.len() && rs[i].0 == id && rs[i].1 == t;
        let after = rs.remove(w);
        if rv_has(after, id, t) {
            let wa = choose|i: int| 0 <= i < after.len() && after[i].0 == id && after[i].1 == t;
            let oa = if wa < w { wa } else { wa + 1 };
            assert(after[wa] == rs[oa]);
            assert(oa != w);
            if oa < w {
                assert(!(rs[oa].0 == rs[w].0 && rs[oa].1 == rs[w].1));
            } else {
                assert(!(rs[w].0 == rs[oa].0 && rs[w].1 == rs[oa].1));
            }
        }
    }
}

/// Partial commit, the committed side for installs: a successfully carried
/// out install step records the repository's version for the action's pair
/// and does not stop the run.
pub proof fn lemma_step_records_install(
    repos: Seq<(RepoRecord, RepoIndex)>,
    platform: Seq<char>,
    m: RunModel,
    a: PackageAction,
    o: ActionOutcome,
)
    requires
        rv_distinct(m.receipts),
        a.kind is Install,
        o is Success,
        has_repo(repos, a.key.repository_url@),
        has_package(repo_index_of(repos, a.key.repository_url@), a.key.package_id@),
        has_installer(
            package_of(repo_index_of(repos, a.key.repository_url@), a.key.package_id@),
            platform,
        ),
    ensures
        !spec_step(repos, platform, m, a, o).failed,
        rv_get(spec_step(repos, platform, m, a, o).receipts, a.key.package_id@, a.target)
            == Option::Some(
            package_of(repo_index_of(repos, a.key.repository_url@), a.key.package_id@).version@,
        ),
{
    let d = package_of(repo_index_of(repos, a.key.repository_url@), a.key.package_id@);
    lemma_rv_upsert_gets(m.receipts, a.key.package_id@, a.target, d.version@);
}

/// Partial commit, the committed side for uninstalls: a successfully
/// carried out uninstall step leaves no receipt for the action's pair and
/// does not stop the run.
pub proof fn lemma_step_removes_uninstall(
    repos: Seq<(RepoRecord, RepoIndex)>,
    platform: Seq<char>,
    m: RunModel,
    a: PackageAction,
    o: ActionOutcome,
)
    requires
        rv_distinct(m.receipts),
        a.kind is Uninstall,
        o is Success,
    ensures
        !spec_step(repos, platform, m, a, o).failed,
        rv_get(spec_step(repos, platform, m, a, o).receipts, a.key.package_id@, a.target)
            is None,
{
    lemma_rv_remove_gets(m.receipts, a.key.package_id@, a.target);
}

/// Partial commit, the untouched side: a run never changes the recorded
/// receipt of a `(package id, target)` pair that none of its remaining
/// actions names. In particular, actions after the first failure are never
/// attempted, so their pairs keep the state they had before the run.
pub proof fn lemma_untouched_pair_unchanged(
    repos: Seq<(RepoRecord, RepoIndex)>,
    platform: Seq<char>,
    m: RunModel,
    actions: Seq<PackageAction>,
    outcomes: Seq<ActionOutcome>,
    i: int,
    id: Seq<char>,
    t: InstallTarget,
)
    requires
        rv_distinct(m.receipts),
        forall|k: int| i <= k < actions.len() ==> !((#[trigger] actions[k]).key.package_id@ == id
            && actions[k].target == t),
    ensures
        rv_distinct(spec_run(repos, platform, m, actions, outcomes, i).receipts),
        rv_get(spec_run(repos, platform, m, actions, outcomes, i).receipts, id, t) == rv_get(
            m.receipts,
            id,
            t,
        ),
    decreases actions.len() - i,
{
    if 0 <= i < actions.len() && !m.failed {
        let a = actions[i];
        let m1 = spec_step(repos, platform, m, a, outcomes[i]);
        assert(!(id == a.key.package_id@ && t == a.target));
        match a.kind {
            PackageActionKind::Install => {
                lemma_rv_upsert_frame(
                    m.receipts,
                    a.key.package_id@,
                    a.target,
                    package_of(
                        repo_index_of(repos, a.key.repository_url@),
                        a.key.package_id@,
                    ).version@,
                    id,
                    t,
                );
            },
            PackageActionKind::Uninstall => {
                lemma_rv_remove_frame(m.receipts, a.key.package_id@, a.target, id, t);
            },
        }
        lemma_untouched_pair_unchanged(repos, platform, m1, actions, outcomes, i + 1, id, t);
    }
}

impl PackageTransaction {
    /// Execute the actions strictly in list order against the store,
    /// consuming the transaction: no instance is processed twice. The
    /// backend adapter's report of each action's outside work arrives in
    /// `outcomes`, one entry per action. The returned stream holds, per
    /// action, its `Downloading` (unless cached), `Installing` or
    /// `Uninstalling`, and `Completed` events; the first failing action
    /// emits `Error` instead of `Completed` and stops the run. Actions
    /// already completed stay committed — there is no rollback — and later
    /// actions are never attempted, so the caller always knows exactly
    /// which prefix of the list took effect.
    pub fn process(self, store: &mut PrefixPackageStore, outcomes: &Vec<ActionOutcome>) -> (events:
        Vec<TransactionEvent>)
        requires
            store_wf(*old(store)),
            outcomes@.len() == self@.len(),
        ensures
            store_wf(*final(store)),
            final(store).repos@ == old(store).repos@,
            final(store).config == old(store).config,
            final(store).platform@ == old(store).platform@,
            final(store).payloads@ == old(store).payloads@,
            ({
                let m = spec_run(
                    old(store).repos@,
                    old(store).platform@,
                    RunModel {
                        receipts: receipts_view(old(store).receipts@),
                        cached: cached_view(old(store).cached@),
                        events: Seq::empty(),
                        failed: false,
                    },
                    self@,
                    outcomes@,
                    0,
                );
                &&& receipts_view(final(store).receipts@) == m.receipts
                &&& cached_view(final(store).cached@) == m.cached
                &&& events_view(events@) == m.events
            }),
    {
        let ghost gr = store.repos@;
        let ghost gp = store.platform@;
        let ghost gacts = self@;
        let ghost gouts = outcomes@;
        let ghost ginit = RunModel {
            receipts: receipts_view(store.receipts@),
            cached: cached_view(store.cached@),
            events: Seq::empty(),
            failed: false,
        };
        let mut events: Vec<TransactionEvent> = Vec::new();
        let mut failed = false;
        let n = self.actions.len();
        let mut i: usize = 0;
        proof {
            assert(events_view(events@) =~= Seq::<(Seq<char>, PackageEventKind)>::empty());
        }
        while i < n && !failed
            invariant
                store_wf(*store),
                store.repos@ == gr,
                store.platform@ == gp,
                gr == old(store).repos@,
                gp == old(store).platform@,
                store.config == old(store).config,
                store.payloads@ == old(store).payloads@,
                ginit == (RunModel {
                    receipts: receipts_view(old(store).receipts@),
                    cached: cached_view(old(store).cached@),
                    events: Seq::<(Seq<char>, PackageEventKind)>::empty(),
                    failed: false,
                }),
                self@ == gacts,
                outcomes@ == gouts,
                n == gacts.len(),
                gouts.len() == n,
                0 <= i <= n,
                spec_run(gr, gp, ginit, gacts, gouts, 0) == spec_run(
                    gr,
                    gp,
                    RunModel {
                        receipts: receipts_view(store.receipts@),
                        cached: cached_view(store.cached@),
                        events: events_view(events@),
                        failed: failed,
                    },
                    gacts,
                    gouts,
                    i as int,
                ),
            decreases n - i,
        {
            let ghost m0 = RunModel {
                receipts: receipts_view(store.receipts@),
                cached: cached_view(store.cached@),
                events: events_view(events@),
                failed: false,
            };
            let a = &self.actions[i];
            let o = outcomes[i];
            let keystr = a.key.to_string();
            let ghost k = canonical_seq(gacts[i as int].key);
            match a.kind {
                PackageActionKind::Install => {
                    let resolved: Option<String> = match store.find_repo_index(
                        &a.key.repository_url,
                    ) {
                        Option::None => Option::None,
                        Option::Some(idx) => match crate::store::find_package_in(
                            idx,
                            &a.key.package_id,
                        ) {
                            Option::None => Option::None,
                            Option::Some(d) => match crate::store::find_installer_in(
                                d,
                                &store.platform,
                            ) {
                                Option::None => Option::None,
                                Option::Some(_) => Option::Some(d.version.clone()),
                            },
                        },
                    };
                    match resolved {
                        Option::None => {
                            let ghost ev0 = events@;
                            events.push(
                                TransactionEvent {
                                    key: a.key.duplicate(),
                                    kind: PackageEventKind::Error,
                                },
                            );
                            failed = true;
                            proof {
                                assert(events_view(events@) =~= events_view(ev0).push(
                                    (k, PackageEventKind::Error),
                                ));
                            }
                        },
                        Option::Some(version) => {
                            let was_cached = store.is_cached(&keystr);
                            proof {
                                lemma_cached_view(store.cached@, k);
                            }
                            if !was_cached {
                                let ghost ev0 = events@;
                                events.push(
                                    TransactionEvent {
                                        key: a.key.duplicate(),
                                        kind: PackageEventKind::Downloading,
                                    },
                                );
                                proof {
                                    assert(events_view(events@) =~= events_view(ev0).push(
                                        (k, PackageEventKind::Downloading),
                                    ));
                                }
                            }
                            if !was_cached && matches!(o, ActionOutcome::DownloadFailed) {
                                let ghost ev0 = events@;
                                events.push(
                                    TransactionEvent {
                                        key: a.key.duplicate(),
                                        kind: PackageEventKind::Error,
                                    },
                                );
                                failed = true;
                                proof {
                                    assert(events_view(events@) =~= events_view(ev0).push(
                                        (k, PackageEventKind::Error),
                                    ));
                                }
                            } else {
                                if !was_cached {
                                    let ghost c0 = store.cached@;
                                    store.mark_downloaded(&a.key);
                                    proof {
                                        assert(cached_view(store.cached@) =~= cached_view(
                                            c0,
                                        ).push(k));
                                    }
                                }
                                let ghost ev0 = events@;
                                events.push(
                                    TransactionEvent {
                                        key: a.key.duplicate(),
                                        kind: PackageEventKind::Installing,
                                    },
                                );
                                proof {
                                    assert(events_view(events@) =~= events_view(ev0).push(
                                        (k, PackageEventKind::Installing),
                                    ));
                                }
                                match o {
                                    ActionOutcome::Success => {
                                        store.upsert_receipt(
                                            a.key.package_id.clone(),
                                            a.target,
                                            version,
                                        );
                                        let ghost ev1 = events@;
                                        events.push(
                                            TransactionEvent {
                                                key: a.key.duplicate(),
                                                kind: PackageEventKind::Completed,
                                            },
                                        );
                                        proof {
                                            assert(events_view(events@) =~= events_view(
                                                ev1,
                                            ).push((k, PackageEventKind::Completed)));
                                        }
                                    },
                                    _ => {
                                        let ghost ev1 = events@;
                                        events.push(
                                            TransactionEvent {
                                                key: a.key.duplicate(),
                                                kind: PackageEventKind::Error,
                                            },
                                        );
                                        failed = true;
                                        proof {
                                            assert(events_view(events@) =~= events_view(
                                                ev1,
                                            ).push((k, PackageEventKind::Error)));
                                        }
                                    },
                                }
                            }
                        },
                    }
                },
                PackageActionKind::Uninstall => {
                    let ghost ev0 = events@;
                    events.push(
                        TransactionEvent {
                            key: a.key.duplicate(),
                            kind: PackageEventKind::Uninstalling,
                        },
                    );
                    proof {
                        assert(events_view(events@) =~= events_view(ev0).push(
                            (k, PackageEventKind::Uninstalling),
                        ));
                    }
                    match o {
                        ActionOutcome::Success => {
                            store.remove_receipt(&a.key.package_id, a.target);
                            let ghost ev1 = events@;
                            events.push(
                                TransactionEvent {
                                    key: a.key.duplicate(),
                                    kind: PackageEventKind::Completed,
                                },
                            );
                            proof {
                                assert(events_view(events@) =~= events_view(ev1).push(
                                    (k, PackageEventKind::Completed),
                                ));
                            }
                        },
                        _ => {
                            let ghost ev1 = events@;
                            events.push(
                                TransactionEvent {
                                    key: a.key.duplicate(),
                                    kind: PackageEventKind::Error,
                                },
                            );
                            failed = true;
                            proof {
                                assert(events_view(events@) =~= events_view(ev1).push(
                                    (k, PackageEventKind::Error),
                                ));
                            }
                        },
                    }
                },
            }
            proof {
                let m1 = RunModel {
                    receipts: receipts_view(store.receipts@),
                    cached: cached_view(store.cached@),
                    events: events_view(events@),
                    failed: failed,
                };
                let st = spec_step(gr, gp, m0, gacts[i as int], gouts[i as int]);
                assert(m1.receipts =~= st.receipts);
                assert(m1.cached =~= st.cached);
                assert(m1.events =~= st.events);
                assert(m1 == st);
            }
            i += 1;
        }
        events
    }
}

} // verus!
