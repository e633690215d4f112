//! The local metadata cache: mirrors of server-side workspaces, projects
//! and users, keyed by UUID, plus the durable queue of outbound changes.
//!
//! The store is modelled directly: rows live in vectors, the UUID is
//! unique within each table, and an upsert is keyed on the UUID — never
//! the numeric id — so repeated imports are idempotent. Persisting the
//! rows is the application's business, outside this crate.

use vstd::prelude::*;

use crate::text::{lex_le, lemma_lex_le_total, lemma_lex_le_trans, str_eq, str_lex_le};
use vstd::relations::sorted_by;
use vstd::seq_lib::group_to_multiset_ensures;

verus! {

/// A cached workspace row.
#[derive(Debug, PartialEq)]
pub struct Workspace {
    pub id: i64,
    pub uuid: String,
    pub name: String,
    pub description: Option<String>,
    pub owner_id: i64,
    pub created_at: String,
    pub updated_at: String,
    pub is_active: bool,
    pub sync_status: String,
    pub last_synced_at: Option<String>,
}

/// A cached project row.
#[derive(Debug, PartialEq)]
pub struct Project {
    pub id: i64,
    pub uuid: String,
    pub workspace_id: i64,
    pub name: String,
    pub description: Option<String>,
    pub owner_id: i64,
    pub created_at: String,
    pub updated_at: String,
    pub is_active: bool,
    pub sync_status: String,
    pub last_synced_at: Option<String>,
}

/// A cached user row.
#[derive(Debug, PartialEq)]
pub struct User {
    pub id: i64,
    pub uuid: String,
    pub email: String,
    pub username: String,
    pub first_name: Option<String>,
    pub last_name: Option<String>,
    pub is_active: bool,
    pub last_login: Option<String>,
    pub created_at: String,
}

/// One durable record of an outbound change awaiting replay.
#[derive(Debug, PartialEq)]
pub struct SyncQueue {
    pub id: i64,
    pub entity_type: String,
    pub entity_uuid: String,
    pub action: String,
    pub payload: String,
    pub status: String,
    pub retry_count: i64,
    pub created_at: String,
    pub updated_at: String,
    pub error_message: Option<String>,
}

fn clone_opt_string(o: &Option<String>) -> (r: Option<String>)
    ensures
        r == *o,
{
    match o {
        Some(s) => Some(s.clone()),
        None => None,
    }
}

impl Clone for Workspace {
    fn clone(&self) -> (res: Self)
        ensures
            res == *self,
    {
        Workspace {
            id: self.id,
            uuid: self.uuid.clone(),
            name: self.name.clone(),
            description: clone_opt_string(&self.description),
            owner_id: self.owner_id,
            created_at: self.created_at.clone(),
            updated_at: self.updated_at.clone(),
            is_active: self.is_active,
            sync_status: self.sync_status.clone(),
            last_synced_at: clone_opt_string(&self.last_synced_at),
        }
    }
}

impl Clone for Project {
    fn clone(&self) -> (res: Self)
        ensures
            res == *self,
    {
        Project {
            id: self.id,
            uuid: self.uuid.clone(),
            workspace_id: self.workspace_id,
            name: self.name.clone(),
            description: clone_opt_string(&self.description),
            owner_id: self.owner_id,
            created_at: self.created_at.clone(),
            updated_at: self.updated_at.clone(),
            is_active: self.is_active,
            sync_status: self.sync_status.clone(),
            last_synced_at: clone_opt_string(&self.last_synced_at),
        }
    }
}

impl Clone for User {
    fn clone(&self) -> (res: Self)
        ensures
            res == *self,
    {
        User {
            id: self.id,
            uuid: self.uuid.clone(),
            email: self.email.clone(),
            username: self.username.clone(),
            first_name: clone_opt_string(&self.first_name),
            last_name: clone_opt_string(&self.last_name),
            is_active: self.is_active,
            last_login: clone_opt_string(&self.last_login),
            created_at: self.created_at.clone(),
        }
    }
}

impl Clone for SyncQueue {
    fn clone(&self) -> (res: Self)
        ensures
            res == *self,
    {
        SyncQueue {
            id: self.id,
            entity_type: self.entity_type.clone(),
            entity_uuid: self.entity_uuid.clone(),
            action: self.action.clone(),
            payload: self.payload.clone(),
            status: self.status.clone(),
            retry_count: self.retry_count,
            created_at: self.created_at.clone(),
            updated_at: self.updated_at.clone(),
            error_message: clone_opt_string(&self.error_message),
        }
    }
}

/// No two workspace rows share a UUID.
pub open spec fn ws_uuids_distinct(rows: Seq<Workspace>) -> bool {
    forall|i: int, j: int| 0 <= i < j < rows.len() ==> rows[i].uuid@ != rows[j].uuid@
}

/// No two project rows share a UUID.
pub open spec fn proj_uuids_distinct(rows: Seq<Project>) -> bool {
    forall|i: int, j: int| 0 <= i < j < rows.len() ==> rows[i].uuid@ != rows[j].uuid@
}

/// No two user rows share a UUID.
pub open spec fn user_uuids_distinct(rows: Seq<User>) -> bool {
    forall|i: int, j: int| 0 <= i < j < rows.len() ==> rows[i].uuid@ != rows[j].uuid@
}

/// Queue ids are the store's own: positive, below the next id to hand
/// out, and distinct.
pub open spec fn sq_ids_ok(rows: Seq<SyncQueue>, next_id: i64) -> bool {
    &&& 1 <= next_id
    &&& forall|i: int| 0 <= i < rows.len() ==> 1 <= #[trigger] rows[i].id < next_id
    &&& forall|i: int, j: int| 0 <= i < j < rows.len() ==> rows[i].id != rows[j].id
}

/// The local cache: one table per mirrored entity and the outbound queue.
pub struct LocalDatabase {
    pub users: Vec<User>,
    pub workspaces: Vec<Workspace>,
    pub projects: Vec<Project>,
    pub sync_queue: Vec<SyncQueue>,
    pub next_sync_id: i64,
}

impl LocalDatabase {
    /// Every table keeps its UUIDs unique, and the queue its ids.
    pub open spec fn wf(self) -> bool {
        &&& ws_uuids_distinct(self.workspaces@)
        &&& proj_uuids_distinct(self.projects@)
        &&& user_uuids_distinct(self.users@)
        &&& sq_ids_ok(self.sync_queue@, self.next_sync_id)
    }

    /// A fresh, empty cache.
    pub fn new() -> (r: Self)
        ensures
            r.wf(),
            r.users@.len() == 0,
            r.workspaces@.len() == 0,
            r.projects@.len() == 0,
            r.sync_queue@.len() == 0,
            r.next_sync_id == 1,
    {
        LocalDatabase {
            users: Vec::new(),
            workspaces: Vec::new(),
            projects: Vec::new(),
            sync_queue: Vec::new(),
            next_sync_id: 1,
        }
    }
}

/// Whether some workspace row carries this UUID.
pub open spec fn ws_has(rows: Seq<Workspace>, uuid: Seq<char>) -> bool {
    exists|i: int| 0 <= i < rows.len() && rows[i].uuid@ == uuid
}

/// The index of the row carrying this UUID; meaningful under
/// `ws_uuids_distinct`, where it is unique.
pub open spec fn ws_index(rows: Seq<Workspace>, uuid: Seq<char>) -> int {
    choose|i: int| 0 <= i < rows.len() && rows[i].uuid@ == uuid
}

/// How an upsert merges an incoming workspace into the row already
/// carrying its UUID: the row keeps its numeric id, owner and creation
/// time; everything else is taken from the incoming value.
pub open spec fn spec_ws_merge(row: Workspace, w: Workspace) -> Workspace {
    Workspace {
        id: row.id,
        uuid: row.uuid,
        owner_id: row.owner_id,
        created_at: row.created_at,
        name: w.name,
        description: w.description,
        updated_at: w.updated_at,
        is_active: w.is_active,
        sync_status: w.sync_status,
        last_synced_at: w.last_synced_at,
    }
}

/// The workspace table after an upsert: merged in place when the UUID is
/// present, appended otherwise.
pub open spec fn spec_ws_upsert(rows: Seq<Workspace>, w: Workspace) -> Seq<Workspace> {
    if ws_has(rows, w.uuid@) {
        let i = ws_index(rows, w.uuid@);
        rows.update(i, spec_ws_merge(rows[i], w))
    } else {
        rows.push(w)
    }
}

/// Under distinct UUIDs, the row found for a UUID is exactly the one at
/// any index known to carry it.
pub proof fn lemma_ws_index_unique(rows: Seq<Workspace>, uuid: Seq<char>, i: int)
    requires
        ws_uuids_distinct(rows),
        0 <= i < rows.len(),
        rows[i].uuid@ == uuid,
    ensures
        ws_has(rows, uuid),
        ws_index(rows, uuid) == i,
{
    let j = ws_index(rows, uuid);
    if j != i {
        if j < i {
            assert(rows[j].uuid@ != rows[i].uuid@);
        } else {
            assert(rows[i].uuid@ != rows[j].uuid@);
        }
    }
}

impl LocalDatabase {
    /// Inserts the workspace, or — when a row with its UUID exists —
    /// updates that row in place, keyed on the UUID and never creating a
    /// duplicate.
    pub fn upsert_workspace(&mut self, w: Workspace)
        requires
            old(self).wf(),
        ensures
            final(self).wf(),
            final(self).workspaces@ == spec_ws_upsert(old(self).workspaces@, w),
            final(self).users == old(self).users,
            final(self).projects == old(self).projects,
            final(self).sync_queue == old(self).sync_queue,
            final(self).next_sync_id == old(self).next_sync_id,
    {
        let n = self.workspaces.len();
        let mut i: usize = 0;
        while i < n
            invariant
                *self == *old(self),
                old(self).wf(),
                n == self.workspaces@.len(),
                i <= n,
                forall|j: int| 0 <= j < i ==> self.workspaces@[j].uuid@ != w.uuid@,
            decreases n - i,
        {
            if self.workspaces[i].uuid == w.uuid {
                let row = &self.workspaces[i];
                let merged = Workspace {
                    id: row.id,
                    uuid: row.uuid.clone(),
                    owner_id: row.owner_id,
                    created_at: row.created_at.clone(),
                    name: w.name,
                    description: w.description,
                    updated_at: w.updated_at,
                    is_active: w.is_active,
                    sync_status: w.sync_status,
                    last_synced_at: w.last_synced_at,
                };
                proof {
                    lemma_ws_index_unique(self.workspaces@, w.uuid@, i as int);
                }
                self.workspaces.set(i, merged);
                proof {
                    let prev = old(self).workspaces@;
                    let updated = self.workspaces@;
                    assert forall|a: int, b: int|
                        0 <= a < b < updated.len() implies updated[a].uuid@
                        != updated[b].uuid@ by {
                        assert(updated[a].uuid@ == prev[a].uuid@);
                        assert(updated[b].uuid@ == prev[b].uuid@);
                    }
                }
                return ;
            }
            i = i + 1;
        }
        self.workspaces.push(w);
        proof {
            let prev = old(self).workspaces@;
            let updated = self.workspaces@;
            assert(!ws_has(prev, w.uuid@));
            assert forall|a: int, b: int|
                0 <= a < b < updated.len() implies updated[a].uuid@ != updated[b].uuid@ by {
                if b < prev.len() {
                    assert(prev[a].uuid@ != prev[b].uuid@);
                } else {
                    assert(updated[a].uuid@ == prev[a].uuid@);
                }
            }
        }
    }
}

/// Upserting the same workspace twice leaves the table exactly as one
/// upsert leaves it: with one row carrying the UUID, updated in place.
pub proof fn lemma_upsert_workspace_idempotent(rows: Seq<Workspace>, w: Workspace)
    requires
        ws_uuids_distinct(rows),
    ensures
        spec_ws_upsert(spec_ws_upsert(rows, w), w) == spec_ws_upsert(rows, w),
{
    let once = spec_ws_upsert(rows, w);
    if ws_has(rows, w.uuid@) {
        let i = ws_index(rows, w.uuid@);
        assert(once =~= rows.update(i, spec_ws_merge(rows[i], w)));
        assert(once[i].uuid@ == w.uuid@);
        assert(ws_uuids_distinct(once));
        lemma_ws_index_unique(once, w.uuid@, i);
        assert(spec_ws_merge(once[i], w) == once[i]);
        assert(spec_ws_upsert(once, w) =~= once.update(i, once[i]));
        assert(once.update(i, once[i]) =~= once);
    } else {
        assert(once =~= rows.push(w));
        let i = rows.len() as int;
        assert(once[i].uuid@ == w.uuid@);
        assert(ws_uuids_distinct(once));
        lemma_ws_index_unique(once, w.uuid@, i);
        assert(spec_ws_merge(once[i], w) == once[i]);
        assert(spec_ws_upsert(once, w) =~= once.update(i, once[i]));
        assert(once.update(i, once[i]) =~= once);
    }
}

broadcast use group_to_multiset_ensures, vstd::multiset::group_multiset_axioms;

/// Taking one more row extends the filtered prefix by that row exactly
/// when the row passes the predicate.
proof fn lemma_filter_take_step<A>(s: Seq<A>, p: spec_fn(A) -> bool, i: int)
    requires
        0 <= i < s.len(),
    ensures
        s.take(i + 1).filter(p) == (if p(s[i]) {
            s.take(i).filter(p).push(s[i])
        } else {
            s.take(i).filter(p)
        }),
{
    let t = s.take(i + 1);
    assert(t.drop_last() =~= s.take(i));
    assert(t.last() == s[i]);
    assert(t.filter(p) == (if p(t.last()) {
        t.drop_last().filter(p).push(t.last())
    } else {
        t.drop_last().filter(p)
    })) by {
        reveal_with_fuel(Seq::filter, 2);
    }
}

/// The order workspace and project listings come back in: the most
/// recently updated row first, by the lexicographic order of the text
/// timestamps.
pub open spec fn ws_newest_first(a: Workspace, b: Workspace) -> bool {
    lex_le(b.updated_at@, a.updated_at@)
}

pub open spec fn ws_order() -> spec_fn(Workspace, Workspace) -> bool {
    |a: Workspace, b: Workspace| ws_newest_first(a, b)
}

/// Which workspace rows a listing for `user_id` shows: owned by that user
/// and active.
pub open spec fn ws_visible(w: Workspace, user_id: i64) -> bool {
    w.owner_id == user_id && w.is_active
}

pub open spec fn ws_visible_pred(user_id: i64) -> spec_fn(Workspace) -> bool {
    |w: Workspace| ws_visible(w, user_id)
}

/// The index of a row none of whose fellows was updated later.
fn ws_max_updated_index(v: &Vec<Workspace>) -> (m: usize)
    requires
        v@.len() > 0,
    ensures
        m < v@.len(),
        forall|j: int| 0 <= j < v@.len() ==> lex_le(
            v@[j].updated_at@,
            v@[m as int].updated_at@,
        ),
{
    let mut m: usize = 0;
    let mut k: usize = 1;
    proof {
        lemma_lex_le_total(v@[0].updated_at@, v@[0].updated_at@);
    }
    while k < v.len()
        invariant
            m < k <= v@.len(),
            forall|j: int| 0 <= j < k ==> lex_le(v@[j].updated_at@, v@[m as int].updated_at@),
        decreases v@.len() - k,
    {
        if !str_lex_le(v[k].updated_at.as_str(), v[m].updated_at.as_str()) {
            proof {
                lemma_lex_le_total(v@[k as int].updated_at@, v@[m as int].updated_at@);
                assert forall|j: int| 0 <= j < k + 1 implies lex_le(
                    v@[j].updated_at@,
                    v@[k as int].updated_at@,
                ) by {
                    if j < k {
                        lemma_lex_le_trans(
                            v@[j].updated_at@,
                            v@[m as int].updated_at@,
                            v@[k as int].updated_at@,
                        );
                    } else {
                        lemma_lex_le_total(v@[k as int].updated_at@, v@[k as int].updated_at@);
                    }
                }
            }
            m = k;
        }
        k = k + 1;
    }
    m
}

/// Sorts workspace rows newest-first; the result holds exactly the rows
/// given, as a multiset.
fn sort_workspaces(input: Vec<Workspace>) -> (out: Vec<Workspace>)
    ensures
        out@.to_multiset() == input@.to_multiset(),
        sorted_by(out@, ws_order()),
{
    let ghost orig = input@;
    let mut rest = input;
    let mut out: Vec<Workspace> = Vec::new();
    proof {
        assert(out@ + rest@ =~= orig);
    }
    while rest.len() > 0
        invariant
            (out@ + rest@).to_multiset() == orig.to_multiset(),
            sorted_by(out@, ws_order()),
            forall|x: int, y: int| 0 <= x < out@.len() && 0 <= y < rest@.len()
                ==> ws_newest_first(out@[x], rest@[y]),
        decreases rest@.len(),
    {
        let ghost out_prev = out@;
        let ghost rest_prev = rest@;
        let m = ws_max_updated_index(&rest);
        let w = rest.remove(m);
        out.push(w);
        proof {
            assert(rest_prev.contains(w)) by {
                assert(rest_prev[m as int] == w);
            }
            vstd::seq_lib::lemma_multiset_commutative(out_prev, rest_prev);
            vstd::seq_lib::lemma_multiset_commutative(out@, rest@);
            assert(out@.to_multiset() == out_prev.to_multiset().insert(w));
            assert(rest@.to_multiset() == rest_prev.to_multiset().remove(w));
            assert(rest_prev.to_multiset().count(w) >= 1);
            assert forall|x: Workspace|
                (out@ + rest@).to_multiset().count(x) == (out_prev
                    + rest_prev).to_multiset().count(x) by {}
            assert((out@ + rest@).to_multiset() =~= (out_prev + rest_prev).to_multiset());
            assert(sorted_by(out@, ws_order())) by {
                assert(forall|x: int| 0 <= x < out_prev.len() ==> ws_newest_first(
                    out_prev[x],
                    w,
                ));
            }
            assert forall|x: int, y: int|
                0 <= x < out@.len() && 0 <= y < rest@.len() implies ws_newest_first(
                out@[x],
                rest@[y],
            ) by {
                let orig_y = if y < m { y } else { y + 1 };
                assert(rest@[y] == rest_prev[orig_y]);
                if x < out_prev.len() {
                    assert(ws_newest_first(out_prev[x], rest_prev[orig_y]));
                } else {
                    assert(out@[x] == w);
                    assert(lex_le(rest_prev[orig_y].updated_at@, w.updated_at@));
                }
            }
        }
    }
    proof {
        assert(out@ + rest@ =~= out@);
    }
    out
}

impl LocalDatabase {
    /// The workspaces a user sees: exactly the active rows owned by
    /// `user_id`, most recently updated first.
    pub fn get_workspaces(&self, user_id: i64) -> (r: Vec<Workspace>)
        ensures
            r@.to_multiset() == self.workspaces@.filter(ws_visible_pred(user_id)).to_multiset(),
            sorted_by(r@, ws_order()),
            forall|i: int| 0 <= i < r@.len() ==> ws_visible(#[trigger] r@[i], user_id),
    {
        let mut found: Vec<Workspace> = Vec::new();
        let n = self.workspaces.len();
        let mut i: usize = 0;
        proof {
            assert(self.workspaces@.take(0) =~= Seq::<Workspace>::empty());
            assert(found@ =~= self.workspaces@.take(0).filter(ws_visible_pred(user_id)));
        }
        while i < n
            invariant
                n == self.workspaces@.len(),
                i <= n,
                found@ == self.workspaces@.take(i as int).filter(ws_visible_pred(user_id)),
            decreases n - i,
        {
            let row = &self.workspaces[i];
            if row.owner_id == user_id && row.is_active {
                found.push(row.clone());
            }
            proof {
                lemma_filter_take_step(self.workspaces@, ws_visible_pred(user_id), i as int);
            }
            i = i + 1;
        }
        proof {
            assert(self.workspaces@.take(n as int) =~= self.workspaces@);
        }
        let r = sort_workspaces(found);
        proof {
            let f = self.workspaces@.filter(ws_visible_pred(user_id));
            assert forall|i: int| 0 <= i < r@.len() implies ws_visible(
                #[trigger] r@[i],
                user_id,
            ) by {
                let x = r@[i];
                assert(r@.contains(x));
                assert(f.to_multiset().count(x) > 0);
                assert(f.contains(x));
                let j = choose|j: int| 0 <= j < f.len() && f[j] == x;
                self.workspaces@.lemma_filter_pred(ws_visible_pred(user_id), j);
            }
        }
        r
    }
}

/// Whether some project row carries this UUID.
pub open spec fn proj_has(rows: Seq<Project>, uuid: Seq<char>) -> bool {
    exists|i: int| 0 <= i < rows.len() && rows[i].uuid@ == uuid
}

/// The index of the project row carrying this UUID; unique under
/// `proj_uuids_distinct`.
pub open spec fn proj_index(rows: Seq<Project>, uuid: Seq<char>) -> int {
    choose|i: int| 0 <= i < rows.len() && rows[i].uuid@ == uuid
}

/// How an upsert merges an incoming project into the row already carrying
/// its UUID: the row keeps its numeric id, workspace, owner and creation
/// time; everything else is taken from the incoming value.
pub open spec fn spec_proj_merge(row: Project, p: Project) -> Project {
    Project {
        id: row.id,
        uuid: row.uuid,
        workspace_id: row.workspace_id,
        owner_id: row.owner_id,
        created_at: row.created_at,
        name: p.name,
        description: p.description,
        updated_at: p.updated_at,
        is_active: p.is_active,
        sync_status: p.sync_status,
        last_synced_at: p.last_synced_at,
    }
}

/// The project table after an upsert.
pub open spec fn spec_proj_upsert(rows: Seq<Project>, p: Project) -> Seq<Project> {
    if proj_has(rows, p.uuid@) {
        let i = proj_index(rows, p.uuid@);
        rows.update(i, spec_proj_merge(rows[i], p))
    } else {
        rows.push(p)
    }
}

pub proof fn lemma_proj_index_unique(rows: Seq<Project>, uuid: Seq<char>, i: int)
    requires
        proj_uuids_distinct(rows),
        0 <= i < rows.len(),
        rows[i].uuid@ == uuid,
    ensures
        proj_has(rows, uuid),
        proj_index(rows, uuid) == i,
{
    let j = proj_index(rows, uuid);
    if j != i {
        if j < i {
            assert(rows[j].uuid@ != rows[i].uuid@);
        } else {
            assert(rows[i].uuid@ != rows[j].uuid@);
        }
    }
}

/// Which project rows a listing shows: in the given workspace, owned by
/// the user, and active.
pub open spec fn proj_visible(p: Project, workspace_id: i64, user_id: i64) -> bool {
    p.workspace_id == workspace_id && p.owner_id == user_id && p.is_active
}

pub open spec fn proj_visible_pred(workspace_id: i64, user_id: i64) -> spec_fn(Project) -> bool {
    |p: Project| proj_visible(p, workspace_id, user_id)
}

/// Project listings come back most recently updated first.
pub open spec fn proj_newest_first(a: Project, b: Project) -> bool {
    lex_le(b.updated_at@, a.updated_at@)
}

pub open spec fn proj_order() -> spec_fn(Project, Project) -> bool {
    |a: Project, b: Project| proj_newest_first(a, b)
}

fn proj_max_updated_index(v: &Vec<Project>) -> (m: usize)
    requires
        v@.len() > 0,
    ensures
        m < v@.len(),
        forall|j: int| 0 <= j < v@.len() ==> lex_le(
            v@[j].updated_at@,
            v@[m as int].updated_at@,
        ),
{
    let mut m: usize = 0;
    let mut k: usize = 1;
    proof {
        lemma_lex_le_total(v@[0].updated_at@, v@[0].updated_at@);
    }
    while k < v.len()
        invariant
            m < k <= v@.len(),
            forall|j: int| 0 <= j < k ==> lex_le(v@[j].updated_at@, v@[m as int].updated_at@),
        decreases v@.len() - k,
    {
        if !str_lex_le(v[k].updated_at.as_str(), v[m].updated_at.as_str()) {
            proof {
                lemma_lex_le_total(v@[k as int].updated_at@, v@[m as int].updated_at@);
                assert forall|j: int| 0 <= j < k + 1 implies lex_le(
                    v@[j].updated_at@,
                    v@[k as int].updated_at@,
                ) by {
                    if j < k {
                        lemma_lex_le_trans(
                            v@[j].updated_at@,
                            v@[m as int].updated_at@,
                            v@[k as int].updated_at@,
                        );
                    } else {
                        lemma_lex_le_total(v@[k as int].updated_at@, v@[k as int].updated_at@);
                    }
                }
            }
            m = k;
        }
        k = k + 1;
    }
    m
}

fn sort_projects(input: Vec<Project>) -> (out: Vec<Project>)
    ensures
        out@.to_multiset() == input@.to_multiset(),
        sorted_by(out@, proj_order()),
{
    let ghost orig = input@;
    let mut rest = input;
    let mut out: Vec<Project> = Vec::new();
    proof {
        assert(out@ + rest@ =~= orig);
    }
    while rest.len() > 0
        invariant
            (out@ + rest@).to_multiset() == orig.to_multiset(),
            sorted_by(out@, proj_order()),
            forall|x: int, y: int| 0 <= x < out@.len() && 0 <= y < rest@.len()
                ==> proj_newest_first(out@[x], rest@[y]),
        decreases rest@.len(),
    {
        let ghost out_prev = out@;
        let ghost rest_prev = rest@;
        let m = proj_max_updated_index(&rest);
        let w = rest.remove(m);
        out.push(w);
        proof {
            assert(rest_prev.contains(w)) by {
                assert(rest_prev[m as int] == w);
            }
            vstd::seq_lib::lemma_multiset_commutative(out_prev, rest_prev);
            vstd::seq_lib::lemma_multiset_commutative(out@, rest@);
            assert((out@ + rest@).to_multiset() =~= (out_prev + rest_prev).to_multiset());
            assert(sorted_by(out@, proj_order())) by {
                assert(forall|x: int| 0 <= x < out_prev.len() ==> proj_newest_first(
                    out_prev[x],
                    w,
                ));
            }
            assert forall|x: int, y: int|
                0 <= x < out@.len() && 0 <= y < rest@.len() implies proj_newest_first(
                out@[x],
                rest@[y],
            ) by {
                let orig_y = if y < m { y } else { y + 1 };
                assert(rest@[y] == rest_prev[orig_y]);
                if x < out_prev.len() {
                    assert(proj_newest_first(out_prev[x], rest_prev[orig_y]));
                } else {
                    assert(out@[x] == w);
                    assert(lex_le(rest_prev[orig_y].updated_at@, w.updated_at@));
                }
            }
        }
    }
    proof {
        assert(out@ + rest@ =~= out@);
    }
    out
}

impl LocalDatabase {
    /// Inserts the project, or updates the row with its UUID in place,
    /// exactly as `upsert_workspace` does for workspaces.
    pub fn upsert_project(&mut self, p: Project)
        requires
            old(self).wf(),
        ensures
            final(self).wf(),
            final(self).projects@ == spec_proj_upsert(old(self).projects@, p),
            final(self).users == old(self).users,
            final(self).workspaces == old(self).workspaces,
            final(self).sync_queue == old(self).sync_queue,
            final(self).next_sync_id == old(self).next_sync_id,
    {
        let n = self.projects.len();
        let mut i: usize = 0;
        while i < n
            invariant
                *self == *old(self),
                old(self).wf(),
                n == self.projects@.len(),
                i <= n,
                forall|j: int| 0 <= j < i ==> self.projects@[j].uuid@ != p.uuid@,
            decreases n - i,
        {
            if self.projects[i].uuid == p.uuid {
                let row = &self.projects[i];
                let merged = Project {
                    id: row.id,
                    uuid: row.uuid.clone(),
                    workspace_id: row.workspace_id,
                    owner_id: row.owner_id,
                    created_at: row.created_at.clone(),
                    name: p.name,
                    description: p.description,
                    updated_at: p.updated_at,
                    is_active: p.is_active,
                    sync_status: p.sync_status,
                    last_synced_at: p.last_synced_at,
                };
                proof {
                    lemma_proj_index_unique(self.projects@, p.uuid@, i as int);
                }
                self.projects.set(i, merged);
                proof {
                    let prev = old(self).projects@;
                    let updated = self.projects@;
                    assert forall|a: int, b: int|
                        0 <= a < b < updated.len() implies updated[a].uuid@
                        != updated[b].uuid@ by {
                        assert(updated[a].uuid@ == prev[a].uuid@);
                        assert(updated[b].uuid@ == prev[b].uuid@);
                    }
                }
                return ;
            }
            i = i + 1;
        }
        self.projects.push(p);
        proof {
            let prev = old(self).projects@;
            let updated = self.projects@;
            assert(!proj_has(prev, p.uuid@));
            assert forall|a: int, b: int|
                0 <= a < b < updated.len() implies updated[a].uuid@ != updated[b].uuid@ by {
                if b < prev.len() {
                    assert(prev[a].uuid@ != prev[b].uuid@);
                } else {
                    assert(updated[a].uuid@ == prev[a].uuid@);
                }
            }
        }
    }

    /// The projects a user sees in a workspace: exactly the active rows of
    /// that workspace owned by `user_id`, most recently updated first.
    pub fn get_projects(&self, workspace_id: i64, user_id: i64) -> (r: Vec<Project>)
        ensures
            r@.to_multiset() == self.projects@.filter(
                proj_visible_pred(workspace_id, user_id),
            ).to_multiset(),
            sorted_by(r@, proj_order()),
            forall|i: int| 0 <= i < r@.len() ==> proj_visible(
                #[trigger] r@[i],
                workspace_id,
                user_id,
            ),
    {
        let mut found: Vec<Project> = Vec::new();
        let n = self.projects.len();
        let mut i: usize = 0;
        proof {
            assert(self.projects@.take(0) =~= Seq::<Project>::empty());
            assert(found@ =~= self.projects@.take(0).filter(
                proj_visible_pred(workspace_id, user_id),
            ));
        }
        while i < n
            invariant
                n == self.projects@.len(),
                i <= n,
                found@ == self.projects@.take(i as int).filter(
                    proj_visible_pred(workspace_id, user_id),
                ),
            decreases n - i,
        {
            let row = &self.projects[i];
            if row.workspace_id == workspace_id && row.owner_id == user_id && row.is_active {
                found.push(row.clone());
            }
            proof {
                lemma_filter_take_step(
                    self.projects@,
                    proj_visible_pred(workspace_id, user_id),
                    i as int,
                );
            }
            i = i + 1;
        }
        proof {
            assert(self.projects@.take(n as int) =~= self.projects@);
        }
        let r = sort_projects(found);
        proof {
            let f = self.projects@.filter(proj_visible_pred(workspace_id, user_id));
            assert forall|i: int| 0 <= i < r@.len() implies proj_visible(
                #[trigger] r@[i],
                workspace_id,
                user_id,
            ) by {
                let x = r@[i];
                assert(r@.contains(x));
                assert(f.to_multiset().count(x) > 0);
                assert(f.contains(x));
                let j = choose|j: int| 0 <= j < f.len() && f[j] == x;
                self.projects@.lemma_filter_pred(proj_visible_pred(workspace_id, user_id), j);
            }
        }
        r
    }
}

/// Whether some user row carries this UUID.
pub open spec fn user_has(rows: Seq<User>, uuid: Seq<char>) -> bool {
    exists|i: int| 0 <= i < rows.len() && rows[i].uuid@ == uuid
}

/// The index of the user row carrying this UUID; unique under
/// `user_uuids_distinct`.
pub open spec fn user_index(rows: Seq<User>, uuid: Seq<char>) -> int {
    choose|i: int| 0 <= i < rows.len() && rows[i].uuid@ == uuid
}

/// How an upsert merges an incoming user into the row already carrying
/// its UUID: the row keeps its numeric id, UUID and creation time;
/// everything else is taken from the incoming value.
pub open spec fn spec_user_merge(row: User, u: User) -> User {
    User {
        id: row.id,
        uuid: row.uuid,
        created_at: row.created_at,
        email: u.email,
        username: u.username,
        first_name: u.first_name,
        last_name: u.last_name,
        is_active: u.is_active,
        last_login: u.last_login,
    }
}

/// The user table after an upsert.
pub open spec fn spec_user_upsert(rows: Seq<User>, u: User) -> Seq<User> {
    if user_has(rows, u.uuid@) {
        let i = user_index(rows, u.uuid@);
        rows.update(i, spec_user_merge(rows[i], u))
    } else {
        rows.push(u)
    }
}

pub proof fn lemma_user_index_unique(rows: Seq<User>, uuid: Seq<char>, i: int)
    requires
        user_uuids_distinct(rows),
        0 <= i < rows.len(),
        rows[i].uuid@ == uuid,
    ensures
        user_has(rows, uuid),
        user_index(rows, uuid) == i,
{
    let j = user_index(rows, uuid);
    if j != i {
        if j < i {
            assert(rows[j].uuid@ != rows[i].uuid@);
        } else {
            assert(rows[i].uuid@ != rows[j].uuid@);
        }
    }
}

impl LocalDatabase {
    /// Inserts the user, or updates the row with its UUID in place.
    pub fn upsert_user(&mut self, u: User)
        requires
            old(self).wf(),
        ensures
            final(self).wf(),
            final(self).users@ == spec_user_upsert(old(self).users@, u),
            final(self).workspaces == old(self).workspaces,
            final(self).projects == old(self).projects,
            final(self).sync_queue == old(self).sync_queue,
            final(self).next_sync_id == old(self).next_sync_id,
    {
        let n = self.users.len();
        let mut i: usize = 0;
        while i < n
            invariant
                *self == *old(self),
                old(self).wf(),
                n == self.users@.len(),
                i <= n,
                forall|j: int| 0 <= j < i ==> self.users@[j].uuid@ != u.uuid@,
            decreases n - i,
        {
            if self.users[i].uuid == u.uuid {
                let row = &self.users[i];
                let merged = User {
                    id: row.id,
                    uuid: row.uuid.clone(),
                    created_at: row.created_at.clone(),
                    email: u.email,
                    username: u.username,
                    first_name: u.first_name,
                    last_name: u.last_name,
                    is_active: u.is_active,
                    last_login: u.last_login,
                };
                proof {
                    lemma_user_index_unique(self.users@, u.uuid@, i as int);
                }
                self.users.set(i, merged);
                proof {
                    let prev = old(self).users@;
                    let updated = self.users@;
                    assert forall|a: int, b: int|
                        0 <= a < b < updated.len() implies updated[a].uuid@
                        != updated[b].uuid@ by {
                        assert(updated[a].uuid@ == prev[a].uuid@);
                        assert(updated[b].uuid@ == prev[b].uuid@);
                    }
                }
                return ;
            }
            i = i + 1;
        }
        self.users.push(u);
        proof {
            let prev = old(self).users@;
            let updated = self.users@;
            assert(!user_has(prev, u.uuid@));
            assert forall|a: int, b: int|
                0 <= a < b < updated.len() implies updated[a].uuid@ != updated[b].uuid@ by {
                if b < prev.len() {
                    assert(prev[a].uuid@ != prev[b].uuid@);
                } else {
                    assert(updated[a].uuid@ == prev[a].uuid@);
                }
            }
        }
    }

    /// The first user row carrying this numeric id, if any.
    pub fn get_user_by_id(&self, user_id: i64) -> (r: Option<User>)
        ensures
            match r {
                Some(u) => exists|i: int|
                    0 <= i < self.users@.len() && u == self.users@[i] && self.users@[i].id
                        == user_id && (forall|j: int| 0 <= j < i ==> self.users@[j].id != user_id),
                None => forall|j: int| 0 <= j < self.users@.len() ==> self.users@[j].id != user_id,
            },
    {
        let n = self.users.len();
        let mut i: usize = 0;
        while i < n
            invariant
                n == self.users@.len(),
                i <= n,
                forall|j: int| 0 <= j < i ==> self.users@[j].id != user_id,
            decreases n - i,
        {
            if self.users[i].id == user_id {
                return Some(self.users[i].clone());
            }
            i = i + 1;
        }
        None
    }
}

/// Upserting the same project twice leaves the table exactly as one
/// upsert leaves it.
pub proof fn lemma_upsert_project_idempotent(rows: Seq<Project>, p: Project)
    requires
        proj_uuids_distinct(rows),
    ensures
        spec_proj_upsert(spec_proj_upsert(rows, p), p) == spec_proj_upsert(rows, p),
{
    let once = spec_proj_upsert(rows, p);
    if proj_has(rows, p.uuid@) {
        let i = proj_index(rows, p.uuid@);
        assert(once =~= rows.update(i, spec_proj_merge(rows[i], p)));
        assert(once[i].uuid@ == p.uuid@);
        assert(proj_uuids_distinct(once));
        lemma_proj_index_unique(once, p.uuid@, i);
        assert(spec_proj_merge(once[i], p) == once[i]);
        assert(spec_proj_upsert(once, p) =~= once.update(i, once[i]));
        assert(once.update(i, once[i]) =~= once);
    } else {
        assert(once =~= rows.push(p));
        let i = rows.len() as int;
        assert(once[i].uuid@ == p.uuid@);
        assert(proj_uuids_distinct(once));
        lemma_proj_index_unique(once, p.uuid@, i);
        assert(spec_proj_merge(once[i], p) == once[i]);
        assert(spec_proj_upsert(once, p) =~= once.update(i, once[i]));
        assert(once.update(i, once[i]) =~= once);
    }
}

/// Upserting the same user twice leaves the table exactly as one upsert
/// leaves it.
pub proof fn lemma_upsert_user_idempotent(rows: Seq<User>, u: User)
    requires
        user_uuids_distinct(rows),
    ensures
        spec_user_upsert(spec_user_upsert(rows, u), u) == spec_user_upsert(rows, u),
{
    let once = spec_user_upsert(rows, u);
    if user_has(rows, u.uuid@) {
        let i = user_index(rows, u.uuid@);
        assert(once =~= rows.update(i, spec_user_merge(rows[i], u)));
        assert(once[i].uuid@ == u.uuid@);
        assert(user_uuids_distinct(once));
        lemma_user_index_unique(once, u.uuid@, i);
        assert(spec_user_merge(once[i], u) == once[i]);
        assert(spec_user_upsert(once, u) =~= once.update(i, once[i]));
        assert(once.update(i, once[i]) =~= once);
    } else {
        assert(once =~= rows.push(u));
        let i = rows.len() as int;
        assert(once[i].uuid@ == u.uuid@);
        assert(user_uuids_distinct(once));
        lemma_user_index_unique(once, u.uuid@, i);
        assert(spec_user_merge(once[i], u) == once[i]);
        assert(spec_user_upsert(once, u) =~= once.update(i, once[i]));
        assert(once.update(i, once[i]) =~= once);
    }
}

/// The index of the queue row carrying this id, if any; unique under
/// `sq_ids_ok`.
pub open spec fn sq_find(rows: Seq<SyncQueue>, id: i64) -> Option<int> {
    if exists|i: int| 0 <= i < rows.len() && rows[i].id == id {
        Some(choose|i: int| 0 <= i < rows.len() && rows[i].id == id)
    } else {
        None
    }
}

pub proof fn lemma_sq_find_unique(rows: Seq<SyncQueue>, next_id: i64, id: i64, i: int)
    requires
        sq_ids_ok(rows, next_id),
        0 <= i < rows.len(),
        rows[i].id == id,
    ensures
        sq_find(rows, id) == Some(i),
{
    let j = choose|i: int| 0 <= i < rows.len() && rows[i].id == id;
    if j != i {
        if j < i {
            assert(rows[j].id != rows[i].id);
        } else {
            assert(rows[i].id != rows[j].id);
        }
    }
}

/// A queue row awaiting replay.
pub open spec fn sq_pending(r: SyncQueue) -> bool {
    r.status@ == "pending"@
}

pub open spec fn sq_pending_pred() -> spec_fn(SyncQueue) -> bool {
    |r: SyncQueue| sq_pending(r)
}

/// Queue listings come back oldest first, by the lexicographic order of
/// the text timestamps.
pub open spec fn sq_oldest_first(a: SyncQueue, b: SyncQueue) -> bool {
    lex_le(a.created_at@, b.created_at@)
}

pub open spec fn sq_order() -> spec_fn(SyncQueue, SyncQueue) -> bool {
    |a: SyncQueue, b: SyncQueue| sq_oldest_first(a, b)
}

/// A completed row old enough to be retired: its last update lies
/// strictly before the cutoff.
pub open spec fn sq_expired(r: SyncQueue, cutoff: Seq<char>) -> bool {
    r.status@ == "completed"@ && lex_le(r.updated_at@, cutoff) && r.updated_at@ != cutoff
}

pub open spec fn sq_kept_pred(cutoff: Seq<char>) -> spec_fn(SyncQueue) -> bool {
    |r: SyncQueue| !sq_expired(r, cutoff)
}

/// Rows surviving a filter keep their ids distinct and in range.
proof fn lemma_sq_filter_ids_ok(rows: Seq<SyncQueue>, p: spec_fn(SyncQueue) -> bool, next_id: i64)
    requires
        sq_ids_ok(rows, next_id),
    ensures
        sq_ids_ok(rows.filter(p), next_id),
    decreases rows.len(),
{
    reveal_with_fuel(Seq::filter, 2);
    if rows.len() > 0 {
        let prefix = rows.drop_last();
        assert(sq_ids_ok(prefix, next_id));
        lemma_sq_filter_ids_ok(prefix, p, next_id);
        if p(rows.last()) {
            let kept = prefix.filter(p);
            assert forall|a: int, b: int|
                0 <= a < b < kept.push(rows.last()).len() implies kept.push(rows.last())[a].id
                != kept.push(rows.last())[b].id by {
                if b == kept.len() {
                    prefix.lemma_filter_contains_rev(p, kept[a]);
                    let j = choose|j: int| 0 <= j < prefix.len() && prefix[j] == kept[a];
                    assert(rows[j].id != rows.last().id);
                }
            }
        }
    }
}

fn sq_min_created_index(v: &Vec<SyncQueue>) -> (m: usize)
    requires
        v@.len() > 0,
    ensures
        m < v@.len(),
        forall|j: int| 0 <= j < v@.len() ==> lex_le(
            v@[m as int].created_at@,
            v@[j].created_at@,
        ),
{
    let mut m: usize = 0;
    let mut k: usize = 1;
    proof {
        lemma_lex_le_total(v@[0].created_at@, v@[0].created_at@);
    }
    while k < v.len()
        invariant
            m < k <= v@.len(),
            forall|j: int| 0 <= j < k ==> lex_le(v@[m as int].created_at@, v@[j].created_at@),
        decreases v@.len() - k,
    {
        if !str_lex_le(v[m].created_at.as_str(), v[k].created_at.as_str()) {
            proof {
                lemma_lex_le_total(v@[m as int].created_at@, v@[k as int].created_at@);
                assert forall|j: int| 0 <= j < k + 1 implies lex_le(
                    v@[k as int].created_at@,
                    v@[j].created_at@,
                ) by {
                    if j < k {
                        lemma_lex_le_trans(
                            v@[k as int].created_at@,
                            v@[m as int].created_at@,
                            v@[j].created_at@,
                        );
                    } else {
                        lemma_lex_le_total(v@[k as int].created_at@, v@[k as int].created_at@);
                    }
                }
            }
            m = k;
        }
        k = k + 1;
    }
    m
}

fn sort_sync_queue(input: Vec<SyncQueue>) -> (out: Vec<SyncQueue>)
    ensures
        out@.to_multiset() == input@.to_multiset(),
        sorted_by(out@, sq_order()),
{
    let ghost orig = input@;
    let mut rest = input;
    let mut out: Vec<SyncQueue> = Vec::new();
    proof {
        assert(out@ + rest@ =~= orig);
    }
    while rest.len() > 0
        invariant
            (out@ + rest@).to_multiset() == orig.to_multiset(),
            sorted_by(out@, sq_order()),
            forall|x: int, y: int| 0 <= x < out@.len() && 0 <= y < rest@.len()
                ==> sq_oldest_first(out@[x], rest@[y]),
        decreases rest@.len(),
    {
        let ghost out_prev = out@;
        let ghost rest_prev = rest@;
        let m = sq_min_created_index(&rest);
        let w = rest.remove(m);
        out.push(w);
        proof {
            assert(rest_prev.contains(w)) by {
                assert(rest_prev[m as int] == w);
            }
            vstd::seq_lib::lemma_multiset_commutative(out_prev, rest_prev);
            vstd::seq_lib::lemma_multiset_commutative(out@, rest@);
            assert((out@ + rest@).to_multiset() =~= (out_prev + rest_prev).to_multiset());
            assert(sorted_by(out@, sq_order())) by {
                assert(forall|x: int| 0 <= x < out_prev.len() ==> sq_oldest_first(
                    out_prev[x],
                    w,
                ));
            }
            assert forall|x: int, y: int|
                0 <= x < out@.len() && 0 <= y < rest@.len() implies sq_oldest_first(
                out@[x],
                rest@[y],
            ) by {
                let orig_y = if y < m { y } else { y + 1 };
                assert(rest@[y] == rest_prev[orig_y]);
                if x < out_prev.len() {
                    assert(sq_oldest_first(out_prev[x], rest_prev[orig_y]));
                } else {
                    assert(out@[x] == w);
                    assert(lex_le(w.created_at@, rest_prev[orig_y].created_at@));
                }
            }
        }
    }
    proof {
        assert(out@ + rest@ =~= out@);
    }
    out
}

impl LocalDatabase {
    /// Appends an outbound change: it gets the next queue id, the status
    /// `"pending"`, no retries yet, and `now` as both of its timestamps.
    pub fn add_to_sync_queue(
        &mut self,
        entity_type: &str,
        entity_uuid: &str,
        action: &str,
        payload: &str,
        now: &str,
    )
        requires
            old(self).wf(),
            old(self).next_sync_id < i64::MAX,
        ensures
            final(self).wf(),
            final(self).users == old(self).users,
            final(self).workspaces == old(self).workspaces,
            final(self).projects == old(self).projects,
            final(self).next_sync_id == old(self).next_sync_id + 1,
            final(self).sync_queue@.len() == old(self).sync_queue@.len() + 1,
            final(self).sync_queue@.drop_last() == old(self).sync_queue@,
            ({
                let row = final(self).sync_queue@.last();
                &&& row.id == old(self).next_sync_id
                &&& row.entity_type@ == entity_type@
                &&& row.entity_uuid@ == entity_uuid@
                &&& row.action@ == action@
                &&& row.payload@ == payload@
                &&& row.status@ == "pending"@
                &&& row.retry_count == 0
                &&& row.created_at@ == now@
                &&& row.updated_at@ == now@
                &&& row.error_message is None
            }),
    {
        let row = SyncQueue {
            id: self.next_sync_id,
            entity_type: entity_type.to_owned(),
            entity_uuid: entity_uuid.to_owned(),
            action: action.to_owned(),
            payload: payload.to_owned(),
            status: String::from_str("pending"),
            retry_count: 0,
            created_at: now.to_owned(),
            updated_at: now.to_owned(),
            error_message: None,
        };
        self.sync_queue.push(row);
        self.next_sync_id = self.next_sync_id + 1;
        proof {
            assert(self.sync_queue@.drop_last() =~= old(self).sync_queue@);
            let rows = self.sync_queue@;
            assert forall|i: int| 0 <= i < rows.len() implies 1 <= #[trigger] rows[i].id
                < self.next_sync_id by {}
            assert forall|i: int, j: int| 0 <= i < j < rows.len() implies rows[i].id
                != rows[j].id by {}
        }
    }

    /// The oldest hundred rows still awaiting replay, oldest first: a
    /// prefix of the pending rows sorted by creation time.
    pub fn get_pending_sync_items(&self) -> (r: Vec<SyncQueue>)
        ensures
            r@.len() <= 100,
            sorted_by(r@, sq_order()),
            forall|i: int| 0 <= i < r@.len() ==> sq_pending(#[trigger] r@[i]),
            exists|s: Seq<SyncQueue>|
                #[trigger] sorted_by(s, sq_order()) && s.to_multiset() == self.sync_queue@.filter(
                    sq_pending_pred(),
                ).to_multiset() && r@ == s.take(
                    if s.len() <= 100 {
                        s.len() as int
                    } else {
                        100
                    },
                ),
    {
        let mut found: Vec<SyncQueue> = Vec::new();
        let n = self.sync_queue.len();
        let mut i: usize = 0;
        proof {
            assert(self.sync_queue@.take(0) =~= Seq::<SyncQueue>::empty());
            assert(found@ =~= self.sync_queue@.take(0).filter(sq_pending_pred()));
        }
        while i < n
            invariant
                n == self.sync_queue@.len(),
                i <= n,
                found@ == self.sync_queue@.take(i as int).filter(sq_pending_pred()),
            decreases n - i,
        {
            let row = &self.sync_queue[i];
            if str_eq(row.status.as_str(), "pending") {
                found.push(row.clone());
            }
            proof {
                lemma_filter_take_step(self.sync_queue@, sq_pending_pred(), i as int);
            }
            i = i + 1;
        }
        proof {
            assert(self.sync_queue@.take(n as int) =~= self.sync_queue@);
        }
        let mut sorted = sort_sync_queue(found);
        let ghost full = sorted@;
        if sorted.len() > 100 {
            sorted.truncate(100);
            proof {
                assert(sorted@ == full.take(100));
            }
        } else {
            proof {
                assert(sorted@ =~= full.take(full.len() as int));
            }
        }
        proof {
            assert(sorted_by(full, sq_order()) && full.to_multiset() == self.sync_queue@.filter(
                sq_pending_pred(),
            ).to_multiset() && sorted@ == full.take(
                if full.len() <= 100 {
                    full.len() as int
                } else {
                    100
                },
            ));
            let f = self.sync_queue@.filter(sq_pending_pred());
            assert forall|i: int| 0 <= i < sorted@.len() implies sq_pending(
                #[trigger] sorted@[i],
            ) by {
                let x = full[i];
                assert(sorted@[i] == x);
                assert(full.contains(x));
                assert(f.to_multiset().count(x) > 0);
                assert(f.contains(x));
                let j = choose|j: int| 0 <= j < f.len() && f[j] == x;
                self.sync_queue@.lemma_filter_pred(sq_pending_pred(), j);
            }
        }
        sorted
    }

    /// Sets the status, the error text and the update time of the row
    /// carrying this id; with no such row the store is unchanged.
    pub fn update_sync_item_status(&mut self, id: i64, status: &str, error: Option<&str>, now: &str)
        requires
            old(self).wf(),
        ensures
            final(self).wf(),
            final(self).users == old(self).users,
            final(self).workspaces == old(self).workspaces,
            final(self).projects == old(self).projects,
            final(self).next_sync_id == old(self).next_sync_id,
            (match sq_find(old(self).sync_queue@, id) {
                Some(i) => {
                    let prev = old(self).sync_queue@;
                    let rows = final(self).sync_queue@;
                    &&& rows.len() == prev.len()
                    &&& forall|j: int| 0 <= j < rows.len() && j != i ==> rows[j] == prev[j]
                    &&& rows[i].id == prev[i].id
                    &&& rows[i].status@ == status@
                    &&& rows[i].updated_at@ == now@
                    &&& (match error {
                        Some(e) => rows[i].error_message is Some && rows[i].error_message->0@
                            == e@,
                        None => rows[i].error_message is None,
                    })
                    &&& rows[i].entity_type == prev[i].entity_type
                    &&& rows[i].entity_uuid == prev[i].entity_uuid
                    &&& rows[i].action == prev[i].action
                    &&& rows[i].payload == prev[i].payload
                    &&& rows[i].retry_count == prev[i].retry_count
                    &&& rows[i].created_at == prev[i].created_at
                },
                None => *final(self) == *old(self),
            }),
    {
        let n = self.sync_queue.len();
        let mut i: usize = 0;
        while i < n
            invariant
                *self == *old(self),
                old(self).wf(),
                n == self.sync_queue@.len(),
                i <= n,
                forall|j: int| 0 <= j < i ==> self.sync_queue@[j].id != id,
            decreases n - i,
        {
            if self.sync_queue[i].id == id {
                let row = &self.sync_queue[i];
                let updated = SyncQueue {
                    id: row.id,
                    entity_type: row.entity_type.clone(),
                    entity_uuid: row.entity_uuid.clone(),
                    action: row.action.clone(),
                    payload: row.payload.clone(),
                    status: status.to_owned(),
                    retry_count: row.retry_count,
                    created_at: row.created_at.clone(),
                    updated_at: now.to_owned(),
                    error_message: match error {
                        Some(e) => Some(e.to_owned()),
                        None => None,
                    },
                };
                proof {
                    lemma_sq_find_unique(self.sync_queue@, self.next_sync_id, id, i as int);
                }
                self.sync_queue.set(i, updated);
                proof {
                    let prev = old(self).sync_queue@;
                    let rows = self.sync_queue@;
                    assert forall|a: int| 0 <= a < rows.len() implies 1 <= #[trigger] rows[a].id
                        < self.next_sync_id by {
                        assert(rows[a].id == prev[a].id);
                    }
                    assert forall|a: int, b: int| 0 <= a < b < rows.len() implies rows[a].id
                        != rows[b].id by {
                        assert(rows[a].id == prev[a].id);
                        assert(rows[b].id == prev[b].id);
                    }
                }
                return ;
            }
            i = i + 1;
        }
        proof {
            assert(sq_find(old(self).sync_queue@, id) is None);
        }
    }

    /// Adds one retry to the row carrying this id and stamps the update
    /// time; the counter stops at its ceiling rather than wrapping. With
    /// no such row the store is unchanged.
    pub fn increment_sync_retry(&mut self, id: i64, now: &str)
        requires
            old(self).wf(),
        ensures
            final(self).wf(),
            final(self).users == old(self).users,
            final(self).workspaces == old(self).workspaces,
            final(self).projects == old(self).projects,
            final(self).next_sync_id == old(self).next_sync_id,
            (match sq_find(old(self).sync_queue@, id) {
                Some(i) => {
                    let prev = old(self).sync_queue@;
                    let rows = final(self).sync_queue@;
                    &&& rows.len() == prev.len()
                    &&& forall|j: int| 0 <= j < rows.len() && j != i ==> rows[j] == prev[j]
                    &&& rows[i].id == prev[i].id
                    &&& rows[i].retry_count as int == (if prev[i].retry_count < i64::MAX {
                        prev[i].retry_count + 1
                    } else {
                        prev[i].retry_count as int
                    })
                    &&& rows[i].updated_at@ == now@
                    &&& rows[i].status == prev[i].status
                    &&& rows[i].entity_type == prev[i].entity_type
                    &&& rows[i].entity_uuid == prev[i].entity_uuid
                    &&& rows[i].action == prev[i].action
                    &&& rows[i].payload == prev[i].payload
                    &&& rows[i].created_at == prev[i].created_at
                    &&& rows[i].error_message == prev[i].error_message
                },
                None => *final(self) == *old(self),
            }),
    {
        let n = self.sync_queue.len();
        let mut i: usize = 0;
        while i < n
            invariant
                *self == *old(self),
                old(self).wf(),
                n == self.sync_queue@.len(),
                i <= n,
                forall|j: int| 0 <= j < i ==> self.sync_queue@[j].id != id,
            decreases n - i,
        {
            if self.sync_queue[i].id == id {
                let row = &self.sync_queue[i];
                let bumped = if row.retry_count < i64::MAX {
                    row.retry_count + 1
                } else {
                    row.retry_count
                };
                let updated = SyncQueue {
                    id: row.id,
                    entity_type: row.entity_type.clone(),
                    entity_uuid: row.entity_uuid.clone(),
                    action: row.action.clone(),
                    payload: row.payload.clone(),
                    status: row.status.clone(),
                    retry_count: bumped,
                    created_at: row.created_at.clone(),
                    updated_at: now.to_owned(),
                    error_message: clone_opt_string(&row.error_message),
                };
                proof {
                    lemma_sq_find_unique(self.sync_queue@, self.next_sync_id, id, i as int);
                }
                self.sync_queue.set(i, updated);
                proof {
                    let prev = old(self).sync_queue@;
                    let rows = self.sync_queue@;
                    assert forall|a: int| 0 <= a < rows.len() implies 1 <= #[trigger] rows[a].id
                        < self.next_sync_id by {
                        assert(rows[a].id == prev[a].id);
                    }
                    assert forall|a: int, b: int| 0 <= a < b < rows.len() implies rows[a].id
                        != rows[b].id by {
                        assert(rows[a].id == prev[a].id);
                        assert(rows[b].id == prev[b].id);
                    }
                }
                return ;
            }
            i = i + 1;
        }
        proof {
            assert(sq_find(old(self).sync_queue@, id) is None);
        }
    }

    /// Retires the completed rows whose last update lies strictly before
    /// the cutoff, and reports how many went.
    pub fn clear_completed_sync_items(&mut self, cutoff: &str) -> (removed: usize)
        requires
            old(self).wf(),
        ensures
            final(self).wf(),
            final(self).users == old(self).users,
            final(self).workspaces == old(self).workspaces,
            final(self).projects == old(self).projects,
            final(self).next_sync_id == old(self).next_sync_id,
            final(self).sync_queue@ == old(self).sync_queue@.filter(sq_kept_pred(cutoff@)),
            removed == old(self).sync_queue@.len() - final(self).sync_queue@.len(),
    {
        let n = self.sync_queue.len();
        let mut kept: Vec<SyncQueue> = Vec::new();
        let mut i: usize = 0;
        proof {
            assert(self.sync_queue@.take(0) =~= Seq::<SyncQueue>::empty());
            assert(kept@ =~= self.sync_queue@.take(0).filter(sq_kept_pred(cutoff@)));
        }
        while i < n
            invariant
                *self == *old(self),
                old(self).wf(),
                n == self.sync_queue@.len(),
                i <= n,
                kept@ == self.sync_queue@.take(i as int).filter(sq_kept_pred(cutoff@)),
            decreases n - i,
        {
            let row = &self.sync_queue[i];
            let expired = str_eq(row.status.as_str(), "completed") && str_lex_le(
                row.updated_at.as_str(),
                cutoff,
            ) && !str_eq(row.updated_at.as_str(), cutoff);
            if !expired {
                kept.push(row.clone());
            }
            proof {
                lemma_filter_take_step(self.sync_queue@, sq_kept_pred(cutoff@), i as int);
            }
            i = i + 1;
        }
        proof {
            assert(self.sync_queue@.take(n as int) =~= self.sync_queue@);
            self.sync_queue@.lemma_filter_len(sq_kept_pred(cutoff@));
            lemma_sq_filter_ids_ok(self.sync_queue@, sq_kept_pred(cutoff@), self.next_sync_id);
        }
        let kept_len = kept.len();
        self.sync_queue = kept;
        n - kept_len
    }
}

} // verus!
