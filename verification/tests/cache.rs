use novem_core::cache::{LocalDatabase, Project, SyncQueue, User, Workspace};

fn ws(uuid: &str, name: &str, owner_id: i64, updated_at: &str, is_active: bool) -> Workspace {
    Workspace {
        id: 0,
        uuid: uuid.to_string(),
        name: name.to_string(),
        description: None,
        owner_id,
        created_at: "2024-01-01 00:00:00".to_string(),
        updated_at: updated_at.to_string(),
        is_active,
        sync_status: "synced".to_string(),
        last_synced_at: None,
    }
}

fn proj(uuid: &str, workspace_id: i64, owner_id: i64, updated_at: &str, is_active: bool) -> Project {
    Project {
        id: 0,
        uuid: uuid.to_string(),
        workspace_id,
        name: uuid.to_string(),
        description: None,
        owner_id,
        created_at: "2024-01-01 00:00:00".to_string(),
        updated_at: updated_at.to_string(),
        is_active,
        sync_status: "synced".to_string(),
        last_synced_at: None,
    }
}

fn user(id: i64, uuid: &str, email: &str) -> User {
    User {
        id,
        uuid: uuid.to_string(),
        email: email.to_string(),
        username: email.to_string(),
        first_name: None,
        last_name: None,
        is_active: true,
        last_login: None,
        created_at: "2024-01-01 00:00:00".to_string(),
    }
}

#[test]
fn database_starts_empty() {
    let db = LocalDatabase::new();
    assert!(db.users.is_empty());
    assert!(db.workspaces.is_empty());
    assert!(db.projects.is_empty());
    assert!(db.sync_queue.is_empty());
}

#[test]
fn workspace_upsert_is_idempotent_and_updates_in_place() {
    let mut db = LocalDatabase::new();
    db.upsert_workspace(ws("w1", "A", 1, "2024-01-02 00:00:00", true));
    db.upsert_workspace(ws("w1", "A", 1, "2024-01-02 00:00:00", true));
    assert_eq!(db.workspaces.len(), 1);
    assert_eq!(db.workspaces[0].uuid, "w1");
    assert_eq!(db.workspaces[0].name, "A");

    // A changed row with the same UUID updates in place, no duplicate.
    db.upsert_workspace(ws("w1", "B", 1, "2024-01-03 00:00:00", true));
    assert_eq!(db.workspaces.len(), 1);
    assert_eq!(db.workspaces[0].name, "B");
    assert_eq!(db.workspaces[0].updated_at, "2024-01-03 00:00:00");
}

#[test]
fn workspace_upsert_keeps_id_owner_and_creation_time() {
    let mut db = LocalDatabase::new();
    let mut first = ws("w1", "A", 1, "2024-01-02 00:00:00", true);
    first.id = 41;
    db.upsert_workspace(first);
    let mut second = ws("w1", "B", 2, "2024-01-03 00:00:00", true);
    second.id = 99;
    second.created_at = "2030-01-01 00:00:00".to_string();
    db.upsert_workspace(second);
    assert_eq!(db.workspaces.len(), 1);
    assert_eq!(db.workspaces[0].id, 41);
    assert_eq!(db.workspaces[0].owner_id, 1);
    assert_eq!(db.workspaces[0].created_at, "2024-01-01 00:00:00");
    assert_eq!(db.workspaces[0].name, "B");
}

#[test]
fn get_workspaces_filters_by_owner_and_activity_and_orders_newest_first() {
    let mut db = LocalDatabase::new();
    db.upsert_workspace(ws("w1", "older", 7, "2024-01-02 00:00:00", true));
    db.upsert_workspace(ws("w2", "inactive", 7, "2024-01-05 00:00:00", false));
    db.upsert_workspace(ws("w3", "other-owner", 8, "2024-01-06 00:00:00", true));
    db.upsert_workspace(ws("w4", "newer", 7, "2024-01-03 00:00:00", true));
    let listed = db.get_workspaces(7);
    assert_eq!(listed.len(), 2);
    assert_eq!(listed[0].uuid, "w4");
    assert_eq!(listed[1].uuid, "w1");
    assert!(listed.iter().all(|w| w.owner_id == 7 && w.is_active));
}

#[test]
fn get_projects_filters_by_workspace_owner_and_activity() {
    let mut db = LocalDatabase::new();
    db.upsert_project(proj("p1", 1, 7, "2024-01-02 00:00:00", true));
    db.upsert_project(proj("p2", 1, 7, "2024-01-04 00:00:00", true));
    db.upsert_project(proj("p3", 2, 7, "2024-01-05 00:00:00", true));
    db.upsert_project(proj("p4", 1, 8, "2024-01-06 00:00:00", true));
    db.upsert_project(proj("p5", 1, 7, "2024-01-07 00:00:00", false));
    let listed = db.get_projects(1, 7);
    assert_eq!(listed.len(), 2);
    assert_eq!(listed[0].uuid, "p2");
    assert_eq!(listed[1].uuid, "p1");
}

#[test]
fn project_upsert_is_idempotent() {
    let mut db = LocalDatabase::new();
    db.upsert_project(proj("p1", 1, 7, "2024-01-02 00:00:00", true));
    db.upsert_project(proj("p1", 1, 7, "2024-01-02 00:00:00", true));
    assert_eq!(db.projects.len(), 1);
}

#[test]
fn users_are_upserted_by_uuid_and_found_by_id() {
    let mut db = LocalDatabase::new();
    db.upsert_user(user(7, "u1", "a@example.com"));
    db.upsert_user(user(7, "u1", "b@example.com"));
    assert_eq!(db.users.len(), 1);
    let found = db.get_user_by_id(7).unwrap();
    assert_eq!(found.email, "b@example.com");
    assert_eq!(found.created_at, "2024-01-01 00:00:00");
    assert!(db.get_user_by_id(8).is_none());
}

#[test]
fn sync_queue_entries_start_pending_with_fresh_ids() {
    let mut db = LocalDatabase::new();
    db.add_to_sync_queue("workspace", "w1", "create", "{}", "2024-01-01 10:00:00");
    db.add_to_sync_queue("project", "p1", "update", "{\"name\":\"x\"}", "2024-01-01 09:00:00");
    assert_eq!(db.sync_queue.len(), 2);
    assert_eq!(db.sync_queue[0].id, 1);
    assert_eq!(db.sync_queue[1].id, 2);
    assert!(db.sync_queue.iter().all(|e| e.status == "pending" && e.retry_count == 0));
}

#[test]
fn pending_items_come_back_oldest_first() {
    let mut db = LocalDatabase::new();
    db.add_to_sync_queue("workspace", "w1", "create", "{}", "2024-01-01 10:00:00");
    db.add_to_sync_queue("project", "p1", "update", "{}", "2024-01-01 09:00:00");
    db.add_to_sync_queue("project", "p2", "delete", "{}", "2024-01-01 11:00:00");
    let pending = db.get_pending_sync_items();
    assert_eq!(pending.len(), 3);
    assert_eq!(pending[0].entity_uuid, "p1");
    assert_eq!(pending[1].entity_uuid, "w1");
    assert_eq!(pending[2].entity_uuid, "p2");
}

#[test]
fn pending_items_are_capped_at_one_hundred() {
    let mut db = LocalDatabase::new();
    for i in 0..105 {
        let stamp = format!("2024-01-01 00:00:{:02}.{:03}", i / 1000, i % 1000);
        db.add_to_sync_queue("workspace", &format!("w{}", i), "create", "{}", &stamp);
    }
    let pending = db.get_pending_sync_items();
    assert_eq!(pending.len(), 100);
    assert_eq!(pending[0].entity_uuid, "w0");
}

#[test]
fn status_updates_touch_only_the_named_entry() {
    let mut db = LocalDatabase::new();
    db.add_to_sync_queue("workspace", "w1", "create", "{}", "2024-01-01 10:00:00");
    db.add_to_sync_queue("project", "p1", "update", "{}", "2024-01-01 10:00:00");
    db.update_sync_item_status(1, "failed", Some("server rejected it"), "2024-01-02 00:00:00");
    assert_eq!(db.sync_queue[0].status, "failed");
    assert_eq!(db.sync_queue[0].error_message.as_deref(), Some("server rejected it"));
    assert_eq!(db.sync_queue[0].updated_at, "2024-01-02 00:00:00");
    assert_eq!(db.sync_queue[1].status, "pending");

    db.update_sync_item_status(1, "completed", None, "2024-01-03 00:00:00");
    assert_eq!(db.sync_queue[0].status, "completed");
    assert_eq!(db.sync_queue[0].error_message, None);
}

#[test]
fn retries_are_counted_per_entry() {
    let mut db = LocalDatabase::new();
    db.add_to_sync_queue("workspace", "w1", "create", "{}", "2024-01-01 10:00:00");
    db.increment_sync_retry(1, "2024-01-01 10:05:00");
    db.increment_sync_retry(1, "2024-01-01 10:10:00");
    assert_eq!(db.sync_queue[0].retry_count, 2);
    assert_eq!(db.sync_queue[0].updated_at, "2024-01-01 10:10:00");
}

#[test]
fn only_old_completed_entries_are_cleared() {
    let mut db = LocalDatabase::new();
    db.add_to_sync_queue("workspace", "w1", "create", "{}", "2024-01-01 10:00:00");
    db.add_to_sync_queue("project", "p1", "update", "{}", "2024-01-01 10:00:00");
    db.add_to_sync_queue("project", "p2", "delete", "{}", "2024-01-01 10:00:00");
    // w1 completed long ago, p1 completed recently, p2 still pending.
    db.update_sync_item_status(1, "completed", None, "2024-01-02 00:00:00");
    db.update_sync_item_status(2, "completed", None, "2024-02-01 00:00:00");
    let removed = db.clear_completed_sync_items("2024-01-10 00:00:00");
    assert_eq!(removed, 1);
    assert_eq!(db.sync_queue.len(), 2);
    assert!(db.sync_queue.iter().all(|e| e.entity_uuid != "w1"));
}

#[test]
fn queue_rows_survive_unrelated_ids() {
    let mut db = LocalDatabase::new();
    db.add_to_sync_queue("workspace", "w1", "create", "{}", "2024-01-01 10:00:00");
    let before = db.sync_queue[0].clone();
    db.update_sync_item_status(42, "failed", None, "2024-01-02 00:00:00");
    db.increment_sync_retry(42, "2024-01-02 00:00:00");
    assert_eq!(db.sync_queue.len(), 1);
    assert_eq!(db.sync_queue[0], before);
}
