//! End-to-end scenarios over a freshly seeded store: provisioning, the
//! award/spend ledger path, and the idempotent task-reward state machine.

use taskbank::errors::Error;
use taskbank::records::{CreateUserRequest, TaskStatus, UniversalEmail, UniversalTask};
use taskbank::store::Store;

const NOW: i64 = 1_700_000_000;

fn request(device: &str, name: &str, password: &str) -> CreateUserRequest {
    CreateUserRequest {
        device_name: device.to_string(),
        name: name.to_string(),
        password: password.to_string(),
    }
}

fn task(id: u64, title: &str, points: i64) -> UniversalTask {
    UniversalTask {
        id,
        title: title.to_string(),
        description: "practice".to_string(),
        learning_module: None,
        points,
        task_type: "training".to_string(),
        task_data: None,
        level: 1,
    }
}

fn template(id: u64, subject: &str) -> UniversalEmail {
    UniversalEmail {
        id,
        from_user: "it-desk".to_string(),
        subject: subject.to_string(),
        body: "hello".to_string(),
    }
}

#[test]
fn award_then_overspend_keeps_balance() {
    let mut s = Store::new();
    let uid = s.create_account(request("devA", "alice", "pw1"), NOW).unwrap();
    assert_eq!(s.get_bank_details(uid).unwrap().balance, 0);

    s.award_points(uid, 100, "bonus".to_string(), NOW + 1).unwrap();
    assert_eq!(s.get_bank_details(uid).unwrap().balance, 100);

    let r = s.spend(uid, 150, "shop".to_string(), NOW + 2);
    assert_eq!(r, Err(Error::InsufficientFunds));
    assert_eq!(s.get_bank_details(uid).unwrap().balance, 100);
}

#[test]
fn completing_twice_awards_once() {
    let mut s = Store::new();
    s.add_universal_task(task(2, "Reset your password", 50)).unwrap();
    let uid = s.create_account(request("devA", "alice", "pw1"), NOW).unwrap();
    s.award_points(uid, 100, "bonus".to_string(), NOW + 1).unwrap();

    let msg = s.complete_task(2, uid, NOW + 2).unwrap();
    assert_eq!(msg, "Task completed and points awarded.");
    assert_eq!(s.get_bank_details(uid).unwrap().balance, 150);
    let rows = s.get_user_tasks(uid);
    assert_eq!(rows.len(), 1);
    assert_eq!(rows[0].universal_task_id, 2);
    assert_eq!(rows[0].status, TaskStatus::Completed);
    assert_eq!(rows[0].completed_at, Some(NOW + 2));

    // The second completion reports success but changes nothing.
    s.complete_task(2, uid, NOW + 3).unwrap();
    assert_eq!(s.get_bank_details(uid).unwrap().balance, 150);
    assert_eq!(s.get_user_tasks(uid).len(), 1);
    assert_eq!(s.transactions.len(), 2);
}

#[test]
fn reward_ledger_entry_names_the_task() {
    let mut s = Store::new();
    s.add_universal_task(task(7, "Spot the phish", 25)).unwrap();
    let uid = s.create_account(request("devB", "bob", "pw2"), NOW).unwrap();
    s.complete_task(7, uid, NOW + 1).unwrap();

    let txns = s.get_transactions(uid);
    assert_eq!(txns.len(), 1);
    assert_eq!(txns[0].description, "Reward: Spot the phish");
    assert_eq!(txns[0].amount, 25);
}

#[test]
fn reset_reopens_task_without_clawback() {
    let mut s = Store::new();
    s.add_universal_task(task(3, "Lock the screen", 10)).unwrap();
    let uid = s.create_account(request("devA", "alice", "pw1"), NOW).unwrap();
    s.complete_task(3, uid, NOW + 1).unwrap();
    assert_eq!(s.get_bank_details(uid).unwrap().balance, 10);

    s.reset_user_task(uid, 3).unwrap();
    let rows = s.get_user_tasks(uid);
    assert_eq!(rows[0].status, TaskStatus::ToDo);
    assert_eq!(rows[0].completed_at, None);
    // The earlier reward stays: resetting does not claw points back.
    assert_eq!(s.get_bank_details(uid).unwrap().balance, 10);

    // Completing again after a reset issues a second reward.
    s.complete_task(3, uid, NOW + 2).unwrap();
    assert_eq!(s.get_bank_details(uid).unwrap().balance, 20);
}

#[test]
fn failed_creation_leaves_no_rows() {
    let mut s = Store::new();
    s.add_universal_email(template(1, "welcome")).unwrap();
    s.create_account(request("devA", "alice", "pw1"), NOW).unwrap();
    let users = s.users.len();
    let accounts = s.accounts.len();
    let emails = s.user_emails.len();

    let r = s.create_account(request("devB", "alice", "pw2"), NOW + 1);
    assert_eq!(r, Err(Error::DuplicateName));
    assert_eq!(s.users.len(), users);
    assert_eq!(s.accounts.len(), accounts);
    assert_eq!(s.user_emails.len(), emails);

    let r = s.create_account(request("devB", "bob", ""), NOW + 2);
    assert_eq!(r, Err(Error::EmptyPassword));
    assert_eq!(s.users.len(), users);
    assert_eq!(s.accounts.len(), accounts);
    assert_eq!(s.user_emails.len(), emails);
}

#[test]
fn delete_account_removes_every_row() {
    let mut s = Store::new();
    s.add_universal_email(template(1, "welcome")).unwrap();
    s.add_universal_task(task(2, "Reset your password", 50)).unwrap();
    let uid = s.create_account(request("devA", "alice", "pw1"), NOW).unwrap();
    s.complete_task(2, uid, NOW + 1).unwrap();
    assert!(!s.transactions.is_empty());
    assert!(!s.user_emails.is_empty());

    s.delete_account(uid).unwrap();
    assert!(s.users.iter().all(|u| u.id != uid));
    assert!(s.accounts.iter().all(|a| a.user_id != uid));
    assert!(s.transactions.iter().all(|t| t.user_id != uid));
    assert!(s.user_tasks.iter().all(|t| t.user_id != uid));
    assert!(s.user_emails.iter().all(|e| e.user_id != uid));
    assert!(s.get_bank_details(uid).is_none());

    // The second deletion finds nothing.
    assert_eq!(s.delete_account(uid), Err(Error::NotFound));
}

#[test]
fn interleaved_spends_never_overdraw() {
    let mut s = Store::new();
    let uid = s.create_account(request("devA", "alice", "pw1"), NOW).unwrap();
    s.award_points(uid, 70, "seed".to_string(), NOW).unwrap();
    let mut successes = 0i64;
    for k in 0..10 {
        if s.spend(uid, 30, format!("round {}", k), NOW + k).is_ok() {
            successes += 1;
        }
        assert!(s.get_bank_details(uid).unwrap().balance >= 0);
    }
    // 70 points cover exactly two 30-point debits.
    assert_eq!(successes, 2);
    assert_eq!(s.get_bank_details(uid).unwrap().balance, 10);
}

#[test]
fn purchase_debits_and_grants_once() {
    let mut s = Store::new();
    let uid = s.create_account(request("devA", "alice", "pw1"), NOW).unwrap();
    s.award_points(uid, 100, "seed".to_string(), NOW).unwrap();

    s.purchase_service(uid, 9, 40, NOW + 1).unwrap();
    assert_eq!(s.get_bank_details(uid).unwrap().balance, 60);
    assert_eq!(s.get_user_services(uid), vec![9]);

    // Buying the same service again debits again but keeps one grant.
    s.purchase_service(uid, 9, 40, NOW + 2).unwrap();
    assert_eq!(s.get_bank_details(uid).unwrap().balance, 20);
    assert_eq!(s.get_user_services(uid), vec![9]);

    let r = s.purchase_service(uid, 11, 40, NOW + 3);
    assert_eq!(r, Err(Error::InsufficientFunds));
    assert_eq!(s.get_user_services(uid), vec![9]);
}

#[test]
fn transactions_list_newest_first() {
    let mut s = Store::new();
    let uid = s.create_account(request("devA", "alice", "pw1"), NOW).unwrap();
    s.award_points(uid, 10, "first".to_string(), NOW + 1).unwrap();
    s.award_points(uid, 20, "second".to_string(), NOW + 2).unwrap();
    s.spend(uid, 5, "third".to_string(), NOW + 3).unwrap();

    let txns = s.get_transactions(uid);
    let descriptions: Vec<&str> = txns.iter().map(|t| t.description.as_str()).collect();
    assert_eq!(descriptions, vec!["third", "second", "first"]);
    assert_eq!(txns[0].amount, -5);
}

#[test]
fn failed_reward_leaves_status_unchanged() {
    let mut s = Store::new();
    s.add_universal_task(task(5, "Grand prize", 10)).unwrap();
    let uid = s.create_account(request("devA", "alice", "pw1"), NOW).unwrap();
    s.award_points(uid, i64::MAX, "max out".to_string(), NOW).unwrap();

    // The reward would overflow the balance, so the completion is refused
    // as a whole: no status flip, no ledger entry.
    let r = s.complete_task(5, uid, NOW + 1);
    assert_eq!(r, Err(Error::DatabaseFailure));
    assert!(s.get_user_tasks(uid).is_empty());
    assert_eq!(s.transactions.len(), 1);
    assert_eq!(s.get_bank_details(uid).unwrap().balance, i64::MAX);
}
