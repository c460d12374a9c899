//! The remaining surface: profile and credential maintenance, the inbox,
//! the verification predicates, the guarded file, and one input for every
//! error kind.

use taskbank::errors::Error;
use taskbank::records::{
    CreateBankAccountRequest, CreateUserRequest, UniversalEmail, UniversalTask, UpdateCardRequest,
    UpdateUserRequest,
};
use taskbank::store::Store;
use taskbank::task::{decrypt_file_content, verify_hidden_file};

const NOW: i64 = 1_700_000_000;

fn request(device: &str, name: &str, password: &str) -> CreateUserRequest {
    CreateUserRequest {
        device_name: device.to_string(),
        name: name.to_string(),
        password: password.to_string(),
    }
}

fn task(id: u64, title: &str, points: i64) -> UniversalTask {
    UniversalTask {
        id,
        title: title.to_string(),
        description: "practice".to_string(),
        learning_module: None,
        points,
        task_type: "training".to_string(),
        task_data: None,
        level: 1,
    }
}

fn template(id: u64, subject: &str) -> UniversalEmail {
    UniversalEmail {
        id,
        from_user: "it-desk".to_string(),
        subject: subject.to_string(),
        body: "hello".to_string(),
    }
}

#[test]
fn update_user_info_changes_exactly_the_given_fields() {
    let mut s = Store::new();
    let uid = s.create_account(request("devA", "alice", "pw1"), NOW).unwrap();

    let r = s.update_user_info(
        uid,
        UpdateUserRequest { device_name: None, ip: None, mac: None },
    );
    assert_eq!(r, Err(Error::NoFieldsSpecified));

    s.update_user_info(
        uid,
        UpdateUserRequest {
            device_name: Some("devZ".to_string()),
            ip: Some("10.0.0.9".to_string()),
            mac: None,
        },
    )
    .unwrap();
    let d = s.get_user_details(&"alice".to_string()).unwrap();
    assert_eq!(d.device_name, "devZ");
    assert_eq!(d.ip, "10.0.0.9");
    assert_eq!(d.id, uid);
    assert_eq!(d.bank_account.unwrap().balance, 0);

    // An unknown user matches no row; the update reports success.
    let r = s.update_user_info(
        uid + 100,
        UpdateUserRequest { device_name: Some("ghost".to_string()), ip: None, mac: None },
    );
    assert_eq!(r, Ok(()));
}

#[test]
fn login_and_password_change() {
    let mut s = Store::new();
    s.create_account(request("devA", "alice", "hash-one"), NOW).unwrap();

    assert!(s.verify_user(&"alice".to_string(), &"hash-one".to_string()));
    assert!(!s.verify_user(&"alice".to_string(), &"hash-two".to_string()));
    let u = s.login(&"alice".to_string(), &"hash-one".to_string()).unwrap();
    assert_eq!(u.name, "alice");
    let r = s.login(&"alice".to_string(), &"wrong".to_string());
    assert_eq!(r.map(|u| u.id), Err(Error::InvalidCredentials));

    let r = s.change_password(
        &"alice".to_string(),
        &"wrong".to_string(),
        &"hash-two".to_string(),
    );
    assert_eq!(r, Err(Error::InvalidCredentials));
    s.change_password(
        &"alice".to_string(),
        &"hash-one".to_string(),
        &"hash-two".to_string(),
    )
    .unwrap();
    assert!(s.verify_user(&"alice".to_string(), &"hash-two".to_string()));

    let r = s.change_password(
        &"alice".to_string(),
        &"hash-two".to_string(),
        &"".to_string(),
    );
    assert_eq!(r, Err(Error::EmptyPassword));
}

#[test]
fn reset_password_completes_the_reset_task() {
    let mut s = Store::new();
    s.add_universal_task(task(2, "Reset your password", 50)).unwrap();
    let uid = s.create_account(request("devA", "alice", "hash-one"), NOW).unwrap();

    s.reset_password(&"alice".to_string(), "hash-new".to_string(), NOW + 1).unwrap();
    assert!(s.verify_user(&"alice".to_string(), &"hash-new".to_string()));
    assert_eq!(s.get_bank_details(uid).unwrap().balance, 50);

    let r = s.reset_password(&"nobody".to_string(), "hash-x".to_string(), NOW + 2);
    assert_eq!(r, Err(Error::NotFound));
}

#[test]
fn inbox_seeding_is_idempotent() {
    let mut s = Store::new();
    s.add_universal_email(template(1, "welcome")).unwrap();
    s.add_universal_email(template(3, "urgent wire transfer")).unwrap();
    let uid = s.create_account(request("devA", "alice", "pw1"), NOW).unwrap();
    assert_eq!(s.user_emails.len(), 2);

    // A template added later is filled in by the next listing, once.
    s.add_universal_email(template(4, "newsletter")).unwrap();
    let emails = s.get_emails(uid).unwrap();
    assert_eq!(emails.len(), 3);
    assert_eq!(s.user_emails.len(), 3);
    let again = s.get_emails(uid).unwrap();
    assert_eq!(again.len(), 3);
    assert_eq!(s.user_emails.len(), 3);
    assert_eq!(emails[0].subject, "welcome");
    assert!(!emails[0].is_read);
    assert_eq!(emails[0].classification, "none");
}

#[test]
fn classification_feeds_the_verification_predicate() {
    let mut s = Store::new();
    s.add_universal_email(template(1, "welcome")).unwrap();
    s.add_universal_email(template(3, "urgent wire transfer")).unwrap();
    let uid = s.create_account(request("devA", "alice", "pw1"), NOW).unwrap();

    assert!(!s.verify_email_classification(uid));
    s.classify_email(uid, 1, "spam".to_string()).unwrap();
    assert!(!s.verify_email_classification(uid));
    s.classify_email(uid, 3, "phishing".to_string()).unwrap();
    assert!(s.verify_email_classification(uid));

    s.mark_email_as_read(uid, 1).unwrap();
    assert!(s.user_emails.iter().any(|e| e.universal_email_id == 1 && e.is_read));
    s.delete_email(uid, 1).unwrap();
    assert_eq!(s.user_emails.len(), 1);
    assert!(!s.verify_email_classification(uid));
}

#[test]
fn strong_password_predicate_compares_against_default() {
    let mut s = Store::new();
    let uid = s.create_account(request("devA", "alice", "default-hash"), NOW).unwrap();
    let default_hash = "default-hash".to_string();
    assert_eq!(s.verify_strong_password_task(uid, &default_hash), Ok(false));
    s.change_password(
        &"alice".to_string(),
        &"default-hash".to_string(),
        &"better-hash".to_string(),
    )
    .unwrap();
    assert_eq!(s.verify_strong_password_task(uid, &default_hash), Ok(true));
    assert_eq!(s.verify_strong_password_task(uid + 5, &default_hash), Err(Error::NotFound));
}

#[test]
fn guarded_file_round_trip() {
    let mut s = Store::new();
    s.add_universal_task(task(4, "Encrypt the sensitive file", 30)).unwrap();
    let uid = s.create_account(request("devA", "alice", "pw1"), NOW).unwrap();
    let path = "/home/user/sensitive_data.txt".to_string();

    let r = s.encrypt_file(path.clone(), "letmein".to_string(), uid, NOW + 1);
    assert_eq!(r, Err(Error::InvalidCredentials));
    assert!(!s.is_file_encrypted(&path, uid));

    let msg = s.encrypt_file(path.clone(), "TopSecret#9900".to_string(), uid, NOW + 1).unwrap();
    assert_eq!(msg, "File encrypted successfully.");
    assert!(s.is_file_encrypted(&path, uid));
    assert!(s.verify_file_encryption(&path));
    assert_eq!(s.get_bank_details(uid).unwrap().balance, 30);

    // Encrypting again keeps one record and one reward.
    s.encrypt_file(path.clone(), "TopSecret#9900".to_string(), uid, NOW + 2).unwrap();
    assert_eq!(s.encrypted_files.len(), 1);
    assert_eq!(s.get_bank_details(uid).unwrap().balance, 30);

    let content = decrypt_file_content(&path, &"TopSecret#9900".to_string()).unwrap();
    assert!(content.starts_with("Hash Passwords:"));
    assert!(content.contains("5f4dcc3b5aa765d61d8327deb882cf99"));
    let r = decrypt_file_content(&path, &"nope".to_string());
    assert_eq!(r, Err(Error::InvalidCredentials));

    s.delete_encrypted_file_entry(&path, uid).unwrap();
    assert!(!s.is_file_encrypted(&path, uid));
}

#[test]
fn hidden_file_token_is_exact() {
    assert!(verify_hidden_file(&"c_y_b_e_r_s_e_c_u_r_i_t_y".to_string()));
    assert!(!verify_hidden_file(&"cybersecurity".to_string()));
}

#[test]
fn standalone_bank_account_and_new_card() {
    let mut s = Store::new();
    let uid = s.create_account(request("devA", "alice", "pw1"), NOW).unwrap();

    // One account per user: a second one would break the store constraint.
    let r = s.create_bank_account(CreateBankAccountRequest { user_id: uid }, NOW + 1);
    assert_eq!(r, Err(Error::DatabaseFailure));
    let r = s.create_bank_account(CreateBankAccountRequest { user_id: uid + 7 }, NOW + 1);
    assert_eq!(r, Err(Error::DatabaseFailure));

    let old_card = s.get_bank_details(uid).unwrap().card_number;
    assert_eq!(old_card.len(), 16);
    assert!(old_card.starts_with("0057"));

    let r = s.update_card_details(UpdateCardRequest { user_id: uid, generate_new_card: false });
    assert_eq!(r, Err(Error::NoFieldsSpecified));
    s.generate_new_card(uid).unwrap();
    let fresh = s.get_bank_details(uid).unwrap();
    assert_eq!(fresh.card_number.len(), 16);
    assert!(fresh.card_number.starts_with("0057"));
    assert_eq!(fresh.cvc.len(), 3);
    assert_eq!(fresh.balance, 0);
}

#[test]
fn every_error_kind_has_an_input() {
    let mut s = Store::new();
    s.add_universal_email(template(1, "welcome")).unwrap();
    let uid = s.create_account(request("devA", "alice", "pw1"), NOW).unwrap();

    let dup = s.create_account(request("devB", "alice", "pw2"), NOW);
    assert_eq!(dup, Err(Error::DuplicateName));
    let empty = s.create_account(request("devB", "bob", ""), NOW);
    assert_eq!(empty, Err(Error::EmptyPassword));
    let missing = s.award_points(uid + 9, 5, "x".to_string(), NOW);
    assert_eq!(missing, Err(Error::NotFound));
    let no_task = s.complete_task(99, uid, NOW);
    assert_eq!(no_task, Err(Error::TaskNotFound));
    let no_fields =
        s.update_user_info(uid, UpdateUserRequest { device_name: None, ip: None, mac: None });
    assert_eq!(no_fields, Err(Error::NoFieldsSpecified));
    let short = s.spend(uid, 1, "x".to_string(), NOW);
    assert_eq!(short, Err(Error::InsufficientFunds));
    let negative = s.spend(uid, -5, "x".to_string(), NOW);
    assert_eq!(negative, Err(Error::InvalidAmount));
    let wrong = s.login(&"alice".to_string(), &"bad".to_string());
    assert!(wrong.is_err());
    s.award_points(uid, i64::MAX, "fill".to_string(), NOW).unwrap();
    let overflow = s.award_points(uid, 1, "spill".to_string(), NOW);
    assert_eq!(overflow, Err(Error::DatabaseFailure));
    let drain = s.award_points(uid, i64::MIN + 1, "drain twice over".to_string(), NOW);
    assert!(drain.is_ok());
    let under = s.award_points(uid, -1, "below zero".to_string(), NOW);
    assert_eq!(under, Err(Error::DatabaseFailure));
}

#[test]
fn seed_data_constraints_are_enforced() {
    let mut s = Store::new();
    s.add_universal_task(task(2, "Reset your password", 50)).unwrap();
    // A duplicate definition id breaks the unique-key constraint.
    let dup = s.add_universal_task(task(2, "Shadow", 10));
    assert_eq!(dup, Err(Error::DatabaseFailure));
    // A negative reward is rejected outright.
    let negative = s.add_universal_task(task(8, "Penalty", -5));
    assert_eq!(negative, Err(Error::InvalidAmount));
    assert_eq!(s.tasks.len(), 1);

    s.add_universal_email(template(1, "welcome")).unwrap();
    let dup = s.add_universal_email(template(1, "echo"));
    assert_eq!(dup, Err(Error::DatabaseFailure));
    assert_eq!(s.universal_emails.len(), 1);
}

#[test]
fn exhausted_id_space_refuses_new_rows() {
    let mut s = Store::new();
    let uid = s.create_account(request("devA", "alice", "pw1"), NOW).unwrap();
    // Raising the allocator to its ceiling keeps every existing id fresh
    // but leaves no room for new rows.
    s.next_id = u64::MAX;
    let r = s.award_points(uid, 5, "late".to_string(), NOW);
    assert_eq!(r, Err(Error::DatabaseFailure));
    let r = s.create_account(request("devB", "bob", "pw2"), NOW);
    assert_eq!(r, Err(Error::DatabaseFailure));
    assert_eq!(s.users.len(), 1);
}

#[test]
fn error_messages_are_stable() {
    assert_eq!(Error::NotFound.message(), "User not found");
    assert_eq!(Error::TaskNotFound.message(), "Universal task not found.");
    assert_eq!(Error::InsufficientFunds.message(), "Not enough points");
    assert_eq!(Error::DuplicateName.message(), "A user with this name already exists");
}
