use credvault::account::Account;
use credvault::encryption::Encryption;
use credvault::errors::CryptoError;

#[test]
fn create_then_reveal_returns_the_password() {
    let enc = Encryption::new(vec![42; 32]);
    let account = Account::new(
        &enc,
        String::from("github"),
        String::from("alice"),
        String::from("Tr0ub4dor&3"),
    );
    assert_eq!(account.service_name, "github");
    assert_eq!(account.username, "alice");
    assert_eq!(account.get_password(&enc), Ok(String::from("Tr0ub4dor&3")));
}

#[test]
fn reveal_is_repeatable() {
    let enc = Encryption::new(vec![5; 32]);
    let account = Account::new(
        &enc,
        String::from("mail"),
        String::from("bob"),
        String::from("hunter2"),
    );
    assert_eq!(account.get_password(&enc), Ok(String::from("hunter2")));
    assert_eq!(account.get_password(&enc), Ok(String::from("hunter2")));
}

#[test]
fn record_under_one_key_fails_under_another() {
    let enc = Encryption::new(vec![42; 32]);
    let other = Encryption::new(vec![0; 32]);
    let account = Account::new(
        &enc,
        String::from("github"),
        String::from("alice"),
        String::from("Tr0ub4dor&3"),
    );
    assert_eq!(
        account.get_password(&other),
        Err(CryptoError::AuthenticationFailure)
    );
}

#[test]
fn duplicate_copies_every_field() {
    let enc = Encryption::new(vec![8; 32]);
    let account = Account::new(
        &enc,
        String::from("forge"),
        String::from("carol"),
        String::from("s3cret!"),
    );
    let copy = account.duplicate();
    assert_eq!(copy.service_name, account.service_name);
    assert_eq!(copy.username, account.username);
    assert_eq!(copy.encrypted_password, account.encrypted_password);
    assert_eq!(copy.nonce, account.nonce);
    assert_eq!(copy.get_password(&enc), Ok(String::from("s3cret!")));
}
