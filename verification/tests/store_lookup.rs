use credvault::account::Account;
use credvault::encryption::Encryption;
use credvault::store::CredentialStore;

fn record(enc: &Encryption, service: &str, user: &str, pass: &str) -> Account {
    Account::new(
        enc,
        String::from(service),
        String::from(user),
        String::from(pass),
    )
}

#[test]
fn lookup_of_unknown_service_is_empty_not_an_error() {
    let enc = Encryption::new(vec![42; 32]);
    let mut store = CredentialStore::new();
    assert!(store.find_by_service("nonexistent").is_empty());
    store.put(record(&enc, "github", "alice", "pw1"));
    assert!(store.find_by_service("nonexistent").is_empty());
    assert_eq!(store.len(), 1);
}

#[test]
fn lookup_returns_every_match_in_stored_order() {
    let enc = Encryption::new(vec![42; 32]);
    let mut store = CredentialStore::new();
    store.put(record(&enc, "github", "alice", "pw1"));
    store.put(record(&enc, "mail", "bob", "pw2"));
    store.put(record(&enc, "github", "carol", "pw3"));

    let github = store.find_by_service("github");
    assert_eq!(github.len(), 2);
    assert_eq!(github[0].username, "alice");
    assert_eq!(github[1].username, "carol");
    assert_eq!(github[0].get_password(&enc), Ok(String::from("pw1")));
    assert_eq!(github[1].get_password(&enc), Ok(String::from("pw3")));

    let mail = store.find_by_service("mail");
    assert_eq!(mail.len(), 1);
    assert_eq!(mail[0].username, "bob");
}

#[test]
fn lookup_is_exact_match_only() {
    let enc = Encryption::new(vec![42; 32]);
    let mut store = CredentialStore::new();
    store.put(record(&enc, "github", "alice", "pw1"));
    assert!(store.find_by_service("git").is_empty());
    assert!(store.find_by_service("GITHUB").is_empty());
    assert!(store.find_by_service("github ").is_empty());
}
