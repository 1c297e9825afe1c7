use accounts::records::{NewAccountPlatformData, ResolutionError};
use accounts::resolver::resolve;
use accounts::store::AccountStore;
use accounts::AccountPlatformType;

fn attr(key: &str, value: &str) -> NewAccountPlatformData {
    NewAccountPlatformData { key: key.to_string(), value: value.to_string() }
}

fn is_hex32(s: &str) -> bool {
    s.len() == 32 && s.chars().all(|c| c.is_ascii_digit() || ('a'..='f').contains(&c))
}

#[test]
fn same_identity_resolves_to_one_account() {
    let mut store = AccountStore::new();
    let id = "100".to_string();
    let attrs = vec![attr("username", "abc")];
    let first = resolve(&mut store, AccountPlatformType::Discord, &id, &attrs, 1000).unwrap();
    assert!(first.created);
    assert_eq!(first.account.id, 1);
    assert!(is_hex32(&first.account.token));
    assert!(is_hex32(&first.account.token_secret));
    let second = resolve(&mut store, AccountPlatformType::Discord, &id, &attrs, 1001).unwrap();
    assert!(!second.created);
    assert_eq!(second.account.id, first.account.id);
    assert_eq!(second.account.token, first.account.token);
    assert_eq!(second.link.id, first.link.id);
    assert_eq!(second.link.updated_at, 1001);
    assert!(store.account(2).is_none());
}

#[test]
fn distinct_identities_get_distinct_accounts() {
    let mut store = AccountStore::new();
    let a = resolve(&mut store, AccountPlatformType::Discord, &"1".to_string(), &vec![], 5).unwrap();
    let b = resolve(&mut store, AccountPlatformType::Discord, &"2".to_string(), &vec![], 5).unwrap();
    let c = resolve(&mut store, AccountPlatformType::Twitch, &"1".to_string(), &vec![], 5).unwrap();
    assert_eq!(a.account.id, 1);
    assert_eq!(b.account.id, 2);
    assert_eq!(c.account.id, 3);
    assert_ne!(a.account.token, b.account.token);
}

#[test]
fn match_account_finds_linked_identity() {
    let mut store = AccountStore::new();
    let id = "42".to_string();
    let r = resolve(&mut store, AccountPlatformType::Bungie, &id, &vec![], 7).unwrap();
    let found = store.match_account(&id, AccountPlatformType::Bungie).unwrap();
    assert_eq!(found.token, r.account.token);
    assert!(store.match_account(&id, AccountPlatformType::Discord).is_none());
    let link = store.read(AccountPlatformType::Bungie, &id).unwrap();
    assert_eq!(link.account, r.account.id);
    assert_eq!(link.created_at, 7);
    let by_account = store.from_account(r.account.id, AccountPlatformType::Bungie).unwrap();
    assert_eq!(by_account.id, link.id);
    let got = store.get(&r.account.token, &r.account.token_secret).unwrap();
    assert_eq!(got.id, r.account.id);
    assert!(store.get(&r.account.token, &"wrong".to_string()).is_none());
}

#[test]
fn link_token_is_digest_of_platform_user_and_time() {
    let mut store = AccountStore::new();
    let r = resolve(&mut store, AccountPlatformType::Discord, &"100".to_string(), &vec![], 1234).unwrap();
    let expected = format!("{:x}", md5::compute("discord||100||1234"));
    assert_eq!(r.link.token, expected);
}

#[test]
fn create_on_linked_identity_is_race_lost() {
    let mut store = AccountStore::new();
    let id = "9".to_string();
    resolve(&mut store, AccountPlatformType::Discord, &id, &vec![], 1).unwrap();
    let again = store.create(&"a".to_string(), &"b".to_string(), AccountPlatformType::Discord, &id, 2);
    assert_eq!(again.err(), Some(ResolutionError::RaceLost));
    assert!(store.account(2).is_none());
}

#[test]
fn create_derives_tokens_from_seeds() {
    let mut store = AccountStore::new();
    let (account, link) = store
        .create(&"seed".to_string(), &"secret".to_string(), AccountPlatformType::Twitch, &"u".to_string(), 3)
        .unwrap();
    assert_eq!(account.token, format!("{:x}", md5::compute("seed")));
    assert_eq!(account.token_secret, format!("{:x}", md5::compute("secret")));
    assert_eq!(link.account, account.id);
    assert_eq!(link.platform, AccountPlatformType::Twitch);
}

#[test]
fn upserting_a_key_twice_keeps_one_row_with_latest_value() {
    let mut store = AccountStore::new();
    let id = "100".to_string();
    let r = resolve(&mut store, AccountPlatformType::Discord, &id, &vec![attr("username", "first")], 1).unwrap();
    resolve(&mut store, AccountPlatformType::Discord, &id, &vec![attr("username", "second")], 2).unwrap();
    resolve(&mut store, AccountPlatformType::Discord, &id, &vec![attr("avatar", "pic")], 3).unwrap();
    let keys = vec!["username".to_string(), "avatar".to_string(), "missing".to_string()];
    let rows = store.read_data(r.link.id, &keys);
    assert_eq!(rows.len(), 3);
    assert_eq!(rows[0].key, "username");
    assert_eq!(rows[0].id, 1);
    assert_eq!(rows[1].id, 2);
    assert_eq!(rows[2].id, 0);
}

#[test]
fn write_replaces_and_accumulates_attributes() {
    let mut store = AccountStore::new();
    let r = resolve(&mut store, AccountPlatformType::Discord, &"5".to_string(), &vec![], 1).unwrap();
    assert!(store.write(&r.link, &vec![attr("a", "1"), attr("b", "2"), attr("a", "3")], 2).is_ok());
    let rows = store.read_data(r.link.id, &vec!["a".to_string(), "b".to_string()]);
    assert_eq!(rows[0].id, 1);
    assert_eq!(rows[1].id, 2);
}

#[test]
fn unlink_removes_link_and_its_attributes() {
    let mut store = AccountStore::new();
    let id = "77".to_string();
    let r = resolve(&mut store, AccountPlatformType::Discord, &id, &vec![attr("username", "x")], 1).unwrap();
    let other = resolve(&mut store, AccountPlatformType::Twitch, &id, &vec![attr("username", "y")], 1).unwrap();
    store.unlink(r.link.id);
    assert!(store.read(AccountPlatformType::Discord, &id).is_none());
    assert_eq!(store.read_data(r.link.id, &vec!["username".to_string()])[0].id, 0);
    assert_eq!(store.read_data(other.link.id, &vec!["username".to_string()])[0].id, 2);
    store.unlink(r.link.id);
    let again = resolve(&mut store, AccountPlatformType::Discord, &id, &vec![], 2).unwrap();
    assert!(again.created);
    assert_eq!(again.account.id, 3);
}

#[test]
fn update_stamps_link() {
    let mut store = AccountStore::new();
    let r = resolve(&mut store, AccountPlatformType::Discord, &"1".to_string(), &vec![], 1).unwrap();
    let touched = store.update(r.link.id, 99).unwrap();
    assert_eq!(touched.updated_at, 99);
    assert!(store.update(12345, 99).is_none());
}

#[test]
fn all_data_lists_attributes_of_the_account() {
    let mut store = AccountStore::new();
    let id = "100".to_string();
    let d = resolve(&mut store, AccountPlatformType::Discord, &id, &vec![attr("username", "abc")], 1).unwrap();
    resolve(&mut store, AccountPlatformType::Discord, &"other".to_string(), &vec![attr("username", "zzz")], 1).unwrap();
    resolve(&mut store, AccountPlatformType::Discord, &id, &vec![attr("username", "abd"), attr("avatar", "p")], 2).unwrap();
    let data = store.all_data(d.account.id);
    let listed: Vec<(String, String, String, String)> =
        data.into_iter().map(|r| (r.platform, r.platform_user, r.key, r.value)).collect();
    assert_eq!(
        listed,
        vec![
            ("discord".to_string(), "100".to_string(), "username".to_string(), "abd".to_string()),
            ("discord".to_string(), "100".to_string(), "avatar".to_string(), "p".to_string()),
        ]
    );
    assert!(store.all_data(99).is_empty());
}

#[test]
fn create_with_stored_token_is_refused() {
    let mut store = AccountStore::new();
    let seed = "same seed".to_string();
    store.create(&seed, &"s1".to_string(), AccountPlatformType::Discord, &"1".to_string(), 1).unwrap();
    let again = store.create(&seed, &"s2".to_string(), AccountPlatformType::Discord, &"2".to_string(), 1);
    assert_eq!(again.err(), Some(ResolutionError::StoreUnavailable));
    assert!(store.account(2).is_none());
    assert!(store.read(AccountPlatformType::Discord, &"2".to_string()).is_none());
}

#[test]
fn writing_no_values_changes_nothing() {
    let mut store = AccountStore::new();
    let r = resolve(&mut store, AccountPlatformType::Discord, &"1".to_string(), &vec![attr("a", "1")], 1).unwrap();
    assert!(store.write(&r.link, &vec![], 2).is_ok());
    assert!(store.write(&r.link, &vec![attr("b", "2")], 3).is_ok());
    let rows = store.read_data(r.link.id, &vec!["a".to_string(), "b".to_string()]);
    assert_eq!(rows[0].id, 1);
    assert_eq!(rows[1].id, 2);
}

#[test]
fn from_account_gives_link_of_that_platform() {
    let mut store = AccountStore::new();
    let r = resolve(&mut store, AccountPlatformType::Twitch, &"t".to_string(), &vec![], 1).unwrap();
    assert_eq!(store.from_account(r.account.id, AccountPlatformType::Twitch).unwrap().id, r.link.id);
    assert!(store.from_account(r.account.id, AccountPlatformType::Discord).is_none());
    assert!(store.from_account(r.account.id + 1, AccountPlatformType::Twitch).is_none());
}
