use accounts::cache::MemoryCache;
use accounts::link::{account_key_matches, issue_link_code, link_code, redeem_link_code};
use accounts::records::MemberSyncResult;

fn member() -> MemberSyncResult {
    MemberSyncResult {
        account_token: "t".to_string(),
        account_token_secret: "s".to_string(),
        display_name: "Display".to_string(),
        username: "u".to_string(),
    }
}

#[test]
fn link_code_is_digest_of_member_and_time() {
    assert_eq!(link_code(&member(), 0), format!("{:x}", md5::compute("s@u::0@t")));
    assert_eq!(link_code(&member(), 1700000000), format!("{:x}", md5::compute("s@u::1700000000@t")));
    assert_ne!(link_code(&member(), 1), link_code(&member(), 2));
}

#[test]
fn redeem_twice_gives_identity_once() {
    let mut codes = MemoryCache::new();
    let code = issue_link_code(&mut codes, member(), 1000);
    let first = redeem_link_code(&mut codes, &code, 1010).unwrap();
    assert_eq!(first.account_token, "t");
    assert_eq!(first.display_name, "Display");
    assert!(redeem_link_code(&mut codes, &code, 1011).is_none());
}

#[test]
fn redeem_after_lifetime_is_absent() {
    let mut codes = MemoryCache::new();
    let code = issue_link_code(&mut codes, member(), 1000);
    assert!(redeem_link_code(&mut codes, &code, 1300).is_none());
}

#[test]
fn redeem_just_before_lifetime_ends_succeeds() {
    let mut codes = MemoryCache::new();
    let code = issue_link_code(&mut codes, member(), 1000);
    assert!(redeem_link_code(&mut codes, &code, 1299).is_some());
}

#[test]
fn unknown_code_redeems_nothing() {
    let mut codes: MemoryCache<MemberSyncResult> = MemoryCache::new();
    assert!(redeem_link_code(&mut codes, &"nope".to_string(), 0).is_none());
}

#[test]
fn account_key_must_match() {
    assert!(account_key_matches(&"k".to_string(), &Some("k".to_string())));
    assert!(!account_key_matches(&"k".to_string(), &Some("x".to_string())));
    assert!(!account_key_matches(&"k".to_string(), &None));
    assert!(account_key_matches(&"".to_string(), &None));
}
