use accounts::responses::DiscordUserResponse;
use accounts::store::AccountStore;
use accounts::sync::{display_name, member, member_attributes, user_name};
use accounts::text::push_decimal;
use accounts::AccountPlatformType;

fn user(discriminator: &str, display: Option<&str>, global: Option<&str>) -> DiscordUserResponse {
    DiscordUserResponse {
        id: Some("100".to_string()),
        username: "abc".to_string(),
        discriminator: discriminator.to_string(),
        avatar: Some("hash".to_string()),
        global_name: global.map(|s| s.to_string()),
        display_name: display.map(|s| s.to_string()),
    }
}

#[test]
fn user_name_omits_zero_discriminator() {
    assert_eq!(user_name(&user("0", None, None)), "abc");
    assert_eq!(user_name(&user("1234", None, None)), "abc#1234");
}

#[test]
fn display_name_falls_back_in_order() {
    assert_eq!(display_name(&user("0", Some("Disp"), Some("Glob"))), "Disp");
    assert_eq!(display_name(&user("0", None, Some("Glob"))), "Glob");
    assert_eq!(display_name(&user("7", None, None)), "abc#7");
}

#[test]
fn member_attributes_lists_four_facts() {
    let a = member_attributes(&user("0", None, Some("Glob")));
    let pairs: Vec<(String, String)> = a.into_iter().map(|d| (d.key, d.value)).collect();
    assert_eq!(
        pairs,
        vec![
            ("discord_id".to_string(), "100".to_string()),
            ("username".to_string(), "abc".to_string()),
            ("display_name".to_string(), "Glob".to_string()),
            ("avatar".to_string(), "hash".to_string()),
        ]
    );
}

#[test]
fn member_sync_reuses_account() {
    let mut store = AccountStore::new();
    let first = member(&mut store, &user("0", None, None), 10).unwrap();
    let second = member(&mut store, &user("0", Some("New"), None), 20).unwrap();
    assert_eq!(first.account_token, second.account_token);
    assert_eq!(first.account_token_secret, second.account_token_secret);
    assert_eq!(first.username, "abc");
    assert_eq!(second.display_name, "New");
    let link = store.read(AccountPlatformType::Discord, &"100".to_string()).unwrap();
    assert_eq!(link.updated_at, 20);
}

#[test]
fn platform_names() {
    assert_eq!(AccountPlatformType::Discord.to_string(), "discord");
    assert_eq!(AccountPlatformType::Twitch.to_string(), "twitch");
    assert_eq!(AccountPlatformType::Bungie.to_string(), "bungie");
}

#[test]
fn decimal_text() {
    let mut s = String::from("x");
    push_decimal(&mut s, 0);
    push_decimal(&mut s, 907);
    push_decimal(&mut s, u64::MAX);
    assert_eq!(s, format!("x0907{}", u64::MAX));
}

#[test]
fn platform_from_name() {
    assert_eq!(AccountPlatformType::from_name(&"discord".to_string()), Some(AccountPlatformType::Discord));
    assert_eq!(AccountPlatformType::from_name(&"twitch".to_string()), Some(AccountPlatformType::Twitch));
    assert_eq!(AccountPlatformType::from_name(&"bungie".to_string()), Some(AccountPlatformType::Bungie));
    assert_eq!(AccountPlatformType::from_name(&"Discord".to_string()), None);
    assert_eq!(AccountPlatformType::from_name(&"".to_string()), None);
}
