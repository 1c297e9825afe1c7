use accounts::oauth::{is_allowed, not_allowed_redirect, should_process};
use accounts::responses::DiscordGuild;

fn s(v: &str) -> String {
    v.to_string()
}

fn guild(id: &str) -> DiscordGuild {
    DiscordGuild { id: id.to_string(), name: "g".to_string(), owner: false }
}

#[test]
fn callback_processed_only_when_clean() {
    assert!(should_process(&s(""), &s("code"), &s("st"), &s("st")));
    assert!(!should_process(&s("denied"), &s("code"), &s("st"), &s("st")));
    assert!(!should_process(&s(""), &s(""), &s("st"), &s("st")));
    assert!(!should_process(&s(""), &s("code"), &s("st"), &s("other")));
}

#[test]
fn member_allowed_through_any_listed_guild() {
    let allowed = vec![s("1"), s("2")];
    assert!(is_allowed(&vec![guild("9"), guild("2")], &allowed));
    assert!(!is_allowed(&vec![guild("9")], &allowed));
    assert!(!is_allowed(&vec![], &allowed));
    assert!(!is_allowed(&vec![guild("1")], &vec![]));
}

#[test]
fn not_allowed_redirect_adds_parameter() {
    assert_eq!(not_allowed_redirect(&s("https://x/app")), "https://x/app?error=NotAllowed");
    assert_eq!(not_allowed_redirect(&s("https://x/app?a=1")), "https://x/app?a=1&error=NotAllowed");
}
