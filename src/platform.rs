use vstd::prelude::*;

verus! {

/// The identity platforms an account can be linked to.
#[derive(Clone, Copy, Debug, PartialEq, Eq, Structural, Hash)]
pub enum AccountPlatformType {
    Discord,
    Twitch,
    Bungie,
}

/// The lower-case name under which a platform is stored and shown.
pub open spec fn platform_name(p: AccountPlatformType) -> Seq<char> {
    match p {
        AccountPlatformType::Discord => "discord"@,
        AccountPlatformType::Twitch => "twitch"@,
        AccountPlatformType::Bungie => "bungie"@,
    }
}

impl AccountPlatformType {
    /// The platform's stored name: `discord`, `twitch` or `bungie`.
    pub fn to_string(&self) -> (r: String)
        ensures
            r@ == platform_name(*self),
    {
        match self {
            AccountPlatformType::Discord => String::from_str("discord"),
            AccountPlatformType::Twitch => String::from_str("twitch"),
            AccountPlatformType::Bungie => String::from_str("bungie"),
        }
    }

    /// The platform whose stored name is `name`, if any.
    pub fn from_name(name: &String) -> (r: Option<AccountPlatformType>)
        ensures
            r matches Some(p) ==> platform_name(p) == name@,
            r is None ==> forall|p: AccountPlatformType| platform_name(p) != name@,
    {
        let discord = AccountPlatformType::Discord.to_string();
        let twitch = AccountPlatformType::Twitch.to_string();
        let bungie = AccountPlatformType::Bungie.to_string();
        if *name == discord {
            Some(AccountPlatformType::Discord)
        } else if *name == twitch {
            Some(AccountPlatformType::Twitch)
        } else if *name == bungie {
            Some(AccountPlatformType::Bungie)
        } else {
            assert forall|p: AccountPlatformType| platform_name(p) != name@ by {
                match p {
                    AccountPlatformType::Discord => {},
                    AccountPlatformType::Twitch => {},
                    AccountPlatformType::Bungie => {},
                }
            }
            None
        }
    }
}

} // verus!
