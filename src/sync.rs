use crate::platform::AccountPlatformType;
use crate::records::{MemberSyncResult, NewAccountPlatformData};
use crate::resolver::{resolution_outcome, resolve};
use crate::responses::DiscordUserResponse;
use crate::store::AccountStore;
use vstd::prelude::*;

verus! {

/// The Discord id of a user; a user without one has the empty id.
pub open spec fn discord_id(u: DiscordUserResponse) -> Seq<char> {
    match u.id {
        Some(id) => id@,
        None => Seq::empty(),
    }
}

/// A Discord user's name: the bare user name where the discriminator is
/// `0`, else the name and the discriminator joined by `#`.
pub open spec fn discord_user_name(u: DiscordUserResponse) -> Seq<char> {
    if u.discriminator@ == "0"@ {
        u.username@
    } else {
        u.username@ + "#"@ + u.discriminator@
    }
}

/// A Discord user's display name: the display name, else the global name,
/// else the user name.
pub open spec fn discord_display_name(u: DiscordUserResponse) -> Seq<char> {
    match u.display_name {
        Some(d) => d@,
        None => match u.global_name {
            Some(g) => g@,
            None => discord_user_name(u),
        },
    }
}

/// An attribute has the given key and value.
pub open spec fn attribute_is(d: NewAccountPlatformData, key: Seq<char>, value: Seq<char>) -> bool {
    d.key@ == key && d.value@ == value
}

/// The attributes recorded for a Discord user at each login.
pub open spec fn member_attributes_are(a: Seq<NewAccountPlatformData>, u: DiscordUserResponse) -> bool {
    &&& a.len() == 4
    &&& attribute_is(a[0], "discord_id"@, discord_id(u))
    &&& attribute_is(a[1], "username"@, discord_user_name(u))
    &&& attribute_is(a[2], "display_name"@, discord_display_name(u))
    &&& attribute_is(
        a[3],
        "avatar"@,
        match u.avatar {
            Some(v) => v@,
            None => Seq::empty(),
        },
    )
}

fn text_or_empty(o: &Option<String>) -> (r: String)
    ensures
        r@ == match o {
            Some(v) => v@,
            None => Seq::<char>::empty(),
        },
{
    match o {
        Some(v) => v.clone(),
        None => String::new(),
    }
}

/// The user's name as [`discord_user_name`] gives it.
pub fn user_name(u: &DiscordUserResponse) -> (r: String)
    ensures
        r@ == discord_user_name(*u),
{
    let zero = String::from_str("0");
    if u.discriminator == zero {
        u.username.clone()
    } else {
        let mut s = u.username.clone();
        s.append("#");
        s.append(u.discriminator.as_str());
        s
    }
}

/// The user's display name as [`discord_display_name`] gives it.
pub fn display_name(u: &DiscordUserResponse) -> (r: String)
    ensures
        r@ == discord_display_name(*u),
{
    match &u.display_name {
        Some(d) => d.clone(),
        None => match &u.global_name {
            Some(g) => g.clone(),
            None => user_name(u),
        },
    }
}

/// The attributes to record for a Discord user.
pub fn member_attributes(u: &DiscordUserResponse) -> (r: Vec<NewAccountPlatformData>)
    ensures
        member_attributes_are(r@, *u),
{
    let mut r = Vec::new();
    r.push(NewAccountPlatformData { key: String::from_str("discord_id"), value: text_or_empty(&u.id) });
    r.push(NewAccountPlatformData { key: String::from_str("username"), value: user_name(u) });
    r.push(
        NewAccountPlatformData { key: String::from_str("display_name"), value: display_name(u) },
    );
    r.push(NewAccountPlatformData { key: String::from_str("avatar"), value: text_or_empty(&u.avatar) });
    r
}

/// Resolves a Discord user to its account, records the user's attributes,
/// and returns the account's tokens with the user's names.
///
/// Returns nothing where the resolution failed.
pub fn member(store: &mut AccountStore, discord_user: &DiscordUserResponse, now: u64) -> (r: Option<
    MemberSyncResult,
>)
    requires
        old(store).wf(),
    ensures
        final(store).wf(),
        exists|attributes: Seq<NewAccountPlatformData>, outcome|
            member_attributes_are(attributes, *discord_user) && resolution_outcome(
                old(store)@,
                final(store)@,
                AccountPlatformType::Discord,
                discord_id(*discord_user),
                attributes,
                now,
                outcome,
            ) && (r is Some <==> outcome is Ok) && (r matches Some(m) ==> {
                &&& m.account_token == outcome->Ok_0.account.token
                &&& m.account_token_secret == outcome->Ok_0.account.token_secret
                &&& m.username@ == discord_user_name(*discord_user)
                &&& m.display_name@ == discord_display_name(*discord_user)
            }),
{
    let id = text_or_empty(&discord_user.id);
    let attributes = member_attributes(discord_user);
    let outcome = resolve(store, AccountPlatformType::Discord, &id, &attributes, now);
    let ghost outcome_model = outcome;
    let r = match outcome {
        Ok(resolved) => Some(
            MemberSyncResult {
                account_token: resolved.account.token,
                account_token_secret: resolved.account.token_secret,
                display_name: display_name(discord_user),
                username: user_name(discord_user),
            },
        ),
        Err(_) => None,
    };
    assert(member_attributes_are(attributes@, *discord_user));
    r
}

} // verus!
