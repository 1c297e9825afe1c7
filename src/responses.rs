use vstd::prelude::*;

verus! {

/// The token pair that Discord returns for an OAuth code.
pub struct DiscordValidationResponse {
    pub access_token: String,
    pub refresh_token: String,
}

/// A Discord user as its API describes one.
pub struct DiscordUserResponse {
    pub id: Option<String>,
    pub username: String,
    pub discriminator: String,
    pub avatar: Option<String>,
    pub global_name: Option<String>,
    pub display_name: Option<String>,
}

/// A role of a Discord guild.
pub struct DiscordRole {
    pub id: Option<String>,
    pub name: String,
}

/// A Discord guild that a user is a member of.
pub struct DiscordGuild {
    pub id: String,
    pub name: String,
    pub owner: bool,
}

/// The body of a request for a link code: the Discord id of the member.
pub struct LinkGeneratePayload {
    pub id: String,
}

/// The query of a link redemption.
pub struct LinkQuery {
    pub code: Option<String>,
}

/// The answer to a request for a link code.
pub struct LinkGeneratedResponse {
    pub code: String,
}

/// A member recently active in a channel category.
pub struct CategoryActiveUser {
    pub member_id: String,
    pub message_timestamp: String,
}

/// A member recently active in a channel.
pub struct ChannelActiveUser {
    pub member_id: String,
    pub message_timestamp: String,
}

/// The query of an activity listing: the time from which to list.
pub struct TimestampQuery {
    pub timestamp: Option<String>,
}

} // verus!
