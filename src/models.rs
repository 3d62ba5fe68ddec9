use vstd::prelude::*;

verus! {

/// Per-community settings: where the listing is published and which role,
/// if any, marks representatives.
#[derive(Clone, Debug, PartialEq, Eq)]
pub struct GuildSettings {
    pub guild_id: i64,
    pub publish_channel: i64,
    pub partner_role: Option<i64>,
}

/// A named group of partners.
#[derive(Clone, Debug, PartialEq, Eq)]
pub struct PartnerCategory {
    pub id: String,
    pub guild_id: i64,
    pub name: String,
}

/// One block of the published listing, placed by its sequence number.
#[derive(Clone, Debug, PartialEq, Eq)]
pub struct EmbedData {
    pub id: String,
    pub guild: i64,
    pub embed_part_sequence_number: i32,
    pub embed_name: String,
    pub partner_category_list: Option<String>,
    pub embed_text: String,
    pub image_url: String,
    pub color: Option<i32>,
}

/// A partner community.
#[derive(Clone, Debug, PartialEq, Eq)]
pub struct Partner {
    pub partnership_id: String,
    pub guild: i64,
    pub category: String,
    pub partner_guild: i64,
    pub display_name: String,
    pub invite_code: String,
}

/// A user who represents a partner.
#[derive(Clone, Debug, PartialEq, Eq)]
pub struct PartnerUser {
    pub partnership_id: String,
    pub user_id: i64,
}

/// A message of the listing that this library created and still owns.
#[derive(Clone, Copy, Debug, PartialEq, Eq)]
pub struct PublishedMessage {
    pub guild_id: i64,
    pub message_id: i64,
}

} // verus!
