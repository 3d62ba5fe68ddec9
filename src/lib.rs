//! Keeps a community's partnership listing and representative role in step
//! with the records that describe them.
//!
//! The modules hold the decisions; the caller performs the network and
//! database work that each decision asks for and reports the outcome back.

mod api;
mod components;
mod config;
mod decimal;
mod grouping;
mod messages;
mod models;
mod names;
mod pagination;
mod planner;
mod roles;
mod sequence;
mod setup;

pub use api::ApiError;
pub use components::{components_to_display, ActionRow, Button, ButtonStyle, ComponentsData};
pub use config::{db_url, ConfigDocument, DatabaseArgs};
pub use decimal::decimal_string;
pub use grouping::group_in_tens;
pub use messages::{plan_message_ops, MessageOp, MessagePass};
pub use models::{EmbedData, GuildSettings, Partner, PartnerCategory, PartnerUser, PublishedMessage};
pub use names::{name_le_exec, sort_by_display_name};
pub use pagination::{get_partners_for_page, max_partner_page, SelectOption, PARTNER_PAGE_LEN};
pub use planner::{
    format_partner_fields, format_partner_line, join_with_newlines, plan_pages, render_block,
    sort_partner_lists, EmbedBlock, PlanEntry,
};
pub use roles::{
    classify_role_result, decide_role_change, desired_holders, holds_role, member_role_change,
    sweep_targets, RoleChange, RoleSweep,
};
pub use sequence::{next_sequence_number, remove_definition, renumber};
pub use setup::{guild_is_set_up, CommandErrorValue, GUILD_NOT_SET_UP};
