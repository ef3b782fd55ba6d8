//! Discord webhook settings of a group and the events sent to them: who may
//! change the settings, what a valid URL is, which events a group wants,
//! and the text of each embed.

use vstd::prelude::*;

use crate::domain::GroupRole;
use crate::text::{dec_digits, int_text, push_i64, push_u64, str_starts_with};

verus! {

#[derive(Debug, Clone, PartialEq, Eq)]
pub enum Error {
    BadRequest(String),
    Forbidden,
    /// A database failure, by its message.
    Db(String),
    /// Delivery to Discord failed, by its message.
    Send(String),
}

pub enum ErrorView {
    BadRequest(Seq<char>),
    Forbidden,
    Db(Seq<char>),
    Send(Seq<char>),
}

impl View for Error {
    type V = ErrorView;

    open spec fn view(&self) -> ErrorView {
        match self {
            Error::BadRequest(m) => ErrorView::BadRequest(m@),
            Error::Forbidden => ErrorView::Forbidden,
            Error::Db(m) => ErrorView::Db(m@),
            Error::Send(m) => ErrorView::Send(m@),
        }
    }
}

pub open spec fn unit_view(r: Result<(), Error>) -> Result<(), ErrorView> {
    match r {
        Ok(()) => Ok(()),
        Err(e) => Err(e@),
    }
}

#[derive(Debug, Clone)]
pub struct WebhookConfig {
    pub webhook_url: String,
    pub notify_list_created: bool,
    pub notify_list_claimed: bool,
    pub notify_list_delivered: bool,
    pub notify_reimbursement_settled: bool,
}

#[derive(Debug, Clone)]
pub enum WebhookEvent {
    ListCreated {
        list_destination: String,
        item_count: i64,
        estimate_isk: String,
        creator_name: String,
    },
    ListClaimed { list_destination: String, hauler_name: String, item_count: usize },
    ListDelivered { list_destination: String, hauler_name: String },
    ReimbursementSettled {
        list_destination: String,
        requester_name: String,
        hauler_name: String,
        total_isk: String,
    },
}

/// The longest webhook URL accepted, in bytes.
pub const MAX_WEBHOOK_URL_BYTES: usize = 512;

pub open spec fn discord_prefix() -> Seq<char> {
    "https://discord.com/api/webhooks/"@
}

pub open spec fn discordapp_prefix() -> Seq<char> {
    "https://discordapp.com/api/webhooks/"@
}

pub open spec fn has_prefix(s: Seq<char>, p: Seq<char>) -> bool {
    p.len() <= s.len() && s.take(p.len() as int) == p
}

/// Only the group's owners may read, change or remove its webhook.
pub fn require_owner(role: GroupRole) -> (r: Result<(), Error>)
    ensures
        unit_view(r) == (if role != GroupRole::Owner {
            Err(ErrorView::Forbidden)
        } else {
            Ok::<(), ErrorView>(())
        }),
{
    if role != GroupRole::Owner {
        return Err(Error::Forbidden);
    }
    Ok(())
}

/// The checks on new webhook settings, in order.
pub open spec fn upsert_check(role: GroupRole, url: Seq<char>) -> Result<(), ErrorView> {
    if role != GroupRole::Owner {
        Err(ErrorView::Forbidden)
    } else if vstd::utf8::encode_utf8(url).len() > 512 {
        Err(ErrorView::BadRequest("webhook_url is too long"@))
    } else if has_prefix(url, discord_prefix()) || has_prefix(url, discordapp_prefix()) {
        Ok(())
    } else {
        Err(ErrorView::BadRequest("webhook_url must be a Discord webhook URL"@))
    }
}

/// New settings are accepted from an owner, with a URL of at most 512
/// bytes that points at Discord's webhook API.
pub fn validate_upsert(role: GroupRole, body: &WebhookConfig) -> (r: Result<(), Error>)
    ensures
        unit_view(r) == upsert_check(role, body.webhook_url@),
{
    if role != GroupRole::Owner {
        return Err(Error::Forbidden);
    }
    if crate::text::utf8_len_exceeds(body.webhook_url.as_str(), MAX_WEBHOOK_URL_BYTES) {
        return Err(Error::BadRequest(String::from_str("webhook_url is too long")));
    }
    let url = body.webhook_url.as_str();
    let a = str_starts_with(url, "https://discord.com/api/webhooks/");
    let b = str_starts_with(url, "https://discordapp.com/api/webhooks/");
    if !a && !b {
        return Err(Error::BadRequest(String::from_str("webhook_url must be a Discord webhook URL")));
    }
    Ok(())
}

impl WebhookEvent {
    /// Whether the group's settings ask for this kind of event.
    pub open spec fn enabled_in(&self, cfg: WebhookConfig) -> bool {
        match self {
            WebhookEvent::ListCreated { .. } => cfg.notify_list_created,
            WebhookEvent::ListClaimed { .. } => cfg.notify_list_claimed,
            WebhookEvent::ListDelivered { .. } => cfg.notify_list_delivered,
            WebhookEvent::ReimbursementSettled { .. } => cfg.notify_reimbursement_settled,
        }
    }

    pub fn is_enabled(&self, cfg: &WebhookConfig) -> (r: bool)
        ensures
            r == self.enabled_in(*cfg),
    {
        match self {
            WebhookEvent::ListCreated { .. } => cfg.notify_list_created,
            WebhookEvent::ListClaimed { .. } => cfg.notify_list_claimed,
            WebhookEvent::ListDelivered { .. } => cfg.notify_list_delivered,
            WebhookEvent::ReimbursementSettled { .. } => cfg.notify_reimbursement_settled,
        }
    }

    pub open spec fn color(&self) -> u32 {
        match self {
            WebhookEvent::ListCreated { .. } => 0x2f81f7,
            WebhookEvent::ListClaimed { .. } => 0xd29922,
            WebhookEvent::ListDelivered { .. } => 0x3fb950,
            WebhookEvent::ReimbursementSettled { .. } => 0x8b949e,
        }
    }

    /// The embed's side color: blue, amber, green, grey.
    pub fn embed_color(&self) -> (r: u32)
        ensures
            r == self.color(),
    {
        match self {
            WebhookEvent::ListCreated { .. } => 0x2f81f7,
            WebhookEvent::ListClaimed { .. } => 0xd29922,
            WebhookEvent::ListDelivered { .. } => 0x3fb950,
            WebhookEvent::ReimbursementSettled { .. } => 0x8b949e,
        }
    }

    pub open spec fn title_text(&self) -> Seq<char> {
        match self {
            WebhookEvent::ListCreated { list_destination, .. } => "New list: "@ + list_destination@,
            WebhookEvent::ListClaimed { list_destination, hauler_name, .. } => hauler_name@
                + " claimed items on "@ + list_destination@,
            WebhookEvent::ListDelivered { list_destination, hauler_name } => hauler_name@
                + " delivered "@ + list_destination@,
            WebhookEvent::ReimbursementSettled { list_destination, .. } =>
                "Reimbursement settled: "@ + list_destination@,
        }
    }

    pub open spec fn description_text(&self) -> Seq<char> {
        match self {
            WebhookEvent::ListCreated { item_count, estimate_isk, creator_name, .. } =>
                creator_name@ + " created a list with "@ + int_text(*item_count as int)
                + " items (est. "@ + estimate_isk@ + " ISK)"@,
            WebhookEvent::ListClaimed { item_count, .. } => dec_digits(*item_count as nat)
                + " item(s) claimed"@,
            WebhookEvent::ListDelivered { .. } => "All items delivered/settled"@,
            WebhookEvent::ReimbursementSettled { requester_name, hauler_name, total_isk, .. } =>
                requester_name@ + " \u{2192} "@ + hauler_name@ + ": "@ + total_isk@ + " ISK"@,
        }
    }

    /// The embed's title.
    pub fn title(&self) -> (r: String)
        ensures
            r@ == self.title_text(),
    {
        match self {
            WebhookEvent::ListCreated { list_destination, .. } => {
                let mut m = String::from_str("New list: ");
                m.append(list_destination.as_str());
                m
            },
            WebhookEvent::ListClaimed { list_destination, hauler_name, .. } => {
                let mut m = hauler_name.clone();
                m.append(" claimed items on ");
                m.append(list_destination.as_str());
                m
            },
            WebhookEvent::ListDelivered { list_destination, hauler_name } => {
                let mut m = hauler_name.clone();
                m.append(" delivered ");
                m.append(list_destination.as_str());
                m
            },
            WebhookEvent::ReimbursementSettled { list_destination, .. } => {
                let mut m = String::from_str("Reimbursement settled: ");
                m.append(list_destination.as_str());
                m
            },
        }
    }

    /// The embed's description.
    pub fn description(&self) -> (r: String)
        ensures
            r@ == self.description_text(),
    {
        match self {
            WebhookEvent::ListCreated { item_count, estimate_isk, creator_name, .. } => {
                let mut m = creator_name.clone();
                m.append(" created a list with ");
                push_i64(&mut m, *item_count);
                m.append(" items (est. ");
                m.append(estimate_isk.as_str());
                m.append(" ISK)");
                m
            },
            WebhookEvent::ListClaimed { item_count, .. } => {
                let mut m = String::new();
                push_u64(&mut m, *item_count as u64);
                m.append(" item(s) claimed");
                m
            },
            WebhookEvent::ListDelivered { .. } => String::from_str("All items delivered/settled"),
            WebhookEvent::ReimbursementSettled { requester_name, hauler_name, total_isk, .. } => {
                let mut m = requester_name.clone();
                m.append(" \u{2192} ");
                m.append(hauler_name.as_str());
                m.append(": ");
                m.append(total_isk.as_str());
                m.append(" ISK");
                m
            },
        }
    }
}

/// Where an event goes: the group's webhook URL when the group has
/// settings and wants this kind of event; otherwise it is dropped.
pub fn dispatch_target(event: &WebhookEvent, row: &Option<WebhookConfig>) -> (r: Option<String>)
    ensures
        match row {
            None => r is None,
            Some(cfg) => if event.enabled_in(*cfg) {
                r == Some(cfg.webhook_url)
            } else {
                r is None
            },
        },
{
    match row {
        None => None,
        Some(cfg) => {
            if event.is_enabled(cfg) {
                Some(cfg.webhook_url.clone())
            } else {
                None
            }
        },
    }
}

/// The API's wrapper of a webhook error.
#[derive(Debug, Clone, PartialEq, Eq)]
pub struct WebhookError(pub Error);

impl WebhookError {
    pub fn status(&self) -> (r: u16)
        ensures
            r == match self.0 {
                Error::BadRequest(_) => 400u16,
                Error::Forbidden => 403u16,
                Error::Db(_) => 500u16,
                Error::Send(_) => 500u16,
            },
    {
        match &self.0 {
            Error::BadRequest(_) => 400,
            Error::Forbidden => 403,
            Error::Db(_) => 500,
            Error::Send(_) => 500,
        }
    }

    /// The body: the message of a bad request, fixed texts otherwise.
    pub fn body(&self) -> (r: String)
        ensures
            r@ == match self.0 {
                Error::BadRequest(m) => m@,
                Error::Forbidden => "owner only"@,
                Error::Db(_) => "internal error"@,
                Error::Send(_) => "internal error"@,
            },
    {
        match &self.0 {
            Error::BadRequest(m) => m.clone(),
            Error::Forbidden => String::from_str("owner only"),
            Error::Db(_) => String::from_str("internal error"),
            Error::Send(_) => String::from_str("internal error"),
        }
    }
}

} // verus!
