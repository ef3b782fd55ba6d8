//! Shared domain vocabulary: the status enums of groups, lists, items,
//! claims, reimbursements and in-game contracts, with their textual
//! spellings (as stored and as shown) and the few predicates on them.

use vstd::prelude::*;

use crate::text::str_eq;

verus! {

/// The role of a member in a group.
#[derive(Debug, Clone, Copy, PartialEq, Eq, Structural)]
pub enum GroupRole {
    Owner,
    Member,
}

/// An NPC trade hub or a player-owned public structure.
#[derive(Debug, Clone, Copy, PartialEq, Eq, Structural)]
pub enum MarketKind {
    NpcHub,
    PublicStructure,
}

#[derive(Debug, Clone, Copy, PartialEq, Eq, Structural)]
pub enum ListStatus {
    Open,
    Closed,
    Archived,
}

/// Items move `open -> claimed -> bought -> delivered -> settled`.
#[derive(Debug, Clone, Copy, PartialEq, Eq, Structural)]
pub enum ListItemStatus {
    Open,
    Claimed,
    Bought,
    Delivered,
    Settled,
}

#[derive(Debug, Clone, Copy, PartialEq, Eq, Structural)]
pub enum ClaimStatus {
    Active,
    Released,
    Completed,
}

#[derive(Debug, Clone, Copy, PartialEq, Eq, Structural)]
pub enum FulfillmentSource {
    Manual,
    Contract,
}

#[derive(Debug, Clone, Copy, PartialEq, Eq, Structural)]
pub enum ReimbursementStatus {
    Pending,
    Settled,
    Cancelled,
}

#[derive(Debug, Clone, Copy, PartialEq, Eq, Structural)]
pub enum ContractType {
    ItemExchange,
    Auction,
    Courier,
    Unknown,
}

#[derive(Debug, Clone, Copy, PartialEq, Eq, Structural)]
pub enum ContractStatus {
    Outstanding,
    InProgress,
    FinishedIssuer,
    FinishedContractor,
    Finished,
    Cancelled,
    Rejected,
    Failed,
    Deleted,
    Reversed,
}

#[derive(Debug, Clone, Copy, PartialEq, Eq, Structural)]
pub enum ContractMatchState {
    Pending,
    Confirmed,
    Rejected,
    Superseded,
}

/// A principal is either a user or a corporation.
#[derive(Debug, Clone, Copy, PartialEq, Eq, Structural)]
pub enum PrincipalKind {
    User,
    Corp,
}

/// A market: an NPC trade hub or a public structure.
#[derive(Debug, Clone)]
pub struct Market {
    pub id: u128,
    pub kind: MarketKind,
    pub esi_location_id: i64,
    pub region_id: Option<i64>,
    pub name: Option<String>,
    pub short_label: Option<String>,
    pub is_hub: bool,
    pub is_public: bool,
}

/// An item name resolved to its type id.
#[derive(Debug, Clone)]
pub struct ResolvedType {
    pub type_id: i64,
    pub name: String,
}

impl GroupRole {
    pub open spec fn spelling(self) -> Seq<char> {
        match self {
            GroupRole::Owner => "owner"@,
            GroupRole::Member => "member"@,
        }
    }

    pub fn as_str(&self) -> (r: &'static str)
        ensures
            r@ == self.spelling(),
    {
        match self {
            GroupRole::Owner => "owner",
            GroupRole::Member => "member",
        }
    }

    pub open spec fn parse_spec(s: Seq<char>) -> Option<GroupRole> {
        if s == "owner"@ {
            Some(GroupRole::Owner)
        } else if s == "member"@ {
            Some(GroupRole::Member)
        } else {
            None
        }
    }

    /// Reads a role from its stored spelling.
    pub fn parse(s: &str) -> (r: Option<GroupRole>)
        ensures
            r == GroupRole::parse_spec(s@),
    {
        if str_eq(s, "owner") {
            Some(GroupRole::Owner)
        } else if str_eq(s, "member") {
            Some(GroupRole::Member)
        } else {
            None
        }
    }

}

impl MarketKind {
    pub open spec fn spelling(self) -> Seq<char> {
        match self {
            MarketKind::NpcHub => "npc_hub"@,
            MarketKind::PublicStructure => "public_structure"@,
        }
    }

    pub fn as_str(&self) -> (r: &'static str)
        ensures
            r@ == self.spelling(),
    {
        match self {
            MarketKind::NpcHub => "npc_hub",
            MarketKind::PublicStructure => "public_structure",
        }
    }

    pub open spec fn parse_spec(s: Seq<char>) -> Option<MarketKind> {
        if s == "npc_hub"@ {
            Some(MarketKind::NpcHub)
        } else if s == "public_structure"@ {
            Some(MarketKind::PublicStructure)
        } else {
            None
        }
    }

    /// Reads a market kind from its stored spelling.
    pub fn parse(s: &str) -> (r: Option<MarketKind>)
        ensures
            r == MarketKind::parse_spec(s@),
    {
        if str_eq(s, "npc_hub") {
            Some(MarketKind::NpcHub)
        } else if str_eq(s, "public_structure") {
            Some(MarketKind::PublicStructure)
        } else {
            None
        }
    }

}

impl ListStatus {
    pub open spec fn spelling(self) -> Seq<char> {
        match self {
            ListStatus::Open => "open"@,
            ListStatus::Closed => "closed"@,
            ListStatus::Archived => "archived"@,
        }
    }

    pub fn as_str(&self) -> (r: &'static str)
        ensures
            r@ == self.spelling(),
    {
        match self {
            ListStatus::Open => "open",
            ListStatus::Closed => "closed",
            ListStatus::Archived => "archived",
        }
    }

}

impl ListItemStatus {
    pub open spec fn spelling(self) -> Seq<char> {
        match self {
            ListItemStatus::Open => "open"@,
            ListItemStatus::Claimed => "claimed"@,
            ListItemStatus::Bought => "bought"@,
            ListItemStatus::Delivered => "delivered"@,
            ListItemStatus::Settled => "settled"@,
        }
    }

    pub fn as_str(&self) -> (r: &'static str)
        ensures
            r@ == self.spelling(),
    {
        match self {
            ListItemStatus::Open => "open",
            ListItemStatus::Claimed => "claimed",
            ListItemStatus::Bought => "bought",
            ListItemStatus::Delivered => "delivered",
            ListItemStatus::Settled => "settled",
        }
    }

}

impl ClaimStatus {
    pub open spec fn spelling(self) -> Seq<char> {
        match self {
            ClaimStatus::Active => "active"@,
            ClaimStatus::Released => "released"@,
            ClaimStatus::Completed => "completed"@,
        }
    }

    pub fn as_str(&self) -> (r: &'static str)
        ensures
            r@ == self.spelling(),
    {
        match self {
            ClaimStatus::Active => "active",
            ClaimStatus::Released => "released",
            ClaimStatus::Completed => "completed",
        }
    }
}

impl FulfillmentSource {
    pub open spec fn spelling(self) -> Seq<char> {
        match self {
            FulfillmentSource::Manual => "manual"@,
            FulfillmentSource::Contract => "contract"@,
        }
    }

    pub fn as_str(&self) -> (r: &'static str)
        ensures
            r@ == self.spelling(),
    {
        match self {
            FulfillmentSource::Manual => "manual",
            FulfillmentSource::Contract => "contract",
        }
    }
}

impl ReimbursementStatus {
    pub open spec fn spelling(self) -> Seq<char> {
        match self {
            ReimbursementStatus::Pending => "pending"@,
            ReimbursementStatus::Settled => "settled"@,
            ReimbursementStatus::Cancelled => "cancelled"@,
        }
    }

    pub fn as_str(&self) -> (r: &'static str)
        ensures
            r@ == self.spelling(),
    {
        match self {
            ReimbursementStatus::Pending => "pending",
            ReimbursementStatus::Settled => "settled",
            ReimbursementStatus::Cancelled => "cancelled",
        }
    }

}

impl ContractType {
    pub open spec fn spelling(self) -> Seq<char> {
        match self {
            ContractType::ItemExchange => "item_exchange"@,
            ContractType::Auction => "auction"@,
            ContractType::Courier => "courier"@,
            ContractType::Unknown => "unknown"@,
        }
    }

    pub fn as_str(&self) -> (r: &'static str)
        ensures
            r@ == self.spelling(),
    {
        match self {
            ContractType::ItemExchange => "item_exchange",
            ContractType::Auction => "auction",
            ContractType::Courier => "courier",
            ContractType::Unknown => "unknown",
        }
    }

    pub open spec fn parse_spec(s: Seq<char>) -> Result<ContractType, Seq<char>> {
        if s == "item_exchange"@ {
            Ok(ContractType::ItemExchange)
        } else if s == "auction"@ {
            Ok(ContractType::Auction)
        } else if s == "courier"@ {
            Ok(ContractType::Courier)
        } else if s == "unknown"@ {
            Ok(ContractType::Unknown)
        } else {
            Err("unknown contract type: "@ + s)
        }
    }

    /// Reads a contract type from its ESI spelling; an unknown spelling is an
    /// error naming it.
    pub fn from_str(s: &str) -> (r: Result<ContractType, String>)
        ensures
            match r {
                Ok(t) => ContractType::parse_spec(s@) == Ok::<ContractType, Seq<char>>(t),
                Err(e) => ContractType::parse_spec(s@) == Err::<ContractType, Seq<char>>(e@),
            },
    {
        if str_eq(s, "item_exchange") {
            Ok(ContractType::ItemExchange)
        } else if str_eq(s, "auction") {
            Ok(ContractType::Auction)
        } else if str_eq(s, "courier") {
            Ok(ContractType::Courier)
        } else if str_eq(s, "unknown") {
            Ok(ContractType::Unknown)
        } else {
            let mut e = String::from_str("unknown contract type: ");
            e.append(s);
            Err(e)
        }
    }
}

impl ContractStatus {
    pub open spec fn spelling(self) -> Seq<char> {
        match self {
            ContractStatus::Outstanding => "outstanding"@,
            ContractStatus::InProgress => "in_progress"@,
            ContractStatus::FinishedIssuer => "finished_issuer"@,
            ContractStatus::FinishedContractor => "finished_contractor"@,
            ContractStatus::Finished => "finished"@,
            ContractStatus::Cancelled => "cancelled"@,
            ContractStatus::Rejected => "rejected"@,
            ContractStatus::Failed => "failed"@,
            ContractStatus::Deleted => "deleted"@,
            ContractStatus::Reversed => "reversed"@,
        }
    }

    pub fn as_str(&self) -> (r: &'static str)
        ensures
            r@ == self.spelling(),
    {
        match self {
            ContractStatus::Outstanding => "outstanding",
            ContractStatus::InProgress => "in_progress",
            ContractStatus::FinishedIssuer => "finished_issuer",
            ContractStatus::FinishedContractor => "finished_contractor",
            ContractStatus::Finished => "finished",
            ContractStatus::Cancelled => "cancelled",
            ContractStatus::Rejected => "rejected",
            ContractStatus::Failed => "failed",
            ContractStatus::Deleted => "deleted",
            ContractStatus::Reversed => "reversed",
        }
    }

    /// The contract completed: finished by either side or both.
    pub open spec fn terminal_success(self) -> bool {
        ||| self == ContractStatus::Finished
        ||| self == ContractStatus::FinishedIssuer
        ||| self == ContractStatus::FinishedContractor
    }

    /// The contract ended without completing.
    pub open spec fn terminal_failure(self) -> bool {
        ||| self == ContractStatus::Cancelled
        ||| self == ContractStatus::Rejected
        ||| self == ContractStatus::Failed
        ||| self == ContractStatus::Deleted
        ||| self == ContractStatus::Reversed
    }

    pub fn is_terminal_success(self) -> (r: bool)
        ensures
            r == self.terminal_success(),
    {
        match self {
            ContractStatus::Finished | ContractStatus::FinishedIssuer
            | ContractStatus::FinishedContractor => true,
            _ => false,
        }
    }

    pub fn is_terminal_failure(self) -> (r: bool)
        ensures
            r == self.terminal_failure(),
    {
        match self {
            ContractStatus::Cancelled | ContractStatus::Rejected | ContractStatus::Failed
            | ContractStatus::Deleted | ContractStatus::Reversed => true,
            _ => false,
        }
    }

    pub open spec fn parse_spec(s: Seq<char>) -> Result<ContractStatus, Seq<char>> {
        if s == "outstanding"@ {
            Ok(ContractStatus::Outstanding)
        } else if s == "in_progress"@ {
            Ok(ContractStatus::InProgress)
        } else if s == "finished_issuer"@ {
            Ok(ContractStatus::FinishedIssuer)
        } else if s == "finished_contractor"@ {
            Ok(ContractStatus::FinishedContractor)
        } else if s == "finished"@ {
            Ok(ContractStatus::Finished)
        } else if s == "cancelled"@ {
            Ok(ContractStatus::Cancelled)
        } else if s == "rejected"@ {
            Ok(ContractStatus::Rejected)
        } else if s == "failed"@ {
            Ok(ContractStatus::Failed)
        } else if s == "deleted"@ {
            Ok(ContractStatus::Deleted)
        } else if s == "reversed"@ {
            Ok(ContractStatus::Reversed)
        } else {
            Err("unknown contract status: "@ + s)
        }
    }

    /// Reads a contract status from its ESI spelling; an unknown spelling is
    /// an error naming it.
    pub fn from_str(s: &str) -> (r: Result<ContractStatus, String>)
        ensures
            match r {
                Ok(t) => ContractStatus::parse_spec(s@) == Ok::<ContractStatus, Seq<char>>(t),
                Err(e) => ContractStatus::parse_spec(s@) == Err::<ContractStatus, Seq<char>>(e@),
            },
    {
        if str_eq(s, "outstanding") {
            Ok(ContractStatus::Outstanding)
        } else if str_eq(s, "in_progress") {
            Ok(ContractStatus::InProgress)
        } else if str_eq(s, "finished_issuer") {
            Ok(ContractStatus::FinishedIssuer)
        } else if str_eq(s, "finished_contractor") {
            Ok(ContractStatus::FinishedContractor)
        } else if str_eq(s, "finished") {
            Ok(ContractStatus::Finished)
        } else if str_eq(s, "cancelled") {
            Ok(ContractStatus::Cancelled)
        } else if str_eq(s, "rejected") {
            Ok(ContractStatus::Rejected)
        } else if str_eq(s, "failed") {
            Ok(ContractStatus::Failed)
        } else if str_eq(s, "deleted") {
            Ok(ContractStatus::Deleted)
        } else if str_eq(s, "reversed") {
            Ok(ContractStatus::Reversed)
        } else {
            let mut e = String::from_str("unknown contract status: ");
            e.append(s);
            Err(e)
        }
    }
}

impl ContractMatchState {
    pub open spec fn spelling(self) -> Seq<char> {
        match self {
            ContractMatchState::Pending => "pending"@,
            ContractMatchState::Confirmed => "confirmed"@,
            ContractMatchState::Rejected => "rejected"@,
            ContractMatchState::Superseded => "superseded"@,
        }
    }

    pub fn as_str(&self) -> (r: &'static str)
        ensures
            r@ == self.spelling(),
    {
        match self {
            ContractMatchState::Pending => "pending",
            ContractMatchState::Confirmed => "confirmed",
            ContractMatchState::Rejected => "rejected",
            ContractMatchState::Superseded => "superseded",
        }
    }
}

impl PrincipalKind {
    pub open spec fn spelling(self) -> Seq<char> {
        match self {
            PrincipalKind::User => "user"@,
            PrincipalKind::Corp => "corp"@,
        }
    }

    pub fn as_str(&self) -> (r: &'static str)
        ensures
            r@ == self.spelling(),
    {
        match self {
            PrincipalKind::User => "user",
            PrincipalKind::Corp => "corp",
        }
    }
}

/// No contract status is both a terminal success and a terminal failure;
/// the two live states are neither.
pub proof fn lemma_terminal_states_disjoint(s: ContractStatus)
    ensures
        !(s.terminal_success() && s.terminal_failure()),
        (s == ContractStatus::Outstanding || s == ContractStatus::InProgress) ==> !s.terminal_success()
            && !s.terminal_failure(),
{
}

/// Reading back the spelling of a contract type gives the same type.
pub proof fn lemma_contract_type_round_trip(t: ContractType)
    ensures
        ContractType::parse_spec(t.spelling()) == Ok::<ContractType, Seq<char>>(t),
{
    reveal_strlit("item_exchange");
    reveal_strlit("auction");
    reveal_strlit("courier");
    reveal_strlit("unknown");
    assert("courier"@[0] != "auction"@[0]);
    assert("unknown"@[0] != "auction"@[0]);
    assert("unknown"@[0] != "courier"@[0]);
}

/// Reading back the spelling of a contract status gives the same status.
pub proof fn lemma_contract_status_round_trip(t: ContractStatus)
    ensures
        ContractStatus::parse_spec(t.spelling()) == Ok::<ContractStatus, Seq<char>>(t),
{
    reveal_strlit("outstanding");
    reveal_strlit("in_progress");
    reveal_strlit("finished_issuer");
    reveal_strlit("finished_contractor");
    reveal_strlit("finished");
    reveal_strlit("cancelled");
    reveal_strlit("rejected");
    reveal_strlit("failed");
    reveal_strlit("deleted");
    reveal_strlit("reversed");
    assert("outstanding"@.len() == 11);
    assert("in_progress"@.len() == 11);
    assert("finished_issuer"@.len() == 15);
    assert("finished_contractor"@.len() == 19);
    assert("finished"@.len() == 8);
    assert("cancelled"@.len() == 9);
    assert("rejected"@.len() == 8);
    assert("failed"@.len() == 6);
    assert("deleted"@.len() == 7);
    assert("reversed"@.len() == 8);
    assert("in_progress"@[0] != "outstanding"@[0]);
    assert("rejected"@[0] != "finished"@[0]);
    assert("reversed"@[0] != "finished"@[0]);
    assert("reversed"@[2] != "rejected"@[2]);
}

} // verus!
