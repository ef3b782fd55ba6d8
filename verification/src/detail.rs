//! Rows of a list's detail page turned into the entities the page shows:
//! claims with their items, and reimbursements with the summary of the
//! contract bound to them.

use vstd::prelude::*;

use crate::decimal::Dec;
use crate::domain::{ClaimStatus, ContractStatus, ReimbursementStatus};

verus! {

/// A hauler's claim on some items of a list.
#[derive(Debug, Clone)]
pub struct Claim {
    pub id: u128,
    pub list_id: u128,
    pub hauler_user_id: u128,
    pub hauler_display_name: String,
    pub status: ClaimStatus,
    pub note: Option<String>,
    pub item_ids: Vec<u128>,
    pub created_at: i64,
    pub released_at: Option<i64>,
}

/// A claim as the query returns it: a claim with no active item has no
/// item array at all.
#[derive(Debug, Clone)]
pub struct ClaimRow {
    pub id: u128,
    pub list_id: u128,
    pub hauler_user_id: u128,
    pub hauler_display_name: String,
    pub status: ClaimStatus,
    pub note: Option<String>,
    pub item_ids: Option<Vec<u128>>,
    pub created_at: i64,
    pub released_at: Option<i64>,
}

impl ClaimRow {
    /// The claim, with no items where the row has none.
    pub fn into_claim(self) -> (r: Claim)
        ensures
            r.id == self.id,
            r.list_id == self.list_id,
            r.hauler_user_id == self.hauler_user_id,
            r.hauler_display_name == self.hauler_display_name,
            r.status == self.status,
            r.note == self.note,
            r.item_ids@ == match self.item_ids {
                Some(v) => v@,
                None => Seq::<u128>::empty(),
            },
            r.created_at == self.created_at,
            r.released_at == self.released_at,
    {
        let item_ids = match self.item_ids {
            Some(v) => v,
            None => Vec::new(),
        };
        Claim {
            id: self.id,
            list_id: self.list_id,
            hauler_user_id: self.hauler_user_id,
            hauler_display_name: self.hauler_display_name,
            status: self.status,
            note: self.note,
            item_ids,
            created_at: self.created_at,
            released_at: self.released_at,
        }
    }
}

/// What a reimbursement shows of the contract bound to it.
#[derive(Debug, Clone)]
pub struct ContractSummary {
    pub esi_contract_id: i64,
    pub status: ContractStatus,
    pub price_isk: Dec,
    pub expected_total_isk: Option<Dec>,
    pub settlement_delta_isk: Option<Dec>,
    pub date_completed: Option<i64>,
}

/// What a requester owes a hauler for one list.
#[derive(Debug, Clone)]
pub struct Reimbursement {
    pub id: u128,
    pub list_id: u128,
    /// `None` for a corp-funded reimbursement; `requester_principal_id`
    /// names the payer in every case.
    pub requester_user_id: Option<u128>,
    pub requester_display_name: String,
    pub hauler_user_id: u128,
    pub hauler_display_name: String,
    pub subtotal_isk: Dec,
    pub tip_isk: Dec,
    pub total_isk: Dec,
    pub status: ReimbursementStatus,
    pub settled_at: Option<i64>,
    pub settled_by_user_id: Option<u128>,
    pub contract_id: Option<u128>,
    pub contract: Option<ContractSummary>,
    pub created_at: i64,
    pub updated_at: i64,
    pub requester_principal_id: u128,
    pub hauler_principal_id: u128,
    pub is_corp_funded: bool,
    pub verified_by_wallet: bool,
    pub wallet_settlement_delta_isk: Option<Dec>,
}

/// A reimbursement joined with the columns of its contract, each absent
/// when no contract is bound.
#[derive(Debug, Clone)]
pub struct ReimbursementRow {
    pub id: u128,
    pub list_id: u128,
    pub requester_user_id: Option<u128>,
    pub hauler_user_id: u128,
    pub subtotal_isk: Dec,
    pub tip_isk: Dec,
    pub total_isk: Dec,
    pub status: ReimbursementStatus,
    pub settled_at: Option<i64>,
    pub settled_by_user_id: Option<u128>,
    pub contract_id: Option<u128>,
    pub created_at: i64,
    pub updated_at: i64,
    pub requester_display_name: String,
    pub hauler_display_name: String,
    pub contract_esi_contract_id: Option<i64>,
    pub contract_status: Option<ContractStatus>,
    pub contract_price_isk: Option<Dec>,
    pub contract_expected_total_isk: Option<Dec>,
    pub contract_settlement_delta_isk: Option<Dec>,
    pub contract_date_completed: Option<i64>,
    pub requester_principal_id: u128,
    pub hauler_principal_id: u128,
    pub is_corp_funded: bool,
    pub verified_by_wallet: bool,
    pub wallet_settlement_delta_isk: Option<Dec>,
}

/// The contract summary of a row: present when its contract id, status and
/// price are all present.
pub open spec fn summary_of(row: ReimbursementRow) -> Option<ContractSummary> {
    match (row.contract_esi_contract_id, row.contract_status, row.contract_price_isk) {
        (Some(esi_id), Some(status), Some(price)) => Some(
            ContractSummary {
                esi_contract_id: esi_id,
                status,
                price_isk: price,
                expected_total_isk: row.contract_expected_total_isk,
                settlement_delta_isk: row.contract_settlement_delta_isk,
                date_completed: row.contract_date_completed,
            },
        ),
        _ => None,
    }
}

impl ReimbursementRow {
    /// The reimbursement, with the summary of its contract when the row
    /// carries one.
    pub fn into_reimbursement(self) -> (r: Reimbursement)
        ensures
            r.contract == summary_of(self),
            r.id == self.id,
            r.list_id == self.list_id,
            r.requester_user_id == self.requester_user_id,
            r.requester_display_name == self.requester_display_name,
            r.hauler_user_id == self.hauler_user_id,
            r.hauler_display_name == self.hauler_display_name,
            r.subtotal_isk == self.subtotal_isk,
            r.tip_isk == self.tip_isk,
            r.total_isk == self.total_isk,
            r.status == self.status,
            r.settled_at == self.settled_at,
            r.settled_by_user_id == self.settled_by_user_id,
            r.contract_id == self.contract_id,
            r.created_at == self.created_at,
            r.updated_at == self.updated_at,
            r.requester_principal_id == self.requester_principal_id,
            r.hauler_principal_id == self.hauler_principal_id,
            r.is_corp_funded == self.is_corp_funded,
            r.verified_by_wallet == self.verified_by_wallet,
            r.wallet_settlement_delta_isk == self.wallet_settlement_delta_isk,
    {
        let contract = match (self.contract_esi_contract_id, self.contract_status, self.contract_price_isk) {
            (Some(esi_id), Some(status), Some(price)) => Some(
                ContractSummary {
                    esi_contract_id: esi_id,
                    status,
                    price_isk: price,
                    expected_total_isk: self.contract_expected_total_isk,
                    settlement_delta_isk: self.contract_settlement_delta_isk,
                    date_completed: self.contract_date_completed,
                },
            ),
            _ => None,
        };
        Reimbursement {
            id: self.id,
            list_id: self.list_id,
            requester_user_id: self.requester_user_id,
            requester_display_name: self.requester_display_name,
            hauler_user_id: self.hauler_user_id,
            hauler_display_name: self.hauler_display_name,
            subtotal_isk: self.subtotal_isk,
            tip_isk: self.tip_isk,
            total_isk: self.total_isk,
            status: self.status,
            settled_at: self.settled_at,
            settled_by_user_id: self.settled_by_user_id,
            contract_id: self.contract_id,
            contract,
            created_at: self.created_at,
            updated_at: self.updated_at,
            requester_principal_id: self.requester_principal_id,
            hauler_principal_id: self.hauler_principal_id,
            is_corp_funded: self.is_corp_funded,
            verified_by_wallet: self.verified_by_wallet,
            wallet_settlement_delta_isk: self.wallet_settlement_delta_isk,
        }
    }
}

} // verus!
