//! Principal resolution: from the ids an ESI contract names to the
//! principals (users or corporations) known here. The result drives which
//! reimbursements a contract is compared with and who may confirm it.
//! UUIDs are held as their 128-bit value.

use std::collections::HashMap;

use vstd::prelude::*;

use crate::domain::PrincipalKind;

verus! {

broadcast use vstd::std_specs::hash::group_hash_axioms;

/// A user or a corporation that can owe or be owed.
#[derive(Debug, Clone, Copy, PartialEq, Eq, Structural)]
pub struct Principal {
    pub id: u128,
    pub kind: PrincipalKind,
    pub user_id: Option<u128>,
    pub corp_id: Option<u128>,
}

/// Lookups built from one batch query.
#[derive(Debug)]
pub struct PrincipalIndex {
    /// EVE corporation id to the corp's id here.
    pub corp_by_esi_id: HashMap<i64, u128>,
    /// EVE character id to its user's id.
    pub user_by_character_id: HashMap<i64, u128>,
    /// A user's principal.
    pub principal_by_user_id: HashMap<u128, Principal>,
    /// A corp's principal.
    pub principal_by_corp_id: HashMap<u128, Principal>,
}

/// The parties of one ESI contract, as far as they are known here.
#[derive(Debug, Clone, Copy, PartialEq, Eq, Structural)]
pub struct ResolvedParties {
    pub issuer_principal_id: Option<u128>,
    pub assignee_principal_id: Option<u128>,
    /// ESI named an assignee that matches no known user or corp.
    pub assignee_unknown: bool,
}

/// The fields of an ESI contract that resolution reads. `assignee_id` is
/// either a character or a corporation id; both are tried.
#[derive(Debug, Clone, Copy, PartialEq, Eq, Structural)]
pub struct EsiContractParties {
    pub issuer_id: i64,
    pub issuer_corporation_id: i64,
    /// The issuer side is the corporation.
    pub for_corporation: bool,
    pub assignee_id: Option<i64>,
}

impl Default for PrincipalIndex {
    fn default() -> (r: Self)
        ensures
            r.corp_by_esi_id@ == Map::<i64, u128>::empty(),
            r.user_by_character_id@ == Map::<i64, u128>::empty(),
            r.principal_by_user_id@ == Map::<u128, Principal>::empty(),
            r.principal_by_corp_id@ == Map::<u128, Principal>::empty(),
    {
        PrincipalIndex {
            corp_by_esi_id: HashMap::new(),
            user_by_character_id: HashMap::new(),
            principal_by_user_id: HashMap::new(),
            principal_by_corp_id: HashMap::new(),
        }
    }
}

/// The principal reached from an ESI id through two maps, if both know it.
pub open spec fn through(first: Map<i64, u128>, second: Map<u128, Principal>, k: i64) -> Option<u128> {
    if first.contains_key(k) && second.contains_key(first[k]) {
        Some(second[first[k]].id)
    } else {
        None
    }
}

/// Resolution, as stated over the index's maps.
pub open spec fn resolve_spec(
    c: EsiContractParties,
    corps: Map<i64, u128>,
    users: Map<i64, u128>,
    user_principals: Map<u128, Principal>,
    corp_principals: Map<u128, Principal>,
) -> ResolvedParties {
    let issuer = if c.for_corporation {
        through(corps, corp_principals, c.issuer_corporation_id)
    } else {
        through(users, user_principals, c.issuer_id)
    };
    let (assignee, unknown) = match c.assignee_id {
        None => (None, false),
        Some(x) => if corps.contains_key(x) {
            let p = through(corps, corp_principals, x);
            (p, p is None)
        } else if users.contains_key(x) {
            let p = through(users, user_principals, x);
            (p, p is None)
        } else {
            (None, true)
        },
    };
    ResolvedParties {
        issuer_principal_id: issuer,
        assignee_principal_id: assignee,
        assignee_unknown: unknown,
    }
}

fn lookup_through(
    first: &HashMap<i64, u128>,
    second: &HashMap<u128, Principal>,
    k: i64,
) -> (r: Option<u128>)
    ensures
        r == through(first@, second@, k),
{
    match first.get(&k) {
        Some(id) => match second.get(id) {
            Some(p) => Some(p.id),
            None => None,
        },
        None => None,
    }
}

/// Resolves issuer and assignee. The issuer is the corporation of a corp
/// contract, else the issuing character's user. The assignee is tried as a
/// corporation first, then as a character; one that matches neither, or
/// matches without a principal, is flagged unknown. A public contract has
/// no assignee and nothing unknown.
pub fn resolve_contract_parties(c: &EsiContractParties, idx: &PrincipalIndex) -> (r: ResolvedParties)
    ensures
        r == resolve_spec(
            *c,
            idx.corp_by_esi_id@,
            idx.user_by_character_id@,
            idx.principal_by_user_id@,
            idx.principal_by_corp_id@,
        ),
{
    let issuer_principal_id = if c.for_corporation {
        lookup_through(&idx.corp_by_esi_id, &idx.principal_by_corp_id, c.issuer_corporation_id)
    } else {
        lookup_through(&idx.user_by_character_id, &idx.principal_by_user_id, c.issuer_id)
    };
    let (assignee_principal_id, assignee_unknown) = match c.assignee_id {
        None => (None, false),
        Some(x) => {
            if idx.corp_by_esi_id.contains_key(&x) {
                let p = lookup_through(&idx.corp_by_esi_id, &idx.principal_by_corp_id, x);
                (p, p.is_none())
            } else if idx.user_by_character_id.contains_key(&x) {
                let p = lookup_through(&idx.user_by_character_id, &idx.principal_by_user_id, x);
                (p, p.is_none())
            } else {
                (None, true)
            }
        },
    };
    ResolvedParties { issuer_principal_id, assignee_principal_id, assignee_unknown }
}

impl PrincipalIndex {
    /// Records a character's user and that user's principal.
    pub fn add_user(&mut self, character_id: i64, user_id: u128, principal: Principal)
        ensures
            final(self).user_by_character_id@ == old(self).user_by_character_id@.insert(
                character_id,
                user_id,
            ),
            final(self).principal_by_user_id@ == old(self).principal_by_user_id@.insert(
                user_id,
                principal,
            ),
            final(self).corp_by_esi_id@ == old(self).corp_by_esi_id@,
            final(self).principal_by_corp_id@ == old(self).principal_by_corp_id@,
    {
        self.user_by_character_id.insert(character_id, user_id);
        self.principal_by_user_id.insert(user_id, principal);
    }

    /// Records a corporation's id here and its principal.
    pub fn add_corp(&mut self, esi_corp_id: i64, corp_id: u128, principal: Principal)
        ensures
            final(self).corp_by_esi_id@ == old(self).corp_by_esi_id@.insert(esi_corp_id, corp_id),
            final(self).principal_by_corp_id@ == old(self).principal_by_corp_id@.insert(
                corp_id,
                principal,
            ),
            final(self).user_by_character_id@ == old(self).user_by_character_id@,
            final(self).principal_by_user_id@ == old(self).principal_by_user_id@,
    {
        self.corp_by_esi_id.insert(esi_corp_id, corp_id);
        self.principal_by_corp_id.insert(corp_id, principal);
    }
}

/// A user added to the index resolves as the issuer of a personal contract
/// they issue.
pub proof fn lemma_added_user_resolves_as_issuer(
    users: Map<i64, u128>,
    user_principals: Map<u128, Principal>,
    corps: Map<i64, u128>,
    corp_principals: Map<u128, Principal>,
    character_id: i64,
    user_id: u128,
    principal: Principal,
    c: EsiContractParties,
)
    requires
        !c.for_corporation,
        c.issuer_id == character_id,
    ensures
        resolve_spec(
            c,
            corps,
            users.insert(character_id, user_id),
            user_principals.insert(user_id, principal),
            corp_principals,
        ).issuer_principal_id == Some(principal.id),
{
}

/// A corporation added to the index resolves as the assignee of a contract
/// assigned to its EVE id, and is then not unknown.
pub proof fn lemma_added_corp_resolves_as_assignee(
    users: Map<i64, u128>,
    user_principals: Map<u128, Principal>,
    corps: Map<i64, u128>,
    corp_principals: Map<u128, Principal>,
    esi_corp_id: i64,
    corp_id: u128,
    principal: Principal,
    c: EsiContractParties,
)
    requires
        c.assignee_id == Some(esi_corp_id),
    ensures
        ({
            let r = resolve_spec(
                c,
                corps.insert(esi_corp_id, corp_id),
                users,
                user_principals,
                corp_principals.insert(corp_id, principal),
            );
            r.assignee_principal_id == Some(principal.id) && !r.assignee_unknown
        }),
{
}

} // verus!
