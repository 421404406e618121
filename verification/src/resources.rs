//! Resource balances of a participant and the arithmetic of changing them.
use vstd::prelude::*;
use crate::json::{json_u32_field, json_u32_field_spec};
use crate::runtime_types::{resource_kind, resource_kind_spec, ResourceKind};

verus! {

/// Why a resource change is refused.
#[derive(Clone, Copy, Debug, PartialEq, Eq, Structural)]
pub enum ResourceError {
    /// Not enough resources.
    InsufficientResources,
    /// The balance would not fit.
    ResourceCapExceeded,
    /// The resource name is not known.
    UnknownResource,
}

/// `value + delta`: refused below zero, saturating at `u64::MAX`.
pub open spec fn apply_u64_delta_spec(value: u64, delta: i64) -> Result<u64, ResourceError> {
    if delta < 0 {
        if value + delta >= 0 {
            Ok((value + delta) as u64)
        } else {
            Err(ResourceError::InsufficientResources)
        }
    } else if value + delta <= u64::MAX {
        Ok((value + delta) as u64)
    } else {
        Ok(u64::MAX)
    }
}

/// `value + delta` for a `u32` balance: refused below zero or above
/// `u32::MAX`.
pub open spec fn apply_u32_delta_spec(value: u32, delta: i64) -> Result<u32, ResourceError> {
    match apply_u64_delta_spec(value as u64, delta) {
        Ok(v) => if v <= u32::MAX { Ok(v as u32) } else { Err(ResourceError::ResourceCapExceeded) },
        Err(e) => Err(e),
    }
}

/// Adds a signed change to a `u64` balance.
pub fn apply_u64_delta(value: u64, delta: i64) -> (res: Result<u64, ResourceError>)
    ensures
        res == apply_u64_delta_spec(value, delta),
{
    if delta < 0 {
        let magnitude: u64 = if delta == i64::MIN { 9223372036854775808 } else { (-delta) as u64 };
        if value >= magnitude {
            Ok(value - magnitude)
        } else {
            Err(ResourceError::InsufficientResources)
        }
    } else {
        Ok(value.saturating_add(delta as u64))
    }
}

/// Adds a signed change to a `u32` balance.
pub fn apply_u32_delta(value: u32, delta: i64) -> (res: Result<u32, ResourceError>)
    ensures
        res == apply_u32_delta_spec(value, delta),
{
    let v = apply_u64_delta(value as u64, delta)?;
    if v <= 4294967295 {
        Ok(v as u32)
    } else {
        Err(ResourceError::ResourceCapExceeded)
    }
}

/// A participant's resources.
#[derive(Clone, Copy, Debug, PartialEq, Eq, Structural)]
pub struct ResourceBalances {
    pub gold: u64,
    pub wood: u32,
    pub stone: u32,
    pub iron: u32,
    pub crystal: u32,
    pub ember: u32,
    pub aether: u32,
}

/// The balances after adding `delta` to resource `kind`, with the new
/// balance of that resource; `Err` leaves the balances as they were.
pub open spec fn apply_kind_spec(b: ResourceBalances, kind: ResourceKind, delta: i64) -> Result<(ResourceBalances, u64), ResourceError> {
    match kind {
        ResourceKind::Gold => match apply_u64_delta_spec(b.gold, delta) {
            Ok(v) => Ok((ResourceBalances { gold: v, ..b }, v)),
            Err(e) => Err(e),
        },
        ResourceKind::Wood => match apply_u32_delta_spec(b.wood, delta) {
            Ok(v) => Ok((ResourceBalances { wood: v, ..b }, v as u64)),
            Err(e) => Err(e),
        },
        ResourceKind::Stone => match apply_u32_delta_spec(b.stone, delta) {
            Ok(v) => Ok((ResourceBalances { stone: v, ..b }, v as u64)),
            Err(e) => Err(e),
        },
        ResourceKind::Iron => match apply_u32_delta_spec(b.iron, delta) {
            Ok(v) => Ok((ResourceBalances { iron: v, ..b }, v as u64)),
            Err(e) => Err(e),
        },
        ResourceKind::Crystal => match apply_u32_delta_spec(b.crystal, delta) {
            Ok(v) => Ok((ResourceBalances { crystal: v, ..b }, v as u64)),
            Err(e) => Err(e),
        },
        ResourceKind::Ember => match apply_u32_delta_spec(b.ember, delta) {
            Ok(v) => Ok((ResourceBalances { ember: v, ..b }, v as u64)),
            Err(e) => Err(e),
        },
        ResourceKind::Aether => match apply_u32_delta_spec(b.aether, delta) {
            Ok(v) => Ok((ResourceBalances { aether: v, ..b }, v as u64)),
            Err(e) => Err(e),
        },
    }
}

/// The balance of one resource.
pub open spec fn balance_of(b: ResourceBalances, kind: ResourceKind) -> u64 {
    match kind {
        ResourceKind::Gold => b.gold,
        ResourceKind::Wood => b.wood as u64,
        ResourceKind::Stone => b.stone as u64,
        ResourceKind::Iron => b.iron as u64,
        ResourceKind::Crystal => b.crystal as u64,
        ResourceKind::Ember => b.ember as u64,
        ResourceKind::Aether => b.aether as u64,
    }
}

impl ResourceBalances {
    /// Applies a signed change to the resource named `resource_key` and
    /// returns its new balance; on refusal nothing changes.
    pub fn apply_resource_delta(&mut self, resource_key: &str, delta: i64) -> (res: Result<u64, ResourceError>)
        ensures
            match resource_kind_spec(resource_key@) {
                None => res == Err::<u64, ResourceError>(ResourceError::UnknownResource) && *final(self) == *old(self),
                Some(k) => match apply_kind_spec(*old(self), k, delta) {
                    Ok((b, v)) => res == Ok::<u64, ResourceError>(v) && *final(self) == b,
                    Err(e) => res == Err::<u64, ResourceError>(e) && *final(self) == *old(self),
                },
            },
    {
        let kind = match resource_kind(resource_key) {
            Some(k) => k,
            None => return Err(ResourceError::UnknownResource),
        };
        match kind {
            ResourceKind::Gold => {
                self.gold = apply_u64_delta(self.gold, delta)?;
                Ok(self.gold)
            },
            ResourceKind::Wood => {
                self.wood = apply_u32_delta(self.wood, delta)?;
                Ok(self.wood as u64)
            },
            ResourceKind::Stone => {
                self.stone = apply_u32_delta(self.stone, delta)?;
                Ok(self.stone as u64)
            },
            ResourceKind::Iron => {
                self.iron = apply_u32_delta(self.iron, delta)?;
                Ok(self.iron as u64)
            },
            ResourceKind::Crystal => {
                self.crystal = apply_u32_delta(self.crystal, delta)?;
                Ok(self.crystal as u64)
            },
            ResourceKind::Ember => {
                self.ember = apply_u32_delta(self.ember, delta)?;
                Ok(self.ember as u64)
            },
            ResourceKind::Aether => {
                self.aether = apply_u32_delta(self.aether, delta)?;
                Ok(self.aether as u64)
            },
        }
    }

    /// Sets the resource named `resource_key` to a balance recorded in the
    /// ledger; a balance above `u32::MAX` for a resource other than gold is
    /// refused and changes nothing.
    pub fn reconcile_resource_balance(&mut self, resource_key: &str, balance_after: u64) -> (res: Result<(), ResourceError>)
        ensures
            match resource_kind_spec(resource_key@) {
                None => res == Err::<(), ResourceError>(ResourceError::UnknownResource) && *final(self) == *old(self),
                Some(k) => if k == ResourceKind::Gold || balance_after <= u32::MAX {
                    &&& res is Ok
                    &&& balance_of(*final(self), k) == balance_after
                    &&& forall|o: ResourceKind| o != k ==> balance_of(*final(self), o) == balance_of(*old(self), o)
                } else {
                    res == Err::<(), ResourceError>(ResourceError::ResourceCapExceeded) && *final(self) == *old(self)
                },
            },
    {
        let kind = match resource_kind(resource_key) {
            Some(k) => k,
            None => return Err(ResourceError::UnknownResource),
        };
        if kind == ResourceKind::Gold {
            self.gold = balance_after;
            return Ok(());
        }
        if balance_after > 4294967295 {
            return Err(ResourceError::ResourceCapExceeded);
        }
        let v = balance_after as u32;
        match kind {
            ResourceKind::Wood => self.wood = v,
            ResourceKind::Stone => self.stone = v,
            ResourceKind::Iron => self.iron = v,
            ResourceKind::Crystal => self.crystal = v,
            ResourceKind::Ember => self.ember = v,
            ResourceKind::Aether => self.aether = v,
            ResourceKind::Gold => {},
        }
        Ok(())
    }
}

/// Gold that one captured mine yields per turn.
pub const MINE_GOLD_INCOME: u32 = 250;

/// Gold income of a turn: 250 for every captured mine whose income started
/// by that turn, saturating at `u32::MAX`.
pub open spec fn income_gold_spec(turn_number: u32, income_started: Seq<u32>) -> u32
    decreases income_started.len(),
{
    if income_started.len() == 0 {
        0
    } else {
        let rest = income_gold_spec(turn_number, income_started.drop_last());
        if income_started.last() <= turn_number {
            if rest + 250 <= u32::MAX { (rest + 250) as u32 } else { u32::MAX }
        } else {
            rest
        }
    }
}

/// Gold income of a turn from the turns in which the participant's
/// captured mines started yielding.
pub fn income_gold(turn_number: u32, income_started: &Vec<u32>) -> (gold: u32)
    ensures
        gold == income_gold_spec(turn_number, income_started@),
{
    let n = income_started.len();
    let mut gold: u32 = 0;
    let mut i: usize = 0;
    while i < n
        invariant
            n == income_started@.len(),
            i <= n,
            gold == income_gold_spec(turn_number, income_started@.take(i as int)),
        decreases n - i,
    {
        if income_started[i] <= turn_number {
            gold = gold.saturating_add(MINE_GOLD_INCOME);
        }
        proof {
            let t = income_started@.take(i as int + 1);
            assert(t.drop_last() =~= income_started@.take(i as int));
            assert(t.last() == income_started@[i as int]);
        }
        i = i + 1;
    }
    assert(income_started@.take(n as int) =~= income_started@);
    gold
}

/// Income is due for a turn the participant has not been paid for yet.
pub fn income_due(last_income_turn: u32, turn_number: u32) -> (due: bool)
    ensures
        due == (last_income_turn < turn_number),
{
    last_income_turn < turn_number
}

/// The resources a picked-up object grants, read from its JSON, in the
/// order gold, wood, stone, iron, crystal, ember, aether, without zeros.
pub open spec fn reward_amounts_spec(json: Seq<char>) -> Seq<(ResourceKind, u32)> {
    let all = seq![
        (ResourceKind::Gold, json_u32_field_spec(json, "gold"@)),
        (ResourceKind::Wood, json_u32_field_spec(json, "wood"@)),
        (ResourceKind::Stone, json_u32_field_spec(json, "stone"@)),
        (ResourceKind::Iron, json_u32_field_spec(json, "iron"@)),
        (ResourceKind::Crystal, json_u32_field_spec(json, "crystal"@)),
        (ResourceKind::Ember, json_u32_field_spec(json, "ember"@)),
        (ResourceKind::Aether, json_u32_field_spec(json, "aether"@)),
    ];
    all.filter(|r: (ResourceKind, u32)| r.1 != 0)
}

/// The non-zero rewards of an object's JSON.
pub fn reward_amounts(json: &str) -> (rewards: Vec<(ResourceKind, u32)>)
    ensures
        rewards@ == reward_amounts_spec(json@),
{
    let all = vec![
        (ResourceKind::Gold, json_u32_field(json, "gold")),
        (ResourceKind::Wood, json_u32_field(json, "wood")),
        (ResourceKind::Stone, json_u32_field(json, "stone")),
        (ResourceKind::Iron, json_u32_field(json, "iron")),
        (ResourceKind::Crystal, json_u32_field(json, "crystal")),
        (ResourceKind::Ember, json_u32_field(json, "ember")),
        (ResourceKind::Aether, json_u32_field(json, "aether")),
    ];
    let ghost spec_all = seq![
        (ResourceKind::Gold, json_u32_field_spec(json@, "gold"@)),
        (ResourceKind::Wood, json_u32_field_spec(json@, "wood"@)),
        (ResourceKind::Stone, json_u32_field_spec(json@, "stone"@)),
        (ResourceKind::Iron, json_u32_field_spec(json@, "iron"@)),
        (ResourceKind::Crystal, json_u32_field_spec(json@, "crystal"@)),
        (ResourceKind::Ember, json_u32_field_spec(json@, "ember"@)),
        (ResourceKind::Aether, json_u32_field_spec(json@, "aether"@)),
    ];
    assert(all@ =~= spec_all);
    let ghost keep = |r: (ResourceKind, u32)| r.1 != 0;
    let mut out: Vec<(ResourceKind, u32)> = Vec::new();
    let mut i: usize = 0;
    while i < 7
        invariant
            all@ == spec_all,
            keep == |r: (ResourceKind, u32)| r.1 != 0,
            all@.len() == 7,
            i <= 7,
            out@ == all@.take(i as int).filter(keep),
        decreases 7 - i,
    {
        proof {
            crate::seqs::lemma_filter_take_step(all@, keep, i as int);
        }
        if all[i].1 != 0 {
            out.push(all[i]);
        }
        i = i + 1;
    }
    assert(all@.take(7) =~= all@);
    out
}

} // verus!
