//! The receipt of an advanced scenario command (quests, objectives, world
//! events, rules) and its JSON text.
use vstd::prelude::*;
use crate::resources::ResourceBalances;
use crate::text::{dec, escape_seq, option_json, option_json_spec, push_decimal, push_escaped, push_str};

verus! {

/// What an advanced scenario command did.
pub struct AdvancedScenarioReceipt {
    pub command_id: String,
    pub action: String,
    pub quest_key: Option<String>,
    pub objective_key: Option<String>,
    pub event_key: Option<String>,
    pub rule_key: Option<String>,
    pub current_turn: u32,
    pub reward_gold: u32,
    pub state: String,
    pub resources_after: Option<ResourceBalances>,
}

/// Builds a receipt.
pub fn receipt(
    command_id: String,
    action: &str,
    quest_key: Option<String>,
    objective_key: Option<String>,
    event_key: Option<String>,
    rule_key: Option<String>,
    current_turn: u32,
    reward_gold: u32,
    state: String,
    resources_after: Option<ResourceBalances>,
) -> (r: AdvancedScenarioReceipt)
    ensures
        r.command_id == command_id,
        r.action@ == action@,
        r.quest_key == quest_key,
        r.objective_key == objective_key,
        r.event_key == event_key,
        r.rule_key == rule_key,
        r.current_turn == current_turn,
        r.reward_gold == reward_gold,
        r.state == state,
        r.resources_after == resources_after,
{
    AdvancedScenarioReceipt {
        command_id,
        action: action.to_owned(),
        quest_key,
        objective_key,
        event_key,
        rule_key,
        current_turn,
        reward_gold,
        state,
        resources_after,
    }
}

/// An optional string by its characters.
pub open spec fn opt_chars(o: Option<String>) -> Option<Seq<char>> {
    match o {
        Some(s) => Some(s@),
        None => None,
    }
}

/// The JSON object of a participant's resources.
pub open spec fn balances_json_spec(b: ResourceBalances) -> Seq<char> {
    "{\"gold\":"@ + dec(b.gold as nat) + ",\"wood\":"@ + dec(b.wood as nat) + ",\"stone\":"@ + dec(
        b.stone as nat,
    ) + ",\"iron\":"@ + dec(b.iron as nat) + ",\"crystal\":"@ + dec(b.crystal as nat) + ",\"ember\":"@
        + dec(b.ember as nat) + ",\"aether\":"@ + dec(b.aether as nat) + "}"@
}

/// The JSON text of a receipt.
pub open spec fn receipt_json_spec(r: AdvancedScenarioReceipt) -> Seq<char> {
    "{\"action\":\""@ + escape_seq(r.action@) + "\",\"quest_key\":"@ + option_json_spec(opt_chars(r.quest_key))
        + ",\"objective_key\":"@ + option_json_spec(opt_chars(r.objective_key)) + ",\"event_key\":"@
        + option_json_spec(opt_chars(r.event_key)) + ",\"rule_key\":"@ + option_json_spec(opt_chars(r.rule_key))
        + ",\"current_turn\":"@ + dec(r.current_turn as nat) + ",\"reward_gold\":"@ + dec(r.reward_gold as nat)
        + ",\"state\":\""@ + escape_seq(r.state@) + "\",\"resources_after\":"@ + (match r.resources_after {
        Some(b) => balances_json_spec(b),
        None => "null"@,
    }) + "}"@
}

/// Appends the JSON of an optional string.
fn push_option_json(out: &mut String, value: &Option<String>)
    ensures
        final(out)@ == old(out)@ + option_json_spec(opt_chars(*value)),
{
    let json = match value {
        Some(s) => option_json(Some(s.as_str())),
        None => option_json(None),
    };
    push_str(out, json.as_str());
}

/// Appends the JSON object of a participant's resources.
fn push_balances_json(out: &mut String, b: &ResourceBalances)
    ensures
        final(out)@ == old(out)@ + balances_json_spec(*b),
{
    let ghost start = out@;
    push_str(out, "{\"gold\":");
    push_decimal(out, b.gold);
    push_str(out, ",\"wood\":");
    push_decimal(out, b.wood as u64);
    push_str(out, ",\"stone\":");
    push_decimal(out, b.stone as u64);
    push_str(out, ",\"iron\":");
    push_decimal(out, b.iron as u64);
    push_str(out, ",\"crystal\":");
    push_decimal(out, b.crystal as u64);
    push_str(out, ",\"ember\":");
    push_decimal(out, b.ember as u64);
    push_str(out, ",\"aether\":");
    push_decimal(out, b.aether as u64);
    push_str(out, "}");
    proof {
        assert(out@ =~= start + balances_json_spec(*b));
    }
}

/// Encodes a receipt as JSON.
pub fn receipt_json(r: &AdvancedScenarioReceipt) -> (json: String)
    ensures
        json@ == receipt_json_spec(*r),
{
    let mut out = String::new();
    push_str(&mut out, "{\"action\":\"");
    push_escaped(&mut out, r.action.as_str());
    push_str(&mut out, "\",\"quest_key\":");
    push_option_json(&mut out, &r.quest_key);
    push_str(&mut out, ",\"objective_key\":");
    push_option_json(&mut out, &r.objective_key);
    push_str(&mut out, ",\"event_key\":");
    push_option_json(&mut out, &r.event_key);
    push_str(&mut out, ",\"rule_key\":");
    push_option_json(&mut out, &r.rule_key);
    push_str(&mut out, ",\"current_turn\":");
    push_decimal(&mut out, r.current_turn as u64);
    push_str(&mut out, ",\"reward_gold\":");
    push_decimal(&mut out, r.reward_gold as u64);
    push_str(&mut out, ",\"state\":\"");
    push_escaped(&mut out, r.state.as_str());
    push_str(&mut out, "\",\"resources_after\":");
    match &r.resources_after {
        Some(b) => push_balances_json(&mut out, b),
        None => push_str(&mut out, "null"),
    }
    push_str(&mut out, "}");
    proof {
        assert(out@ =~= receipt_json_spec(*r));
    }
    out
}

/// A gold reward of `amount` on a balance of `gold`: the balance after it
/// (saturating) and the change recorded for it (capped at `i64::MAX`).
pub fn gold_reward(gold: u64, amount: u64) -> (reward: (u64, i64))
    ensures
        reward.0 == (if gold + amount <= u64::MAX { (gold + amount) as u64 } else { u64::MAX }),
        reward.1 == (if amount <= i64::MAX { amount as i64 } else { i64::MAX }),
{
    let balance_after = gold.saturating_add(amount);
    let delta: i64 = if amount <= 9223372036854775807 { amount as i64 } else { i64::MAX };
    (balance_after, delta)
}

} // verus!
