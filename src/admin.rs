use vstd::prelude::*;
use crate::types::{Config, PairInfo, ContractError};

verus! {

/// Fails with `Unauthorized` unless `sender` is the configured owner.
pub fn check_owner(cfg: &Config, sender: &String) -> (r: Result<(), ContractError>)
    ensures
        sender@ == cfg.owner@ ==> r is Ok,
        sender@ != cfg.owner@ ==> r == Err::<(), ContractError>(ContractError::Unauthorized {}),
{
    if *sender != cfg.owner {
        return Err(ContractError::Unauthorized {});
    }
    Ok(())
}

/// Fails with `Disabled` unless trading is enabled.
pub fn check_enabled(cfg: &Config) -> (r: Result<(), ContractError>)
    ensures
        cfg.enabled ==> r is Ok,
        !cfg.enabled ==> r == Err::<(), ContractError>(ContractError::Disabled {}),
{
    if !cfg.enabled {
        return Err(ContractError::Disabled {});
    }
    Ok(())
}

/// Replaces each configuration field that is given, on behalf of `sender`,
/// who must be the owner; otherwise `Unauthorized` and no change.
pub fn execute_update_config(
    cfg: &mut Config,
    sender: &String,
    owner: Option<String>,
    pair_list: Option<Vec<PairInfo>>,
    enabled: Option<bool>,
) -> (r: Result<(), ContractError>)
    ensures
        sender@ != old(cfg).owner@ ==> r == Err::<(), ContractError>(ContractError::Unauthorized {})
            && *final(cfg) == *old(cfg),
        sender@ == old(cfg).owner@ ==> r is Ok
            && final(cfg).owner == (match owner { Some(o) => o, None => old(cfg).owner })
            && final(cfg).pair_list == (match pair_list { Some(p) => p, None => old(cfg).pair_list })
            && final(cfg).enabled == (match enabled { Some(e) => e, None => old(cfg).enabled }),
{
    match check_owner(cfg, sender) {
        Ok(()) => {},
        Err(e) => return Err(e),
    }
    if let Some(o) = owner {
        cfg.owner = o;
    }
    if let Some(p) = pair_list {
        cfg.pair_list = p;
    }
    if let Some(e) = enabled {
        cfg.enabled = e;
    }
    Ok(())
}

/// Accepts a token deposit notice; a zero amount is `InvalidInput`.
pub fn execute_receive(amount: u128) -> (r: Result<(), ContractError>)
    ensures
        amount == 0 ==> r == Err::<(), ContractError>(ContractError::InvalidInput {}),
        amount != 0 ==> r is Ok,
{
    if amount == 0 {
        return Err(ContractError::InvalidInput {});
    }
    Ok(())
}

} // verus!
