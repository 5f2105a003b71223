//! The registry service's state: which peer services exist, which spaces a
//! user owns, and whether the system accepts work.

use vstd::prelude::*;
use crate::principal::PrincipalId;

verus! {

/// One deployed peer service and the build it runs.
#[derive(Debug)]
pub struct CanisterDeploy {
    pub deploy_at: u64,
    pub canister: PrincipalId,
    pub wasm_name: String,
    pub wasm_hash: Vec<u8>,
}

/// The registry's state as queries return it.
#[derive(Debug)]
pub struct DaoStateInfo {
    pub name: String,
    pub user_canister_id: PrincipalId,
    pub platform_canister_id: PrincipalId,
    pub is_open: bool,
    pub sub_canisters: Vec<CanisterDeploy>,
}

/// The registry's state.
#[derive(Debug)]
pub struct State {
    pub name: String,
    pub owner: PrincipalId,
    pub user_canister_id: PrincipalId,
    pub platform_canister_id: PrincipalId,
    pub user_space_infos: Vec<(u64, Vec<PrincipalId>)>,
    pub is_open: bool,
    pub canister_list: Vec<CanisterDeploy>,
}

impl Default for State {
    /// A fresh registry: open, anonymous, with no peers or user spaces.
    fn default() -> (r: State)
        ensures
            r.name@ == "Canistore DAO"@,
            r.owner.raw == 0,
            r.user_canister_id.raw == 0,
            r.platform_canister_id.raw == 0,
            r.user_space_infos@.len() == 0,
            r.is_open,
            r.canister_list@.len() == 0,
    {
        State {
            name: "Canistore DAO".to_owned(),
            owner: PrincipalId { raw: 0 },
            user_canister_id: PrincipalId { raw: 0 },
            platform_canister_id: PrincipalId { raw: 0 },
            user_space_infos: Vec::new(),
            is_open: true,
            canister_list: Vec::new(),
        }
    }
}

impl State {
    /// Whether the registry accepts work.
    pub fn is_open(&self) -> (r: bool)
        ensures
            r == self.is_open,
    {
        self.is_open
    }

    /// Guards every mutating operation: a closed system rejects them all.
    pub fn check_system_open(&self) -> (r: Result<(), String>)
        ensures
            r is Ok <==> self.is_open,
    {
        if self.is_open {
            Ok(())
        } else {
            Err("system is not open".to_owned())
        }
    }

    /// Records one deployed peer service.
    pub fn add_canister(
        &mut self,
        canister_id: PrincipalId,
        wasm_name: String,
        hash: Vec<u8>,
        now: u64,
    )
        ensures
            final(self).canister_list@.len() == old(self).canister_list@.len() + 1,
            final(self).canister_list@.drop_last() == old(self).canister_list@,
            ({
                let d = final(self).canister_list@.last();
                d.deploy_at == now && d.canister == canister_id && d.wasm_name == wasm_name
                    && d.wasm_hash == hash
            }),
            final(self).name == old(self).name,
            final(self).owner == old(self).owner,
            final(self).is_open == old(self).is_open,
            final(self).user_space_infos == old(self).user_space_infos,
    {
        self.canister_list.push(
            CanisterDeploy { deploy_at: now, canister: canister_id, wasm_name, wasm_hash: hash },
        );
        proof {
            assert(self.canister_list@.drop_last() =~= old(self).canister_list@);
        }
    }

    /// The space services a user owns, if any are registered.
    pub fn get_user_space_info(&self, user_pid: PrincipalId) -> (r: Option<&Vec<PrincipalId>>)
        ensures
            r is Some <==> exists|i: int|
                0 <= i < self.user_space_infos@.len() && (#[trigger] self.user_space_infos@[i]).0
                    == user_pid.raw,
    {
        let mut i: usize = 0;
        while i < self.user_space_infos.len()
            invariant
                i <= self.user_space_infos@.len(),
                forall|j: int|
                    0 <= j < i ==> (#[trigger] self.user_space_infos@[j]).0 != user_pid.raw,
            decreases self.user_space_infos@.len() - i,
        {
            if self.user_space_infos[i].0 == user_pid.raw {
                return Some(&self.user_space_infos[i].1);
            }
            i = i + 1;
        }
        None
    }
}

} // verus!
