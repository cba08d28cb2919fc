//! The hand-built strategy: account list and payload are assembled from
//! primitive fields, slot by slot and byte by byte.

use crate::account::push_path_roles;
use crate::account::role_views;
use crate::account::AccountRole;
use crate::call::fixed_roles;
use crate::call::manual_call;
use crate::call::OutboundCall;
use crate::call::TransferCompressedNft;
use crate::payload::CallPayload;
use vstd::prelude::*;

verus! {

/// Assembles the transfer call by hand.
///
/// The call is addressed to `accounts.bubblegum_program`. Its account list
/// holds the eight fixed slots in their fixed order, then one read-only,
/// non-signing slot per entry of `remaining_accounts`, in the order given.
/// Leaf owner and leaf delegate are the only signers and the tree is the only
/// writable account. The payload is the transfer selector followed by
/// `root`, `data_hash`, `creator_hash`, and `nonce` and `index` in
/// little-endian byte order: 116 bytes.
pub fn transfer_one(
    accounts: &TransferCompressedNft,
    remaining_accounts: &Vec<[u8; 32]>,
    root: [u8; 32],
    data_hash: [u8; 32],
    creator_hash: [u8; 32],
    nonce: u64,
    index: u32,
) -> (call: OutboundCall)
    ensures
        call@ == manual_call(
            *accounts,
            remaining_accounts@,
            (CallPayload { root, data_hash, creator_hash, nonce, index })@,
        ),
        call@.accounts.len() == 8 + remaining_accounts@.len(),
        call@.data.len() == 116,
{
    let mut roles: Vec<AccountRole> = Vec::new();
    roles.push(AccountRole::new_readonly(accounts.tree_authority, false));
    roles.push(AccountRole::new_readonly(accounts.leaf_owner, true));
    roles.push(AccountRole::new_readonly(accounts.leaf_delegate, true));
    roles.push(AccountRole::new_readonly(accounts.new_leaf_owner, false));
    roles.push(AccountRole::new(accounts.merkle_tree, false));
    roles.push(AccountRole::new_readonly(accounts.log_wrapper, false));
    roles.push(AccountRole::new_readonly(accounts.compression_program, false));
    roles.push(AccountRole::new_readonly(accounts.system_program, false));
    assert(role_views(roles@) =~= fixed_roles(*accounts));

    // The nodes of the proof path follow the fixed slots.
    push_path_roles(&mut roles, remaining_accounts);

    let payload = CallPayload { root, data_hash, creator_hash, nonce, index };
    let data = payload.encode();

    OutboundCall { target_program_id: accounts.bubblegum_program, accounts: roles, data }
}

} // verus!
