//! The typed strategy: account list and payload come from the instruction
//! schema that the `mpl_bubblegum` crate publishes for the remote program.

use crate::account::path_roles;
use crate::account::push_path_roles;
use crate::account::role_views;
use crate::account::AccountRole;
use crate::account::RoleView;
use crate::call::manual_call;
use crate::call::schema_roles;
use crate::call::CallView;
use crate::call::OutboundCall;
use crate::call::TransferCompressedNft;
use crate::payload::payload_bytes;
use crate::payload::CallPayload;
use crate::payload::PayloadView;
use mpl_bubblegum::instructions::Transfer;
use mpl_bubblegum::instructions::TransferInstructionArgs;
use solana_program::instruction::AccountMeta;
use vstd::prelude::*;

verus! {

/// Address of the Bubblegum program, `BGUMAp9Gq7iTEuizy4pqaxsTyUCBK68MDfK752saRPUY`.
pub const BUBBLEGUM_PROGRAM_ID: [u8; 32] = [
    152, 139, 128, 235, 121, 53, 40, 105, 178, 36, 116, 95, 89, 221, 191, 138,
    38, 88, 202, 19, 220, 104, 129, 33, 38, 53, 28, 174, 7, 193, 165, 165,
];

/// The call that the schema produces: addressed to the Bubblegum program,
/// with the eight fixed slots under the given signer flags followed by
/// `extra`, and the payload of `fields`.
pub open spec fn schema_call(
    accounts: TransferCompressedNft,
    owner_signs: bool,
    delegate_signs: bool,
    extra: Seq<RoleView>,
    fields: PayloadView,
) -> CallView {
    CallView {
        target_program_id: BUBBLEGUM_PROGRAM_ID@,
        accounts: schema_roles(accounts, owner_signs, delegate_signs) + extra,
        data: payload_bytes(fields),
    }
}

/// Calls `mpl_bubblegum::instructions::Transfer::instruction`.
///
/// Trusted: the instruction that the schema returns is addressed to the
/// Bubblegum program; its account list is the eight fixed slots in their
/// order, read-only but for the tree, none signing but leaf owner and leaf
/// delegate as far as the two flags say; its data is the transfer selector
/// followed by the Borsh encoding of the five fields, which writes the hashes
/// as they are and the integers little-endian.
#[verifier::external_body]
fn schema_transfer(
    accounts: &TransferCompressedNft,
    owner_signs: bool,
    delegate_signs: bool,
    payload: &CallPayload,
) -> (call: OutboundCall)
    ensures
        call@ == schema_call(*accounts, owner_signs, delegate_signs, Seq::empty(), payload@),
{
    let CallPayload { root, data_hash, creator_hash, nonce, index } = *payload;
    let ix = Transfer {
        tree_config: accounts.tree_authority.into(),
        leaf_owner: (accounts.leaf_owner.into(), owner_signs),
        leaf_delegate: (accounts.leaf_delegate.into(), delegate_signs),
        new_leaf_owner: accounts.new_leaf_owner.into(),
        merkle_tree: accounts.merkle_tree.into(),
        log_wrapper: accounts.log_wrapper.into(),
        compression_program: accounts.compression_program.into(),
        system_program: accounts.system_program.into(),
    }.instruction(TransferInstructionArgs { root, data_hash, creator_hash, nonce, index });
    let slot = |m: &AccountMeta| AccountRole { address: m.pubkey.to_bytes(), is_signer: m.is_signer, is_writable: m.is_writable };
    OutboundCall { target_program_id: ix.program_id.to_bytes(), accounts: ix.accounts.iter().map(slot).collect(), data: ix.data }
}

/// Assembles the transfer call through the schema, with the signer flags of
/// leaf owner and leaf delegate as given.
///
/// The schema leaves both flags to its caller. The remote program accepts the
/// call only if a leaf authority is marked as signer; with neither flag set
/// the call has the shape that it rejects. The proof path follows the fixed
/// slots, every node read-only and not signing.
pub fn typed_transfer_call(
    accounts: &TransferCompressedNft,
    remaining_accounts: &Vec<[u8; 32]>,
    payload: &CallPayload,
    owner_signs: bool,
    delegate_signs: bool,
) -> (call: OutboundCall)
    ensures
        call@ == schema_call(
            *accounts,
            owner_signs,
            delegate_signs,
            path_roles(remaining_accounts@),
            payload@,
        ),
{
    let mut call = schema_transfer(accounts, owner_signs, delegate_signs, payload);
    assert(role_views(call.accounts@) =~= schema_roles(*accounts, owner_signs, delegate_signs));

    // The nodes of the proof path follow the slots that the schema fills.
    push_path_roles(&mut call.accounts, remaining_accounts);
    call
}

/// Assembles the transfer call through the schema and marks as signers the
/// accounts that [`transfer_one`](crate::manual::transfer_one) marks: leaf
/// owner and leaf delegate.
///
/// Account list and payload are those of the hand-built call. The call is
/// addressed to the Bubblegum program itself, whatever program the accounts
/// name.
pub fn transfer_two(
    accounts: &TransferCompressedNft,
    remaining_accounts: &Vec<[u8; 32]>,
    root: [u8; 32],
    data_hash: [u8; 32],
    creator_hash: [u8; 32],
    nonce: u64,
    index: u32,
) -> (call: OutboundCall)
    ensures
        call@ == schema_call(
            *accounts,
            true,
            true,
            path_roles(remaining_accounts@),
            (CallPayload { root, data_hash, creator_hash, nonce, index })@,
        ),
        call@.target_program_id == BUBBLEGUM_PROGRAM_ID@,
        call@.accounts == manual_call(
            *accounts,
            remaining_accounts@,
            (CallPayload { root, data_hash, creator_hash, nonce, index })@,
        ).accounts,
        call@.data == manual_call(
            *accounts,
            remaining_accounts@,
            (CallPayload { root, data_hash, creator_hash, nonce, index })@,
        ).data,
{
    let payload = CallPayload { root, data_hash, creator_hash, nonce, index };
    typed_transfer_call(accounts, remaining_accounts, &payload, true, true)
}

/// With both signer flags set, the schema's call has the account list and the
/// payload of the hand-built call, slot for slot and byte for byte; the two
/// calls are one where the accounts name the Bubblegum program as target.
pub proof fn law_typed_matches_manual(
    accounts: TransferCompressedNft,
    path: Seq<[u8; 32]>,
    fields: PayloadView,
)
    ensures
        schema_call(accounts, true, true, path_roles(path), fields).accounts == manual_call(
            accounts,
            path,
            fields,
        ).accounts,
        schema_call(accounts, true, true, path_roles(path), fields).data == manual_call(
            accounts,
            path,
            fields,
        ).data,
        accounts.bubblegum_program@ == BUBBLEGUM_PROGRAM_ID@ ==> schema_call(
            accounts,
            true,
            true,
            path_roles(path),
            fields,
        ) == manual_call(accounts, path, fields),
{
}

/// The signer flags reach the call unchanged and touch nothing else: the
/// schema's call differs from the hand-built one in the signer flag of slot 1
/// exactly if the owner's flag is unset, in that of slot 2 exactly if the
/// delegate's is, and in no other flag or address of any slot.
pub proof fn law_signer_flags_propagate(
    accounts: TransferCompressedNft,
    path: Seq<[u8; 32]>,
    fields: PayloadView,
    owner_signs: bool,
    delegate_signs: bool,
)
    ensures
        schema_call(accounts, owner_signs, delegate_signs, path_roles(path), fields).accounts.len()
            == manual_call(accounts, path, fields).accounts.len(),
        forall|i: int|
            0 <= i < 8 + path.len() ==> {
                let typed = #[trigger] schema_call(
                    accounts,
                    owner_signs,
                    delegate_signs,
                    path_roles(path),
                    fields,
                ).accounts[i];
                let manual = manual_call(accounts, path, fields).accounts[i];
                &&& typed.address == manual.address
                &&& typed.is_writable == manual.is_writable
                &&& typed.is_signer == if i == 1 {
                    owner_signs
                } else if i == 2 {
                    delegate_signs
                } else {
                    manual.is_signer
                }
            },
{
}

} // verus!
