//! The outbound call and the accounts it is assembled from.

use crate::account::path_roles;
use crate::account::readonly_role;
use crate::account::role_views;
use crate::account::writable_role;
use crate::account::AccountRole;
use crate::account::RoleView;
use crate::payload::law_payload_layout;
use crate::payload::law_payload_round_trip;
use crate::payload::parsed_payload;
use crate::payload::payload_bytes;
use crate::payload::payload_well_formed;
use crate::payload::PayloadView;
use vstd::prelude::*;

verus! {

/// Number of account slots that every transfer call carries before the proof path.
pub const FIXED_ACCOUNT_COUNT: usize = 8;

/// The accounts of a transfer, by address.
#[derive(Clone, Copy, Debug, PartialEq, Eq)]
pub struct TransferCompressedNft {
    /// Current owner of the leaf.
    pub leaf_owner: [u8; 32],
    /// Delegate of the leaf.
    pub leaf_delegate: [u8; 32],
    /// Authority of the tree, derived from the tree's address.
    pub tree_authority: [u8; 32],
    /// The account that stores the tree.
    pub merkle_tree: [u8; 32],
    /// Owner of the leaf after the transfer.
    pub new_leaf_owner: [u8; 32],
    /// The log sink that the compression program writes to.
    pub log_wrapper: [u8; 32],
    /// The compression program that maintains the tree.
    pub compression_program: [u8; 32],
    /// The program that the call is addressed to.
    pub bubblegum_program: [u8; 32],
    /// The system program.
    pub system_program: [u8; 32],
}

/// Mathematical model of an [`OutboundCall`].
pub struct CallView {
    pub target_program_id: Seq<u8>,
    pub accounts: Seq<RoleView>,
    pub data: Seq<u8>,
}

/// A fully assembled call: the program it is addressed to, the ordered
/// account roles and the binary payload.
#[derive(Clone, Debug, PartialEq, Eq)]
pub struct OutboundCall {
    /// Address of the program that executes the call.
    pub target_program_id: [u8; 32],
    /// The account slots, in the order the remote program expects.
    pub accounts: Vec<AccountRole>,
    /// The payload bytes.
    pub data: Vec<u8>,
}

impl View for OutboundCall {
    type V = CallView;

    open spec fn view(&self) -> CallView {
        CallView {
            target_program_id: self.target_program_id@,
            accounts: role_views(self.accounts@),
            data: self.data@,
        }
    }
}

/// The eight fixed slots of a transfer call, in the order the remote program
/// expects, with the signer flags of leaf owner and leaf delegate left to the
/// caller. The tree is the only writable slot.
pub open spec fn schema_roles(
    accounts: TransferCompressedNft,
    owner_signs: bool,
    delegate_signs: bool,
) -> Seq<RoleView> {
    seq![
        readonly_role(accounts.tree_authority@, false),
        readonly_role(accounts.leaf_owner@, owner_signs),
        readonly_role(accounts.leaf_delegate@, delegate_signs),
        readonly_role(accounts.new_leaf_owner@, false),
        writable_role(accounts.merkle_tree@, false),
        readonly_role(accounts.log_wrapper@, false),
        readonly_role(accounts.compression_program@, false),
        readonly_role(accounts.system_program@, false),
    ]
}

/// The eight fixed slots as a transfer needs them: leaf owner and leaf
/// delegate both sign.
pub open spec fn fixed_roles(accounts: TransferCompressedNft) -> Seq<RoleView> {
    schema_roles(accounts, true, true)
}

/// The address that the fixed slot `slot` holds.
pub open spec fn fixed_address(accounts: TransferCompressedNft, slot: int) -> Seq<u8> {
    if slot == 0 {
        accounts.tree_authority@
    } else if slot == 1 {
        accounts.leaf_owner@
    } else if slot == 2 {
        accounts.leaf_delegate@
    } else if slot == 3 {
        accounts.new_leaf_owner@
    } else if slot == 4 {
        accounts.merkle_tree@
    } else if slot == 5 {
        accounts.log_wrapper@
    } else if slot == 6 {
        accounts.compression_program@
    } else {
        accounts.system_program@
    }
}

/// How many of `roles` are marked as signers.
pub open spec fn signer_count(roles: Seq<RoleView>) -> nat
    decreases roles.len(),
{
    if roles.len() == 0 {
        0
    } else {
        signer_count(roles.drop_last()) + if roles.last().is_signer {
            1nat
        } else {
            0nat
        }
    }
}

/// The call that the hand-built strategy produces: addressed to the program
/// named in the accounts, with the eight fixed slots followed by the proof
/// path, and the payload of `fields`.
pub open spec fn manual_call(
    accounts: TransferCompressedNft,
    path: Seq<[u8; 32]>,
    fields: PayloadView,
) -> CallView {
    CallView {
        target_program_id: accounts.bubblegum_program@,
        accounts: fixed_roles(accounts) + path_roles(path),
        data: payload_bytes(fields),
    }
}

/// The fixed slots come in the order tree authority, leaf owner, leaf
/// delegate, new leaf owner, tree, log sink, compression program, system
/// program; exactly two of them sign, leaf owner and leaf delegate; only the
/// tree is writable.
pub proof fn law_fixed_roles(accounts: TransferCompressedNft)
    ensures
        fixed_roles(accounts).len() == 8,
        forall|slot: int|
            0 <= slot < 8 ==> (#[trigger] fixed_roles(accounts)[slot]).address == fixed_address(
                accounts,
                slot,
            ),
        forall|slot: int|
            0 <= slot < 8 ==> ((#[trigger] fixed_roles(accounts)[slot]).is_signer <==> (slot == 1
                || slot == 2)),
        forall|slot: int|
            0 <= slot < 8 ==> ((#[trigger] fixed_roles(accounts)[slot]).is_writable <==> slot
                == 4),
        signer_count(fixed_roles(accounts)) == 2,
{
    let roles = fixed_roles(accounts);
    let r7 = roles.drop_last();
    let r6 = r7.drop_last();
    let r5 = r6.drop_last();
    let r4 = r5.drop_last();
    let r3 = r4.drop_last();
    let r2 = r3.drop_last();
    let r1 = r2.drop_last();
    let r0 = r1.drop_last();
    assert(signer_count(r0) == 0);
    assert(signer_count(r1) == 0);
    assert(signer_count(r2) == 1);
    assert(signer_count(r3) == 2);
    assert(signer_count(r4) == 2);
    assert(signer_count(r5) == 2);
    assert(signer_count(r6) == 2);
    assert(signer_count(r7) == 2);
}

/// A call built by hand has eight slots more than the proof path is long, and
/// every slot after the eighth is read-only, does not sign, and holds the
/// address of the path node at the same position.
pub proof fn law_manual_call_accounts(
    accounts: TransferCompressedNft,
    path: Seq<[u8; 32]>,
    fields: PayloadView,
)
    ensures
        manual_call(accounts, path, fields).accounts.len() == 8 + path.len(),
        manual_call(accounts, path, fields).accounts.subrange(0, 8) == fixed_roles(accounts),
        forall|i: int|
            0 <= i < path.len() ==> #[trigger] manual_call(accounts, path, fields).accounts[8 + i]
                == readonly_role(path[i]@, false),
{
    let roles = manual_call(accounts, path, fields).accounts;
    assert(roles.subrange(0, 8) =~= fixed_roles(accounts));
}

/// Decoding the payload of a hand-built call under the fixed layout recovers
/// root, data hash, creator hash, nonce and index exactly.
pub proof fn law_manual_payload_decodes(
    accounts: TransferCompressedNft,
    path: Seq<[u8; 32]>,
    fields: PayloadView,
)
    requires
        payload_well_formed(fields),
    ensures
        manual_call(accounts, path, fields).data.len() == 116,
        parsed_payload(manual_call(accounts, path, fields).data) == Some(fields),
{
    law_payload_layout(fields);
    law_payload_round_trip(fields);
}

/// The hand-built call depends on the bytes of its inputs and on nothing
/// else: inputs that agree byte for byte give one and the same call.
pub proof fn law_manual_call_repeatable(
    accounts: TransferCompressedNft,
    path: Seq<[u8; 32]>,
    fields: PayloadView,
    accounts_again: TransferCompressedNft,
    path_again: Seq<[u8; 32]>,
    fields_again: PayloadView,
)
    requires
        forall|slot: int|
            0 <= slot < 8 ==> fixed_address(accounts, slot) == fixed_address(accounts_again, slot),
        accounts.bubblegum_program@ == accounts_again.bubblegum_program@,
        path.len() == path_again.len(),
        forall|i: int| 0 <= i < path.len() ==> path[i]@ == path_again[i]@,
        fields == fields_again,
    ensures
        manual_call(accounts, path, fields) == manual_call(accounts_again, path_again, fields_again),
{
    assert forall|slot: int| 0 <= slot < 8 implies fixed_roles(accounts)[slot] == fixed_roles(
        accounts_again,
    )[slot] by {
        assert(fixed_address(accounts, slot) == fixed_address(accounts_again, slot));
    }
    assert(fixed_roles(accounts) =~= fixed_roles(accounts_again));
    assert(path_roles(path) =~= path_roles(path_again));
}

} // verus!
