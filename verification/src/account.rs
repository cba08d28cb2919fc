//! Account roles: the slots of an outbound call's account list.

use vstd::prelude::*;

verus! {

/// Mathematical model of an [`AccountRole`]: the address as a byte sequence
/// and the two capability flags.
pub struct RoleView {
    pub address: Seq<u8>,
    pub is_signer: bool,
    pub is_writable: bool,
}

/// One account slot in an outbound call: an address together with the
/// capabilities that the call grants to that account.
#[derive(Clone, Copy, Debug, PartialEq, Eq)]
pub struct AccountRole {
    /// The 32-byte address of the account.
    pub address: [u8; 32],
    /// Whether the account has to sign the call.
    pub is_signer: bool,
    /// Whether the remote program may write to the account.
    pub is_writable: bool,
}

impl View for AccountRole {
    type V = RoleView;

    open spec fn view(&self) -> RoleView {
        RoleView { address: self.address@, is_signer: self.is_signer, is_writable: self.is_writable }
    }
}

/// The role of an account that the remote program may write to.
pub open spec fn writable_role(address: Seq<u8>, is_signer: bool) -> RoleView {
    RoleView { address, is_signer, is_writable: true }
}

/// The role of an account that the remote program may only read.
pub open spec fn readonly_role(address: Seq<u8>, is_signer: bool) -> RoleView {
    RoleView { address, is_signer, is_writable: false }
}

/// The models of a list of roles, in order.
pub open spec fn role_views(roles: Seq<AccountRole>) -> Seq<RoleView> {
    Seq::new(roles.len(), |i: int| roles[i]@)
}

/// The roles of a proof path: every node read-only and not signing, in the
/// order in which the path lists them.
pub open spec fn path_roles(path: Seq<[u8; 32]>) -> Seq<RoleView> {
    Seq::new(path.len(), |i: int| readonly_role(path[i]@, false))
}

impl AccountRole {
    /// A writable slot for `address`.
    pub fn new(address: [u8; 32], is_signer: bool) -> (role: AccountRole)
        ensures
            role@ == writable_role(address@, is_signer),
    {
        AccountRole { address, is_signer, is_writable: true }
    }

    /// A read-only slot for `address`.
    pub fn new_readonly(address: [u8; 32], is_signer: bool) -> (role: AccountRole)
        ensures
            role@ == readonly_role(address@, is_signer),
    {
        AccountRole { address, is_signer, is_writable: false }
    }
}

/// Whether two addresses hold the same 32 bytes.
pub fn same_address(left: &[u8; 32], right: &[u8; 32]) -> (same: bool)
    ensures
        same == (left@ == right@),
{
    let mut k: usize = 0;
    while k < 32
        invariant
            k <= 32,
            forall|i: int| 0 <= i < k ==> left@[i] == right@[i],
        decreases 32 - k,
    {
        if left[k] != right[k] {
            return false;
        }
        k = k + 1;
    }
    assert(left@ =~= right@);
    true
}

/// Whether `at` is the first position at which two role lists part: the lists
/// agree before it, and at it they differ or exactly one of them has ended.
pub open spec fn diverge_at(left: Seq<RoleView>, right: Seq<RoleView>, at: int) -> bool {
    &&& 0 <= at <= left.len()
    &&& at <= right.len()
    &&& left.subrange(0, at) == right.subrange(0, at)
    &&& if at < left.len() && at < right.len() {
        left[at] != right[at]
    } else {
        left.len() != right.len()
    }
}

/// Compares two role lists slot by slot, in address, signer flag and writable
/// flag. Returns the first position at which they part, and nothing exactly
/// if they are the same list.
pub fn first_divergence(left: &Vec<AccountRole>, right: &Vec<AccountRole>) -> (found: Option<
    usize,
>)
    ensures
        match found {
            Some(at) => diverge_at(role_views(left@), role_views(right@), at as int),
            None => role_views(left@) == role_views(right@),
        },
{
    let mut k: usize = 0;
    while k < left.len() && k < right.len()
        invariant
            k <= left.len(),
            k <= right.len(),
            role_views(left@).subrange(0, k as int) == role_views(right@).subrange(0, k as int),
        decreases left.len() - k,
    {
        let same = same_address(&left[k].address, &right[k].address) && left[k].is_signer
            == right[k].is_signer && left[k].is_writable == right[k].is_writable;
        if !same {
            assert(role_views(left@)[k as int] != role_views(right@)[k as int]);
            return Some(k);
        }
        assert(role_views(left@)[k as int] == role_views(right@)[k as int]);
        assert(role_views(left@).subrange(0, k + 1) =~= role_views(left@).subrange(
            0,
            k as int,
        ).push(role_views(left@)[k as int]));
        assert(role_views(right@).subrange(0, k + 1) =~= role_views(right@).subrange(
            0,
            k as int,
        ).push(role_views(right@)[k as int]));
        k = k + 1;
    }
    if left.len() != right.len() {
        return Some(k);
    }
    assert(role_views(left@) =~= role_views(left@).subrange(0, k as int));
    assert(role_views(right@) =~= role_views(right@).subrange(0, k as int));
    None
}

/// Two role lists part at one position at most, and at none if they are equal.
pub proof fn law_divergence_unique(left: Seq<RoleView>, right: Seq<RoleView>, at: int, other: int)
    requires
        diverge_at(left, right, at),
        diverge_at(left, right, other),
    ensures
        at == other,
        left != right,
{
    if at < other {
        assert(left.subrange(0, other)[at] == right.subrange(0, other)[at]);
        assert(left.subrange(0, other).len() == right.subrange(0, other).len());
    } else if other < at {
        assert(left.subrange(0, at)[other] == right.subrange(0, at)[other]);
        assert(left.subrange(0, at).len() == right.subrange(0, at).len());
    }
}

/// Appends one read-only, non-signing role per node of `path` to `roles`,
/// keeping the order of the path.
pub fn push_path_roles(roles: &mut Vec<AccountRole>, path: &Vec<[u8; 32]>)
    ensures
        role_views(final(roles)@) == role_views(old(roles)@) + path_roles(path@),
{
    let ghost before = roles@;
    let mut k: usize = 0;
    assert(role_views(roles@) =~= role_views(before) + path_roles(path@.subrange(0, 0)));
    while k < path.len()
        invariant
            k <= path.len(),
            role_views(roles@) == role_views(before) + path_roles(path@.subrange(0, k as int)),
        decreases path.len() - k,
    {
        let ghost earlier = roles@;
        let role = AccountRole::new_readonly(path[k], false);
        roles.push(role);
        k = k + 1;
        proof {
            let done = path@.subrange(0, k - 1);
            let now = path@.subrange(0, k as int);
            assert(role_views(roles@) =~= role_views(earlier).push(role@));
            assert(now[k - 1] == path@[k - 1]);
            assert forall|i: int| 0 <= i < k - 1 implies now[i] == done[i] by {}
            assert(path_roles(now) =~= path_roles(done).push(role@));
            assert(role_views(roles@) =~= role_views(before) + path_roles(now));
        }
    }
    assert(path@.subrange(0, k as int) =~= path@);
}

} // verus!
