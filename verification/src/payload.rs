//! The binary payload of a transfer call.
//!
//! Layout, with no length prefix and no padding:
//!
//! | bytes      | field          | encoding              |
//! |------------|----------------|-----------------------|
//! | 0..8       | discriminator  | fixed opcode selector |
//! | 8..40      | root           | raw                   |
//! | 40..72     | data hash      | raw                   |
//! | 72..104    | creator hash   | raw                   |
//! | 104..112   | nonce          | `u64`, little-endian  |
//! | 112..116   | index          | `u32`, little-endian  |

use crate::codec::le_bytes;
use crate::codec::le_value;
use crate::codec::lemma_le_bytes_of_value;
use crate::codec::lemma_le_value_bound;
use crate::codec::lemma_le_value_of_bytes;
use crate::codec::lemma_pow256_values;
use crate::codec::push_le;
use crate::codec::push_raw;
use crate::codec::read_hash;
use crate::codec::read_le;
use vstd::prelude::*;

verus! {

/// Total length of a transfer payload: selector, three hashes, nonce and index.
pub const PAYLOAD_LEN: usize = 116;

/// Offset of the root hash in a payload.
pub const ROOT_OFFSET: usize = 8;

/// Offset of the data hash in a payload.
pub const DATA_HASH_OFFSET: usize = 40;

/// Offset of the creator hash in a payload.
pub const CREATOR_HASH_OFFSET: usize = 72;

/// Offset of the nonce in a payload.
pub const NONCE_OFFSET: usize = 104;

/// Offset of the leaf index in a payload.
pub const INDEX_OFFSET: usize = 112;

/// The opcode selector of the remote program's transfer entry point.
pub open spec fn transfer_discriminator() -> Seq<u8> {
    seq![163u8, 52u8, 200u8, 231u8, 140u8, 3u8, 69u8, 186u8]
}

/// Mathematical model of a [`CallPayload`].
pub struct PayloadView {
    pub root: Seq<u8>,
    pub data_hash: Seq<u8>,
    pub creator_hash: Seq<u8>,
    pub nonce: u64,
    pub index: u32,
}

/// The arguments of a transfer, as the payload carries them.
#[derive(Clone, Copy, Debug, PartialEq, Eq)]
pub struct CallPayload {
    /// Root of the tree that the proof was computed against.
    pub root: [u8; 32],
    /// Hash of the leaf's data.
    pub data_hash: [u8; 32],
    /// Hash of the leaf's creators.
    pub creator_hash: [u8; 32],
    /// Nonce of the leaf.
    pub nonce: u64,
    /// Index of the leaf in the tree.
    pub index: u32,
}

impl View for CallPayload {
    type V = PayloadView;

    open spec fn view(&self) -> PayloadView {
        PayloadView {
            root: self.root@,
            data_hash: self.data_hash@,
            creator_hash: self.creator_hash@,
            nonce: self.nonce,
            index: self.index,
        }
    }
}

/// A payload model whose three hashes have their fixed length.
pub open spec fn payload_well_formed(fields: PayloadView) -> bool {
    &&& fields.root.len() == 32
    &&& fields.data_hash.len() == 32
    &&& fields.creator_hash.len() == 32
}

/// The bytes that stand for `fields` on the wire.
pub open spec fn payload_bytes(fields: PayloadView) -> Seq<u8> {
    transfer_discriminator() + fields.root + fields.data_hash + fields.creator_hash + le_bytes(
        fields.nonce as nat,
        8,
    ) + le_bytes(fields.index as nat, 4)
}

/// What `data` decodes to under the fixed layout: nothing unless it has the
/// length of a payload and opens with the transfer selector.
pub open spec fn parsed_payload(data: Seq<u8>) -> Option<PayloadView> {
    if data.len() == 116 && data.subrange(0, 8) == transfer_discriminator() {
        Some(
            PayloadView {
                root: data.subrange(8, 40),
                data_hash: data.subrange(40, 72),
                creator_hash: data.subrange(72, 104),
                nonce: le_value(data.subrange(104, 112)) as u64,
                index: le_value(data.subrange(112, 116)) as u32,
            },
        )
    } else {
        None
    }
}

/// Every well-formed payload is 116 bytes long and holds each field at its
/// fixed offset: the selector, the three hashes unchanged, then nonce and
/// index least significant byte first.
pub proof fn law_payload_layout(fields: PayloadView)
    requires
        payload_well_formed(fields),
    ensures
        payload_bytes(fields).len() == 116,
        payload_bytes(fields).subrange(0, 8) == transfer_discriminator(),
        payload_bytes(fields).subrange(8, 40) == fields.root,
        payload_bytes(fields).subrange(40, 72) == fields.data_hash,
        payload_bytes(fields).subrange(72, 104) == fields.creator_hash,
        payload_bytes(fields).subrange(104, 112) == le_bytes(fields.nonce as nat, 8),
        payload_bytes(fields).subrange(112, 116) == le_bytes(fields.index as nat, 4),
{
    let bytes = payload_bytes(fields);
    assert(bytes.subrange(0, 8) =~= transfer_discriminator());
    assert(bytes.subrange(8, 40) =~= fields.root);
    assert(bytes.subrange(40, 72) =~= fields.data_hash);
    assert(bytes.subrange(72, 104) =~= fields.creator_hash);
    assert(bytes.subrange(104, 112) =~= le_bytes(fields.nonce as nat, 8));
    assert(bytes.subrange(112, 116) =~= le_bytes(fields.index as nat, 4));
}

/// Decoding the bytes of a well-formed payload recovers its five fields exactly.
pub proof fn law_payload_round_trip(fields: PayloadView)
    requires
        payload_well_formed(fields),
    ensures
        parsed_payload(payload_bytes(fields)) == Some(fields),
{
    law_payload_layout(fields);
    lemma_pow256_values();
    lemma_le_value_of_bytes(fields.nonce as nat, 8);
    lemma_le_value_of_bytes(fields.index as nat, 4);
}

/// Whatever decodes to some fields is the encoding of those fields: no two
/// byte strings decode to the same payload.
pub proof fn law_parsed_payload_encodes_back(data: Seq<u8>)
    requires
        parsed_payload(data) is Some,
    ensures
        payload_well_formed(parsed_payload(data)->Some_0),
        payload_bytes(parsed_payload(data)->Some_0) == data,
{
    let fields = parsed_payload(data)->Some_0;
    let nonce_bytes = data.subrange(104, 112);
    let index_bytes = data.subrange(112, 116);
    lemma_pow256_values();
    lemma_le_value_bound(nonce_bytes);
    lemma_le_value_bound(index_bytes);
    lemma_le_bytes_of_value(nonce_bytes);
    lemma_le_bytes_of_value(index_bytes);
    assert(payload_bytes(fields) =~= data);
}

/// Appends the transfer selector to `out`.
fn push_discriminator(out: &mut Vec<u8>)
    ensures
        final(out)@ == old(out)@ + transfer_discriminator(),
{
    let ghost before = out@;
    out.push(163);
    out.push(52);
    out.push(200);
    out.push(231);
    out.push(140);
    out.push(3);
    out.push(69);
    out.push(186);
    assert(out@ =~= before + transfer_discriminator());
}

/// Whether `data` opens with the transfer selector.
fn has_discriminator(data: &[u8]) -> (found: bool)
    requires
        data.len() >= 8,
    ensures
        found == (data@.subrange(0, 8) == transfer_discriminator()),
{
    let found = data[0] == 163 && data[1] == 52 && data[2] == 200 && data[3] == 231 && data[4]
        == 140 && data[5] == 3 && data[6] == 69 && data[7] == 186;
    proof {
        let head = data@.subrange(0, 8);
        let want = transfer_discriminator();
        if found {
            assert(head =~= want);
        } else {
            assert(exists|i: int| 0 <= i < 8 && head[i] != want[i]);
        }
    }
    found
}

impl CallPayload {
    /// Encodes the payload: the selector followed by the five fields, 116
    /// bytes in all.
    pub fn encode(&self) -> (data: Vec<u8>)
        ensures
            data@ == payload_bytes(self@),
            data@.len() == 116,
    {
        let mut data: Vec<u8> = Vec::new();
        push_discriminator(&mut data);
        push_raw(&mut data, self.root.as_slice());
        push_raw(&mut data, self.data_hash.as_slice());
        push_raw(&mut data, self.creator_hash.as_slice());
        push_le(&mut data, self.nonce, 8);
        push_le(&mut data, self.index as u64, 4);
        assert(data@ =~= payload_bytes(self@));
        data
    }

    /// Decodes a payload. Succeeds exactly on byte strings of 116 bytes that
    /// open with the transfer selector; every such string is the encoding of
    /// the payload returned.
    pub fn decode(data: &[u8]) -> (decoded: Option<CallPayload>)
        ensures
            match decoded {
                Some(payload) => parsed_payload(data@) == Some(payload@),
                None => parsed_payload(data@) is None,
            },
    {
        if data.len() != PAYLOAD_LEN {
            return None;
        }
        if !has_discriminator(data) {
            return None;
        }
        let root = read_hash(data, ROOT_OFFSET);
        let data_hash = read_hash(data, DATA_HASH_OFFSET);
        let creator_hash = read_hash(data, CREATOR_HASH_OFFSET);
        let nonce = read_le(data, NONCE_OFFSET, 8);
        let index_wide = read_le(data, INDEX_OFFSET, 4);
        proof {
            lemma_pow256_values();
            lemma_le_value_bound(data@.subrange(112, 116));
        }
        let index: u32 = index_wide as u32;
        Some(CallPayload { root, data_hash, creator_hash, nonce, index })
    }
}

} // verus!
