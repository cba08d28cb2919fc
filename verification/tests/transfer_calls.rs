use anchor_cnft_transfer::account::{first_divergence, same_address, AccountRole};
use anchor_cnft_transfer::call::{OutboundCall, TransferCompressedNft, FIXED_ACCOUNT_COUNT};
use anchor_cnft_transfer::manual::transfer_one;
use anchor_cnft_transfer::payload::{CallPayload, PAYLOAD_LEN};
use anchor_cnft_transfer::typed::{transfer_two, typed_transfer_call, BUBBLEGUM_PROGRAM_ID};

fn address(tag: u8) -> [u8; 32] {
    let mut a = [0u8; 32];
    for (i, b) in a.iter_mut().enumerate() {
        *b = tag.wrapping_mul(31).wrapping_add(i as u8);
    }
    a
}

fn sample_accounts() -> TransferCompressedNft {
    TransferCompressedNft {
        leaf_owner: address(1),
        leaf_delegate: address(2),
        tree_authority: address(3),
        merkle_tree: address(4),
        new_leaf_owner: address(5),
        log_wrapper: address(6),
        compression_program: address(7),
        bubblegum_program: address(8),
        system_program: address(9),
    }
}

fn sample_call(path: &Vec<[u8; 32]>, nonce: u64, index: u32) -> OutboundCall {
    transfer_one(&sample_accounts(), path, [0x11; 32], [0x22; 32], [0x33; 32], nonce, index)
}

#[test]
fn manual_payload_is_116_bytes_in_fixed_layout() {
    let call = sample_call(&vec![], 0x0102_0304_0506_0708, 0x0a0b_0c0d);
    assert_eq!(call.data.len(), 116);
    assert_eq!(call.data.len(), PAYLOAD_LEN);
    let mut expected: Vec<u8> = vec![163, 52, 200, 231, 140, 3, 69, 186];
    expected.extend([0x11u8; 32]);
    expected.extend([0x22u8; 32]);
    expected.extend([0x33u8; 32]);
    expected.extend([0x08u8, 0x07, 0x06, 0x05, 0x04, 0x03, 0x02, 0x01]);
    expected.extend([0x0du8, 0x0c, 0x0b, 0x0a]);
    assert_eq!(call.data, expected);
}

#[test]
fn manual_payload_matches_std_little_endian() {
    let nonce: u64 = 0xfedc_ba98_7654_3210;
    let index: u32 = 0x89ab_cdef;
    let call = sample_call(&vec![], nonce, index);
    assert_eq!(&call.data[104..112], &nonce.to_le_bytes());
    assert_eq!(&call.data[112..116], &index.to_le_bytes());
}

#[test]
fn nonce_seven_index_three_are_little_endian_after_the_hashes() {
    let call = sample_call(&vec![], 7, 3);
    assert_eq!(&call.data[104..112], &7u64.to_le_bytes());
    assert_eq!(&call.data[104..112], &[7u8, 0, 0, 0, 0, 0, 0, 0]);
    assert_eq!(&call.data[112..116], &3u32.to_le_bytes());
    assert_eq!(&call.data[112..116], &[3u8, 0, 0, 0]);
    // Counted from the end of the selector and without it, the hashes end at 96.
    let fields = &call.data[8..];
    assert_eq!(&fields[96..104], &7u64.to_le_bytes());
    assert_eq!(&fields[104..108], &3u32.to_le_bytes());
}

#[test]
fn extreme_integers_encode_without_loss() {
    let call = sample_call(&vec![], u64::MAX, u32::MAX);
    assert_eq!(&call.data[104..112], &[0xffu8; 8]);
    assert_eq!(&call.data[112..116], &[0xffu8; 4]);
    let call = sample_call(&vec![], 0, 0);
    assert_eq!(&call.data[104..116], &[0u8; 12]);
}

#[test]
fn fixed_slots_come_in_order_with_two_signers() {
    let accounts = sample_accounts();
    let call = sample_call(&vec![address(40)], 1, 2);
    let expected = [
        AccountRole { address: accounts.tree_authority, is_signer: false, is_writable: false },
        AccountRole { address: accounts.leaf_owner, is_signer: true, is_writable: false },
        AccountRole { address: accounts.leaf_delegate, is_signer: true, is_writable: false },
        AccountRole { address: accounts.new_leaf_owner, is_signer: false, is_writable: false },
        AccountRole { address: accounts.merkle_tree, is_signer: false, is_writable: true },
        AccountRole { address: accounts.log_wrapper, is_signer: false, is_writable: false },
        AccountRole { address: accounts.compression_program, is_signer: false, is_writable: false },
        AccountRole { address: accounts.system_program, is_signer: false, is_writable: false },
    ];
    assert_eq!(&call.accounts[..FIXED_ACCOUNT_COUNT], &expected[..]);
    let signers: Vec<usize> =
        (0..8).filter(|i| call.accounts[*i].is_signer).collect();
    assert_eq!(signers, vec![1, 2]);
    let writable: Vec<usize> =
        (0..call.accounts.len()).filter(|i| call.accounts[*i].is_writable).collect();
    assert_eq!(writable, vec![4]);
}

#[test]
fn manual_call_targets_the_program_named_in_the_accounts() {
    let call = sample_call(&vec![], 1, 2);
    assert_eq!(call.target_program_id, sample_accounts().bubblegum_program);
}

#[test]
fn empty_path_gives_eight_accounts() {
    let call = sample_call(&vec![], 1, 2);
    assert_eq!(call.accounts.len(), 8);
}

#[test]
fn path_accounts_follow_read_only_and_unsigned() {
    let path = vec![address(50), address(51), address(52), address(50)];
    let call = sample_call(&path, 1, 2);
    assert_eq!(call.accounts.len(), 8 + path.len());
    for (i, node) in path.iter().enumerate() {
        assert_eq!(
            call.accounts[8 + i],
            AccountRole { address: *node, is_signer: false, is_writable: false }
        );
    }
}

#[test]
fn manual_builder_is_deterministic() {
    let path = vec![address(60), address(61)];
    let first = sample_call(&path, 99, 100);
    let second = sample_call(&path, 99, 100);
    assert_eq!(first, second);
    assert_eq!(first.data, second.data);
}

#[test]
fn payload_round_trips_through_decode() {
    let call = transfer_one(
        &sample_accounts(),
        &vec![],
        address(70),
        address(71),
        address(72),
        0x1122_3344_5566_7788,
        0x99aa_bbcc,
    );
    let decoded = CallPayload::decode(&call.data).expect("a built payload decodes");
    assert_eq!(
        decoded,
        CallPayload {
            root: address(70),
            data_hash: address(71),
            creator_hash: address(72),
            nonce: 0x1122_3344_5566_7788,
            index: 0x99aa_bbcc,
        }
    );
    assert_eq!(decoded.encode(), call.data);
}

#[test]
fn decode_rejects_wrong_length() {
    let data = sample_call(&vec![], 1, 2).data;
    assert_eq!(CallPayload::decode(&data[..115]), None);
    let mut longer = data.clone();
    longer.push(0);
    assert_eq!(CallPayload::decode(&longer), None);
    assert_eq!(CallPayload::decode(&[]), None);
    assert_eq!(CallPayload::decode(&[0u8; 124]), None);
}

#[test]
fn decode_rejects_foreign_selector() {
    let data = sample_call(&vec![], 1, 2).data;
    for at in 0..8 {
        let mut other = data.clone();
        other[at] ^= 1;
        assert_eq!(CallPayload::decode(&other), None);
    }
    assert!(CallPayload::decode(&data).is_some());
}

#[test]
fn typed_adapter_agrees_with_manual_builder() {
    let accounts = sample_accounts();
    let path = vec![address(80), address(81), address(82)];
    let manual = transfer_one(&accounts, &path, [1; 32], [2; 32], [3; 32], 7, 3);
    let typed = transfer_two(&accounts, &path, [1; 32], [2; 32], [3; 32], 7, 3);
    assert_eq!(typed.accounts.len(), manual.accounts.len());
    for (t, m) in typed.accounts.iter().zip(manual.accounts.iter()) {
        assert_eq!(t.address, m.address);
        assert_eq!(t.is_signer, m.is_signer);
        assert_eq!(t.is_writable, m.is_writable);
    }
    assert_eq!(typed.data, manual.data);
    assert!(typed.accounts[1].is_signer && typed.accounts[2].is_signer);
}

#[test]
fn typed_adapter_targets_the_bubblegum_program() {
    let typed = transfer_two(&sample_accounts(), &vec![], [1; 32], [2; 32], [3; 32], 7, 3);
    assert_eq!(typed.target_program_id, BUBBLEGUM_PROGRAM_ID);
    assert_eq!(typed.target_program_id, mpl_bubblegum::ID.to_bytes());
    assert_ne!(typed.target_program_id, sample_accounts().bubblegum_program);
}

#[test]
fn typed_and_manual_calls_coincide_for_the_bubblegum_program() {
    let mut accounts = sample_accounts();
    accounts.bubblegum_program = BUBBLEGUM_PROGRAM_ID;
    let path = vec![address(90)];
    let manual = transfer_one(&accounts, &path, [4; 32], [5; 32], [6; 32], u64::MAX, 0);
    let typed = transfer_two(&accounts, &path, [4; 32], [5; 32], [6; 32], u64::MAX, 0);
    assert_eq!(typed, manual);
}

#[test]
fn typed_call_without_signer_flags_diverges_only_in_those_flags() {
    let accounts = sample_accounts();
    let path = vec![address(95), address(96)];
    let payload = CallPayload {
        root: [9; 32],
        data_hash: [8; 32],
        creator_hash: [7; 32],
        nonce: 12,
        index: 34,
    };
    let manual = transfer_one(&accounts, &path, [9; 32], [8; 32], [7; 32], 12, 34);
    let unsigned = typed_transfer_call(&accounts, &path, &payload, false, false);
    assert_eq!(unsigned.accounts.len(), manual.accounts.len());
    for i in 0..manual.accounts.len() {
        assert_eq!(unsigned.accounts[i].address, manual.accounts[i].address);
        assert_eq!(unsigned.accounts[i].is_writable, manual.accounts[i].is_writable);
        if i == 1 || i == 2 {
            assert!(!unsigned.accounts[i].is_signer);
            assert!(manual.accounts[i].is_signer);
        } else {
            assert_eq!(unsigned.accounts[i].is_signer, manual.accounts[i].is_signer);
        }
    }
    assert_eq!(unsigned.data, manual.data);
    let owner_only = typed_transfer_call(&accounts, &path, &payload, true, false);
    assert!(owner_only.accounts[1].is_signer);
    assert!(!owner_only.accounts[2].is_signer);
}

#[test]
fn typed_payload_decodes_to_its_arguments() {
    let payload = CallPayload {
        root: address(100),
        data_hash: address(101),
        creator_hash: address(102),
        nonce: 0xdead_beef_0000_0001,
        index: 65_537,
    };
    let typed = typed_transfer_call(&sample_accounts(), &vec![], &payload, true, true);
    assert_eq!(typed.data.len(), 116);
    assert_eq!(CallPayload::decode(&typed.data), Some(payload));
}

#[test]
fn same_address_compares_all_bytes() {
    let a = address(1);
    let mut b = a;
    assert!(same_address(&a, &b));
    b[31] ^= 0x80;
    assert!(!same_address(&a, &b));
    b = a;
    b[0] ^= 1;
    assert!(!same_address(&a, &b));
}

#[test]
fn first_divergence_finds_no_difference_between_the_two_builders() {
    let accounts = sample_accounts();
    let path = vec![address(110), address(111)];
    let manual = transfer_one(&accounts, &path, [1; 32], [2; 32], [3; 32], 7, 3);
    let typed = transfer_two(&accounts, &path, [1; 32], [2; 32], [3; 32], 7, 3);
    assert_eq!(first_divergence(&typed.accounts, &manual.accounts), None);
    assert_eq!(first_divergence(&manual.accounts, &manual.accounts), None);
    assert_eq!(first_divergence(&vec![], &vec![]), None);
}

#[test]
fn first_divergence_reports_the_first_differing_slot() {
    let accounts = sample_accounts();
    let path = vec![address(120), address(121)];
    let payload = CallPayload {
        root: [1; 32],
        data_hash: [2; 32],
        creator_hash: [3; 32],
        nonce: 7,
        index: 3,
    };
    let manual = transfer_one(&accounts, &path, [1; 32], [2; 32], [3; 32], 7, 3);
    let unsigned = typed_transfer_call(&accounts, &path, &payload, false, false);
    assert_eq!(first_divergence(&unsigned.accounts, &manual.accounts), Some(1));
    let delegate_unsigned = typed_transfer_call(&accounts, &path, &payload, true, false);
    assert_eq!(first_divergence(&delegate_unsigned.accounts, &manual.accounts), Some(2));

    let mut other = manual.accounts.clone();
    other[9].address[31] ^= 1;
    assert_eq!(first_divergence(&manual.accounts, &other), Some(9));
    let mut other = manual.accounts.clone();
    other[4].is_writable = false;
    assert_eq!(first_divergence(&manual.accounts, &other), Some(4));
}

#[test]
fn first_divergence_reports_where_the_shorter_list_ends() {
    let long = sample_call(&vec![address(130), address(131)], 1, 2).accounts;
    let short = sample_call(&vec![address(130)], 1, 2).accounts;
    assert_eq!(first_divergence(&long, &short), Some(9));
    assert_eq!(first_divergence(&short, &long), Some(9));
    assert_eq!(first_divergence(&vec![], &short), Some(0));
}
