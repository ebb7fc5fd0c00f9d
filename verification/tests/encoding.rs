use parity_scale_codec::{Compact, Encode};
use subxt::{AccountId32, AssetInfo, ChargeSystemToken, SystemTokenId};

fn token(para_id: u32, pallet_id: u32, asset_id: u32) -> SystemTokenId {
    SystemTokenId::new(para_id, pallet_id, asset_id)
}

#[test]
fn system_token_id_new_sets_fields() {
    let t = SystemTokenId::new(1000, 50, 7);
    assert_eq!(t.para_id, 1000);
    assert_eq!(t.pallet_id, 50);
    assert_eq!(t.asset_id, 7);
}

#[test]
fn system_token_id_encodes_compact_fields() {
    // 1000 -> two-byte mode (1000 << 2 | 1 = 0x0fa1), 50 -> 200, 1 -> 4
    assert_eq!(token(1000, 50, 1).encode(), vec![0xa1, 0x0f, 0xc8, 0x04]);
    assert_eq!(token(0, 0, 0).encode(), vec![0, 0, 0]);
}

#[test]
fn compact_mode_boundaries() {
    assert_eq!(token(63, 0, 0).encode(), vec![0xfc, 0, 0]);
    assert_eq!(token(64, 0, 0).encode(), vec![0x01, 0x01, 0, 0]);
    assert_eq!(token(16383, 0, 0).encode(), vec![0xfd, 0xff, 0, 0]);
    assert_eq!(token(16384, 0, 0).encode(), vec![0x02, 0x00, 0x01, 0x00, 0, 0]);
    assert_eq!(token((1 << 30) - 1, 0, 0).encode(), vec![0xfe, 0xff, 0xff, 0xff, 0, 0]);
    assert_eq!(token(1 << 30, 0, 0).encode(), vec![0x03, 0x00, 0x00, 0x00, 0x40, 0, 0]);
    assert_eq!(token(u32::MAX, 0, 0).encode(), vec![0x03, 0xff, 0xff, 0xff, 0xff, 0, 0]);
}

#[test]
fn system_token_id_matches_codec() {
    for &(a, b, c) in &[(0u32, 1u32, 2u32), (1000, 50, 1), (u32::MAX, 1 << 30, 16384), (63, 64, 16383)] {
        let expected = (Compact(a), Compact(b), Compact(c)).encode();
        assert_eq!(token(a, b, c).encode(), expected);
    }
}

#[test]
fn system_token_id_encode_to_appends() {
    let mut dest = vec![9u8, 8u8];
    token(1, 2, 3).encode_to(&mut dest);
    assert_eq!(dest, vec![9, 8, 4, 8, 12]);
}

#[test]
fn charge_default_encodes_zero_tip_and_nones() {
    let c = ChargeSystemToken::default();
    assert_eq!(c.encode(), vec![0, 0, 0]);
    assert!(c == ChargeSystemToken::new(0, None, None));
}

#[test]
fn charge_with_token_and_candidate() {
    let account = AccountId32([7u8; 32]);
    let c = ChargeSystemToken::new(5, Some(token(1000, 50, 1)), Some(account));
    let mut expected = vec![20u8, 1, 0xa1, 0x0f, 0xc8, 0x04, 1];
    expected.extend_from_slice(&[7u8; 32]);
    assert_eq!(c.encode(), expected);
}

#[test]
fn charge_large_tips_use_big_integer_mode() {
    // 2^32 needs five bytes: first byte (5 - 4) << 2 | 3 = 7
    let c = ChargeSystemToken::new(1u128 << 32, None, None);
    assert_eq!(c.encode(), vec![0x07, 0, 0, 0, 0, 1, 0, 0]);
    // u128::MAX needs sixteen bytes: first byte (16 - 4) << 2 | 3 = 0x33
    let c = ChargeSystemToken::new(u128::MAX, None, None);
    let mut expected = vec![0x33u8];
    expected.extend_from_slice(&[0xffu8; 16]);
    expected.extend_from_slice(&[0, 0]);
    assert_eq!(c.encode(), expected);
}

#[test]
fn charge_matches_codec() {
    let tips = [0u128, 63, 64, 16383, 16384, (1 << 30) - 1, 1 << 30, 1 << 32, 1 << 64, u128::MAX];
    let mut raw = [0u8; 32];
    for (i, b) in raw.iter_mut().enumerate() {
        *b = i as u8;
    }
    for &tip in &tips {
        let c = ChargeSystemToken::new(tip, Some(token(3, 4, 5)), Some(AccountId32(raw)));
        let expected = (
            Compact(tip),
            Some((Compact(3u32), Compact(4u32), Compact(5u32))),
            Some(raw),
        )
            .encode();
        assert_eq!(c.encode(), expected);
        let none = ChargeSystemToken::new(tip, None, None);
        let expected = (Compact(tip), None::<u8>, None::<u8>).encode();
        assert_eq!(none.encode(), expected);
    }
}

#[test]
fn charge_encode_to_appends() {
    let mut dest = vec![0xaau8];
    ChargeSystemToken::new(1, None, Some(AccountId32([1u8; 32]))).encode_to(&mut dest);
    let mut expected = vec![0xaau8, 4, 0, 1];
    expected.extend_from_slice(&[1u8; 32]);
    assert_eq!(dest, expected);
}

#[test]
fn distinct_extensions_encode_differently() {
    let a = ChargeSystemToken::new(1, Some(token(1, 2, 3)), None);
    let b = ChargeSystemToken::new(1, Some(token(1, 2, 4)), None);
    let c = ChargeSystemToken::new(1, None, Some(AccountId32([0u8; 32])));
    let d = ChargeSystemToken::new(64, None, None);
    let all = [a.encode(), b.encode(), c.encode(), d.encode()];
    for i in 0..all.len() {
        for j in 0..all.len() {
            assert_eq!(i == j, all[i] == all[j]);
        }
    }
}

#[test]
fn equality_compares_all_fields() {
    let acc = |b: u8| AccountId32([b; 32]);
    assert!(ChargeSystemToken::new(1, Some(token(1, 2, 3)), Some(acc(1)))
        == ChargeSystemToken::new(1, Some(token(1, 2, 3)), Some(acc(1))));
    assert!(ChargeSystemToken::new(1, None, None) != ChargeSystemToken::new(2, None, None));
    assert!(ChargeSystemToken::new(1, Some(token(1, 2, 3)), None)
        != ChargeSystemToken::new(1, Some(token(1, 2, 9)), None));
    assert!(ChargeSystemToken::new(1, None, Some(acc(1))) != ChargeSystemToken::new(1, None, Some(acc(2))));
    assert!(ChargeSystemToken::new(1, None, Some(acc(1))) != ChargeSystemToken::new(1, None, None));
    assert!(acc(3) == acc(3));
    assert!(acc(3) != acc(4));
    assert!(token(1, 2, 3) == token(1, 2, 3));
}

#[test]
fn asset_info_new_accepts_compact_fields() {
    let _info: AssetInfo<u32, AccountId32, u128> = AssetInfo::new(
        Compact(1u32),
        AccountId32([0u8; 32]),
        false,
        Compact(1_000u128),
        b"iKRW-Test".to_vec(),
        b"iKRW".to_vec(),
        2,
        false,
    );
}
