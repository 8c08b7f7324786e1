use pda_grind::address::derive_address;
use pda_grind::cli::{check_address, encode_key, parse_owner};
use pda_grind::encoding::{log_line, push_decimal};
use pda_grind::partition::start_seed;
use pda_grind::preimage::Preimage;
use pda_grind::primitives::OwnerKeyError;
use pda_grind::search::{aggregate_progress, start_seeds, MatchRecord, Worker};
use solana_pubkey::Pubkey;

fn owner_a() -> [u8; 32] {
    let mut k = [0u8; 32];
    for (i, b) in k.iter_mut().enumerate() {
        *b = (i as u8).wrapping_mul(37).wrapping_add(11);
    }
    k
}

fn reference_pda(owner: &[u8; 32], seed: u64) -> ([u8; 32], u8) {
    let (key, bump) =
        Pubkey::find_program_address(&[&seed.to_le_bytes()], &Pubkey::new_from_array(*owner));
    (key.to_bytes(), bump)
}

#[test]
fn derive_address_agrees_with_find_program_address() {
    let owner = owner_a();
    for seed in [0u64, 1, 2, 3, 42, 1_000_000, u64::MAX] {
        assert_eq!(derive_address(&owner, seed), Some(reference_pda(&owner, seed)));
    }
    let zero = [0u8; 32];
    for seed in 0u64..20 {
        assert_eq!(derive_address(&zero, seed), Some(reference_pda(&zero, seed)));
    }
}

#[test]
fn derive_address_is_deterministic() {
    let owner = owner_a();
    let a = derive_address(&owner, 777);
    let b = derive_address(&owner, 777);
    assert_eq!(a, b);
    assert!(a.is_some());
}

#[test]
fn bump_is_first_off_curve() {
    let owner = owner_a();
    for seed in 0u64..30 {
        let (addr, bump) = derive_address(&owner, seed).unwrap();
        assert!(!Pubkey::new_from_array(addr).is_on_curve());
        let mut pre = Preimage::new(&owner);
        pre.set_seed(seed);
        for offset in 0..(255 - bump) {
            pre.set_bump(offset);
            let earlier = Pubkey::create_program_address(
                &[&seed.to_le_bytes(), &[255 - offset]],
                &Pubkey::new_from_array(owner),
            );
            assert!(earlier.is_err());
        }
    }
}

#[test]
fn check_is_deterministic() {
    let owner = owner_a();
    let a = check_address(&owner, 12345);
    let b = check_address(&owner, 12345);
    assert_eq!(a, b);
    let expected = Pubkey::find_program_address(&[&12345u64.to_le_bytes()], &Pubkey::new_from_array(owner)).0;
    assert_eq!(String::from_utf8(a.unwrap()).unwrap(), expected.to_string());
}

#[test]
fn preimage_layout() {
    let owner = owner_a();
    let mut pre = Preimage::new(&owner);
    pre.set_seed(0x0807_0605_0403_0201);
    pre.set_bump(3);
    let bytes = pre.as_bytes();
    assert_eq!(&bytes[0..8], &[1, 2, 3, 4, 5, 6, 7, 8]);
    assert_eq!(bytes[8], 252);
    assert_eq!(&bytes[9..41], &owner[..]);
    assert_eq!(&bytes[41..62], b"ProgramDerivedAddress");
}

#[test]
fn preimage_initial_values() {
    let owner = [9u8; 32];
    let pre = Preimage::new(&owner);
    let bytes = pre.as_bytes();
    assert_eq!(&bytes[0..8], &[0u8; 8]);
    assert_eq!(bytes[8], 255);
    assert_eq!(&bytes[9..41], &owner[..]);
}

#[test]
fn encode_round_trip_boundaries() {
    for k in [[0u8; 32], [0xffu8; 32], owner_a()] {
        let text = String::from_utf8(encode_key(&k)).unwrap();
        assert!(text.len() <= 44);
        assert_eq!(parse_owner(&text), Ok(k));
    }
}

#[test]
fn encode_all_zero_is_ones() {
    let text = encode_key(&[0u8; 32]);
    assert_eq!(text, vec![b'1'; 32]);
}

#[test]
fn encode_all_ff() {
    let text = String::from_utf8(encode_key(&[0xffu8; 32])).unwrap();
    assert_eq!(text, "JEKNVnkbo3jma5nREBBJCDoXFVeKkD56V3xKrvRmWxFG");
}

#[test]
fn parse_owner_errors() {
    let long = "1".repeat(45);
    assert_eq!(parse_owner(&long), Err(OwnerKeyError::WrongSize));
    assert_eq!(parse_owner("0OIl"), Err(OwnerKeyError::Invalid));
    assert_eq!(parse_owner("abc"), Err(OwnerKeyError::WrongSize));
}

#[test]
fn parse_owner_known_key() {
    let k = parse_owner("11111111111111111111111111111111").unwrap();
    assert_eq!(k, [0u8; 32]);
}

#[test]
fn matches_prefix_rules() {
    assert!(pda_grind::encoding::matches(b"Abcdef", b""));
    assert!(pda_grind::encoding::matches(b"", b""));
    assert!(pda_grind::encoding::matches(b"Abcdef", b"Abc"));
    assert!(pda_grind::encoding::matches(b"Abcdef", b"Abcdef"));
    assert!(!pda_grind::encoding::matches(b"Abcdef", b"abc"));
    assert!(!pda_grind::encoding::matches(b"Abc", b"Abcd"));
    assert!(!pda_grind::encoding::matches(b"Abcdef", b"bc"));
}

#[test]
fn long_prefix_never_matches_an_address() {
    let target = "A".repeat(45);
    for k in [[0u8; 32], [0xffu8; 32], owner_a()] {
        assert!(!pda_grind::encoding::matches(&encode_key(&k), target.as_bytes()));
    }
}

#[test]
fn start_seed_formula() {
    assert_eq!(start_seed(1, 0, 77), 77);
    assert_eq!(start_seed(2, 1, 0), 1u64 << 63);
    assert_eq!(start_seed(4, 3, 0), 3u64 << 62);
    assert_eq!(start_seed(3, 1, 0), 6_148_914_691_236_517_205);
    assert_eq!(start_seed(3, 2, 10), 12_297_829_382_473_034_420);
    assert_eq!(start_seed(2, 1, 1u64 << 63), 0);
    assert_eq!(start_seed(2, 1, u64::MAX), (1u64 << 63) - 1);
}

#[test]
fn start_seeds_are_spread() {
    for t in [1u64, 2, 3, 7, 32] {
        let s = start_seeds(t);
        assert_eq!(s.len() as u64, t);
        let stride = if t == 1 { 0 } else { ((1u128 << 64) / t as u128) as u64 };
        for i in 0..s.len() {
            for j in 0..s.len() {
                if i != j {
                    assert!(s[j].wrapping_sub(s[i]) >= stride);
                }
            }
            assert_eq!(s[i].wrapping_sub(s[0]), stride.wrapping_mul(i as u64));
        }
    }
    assert!(start_seeds(0).is_empty());
}

#[test]
fn empty_target_matches_first_seed() {
    let owner = owner_a();
    let start = 9_000;
    let mut w = Worker::new(&owner, start);
    let m = w.advance(b"").unwrap();
    assert_eq!(m.seed, start + 1);
    assert_eq!(w.seed(), start + 1);
    assert_eq!(Some(m.address), check_address(&owner, start + 1));
}

#[test]
fn seed_counter_wraps() {
    let mut w = Worker::new(&owner_a(), u64::MAX);
    let m = w.advance(b"").unwrap();
    assert_eq!(m.seed, 0);
}

#[test]
fn impossible_target_never_matches() {
    let target = "1".repeat(50);
    let mut w = Worker::new(&owner_a(), 5);
    let found = w.scan(target.as_bytes(), 300);
    assert!(found.is_empty());
    assert_eq!(w.seed(), 305);
}

#[test]
fn scan_reports_only_canonical_matches() {
    let owner = owner_a();
    let mut w = Worker::new(&owner, 100);
    let found = w.scan(b"", 25);
    assert_eq!(found.len(), 25);
    for (i, m) in found.iter().enumerate() {
        let seed = 101 + i as u64;
        assert_eq!(m.seed, seed);
        let canonical = Pubkey::find_program_address(&[&seed.to_le_bytes()], &Pubkey::new_from_array(owner)).0;
        assert_eq!(String::from_utf8(m.address.clone()).unwrap(), canonical.to_string());
    }
}

#[test]
fn scan_with_one_char_target() {
    let owner = owner_a();
    let mut w = Worker::new(&owner, 0);
    let found = w.scan(b"A", 2000);
    for m in &found {
        assert_eq!(m.address[0], b'A');
        assert_eq!(Some(m.address.clone()), check_address(&owner, m.seed));
    }
    let mut count = 0;
    for seed in 1u64..=2000 {
        let text = check_address(&owner, seed).unwrap();
        if text[0] == b'A' {
            count += 1;
        }
    }
    assert_eq!(found.len(), count);
}

#[test]
fn workers_agree_on_a_seed() {
    let owner = owner_a();
    let mut a = Worker::new(&owner, 10);
    let mut b = Worker::new(&owner, 0);
    b.scan(b"zzzzzz", 10);
    let ma = a.advance(b"").unwrap();
    let mb = b.advance(b"").unwrap();
    assert_eq!(ma.seed, mb.seed);
    assert_eq!(ma.address, mb.address);
}

#[test]
fn log_line_format() {
    assert_eq!(log_line(b"abc", 42), b"abc: 42\n".to_vec());
    assert_eq!(log_line(b"X", 0), b"X: 0\n".to_vec());
    assert_eq!(
        log_line(b"Key", u64::MAX),
        b"Key: 18446744073709551615\n".to_vec()
    );
    let m = MatchRecord { address: b"Abc".to_vec(), seed: 1000 };
    assert_eq!(m.log_line(), b"Abc: 1000\n".to_vec());
}

#[test]
fn decimal_digits() {
    let mut out = b"n=".to_vec();
    push_decimal(&mut out, 1090);
    assert_eq!(out, b"n=1090".to_vec());
}

#[test]
fn progress_totals() {
    assert_eq!(aggregate_progress(3, 1_000_000, 5_000_000), 8_000_000);
    assert_eq!(aggregate_progress(0, 1_000_000, 0), 0);
    assert_eq!(aggregate_progress(u64::MAX, 2, 0), u64::MAX);
    assert_eq!(aggregate_progress(1, 1, u64::MAX), u64::MAX);
}
