use granex::address::{address_checksum, build_checksum_message, generate_address, onion_address};
use granex::search::{find_match, is_reachable_prefix, search, starts_with};
use rand::rngs::StdRng;
use rand::{Rng, SeedableRng};

fn counting_key() -> [u8; 32] {
    let mut public = [0u8; 32];
    for (i, b) in public.iter_mut().enumerate() {
        *b = i as u8;
    }
    public
}

#[test]
fn checksum_message_layout() {
    let public = counting_key();
    let msg = build_checksum_message(&public);
    assert_eq!(msg.len(), 48);
    assert_eq!(&msg[..15], b".onion checksum");
    assert_eq!(&msg[15..47], &public[..]);
    assert_eq!(msg[47], 3);
}

#[test]
fn checksum_is_sha3_256() {
    let checksum = address_checksum(&counting_key());
    let expected: [u8; 32] = [
        181, 16, 254, 238, 213, 62, 147, 180, 208, 104, 236, 141, 51, 86, 3, 172, 126, 67, 245,
        177, 4, 159, 211, 125, 182, 121, 161, 88, 59, 165, 86, 84,
    ];
    assert_eq!(checksum, expected);
}

#[test]
fn address_of_known_public_keys() {
    let public = counting_key();
    let address = onion_address(&public, &address_checksum(&public));
    assert_eq!(address, "aaaqeayeaudaocajbifqydiob4ibceqtcqkrmfyydenbwha5dyp3kead");
    let zero = [0u8; 32];
    let address = onion_address(&zero, &address_checksum(&zero));
    assert_eq!(address, "aaaaaaaaaaaaaaaaaaaaaaaaaaaaaaaaaaaaaaaaaaaaaaaaaaam2dqd");
}

#[test]
fn generated_pair_matches_its_address() {
    let seed: [u8; 20] = [7; 20];
    let (secret, address) = generate_address(&seed);
    assert_eq!(&secret[..20], &seed[..]);
    let mut public = [0u8; 32];
    public.copy_from_slice(&secret[32..]);
    assert_ne!(public, [0u8; 32]);
    assert_eq!(address, onion_address(&public, &address_checksum(&public)));
    assert_eq!(address.len(), 56);
}

#[test]
fn derivation_is_deterministic() {
    let seed: [u8; 20] = [42; 20];
    assert_eq!(generate_address(&seed), generate_address(&seed));
}

#[test]
fn distinct_seeds_give_distinct_addresses() {
    let mut rng = StdRng::seed_from_u64(11);
    let mut seen = std::collections::HashSet::new();
    for _ in 0..64 {
        let mut seed = [0u8; 20];
        rng.fill(&mut seed[..]);
        let (_, address) = generate_address(&seed);
        assert!(seen.insert(address));
    }
}

#[test]
fn prefix_tests() {
    assert!(starts_with("abcdef", "abc"));
    assert!(starts_with("abc", ""));
    assert!(starts_with("abc", "abc"));
    assert!(!starts_with("abc", "abcd"));
    assert!(!starts_with("abc", "abd"));
    assert!(!starts_with("abc", "ABC"));
}

#[test]
fn reachable_prefixes() {
    assert!(is_reachable_prefix(""));
    assert!(is_reachable_prefix("az27"));
    assert!(!is_reachable_prefix("a1"));
    assert!(!is_reachable_prefix("aB"));
    assert!(!is_reachable_prefix("a8"));
    assert!(!is_reachable_prefix(&"a".repeat(57)));
    assert!(is_reachable_prefix(&"a".repeat(56)));
}

#[test]
fn empty_prefix_accepts_first_seed() {
    let found = search("", 1).expect("first seed matches");
    assert_eq!(found.attempts, 1);
    assert_eq!(found.address.len(), 56);
}

#[test]
fn search_result_starts_with_prefix() {
    let found = search("a", 100_000).expect("a one-symbol prefix is found");
    assert!(found.address.starts_with('a'));
    assert!(found.attempts >= 1);
}

#[test]
fn unreachable_prefix_is_refused() {
    assert!(search("0", 10).is_none());
    assert!(search("Ab", 10).is_none());
    assert!(search(&"a".repeat(57), 10).is_none());
}

#[test]
fn seeded_search_for_ab() {
    let mut rng = StdRng::seed_from_u64(2024);
    let seeds: Vec<[u8; 20]> = (0..20_000)
        .map(|_| {
            let mut seed = [0u8; 20];
            rng.fill(&mut seed[..]);
            seed
        })
        .collect();
    let found = find_match("ab", &seeds).expect("a match among the seeds");
    assert!(found.address.starts_with("ab"));
    let index = found.attempts - 1;
    assert_eq!(generate_address(&seeds[index]), (found.secret, found.address.clone()));
    for seed in &seeds[..index] {
        assert!(!generate_address(seed).1.starts_with("ab"));
    }
}

#[test]
fn find_match_without_match() {
    let seeds: Vec<[u8; 20]> = vec![[1; 20], [2; 20]];
    assert!(find_match("", &seeds[..0].to_vec()).is_none());
    assert!(find_match("7777777", &seeds).is_none());
    assert_eq!(find_match("", &seeds).map(|f| f.attempts), Some(1));
}
