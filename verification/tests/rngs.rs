use dbgen::cli::RngName;
use dbgen::rng::{seeding_rng, RngEngine};
use rand::rngs::mock::StepRng;
use rand::rngs::StdRng;
use rand::{Rng, RngCore, SeedableRng};

fn draws(engine: RngEngine) -> Vec<u64> {
    let mut rng: Box<dyn RngCore> = match engine {
        RngEngine::ChaCha(rng) => Box::new(rng),
        RngEngine::Hc128(rng) => Box::new(rng),
        RngEngine::Isaac(rng) => Box::new(rng),
        RngEngine::Isaac64(rng) => Box::new(rng),
        RngEngine::XorShift(rng) => Box::new(rng),
        RngEngine::Pcg32(rng) => Box::new(rng),
        RngEngine::Step(rng) => Box::new(rng),
    };
    let mut numbers = Vec::new();
    for _ in 0..20 {
        numbers.push(rng.next_u64());
    }
    numbers
}

fn draws_of<R: RngCore>(mut rng: R) -> Vec<u64> {
    let mut numbers = Vec::new();
    for _ in 0..20 {
        numbers.push(rng.next_u64());
    }
    numbers
}

/// The low bytes of the next words of a seeding generator.
fn low_bytes_32(words: &[u32]) -> [u8; 32] {
    let mut seed = [0u8; 32];
    for i in 0..32 {
        seed[i] = words[i] as u8;
    }
    seed
}

fn low_bytes_16(words: &[u32]) -> [u8; 16] {
    let mut seed = [0u8; 16];
    for i in 0..16 {
        seed[i] = words[i] as u8;
    }
    seed
}

fn words(seed: [u8; 32]) -> Vec<u32> {
    let mut rng = StdRng::from_seed(seed);
    let mut words = Vec::new();
    for _ in 0..300 {
        words.push(rng.next_u32());
    }
    words
}

const SEED: [u8; 32] = [7; 32];

#[test]
fn engines_are_seeded_with_low_bytes() {
    let w = words(SEED);
    let long = low_bytes_32(&w);
    let short = low_bytes_16(&w);
    assert_eq!(
        draws(RngName::ChaCha.create(&mut seeding_rng(SEED))),
        draws_of(rand_chacha::ChaChaRng::from_seed(long))
    );
    assert_eq!(
        draws(RngName::Hc128.create(&mut seeding_rng(SEED))),
        draws_of(rand_hc::Hc128Rng::from_seed(long))
    );
    assert_eq!(
        draws(RngName::Isaac.create(&mut seeding_rng(SEED))),
        draws_of(rand_isaac::IsaacRng::from_seed(long))
    );
    assert_eq!(
        draws(RngName::Isaac64.create(&mut seeding_rng(SEED))),
        draws_of(rand_isaac::Isaac64Rng::from_seed(long))
    );
    assert_eq!(
        draws(RngName::XorShift.create(&mut seeding_rng(SEED))),
        draws_of(rand_xorshift::XorShiftRng::from_seed(short))
    );
    assert_eq!(
        draws(RngName::Pcg32.create(&mut seeding_rng(SEED))),
        draws_of(rand_pcg::Pcg32::from_seed(short))
    );
}

#[test]
fn step_engine_is_seeded_with_two_numbers() {
    let w = words(SEED);
    let initial = u64::from(w[0]) + (u64::from(w[1]) << 32);
    let step = u64::from(w[2]) + (u64::from(w[3]) << 32);
    let numbers = draws(RngName::Step.create(&mut seeding_rng(SEED)));
    assert_eq!(numbers, draws_of(StepRng::new(initial, step | 1)));
    assert_eq!(numbers[0], initial);
    assert_eq!(numbers[1].wrapping_sub(numbers[0]) % 2, 1);
}

#[test]
fn engines_use_up_words() {
    let w = words(SEED);
    let cases = [
        (RngName::ChaCha, 32),
        (RngName::Hc128, 32),
        (RngName::Isaac, 32),
        (RngName::Isaac64, 32),
        (RngName::XorShift, 16),
        (RngName::Pcg32, 16),
        (RngName::Step, 4),
    ];
    for (name, used) in cases {
        let mut src = seeding_rng(SEED);
        for k in 1..6 {
            name.create(&mut src);
            assert_eq!(src.clone().next_u32(), w[k * used]);
        }
    }
}

#[test]
fn words_and_pairs_of_words_agree_across_blocks() {
    let w = words(SEED);
    let mut rng = StdRng::from_seed(SEED);
    assert_eq!(rng.next_u32(), w[0]);
    for k in 0..100 {
        let pair = u64::from(w[1 + 2 * k]) + (u64::from(w[2 + 2 * k]) << 32);
        assert_eq!(rng.next_u64(), pair);
    }
    let mut rng = StdRng::from_seed(SEED);
    let bytes: [u8; 32] = rng.gen();
    assert_eq!(bytes, low_bytes_32(&w));
}

#[test]
fn different_seeds_make_different_engines() {
    assert_ne!(
        draws(RngName::Hc128.create(&mut seeding_rng([1; 32]))),
        draws(RngName::Hc128.create(&mut seeding_rng([2; 32])))
    );
}

#[test]
fn step_engine_counts_up_by_an_odd_step() {
    for byte in 0..20u8 {
        let words = words([byte; 32]);
        let pair = |at: usize| u64::from(words[at]) + (u64::from(words[at + 1]) << 32);
        let mut src = seeding_rng([byte; 32]);
        let numbers = draws(RngName::Step.create(&mut src));
        let step = pair(2) | 1;
        for n in 0..numbers.len() {
            assert_eq!(
                numbers[n],
                pair(0).wrapping_add((n as u64).wrapping_mul(step))
            );
            for k in 0..n {
                assert_ne!(numbers[k], numbers[n]);
            }
        }
    }
}
