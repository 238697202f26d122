//! The random number generators that rows are drawn from, and how they are seeded.

use crate::names::{chosen, same_text, unsupported, NameKind, UnsupportedName};
use crate::seed::Seed;
use rand::rngs::mock::StepRng;
use rand::rngs::StdRng;
use rand::{Rng, RngCore, SeedableRng};
use rand_chacha::ChaCha20Rng;
use rand_hc::Hc128Rng;
use rand_isaac::{Isaac64Rng, IsaacRng};
use rand_pcg::Lcg64Xsh32;
use rand_xorshift::XorShiftRng;
use std::str::FromStr;
use vstd::prelude::*;

verus! {

/// `StdRng` of `rand`: the generator that seeds the others.
#[verifier::external_type_specification]
#[verifier::external_body]
pub struct ExStdRng(StdRng);

/// `ChaCha20Rng` of `rand_chacha`.
#[verifier::external_type_specification]
#[verifier::external_body]
pub struct ExChaCha20Rng(ChaCha20Rng);

/// `Hc128Rng` of `rand_hc`.
#[verifier::external_type_specification]
#[verifier::external_body]
pub struct ExHc128Rng(Hc128Rng);

/// `IsaacRng` of `rand_isaac`.
#[verifier::external_type_specification]
#[verifier::external_body]
pub struct ExIsaacRng(IsaacRng);

/// `Isaac64Rng` of `rand_isaac`.
#[verifier::external_type_specification]
#[verifier::external_body]
pub struct ExIsaac64Rng(Isaac64Rng);

/// `XorShiftRng` of `rand_xorshift`.
#[verifier::external_type_specification]
#[verifier::external_body]
pub struct ExXorShiftRng(XorShiftRng);

/// `Lcg64Xsh32` of `rand_pcg`, which is also known as PCG32.
#[verifier::external_type_specification]
#[verifier::external_body]
pub struct ExLcg64Xsh32(Lcg64Xsh32);

/// `StepRng` of `rand`.
#[verifier::external_type_specification]
#[verifier::external_body]
pub struct ExStepRng(StepRng);

/// The words that a seeding generator holds in store, in the order in which they will be drawn.
pub uninterp spec fn upcoming(rng: StdRng) -> Map<nat, u32>;

/// The words that a seeding generator made from `seed` holds in store.
pub uninterp spec fn seeded_words(seed: Seq<u8>) -> Map<nat, u32>;

/// The generator that `ChaCha20Rng::from_seed` makes.
pub uninterp spec fn chacha_from_seed(seed: Seq<u8>) -> ChaCha20Rng;

/// The generator that `Hc128Rng::from_seed` makes.
pub uninterp spec fn hc128_from_seed(seed: Seq<u8>) -> Hc128Rng;

/// The generator that `IsaacRng::from_seed` makes.
pub uninterp spec fn isaac_from_seed(seed: Seq<u8>) -> IsaacRng;

/// The generator that `Isaac64Rng::from_seed` makes.
pub uninterp spec fn isaac64_from_seed(seed: Seq<u8>) -> Isaac64Rng;

/// The generator that `XorShiftRng::from_seed` makes.
pub uninterp spec fn xorshift_from_seed(seed: Seq<u8>) -> XorShiftRng;

/// The generator that `Lcg64Xsh32::from_seed` makes.
pub uninterp spec fn pcg32_from_seed(seed: Seq<u8>) -> Lcg64Xsh32;

/// The generator that `StepRng::new` makes.
pub uninterp spec fn step_new(initial: u64, increment: u64) -> StepRng;

/// The numbers of 64 bits that a generator of `StepRng` will give, in their order.
pub uninterp spec fn step_numbers(rng: StepRng) -> Map<nat, u64>;

/// The numbers start at `initial` and grow by `increment` each time, wrapping around at the end of
/// the range.
pub open spec fn counts_up(numbers: Map<nat, u64>, initial: u64, increment: u64) -> bool {
    forall|n: nat| #[trigger]
        numbers[n] == (initial + n * increment) % 0x1_0000_0000_0000_0000
}

/// The words from `at` on are what `later` holds.
pub open spec fn continues(words: Map<nat, u32>, at: nat, later: Map<nat, u32>) -> bool {
    forall|i: nat| #[trigger] later[i] == words[at + i]
}

/// The low bytes of `n` words from `at` on.
pub open spec fn low_bytes(words: Map<nat, u32>, at: nat, n: nat) -> Seq<u8> {
    Seq::new(n, |i: int| words[(at + i) as nat] as u8)
}

/// The number that two words from `at` on make, low word first.
pub open spec fn word_pair(words: Map<nat, u32>, at: nat) -> u64 {
    (words[at] + words[at + 1] * 0x1_0000_0000) as u64
}

/// Calls `StdRng::from_seed` of `rand`. The words in store are a function of the seed, for the
/// algorithm that `rand` gives the type on the target it is built for.
#[verifier::external_body]
fn std_rng(seed: Seed) -> (r: StdRng)
    ensures
        upcoming(r) == seeded_words(seed@),
{
    StdRng::from_seed(seed)
}

/// Calls `Rng::gen` of `rand` for 32 bytes, each of which is the low byte of the next word.
#[verifier::external_body]
fn draw_32(src: &mut StdRng) -> (r: [u8; 32])
    ensures
        r@ == low_bytes(upcoming(*old(src)), 0, 32),
        continues(upcoming(*old(src)), 32, upcoming(*final(src))),
{
    src.gen()
}

/// Calls `Rng::gen` of `rand` for 16 bytes, each of which is the low byte of the next word.
#[verifier::external_body]
fn draw_16(src: &mut StdRng) -> (r: [u8; 16])
    ensures
        r@ == low_bytes(upcoming(*old(src)), 0, 16),
        continues(upcoming(*old(src)), 16, upcoming(*final(src))),
{
    src.gen()
}

/// Calls `RngCore::next_u64` of `rand`, which joins the next two words, low word first.
#[verifier::external_body]
fn draw_u64(src: &mut StdRng) -> (r: u64)
    ensures
        r == word_pair(upcoming(*old(src)), 0),
        continues(upcoming(*old(src)), 2, upcoming(*final(src))),
{
    src.next_u64()
}

/// Calls `ChaCha20Rng::from_seed` of `rand_chacha`, whose result is a function of the seed.
#[verifier::external_body]
fn new_chacha(seed: [u8; 32]) -> (r: ChaCha20Rng)
    ensures
        r == chacha_from_seed(seed@),
{
    ChaCha20Rng::from_seed(seed)
}

/// Calls `Hc128Rng::from_seed` of `rand_hc`, whose result is a function of the seed.
#[verifier::external_body]
fn new_hc128(seed: [u8; 32]) -> (r: Hc128Rng)
    ensures
        r == hc128_from_seed(seed@),
{
    Hc128Rng::from_seed(seed)
}

/// Calls `IsaacRng::from_seed` of `rand_isaac`, whose result is a function of the seed.
#[verifier::external_body]
fn new_isaac(seed: [u8; 32]) -> (r: IsaacRng)
    ensures
        r == isaac_from_seed(seed@),
{
    IsaacRng::from_seed(seed)
}

/// Calls `Isaac64Rng::from_seed` of `rand_isaac`, whose result is a function of the seed.
#[verifier::external_body]
fn new_isaac64(seed: [u8; 32]) -> (r: Isaac64Rng)
    ensures
        r == isaac64_from_seed(seed@),
{
    Isaac64Rng::from_seed(seed)
}

/// Calls `XorShiftRng::from_seed` of `rand_xorshift`, whose result is a function of the seed.
#[verifier::external_body]
fn new_xorshift(seed: [u8; 16]) -> (r: XorShiftRng)
    ensures
        r == xorshift_from_seed(seed@),
{
    XorShiftRng::from_seed(seed)
}

/// Calls `Lcg64Xsh32::from_seed` of `rand_pcg`, whose result is a function of the seed.
#[verifier::external_body]
fn new_pcg32(seed: [u8; 16]) -> (r: Lcg64Xsh32)
    ensures
        r == pcg32_from_seed(seed@),
{
    Lcg64Xsh32::from_seed(seed)
}

/// Calls `StepRng::new` of `rand`, whose result is a function of the first number and the step. The
/// generator gives the first number, and then each time the number before plus the step, wrapping
/// around.
#[verifier::external_body]
fn new_step(initial: u64, increment: u64) -> (r: StepRng)
    ensures
        r == step_new(initial, increment),
        counts_up(step_numbers(r), initial, increment),
{
    StepRng::new(initial, increment)
}

/// Names of random number generators supported by `dbgen`.
#[derive(Copy, Clone, Debug, PartialEq, Eq, Structural)]
pub enum RngName {
    /// ChaCha20
    ChaCha,
    /// HC-128
    Hc128,
    /// ISAAC
    Isaac,
    /// ISAAC-64
    Isaac64,
    /// Xorshift
    XorShift,
    /// PCG32
    Pcg32,
    /// Mock RNG which steps by a constant.
    Step,
}

/// A seeded random number generator.
pub enum RngEngine {
    /// ChaCha20
    ChaCha(ChaCha20Rng),
    /// HC-128
    Hc128(Hc128Rng),
    /// ISAAC
    Isaac(IsaacRng),
    /// ISAAC-64
    Isaac64(Isaac64Rng),
    /// Xorshift
    XorShift(XorShiftRng),
    /// PCG32
    Pcg32(Lcg64Xsh32),
    /// Mock RNG which steps by a constant.
    Step(StepRng),
}

impl RngName {
    /// The number of words that seeding an engine of this name takes.
    pub open spec fn words_used(self) -> nat {
        match self {
            RngName::ChaCha | RngName::Hc128 | RngName::Isaac | RngName::Isaac64 => 32,
            RngName::XorShift | RngName::Pcg32 => 16,
            RngName::Step => 4,
        }
    }

    /// The engine of this name that is seeded with the words from `at` on.
    pub open spec fn engine(self, words: Map<nat, u32>, at: nat) -> RngEngine {
        match self {
            RngName::ChaCha => RngEngine::ChaCha(chacha_from_seed(low_bytes(words, at, 32))),
            RngName::Hc128 => RngEngine::Hc128(hc128_from_seed(low_bytes(words, at, 32))),
            RngName::Isaac => RngEngine::Isaac(isaac_from_seed(low_bytes(words, at, 32))),
            RngName::Isaac64 => RngEngine::Isaac64(isaac64_from_seed(low_bytes(words, at, 32))),
            RngName::XorShift => RngEngine::XorShift(xorshift_from_seed(low_bytes(words, at, 16))),
            RngName::Pcg32 => RngEngine::Pcg32(pcg32_from_seed(low_bytes(words, at, 16))),
            RngName::Step => RngEngine::Step(
                step_new(word_pair(words, at), word_pair(words, at + 2) | 1),
            ),
        }
    }

    /// The generator that a name stands for.
    pub open spec fn named(name: Seq<char>) -> Option<RngName> {
        if name == "chacha"@ {
            Some(RngName::ChaCha)
        } else if name == "hc128"@ {
            Some(RngName::Hc128)
        } else if name == "isaac"@ {
            Some(RngName::Isaac)
        } else if name == "isaac64"@ {
            Some(RngName::Isaac64)
        } else if name == "xorshift"@ {
            Some(RngName::XorShift)
        } else if name == "pcg32"@ {
            Some(RngName::Pcg32)
        } else if name == "step"@ {
            Some(RngName::Step)
        } else {
            None
        }
    }

    /// Creates an RNG engine given the name. The RNG engine instance will be seeded from `src`.
    pub fn create(self, src: &mut StdRng) -> (r: RngEngine)
        ensures
            r == self.engine(upcoming(*old(src)), 0),
            continues(upcoming(*old(src)), self.words_used(), upcoming(*final(src))),
            r matches RngEngine::Step(rng) ==> counts_up(
                step_numbers(rng),
                word_pair(upcoming(*old(src)), 0),
                word_pair(upcoming(*old(src)), 2) | 1,
            ),
    {
        match self {
            RngName::ChaCha => RngEngine::ChaCha(new_chacha(draw_32(src))),
            RngName::Hc128 => RngEngine::Hc128(new_hc128(draw_32(src))),
            RngName::Isaac => RngEngine::Isaac(new_isaac(draw_32(src))),
            RngName::Isaac64 => RngEngine::Isaac64(new_isaac64(draw_32(src))),
            RngName::XorShift => RngEngine::XorShift(new_xorshift(draw_16(src))),
            RngName::Pcg32 => RngEngine::Pcg32(new_pcg32(draw_16(src))),
            RngName::Step => {
                let ghost words = upcoming(*src);
                let initial: u64 = draw_u64(src);
                let ghost middle = upcoming(*src);
                let step: u64 = draw_u64(src);
                proof {
                    assert(middle[0] == words[2 + 0]);
                    assert(middle[1] == words[2 + 1]);
                    assert forall|i: nat| #[trigger] upcoming(*src)[i] == words[4 + i] by {
                        assert(middle[2 + i] == words[2 + (2 + i)]);
                    }
                }
                RngEngine::Step(new_step(initial, step | 1))
            },
        }
    }
}

impl FromStr for RngName {
    type Err = UnsupportedName;

    /// Chooses a generator by its name.
    fn from_str(name: &str) -> (r: Result<RngName, UnsupportedName>)
        ensures
            chosen(RngName::named(name@), NameKind::Rng, name@, r),
    {
        if same_text(name, "chacha") {
            Ok(RngName::ChaCha)
        } else if same_text(name, "hc128") {
            Ok(RngName::Hc128)
        } else if same_text(name, "isaac") {
            Ok(RngName::Isaac)
        } else if same_text(name, "isaac64") {
            Ok(RngName::Isaac64)
        } else if same_text(name, "xorshift") {
            Ok(RngName::XorShift)
        } else if same_text(name, "pcg32") {
            Ok(RngName::Pcg32)
        } else if same_text(name, "step") {
            Ok(RngName::Step)
        } else {
            Err(unsupported(NameKind::Rng, name))
        }
    }
}

/// Makes the generator that seeds the engines of a run.
pub fn seeding_rng(meta_seed: Seed) -> (r: StdRng)
    ensures
        upcoming(r) == seeded_words(meta_seed@),
{
    std_rng(meta_seed)
}

/// Engines that are seeded from words that agree are the same, wherever those words stand.
pub proof fn engine_depends_on_words(
    name: RngName,
    words: Map<nat, u32>,
    at: nat,
    later: Map<nat, u32>,
    from: nat,
)
    requires
        continues(words, at, later),
    ensures
        name.engine(later, from) == name.engine(words, at + from),
{
    assert forall|i: nat| #[trigger] later[from + i] == words[at + from + i] by {
        assert(later[from + i] == words[at + (from + i)]);
    }
    assert(later[from] == words[at + from]);
    assert(low_bytes(later, from, 32) =~= low_bytes(words, at + from, 32));
    assert(low_bytes(later, from, 16) =~= low_bytes(words, at + from, 16));
}

/// Two to the power of `k`.
spec fn two_to(k: nat) -> int
    decreases k,
{
    if k == 0 {
        1
    } else {
        2 * two_to((k - 1) as nat)
    }
}

/// A power of two that divides an odd multiple of `d` divides `d`, here `m` times.
proof fn odd_factor_adds_no_twos(d: int, b: int, q: int, k: nat) -> (m: int)
    requires
        d * (2 * b + 1) == q * two_to(k),
    ensures
        d == m * two_to(k),
    decreases k,
{
    if k == 0 {
        d
    } else {
        let h = two_to((k - 1) as nat);
        let e = q * h - d * b;
        assert(d == 2 * e) by (nonlinear_arith)
            requires
                d * (2 * b + 1) == q * (2 * h),
                e == q * h - d * b,
        ;
        assert(e * (2 * b + 1) == q * h) by (nonlinear_arith)
            requires
                d * (2 * b + 1) == q * (2 * h),
                d == 2 * e,
        ;
        let m = odd_factor_adds_no_twos(e, b, q, (k - 1) as nat);
        assert(d == m * (2 * h)) by (nonlinear_arith)
            requires
                d == 2 * e,
                e == m * h,
        ;
        m
    }
}

/// The mock generator gives all numbers of 64 bits before it gives one again, whatever words it is
/// seeded from, since its step is made odd.
pub proof fn step_numbers_do_not_repeat(
    numbers: Map<nat, u64>,
    initial: u64,
    step: u64,
    i: nat,
    j: nat,
)
    requires
        counts_up(numbers, initial, step | 1),
        i < j,
        j - i < 0x1_0000_0000_0000_0000,
    ensures
        numbers[i] != numbers[j],
{
    let a = (step | 1) as int;
    let all = 0x1_0000_0000_0000_0000int;
    assert((step | 1) % 2 == 1) by (bit_vector);
    if numbers[i] == numbers[j] {
        let x = initial + i * a;
        let y = initial + j * a;
        let d = j - i;
        let q = y / all - x / all;
        let b = a / 2;
        assert(a == 2 * b + 1);
        assert(x % all == y % all);
        assert(y - x == q * all);
        assert(d * (2 * b + 1) == y - x) by (nonlinear_arith)
            requires
                d == j - i,
                a == 2 * b + 1,
                x == initial + i * a,
                y == initial + j * a,
        ;
        assert(two_to(64) == all) by {
            reveal_with_fuel(two_to, 65);
        }
        let m = odd_factor_adds_no_twos(d, b, q, 64);
        assert(d <= 0 || d >= all);
    }
}

/// An engine is of the kind that its name stands for, and is seeded from the next words of the
/// seeding generator: one word for each byte of its seed, of which that byte is the remainder by 256,
/// or two words for each number of the mock generator, low word first, the step made odd.
pub proof fn engine_is_seeded_from_next_words(
    name: RngName,
    words: Map<nat, u32>,
    at: nat,
    seed: Seq<u8>,
    initial: u64,
    step: u64,
)
    requires
        name is Step || seed.len() == name.words_used(),
        forall|i: int| 0 <= i < seed.len() ==> #[trigger] seed[i] == words[(at + i) as nat] % 256,
        initial == words[at] + words[at + 1] * 0x1_0000_0000,
        step == words[at + 2] + words[at + 3] * 0x1_0000_0000,
    ensures
        name is ChaCha ==> name.words_used() == 32 && name.engine(words, at) == RngEngine::ChaCha(
            chacha_from_seed(seed),
        ),
        name is Hc128 ==> name.words_used() == 32 && name.engine(words, at) == RngEngine::Hc128(
            hc128_from_seed(seed),
        ),
        name is Isaac ==> name.words_used() == 32 && name.engine(words, at) == RngEngine::Isaac(
            isaac_from_seed(seed),
        ),
        name is Isaac64 ==> name.words_used() == 32 && name.engine(words, at)
            == RngEngine::Isaac64(isaac64_from_seed(seed)),
        name is XorShift ==> name.words_used() == 16 && name.engine(words, at)
            == RngEngine::XorShift(xorshift_from_seed(seed)),
        name is Pcg32 ==> name.words_used() == 16 && name.engine(words, at) == RngEngine::Pcg32(
            pcg32_from_seed(seed),
        ),
        name is Step ==> name.words_used() == 4 && name.engine(words, at) == RngEngine::Step(
            step_new(
                initial,
                if step % 2 == 0 {
                    (step + 1) as u64
                } else {
                    step
                },
            ),
        ),
{
    let bytes = low_bytes(words, at, name.words_used());
    assert forall|i: int| 0 <= i < seed.len() && !(name is Step) implies seed[i] == bytes[i] by {
        let word = words[(at + i) as nat];
        assert(word as u8 == word % 256) by (bit_vector);
    }
    if !(name is Step) {
        assert(seed =~= bytes);
    }
    assert(step | 1 == if step % 2 == 0 {
        (step + 1) as u64
    } else {
        step
    }) by (bit_vector);
}

/// The names of the generators: each stands for one of them, and no other text stands for any.
pub proof fn rng_is_chosen_by_its_name(name: Seq<char>, r: Result<RngName, UnsupportedName>)
    requires
        chosen(RngName::named(name), NameKind::Rng, name, r),
    ensures
        r == Ok::<RngName, UnsupportedName>(RngName::ChaCha) <==> name == "chacha"@,
        r == Ok::<RngName, UnsupportedName>(RngName::Hc128) <==> name == "hc128"@,
        r == Ok::<RngName, UnsupportedName>(RngName::Isaac) <==> name == "isaac"@,
        r == Ok::<RngName, UnsupportedName>(RngName::Isaac64) <==> name == "isaac64"@,
        r == Ok::<RngName, UnsupportedName>(RngName::XorShift) <==> name == "xorshift"@,
        r == Ok::<RngName, UnsupportedName>(RngName::Pcg32) <==> name == "pcg32"@,
        r == Ok::<RngName, UnsupportedName>(RngName::Step) <==> name == "step"@,
        r matches Err(e) ==> e.kind == NameKind::Rng && e.name@ == name,
{
    reveal_strlit("chacha");
    reveal_strlit("hc128");
    reveal_strlit("isaac");
    reveal_strlit("isaac64");
    reveal_strlit("xorshift");
    reveal_strlit("pcg32");
    reveal_strlit("step");
    assert("chacha"@.len() == 6 && "hc128"@.len() == 5 && "isaac"@.len() == 5);
    assert("isaac64"@.len() == 7 && "xorshift"@.len() == 8 && "pcg32"@.len() == 5);
    assert("step"@.len() == 4);
    assert("hc128"@[0] == 'h' && "pcg32"@[0] == 'p' && "isaac"@[0] == 'i');
}

} // verus!
