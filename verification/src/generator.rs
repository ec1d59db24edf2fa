//! Generation of random passwords from a choice of character classes.
//!
//! Randomness comes from a linear congruential generator seeded with the
//! clock. It decides which characters are drawn and how they are ordered;
//! which characters may be drawn, and how many, does not depend on it.

use vstd::prelude::*;
use vstd::multiset::*;
use vstd::seq_lib::*;
use rand::RngCore;
use crate::crypto::CryptoService;
use crate::error::{ErrorKind, VaultError};
use crate::password::{Timestamp, current_time};
use crate::text::{chars_to_string, str_to_chars};

verus! {

/// What a generated password is made of.
#[derive(Debug)]
pub struct PasswordGeneratorConfig {
    pub length: usize,
    pub exclude_chars: Option<String>,
    pub require_uppercase: bool,
    pub require_lowercase: bool,
    pub require_numbers: bool,
    pub require_symbols: bool,
}

impl Default for PasswordGeneratorConfig {
    fn default() -> (c: PasswordGeneratorConfig)
        ensures
            c.length == 16,
            c.exclude_chars is None,
            c.require_uppercase,
            c.require_lowercase,
            c.require_numbers,
            c.require_symbols,
    {
        PasswordGeneratorConfig {
            length: 16,
            exclude_chars: None,
            require_uppercase: true,
            require_lowercase: true,
            require_numbers: true,
            require_symbols: true,
        }
    }
}

/// The lowercase letters.
pub open spec fn lowercase() -> Seq<char> {
    "abcdefghijklmnopqrstuvwxyz"@
}

/// The uppercase letters.
pub open spec fn uppercase() -> Seq<char> {
    "ABCDEFGHIJKLMNOPQRSTUVWXYZ"@
}

/// The digits.
pub open spec fn numbers() -> Seq<char> {
    "0123456789"@
}

/// The symbols.
pub open spec fn symbols() -> Seq<char> {
    "!@#$%^&*()_+-=[]{}|;:,.<>?"@
}

/// `class` if it is selected, nothing otherwise.
pub open spec fn class_if(selected: bool, class: Seq<char>) -> Seq<char> {
    if selected {
        class
    } else {
        Seq::empty()
    }
}

/// The characters of the selected classes.
pub open spec fn available_chars(config: PasswordGeneratorConfig) -> Seq<char> {
    class_if(config.require_lowercase, lowercase()) + class_if(
        config.require_uppercase,
        uppercase(),
    ) + class_if(config.require_numbers, numbers()) + class_if(config.require_symbols, symbols())
}

/// The characters that the configuration excludes.
pub open spec fn excluded_chars(config: PasswordGeneratorConfig) -> Seq<char> {
    match config.exclude_chars {
        Some(s) => s@,
        None => Seq::empty(),
    }
}

/// `chars` without the characters of `excluded`.
pub open spec fn remaining_chars(chars: Seq<char>, excluded: Seq<char>) -> Seq<char> {
    chars.filter(|c: char| !excluded.contains(c))
}

/// The characters of the selected classes that are not excluded.
pub open spec fn allowed_chars(config: PasswordGeneratorConfig) -> Seq<char> {
    remaining_chars(available_chars(config), excluded_chars(config))
}

/// The number of selected classes.
pub open spec fn class_count(config: PasswordGeneratorConfig) -> nat {
    (if config.require_lowercase { 1nat } else { 0 }) + (if config.require_uppercase { 1nat } else { 0 })
        + (if config.require_numbers { 1nat } else { 0 }) + (if config.require_symbols { 1nat } else { 0 })
}

/// The length of a generated password: the configured length, but at
/// least one character for each selected class.
pub open spec fn generated_len(config: PasswordGeneratorConfig) -> nat {
    if config.length >= class_count(config) {
        config.length as nat
    } else {
        class_count(config)
    }
}

/// One step of the generator: `seed * 1103515245 + 12345`, wrapping at 64
/// bits, reduced modulo 2^31.
#[verifier::opaque]
pub open spec fn simple_rng_spec(seed: u64) -> u64 {
    (vstd::wrapping::u64_specs::wrapping_add(
        vstd::wrapping::u64_specs::wrapping_mul(seed, 1103515245),
        12345,
    ) % 0x8000_0000) as u64
}

/// One step of the linear congruential generator.
pub fn simple_rng(seed: u64) -> (next: u64)
    ensures
        next == simple_rng_spec(seed),
        next < 0x8000_0000,
{
    reveal(simple_rng_spec);
    let stepped = seed.wrapping_mul(1103515245).wrapping_add(12345);
    stepped % 0x8000_0000
}

/// A seed taken from the clock: the nanoseconds since the epoch, wrapping
/// at 64 bits.
pub fn clock_seed() -> (seed: u64)
    ensures
        exists|now: Timestamp| seed == #[trigger] seed_spec(now),
{
    let now = current_time();
    let seed = seed_of(now);
    assert(seed == seed_spec(now));
    seed
}

/// The character of `chars` that the seed selects.
pub open spec fn pick_char_spec(chars: Seq<char>, seed: u64) -> char {
    chars[(simple_rng_spec(seed) as int) % (chars.len() as int)]
}

/// The character of `chars` that `seed` selects.
pub fn pick_char(chars: &Vec<char>, seed: u64) -> (c: char)
    requires
        chars@.len() > 0,
    ensures
        c == pick_char_spec(chars@, seed),
        chars@.contains(c),
{
    let rng = simple_rng(seed);
    proof {
        vstd::arithmetic::div_mod::lemma_mod_bound(rng as int, chars@.len() as int);
    }
    let index = rng % (chars.len() as u64);
    chars[index as usize]
}

/// A character of `chars`, selected by the clock.
pub fn get_random_char(chars: &str) -> (c: char)
    requires
        chars@.len() > 0,
    ensures
        chars@.contains(c),
{
    let all = str_to_chars(chars);
    pick_char(&all, clock_seed())
}

/// `s` with the characters at `i` and `j` exchanged.
pub open spec fn swapped(s: Seq<char>, i: int, j: int) -> Seq<char> {
    s.update(i, s[j]).update(j, s[i])
}

/// The Fisher-Yates shuffle of the first `i + 1` characters of `s`, from
/// the top down, drawing each position from the generator in state `rng`.
pub open spec fn shuffle_from(s: Seq<char>, rng: u64, i: nat) -> Seq<char>
    decreases i,
{
    if i == 0 || i >= s.len() {
        s
    } else {
        let next = simple_rng_spec(rng);
        let j = (next as int) % (i as int + 1);
        shuffle_from(swapped(s, i as int, j), next, (i - 1) as nat)
    }
}

/// The shuffle of `s` that `seed` selects.
pub open spec fn shuffle_spec(s: Seq<char>, seed: u64) -> Seq<char> {
    if s.len() < 2 {
        s
    } else {
        shuffle_from(s, simple_rng_spec(seed), (s.len() - 1) as nat)
    }
}

/// Exchanging two characters keeps what the sequence holds.
pub proof fn lemma_swapped_same_multiset(s: Seq<char>, i: int, j: int)
    requires
        0 <= i < s.len(),
        0 <= j < s.len(),
    ensures
        swapped(s, i, j).len() == s.len(),
        swapped(s, i, j).to_multiset() == s.to_multiset(),
{
    broadcast use {group_multiset_axioms, group_multiset_properties};

    let s1 = s.update(i, s[j]);
    to_multiset_update(s, i, s[j]);
    to_multiset_update(s1, j, s[i]);
    to_multiset_contains(s, s[i]);
    to_multiset_contains(s, s[j]);
    assert(s.contains(s[i]));
    assert(s.contains(s[j]));
    assert(s1[j] == s[j]);
    assert(swapped(s, i, j).to_multiset() =~= s.to_multiset());
}

/// A shuffle is a rearrangement: it keeps what the sequence holds.
pub proof fn lemma_shuffle_from_same_multiset(s: Seq<char>, rng: u64, i: nat)
    ensures
        shuffle_from(s, rng, i).len() == s.len(),
        shuffle_from(s, rng, i).to_multiset() == s.to_multiset(),
    decreases i,
{
    if i == 0 || i >= s.len() {
    } else {
        let next = simple_rng_spec(rng);
        let j = (next as int) % (i as int + 1);
        vstd::arithmetic::div_mod::lemma_mod_bound(next as int, i as int + 1);
        lemma_swapped_same_multiset(s, i as int, j);
        lemma_shuffle_from_same_multiset(swapped(s, i as int, j), next, (i - 1) as nat);
    }
}

/// A shuffle is a rearrangement: whatever the seed, the result holds each
/// character as often as the input does.
pub proof fn lemma_shuffle_is_permutation(s: Seq<char>, seed: u64)
    ensures
        shuffle_spec(s, seed).len() == s.len(),
        shuffle_spec(s, seed).to_multiset() == s.to_multiset(),
{
    if s.len() >= 2 {
        lemma_shuffle_from_same_multiset(s, simple_rng_spec(seed), (s.len() - 1) as nat);
    }
}

/// Rearranges `chars` by the Fisher-Yates shuffle that `seed` selects.
pub fn shuffle_with_seed(chars: &mut Vec<char>, seed: u64)
    ensures
        final(chars)@ == shuffle_spec(old(chars)@, seed),
        final(chars)@.len() == old(chars)@.len(),
        final(chars)@.to_multiset() == old(chars)@.to_multiset(),
{
    proof {
        lemma_shuffle_is_permutation(chars@, seed);
    }
    if chars.len() < 2 {
        return ;
    }
    let mut rng = simple_rng(seed);
    let mut i: usize = chars.len() - 1;
    while i > 0
        invariant
            i < chars@.len() <= usize::MAX,
            chars@.len() == old(chars)@.len(),
            shuffle_from(chars@, rng, i as nat) == shuffle_spec(old(chars)@, seed),
        decreases i,
    {
        let ghost last_rng = rng;
        rng = simple_rng(rng);
        proof {
            vstd::arithmetic::div_mod::lemma_mod_bound(rng as int, i as int + 1);
        }
        let bound: usize = i + 1;
        let j = (rng % (bound as u64)) as usize;
        assert(j as int == (rng as int) % (i as int + 1));
        let ghost before = chars@;
        let a = chars[i];
        let b = chars[j];
        chars.set(i, b);
        chars.set(j, a);
        assert(chars@ == swapped(before, i as int, j as int));
        assert(shuffle_from(before, last_rng, i as nat) == shuffle_from(
            chars@,
            rng,
            (i - 1) as nat,
        ));
        i -= 1;
    }
}

/// Rearranges `chars` by the Fisher-Yates shuffle that the clock selects.
pub fn shuffle_chars(chars: &mut Vec<char>)
    ensures
        exists|now: Timestamp|
            final(chars)@ == shuffle_spec(old(chars)@, #[trigger] seed_spec(now)),
        final(chars)@.len() == old(chars)@.len(),
        final(chars)@.to_multiset() == old(chars)@.to_multiset(),
{
    let seed = clock_seed();
    let ghost now = choose|now: Timestamp| seed == #[trigger] seed_spec(now);
    shuffle_with_seed(chars, seed);
    assert(chars@ == shuffle_spec(old(chars)@, seed_spec(now)));
}

/// Appends the characters of `src` to `dst`.
fn push_all(dst: &mut Vec<char>, src: &Vec<char>)
    ensures
        final(dst)@ == old(dst)@ + src@,
{
    let mut i: usize = 0;
    while i < src.len()
        invariant
            i <= src.len(),
            dst@ == old(dst)@ + src@.subrange(0, i as int),
        decreases src.len() - i,
    {
        dst.push(src[i]);
        i += 1;
        assert(dst@ =~= old(dst)@ + src@.subrange(0, i as int));
    }
    assert(src@.subrange(0, src.len() as int) =~= src@);
}

/// Whether `c` is among `chars`.
fn has_char(chars: &Vec<char>, c: char) -> (found: bool)
    ensures
        found == chars@.contains(c),
{
    let mut i: usize = 0;
    while i < chars.len()
        invariant
            i <= chars.len(),
            forall|k: int| 0 <= k < i ==> chars@[k] != c,
        decreases chars.len() - i,
    {
        if chars[i] == c {
            return true;
        }
        i += 1;
    }
    false
}

/// `chars` without the characters of `excluded`.
fn without_excluded(chars: &Vec<char>, excluded: &Vec<char>) -> (out: Vec<char>)
    ensures
        out@ == remaining_chars(chars@, excluded@),
{
    let mut out: Vec<char> = Vec::new();
    let mut i: usize = 0;
    proof {
        reveal(Seq::filter);
        assert(chars@.subrange(0, 0) =~= Seq::<char>::empty());
    }
    while i < chars.len()
        invariant
            i <= chars.len(),
            out@ == remaining_chars(chars@.subrange(0, i as int), excluded@),
        decreases chars.len() - i,
    {
        proof {
            reveal(Seq::filter);
            assert(chars@.subrange(0, i + 1).drop_last() =~= chars@.subrange(0, i as int));
        }
        if !has_char(excluded, chars[i]) {
            out.push(chars[i]);
        }
        i += 1;
    }
    assert(chars@.subrange(0, chars.len() as int) =~= chars@);
    out
}

/// Calls `rand::rng().next_u32`. Nothing is claimed of the result.
#[verifier::external_body]
fn random_u32() -> (n: u32) {
    rand::rng().next_u32()
}

/// The characters that the service draws from: those of the selected
/// classes, uppercase first, that are not excluded.
pub open spec fn service_chars(config: PasswordGeneratorConfig) -> Seq<char> {
    remaining_chars(
        class_if(config.require_uppercase, uppercase()) + class_if(
            config.require_lowercase,
            lowercase(),
        ) + class_if(config.require_numbers, numbers()) + class_if(
            config.require_symbols,
            symbols(),
        ),
        excluded_chars(config),
    )
}

/// The characters of `alphabet` that the numbers `draws` select, one
/// each.
pub open spec fn chosen_by(alphabet: Seq<char>, draws: Seq<u32>) -> Seq<char> {
    Seq::new(draws.len(), |i: int| alphabet[(draws[i] as int) % (alphabet.len() as int)])
}

/// The password that `draws` select from `alphabet`: one character for
/// each number, the one at the number's remainder.
pub fn password_from_draws(alphabet: &Vec<char>, draws: &Vec<u32>) -> (s: String)
    requires
        alphabet@.len() > 0,
    ensures
        s@ == chosen_by(alphabet@, draws@),
{
    let mut chars: Vec<char> = Vec::new();
    let mut i: usize = 0;
    while i < draws.len()
        invariant
            i <= draws.len(),
            alphabet@.len() > 0,
            chars@ == chosen_by(alphabet@, draws@.subrange(0, i as int)),
        decreases draws.len() - i,
    {
        proof {
            vstd::arithmetic::div_mod::lemma_mod_bound(draws@[i as int] as int, alphabet@.len() as int);
        }
        let index = (draws[i] as usize) % alphabet.len();
        chars.push(alphabet[index]);
        i += 1;
        assert(chars@ =~= chosen_by(alphabet@, draws@.subrange(0, i as int)));
    }
    assert(draws@.subrange(0, draws.len() as int) =~= draws@);
    chars_to_string(&chars)
}

impl CryptoService {
    /// Generates a password of the configured length, each character
    /// drawn at random from the selected classes without the excluded
    /// characters.
    ///
    /// Fails with `InvalidInput` exactly when there is no character to
    /// draw from.
    pub fn generate_password(config: &PasswordGeneratorConfig) -> (r: Result<String, VaultError>)
        ensures
            r is Err <==> service_chars(*config).len() == 0,
            r matches Err(e) ==> e.kind == ErrorKind::InvalidInput,
            r matches Ok(s) ==> s@.len() == config.length && drawn_from(s@, service_chars(*config)),
    {
        let upper = str_to_chars("ABCDEFGHIJKLMNOPQRSTUVWXYZ");
        let lower = str_to_chars("abcdefghijklmnopqrstuvwxyz");
        let digits = str_to_chars("0123456789");
        let marks = str_to_chars("!@#$%^&*()_+-=[]{}|;:,.<>?");
        let mut chars: Vec<char> = Vec::new();
        if config.require_uppercase {
            push_all(&mut chars, &upper);
        }
        if config.require_lowercase {
            push_all(&mut chars, &lower);
        }
        if config.require_numbers {
            push_all(&mut chars, &digits);
        }
        if config.require_symbols {
            push_all(&mut chars, &marks);
        }
        let excluded = match &config.exclude_chars {
            Some(s) => str_to_chars(s.as_str()),
            None => Vec::new(),
        };
        assert(excluded@ =~= excluded_chars(*config));
        let alphabet = without_excluded(&chars, &excluded);
        assert(alphabet@ =~= service_chars(*config)) by {
            assert(chars@ =~= class_if(config.require_uppercase, uppercase()) + class_if(
                config.require_lowercase,
                lowercase(),
            ) + class_if(config.require_numbers, numbers()) + class_if(
                config.require_symbols,
                symbols(),
            ));
        }
        if alphabet.len() == 0 {
            return Err(
                VaultError::new(
                    ErrorKind::InvalidInput,
                    "No characters available for password generation",
                ),
            );
        }
        let mut draws: Vec<u32> = Vec::new();
        let mut n: usize = 0;
        while n < config.length
            invariant
                n <= config.length,
                draws@.len() == n,
            decreases config.length - n,
        {
            draws.push(random_u32());
            n += 1;
        }
        let password = password_from_draws(&alphabet, &draws);
        proof {
            assert forall|i: int| 0 <= i < password@.len() implies alphabet@.contains(
                #[trigger] password@[i],
            ) by {
                vstd::arithmetic::div_mod::lemma_mod_bound(
                    draws@[i] as int,
                    alphabet@.len() as int,
                );
            }
        }
        Ok(password)
    }
}

/// Some character of `s` belongs to `class`.
pub open spec fn represents(s: Seq<char>, class: Seq<char>) -> bool {
    exists|i: int| 0 <= i < s.len() && class.contains(#[trigger] s[i])
}

/// Every character of `s` belongs to `pool`.
pub open spec fn drawn_from(s: Seq<char>, pool: Seq<char>) -> bool {
    forall|i: int| 0 <= i < s.len() ==> pool.contains(#[trigger] s[i])
}

/// `password` is a rearrangement of `required` followed by `rest`, where
/// `required` holds one character for each selected class and `rest`
/// holds only characters that are not excluded.
pub open spec fn composed_of(
    password: Seq<char>,
    required: Seq<char>,
    rest: Seq<char>,
    config: PasswordGeneratorConfig,
) -> bool {
    &&& password.to_multiset() == (required + rest).to_multiset()
    &&& required.len() == class_count(config)
    &&& drawn_from(rest, allowed_chars(config))
}

/// What holds of every password generated for `config`: it has the
/// generated length, each of its characters belongs to a selected class,
/// each selected class is represented, and all its characters but one for
/// each selected class are among those that are not excluded.
pub open spec fn is_generated_for(password: Seq<char>, config: PasswordGeneratorConfig) -> bool {
    &&& exists|required: Seq<char>, rest: Seq<char>| #[trigger]
        composed_of(password, required, rest, config)
    &&& password.len() == generated_len(config)
    &&& drawn_from(password, available_chars(config))
    &&& config.require_lowercase ==> represents(password, lowercase())
    &&& config.require_uppercase ==> represents(password, uppercase())
    &&& config.require_numbers ==> represents(password, numbers())
    &&& config.require_symbols ==> represents(password, symbols())
}

/// What is left after exclusion was there before.
pub proof fn lemma_remaining_are_members(chars: Seq<char>, excluded: Seq<char>)
    ensures
        drawn_from(remaining_chars(chars, excluded), chars),
    decreases chars.len(),
{
    reveal(Seq::filter);
    if chars.len() > 0 {
        let init = chars.drop_last();
        lemma_remaining_are_members(init, excluded);
        let r = remaining_chars(chars, excluded);
        let ri = remaining_chars(init, excluded);
        assert forall|i: int| 0 <= i < r.len() implies chars.contains(#[trigger] r[i]) by {
            if i < ri.len() {
                assert(r[i] == ri[i]);
                let k = choose|k: int| 0 <= k < init.len() && init[k] == ri[i];
                assert(chars[k] == r[i]);
            } else {
                assert(r[i] == chars.last());
                assert(chars[chars.len() - 1] == r[i]);
            }
        }
    }
}

/// Two sequences that hold the same characters equally often are drawn
/// from the same pools and represent the same classes.
pub proof fn lemma_rearranged(a: Seq<char>, b: Seq<char>, other: Seq<char>)
    requires
        a.to_multiset() == b.to_multiset(),
    ensures
        drawn_from(a, other) ==> drawn_from(b, other),
        represents(a, other) ==> represents(b, other),
{
    assert forall|c: char| a.contains(c) <==> b.contains(c) by {
        to_multiset_contains(a, c);
        to_multiset_contains(b, c);
    }
    if drawn_from(a, other) {
        assert forall|i: int| 0 <= i < b.len() implies other.contains(#[trigger] b[i]) by {
            assert(b.contains(b[i]));
            let k = choose|k: int| 0 <= k < a.len() && a[k] == b[i];
            assert(other.contains(a[k]));
        }
    }
    if represents(a, other) {
        let k = choose|k: int| 0 <= k < a.len() && other.contains(#[trigger] a[k]);
        assert(a.contains(a[k]));
        let i = choose|i: int| 0 <= i < b.len() && b[i] == a[k];
        assert(other.contains(b[i]));
    }
}

/// Takes one class into account: if it is selected, its characters
/// become available and one of them, selected by the clock, becomes
/// required.
fn add_class(
    selected: bool,
    class: &Vec<char>,
    available: &mut Vec<char>,
    required: &mut Vec<char>,
)
    requires
        class@.len() > 0,
        drawn_from(old(required)@, old(available)@),
    ensures
        final(available)@ == old(available)@ + class_if(selected, class@),
        final(required)@.len() == old(required)@.len() + (if selected { 1int } else { 0 }),
        drawn_from(final(required)@, final(available)@),
        selected ==> represents(final(required)@, class@),
        forall|other: Seq<char>| #[trigger]
            represents(old(required)@, other) ==> represents(final(required)@, other),
{
    if selected {
        let ghost before = required@;
        let ghost pool = available@;
        push_all(available, class);
        let c = pick_char(class, clock_seed());
        required.push(c);
        proof {
            let k = choose|k: int| 0 <= k < class@.len() && class@[k] == c;
            assert(available@[pool.len() + k] == c);
            assert forall|i: int| 0 <= i < required@.len() implies available@.contains(
                #[trigger] required@[i],
            ) by {
                if i < before.len() {
                    assert(pool.contains(before[i]));
                    let m = choose|m: int| 0 <= m < pool.len() && pool[m] == before[i];
                    assert(available@[m] == before[i]);
                }
            }
            assert(class@.contains(required@[before.len() as int]));
            assert forall|other: Seq<char>| #[trigger]
                represents(before, other) implies represents(required@, other) by {
                let i = choose|i: int| 0 <= i < before.len() && other.contains(#[trigger] before[i]);
                assert(other.contains(required@[i]));
            }
        }
    } else {
        assert(available@ + Seq::<char>::empty() =~= available@);
    }
}

/// Generates a password for `config`: one character from each selected
/// class, then characters from the selected classes that are not
/// excluded, up to the configured length, all in shuffled order.
///
/// Fails with `InvalidInput` exactly when no class is selected or every
/// character of the selected classes is excluded.
pub fn generate_password(config: &PasswordGeneratorConfig) -> (r: Result<String, VaultError>)
    ensures
        r is Err <==> allowed_chars(*config).len() == 0,
        r matches Err(e) ==> e.kind == ErrorKind::InvalidInput,
        r matches Ok(s) ==> is_generated_for(s@, *config),
{
    let lower = str_to_chars("abcdefghijklmnopqrstuvwxyz");
    let upper = str_to_chars("ABCDEFGHIJKLMNOPQRSTUVWXYZ");
    let digits = str_to_chars("0123456789");
    let marks = str_to_chars("!@#$%^&*()_+-=[]{}|;:,.<>?");
    proof {
        reveal_strlit("abcdefghijklmnopqrstuvwxyz");
        reveal_strlit("ABCDEFGHIJKLMNOPQRSTUVWXYZ");
        reveal_strlit("0123456789");
        reveal_strlit("!@#$%^&*()_+-=[]{}|;:,.<>?");
    }
    let mut available: Vec<char> = Vec::new();
    let mut required: Vec<char> = Vec::new();
    add_class(config.require_lowercase, &lower, &mut available, &mut required);
    add_class(config.require_uppercase, &upper, &mut available, &mut required);
    add_class(config.require_numbers, &digits, &mut available, &mut required);
    add_class(config.require_symbols, &marks, &mut available, &mut required);
    assert(available@ =~= available_chars(*config));
    let excluded = match &config.exclude_chars {
        Some(s) => str_to_chars(s.as_str()),
        None => Vec::new(),
    };
    assert(excluded@ =~= excluded_chars(*config));
    let filtered = without_excluded(&available, &excluded);
    if filtered.len() == 0 {
        return Err(
            VaultError::new(ErrorKind::InvalidInput, "no characters are available"),
        );
    }
    let mut password_chars: Vec<char> = Vec::new();
    push_all(&mut password_chars, &required);
    let remaining_length = if config.length >= required.len() {
        config.length - required.len()
    } else {
        0
    };
    let ghost pool = available@;
    proof {
        lemma_remaining_are_members(pool, excluded@);
    }
    let mut n: usize = 0;
    while n < remaining_length
        invariant
            n <= remaining_length,
            filtered@.len() > 0,
            password_chars@.len() == required@.len() + n,
            password_chars@.subrange(0, required@.len() as int) == required@,
            drawn_from(filtered@, pool),
            drawn_from(password_chars@, pool),
            drawn_from(
                password_chars@.subrange(required@.len() as int, password_chars@.len() as int),
                filtered@,
            ),
        decreases remaining_length - n,
    {
        let c = pick_char(&filtered, clock_seed());
        let ghost before = password_chars@;
        password_chars.push(c);
        n += 1;
        proof {
            let k = choose|k: int| 0 <= k < filtered@.len() && filtered@[k] == c;
            assert(pool.contains(filtered@[k]));
            assert(password_chars@.subrange(0, required@.len() as int) =~= before.subrange(
                0,
                required@.len() as int,
            ));
            assert forall|i: int| 0 <= i < password_chars@.len() implies pool.contains(
                #[trigger] password_chars@[i],
            ) by {
                if i < before.len() {
                    assert(password_chars@[i] == before[i]);
                }
            }
            let m = required@.len() as int;
            let tail = password_chars@.subrange(m, password_chars@.len() as int);
            let tail_before = before.subrange(m, before.len() as int);
            assert forall|i: int| 0 <= i < tail.len() implies filtered@.contains(
                #[trigger] tail[i],
            ) by {
                if i < tail_before.len() {
                    assert(tail[i] == tail_before[i]);
                }
            }
        }
    }
    let ghost drawn = password_chars@;
    proof {
        assert forall|other: Seq<char>| #[trigger]
            represents(required@, other) implies represents(drawn, other) by {
            let i = choose|i: int| 0 <= i < required@.len() && other.contains(#[trigger] required@[i]);
            assert(drawn.subrange(0, required@.len() as int)[i] == drawn[i]);
            assert(other.contains(drawn[i]));
        }
    }
    shuffle_chars(&mut password_chars);
    let password = chars_to_string(&password_chars);
    proof {
        let rest = drawn.subrange(required@.len() as int, drawn.len() as int);
        assert(required@ + rest =~= drawn);
        assert(composed_of(password@, required@, rest, *config));
        lemma_rearranged(drawn, password@, pool);
        lemma_rearranged(drawn, password@, lowercase());
        lemma_rearranged(drawn, password@, uppercase());
        lemma_rearranged(drawn, password@, numbers());
        lemma_rearranged(drawn, password@, symbols());
    }
    Ok(password)
}

/// The seed that an instant gives: its nanoseconds since the epoch,
/// wrapping at 64 bits. An instant before the epoch counts with the
/// epoch's second.
pub open spec fn seed_spec(now: Timestamp) -> u64 {
    let secs: u64 = if now.secs >= 0 {
        now.secs as u64
    } else {
        0
    };
    vstd::wrapping::u64_specs::wrapping_add(
        vstd::wrapping::u64_specs::wrapping_mul(secs, 1_000_000_000),
        now.nanos as u64,
    )
}

/// The seed that the instant `now` gives.
pub fn seed_of(now: Timestamp) -> (seed: u64)
    ensures
        seed == seed_spec(now),
{
    let secs: u64 = if now.secs >= 0 {
        now.secs as u64
    } else {
        0
    };
    secs.wrapping_mul(1_000_000_000).wrapping_add(now.nanos as u64)
}

} // verus!
