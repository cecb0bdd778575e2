//! Seeds for the randomizer, and how they are written in letters.

use vstd::prelude::*;
use vstd::string::*;

verus! {

/// The digits of base 26, from zero to twenty-five.
pub const ALPHABET: &'static str = "ABCDEFGHIJKLMNOPQRSTUVWXYZ";

/// The number `n` written in base 26 with the letters `A` to `Z`, most
/// significant letter first. Zero has no letters.
pub open spec fn base26(n: nat) -> Seq<char>
    decreases n,
{
    if n == 0 {
        Seq::empty()
    } else {
        base26(n / 26).push(ALPHABET@[(n % 26) as int])
    }
}

/// A seed in letters: the seed in base 26, nothing for a seed that is not positive.
pub open spec fn seed_letters(seed: i32) -> Seq<char> {
    if seed > 0 {
        base26(seed as nat)
    } else {
        Seq::empty()
    }
}

/// Writes a seed in letters.
pub fn convert_to_base26(seed: i32) -> (output: String)
    ensures
        output@ == seed_letters(seed),
{
    proof {
        reveal_strlit("ABCDEFGHIJKLMNOPQRSTUVWXYZ");
    }
    let mut output = String::new();
    let mut i: i32 = seed;
    while i > 0
        invariant
            ALPHABET@.len() == 26,
            seed_letters(seed) == seed_letters(i) + output@,
        decreases i,
    {
        let digit: usize = (i % 26) as usize;
        let letter = ALPHABET.substring_char(digit, digit + 1).to_owned();
        let ghost before = output@;
        output = letter.concat(output.as_str());
        assert(output@ == seq![ALPHABET@[digit as int]] + before);
        assert(base26(i as nat) + before == base26((i / 26) as nat) + output@);
        i = i / 26;
    }
    output
}

/// Calls `rand::Rng::gen_range` on `rand::thread_rng`.
///
/// Trusted: the number drawn is at least `low` and less than `high`. Which one it is
/// is left to chance. The generator needs entropy of the system when a thread first
/// uses it.
#[verifier::external_body]
fn gen_range(low: i32, high: i32) -> (drawn: i32)
    requires
        low < high,
    ensures
        low <= drawn < high,
{
    rand::Rng::gen_range(&mut rand::thread_rng(), low, high)
}

/// Draws a number that is at least `low` and less than `high`.
pub fn draw(low: i32, high: i32) -> (drawn: i32)
    requires
        low < high,
    ensures
        low <= drawn < high,
{
    gen_range(low, high)
}

/// Whether a seed can be drawn.
pub open spec fn is_seed(seed: i32) -> bool {
    0 <= seed < i32::MAX
}

/// Draws a seed.
pub fn random_seed() -> (seed: i32)
    ensures
        is_seed(seed),
        call_ensures(draw, (0i32, i32::MAX), seed),
{
    draw(0, i32::MAX)
}

/// What is said of a seed.
pub open spec fn seed_answer(seed: i32) -> Seq<char> {
    "Your seed is: "@ + seed_letters(seed)
}

/// Says what the seed is, in letters.
pub fn seed_reply(seed: i32) -> (reply: String)
    ensures
        reply@ == seed_answer(seed),
{
    let letters = convert_to_base26(seed);
    "Your seed is: ".to_owned().concat(letters.as_str())
}

/// What a letter stands for in base 26.
pub open spec fn letter_value(c: char) -> int {
    c as int - 'A' as int
}

/// The number that letters stand for in base 26.
pub open spec fn base26_value(letters: Seq<char>) -> int
    decreases letters.len(),
{
    if letters.len() == 0 {
        0
    } else {
        26 * base26_value(letters.drop_last()) + letter_value(letters.last())
    }
}

proof fn alphabet_is_in_order(digit: int)
    requires
        0 <= digit < 26,
    ensures
        'A' <= ALPHABET@[digit] && ALPHABET@[digit] <= 'Z',
        letter_value(ALPHABET@[digit]) == digit,
{
    reveal_strlit("ABCDEFGHIJKLMNOPQRSTUVWXYZ");
    let a = ALPHABET@;
    assert(a[0] == 'A' && a[1] == 'B' && a[2] == 'C' && a[3] == 'D' && a[4] == 'E' && a[5] == 'F'
        && a[6] == 'G' && a[7] == 'H' && a[8] == 'I' && a[9] == 'J' && a[10] == 'K' && a[11] == 'L'
        && a[12] == 'M' && a[13] == 'N' && a[14] == 'O' && a[15] == 'P' && a[16] == 'Q' && a[17]
        == 'R' && a[18] == 'S' && a[19] == 'T' && a[20] == 'U' && a[21] == 'V' && a[22] == 'W'
        && a[23] == 'X' && a[24] == 'Y' && a[25] == 'Z');
}

/// The letters of a number are capital letters, stand for the number, and do not begin
/// with the letter for zero.
pub proof fn base26_is_positional(n: nat)
    ensures
        base26_value(base26(n)) == n,
        forall|i: int| 0 <= i < base26(n).len() ==> 'A' <= #[trigger] base26(n)[i],
        forall|i: int| 0 <= i < base26(n).len() ==> #[trigger] base26(n)[i] <= 'Z',
        n > 0 ==> base26(n).len() > 0 && base26(n)[0] != 'A',
    decreases n,
{
    if n > 0 {
        let head = base26(n / 26);
        let digit = (n % 26) as int;
        base26_is_positional(n / 26);
        alphabet_is_in_order(digit);
        assert(base26(n) == head.push(ALPHABET@[digit]));
        assert(base26(n).drop_last() == head);
        assert forall|i: int| 0 <= i < base26(n).len() implies 'A' <= #[trigger] base26(n)[i]
            && base26(n)[i] <= 'Z' by {
            if i < head.len() {
                assert(base26(n)[i] == head[i]);
            }
        }
    }
}

/// The letters of a seed that can be drawn stand for that seed.
pub proof fn letters_give_the_seed(seed: i32)
    requires
        seed >= 0,
    ensures
        base26_value(seed_letters(seed)) == seed,
{
    base26_is_positional(seed as nat);
}

/// Two different seeds that can be drawn are written differently.
pub proof fn letters_tell_seeds_apart(seed: i32, other: i32)
    requires
        seed >= 0,
        other >= 0,
        seed_letters(seed) == seed_letters(other),
    ensures
        seed == other,
{
    letters_give_the_seed(seed);
    letters_give_the_seed(other);
}

/// The letters of a seed, digit by digit: a further digit is a further letter, as far
/// behind `A` as the digit is above zero. A seed that is not positive has no letters.
pub proof fn letters_follow_the_digits(seed: i32, digit: int)
    requires
        seed >= 0,
        0 <= digit < 26,
        0 < 26 * seed + digit <= i32::MAX,
    ensures
        seed_letters((26 * seed + digit) as i32) == seed_letters(seed).push(
            ('A' as int + digit) as char,
        ),
{
    let n: nat = (26 * seed + digit) as nat;
    assert(n / 26 == seed as nat && n % 26 == digit as nat);
    alphabet_is_in_order(digit);
}

/// A seed that is not positive has no letters; any other has capital letters, of which
/// the first is not the one for zero.
pub proof fn letters_are_capitals(seed: i32)
    ensures
        seed <= 0 ==> seed_letters(seed).len() == 0,
        seed > 0 ==> seed_letters(seed).len() > 0 && seed_letters(seed)[0] != 'A',
        forall|i: int|
            0 <= i < seed_letters(seed).len() ==> 'A' <= #[trigger] seed_letters(seed)[i],
        forall|i: int|
            0 <= i < seed_letters(seed).len() ==> #[trigger] seed_letters(seed)[i] <= 'Z',
{
    if seed > 0 {
        base26_is_positional(seed as nat);
    }
}

/// What is said of a seed gives the seed: behind the words stand capital letters that
/// stand for it, none of them superfluous. Of a seed that is not positive no letters
/// are said.
pub proof fn answer_gives_the_seed(seed: i32)
    ensures
        ({
            let said = seed_answer(seed);
            let words = "Your seed is: "@;
            let letters = said.skip(words.len() as int);
            &&& said == words + letters
            &&& base26_value(letters) == if seed > 0 { seed as int } else { 0 }
            &&& letters.len() == 0 <==> seed <= 0
            &&& seed > 0 ==> letters[0] != 'A'
            &&& forall|i: int| 0 <= i < letters.len() ==> 'A' <= #[trigger] letters[i]
            &&& forall|i: int| 0 <= i < letters.len() ==> #[trigger] letters[i] <= 'Z'
        }),
{
    let said = seed_answer(seed);
    let words = "Your seed is: "@;
    assert(said.skip(words.len() as int) =~= seed_letters(seed));
    letters_are_capitals(seed);
    if seed >= 0 {
        letters_give_the_seed(seed);
    } else {
        assert(seed_letters(seed).len() == 0);
    }
}

/// Two different seeds that are not negative are answered differently.
pub proof fn answers_tell_seeds_apart(seed: i32, other: i32)
    requires
        seed >= 0,
        other >= 0,
        seed_answer(seed) == seed_answer(other),
    ensures
        seed == other,
{
    answer_gives_the_seed(seed);
    answer_gives_the_seed(other);
}

/// Every number from zero up to, but not including, the largest can be drawn as a seed,
/// and no other.
pub proof fn seeds_have_their_range(seed: i32)
    ensures
        is_seed(seed) <==> 0 <= seed < 2147483647,
{
}

/// The letters and the answer for a seed are those of the seed, whole.
pub proof fn seeds_are_said_whole(seed: i32, letters: String, reply: String)
    requires
        call_ensures(convert_to_base26, (seed,), letters),
        call_ensures(seed_reply, (seed,), reply),
        seed >= 0,
    ensures
        base26_value(letters@) == seed,
        reply@ == "Your seed is: "@ + letters@,
{
    letters_give_the_seed(seed);
}

} // verus!
