//! The letter bag: the alphabet with its point values, word scoring and
//! rack bookkeeping.
use rand::seq::SliceRandom;
use vstd::multiset::Multiset;
use vstd::prelude::*;

verus! {

/// A tile: a character and the points it is worth.
#[derive(Clone, Copy, Debug, PartialEq, Eq, Structural)]
pub struct Letter {
    pub letter: char,
    pub value: u32,
}

/// Size of a player's rack.
pub const MAX_LETTERS: usize = 10;

/// Number of entries in the alphabet.
pub const ALPHABET_SIZE: usize = 26;

/// The code of `c` with ASCII upper case folded to lower case.
pub open spec fn fold(c: char) -> u32 {
    let x = c as u32;
    if 65 <= x && x <= 90 {
        (x + 32) as u32
    } else {
        x
    }
}

/// Whether `c` is an ASCII letter, in either case.
pub open spec fn is_ascii_letter(c: char) -> bool {
    let x = c as u32;
    (65 <= x && x <= 90) || (97 <= x && x <= 122)
}

pub open spec fn tile(c: char, v: u32) -> Letter {
    Letter { letter: c, value: v }
}

/// The alphabet, in order, with the point value of each letter.
pub open spec fn alphabet() -> Seq<Letter> {
    seq![
        tile('A', 1), tile('B', 3), tile('C', 3), tile('D', 2), tile('E', 1),
        tile('F', 4), tile('G', 2), tile('H', 2), tile('I', 1), tile('J', 8),
        tile('K', 5), tile('L', 1), tile('M', 3), tile('N', 1), tile('O', 1),
        tile('P', 3), tile('Q', 10), tile('R', 1), tile('S', 1), tile('T', 1),
        tile('U', 1), tile('V', 4), tile('W', 4), tile('X', 8), tile('Y', 4),
        tile('Z', 10),
    ]
}

/// The value of the first tile of `table` that matches `c` without regard to case.
pub open spec fn points_in(table: Seq<Letter>, c: char) -> Option<u32>
    decreases table.len(),
{
    if table.len() == 0 {
        None
    } else if fold(table[0].letter) == fold(c) {
        Some(table[0].value)
    } else {
        points_in(table.drop_first(), c)
    }
}

/// The point value of `c`, if it is in the alphabet.
pub open spec fn points_of(c: char) -> Option<u32> {
    points_in(alphabet(), c)
}

/// The sum of the values of the characters of `w`, or `None` when one of them
/// is not in the alphabet.
pub open spec fn word_points(w: Seq<char>) -> Option<nat>
    decreases w.len(),
{
    if w.len() == 0 {
        Some(0)
    } else {
        match (word_points(w.drop_last()), points_of(w.last())) {
            (Some(s), Some(v)) => Some((s + v) as nat),
            _ => None,
        }
    }
}

/// The score of a word: all or nothing.
pub open spec fn score(w: Seq<char>) -> nat {
    match word_points(w) {
        Some(s) => s,
        None => 0,
    }
}

/// `n`, or the largest `u32` where `n` does not fit.
pub open spec fn clamp_u32(n: nat) -> u32 {
    if n <= u32::MAX {
        n as u32
    } else {
        u32::MAX
    }
}

/// The folded codes of the tiles of a rack.
pub open spec fn rack_codes(rack: Seq<Letter>) -> Seq<u32> {
    rack.map_values(|l: Letter| fold(l.letter))
}

/// The folded codes of the characters of a word.
pub open spec fn word_codes(w: Seq<char>) -> Seq<u32> {
    w.map_values(|c: char| fold(c))
}

/// Whether each character of `w` can be matched, without regard to case, to a
/// tile of `rack` that no other character uses.
pub open spec fn can_spell(rack: Seq<Letter>, w: Seq<char>) -> bool {
    word_codes(w).to_multiset().subset_of(rack_codes(rack).to_multiset())
}

/// Folds ASCII upper case to lower case, on the character's code.
pub fn fold_code(c: char) -> (r: u32)
    ensures
        r == fold(c),
{
    let x = c as u32;
    if 65 <= x && x <= 90 {
        x + 32
    } else {
        x
    }
}

/// The alphabet table.
pub fn get_available_letters() -> (r: Vec<Letter>)
    ensures
        r@ == alphabet(),
{
    let r = vec![
        Letter { letter: 'A', value: 1 },
        Letter { letter: 'B', value: 3 },
        Letter { letter: 'C', value: 3 },
        Letter { letter: 'D', value: 2 },
        Letter { letter: 'E', value: 1 },
        Letter { letter: 'F', value: 4 },
        Letter { letter: 'G', value: 2 },
        Letter { letter: 'H', value: 2 },
        Letter { letter: 'I', value: 1 },
        Letter { letter: 'J', value: 8 },
        Letter { letter: 'K', value: 5 },
        Letter { letter: 'L', value: 1 },
        Letter { letter: 'M', value: 3 },
        Letter { letter: 'N', value: 1 },
        Letter { letter: 'O', value: 1 },
        Letter { letter: 'P', value: 3 },
        Letter { letter: 'Q', value: 10 },
        Letter { letter: 'R', value: 1 },
        Letter { letter: 'S', value: 1 },
        Letter { letter: 'T', value: 1 },
        Letter { letter: 'U', value: 1 },
        Letter { letter: 'V', value: 4 },
        Letter { letter: 'W', value: 4 },
        Letter { letter: 'X', value: 8 },
        Letter { letter: 'Y', value: 4 },
        Letter { letter: 'Z', value: 10 },
    ];
    assert(r@ =~= alphabet());
    r
}


/// The value of the first tile of `table` that matches `c` without regard to case.
pub fn find_points(table: &Vec<Letter>, c: char) -> (r: Option<u32>)
    ensures
        r == points_in(table@, c),
{
    let n = table.len();
    let code = fold_code(c);
    let mut j: usize = 0;
    assert(table@.subrange(0, n as int) =~= table@);
    while j < n
        invariant
            n == table@.len(),
            j <= n,
            code == fold(c),
            points_in(table@, c) == points_in(table@.subrange(j as int, n as int), c),
        decreases n - j,
    {
        let rest = Ghost(table@.subrange(j as int, n as int));
        assert(rest@.drop_first() =~= table@.subrange(j + 1, n as int));
        if fold_code(table[j].letter) == code {
            return Some(table[j].value);
        }
        j = j + 1;
    }
    None
}

/// The score of `word`: the sum of the point values of its characters, matched
/// without regard to case, or 0 when one of them is not in the alphabet.
pub fn get_word_value(word: String) -> (r: u32)
    ensures
        r == clamp_u32(score(word@)),
{
    let available_letters = get_available_letters();
    let n = word.as_str().unicode_len();
    let mut sum: u32 = 0;
    let mut i: usize = 0;
    while i < n
        invariant
            n == word@.len(),
            i <= n,
            available_letters@ == alphabet(),
            word_points(word@.take(i as int)) is Some,
            sum == clamp_u32(word_points(word@.take(i as int))->0),
        decreases n - i,
    {
        let c = word.as_str().get_char(i);
        assert(word@.take(i + 1).drop_last() =~= word@.take(i as int));
        match find_points(&available_letters, c) {
            Some(v) => {
                sum = sum.saturating_add(v);
            },
            None => {
                proof {
                    lemma_no_points_scores_zero(word@, i as int);
                }
                return 0;
            },
        }
        i = i + 1;
    }
    assert(word@.take(n as int) =~= word@);
    sum
}

/// A character outside the alphabet makes every word that holds it worth nothing.
proof fn lemma_no_points_scores_zero(w: Seq<char>, i: int)
    requires
        0 <= i < w.len(),
        points_of(w[i]) is None,
    ensures
        score(w) == 0,
        word_points(w) is None,
    decreases w.len(),
{
    if i < w.len() - 1 {
        lemma_no_points_scores_zero(w.drop_last(), i);
    }
}

/// The folded codes of the tiles of `rack` that remain once one tile has been
/// removed for each character of `w` that still has a matching tile.
pub open spec fn leftover_codes(rack: Seq<Letter>, w: Seq<char>) -> Multiset<u32> {
    rack_codes(rack).to_multiset().sub(word_codes(w).to_multiset())
}

proof fn lemma_codes_remove(s: Seq<Letter>, pos: int)
    requires
        0 <= pos < s.len(),
    ensures
        rack_codes(s.remove(pos)).to_multiset() == rack_codes(s).to_multiset().remove(
            fold(s[pos].letter),
        ),
        s.remove(pos).to_multiset().subset_of(s.to_multiset()),
{
    broadcast use vstd::seq_lib::group_to_multiset_ensures;
    broadcast use vstd::multiset::group_multiset_axioms;

    assert(rack_codes(s.remove(pos)) =~= rack_codes(s).remove(pos));
    assert(s.remove(pos).to_multiset() =~= s.to_multiset().remove(s[pos]));
}

proof fn lemma_word_codes_step(w: Seq<char>, i: int)
    requires
        0 <= i < w.len(),
    ensures
        word_codes(w.take(i + 1)).to_multiset() == word_codes(w.take(i)).to_multiset().insert(
            fold(w[i]),
        ),
{
    broadcast use vstd::seq_lib::group_to_multiset_ensures;

    assert(word_codes(w.take(i + 1)) =~= word_codes(w.take(i)).push(fold(w[i])));
}

proof fn lemma_prefix_sub_multiset(s: Seq<u32>, k: int)
    requires
        0 <= k <= s.len(),
    ensures
        s.take(k).to_multiset().subset_of(s.to_multiset()),
    decreases s.len(),
{
    broadcast use vstd::seq_lib::group_to_multiset_ensures;
    broadcast use vstd::multiset::group_multiset_axioms;

    if k == s.len() {
        assert(s.take(k) =~= s);
    } else {
        let d = s.drop_last();
        lemma_prefix_sub_multiset(d, k);
        assert(d.take(k) =~= s.take(k));
        assert(d.push(s.last()) =~= s);
    }
}

/// `rack` with its first tile that matches `c`, without regard to case,
/// taken out; the other tiles keep their order.
pub open spec fn without_first(rack: Seq<Letter>, c: char) -> Seq<Letter>
    decreases rack.len(),
{
    if rack.len() == 0 {
        rack
    } else if fold(rack[0].letter) == fold(c) {
        rack.drop_first()
    } else {
        seq![rack[0]] + without_first(rack.drop_first(), c)
    }
}

/// `rack` once the characters of `w`, in order, have each taken out the
/// first tile that still matches them.
pub open spec fn spend(rack: Seq<Letter>, w: Seq<char>) -> Seq<Letter>
    decreases w.len(),
{
    if w.len() == 0 {
        rack
    } else {
        without_first(spend(rack, w.drop_last()), w.last())
    }
}

proof fn lemma_without_first_at(rack: Seq<Letter>, c: char, p: int)
    requires
        0 <= p < rack.len(),
        fold(rack[p].letter) == fold(c),
        forall|k: int| 0 <= k < p ==> fold(#[trigger] rack[k].letter) != fold(c),
    ensures
        without_first(rack, c) == rack.remove(p),
    decreases p,
{
    if p == 0 {
        assert(rack.drop_first() =~= rack.remove(0));
    } else {
        let d = rack.drop_first();
        assert forall|k: int| 0 <= k < p - 1 implies fold(#[trigger] d[k].letter) != fold(c) by {
            assert(d[k] == rack[k + 1]);
        }
        assert(fold(rack[0].letter) != fold(c));
        lemma_without_first_at(d, c, p - 1);
        assert(seq![rack[0]] + d.remove(p - 1) =~= rack.remove(p));
    }
}

proof fn lemma_without_first_none(rack: Seq<Letter>, c: char)
    requires
        forall|k: int| 0 <= k < rack.len() ==> fold(#[trigger] rack[k].letter) != fold(c),
    ensures
        without_first(rack, c) == rack,
    decreases rack.len(),
{
    if rack.len() > 0 {
        let d = rack.drop_first();
        assert forall|k: int| 0 <= k < d.len() implies fold(#[trigger] d[k].letter) != fold(c) by {
            assert(d[k] == rack[k + 1]);
        }
        assert(fold(rack[0].letter) != fold(c));
        lemma_without_first_none(d, c);
        assert(seq![rack[0]] + d =~= rack);
    }
}

/// Whether the tiles of `letters` can spell `word`, each character, without
/// regard to case, using a tile of its own.
pub fn player_has_letters_for_word(letters: Vec<Letter>, word: &str) -> (r: bool)
    ensures
        r == can_spell(letters@, word@),
{
    broadcast use vstd::multiset::group_multiset_axioms;

    let mut letters_copy = letters.clone();
    let n = word.unicode_len();
    let mut i: usize = 0;
    assert(word_codes(word@.take(0)).to_multiset() =~= Multiset::empty()) by {
        broadcast use vstd::seq_lib::group_to_multiset_ensures;

        assert(word_codes(word@.take(0)) =~= Seq::<u32>::empty());
    }
    assert(rack_codes(letters_copy@).to_multiset() =~= leftover_codes(letters@, word@.take(0)));
    while i < n
        invariant
            n == word@.len(),
            i <= n,
            rack_codes(letters_copy@).to_multiset() == leftover_codes(letters@, word@.take(i as int)),
            word_codes(word@.take(i as int)).to_multiset().subset_of(
                rack_codes(letters@).to_multiset(),
            ),
        decreases n - i,
    {
        let c = word.get_char(i);
        let ghost before = word_codes(word@.take(i as int)).to_multiset();
        proof {
            lemma_word_codes_step(word@, i as int);
        }
        match position_of_code(&letters_copy, fold_code(c)) {
            Some(pos) => {
                proof {
                    broadcast use vstd::seq_lib::group_to_multiset_ensures;

                    assert(rack_codes(letters_copy@)[pos as int] == fold(c));
                    assert(rack_codes(letters_copy@).to_multiset().count(fold(c)) > 0);
                    lemma_codes_remove(letters_copy@, pos as int);
                }
                letters_copy.remove(pos);
                assert(rack_codes(letters_copy@).to_multiset() =~= leftover_codes(
                    letters@,
                    word@.take(i + 1),
                ));
            },
            None => {
                proof {
                    let x = fold(c);
                    let all = rack_codes(letters@).to_multiset();
                    assert(rack_codes(letters_copy@).to_multiset().count(x) == 0) by {
                        broadcast use vstd::seq_lib::group_to_multiset_ensures;
                    }
                    assert(word_codes(word@).take(i + 1) =~= word_codes(word@.take(i + 1)));
                    lemma_prefix_sub_multiset(word_codes(word@), i + 1);
                    assert(word_codes(word@).to_multiset().count(x) > all.count(x));
                }
                return false;
            },
        }
        i = i + 1;
    }
    assert(word@.take(n as int) =~= word@);
    true
}

/// The position of the first tile of `rack` whose folded code is `code`.
pub fn position_of_code(rack: &Vec<Letter>, code: u32) -> (r: Option<usize>)
    ensures
        r matches Some(p) ==> p < rack@.len() && fold(rack@[p as int].letter) == code && forall|
            k: int,
        |
            0 <= k < p ==> fold(#[trigger] rack@[k].letter) != code,
        r is None ==> !rack_codes(rack@).contains(code),
        r is None ==> forall|k: int| 0 <= k < rack@.len() ==> fold(#[trigger] rack@[k].letter) != code,
{
    let mut j: usize = 0;
    while j < rack.len()
        invariant
            j <= rack@.len(),
            forall|k: int| 0 <= k < j ==> fold(#[trigger] rack@[k].letter) != code,
        decreases rack@.len() - j,
    {
        if fold_code(rack[j].letter) == code {
            return Some(j);
        }
        j = j + 1;
    }
    assert forall|k: int| 0 <= k < rack_codes(rack@).len() implies rack_codes(rack@)[k] != code by {
        assert(fold(rack@[k].letter) != code);
    }
    None
}

/// The rack once one tile has been removed for each character of `word`, the
/// first tile that matches it without regard to case; a character with no
/// tile left removes nothing, and the remaining tiles keep their order.
pub fn remove_used_letters(letters: Vec<Letter>, word: String) -> (r: Vec<Letter>)
    ensures
        r@ == spend(letters@, word@),
        rack_codes(r@).to_multiset() == leftover_codes(letters@, word@),
        r@.to_multiset().subset_of(letters@.to_multiset()),
        r@.len() <= letters@.len(),
{
    broadcast use vstd::multiset::group_multiset_axioms;

    let mut result = letters.clone();
    let n = word.as_str().unicode_len();
    let mut i: usize = 0;
    assert(word_codes(word@.take(0)).to_multiset() =~= Multiset::empty()) by {
        broadcast use vstd::seq_lib::group_to_multiset_ensures;

        assert(word_codes(word@.take(0)) =~= Seq::<u32>::empty());
    }
    assert(rack_codes(result@).to_multiset() =~= leftover_codes(letters@, word@.take(0)));
    while i < n
        invariant
            n == word@.len(),
            i <= n,
            rack_codes(result@).to_multiset() == leftover_codes(letters@, word@.take(i as int)),
            result@.to_multiset().subset_of(letters@.to_multiset()),
            result@.len() <= letters@.len(),
            result@ == spend(letters@, word@.take(i as int)),
        decreases n - i,
    {
        let c = word.as_str().get_char(i);
        proof {
            lemma_word_codes_step(word@, i as int);
            assert(word@.take(i + 1).drop_last() =~= word@.take(i as int));
        }
        if let Some(pos) = position_of_code(&result, fold_code(c)) {
            proof {
                lemma_codes_remove(result@, pos as int);
                lemma_without_first_at(result@, c, pos as int);
            }
            result.remove(pos);
        } else {
            proof {
                lemma_without_first_none(result@, c);
            }
            assert(rack_codes(result@).to_multiset().count(fold(c)) == 0) by {
                broadcast use vstd::seq_lib::group_to_multiset_ensures;
            }
        }
        assert(rack_codes(result@).to_multiset() =~= leftover_codes(letters@, word@.take(i + 1)));
        i = i + 1;
    }
    assert(word@.take(n as int) =~= word@);
    result
}

/// Relies on rand's `SliceRandom::choose_multiple` with the thread-local
/// generator: `min(amount, pool.len())` tiles taken from distinct positions of
/// `pool`, in random order.
#[verifier::external_body]
fn choose_letters(pool: &Vec<Letter>, amount: usize) -> (r: Vec<Letter>)
    ensures
        r@.len() == if amount < pool@.len() {
            amount as int
        } else {
            pool@.len() as int
        },
        forall|i: int| 0 <= i < r@.len() ==> pool@.contains(#[trigger] r@[i]),
        pool@.no_duplicates() ==> r@.no_duplicates(),
{
    pool.choose_multiple(&mut rand::thread_rng(), amount).cloned().collect()
}

proof fn lemma_alphabet_distinct()
    ensures
        alphabet().no_duplicates(),
        alphabet().len() == ALPHABET_SIZE,
{
    assert(alphabet().len() == 26);
    assert forall|i: int, j: int|
        0 <= i < alphabet().len() && 0 <= j < alphabet().len() && i != j implies alphabet()[i]
        != alphabet()[j] by {
        assert(alphabet()[i].letter as u32 - 65 == i);
        assert(alphabet()[j].letter as u32 - 65 == j);
    }
}

/// `amount` letters drawn at random from the alphabet, no letter twice; all
/// of them where `amount` exceeds the alphabet's size.
pub fn get_random_letters(amount: usize) -> (r: Vec<Letter>)
    ensures
        r@.len() == if amount < ALPHABET_SIZE {
            amount
        } else {
            ALPHABET_SIZE
        },
        forall|i: int| 0 <= i < r@.len() ==> alphabet().contains(#[trigger] r@[i]),
        r@.no_duplicates(),
{
    let available_letters = get_available_letters();
    proof {
        lemma_alphabet_distinct();
    }
    choose_letters(&available_letters, amount)
}

/// `letters` with fresh letters drawn at the end until it holds `rack_size`
/// tiles (at most one alphabet's worth at a time).
pub fn draw_missing_letters(letters: Vec<Letter>, rack_size: usize) -> (r: Vec<Letter>)
    ensures
        r@.len() == letters@.len() + if letters@.len() >= rack_size {
            0
        } else if rack_size - letters@.len() < ALPHABET_SIZE {
            rack_size - letters@.len()
        } else {
            ALPHABET_SIZE as int
        },
        r@.subrange(0, letters@.len() as int) == letters@,
        forall|i: int|
            letters@.len() <= i < r@.len() ==> alphabet().contains(#[trigger] r@[i]),
{
    let mut result = letters;
    let ghost start = result@;
    if result.len() >= rack_size {
        assert(result@.subrange(0, start.len() as int) =~= start);
        return result;
    }
    let missing_letters = get_random_letters(rack_size - result.len());
    let mut k: usize = 0;
    while k < missing_letters.len()
        invariant
            result@.len() == start.len() + k,
            k <= missing_letters@.len(),
            result@.subrange(0, start.len() as int) == start,
            forall|i: int|
                0 <= i < k ==> result@[start.len() + i] == #[trigger] missing_letters@[i],
        decreases missing_letters@.len() - k,
    {
        result.push(missing_letters[k]);
        assert(result@.subrange(0, start.len() as int) =~= start);
        k = k + 1;
    }
    assert forall|i: int| start.len() <= i < result@.len() implies alphabet().contains(
        #[trigger] result@[i],
    ) by {
        assert(result@[start.len() + (i - start.len())] == missing_letters@[i - start.len()]);
    }
    result
}

proof fn lemma_points_follow_fold(table: Seq<Letter>, a: char, b: char)
    requires
        fold(a) == fold(b),
    ensures
        points_in(table, a) == points_in(table, b),
    decreases table.len(),
{
    if table.len() > 0 {
        lemma_points_follow_fold(table.drop_first(), a, b);
    }
}

proof fn lemma_points_only_for_letters(table: Seq<Letter>, c: char)
    requires
        forall|k: int| 0 <= k < table.len() ==> 97 <= #[trigger] fold(table[k].letter) <= 122,
        points_in(table, c) is Some,
    ensures
        is_ascii_letter(c),
    decreases table.len(),
{
    if fold(table[0].letter) != fold(c) {
        assert forall|k: int| 0 <= k < table.drop_first().len() implies 97 <= #[trigger] fold(
            table.drop_first()[k].letter,
        ) <= 122 by {
            assert(table.drop_first()[k] == table[k + 1]);
        }
        lemma_points_only_for_letters(table.drop_first(), c);
    }
}

/// Scoring ignores case: two words that agree letter for letter up to ASCII
/// case have the same score (a word and its upper-case form in particular).
pub proof fn lemma_score_ignores_case(w1: Seq<char>, w2: Seq<char>)
    requires
        w1.len() == w2.len(),
        forall|i: int| 0 <= i < w1.len() ==> fold(#[trigger] w1[i]) == fold(w2[i]),
    ensures
        word_points(w1) == word_points(w2),
        score(w1) == score(w2),
    decreases w1.len(),
{
    if w1.len() > 0 {
        let n = w1.len() - 1;
        assert(fold(w1[n]) == fold(w2[n]));
        lemma_points_follow_fold(alphabet(), w1.last(), w2.last());
        lemma_score_ignores_case(w1.drop_last(), w2.drop_last());
    }
}

/// A word holding a character that is not an ASCII letter scores exactly 0.
pub proof fn lemma_non_letter_scores_zero(w: Seq<char>, i: int)
    requires
        0 <= i < w.len(),
        !is_ascii_letter(w[i]),
    ensures
        score(w) == 0,
{
    assert forall|k: int| 0 <= k < alphabet().len() implies 97 <= #[trigger] fold(
        alphabet()[k].letter,
    ) <= 122 by {
        assert(alphabet()[k].letter as u32 - 65 == k);
    }
    if points_of(w[i]) is Some {
        lemma_points_only_for_letters(alphabet(), w[i]);
    }
    lemma_no_points_scores_zero(w, i);
}

proof fn lemma_rack_codes_follow_multiset(r1: Seq<Letter>, r2: Seq<Letter>)
    requires
        r1.to_multiset() == r2.to_multiset(),
    ensures
        rack_codes(r1).to_multiset() == rack_codes(r2).to_multiset(),
    decreases r1.len(),
{
    broadcast use vstd::seq_lib::group_to_multiset_ensures;
    broadcast use vstd::multiset::group_multiset_axioms;

    if r1.len() == 0 {
        assert(r1.to_multiset().len() == r1.len());
        assert(r2.to_multiset().len() == r2.len());
        assert(r2.len() == 0);
        assert(rack_codes(r1) =~= Seq::<u32>::empty());
        assert(rack_codes(r2) =~= Seq::<u32>::empty());
    } else {
        let x = r1.last();
        let d1 = r1.drop_last();
        assert(d1.push(x) =~= r1);
        assert(r1.to_multiset().count(x) > 0);
        assert(r2.contains(x));
        let k = choose|k: int| 0 <= k < r2.len() && r2[k] == x;
        let d2 = r2.remove(k);
        assert(d1.to_multiset() =~= d2.to_multiset());
        lemma_rack_codes_follow_multiset(d1, d2);
        assert(rack_codes(d1).push(fold(x.letter)) =~= rack_codes(r1));
        lemma_codes_remove(r2, k);
        let c2 = rack_codes(r2).to_multiset();
        assert(rack_codes(r2)[k] == fold(x.letter));
        assert(c2.count(fold(x.letter)) > 0);
        assert(c2.remove(fold(x.letter)).insert(fold(x.letter)) =~= c2);
    }
}

/// Whether a rack can spell a word ignores the order of the rack's tiles and
/// the ASCII case of the word's letters.
pub proof fn lemma_can_spell_ignores_case_and_order(
    r1: Seq<Letter>,
    r2: Seq<Letter>,
    w1: Seq<char>,
    w2: Seq<char>,
)
    requires
        r1.to_multiset() == r2.to_multiset(),
        w1.len() == w2.len(),
        forall|i: int| 0 <= i < w1.len() ==> fold(#[trigger] w1[i]) == fold(w2[i]),
    ensures
        can_spell(r1, w1) == can_spell(r2, w2),
{
    lemma_rack_codes_follow_multiset(r1, r2);
    assert(word_codes(w1) =~= word_codes(w2));
}

} // verus!
