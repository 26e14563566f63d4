//! Content metrics: pure measurements of a text in fixed-point millionths.

use vstd::prelude::*;
use vstd::string::*;
use vstd::std_specs::iter::IteratorSpec;
use crate::fixed::UNIT;

verus! {

/// The characters of a text, in order.
pub fn chars_of(content: &str) -> (chars: Vec<char>)
    ensures
        chars@ == content@,
{
    broadcast use vstd::string::group_string_axioms;

    let mut it = content.chars();
    let mut chars: Vec<char> = Vec::new();
    loop
        invariant
            chars@ + it.remaining() == content@,
            it.decrease() is Some,
        ensures
            chars@ == content@,
        decreases it.decrease()->0,
    {
        let ghost before = it.remaining();
        match it.next() {
            Some(c) => {
                chars.push(c);
                assert(chars@ + it.remaining() =~= content@) by {
                    assert(before =~= seq![c] + it.remaining());
                }
            },
            None => {
                assert(chars@ =~= chars@ + it.remaining());
                break ;
            },
        }
    }
    chars
}

/// The length factor of a text of `len` bytes: a hundredth per byte, at most one.
pub open spec fn length_factor_spec(len: int) -> int {
    if len >= 100 {
        UNIT as int
    } else {
        len * 10_000
    }
}

/// How much of a hundred bytes the content fills, saturating at one.
pub fn length_factor(content: &str) -> (factor: u64)
    ensures
        factor as int == length_factor_spec(content.spec_bytes().len() as int),
        factor <= UNIT,
        content@.len() == 0 ==> factor == 0,
{
    let len: usize = content.as_bytes().len();
    proof {
        if content@.len() == 0 {
            assert(content.spec_bytes().len() == 0);
        }
    }
    if len >= 100 {
        UNIT
    } else {
        (len as u64) * 10_000
    }
}

/// How often `c` occurs in `s`.
pub open spec fn occurrences(s: Seq<char>, c: char) -> nat
    decreases s.len(),
{
    if s.len() == 0 {
        0
    } else {
        occurrences(s.drop_last(), c) + if s.last() == c {
            1nat
        } else {
            0nat
        }
    }
}

/// The distinct characters of `s`, each at the place of its first occurrence.
pub open spec fn first_occurrences(s: Seq<char>) -> Seq<char>
    decreases s.len(),
{
    if s.len() == 0 {
        Seq::<char>::empty()
    } else {
        let earlier = first_occurrences(s.drop_last());
        if earlier.contains(s.last()) {
            earlier
        } else {
            earlier.push(s.last())
        }
    }
}

/// No character occurs more often than the text is long.
pub proof fn lemma_occurrences_bound(s: Seq<char>, c: char)
    ensures
        occurrences(s, c) <= s.len(),
    decreases s.len(),
{
    if s.len() > 0 {
        lemma_occurrences_bound(s.drop_last(), c);
    }
}

/// The first occurrences list exactly the characters of the text, each once.
pub proof fn lemma_first_occurrences(s: Seq<char>)
    ensures
        first_occurrences(s).no_duplicates(),
        first_occurrences(s).len() <= s.len(),
        forall|c: char| first_occurrences(s).contains(c) <==> s.contains(c),
        first_occurrences(s).len() == s.to_set().len(),
    decreases s.len(),
{
    let found = first_occurrences(s);
    if s.len() > 0 {
        let head = s.drop_last();
        let earlier = first_occurrences(head);
        lemma_first_occurrences(head);
        assert forall|c: char| found.contains(c) <==> s.contains(c) by {
            if s.contains(c) {
                let i = choose|i: int| 0 <= i < s.len() && s[i] == c;
                if i < s.len() - 1 {
                    assert(head[i] == c);
                    assert(head.contains(c));
                    assert(earlier.contains(c));
                    let j = choose|j: int| 0 <= j < earlier.len() && earlier[j] == c;
                    assert(found[j] == c);
                } else {
                    assert(c == s.last());
                    if !earlier.contains(c) {
                        assert(found[found.len() - 1] == c);
                    }
                }
            }
            if found.contains(c) {
                let j = choose|j: int| 0 <= j < found.len() && found[j] == c;
                if j < earlier.len() {
                    assert(earlier[j] == c);
                    assert(earlier.contains(c));
                    assert(head.contains(c));
                    let i = choose|i: int| 0 <= i < head.len() && head[i] == c;
                    assert(s[i] == c);
                } else {
                    assert(s[s.len() - 1] == c);
                }
            }
        }
    }
    assert(found.to_set() =~= s.to_set());
    found.unique_seq_to_set();
}

/// One character of a text and the number of its occurrences.
#[derive(Debug, Clone, Copy, PartialEq, Eq, Structural)]
pub struct CharCount {
    /// The character.
    pub ch: char,
    /// How often it occurs.
    pub count: usize,
}

/// Whether `table` lists the distinct characters of `s` in order of first
/// occurrence, each with the number of its occurrences.
pub open spec fn is_frequency_table(table: Seq<CharCount>, s: Seq<char>) -> bool {
    &&& table.len() == first_occurrences(s).len()
    &&& forall|i: int|
        0 <= i < table.len() ==> (#[trigger] table[i]).ch == first_occurrences(s)[i]
            && table[i].count == occurrences(s, table[i].ch)
}

/// The character at one position of a sequence.
fn char_at(chars: &Vec<char>, i: usize) -> (c: char)
    requires
        i < chars@.len(),
    ensures
        c == chars@[i as int],
{
    chars[i]
}

/// Count the occurrences of every distinct character of a sequence.
pub fn frequency_table(chars: &Vec<char>) -> (table: Vec<CharCount>)
    ensures
        is_frequency_table(table@, chars@),
        table@.len() == chars@.to_set().len(),
        table@.len() <= chars@.len(),
{
    let mut table: Vec<CharCount> = Vec::new();
    let mut i: usize = 0;
    while i < chars.len()
        invariant
            i <= chars.len(),
            is_frequency_table(table@, chars@.take(i as int)),
        decreases chars.len() - i,
    {
        let c: char = char_at(chars, i);
        let ghost prefix = chars@.take(i as int);
        let ghost next = chars@.take(i + 1);
        proof {
            assert(next.drop_last() =~= prefix);
            assert(next.last() == c);
        }
        let mut j: usize = 0;
        let mut found: bool = false;
        while j < table.len()
            invariant_except_break
                !found,
            invariant
                j <= table.len(),
                forall|k: int| 0 <= k < j ==> table@[k].ch != c,
            ensures
                found ==> j < table.len() && table@[j as int].ch == c,
                !found ==> forall|k: int| 0 <= k < table.len() ==> table@[k].ch != c,
            decreases table.len() - j,
        {
            if table[j].ch == c {
                found = true;
                break ;
            }
            j += 1;
        }
        if found {
            let entry: CharCount = table[j];
            proof {
                lemma_occurrences_bound(prefix, c);
                assert(first_occurrences(prefix)[j as int] == c);
                assert(first_occurrences(prefix).contains(c));
            }
            let ghost before = table@;
            table.set(j, CharCount { ch: c, count: entry.count + 1 });
            proof {
                let after = table@;
                let firsts = first_occurrences(prefix);
                lemma_first_occurrences(prefix);
                assert(first_occurrences(next) == firsts);
                assert forall|k: int| 0 <= k < after.len() implies (#[trigger] after[k]).ch
                    == firsts[k] && after[k].count == occurrences(next, after[k].ch) by {
                    if k != j {
                        assert(after[k] == before[k]);
                        assert(firsts[k] != firsts[j as int]);
                    }
                }
            }
        } else {
            proof {
                assert(!first_occurrences(prefix).contains(c)) by {
                    if first_occurrences(prefix).contains(c) {
                        let k = choose|k: int|
                            0 <= k < first_occurrences(prefix).len() && first_occurrences(
                                prefix,
                            )[k] == c;
                        assert(table@[k].ch == c);
                    }
                }
                lemma_first_occurrences(prefix);
                assert(!prefix.contains(c));
                lemma_absent_never_occurs(prefix, c);
            }
            let ghost before = table@;
            table.push(CharCount { ch: c, count: 1 });
            proof {
                let after = table@;
                let firsts = first_occurrences(prefix);
                assert(first_occurrences(next) == firsts.push(c));
                assert forall|k: int| 0 <= k < after.len() implies (#[trigger] after[k]).ch
                    == firsts.push(c)[k] && after[k].count == occurrences(next, after[k].ch) by {
                    if k < before.len() {
                        assert(after[k] == before[k]);
                        assert(firsts[k] != c);
                    }
                }
            }
        }
        i += 1;
    }
    proof {
        assert(chars@.take(i as int) =~= chars@);
        lemma_first_occurrences(chars@);
    }
    table
}

/// A character that a text does not contain occurs in it zero times.
pub proof fn lemma_absent_never_occurs(s: Seq<char>, c: char)
    requires
        !s.contains(c),
    ensures
        occurrences(s, c) == 0,
    decreases s.len(),
{
    if s.len() > 0 {
        assert(s[s.len() - 1] != c);
        assert forall|i: int| 0 <= i < s.drop_last().len() implies s.drop_last()[i] != c by {
            assert(s[i] != c);
        }
        lemma_absent_never_occurs(s.drop_last(), c);
    }
}

/// The sum of the counts of a table.
pub open spec fn count_total(table: Seq<CharCount>) -> nat
    decreases table.len(),
{
    if table.len() == 0 {
        0
    } else {
        count_total(table.drop_last()) + table.last().count as nat
    }
}

/// The occurrences in `s` of the characters of `chars`, added up.
pub open spec fn occurrences_total(s: Seq<char>, chars: Seq<char>) -> nat
    decreases chars.len(),
{
    if chars.len() == 0 {
        0
    } else {
        occurrences_total(s, chars.drop_last()) + occurrences(s, chars.last())
    }
}

/// Appending `x` to a text adds one to the occurrences of a list of
/// distinct characters that holds `x`, and nothing to those of a list that
/// does not.
proof fn lemma_occurrences_total_step(s: Seq<char>, x: char, chars: Seq<char>)
    requires
        chars.no_duplicates(),
    ensures
        occurrences_total(s.push(x), chars) == occurrences_total(s, chars) + if chars.contains(x) {
            1nat
        } else {
            0nat
        },
    decreases chars.len(),
{
    assert(s.push(x).drop_last() =~= s);
    if chars.len() > 0 {
        let head = chars.drop_last();
        let last = chars.last();
        assert forall|i: int, j: int| 0 <= i < j < head.len() implies head[i] != head[j] by {
            assert(chars[i] != chars[j]);
        }
        lemma_occurrences_total_step(s, x, head);
        if head.contains(x) {
            let at = choose|i: int| 0 <= i < head.len() && head[i] == x;
            assert(chars[at] == x);
            assert(chars[chars.len() - 1] != chars[at]);
            assert(chars.contains(x));
        } else if last == x {
            assert(chars[chars.len() - 1] == x);
            assert(chars.contains(x));
        } else {
            if chars.contains(x) {
                let at = choose|i: int| 0 <= i < chars.len() && chars[i] == x;
                assert(head[at] == x);
            }
        }
    }
}

/// The occurrences of the distinct characters of a text add up to its
/// length.
pub proof fn lemma_occurrences_cover(s: Seq<char>)
    ensures
        occurrences_total(s, first_occurrences(s)) == s.len(),
    decreases s.len(),
{
    if s.len() > 0 {
        let head = s.drop_last();
        let x = s.last();
        let earlier = first_occurrences(head);
        lemma_occurrences_cover(head);
        lemma_first_occurrences(head);
        assert(head.push(x) =~= s);
        lemma_occurrences_total_step(head, x, earlier);
        if !earlier.contains(x) {
            assert(earlier.push(x).drop_last() =~= earlier);
            assert(!head.contains(x));
            lemma_absent_never_occurs(head, x);
        }
    }
}

/// The counts of a frequency table add up to the length of the text.
pub proof fn lemma_counts_cover(table: Seq<CharCount>, s: Seq<char>)
    requires
        is_frequency_table(table, s),
    ensures
        count_total(table) == s.len(),
{
    lemma_occurrences_cover(s);
    lemma_counts_are_occurrences(table, s, first_occurrences(s));
}

/// A table that counts the occurrences of a list of characters adds up to
/// their occurrences.
proof fn lemma_counts_are_occurrences(table: Seq<CharCount>, s: Seq<char>, chars: Seq<char>)
    requires
        table.len() == chars.len(),
        forall|i: int|
            0 <= i < table.len() ==> (#[trigger] table[i]).ch == chars[i] && table[i].count
                == occurrences(s, chars[i]),
    ensures
        count_total(table) == occurrences_total(s, chars),
    decreases table.len(),
{
    if table.len() > 0 {
        let last = table.len() - 1;
        assert(table[last].count == occurrences(s, chars[last]));
        assert forall|i: int| 0 <= i < table.drop_last().len() implies (
        #[trigger] table.drop_last()[i]).ch == chars.drop_last()[i] && table.drop_last()[i].count
            == occurrences(s, chars.drop_last()[i]) by {
            assert(table[i].ch == chars[i]);
        }
        lemma_counts_are_occurrences(table.drop_last(), s, chars.drop_last());
    }
}

/// The distinct characters of a text with their frequencies, in order of
/// first occurrence: what an entropy estimate is computed from.
pub fn char_frequencies(content: &str) -> (table: Vec<CharCount>)
    ensures
        is_frequency_table(table@, content@),
        table@.len() == content@.to_set().len(),
        count_total(table@) == content@.len(),
        content@.len() == 0 ==> table@.len() == 0,
{
    let chars = chars_of(content);
    let table = frequency_table(&chars);
    proof {
        lemma_counts_cover(table@, content@);
    }
    table
}

/// The share of distinct characters among all characters, in millionths.
pub open spec fn complexity_factor_spec(s: Seq<char>) -> int {
    if s.len() == 0 {
        0
    } else {
        (s.to_set().len() * UNIT) / (s.len() as int)
    }
}

/// The length factor and the complexity factor of every content lie in
/// the unit interval, and both are zero for an empty content.
pub proof fn lemma_factors_are_unit_scores(content: &str)
    ensures
        0 <= length_factor_spec(content.spec_bytes().len() as int) <= UNIT,
        0 <= complexity_factor_spec(content@) <= UNIT,
        content@.len() == 0 ==> length_factor_spec(content.spec_bytes().len() as int) == 0
            && complexity_factor_spec(content@) == 0,
{
    let chars = content@;
    if chars.len() == 0 {
        assert(content.spec_bytes().len() == 0);
    } else {
        lemma_first_occurrences(chars);
        let distinct = chars.to_set().len() as int;
        let total = chars.len() as int;
        assert(0 <= (distinct * UNIT) / total <= UNIT) by (nonlinear_arith)
            requires
                0 <= distinct <= total,
                total > 0,
                UNIT == 1_000_000,
        ;
    }
}

/// Character diversity: distinct characters over all characters, zero for
/// an empty text.
pub fn complexity_factor(content: &str) -> (factor: u64)
    ensures
        factor as int == complexity_factor_spec(content@),
        factor <= UNIT,
        content@.len() == 0 ==> factor == 0,
{
    let chars = chars_of(content);
    let total: usize = chars.len();
    if total == 0 {
        return 0;
    }
    let table = frequency_table(&chars);
    let distinct: usize = table.len();
    let scaled: u128 = (distinct as u128) * (UNIT as u128);
    let share: u128 = scaled / (total as u128);
    assert(share <= UNIT) by (nonlinear_arith)
        requires
            share == (distinct * UNIT) / (total as int),
            0 <= distinct <= total,
            total > 0,
            UNIT == 1_000_000,
    ;
    share as u64
}

} // verus!
