//! The high-score list as it is kept on disk: decimal numbers separated by
//! commas, best first.
use vstd::prelude::*;

verus! {

/// How many scores the list keeps.
pub const HIGH_SCORES: usize = 10;

/// The byte between two fields.
pub const COMMA: u8 = 44;

/// The sign a number may start with.
pub const PLUS: u8 = 43;

/// The fields of `text`: the runs of bytes between commas, read from left to
/// right. Text without a comma is one field; empty text one empty field.
pub open spec fn fields_of(text: Seq<u8>) -> Seq<Seq<u8>>
    decreases text.len(),
{
    if text.len() == 0 {
        seq![Seq::empty()]
    } else {
        let before = fields_of(text.drop_last());
        if text.last() == COMMA {
            before.push(Seq::empty())
        } else {
            before.update(before.len() - 1, before.last().push(text.last()))
        }
    }
}

/// The contents of a list of byte vectors.
pub open spec fn contents(v: Seq<Vec<u8>>) -> Seq<Seq<u8>> {
    v.map_values(|f: Vec<u8>| f@)
}

/// Whether `b` is an ASCII decimal digit.
pub open spec fn is_digit(b: u8) -> bool {
    48 <= b <= 57
}

/// The number that the decimal digits `s` write, most significant first.
pub open spec fn digits_value(s: Seq<u8>) -> nat
    decreases s.len(),
{
    if s.len() == 0 {
        0
    } else {
        digits_value(s.drop_last()) * 10 + (s.last() - 48) as nat
    }
}

/// `s` without the plus sign it may start with.
pub open spec fn unsigned_part(s: Seq<u8>) -> Seq<u8> {
    if s.len() > 0 && s[0] == PLUS {
        s.drop_first()
    } else {
        s
    }
}

/// Whether `s` writes an unsigned machine integer as `usize::from_str`
/// accepts it: an optional plus sign, then at least one digit and nothing
/// else, with a value that fits.
pub open spec fn is_number(s: Seq<u8>) -> bool {
    let d = unsigned_part(s);
    &&& d.len() > 0
    &&& forall|i: int| 0 <= i < d.len() ==> is_digit(#[trigger] d[i])
    &&& digits_value(d) <= usize::MAX
}

/// The score a field records: its number, or zero where it holds none.
pub open spec fn score_value(s: Seq<u8>) -> nat {
    if is_number(s) {
        digits_value(unsigned_part(s))
    } else {
        0
    }
}

/// The scores a saved list records: none for empty text, else one for
/// each field.
pub open spec fn saved_scores(text: Seq<u8>) -> Seq<usize> {
    if text.len() == 0 {
        Seq::empty()
    } else {
        fields_of(text).map_values(|f: Seq<u8>| score_value(f) as usize)
    }
}

/// Whether each score of `s` is at least as high as those after it.
pub open spec fn non_increasing(s: Seq<usize>) -> bool {
    forall|i: int, j: int| 0 <= i < j < s.len() ==> s[i] >= s[j]
}

/// Whether `best` is the `count` highest scores of `all`, highest first
/// (all of them where there are fewer).
pub open spec fn leading(all: Seq<usize>, count: nat, best: Seq<usize>) -> bool {
    exists|sorted: Seq<usize>|
        #[trigger] non_increasing(sorted) && sorted.to_multiset() == all.to_multiset() && best
            == sorted.take(if count < all.len() {
            count as int
        } else {
            all.len() as int
        })
}

/// The decimal digits of `n`, most significant first, without leading zeros.
pub open spec fn decimal(n: nat) -> Seq<u8>
    decreases n,
{
    if n < 10 {
        seq![(48 + n) as u8]
    } else {
        decimal(n / 10).push((48 + n % 10) as u8)
    }
}

/// `fields` with a comma between each two.
pub open spec fn joined(fields: Seq<Seq<u8>>) -> Seq<u8>
    decreases fields.len(),
{
    if fields.len() == 0 {
        Seq::empty()
    } else if fields.len() == 1 {
        fields[0]
    } else {
        joined(fields.drop_last()) + seq![COMMA] + fields.last()
    }
}

/// The saved form of a list of scores.
pub open spec fn encoded(scores: Seq<usize>) -> Seq<u8> {
    joined(scores.map_values(|n: usize| decimal(n as nat)))
}

/// Splits `text` at each comma.
pub fn split_fields(text: &[u8]) -> (r: Vec<Vec<u8>>)
    ensures
        contents(r@) == fields_of(text@),
{
    let mut out: Vec<Vec<u8>> = Vec::new();
    let mut current: Vec<u8> = Vec::new();
    let mut i: usize = 0;
    while i < text.len()
        invariant
            0 <= i <= text@.len(),
            contents(out@).push(current@) == fields_of(text@.take(i as int)),
        decreases text.len() - i,
    {
        let ghost before = contents(out@).push(current@);
        assert(text@.take(i + 1).drop_last() =~= text@.take(i as int));
        if text[i] == COMMA {
            out.push(current);
            current = Vec::new();
            assert(contents(out@).push(current@) =~= before.push(Seq::empty()));
        } else {
            current.push(text[i]);
            assert(contents(out@).push(current@) =~= before.update(
                before.len() - 1,
                before.last().push(text@[i as int]),
            ));
        }
        i = i + 1;
    }
    assert(text@.take(text@.len() as int) =~= text@);
    out.push(current);
    assert(contents(out@) =~= fields_of(text@));
    out
}

/// A prefix of a run of digits writes no more than the whole run.
proof fn lemma_prefix_value_le(s: Seq<u8>, k: int)
    requires
        0 <= k <= s.len(),
        forall|i: int| 0 <= i < s.len() ==> is_digit(#[trigger] s[i]),
    ensures
        digits_value(s.take(k)) <= digits_value(s),
    decreases s.len(),
{
    if k < s.len() {
        assert(s.drop_last().take(k) =~= s.take(k));
        lemma_prefix_value_le(s.drop_last(), k);
    } else {
        assert(s.take(k) =~= s);
    }
}

/// The score a field records: the number it writes as `usize::from_str`
/// reads it, or zero where it writes none.
pub fn parse_score(field: &[u8]) -> (r: usize)
    ensures
        r == score_value(field@),
{
    let mut start: usize = 0;
    if field.len() > 0 && field[0] == PLUS {
        start = 1;
    }
    let ghost d = field@.subrange(start as int, field@.len() as int);
    assert(d =~= unsigned_part(field@));
    if start == field.len() {
        return 0;
    }
    let mut value: usize = 0;
    let mut i: usize = start;
    while i < field.len()
        invariant
            start <= i <= field@.len(),
            d == field@.subrange(start as int, field@.len() as int),
            d == unsigned_part(field@),
            value == digits_value(d.take(i - start)),
            forall|j: int| 0 <= j < i - start ==> is_digit(#[trigger] d[j]),
        decreases field.len() - i,
    {
        let b = field[i];
        assert(d.take(i - start + 1).drop_last() =~= d.take(i - start));
        if !(48 <= b && b <= 57) {
            assert(!is_digit(d[i - start]));
            return 0;
        }
        let digit = (b - 48) as usize;
        match value.checked_mul(10) {
            None => {
                proof {
                    if forall|j: int| 0 <= j < d.len() ==> is_digit(#[trigger] d[j]) {
                        lemma_prefix_value_le(d, i - start + 1);
                    }
                }
                return 0;
            },
            Some(tens) => match tens.checked_add(digit) {
                None => {
                    proof {
                        if forall|j: int| 0 <= j < d.len() ==> is_digit(#[trigger] d[j]) {
                            lemma_prefix_value_le(d, i - start + 1);
                        }
                    }
                    return 0;
                },
                Some(next) => {
                    value = next;
                },
            },
        }
        i = i + 1;
    }
    assert(d.take(i - start) =~= d);
    value
}

/// The scores a saved list records, one for each field; a field that
/// writes no number counts as zero. Empty text records none.
pub fn parse_scores(text: &[u8]) -> (r: Vec<usize>)
    ensures
        r@ == saved_scores(text@),
{
    if text.len() == 0 {
        return Vec::new();
    }
    let fields = split_fields(text);
    let ghost expected = saved_scores(text@);
    let mut out: Vec<usize> = Vec::new();
    let mut i: usize = 0;
    while i < fields.len()
        invariant
            0 <= i <= fields@.len(),
            text@.len() > 0,
            contents(fields@) == fields_of(text@),
            expected == saved_scores(text@),
            out@ == expected.take(i as int),
        decreases fields.len() - i,
    {
        let score = parse_score(fields[i].as_slice());
        out.push(score);
        assert(out@ =~= expected.take(i + 1));
        i = i + 1;
    }
    assert(out@ =~= expected);
    out
}

/// The `count` highest of `scores`, highest first.
pub fn best_scores(scores: &Vec<usize>, count: usize) -> (r: Vec<usize>)
    ensures
        leading(scores@, count as nat, r@),
{
    let mut sorted: Vec<usize> = Vec::new();
    let mut i: usize = 0;
    assert(scores@.take(0) =~= sorted@);
    while i < scores.len()
        invariant
            0 <= i <= scores@.len(),
            non_increasing(sorted@),
            sorted@.to_multiset() == scores@.take(i as int).to_multiset(),
        decreases scores.len() - i,
    {
        let x = scores[i];
        let mut j: usize = 0;
        while j < sorted.len() && sorted[j] >= x
            invariant
                0 <= j <= sorted@.len(),
                forall|k: int| 0 <= k < j ==> sorted@[k] >= x,
            decreases sorted.len() - j,
        {
            j = j + 1;
        }
        let ghost before = sorted@;
        sorted.insert(j, x);
        assert(non_increasing(sorted@)) by {
            assert forall|a: int, b: int| 0 <= a < b < sorted@.len() implies sorted@[a]
                >= sorted@[b] by {
                if b < j {
                } else if b == j {
                } else if a < j {
                    assert(sorted@[b] == before[b - 1]);
                    assert(before[j as int] < x);
                } else if a == j {
                    assert(before[j as int] < x);
                } else {
                }
            }
        }
        assert(scores@.take(i + 1) =~= scores@.take(i as int).push(x));
        proof {
            vstd::seq_lib::to_multiset_insert(before, j as int, x);
            vstd::seq_lib::to_multiset_build(scores@.take(i as int), x);
        }
        i = i + 1;
    }
    assert(scores@.take(scores@.len() as int) =~= scores@);
    let ghost full = sorted@;
    sorted.truncate(count);
    assert(sorted@ =~= full.take(if (count as nat) < scores@.len() {
        count as int
    } else {
        scores@.len() as int
    })) by {
        assert(full.len() == scores@.len()) by {
            full.to_multiset_ensures();
            scores@.to_multiset_ensures();
        }
    }
    sorted
}

/// Appends the decimal digits of `n` to `out`.
fn push_decimal(out: &mut Vec<u8>, n: usize)
    ensures
        final(out)@ == old(out)@ + decimal(n as nat),
    decreases n,
{
    if n >= 10 {
        push_decimal(out, n / 10);
    }
    out.push(48 + (n % 10) as u8);
    assert(final(out)@ =~= old(out)@ + decimal(n as nat));
}

/// The saved form of `scores`: each in decimal, with commas between.
pub fn encode_scores(scores: &Vec<usize>) -> (r: Vec<u8>)
    ensures
        r@ == encoded(scores@),
{
    let ghost digits = scores@.map_values(|n: usize| decimal(n as nat));
    let mut out: Vec<u8> = Vec::new();
    let mut i: usize = 0;
    while i < scores.len()
        invariant
            0 <= i <= scores@.len(),
            digits == scores@.map_values(|n: usize| decimal(n as nat)),
            out@ == joined(digits.take(i as int)),
        decreases scores.len() - i,
    {
        assert(digits.take(i + 1).drop_last() =~= digits.take(i as int));
        if i > 0 {
            out.push(COMMA);
        }
        push_decimal(&mut out, scores[i]);
        assert(out@ =~= joined(digits.take(i + 1)));
        i = i + 1;
    }
    assert(digits.take(scores@.len() as int) =~= digits);
    out
}

/// The saved list once `score` is recorded in `saved`: the best
/// [`HIGH_SCORES`] of the old scores and the new one, highest first.
pub fn record_score(saved: &[u8], score: usize) -> (r: Vec<u8>)
    ensures
        exists|best: Seq<usize>|
            #[trigger] leading(saved_scores(saved@).push(score), HIGH_SCORES as nat, best) && r@
                == encoded(best),
{
    let mut scores = parse_scores(saved);
    scores.push(score);
    let best = best_scores(&scores, HIGH_SCORES);
    let r = encode_scores(&best);
    assert(leading(saved_scores(saved@).push(score), HIGH_SCORES as nat, best@));
    r
}

/// The decimal form of a number is a run of digits that writes it.
proof fn lemma_decimal_digits(n: nat)
    ensures
        decimal(n).len() > 0,
        forall|i: int| 0 <= i < decimal(n).len() ==> is_digit(#[trigger] decimal(n)[i]),
        digits_value(decimal(n)) == n,
    decreases n,
{
    if n >= 10 {
        lemma_decimal_digits(n / 10);
        assert(decimal(n).drop_last() =~= decimal(n / 10));
        assert(decimal(n).last() - 48 == n % 10);
        assert((n / 10) * 10 + n % 10 == n) by (nonlinear_arith);
        assert(digits_value(decimal(n)) == digits_value(decimal(n / 10)) * 10 + n % 10);
        assert(digits_value(decimal(n / 10)) * 10 == (n / 10) * 10);
    } else {
        assert(decimal(n).drop_last() =~= Seq::<u8>::empty());
        assert(decimal(n).last() - 48 == n);
        assert(digits_value(Seq::<u8>::empty()) == 0);
    }
}

/// A comma at the end of the text opens an empty field.
proof fn lemma_fields_after_comma(text: Seq<u8>)
    ensures
        fields_of(text + seq![COMMA]) == fields_of(text).push(Seq::empty()),
{
    assert((text + seq![COMMA]).drop_last() =~= text);
}

/// Text without a comma extends the last field.
proof fn lemma_fields_extend(text: Seq<u8>, more: Seq<u8>)
    requires
        forall|i: int| 0 <= i < more.len() ==> more[i] != COMMA,
    ensures
        fields_of(text).len() > 0,
        fields_of(text + more) == fields_of(text).update(
            fields_of(text).len() - 1,
            fields_of(text).last() + more,
        ),
    decreases more.len(),
{
    lemma_fields_nonempty(text);
    if more.len() == 0 {
        assert(text + more =~= text);
        assert(fields_of(text).last() + more =~= fields_of(text).last());
        assert(fields_of(text).update(fields_of(text).len() - 1, fields_of(text).last())
            =~= fields_of(text));
    } else {
        let front = more.drop_last();
        lemma_fields_extend(text, front);
        assert((text + more).drop_last() =~= text + front);
        assert((text + more).last() == more.last());
        let before = fields_of(text + front);
        assert(before.last() == fields_of(text).last() + front);
        assert(before.last().push(more.last()) =~= fields_of(text).last() + more);
        assert(fields_of(text + more) =~= fields_of(text).update(
            fields_of(text).len() - 1,
            fields_of(text).last() + more,
        ));
    }
}

/// Text always has at least one field.
proof fn lemma_fields_nonempty(text: Seq<u8>)
    ensures
        fields_of(text).len() > 0,
    decreases text.len(),
{
    if text.len() > 0 {
        lemma_fields_nonempty(text.drop_last());
    }
}

/// Fields without commas, joined by commas, split back into themselves.
proof fn lemma_fields_of_joined(fields: Seq<Seq<u8>>)
    requires
        fields.len() > 0,
        forall|k: int, i: int|
            0 <= k < fields.len() && 0 <= i < fields[k].len() ==> #[trigger] fields[k][i] != COMMA,
    ensures
        fields_of(joined(fields)) == fields,
    decreases fields.len(),
{
    let last = fields.last();
    assert(forall|i: int| 0 <= i < last.len() ==> last[i] != COMMA) by {
        assert forall|i: int| 0 <= i < last.len() implies last[i] != COMMA by {
            assert(fields[fields.len() - 1][i] != COMMA);
        }
    }
    if fields.len() == 1 {
        lemma_fields_extend(Seq::empty(), last);
        assert(Seq::<u8>::empty() + last =~= last);
        assert(fields_of(Seq::<u8>::empty()).last() + last =~= last);
        assert(fields_of(last) =~= fields);
    } else {
        let front = fields.drop_last();
        assert forall|k: int, i: int| 0 <= k < front.len() && 0 <= i < front[k].len() implies #[trigger] front[k][i] != COMMA by {
            assert(front[k] == fields[k]);
        }
        lemma_fields_of_joined(front);
        let head = joined(front) + seq![COMMA];
        lemma_fields_after_comma(joined(front));
        lemma_fields_extend(head, last);
        assert(joined(fields) == head + last);
        assert(Seq::<u8>::empty() + last =~= last);
        assert(fields_of(joined(fields)) =~= fields);
    }
}

/// A saved list reads back as the scores it was written from.
pub proof fn lemma_encoded_reads_back(scores: Seq<usize>)
    requires
        scores.len() > 0,
    ensures
        saved_scores(encoded(scores)) == scores,
{
    let digits = scores.map_values(|n: usize| decimal(n as nat));
    assert forall|k: int| 0 <= k < digits.len() implies {
        &&& is_number(#[trigger] digits[k])
        &&& score_value(digits[k]) == scores[k]
        &&& forall|i: int| 0 <= i < digits[k].len() ==> digits[k][i] != COMMA
    } by {
        lemma_decimal_digits(scores[k] as nat);
        assert(is_digit(digits[k][0]));
        assert(unsigned_part(digits[k]) == digits[k]);
    }
    assert forall|k: int, i: int| 0 <= k < digits.len() && 0 <= i < digits[k].len() implies #[trigger] digits[k][i] != COMMA by {
    }
    lemma_fields_of_joined(digits);
    lemma_decimal_digits(scores[0] as nat);
    lemma_joined_nonempty(digits);
    assert(saved_scores(encoded(scores)) =~= scores);
}

/// Joined fields are not empty where the first is not.
proof fn lemma_joined_nonempty(fields: Seq<Seq<u8>>)
    requires
        fields.len() > 0,
        fields[0].len() > 0,
    ensures
        joined(fields).len() > 0,
    decreases fields.len(),
{
    if fields.len() > 1 {
        lemma_joined_nonempty(fields.drop_last());
    }
}

} // verus!
