//! Batches of records: for each issuer pattern a run of lines, each of them
//! a card number, an expiry month and year and a verification code,
//! separated by `|`.

use vstd::prelude::*;
use vstd::string::{StrSliceExecFns, StringExecFns};
use crate::card::{generate_card, is_card_for, is_digit_text, keeps_literals, lemma_card_is_valid};
use crate::cvv::{generate_ccv, is_cvv_for};
use crate::expiry::{generate_month, generate_year, is_month, is_year};
use crate::luhn::luhn_valid;
use crate::network::{card_length, card_length_of, cvv_length_of};
use crate::text::text_digits;

verus! {

/// How many records each pattern gets where the caller names no number.
pub const DEFAULT_COUNT: usize = 20;

/// The word that asks for a field to be drawn at random.
pub open spec fn random_word() -> Seq<char> {
    "Random"@
}

/// Whether a requested month, year or verification code asks for a value
/// drawn at random. Any other text, the empty one too, is a value to be
/// used as it stands.
pub open spec fn asks_random(word: Seq<char>) -> bool {
    word == random_word()
}

/// The number of records per pattern: zero stands for the default.
pub open spec fn effective_count(count: nat) -> nat {
    if count == 0 {
        DEFAULT_COUNT as nat
    } else {
        count
    }
}

/// One record as a line of text.
pub open spec fn record_line(
    card: Seq<char>,
    month: Seq<char>,
    year: Seq<char>,
    ccv: Seq<char>,
) -> Seq<char> {
    card + seq!['|'] + month + seq!['|'] + year + seq!['|'] + ccv
}

/// Whether the four fields make a record for the pattern `bin` under the
/// request `ccv`, `month`, `year`: the number is one for the pattern, of
/// its network's length, and each other field is the requested value, or a
/// valid one where the request leaves it to chance.
pub open spec fn fields_fit(
    bin: Seq<char>,
    ccv: Seq<char>,
    month: Seq<char>,
    year: Seq<char>,
    card: Seq<char>,
    m: Seq<char>,
    y: Seq<char>,
    c: Seq<char>,
) -> bool {
    &&& is_card_for(bin, card_length_of(bin), card)
    &&& if asks_random(month) {
        is_month(m)
    } else {
        m == month
    }
    &&& if asks_random(year) {
        is_year(y)
    } else {
        y == year
    }
    &&& if asks_random(ccv) {
        is_cvv_for(bin, c)
    } else {
        c == ccv
    }
}

/// Whether `line` is a record for the pattern `bin` under the request.
pub open spec fn is_record_for(
    bin: Seq<char>,
    ccv: Seq<char>,
    month: Seq<char>,
    year: Seq<char>,
    line: Seq<char>,
) -> bool {
    exists|card: Seq<char>, m: Seq<char>, y: Seq<char>, c: Seq<char>|
        line == #[trigger] record_line(card, m, y, c) && fields_fit(
            bin,
            ccv,
            month,
            year,
            card,
            m,
            y,
            c,
        )
}

/// How many lines the pattern `bin` contributes: none where it is empty.
pub open spec fn share_of(bin: Seq<char>, count: nat) -> nat {
    if bin.len() == 0 {
        0
    } else {
        effective_count(count)
    }
}

/// Whether `lines` is a batch for the patterns `bins`: the runs of the
/// patterns one after another in the patterns' order, an empty pattern
/// giving no line and any other `effective_count(count)` records for it.
pub open spec fn is_batch(
    bins: Seq<Seq<char>>,
    ccv: Seq<char>,
    month: Seq<char>,
    year: Seq<char>,
    count: nat,
    lines: Seq<Seq<char>>,
) -> bool
    decreases bins.len(),
{
    if bins.len() == 0 {
        lines.len() == 0
    } else {
        let share = share_of(bins.last(), count);
        &&& lines.len() >= share
        &&& is_batch(bins.drop_last(), ccv, month, year, count, lines.take(lines.len() - share))
        &&& forall|k: int|
            lines.len() - share <= k < lines.len() ==> is_record_for(
                bins.last(),
                ccv,
                month,
                year,
                #[trigger] lines[k],
            )
    }
}

/// The number of patterns that are not empty.
pub open spec fn count_nonempty(bins: Seq<Seq<char>>) -> nat
    decreases bins.len(),
{
    if bins.len() == 0 {
        0
    } else {
        count_nonempty(bins.drop_last()) + if bins.last().len() == 0 {
            0nat
        } else {
            1nat
        }
    }
}

/// The texts of a sequence of strings.
pub open spec fn texts(strings: Seq<String>) -> Seq<Seq<char>> {
    Seq::new(strings.len(), |i: int| strings[i]@)
}

/// A batch holds `effective_count(count)` lines for each pattern that is not
/// empty, and so none at all where every pattern is empty.
pub proof fn lemma_batch_len(
    bins: Seq<Seq<char>>,
    ccv: Seq<char>,
    month: Seq<char>,
    year: Seq<char>,
    count: nat,
    lines: Seq<Seq<char>>,
)
    requires
        is_batch(bins, ccv, month, year, count, lines),
    ensures
        lines.len() == count_nonempty(bins) * effective_count(count),
        (forall|j: int| 0 <= j < bins.len() ==> (#[trigger] bins[j]).len() == 0) ==> lines.len() == 0,
    decreases bins.len(),
{
    if bins.len() == 0 {
        assert(0 * effective_count(count) == 0) by (nonlinear_arith);
    } else {
        let share = share_of(bins.last(), count);
        let rest = lines.take(lines.len() - share);
        lemma_batch_len(bins.drop_last(), ccv, month, year, count, rest);
        let fewer = count_nonempty(bins.drop_last());
        let per = effective_count(count);
        assert(rest.len() == lines.len() - share);
        assert((fewer + 1) * per == fewer * per + per) by (nonlinear_arith);
        assert forall|j: int| 0 <= j < bins.len() - 1 implies (#[trigger] bins.drop_last()[j])
            == bins[j] by {}
        if forall|j: int| 0 <= j < bins.len() ==> (#[trigger] bins[j]).len() == 0 {
            assert(bins.last() == bins[bins.len() - 1]);
            assert forall|j: int| 0 <= j < bins.drop_last().len() implies (
            #[trigger] bins.drop_last()[j]).len() == 0 by {
                assert(bins.drop_last()[j] == bins[j]);
            }
        }
    }
}

/// Every line of a batch is a record for one of the patterns that are not
/// empty.
pub proof fn lemma_batch_line(
    bins: Seq<Seq<char>>,
    ccv: Seq<char>,
    month: Seq<char>,
    year: Seq<char>,
    count: nat,
    lines: Seq<Seq<char>>,
    k: int,
) -> (j: int)
    requires
        is_batch(bins, ccv, month, year, count, lines),
        0 <= k < lines.len(),
    ensures
        0 <= j < bins.len(),
        bins[j].len() > 0,
        is_record_for(bins[j], ccv, month, year, lines[k]),
    decreases bins.len(),
{
    let share = share_of(bins.last(), count);
    if k >= lines.len() - share {
        bins.len() - 1
    } else {
        let rest = lines.take(lines.len() - share);
        assert(rest[k] == lines[k]);
        let j = lemma_batch_line(bins.drop_last(), ccv, month, year, count, rest, k);
        assert(bins.drop_last()[j] == bins[j]);
        j
    }
}

/// The lines of a batch stand in the order of the patterns: the run of the
/// pattern at index `j` begins behind the runs of the patterns before it,
/// and its record number `r` is a record for that pattern.
pub proof fn lemma_batch_order(
    bins: Seq<Seq<char>>,
    ccv: Seq<char>,
    month: Seq<char>,
    year: Seq<char>,
    count: nat,
    lines: Seq<Seq<char>>,
    j: int,
    r: int,
) -> (k: int)
    requires
        is_batch(bins, ccv, month, year, count, lines),
        0 <= j < bins.len(),
        bins[j].len() > 0,
        0 <= r < effective_count(count),
    ensures
        k == count_nonempty(bins.take(j)) * effective_count(count) + r,
        0 <= k < lines.len(),
        is_record_for(bins[j], ccv, month, year, lines[k]),
    decreases bins.len(),
{
    let per = effective_count(count);
    let share = share_of(bins.last(), count);
    let rest = lines.take(lines.len() - share);
    let k = count_nonempty(bins.take(j)) * per + r;
    if j == bins.len() - 1 {
        assert(bins.take(j) =~= bins.drop_last());
        lemma_batch_len(bins, ccv, month, year, count, lines);
        let fewer = count_nonempty(bins.drop_last());
        assert((fewer + 1) * per == fewer * per + per) by (nonlinear_arith);
        assert(fewer * per >= 0) by (nonlinear_arith)
            requires
                fewer >= 0,
                per >= 0,
        ;
    } else {
        assert(bins.drop_last().take(j) =~= bins.take(j));
        assert(bins.drop_last()[j] == bins[j]);
        let inner = lemma_batch_order(bins.drop_last(), ccv, month, year, count, rest, j, r);
        assert(rest[inner] == lines[inner]);
    }
    k
}

/// A record holds a number of its network's length that passes the Luhn
/// test and begins with the pattern's fixed characters; a month, a year and
/// a verification code that the request names stand in it as they were
/// given, and one left to chance is a valid one.
pub proof fn lemma_record_fields(
    bin: Seq<char>,
    ccv: Seq<char>,
    month: Seq<char>,
    year: Seq<char>,
    line: Seq<char>,
) -> (fields: (Seq<char>, Seq<char>, Seq<char>, Seq<char>))
    requires
        is_record_for(bin, ccv, month, year, line),
    ensures
        line == record_line(fields.0, fields.1, fields.2, fields.3),
        is_digit_text(card_length_of(bin), fields.0),
        luhn_valid(text_digits(fields.0)),
        keeps_literals(bin, card_length_of(bin), fields.0),
        !asks_random(month) ==> fields.1 == month,
        asks_random(month) ==> is_month(fields.1),
        !asks_random(year) ==> fields.2 == year,
        asks_random(year) ==> is_year(fields.2),
        !asks_random(ccv) ==> fields.3 == ccv,
        asks_random(ccv) ==> is_cvv_for(bin, fields.3) && fields.3.len() == cvv_length_of(bin),
{
    let (card, m, y, c) = choose|card: Seq<char>, m: Seq<char>, y: Seq<char>, c: Seq<char>|
        line == #[trigger] record_line(card, m, y, c) && fields_fit(
            bin,
            ccv,
            month,
            year,
            card,
            m,
            y,
            c,
        );
    lemma_card_is_valid(bin, card_length_of(bin), card);
    (card, m, y, c)
}

/// A count of zero asks for the same batches as the default count.
pub proof fn lemma_zero_count_is_default(
    bins: Seq<Seq<char>>,
    ccv: Seq<char>,
    month: Seq<char>,
    year: Seq<char>,
    lines: Seq<Seq<char>>,
)
    ensures
        effective_count(0) == effective_count(DEFAULT_COUNT as nat),
        is_batch(bins, ccv, month, year, 0, lines) == is_batch(
            bins,
            ccv,
            month,
            year,
            DEFAULT_COUNT as nat,
            lines,
        ),
    decreases bins.len(),
{
    if bins.len() > 0 {
        let share = share_of(bins.last(), 0);
        assert(share == share_of(bins.last(), DEFAULT_COUNT as nat));
        if lines.len() >= share {
            lemma_zero_count_is_default(
                bins.drop_last(),
                ccv,
                month,
                year,
                lines.take(lines.len() - share),
            );
        }
    }
}

/// Whether `word` is the word "Random".
pub fn is_random_word(word: &str) -> (random: bool)
    ensures
        random == asks_random(word@),
{
    proof {
        reveal_strlit("Random");
    }
    let random: bool = word.unicode_len() == 6 && word.get_char(0) == 'R' && word.get_char(1)
        == 'a' && word.get_char(2) == 'n' && word.get_char(3) == 'd' && word.get_char(4) == 'o'
        && word.get_char(5) == 'm';
    proof {
        if random {
            assert(word@ =~= "Random"@);
        }
    }
    random
}

/// Joins the four fields of a record with `|` between them.
pub fn format_record(card: &str, month: &str, year: &str, ccv: &str) -> (line: String)
    ensures
        line@ == record_line(card@, month@, year@, ccv@),
{
    let mut line: String = card.to_owned();
    line.push('|');
    line.append(month);
    line.push('|');
    line.append(year);
    line.push('|');
    line.append(ccv);
    proof {
        assert(line@ =~= record_line(card@, month@, year@, ccv@));
    }
    line
}

/// One record for the pattern `bin`: a fresh card number, and for each of
/// the other fields the requested value, or a fresh one where the request
/// says "Random". An empty value is a value like any other.
pub fn generate_record(bin: &str, ccv: &str, month: &str, year: &str) -> (line: String)
    ensures
        is_record_for(bin@, ccv@, month@, year@, line@),
{
    let length: usize = card_length(bin);
    let card: String = generate_card(bin, length);
    let m: String = if is_random_word(month) {
        generate_month()
    } else {
        month.to_owned()
    };
    let y: String = if is_random_word(year) {
        generate_year()
    } else {
        year.to_owned()
    };
    let c: String = if is_random_word(ccv) {
        generate_ccv(bin)
    } else {
        ccv.to_owned()
    };
    let line: String = format_record(card.as_str(), m.as_str(), y.as_str(), c.as_str());
    proof {
        assert(fields_fit(bin@, ccv@, month@, year@, card@, m@, y@, c@));
        assert(line@ == record_line(card@, m@, y@, c@));
    }
    line
}

/// The batch for a request: for each pattern of `bins` that is not empty,
/// in order, `count` records, or the default number where `count` is zero.
pub fn generate_multiple_bins(
    bins: &[String],
    ccv: &str,
    month: &str,
    year: &str,
    count: usize,
) -> (lines: Vec<String>)
    ensures
        is_batch(texts(bins@), ccv@, month@, year@, count as nat, texts(lines@)),
        lines.len() == count_nonempty(texts(bins@)) * effective_count(count as nat),
        (forall|j: int| 0 <= j < bins.len() ==> (#[trigger] bins[j])@.len() == 0) ==> lines.len()
            == 0,
{
    let per_bin: usize = if count == 0 {
        DEFAULT_COUNT
    } else {
        count
    };
    let mut lines: Vec<String> = Vec::new();
    let mut j: usize = 0;
    proof {
        assert(texts(bins@).take(0) =~= Seq::<Seq<char>>::empty());
    }
    while j < bins.len()
        invariant
            j <= bins.len(),
            per_bin == effective_count(count as nat),
            is_batch(texts(bins@).take(j as int), ccv@, month@, year@, count as nat, texts(lines@)),
        decreases bins.len() - j,
    {
        let bin: &str = bins[j].as_str();
        let ghost before = texts(lines@);
        let ghost upto = texts(bins@).take(j + 1);
        proof {
            assert(upto.drop_last() =~= texts(bins@).take(j as int));
            assert(upto.last() == bin@);
        }
        if !bin.is_empty() {
            let mut made: usize = 0;
            while made < per_bin
                invariant
                    made <= per_bin,
                    texts(lines@).len() == before.len() + made,
                    texts(lines@).take(before.len() as int) == before,
                    forall|k: int|
                        before.len() <= k < before.len() + made ==> is_record_for(
                            bin@,
                            ccv@,
                            month@,
                            year@,
                            #[trigger] texts(lines@)[k],
                        ),
                decreases per_bin - made,
            {
                let ghost earlier = texts(lines@);
                let line: String = generate_record(bin, ccv, month, year);
                lines.push(line);
                proof {
                    assert(texts(lines@) =~= earlier.push(line@));
                    assert(texts(lines@).take(before.len() as int) =~= earlier.take(
                        before.len() as int,
                    ));
                }
                made += 1;
            }
        }
        proof {
            let share = share_of(bin@, count as nat);
            assert(texts(lines@).take(texts(lines@).len() - share) =~= before);
        }
        j += 1;
    }
    proof {
        assert(texts(bins@).take(j as int) =~= texts(bins@));
        lemma_batch_len(texts(bins@), ccv@, month@, year@, count as nat, texts(lines@));
        if forall|j: int| 0 <= j < bins.len() ==> (#[trigger] bins[j])@.len() == 0 {
            assert forall|j: int| 0 <= j < texts(bins@).len() implies (#[trigger] texts(
                bins@,
            )[j]).len() == 0 by {
                assert(bins[j]@.len() == 0);
            }
        }
    }
    lines
}

} // verus!
