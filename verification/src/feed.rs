//! Reading the lines of the state feed.
//!
//! A line is a row of tokens with one space between each two. A token is
//! read without the blanks around it, so the line end does not count. Numbers
//! are written in decimal, with an optional sign, and must fit in `i32`.

use vstd::prelude::*;
use crate::catalog::{kind_named, Record, RecordKind};
use crate::recipe::Witch;

verus! {

/// Why a line of the feed could not be read.
#[derive(Clone, Copy, Debug, PartialEq, Eq, Structural)]
pub enum FeedError {
    /// The line has fewer tokens than it must have.
    Truncated,
    /// A token that must be a number is none, or is too large.
    NotANumber,
}

/// Whether `b` is an ASCII digit.
pub open spec fn is_digit(b: u8) -> bool {
    48 <= b <= 57
}

/// What a row of digits amounts to in decimal.
pub open spec fn digits_value(text: Seq<u8>) -> nat
    decreases text.len(),
{
    if text.len() == 0 {
        0
    } else if is_digit(text.last()) {
        (10 * digits_value(text.drop_last()) + (text.last() - 48)) as nat
    } else {
        10 * digits_value(text.drop_last())
    }
}

/// Whether a token starts with a plus or minus sign.
pub open spec fn is_signed(token: Seq<u8>) -> bool {
    token.len() > 0 && (token[0] == 45 || token[0] == 43)
}

/// The digits of a token: all of it but a leading sign.
pub open spec fn body_of(token: Seq<u8>) -> Seq<u8> {
    if is_signed(token) {
        token.skip(1)
    } else {
        token
    }
}

/// What a token amounts to, read as a sign and digits.
pub open spec fn signed_value(token: Seq<u8>) -> int {
    if token.len() > 0 && token[0] == 45 {
        -(digits_value(body_of(token)) as int)
    } else {
        digits_value(body_of(token)) as int
    }
}

/// The number that a token stands for: an optional sign, then one digit or
/// more and nothing else, the whole within the range of `i32`.
pub open spec fn number_of(token: Seq<u8>) -> Option<i32> {
    let body = body_of(token);
    if body.len() > 0 && (forall|i: int| 0 <= i < body.len() ==> is_digit(#[trigger] body[i]))
        && i32::MIN <= signed_value(token) <= i32::MAX {
        Some(signed_value(token) as i32)
    } else {
        None
    }
}

/// A row of digits amounts to no less than any of its beginnings.
pub proof fn lemma_digits_value_grows(text: Seq<u8>, k: int)
    requires
        0 <= k <= text.len(),
    ensures
        digits_value(text.take(k)) <= digits_value(text),
    decreases text.len() - k,
{
    if k < text.len() {
        lemma_digits_value_grows(text, k + 1);
        assert(text.take(k + 1).drop_last() =~= text.take(k));
    } else {
        assert(text.take(k) =~= text);
    }
}

/// Reads a number off a token, as `number_of` defines it.
pub fn parse_number(token: &[u8]) -> (number: Option<i32>)
    ensures
        number == number_of(token@),
{
    let n = token.len();
    if n == 0 {
        return None;
    }
    let negative = token[0] == 45;
    let start: usize = if negative || token[0] == 43 {
        1
    } else {
        0
    };
    let ghost body = body_of(token@);
    assert(body =~= token@.skip(start as int));
    if start == n {
        return None;
    }
    let mut value: i64 = 0;
    let mut i: usize = start;
    while i < n
        invariant
            start <= i <= n,
            n == token@.len(),
            body == token@.skip(start as int),
            body == body_of(token@),
            forall|j: int| 0 <= j < i - start ==> is_digit(#[trigger] body[j]),
            value == digits_value(body.take(i - start)),
            value <= 2147483648,
        decreases n - i,
    {
        let b = token[i];
        assert(body[i - start] == b);
        if b < 48 || b > 57 {
            assert(!is_digit(body[i - start]));
            return None;
        }
        proof {
            assert(body.take(i - start + 1).drop_last() =~= body.take(i - start));
        }
        value = value * 10 + (b - 48) as i64;
        if value > 2147483648 {
            proof {
                lemma_digits_value_grows(body, i - start + 1);
                assert(digits_value(body) > 2147483648);
            }
            return None;
        }
        i += 1;
    }
    assert(body.take(i - start) =~= body);
    if negative {
        Some((-value) as i32)
    } else if value > 2147483647 {
        None
    } else {
        Some(value as i32)
    }
}

/// The tokens of a line as plain byte strings.
pub open spec fn texts(tokens: Seq<Vec<u8>>) -> Seq<Seq<u8>> {
    tokens.map_values(|token: Vec<u8>| token@)
}

/// Whether each of the first `n` tokens but the one at `skipped` is a number.
pub open spec fn are_numbers(tokens: Seq<Seq<u8>>, n: int, skipped: int) -> bool {
    forall|i: int| 0 <= i < n && i != skipped ==> number_of(#[trigger] tokens[i]) is Some
}

/// The record that a line of eleven tokens or more describes: the id, the
/// kind, the four deltas, the price, the tome index, the tax count and the
/// two flags, in this order. Further tokens are passed over.
pub open spec fn record_of(tokens: Seq<Seq<u8>>) -> Result<Record, FeedError> {
    if tokens.len() < 11 {
        Err(FeedError::Truncated)
    } else if !are_numbers(tokens, 11, 1) {
        Err(FeedError::NotANumber)
    } else {
        Ok(
            Record {
                id: number_of(tokens[0]).unwrap(),
                kind: kind_named(tokens[1]),
                tiers_0_ingredient: number_of(tokens[2]).unwrap(),
                tiers_1_ingredient: number_of(tokens[3]).unwrap(),
                tiers_2_ingredient: number_of(tokens[4]).unwrap(),
                tiers_3_ingredient: number_of(tokens[5]).unwrap(),
                price: number_of(tokens[6]).unwrap(),
                tome_index: number_of(tokens[7]).unwrap(),
                tax_count: number_of(tokens[8]).unwrap(),
                castable: number_of(tokens[9]).unwrap(),
                repeatable: number_of(tokens[10]).unwrap(),
            },
        )
    }
}

/// The party that a line of five tokens or more describes: the four tiers
/// of its stock, then its score. Further tokens are passed over.
pub open spec fn witch_of(tokens: Seq<Seq<u8>>) -> Result<Witch, FeedError> {
    if tokens.len() < 5 {
        Err(FeedError::Truncated)
    } else if !are_numbers(tokens, 5, -1) {
        Err(FeedError::NotANumber)
    } else {
        Ok(
            Witch {
                tiers_0_inventory: number_of(tokens[0]).unwrap(),
                tiers_1_inventory: number_of(tokens[1]).unwrap(),
                tiers_2_inventory: number_of(tokens[2]).unwrap(),
                tiers_3_inventory: number_of(tokens[3]).unwrap(),
                score: number_of(tokens[4]).unwrap(),
            },
        )
    }
}

/// Reads the token at position `i` as a number.
pub fn number_at(tokens: &Vec<Vec<u8>>, i: usize) -> (number: Result<i32, FeedError>)
    requires
        i < tokens@.len(),
    ensures
        number == match number_of(texts(tokens@)[i as int]) {
            Some(n) => Ok::<i32, FeedError>(n),
            None => Err(FeedError::NotANumber),
        },
{
    match parse_number(tokens[i].as_slice()) {
        Some(n) => Ok(n),
        None => Err(FeedError::NotANumber),
    }
}

/// Reads one record of the feed off the tokens of its line.
pub fn read_record(tokens: &Vec<Vec<u8>>) -> (record: Result<Record, FeedError>)
    ensures
        record == record_of(texts(tokens@)),
{
    if tokens.len() < 11 {
        return Err(FeedError::Truncated);
    }
    let id = number_at(tokens, 0)?;
    let kind = RecordKind::from_token(tokens[1].as_slice());
    let tiers_0_ingredient = number_at(tokens, 2)?;
    let tiers_1_ingredient = number_at(tokens, 3)?;
    let tiers_2_ingredient = number_at(tokens, 4)?;
    let tiers_3_ingredient = number_at(tokens, 5)?;
    let price = number_at(tokens, 6)?;
    let tome_index = number_at(tokens, 7)?;
    let tax_count = number_at(tokens, 8)?;
    let castable = number_at(tokens, 9)?;
    let repeatable = number_at(tokens, 10)?;
    Ok(
        Record {
            id,
            kind,
            tiers_0_ingredient,
            tiers_1_ingredient,
            tiers_2_ingredient,
            tiers_3_ingredient,
            price,
            tome_index,
            tax_count,
            castable,
            repeatable,
        },
    )
}

/// Reads one party's stock and score off the tokens of its line.
pub fn read_witch(tokens: &Vec<Vec<u8>>) -> (witch: Result<Witch, FeedError>)
    ensures
        witch == witch_of(texts(tokens@)),
{
    if tokens.len() < 5 {
        return Err(FeedError::Truncated);
    }
    let tiers_0_inventory = number_at(tokens, 0)?;
    let tiers_1_inventory = number_at(tokens, 1)?;
    let tiers_2_inventory = number_at(tokens, 2)?;
    let tiers_3_inventory = number_at(tokens, 3)?;
    let score = number_at(tokens, 4)?;
    Ok(Witch { tiers_0_inventory, tiers_1_inventory, tiers_2_inventory, tiers_3_inventory, score })
}

/// Whether `b` is a blank: a space, a tab, a line feed, a vertical tab, a
/// form feed or a carriage return.
pub open spec fn is_blank(b: u8) -> bool {
    b == 32 || 9 <= b <= 13
}

/// A text without the blanks at its two ends.
pub open spec fn trimmed(text: Seq<u8>) -> Seq<u8>
    decreases text.len(),
{
    if text.len() > 0 && is_blank(text[0]) {
        trimmed(text.skip(1))
    } else if text.len() > 0 && is_blank(text.last()) {
        trimmed(text.drop_last())
    } else {
        text
    }
}

/// A line cut at each of its spaces: one piece more than it has spaces,
/// some of them empty where a space stands first, last or next to another.
pub open spec fn split(line: Seq<u8>) -> Seq<Seq<u8>>
    decreases line.len(),
{
    if line.len() == 0 {
        seq![Seq::<u8>::empty()]
    } else {
        let before = split(line.drop_last());
        if line.last() == 32 {
            before.push(Seq::<u8>::empty())
        } else {
            before.drop_last().push(before.last().push(line.last()))
        }
    }
}

/// The tokens of a line: its pieces between spaces, each without the
/// blanks around it.
pub open spec fn tokens_of(line: Seq<u8>) -> Seq<Seq<u8>> {
    all_trimmed(split(line))
}

/// Each of `pieces` without the blanks around it.
pub open spec fn all_trimmed(pieces: Seq<Seq<u8>>) -> Seq<Seq<u8>> {
    Seq::new(pieces.len(), |i: int| trimmed(pieces[i]))
}

/// `pieces` put together again, with a space between each two.
pub open spec fn joined(pieces: Seq<Seq<u8>>) -> Seq<u8>
    decreases pieces.len(),
{
    if pieces.len() == 0 {
        Seq::<u8>::empty()
    } else if pieces.len() == 1 {
        pieces[0]
    } else {
        joined(pieces.drop_last()).push(32u8) + pieces.last()
    }
}

/// Cutting a line gives at least one piece, no piece holds a space, and
/// the pieces joined by spaces are the line again.
pub proof fn lemma_split_is_exact(line: Seq<u8>)
    ensures
        split(line).len() >= 1,
        forall|k: int, j: int|
            0 <= k < split(line).len() && 0 <= j < split(line)[k].len() ==> #[trigger] split(
                line,
            )[k][j] != 32,
        joined(split(line)) == line,
    decreases line.len(),
{
    if line.len() == 0 {
        assert(joined(split(line)) =~= line);
    } else {
        let shorter = line.drop_last();
        let before = split(shorter);
        lemma_split_is_exact(shorter);
        if line.last() == 32 {
            let after = before.push(Seq::<u8>::empty());
            assert(after.drop_last() =~= before);
            assert(joined(after) =~= joined(before).push(32u8));
            assert(shorter.push(32u8) =~= line);
        } else {
            let grown = before.last().push(line.last());
            let after = before.drop_last().push(grown);
            assert(after.drop_last() =~= before.drop_last());
            if before.len() == 1 {
                assert(joined(before) == before[0]);
                assert(joined(after) == grown);
            } else {
                assert(joined(before) == joined(before.drop_last()).push(32u8) + before.last());
                assert(joined(after) =~= joined(before).push(line.last()));
            }
            assert(shorter.push(line.last()) =~= line);
            assert forall|k: int, j: int|
                0 <= k < after.len() && 0 <= j < after[k].len() implies #[trigger] after[k][j]
                != 32 by {
                if k < after.len() - 1 {
                    assert(after[k] == before[k]);
                    assert(before[k][j] != 32);
                } else if j < before.last().len() {
                    assert(before[before.len() - 1][j] != 32);
                }
            }
        }
    }
}

/// A trimmed text has no blank at either end.
pub proof fn lemma_trimmed_has_bare_ends(text: Seq<u8>)
    ensures
        trimmed(text).len() <= text.len(),
        trimmed(text).len() > 0 ==> !is_blank(trimmed(text)[0]) && !is_blank(trimmed(text).last()),
        text.len() > 0 && !is_blank(text[0]) && !is_blank(text.last()) ==> trimmed(text) == text,
    decreases text.len(),
{
    if text.len() > 0 && is_blank(text[0]) {
        lemma_trimmed_has_bare_ends(text.skip(1));
    } else if text.len() > 0 && is_blank(text.last()) {
        lemma_trimmed_has_bare_ends(text.drop_last());
    }
}

/// Whether `b` is a blank.
pub fn blank(b: u8) -> (r: bool)
    ensures
        r == is_blank(b),
{
    b == 32 || (9 <= b && b <= 13)
}

/// Copies `text` without the blanks at its two ends.
pub fn trim(text: &[u8]) -> (kept: Vec<u8>)
    ensures
        kept@ == trimmed(text@),
{
    let n = text.len();
    let mut start: usize = 0;
    proof {
        assert(text@.skip(0) =~= text@);
    }
    while start < n && blank(text[start])
        invariant
            start <= n,
            n == text@.len(),
            trimmed(text@) == trimmed(text@.skip(start as int)),
        decreases n - start,
    {
        proof {
            assert(text@.skip(start as int)[0] == text@[start as int]);
            assert(text@.skip(start as int).skip(1) =~= text@.skip(start + 1));
        }
        start += 1;
    }
    let mut end: usize = n;
    proof {
        assert(text@.skip(start as int) =~= text@.subrange(start as int, end as int));
    }
    while end > start && blank(text[end - 1])
        invariant
            start <= end <= n,
            n == text@.len(),
            start < n ==> !is_blank(text@[start as int]),
            trimmed(text@) == trimmed(text@.subrange(start as int, end as int)),
        decreases end - start,
    {
        proof {
            let piece = text@.subrange(start as int, end as int);
            assert(piece[0] == text@[start as int]);
            assert(piece.last() == text@[end - 1]);
            assert(piece.drop_last() =~= text@.subrange(start as int, end - 1));
        }
        end -= 1;
    }
    let ghost piece = text@.subrange(start as int, end as int);
    proof {
        if start < end {
            assert(piece[0] == text@[start as int]);
            assert(piece.last() == text@[end - 1]);
        }
        assert(trimmed(piece) == piece);
    }
    let mut kept: Vec<u8> = Vec::new();
    let mut i: usize = start;
    while i < end
        invariant
            start <= i <= end <= n,
            n == text@.len(),
            kept@ == text@.subrange(start as int, i as int),
        decreases end - i,
    {
        kept.push(text[i]);
        proof {
            assert(kept@ =~= text@.subrange(start as int, i + 1));
        }
        i += 1;
    }
    kept
}

/// Tokens that are the trimmed `pieces` stay so when the trimmed `piece`
/// joins them.
proof fn lemma_one_more_token(
    earlier: Seq<Vec<u8>>,
    pieces: Seq<Seq<u8>>,
    tokens: Seq<Vec<u8>>,
    piece: Seq<u8>,
)
    requires
        texts(earlier) == all_trimmed(pieces),
        tokens.len() == earlier.len() + 1,
        tokens.drop_last() =~= earlier,
        tokens.last()@ == trimmed(piece),
    ensures
        texts(tokens) == all_trimmed(pieces.push(piece)),
{
    assert(texts(earlier).len() == pieces.len());
    assert forall|k: int| 0 <= k < tokens.len() implies texts(tokens)[k] == all_trimmed(
        pieces.push(piece),
    )[k] by {
        if k < earlier.len() {
            assert(texts(earlier)[k] == all_trimmed(pieces)[k]);
            assert(tokens[k] == earlier[k]);
        }
    }
    assert(texts(tokens) =~= all_trimmed(pieces.push(piece)));
}

/// Cuts a line into its tokens.
pub fn cut_line(line: &[u8]) -> (tokens: Vec<Vec<u8>>)
    ensures
        texts(tokens@) == tokens_of(line@),
{
    let n = line.len();
    let mut tokens: Vec<Vec<u8>> = Vec::new();
    let mut piece: Vec<u8> = Vec::new();
    let ghost mut pieces: Seq<Seq<u8>> = Seq::empty();
    let mut i: usize = 0;
    proof {
        assert(split(line@.take(0)) =~= pieces.push(piece@));
    }
    while i < n
        invariant
            i <= n,
            n == line@.len(),
            split(line@.take(i as int)) == pieces.push(piece@),
            texts(tokens@) == all_trimmed(pieces),
        decreases n - i,
    {
        proof {
            assert(line@.take(i + 1).drop_last() =~= line@.take(i as int));
            assert(pieces.push(piece@).drop_last() =~= pieces);
        }
        if line[i] == 32 {
            let ghost earlier = tokens@;
            tokens.push(trim(piece.as_slice()));
            proof {
                lemma_one_more_token(earlier, pieces, tokens@, piece@);
                pieces = pieces.push(piece@);
            }
            piece = Vec::new();
        } else {
            piece.push(line[i]);
        }
        i += 1;
    }
    let ghost earlier = tokens@;
    tokens.push(trim(piece.as_slice()));
    proof {
        assert(line@.take(n as int) =~= line@);
        lemma_one_more_token(earlier, pieces, tokens@, piece@);
    }
    tokens
}

/// Reads the number that a line holds between blanks.
pub fn read_count(line: &[u8]) -> (count: Result<i32, FeedError>)
    ensures
        count == match number_of(trimmed(line@)) {
            Some(n) => Ok::<i32, FeedError>(n),
            None => Err(FeedError::NotANumber),
        },
{
    let token = trim(line);
    match parse_number(token.as_slice()) {
        Some(n) => Ok(n),
        None => Err(FeedError::NotANumber),
    }
}

/// Reads one record of the feed off its line.
pub fn read_record_line(line: &[u8]) -> (record: Result<Record, FeedError>)
    ensures
        record == record_of(tokens_of(line@)),
{
    let tokens = cut_line(line);
    read_record(&tokens)
}

/// Reads one party's stock and score off its line.
pub fn read_witch_line(line: &[u8]) -> (witch: Result<Witch, FeedError>)
    ensures
        witch == witch_of(tokens_of(line@)),
{
    let tokens = cut_line(line);
    read_witch(&tokens)
}

} // verus!
