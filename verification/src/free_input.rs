//! The host side of free inputs: answering the queries that the witnesses of free inputs
//! put.
//!
//! A query arrives as text, a list of fields separated by commas. The first field is the
//! row and the second the program counter. Groups of three fields follow: a value of the
//! program counter, the word `"input"` in quotes, and an index into the inputs. The answer
//! is the input at the index of the first group whose program counter is the current one.

use crate::number::Number;
use crate::ordered::{first_index, lemma_first_index_is};
use vstd::prelude::*;
use vstd::string::*;

verus! {

/// Why a query has no answer.
#[derive(Clone, Copy, Debug, PartialEq, Eq)]
pub enum QueryError {
    /// The query has no field for the program counter.
    MissingProgramCounter,
    /// The fields after the program counter do not come in groups of three.
    IncompleteGroup,
    /// The group of the current program counter does not ask for an input.
    NotAnInput,
    /// The index of the input is no number that an index can hold.
    BadIndex,
}

/// White space: the characters with the Unicode property `White_Space`.
pub open spec fn is_white_space(c: char) -> bool {
    let code = c as u32;
    ||| 0x09 <= code <= 0x0d
    ||| code == 0x20
    ||| code == 0x85
    ||| code == 0xa0
    ||| code == 0x1680
    ||| 0x2000 <= code <= 0x200a
    ||| code == 0x2028
    ||| code == 0x2029
    ||| code == 0x202f
    ||| code == 0x205f
    ||| code == 0x3000
}

/// The characters that are no white space.
pub open spec fn is_text() -> spec_fn(char) -> bool {
    |c: char| !is_white_space(c)
}

/// The pieces of a text between its commas: one more than it has commas.
pub open spec fn split_fields(text: Seq<char>) -> Seq<Seq<char>>
    decreases text.len(),
{
    if text.len() == 0 {
        seq![seq![]]
    } else {
        let before = split_fields(text.drop_last());
        if text.last() == ',' {
            before.push(seq![])
        } else {
            before.drop_last().push(before.last().push(text.last()))
        }
    }
}

/// The length of a text without the white space at its end.
pub open spec fn trimmed_length(text: Seq<char>) -> int
    decreases text.len(),
{
    if text.len() > 0 && is_white_space(text.last()) {
        trimmed_length(text.drop_last())
    } else {
        text.len() as int
    }
}

/// The text without the white space at its start and at its end.
pub open spec fn trim(text: Seq<char>) -> Seq<char> {
    let start = first_index(text, is_text());
    if start >= text.len() {
        seq![]
    } else {
        text.subrange(start, trimmed_length(text))
    }
}

/// The fields of a query: the pieces between its commas, each without the white space
/// around it.
pub open spec fn query_fields(query: Seq<char>) -> Seq<Seq<char>> {
    let pieces = split_fields(query);
    Seq::new(pieces.len(), |i: int| trim(pieces[i]))
}

/// The decimal digits.
pub open spec fn is_digit(c: char) -> bool {
    48 <= c as u32 <= 57
}

/// The texts that a list of character vectors holds.
pub open spec fn texts_of(fields: Vec<Vec<char>>) -> Seq<Seq<char>> {
    Seq::new(fields.len() as nat, |i: int| fields[i]@)
}

/// The number that decimal digits write.
pub open spec fn decimal_value(digits: Seq<char>) -> int
    decreases digits.len(),
{
    if digits.len() == 0 {
        0
    } else {
        10 * decimal_value(digits.drop_last()) + (digits.last() as u32 - 48)
    }
}

/// Whether every character is a decimal digit.
pub open spec fn all_digits(text: Seq<char>) -> bool {
    forall|i: int| 0 <= i < text.len() ==> is_digit(#[trigger] text[i])
}

/// The index that decimal digits write, if there is at least one digit and an index can
/// hold the number.
pub open spec fn parse_digits(digits: Seq<char>) -> Option<usize> {
    if digits.len() == 0 || !all_digits(digits) || decimal_value(digits) > usize::MAX {
        None
    } else {
        Some(decimal_value(digits) as usize)
    }
}

/// The index that a text writes: decimal digits after an optional plus sign.
pub open spec fn parse_index(text: Seq<char>) -> Option<usize> {
    if text.len() > 0 && text[0] == '+' {
        parse_digits(text.drop_first())
    } else {
        parse_digits(text)
    }
}

/// The answer that the groups from `group` on give: that of the first of them whose
/// program counter is the current one, which is the second field.
pub open spec fn answer_from(fields: Seq<Seq<char>>, inputs: Seq<int>, group: int) -> Result<
    Option<int>,
    QueryError,
>
    decreases fields.len() - 3 * group,
{
    let at = 2 + 3 * group;
    if group < 0 || at + 2 >= fields.len() {
        Ok(None)
    } else if fields[at] == fields[1] {
        if fields[at + 1] != "\"input\""@ {
            Err(QueryError::NotAnInput)
        } else {
            match parse_index(fields[at + 2]) {
                None => Err(QueryError::BadIndex),
                Some(index) => Ok(
                    if index < inputs.len() {
                        Some(inputs[index as int])
                    } else {
                        None
                    },
                ),
            }
        }
    } else {
        answer_from(fields, inputs, group + 1)
    }
}

/// The answer to a query: the input that the group of the current program counter asks
/// for, if there is such a group and such an input.
pub open spec fn query_answer(query: Seq<char>, inputs: Seq<int>) -> Result<
    Option<int>,
    QueryError,
> {
    let fields = query_fields(query);
    if fields.len() < 2 {
        Err(QueryError::MissingProgramCounter)
    } else if (fields.len() - 2) % 3 != 0 {
        Err(QueryError::IncompleteGroup)
    } else {
        answer_from(fields, inputs, 0)
    }
}

/// The number that digits write is at least the number that their first digits write.
pub proof fn lemma_decimal_value_grows(digits: Seq<char>, n: int)
    requires
        0 <= n <= digits.len(),
        forall|i: int| 0 <= i < digits.len() ==> is_digit(#[trigger] digits[i]),
    ensures
        0 <= decimal_value(digits.take(n)) <= decimal_value(digits),
    decreases digits.len() - n,
{
    if n == digits.len() {
        assert(digits.take(n) =~= digits);
        lemma_decimal_value_positive(digits);
    } else {
        lemma_decimal_value_grows(digits, n + 1);
        assert(digits.take(n + 1).drop_last() =~= digits.take(n));
        lemma_decimal_value_positive(digits.take(n));
    }
}

/// The number that digits write is not negative.
pub proof fn lemma_decimal_value_positive(digits: Seq<char>)
    requires
        forall|i: int| 0 <= i < digits.len() ==> is_digit(#[trigger] digits[i]),
    ensures
        0 <= decimal_value(digits),
    decreases digits.len(),
{
    if digits.len() > 0 {
        lemma_decimal_value_positive(digits.drop_last());
    }
}

fn white_space(c: char) -> (r: bool)
    ensures
        r == is_white_space(c),
{
    let code = c as u32;
    (0x09 <= code && code <= 0x0d) || code == 0x20 || code == 0x85 || code == 0xa0 || code
        == 0x1680 || (0x2000 <= code && code <= 0x200a) || code == 0x2028 || code == 0x2029
        || code == 0x202f || code == 0x205f || code == 0x3000
}

/// Whether two texts are the same.
fn same_text(a: &Vec<char>, b: &Vec<char>) -> (r: bool)
    ensures
        r == (a@ == b@),
{
    if a.len() != b.len() {
        return false;
    }
    let mut i: usize = 0;
    while i < a.len()
        invariant
            i <= a.len(),
            a.len() == b.len(),
            forall|j: int| 0 <= j < i ==> a[j] == b[j],
        decreases a.len() - i,
    {
        if a[i] != b[i] {
            return false;
        }
        i += 1;
    }
    assert(a@ =~= b@);
    true
}

/// The characters of a text.
fn characters(text: &str) -> (r: Vec<char>)
    ensures
        r@ == text@,
{
    let mut out: Vec<char> = Vec::new();
    for c in it: text.chars()
        invariant
            it.seq() == text@,
            out@ == text@.take(it.index()),
    {
        out.push(c);
    }
    out
}

/// The pieces of a text between its commas; see [`split_fields`].
fn split(text: &str) -> (r: Vec<Vec<char>>)
    ensures
        texts_of(r) == split_fields(text@),
{
    let mut fields: Vec<Vec<char>> = Vec::new();
    fields.push(Vec::new());
    for c in it: text.chars()
        invariant
            it.seq() == text@,
            fields.len() > 0,
            texts_of(fields) == split_fields(text@.take(it.index())),
    {
        proof {
            assert(text@.take(it.index() + 1).drop_last() =~= text@.take(it.index()));
        }
        if c == ',' {
            fields.push(Vec::new());
        } else {
            let last = fields.len() - 1;
            fields[last].push(c);
        }
    }
    assert(text@.take(text@.len() as int) =~= text@);
    fields
}

/// The text without the white space around it; see [`trim`].
fn trimmed(text: &Vec<char>) -> (r: Vec<char>)
    ensures
        r@ == trim(text@),
{
    let mut start: usize = 0;
    while start < text.len() && white_space(text[start])
        invariant
            start <= text.len(),
            forall|j: int| 0 <= j < start ==> is_white_space(#[trigger] text[j]),
        decreases text.len() - start,
    {
        start += 1;
    }
    proof {
        lemma_first_index_is(text@, is_text(), start as int);
    }
    let mut out: Vec<char> = Vec::new();
    if start >= text.len() {
        return out;
    }
    let mut end: usize = text.len();
    assert(text@.take(end as int) =~= text@);
    while end > start && white_space(text[end - 1])
        invariant
            start < end <= text.len(),
            !is_white_space(text[start as int]),
            trimmed_length(text@) == trimmed_length(text@.take(end as int)),
        decreases end,
    {
        assert(text@.take(end as int).drop_last() =~= text@.take(end - 1));
        end -= 1;
    }
    let mut i: usize = start;
    while i < end
        invariant
            start <= i <= end <= text.len(),
            out@ == text@.subrange(start as int, i as int),
        decreases end - i,
    {
        out.push(text[i]);
        i += 1;
    }
    out
}

/// The fields of a query; see [`query_fields`].
fn fields_of(query: &str) -> (r: Vec<Vec<char>>)
    ensures
        texts_of(r) == query_fields(query@),
{
    let pieces = split(query);
    let mut fields: Vec<Vec<char>> = Vec::new();
    let mut i: usize = 0;
    while i < pieces.len()
        invariant
            i <= pieces.len(),
            fields.len() == i,
            forall|j: int| 0 <= j < i ==> (#[trigger] fields[j])@ == trim(pieces[j]@),
        decreases pieces.len() - i,
    {
        fields.push(trimmed(&pieces[i]));
        i += 1;
    }
    fields
}

/// The index that a text writes; see [`parse_index`].
fn index_of(text: &Vec<char>) -> (r: Option<usize>)
    ensures
        r == parse_index(text@),
{
    let first: usize = if text.len() > 0 && text[0] == '+' {
        1
    } else {
        0
    };
    let ghost digits = text@.skip(first as int);
    assert(first == 0 ==> digits =~= text@);
    if first >= text.len() {
        return None;
    }
    let mut i: usize = first;
    while i < text.len()
        invariant
            first <= i <= text.len(),
            first < text.len(),
            digits == text@.skip(first as int),
            parse_index(text@) == parse_digits(digits),
            forall|j: int| first <= j < i ==> is_digit(#[trigger] text[j]),
        decreases text.len() - i,
    {
        let code = text[i] as u32;
        if code < 48 || code > 57 {
            assert(!is_digit(digits[i - first]));
            return None;
        }
        i += 1;
    }
    let mut value: usize = 0;
    let mut k: usize = first;
    while k < text.len()
        invariant
            first <= k <= text.len(),
            first < text.len(),
            digits == text@.skip(first as int),
            parse_index(text@) == parse_digits(digits),
            all_digits(digits),
            value == decimal_value(digits.take(k - first)),
        decreases text.len() - k,
    {
        proof {
            assert(is_digit(digits[k - first]));
        }
        let digit = (text[k] as u32 - 48) as usize;
        proof {
            assert(digits.take(k - first + 1).drop_last() =~= digits.take(k - first));
            lemma_decimal_value_grows(digits, k - first + 1);
        }
        let scaled = match value.checked_mul(10) {
            Some(v) => v,
            None => {
                return None;
            },
        };
        value = match scaled.checked_add(digit) {
            Some(v) => v,
            None => {
                return None;
            },
        };
        k += 1;
    }
    assert(digits.take(k - first) =~= digits);
    Some(value)
}

/// Answers a query for a free input; see [`query_answer`].
pub fn answer_query(query: &str, inputs: &Vec<Number>) -> (r: Result<Option<Number>, QueryError>)
    ensures
        match r {
            Ok(answer) => query_answer(query@, inputs.deep_view()) == Ok::<
                Option<int>,
                QueryError,
            >(answer.deep_view()),
            Err(e) => query_answer(query@, inputs.deep_view()) == Err::<Option<int>, QueryError>(e),
        },
{
    let fields = fields_of(query);
    let ghost texts = texts_of(fields);
    if fields.len() < 2 {
        return Err(QueryError::MissingProgramCounter);
    }
    if (fields.len() - 2) % 3 != 0 {
        return Err(QueryError::IncompleteGroup);
    }
    let wanted = characters("\"input\"");
    let mut at: usize = 2;
    let ghost mut group: int = 0;
    while at < fields.len()
        invariant
            2 <= at <= fields.len(),
            at == 2 + 3 * group,
            (fields.len() - 2) % 3 == 0,
            texts == texts_of(fields),
            texts == query_fields(query@),
            wanted@ == "\"input\""@,
            answer_from(texts, inputs.deep_view(), 0) == answer_from(
                texts,
                inputs.deep_view(),
                group,
            ),
        decreases fields.len() - at,
    {
        if same_text(&fields[at], &fields[1]) {
            if !same_text(&fields[at + 1], &wanted) {
                return Err(QueryError::NotAnInput);
            }
            let index = match index_of(&fields[at + 2]) {
                Some(i) => i,
                None => {
                    return Err(QueryError::BadIndex);
                },
            };
            if index < inputs.len() {
                return Ok(Some(inputs[index].duplicate()));
            } else {
                return Ok(None);
            }
        }
        at += 3;
        proof {
            group = group + 1;
        }
    }
    Ok(None)
}

} // verus!
