//! The text form of a binary structure: the bytes of its image as decimal
//! numbers, separated by commas, within square brackets.

use vstd::prelude::*;
use vstd::string::{StrSliceExecFns, StringExecFns};

verus! {

/// The character of a decimal digit.
pub open spec fn digit(value: int) -> char {
    seq!['0', '1', '2', '3', '4', '5', '6', '7', '8', '9'][value]
}

/// Whether the character is a decimal digit.
pub open spec fn is_digit(c: char) -> bool {
    '0' <= c <= '9'
}

/// The decimal numeral of a byte, without leading zeros.
pub open spec fn number_text(value: u8) -> Seq<char> {
    let value = value as int;
    if value < 10 {
        seq![digit(value)]
    } else if value < 100 {
        seq![digit(value / 10), digit(value % 10)]
    } else {
        seq![digit(value / 100), digit(value / 10 % 10), digit(value % 10)]
    }
}

/// What follows a number in a list: each further byte after a comma, and
/// the closing bracket.
pub open spec fn tail_text(bytes: Seq<u8>) -> Seq<char>
    decreases bytes.len(),
{
    if bytes.len() == 0 {
        seq![']']
    } else {
        seq![','] + number_text(bytes[0]) + tail_text(bytes.skip(1))
    }
}

/// The text of a byte sequence.
pub open spec fn text_of(bytes: Seq<u8>) -> Seq<char> {
    if bytes.len() == 0 {
        seq!['[', ']']
    } else {
        seq!['['] + number_text(bytes[0]) + tail_text(bytes.skip(1))
    }
}

/// The bytes whose text `text` is, if it is the text of any.
pub open spec fn bytes_of(text: Seq<char>) -> Option<Seq<u8>> {
    if exists|bytes: Seq<u8>| text_of(bytes) == text {
        Some(choose|bytes: Seq<u8>| text_of(bytes) == text)
    } else {
        None
    }
}

proof fn lemma_number_text(value: u8)
    ensures
        1 <= number_text(value).len() <= 3,
        forall|i: int| 0 <= i < number_text(value).len() ==> is_digit(#[trigger] number_text(value)[i]),
        number_text(value).len() > 1 ==> number_text(value)[0] != '0',
{
}

/// The digit at a place of the text, if there is one.
spec fn digit_at(text: Seq<char>, at: int) -> Option<int> {
    if 0 <= at < text.len() && is_digit(text[at]) {
        Some(text[at] as int - 48)
    } else {
        None
    }
}

/// The number that starts at a place of the text, and the place after it.
/// The number is the longest run of digits there; it is refused if it is
/// empty, longer than three digits, has a leading zero, or is over 255.
spec fn number_at(text: Seq<char>, at: int) -> Option<(u8, int)> {
    let d0 = digit_at(text, at);
    let d1 = digit_at(text, at + 1);
    let d2 = digit_at(text, at + 2);
    let d3 = digit_at(text, at + 3);
    if d0 is None {
        None
    } else if d1 is None {
        Some((d0->0 as u8, at + 1))
    } else if d0->0 == 0 {
        None
    } else if d2 is None {
        Some(((10 * d0->0 + d1->0) as u8, at + 2))
    } else if d3 is Some || 100 * d0->0 + 10 * d1->0 + d2->0 > 255 {
        None
    } else {
        Some(((100 * d0->0 + 10 * d1->0 + d2->0) as u8, at + 3))
    }
}

/// The bytes of a list whose first bytes, `done`, were read, from the comma
/// or closing bracket at `at` on.
spec fn list_from(text: Seq<char>, at: int, done: Seq<u8>) -> Option<Seq<u8>>
    decreases text.len() - at,
{
    if at < 0 || at >= text.len() {
        None
    } else if text[at] == ']' {
        if at == text.len() - 1 {
            Some(done)
        } else {
            None
        }
    } else if text[at] == ',' {
        match number_at(text, at + 1) {
            Some((value, next)) => if next > at {
                list_from(text, next, done.push(value))
            } else {
                None
            },
            None => None,
        }
    } else {
        None
    }
}

/// The bytes that a text lists, if it is the text of a byte sequence.
spec fn listed(text: Seq<char>) -> Option<Seq<u8>> {
    if text.len() < 2 || text[0] != '[' {
        None
    } else if text[1] == ']' {
        if text.len() == 2 {
            Some(Seq::empty())
        } else {
            None
        }
    } else {
        match number_at(text, 1) {
            Some((value, next)) => list_from(text, next, seq![value]),
            None => None,
        }
    }
}

proof fn lemma_number_at_sound(text: Seq<char>, at: int)
    requires
        number_at(text, at) is Some,
    ensures
        ({
            let (value, next) = number_at(text, at)->0;
            &&& 0 <= at < next <= text.len()
            &&& text.subrange(at, next) == number_text(value)
            &&& next == text.len() || !is_digit(text[next])
        }),
{
    let (value, next) = number_at(text, at)->0;
    assert(text.subrange(at, next) =~= number_text(value));
}

proof fn lemma_number_at_complete(text: Seq<char>, at: int, value: u8)
    requires
        0 <= at,
        at + number_text(value).len() <= text.len(),
        text.subrange(at, at + number_text(value).len()) == number_text(value),
        at + number_text(value).len() == text.len() || !is_digit(
            text[at + number_text(value).len()],
        ),
    ensures
        number_at(text, at) == Some((value, at + number_text(value).len())),
{
    let numeral = number_text(value);
    let part = text.subrange(at, at + numeral.len());
    assert(part[0] == text[at]);
    if numeral.len() > 1 {
        assert(part[1] == text[at + 1]);
    }
    if numeral.len() > 2 {
        assert(part[2] == text[at + 2]);
    }
}

proof fn lemma_tail_text_start(bytes: Seq<u8>)
    ensures
        tail_text(bytes).len() >= 1,
        tail_text(bytes)[0] == ']' || tail_text(bytes)[0] == ',',
        !is_digit(tail_text(bytes)[0]),
        tail_text(bytes)[0] == ']' <==> bytes.len() == 0,
{
}

proof fn lemma_list_from_complete(text: Seq<char>, at: int, done: Seq<u8>, rest: Seq<u8>)
    requires
        0 <= at <= text.len(),
        text.skip(at) == tail_text(rest),
    ensures
        list_from(text, at, done) == Some(done + rest),
    decreases rest.len(),
{
    lemma_tail_text_start(rest);
    assert(text.skip(at)[0] == text[at]);
    if rest.len() == 0 {
        assert(text.skip(at).len() == 1);
        assert(done + rest =~= done);
    } else {
        let numeral = number_text(rest[0]);
        let after = rest.skip(1);
        let next: int = at + 1 + numeral.len();
        lemma_tail_text_start(after);
        let tail = seq![','] + numeral + tail_text(after);
        assert(text.skip(at) == tail);
        assert(text.len() - at == tail.len());
        assert(text.subrange(at + 1, next) =~= numeral) by {
            assert forall|i: int| 0 <= i < numeral.len() implies text.subrange(at + 1, next)[i]
                == numeral[i] by {
                assert(text.skip(at)[i + 1] == tail[i + 1]);
            }
        }
        assert(text[next] == tail_text(after)[0]) by {
            assert(text.skip(at)[next - at] == tail[next - at]);
        }
        lemma_number_at_complete(text, at + 1, rest[0]);
        assert(text.skip(next) =~= tail_text(after)) by {
            assert forall|i: int| 0 <= i < tail_text(after).len() implies text.skip(next)[i]
                == tail_text(after)[i] by {
                assert(text.skip(at)[i + 1 + numeral.len()] == tail[i + 1 + numeral.len()]);
            }
        }
        lemma_list_from_complete(text, next, done.push(rest[0]), after);
        assert(done.push(rest[0]) + after =~= done + rest);
    }
}

proof fn lemma_list_from_sound(text: Seq<char>, at: int, done: Seq<u8>)
    requires
        list_from(text, at, done) is Some,
    ensures
        ({
            let bytes = list_from(text, at, done)->0;
            &&& 0 <= at < text.len()
            &&& bytes.len() >= done.len()
            &&& bytes.take(done.len() as int) == done
            &&& text.skip(at) == tail_text(bytes.skip(done.len() as int))
        }),
    decreases text.len() - at,
{
    let bytes = list_from(text, at, done)->0;
    if text[at] == ']' {
        assert(bytes.take(done.len() as int) =~= done);
        assert(bytes.skip(done.len() as int) =~= Seq::<u8>::empty());
        assert(text.skip(at) =~= seq![']']);
    } else {
        let (value, next) = number_at(text, at + 1)->0;
        lemma_number_at_sound(text, at + 1);
        lemma_list_from_sound(text, next, done.push(value));
        let count = done.len() as int;
        let rest = bytes.skip(count);
        let after = bytes.skip(count + 1);
        assert(bytes.take(count + 1)[done.len() as int] == value);
        assert(bytes.take(done.len() as int) =~= done) by {
            assert forall|i: int| 0 <= i < done.len() implies bytes[i] == done[i] by {
                assert(bytes.take(count + 1)[i] == done.push(value)[i]);
            }
        }
        assert(rest[0] == value);
        assert(rest.skip(1) =~= after);
        assert(text.skip(at) =~= seq![','] + number_text(value) + tail_text(after)) by {
            let tail = seq![','] + number_text(value) + tail_text(after);
            assert(text.subrange(at + 1, next).len() == number_text(value).len());
            assert forall|i: int| 0 <= i < tail.len() implies text.skip(at)[i] == tail[i] by {
                if 1 <= i < 1 + number_text(value).len() {
                    assert(text.subrange(at + 1, next)[i - 1] == text[at + i]);
                } else if i >= 1 + number_text(value).len() {
                    assert(text.skip(next)[i - 1 - number_text(value).len()] == text[at + i]);
                }
            }
        }
    }
}

/// A text lists some bytes exactly when it is the text of those bytes.
proof fn lemma_listed(text: Seq<char>, bytes: Seq<u8>)
    ensures
        listed(text) == Some(bytes) <==> text_of(bytes) == text,
{
    if text_of(bytes) == text {
        if bytes.len() == 0 {
        } else {
            let numeral = number_text(bytes[0]);
            let after = bytes.skip(1);
            let next = numeral.len() as int + 1;
            lemma_tail_text_start(after);
            let whole = seq!['['] + numeral + tail_text(after);
            assert(text[1] == numeral[0]);
            assert(text.subrange(1, next) =~= numeral);
            assert(text[next] == tail_text(after)[0]);
            lemma_number_at_complete(text, 1, bytes[0]);
            assert(text.skip(next) =~= tail_text(after));
            lemma_list_from_complete(text, next, seq![bytes[0]], after);
            assert(seq![bytes[0]] + after =~= bytes);
        }
        assert(listed(text) == Some(bytes));
    }
    if listed(text) == Some(bytes) {
        if text[1] == ']' {
            assert(text =~= seq!['[', ']']);
        } else {
            let (value, next) = number_at(text, 1)->0;
            lemma_number_at_sound(text, 1);
            lemma_list_from_sound(text, next, seq![value]);
            assert(bytes.take(1)[0] == value);
            let after = bytes.skip(1);
            let whole = seq!['['] + number_text(value) + tail_text(after);
            assert(text.subrange(1, next).len() == number_text(value).len());
            assert forall|i: int| 0 <= i < whole.len() implies text[i] == whole[i] by {
                if 1 <= i < next {
                    assert(text.subrange(1, next)[i - 1] == text[i]);
                } else if i >= next {
                    assert(text.skip(next)[i - next] == text[i]);
                }
            }
            assert(text.len() == whole.len()) by {
                assert(text.skip(next).len() == tail_text(after).len());
            }
            assert(text =~= whole);
            assert(bytes[0] == value);
        }
        assert(text_of(bytes) == text);
    }
}

/// Two byte sequences with the same text are the same.
pub proof fn lemma_text_is_injective(a: Seq<u8>, b: Seq<u8>)
    requires
        text_of(a) == text_of(b),
    ensures
        a == b,
{
    lemma_listed(text_of(a), a);
    lemma_listed(text_of(a), b);
}

/// The bytes of a text are the bytes that it lists.
proof fn lemma_bytes_of_is_listed(text: Seq<char>)
    ensures
        bytes_of(text) == listed(text),
{
    if exists|bytes: Seq<u8>| text_of(bytes) == text {
        let bytes = choose|bytes: Seq<u8>| text_of(bytes) == text;
        lemma_listed(text, bytes);
    } else {
        if listed(text) is Some {
            lemma_listed(text, listed(text)->0);
        }
    }
}

/// The bytes of the text of a byte sequence are that sequence.
pub proof fn lemma_bytes_of_text(bytes: Seq<u8>)
    ensures
        bytes_of(text_of(bytes)) == Some(bytes),
{
    lemma_bytes_of_is_listed(text_of(bytes));
    lemma_listed(text_of(bytes), bytes);
}

proof fn lemma_tail_text_is_ascii(bytes: Seq<u8>)
    ensures
        vstd::utf8::is_ascii_chars(tail_text(bytes)),
    decreases bytes.len(),
{
    if bytes.len() > 0 {
        lemma_tail_text_is_ascii(bytes.skip(1));
        lemma_number_text(bytes[0]);
    }
}

/// A text of bytes holds brackets, commas and digits, which are all ASCII.
proof fn lemma_text_is_ascii(bytes: Seq<u8>)
    ensures
        vstd::utf8::is_ascii_chars(text_of(bytes)),
{
    if bytes.len() > 0 {
        lemma_tail_text_is_ascii(bytes.skip(1));
        lemma_number_text(bytes[0]);
    }
}

/// The text of one digit.
fn digit_text(value: u8) -> (text: &'static str)
    requires
        value < 10,
    ensures
        text@ == seq![digit(value as int)],
{
    proof {
        reveal_strlit("0");
        reveal_strlit("1");
        reveal_strlit("2");
        reveal_strlit("3");
        reveal_strlit("4");
        reveal_strlit("5");
        reveal_strlit("6");
        reveal_strlit("7");
        reveal_strlit("8");
        reveal_strlit("9");
    }
    let text = match value {
        0 => "0",
        1 => "1",
        2 => "2",
        3 => "3",
        4 => "4",
        5 => "5",
        6 => "6",
        7 => "7",
        8 => "8",
        _ => "9",
    };
    assert(text@ =~= seq![digit(value as int)]);
    text
}

/// Appends the decimal numeral of `value` to `text`.
fn append_number(text: &mut String, value: u8)
    ensures
        final(text)@ == old(text)@ + number_text(value),
{
    if value >= 100 {
        text.append(digit_text(value / 100));
    }
    if value >= 10 {
        text.append(digit_text(value / 10 % 10));
    }
    text.append(digit_text(value % 10));
    assert(text@ =~= old(text)@ + number_text(value));
}

/// The text of `bytes`.
pub fn bytes_to_text(bytes: &[u8]) -> (text: String)
    ensures
        text@ == text_of(bytes@),
{
    proof {
        reveal_strlit("[");
        reveal_strlit("]");
        reveal_strlit(",");
    }
    let mut text = String::new();
    text.append("[");
    if bytes.len() == 0 {
        text.append("]");
        assert(text@ =~= text_of(bytes@));
        return text;
    }
    append_number(&mut text, bytes[0]);
    assert(text@ + tail_text(bytes@.skip(1)) =~= text_of(bytes@));
    let mut i: usize = 1;
    while i < bytes.len()
        invariant
            1 <= i <= bytes@.len(),
            text@ + tail_text(bytes@.skip(i as int)) == text_of(bytes@),
        decreases bytes@.len() - i,
    {
        let ghost before = text@;
        text.append(",");
        append_number(&mut text, bytes[i]);
        proof {
            reveal_strlit(",");
            let rest = bytes@.skip(i as int);
            assert(rest.skip(1) =~= bytes@.skip(i + 1));
            assert(rest[0] == bytes@[i as int]);
            assert(tail_text(rest) == seq![','] + number_text(rest[0]) + tail_text(rest.skip(1)));
            assert(text@ =~= before + seq![','] + number_text(rest[0]));
            assert(text@ + tail_text(bytes@.skip(i + 1)) =~= before + tail_text(rest));
        }
        i += 1;
    }
    text.append("]");
    assert(text@ =~= text_of(bytes@));
    text
}

/// The number of characters of an ASCII text.
fn ascii_len(text: &str) -> (len: usize)
    requires
        text.is_ascii(),
    ensures
        len == text@.len(),
{
    proof {
        vstd::string::is_ascii_spec_bytes(text);
    }
    text.as_bytes().len()
}

/// The code of the character at a place of an ASCII text.
fn code_at(text: &str, at: usize) -> (code: u8)
    requires
        text.is_ascii(),
        at < text@.len(),
    ensures
        code as int == text@[at as int] as int,
{
    assert(text@[at as int] as int <= 127);
    text.get_ascii(at)
}

/// The digit at a place of an ASCII text, if there is one.
fn read_digit(text: &str, at: usize) -> (found: Option<u8>)
    requires
        text.is_ascii(),
    ensures
        found matches Some(value) ==> digit_at(text@, at as int) == Some(value as int),
        found is None ==> digit_at(text@, at as int) is None,
{
    if at < ascii_len(text) {
        let code = code_at(text, at);
        if 48 <= code && code <= 57 {
            Some(code - 48)
        } else {
            None
        }
    } else {
        None
    }
}

/// The number that starts at a place of an ASCII text, and the place after
/// it.
fn read_number(text: &str, at: usize) -> (found: Option<(u8, usize)>)
    requires
        text.is_ascii(),
    ensures
        found matches Some((value, next)) ==> number_at(text@, at as int) == Some(
            (value, next as int),
        ),
        found is None ==> number_at(text@, at as int) is None,
{
    let len = ascii_len(text);
    let first = match read_digit(text, at) {
        Some(digit) => digit,
        None => {
            return None;
        },
    };
    let second = match read_digit(text, at + 1) {
        Some(digit) => digit,
        None => {
            return Some((first, at + 1));
        },
    };
    if first == 0 {
        return None;
    }
    let third = match read_digit(text, at + 2) {
        Some(digit) => digit,
        None => {
            return Some((10 * first + second, at + 2));
        },
    };
    if read_digit(text, at + 3).is_some() {
        return None;
    }
    if first > 2 || (first == 2 && (second > 5 || (second == 5 && third > 5))) {
        return None;
    }
    Some((100 * first + 10 * second + third, at + 3))
}

/// The bytes that `text` is the text of, if it is the text of any.
pub fn text_to_bytes(text: &str) -> (bytes: Option<Vec<u8>>)
    ensures
        bytes matches Some(found) ==> bytes_of(text@) == Some(found@),
        bytes is None ==> bytes_of(text@) is None,
{
    proof {
        lemma_bytes_of_is_listed(text@);
    }
    if !text.is_ascii() {
        proof {
            if listed(text@) is Some {
                lemma_listed(text@, listed(text@)->0);
                lemma_text_is_ascii(listed(text@)->0);
            }
        }
        return None;
    }
    let len = ascii_len(text);
    if len < 2 || code_at(text, 0) != 91 {
        return None;
    }
    if code_at(text, 1) == 93 {
        if len == 2 {
            return Some(Vec::new());
        } else {
            return None;
        }
    }
    let (first, next) = match read_number(text, 1) {
        Some(found) => found,
        None => {
            return None;
        },
    };
    proof {
        lemma_number_at_sound(text@, 1);
    }
    let mut bytes: Vec<u8> = Vec::new();
    bytes.push(first);
    assert(bytes@ =~= seq![first]);
    let mut at = next;
    loop
        invariant
            text.is_ascii(),
            len == text@.len(),
            at <= len,
            bytes_of(text@) == listed(text@),
            listed(text@) == list_from(text@, at as int, bytes@),
        decreases len - at,
    {
        if at >= len {
            return None;
        }
        let code = code_at(text, at);
        if code == 93 {
            if at == len - 1 {
                return Some(bytes);
            } else {
                return None;
            }
        } else if code == 44 {
            match read_number(text, at + 1) {
                Some((value, next)) => {
                    proof {
                        lemma_number_at_sound(text@, at + 1);
                    }
                    bytes.push(value);
                    at = next;
                },
                None => {
                    return None;
                },
            }
        } else {
            return None;
        }
    }
}

} // verus!
