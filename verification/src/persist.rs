//! The canonical text of a linker: one JSON document without blanks, written and read
//! back byte for byte.

use vstd::prelude::*;
use vstd::utf8::valid_utf8;
use crate::blocks::{BlockDirection, BlockPos, ButtonFace, LeverFace, TrapdoorHalf};
use crate::linker::{IntfBlock, IntfType, Linker};
use crate::text::{
    bytes_eq, chars_text, digits, lemma_append, lemma_text_injective, push_decimal, push_text,
    signed_digits, string_from_utf8, text,
};

verus! {

/// Whether a byte is a decimal digit.
pub open spec fn is_digit(b: u8) -> bool {
    48 <= b <= 57
}

/// What is left of a text after a word at its start; nothing where it starts otherwise.
pub open spec fn strip(s: Seq<u8>, word: Seq<u8>) -> Option<Seq<u8>> {
    if word.len() <= s.len() && s.take(word.len() as int) == word {
        Some(s.skip(word.len() as int))
    } else {
        None
    }
}

/// A text that begins with a word is left without it.
pub proof fn lemma_strip(word: Seq<u8>, rest: Seq<u8>)
    ensures
        strip(word + rest, word) == Some(rest),
{
    assert((word + rest).take(word.len() as int) =~= word);
    assert((word + rest).skip(word.len() as int) =~= rest);
}

/// The number that a row of digits spells.
pub open spec fn value(s: Seq<u8>) -> nat
    decreases s.len(),
{
    if s.len() == 0 {
        0
    } else {
        value(s.drop_last()) * 10 + (s.last() - 48) as nat
    }
}

/// The length of the row of digits at the start of a text.
pub open spec fn run_len(s: Seq<u8>) -> nat
    decreases s.len(),
{
    if s.len() == 0 || !is_digit(s[0]) {
        0
    } else {
        1 + run_len(s.drop_first())
    }
}

/// The number at the start of a text and what follows it. The number is its row of
/// digits, which is not empty, has no leading zero and spells no more than `limit`.
pub open spec fn leading_number(s: Seq<u8>, limit: nat) -> Option<(nat, Seq<u8>)> {
    let n = run_len(s);
    if n == 0 || (n >= 2 && s[0] == 48) || value(s.take(n as int)) > limit {
        None
    } else {
        Some((value(s.take(n as int)), s.skip(n as int)))
    }
}

/// The signed number at the start of a text and what follows it: a minus sign and a
/// number other than 0 up to `low`, or a number up to `high`.
pub open spec fn leading_int(s: Seq<u8>, low: nat, high: nat) -> Option<(int, Seq<u8>)> {
    if s.len() > 0 && s[0] == 45 {
        match leading_number(s.skip(1), low) {
            Some((n, rest)) => if n == 0 {
                None
            } else {
                Some((-(n as int), rest))
            },
            None => None,
        }
    } else {
        match leading_number(s, high) {
            Some((n, rest)) => Some((n as int, rest)),
            None => None,
        }
    }
}

pub proof fn lemma_run_len_bound(s: Seq<u8>)
    ensures
        run_len(s) <= s.len(),
        forall|k: int| 0 <= k < run_len(s) ==> is_digit(#[trigger] s[k]),
        run_len(s) < s.len() ==> !is_digit(s[run_len(s) as int]),
    decreases s.len(),
{
    if s.len() > 0 && is_digit(s[0]) {
        lemma_run_len_bound(s.drop_first());
        assert forall|k: int| 0 <= k < run_len(s) implies is_digit(#[trigger] s[k]) by {
            if k > 0 {
                assert(s[k] == s.drop_first()[k - 1]);
            }
        }
    }
}

/// A row of digits before a text that starts with no digit is the whole run.
pub proof fn lemma_run_len_of(row: Seq<u8>, rest: Seq<u8>)
    requires
        forall|k: int| 0 <= k < row.len() ==> is_digit(#[trigger] row[k]),
        rest.len() == 0 || !is_digit(rest[0]),
    ensures
        run_len(row + rest) == row.len(),
    decreases row.len(),
{
    if row.len() == 0 {
        assert(row + rest =~= rest);
    } else {
        assert((row + rest).drop_first() =~= row.drop_first() + rest);
        lemma_run_len_of(row.drop_first(), rest);
    }
}

/// The digits of a number are digits, spell the number, and start with 0 only for 0.
pub proof fn lemma_digits(n: nat)
    ensures
        digits(n).len() >= 1,
        forall|k: int| 0 <= k < digits(n).len() ==> is_digit(#[trigger] digits(n)[k]),
        value(digits(n)) == n,
        digits(n).len() >= 2 ==> digits(n)[0] != 48,
        n > 0 ==> digits(n)[0] != 48,
    decreases n,
{
    reveal_with_fuel(value, 2);
    if n >= 10 {
        lemma_digits(n / 10);
        assert(digits(n).drop_last() =~= digits(n / 10));
        assert(digits(n)[0] == digits(n / 10)[0]);
    } else {
        assert(digits(n).drop_last() =~= Seq::<u8>::empty());
    }
}

/// Reading the digits of a number gives the number and what follows them, where that
/// starts with no digit.
pub proof fn lemma_leading_number(n: nat, limit: nat, rest: Seq<u8>)
    requires
        n <= limit,
        rest.len() == 0 || !is_digit(rest[0]),
    ensures
        leading_number(digits(n) + rest, limit) == Some((n, rest)),
{
    lemma_digits(n);
    lemma_run_len_of(digits(n), rest);
    let s = digits(n) + rest;
    assert(s.take(digits(n).len() as int) =~= digits(n));
    assert(s.skip(digits(n).len() as int) =~= rest);
    assert(s[0] == digits(n)[0]);
}

/// Reading the signed digits of a number gives the number and what follows them.
pub proof fn lemma_leading_int(i: int, low: nat, high: nat, rest: Seq<u8>)
    requires
        -(low as int) <= i <= high,
        rest.len() == 0 || !is_digit(rest[0]),
    ensures
        leading_int(signed_digits(i) + rest, low, high) == Some((i, rest)),
{
    if i < 0 {
        let s = signed_digits(i) + rest;
        assert(s.skip(1) =~= digits((-i) as nat) + rest);
        lemma_leading_number((-i) as nat, low, rest);
    } else {
        lemma_digits(i as nat);
        assert((signed_digits(i) + rest)[0] == digits(i as nat)[0]);
        lemma_leading_number(i as nat, high, rest);
    }
}

proof fn lemma_value_take(s: Seq<u8>, k: int)
    requires
        0 <= k < s.len(),
    ensures
        value(s.take(k + 1)) == value(s.take(k)) * 10 + (s[k] - 48) as nat,
{
    assert(s.take(k + 1).drop_last() =~= s.take(k));
}

proof fn lemma_run_len_skip(s: Seq<u8>, k: nat)
    requires
        k <= s.len(),
        forall|j: int| 0 <= j < k ==> is_digit(#[trigger] s[j]),
    ensures
        run_len(s) == k + run_len(s.skip(k as int)),
    decreases k,
{
    if k == 0 {
        assert(s.skip(0) =~= s);
    } else {
        assert(s.drop_first().skip(k - 1) =~= s.skip(k as int));
        assert forall|j: int| 0 <= j < k - 1 implies is_digit(#[trigger] s.drop_first()[j]) by {
            assert(s.drop_first()[j] == s[j + 1]);
        }
        lemma_run_len_skip(s.drop_first(), (k - 1) as nat);
    }
}

/// A position in a text.
pub open spec fn at(bytes: Seq<u8>, pos: usize) -> Seq<u8> {
    bytes.skip(pos as int)
}

proof fn lemma_at_step(bytes: Seq<u8>, pos: usize, k: int)
    requires
        0 <= k,
        pos + k <= bytes.len(),
    ensures
        at(bytes, pos).skip(k) == bytes.skip(pos + k),
        at(bytes, pos).len() == bytes.len() - pos,
        forall|j: int| 0 <= j < bytes.len() - pos ==> at(bytes, pos)[j] == bytes[pos + j],
{
    assert(at(bytes, pos).skip(k) =~= bytes.skip(pos + k));
}

/// Takes a word from the text at `pos`: the position after it, where the text goes on
/// with the word.
pub fn expect(bytes: &[u8], pos: usize, word: &str) -> (end: Option<usize>)
    requires
        pos <= bytes@.len(),
    ensures
        match strip(at(bytes@, pos), text(word)) {
            Some(rest) => end matches Some(e) && pos <= e <= bytes@.len() && at(bytes@, e) == rest,
            None => end is None,
        },
{
    let w = word.as_bytes();
    proof {
        lemma_at_step(bytes@, pos, 0);
    }
    if w.len() > bytes.len() - pos {
        return None;
    }
    let mut i: usize = 0;
    while i < w.len()
        invariant
            pos <= bytes@.len(),
            w@ == text(word),
            w@.len() <= bytes@.len() - pos,
            bytes@.len() <= usize::MAX,
            w@.len() == w.len(),
            i <= w@.len(),
            forall|k: int| 0 <= k < i ==> bytes@[pos + k] == w@[k],
        decreases w.len() - i,
    {
        if bytes[pos + i] != w[i] {
            proof {
                lemma_at_step(bytes@, pos, 0);
                assert(at(bytes@, pos).take(w@.len() as int)[i as int] != w@[i as int]);
            }
            return None;
        }
        i += 1;
    }
    proof {
        lemma_at_step(bytes@, pos, w@.len() as int);
        assert(at(bytes@, pos).take(w@.len() as int) =~= w@);
    }
    Some(pos + w.len())
}

/// Reads the number at `pos`: its value and the position after its digits.
pub fn read_number(bytes: &[u8], pos: usize, limit: u32) -> (found: Option<(u32, usize)>)
    requires
        pos <= bytes@.len(),
    ensures
        match leading_number(at(bytes@, pos), limit as nat) {
            Some((n, rest)) => found matches Some((v, e)) && v == n && pos <= e <= bytes@.len() && at(
                bytes@,
                e,
            ) == rest,
            None => found is None,
        },
{
    let ghost s = at(bytes@, pos);
    proof {
        lemma_at_step(bytes@, pos, 0);
        lemma_run_len_bound(s);
    }
    let mut e: usize = pos;
    let mut acc: u64 = 0;
    let mut over = false;
    while e < bytes.len() && 48 <= bytes[e] && bytes[e] <= 57
        invariant
            pos <= e <= bytes@.len(),
            s == at(bytes@, pos),
            forall|j: int| 0 <= j < e - pos ==> is_digit(#[trigger] s[j]),
            !over ==> acc == value(s.take(e - pos)) && acc <= limit,
            over ==> value(s.take(e - pos)) > limit,
        decreases bytes.len() - e,
    {
        proof {
            lemma_at_step(bytes@, pos, 0);
            lemma_value_take(s, e - pos);
        }
        if !over {
            acc = acc * 10 + (bytes[e] - 48) as u64;
            if acc > limit as u64 {
                over = true;
            }
        }
        e += 1;
    }
    proof {
        lemma_at_step(bytes@, pos, e - pos);
        lemma_run_len_skip(s, (e - pos) as nat);
        assert(run_len(s.skip(e - pos)) == 0) by {
            if e < bytes@.len() {
                assert(s.skip(e - pos)[0] == bytes@[e as int]);
            }
        }
        assert(run_len(s) == e - pos);
    }
    if e == pos || over || (e - pos >= 2 && bytes[pos] == 48) {
        None
    } else {
        Some((acc as u32, e))
    }
}

/// Reads the signed number at `pos`: its value and the position after its digits.
pub fn read_int(bytes: &[u8], pos: usize) -> (found: Option<(i32, usize)>)
    requires
        pos <= bytes@.len(),
    ensures
        match leading_int(at(bytes@, pos), 0x8000_0000, 0x7FFF_FFFF) {
            Some((n, rest)) => found matches Some((v, e)) && v == n && pos <= e <= bytes@.len() && at(
                bytes@,
                e,
            ) == rest,
            None => found is None,
        },
{
    proof {
        lemma_at_step(bytes@, pos, 0);
    }
    if pos < bytes.len() && bytes[pos] == 45 {
        proof {
            lemma_at_step(bytes@, pos, 1);
        }
        match read_number(bytes, pos + 1, 0x8000_0000) {
            Some((n, e)) => {
                if n == 0 {
                    None
                } else {
                    Some(((-(n as i64)) as i32, e))
                }
            },
            None => None,
        }
    } else {
        match read_number(bytes, pos, 0x7FFF_FFFF) {
            Some((n, e)) => Some((n as i32, e)),
            None => None,
        }
    }
}


/// The byte that opens and closes a string.
pub const QUOTE: u8 = 0x22;

/// The byte that starts an escape.
pub const BACKSLASH: u8 = 0x5C;

/// The hexadecimal digit of a value below 16, in lower case.
pub open spec fn hex_digit(n: u8) -> u8 {
    if n < 10 {
        (48 + n) as u8
    } else {
        (87 + n) as u8
    }
}

/// The value of a hexadecimal digit in lower case.
pub open spec fn hex_value(b: u8) -> Option<u8> {
    if 48 <= b <= 57 {
        Some((b - 48) as u8)
    } else if 97 <= b <= 102 {
        Some((b - 87) as u8)
    } else {
        None
    }
}

/// A byte as it stands inside a string: quote and backslash behind a backslash, a
/// control byte as `\u00` and two hexadecimal digits, any other byte as it is.
pub open spec fn escape_byte(b: u8) -> Seq<u8> {
    if b == QUOTE || b == BACKSLASH {
        seq![BACKSLASH, b]
    } else if b < 0x20 {
        seq![BACKSLASH, 0x75u8, 0x30u8, 0x30u8, hex_digit(b / 16), hex_digit(b % 16)]
    } else {
        seq![b]
    }
}

/// The bytes of a text as they stand inside a string.
pub open spec fn escaped(bytes: Seq<u8>) -> Seq<u8>
    decreases bytes.len(),
{
    if bytes.len() == 0 {
        Seq::empty()
    } else {
        escape_byte(bytes[0]) + escaped(bytes.drop_first())
    }
}

/// A text as a string between quotes.
pub open spec fn quoted(bytes: Seq<u8>) -> Seq<u8> {
    seq![QUOTE] + escaped(bytes) + seq![QUOTE]
}

/// A reading with one more byte in front of what was read.
pub open spec fn prepend(b: u8, read: Option<(Seq<u8>, Seq<u8>)>) -> Option<(Seq<u8>, Seq<u8>)> {
    match read {
        Some((bytes, rest)) => Some((seq![b] + bytes, rest)),
        None => None,
    }
}

/// A reading with bytes in front of what was read.
pub open spec fn with_prefix(head: Seq<u8>, read: Option<(Seq<u8>, Seq<u8>)>) -> Option<
    (Seq<u8>, Seq<u8>),
> {
    match read {
        Some((bytes, rest)) => Some((head + bytes, rest)),
        None => None,
    }
}

/// The text of a string whose opening quote was taken, and what follows its closing
/// quote. A control byte, an escape of any other form, or a missing closing quote
/// leaves nothing.
pub open spec fn unescaped(s: Seq<u8>) -> Option<(Seq<u8>, Seq<u8>)>
    decreases s.len(),
{
    if s.len() == 0 {
        None
    } else if s[0] == QUOTE {
        Some((Seq::empty(), s.skip(1)))
    } else if s[0] == BACKSLASH {
        if s.len() >= 2 && (s[1] == QUOTE || s[1] == BACKSLASH) {
            prepend(s[1], unescaped(s.skip(2)))
        } else if s.len() >= 6 && s[1] == 0x75 && s[2] == 0x30 && s[3] == 0x30 && (s[4] == 0x30 || s[4]
            == 0x31) && hex_value(s[5]) is Some {
            prepend(((s[4] - 48) * 16 + hex_value(s[5])->0) as u8, unescaped(s.skip(6)))
        } else {
            None
        }
    } else if s[0] < 0x20 {
        None
    } else {
        prepend(s[0], unescaped(s.skip(1)))
    }
}

/// The text of the string at the start of a text, and what follows the string.
pub open spec fn unquoted(s: Seq<u8>) -> Option<(Seq<u8>, Seq<u8>)> {
    if s.len() > 0 && s[0] == QUOTE {
        unescaped(s.skip(1))
    } else {
        None
    }
}

pub proof fn lemma_escaped_push(bytes: Seq<u8>, b: u8)
    ensures
        escaped(bytes.push(b)) == escaped(bytes) + escape_byte(b),
    decreases bytes.len(),
{
    if bytes.len() == 0 {
        let one = bytes.push(b);
        assert(one.drop_first() =~= Seq::<u8>::empty());
        assert(one[0] == b);
        assert(escaped(one.drop_first()) =~= Seq::<u8>::empty());
        assert(escaped(bytes) =~= Seq::<u8>::empty());
        assert(escaped(one) == escape_byte(b) + escaped(one.drop_first()));
        assert(escaped(one) =~= escaped(bytes) + escape_byte(b));
    } else {
        assert(bytes.push(b)[0] == bytes[0]);
        assert(bytes.push(b).drop_first() =~= bytes.drop_first().push(b));
        lemma_escaped_push(bytes.drop_first(), b);
        assert(escaped(bytes.push(b)) =~= escaped(bytes) + escape_byte(b));
    }
}

/// Reading what was written inside a string gives the text back.
pub proof fn lemma_unescaped(bytes: Seq<u8>, rest: Seq<u8>)
    ensures
        unescaped(escaped(bytes) + seq![QUOTE] + rest) == Some((bytes, rest)),
    decreases bytes.len(),
{
    let s = escaped(bytes) + seq![QUOTE] + rest;
    if bytes.len() == 0 {
        assert(s.skip(1) =~= rest);
    } else {
        let b = bytes[0];
        let tail = bytes.drop_first();
        let after = escaped(tail) + seq![QUOTE] + rest;
        lemma_unescaped(tail, rest);
        assert(s =~= escape_byte(b) + after);
        assert(seq![b] + tail =~= bytes);
        if b == QUOTE || b == BACKSLASH {
            assert(s.skip(2) =~= after);
        } else if b < 0x20 {
            assert(s.skip(6) =~= after);
            assert(s[4] == hex_digit(b / 16) && s[5] == hex_digit(b % 16));
            assert(((s[4] - 48) * 16 + hex_value(s[5])->0) as u8 == b);
        } else {
            assert(s.skip(1) =~= after);
        }
    }
}

/// Reading a string that was written gives its text back.
pub proof fn lemma_unquoted(bytes: Seq<u8>, rest: Seq<u8>)
    ensures
        unquoted(quoted(bytes) + rest) == Some((bytes, rest)),
{
    let s = quoted(bytes) + rest;
    assert(s.skip(1) =~= escaped(bytes) + seq![QUOTE] + rest);
    lemma_unescaped(bytes, rest);
}

fn hex(n: u8) -> (digit: u8)
    requires
        n < 16,
    ensures
        digit == hex_digit(n),
{
    if n < 10 {
        48 + n
    } else {
        87 + n
    }
}

/// Writes a text as a string between quotes.
pub fn push_quoted(out: &mut Vec<u8>, bytes: &[u8])
    ensures
        final(out)@ == old(out)@ + quoted(bytes@),
{
    out.push(QUOTE);
    let mut k: usize = 0;
    assert(bytes@.take(0) =~= Seq::<u8>::empty());
    assert(out@ =~= old(out)@ + seq![QUOTE] + escaped(bytes@.take(0)));
    while k < bytes.len()
        invariant
            k <= bytes@.len(),
            out@ == old(out)@ + seq![QUOTE] + escaped(bytes@.take(k as int)),
        decreases bytes.len() - k,
    {
        let b = bytes[k];
        proof {
            lemma_escaped_push(bytes@.take(k as int), b);
            assert(bytes@.take(k + 1) =~= bytes@.take(k as int).push(b));
        }
        let ghost before = out@;
        if b == QUOTE || b == BACKSLASH {
            out.push(BACKSLASH);
            out.push(b);
        } else if b < 0x20 {
            out.push(BACKSLASH);
            out.push(0x75);
            out.push(0x30);
            out.push(0x30);
            out.push(hex(b / 16));
            out.push(hex(b % 16));
        } else {
            out.push(b);
        }
        assert(out@ =~= before + escape_byte(b));
        k += 1;
        assert(out@ =~= old(out)@ + seq![QUOTE] + escaped(bytes@.take(k as int)));
    }
    assert(bytes@.take(k as int) =~= bytes@);
    out.push(QUOTE);
    assert(out@ =~= old(out)@ + quoted(bytes@));
}

fn hex_of(b: u8) -> (found: Option<u8>)
    ensures
        found == hex_value(b),
{
    if 48 <= b && b <= 57 {
        Some(b - 48)
    } else if 97 <= b && b <= 102 {
        Some(b - 87)
    } else {
        None
    }
}

proof fn lemma_with_prefix_push(head: Seq<u8>, b: u8, read: Option<(Seq<u8>, Seq<u8>)>)
    ensures
        with_prefix(head, prepend(b, read)) == with_prefix(head.push(b), read),
{
    match read {
        Some((bytes, rest)) => {
            assert(head + (seq![b] + bytes) =~= head.push(b) + bytes);
        },
        None => {},
    }
}

/// Reads the string at `pos`: its text and the position after its closing quote.
pub fn read_string(bytes: &[u8], pos: usize) -> (found: Option<(Vec<u8>, usize)>)
    requires
        pos <= bytes@.len(),
    ensures
        match unquoted(at(bytes@, pos)) {
            Some((name, rest)) => found matches Some((v, e)) && v@ == name && pos <= e <= bytes@.len()
                && at(bytes@, e) == rest,
            None => found is None,
        },
{
    proof {
        lemma_at_step(bytes@, pos, 0);
    }
    if pos >= bytes.len() || bytes[pos] != QUOTE {
        return None;
    }
    let mut acc: Vec<u8> = Vec::new();
    let mut e: usize = pos + 1;
    proof {
        lemma_at_step(bytes@, pos, 1);
        assert(with_prefix(acc@, unescaped(at(bytes@, e))) == unescaped(at(bytes@, e))) by {
            match unescaped(at(bytes@, e)) {
                Some((t, r)) => {
                    assert(acc@ + t =~= t);
                },
                None => {},
            }
        }
    }
    loop
        invariant
            pos < e <= bytes@.len(),
            bytes@.len() <= usize::MAX,
            unquoted(at(bytes@, pos)) == with_prefix(acc@, unescaped(at(bytes@, e))),
        decreases bytes@.len() - e,
    {
        let ghost s = at(bytes@, e);
        proof {
            lemma_at_step(bytes@, e, 0);
        }
        if e >= bytes.len() {
            return None;
        }
        let b = bytes[e];
        if b == QUOTE {
            proof {
                lemma_at_step(bytes@, e, 1);
                assert(acc@ + Seq::<u8>::empty() =~= acc@);
            }
            return Some((acc, e + 1));
        } else if b == BACKSLASH {
            if bytes.len() - e >= 2 && (bytes[e + 1] == QUOTE || bytes[e + 1] == BACKSLASH) {
                proof {
                    lemma_at_step(bytes@, e, 2);
                    lemma_with_prefix_push(acc@, bytes@[e + 1], unescaped(s.skip(2)));
                }
                acc.push(bytes[e + 1]);
                e += 2;
            } else if bytes.len() - e >= 6 && bytes[e + 1] == 0x75 && bytes[e + 2] == 0x30 && bytes[e
                + 3] == 0x30 && (bytes[e + 4] == 0x30 || bytes[e + 4] == 0x31) {
                match hex_of(bytes[e + 5]) {
                    Some(low) => {
                        let value: u8 = (bytes[e + 4] - 48) * 16 + low;
                        proof {
                            lemma_at_step(bytes@, e, 6);
                            lemma_with_prefix_push(acc@, value, unescaped(s.skip(6)));
                        }
                        acc.push(value);
                        e += 6;
                    },
                    None => {
                        return None;
                    },
                }
            } else {
                return None;
            }
        } else if b < 0x20 {
            return None;
        } else {
            proof {
                lemma_at_step(bytes@, e, 1);
                lemma_with_prefix_push(acc@, b, unescaped(s.skip(1)));
            }
            acc.push(b);
            e += 1;
        }
    }
}


/// The name of a direction in the text.
pub open spec fn direction_name(d: BlockDirection) -> Seq<u8> {
    match d {
        BlockDirection::North => text("North"),
        BlockDirection::South => text("South"),
        BlockDirection::East => text("East"),
        BlockDirection::West => text("West"),
    }
}

/// The direction that a name stands for.
pub open spec fn direction_of(name: Seq<u8>) -> Option<BlockDirection> {
    if name == text("North") {
        Some(BlockDirection::North)
    } else if name == text("South") {
        Some(BlockDirection::South)
    } else if name == text("East") {
        Some(BlockDirection::East)
    } else if name == text("West") {
        Some(BlockDirection::West)
    } else {
        None
    }
}

/// The name of a trapdoor half in the text.
pub open spec fn half_name(h: TrapdoorHalf) -> Seq<u8> {
    match h {
        TrapdoorHalf::Top => text("Top"),
        TrapdoorHalf::Bottom => text("Bottom"),
    }
}

/// The trapdoor half that a name stands for.
pub open spec fn half_of(name: Seq<u8>) -> Option<TrapdoorHalf> {
    if name == text("Top") {
        Some(TrapdoorHalf::Top)
    } else if name == text("Bottom") {
        Some(TrapdoorHalf::Bottom)
    } else {
        None
    }
}

/// The name of a place on the supporting block: 0 the floor, 1 the wall, 2 the ceiling.
pub open spec fn face_name(id: u32) -> Seq<u8> {
    if id == 0 {
        text("Floor")
    } else if id == 1 {
        text("Wall")
    } else {
        text("Ceiling")
    }
}

/// The place on the supporting block that a name stands for.
pub open spec fn face_of(name: Seq<u8>) -> Option<u32> {
    if name == text("Floor") {
        Some(0u32)
    } else if name == text("Wall") {
        Some(1u32)
    } else if name == text("Ceiling") {
        Some(2u32)
    } else {
        None
    }
}

proof fn lemma_differ(a: &str, b: &str)
    requires
        a@ != b@,
    ensures
        text(a) != text(b),
{
    if text(a) == text(b) {
        lemma_text_injective(a, b);
    }
}

/// No two names of one kind are the same text.
pub proof fn lemma_names_differ()
    ensures
        text("North") != text("South"),
        text("North") != text("East"),
        text("North") != text("West"),
        text("South") != text("East"),
        text("South") != text("West"),
        text("East") != text("West"),
        text("Top") != text("Bottom"),
        text("Floor") != text("Wall"),
        text("Floor") != text("Ceiling"),
        text("Wall") != text("Ceiling"),
        text("Lamp") != text("HexLamp"),
        text("Lamp") != text("PressurePlate"),
        text("HexLamp") != text("PressurePlate"),
        text("Trapdoor") != text("Lever"),
        text("Trapdoor") != text("Button"),
        text("Lever") != text("Button"),
        text("facing") != text("face"),
{
    reveal_strlit("North");
    reveal_strlit("South");
    reveal_strlit("East");
    reveal_strlit("West");
    reveal_strlit("Top");
    reveal_strlit("Bottom");
    reveal_strlit("Floor");
    reveal_strlit("Wall");
    reveal_strlit("Ceiling");
    reveal_strlit("Lamp");
    reveal_strlit("HexLamp");
    reveal_strlit("PressurePlate");
    reveal_strlit("Trapdoor");
    reveal_strlit("Lever");
    reveal_strlit("Button");
    reveal_strlit("facing");
    reveal_strlit("face");
    assert("North"@[0] != "South"@[0]);
    assert("North"@.len() != "East"@.len());
    assert("North"@.len() != "West"@.len());
    assert("South"@.len() != "East"@.len());
    assert("South"@.len() != "West"@.len());
    assert("East"@[0] != "West"@[0]);
    assert("Top"@.len() != "Bottom"@.len());
    assert("Floor"@.len() != "Wall"@.len());
    assert("Floor"@.len() != "Ceiling"@.len());
    assert("Wall"@.len() != "Ceiling"@.len());
    assert("Lamp"@.len() != "HexLamp"@.len());
    assert("Lamp"@.len() != "PressurePlate"@.len());
    assert("HexLamp"@.len() != "PressurePlate"@.len());
    assert("Trapdoor"@.len() != "Lever"@.len());
    assert("Trapdoor"@.len() != "Button"@.len());
    assert("Lever"@.len() != "Button"@.len());
    assert("facing"@.len() != "face"@.len());
    lemma_differ("North", "South");
    lemma_differ("North", "East");
    lemma_differ("North", "West");
    lemma_differ("South", "East");
    lemma_differ("South", "West");
    lemma_differ("East", "West");
    lemma_differ("Top", "Bottom");
    lemma_differ("Floor", "Wall");
    lemma_differ("Floor", "Ceiling");
    lemma_differ("Wall", "Ceiling");
    lemma_differ("Lamp", "HexLamp");
    lemma_differ("Lamp", "PressurePlate");
    lemma_differ("HexLamp", "PressurePlate");
    lemma_differ("Trapdoor", "Lever");
    lemma_differ("Trapdoor", "Button");
    lemma_differ("Lever", "Button");
    lemma_differ("facing", "face");
}

/// A kind with two properties: `{"Tag":{"key":"value","key":"value"}}`.
pub open spec fn tagged_text(tag: Seq<u8>, k1: Seq<u8>, v1: Seq<u8>, k2: Seq<u8>, v2: Seq<u8>) -> Seq<u8> {
    seq![0x7Bu8] + quoted(tag) + text(":{") + quoted(k1) + text(":") + quoted(v1) + text(",") + quoted(
        k2,
    ) + text(":") + quoted(v2) + text("}}")
}

/// The tag, the keys and the values of a kind with two properties at the start of a
/// text, and what follows it.
pub open spec fn leading_tagged(s: Seq<u8>) -> Option<(Seq<Seq<u8>>, Seq<u8>)> {
    match strip(s, seq![0x7Bu8]) {
        Some(r0) => match unquoted(r0) {
            Some((tag, r1)) => match strip(r1, text(":{")) {
                Some(r2) => match unquoted(r2) {
                    Some((k1, r3)) => match strip(r3, text(":")) {
                        Some(r4) => match unquoted(r4) {
                            Some((v1, r5)) => match strip(r5, text(",")) {
                                Some(r6) => match unquoted(r6) {
                                    Some((k2, r7)) => match strip(r7, text(":")) {
                                        Some(r8) => match unquoted(r8) {
                                            Some((v2, r9)) => match strip(r9, text("}}")) {
                                                Some(rest) => Some((seq![tag, k1, v1, k2, v2], rest)),
                                                None => None,
                                            },
                                            None => None,
                                        },
                                        None => None,
                                    },
                                    None => None,
                                },
                                None => None,
                            },
                            None => None,
                        },
                        None => None,
                    },
                    None => None,
                },
                None => None,
            },
            None => None,
        },
        None => None,
    }
}

/// Reading a kind with two properties that was written gives its parts back.
pub proof fn lemma_leading_tagged(
    tag: Seq<u8>,
    k1: Seq<u8>,
    v1: Seq<u8>,
    k2: Seq<u8>,
    v2: Seq<u8>,
    rest: Seq<u8>,
)
    ensures
        leading_tagged(tagged_text(tag, k1, v1, k2, v2) + rest) == Some(
            (seq![tag, k1, v1, k2, v2], rest),
        ),
{
    let q10 = text("}}") + rest;
    let q9 = quoted(v2) + q10;
    let q8 = text(":") + q9;
    let q7 = quoted(k2) + q8;
    let q6 = text(",") + q7;
    let q5 = quoted(v1) + q6;
    let q4 = text(":") + q5;
    let q3 = quoted(k1) + q4;
    let q2 = text(":{") + q3;
    let q1 = quoted(tag) + q2;
    lemma_append(seq![0x7Bu8] + quoted(tag) + text(":{") + quoted(k1) + text(":") + quoted(v1) + text(",") + quoted(k2) + text(":") + quoted(v2), text("}}"), rest);
    lemma_append(seq![0x7Bu8] + quoted(tag) + text(":{") + quoted(k1) + text(":") + quoted(v1) + text(",") + quoted(k2) + text(":"), quoted(v2), q10);
    lemma_append(seq![0x7Bu8] + quoted(tag) + text(":{") + quoted(k1) + text(":") + quoted(v1) + text(",") + quoted(k2), text(":"), q9);
    lemma_append(seq![0x7Bu8] + quoted(tag) + text(":{") + quoted(k1) + text(":") + quoted(v1) + text(","), quoted(k2), q8);
    lemma_append(seq![0x7Bu8] + quoted(tag) + text(":{") + quoted(k1) + text(":") + quoted(v1), text(","), q7);
    lemma_append(seq![0x7Bu8] + quoted(tag) + text(":{") + quoted(k1) + text(":"), quoted(v1), q6);
    lemma_append(seq![0x7Bu8] + quoted(tag) + text(":{") + quoted(k1), text(":"), q5);
    lemma_append(seq![0x7Bu8] + quoted(tag) + text(":{"), quoted(k1), q4);
    lemma_append(seq![0x7Bu8] + quoted(tag), text(":{"), q3);
    lemma_append(seq![0x7Bu8], quoted(tag), q2);
    assert(tagged_text(tag, k1, v1, k2, v2) + rest == seq![0x7Bu8] + q1);
    lemma_strip(seq![0x7Bu8], q1);
    lemma_unquoted(tag, q2);
    lemma_strip(text(":{"), q3);
    lemma_unquoted(k1, q4);
    lemma_strip(text(":"), q5);
    lemma_unquoted(v1, q6);
    lemma_strip(text(","), q7);
    lemma_unquoted(k2, q8);
    lemma_strip(text(":"), q9);
    lemma_unquoted(v2, q10);
    lemma_strip(text("}}"), rest);
}

/// The kind of an interface block in the text: its name for a kind without properties,
/// and its name over its two properties for the others.
pub open spec fn type_text(ty: IntfType) -> Seq<u8> {
    match ty {
        IntfType::Lamp => quoted(text("Lamp")),
        IntfType::HexLamp => quoted(text("HexLamp")),
        IntfType::PressurePlate => quoted(text("PressurePlate")),
        IntfType::Trapdoor { facing, half } => tagged_text(
            text("Trapdoor"),
            text("facing"),
            direction_name(facing),
            text("half"),
            half_name(half),
        ),
        IntfType::Lever { face, facing } => tagged_text(
            text("Lever"),
            text("face"),
            face_name(face.spec_id()),
            text("facing"),
            direction_name(facing),
        ),
        IntfType::Button { face, facing } => tagged_text(
            text("Button"),
            text("face"),
            face_name(face.spec_id()),
            text("facing"),
            direction_name(facing),
        ),
    }
}

/// The kind that the parts of a kind with two properties stand for.
pub open spec fn tagged_kind(parts: Seq<Seq<u8>>) -> Option<IntfType> {
    if parts[0] == text("Trapdoor") {
        if parts[1] == text("facing") && parts[3] == text("half") && direction_of(parts[2]) is Some
            && half_of(parts[4]) is Some {
            Some(
                IntfType::Trapdoor {
                    facing: direction_of(parts[2])->0,
                    half: half_of(parts[4])->0,
                },
            )
        } else {
            None
        }
    } else if parts[0] == text("Lever") {
        if parts[1] == text("face") && parts[3] == text("facing") && face_of(parts[2]) is Some
            && direction_of(parts[4]) is Some {
            Some(
                IntfType::Lever {
                    face: LeverFace::spec_from_id(face_of(parts[2])->0),
                    facing: direction_of(parts[4])->0,
                },
            )
        } else {
            None
        }
    } else if parts[0] == text("Button") {
        if parts[1] == text("face") && parts[3] == text("facing") && face_of(parts[2]) is Some
            && direction_of(parts[4]) is Some {
            Some(
                IntfType::Button {
                    face: ButtonFace::spec_from_id(face_of(parts[2])->0),
                    facing: direction_of(parts[4])->0,
                },
            )
        } else {
            None
        }
    } else {
        None
    }
}

/// The kind that a name without properties stands for.
pub open spec fn plain_kind(name: Seq<u8>) -> Option<IntfType> {
    if name == text("Lamp") {
        Some(IntfType::Lamp)
    } else if name == text("HexLamp") {
        Some(IntfType::HexLamp)
    } else if name == text("PressurePlate") {
        Some(IntfType::PressurePlate)
    } else {
        None
    }
}

/// The kind at the start of a text, and what follows it.
pub open spec fn leading_type(s: Seq<u8>) -> Option<(IntfType, Seq<u8>)> {
    if s.len() > 0 && s[0] == QUOTE {
        match unquoted(s) {
            Some((name, rest)) => match plain_kind(name) {
                Some(ty) => Some((ty, rest)),
                None => None,
            },
            None => None,
        }
    } else {
        match leading_tagged(s) {
            Some((parts, rest)) => match tagged_kind(parts) {
                Some(ty) => Some((ty, rest)),
                None => None,
            },
            None => None,
        }
    }
}

proof fn lemma_direction(d: BlockDirection)
    ensures
        direction_of(direction_name(d)) == Some(d),
{
    lemma_names_differ();
}

proof fn lemma_half(h: TrapdoorHalf)
    ensures
        half_of(half_name(h)) == Some(h),
{
    lemma_names_differ();
}

proof fn lemma_face(id: u32)
    requires
        id < 3,
    ensures
        face_of(face_name(id)) == Some(id),
{
    lemma_names_differ();
}

proof fn lemma_plain_kind(ty: IntfType)
    requires
        ty is Lamp || ty is HexLamp || ty is PressurePlate,
    ensures
        plain_kind(
            match ty {
                IntfType::Lamp => text("Lamp"),
                IntfType::HexLamp => text("HexLamp"),
                _ => text("PressurePlate"),
            },
        ) == Some(ty),
{
    lemma_names_differ();
}

proof fn lemma_trapdoor_kind(facing: BlockDirection, half: TrapdoorHalf)
    ensures
        tagged_kind(
            seq![
                text("Trapdoor"),
                text("facing"),
                direction_name(facing),
                text("half"),
                half_name(half),
            ],
        ) == Some(IntfType::Trapdoor { facing, half }),
{
    lemma_direction(facing);
    lemma_half(half);
}

proof fn lemma_lever_kind(face: LeverFace, facing: BlockDirection)
    ensures
        tagged_kind(
            seq![
                text("Lever"),
                text("face"),
                face_name(face.spec_id()),
                text("facing"),
                direction_name(facing),
            ],
        ) == Some(IntfType::Lever { face, facing }),
{
    lemma_names_differ();
    lemma_direction(facing);
    lemma_face(face.spec_id());
}

proof fn lemma_button_kind(face: ButtonFace, facing: BlockDirection)
    ensures
        tagged_kind(
            seq![
                text("Button"),
                text("face"),
                face_name(face.spec_id()),
                text("facing"),
                direction_name(facing),
            ],
        ) == Some(IntfType::Button { face, facing }),
{
    lemma_names_differ();
    lemma_direction(facing);
    lemma_face(face.spec_id());
}

proof fn lemma_first_of_quoted(bytes: Seq<u8>, rest: Seq<u8>)
    ensures
        (quoted(bytes) + rest).len() > 0,
        (quoted(bytes) + rest)[0] == QUOTE,
{
}

proof fn lemma_first_of_tagged(
    tag: Seq<u8>,
    k1: Seq<u8>,
    v1: Seq<u8>,
    k2: Seq<u8>,
    v2: Seq<u8>,
    rest: Seq<u8>,
)
    ensures
        (tagged_text(tag, k1, v1, k2, v2) + rest).len() > 0,
        (tagged_text(tag, k1, v1, k2, v2) + rest)[0] == 0x7B,
{
}

/// Reading a kind that was written gives the kind back.
pub proof fn lemma_leading_type(ty: IntfType, rest: Seq<u8>)
    ensures
        leading_type(type_text(ty) + rest) == Some((ty, rest)),
{
    match ty {
        IntfType::Lamp => {
            lemma_unquoted(text("Lamp"), rest);
            lemma_first_of_quoted(text("Lamp"), rest);
            lemma_plain_kind(ty);
        },
        IntfType::HexLamp => {
            lemma_unquoted(text("HexLamp"), rest);
            lemma_first_of_quoted(text("HexLamp"), rest);
            lemma_plain_kind(ty);
        },
        IntfType::PressurePlate => {
            lemma_unquoted(text("PressurePlate"), rest);
            lemma_first_of_quoted(text("PressurePlate"), rest);
            lemma_plain_kind(ty);
        },
        IntfType::Trapdoor { facing, half } => {
            lemma_leading_tagged(
                text("Trapdoor"),
                text("facing"),
                direction_name(facing),
                text("half"),
                half_name(half),
                rest,
            );
            lemma_first_of_tagged(
                text("Trapdoor"),
                text("facing"),
                direction_name(facing),
                text("half"),
                half_name(half),
                rest,
            );
            lemma_trapdoor_kind(facing, half);
        },
        IntfType::Lever { face, facing } => {
            lemma_leading_tagged(
                text("Lever"),
                text("face"),
                face_name(face.spec_id()),
                text("facing"),
                direction_name(facing),
                rest,
            );
            lemma_first_of_tagged(
                text("Lever"),
                text("face"),
                face_name(face.spec_id()),
                text("facing"),
                direction_name(facing),
                rest,
            );
            lemma_lever_kind(face, facing);
        },
        IntfType::Button { face, facing } => {
            lemma_leading_tagged(
                text("Button"),
                text("face"),
                face_name(face.spec_id()),
                text("facing"),
                direction_name(facing),
                rest,
            );
            lemma_first_of_tagged(
                text("Button"),
                text("face"),
                face_name(face.spec_id()),
                text("facing"),
                direction_name(facing),
                rest,
            );
            lemma_button_kind(face, facing);
        },
    }
}


/// A position in the text: `{"x":..,"y":..,"z":..}`.
pub open spec fn pos_text(pos: BlockPos) -> Seq<u8> {
    text("{\"x\":") + signed_digits(pos.x as int) + seq![0x2Cu8] + text("\"y\":") + digits(
        pos.y as nat,
    ) + seq![0x2Cu8] + text("\"z\":") + signed_digits(pos.z as int) + seq![0x7Du8]
}

/// The position at the start of a text, and what follows it.
pub open spec fn leading_pos(s: Seq<u8>) -> Option<(BlockPos, Seq<u8>)> {
    match strip(s, text("{\"x\":")) {
        Some(r0) => match leading_int(r0, 0x8000_0000, 0x7FFF_FFFF) {
            Some((x, r1)) => match strip(r1, seq![0x2Cu8]) {
                Some(r2) => match strip(r2, text("\"y\":")) {
                    Some(r3) => match leading_number(r3, 0xFFFF_FFFF) {
                        Some((y, r4)) => match strip(r4, seq![0x2Cu8]) {
                            Some(r5) => match strip(r5, text("\"z\":")) {
                                Some(r6) => match leading_int(r6, 0x8000_0000, 0x7FFF_FFFF) {
                                    Some((z, r7)) => match strip(r7, seq![0x7Du8]) {
                                        Some(rest) => Some(
                                            (BlockPos { x: x as i32, y: y as u32, z: z as i32 }, rest),
                                        ),
                                        None => None,
                                    },
                                    None => None,
                                },
                                None => None,
                            },
                            None => None,
                        },
                        None => None,
                    },
                    None => None,
                },
                None => None,
            },
            None => None,
        },
        None => None,
    }
}

/// Reading a position that was written gives the position back.
pub proof fn lemma_leading_pos(pos: BlockPos, rest: Seq<u8>)
    ensures
        leading_pos(pos_text(pos) + rest) == Some((pos, rest)),
{
    let q8 = seq![0x7Du8] + rest;
    let q7 = signed_digits(pos.z as int) + q8;
    let q6 = text("\"z\":") + q7;
    let q5 = seq![0x2Cu8] + q6;
    let q4 = digits(pos.y as nat) + q5;
    let q3 = text("\"y\":") + q4;
    let q2 = seq![0x2Cu8] + q3;
    let q1 = signed_digits(pos.x as int) + q2;
    lemma_append(text("{\"x\":") + signed_digits(pos.x as int) + seq![0x2Cu8] + text("\"y\":") + digits(pos.y as nat) + seq![0x2Cu8] + text("\"z\":") + signed_digits(pos.z as int), seq![0x7Du8], rest);
    lemma_append(text("{\"x\":") + signed_digits(pos.x as int) + seq![0x2Cu8] + text("\"y\":") + digits(pos.y as nat) + seq![0x2Cu8] + text("\"z\":"), signed_digits(pos.z as int), q8);
    lemma_append(text("{\"x\":") + signed_digits(pos.x as int) + seq![0x2Cu8] + text("\"y\":") + digits(pos.y as nat) + seq![0x2Cu8], text("\"z\":"), q7);
    lemma_append(text("{\"x\":") + signed_digits(pos.x as int) + seq![0x2Cu8] + text("\"y\":") + digits(pos.y as nat), seq![0x2Cu8], q6);
    lemma_append(text("{\"x\":") + signed_digits(pos.x as int) + seq![0x2Cu8] + text("\"y\":"), digits(pos.y as nat), q5);
    lemma_append(text("{\"x\":") + signed_digits(pos.x as int) + seq![0x2Cu8], text("\"y\":"), q4);
    lemma_append(text("{\"x\":") + signed_digits(pos.x as int), seq![0x2Cu8], q3);
    lemma_append(text("{\"x\":"), signed_digits(pos.x as int), q2);
    assert(pos_text(pos) + rest == text("{\"x\":") + q1);
    lemma_strip(text("{\"x\":"), q1);
    assert(q2[0] == 0x2C);
    lemma_leading_int(pos.x as int, 0x8000_0000, 0x7FFF_FFFF, q2);
    lemma_strip(seq![0x2Cu8], q3);
    lemma_strip(text("\"y\":"), q4);
    assert(q5[0] == 0x2C);
    lemma_leading_number(pos.y as nat, 0xFFFF_FFFF, q5);
    lemma_strip(seq![0x2Cu8], q6);
    lemma_strip(text("\"z\":"), q7);
    assert(q8[0] == 0x7D);
    lemma_leading_int(pos.z as int, 0x8000_0000, 0x7FFF_FFFF, q8);
    lemma_strip(seq![0x7Du8], rest);
}

/// An interface block in the text: `{"ty":..,"pos":..,"state":..}`.
pub open spec fn block_text(block: IntfBlock) -> Seq<u8> {
    seq![0x7Bu8] + text("\"ty\":") + type_text(block.ty) + seq![0x2Cu8] + text("\"pos\":") + pos_text(
        block.pos,
    ) + seq![0x2Cu8] + text("\"state\":") + digits(block.state as nat) + seq![0x7Du8]
}

/// The interface block at the start of a text, and what follows it.
#[verifier::opaque]
pub open spec fn leading_block(s: Seq<u8>) -> Option<(IntfBlock, Seq<u8>)> {
    match strip(s, seq![0x7Bu8]) {
        Some(r0) => match strip(r0, text("\"ty\":")) {
            Some(r1) => match leading_type(r1) {
                Some((ty, r2)) => match strip(r2, seq![0x2Cu8]) {
                    Some(r3) => match strip(r3, text("\"pos\":")) {
                        Some(r4) => match leading_pos(r4) {
                            Some((pos, r5)) => match strip(r5, seq![0x2Cu8]) {
                                Some(r6) => match strip(r6, text("\"state\":")) {
                                    Some(r7) => match leading_number(r7, 0xFF) {
                                        Some((state, r8)) => match strip(r8, seq![0x7Du8]) {
                                            Some(rest) => Some(
                                                (IntfBlock { ty, pos, state: state as u8 }, rest),
                                            ),
                                            None => None,
                                        },
                                        None => None,
                                    },
                                    None => None,
                                },
                                None => None,
                            },
                            None => None,
                        },
                        None => None,
                    },
                    None => None,
                },
                None => None,
            },
            None => None,
        },
        None => None,
    }
}

/// Reading an interface block that was written gives the block back.
pub proof fn lemma_leading_block(block: IntfBlock, rest: Seq<u8>)
    ensures
        leading_block(block_text(block) + rest) == Some((block, rest)),
        (block_text(block) + rest).len() > rest.len(),
        (block_text(block) + rest)[0] == 0x7B,
{
    let q9 = seq![0x7Du8] + rest;
    let q8 = digits(block.state as nat) + q9;
    let q7 = text("\"state\":") + q8;
    let q6 = seq![0x2Cu8] + q7;
    let q5 = pos_text(block.pos) + q6;
    let q4 = text("\"pos\":") + q5;
    let q3 = seq![0x2Cu8] + q4;
    let q2 = type_text(block.ty) + q3;
    let q1 = text("\"ty\":") + q2;
    lemma_append(seq![0x7Bu8] + text("\"ty\":") + type_text(block.ty) + seq![0x2Cu8] + text("\"pos\":") + pos_text(block.pos) + seq![0x2Cu8] + text("\"state\":") + digits(block.state as nat), seq![0x7Du8], rest);
    lemma_append(seq![0x7Bu8] + text("\"ty\":") + type_text(block.ty) + seq![0x2Cu8] + text("\"pos\":") + pos_text(block.pos) + seq![0x2Cu8] + text("\"state\":"), digits(block.state as nat), q9);
    lemma_append(seq![0x7Bu8] + text("\"ty\":") + type_text(block.ty) + seq![0x2Cu8] + text("\"pos\":") + pos_text(block.pos) + seq![0x2Cu8], text("\"state\":"), q8);
    lemma_append(seq![0x7Bu8] + text("\"ty\":") + type_text(block.ty) + seq![0x2Cu8] + text("\"pos\":") + pos_text(block.pos), seq![0x2Cu8], q7);
    lemma_append(seq![0x7Bu8] + text("\"ty\":") + type_text(block.ty) + seq![0x2Cu8] + text("\"pos\":"), pos_text(block.pos), q6);
    lemma_append(seq![0x7Bu8] + text("\"ty\":") + type_text(block.ty) + seq![0x2Cu8], text("\"pos\":"), q5);
    lemma_append(seq![0x7Bu8] + text("\"ty\":") + type_text(block.ty), seq![0x2Cu8], q4);
    lemma_append(seq![0x7Bu8] + text("\"ty\":"), type_text(block.ty), q3);
    lemma_append(seq![0x7Bu8], text("\"ty\":"), q2);
    reveal(leading_block);
    assert(block_text(block) + rest == seq![0x7Bu8] + q1);
    lemma_strip(seq![0x7Bu8], q1);
    lemma_strip(text("\"ty\":"), q2);
    lemma_leading_type(block.ty, q3);
    lemma_strip(seq![0x2Cu8], q4);
    lemma_strip(text("\"pos\":"), q5);
    lemma_leading_pos(block.pos, q6);
    lemma_strip(seq![0x2Cu8], q7);
    lemma_strip(text("\"state\":"), q8);
    assert(q9[0] == 0x7D);
    lemma_leading_number(block.state as nat, 0xFF, q9);
    lemma_strip(seq![0x7Du8], rest);
}

/// The blocks of a table in the text, with commas between them.
pub open spec fn items_text(blocks: Seq<IntfBlock>) -> Seq<u8>
    decreases blocks.len(),
{
    if blocks.len() == 0 {
        Seq::empty()
    } else if blocks.len() == 1 {
        block_text(blocks[0])
    } else {
        block_text(blocks[0]) + seq![0x2Cu8] + items_text(blocks.drop_first())
    }
}

/// A table in the text: its blocks between brackets, in their order.
pub open spec fn list_text(blocks: Seq<IntfBlock>) -> Seq<u8> {
    seq![0x5Bu8] + items_text(blocks) + seq![0x5Du8]
}

/// A reading with one more block in front of the blocks that were read.
pub open spec fn prepend_block(block: IntfBlock, read: Option<(Seq<IntfBlock>, Seq<u8>)>) -> Option<
    (Seq<IntfBlock>, Seq<u8>),
> {
    match read {
        Some((blocks, rest)) => Some((seq![block] + blocks, rest)),
        None => None,
    }
}

/// The blocks at the start of a text up to the closing bracket, at least one, and what
/// follows the bracket.
pub open spec fn leading_items(s: Seq<u8>) -> Option<(Seq<IntfBlock>, Seq<u8>)>
    decreases s.len(),
{
    match leading_block(s) {
        Some((block, r)) => if r.len() >= s.len() {
            None
        } else {
            match strip(r, seq![0x2Cu8]) {
                Some(r2) => prepend_block(block, leading_items(r2)),
                None => match strip(r, seq![0x5Du8]) {
                    Some(rest) => Some((seq![block], rest)),
                    None => None,
                },
            }
        },
        None => None,
    }
}

/// The table at the start of a text, and what follows it.
pub open spec fn leading_list(s: Seq<u8>) -> Option<(Seq<IntfBlock>, Seq<u8>)> {
    match strip(s, seq![0x5Bu8]) {
        Some(r) => match strip(r, seq![0x5Du8]) {
            Some(rest) => Some((Seq::empty(), rest)),
            None => leading_items(r),
        },
        None => None,
    }
}

pub proof fn lemma_items_push(blocks: Seq<IntfBlock>, block: IntfBlock)
    ensures
        items_text(blocks.push(block)) == if blocks.len() == 0 {
            block_text(block)
        } else {
            items_text(blocks) + seq![0x2Cu8] + block_text(block)
        },
    decreases blocks.len(),
{
    let more = blocks.push(block);
    if blocks.len() == 0 {
        assert(more[0] == block);
    } else {
        assert(more.drop_first() =~= blocks.drop_first().push(block));
        assert(more[0] == blocks[0]);
        lemma_items_push(blocks.drop_first(), block);
        if blocks.len() == 1 {
            assert(blocks.drop_first().len() == 0);
            assert(items_text(more) =~= items_text(blocks) + seq![0x2Cu8] + block_text(block));
        } else {
            assert(items_text(more) =~= items_text(blocks) + seq![0x2Cu8] + block_text(block));
        }
    }
}

/// Reading the blocks that were written gives them back.
pub proof fn lemma_leading_items(blocks: Seq<IntfBlock>, rest: Seq<u8>)
    requires
        blocks.len() >= 1,
    ensures
        leading_items(items_text(blocks) + seq![0x5Du8] + rest) == Some((blocks, rest)),
        (items_text(blocks) + seq![0x5Du8] + rest)[0] == 0x7B,
    decreases blocks.len(),
{
    let first = block_text(blocks[0]);
    if blocks.len() == 1 {
        let r = seq![0x5Du8] + rest;
        lemma_append(first, seq![0x5Du8], rest);
        lemma_leading_block(blocks[0], r);
        assert(r[0] == 0x5D);
        lemma_strip(seq![0x5Du8], rest);
        assert(seq![blocks[0]] =~= blocks);
    } else {
        let tail = blocks.drop_first();
        let inner = items_text(tail);
        let r2 = inner + seq![0x5Du8] + rest;
        let r = seq![0x2Cu8] + r2;
        lemma_append(first + seq![0x2Cu8] + inner, seq![0x5Du8], rest);
        lemma_append(first + seq![0x2Cu8], inner, seq![0x5Du8] + rest);
        lemma_append(first, seq![0x2Cu8], inner + (seq![0x5Du8] + rest));
        lemma_append(inner, seq![0x5Du8], rest);
        assert(items_text(blocks) + seq![0x5Du8] + rest == first + r);
        lemma_leading_block(blocks[0], r);
        lemma_strip(seq![0x2Cu8], r2);
        lemma_leading_items(tail, rest);
        assert(seq![blocks[0]] + tail =~= blocks);
    }
}

/// Reading a table that was written gives the table back.
pub proof fn lemma_leading_list(blocks: Seq<IntfBlock>, rest: Seq<u8>)
    ensures
        leading_list(list_text(blocks) + rest) == Some((blocks, rest)),
{
    let inner = items_text(blocks);
    let r = inner + seq![0x5Du8] + rest;
    lemma_append(seq![0x5Bu8] + inner, seq![0x5Du8], rest);
    lemma_append(seq![0x5Bu8], inner, seq![0x5Du8] + rest);
    lemma_append(inner, seq![0x5Du8], rest);
    assert(list_text(blocks) + rest == seq![0x5Bu8] + r);
    lemma_strip(seq![0x5Bu8], r);
    if blocks.len() == 0 {
        assert(r =~= seq![0x5Du8] + rest);
        lemma_strip(seq![0x5Du8], rest);
        assert(blocks =~= Seq::<IntfBlock>::empty());
    } else {
        lemma_leading_items(blocks, rest);
        assert(r[0] == 0x7B);
        assert(strip(r, seq![0x5Du8]) is None) by {
            if strip(r, seq![0x5Du8]) is Some {
                assert(r.take(1)[0] == r[0]);
                assert(seq![0x5Du8][0] == 0x5D);
            }
        }
    }
}

/// What a linker holds, as plain values.
pub struct LinkerView {
    pub name: Seq<char>,
    pub outputs: Seq<IntfBlock>,
    pub output_bits: u32,
    pub inputs: Seq<IntfBlock>,
    pub input_bits: u32,
}

/// The first half of the canonical text: the name and the outputs with their bit count.
pub open spec fn outputs_text(name: Seq<u8>, outputs: Seq<IntfBlock>, bits: nat) -> Seq<u8> {
    seq![0x7Bu8] + text("\"name\":") + quoted(name) + seq![0x2Cu8] + text("\"outputs\":") + list_text(
        outputs,
    ) + seq![0x2Cu8] + text("\"output_bits\":") + digits(bits)
}

/// The second half of the canonical text: the inputs with their bit count, and the
/// closing brace.
pub open spec fn inputs_text(inputs: Seq<IntfBlock>, bits: nat) -> Seq<u8> {
    seq![0x2Cu8] + text("\"inputs\":") + list_text(inputs) + seq![0x2Cu8] + text("\"input_bits\":")
        + digits(bits) + seq![0x7Du8]
}

/// The canonical text of a linker: one object with the fields `name`, `outputs`,
/// `output_bits`, `inputs` and `input_bits`, without blanks, the tables in their order.
pub open spec fn linker_text(link: LinkerView) -> Seq<u8> {
    outputs_text(chars_text(link.name), link.outputs, link.output_bits as nat) + inputs_text(
        link.inputs,
        link.input_bits as nat,
    )
}

/// The first half of a linker at the start of a text: its name, as bytes, and its
/// outputs with their bit count; and what follows.
pub open spec fn leading_outputs(s: Seq<u8>) -> Option<(Seq<u8>, Seq<IntfBlock>, nat, Seq<u8>)> {
    match strip(s, seq![0x7Bu8]) {
        Some(r0) => match strip(r0, text("\"name\":")) {
            Some(r1) => match unquoted(r1) {
                Some((name, r2)) => match strip(r2, seq![0x2Cu8]) {
                    Some(r3) => match strip(r3, text("\"outputs\":")) {
                        Some(r4) => match leading_list(r4) {
                            Some((outputs, r5)) => match strip(r5, seq![0x2Cu8]) {
                                Some(r6) => match strip(r6, text("\"output_bits\":")) {
                                    Some(r7) => match leading_number(r7, 0xFFFF_FFFF) {
                                        Some((bits, rest)) => Some((name, outputs, bits, rest)),
                                        None => None,
                                    },
                                    None => None,
                                },
                                None => None,
                            },
                            None => None,
                        },
                        None => None,
                    },
                    None => None,
                },
                None => None,
            },
            None => None,
        },
        None => None,
    }
}

/// The second half of a linker at the start of a text: its inputs with their bit
/// count; and what follows the closing brace.
pub open spec fn leading_inputs(s: Seq<u8>) -> Option<(Seq<IntfBlock>, nat, Seq<u8>)> {
    match strip(s, seq![0x2Cu8]) {
        Some(r0) => match strip(r0, text("\"inputs\":")) {
            Some(r1) => match leading_list(r1) {
                Some((inputs, r2)) => match strip(r2, seq![0x2Cu8]) {
                    Some(r3) => match strip(r3, text("\"input_bits\":")) {
                        Some(r4) => match leading_number(r4, 0xFFFF_FFFF) {
                            Some((bits, r5)) => match strip(r5, seq![0x7Du8]) {
                                Some(rest) => Some((inputs, bits, rest)),
                                None => None,
                            },
                            None => None,
                        },
                        None => None,
                    },
                    None => None,
                },
                None => None,
            },
            None => None,
        },
        None => None,
    }
}

/// The linker that a text is the canonical text of. A text with anything after the
/// closing brace, or with a name that is no valid UTF-8, is none.
pub open spec fn parsed_linker(s: Seq<u8>) -> Option<LinkerView> {
    match leading_outputs(s) {
        Some((name, outputs, output_bits, r)) => match leading_inputs(r) {
            Some((inputs, input_bits, rest)) => if rest.len() == 0 && valid_utf8(name) {
                Some(
                    LinkerView {
                        name: vstd::utf8::decode_utf8(name),
                        outputs,
                        output_bits: output_bits as u32,
                        inputs,
                        input_bits: input_bits as u32,
                    },
                )
            } else {
                None
            },
            None => None,
        },
        None => None,
    }
}

proof fn lemma_leading_outputs(name: Seq<u8>, outputs: Seq<IntfBlock>, bits: nat, rest: Seq<u8>)
    requires
        bits <= 0xFFFF_FFFF,
        rest.len() == 0 || !is_digit(rest[0]),
    ensures
        leading_outputs(outputs_text(name, outputs, bits) + rest) == Some(
            (name, outputs, bits, rest),
        ),
{
    let q8 = digits(bits) + rest;
    let q7 = text("\"output_bits\":") + q8;
    let q6 = seq![0x2Cu8] + q7;
    let q5 = list_text(outputs) + q6;
    let q4 = text("\"outputs\":") + q5;
    let q3 = seq![0x2Cu8] + q4;
    let q2 = quoted(name) + q3;
    let q1 = text("\"name\":") + q2;
    lemma_append(seq![0x7Bu8] + text("\"name\":") + quoted(name) + seq![0x2Cu8] + text("\"outputs\":") + list_text(outputs) + seq![0x2Cu8] + text("\"output_bits\":"), digits(bits), rest);
    lemma_append(seq![0x7Bu8] + text("\"name\":") + quoted(name) + seq![0x2Cu8] + text("\"outputs\":") + list_text(outputs) + seq![0x2Cu8], text("\"output_bits\":"), q8);
    lemma_append(seq![0x7Bu8] + text("\"name\":") + quoted(name) + seq![0x2Cu8] + text("\"outputs\":") + list_text(outputs), seq![0x2Cu8], q7);
    lemma_append(seq![0x7Bu8] + text("\"name\":") + quoted(name) + seq![0x2Cu8] + text("\"outputs\":"), list_text(outputs), q6);
    lemma_append(seq![0x7Bu8] + text("\"name\":") + quoted(name) + seq![0x2Cu8], text("\"outputs\":"), q5);
    lemma_append(seq![0x7Bu8] + text("\"name\":") + quoted(name), seq![0x2Cu8], q4);
    lemma_append(seq![0x7Bu8] + text("\"name\":"), quoted(name), q3);
    lemma_append(seq![0x7Bu8], text("\"name\":"), q2);
    assert(outputs_text(name, outputs, bits) + rest == seq![0x7Bu8] + q1);
    lemma_strip(seq![0x7Bu8], q1);
    lemma_strip(text("\"name\":"), q2);
    lemma_unquoted(name, q3);
    lemma_strip(seq![0x2Cu8], q4);
    lemma_strip(text("\"outputs\":"), q5);
    lemma_leading_list(outputs, q6);
    lemma_strip(seq![0x2Cu8], q7);
    lemma_strip(text("\"output_bits\":"), q8);
    lemma_leading_number(bits, 0xFFFF_FFFF, rest);
}

proof fn lemma_leading_inputs(inputs: Seq<IntfBlock>, bits: nat, rest: Seq<u8>)
    requires
        bits <= 0xFFFF_FFFF,
    ensures
        leading_inputs(inputs_text(inputs, bits) + rest) == Some((inputs, bits, rest)),
        (inputs_text(inputs, bits) + rest)[0] == 0x2C,
{
    let q6 = seq![0x7Du8] + rest;
    let q5 = digits(bits) + q6;
    let q4 = text("\"input_bits\":") + q5;
    let q3 = seq![0x2Cu8] + q4;
    let q2 = list_text(inputs) + q3;
    let q1 = text("\"inputs\":") + q2;
    lemma_append(seq![0x2Cu8] + text("\"inputs\":") + list_text(inputs) + seq![0x2Cu8] + text("\"input_bits\":") + digits(bits), seq![0x7Du8], rest);
    lemma_append(seq![0x2Cu8] + text("\"inputs\":") + list_text(inputs) + seq![0x2Cu8] + text("\"input_bits\":"), digits(bits), q6);
    lemma_append(seq![0x2Cu8] + text("\"inputs\":") + list_text(inputs) + seq![0x2Cu8], text("\"input_bits\":"), q5);
    lemma_append(seq![0x2Cu8] + text("\"inputs\":") + list_text(inputs), seq![0x2Cu8], q4);
    lemma_append(seq![0x2Cu8] + text("\"inputs\":"), list_text(inputs), q3);
    lemma_append(seq![0x2Cu8], text("\"inputs\":"), q2);
    assert(inputs_text(inputs, bits) + rest == seq![0x2Cu8] + q1);
    lemma_strip(seq![0x2Cu8], q1);
    lemma_strip(text("\"inputs\":"), q2);
    lemma_leading_list(inputs, q3);
    lemma_strip(seq![0x2Cu8], q4);
    lemma_strip(text("\"input_bits\":"), q5);
    assert(q6[0] == 0x7D);
    lemma_leading_number(bits, 0xFFFF_FFFF, q6);
    lemma_strip(seq![0x7Du8], rest);
}

/// Reading the canonical text of a linker gives the linker back: its name, both tables
/// in their order with every kind, position and state, and both bit counts.
pub proof fn lemma_linker_round_trip(link: LinkerView)
    ensures
        parsed_linker(linker_text(link)) == Some(link),
{
    let name = chars_text(link.name);
    let tail = inputs_text(link.inputs, link.input_bits as nat);
    let empty = Seq::<u8>::empty();
    lemma_leading_inputs(link.inputs, link.input_bits as nat, empty);
    assert(tail + empty =~= tail);
    lemma_leading_outputs(name, link.outputs, link.output_bits as nat, tail);
    vstd::utf8::encode_utf8_valid_utf8(link.name);
    vstd::utf8::encode_utf8_decode_utf8(link.name);
}


fn push_byte(out: &mut Vec<u8>, b: u8)
    ensures
        final(out)@ == old(out)@ + seq![b],
{
    out.push(b);
    assert(out@ =~= old(out)@ + seq![b]);
}

fn push_name(out: &mut Vec<u8>, name: &str)
    ensures
        final(out)@ == old(out)@ + quoted(text(name)),
{
    push_quoted(out, name.as_bytes());
}

fn push_tagged(out: &mut Vec<u8>, tag: &str, k1: &str, v1: &str, k2: &str, v2: &str)
    ensures
        final(out)@ == old(out)@ + tagged_text(text(tag), text(k1), text(v1), text(k2), text(v2)),
{
    push_byte(out, 0x7B);
    push_name(out, tag);
    push_text(out, ":{");
    push_name(out, k1);
    push_text(out, ":");
    push_name(out, v1);
    push_text(out, ",");
    push_name(out, k2);
    push_text(out, ":");
    push_name(out, v2);
    push_text(out, "}}");
    proof {
        lemma_append(old(out)@, seq![0x7Bu8], quoted(text(tag)));
        lemma_append(old(out)@, seq![0x7Bu8] + quoted(text(tag)), text(":{"));
        lemma_append(old(out)@, seq![0x7Bu8] + quoted(text(tag)) + text(":{"), quoted(text(k1)));
        lemma_append(old(out)@, seq![0x7Bu8] + quoted(text(tag)) + text(":{") + quoted(text(k1)), text(":"));
        lemma_append(old(out)@, seq![0x7Bu8] + quoted(text(tag)) + text(":{") + quoted(text(k1)) + text(":"), quoted(text(v1)));
        lemma_append(old(out)@, seq![0x7Bu8] + quoted(text(tag)) + text(":{") + quoted(text(k1)) + text(":") + quoted(text(v1)), text(","));
        lemma_append(old(out)@, seq![0x7Bu8] + quoted(text(tag)) + text(":{") + quoted(text(k1)) + text(":") + quoted(text(v1)) + text(","), quoted(text(k2)));
        lemma_append(old(out)@, seq![0x7Bu8] + quoted(text(tag)) + text(":{") + quoted(text(k1)) + text(":") + quoted(text(v1)) + text(",") + quoted(text(k2)), text(":"));
        lemma_append(old(out)@, seq![0x7Bu8] + quoted(text(tag)) + text(":{") + quoted(text(k1)) + text(":") + quoted(text(v1)) + text(",") + quoted(text(k2)) + text(":"), quoted(text(v2)));
        lemma_append(old(out)@, seq![0x7Bu8] + quoted(text(tag)) + text(":{") + quoted(text(k1)) + text(":") + quoted(text(v1)) + text(",") + quoted(text(k2)) + text(":") + quoted(text(v2)), text("}}"));
    }
}

fn direction_word(d: BlockDirection) -> (word: &'static str)
    ensures
        text(word) == direction_name(d),
{
    match d {
        BlockDirection::North => "North",
        BlockDirection::South => "South",
        BlockDirection::East => "East",
        BlockDirection::West => "West",
    }
}

fn half_word(h: TrapdoorHalf) -> (word: &'static str)
    ensures
        text(word) == half_name(h),
{
    match h {
        TrapdoorHalf::Top => "Top",
        TrapdoorHalf::Bottom => "Bottom",
    }
}

fn face_word(id: u32) -> (word: &'static str)
    ensures
        text(word) == face_name(id),
{
    if id == 0 {
        "Floor"
    } else if id == 1 {
        "Wall"
    } else {
        "Ceiling"
    }
}

/// Writes the kind of an interface block.
pub fn push_type(out: &mut Vec<u8>, ty: IntfType)
    ensures
        final(out)@ == old(out)@ + type_text(ty),
{
    match ty {
        IntfType::Lamp => push_name(out, "Lamp"),
        IntfType::HexLamp => push_name(out, "HexLamp"),
        IntfType::PressurePlate => push_name(out, "PressurePlate"),
        IntfType::Trapdoor { facing, half } => push_tagged(
            out,
            "Trapdoor",
            "facing",
            direction_word(facing),
            "half",
            half_word(half),
        ),
        IntfType::Lever { face, facing } => push_tagged(
            out,
            "Lever",
            "face",
            face_word(face.get_id()),
            "facing",
            direction_word(facing),
        ),
        IntfType::Button { face, facing } => push_tagged(
            out,
            "Button",
            "face",
            face_word(face.get_id()),
            "facing",
            direction_word(facing),
        ),
    }
}

fn push_pos(out: &mut Vec<u8>, pos: BlockPos)
    ensures
        final(out)@ == old(out)@ + pos_text(pos),
{
    push_text(out, "{\"x\":");
    crate::text::push_signed(out, pos.x);
    push_byte(out, 0x2C);
    push_text(out, "\"y\":");
    push_decimal(out, pos.y as u64);
    push_byte(out, 0x2C);
    push_text(out, "\"z\":");
    crate::text::push_signed(out, pos.z);
    push_byte(out, 0x7D);
    proof {
        lemma_append(old(out)@, text("{\"x\":"), signed_digits(pos.x as int));
        lemma_append(old(out)@, text("{\"x\":") + signed_digits(pos.x as int), seq![0x2Cu8]);
        lemma_append(old(out)@, text("{\"x\":") + signed_digits(pos.x as int) + seq![0x2Cu8], text("\"y\":"));
        lemma_append(old(out)@, text("{\"x\":") + signed_digits(pos.x as int) + seq![0x2Cu8] + text("\"y\":"), digits(pos.y as nat));
        lemma_append(old(out)@, text("{\"x\":") + signed_digits(pos.x as int) + seq![0x2Cu8] + text("\"y\":") + digits(pos.y as nat), seq![0x2Cu8]);
        lemma_append(old(out)@, text("{\"x\":") + signed_digits(pos.x as int) + seq![0x2Cu8] + text("\"y\":") + digits(pos.y as nat) + seq![0x2Cu8], text("\"z\":"));
        lemma_append(old(out)@, text("{\"x\":") + signed_digits(pos.x as int) + seq![0x2Cu8] + text("\"y\":") + digits(pos.y as nat) + seq![0x2Cu8] + text("\"z\":"), signed_digits(pos.z as int));
        lemma_append(old(out)@, text("{\"x\":") + signed_digits(pos.x as int) + seq![0x2Cu8] + text("\"y\":") + digits(pos.y as nat) + seq![0x2Cu8] + text("\"z\":") + signed_digits(pos.z as int), seq![0x7Du8]);
    }
}

/// Writes an interface block.
pub fn push_block(out: &mut Vec<u8>, block: IntfBlock)
    ensures
        final(out)@ == old(out)@ + block_text(block),
{
    push_byte(out, 0x7B);
    push_text(out, "\"ty\":");
    push_type(out, block.ty);
    push_byte(out, 0x2C);
    push_text(out, "\"pos\":");
    push_pos(out, block.pos);
    push_byte(out, 0x2C);
    push_text(out, "\"state\":");
    push_decimal(out, block.state as u64);
    push_byte(out, 0x7D);
    proof {
        lemma_append(old(out)@, seq![0x7Bu8], text("\"ty\":"));
        lemma_append(old(out)@, seq![0x7Bu8] + text("\"ty\":"), type_text(block.ty));
        lemma_append(old(out)@, seq![0x7Bu8] + text("\"ty\":") + type_text(block.ty), seq![0x2Cu8]);
        lemma_append(old(out)@, seq![0x7Bu8] + text("\"ty\":") + type_text(block.ty) + seq![0x2Cu8], text("\"pos\":"));
        lemma_append(old(out)@, seq![0x7Bu8] + text("\"ty\":") + type_text(block.ty) + seq![0x2Cu8] + text("\"pos\":"), pos_text(block.pos));
        lemma_append(old(out)@, seq![0x7Bu8] + text("\"ty\":") + type_text(block.ty) + seq![0x2Cu8] + text("\"pos\":") + pos_text(block.pos), seq![0x2Cu8]);
        lemma_append(old(out)@, seq![0x7Bu8] + text("\"ty\":") + type_text(block.ty) + seq![0x2Cu8] + text("\"pos\":") + pos_text(block.pos) + seq![0x2Cu8], text("\"state\":"));
        lemma_append(old(out)@, seq![0x7Bu8] + text("\"ty\":") + type_text(block.ty) + seq![0x2Cu8] + text("\"pos\":") + pos_text(block.pos) + seq![0x2Cu8] + text("\"state\":"), digits(block.state as nat));
        lemma_append(old(out)@, seq![0x7Bu8] + text("\"ty\":") + type_text(block.ty) + seq![0x2Cu8] + text("\"pos\":") + pos_text(block.pos) + seq![0x2Cu8] + text("\"state\":") + digits(block.state as nat), seq![0x7Du8]);
    }
}

/// Writes a table.
pub fn push_list(out: &mut Vec<u8>, blocks: &Vec<IntfBlock>)
    ensures
        final(out)@ == old(out)@ + list_text(blocks@),
{
    push_byte(out, 0x5B);
    let ghost opened = out@;
    let mut k: usize = 0;
    proof {
        assert(blocks@.take(0) =~= Seq::<IntfBlock>::empty());
        assert(opened + items_text(blocks@.take(0)) =~= opened);
    }
    while k < blocks.len()
        invariant
            k <= blocks@.len(),
            opened == old(out)@ + seq![0x5Bu8],
            out@ == opened + items_text(blocks@.take(k as int)),
        decreases blocks.len() - k,
    {
        let ghost done = blocks@.take(k as int);
        let ghost before = items_text(done);
        proof {
            lemma_items_push(done, blocks@[k as int]);
            assert(blocks@.take(k + 1) =~= done.push(blocks@[k as int]));
        }
        if k > 0 {
            push_byte(out, 0x2C);
            push_block(out, blocks[k]);
            proof {
                lemma_append(opened, before, seq![0x2Cu8]);
                lemma_append(opened, before + seq![0x2Cu8], block_text(blocks@[k as int]));
            }
        } else {
            push_block(out, blocks[k]);
            proof {
                assert(before =~= Seq::<u8>::empty());
                assert(opened + before =~= opened);
            }
        }
        k += 1;
    }
    push_byte(out, 0x5D);
    proof {
        assert(blocks@.take(k as int) =~= blocks@);
        lemma_append(old(out)@, seq![0x5Bu8], items_text(blocks@));
        lemma_append(old(out)@, seq![0x5Bu8] + items_text(blocks@), seq![0x5Du8]);
    }
}

fn push_outputs(out: &mut Vec<u8>, name: &[u8], outputs: &Vec<IntfBlock>, bits: u32)
    ensures
        final(out)@ == old(out)@ + outputs_text(name@, outputs@, bits as nat),
{
    push_byte(out, 0x7B);
    push_text(out, "\"name\":");
    push_quoted(out, name);
    push_byte(out, 0x2C);
    push_text(out, "\"outputs\":");
    push_list(out, outputs);
    push_byte(out, 0x2C);
    push_text(out, "\"output_bits\":");
    push_decimal(out, bits as u64);
    proof {
        lemma_append(old(out)@, seq![0x7Bu8], text("\"name\":"));
        lemma_append(old(out)@, seq![0x7Bu8] + text("\"name\":"), quoted(name@));
        lemma_append(old(out)@, seq![0x7Bu8] + text("\"name\":") + quoted(name@), seq![0x2Cu8]);
        lemma_append(old(out)@, seq![0x7Bu8] + text("\"name\":") + quoted(name@) + seq![0x2Cu8], text("\"outputs\":"));
        lemma_append(old(out)@, seq![0x7Bu8] + text("\"name\":") + quoted(name@) + seq![0x2Cu8] + text("\"outputs\":"), list_text(outputs@));
        lemma_append(old(out)@, seq![0x7Bu8] + text("\"name\":") + quoted(name@) + seq![0x2Cu8] + text("\"outputs\":") + list_text(outputs@), seq![0x2Cu8]);
        lemma_append(old(out)@, seq![0x7Bu8] + text("\"name\":") + quoted(name@) + seq![0x2Cu8] + text("\"outputs\":") + list_text(outputs@) + seq![0x2Cu8], text("\"output_bits\":"));
        lemma_append(old(out)@, seq![0x7Bu8] + text("\"name\":") + quoted(name@) + seq![0x2Cu8] + text("\"outputs\":") + list_text(outputs@) + seq![0x2Cu8] + text("\"output_bits\":"), digits(bits as nat));
    }
}

fn push_inputs(out: &mut Vec<u8>, inputs: &Vec<IntfBlock>, bits: u32)
    ensures
        final(out)@ == old(out)@ + inputs_text(inputs@, bits as nat),
{
    push_byte(out, 0x2C);
    push_text(out, "\"inputs\":");
    push_list(out, inputs);
    push_byte(out, 0x2C);
    push_text(out, "\"input_bits\":");
    push_decimal(out, bits as u64);
    push_byte(out, 0x7D);
    proof {
        lemma_append(old(out)@, seq![0x2Cu8], text("\"inputs\":"));
        lemma_append(old(out)@, seq![0x2Cu8] + text("\"inputs\":"), list_text(inputs@));
        lemma_append(old(out)@, seq![0x2Cu8] + text("\"inputs\":") + list_text(inputs@), seq![0x2Cu8]);
        lemma_append(old(out)@, seq![0x2Cu8] + text("\"inputs\":") + list_text(inputs@) + seq![0x2Cu8], text("\"input_bits\":"));
        lemma_append(old(out)@, seq![0x2Cu8] + text("\"inputs\":") + list_text(inputs@) + seq![0x2Cu8] + text("\"input_bits\":"), digits(bits as nat));
        lemma_append(old(out)@, seq![0x2Cu8] + text("\"inputs\":") + list_text(inputs@) + seq![0x2Cu8] + text("\"input_bits\":") + digits(bits as nat), seq![0x7Du8]);
    }
}

impl Linker {
    /// What the linker holds, as plain values.
    pub open spec fn view(&self) -> LinkerView {
        LinkerView {
            name: self.name@,
            outputs: self.outputs@,
            output_bits: self.output_bits,
            inputs: self.inputs@,
            input_bits: self.input_bits,
        }
    }

    /// Writes the canonical text of the linker: the content of its link file.
    pub fn generate_link_file(&self) -> (json: Vec<u8>)
        ensures
            json@ == linker_text(self.view()),
            parsed_linker(json@) == Some(self.view()),
    {
        let mut out: Vec<u8> = Vec::new();
        push_outputs(&mut out, self.name.as_str().as_bytes(), &self.outputs, self.output_bits);
        push_inputs(&mut out, &self.inputs, self.input_bits);
        proof {
            let first = outputs_text(chars_text(self.name@), self.outputs@, self.output_bits as nat);
            let second = inputs_text(self.inputs@, self.input_bits as nat);
            assert(Seq::<u8>::empty() + first =~= first);
            lemma_linker_round_trip(self.view());
        }
        out
    }
}


/// Takes one byte from the text at `pos`.
fn expect_byte(bytes: &[u8], pos: usize, b: u8) -> (end: Option<usize>)
    requires
        pos <= bytes@.len(),
    ensures
        match strip(at(bytes@, pos), seq![b]) {
            Some(rest) => end matches Some(e) && pos < e <= bytes@.len() && at(bytes@, e) == rest,
            None => end is None,
        },
{
    proof {
        lemma_at_step(bytes@, pos, 0);
    }
    if pos < bytes.len() && bytes[pos] == b {
        proof {
            lemma_at_step(bytes@, pos, 1);
            assert(at(bytes@, pos).take(1) =~= seq![b]);
        }
        Some(pos + 1)
    } else {
        proof {
            if pos < bytes@.len() {
                assert(at(bytes@, pos).take(1)[0] == bytes@[pos as int]);
                assert(seq![b][0] == b);
            }
        }
        None
    }
}

fn is_word(name: &Vec<u8>, word: &str) -> (same: bool)
    ensures
        same == (name@ == text(word)),
{
    bytes_eq(name.as_slice(), word.as_bytes())
}

fn direction_from(name: &Vec<u8>) -> (d: Option<BlockDirection>)
    ensures
        d == direction_of(name@),
{
    if is_word(name, "North") {
        Some(BlockDirection::North)
    } else if is_word(name, "South") {
        Some(BlockDirection::South)
    } else if is_word(name, "East") {
        Some(BlockDirection::East)
    } else if is_word(name, "West") {
        Some(BlockDirection::West)
    } else {
        None
    }
}

fn half_from(name: &Vec<u8>) -> (h: Option<TrapdoorHalf>)
    ensures
        h == half_of(name@),
{
    if is_word(name, "Top") {
        Some(TrapdoorHalf::Top)
    } else if is_word(name, "Bottom") {
        Some(TrapdoorHalf::Bottom)
    } else {
        None
    }
}

fn face_from(name: &Vec<u8>) -> (id: Option<u32>)
    ensures
        id == face_of(name@),
        id matches Some(n) ==> n < 3,
{
    if is_word(name, "Floor") {
        Some(0)
    } else if is_word(name, "Wall") {
        Some(1)
    } else if is_word(name, "Ceiling") {
        Some(2)
    } else {
        None
    }
}

fn plain_kind_from(name: &Vec<u8>) -> (ty: Option<IntfType>)
    ensures
        ty == plain_kind(name@),
{
    if is_word(name, "Lamp") {
        Some(IntfType::Lamp)
    } else if is_word(name, "HexLamp") {
        Some(IntfType::HexLamp)
    } else if is_word(name, "PressurePlate") {
        Some(IntfType::PressurePlate)
    } else {
        None
    }
}

/// The five texts of a kind with two properties.
struct TaggedParts {
    tag: Vec<u8>,
    k1: Vec<u8>,
    v1: Vec<u8>,
    k2: Vec<u8>,
    v2: Vec<u8>,
}

impl TaggedParts {
    spec fn view(&self) -> Seq<Seq<u8>> {
        seq![self.tag@, self.k1@, self.v1@, self.k2@, self.v2@]
    }
}

fn tagged_kind_from(parts: &TaggedParts) -> (ty: Option<IntfType>)
    ensures
        ty == tagged_kind(parts@),
{
    if is_word(&parts.tag, "Trapdoor") {
        if is_word(&parts.k1, "facing") && is_word(&parts.k2, "half") {
            match (direction_from(&parts.v1), half_from(&parts.v2)) {
                (Some(facing), Some(half)) => Some(IntfType::Trapdoor { facing, half }),
                _ => None,
            }
        } else {
            None
        }
    } else if is_word(&parts.tag, "Lever") {
        if is_word(&parts.k1, "face") && is_word(&parts.k2, "facing") {
            match (face_from(&parts.v1), direction_from(&parts.v2)) {
                (Some(face), Some(facing)) => Some(
                    IntfType::Lever { face: LeverFace::from_id(face), facing },
                ),
                _ => None,
            }
        } else {
            None
        }
    } else if is_word(&parts.tag, "Button") {
        if is_word(&parts.k1, "face") && is_word(&parts.k2, "facing") {
            match (face_from(&parts.v1), direction_from(&parts.v2)) {
                (Some(face), Some(facing)) => Some(
                    IntfType::Button { face: ButtonFace::from_id(face), facing },
                ),
                _ => None,
            }
        } else {
            None
        }
    } else {
        None
    }
}

fn read_tagged(bytes: &[u8], pos: usize) -> (found: Option<(TaggedParts, usize)>)
    requires
        pos <= bytes@.len(),
    ensures
        match leading_tagged(at(bytes@, pos)) {
            Some((parts, rest)) => found matches Some((v, e)) && v@ == parts && pos <= e
                <= bytes@.len() && at(bytes@, e) == rest,
            None => found is None,
        },
{
    let e0 = match expect_byte(bytes, pos, 0x7B) {
        Some(e) => e,
        None => {
            return None;
        },
    };
    let (tag, e1) = match read_string(bytes, e0) {
        Some(found) => found,
        None => {
            return None;
        },
    };
    let e2 = match expect(bytes, e1, ":{") {
        Some(e) => e,
        None => {
            return None;
        },
    };
    let (k1, e3) = match read_string(bytes, e2) {
        Some(found) => found,
        None => {
            return None;
        },
    };
    let e4 = match expect(bytes, e3, ":") {
        Some(e) => e,
        None => {
            return None;
        },
    };
    let (v1, e5) = match read_string(bytes, e4) {
        Some(found) => found,
        None => {
            return None;
        },
    };
    let e6 = match expect(bytes, e5, ",") {
        Some(e) => e,
        None => {
            return None;
        },
    };
    let (k2, e7) = match read_string(bytes, e6) {
        Some(found) => found,
        None => {
            return None;
        },
    };
    let e8 = match expect(bytes, e7, ":") {
        Some(e) => e,
        None => {
            return None;
        },
    };
    let (v2, e9) = match read_string(bytes, e8) {
        Some(found) => found,
        None => {
            return None;
        },
    };
    let end = match expect(bytes, e9, "}}") {
        Some(e) => e,
        None => {
            return None;
        },
    };
    Some((TaggedParts { tag, k1, v1, k2, v2 }, end))
}

/// Reads the kind at `pos`.
pub fn read_type(bytes: &[u8], pos: usize) -> (found: Option<(IntfType, usize)>)
    requires
        pos <= bytes@.len(),
    ensures
        match leading_type(at(bytes@, pos)) {
            Some((ty, rest)) => found matches Some((v, e)) && v == ty && pos <= e <= bytes@.len()
                && at(bytes@, e) == rest,
            None => found is None,
        },
{
    proof {
        lemma_at_step(bytes@, pos, 0);
    }
    if pos < bytes.len() && bytes[pos] == QUOTE {
        match read_string(bytes, pos) {
            Some((name, e)) => match plain_kind_from(&name) {
                Some(ty) => Some((ty, e)),
                None => None,
            },
            None => None,
        }
    } else {
        match read_tagged(bytes, pos) {
            Some((parts, e)) => match tagged_kind_from(&parts) {
                Some(ty) => Some((ty, e)),
                None => None,
            },
            None => None,
        }
    }
}

fn read_pos(bytes: &[u8], pos: usize) -> (found: Option<(BlockPos, usize)>)
    requires
        pos <= bytes@.len(),
    ensures
        match leading_pos(at(bytes@, pos)) {
            Some((p, rest)) => found matches Some((v, e)) && v == p && pos <= e <= bytes@.len() && at(
                bytes@,
                e,
            ) == rest,
            None => found is None,
        },
{
    let e0 = match expect(bytes, pos, "{\"x\":") {
        Some(e) => e,
        None => {
            return None;
        },
    };
    let (x, e1) = match read_int(bytes, e0) {
        Some(found) => found,
        None => {
            return None;
        },
    };
    let e2 = match expect_byte(bytes, e1, 0x2C) {
        Some(e) => e,
        None => {
            return None;
        },
    };
    let e3 = match expect(bytes, e2, "\"y\":") {
        Some(e) => e,
        None => {
            return None;
        },
    };
    let (y, e4) = match read_number(bytes, e3, 0xFFFF_FFFF) {
        Some(found) => found,
        None => {
            return None;
        },
    };
    let e5 = match expect_byte(bytes, e4, 0x2C) {
        Some(e) => e,
        None => {
            return None;
        },
    };
    let e6 = match expect(bytes, e5, "\"z\":") {
        Some(e) => e,
        None => {
            return None;
        },
    };
    let (z, e7) = match read_int(bytes, e6) {
        Some(found) => found,
        None => {
            return None;
        },
    };
    let end = match expect_byte(bytes, e7, 0x7D) {
        Some(e) => e,
        None => {
            return None;
        },
    };
    Some((BlockPos { x, y, z }, end))
}

/// Reads the interface block at `pos`.
pub fn read_block(bytes: &[u8], pos: usize) -> (found: Option<(IntfBlock, usize)>)
    requires
        pos <= bytes@.len(),
    ensures
        match leading_block(at(bytes@, pos)) {
            Some((block, rest)) => found matches Some((v, e)) && v == block && pos <= e
                <= bytes@.len() && at(bytes@, e) == rest,
            None => found is None,
        },
{
    proof {
        reveal(leading_block);
    }
    let e0 = match expect_byte(bytes, pos, 0x7B) {
        Some(e) => e,
        None => {
            return None;
        },
    };
    let e1 = match expect(bytes, e0, "\"ty\":") {
        Some(e) => e,
        None => {
            return None;
        },
    };
    let (ty, e2) = match read_type(bytes, e1) {
        Some(found) => found,
        None => {
            return None;
        },
    };
    let e3 = match expect_byte(bytes, e2, 0x2C) {
        Some(e) => e,
        None => {
            return None;
        },
    };
    let e4 = match expect(bytes, e3, "\"pos\":") {
        Some(e) => e,
        None => {
            return None;
        },
    };
    let (place, e5) = match read_pos(bytes, e4) {
        Some(found) => found,
        None => {
            return None;
        },
    };
    let e6 = match expect_byte(bytes, e5, 0x2C) {
        Some(e) => e,
        None => {
            return None;
        },
    };
    let e7 = match expect(bytes, e6, "\"state\":") {
        Some(e) => e,
        None => {
            return None;
        },
    };
    let (state, e8) = match read_number(bytes, e7, 0xFF) {
        Some(found) => found,
        None => {
            return None;
        },
    };
    let end = match expect_byte(bytes, e8, 0x7D) {
        Some(e) => e,
        None => {
            return None;
        },
    };
    Some((IntfBlock { ty, pos: place, state: state as u8 }, end))
}

/// A reading with blocks in front of the blocks that were read.
pub open spec fn with_blocks(head: Seq<IntfBlock>, read: Option<(Seq<IntfBlock>, Seq<u8>)>) -> Option<
    (Seq<IntfBlock>, Seq<u8>),
> {
    match read {
        Some((blocks, rest)) => Some((head + blocks, rest)),
        None => None,
    }
}

proof fn lemma_with_blocks_push(
    head: Seq<IntfBlock>,
    block: IntfBlock,
    read: Option<(Seq<IntfBlock>, Seq<u8>)>,
)
    ensures
        with_blocks(head, prepend_block(block, read)) == with_blocks(head.push(block), read),
        with_blocks(head, Some((seq![block], Seq::<u8>::empty()))) == Some(
            (head.push(block), Seq::<u8>::empty()),
        ),
{
    match read {
        Some((blocks, rest)) => {
            assert(head + (seq![block] + blocks) =~= head.push(block) + blocks);
        },
        None => {},
    }
    assert(head + seq![block] =~= head.push(block));
}

/// Reads the table at `pos`.
pub fn read_list(bytes: &[u8], pos: usize) -> (found: Option<(Vec<IntfBlock>, usize)>)
    requires
        pos <= bytes@.len(),
    ensures
        match leading_list(at(bytes@, pos)) {
            Some((blocks, rest)) => found matches Some((v, e)) && v@ == blocks && pos <= e
                <= bytes@.len() && at(bytes@, e) == rest,
            None => found is None,
        },
{
    let start = match expect_byte(bytes, pos, 0x5B) {
        Some(e) => e,
        None => {
            return None;
        },
    };
    let mut acc: Vec<IntfBlock> = Vec::new();
    match expect_byte(bytes, start, 0x5D) {
        Some(e) => {
            return Some((acc, e));
        },
        None => {},
    }
    let mut e: usize = start;
    proof {
        match leading_items(at(bytes@, start)) {
            Some((blocks, rest)) => {
                assert(acc@ + blocks =~= blocks);
            },
            None => {},
        }
    }
    loop
        invariant
            pos <= start <= e <= bytes@.len(),
            leading_list(at(bytes@, pos)) == leading_items(at(bytes@, start)),
            leading_items(at(bytes@, start)) == with_blocks(acc@, leading_items(at(bytes@, e))),
        decreases bytes@.len() - e,
    {
        proof {
            lemma_at_step(bytes@, e, 0);
        }
        let (block, e1) = match read_block(bytes, e) {
            Some(found) => found,
            None => {
                return None;
            },
        };
        proof {
            lemma_at_step(bytes@, e1, 0);
        }
        if e1 <= e {
            return None;
        }
        match expect_byte(bytes, e1, 0x2C) {
            Some(e2) => {
                proof {
                    lemma_with_blocks_push(acc@, block, leading_items(at(bytes@, e2)));
                }
                acc.push(block);
                e = e2;
            },
            None => {
                match expect_byte(bytes, e1, 0x5D) {
                    Some(e3) => {
                        proof {
                            assert(acc@ + seq![block] =~= acc@.push(block));
                        }
                        acc.push(block);
                        return Some((acc, e3));
                    },
                    None => {
                        return None;
                    },
                }
            },
        }
    }
}

fn read_outputs_half(bytes: &[u8]) -> (found: Option<(Vec<u8>, Vec<IntfBlock>, u32, usize)>)
    ensures
        match leading_outputs(bytes@) {
            Some((name, outputs, bits, rest)) => found matches Some((n, o, b, e)) && n@ == name && o@
                == outputs && b == bits && e <= bytes@.len() && at(bytes@, e) == rest,
            None => found is None,
        },
{
    proof {
        assert(at(bytes@, 0) =~= bytes@);
    }
    let e0 = match expect_byte(bytes, 0, 0x7B) {
        Some(e) => e,
        None => {
            return None;
        },
    };
    let e1 = match expect(bytes, e0, "\"name\":") {
        Some(e) => e,
        None => {
            return None;
        },
    };
    let (name, e2) = match read_string(bytes, e1) {
        Some(found) => found,
        None => {
            return None;
        },
    };
    let e3 = match expect_byte(bytes, e2, 0x2C) {
        Some(e) => e,
        None => {
            return None;
        },
    };
    let e4 = match expect(bytes, e3, "\"outputs\":") {
        Some(e) => e,
        None => {
            return None;
        },
    };
    let (outputs, e5) = match read_list(bytes, e4) {
        Some(found) => found,
        None => {
            return None;
        },
    };
    let e6 = match expect_byte(bytes, e5, 0x2C) {
        Some(e) => e,
        None => {
            return None;
        },
    };
    let e7 = match expect(bytes, e6, "\"output_bits\":") {
        Some(e) => e,
        None => {
            return None;
        },
    };
    let (bits, end) = match read_number(bytes, e7, 0xFFFF_FFFF) {
        Some(found) => found,
        None => {
            return None;
        },
    };
    Some((name, outputs, bits, end))
}

fn read_inputs_half(bytes: &[u8], pos: usize) -> (found: Option<(Vec<IntfBlock>, u32, usize)>)
    requires
        pos <= bytes@.len(),
    ensures
        match leading_inputs(at(bytes@, pos)) {
            Some((inputs, bits, rest)) => found matches Some((i, b, e)) && i@ == inputs && b == bits
                && e <= bytes@.len() && at(bytes@, e) == rest,
            None => found is None,
        },
{
    let e0 = match expect_byte(bytes, pos, 0x2C) {
        Some(e) => e,
        None => {
            return None;
        },
    };
    let e1 = match expect(bytes, e0, "\"inputs\":") {
        Some(e) => e,
        None => {
            return None;
        },
    };
    let (inputs, e2) = match read_list(bytes, e1) {
        Some(found) => found,
        None => {
            return None;
        },
    };
    let e3 = match expect_byte(bytes, e2, 0x2C) {
        Some(e) => e,
        None => {
            return None;
        },
    };
    let e4 = match expect(bytes, e3, "\"input_bits\":") {
        Some(e) => e,
        None => {
            return None;
        },
    };
    let (bits, e5) = match read_number(bytes, e4, 0xFFFF_FFFF) {
        Some(found) => found,
        None => {
            return None;
        },
    };
    let end = match expect_byte(bytes, e5, 0x7D) {
        Some(e) => e,
        None => {
            return None;
        },
    };
    Some((inputs, bits, end))
}

/// Whether a byte is a blank between the tokens of a text: a space, a tab, a line feed
/// or a carriage return.
pub open spec fn is_blank(b: u8) -> bool {
    b == 0x20 || b == 0x09 || b == 0x0A || b == 0x0D
}

/// A text without the blanks between its tokens, read on in one of three modes: 0
/// between tokens, 1 inside a string, 2 behind a backslash inside a string. Whatever
/// stands inside a string stays.
pub open spec fn squeezed_from(s: Seq<u8>, mode: int) -> Seq<u8>
    decreases s.len(),
{
    if s.len() == 0 {
        Seq::empty()
    } else if mode == 2 {
        seq![s[0]] + squeezed_from(s.skip(1), 1)
    } else if mode == 1 {
        seq![s[0]] + squeezed_from(
            s.skip(1),
            if s[0] == BACKSLASH {
                2
            } else if s[0] == QUOTE {
                0
            } else {
                1
            },
        )
    } else if is_blank(s[0]) {
        squeezed_from(s.skip(1), 0)
    } else {
        seq![s[0]] + squeezed_from(
            s.skip(1),
            if s[0] == QUOTE {
                1
            } else {
                0
            },
        )
    }
}

/// A text without the blanks between its tokens.
pub open spec fn squeezed(s: Seq<u8>) -> Seq<u8> {
    squeezed_from(s, 0)
}

/// The linker that a text stands for: the linker that it is the canonical text of, and
/// else the linker that it is the canonical text of once the blanks between its tokens
/// are passed over.
pub open spec fn read_linker(s: Seq<u8>) -> Option<LinkerView> {
    match parsed_linker(s) {
        Some(link) => Some(link),
        None => parsed_linker(squeezed(s)),
    }
}

/// Takes the blanks between the tokens out of a text.
pub fn squeeze(bytes: &[u8]) -> (out: Vec<u8>)
    ensures
        out@ == squeezed(bytes@),
{
    let mut out: Vec<u8> = Vec::new();
    let mut mode: u8 = 0;
    let mut i: usize = 0;
    proof {
        assert(bytes@.skip(0) =~= bytes@);
        assert(out@ + squeezed_from(bytes@, 0) =~= squeezed_from(bytes@, 0));
    }
    while i < bytes.len()
        invariant
            i <= bytes@.len(),
            mode <= 2,
            squeezed(bytes@) == out@ + squeezed_from(bytes@.skip(i as int), mode as int),
        decreases bytes.len() - i,
    {
        let b = bytes[i];
        let ghost rest = bytes@.skip(i as int);
        let ghost before = out@;
        proof {
            assert(rest[0] == b);
            assert(rest.skip(1) =~= bytes@.skip(i + 1));
        }
        if mode == 2 {
            out.push(b);
            mode = 1;
        } else if mode == 1 {
            out.push(b);
            if b == BACKSLASH {
                mode = 2;
            } else if b == QUOTE {
                mode = 0;
            }
        } else if b == 0x20 || b == 0x09 || b == 0x0A || b == 0x0D {
        } else {
            out.push(b);
            if b == QUOTE {
                mode = 1;
            }
        }
        i += 1;
        proof {
            let tail = squeezed_from(bytes@.skip(i as int), mode as int);
            if out@.len() > before.len() {
                assert(before + (seq![b] + tail) =~= out@ + tail);
            }
        }
    }
    proof {
        assert(squeezed_from(bytes@.skip(i as int), mode as int) =~= Seq::<u8>::empty());
        assert(out@ + Seq::<u8>::empty() =~= out@);
    }
    out
}

impl Linker {
    /// Reads a linker from its canonical text and from no other.
    pub fn parse_canonical(bytes: &[u8]) -> (link: Option<Linker>)
        ensures
            link matches Some(l) ==> bytes@ == linker_text(l.view()),
            link is None ==> forall|view: LinkerView| #[trigger] linker_text(view) != bytes@,
            match parsed_linker(bytes@) {
                Some(view) => link matches Some(l) && l.view() == view,
                None => link is None,
            },
    {
        proof {
            assert forall|view: LinkerView|
                parsed_linker(bytes@) is None implies #[trigger] linker_text(view) != bytes@ by {
                lemma_canonical(bytes@, view);
            }
            if parsed_linker(bytes@) is Some {
                lemma_canonical(bytes@, parsed_linker(bytes@)->0);
            }
        }
        let (name, outputs, output_bits, e) = match read_outputs_half(bytes) {
            Some(found) => found,
            None => {
                return None;
            },
        };
        let (inputs, input_bits, end) = match read_inputs_half(bytes, e) {
            Some(found) => found,
            None => {
                return None;
            },
        };
        proof {
            lemma_at_step(bytes@, end, 0);
        }
        if end != bytes.len() {
            return None;
        }
        match string_from_utf8(name) {
            Some(text) => {
                proof {
                    vstd::utf8::encode_utf8_decode_utf8(text@);
                }
                Some(Linker { name: text, outputs, output_bits, inputs, input_bits })
            },
            None => None,
        }
    }

    /// Reads a linker from the content of a link file. A canonical text reads as the linker
    /// that it is the text of, so what `generate_link_file` wrote reads back as the same
    /// linker. Any other text is read with the blanks and line breaks between its tokens
    /// passed over, and gives a linker where what is left is a canonical text; else none.
    pub fn parse_link_file(bytes: &[u8]) -> (link: Option<Linker>)
        ensures
            match read_linker(bytes@) {
                Some(view) => link matches Some(l) && l.view() == view,
                None => link is None,
            },
            link matches Some(l) ==> bytes@ == linker_text(l.view()) || squeezed(bytes@) == linker_text(
                l.view(),
            ),
            link is None ==> forall|view: LinkerView|
                #![trigger linker_text(view)]
                linker_text(view) != bytes@ && linker_text(view) != squeezed(bytes@),
    {
        match Self::parse_canonical(bytes) {
            Some(link) => Some(link),
            None => {
                let tight = squeeze(bytes);
                Self::parse_canonical(tight.as_slice())
            },
        }
    }
}

/// A text that a word was taken from began with the word.
pub proof fn lemma_strip_sound(s: Seq<u8>, word: Seq<u8>)
    ensures
        strip(s, word) matches Some(rest) ==> s == word + rest,
{
    if strip(s, word) is Some {
        assert(s =~= s.take(word.len() as int) + s.skip(word.len() as int));
    }
}

proof fn lemma_value_positive(row: Seq<u8>)
    requires
        row.len() >= 1,
        forall|k: int| 0 <= k < row.len() ==> is_digit(#[trigger] row[k]),
        row[0] != 48,
    ensures
        value(row) >= 1,
    decreases row.len(),
{
    if row.len() > 1 {
        assert(row.drop_last()[0] == row[0]);
        lemma_value_positive(row.drop_last());
    } else {
        assert(row.drop_last().len() == 0);
        assert(value(row.drop_last()) == 0);
    }
}

/// A row of digits without a leading zero is the digits of the number it spells.
pub proof fn lemma_digits_of_value(row: Seq<u8>)
    requires
        row.len() >= 1,
        forall|k: int| 0 <= k < row.len() ==> is_digit(#[trigger] row[k]),
        row.len() >= 2 ==> row[0] != 48,
    ensures
        digits(value(row)) == row,
    decreases row.len(),
{
    let init = row.drop_last();
    let d = row.last();
    if row.len() == 1 {
        assert(value(init) == 0);
        assert(digits(value(row)) =~= row);
    } else {
        assert(init[0] == row[0]);
        assert forall|k: int| 0 <= k < init.len() implies is_digit(#[trigger] init[k]) by {
            assert(init[k] == row[k]);
        }
        lemma_value_positive(init);
        lemma_digits_of_value(init);
        let v = value(row);
        assert(v == value(init) * 10 + (d - 48));
        assert(v >= 10);
        assert(v / 10 == value(init) && v % 10 == d - 48);
        assert(digits(v) =~= row);
    }
}

/// A text that a number was read from began with the digits of the number.
pub proof fn lemma_leading_number_sound(s: Seq<u8>, limit: nat)
    ensures
        leading_number(s, limit) matches Some((n, rest)) ==> s == digits(n) + rest && n <= limit,
{
    if leading_number(s, limit) is Some {
        let n = run_len(s);
        lemma_run_len_bound(s);
        let row = s.take(n as int);
        lemma_digits_of_value(row);
        assert(s =~= row + s.skip(n as int));
    }
}

/// A text that a signed number was read from began with the signed digits of the number.
pub proof fn lemma_leading_int_sound(s: Seq<u8>, low: nat, high: nat)
    ensures
        leading_int(s, low, high) matches Some((i, rest)) ==> s == signed_digits(i) + rest && -(
        low as int) <= i <= high,
{
    if leading_int(s, low, high) is Some {
        if s.len() > 0 && s[0] == 45 {
            lemma_leading_number_sound(s.skip(1), low);
            let found = leading_number(s.skip(1), low)->0;
            let n = found.0;
            let rest = found.1;
            assert(s =~= seq![45u8] + s.skip(1));
            assert(s =~= (seq![45u8] + digits(n)) + rest);
        } else {
            lemma_leading_number_sound(s, high);
        }
    }
}

proof fn lemma_hex_digit_of_value(b: u8)
    requires
        hex_value(b) is Some,
    ensures
        hex_digit(hex_value(b)->0) == b,
        hex_value(b)->0 < 16,
{
}

/// A text that the inside of a string was read from began with the text of the string
/// as it stands inside a string, and the closing quote.
pub proof fn lemma_unescaped_sound(s: Seq<u8>)
    ensures
        unescaped(s) matches Some((bytes, rest)) ==> s == escaped(bytes) + seq![QUOTE] + rest,
    decreases s.len(),
{
    if unescaped(s) is Some {
        let found = unescaped(s)->0;
        let bytes = found.0;
        let rest = found.1;
        if s[0] == QUOTE {
            assert(escaped(bytes) =~= Seq::<u8>::empty());
            assert(s =~= escaped(bytes) + seq![QUOTE] + rest);
        } else {
            let (used, b): (int, u8) = if s[0] == BACKSLASH {
                if s.len() >= 2 && (s[1] == QUOTE || s[1] == BACKSLASH) {
                    (2, s[1])
                } else {
                    (6, ((s[4] - 48) * 16 + hex_value(s[5])->0) as u8)
                }
            } else {
                (1, s[0])
            };
            let after = s.skip(used);
            lemma_unescaped_sound(after);
            let tail = (unescaped(after)->0).0;
            assert(bytes == seq![b] + tail);
            assert(bytes[0] == b);
            assert(bytes.drop_first() =~= tail);
            if used == 6 {
                lemma_hex_digit_of_value(s[5]);
                assert(b / 16 == s[4] - 48 && b % 16 == hex_value(s[5])->0);
            }
            assert(s.take(used) =~= escape_byte(b));
            assert(s =~= s.take(used) + after);
            assert(escaped(bytes) == escape_byte(b) + escaped(tail));
            assert(s =~= escaped(bytes) + seq![QUOTE] + rest);
        }
    }
}

/// A text that a string was read from began with the string.
pub proof fn lemma_unquoted_sound(s: Seq<u8>)
    ensures
        unquoted(s) matches Some((bytes, rest)) ==> s == quoted(bytes) + rest,
{
    if unquoted(s) is Some {
        let found = unquoted(s)->0;
        lemma_unescaped_sound(s.skip(1));
        assert(s =~= seq![QUOTE] + s.skip(1));
        assert(s =~= quoted(found.0) + found.1);
    }
}


/// A text that a kind with two properties was read from began with the text of its parts.
#[verifier::rlimit(80)]
pub proof fn lemma_leading_tagged_sound(s: Seq<u8>)
    ensures
        leading_tagged(s) matches Some((parts, rest)) ==> parts.len() == 5 && s == tagged_text(
            parts[0],
            parts[1],
            parts[2],
            parts[3],
            parts[4],
        ) + rest,
{
    if leading_tagged(s) is Some {
        let r0 = s;
        lemma_strip_sound(r0, seq![0x7Bu8]);
        let r1 = strip(r0, seq![0x7Bu8])->0;
        lemma_unquoted_sound(r1);
        let f1 = unquoted(r1)->0;
        let v1 = f1.0;
        let r2 = f1.1;
        lemma_strip_sound(r2, text(":{"));
        let r3 = strip(r2, text(":{"))->0;
        lemma_unquoted_sound(r3);
        let f3 = unquoted(r3)->0;
        let v3 = f3.0;
        let r4 = f3.1;
        lemma_strip_sound(r4, text(":"));
        let r5 = strip(r4, text(":"))->0;
        lemma_unquoted_sound(r5);
        let f5 = unquoted(r5)->0;
        let v5 = f5.0;
        let r6 = f5.1;
        lemma_strip_sound(r6, text(","));
        let r7 = strip(r6, text(","))->0;
        lemma_unquoted_sound(r7);
        let f7 = unquoted(r7)->0;
        let v7 = f7.0;
        let r8 = f7.1;
        lemma_strip_sound(r8, text(":"));
        let r9 = strip(r8, text(":"))->0;
        lemma_unquoted_sound(r9);
        let f9 = unquoted(r9)->0;
        let v9 = f9.0;
        let r10 = f9.1;
        lemma_strip_sound(r10, text("}}"));
        let r11 = strip(r10, text("}}"))->0;
        lemma_append(seq![0x7Bu8], quoted(v1), r2);
        lemma_append(seq![0x7Bu8] + quoted(v1), text(":{"), r3);
        lemma_append(seq![0x7Bu8] + quoted(v1) + text(":{"), quoted(v3), r4);
        lemma_append(seq![0x7Bu8] + quoted(v1) + text(":{") + quoted(v3), text(":"), r5);
        lemma_append(seq![0x7Bu8] + quoted(v1) + text(":{") + quoted(v3) + text(":"), quoted(v5), r6);
        lemma_append(seq![0x7Bu8] + quoted(v1) + text(":{") + quoted(v3) + text(":") + quoted(v5), text(","), r7);
        lemma_append(seq![0x7Bu8] + quoted(v1) + text(":{") + quoted(v3) + text(":") + quoted(v5) + text(","), quoted(v7), r8);
        lemma_append(seq![0x7Bu8] + quoted(v1) + text(":{") + quoted(v3) + text(":") + quoted(v5) + text(",") + quoted(v7), text(":"), r9);
        lemma_append(seq![0x7Bu8] + quoted(v1) + text(":{") + quoted(v3) + text(":") + quoted(v5) + text(",") + quoted(v7) + text(":"), quoted(v9), r10);
        lemma_append(seq![0x7Bu8] + quoted(v1) + text(":{") + quoted(v3) + text(":") + quoted(v5) + text(",") + quoted(v7) + text(":") + quoted(v9), text("}}"), r11);
    }
}

proof fn lemma_direction_sound(name: Seq<u8>)
    ensures
        direction_of(name) matches Some(d) ==> name == direction_name(d),
{
}

proof fn lemma_half_sound(name: Seq<u8>)
    ensures
        half_of(name) matches Some(h) ==> name == half_name(h),
{
}

proof fn lemma_face_sound(name: Seq<u8>)
    ensures
        face_of(name) matches Some(id) ==> id < 3 && name == face_name(id),
{
}

proof fn lemma_tagged_kind_sound(parts: Seq<Seq<u8>>)
    requires
        parts.len() == 5,
    ensures
        tagged_kind(parts) matches Some(ty) ==> type_text(ty) == tagged_text(
            parts[0],
            parts[1],
            parts[2],
            parts[3],
            parts[4],
        ),
{
    lemma_direction_sound(parts[2]);
    lemma_direction_sound(parts[4]);
    lemma_half_sound(parts[4]);
    lemma_face_sound(parts[2]);
}

/// A text that a kind was read from began with the text of the kind.
pub proof fn lemma_leading_type_sound(s: Seq<u8>)
    ensures
        leading_type(s) matches Some((ty, rest)) ==> s == type_text(ty) + rest,
{
    if leading_type(s) is Some {
        if s.len() > 0 && s[0] == QUOTE {
            lemma_unquoted_sound(s);
        } else {
            lemma_leading_tagged_sound(s);
            lemma_tagged_kind_sound((leading_tagged(s)->0).0);
        }
    }
}

/// A text that a position was read from began with the text of the position.
pub proof fn lemma_leading_pos_sound(s: Seq<u8>)
    ensures
        leading_pos(s) matches Some((pos, rest)) ==> s == pos_text(pos) + rest,
{
    if leading_pos(s) is Some {
        let r0 = s;
        lemma_strip_sound(r0, text("{\"x\":"));
        let r1 = strip(r0, text("{\"x\":"))->0;
        lemma_leading_int_sound(r1, 0x8000_0000, 0x7FFF_FFFF);
        let f1 = leading_int(r1, 0x8000_0000, 0x7FFF_FFFF)->0;
        let v1 = f1.0;
        let r2 = f1.1;
        lemma_strip_sound(r2, seq![0x2Cu8]);
        let r3 = strip(r2, seq![0x2Cu8])->0;
        lemma_strip_sound(r3, text("\"y\":"));
        let r4 = strip(r3, text("\"y\":"))->0;
        lemma_leading_number_sound(r4, 0xFFFF_FFFF);
        let f4 = leading_number(r4, 0xFFFF_FFFF)->0;
        let v4 = f4.0;
        let r5 = f4.1;
        lemma_strip_sound(r5, seq![0x2Cu8]);
        let r6 = strip(r5, seq![0x2Cu8])->0;
        lemma_strip_sound(r6, text("\"z\":"));
        let r7 = strip(r6, text("\"z\":"))->0;
        lemma_leading_int_sound(r7, 0x8000_0000, 0x7FFF_FFFF);
        let f7 = leading_int(r7, 0x8000_0000, 0x7FFF_FFFF)->0;
        let v7 = f7.0;
        let r8 = f7.1;
        lemma_strip_sound(r8, seq![0x7Du8]);
        let r9 = strip(r8, seq![0x7Du8])->0;
        lemma_append(text("{\"x\":"), signed_digits(v1), r2);
        lemma_append(text("{\"x\":") + signed_digits(v1), seq![0x2Cu8], r3);
        lemma_append(text("{\"x\":") + signed_digits(v1) + seq![0x2Cu8], text("\"y\":"), r4);
        lemma_append(text("{\"x\":") + signed_digits(v1) + seq![0x2Cu8] + text("\"y\":"), digits(v4), r5);
        lemma_append(text("{\"x\":") + signed_digits(v1) + seq![0x2Cu8] + text("\"y\":") + digits(v4), seq![0x2Cu8], r6);
        lemma_append(text("{\"x\":") + signed_digits(v1) + seq![0x2Cu8] + text("\"y\":") + digits(v4) + seq![0x2Cu8], text("\"z\":"), r7);
        lemma_append(text("{\"x\":") + signed_digits(v1) + seq![0x2Cu8] + text("\"y\":") + digits(v4) + seq![0x2Cu8] + text("\"z\":"), signed_digits(v7), r8);
        lemma_append(text("{\"x\":") + signed_digits(v1) + seq![0x2Cu8] + text("\"y\":") + digits(v4) + seq![0x2Cu8] + text("\"z\":") + signed_digits(v7), seq![0x7Du8], r9);
    }
}

/// A text that an interface block was read from began with the text of the block.
pub proof fn lemma_leading_block_sound(s: Seq<u8>)
    ensures
        leading_block(s) matches Some((block, rest)) ==> s == block_text(block) + rest,
{
    reveal(leading_block);
    if leading_block(s) is Some {
        let r0 = s;
        lemma_strip_sound(r0, seq![0x7Bu8]);
        let r1 = strip(r0, seq![0x7Bu8])->0;
        lemma_strip_sound(r1, text("\"ty\":"));
        let r2 = strip(r1, text("\"ty\":"))->0;
        lemma_leading_type_sound(r2);
        let f2 = leading_type(r2)->0;
        let v2 = f2.0;
        let r3 = f2.1;
        lemma_strip_sound(r3, seq![0x2Cu8]);
        let r4 = strip(r3, seq![0x2Cu8])->0;
        lemma_strip_sound(r4, text("\"pos\":"));
        let r5 = strip(r4, text("\"pos\":"))->0;
        lemma_leading_pos_sound(r5);
        let f5 = leading_pos(r5)->0;
        let v5 = f5.0;
        let r6 = f5.1;
        lemma_strip_sound(r6, seq![0x2Cu8]);
        let r7 = strip(r6, seq![0x2Cu8])->0;
        lemma_strip_sound(r7, text("\"state\":"));
        let r8 = strip(r7, text("\"state\":"))->0;
        lemma_leading_number_sound(r8, 0xFF);
        let f8 = leading_number(r8, 0xFF)->0;
        let v8 = f8.0;
        let r9 = f8.1;
        lemma_strip_sound(r9, seq![0x7Du8]);
        let r10 = strip(r9, seq![0x7Du8])->0;
        lemma_append(seq![0x7Bu8], text("\"ty\":"), r2);
        lemma_append(seq![0x7Bu8] + text("\"ty\":"), type_text(v2), r3);
        lemma_append(seq![0x7Bu8] + text("\"ty\":") + type_text(v2), seq![0x2Cu8], r4);
        lemma_append(seq![0x7Bu8] + text("\"ty\":") + type_text(v2) + seq![0x2Cu8], text("\"pos\":"), r5);
        lemma_append(seq![0x7Bu8] + text("\"ty\":") + type_text(v2) + seq![0x2Cu8] + text("\"pos\":"), pos_text(v5), r6);
        lemma_append(seq![0x7Bu8] + text("\"ty\":") + type_text(v2) + seq![0x2Cu8] + text("\"pos\":") + pos_text(v5), seq![0x2Cu8], r7);
        lemma_append(seq![0x7Bu8] + text("\"ty\":") + type_text(v2) + seq![0x2Cu8] + text("\"pos\":") + pos_text(v5) + seq![0x2Cu8], text("\"state\":"), r8);
        lemma_append(seq![0x7Bu8] + text("\"ty\":") + type_text(v2) + seq![0x2Cu8] + text("\"pos\":") + pos_text(v5) + seq![0x2Cu8] + text("\"state\":"), digits(v8), r9);
        lemma_append(seq![0x7Bu8] + text("\"ty\":") + type_text(v2) + seq![0x2Cu8] + text("\"pos\":") + pos_text(v5) + seq![0x2Cu8] + text("\"state\":") + digits(v8), seq![0x7Du8], r10);
    }
}

/// A text that blocks were read from began with the text of the blocks and the closing
/// bracket.
pub proof fn lemma_leading_items_sound(s: Seq<u8>)
    ensures
        leading_items(s) matches Some((blocks, rest)) ==> blocks.len() >= 1 && s == items_text(
            blocks,
        ) + seq![0x5Du8] + rest,
    decreases s.len(),
{
    if leading_items(s) is Some {
        lemma_leading_block_sound(s);
        let first = leading_block(s)->0;
        let block = first.0;
        let r = first.1;
        let found = leading_items(s)->0;
        let blocks = found.0;
        let rest = found.1;
        lemma_strip_sound(r, seq![0x2Cu8]);
        lemma_strip_sound(r, seq![0x5Du8]);
        match strip(r, seq![0x2Cu8]) {
            Some(r2) => {
                lemma_leading_items_sound(r2);
                let more = (leading_items(r2)->0).0;
                let inner = items_text(more);
                assert(blocks == seq![block] + more);
                assert(blocks[0] == block);
                assert(blocks.drop_first() =~= more);
                assert(items_text(blocks) == block_text(block) + seq![0x2Cu8] + inner);
                lemma_append(inner, seq![0x5Du8], rest);
                lemma_append(block_text(block), seq![0x2Cu8], inner + (seq![0x5Du8] + rest));
                lemma_append(block_text(block) + seq![0x2Cu8], inner, seq![0x5Du8] + rest);
                lemma_append(block_text(block) + seq![0x2Cu8] + inner, seq![0x5Du8], rest);
            },
            None => {
                assert(blocks == seq![block]);
                assert(blocks[0] == block);
                lemma_append(block_text(block), seq![0x5Du8], rest);
            },
        }
    }
}

/// A text that a table was read from began with the text of the table.
pub proof fn lemma_leading_list_sound(s: Seq<u8>)
    ensures
        leading_list(s) matches Some((blocks, rest)) ==> s == list_text(blocks) + rest,
{
    if leading_list(s) is Some {
        lemma_strip_sound(s, seq![0x5Bu8]);
        let r = strip(s, seq![0x5Bu8])->0;
        lemma_strip_sound(r, seq![0x5Du8]);
        let found = leading_list(s)->0;
        let blocks = found.0;
        let rest = found.1;
        let inner = items_text(blocks);
        match strip(r, seq![0x5Du8]) {
            Some(after) => {
                assert(inner =~= Seq::<u8>::empty());
                assert(seq![0x5Bu8] + inner =~= seq![0x5Bu8]);
            },
            None => {
                lemma_leading_items_sound(r);
                lemma_append(inner, seq![0x5Du8], rest);
            },
        }
        lemma_append(seq![0x5Bu8], inner, seq![0x5Du8] + rest);
        lemma_append(seq![0x5Bu8] + inner, seq![0x5Du8], rest);
    }
}

proof fn lemma_leading_outputs_sound(s: Seq<u8>)
    ensures
        leading_outputs(s) matches Some((name, outputs, bits, rest)) ==> s == outputs_text(
            name,
            outputs,
            bits,
        ) + rest && bits <= 0xFFFF_FFFF,
{
    if leading_outputs(s) is Some {
        let r0 = s;
        lemma_strip_sound(r0, seq![0x7Bu8]);
        let r1 = strip(r0, seq![0x7Bu8])->0;
        lemma_strip_sound(r1, text("\"name\":"));
        let r2 = strip(r1, text("\"name\":"))->0;
        lemma_unquoted_sound(r2);
        let f2 = unquoted(r2)->0;
        let v2 = f2.0;
        let r3 = f2.1;
        lemma_strip_sound(r3, seq![0x2Cu8]);
        let r4 = strip(r3, seq![0x2Cu8])->0;
        lemma_strip_sound(r4, text("\"outputs\":"));
        let r5 = strip(r4, text("\"outputs\":"))->0;
        lemma_leading_list_sound(r5);
        let f5 = leading_list(r5)->0;
        let v5 = f5.0;
        let r6 = f5.1;
        lemma_strip_sound(r6, seq![0x2Cu8]);
        let r7 = strip(r6, seq![0x2Cu8])->0;
        lemma_strip_sound(r7, text("\"output_bits\":"));
        let r8 = strip(r7, text("\"output_bits\":"))->0;
        lemma_leading_number_sound(r8, 0xFFFF_FFFF);
        let f8 = leading_number(r8, 0xFFFF_FFFF)->0;
        let v8 = f8.0;
        let r9 = f8.1;
        lemma_append(seq![0x7Bu8], text("\"name\":"), r2);
        lemma_append(seq![0x7Bu8] + text("\"name\":"), quoted(v2), r3);
        lemma_append(seq![0x7Bu8] + text("\"name\":") + quoted(v2), seq![0x2Cu8], r4);
        lemma_append(seq![0x7Bu8] + text("\"name\":") + quoted(v2) + seq![0x2Cu8], text("\"outputs\":"), r5);
        lemma_append(seq![0x7Bu8] + text("\"name\":") + quoted(v2) + seq![0x2Cu8] + text("\"outputs\":"), list_text(v5), r6);
        lemma_append(seq![0x7Bu8] + text("\"name\":") + quoted(v2) + seq![0x2Cu8] + text("\"outputs\":") + list_text(v5), seq![0x2Cu8], r7);
        lemma_append(seq![0x7Bu8] + text("\"name\":") + quoted(v2) + seq![0x2Cu8] + text("\"outputs\":") + list_text(v5) + seq![0x2Cu8], text("\"output_bits\":"), r8);
        lemma_append(seq![0x7Bu8] + text("\"name\":") + quoted(v2) + seq![0x2Cu8] + text("\"outputs\":") + list_text(v5) + seq![0x2Cu8] + text("\"output_bits\":"), digits(v8), r9);
    }
}

proof fn lemma_leading_inputs_sound(s: Seq<u8>)
    ensures
        leading_inputs(s) matches Some((inputs, bits, rest)) ==> s == inputs_text(inputs, bits)
            + rest && bits <= 0xFFFF_FFFF,
{
    if leading_inputs(s) is Some {
        let r0 = s;
        lemma_strip_sound(r0, seq![0x2Cu8]);
        let r1 = strip(r0, seq![0x2Cu8])->0;
        lemma_strip_sound(r1, text("\"inputs\":"));
        let r2 = strip(r1, text("\"inputs\":"))->0;
        lemma_leading_list_sound(r2);
        let f2 = leading_list(r2)->0;
        let v2 = f2.0;
        let r3 = f2.1;
        lemma_strip_sound(r3, seq![0x2Cu8]);
        let r4 = strip(r3, seq![0x2Cu8])->0;
        lemma_strip_sound(r4, text("\"input_bits\":"));
        let r5 = strip(r4, text("\"input_bits\":"))->0;
        lemma_leading_number_sound(r5, 0xFFFF_FFFF);
        let f5 = leading_number(r5, 0xFFFF_FFFF)->0;
        let v5 = f5.0;
        let r6 = f5.1;
        lemma_strip_sound(r6, seq![0x7Du8]);
        let r7 = strip(r6, seq![0x7Du8])->0;
        lemma_append(seq![0x2Cu8], text("\"inputs\":"), r2);
        lemma_append(seq![0x2Cu8] + text("\"inputs\":"), list_text(v2), r3);
        lemma_append(seq![0x2Cu8] + text("\"inputs\":") + list_text(v2), seq![0x2Cu8], r4);
        lemma_append(seq![0x2Cu8] + text("\"inputs\":") + list_text(v2) + seq![0x2Cu8], text("\"input_bits\":"), r5);
        lemma_append(seq![0x2Cu8] + text("\"inputs\":") + list_text(v2) + seq![0x2Cu8] + text("\"input_bits\":"), digits(v5), r6);
        lemma_append(seq![0x2Cu8] + text("\"inputs\":") + list_text(v2) + seq![0x2Cu8] + text("\"input_bits\":") + digits(v5), seq![0x7Du8], r7);
    }
}

/// A text reads as a linker exactly where it is the canonical text of that linker.
pub proof fn lemma_canonical(s: Seq<u8>, link: LinkerView)
    ensures
        parsed_linker(s) == Some(link) <==> s == linker_text(link),
{
    if s == linker_text(link) {
        lemma_linker_round_trip(link);
    }
    if parsed_linker(s) == Some(link) {
        lemma_leading_outputs_sound(s);
        let first = leading_outputs(s)->0;
        lemma_leading_inputs_sound(first.3);
        let second = leading_inputs(first.3)->0;
        assert(second.2 =~= Seq::<u8>::empty());
        assert(inputs_text(second.0, second.1) + second.2 =~= inputs_text(second.0, second.1));
        vstd::utf8::decode_utf8_encode_utf8(first.0);
    }
}

} // verus!
