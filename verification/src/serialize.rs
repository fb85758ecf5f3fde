//! JSON documents written out as compact text.
//!
//! No white space stands between the tokens. Strings escape the quote, the
//! backslash and the control characters below U+0020. A number is written
//! in full where its exponent is small, and with an `e` otherwise.

use crate::json::{lemma_object_view, members_view, Json, JsonValue, Member};
use crate::number::{Decimal, Number};
use crate::text::{decimal_chars, decimal_digits, string_of};
use vstd::prelude::*;

verus! {

/// The hexadecimal digit for `n`, in lower case.
pub open spec fn hex_digit(n: int) -> char {
    if n == 0 {
        '0'
    } else if n == 1 {
        '1'
    } else if n == 2 {
        '2'
    } else if n == 3 {
        '3'
    } else if n == 4 {
        '4'
    } else if n == 5 {
        '5'
    } else if n == 6 {
        '6'
    } else if n == 7 {
        '7'
    } else if n == 8 {
        '8'
    } else if n == 9 {
        '9'
    } else if n == 10 {
        'a'
    } else if n == 11 {
        'b'
    } else if n == 12 {
        'c'
    } else if n == 13 {
        'd'
    } else if n == 14 {
        'e'
    } else {
        'f'
    }
}

/// One character as it stands inside a JSON string.
pub open spec fn escaped_char(c: char) -> Seq<char> {
    if c == '"' {
        seq!['\\', '"']
    } else if c == '\\' {
        seq!['\\', '\\']
    } else if c == '\u{08}' {
        seq!['\\', 'b']
    } else if c == '\t' {
        seq!['\\', 't']
    } else if c == '\n' {
        seq!['\\', 'n']
    } else if c == '\u{0c}' {
        seq!['\\', 'f']
    } else if c == '\r' {
        seq!['\\', 'r']
    } else if (c as u32) < 0x20 {
        seq!['\\', 'u', '0', '0', hex_digit((c as u32) as int / 16), hex_digit((c as u32) as int % 16)]
    } else {
        seq![c]
    }
}

/// A text as it stands inside a JSON string.
pub open spec fn escaped(s: Seq<char>) -> Seq<char>
    decreases s.len(),
{
    if s.len() == 0 {
        Seq::empty()
    } else {
        escaped(s.drop_last()) + escaped_char(s.last())
    }
}

/// A text as a JSON string, between its quotes.
pub open spec fn string_text(s: Seq<char>) -> Seq<char> {
    seq!['"'] + escaped(s) + seq!['"']
}

/// `n` zeros.
pub open spec fn zeros(n: int) -> Seq<char> {
    Seq::new(
        if n >= 0 {
            n as nat
        } else {
            0
        },
        |i: int| '0',
    )
}

/// The digits of a number without its sign: in full where the exponent
/// lies between -20 and 20, else the coefficient, an `e` and the exponent.
pub open spec fn unsigned_text(magnitude: nat, exponent: int) -> Seq<char> {
    let digits = decimal_digits(magnitude);
    if 0 <= exponent <= 20 {
        if magnitude == 0 {
            digits
        } else {
            digits + zeros(exponent)
        }
    } else if -20 <= exponent < 0 {
        if -exponent < digits.len() {
            digits.take(digits.len() + exponent) + seq!['.'] + digits.skip(digits.len() + exponent)
        } else {
            seq!['0', '.'] + zeros(-exponent - digits.len()) + digits
        }
    } else if exponent > 0 {
        digits + seq!['e'] + decimal_digits(exponent as nat)
    } else {
        digits + seq!['e', '-'] + decimal_digits((-exponent) as nat)
    }
}

/// A number as JSON text.
pub open spec fn number_text(d: Decimal) -> Seq<char> {
    if d.coefficient < 0 {
        seq!['-'] + unsigned_text((-d.coefficient) as nat, d.exponent)
    } else {
        unsigned_text(d.coefficient as nat, d.exponent)
    }
}

/// A document as compact JSON text.
pub open spec fn json_text(v: JsonValue) -> Seq<char>
    decreases v, 0nat,
{
    match v {
        JsonValue::Null => "null"@,
        JsonValue::Bool(b) => if b {
            "true"@
        } else {
            "false"@
        },
        JsonValue::Number(n) => number_text(n),
        JsonValue::String(s) => string_text(s),
        JsonValue::Array(items) => seq!['['] + items_text(items, items.len()) + seq![']'],
        JsonValue::Object(members) => seq!['{'] + members_text(members, members.len()) + seq!['}'],
    }
}

/// The first `n` items of an array as text, with commas between them.
pub open spec fn items_text(items: Seq<JsonValue>, n: nat) -> Seq<char>
    decreases items, n,
{
    if n == 0 || n > items.len() {
        Seq::empty()
    } else if n == 1 {
        json_text(items[0])
    } else {
        items_text(items, (n - 1) as nat) + seq![','] + json_text(items[n - 1])
    }
}

/// The first `n` members of an object as text, with commas between them.
pub open spec fn members_text(members: Seq<Member>, n: nat) -> Seq<char>
    decreases members, n,
{
    if n == 0 || n > members.len() {
        Seq::empty()
    } else if n == 1 {
        string_text(members[0].key) + seq![':'] + json_text(members[0].value)
    } else {
        members_text(members, (n - 1) as nat) + seq![','] + string_text(members[n - 1].key)
            + seq![':'] + json_text(members[n - 1].value)
    }
}

/// Appends the characters of `s`.
fn append_str(out: &mut Vec<char>, s: &str)
    ensures
        final(out)@ == old(out)@ + s@,
{
    let ghost start = out@;
    for c in it: s.chars()
        invariant
            out@ == start + it.seq().take(it.index() as int),
            it.seq() == s@,
    {
        out.push(c);
        assert(it.seq().take(it.index() + 1) == it.seq().take(it.index() as int).push(c));
    }
}

/// Appends the characters of `more`.
fn append_chars(out: &mut Vec<char>, more: &Vec<char>)
    ensures
        final(out)@ == old(out)@ + more@,
{
    let ghost start = out@;
    let mut i: usize = 0;
    while i < more.len()
        invariant
            0 <= i <= more.len(),
            out@ == start + more@.take(i as int),
        decreases more.len() - i,
    {
        out.push(more[i]);
        i = i + 1;
        assert(more@.take(i as int) == more@.take(i - 1).push(more@[i - 1]));
    }
    assert(more@.take(more.len() as int) == more@);
}

/// Appends `n` zeros.
fn append_zeros(out: &mut Vec<char>, n: usize)
    ensures
        final(out)@ == old(out)@ + zeros(n as int),
{
    let ghost start = out@;
    let mut i: usize = 0;
    while i < n
        invariant
            0 <= i <= n,
            out@ == start + zeros(i as int),
        decreases n - i,
    {
        out.push('0');
        i = i + 1;
        assert(zeros(i as int) =~= zeros(i - 1).push('0'));
    }
}

fn hex_of(n: u32) -> (c: char)
    requires
        n < 16,
    ensures
        c == hex_digit(n as int),
{
    if n == 0 {
        '0'
    } else if n == 1 {
        '1'
    } else if n == 2 {
        '2'
    } else if n == 3 {
        '3'
    } else if n == 4 {
        '4'
    } else if n == 5 {
        '5'
    } else if n == 6 {
        '6'
    } else if n == 7 {
        '7'
    } else if n == 8 {
        '8'
    } else if n == 9 {
        '9'
    } else if n == 10 {
        'a'
    } else if n == 11 {
        'b'
    } else if n == 12 {
        'c'
    } else if n == 13 {
        'd'
    } else if n == 14 {
        'e'
    } else {
        'f'
    }
}

/// Appends one character as it stands inside a JSON string.
fn append_escaped_char(out: &mut Vec<char>, c: char)
    ensures
        final(out)@ == old(out)@ + escaped_char(c),
{
    let ghost start = out@;
    if c == '"' {
        out.push('\\');
        out.push('"');
    } else if c == '\\' {
        out.push('\\');
        out.push('\\');
    } else if c == '\u{08}' {
        out.push('\\');
        out.push('b');
    } else if c == '\t' {
        out.push('\\');
        out.push('t');
    } else if c == '\n' {
        out.push('\\');
        out.push('n');
    } else if c == '\u{0c}' {
        out.push('\\');
        out.push('f');
    } else if c == '\r' {
        out.push('\\');
        out.push('r');
    } else if (c as u32) < 0x20 {
        let u: u32 = c as u32;
        out.push('\\');
        out.push('u');
        out.push('0');
        out.push('0');
        out.push(hex_of(u / 16));
        out.push(hex_of(u % 16));
    } else {
        out.push(c);
    }
    assert(out@ =~= start + escaped_char(c));
}

/// Appends a text as a JSON string, between its quotes.
fn append_string(out: &mut Vec<char>, s: &str)
    ensures
        final(out)@ == old(out)@ + string_text(s@),
{
    let ghost start = out@;
    out.push('"');
    for c in it: s.chars()
        invariant
            out@ == start + seq!['"'] + escaped(it.seq().take(it.index() as int)),
            it.seq() == s@,
    {
        let ghost before = it.seq().take(it.index() as int);
        let ghost after = it.seq().take(it.index() + 1);
        assert(after.drop_last() == before);
        assert(after.last() == c);
        append_escaped_char(out, c);
        assert(out@ =~= start + seq!['"'] + escaped(after));
    }
    assert(s@.take(s@.len() as int) == s@);
    out.push('"');
    assert(out@ =~= start + string_text(s@));
}

/// Appends digits with a decimal point `shift` places from their end.
fn append_fraction(out: &mut Vec<char>, digits: &Vec<char>, shift: usize)
    requires
        0 < shift <= 20,
    ensures
        final(out)@ == old(out)@ + if shift < digits@.len() {
            digits@.take(digits@.len() - shift) + seq!['.'] + digits@.skip(digits@.len() - shift)
        } else {
            seq!['0', '.'] + zeros(shift - digits@.len()) + digits@
        },
{
    let ghost start = out@;
    if shift < digits.len() {
        let point: usize = digits.len() - shift;
        let mut i: usize = 0;
        while i < point
            invariant
                0 <= i <= point <= digits.len(),
                out@ == start + digits@.take(i as int),
            decreases point - i,
        {
            out.push(digits[i]);
            i = i + 1;
            assert(digits@.take(i as int) == digits@.take(i - 1).push(digits@[i - 1]));
        }
        out.push('.');
        while i < digits.len()
            invariant
                point <= i <= digits.len(),
                out@ == start + digits@.take(point as int) + seq!['.'] + digits@.subrange(
                    point as int,
                    i as int,
                ),
            decreases digits.len() - i,
        {
            out.push(digits[i]);
            i = i + 1;
            assert(digits@.subrange(point as int, i as int) == digits@.subrange(
                point as int,
                i - 1,
            ).push(digits@[i - 1]));
        }
        assert(digits@.subrange(point as int, digits.len() as int) == digits@.skip(point as int));
        assert(out@ =~= start + (digits@.take(point as int) + seq!['.'] + digits@.skip(
            point as int,
        )));
    } else {
        out.push('0');
        out.push('.');
        append_zeros(out, shift - digits.len());
        append_chars(out, digits);
        assert(out@ =~= start + (seq!['0', '.'] + zeros(shift - digits.len()) + digits@));
    }
}

/// Appends the digits of a number without its sign.
fn append_unsigned(out: &mut Vec<char>, magnitude: u128, exponent: i64)
    ensures
        final(out)@ == old(out)@ + unsigned_text(magnitude as nat, exponent as int),
{
    let ghost start = out@;
    let digits = decimal_chars(magnitude);
    if 0 <= exponent && exponent <= 20 {
        append_chars(out, &digits);
        if magnitude != 0 {
            append_zeros(out, exponent as usize);
            assert(out@ =~= start + (digits@ + zeros(exponent as int)));
        }
    } else if -20 <= exponent && exponent < 0 {
        append_fraction(out, &digits, (-exponent) as usize);
    } else if exponent > 0 {
        append_chars(out, &digits);
        out.push('e');
        let power = decimal_chars(exponent as u128);
        append_chars(out, &power);
        assert(out@ =~= start + (digits@ + seq!['e'] + power@));
    } else {
        append_chars(out, &digits);
        out.push('e');
        out.push('-');
        let power = decimal_chars((-(exponent as i128)) as u128);
        append_chars(out, &power);
        assert(out@ =~= start + (digits@ + seq!['e', '-'] + power@));
    }
}

/// Appends a number as JSON text.
fn append_number(out: &mut Vec<char>, n: &Number)
    ensures
        final(out)@ == old(out)@ + number_text(n@),
{
    let ghost start = out@;
    if n.is_negative() {
        out.push('-');
        append_unsigned(out, n.magnitude(), n.exponent());
        assert(out@ =~= start + (seq!['-'] + unsigned_text(
            (-n@.coefficient) as nat,
            n@.exponent,
        )));
    } else {
        append_unsigned(out, n.magnitude(), n.exponent());
    }
}

impl Json {
    /// Appends the document as compact JSON text.
    pub fn write_text(&self, out: &mut Vec<char>)
        ensures
            final(out)@ == old(out)@ + json_text(self@),
        decreases self,
    {
        let ghost start = out@;
        match self {
            Json::Null => {
                append_str(out, "null");
            },
            Json::Bool(b) => {
                if *b {
                    append_str(out, "true");
                } else {
                    append_str(out, "false");
                }
            },
            Json::Number(n) => {
                append_number(out, n);
            },
            Json::String(s) => {
                append_string(out, s.as_str());
            },
            Json::Array(items) => {
                let ghost all = items.deep_view();
                assert(self@->Array_0 =~= all);
                out.push('[');
                let mut i: usize = 0;
                while i < items.len()
                    invariant
                        0 <= i <= items.len(),
                        decreases_to!(self => items),
                        all == items.deep_view(),
                        out@ == start + seq!['['] + items_text(all, i as nat),
                    decreases items.len() - i,
                {
                    proof {
                        vstd::std_specs::vec::axiom_vec_index_decreases(*items, i as int);
                    }
                    if i > 0 {
                        out.push(',');
                    }
                    items[i].write_text(out);
                    i = i + 1;
                    assert(out@ =~= start + seq!['['] + items_text(all, i as nat));
                }
                out.push(']');
                assert(out@ =~= start + json_text(self@));
            },
            Json::Object(members) => {
                let ghost all = members_view(members@);
                proof {
                    lemma_object_view(*self);
                }
                out.push('{');
                let mut i: usize = 0;
                while i < members.len()
                    invariant
                        0 <= i <= members.len(),
                        decreases_to!(self => members),
                        all == members_view(members@),
                        out@ == start + seq!['{'] + members_text(all, i as nat),
                    decreases members.len() - i,
                {
                    proof {
                        vstd::std_specs::vec::axiom_vec_index_decreases(*members, i as int);
                    }
                    if i > 0 {
                        out.push(',');
                    }
                    append_string(out, members[i].0.as_str());
                    out.push(':');
                    members[i].1.write_text(out);
                    i = i + 1;
                    assert(out@ =~= start + seq!['{'] + members_text(all, i as nat));
                }
                out.push('}');
                assert(out@ =~= start + json_text(self@));
            },
        }
    }

    /// The document as compact JSON text.
    pub fn to_text(&self) -> (r: String)
        ensures
            r@ == json_text(self@),
    {
        let mut out: Vec<char> = Vec::new();
        self.write_text(&mut out);
        assert(out@ =~= json_text(self@));
        string_of(&out)
    }
}

} // verus!
