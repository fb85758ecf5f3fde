//! Text on sequences of characters.

use vstd::prelude::*;
use vstd::utf8::is_ascii_chars;

verus! {

/// `String::push` appends one character to the end of the string.
pub assume_specification[ std::string::String::push ](s: &mut std::string::String, c: char)
    ensures
        final(s)@ == old(s)@.push(c),
;

/// `String::push_str` appends a string slice to the end of the string.
pub assume_specification[ std::string::String::push_str ](
    s: &mut std::string::String,
    other: &str,
)
    ensures
        final(s)@ == old(s)@ + other@,
;

/// The characters of a string, in order.
pub fn chars_of(s: &str) -> (r: Vec<char>)
    ensures
        r@ == s@,
{
    let mut out: Vec<char> = Vec::new();
    for c in it: s.chars()
        invariant
            out@ == it.seq().take(it.index() as int),
            it.seq() == s@,
    {
        out.push(c);
    }
    out
}

/// The string made of the given characters, in order.
pub fn string_of(chars: &Vec<char>) -> (r: String)
    ensures
        r@ == chars@,
{
    let mut out = String::new();
    let mut i: usize = 0;
    while i < chars.len()
        invariant
            0 <= i <= chars.len(),
            out@ == chars@.take(i as int),
        decreases chars.len() - i,
    {
        out.push(chars[i]);
        i = i + 1;
        assert(chars@.take(i as int) == chars@.take(i - 1).push(chars@[i - 1]));
    }
    assert(chars@.take(chars.len() as int) == chars@);
    out
}

/// Whether `c` is white space, as Unicode defines it.
pub open spec fn is_white_space(c: char) -> bool {
    let u = c as u32;
    ||| 0x09 <= u <= 0x0d
    ||| u == 0x20
    ||| u == 0x85
    ||| u == 0xa0
    ||| u == 0x1680
    ||| 0x2000 <= u <= 0x200a
    ||| u == 0x2028
    ||| u == 0x2029
    ||| u == 0x202f
    ||| u == 0x205f
    ||| u == 0x3000
}

/// Whether `c` is white space.
pub fn is_whitespace(c: char) -> (r: bool)
    ensures
        r == is_white_space(c),
{
    let u: u32 = c as u32;
    (0x09 <= u && u <= 0x0d) || u == 0x20 || u == 0x85 || u == 0xa0 || u == 0x1680 || (0x2000 <= u
        && u <= 0x200a) || u == 0x2028 || u == 0x2029 || u == 0x202f || u == 0x205f || u == 0x3000
}

/// The length of the longest prefix of `s` without white space.
pub open spec fn word_length(s: Seq<char>) -> int
    decreases s.len(),
{
    if s.len() == 0 || is_white_space(s[0]) {
        0
    } else {
        1 + word_length(s.drop_first())
    }
}

/// The words of `s`: its longest runs of characters other than white space.
pub open spec fn words(s: Seq<char>) -> Seq<Seq<char>>
    decreases s.len(),
{
    if s.len() == 0 {
        Seq::empty()
    } else if is_white_space(s[0]) {
        words(s.drop_first())
    } else {
        let n = word_length(s);
        if 0 < n <= s.len() {
            seq![s.take(n)] + words(s.skip(n))
        } else {
            Seq::empty()
        }
    }
}

/// The parts, with `separator` between each two neighbours.
pub open spec fn joined(parts: Seq<Seq<char>>, separator: Seq<char>) -> Seq<char>
    decreases parts.len(),
{
    if parts.len() == 0 {
        Seq::empty()
    } else if parts.len() == 1 {
        parts[0]
    } else {
        joined(parts.drop_last(), separator) + separator + parts.last()
    }
}

/// `s` with every run of white space turned into one space, and none at
/// either end.
pub open spec fn collapsed(s: Seq<char>) -> Seq<char> {
    joined(words(s), seq![' '])
}

proof fn lemma_word_length_bounds(s: Seq<char>)
    ensures
        0 <= word_length(s) <= s.len(),
        s.len() > 0 && !is_white_space(s[0]) ==> word_length(s) > 0,
        word_length(s) < s.len() ==> is_white_space(s[word_length(s)]),
    decreases s.len(),
{
    if s.len() > 0 && !is_white_space(s[0]) {
        lemma_word_length_bounds(s.drop_first());
    }
}

/// The words of a string.
pub fn split_whitespace(s: &str) -> (r: Vec<String>)
    ensures
        r.deep_view() == words(s@),
{
    let chars = chars_of(s);
    let mut out: Vec<String> = Vec::new();
    let mut i: usize = 0;
    assert(s@.skip(0) == s@);
    while i < chars.len()
        invariant
            0 <= i <= chars.len(),
            chars@ == s@,
            out.deep_view() + words(s@.skip(i as int)) == words(s@),
        decreases chars.len() - i,
    {
        let ghost rest = s@.skip(i as int);
        if is_whitespace(chars[i]) {
            assert(rest.drop_first() == s@.skip(i + 1));
            i = i + 1;
        } else {
            let start: usize = i;
            let mut word: Vec<char> = Vec::new();
            proof {
                lemma_word_length_bounds(rest);
            }
            while i < chars.len() && !is_whitespace(chars[i])
                invariant
                    start <= i <= chars.len(),
                    chars@ == s@,
                    rest == s@.skip(start as int),
                    word@ == s@.subrange(start as int, i as int),
                    word_length(rest) == (i - start) + word_length(s@.skip(i as int)),
                decreases chars.len() - i,
            {
                assert(s@.skip(i as int).drop_first() == s@.skip(i + 1));
                word.push(chars[i]);
                i = i + 1;
                assert(s@.subrange(start as int, i as int) == s@.subrange(
                    start as int,
                    i - 1,
                ).push(s@[i - 1]));
            }
            proof {
                let n = word_length(rest);
                assert(n == i - start);
                assert(rest.take(n) == s@.subrange(start as int, i as int));
                assert(rest.skip(n) == s@.skip(i as int));
            }
            let ghost before = out.deep_view();
            let text = string_of(&word);
            out.push(text);
            assert(out.deep_view() == before.push(word@));
            assert(before.push(word@) + words(s@.skip(i as int)) == before + (seq![word@] + words(
                s@.skip(i as int),
            )));
        }
    }
    assert(out.deep_view() + Seq::<Seq<char>>::empty() == out.deep_view());
    out
}

/// The number of words in a string.
pub fn word_count(s: &str) -> (r: usize)
    ensures
        r == words(s@).len(),
{
    let parts = split_whitespace(s);
    parts.len()
}

/// The parts, with `separator` between each two neighbours.
pub fn join(parts: &Vec<String>, separator: &str) -> (r: String)
    ensures
        r@ == joined(parts.deep_view(), separator@),
{
    let mut out = String::new();
    let mut i: usize = 0;
    while i < parts.len()
        invariant
            0 <= i <= parts.len(),
            out@ == joined(parts.deep_view().take(i as int), separator@),
        decreases parts.len() - i,
    {
        let ghost before = parts.deep_view().take(i as int);
        let ghost after = parts.deep_view().take(i + 1);
        assert(after.drop_last() == before);
        assert(after.last() == parts@[i as int]@);
        if i > 0 {
            out.push_str(separator);
        }
        out.push_str(parts[i].as_str());
        i = i + 1;
    }
    assert(parts.deep_view().take(parts.len() as int) == parts.deep_view());
    out
}

/// A string with every run of white space turned into one space, and none
/// at either end.
pub fn collapse_whitespace(s: &str) -> (r: String)
    ensures
        r@ == collapsed(s@),
{
    let parts = split_whitespace(s);
    proof {
        reveal_strlit(" ");
        assert(" "@ =~= seq![' ']);
    }
    join(&parts, " ")
}

/// `s` with every `first` that `second` follows turned, together with that
/// `second`, into `with`; read from the left, no character used twice.
pub open spec fn replaced_pair(s: Seq<char>, first: char, second: char, with: char) -> Seq<char>
    decreases s.len(),
{
    if s.len() == 0 {
        s
    } else if s.len() >= 2 && s[0] == first && s[1] == second {
        seq![with] + replaced_pair(s.skip(2), first, second, with)
    } else {
        seq![s[0]] + replaced_pair(s.drop_first(), first, second, with)
    }
}

/// `s` with every `from` turned into `to`.
pub open spec fn replaced_char(s: Seq<char>, from: char, to: char) -> Seq<char> {
    s.map_values(
        |c: char|
            if c == from {
                to
            } else {
                c
            },
    )
}

/// `s` with every line ending written as a single line feed: first each
/// carriage return with its line feed, then each carriage return left.
pub open spec fn line_endings_normalized(s: Seq<char>) -> Seq<char> {
    replaced_char(replaced_pair(s, '\r', '\n', '\n'), '\r', '\n')
}

/// Replaces each pair `first second` by `with`, from the left.
pub fn replace_pair(s: &Vec<char>, first: char, second: char, with: char) -> (r: Vec<char>)
    ensures
        r@ == replaced_pair(s@, first, second, with),
{
    let mut out: Vec<char> = Vec::new();
    let mut i: usize = 0;
    assert(s@.skip(0) == s@);
    while i < s.len()
        invariant
            0 <= i <= s.len(),
            out@ + replaced_pair(s@.skip(i as int), first, second, with) == replaced_pair(
                s@,
                first,
                second,
                with,
            ),
        decreases s.len() - i,
    {
        let ghost rest = s@.skip(i as int);
        let ghost before = out@;
        if s[i] == first && i + 1 < s.len() && s[i + 1] == second {
            assert(rest.skip(2) == s@.skip(i + 2));
            out.push(with);
            i = i + 2;
            assert(before.push(with) + replaced_pair(s@.skip(i as int), first, second, with)
                == before + (seq![with] + replaced_pair(s@.skip(i as int), first, second, with)));
        } else {
            assert(rest.drop_first() == s@.skip(i + 1));
            out.push(s[i]);
            i = i + 1;
            assert(before.push(rest[0]) + replaced_pair(s@.skip(i as int), first, second, with)
                == before + (seq![rest[0]] + replaced_pair(
                s@.skip(i as int),
                first,
                second,
                with,
            )));
        }
    }
    assert(out@ + Seq::<char>::empty() == out@);
    out
}

/// Replaces each `from` by `to`.
pub fn replace_char(s: &Vec<char>, from: char, to: char) -> (r: Vec<char>)
    ensures
        r@ == replaced_char(s@, from, to),
{
    let mut out: Vec<char> = Vec::new();
    let mut i: usize = 0;
    while i < s.len()
        invariant
            0 <= i <= s.len(),
            out@ == replaced_char(s@, from, to).take(i as int),
        decreases s.len() - i,
    {
        let c = s[i];
        out.push(
            if c == from {
                to
            } else {
                c
            },
        );
        i = i + 1;
        assert(replaced_char(s@, from, to).take(i as int) == replaced_char(s@, from, to).take(
            i - 1,
        ).push(replaced_char(s@, from, to)[i - 1]));
    }
    assert(replaced_char(s@, from, to).take(s.len() as int) == replaced_char(s@, from, to));
    out
}

/// A string with every line ending written as a single line feed.
pub fn normalize_line_endings(s: &str) -> (r: String)
    ensures
        r@ == line_endings_normalized(s@),
{
    let chars = chars_of(s);
    let paired = replace_pair(&chars, '\r', '\n', '\n');
    let single = replace_char(&paired, '\r', '\n');
    string_of(&single)
}

/// The length of the longest prefix of `s` without `separator`.
pub open spec fn prefix_length(s: Seq<char>, separator: char) -> int
    decreases s.len(),
{
    if s.len() == 0 || s[0] == separator {
        0
    } else {
        1 + prefix_length(s.drop_first(), separator)
    }
}

/// The pieces of `s` between its separators. A text without a separator is
/// one piece; the empty text is one empty piece.
pub open spec fn split(s: Seq<char>, separator: char) -> Seq<Seq<char>>
    decreases s.len(),
{
    let n = prefix_length(s, separator);
    if 0 <= n < s.len() {
        seq![s.take(n)] + split(s.skip(n + 1), separator)
    } else {
        seq![s]
    }
}

/// The pieces of a text between its separators.
pub fn split_on(s: &Vec<char>, separator: char) -> (r: Vec<Vec<char>>)
    ensures
        r.deep_view() == split(s@, separator),
{
    let mut out: Vec<Vec<char>> = Vec::new();
    let mut piece: Vec<char> = Vec::new();
    let mut start: usize = 0;
    let mut i: usize = 0;
    assert(s@.skip(0) == s@);
    while i < s.len()
        invariant
            0 <= start <= i <= s.len(),
            out.deep_view() + split(s@.skip(start as int), separator) == split(s@, separator),
            piece@ == s@.subrange(start as int, i as int),
            prefix_length(s@.skip(start as int), separator) == (i - start) + prefix_length(
                s@.skip(i as int),
                separator,
            ),
        decreases s.len() - i,
    {
        let ghost rest = s@.skip(start as int);
        assert(s@.skip(i as int).drop_first() == s@.skip(i + 1));
        if s[i] == separator {
            let ghost before = out.deep_view();
            proof {
                let n = prefix_length(rest, separator);
                assert(n == i - start);
                assert(rest.take(n) == piece@);
                assert(rest.skip(n + 1) == s@.skip(i + 1));
            }
            out.push(piece);
            piece = Vec::new();
            i = i + 1;
            start = i;
            assert(out.deep_view() =~~= before.push(rest.take(prefix_length(rest, separator))));
            assert(before.push(rest.take(prefix_length(rest, separator))) + split(
                s@.skip(i as int),
                separator,
            ) == before + (seq![rest.take(prefix_length(rest, separator))] + split(
                s@.skip(i as int),
                separator,
            )));
        } else {
            piece.push(s[i]);
            i = i + 1;
            assert(s@.subrange(start as int, i as int) == s@.subrange(start as int, i - 1).push(
                s@[i - 1],
            ));
        }
    }
    let ghost before = out.deep_view();
    proof {
        let rest = s@.skip(start as int);
        assert(s@.skip(i as int).len() == 0);
        assert(prefix_length(rest, separator) == rest.len());
        assert(piece@ == rest);
    }
    out.push(piece);
    assert(out.deep_view() =~~= before.push(s@.skip(start as int)));
    assert(before.push(s@.skip(start as int)) == before + seq![s@.skip(start as int)]);
    out
}

/// Whether `c` is one of the ten decimal digits.
pub open spec fn is_digit(c: char) -> bool {
    '0' <= c <= '9'
}

/// The number that a run of decimal digits writes.
pub open spec fn digits_value(s: Seq<char>) -> nat
    decreases s.len(),
{
    if s.len() == 0 {
        0
    } else {
        digits_value(s.drop_last()) * 10 + (s.last() as u32 - 48) as nat
    }
}

/// The array position that a path token names: decimal digits only, no
/// sign, no leading zero but in `0` itself, and within the machine's range.
pub open spec fn array_index(token: Seq<char>) -> Option<usize> {
    if token.len() == 0 || (token[0] == '0' && token.len() != 1) || !(forall|i: int|
        0 <= i < token.len() ==> is_digit(#[trigger] token[i])) || digits_value(token)
        > usize::MAX {
        None
    } else {
        Some(digits_value(token) as usize)
    }
}

proof fn lemma_digits_value_grows(s: Seq<char>, n: int)
    requires
        0 <= n <= s.len(),
        forall|i: int| 0 <= i < s.len() ==> is_digit(#[trigger] s[i]),
    ensures
        digits_value(s.take(n)) <= digits_value(s),
    decreases s.len() - n,
{
    if n < s.len() {
        lemma_digits_value_grows(s, n + 1);
        assert(s.take(n + 1).drop_last() == s.take(n));
    } else {
        assert(s.take(n) == s);
    }
}

/// The array position that a path token names.
pub fn parse_index(token: &Vec<char>) -> (r: Option<usize>)
    ensures
        r == array_index(token@),
{
    if token.len() == 0 || (token[0] == '0' && token.len() != 1) {
        return None;
    }
    let mut value: usize = 0;
    let mut i: usize = 0;
    assert(token@.take(0).len() == 0);
    while i < token.len()
        invariant
            0 <= i <= token.len(),
            forall|j: int| 0 <= j < i ==> is_digit(#[trigger] token@[j]),
            value == digits_value(token@.take(i as int)),
        decreases token.len() - i,
    {
        let c = token[i];
        if !('0' <= c && c <= '9') {
            return None;
        }
        let digit: usize = (c as u32 - 48) as usize;
        assert(token@.take(i + 1).drop_last() == token@.take(i as int));
        let scaled = match value.checked_mul(10) {
            Some(v) => v,
            None => {
                proof {
                    if forall|j: int| 0 <= j < token.len() ==> is_digit(#[trigger] token@[j]) {
                        lemma_digits_value_grows(token@, i + 1);
                    }
                }
                return None;
            },
        };
        value = match scaled.checked_add(digit) {
            Some(v) => v,
            None => {
                proof {
                    if forall|j: int| 0 <= j < token.len() ==> is_digit(#[trigger] token@[j]) {
                        lemma_digits_value_grows(token@, i + 1);
                    }
                }
                return None;
            },
        };
        i = i + 1;
    }
    assert(token@.take(token.len() as int) == token@);
    Some(value)
}

/// The character that writes the digit `d`.
pub open spec fn digit_char(d: nat) -> char {
    if d == 0 {
        '0'
    } else if d == 1 {
        '1'
    } else if d == 2 {
        '2'
    } else if d == 3 {
        '3'
    } else if d == 4 {
        '4'
    } else if d == 5 {
        '5'
    } else if d == 6 {
        '6'
    } else if d == 7 {
        '7'
    } else if d == 8 {
        '8'
    } else {
        '9'
    }
}

/// The decimal digits of `n`, without leading zeros.
pub open spec fn decimal_digits(n: nat) -> Seq<char>
    decreases n,
{
    if n < 10 {
        seq![digit_char(n)]
    } else {
        decimal_digits(n / 10).push(digit_char(n % 10))
    }
}

fn digit_of(d: u128) -> (c: char)
    requires
        d < 10,
    ensures
        c == digit_char(d as nat),
{
    if d == 0 {
        '0'
    } else if d == 1 {
        '1'
    } else if d == 2 {
        '2'
    } else if d == 3 {
        '3'
    } else if d == 4 {
        '4'
    } else if d == 5 {
        '5'
    } else if d == 6 {
        '6'
    } else if d == 7 {
        '7'
    } else if d == 8 {
        '8'
    } else {
        '9'
    }
}

/// The decimal digits of `n`, without leading zeros.
pub fn decimal_chars(n: u128) -> (r: Vec<char>)
    ensures
        r@ == decimal_digits(n as nat),
    decreases n,
{
    if n < 10 {
        let mut out: Vec<char> = Vec::new();
        out.push(digit_of(n));
        out
    } else {
        let mut out = decimal_chars(n / 10);
        out.push(digit_of(n % 10));
        out
    }
}

/// The decimal text of `n`.
pub fn decimal_text(n: u64) -> (r: String)
    ensures
        r@ == decimal_digits(n as nat),
{
    let chars = decimal_chars(n as u128);
    string_of(&chars)
}

/// What `str::to_uppercase` makes of a text.
pub uninterp spec fn uppercase_of(s: Seq<char>) -> Seq<char>;

/// What `str::to_lowercase` makes of a text.
pub uninterp spec fn lowercase_of(s: Seq<char>) -> Seq<char>;

/// `str::to_uppercase` returns the uppercase equivalent of the text, by the
/// Unicode tables of the standard library.
pub assume_specification[ str::to_uppercase ](s: &str) -> (r: std::string::String)
    ensures
        r@ == uppercase_of(s@),
;

/// `str::to_lowercase` returns the lowercase equivalent of the text, by the
/// Unicode tables of the standard library.
pub assume_specification[ str::to_lowercase ](s: &str) -> (r: std::string::String)
    ensures
        r@ == lowercase_of(s@),
;

/// The capital of an ASCII letter; any other character itself.
pub open spec fn ascii_upper(c: char) -> char {
    if 'a' <= c <= 'z' {
        ((c as u8) - 32) as u8 as char
    } else {
        c
    }
}

/// The small form of an ASCII letter; any other character itself.
pub open spec fn ascii_lower(c: char) -> char {
    if 'A' <= c <= 'Z' {
        ((c as u8) + 32) as u8 as char
    } else {
        c
    }
}

/// A text in capitals. ASCII text is turned letter by letter; any other
/// text is what the standard library makes of it.
pub open spec fn uppercased(s: Seq<char>) -> Seq<char> {
    if is_ascii_chars(s) {
        s.map_values(|c: char| ascii_upper(c))
    } else {
        uppercase_of(s)
    }
}

/// A text in small letters. ASCII text is turned letter by letter; any
/// other text is what the standard library makes of it.
pub open spec fn lowercased(s: Seq<char>) -> Seq<char> {
    if is_ascii_chars(s) {
        s.map_values(|c: char| ascii_lower(c))
    } else {
        lowercase_of(s)
    }
}

/// A string in capitals.
pub fn uppercase(s: &str) -> (r: String)
    ensures
        r@ == uppercased(s@),
{
    if s.is_ascii() {
        let chars = chars_of(s);
        let mut out: Vec<char> = Vec::new();
        let mut i: usize = 0;
        while i < chars.len()
            invariant
                0 <= i <= chars.len(),
                out@ == chars@.map_values(|c: char| ascii_upper(c)).take(i as int),
            decreases chars.len() - i,
        {
            let c = chars[i];
            let u: char = if 'a' <= c && c <= 'z' {
                ((c as u8) - 32) as char
            } else {
                c
            };
            out.push(u);
            i = i + 1;
            assert(chars@.map_values(|c: char| ascii_upper(c)).take(i as int) == chars@.map_values(
                |c: char| ascii_upper(c),
            ).take(i - 1).push(ascii_upper(chars@[i - 1])));
        }
        assert(chars@.map_values(|c: char| ascii_upper(c)).take(chars.len() as int)
            == chars@.map_values(|c: char| ascii_upper(c)));
        string_of(&out)
    } else {
        s.to_uppercase()
    }
}

/// A string in small letters.
pub fn lowercase(s: &str) -> (r: String)
    ensures
        r@ == lowercased(s@),
{
    if s.is_ascii() {
        let chars = chars_of(s);
        let mut out: Vec<char> = Vec::new();
        let mut i: usize = 0;
        while i < chars.len()
            invariant
                0 <= i <= chars.len(),
                out@ == chars@.map_values(|c: char| ascii_lower(c)).take(i as int),
            decreases chars.len() - i,
        {
            let c = chars[i];
            let u: char = if 'A' <= c && c <= 'Z' {
                ((c as u8) + 32) as char
            } else {
                c
            };
            out.push(u);
            i = i + 1;
            assert(chars@.map_values(|c: char| ascii_lower(c)).take(i as int) == chars@.map_values(
                |c: char| ascii_lower(c),
            ).take(i - 1).push(ascii_lower(chars@[i - 1])));
        }
        assert(chars@.map_values(|c: char| ascii_lower(c)).take(chars.len() as int)
            == chars@.map_values(|c: char| ascii_lower(c)));
        string_of(&out)
    } else {
        s.to_lowercase()
    }
}

/// Putting ASCII text in capitals twice gives what doing so once gives.
pub proof fn uppercase_is_idempotent_on_ascii(s: Seq<char>)
    requires
        is_ascii_chars(s),
    ensures
        uppercased(uppercased(s)) == uppercased(s),
{
    let once = s.map_values(|c: char| ascii_upper(c));
    assert forall|i: int| 0 <= i < once.len() implies (once[i] as u32) < 128 by {}
    assert(is_ascii_chars(once));
    assert(once.map_values(|c: char| ascii_upper(c)) =~= once);
}

/// Whether two texts are the same.
pub fn same_text(a: &str, b: &str) -> (r: bool)
    ensures
        r == (a@ == b@),
{
    let left = a.to_owned();
    let right = b.to_owned();
    left == right
}

/// The number of bytes that a text takes in UTF-8.
pub open spec fn byte_length(s: Seq<char>) -> nat {
    vstd::utf8::encode_utf8(s).len()
}

/// The number of bytes that one character takes in UTF-8.
pub open spec fn char_bytes(c: char) -> nat {
    vstd::utf8::encode_scalar(c as u32).len()
}

/// A character takes one to four bytes, and an ASCII character one.
pub proof fn lemma_char_bytes(c: char)
    ensures
        1 <= char_bytes(c) <= 4,
        (c as u32) < 0x80 ==> char_bytes(c) == 1,
{
}

/// The bytes of a text are those of its first character and those of the
/// rest.
proof fn lemma_byte_length_first(s: Seq<char>)
    requires
        s.len() > 0,
    ensures
        byte_length(s) == char_bytes(s[0]) + byte_length(s.drop_first()),
{
}

/// The bytes of two texts in a row are those of the one and those of the
/// other.
pub proof fn lemma_byte_length_of_two(a: Seq<char>, b: Seq<char>)
    ensures
        byte_length(a + b) == byte_length(a) + byte_length(b),
    decreases a.len(),
{
    if a.len() == 0 {
        assert(a + b =~= b);
    } else {
        assert((a + b).drop_first() =~= a.drop_first() + b);
        lemma_byte_length_of_two(a.drop_first(), b);
        lemma_byte_length_first(a);
        lemma_byte_length_first(a + b);
    }
}

/// The bytes of a text of one character.
proof fn lemma_byte_length_of_one(c: char)
    ensures
        byte_length(seq![c]) == char_bytes(c),
{
    let s = seq![c];
    lemma_byte_length_first(s);
    assert(s.drop_first() =~= Seq::<char>::empty());
    assert(byte_length(Seq::<char>::empty()) == 0);
}

/// Parts joined, told from the first part on.
proof fn lemma_joined_first(first: Seq<char>, rest: Seq<Seq<char>>, separator: Seq<char>)
    ensures
        joined(seq![first] + rest, separator) == if rest.len() == 0 {
            first
        } else {
            first + separator + joined(rest, separator)
        },
    decreases rest.len(),
{
    let all = seq![first] + rest;
    if rest.len() == 0 {
        assert(all =~= seq![first]);
    } else {
        assert(all.drop_last() =~= seq![first] + rest.drop_last());
        assert(all.last() == rest.last());
        lemma_joined_first(first, rest.drop_last(), separator);
        if rest.len() == 1 {
            assert(joined(rest, separator) == rest.last());
        } else {
            assert(joined(all, separator) =~= first + separator + joined(rest, separator));
        }
    }
}

/// Collapsing white space adds no bytes; and where the text begins with
/// white space, it takes at least one byte away.
pub proof fn lemma_collapsing_adds_no_bytes(s: Seq<char>)
    ensures
        byte_length(collapsed(s)) <= byte_length(s),
        s.len() > 0 && is_white_space(s[0]) ==> byte_length(collapsed(s)) + 1 <= byte_length(s),
    decreases s.len(),
{
    let space = seq![' '];
    if s.len() == 0 {
        assert(byte_length(Seq::<char>::empty()) == 0);
    } else if is_white_space(s[0]) {
        lemma_collapsing_adds_no_bytes(s.drop_first());
        lemma_byte_length_first(s);
        lemma_char_bytes(s[0]);
    } else {
        lemma_word_length_bounds(s);
        let n = word_length(s);
        let word = s.take(n);
        let tail = s.skip(n);
        assert(s =~= word + tail);
        lemma_byte_length_of_two(word, tail);
        lemma_collapsing_adds_no_bytes(tail);
        lemma_joined_first(word, words(tail), space);
        if words(tail).len() > 0 {
            assert(tail.len() > 0);
            assert(tail[0] == s[n]);
            lemma_byte_length_of_two(word, space);
            lemma_byte_length_of_two(word + space, collapsed(tail));
            lemma_byte_length_of_one(' ');
            lemma_char_bytes(' ');
        }
    }
}

/// Replacing pairs by a character that takes no more bytes than a pair
/// adds no bytes.
pub proof fn lemma_replacing_pairs_adds_no_bytes(
    s: Seq<char>,
    first: char,
    second: char,
    with: char,
)
    requires
        char_bytes(with) <= char_bytes(first) + char_bytes(second),
    ensures
        byte_length(replaced_pair(s, first, second, with)) <= byte_length(s),
    decreases s.len(),
{
    if s.len() == 0 {
    } else if s.len() >= 2 && s[0] == first && s[1] == second {
        let rest = s.skip(2);
        lemma_replacing_pairs_adds_no_bytes(rest, first, second, with);
        lemma_byte_length_of_two(seq![with], replaced_pair(rest, first, second, with));
        lemma_byte_length_of_one(with);
        lemma_byte_length_first(s);
        lemma_byte_length_first(s.drop_first());
        assert(s.drop_first().drop_first() =~= rest);
        assert(s.drop_first()[0] == s[1]);
    } else {
        let rest = s.drop_first();
        lemma_replacing_pairs_adds_no_bytes(rest, first, second, with);
        lemma_byte_length_of_two(seq![s[0]], replaced_pair(rest, first, second, with));
        lemma_byte_length_of_one(s[0]);
        lemma_byte_length_first(s);
    }
}

/// Replacing a character by one that takes no more bytes adds no bytes.
pub proof fn lemma_replacing_chars_adds_no_bytes(s: Seq<char>, from: char, to: char)
    requires
        char_bytes(to) <= char_bytes(from),
    ensures
        byte_length(replaced_char(s, from, to)) <= byte_length(s),
    decreases s.len(),
{
    let after = replaced_char(s, from, to);
    if s.len() == 0 {
        assert(after =~= Seq::<char>::empty());
    } else {
        assert(after.drop_first() =~= replaced_char(s.drop_first(), from, to));
        lemma_replacing_chars_adds_no_bytes(s.drop_first(), from, to);
        lemma_byte_length_first(s);
        lemma_byte_length_first(after);
    }
}

/// Normalizing line endings adds no bytes.
pub proof fn lemma_normalizing_adds_no_bytes(s: Seq<char>)
    ensures
        byte_length(line_endings_normalized(s)) <= byte_length(s),
{
    lemma_char_bytes('\r');
    lemma_char_bytes('\n');
    lemma_replacing_pairs_adds_no_bytes(s, '\r', '\n', '\n');
    lemma_replacing_chars_adds_no_bytes(replaced_pair(s, '\r', '\n', '\n'), '\r', '\n');
}

/// The number of bytes that a text takes in UTF-8.
pub fn utf8_length(s: &str) -> (r: usize)
    ensures
        r == byte_length(s@),
{
    s.as_bytes().len()
}

/// The text `a` followed by the text `b`.
pub fn followed_by(a: &str, b: &str) -> (r: String)
    ensures
        r@ == a@ + b@,
{
    let mut out = a.to_owned();
    out.push_str(b);
    out
}

} // verus!
