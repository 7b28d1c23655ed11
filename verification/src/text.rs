//! Text helpers: counting, decimal and hexadecimal digits, white space and identifiers.

use vstd::prelude::*;
use vstd::string::{StrSliceExecFns, StringExecFns};

verus! {

/// `n`, or the largest `usize` where `n` does not fit.
pub open spec fn clamped(n: nat) -> usize {
    if n <= usize::MAX {
        n as usize
    } else {
        usize::MAX
    }
}

/// The object replacement character that stands for an inline control in running text.
pub const OBJECT_REPLACEMENT: char = '\u{fffc}';

/// The decimal digits of `n`, most significant first and without leading zeros.
pub open spec fn decimal(n: nat) -> Seq<char>
    decreases n,
{
    if n < 10 {
        seq!["0123456789"@[n as int]]
    } else {
        decimal(n / 10).push("0123456789"@[(n % 10) as int])
    }
}

/// Two lower-case hexadecimal digits for each byte.
pub open spec fn hex(bytes: Seq<u8>) -> Seq<char>
    decreases bytes.len(),
{
    if bytes.len() == 0 {
        seq![]
    } else {
        hex(bytes.drop_last()).push("0123456789abcdef"@[bytes.last() as int / 16]).push(
            "0123456789abcdef"@[bytes.last() as int % 16],
        )
    }
}

/// A lower-case hexadecimal digit.
pub open spec fn hex_digit(c: char) -> bool {
    '0' <= c <= '9' || 'a' <= c <= 'f'
}

/// Every byte yields two hexadecimal digits.
pub proof fn lemma_hex(bytes: Seq<u8>)
    ensures
        hex(bytes).len() == 2 * bytes.len(),
        forall|i: int| 0 <= i < hex(bytes).len() ==> hex_digit(#[trigger] hex(bytes)[i]),
    decreases bytes.len(),
{
    reveal_strlit("0123456789abcdef");
    if bytes.len() > 0 {
        lemma_hex(bytes.drop_last());
    }
}

/// Appends the decimal digits of `n`.
pub fn append_decimal(out: &mut String, n: usize)
    ensures
        final(out)@ == old(out)@ + decimal(n as nat),
    decreases n,
{
    proof {
        reveal_strlit("0123456789");
    }
    if n >= 10 {
        append_decimal(out, n / 10);
    }
    let digit: usize = n % 10;
    out.append("0123456789".substring_char(digit, digit + 1));
    assert("0123456789"@.subrange(digit as int, digit + 1) =~= seq!["0123456789"@[digit as int]]);
    assert(out@ =~= old(out)@ + decimal(n as nat));
}

/// Appends two hexadecimal digits for each byte.
pub fn append_hex(out: &mut String, bytes: &[u8])
    ensures
        final(out)@ == old(out)@ + hex(bytes@),
{
    proof {
        reveal_strlit("0123456789abcdef");
    }
    let ghost before = out@;
    let mut i: usize = 0;
    assert(bytes@.take(0) =~= seq![]);
    assert(before + hex(bytes@.take(0)) =~= before);
    while i < bytes.len()
        invariant
            i <= bytes@.len(),
            out@ == before + hex(bytes@.take(i as int)),
            "0123456789abcdef"@.len() == 16,
        decreases bytes@.len() - i,
    {
        let high: usize = (bytes[i] / 16) as usize;
        let low: usize = (bytes[i] % 16) as usize;
        out.append("0123456789abcdef".substring_char(high, high + 1));
        out.append("0123456789abcdef".substring_char(low, low + 1));
        proof {
            let next = bytes@.take(i + 1);
            assert(next.drop_last() =~= bytes@.take(i as int));
            assert(next.last() == bytes@[i as int]);
            assert(out@ =~= before + hex(next));
        }
        i += 1;
    }
    assert(bytes@.take(bytes@.len() as int) =~= bytes@);
}

/// The Unicode White_Space property.
pub open spec fn white_space(c: char) -> bool {
    ||| '\u{9}' <= c <= '\u{d}'
    ||| c == '\u{20}'
    ||| c == '\u{85}'
    ||| c == '\u{a0}'
    ||| c == '\u{1680}'
    ||| '\u{2000}' <= c <= '\u{200a}'
    ||| c == '\u{2028}'
    ||| c == '\u{2029}'
    ||| c == '\u{202f}'
    ||| c == '\u{205f}'
    ||| c == '\u{3000}'
}

/// Whether `c` has the Unicode White_Space property.
pub fn is_white_space(c: char) -> (yes: bool)
    ensures
        yes == white_space(c),
{
    ('\u{9}' <= c && c <= '\u{d}') || c == '\u{20}' || c == '\u{85}' || c == '\u{a0}' || c
        == '\u{1680}' || ('\u{2000}' <= c && c <= '\u{200a}') || c == '\u{2028}' || c == '\u{2029}'
        || c == '\u{202f}' || c == '\u{205f}' || c == '\u{3000}'
}

/// `s` without the white space that it starts with.
pub open spec fn trimmed_start(s: Seq<char>) -> Seq<char>
    decreases s.len(),
{
    if s.len() > 0 && white_space(s.first()) {
        trimmed_start(s.drop_first())
    } else {
        s
    }
}

/// `s` without the white space that it ends with.
pub open spec fn trimmed_end(s: Seq<char>) -> Seq<char>
    decreases s.len(),
{
    if s.len() > 0 && white_space(s.last()) {
        trimmed_end(s.drop_last())
    } else {
        s
    }
}

/// `s` without the white space at either end.
pub open spec fn trimmed(s: Seq<char>) -> Seq<char> {
    trimmed_end(trimmed_start(s))
}

/// Copies `s` without the white space at either end.
pub fn trim_text(s: &str) -> (t: String)
    ensures
        t@ == trimmed(s@),
{
    let total: usize = s.unicode_len();
    let mut chars: Vec<char> = Vec::new();
    for c in it: s.chars()
        invariant
            it.seq() == s@,
            chars@ == s@.take(it.index()),
    {
        chars.push(c);
        assert(chars@ =~= s@.take(it.index() + 1));
    }
    assert(chars@ =~= s@);
    let mut start: usize = 0;
    assert(s@.skip(0) =~= s@);
    while start < total && is_white_space(chars[start])
        invariant
            start <= total,
            total == s@.len(),
            chars@ == s@,
            trimmed_start(s@) == trimmed_start(s@.skip(start as int)),
        decreases total - start,
    {
        assert(s@.skip(start as int).drop_first() =~= s@.skip(start + 1));
        start += 1;
    }
    let ghost rest = s@.skip(start as int);
    assert(trimmed_start(s@) == rest);
    let mut end: usize = total;
    assert(s@.subrange(start as int, end as int) =~= rest);
    while start < end && is_white_space(chars[end - 1])
        invariant
            start <= end <= total,
            total == s@.len(),
            chars@ == s@,
            trimmed_end(rest) == trimmed_end(s@.subrange(start as int, end as int)),
        decreases end,
    {
        assert(s@.subrange(start as int, end as int).drop_last() =~= s@.subrange(
            start as int,
            end - 1,
        ));
        end -= 1;
    }
    s.substring_char(start, end).to_owned()
}

/// Whether `c` occurs in `s`.
pub fn contains_char(s: &str, c: char) -> (yes: bool)
    ensures
        yes == s@.contains(c),
{
    let mut found: bool = false;
    for d in it: s.chars()
        invariant
            it.seq() == s@,
            found == s@.take(it.index()).contains(c),
    {
        proof {
            let i = it.index();
            let next = s@.take(i + 1);
            assert(next =~= s@.take(i).push(d));
            if s@.take(i).contains(c) {
                let k = choose|k: int| 0 <= k < i && s@.take(i)[k] == c;
                assert(next[k] == c);
            }
            if d == c {
                assert(next[i] == c);
            }
            if next.contains(c) && d != c {
                let k = choose|k: int| 0 <= k < next.len() && next[k] == c;
                assert(s@.take(i)[k] == c);
            }
        }
        if d == c {
            found = true;
        }
    }
    assert(s@.take(s@.len() as int) =~= s@);
    found
}

/// A character that an identifier may hold.
pub open spec fn identifier_char(c: char) -> bool {
    ||| 'a' <= c <= 'z'
    ||| 'A' <= c <= 'Z'
    ||| '0' <= c <= '9'
    ||| c == '-'
    ||| c == '_'
    ||| c == '.'
    ||| c == ':'
}

/// One to 128 characters, all of them identifier characters.
pub open spec fn safe_id(s: Seq<char>) -> bool {
    &&& 0 < s.len() <= 128
    &&& forall|i: int| 0 <= i < s.len() ==> identifier_char(#[trigger] s[i])
}

/// Whether `value` can name a template or a target: ASCII letters, digits and `-_.:`,
/// at least one and at most 128 of them.
pub fn safe_target_id(value: &str) -> (safe: bool)
    ensures
        safe == safe_id(value@),
{
    let mut count: usize = 0;
    for c in it: value.chars()
        invariant
            it.seq() == value@,
            count == it.index(),
            count <= 128,
            forall|i: int| 0 <= i < it.index() ==> identifier_char(#[trigger] value@[i]),
    {
        let allowed: bool = ('a' <= c && c <= 'z') || ('A' <= c && c <= 'Z') || ('0' <= c && c
            <= '9') || c == '-' || c == '_' || c == '.' || c == ':';
        if !allowed || count == 128 {
            assert(!allowed ==> !identifier_char(value@[it.index()]));
            return false;
        }
        count += 1;
    }
    count > 0
}

/// A character that an edited value must not hold: the object replacement character, the
/// delete character, and every control character but the line feed.
pub open spec fn unsafe_control(c: char) -> bool {
    c == OBJECT_REPLACEMENT || c == '\u{7f}' || (c <= '\u{1f}' && c != '\n')
}

/// Whether `value` holds a character that an edited value must not hold.
pub fn has_unsafe_text_control(value: &str) -> (found: bool)
    ensures
        found == exists|i: int| 0 <= i < value@.len() && unsafe_control(#[trigger] value@[i]),
{
    for c in it: value.chars()
        invariant
            it.seq() == value@,
            forall|i: int| 0 <= i < it.index() ==> !unsafe_control(#[trigger] value@[i]),
    {
        if c == OBJECT_REPLACEMENT || c == '\u{7f}' || (c <= '\u{1f}' && c != '\n') {
            assert(unsafe_control(value@[it.index()]));
            return true;
        }
    }
    false
}

/// How many line feeds `s` holds.
pub open spec fn line_feeds(s: Seq<char>) -> nat
    decreases s.len(),
{
    if s.len() == 0 {
        0
    } else {
        line_feeds(s.drop_last()) + if s.last() == '\n' {
            1nat
        } else {
            0nat
        }
    }
}

/// The lines that `s` takes: none where it is empty, else one more than its line feeds.
pub open spec fn line_count(s: Seq<char>) -> nat {
    if s.len() == 0 {
        0
    } else {
        line_feeds(s) + 1
    }
}

/// Counts the lines of `value`.
pub fn value_line_count(value: &str) -> (lines: usize)
    ensures
        lines == clamped(line_count(value@)),
{
    if value.is_empty() {
        return 0;
    }
    let mut feeds: usize = 0;
    let total: usize = value.unicode_len();
    for c in it: value.chars()
        invariant
            it.seq() == value@,
            total == value@.len(),
            feeds == line_feeds(value@.take(it.index())),
            feeds <= it.index() <= total,
    {
        proof {
            let next = value@.take(it.index() + 1);
            assert(next.drop_last() =~= value@.take(it.index()));
        }
        if c == '\n' {
            feeds += 1;
        }
    }
    assert(value@.take(value@.len() as int) =~= value@);
    feeds.saturating_add(1)
}

} // verus!
