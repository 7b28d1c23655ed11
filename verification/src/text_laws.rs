//! What holds of texts, numbers and identifiers.

use vstd::prelude::*;

use crate::digest::is_digest;
use crate::model::{Cell, Paragraph};
use crate::table::{cell_text_of, joined};
use crate::text::{
    decimal, hex, hex_digit, identifier_char, lemma_hex, line_count, line_feeds, safe_id, trimmed,
    trimmed_end, trimmed_start, unsafe_control, white_space,
};

verus! {

/// Whether `s[from..to]` is `s` without the white space at its ends: only white space is left out,
/// and what is left neither starts nor ends with any.
pub open spec fn middle(s: Seq<char>, from: int, to: int) -> bool {
    &&& 0 <= from <= to <= s.len()
    &&& forall|i: int| 0 <= i < from ==> white_space(#[trigger] s[i])
    &&& forall|i: int| to <= i < s.len() ==> white_space(#[trigger] s[i])
    &&& from < to ==> !white_space(s[from]) && !white_space(s[to - 1])
}

/// Where trimming at the start stops.
proof fn lemma_trimmed_start(s: Seq<char>) -> (from: int)
    ensures
        0 <= from <= s.len(),
        trimmed_start(s) == s.skip(from),
        forall|i: int| 0 <= i < from ==> white_space(#[trigger] s[i]),
        from < s.len() ==> !white_space(s[from]),
    decreases s.len(),
{
    if s.len() > 0 && white_space(s.first()) {
        let rest = s.drop_first();
        let from = lemma_trimmed_start(rest);
        assert(rest.skip(from) =~= s.skip(from + 1));
        assert forall|i: int| 0 <= i < from + 1 implies white_space(#[trigger] s[i]) by {
            if i > 0 {
                assert(s[i] == rest[i - 1]);
            }
        }
        if from < rest.len() {
            assert(rest[from] == s[from + 1]);
        }
        from + 1
    } else {
        assert(s.skip(0) =~= s);
        0
    }
}

/// Where trimming at the end stops.
proof fn lemma_trimmed_end(s: Seq<char>) -> (to: int)
    ensures
        0 <= to <= s.len(),
        trimmed_end(s) == s.take(to),
        forall|i: int| to <= i < s.len() ==> white_space(#[trigger] s[i]),
        0 < to ==> !white_space(s[to - 1]),
    decreases s.len(),
{
    if s.len() > 0 && white_space(s.last()) {
        let rest = s.drop_last();
        let to = lemma_trimmed_end(rest);
        assert(rest.take(to) =~= s.take(to));
        assert forall|i: int| to <= i < s.len() implies white_space(#[trigger] s[i]) by {
            if i < s.len() - 1 {
                assert(s[i] == rest[i]);
            }
        }
        if 0 < to {
            assert(rest[to - 1] == s[to - 1]);
        }
        to
    } else {
        assert(s.take(s.len() as int) =~= s);
        s.len() as int
    }
}

/// A trimmed text is the middle of the text: it misses the white space at both ends, and nothing
/// else.
pub proof fn law_trimming_leaves_the_middle(s: Seq<char>)
    ensures
        exists|from: int, to: int| #[trigger]
            middle(s, from, to) && trimmed(s) == s.subrange(from, to),
{
    let from = lemma_trimmed_start(s);
    let rest = s.skip(from);
    let length = lemma_trimmed_end(rest);
    let to = from + length;
    assert(rest.take(length) =~= s.subrange(from, to));
    assert forall|i: int| to <= i < s.len() implies white_space(#[trigger] s[i]) by {
        assert(s[i] == rest[i - from]);
    }
    if from < to {
        assert(s[to - 1] == rest[length - 1]);
    }
    assert(middle(s, from, to));
}

/// The texts of two runs of paragraphs are joined with one line feed between them.
proof fn lemma_joined(a: Seq<Paragraph>, b: Seq<Paragraph>)
    requires
        a.len() > 0,
        b.len() > 0,
    ensures
        joined(a + b) == joined(a) + "\n"@ + joined(b),
    decreases b.len(),
{
    let all = a + b;
    if b.len() == 1 {
        assert(all.drop_last() =~= a);
        assert(all.last() == b[0]);
    } else {
        assert(all.drop_last() =~= a + b.drop_last());
        assert(all.last() == b.last());
        lemma_joined(a, b.drop_last());
        assert(joined(all) =~= joined(a) + "\n"@ + joined(b));
    }
}

/// The text of a cell is that of its paragraphs, one to a line, without the white space at its
/// ends: one paragraph says its text, and of two runs of paragraphs each says its own, with one
/// line feed between them.
pub proof fn law_cell_text_is_its_lines(cell: Cell, a: Seq<Paragraph>, b: Seq<Paragraph>)
    ensures
        exists|from: int, to: int| #[trigger]
            middle(joined(cell.paragraphs@), from, to) && cell_text_of(cell) == joined(
                cell.paragraphs@,
            ).subrange(from, to),
        joined(Seq::<Paragraph>::empty()) == Seq::<char>::empty(),
        a.len() == 1 ==> joined(a) == a[0].text@,
        a.len() > 0 && b.len() > 0 ==> joined(a + b) == joined(a) + "\n"@ + joined(b),
{
    law_trimming_leaves_the_middle(joined(cell.paragraphs@));
    if a.len() > 0 && b.len() > 0 {
        lemma_joined(a, b);
    }
}

/// The number that decimal digits stand for.
pub open spec fn read_decimal(digits: Seq<char>) -> int
    decreases digits.len(),
{
    if digits.len() == 0 {
        0
    } else {
        10 * read_decimal(digits.drop_last()) + (digits.last() as int - '0' as int)
    }
}

/// A number is written in decimal digits that read back as the number, without leading zeros.
pub proof fn law_decimal_reads_back(n: nat)
    ensures
        decimal(n).len() > 0,
        forall|i: int| 0 <= i < decimal(n).len() ==> '0' <= #[trigger] decimal(n)[i] <= '9',
        read_decimal(decimal(n)) == n,
        decimal(n)[0] == '0' ==> n == 0 && decimal(n).len() == 1,
    decreases n,
{
    reveal_strlit("0123456789");
    reveal_with_fuel(read_decimal, 2);
    let digits = "0123456789"@;
    assert(forall|d: int| 0 <= d < 10 ==> #[trigger] digits[d] as int == '0' as int + d);
    if n < 10 {
        assert(decimal(n).drop_last() =~= seq![]);
        assert(digits[n as int] as int == '0' as int + n);
    } else {
        law_decimal_reads_back(n / 10);
        assert(decimal(n).drop_last() =~= decimal(n / 10));
        assert(digits[(n % 10) as int] as int == '0' as int + n % 10);
        assert(decimal(n)[0] == decimal(n / 10)[0]);
        assert forall|i: int| 0 <= i < decimal(n).len() implies '0' <= #[trigger] decimal(n)[i]
            <= '9' by {
            if i < decimal(n).len() - 1 {
                assert(decimal(n)[i] == decimal(n / 10)[i]);
            }
        }
    }
}

/// What a hexadecimal digit stands for.
pub open spec fn read_hex(c: char) -> int {
    if '0' <= c <= '9' {
        c as int - '0' as int
    } else {
        10 + (c as int - 'a' as int)
    }
}

/// Bytes are written as two lower-case hexadecimal digits each, in order, that read back as the
/// byte.
pub proof fn law_hex_reads_back(bytes: Seq<u8>, i: int)
    requires
        0 <= i < bytes.len(),
    ensures
        hex(bytes).len() == 2 * bytes.len(),
        16 * read_hex(hex(bytes)[2 * i]) + read_hex(hex(bytes)[2 * i + 1]) == bytes[i],
        '0' <= hex(bytes)[2 * i] <= '9' || 'a' <= hex(bytes)[2 * i] <= 'f',
        '0' <= hex(bytes)[2 * i + 1] <= '9' || 'a' <= hex(bytes)[2 * i + 1] <= 'f',
    decreases bytes.len(),
{
    reveal_strlit("0123456789abcdef");
    lemma_hex(bytes);
    let earlier = bytes.drop_last();
    lemma_hex(earlier);
    if i < bytes.len() - 1 {
        law_hex_reads_back(earlier, i);
        assert(hex(bytes)[2 * i] == hex(earlier)[2 * i]);
        assert(hex(bytes)[2 * i + 1] == hex(earlier)[2 * i + 1]);
    } else {
        let digits = "0123456789abcdef"@;
        let high = bytes[i] as int / 16;
        let low = bytes[i] as int % 16;
        assert(forall|d: int| 0 <= d < 16 ==> #[trigger] read_hex(digits[d]) == d);
        assert(hex(bytes)[2 * i] == digits[high]);
        assert(hex(bytes)[2 * i + 1] == digits[low]);
        assert(read_hex(digits[high]) == high);
        assert(read_hex(digits[low]) == low);
    }
}

/// The line feeds that are counted are those that the text holds.
proof fn lemma_line_feeds(s: Seq<char>)
    ensures
        line_feeds(s) == s.filter(|c: char| c == '\n').len(),
    decreases s.len(),
{
    reveal(Seq::filter);
    if s.len() > 0 {
        lemma_line_feeds(s.drop_last());
    }
}

/// A text has one line more than it has line feeds, wherever they stand; an empty one has none.
pub proof fn law_lines_are_between_line_feeds(s: Seq<char>)
    ensures
        s.len() == 0 ==> line_count(s) == 0,
        s.len() > 0 ==> line_count(s) == s.filter(|c: char| c == '\n').len() + 1,
{
    lemma_line_feeds(s);
}

/// Whether a code point is of an ASCII digit or letter, or of a hyphen, an underscore, a full stop
/// or a colon.
pub open spec fn plain_code(c: int) -> bool {
    48 <= c <= 57 || 65 <= c <= 90 || 97 <= c <= 122 || c == 45 || c == 95 || c == 46 || c == 58
}

/// Whether a text has 1 to 128 characters, all of them of plain code points.
pub open spec fn plain_identifier(s: Seq<char>) -> bool {
    &&& 1 <= s.len() <= 128
    &&& forall|i: int| 0 <= i < s.len() ==> plain_code(#[trigger] s[i] as int)
}

/// An identifier is safe where it has 1 to 128 characters, all of them ASCII letters, ASCII digits,
/// hyphens, underscores, full stops or colons.
pub proof fn law_safe_identifiers(s: Seq<char>)
    ensures
        safe_id(s) <==> plain_identifier(s),
{
    assert forall|i: int| 0 <= i < s.len() implies (identifier_char(#[trigger] s[i])
        <==> plain_code(s[i] as int)) by {}
}

/// Whether a code point is of the stand-in for an object, or of a control character of ASCII but
/// the line feed.
pub open spec fn forbidden_code(c: int) -> bool {
    c == 0xfffc || c == 127 || c <= 31 && c != 10
}

/// A value must not hold the stand-in for an object, nor a control character of ASCII but the line
/// feed.
pub proof fn law_unsafe_characters(c: char)
    ensures
        unsafe_control(c) <==> forbidden_code(c as int),
{
}

/// A text has the form of a digest where it is `sha256:` and 64 lower-case hexadecimal digits.
pub proof fn law_form_of_digests(s: Seq<char>)
    ensures
        is_digest(s) <==> s.len() == 71 && s[0] == 's' && s[1] == 'h' && s[2] == 'a' && s[3] == '2'
            && s[4] == '5' && s[5] == '6' && s[6] == ':' && (forall|i: int|
            7 <= i < 71 ==> ('0' <= #[trigger] s[i] <= '9' || 'a' <= s[i] <= 'f')),
{
    reveal_strlit("sha256:");
    if s.len() == 71 {
        let head = s.take(7);
        if head == "sha256:"@ {
            assert(head[0] == s[0] && head[1] == s[1] && head[2] == s[2] && head[3] == s[3]
                && head[4] == s[4] && head[5] == s[5] && head[6] == s[6]);
        }
        if s[0] == 's' && s[1] == 'h' && s[2] == 'a' && s[3] == '2' && s[4] == '5' && s[5] == '6'
            && s[6] == ':' {
            assert(head =~= "sha256:"@);
        }
        assert forall|i: int| 7 <= i < 71 implies (hex_digit(#[trigger] s[i]) <==> ('0' <= s[i]
            <= '9' || 'a' <= s[i] <= 'f')) by {}
    }
}

} // verus!
