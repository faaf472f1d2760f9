//! Turning a byte offset into a text into a 1-based line and column.

use vstd::prelude::*;
use vstd::utf8::*;
use vstd::string::StringSliceAdditionalSpecFns;
use vstd::std_specs::iter::IteratorSpec;

verus! {

broadcast use vstd::string::group_string_axioms;

/// Number of bytes in the UTF-8 encoding of `c`.
pub open spec fn char_width(c: char) -> nat {
    encode_scalar(c as u32).len()
}

/// Number of bytes in the UTF-8 encoding of the first `k` characters of `s`.
pub open spec fn prefix_bytes(s: Seq<char>, k: int) -> nat {
    encode_utf8(s.take(k)).len()
}

/// Scanning from character `i`, the first index whose character no longer fits
/// into `offset` bytes (or the end of `s`).
pub open spec fn fit_from(s: Seq<char>, offset: nat, i: nat) -> nat
    decreases s.len() - i,
{
    if i >= s.len() || prefix_bytes(s, (i + 1) as int) > offset {
        i
    } else {
        fit_from(s, offset, i + 1)
    }
}

/// How many leading characters of `s` are wholly contained in its first
/// `offset` bytes: an offset past the end counts every character, and one that
/// lands inside a character stops before it.
pub open spec fn chars_within(s: Seq<char>, offset: nat) -> nat {
    fit_from(s, offset, 0)
}

/// Number of line feeds in `t`.
pub open spec fn newlines(t: Seq<char>) -> nat
    decreases t.len(),
{
    if t.len() == 0 {
        0
    } else {
        newlines(t.drop_last()) + if t.last() == '\n' { 1nat } else { 0nat }
    }
}

/// Number of characters after the last line feed of `t` (all of them if there is none).
pub open spec fn chars_after_last_newline(t: Seq<char>) -> nat
    decreases t.len(),
{
    if t.len() == 0 {
        0
    } else if t.last() == '\n' {
        0
    } else {
        chars_after_last_newline(t.drop_last()) + 1
    }
}

/// The 1-based `(line, column)` at which the character holding byte `offset`
/// of `s` starts, counting the column in characters.
pub open spec fn position_spec(s: Seq<char>, offset: nat) -> (nat, nat) {
    let t = s.take(chars_within(s, offset) as int);
    (newlines(t) + 1, chars_after_last_newline(t) + 1)
}

/// The encoding of a concatenation is the concatenation of the encodings.
pub proof fn lemma_encode_utf8_concat(a: Seq<char>, b: Seq<char>)
    ensures
        encode_utf8(a + b) == encode_utf8(a) + encode_utf8(b),
    decreases a.len(),
{
    if a.len() == 0 {
        assert(a + b =~= b);
    } else {
        assert((a + b).drop_first() =~= a.drop_first() + b);
        lemma_encode_utf8_concat(a.drop_first(), b);
    }
}

/// Taking one more character adds exactly its width.
proof fn lemma_prefix_bytes_step(s: Seq<char>, k: int)
    requires
        0 <= k < s.len(),
    ensures
        prefix_bytes(s, k + 1) == prefix_bytes(s, k) + char_width(s[k]),
{
    assert(s.take(k + 1) =~= s.take(k) + seq![s[k]]);
    lemma_encode_utf8_concat(s.take(k), seq![s[k]]);
    assert(seq![s[k]].drop_first() =~= Seq::<char>::empty());
    assert(encode_utf8(seq![s[k]]) =~= encode_scalar(s[k] as u32) + encode_utf8(Seq::<char>::empty()));
}

/// A text has at least as many bytes as characters.
proof fn lemma_chars_le_bytes(s: Seq<char>)
    ensures
        s.len() <= encode_utf8(s).len(),
    decreases s.len(),
{
    if s.len() > 0 {
        lemma_chars_le_bytes(s.drop_first());
    }
}

/// Every character takes between one and four bytes.
proof fn lemma_char_width_bounds(c: char)
    ensures
        1 <= char_width(c) <= 4,
{
}

/// The bytes of a non-empty text are those of its first character followed by
/// those of the rest.
proof fn lemma_encode_first(s: Seq<char>)
    requires
        s.len() > 0,
    ensures
        length_of_first_scalar(encode_utf8(s)) == char_width(s[0]),
        pop_first_scalar(encode_utf8(s)) == encode_utf8(s.drop_first()),
        valid_utf8(encode_utf8(s)),
{
    encode_utf8_first_scalar(s);
    encode_utf8_valid_utf8(s);
    let b = encode_utf8(s);
    assert(b == encode_scalar(s[0] as u32) + encode_utf8(s.drop_first()));
    assert(pop_first_scalar(b) =~= encode_utf8(s.drop_first()));
}

/// The byte count of a prefix, character after the first.
proof fn lemma_prefix_bytes_first(s: Seq<char>, k: int)
    requires
        1 <= k <= s.len(),
    ensures
        prefix_bytes(s, k) == char_width(s[0]) + prefix_bytes(s.drop_first(), k - 1),
{
    assert(s.take(k) =~= seq![s[0]] + s.drop_first().take(k - 1));
    lemma_encode_utf8_concat(seq![s[0]], s.drop_first().take(k - 1));
    assert(seq![s[0]].drop_first() =~= Seq::<char>::empty());
    assert(encode_utf8(seq![s[0]]) =~= encode_scalar(s[0] as u32) + encode_utf8(Seq::<char>::empty()));
}

/// The character boundaries of a text's bytes are exactly the byte counts of
/// its prefixes.
proof fn lemma_char_boundaries(s: Seq<char>, q: int)
    ensures
        valid_utf8(encode_utf8(s)),
        is_char_boundary(encode_utf8(s), q) <==> exists|k: int| 0 <= k <= s.len() && #[trigger] prefix_bytes(s, k) == q,
    decreases s.len(),
{
    encode_utf8_valid_utf8(s);
    let b = encode_utf8(s);
    assert(prefix_bytes(s, 0) == 0) by {
        assert(s.take(0) =~= Seq::<char>::empty());
    }
    if q == 0 {
    } else if s.len() == 0 {
        assert(s.take(0) =~= s);
        if exists|k: int| 0 <= k <= s.len() && #[trigger] prefix_bytes(s, k) == q {
            let k = choose|k: int| 0 <= k <= s.len() && #[trigger] prefix_bytes(s, k) == q;
            assert(k == 0);
        }
    } else {
        lemma_encode_first(s);
        let w = char_width(s[0]) as int;
        let t = s.drop_first();
        lemma_char_boundaries(t, q - w);
        if q < 0 || b.len() < q {
            if exists|k: int| 0 <= k <= s.len() && #[trigger] prefix_bytes(s, k) == q {
                let k = choose|k: int| 0 <= k <= s.len() && #[trigger] prefix_bytes(s, k) == q;
                lemma_prefix_bytes_le_all(s, k);
            }
        } else {
            assert(is_char_boundary(b, q) == is_char_boundary(encode_utf8(t), q - w));
            if exists|k: int| 0 <= k <= t.len() && #[trigger] prefix_bytes(t, k) == q - w {
                let k = choose|k: int| 0 <= k <= t.len() && #[trigger] prefix_bytes(t, k) == q - w;
                lemma_prefix_bytes_first(s, k + 1);
                assert(prefix_bytes(s, k + 1) == q);
            }
            if exists|k: int| 0 <= k <= s.len() && #[trigger] prefix_bytes(s, k) == q {
                let k = choose|k: int| 0 <= k <= s.len() && #[trigger] prefix_bytes(s, k) == q;
                assert(k >= 1);
                lemma_prefix_bytes_first(s, k);
                assert(prefix_bytes(t, k - 1) == q - w);
            }
        }
    }
}

/// A prefix has no more bytes than the whole text.
proof fn lemma_prefix_bytes_le_all(s: Seq<char>, k: int)
    requires
        0 <= k <= s.len(),
    ensures
        prefix_bytes(s, k) <= encode_utf8(s).len(),
{
    assert(s =~= s.take(k) + s.skip(k));
    lemma_encode_utf8_concat(s.take(k), s.skip(k));
}

/// Byte counts of prefixes grow strictly with the prefix.
proof fn lemma_prefix_bytes_strict(s: Seq<char>, i: int, k: int)
    requires
        0 <= i < k <= s.len(),
    ensures
        prefix_bytes(s, i) < prefix_bytes(s, k),
        prefix_bytes(s, i + 1) <= prefix_bytes(s, k),
    decreases k - i,
{
    lemma_prefix_bytes_step(s, i);
    lemma_char_width_bounds(s[i]);
    if i + 1 < k {
        lemma_prefix_bytes_strict(s, i + 1, k);
    }
}

/// What scanning from `i` finds: a prefix that fits, and either the whole
/// text or a next character that does not.
proof fn lemma_fit_from(s: Seq<char>, offset: nat, i: nat)
    requires
        i <= s.len(),
        prefix_bytes(s, i as int) <= offset,
    ensures
        i <= fit_from(s, offset, i) <= s.len(),
        prefix_bytes(s, fit_from(s, offset, i) as int) <= offset,
        fit_from(s, offset, i) < s.len() ==> prefix_bytes(s, (fit_from(s, offset, i) + 1) as int) > offset,
    decreases s.len() - i,
{
    if i < s.len() && prefix_bytes(s, (i + 1) as int) <= offset {
        lemma_fit_from(s, offset, i + 1);
    }
}

/// The position reported for `offset` is that of the last character boundary
/// of the text's UTF-8 bytes at or before `offset`, or of the end of the text
/// when `offset` is past it: an offset is clamped to the text and moved back to
/// the start of the character it falls in, never past it.
pub proof fn law_position_at_last_char_boundary(s: Seq<char>, offset: nat)
    ensures
        ({
            let b = encode_utf8(s);
            let p = prefix_bytes(s, chars_within(s, offset) as int);
            &&& p <= offset
            &&& p <= b.len()
            &&& is_char_boundary(b, p as int)
            &&& forall|q: int| p < q <= offset && q <= b.len() ==> !is_char_boundary(b, q)
        }),
{
    let b = encode_utf8(s);
    assert(prefix_bytes(s, 0) == 0) by {
        assert(s.take(0) =~= Seq::<char>::empty());
    }
    lemma_fit_from(s, offset, 0);
    let c = chars_within(s, offset) as int;
    let p = prefix_bytes(s, c);
    lemma_prefix_bytes_le_all(s, c);
    lemma_char_boundaries(s, p as int);
    assert forall|q: int| p < q <= offset && q <= b.len() implies !is_char_boundary(b, q) by {
        lemma_char_boundaries(s, q);
        if is_char_boundary(b, q) {
            let k = choose|k: int| 0 <= k <= s.len() && #[trigger] prefix_bytes(s, k) == q;
            if k <= c {
                if k < c {
                    lemma_prefix_bytes_strict(s, k, c);
                }
            } else {
                lemma_prefix_bytes_strict(s, c, k);
            }
        }
    }
}

/// Width of `c` in UTF-8, computed from its code point.
fn utf8_width(c: char) -> (w: usize)
    ensures
        w == char_width(c),
{
    let v = c as u32;
    if v < 0x80 {
        1
    } else if v < 0x800 {
        2
    } else if v < 0x10000 {
        3
    } else {
        4
    }
}

/// Convert a byte offset into a 1-based `(line, column)` pair.
///
/// The column counts characters, not bytes. An offset past the end is taken
/// as the end of the text, and one that falls inside a multi-byte character
/// as the start of that character.
pub fn position_of(content: &str, offset: usize) -> (r: (usize, usize))
    requires
        content.spec_bytes().len() < usize::MAX,
    ensures
        r.0 == position_spec(content@, offset as nat).0,
        r.1 == position_spec(content@, offset as nat).1,
{
    let ghost s = content@;
    let mut line: usize = 1;
    let mut column: usize = 1;
    let mut pos: usize = 0;
    let mut it = content.chars();
    let ghost mut i: int = 0;
    proof {
        assert(s.take(0) =~= Seq::<char>::empty());
        assert(s.skip(0) =~= s);
        lemma_chars_le_bytes(s);
    }
    loop
        invariant
            s == content@,
            0 <= i <= s.len(),
            it.remaining() == s.skip(i),
            pos == prefix_bytes(s, i),
            pos <= offset,
            i <= pos,
            fit_from(s, offset as nat, i as nat) == chars_within(s, offset as nat),
            line == newlines(s.take(i)) + 1,
            column == chars_after_last_newline(s.take(i)) + 1,
            newlines(s.take(i)) + chars_after_last_newline(s.take(i)) <= i,
            s.len() < usize::MAX,
        decreases s.len() - i,
    {
        match it.next() {
            None => {
                assert(s.skip(i).len() == 0);
                assert(i == s.len());
                assert(fit_from(s, offset as nat, i as nat) == i);
                assert(chars_within(s, offset as nat) == i);
                return (line, column);
            }
            Some(c) => {
                assert(c == s[i]);
                let w = utf8_width(c);
                proof {
                    lemma_prefix_bytes_step(s, i);
                    lemma_char_width_bounds(c);
                }
                if w > offset - pos {
                    assert(fit_from(s, offset as nat, i as nat) == i);
                    assert(chars_within(s, offset as nat) == i);
                    return (line, column);
                }
                pos = pos + w;
                proof {
                    assert(s.take(i + 1).drop_last() =~= s.take(i));
                    assert(s.skip(i).drop_first() =~= s.skip(i + 1));
                }
                if c == '\n' {
                    line = line + 1;
                    column = 1;
                } else {
                    column = column + 1;
                }
                proof {
                    i = i + 1;
                }
            }
        }
    }
}

/// The line of a position counts line feeds alone: it is one more than the
/// number of `'\n'` characters before it, and a `'\r'` (as in a CRLF file) is an
/// ordinary character.
pub proof fn law_lines_count_line_feeds(t: Seq<char>)
    ensures
        newlines(t) == t.filter(|c: char| c == '\n').len(),
    decreases t.len(),
{
    reveal_with_fuel(Seq::filter, 1);
    if t.len() > 0 {
        law_lines_count_line_feeds(t.drop_last());
    }
}

/// The column of a position counts the characters since the last line feed:
/// none of them is a `'\n'`, and the character just before them, when there is
/// one, is the `'\n'` that ends the previous line.
pub proof fn law_column_counts_since_last_line_feed(t: Seq<char>)
    ensures
        chars_after_last_newline(t) <= t.len(),
        forall|j: int| t.len() - chars_after_last_newline(t) <= j < t.len() ==> t[j] != '\n',
        chars_after_last_newline(t) < t.len() ==> t[t.len() - chars_after_last_newline(t) - 1] == '\n',
    decreases t.len(),
{
    if t.len() > 0 && t.last() != '\n' {
        let u = t.drop_last();
        law_column_counts_since_last_line_feed(u);
        assert forall|j: int| t.len() - chars_after_last_newline(t) <= j < t.len() implies t[j] != '\n' by {
            if j < t.len() - 1 {
                assert(t[j] == u[j]);
            }
        }
        if chars_after_last_newline(t) < t.len() {
            assert(t[t.len() - chars_after_last_newline(t) - 1] == u[u.len() - chars_after_last_newline(u) - 1]);
        }
    }
}

} // verus!
