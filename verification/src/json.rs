//! Building blocks for the JSON wire text: string escaping and quoting.
//!
//! A JSON string literal holds the escaped form of its characters between
//! two quote characters. The escaping scheme is the usual one: `"` and `\`
//! get a backslash, the named control characters use their short escapes,
//! every other control character below U+0020 uses a `\u00XX` escape, and
//! all remaining characters stand for themselves.

use vstd::prelude::*;
use vstd::string::StrSliceExecFns;
use vstd::string::StringExecFns;

verus! {

/// The text a single character contributes to a JSON string literal.
pub open spec fn escaped_char(c: char) -> Seq<char> {
    if c == '"' {
        "\\\""@
    } else if c == '\\' {
        "\\\\"@
    } else if c == '\u{08}' {
        "\\b"@
    } else if c == '\u{09}' {
        "\\t"@
    } else if c == '\u{0A}' {
        "\\n"@
    } else if c == '\u{0C}' {
        "\\f"@
    } else if c == '\u{0D}' {
        "\\r"@
    } else if c == '\u{00}' {
        "\\u0000"@
    } else if c == '\u{01}' {
        "\\u0001"@
    } else if c == '\u{02}' {
        "\\u0002"@
    } else if c == '\u{03}' {
        "\\u0003"@
    } else if c == '\u{04}' {
        "\\u0004"@
    } else if c == '\u{05}' {
        "\\u0005"@
    } else if c == '\u{06}' {
        "\\u0006"@
    } else if c == '\u{07}' {
        "\\u0007"@
    } else if c == '\u{0B}' {
        "\\u000b"@
    } else if c == '\u{0E}' {
        "\\u000e"@
    } else if c == '\u{0F}' {
        "\\u000f"@
    } else if c == '\u{10}' {
        "\\u0010"@
    } else if c == '\u{11}' {
        "\\u0011"@
    } else if c == '\u{12}' {
        "\\u0012"@
    } else if c == '\u{13}' {
        "\\u0013"@
    } else if c == '\u{14}' {
        "\\u0014"@
    } else if c == '\u{15}' {
        "\\u0015"@
    } else if c == '\u{16}' {
        "\\u0016"@
    } else if c == '\u{17}' {
        "\\u0017"@
    } else if c == '\u{18}' {
        "\\u0018"@
    } else if c == '\u{19}' {
        "\\u0019"@
    } else if c == '\u{1A}' {
        "\\u001a"@
    } else if c == '\u{1B}' {
        "\\u001b"@
    } else if c == '\u{1C}' {
        "\\u001c"@
    } else if c == '\u{1D}' {
        "\\u001d"@
    } else if c == '\u{1E}' {
        "\\u001e"@
    } else if c == '\u{1F}' {
        "\\u001f"@
    } else {
        seq![c]
    }
}

/// The escaped form of a whole character sequence: each character replaced
/// by its `escaped_char` text, in order.
pub open spec fn escaped(s: Seq<char>) -> Seq<char>
    decreases s.len(),
{
    if s.len() == 0 {
        Seq::empty()
    } else {
        escaped(s.drop_last()) + escaped_char(s.last())
    }
}

/// A full JSON string literal: quote, escaped contents, quote.
pub open spec fn quoted(s: Seq<char>) -> Seq<char> {
    "\""@ + escaped(s) + "\""@
}

/// Sequence concatenation is associative.
pub proof fn lemma_add_assoc(a: Seq<char>, b: Seq<char>, c: Seq<char>)
    ensures
        (a + b) + c == a + (b + c),
{
    assert((a + b) + c =~= a + (b + c));
}

/// Escaping one more character extends the escaped prefix.
pub proof fn lemma_escaped_step(s: Seq<char>, i: int)
    requires
        0 <= i < s.len(),
    ensures
        escaped(s.take(i + 1)) == escaped(s.take(i)) + escaped_char(s[i]),
{
    assert(s.take(i + 1).drop_last() =~= s.take(i));
    assert(s.take(i + 1).last() == s[i]);
}

/// The control character written as `\u00xy`, if `x` and `y` are the two
/// hex digits of one that the escaper writes that way.
pub open spec fn control_char_of(x: char, y: char) -> Option<char> {
    if x == '0' {
        if y == '0' {
            Some('\u{00}')
        } else if y == '1' {
            Some('\u{01}')
        } else if y == '2' {
            Some('\u{02}')
        } else if y == '3' {
            Some('\u{03}')
        } else if y == '4' {
            Some('\u{04}')
        } else if y == '5' {
            Some('\u{05}')
        } else if y == '6' {
            Some('\u{06}')
        } else if y == '7' {
            Some('\u{07}')
        } else if y == 'b' {
            Some('\u{0B}')
        } else if y == 'e' {
            Some('\u{0E}')
        } else if y == 'f' {
            Some('\u{0F}')
        } else {
            None
        }
    } else if x == '1' {
        if y == '0' {
            Some('\u{10}')
        } else if y == '1' {
            Some('\u{11}')
        } else if y == '2' {
            Some('\u{12}')
        } else if y == '3' {
            Some('\u{13}')
        } else if y == '4' {
            Some('\u{14}')
        } else if y == '5' {
            Some('\u{15}')
        } else if y == '6' {
            Some('\u{16}')
        } else if y == '7' {
            Some('\u{17}')
        } else if y == '8' {
            Some('\u{18}')
        } else if y == '9' {
            Some('\u{19}')
        } else if y == 'a' {
            Some('\u{1A}')
        } else if y == 'b' {
            Some('\u{1B}')
        } else if y == 'c' {
            Some('\u{1C}')
        } else if y == 'd' {
            Some('\u{1D}')
        } else if y == 'e' {
            Some('\u{1E}')
        } else if y == 'f' {
            Some('\u{1F}')
        } else {
            None
        }
    } else {
        None
    }
}

/// One decoded character put in front of a scan result.
pub open spec fn scan_prepend(c: char, r: Option<(Seq<char>, Seq<char>)>) -> Option<
    (Seq<char>, Seq<char>),
> {
    match r {
        Some(p) => Some((seq![c] + p.0, p.1)),
        None => None,
    }
}

/// Reads the body of a JSON string literal, as the escaper writes it, from
/// the front of `t`: escape sequences decode one by one until the first bare
/// quote, which closes the literal. The result is the decoded content and
/// the text after the closing quote.
pub open spec fn scan_string(t: Seq<char>) -> Option<(Seq<char>, Seq<char>)>
    decreases t.len(),
{
    if t.len() == 0 {
        None
    } else if t[0] == '"' {
        Some((Seq::empty(), t.drop_first()))
    } else if t[0] == '\\' {
        if t.len() < 2 {
            None
        } else if t[1] == '"' {
            scan_prepend('"', scan_string(t.skip(2)))
        } else if t[1] == '\\' {
            scan_prepend('\\', scan_string(t.skip(2)))
        } else if t[1] == 'b' {
            scan_prepend('\u{08}', scan_string(t.skip(2)))
        } else if t[1] == 't' {
            scan_prepend('\u{09}', scan_string(t.skip(2)))
        } else if t[1] == 'n' {
            scan_prepend('\u{0A}', scan_string(t.skip(2)))
        } else if t[1] == 'f' {
            scan_prepend('\u{0C}', scan_string(t.skip(2)))
        } else if t[1] == 'r' {
            scan_prepend('\u{0D}', scan_string(t.skip(2)))
        } else if t[1] == 'u' {
            if t.len() < 6 {
                None
            } else {
                match control_char_of(t[4], t[5]) {
                    Some(ctrl) => if t[2] == '0' && t[3] == '0' {
                        scan_prepend(ctrl, scan_string(t.skip(6)))
                    } else {
                        None
                    },
                    None => None,
                }
            }
        } else {
            None
        }
    } else {
        scan_prepend(t[0], scan_string(t.drop_first()))
    }
}

/// The escaped text of a sequence can also be taken apart at the front.
pub proof fn lemma_escaped_front(s: Seq<char>)
    requires
        s.len() > 0,
    ensures
        escaped(s) == escaped_char(s[0]) + escaped(s.drop_first()),
    decreases s.len(),
{
    if s.len() == 1 {
        assert(s.drop_last() =~= Seq::<char>::empty());
        assert(s.drop_first() =~= Seq::<char>::empty());
        assert(escaped(s) =~= escaped_char(s[0]) + escaped(s.drop_first()));
    } else {
        lemma_escaped_front(s.drop_last());
        assert(s.drop_last()[0] == s[0]);
        assert(s.drop_last().drop_first() =~= s.drop_first().drop_last());
        assert(s.drop_first().last() == s.last());
        assert(escaped(s) =~= escaped_char(s[0]) + escaped(s.drop_first()));
    }
}

/// The scanner takes one escape piece off the front and decodes it back to
/// the character it came from.
pub proof fn lemma_scan_escaped_char(c: char, rest: Seq<char>)
    ensures
        scan_string(escaped_char(c) + rest) == scan_prepend(c, scan_string(rest)),
{
    reveal_strlit("\\\"");
    reveal_strlit("\\\\");
    reveal_strlit("\\b");
    reveal_strlit("\\t");
    reveal_strlit("\\n");
    reveal_strlit("\\f");
    reveal_strlit("\\r");
    reveal_strlit("\\u0000");
    reveal_strlit("\\u0001");
    reveal_strlit("\\u0002");
    reveal_strlit("\\u0003");
    reveal_strlit("\\u0004");
    reveal_strlit("\\u0005");
    reveal_strlit("\\u0006");
    reveal_strlit("\\u0007");
    reveal_strlit("\\u000b");
    reveal_strlit("\\u000e");
    reveal_strlit("\\u000f");
    reveal_strlit("\\u0010");
    reveal_strlit("\\u0011");
    reveal_strlit("\\u0012");
    reveal_strlit("\\u0013");
    reveal_strlit("\\u0014");
    reveal_strlit("\\u0015");
    reveal_strlit("\\u0016");
    reveal_strlit("\\u0017");
    reveal_strlit("\\u0018");
    reveal_strlit("\\u0019");
    reveal_strlit("\\u001a");
    reveal_strlit("\\u001b");
    reveal_strlit("\\u001c");
    reveal_strlit("\\u001d");
    reveal_strlit("\\u001e");
    reveal_strlit("\\u001f");
    let t = escaped_char(c) + rest;
    if escaped_char(c).len() == 1 {
        assert(t[0] == c);
        assert(t.drop_first() =~= rest);
    } else if escaped_char(c).len() == 2 {
        assert(t[0] == '\\');
        assert(t.skip(2) =~= rest);
    } else {
        assert(escaped_char(c).len() == 6);
        assert(t[0] == '\\' && t[1] == 'u' && t[2] == '0' && t[3] == '0');
        assert(t.skip(6) =~= rest);
    }
}

/// Scanning the escaped text of `s`, closed by a bare quote and followed by
/// anything at all, recovers exactly `s` and that following text.
pub proof fn lemma_scan_escaped(s: Seq<char>, rest: Seq<char>)
    ensures
        scan_string(escaped(s) + seq!['"'] + rest) == Some((s, rest)),
    decreases s.len(),
{
    if s.len() == 0 {
        let t = escaped(s) + seq!['"'] + rest;
        assert(t =~= seq!['"'] + rest);
        assert(t[0] == '"');
        assert(t.drop_first() =~= rest);
        assert(Seq::<char>::empty() =~= s);
    } else {
        lemma_escaped_front(s);
        lemma_scan_escaped(s.drop_first(), rest);
        let tail_text = escaped(s.drop_first()) + seq!['"'] + rest;
        lemma_scan_escaped_char(s[0], tail_text);
        assert(escaped(s) + seq!['"'] + rest =~= escaped_char(s[0]) + tail_text);
        assert(seq![s[0]] + s.drop_first() =~= s);
    }
}

/// A string literal the serializer wrote always reads back exactly,
/// wherever it stands in the wire text: behind the opening quote of
/// `quoted(s)` the scanner finds `s` itself and leaves precisely the text
/// that follows the literal.
pub proof fn lemma_quoted_round_trip(s: Seq<char>, rest: Seq<char>)
    ensures
        (quoted(s) + rest)[0] == '"',
        scan_string((quoted(s) + rest).drop_first()) == Some((s, rest)),
{
    reveal_strlit("\"");
    assert((quoted(s) + rest)[0] == '"');
    assert((quoted(s) + rest).drop_first() =~= escaped(s) + seq!['"'] + rest);
    lemma_scan_escaped(s, rest);
}

/// Appends the escape text of the character at position `i` of `s`.
fn write_escaped_char(out: &mut String, s: &str, i: usize)
    requires
        i < s@.len(),
        i < usize::MAX,
    ensures
        final(out)@ == old(out)@ + escaped_char(s@[i as int]),
{
    let c: char = s.get_char(i);
    if c == '"' {
        out.append("\\\"");
    } else if c == '\\' {
        out.append("\\\\");
    } else if c == '\u{08}' {
        out.append("\\b");
    } else if c == '\u{09}' {
        out.append("\\t");
    } else if c == '\u{0A}' {
        out.append("\\n");
    } else if c == '\u{0C}' {
        out.append("\\f");
    } else if c == '\u{0D}' {
        out.append("\\r");
    } else if c == '\u{00}' {
        out.append("\\u0000");
    } else if c == '\u{01}' {
        out.append("\\u0001");
    } else if c == '\u{02}' {
        out.append("\\u0002");
    } else if c == '\u{03}' {
        out.append("\\u0003");
    } else if c == '\u{04}' {
        out.append("\\u0004");
    } else if c == '\u{05}' {
        out.append("\\u0005");
    } else if c == '\u{06}' {
        out.append("\\u0006");
    } else if c == '\u{07}' {
        out.append("\\u0007");
    } else if c == '\u{0B}' {
        out.append("\\u000b");
    } else if c == '\u{0E}' {
        out.append("\\u000e");
    } else if c == '\u{0F}' {
        out.append("\\u000f");
    } else if c == '\u{10}' {
        out.append("\\u0010");
    } else if c == '\u{11}' {
        out.append("\\u0011");
    } else if c == '\u{12}' {
        out.append("\\u0012");
    } else if c == '\u{13}' {
        out.append("\\u0013");
    } else if c == '\u{14}' {
        out.append("\\u0014");
    } else if c == '\u{15}' {
        out.append("\\u0015");
    } else if c == '\u{16}' {
        out.append("\\u0016");
    } else if c == '\u{17}' {
        out.append("\\u0017");
    } else if c == '\u{18}' {
        out.append("\\u0018");
    } else if c == '\u{19}' {
        out.append("\\u0019");
    } else if c == '\u{1A}' {
        out.append("\\u001a");
    } else if c == '\u{1B}' {
        out.append("\\u001b");
    } else if c == '\u{1C}' {
        out.append("\\u001c");
    } else if c == '\u{1D}' {
        out.append("\\u001d");
    } else if c == '\u{1E}' {
        out.append("\\u001e");
    } else if c == '\u{1F}' {
        out.append("\\u001f");
    } else {
        let piece: &str = s.substring_char(i, i + 1);
        assert(piece@ =~= seq![s@[i as int]]);
        out.append(piece);
    }
}

/// Appends the escaped form of `s` to `out`.
pub fn write_escaped(out: &mut String, s: &str)
    ensures
        final(out)@ == old(out)@ + escaped(s@),
{
    let ghost start: Seq<char> = out@;
    let n: usize = s.unicode_len();
    let mut i: usize = 0;
    while i < n
        invariant
            n == s@.len(),
            i <= n,
            out@ == start + escaped(s@.take(i as int)),
        decreases n - i,
    {
        write_escaped_char(out, s, i);
        proof {
            lemma_escaped_step(s@, i as int);
            lemma_add_assoc(start, escaped(s@.take(i as int)), escaped_char(s@[i as int]));
        }
        i = i + 1;
    }
    proof {
        assert(s@.take(n as int) =~= s@);
    }
}

/// Appends the JSON string literal for `s` (quotes included) to `out`.
pub fn write_quoted(out: &mut String, s: &str)
    ensures
        final(out)@ == old(out)@ + quoted(s@),
{
    let ghost start: Seq<char> = out@;
    out.append("\"");
    write_escaped(out, s);
    out.append("\"");
    assert(out@ =~= start + quoted(s@));
}

} // verus!
