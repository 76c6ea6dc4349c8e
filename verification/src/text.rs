//! Text building blocks: decimal numbers, joined lists, byte lists, lines.

use vstd::prelude::*;
use vstd::slice::slice_to_vec;
use vstd::utf8::{decode_utf8, valid_utf8};

verus! {

/// `String::push` appends one character.
pub assume_specification[ String::push ](s: &mut String, ch: char)
    ensures
        final(s)@ == old(s)@.push(ch),
;

/// `String::from_utf8` accepts exactly the well-formed UTF-8 byte strings and
/// returns the text that they encode.
#[verifier::external_body]
pub(crate) fn utf8_text(bytes: Vec<u8>) -> (r: Option<String>)
    ensures
        r is Some <==> valid_utf8(bytes@),
        r matches Some(text) ==> text@ == decode_utf8(bytes@),
{
    String::from_utf8(bytes).ok()
}

/// The character of a decimal digit.
pub open spec fn digit(d: nat) -> char
    recommends
        d < 10,
{
    ((48 + d) as u8) as char
}

/// A number in decimal notation, without leading zeros.
pub open spec fn decimal(n: nat) -> Seq<char>
    decreases n,
{
    if n < 10 {
        seq![digit(n)]
    } else {
        decimal(n / 10).push(digit(n % 10))
    }
}

/// Appends `n` in decimal notation.
pub fn push_decimal(out: &mut String, n: u32)
    ensures
        final(out)@ == old(out)@ + decimal(n as nat),
    decreases n,
{
    if n >= 10 {
        push_decimal(out, n / 10);
    }
    let d: u8 = (n % 10) as u8;
    out.push((48u8 + d) as char);
    assert(out@ =~= old(out)@ + decimal(n as nat));
}

/// The parts in order, with `sep` between each two neighbours.
pub open spec fn joined(parts: Seq<Seq<char>>, sep: Seq<char>) -> Seq<char>
    decreases parts.len(),
{
    if parts.len() == 0 {
        Seq::empty()
    } else if parts.len() == 1 {
        parts[0]
    } else {
        joined(parts.drop_last(), sep) + sep + parts.last()
    }
}

/// The texts that a vector of strings holds.
pub open spec fn texts(items: Seq<String>) -> Seq<Seq<char>> {
    items.map_values(|s: String| s@)
}

/// Joins the parts, with `sep` between each two neighbours.
pub fn join(parts: &Vec<String>, sep: &str) -> (out: String)
    ensures
        out@ == joined(texts(parts@), sep@),
{
    let mut out = String::new();
    let mut i: usize = 0;
    while i < parts.len()
        invariant
            i <= parts.len(),
            out@ == joined(texts(parts@).take(i as int), sep@),
        decreases parts.len() - i,
    {
        if i > 0 {
            out.append(sep);
        }
        out.append(parts[i].as_str());
        proof {
            let all = texts(parts@);
            assert(all.take(i + 1).drop_last() =~= all.take(i as int));
            assert(all.take(i + 1).last() == parts@[i as int]@);
            if i == 0 {
                assert(out@ =~= all.take(i + 1)[0]);
            }
        }
        i += 1;
    }
    assert(texts(parts@).take(parts.len() as int) =~= texts(parts@));
    out
}

/// The decimal notation of each byte.
pub open spec fn decimals(bytes: Seq<u8>) -> Seq<Seq<char>> {
    bytes.map_values(|b: u8| decimal(b as nat))
}

/// A byte string as a bracketed list of decimal numbers: `[104, 105]`.
pub open spec fn byte_list(bytes: Seq<u8>) -> Seq<char> {
    "["@ + joined(decimals(bytes), ", "@) + "]"@
}

/// Renders a byte string as a bracketed list of decimal numbers.
pub fn debug_bytes(bytes: &[u8]) -> (out: String)
    ensures
        out@ == byte_list(bytes@),
{
    let mut out = String::new();
    out.append("[");
    let mut i: usize = 0;
    while i < bytes.len()
        invariant
            i <= bytes.len(),
            out@ == "["@ + joined(decimals(bytes@).take(i as int), ", "@),
        decreases bytes.len() - i,
    {
        if i > 0 {
            out.append(", ");
        }
        push_decimal(&mut out, bytes[i] as u32);
        proof {
            let all = decimals(bytes@);
            assert(all.take(i + 1).drop_last() =~= all.take(i as int));
            assert(all.take(i + 1).last() == decimal(bytes@[i as int] as nat));
            if i == 0 {
                assert(joined(all.take(0), ", "@) =~= Seq::<char>::empty());
                assert(out@ =~= "["@ + all.take(i + 1)[0]);
            } else {
                assert(out@ =~= "["@ + (joined(all.take(i as int), ", "@) + ", "@ + all.take(
                    i + 1,
                ).last()));
            }
        }
        i += 1;
    }
    assert(decimals(bytes@).take(bytes.len() as int) =~= decimals(bytes@));
    out.append("]");
    out
}

/// A payload as it stands in a trace: the text that the bytes encode where
/// they are well-formed UTF-8, the list of the bytes where they are not.
pub open spec fn shown(bytes: Seq<u8>) -> Seq<char> {
    if valid_utf8(bytes) {
        decode_utf8(bytes)
    } else {
        byte_list(bytes)
    }
}

/// Renders a payload for a trace.
pub fn text_or_bytes(bytes: &[u8]) -> (out: String)
    ensures
        out@ == shown(bytes@),
{
    match utf8_text(slice_to_vec(bytes)) {
        Some(text) => text,
        None => debug_bytes(bytes),
    }
}

/// The name of a wire format code: 0 is text, 1 is binary.
pub open spec fn format_label(format: u16) -> Seq<char> {
    if format == 0 {
        "text"@
    } else if format == 1 {
        "binary"@
    } else {
        "unknown: "@ + decimal(format as nat)
    }
}

/// Names a wire format code.
pub fn format_name(format: u16) -> (name: String)
    ensures
        name@ == format_label(format),
{
    if format == 0 {
        "text".to_owned()
    } else if format == 1 {
        "binary".to_owned()
    } else {
        let mut name = "unknown: ".to_owned();
        push_decimal(&mut name, format as u32);
        name
    }
}

/// The characters of a text, one by one.
pub fn chars_of(s: &str) -> (v: Vec<char>)
    ensures
        v@ == s@,
{
    let mut v: Vec<char> = Vec::new();
    for c in it: s.chars()
        invariant
            it.seq() == s@,
            v@ == s@.take(it.index() as int),
    {
        v.push(c);
        assert(s@.take(it.index() + 1) =~= s@.take(it.index() as int).push(c));
    }
    assert(s@.take(s@.len() as int) =~= s@);
    v
}

/// The text that the characters from `from` up to `to` make.
pub fn text_of(chars: &Vec<char>, from: usize, to: usize) -> (out: String)
    requires
        from <= to <= chars.len(),
    ensures
        out@ == chars@.subrange(from as int, to as int),
{
    let mut out = String::new();
    let mut i: usize = from;
    while i < to
        invariant
            from <= i <= to <= chars.len(),
            out@ == chars@.subrange(from as int, i as int),
        decreases to - i,
    {
        out.push(chars[i]);
        assert(chars@.subrange(from as int, i + 1) =~= chars@.subrange(from as int, i as int).push(
            chars@[i as int],
        ));
        i += 1;
    }
    out
}

/// The order of texts: by the first character in which they differ, and a
/// text before each of its extensions. This is the order of `String`.
pub open spec fn precedes(a: Seq<char>, b: Seq<char>) -> bool
    decreases a.len(),
{
    if b.len() == 0 {
        false
    } else if a.len() == 0 {
        true
    } else if a[0] != b[0] {
        (a[0] as u32) < (b[0] as u32)
    } else {
        precedes(a.skip(1), b.skip(1))
    }
}

/// No text precedes itself.
pub proof fn precedes_is_irreflexive(a: Seq<char>)
    ensures
        !precedes(a, a),
    decreases a.len(),
{
    if a.len() > 0 {
        precedes_is_irreflexive(a.skip(1));
    }
}

/// Of two different texts one precedes the other.
pub proof fn precedes_is_total(a: Seq<char>, b: Seq<char>)
    ensures
        a == b || precedes(a, b) || precedes(b, a),
    decreases a.len(),
{
    if a.len() > 0 && b.len() > 0 {
        if a[0] == b[0] {
            precedes_is_total(a.skip(1), b.skip(1));
            if a.skip(1) == b.skip(1) {
                assert(a =~= seq![a[0]] + a.skip(1));
                assert(b =~= seq![b[0]] + b.skip(1));
            }
        } else {
            vstd::utf8::char_u32_cast(a[0], a[0] as u32);
            vstd::utf8::char_u32_cast(b[0], b[0] as u32);
        }
    } else if a.len() == 0 && b.len() == 0 {
        assert(a =~= b);
    }
}

/// What precedes a text precedes all that the text precedes.
pub proof fn precedes_is_transitive(a: Seq<char>, b: Seq<char>, c: Seq<char>)
    requires
        precedes(a, b),
        precedes(b, c),
    ensures
        precedes(a, c),
    decreases a.len(),
{
    if a.len() > 0 && a[0] == b[0] && b[0] == c[0] {
        precedes_is_transitive(a.skip(1), b.skip(1), c.skip(1));
    }
}

/// Whether `a` comes before `b` in the order of texts.
pub fn comes_before(a: &str, b: &str) -> (r: bool)
    ensures
        r == precedes(a@, b@),
{
    let x = chars_of(a);
    let y = chars_of(b);
    let mut i: usize = 0;
    assert(x@.skip(0) =~= x@ && y@.skip(0) =~= y@);
    while i < x.len() && i < y.len()
        invariant
            i <= x.len(),
            i <= y.len(),
            x@ == a@,
            y@ == b@,
            precedes(x@, y@) == precedes(x@.skip(i as int), y@.skip(i as int)),
        decreases x.len() - i,
    {
        assert(x@.skip(i as int)[0] == x@[i as int] && y@.skip(i as int)[0] == y@[i as int]);
        if x[i] != y[i] {
            return (x[i] as u32) < (y[i] as u32);
        }
        assert(x@.skip(i as int).skip(1) =~= x@.skip(i + 1));
        assert(y@.skip(i as int).skip(1) =~= y@.skip(i + 1));
        i += 1;
    }
    i < y.len()
}

/// How many characters stand before the first `mark`; all of them where
/// there is none.
pub open spec fn reach(s: Seq<char>, mark: char) -> nat
    decreases s.len(),
{
    if s.len() == 0 || s[0] == mark {
        0
    } else {
        1 + reach(s.skip(1), mark)
    }
}

/// The first `mark` is where it is found with none before it.
pub proof fn reach_is_first(s: Seq<char>, mark: char, n: int)
    requires
        0 <= n <= s.len(),
        forall|k: int| 0 <= k < n ==> s[k] != mark,
        n < s.len() ==> s[n] == mark,
    ensures
        reach(s, mark) == n,
    decreases n,
{
    if n > 0 {
        reach_is_first(s.skip(1), mark, n - 1);
    }
}

/// A line without the carriage return that may end it.
pub open spec fn without_return(line: Seq<char>) -> Seq<char> {
    if line.len() > 0 && line.last() == '\r' {
        line.drop_last()
    } else {
        line
    }
}

/// The lines of a text. A line ends at a line feed, or at a carriage return
/// and a line feed; neither belongs to the line. What follows the last line
/// feed is a line of its own unless it is empty.
pub open spec fn lines_of(s: Seq<char>) -> Seq<Seq<char>>
    decreases s.len(),
{
    let n = reach(s, '\n') as int;
    if s.len() == 0 {
        Seq::empty()
    } else if n >= s.len() {
        seq![s]
    } else {
        seq![without_return(s.take(n))] + lines_of(s.skip(n + 1))
    }
}

/// Cuts a text into its lines.
pub fn lines(input: &str) -> (out: Vec<String>)
    ensures
        texts(out@) == lines_of(input@),
{
    let chars = chars_of(input);
    let mut out: Vec<String> = Vec::new();
    let mut start: usize = 0;
    let mut i: usize = 0;
    assert(chars@.skip(0) =~= chars@);
    assert(texts(out@) =~= Seq::<Seq<char>>::empty());
    while i < chars.len()
        invariant
            start <= i <= chars.len(),
            chars@ == input@,
            forall|k: int| start <= k < i ==> chars@[k] != '\n',
            lines_of(input@) == texts(out@) + lines_of(chars@.skip(start as int)),
        decreases chars.len() - i,
    {
        if chars[i] == '\n' {
            let mut end: usize = i;
            if end > start && chars[end - 1] == '\r' {
                end = end - 1;
            }
            let line = text_of(&chars, start, end);
            proof {
                let rest = chars@.skip(start as int);
                reach_is_first(rest, '\n', i - start);
                assert(rest.take(i - start) =~= chars@.subrange(start as int, i as int));
                assert(rest.skip(i - start + 1) =~= chars@.skip(i + 1));
                assert(line@ =~= without_return(rest.take(i - start)));
                assert(texts(out@.push(line)) =~= texts(out@) + seq![line@]);
            }
            out.push(line);
            start = i + 1;
        }
        i += 1;
    }
    if start < chars.len() {
        let line = text_of(&chars, start, chars.len());
        proof {
            let rest = chars@.skip(start as int);
            reach_is_first(rest, '\n', rest.len() as int);
            assert(line@ =~= rest);
            assert(texts(out@.push(line)) =~= texts(out@) + seq![line@]);
        }
        out.push(line);
    } else {
        assert(texts(out@) + Seq::<Seq<char>>::empty() =~= texts(out@));
    }
    out
}

/// The first word of a line: what stands before the first space.
pub open spec fn head_of(line: Seq<char>) -> Seq<char> {
    line.take(reach(line, ' ') as int)
}

/// What follows the first space of a line; `None` where there is no space.
pub open spec fn tail_of(line: Seq<char>) -> Option<Seq<char>> {
    if reach(line, ' ') < line.len() {
        Some(line.skip(reach(line, ' ') as int + 1))
    } else {
        None
    }
}

/// Cuts a line at its first space.
pub fn split_at_space(line: &str) -> (r: (String, Option<String>))
    ensures
        r.0@ == head_of(line@),
        r.1.deep_view() == tail_of(line@),
{
    let chars = chars_of(line);
    let mut i: usize = 0;
    while i < chars.len() && chars[i] != ' '
        invariant
            i <= chars.len(),
            forall|k: int| 0 <= k < i ==> chars@[k] != ' ',
        decreases chars.len() - i,
    {
        i += 1;
    }
    proof {
        reach_is_first(chars@, ' ', i as int);
        assert(chars@.subrange(0, i as int) =~= chars@.take(i as int));
    }
    let head = text_of(&chars, 0, i);
    if i < chars.len() {
        let tail = text_of(&chars, i + 1, chars.len());
        assert(chars@.subrange(i + 1, chars.len() as int) =~= chars@.skip(i + 1));
        (head, Some(tail))
    } else {
        (head, None)
    }
}

} // verus!
