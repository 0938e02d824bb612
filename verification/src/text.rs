//! Text helpers: comparison, trimming, splitting, joining and decimal digits.
use vstd::prelude::*;
use vstd::string::*;

verus! {

/// `String::push` appends the given character to the end of the string.
pub assume_specification[ String::push ](s: &mut String, c: char)
    ensures
        final(s)@ == old(s)@.push(c),
;

/// The characters with the Unicode property `White_Space`.
pub open spec fn white_space(c: char) -> bool {
    ||| '\u{9}' <= c <= '\u{d}'
    ||| c == '\u{20}'
    ||| c == '\u{85}'
    ||| c == '\u{a0}'
    ||| c == '\u{1680}'
    ||| '\u{2000}' <= c <= '\u{200a}'
    ||| c == '\u{2028}'
    ||| c == '\u{2029}'
    ||| c == '\u{202f}'
    ||| c == '\u{205f}'
    ||| c == '\u{3000}'
}

/// `char::is_whitespace` tells whether the character has the Unicode property `White_Space`.
pub assume_specification[ char::is_whitespace ](c: char) -> (r: bool)
    ensures
        r == white_space(c),
;

/// The characters of `s`, one by one.
pub fn chars_of(s: &str) -> (v: Vec<char>)
    ensures
        v@ == s@,
{
    let mut v: Vec<char> = Vec::new();
    for c in it: s.chars()
        invariant
            v@ == it.seq().take(it.index()),
    {
        v.push(c);
    }
    v
}

/// The string made of the given characters.
pub fn string_of(v: &[char]) -> (s: String)
    ensures
        s@ == v@,
{
    let mut s = String::new();
    let mut i: usize = 0;
    while i < v.len()
        invariant
            i <= v@.len(),
            s@ == v@.take(i as int),
        decreases v@.len() - i,
    {
        s.push(v[i]);
        i += 1;
        assert(v@.take(i as int) == v@.take(i - 1).push(v@[i - 1]));
    }
    assert(v@.take(i as int) == v@);
    s
}

/// Whether two strings hold the same characters.
pub fn same(a: &str, b: &str) -> (r: bool)
    ensures
        r == (a@ == b@),
{
    let x = chars_of(a);
    let y = chars_of(b);
    if x.len() != y.len() {
        return false;
    }
    let mut i: usize = 0;
    while i < x.len()
        invariant
            i <= x@.len(),
            x@.len() == y@.len(),
            x@ == a@,
            y@ == b@,
            x@.take(i as int) == y@.take(i as int),
        decreases x@.len() - i,
    {
        if x[i] != y[i] {
            return false;
        }
        i += 1;
        assert(x@.take(i as int) == x@.take(i - 1).push(x@[i - 1]));
        assert(y@.take(i as int) == y@.take(i - 1).push(y@[i - 1]));
    }
    assert(x@.take(i as int) == x@);
    assert(y@.take(i as int) == y@);
    true
}

/// Whether `text` begins with `prefix`.
pub fn begins_with(text: &str, prefix: &str) -> (r: bool)
    ensures
        r == prefix@.is_prefix_of(text@),
{
    let x = chars_of(text);
    let y = chars_of(prefix);
    if y.len() > x.len() {
        return false;
    }
    let mut i: usize = 0;
    while i < y.len()
        invariant
            i <= y@.len() <= x@.len(),
            x@ == text@,
            y@ == prefix@,
            forall|j: int| 0 <= j < i ==> x@[j] == y@[j],
        decreases y@.len() - i,
    {
        if x[i] != y[i] {
            assert(x@.subrange(0, y@.len() as int)[i as int] == x@[i as int]);
            return false;
        }
        i += 1;
    }
    assert(x@.subrange(0, y@.len() as int) =~= y@);
    true
}

/// `s` without its trailing white space.
pub open spec fn trimmed_end(s: Seq<char>) -> Seq<char>
    decreases s.len(),
{
    if s.len() > 0 && white_space(s.last()) {
        trimmed_end(s.drop_last())
    } else {
        s
    }
}

/// Removes trailing white space.
pub fn trim_end(s: &str) -> (r: String)
    ensures
        r@ == trimmed_end(s@),
{
    let v = chars_of(s);
    let mut n: usize = v.len();
    assert(v@.take(n as int) == v@);
    while n > 0 && v[n - 1].is_whitespace()
        invariant
            n <= v@.len(),
            v@ == s@,
            trimmed_end(v@) == trimmed_end(v@.take(n as int)),
        decreases n,
    {
        assert(v@.take(n as int).drop_last() == v@.take(n - 1));
        n -= 1;
    }
    let slice = vstd::slice::slice_subrange(v.as_slice(), 0, n);
    assert(slice@ == v@.take(n as int));
    string_of(slice)
}

/// The characters of each string, in order.
pub open spec fn texts(v: Seq<String>) -> Seq<Seq<char>> {
    v.map_values(|s: String| s@)
}

/// The lines, one after the other, with `sep` between every two neighbours.
pub open spec fn joined(lines: Seq<Seq<char>>, sep: Seq<char>) -> Seq<char>
    decreases lines.len(),
{
    if lines.len() == 0 {
        Seq::empty()
    } else if lines.len() == 1 {
        lines[0]
    } else {
        joined(lines.drop_last(), sep) + sep + lines.last()
    }
}

/// Joins the lines with `sep` between every two neighbours.
pub fn join(lines: &Vec<String>, sep: &str) -> (r: String)
    ensures
        r@ == joined(texts(lines@), sep@),
{
    let mut r = String::new();
    let mut i: usize = 0;
    assert(texts(lines@).take(0) == Seq::<Seq<char>>::empty());
    while i < lines.len()
        invariant
            i <= lines@.len(),
            r@ == joined(texts(lines@).take(i as int), sep@),
        decreases lines@.len() - i,
    {
        if i > 0 {
            r.append(sep);
        }
        r.append(lines[i].as_str());
        i += 1;
        assert(texts(lines@).take(i as int).drop_last() == texts(lines@).take(i - 1));
    }
    assert(texts(lines@).take(i as int) == texts(lines@));
    r
}

/// `s` cut at every line feed: one piece more than there are line feeds.
pub open spec fn pieces(s: Seq<char>) -> Seq<Seq<char>>
    decreases s.len(),
{
    if s.len() == 0 {
        seq![Seq::empty()]
    } else {
        let before = pieces(s.drop_last());
        if s.last() == '\n' {
            before.push(Seq::empty())
        } else {
            before.update(before.len() - 1, before.last().push(s.last()))
        }
    }
}

/// The decimal digits of `n`, most significant first.
pub open spec fn digits(n: nat) -> Seq<u8>
    decreases n,
{
    if n < 10 {
        seq![(48 + n) as u8]
    } else {
        digits(n / 10).push((48 + n % 10) as u8)
    }
}

/// The decimal digits of `n` as characters.
pub open spec fn decimal(n: nat) -> Seq<char> {
    digits(n).map_values(|b: u8| b as char)
}

/// The decimal digits of `n` as ASCII bytes.
pub fn decimal_bytes(n: u64) -> (r: Vec<u8>)
    ensures
        r@ == digits(n as nat),
    decreases n,
{
    if n < 10 {
        let mut r: Vec<u8> = Vec::new();
        r.push(48 + n as u8);
        r
    } else {
        let mut r = decimal_bytes(n / 10);
        r.push(48 + (n % 10) as u8);
        r
    }
}

/// The decimal digits of `n` as text.
pub fn decimal_string(n: u64) -> (r: String)
    ensures
        r@ == decimal(n as nat),
{
    let bytes = decimal_bytes(n);
    let mut r = String::new();
    let mut i: usize = 0;
    while i < bytes.len()
        invariant
            i <= bytes@.len(),
            r@ == decimal(n as nat).take(i as int),
            bytes@ == digits(n as nat),
        decreases bytes@.len() - i,
    {
        r.push(bytes[i] as char);
        i += 1;
        assert(decimal(n as nat).take(i as int) == decimal(n as nat).take(i - 1).push(
            decimal(n as nat)[i - 1],
        ));
    }
    assert(decimal(n as nat).take(i as int) == decimal(n as nat));
    r
}

/// Trimming takes white space off the end and nothing else: what is left is how the text begins and
/// does not end in white space, and what is gone is white space.
pub proof fn law_trimming_takes_white_space_off_the_end(s: Seq<char>)
    ensures
        ({
            let kept = trimmed_end(s);
            &&& kept.is_prefix_of(s)
            &&& kept.len() > 0 ==> !white_space(kept.last())
            &&& forall|i: int| kept.len() <= i < s.len() ==> white_space(#[trigger] s[i])
        }),
    decreases s.len(),
{
    if s.len() > 0 && white_space(s.last()) {
        law_trimming_takes_white_space_off_the_end(s.drop_last());
        let kept = trimmed_end(s);
        assert(kept == s.drop_last().take(kept.len() as int));
        assert(kept =~= s.take(kept.len() as int));
        assert forall|i: int| kept.len() <= i < s.len() implies white_space(#[trigger] s[i]) by {
            if i < s.len() - 1 {
                assert(s.drop_last()[i] == s[i]);
            }
        }
    } else {
        assert(s =~= s.take(s.len() as int));
    }
}

/// No line is joined to nothing, one line to itself, and of more the separator stands between the
/// last and what stands before it.
pub proof fn law_joining_puts_separators_between(lines: Seq<Seq<char>>, line: Seq<char>, sep: Seq<char>)
    ensures
        joined(Seq::<Seq<char>>::empty(), sep) == Seq::<char>::empty(),
        joined(seq![line], sep) == line,
        lines.len() > 0 ==> joined(lines.push(line), sep) == joined(lines, sep) + sep + line,
{
    assert(lines.push(line).drop_last() =~= lines);
}

/// A text that is cut at its line feeds and joined by line feeds is what it was, and no piece of it
/// holds one.
pub proof fn law_pieces_are_what_was_joined(s: Seq<char>)
    ensures
        pieces(s).len() > 0,
        joined(pieces(s), seq!['\n']) == s,
        forall|i: int| 0 <= i < pieces(s).len() ==> !(#[trigger] pieces(s)[i]).contains('\n'),
    decreases s.len(),
{
    if s.len() == 0 {
        assert(pieces(s)[0] =~= s);
    } else {
        let before = s.drop_last();
        law_pieces_are_what_was_joined(before);
        let (earlier, all) = (pieces(before), pieces(s));
        assert(before.push(s.last()) =~= s);
        if s.last() == '\n' {
            assert(all.drop_last() =~= earlier);
            assert(joined(all, seq!['\n']) =~= s);
        } else {
            let line = earlier.last().push(s.last());
            assert(all.last() == line);
            assert(all.drop_last() =~= earlier.drop_last());
            assert(joined(all, seq!['\n']) =~= s);
            assert forall|i: int| 0 <= i < all.len() implies !(#[trigger] all[i]).contains('\n') by {
                if i < all.len() - 1 {
                    assert(all[i] == earlier[i]);
                } else {
                    assert(!earlier.last().contains('\n'));
                    if line.contains('\n') {
                        let k = choose|k: int| 0 <= k < line.len() && line[k] == '\n';
                        assert(earlier.last()[k] == '\n');
                    }
                }
            }
        }
    }
}

/// The number that ASCII digits stand for.
pub open spec fn value_of(ascii: Seq<u8>) -> int
    decreases ascii.len(),
{
    if ascii.len() == 0 {
        0
    } else {
        10 * value_of(ascii.drop_last()) + (ascii.last() - 0x30)
    }
}

/// The digits of a number are the ASCII digits `0` to `9`, stand for the number, and do not begin
/// with `0` unless it is zero.
pub proof fn law_digits_stand_for_their_number(n: nat)
    ensures
        digits(n).len() > 0,
        value_of(digits(n)) == n,
        forall|i: int| 0 <= i < digits(n).len() ==> 0x30 <= #[trigger] digits(n)[i] <= 0x39,
        digits(n)[0] == 0x30 ==> n == 0,
        decimal(n).len() == digits(n).len(),
        forall|i: int|
            0 <= i < digits(n).len() ==> #[trigger] decimal(n)[i] as int == digits(n)[i] as int,
    decreases n,
{
    let all = digits(n);
    if n < 10 {
        assert(all.drop_last() =~= Seq::<u8>::empty());
        assert(value_of(Seq::<u8>::empty()) == 0);
        assert(all.last() == 0x30 + n);
    } else {
        law_digits_stand_for_their_number(n / 10);
        assert(all.drop_last() =~= digits(n / 10));
        assert(all[0] == digits(n / 10)[0]);
    }
}

} // verus!
