//! Operations on text that the rest of the crate is built from, each stated
//! over the sequence of characters that a string stands for.

use vstd::prelude::*;
use vstd::string::*;

verus! {

/// `p` is an initial segment of `s`.
pub open spec fn is_prefix(p: Seq<char>, s: Seq<char>) -> bool {
    p.len() <= s.len() && s.subrange(0, p.len() as int) == p
}

/// `p` is a final segment of `s`.
pub open spec fn is_suffix(p: Seq<char>, s: Seq<char>) -> bool {
    p.len() <= s.len() && s.subrange(s.len() - p.len(), s.len() as int) == p
}

/// What follows `p` in `s`, where `s` begins with `p`.
pub open spec fn after_prefix(p: Seq<char>, s: Seq<char>) -> Option<Seq<char>> {
    if is_prefix(p, s) {
        Some(s.subrange(p.len() as int, s.len() as int))
    } else {
        None
    }
}

/// The position of the first `c` in `s`, or the length of `s` if there is none.
pub open spec fn first_index_of<A>(s: Seq<A>, c: A) -> int
    decreases s.len(),
{
    if s.len() == 0 {
        0
    } else if s[0] == c {
        0
    } else {
        1 + first_index_of(s.drop_first(), c)
    }
}

/// `first_index_of` is within the sequence's bounds, nothing before it is
/// `c`, and what stands at it is `c`.
pub proof fn lemma_first_index_of<A>(s: Seq<A>, c: A)
    ensures
        0 <= first_index_of(s, c) <= s.len(),
        forall|i: int| 0 <= i < first_index_of(s, c) ==> s[i] != c,
        first_index_of(s, c) < s.len() ==> s[first_index_of(s, c)] == c,
    decreases s.len(),
{
    if s.len() > 0 && s[0] != c {
        let t = s.drop_first();
        lemma_first_index_of(t, c);
        assert forall|i: int| 0 <= i < first_index_of(s, c) implies s[i] != c by {
            if i > 0 {
                assert(s[i] == t[i - 1]);
            }
        }
    }
}

/// The characters of `s`, in order.
pub fn chars_of(s: &str) -> (v: Vec<char>)
    ensures
        v@ == s@,
{
    let mut v: Vec<char> = Vec::new();
    for c in it: s.chars()
        invariant
            it.seq() == s@,
            v@ == s@.take(it.index() as int),
    {
        v.push(c);
        assert(s@.take(it.index() + 1) == s@.take(it.index() as int).push(c));
    }
    assert(s@.take(s@.len() as int) == s@);
    v
}

/// Whether `a` and `b` hold the same characters.
pub fn same_text(a: &str, b: &str) -> (r: bool)
    ensures
        r == (a@ == b@),
{
    let x = chars_of(a);
    let y = chars_of(b);
    if x.len() != y.len() {
        return false;
    }
    let mut i: usize = 0;
    while i < x.len()
        invariant
            x@ == a@,
            y@ == b@,
            x.len() == y.len(),
            i <= x.len(),
            x@.subrange(0, i as int) == y@.subrange(0, i as int),
        decreases x.len() - i,
    {
        if x[i] != y[i] {
            assert(a@[i as int] != b@[i as int]);
            return false;
        }
        assert(x@.subrange(0, i + 1) == x@.subrange(0, i as int).push(x@[i as int]));
        assert(y@.subrange(0, i + 1) == y@.subrange(0, i as int).push(y@[i as int]));
        i = i + 1;
    }
    assert(x@.subrange(0, x.len() as int) == x@);
    assert(y@.subrange(0, y.len() as int) == y@);
    true
}

/// Whether `s` begins with `p`.
pub fn has_prefix(s: &str, p: &str) -> (r: bool)
    ensures
        r == is_prefix(p@, s@),
{
    let n = p.unicode_len();
    if s.unicode_len() < n {
        return false;
    }
    same_text(s.substring_char(0, n), p)
}

/// Whether `s` ends with `p`.
pub fn has_suffix(s: &str, p: &str) -> (r: bool)
    ensures
        r == is_suffix(p@, s@),
{
    let n = p.unicode_len();
    let m = s.unicode_len();
    if m < n {
        return false;
    }
    same_text(s.substring_char(m - n, m), p)
}

/// What follows `p` in `s`, if `s` begins with `p`.
pub fn strip_prefix<'a>(s: &'a str, p: &str) -> (r: Option<&'a str>)
    ensures
        match r {
            Some(rest) => after_prefix(p@, s@) == Some(rest@),
            None => after_prefix(p@, s@) is None,
        },
{
    if has_prefix(s, p) {
        Some(s.substring_char(p.unicode_len(), s.unicode_len()))
    } else {
        None
    }
}

/// What follows the first `from` characters of `s`.
pub fn text_from(s: &str, from: usize) -> (r: &str)
    requires
        from <= s@.len(),
    ensures
        r@ == s@.subrange(from as int, s@.len() as int),
{
    s.substring_char(from, s.unicode_len())
}

/// The position of the first `c` in `s`, if `c` occurs in it.
pub fn find_char(s: &str, c: char) -> (r: Option<usize>)
    ensures
        match r {
            Some(i) => i == first_index_of(s@, c) && i < s@.len(),
            None => first_index_of(s@, c) == s@.len(),
        },
{
    let v = chars_of(s);
    proof {
        lemma_first_index_of(s@, c);
    }
    let mut i: usize = 0;
    while i < v.len()
        invariant
            v@ == s@,
            i <= v.len(),
            forall|j: int| 0 <= j < i ==> v@[j] != c,
            0 <= first_index_of(s@, c) <= s@.len(),
            forall|j: int| 0 <= j < first_index_of(s@, c) ==> s@[j] != c,
            first_index_of(s@, c) < s@.len() ==> s@[first_index_of(s@, c)] == c,
        decreases v.len() - i,
    {
        if v[i] == c {
            return Some(i);
        }
        i = i + 1;
    }
    None
}

/// Whether `c` is white space: one of the characters that have the Unicode
/// property White_Space. These are tab to carriage return, the space, next
/// line, the no-break space, the Ogham space mark, the spaces from en quad
/// to hair space, the line and the paragraph separator, the narrow no-break
/// space, the medium mathematical space and the ideographic space.
pub open spec fn whitespace(c: char) -> bool {
    ||| 0x09 <= c as u32 <= 0x0D
    ||| c == ' '
    ||| c == '\u{85}'
    ||| c == '\u{A0}'
    ||| c == '\u{1680}'
    ||| 0x2000 <= c as u32 <= 0x200A
    ||| c == '\u{2028}'
    ||| c == '\u{2029}'
    ||| c == '\u{202F}'
    ||| c == '\u{205F}'
    ||| c == '\u{3000}'
}

/// `char::is_whitespace`: whether `c` has the Unicode property White_Space,
/// which is the list of characters that [`whitespace`] writes out.
#[verifier::external_body]
fn is_whitespace(c: char) -> (r: bool)
    ensures
        r == whitespace(c),
{
    c.is_whitespace()
}

/// The lower-case form of `s`, in the sense of `str::to_lowercase`.
pub uninterp spec fn lowercase(s: Seq<char>) -> Seq<char>;

/// `str::to_lowercase`: each character of `s` replaced by its lower-case
/// form as Unicode defines it.
#[verifier::external_body]
pub(crate) fn to_lowercase(s: &str) -> (r: String)
    ensures
        r@ == lowercase(s@),
{
    s.to_lowercase()
}

/// `s` without the white space that it begins with.
pub open spec fn trim_start_of(s: Seq<char>) -> Seq<char>
    decreases s.len(),
{
    if s.len() > 0 && whitespace(s[0]) {
        trim_start_of(s.drop_first())
    } else {
        s
    }
}

/// `s` without the white space that it ends with.
pub open spec fn trim_end_of(s: Seq<char>) -> Seq<char>
    decreases s.len(),
{
    if s.len() > 0 && whitespace(s.last()) {
        trim_end_of(s.drop_last())
    } else {
        s
    }
}

/// `s` without the white space around it.
pub open spec fn trim_of(s: Seq<char>) -> Seq<char> {
    trim_end_of(trim_start_of(s))
}

/// `s` without the white space that it begins with.
pub fn trim_start(s: &str) -> (r: &str)
    ensures
        r@ == trim_start_of(s@),
{
    let v = chars_of(s);
    let mut i: usize = 0;
    assert(s@.skip(0) == s@);
    while i < v.len() && is_whitespace(v[i])
        invariant
            v@ == s@,
            i <= v.len(),
            trim_start_of(s@) == trim_start_of(s@.skip(i as int)),
        decreases v.len() - i,
    {
        assert(s@.skip(i as int).drop_first() == s@.skip(i + 1));
        assert(s@.skip(i as int)[0] == s@[i as int]);
        i = i + 1;
    }
    proof {
        if i < v.len() {
            assert(s@.skip(i as int)[0] == s@[i as int]);
        }
        assert(s@.skip(i as int) == s@.subrange(i as int, s@.len() as int));
    }
    s.substring_char(i, v.len())
}

/// `s` without the white space that it ends with.
pub fn trim_end(s: &str) -> (r: &str)
    ensures
        r@ == trim_end_of(s@),
{
    let v = chars_of(s);
    let mut n: usize = v.len();
    assert(s@.take(n as int) == s@);
    while n > 0 && is_whitespace(v[n - 1])
        invariant
            v@ == s@,
            n <= v.len(),
            trim_end_of(s@) == trim_end_of(s@.take(n as int)),
        decreases n,
    {
        assert(s@.take(n as int).drop_last() == s@.take(n - 1));
        assert(s@.take(n as int).last() == s@[n - 1]);
        n = n - 1;
    }
    proof {
        if n > 0 {
            assert(s@.take(n as int).last() == s@[n - 1]);
        }
        assert(s@.take(n as int) == s@.subrange(0, n as int));
    }
    s.substring_char(0, n)
}

/// `s` without the white space around it.
pub fn trim(s: &str) -> (r: &str)
    ensures
        r@ == trim_of(s@),
{
    trim_end(trim_start(s))
}

/// `acc`, then the lines of `s`, where `line` is what was read of the line
/// at hand. A line ends at a line feed; a carriage return before the line
/// feed is not part of the line; what follows the last line feed is a line
/// if it is not empty.
pub open spec fn lines_from(s: Seq<char>, line: Seq<char>, acc: Seq<Seq<char>>) -> Seq<Seq<char>>
    decreases s.len(),
{
    if s.len() == 0 {
        if line.len() == 0 {
            acc
        } else {
            acc.push(line)
        }
    } else if s[0] == '\n' {
        let whole = if line.len() > 0 && line.last() == '\r' {
            line.drop_last()
        } else {
            line
        };
        lines_from(s.drop_first(), Seq::empty(), acc.push(whole))
    } else {
        lines_from(s.drop_first(), line.push(s[0]), acc)
    }
}

/// The lines of `s`.
pub open spec fn lines_of(s: Seq<char>) -> Seq<Seq<char>> {
    lines_from(s, Seq::empty(), Seq::empty())
}

/// The lines of `s`, each as the characters that it holds.
pub fn split_lines(s: &str) -> (lines: Vec<Vec<char>>)
    ensures
        lines@.len() == lines_of(s@).len(),
        forall|i: int| 0 <= i < lines@.len() ==> (#[trigger] lines@[i])@ == lines_of(s@)[i],
{
    let v = chars_of(s);
    let mut lines: Vec<Vec<char>> = Vec::new();
    let mut line: Vec<char> = Vec::new();
    let mut i: usize = 0;
    let ghost mut done: Seq<Seq<char>> = Seq::empty();
    assert(s@.skip(0) == s@);
    while i < v.len()
        invariant
            v@ == s@,
            i <= v.len(),
            lines@.len() == done.len(),
            forall|j: int| 0 <= j < lines@.len() ==> (#[trigger] lines@[j])@ == done[j],
            lines_of(s@) == lines_from(s@.skip(i as int), line@, done),
        decreases v.len() - i,
    {
        proof {
            assert(s@.skip(i as int).drop_first() == s@.skip(i + 1));
            assert(s@.skip(i as int)[0] == s@[i as int]);
        }
        let c = v[i];
        if c == '\n' {
            if line.len() > 0 && line[line.len() - 1] == '\r' {
                line.pop();
            }
            proof {
                done = done.push(line@);
            }
            lines.push(line);
            line = Vec::new();
        } else {
            line.push(c);
        }
        i = i + 1;
    }
    if line.len() > 0 {
        proof {
            done = done.push(line@);
        }
        lines.push(line);
    }
    lines
}

/// The characters `chars` as a string.
pub fn text_of(chars: &Vec<char>) -> (s: String)
    ensures
        s@ == chars@,
{
    let mut s = String::new();
    let mut i: usize = 0;
    while i < chars.len()
        invariant
            i <= chars@.len(),
            s@ == chars@.take(i as int),
        decreases chars@.len() - i,
    {
        push_char(&mut s, chars[i]);
        assert(chars@.take(i + 1) == chars@.take(i as int).push(chars@[i as int]));
        i = i + 1;
    }
    assert(chars@.take(chars@.len() as int) == chars@);
    s
}

/// `String::push`: `c` after what `s` holds.
#[verifier::external_body]
fn push_char(s: &mut String, c: char)
    ensures
        final(s)@ == old(s)@.push(c),
{
    s.push(c)
}

} // verus!
