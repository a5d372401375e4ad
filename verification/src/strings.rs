//! Conversions between `String` and `Vec<char>`, the whitespace predicate,
//! and title normalization (newlines become spaces, surrounding whitespace is
//! trimmed).

use vstd::prelude::*;
use vstd::string::StrSliceExecFns;

verus! {

/// Relies on `String::push`, which vstd leaves unspecified: it appends the
/// given character to the end of the string.
pub assume_specification [ String::push ](s: &mut String, c: char)
    ensures
        final(s)@ == old(s)@.push(c),
;

/// The characters of a string slice, in order, as a vector.
pub fn string_to_chars(s: &str) -> (r: Vec<char>)
    ensures
        r@ == s@,
{
    let n = s.unicode_len();
    let mut r: Vec<char> = Vec::new();
    let mut i: usize = 0;
    proof {
        assert(r@ =~= s@.take(0));
    }
    while i < n
        invariant
            i <= n,
            n == s@.len(),
            r@ == s@.take(i as int),
        decreases n - i,
    {
        r.push(s.get_char(i));
        proof {
            assert(r@ =~= s@.take(i as int + 1));
        }
        i += 1;
    }
    proof {
        assert(s@.take(n as int) =~= s@);
    }
    r
}

/// A string holding exactly the given characters, in order.
pub fn chars_to_string(v: &Vec<char>) -> (r: String)
    ensures
        r@ == v@,
{
    let mut r = String::new();
    let mut i: usize = 0;
    proof {
        assert(r@ =~= v@.take(0));
    }
    while i < v.len()
        invariant
            i <= v.len(),
            r@ == v@.take(i as int),
        decreases v.len() - i,
    {
        r.push(v[i]);
        proof {
            assert(v@.take(i as int).push(v@[i as int]) =~= v@.take(i as int + 1));
        }
        i += 1;
    }
    proof {
        assert(v@.take(v@.len() as int) =~= v@);
    }
    r
}

/// The Unicode White_Space property, the set of characters that `str::trim`
/// strips: the ASCII whitespace controls and space, next line, no-break
/// space, ogham space mark, the en-quad..hair-space range, the line and
/// paragraph separators, the narrow no-break space, the medium mathematical
/// space and the ideographic space.
pub open spec fn is_ws(c: char) -> bool {
    c == ' ' || c == '\t' || c == '\n' || c == '\r' || c == '\u{0B}' || c == '\u{0C}' || c
        == '\u{85}' || c == '\u{A0}' || c == '\u{1680}' || ('\u{2000}' <= c && c <= '\u{200A}') || c
        == '\u{2028}' || c == '\u{2029}' || c == '\u{202F}' || c == '\u{205F}' || c == '\u{3000}'
}

/// Executable form of [`is_ws`].
pub fn is_whitespace_char(c: char) -> (r: bool)
    ensures
        r == is_ws(c),
{
    c == ' ' || c == '\t' || c == '\n' || c == '\r' || c == '\u{0B}' || c == '\u{0C}' || c
        == '\u{85}' || c == '\u{A0}' || c == '\u{1680}' || ('\u{2000}' <= c && c <= '\u{200A}') || c
        == '\u{2028}' || c == '\u{2029}' || c == '\u{202F}' || c == '\u{205F}' || c == '\u{3000}'
}

/// Every newline replaced by a space; all other characters unchanged.
pub open spec fn replace_nl(t: Seq<char>) -> Seq<char> {
    t.map_values(|c: char| if c == '\n' { ' ' } else { c })
}

/// The sequence with its leading whitespace removed.
pub open spec fn trim_front(t: Seq<char>) -> Seq<char>
    decreases t.len(),
{
    if t.len() > 0 && is_ws(t[0]) {
        trim_front(t.drop_first())
    } else {
        t
    }
}

/// The sequence with its trailing whitespace removed.
pub open spec fn trim_back(t: Seq<char>) -> Seq<char>
    decreases t.len(),
{
    if t.len() > 0 && is_ws(t.last()) {
        trim_back(t.drop_last())
    } else {
        t
    }
}

/// A title buffer as it is committed: newlines become spaces (a title stays
/// a single display line) and surrounding whitespace is trimmed away.
pub open spec fn norm_title(t: Seq<char>) -> Seq<char> {
    trim_back(trim_front(replace_nl(t)))
}

proof fn lemma_trim_front_skip(t: Seq<char>, a: int)
    requires
        0 <= a <= t.len(),
        forall|k: int| 0 <= k < a ==> is_ws(t[k]),
        a == t.len() || !is_ws(t[a]),
    ensures
        trim_front(t) == t.skip(a),
    decreases a,
{
    if a == 0 {
        assert(t.skip(0) =~= t);
    } else {
        assert(is_ws(t[0]));
        lemma_trim_front_skip(t.drop_first(), a - 1);
        assert(t.drop_first().skip(a - 1) =~= t.skip(a));
    }
}

proof fn lemma_trim_back_take(t: Seq<char>, b: int)
    requires
        0 <= b <= t.len(),
        forall|k: int| b <= k < t.len() ==> is_ws(t[k]),
        b == 0 || !is_ws(t[b - 1]),
    ensures
        trim_back(t) == t.take(b),
    decreases t.len(),
{
    if b == t.len() {
        assert(t.take(b) =~= t);
    } else {
        assert(is_ws(t.last()));
        lemma_trim_back_take(t.drop_last(), b);
        assert(t.drop_last().take(b) =~= t.take(b));
    }
}

/// The committed form of a title buffer: newlines replaced by spaces, then
/// leading and trailing whitespace trimmed.
pub fn normalize_title(chars: &Vec<char>) -> (r: Vec<char>)
    ensures
        r@ == norm_title(chars@),
{
    let mut rep: Vec<char> = Vec::new();
    let mut i: usize = 0;
    while i < chars.len()
        invariant
            i <= chars.len(),
            rep@.len() == i,
            forall|k: int|
                0 <= k < i ==> rep@[k] == (if chars@[k] == '\n' {
                    ' '
                } else {
                    chars@[k]
                }),
        decreases chars.len() - i,
    {
        let c = chars[i];
        if c == '\n' {
            rep.push(' ');
        } else {
            rep.push(c);
        }
        i += 1;
    }
    proof {
        assert(rep@ =~= replace_nl(chars@));
    }
    let n = rep.len();
    let mut a: usize = 0;
    while a < n && is_whitespace_char(rep[a])
        invariant
            a <= n,
            n == rep@.len(),
            forall|k: int| 0 <= k < a ==> is_ws(rep@[k]),
        decreases n - a,
    {
        a += 1;
    }
    let mut b: usize = n;
    while b > a && is_whitespace_char(rep[b - 1])
        invariant
            a <= b <= n,
            n == rep@.len(),
            forall|k: int| b <= k < n ==> is_ws(rep@[k]),
        decreases b,
    {
        b -= 1;
    }
    proof {
        lemma_trim_front_skip(rep@, a as int);
        lemma_trim_back_take(rep@.skip(a as int), b - a);
    }
    let mut r: Vec<char> = Vec::new();
    let mut j: usize = a;
    while j < b
        invariant
            a <= j <= b <= n,
            n == rep@.len(),
            r@ == rep@.subrange(a as int, j as int),
        decreases b - j,
    {
        r.push(rep[j]);
        proof {
            assert(r@ =~= rep@.subrange(a as int, j as int + 1));
        }
        j += 1;
    }
    proof {
        assert(r@ =~= rep@.skip(a as int).take(b - a));
    }
    r
}

} // verus!
