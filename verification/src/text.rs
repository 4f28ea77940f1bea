//! Character-level helpers: Unicode whitespace, trimming and the front-matter
//! delimiter test.

use vstd::prelude::*;
use vstd::std_specs::iter::IteratorSpec;

verus! {

/// A sequence of strings as sequences of characters.
pub open spec fn strings_view(strings: Seq<String>) -> Seq<Seq<char>> {
    strings.map_values(|text: String| text@)
}

/// Whether `c` has the Unicode `White_Space` property.
pub open spec fn is_whitespace(c: char) -> bool {
    let u = c as u32;
    ||| 0x09 <= u <= 0x0D
    ||| u == 0x20
    ||| u == 0x85
    ||| u == 0xA0
    ||| u == 0x1680
    ||| 0x2000 <= u <= 0x200A
    ||| u == 0x2028
    ||| u == 0x2029
    ||| u == 0x202F
    ||| u == 0x205F
    ||| u == 0x3000
}

/// `s` without its leading whitespace.
pub open spec fn trim_start(s: Seq<char>) -> Seq<char>
    decreases s.len(),
{
    if s.len() > 0 && is_whitespace(s[0]) {
        trim_start(s.drop_first())
    } else {
        s
    }
}

/// `s` without its trailing whitespace.
pub open spec fn trim_end(s: Seq<char>) -> Seq<char>
    decreases s.len(),
{
    if s.len() > 0 && is_whitespace(s.last()) {
        trim_end(s.drop_last())
    } else {
        s
    }
}

/// `s` without leading and trailing whitespace.
pub open spec fn trimmed(s: Seq<char>) -> Seq<char> {
    trim_end(trim_start(s))
}

/// The three-character front-matter delimiter.
pub open spec fn delimiter() -> Seq<char> {
    seq!['-', '-', '-']
}

/// A line is a delimiter line when, once trimmed, it is exactly `---`.
pub open spec fn is_delimiter_line(line: Seq<char>) -> bool {
    trimmed(line) == delimiter()
}

/// What position `j` of a delimiter line must hold once the leading
/// whitespace is gone: a dash in the first three places, whitespace after.
pub open spec fn fits_delimiter(c: char, j: int) -> bool {
    if j < 3 {
        c == '-'
    } else {
        is_whitespace(c)
    }
}

/// Every element of `s` fits the delimiter shape at its position.
pub open spec fn fits_delimiter_so_far(s: Seq<char>) -> bool {
    forall|j: int| 0 <= j < s.len() ==> fits_delimiter(#[trigger] s[j], j)
}

/// Three dashes followed by nothing but whitespace.
pub open spec fn dashes_then_whitespace(s: Seq<char>) -> bool {
    s.len() >= 3 && fits_delimiter_so_far(s)
}

/// Trailing whitespace does not change what `trim_end` leaves.
proof fn lemma_trim_end_shape(s: Seq<char>)
    ensures
        trim_end(s).len() <= s.len(),
        trim_end(s) == s.subrange(0, trim_end(s).len() as int),
        forall|j: int| trim_end(s).len() <= j < s.len() ==> is_whitespace(#[trigger] s[j]),
        trim_end(s).len() > 0 ==> !is_whitespace(trim_end(s).last()),
    decreases s.len(),
{
    if s.len() > 0 && is_whitespace(s.last()) {
        let t = s.drop_last();
        lemma_trim_end_shape(t);
        assert forall|j: int| trim_end(s).len() <= j < s.len() implies is_whitespace(
            #[trigger] s[j],
        ) by {
            if j < t.len() {
                assert(t[j] == s[j]);
            }
        }
    }
}

/// A sequence that ends in whitespace only from index `n` on, and whose
/// element before `n` is no whitespace, trims to its first `n` elements.
proof fn lemma_trim_end_of_padded(s: Seq<char>, n: int)
    requires
        0 <= n <= s.len(),
        forall|j: int| n <= j < s.len() ==> is_whitespace(#[trigger] s[j]),
        n > 0 ==> !is_whitespace(s[n - 1]),
    ensures
        trim_end(s) == s.subrange(0, n),
    decreases s.len() - n,
{
    if n < s.len() {
        lemma_trim_end_of_padded(s.drop_last(), n);
    }
}

/// What is left after the leading whitespace is a delimiter line exactly when
/// it is three dashes and then whitespace.
pub proof fn lemma_delimiter_shape(s: Seq<char>)
    ensures
        (trim_end(s) == delimiter()) <==> dashes_then_whitespace(s),
{
    lemma_trim_end_shape(s);
    if dashes_then_whitespace(s) {
        lemma_trim_end_of_padded(s, 3);
        assert(s.subrange(0, 3) =~= delimiter());
    }
}

/// Tests whether `c` is Unicode whitespace.
pub fn char_is_whitespace(c: char) -> (b: bool)
    ensures
        b == is_whitespace(c),
{
    let u: u32 = c as u32;
    (0x09 <= u && u <= 0x0D) || u == 0x20 || u == 0x85 || u == 0xA0 || u == 0x1680 || (0x2000 <= u
        && u <= 0x200A) || u == 0x2028 || u == 0x2029 || u == 0x202F || u == 0x205F || u == 0x3000
}

/// Tests whether a line, once trimmed, is exactly `---`.
pub fn is_delimiter(line: &str) -> (b: bool)
    ensures
        b == is_delimiter_line(line@),
{
    broadcast use vstd::string::group_string_axioms;

    let mut it = line.chars();
    let ghost mut rest: Seq<char> = line@;
    let mut first: Option<char> = None;
    // Skip the leading whitespace and keep the first character behind it.
    loop
        invariant_except_break
            it.remaining() == rest,
            first is None,
            trim_start(line@) == trim_start(rest),
        invariant
            it.obeys_prophetic_iter_laws(),
            it.decrease() is Some,
        ensures
            it.obeys_prophetic_iter_laws(),
            it.decrease() is Some,
            match first {
                Some(c) => !is_whitespace(c) && trim_start(line@) == seq![c] + it.remaining(),
                None => trim_start(line@).len() == 0,
            },
        decreases it.decrease()->0,
    {
        match it.next() {
            None => {
                break ;
            },
            Some(c) => {
                if !char_is_whitespace(c) {
                    first = Some(c);
                    break ;
                }
                proof {
                    rest = rest.drop_first();
                }
            },
        }
    }
    let head = match first {
        None => return false,
        Some(c) => c,
    };
    let ghost body = trim_start(line@);
    let ghost mut seen: Seq<char> = seq![head];
    let mut count: usize = 1;
    let mut ok = head == '-';
    proof {
        lemma_delimiter_shape(body);
        assert(ok <==> fits_delimiter(seen[0], 0));
    }
    // The rest must be two more dashes and then whitespace only.
    loop
        invariant
            it.obeys_prophetic_iter_laws(),
            it.decrease() is Some,
            body == seen + it.remaining(),
            seen.len() >= 1,
            count == if seen.len() < 3 { seen.len() } else { 3 },
            ok <==> fits_delimiter_so_far(seen),
        ensures
            ok && count == 3 <==> dashes_then_whitespace(body),
        decreases it.decrease()->0,
    {
        if !ok {
            proof {
                let j = choose|j: int| 0 <= j < seen.len() && !fits_delimiter(#[trigger] seen[j], j);
                assert(body[j] == seen[j]);
            }
            break ;
        }
        match it.next() {
            None => {
                break ;
            },
            Some(c) => {
                if count < 3 {
                    ok = c == '-';
                    count = count + 1;
                } else {
                    ok = char_is_whitespace(c);
                }
                proof {
                    seen = seen.push(c);
                    assert(seen.last() == c);
                }
            },
        }
    }
    ok && count == 3
}

/// Tests whether two strings hold the same characters.
pub fn str_equal(a: &str, b: &str) -> (same: bool)
    ensures
        same == (a@ == b@),
{
    broadcast use vstd::string::group_string_axioms;

    let mut left = a.chars();
    let mut right = b.chars();
    let ghost mut seen: Seq<char> = Seq::empty();
    loop
        invariant
            left.obeys_prophetic_iter_laws(),
            right.obeys_prophetic_iter_laws(),
            left.decrease() is Some,
            a@ == seen + left.remaining(),
            b@ == seen + right.remaining(),
        decreases left.decrease()->0,
    {
        let x = left.next();
        let y = right.next();
        match (x, y) {
            (None, None) => return true,
            (Some(c), Some(d)) => {
                if c != d {
                    assert(b@[seen.len() as int] == d);
                    return false;
                }
                proof {
                    seen = seen.push(c);
                }
            },
            _ => return false,
        }
    }
}

} // verus!
