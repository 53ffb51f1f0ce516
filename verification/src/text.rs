//! Text helpers shared by the other modules: character access,
//! normalisation of free text for comparison, substring search and
//! decimal rendering.

use vstd::prelude::*;

verus! {

/// The lower-case form of a text, as `str::to_lowercase` produces it.
pub uninterp spec fn lowercase_of(s: Seq<char>) -> Seq<char>;

/// Whether a character is a letter or a digit, as
/// `char::is_alphanumeric` decides it.
pub uninterp spec fn alphanumeric(c: char) -> bool;

/// Whether a character is white space, as `char::is_whitespace`
/// decides it.
pub uninterp spec fn whitespace(c: char) -> bool;

/// `str::to_lowercase`: the result is a function of the text alone; it
/// is known here only under the name [`lowercase_of`].
pub assume_specification[ str::to_lowercase ](s: &str) -> (r: String)
    ensures
        r@ == lowercase_of(s@),
;

/// `char::is_alphanumeric`: the answer is a function of the character
/// alone; it is known here only under the name [`alphanumeric`].
pub assume_specification[ char::is_alphanumeric ](c: char) -> (r: bool)
    ensures
        r == alphanumeric(c),
;

/// `char::is_whitespace`: the answer is a function of the character
/// alone; it is known here only under the name [`whitespace`].
pub assume_specification[ char::is_whitespace ](c: char) -> (r: bool)
    ensures
        r == whitespace(c),
;

/// `String::push`: appends one character.
pub assume_specification[ String::push ](s: &mut String, c: char)
    ensures
        final(s)@ == old(s)@.push(c),
;

/// The characters of `s`, in order.
pub fn chars_of(s: &str) -> (v: Vec<char>)
    ensures
        v@ == s@,
{
    let mut v: Vec<char> = Vec::new();
    for c in it: s.chars()
        invariant
            v@ == it.seq().take(it.index()),
            it.seq() == s@,
    {
        v.push(c);
    }
    v
}

/// The concatenation of three texts.
pub fn join3(a: &str, b: &str, c: &str) -> (s: String)
    ensures
        s@ == a@ + b@ + c@,
{
    let mut s = String::from_str(a);
    s.append(b);
    s.append(c);
    s
}

// ---------------------------------------------------------------------
// Normalisation
// ---------------------------------------------------------------------

/// Whether normalisation keeps a character.
pub open spec fn keeps(c: char) -> bool {
    alphanumeric(c) || whitespace(c)
}

/// The characters of `s` that normalisation keeps.
pub open spec fn kept(s: Seq<char>) -> Seq<char>
    decreases s.len(),
{
    if s.len() == 0 {
        Seq::empty()
    } else if keeps(s.last()) {
        kept(s.drop_last()).push(s.last())
    } else {
        kept(s.drop_last())
    }
}

/// The words of `s` (its maximal runs without white space), in order,
/// with one space between neighbours.
pub open spec fn collapsed(s: Seq<char>) -> Seq<char>
    decreases s.len(),
{
    if s.len() == 0 {
        Seq::empty()
    } else if whitespace(s.last()) {
        collapsed(s.drop_last())
    } else if s.len() >= 2 && whitespace(s[s.len() - 2]) && collapsed(s.drop_last()).len() > 0 {
        collapsed(s.drop_last()).push(' ').push(s.last())
    } else {
        collapsed(s.drop_last()).push(s.last())
    }
}

/// The form under which two texts are compared: lower case, only
/// letters, digits and white space, words separated by one space.
pub open spec fn normalized(s: Seq<char>) -> Seq<char> {
    collapsed(kept(lowercase_of(s)))
}

/// Normalises a text for comparison.
pub fn normalize(content: &str) -> (out: String)
    ensures
        out@ == normalized(content@),
{
    let lower = content.to_lowercase();
    let chars = chars_of(lower.as_str());
    let mut out = String::new();
    let mut after_space: bool = false;
    let mut started: bool = false;
    let ghost mut seen: Seq<char> = Seq::empty();
    let mut i: usize = 0;
    while i < chars.len()
        invariant
            i <= chars.len(),
            seen == kept(chars@.take(i as int)),
            out@ == collapsed(seen),
            after_space == (seen.len() > 0 && whitespace(seen.last())),
            started == (out@.len() > 0),
        decreases chars.len() - i,
    {
        let c: char = chars[i];
        proof {
            assert(chars@.take(i + 1).drop_last() == chars@.take(i as int));
            assert(chars@.take(i + 1).last() == c);
        }
        if c.is_alphanumeric() || c.is_whitespace() {
            proof {
                assert(seen.push(c).drop_last() == seen);
                seen = seen.push(c);
            }
            if c.is_whitespace() {
                after_space = true;
            } else {
                if after_space && started {
                    out.push(' ');
                }
                out.push(c);
                after_space = false;
                started = true;
            }
        }
        i += 1;
    }
    proof {
        assert(chars@.take(chars.len() as int) == chars@);
    }
    out
}

// ---------------------------------------------------------------------
// Substring search
// ---------------------------------------------------------------------

/// Whether `needle` stands in `hay` at position `i`.
pub open spec fn occurs_at(hay: Seq<char>, needle: Seq<char>, i: int) -> bool {
    &&& 0 <= i
    &&& i + needle.len() <= hay.len()
    &&& hay.subrange(i, i + needle.len()) == needle
}

/// Whether `needle` stands somewhere in `hay`.
pub open spec fn has_infix(hay: Seq<char>, needle: Seq<char>) -> bool {
    exists|i: int| occurs_at(hay, needle, i)
}

/// Whether `needle` stands in `hay` at position `at`.
fn matches_at(hay: &Vec<char>, needle: &Vec<char>, at: usize) -> (r: bool)
    requires
        at + needle.len() <= hay.len(),
    ensures
        r == occurs_at(hay@, needle@, at as int),
{
    let mut k: usize = 0;
    while k < needle.len()
        invariant
            k <= needle.len(),
            at + needle.len() <= hay.len(),
            forall|j: int| 0 <= j < k ==> hay@[at + j] == needle@[j],
        decreases needle.len() - k,
    {
        if hay[at + k] != needle[k] {
            proof {
                let sub = hay@.subrange(at as int, at + needle.len());
                assert(sub[k as int] == hay@[at + k]);
            }
            return false;
        }
        k += 1;
    }
    proof {
        assert(hay@.subrange(at as int, at + needle.len()) =~= needle@);
    }
    true
}

/// Whether `needle` stands somewhere in `hay`.
pub fn contains(hay: &Vec<char>, needle: &Vec<char>) -> (r: bool)
    ensures
        r == has_infix(hay@, needle@),
{
    if needle.len() > hay.len() {
        return false;
    }
    if needle.len() == 0 {
        proof {
            assert(hay@.subrange(0, 0) =~= needle@);
            assert(occurs_at(hay@, needle@, 0));
        }
        return true;
    }
    let last: usize = hay.len() - needle.len();
    let mut i: usize = 0;
    while i <= last
        invariant
            i <= last + 1,
            last == hay.len() - needle.len(),
            last < hay.len(),
            forall|j: int| 0 <= j < i ==> !occurs_at(hay@, needle@, j),
        decreases last + 1 - i,
    {
        if matches_at(hay, needle, i) {
            return true;
        }
        i += 1;
    }
    false
}

/// Whether the text `needle` stands somewhere in the characters `hay`.
pub fn contains_str(hay: &Vec<char>, needle: &str) -> (r: bool)
    ensures
        r == has_infix(hay@, needle@),
{
    let n = chars_of(needle);
    contains(hay, &n)
}

// ---------------------------------------------------------------------
// Decimal rendering
// ---------------------------------------------------------------------

/// The character of one decimal digit.
pub open spec fn digit_char(d: int) -> char {
    if d == 0 {
        '0'
    } else if d == 1 {
        '1'
    } else if d == 2 {
        '2'
    } else if d == 3 {
        '3'
    } else if d == 4 {
        '4'
    } else if d == 5 {
        '5'
    } else if d == 6 {
        '6'
    } else if d == 7 {
        '7'
    } else if d == 8 {
        '8'
    } else {
        '9'
    }
}

/// The decimal digits of `n`, most significant first, without leading
/// zeros.
pub open spec fn decimal(n: nat) -> Seq<char>
    decreases n,
{
    if n < 10 {
        seq![digit_char(n as int)]
    } else {
        decimal(n / 10).push(digit_char((n % 10) as int))
    }
}

fn digit_of(d: u64) -> (c: char)
    requires
        d < 10,
    ensures
        c == digit_char(d as int),
{
    if d == 0 {
        '0'
    } else if d == 1 {
        '1'
    } else if d == 2 {
        '2'
    } else if d == 3 {
        '3'
    } else if d == 4 {
        '4'
    } else if d == 5 {
        '5'
    } else if d == 6 {
        '6'
    } else if d == 7 {
        '7'
    } else if d == 8 {
        '8'
    } else {
        '9'
    }
}

/// Appends the decimal digits of `n` to `s`.
pub fn push_decimal(s: &mut String, n: u64)
    ensures
        final(s)@ == old(s)@ + decimal(n as nat),
    decreases n,
{
    if n >= 10 {
        push_decimal(s, n / 10);
    }
    s.push(digit_of(n % 10));
}

/// The decimal digits of `n` as a string.
pub fn decimal_string(n: u64) -> (s: String)
    ensures
        s@ == decimal(n as nat),
{
    let mut s = String::new();
    push_decimal(&mut s, n);
    s
}

} // verus!
