//! Text operations on which the rest of the library is built: trimming of
//! white space, repetition, joining, and decoding of UTF-8 bytes.

use vstd::prelude::*;
use vstd::utf8::{valid_utf8, decode_utf8};

verus! {

/// The characters that Unicode classes as `White_Space`.
pub open spec fn is_white_space(c: char) -> bool {
    let u = c as u32;
    ||| 0x09 <= u <= 0x0d
    ||| u == 0x20
    ||| u == 0x85
    ||| u == 0xa0
    ||| u == 0x1680
    ||| 0x2000 <= u <= 0x200a
    ||| u == 0x2028
    ||| u == 0x2029
    ||| u == 0x202f
    ||| u == 0x205f
    ||| u == 0x3000
}

/// `t` is `s` without its leading and trailing white space.
pub open spec fn is_trim_of(t: Seq<char>, s: Seq<char>) -> bool {
    exists|i: int, j: int| #![trigger s.subrange(i, j)] {
        &&& 0 <= i <= j <= s.len()
        &&& t == s.subrange(i, j)
        &&& forall|k: int| 0 <= k < i ==> is_white_space(#[trigger] s[k])
        &&& forall|k: int| j <= k < s.len() ==> is_white_space(#[trigger] s[k])
        &&& i < j ==> !is_white_space(s[i]) && !is_white_space(s[j - 1])
    }
}

/// The text of `s` without its leading and trailing white space.
pub open spec fn trimmed(s: Seq<char>) -> Seq<char> {
    choose|t: Seq<char>| is_trim_of(t, s)
}

/// Two trims of one text are the same text.
pub proof fn lemma_trim_unique(s: Seq<char>, t1: Seq<char>, t2: Seq<char>)
    requires
        is_trim_of(t1, s),
        is_trim_of(t2, s),
    ensures
        t1 == t2,
{
    let (i1, j1) = choose|i: int, j: int| #![trigger s.subrange(i, j)] {
        &&& 0 <= i <= j <= s.len()
        &&& t1 == s.subrange(i, j)
        &&& forall|k: int| 0 <= k < i ==> is_white_space(#[trigger] s[k])
        &&& forall|k: int| j <= k < s.len() ==> is_white_space(#[trigger] s[k])
        &&& i < j ==> !is_white_space(s[i]) && !is_white_space(s[j - 1])
    };
    let (i2, j2) = choose|i: int, j: int| #![trigger s.subrange(i, j)] {
        &&& 0 <= i <= j <= s.len()
        &&& t2 == s.subrange(i, j)
        &&& forall|k: int| 0 <= k < i ==> is_white_space(#[trigger] s[k])
        &&& forall|k: int| j <= k < s.len() ==> is_white_space(#[trigger] s[k])
        &&& i < j ==> !is_white_space(s[i]) && !is_white_space(s[j - 1])
    };
    if i1 < j1 && i2 < j2 {
        if i1 < i2 {
            assert(is_white_space(s[i1]));
        }
        if i2 < i1 {
            assert(is_white_space(s[i2]));
        }
        if j1 < j2 {
            assert(is_white_space(s[j2 - 1]));
        }
        if j2 < j1 {
            assert(is_white_space(s[j1 - 1]));
        }
        assert(t1 =~= t2);
    } else if i1 < j1 {
        assert(is_white_space(s[i1]));
    } else if i2 < j2 {
        assert(is_white_space(s[i2]));
    } else {
        assert(t1 =~= t2);
    }
}

/// Every text has a trim, and `trimmed` gives it.
pub proof fn lemma_trimmed(s: Seq<char>, t: Seq<char>)
    requires
        is_trim_of(t, s),
    ensures
        trimmed(s) == t,
        is_trim_of(trimmed(s), s),
{
    lemma_trim_unique(s, t, trimmed(s));
}

/// Every text has a trim.
pub proof fn lemma_trim_exists(s: Seq<char>)
    ensures
        exists|t: Seq<char>| is_trim_of(t, s),
        is_trim_of(trimmed(s), s),
    decreases s.len(),
{
    if s.len() == 0 {
        assert(is_trim_of(s.subrange(0, 0), s));
    } else {
        let p = s.drop_last();
        lemma_trim_exists(p);
        let (i, j) = choose|i: int, j: int| #![trigger p.subrange(i, j)] {
            &&& 0 <= i <= j <= p.len()
            &&& trimmed(p) == p.subrange(i, j)
            &&& forall|k: int| 0 <= k < i ==> is_white_space(#[trigger] p[k])
            &&& forall|k: int| j <= k < p.len() ==> is_white_space(#[trigger] p[k])
            &&& i < j ==> !is_white_space(p[i]) && !is_white_space(p[j - 1])
        };
        let n = s.len() as int;
        assert forall|k: int| 0 <= k < n - 1 implies #[trigger] s[k] == p[k] by {}
        if is_white_space(s[n - 1]) {
            assert forall|k: int| j <= k < n implies is_white_space(#[trigger] s[k]) by {
                if k < n - 1 {
                    assert(s[k] == p[k]);
                }
            }
            assert(s.subrange(i, j) =~= p.subrange(i, j));
            assert(is_trim_of(s.subrange(i, j), s));
        } else if i < j {
            assert(is_trim_of(s.subrange(i, n), s));
        } else {
            assert forall|k: int| 0 <= k < n - 1 implies is_white_space(#[trigger] s[k]) by {
                assert(s[k] == p[k]);
            }
            assert(is_trim_of(s.subrange(n - 1, n), s));
        }
    }
}

/// Trimming a trimmed text changes nothing.
pub proof fn law_trim_idempotent(s: Seq<char>)
    ensures
        trimmed(trimmed(s)) == trimmed(s),
{
    lemma_trim_exists(s);
    let t = trimmed(s);
    assert(t.subrange(0, t.len() as int) =~= t);
    assert(is_trim_of(t, t));
    lemma_trimmed(t, t);
}

/// A trimmed text neither starts nor ends with white space, and is a piece of the text.
pub proof fn law_trim_edges(s: Seq<char>)
    ensures
        trimmed(s).len() > 0 ==> !is_white_space(trimmed(s)[0]) && !is_white_space(
            trimmed(s).last(),
        ),
        trimmed(s).len() <= s.len(),
{
    lemma_trim_exists(s);
}

/// Whether `c` is white space, as `char::is_whitespace` decides it.
pub fn is_white_space_char(c: char) -> (b: bool)
    ensures
        b == is_white_space(c),
{
    let u = c as u32;
    (0x09 <= u && u <= 0x0d) || u == 0x20 || u == 0x85 || u == 0xa0 || u == 0x1680 || (0x2000
        <= u && u <= 0x200a) || u == 0x2028 || u == 0x2029 || u == 0x202f || u == 0x205f || u
        == 0x3000
}

/// `s` without leading and trailing white space, as `str::trim` gives it.
pub fn trim(s: &str) -> (t: String)
    ensures
        t@ == trimmed(s@),
        is_trim_of(t@, s@),
{
    let n = s.unicode_len();
    let mut i: usize = 0;
    while i < n && is_white_space_char(s.get_char(i))
        invariant
            n == s@.len(),
            i <= n,
            forall|k: int| 0 <= k < i ==> is_white_space(#[trigger] s@[k]),
        decreases n - i,
    {
        i = i + 1;
    }
    let mut j: usize = n;
    while j > i && is_white_space_char(s.get_char(j - 1))
        invariant
            n == s@.len(),
            i <= j <= n,
            i < n ==> !is_white_space(s@[i as int]),
            forall|k: int| j <= k < n ==> is_white_space(#[trigger] s@[k]),
        decreases j,
    {
        j = j - 1;
    }
    let t = String::from_str(s.substring_char(i, j));
    proof {
        assert(is_trim_of(t@, s@));
        lemma_trimmed(s@, t@);
    }
    t
}

/// `n` copies of `s`, one after another.
pub open spec fn repeated(s: Seq<char>, n: nat) -> Seq<char>
    decreases n,
{
    if n == 0 {
        Seq::empty()
    } else {
        repeated(s, (n - 1) as nat) + s
    }
}

/// `n` copies of `s`, as `str::repeat` gives them.
pub fn repeat(s: &str, n: usize) -> (r: String)
    ensures
        r@ == repeated(s@, n as nat),
{
    let mut r = String::new();
    let mut i: usize = 0;
    while i < n
        invariant
            i <= n,
            r@ == repeated(s@, i as nat),
        decreases n - i,
    {
        r.append(s);
        i = i + 1;
    }
    r
}

/// The texts of a list of strings.
pub open spec fn texts(v: Seq<String>) -> Seq<Seq<char>> {
    v.map_values(|s: String| s@)
}

/// The parts, with `sep` between each two neighbours.
pub open spec fn joined(parts: Seq<Seq<char>>, sep: Seq<char>) -> Seq<char>
    decreases parts.len(),
{
    if parts.len() == 0 {
        Seq::empty()
    } else if parts.len() == 1 {
        parts[0]
    } else {
        joined(parts.drop_last(), sep) + sep + parts.last()
    }
}

/// The parts with `sep` between them, as `join` on a slice of strings gives them.
pub fn join(parts: &Vec<String>, sep: &str) -> (r: String)
    ensures
        r@ == joined(texts(parts@), sep@),
{
    let mut r = String::new();
    let mut i: usize = 0;
    while i < parts.len()
        invariant
            i <= parts.len(),
            r@ == joined(texts(parts@).take(i as int), sep@),
        decreases parts.len() - i,
    {
        proof {
            assert(texts(parts@).take(i + 1).drop_last() =~= texts(parts@).take(i as int));
        }
        if i > 0 {
            r.append(sep);
        }
        r.append(parts[i].as_str());
        i = i + 1;
    }
    proof {
        assert(texts(parts@).take(parts.len() as int) =~= texts(parts@));
    }
    r
}

/// The text that `bytes` encode, when they are valid UTF-8.
pub open spec fn utf8_text(bytes: Seq<u8>) -> Option<Seq<char>> {
    if valid_utf8(bytes) {
        Some(decode_utf8(bytes))
    } else {
        None
    }
}

/// Decodes `bytes` with `std::str::from_utf8`: the text when they are valid
/// UTF-8, and nothing when they are not.
#[verifier::external_body]
pub(crate) fn decode_utf8_text(bytes: &[u8]) -> (r: Option<String>)
    ensures
        r is Some <==> valid_utf8(bytes@),
        r matches Some(t) ==> t@ == decode_utf8(bytes@),
{
    match std::str::from_utf8(bytes) {
        Ok(t) => Some(t.to_string()),
        Err(_) => None,
    }
}

/// The text of optional raw bytes, or `fallback` when they are absent or not valid UTF-8.
pub open spec fn text_or(raw: Option<Seq<u8>>, fallback: Seq<char>) -> Seq<char> {
    match raw {
        Some(b) => match utf8_text(b) {
            Some(t) => t,
            None => fallback,
        },
        None => fallback,
    }
}

/// The view of optional bytes.
pub open spec fn bytes_view(raw: Option<Vec<u8>>) -> Option<Seq<u8>> {
    match raw {
        Some(b) => Some(b@),
        None => None,
    }
}

/// Decodes optional bytes, falling back to `fallback`.
pub fn decode_or(raw: &Option<Vec<u8>>, fallback: &str) -> (r: String)
    ensures
        r@ == text_or(bytes_view(*raw), fallback@),
{
    match raw {
        Some(b) => match decode_utf8_text(b.as_slice()) {
            Some(t) => t,
            None => String::from_str(fallback),
        },
        None => String::from_str(fallback),
    }
}

} // verus!
