//! Character-level helpers on strings: ASCII case folding, substring
//! search, splitting at a separator and lexicographic comparison.
use vstd::prelude::*;

verus! {

/// ASCII lower case of one character; other characters are unchanged.
pub open spec fn lower_char(c: char) -> char {
    if 'A' <= c && c <= 'Z' {
        ((c as u32) + 32) as char
    } else {
        c
    }
}

/// ASCII lower case of a whole text, character by character.
pub open spec fn ascii_lower(s: Seq<char>) -> Seq<char> {
    s.map_values(|c: char| lower_char(c))
}

/// Two texts are equal up to ASCII case.
pub open spec fn eq_ignore_ascii_case(a: Seq<char>, b: Seq<char>) -> bool {
    ascii_lower(a) == ascii_lower(b)
}

/// `needle` occurs in `hay` starting at index `i`.
pub open spec fn occurs_at(hay: Seq<char>, needle: Seq<char>, i: int) -> bool {
    0 <= i && i + needle.len() <= hay.len() && hay.subrange(i, i + needle.len()) == needle
}

/// `needle` occurs somewhere in `hay`.
pub open spec fn has_substring(hay: Seq<char>, needle: Seq<char>) -> bool {
    exists|i: int| occurs_at(hay, needle, i)
}

/// `i` is the first position of `c` in `s`.
pub open spec fn is_first_index(s: Seq<char>, c: char, i: int) -> bool {
    0 <= i < s.len() && s[i] == c && forall|j: int| 0 <= j < i ==> s[j] != c
}

/// `i` is the last position of `c` in `s`.
pub open spec fn is_last_index(s: Seq<char>, c: char, i: int) -> bool {
    0 <= i < s.len() && s[i] == c && forall|j: int| i < j < s.len() ==> s[j] != c
}

/// `k` is where `a` and `b` first differ, `a` sorting first there.
pub open spec fn lt_at(a: Seq<char>, b: Seq<char>, k: int) -> bool {
    0 <= k <= a.len() && k <= b.len() && a.subrange(0, k) == b.subrange(0, k) && ((k == a.len() && k
        < b.len()) || (k < a.len() && k < b.len() && (a[k] as u32) < (b[k] as u32)))
}

/// `a` sorts strictly before `b` when compared character by character
/// (by code point), a proper prefix sorting first.
pub open spec fn chars_lt(a: Seq<char>, b: Seq<char>) -> bool {
    exists|k: int| lt_at(a, b, k)
}

/// Folding to lower case twice changes nothing more than folding once.
pub proof fn lemma_ascii_lower_idempotent(s: Seq<char>)
    ensures
        ascii_lower(ascii_lower(s)) == ascii_lower(s),
{
    assert(ascii_lower(ascii_lower(s)) =~= ascii_lower(s));
}

/// Equality up to ASCII case is an equivalence relation.
pub proof fn lemma_eq_ignore_ascii_case_equivalence(a: Seq<char>, b: Seq<char>, c: Seq<char>)
    ensures
        eq_ignore_ascii_case(a, a),
        eq_ignore_ascii_case(a, b) == eq_ignore_ascii_case(b, a),
        eq_ignore_ascii_case(a, b) && eq_ignore_ascii_case(b, c) ==> eq_ignore_ascii_case(a, c),
{
}

/// No text sorts before itself, and of two texts at most one sorts first.
pub proof fn lemma_chars_lt_asymmetric(a: Seq<char>, b: Seq<char>)
    ensures
        chars_lt(a, b) ==> !chars_lt(b, a),
        !chars_lt(a, a),
{
    if chars_lt(a, b) && chars_lt(b, a) {
        let k1 = choose|k: int|
            0 <= k <= a.len() && k <= b.len() && a.subrange(0, k) == b.subrange(0, k) && ((k
                == a.len() && k < b.len()) || (k < a.len() && k < b.len() && (a[k] as u32) < (
            b[k] as u32)));
        let k2 = choose|k: int|
            0 <= k <= b.len() && k <= a.len() && b.subrange(0, k) == a.subrange(0, k) && ((k
                == b.len() && k < a.len()) || (k < b.len() && k < a.len() && (b[k] as u32) < (
            a[k] as u32)));
        if k1 < k2 {
            assert(a[k1] == a.subrange(0, k2)[k1]);
            assert(b[k1] == b.subrange(0, k2)[k1]);
        } else if k2 < k1 {
            assert(a[k2] == a.subrange(0, k1)[k2]);
            assert(b[k2] == b.subrange(0, k1)[k2]);
        }
    }
}

proof fn lemma_prefix_eq_at(a: Seq<char>, b: Seq<char>, k: int, i: int)
    requires
        0 <= i < k <= a.len(),
        k <= b.len(),
        a.subrange(0, k) == b.subrange(0, k),
    ensures
        a[i] == b[i],
{
    assert(a.subrange(0, k)[i] == a[i]);
    assert(b.subrange(0, k)[i] == b[i]);
}

/// The order of texts is transitive.
pub proof fn lemma_chars_lt_transitive(a: Seq<char>, b: Seq<char>, c: Seq<char>)
    requires
        chars_lt(a, b),
        chars_lt(b, c),
    ensures
        chars_lt(a, c),
{
    let k1 = choose|k: int| lt_at(a, b, k);
    let k2 = choose|k: int| lt_at(b, c, k);
    let k = if k1 < k2 { k1 } else { k2 };
    assert(0 <= k <= a.len() && k <= c.len());
    assert forall|i: int| 0 <= i < k implies a[i] == c[i] by {
        lemma_prefix_eq_at(a, b, k1, i);
        lemma_prefix_eq_at(b, c, k2, i);
    }
    assert(a.subrange(0, k) =~= c.subrange(0, k));
    if k1 < k2 {
        if k1 < a.len() {
            lemma_prefix_eq_at(b, c, k2, k1);
        }
        assert(lt_at(a, c, k1));
    } else if k2 < k1 {
        lemma_prefix_eq_at(a, b, k1, k2);
        assert(lt_at(a, c, k2));
    } else {
        assert(lt_at(a, c, k));
    }
}

/// Of two different texts, one sorts before the other.
pub proof fn lemma_chars_lt_total(a: Seq<char>, b: Seq<char>)
    requires
        a != b,
    ensures
        chars_lt(a, b) || chars_lt(b, a),
{
    let n = if a.len() < b.len() { a.len() } else { b.len() };
    if forall|i: int| 0 <= i < n ==> a[i] == b[i] {
        assert(a.subrange(0, n as int) =~= b.subrange(0, n as int));
        if a.len() < b.len() {
            assert(lt_at(a, b, n as int));
        } else if b.len() < a.len() {
            assert(lt_at(b, a, n as int));
        } else {
            assert(a =~= b);
        }
    } else {
        let k = lemma_first_difference(a, b, n as int);
        assert(a.subrange(0, k) =~= b.subrange(0, k));
        if (a[k] as u32) < (b[k] as u32) {
            assert(lt_at(a, b, k));
        } else {
            lemma_char_code_injective(a[k], b[k]);
            assert(lt_at(b, a, k));
        }
    }
}

/// Different characters have different codes.
proof fn lemma_char_code_injective(x: char, y: char)
    requires
        x != y,
    ensures
        x as u32 != y as u32,
{
}

/// The first position below `n` where two texts differ.
proof fn lemma_first_difference(a: Seq<char>, b: Seq<char>, n: int) -> (k: int)
    requires
        0 <= n <= a.len(),
        n <= b.len(),
        exists|i: int| 0 <= i < n && a[i] != b[i],
    ensures
        0 <= k < n,
        a[k] != b[k],
        forall|i: int| 0 <= i < k ==> a[i] == b[i],
    decreases n,
{
    if exists|i: int| 0 <= i < n - 1 && a[i] != b[i] {
        lemma_first_difference(a, b, n - 1)
    } else {
        n - 1
    }
}

/// Folding case keeps a character equal to `c` exactly where it was, for any
/// `c` that is not an ASCII letter.
pub proof fn lemma_lower_char_keeps_non_letter(x: char, c: char)
    requires
        !('A' <= c && c <= 'Z'),
        !('a' <= c && c <= 'z'),
    ensures
        (lower_char(x) == c) == (x == c),
{
    if 'A' <= x && x <= 'Z' {
        let y = ((x as u32) + 32) as char;
        assert(97 <= (x as u32) + 32 <= 122);
        assert(y as u32 == (x as u32) + 32);
    }
}

/// Appends one character to a string (std's `String::push`).
#[verifier::external_body]
pub(crate) fn push_char(s: &mut String, c: char)
    ensures
        final(s)@ == old(s)@.push(c),
{
    s.push(c);
}

/// ASCII lower case of one character.
pub fn to_lower_char(c: char) -> (r: char)
    ensures
        r == lower_char(c),
{
    if 'A' <= c && c <= 'Z' {
        let b: u8 = c as u8;
        (b + 32) as char
    } else {
        c
    }
}

/// The characters of a text, in order.
pub fn chars_of(s: &str) -> (r: Vec<char>)
    ensures
        r@ == s@,
{
    let n = s.unicode_len();
    let mut v: Vec<char> = Vec::new();
    for i in 0..n
        invariant
            n == s@.len(),
            v@ == s@.take(i as int),
    {
        v.push(s.get_char(i));
        assert(s@.take(i + 1) =~= s@.take(i as int).push(s@[i as int]));
    }
    assert(s@.take(n as int) =~= s@);
    v
}

/// A string made of the characters `cs[from..to]`.
pub fn string_from_chars(cs: &Vec<char>, from: usize, to: usize) -> (r: String)
    requires
        from <= to <= cs.len(),
    ensures
        r@ == cs@.subrange(from as int, to as int),
{
    let mut r = String::new();
    let mut i = from;
    while i < to
        invariant
            from <= i <= to <= cs.len(),
            r@ == cs@.subrange(from as int, i as int),
        decreases to - i,
    {
        push_char(&mut r, cs[i]);
        assert(cs@.subrange(from as int, i + 1) =~= cs@.subrange(from as int, i as int).push(
            cs@[i as int],
        ));
        i = i + 1;
    }
    r
}

/// The characters `cs[from..]`.
pub fn chars_tail(cs: &Vec<char>, from: usize) -> (r: Vec<char>)
    requires
        from <= cs.len(),
    ensures
        r@ == cs@.skip(from as int),
{
    let mut r: Vec<char> = Vec::new();
    let mut i = from;
    while i < cs.len()
        invariant
            from <= i <= cs.len(),
            r@ == cs@.subrange(from as int, i as int),
        decreases cs.len() - i,
    {
        r.push(cs[i]);
        assert(cs@.subrange(from as int, i + 1) =~= cs@.subrange(from as int, i as int).push(
            cs@[i as int],
        ));
        i = i + 1;
    }
    assert(cs@.subrange(from as int, cs.len() as int) =~= cs@.skip(from as int));
    r
}

/// The ASCII lower case of a text (as `str::to_ascii_lowercase`).
pub fn to_ascii_lowercase(s: &str) -> (r: String)
    ensures
        r@ == ascii_lower(s@),
{
    let cs = chars_of(s);
    let mut r = String::new();
    let mut i: usize = 0;
    while i < cs.len()
        invariant
            cs@ == s@,
            i <= cs.len(),
            r@ == ascii_lower(s@.take(i as int)),
        decreases cs.len() - i,
    {
        let c = to_lower_char(cs[i]);
        push_char(&mut r, c);
        assert(ascii_lower(s@.take(i + 1)) =~= ascii_lower(s@.take(i as int)).push(c));
        i = i + 1;
    }
    assert(s@.take(cs.len() as int) =~= s@);
    r
}

/// Whether two texts are equal up to ASCII case.
pub fn equals_ignore_ascii_case(a: &str, b: &str) -> (r: bool)
    ensures
        r == eq_ignore_ascii_case(a@, b@),
{
    let la = to_ascii_lowercase(a);
    let lb = to_ascii_lowercase(b);
    la == lb
}

/// Whether `needle` occurs in `hay`, both given as characters.
pub fn contains_chars(hay: &Vec<char>, needle: &Vec<char>) -> (r: bool)
    ensures
        r == has_substring(hay@, needle@),
{
    if needle.len() > hay.len() {
        assert forall|i: int| !occurs_at(hay@, needle@, i) by {}
        return false;
    }
    let last = hay.len() - needle.len();
    let mut i: usize = 0;
    while i <= last
        invariant
            last == hay.len() - needle.len(),
            needle.len() <= hay.len(),
            i <= last + 1,
            forall|p: int| 0 <= p < i ==> !occurs_at(hay@, needle@, p),
        decreases last + 1 - i,
    {
        let mut j: usize = 0;
        let mut same = true;
        while j < needle.len()
            invariant
                i <= last,
                last == hay.len() - needle.len(),
                j <= needle.len(),
                same == (forall|q: int| 0 <= q < j ==> hay@[i + q] == needle@[q]),
            decreases needle.len() - j,
        {
            if hay[i + j] != needle[j] {
                same = false;
            }
            j = j + 1;
        }
        if same {
            assert(hay@.subrange(i as int, i + needle.len()) =~= needle@);
            assert(occurs_at(hay@, needle@, i as int));
            return true;
        }
        assert(!occurs_at(hay@, needle@, i as int)) by {
            let q = choose|q: int| 0 <= q < needle.len() && hay@[i + q] != needle@[q];
            assert(hay@.subrange(i as int, i + needle.len())[q] == hay@[i + q]);
        }
        i = i + 1;
    }
    assert forall|p: int| !occurs_at(hay@, needle@, p) by {
        if occurs_at(hay@, needle@, p) {
            assert(p <= last);
        }
    }
    false
}

/// Position of the first `c` in `cs`, if any.
pub fn first_index_of(cs: &Vec<char>, c: char) -> (r: Option<usize>)
    ensures
        match r {
            Some(i) => is_first_index(cs@, c, i as int),
            None => forall|j: int| 0 <= j < cs@.len() ==> cs@[j] != c,
        },
{
    let mut i: usize = 0;
    while i < cs.len()
        invariant
            i <= cs.len(),
            forall|j: int| 0 <= j < i ==> cs@[j] != c,
        decreases cs.len() - i,
    {
        if cs[i] == c {
            return Some(i);
        }
        i = i + 1;
    }
    None
}

/// Position of the last `c` in `cs`, if any.
pub fn last_index_of(cs: &Vec<char>, c: char) -> (r: Option<usize>)
    ensures
        match r {
            Some(i) => is_last_index(cs@, c, i as int),
            None => forall|j: int| 0 <= j < cs@.len() ==> cs@[j] != c,
        },
{
    let mut i: usize = cs.len();
    while i > 0
        invariant
            i <= cs.len(),
            forall|j: int| i <= j < cs@.len() ==> cs@[j] != c,
        decreases i,
    {
        if cs[i - 1] == c {
            return Some(i - 1);
        }
        i = i - 1;
    }
    None
}

/// Whether `a` sorts strictly before `b`, comparing characters by code point.
pub fn str_lt(a: &str, b: &str) -> (r: bool)
    ensures
        r == chars_lt(a@, b@),
{
    let ca = chars_of(a);
    let cb = chars_of(b);
    let mut i: usize = 0;
    while i < ca.len() && i < cb.len()
        invariant
            ca@ == a@,
            cb@ == b@,
            i <= ca.len(),
            i <= cb.len(),
            ca@.subrange(0, i as int) == cb@.subrange(0, i as int),
        decreases ca.len() - i,
    {
        if ca[i] != cb[i] {
            let lt = (ca[i] as u32) < (cb[i] as u32);
            if lt {
                assert(chars_lt(a@, b@)) by {
                    assert(a@.subrange(0, i as int) == b@.subrange(0, i as int));
                    assert(lt_at(a@, b@, i as int));
                }
            } else {
                assert(!chars_lt(a@, b@)) by {
                    if chars_lt(a@, b@) {
                        let k = choose|k: int|
                            0 <= k <= a@.len() && k <= b@.len() && a@.subrange(0, k)
                                == b@.subrange(0, k) && ((k == a@.len() && k < b@.len()) || (k
                                < a@.len() && k < b@.len() && (a@[k] as u32) < (b@[k] as u32)));
                        if k > i {
                            assert(a@[i as int] == a@.subrange(0, k)[i as int]);
                            assert(b@[i as int] == b@.subrange(0, k)[i as int]);
                        } else if k < i {
                            assert(a@[k] == a@.subrange(0, i as int)[k]);
                            assert(b@[k] == b@.subrange(0, i as int)[k]);
                        }
                    }
                }
            }
            return lt;
        }
        assert(ca@.subrange(0, i + 1) =~= ca@.subrange(0, i as int).push(ca@[i as int]));
        assert(cb@.subrange(0, i + 1) =~= cb@.subrange(0, i as int).push(cb@[i as int]));
        i = i + 1;
    }
    let r = i == ca.len() && i < cb.len();
    if r {
        assert(chars_lt(a@, b@)) by {
            assert(a@.subrange(0, i as int) == b@.subrange(0, i as int));
            assert(lt_at(a@, b@, i as int));
        }
    } else {
        assert(!chars_lt(a@, b@)) by {
            if chars_lt(a@, b@) {
                let k = choose|k: int|
                    0 <= k <= a@.len() && k <= b@.len() && a@.subrange(0, k) == b@.subrange(0, k)
                        && ((k == a@.len() && k < b@.len()) || (k < a@.len() && k < b@.len() && (
                    a@[k] as u32) < (b@[k] as u32)));
                if k < i {
                    assert(a@[k] == a@.subrange(0, i as int)[k]);
                    assert(b@[k] == b@.subrange(0, i as int)[k]);
                }
            }
        }
    }
    r
}

} // verus!
