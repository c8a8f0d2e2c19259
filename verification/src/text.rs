//! Character-sequence helpers shared by the rest of the library.
//!
//! Strings are reasoned about through their `Seq<char>` views; the exec
//! helpers here work on `Vec<char>` and convert at the edges.
use vstd::prelude::*;

verus! {

/// `String::push`: appends one character at the end.
#[verifier::external_body]
pub(crate) fn push_char(s: &mut String, c: char)
    ensures
        final(s)@ == old(s)@.push(c),
{
    s.push(c);
}

/// `suf` is a suffix of `s`.
pub open spec fn is_suffix(s: Seq<char>, suf: Seq<char>) -> bool {
    suf.len() <= s.len() && s.subrange(s.len() - suf.len(), s.len() as int) == suf
}

/// `pre` is a prefix of `s`.
pub open spec fn is_prefix(s: Seq<char>, pre: Seq<char>) -> bool {
    pre.len() <= s.len() && s.subrange(0, pre.len() as int) == pre
}

/// `s` without the suffix `suf`, when `s` ends with it.
pub open spec fn strip_suffix(s: Seq<char>, suf: Seq<char>) -> Option<Seq<char>> {
    if is_suffix(s, suf) {
        Some(s.subrange(0, s.len() - suf.len()))
    } else {
        None
    }
}

/// ASCII lower-casing of one character (other characters are unchanged).
pub open spec fn lower_char(c: char) -> char {
    if 'A' <= c && c <= 'Z' {
        ((c as u32) + 32) as char
    } else {
        c
    }
}

/// ASCII lower-casing of a whole sequence.
pub open spec fn lower(s: Seq<char>) -> Seq<char> {
    s.map_values(|c: char| lower_char(c))
}

/// ASCII hexadecimal digit.
pub open spec fn is_hex_char(c: char) -> bool {
    ('0' <= c && c <= '9') || ('a' <= c && c <= 'f') || ('A' <= c && c <= 'F')
}

/// The decimal digit for `d < 10`.
pub open spec fn digit_char(d: nat) -> char {
    ((48 + d) as u32) as char
}

/// Decimal notation of a natural number, without leading zeros.
pub open spec fn decimal(n: nat) -> Seq<char>
    decreases n,
{
    if n < 10 {
        seq![digit_char(n)]
    } else {
        decimal(n / 10).push(digit_char(n % 10))
    }
}

/// Decimal notation of an integer, with a leading `-` when negative.
pub open spec fn signed_decimal(n: int) -> Seq<char> {
    if n < 0 {
        seq!['-'] + decimal((-n) as nat)
    } else {
        decimal(n as nat)
    }
}

/// The characters of `s`, in order.
pub fn chars_of(s: &str) -> (v: Vec<char>)
    ensures
        v@ == s@,
{
    let mut v: Vec<char> = Vec::new();
    for c in it: s.chars()
        invariant
            v@ == it.seq().take(it.index() as int),
            it.seq() == s@,
    {
        v.push(c);
    }
    v
}

/// Appends `chars` at the end of `s`.
pub fn push_chars(s: &mut String, chars: &[char])
    ensures
        final(s)@ == old(s)@ + chars@,
{
    let ghost start = s@;
    let mut i: usize = 0;
    while i < chars.len()
        invariant
            i <= chars@.len(),
            s@ == start + chars@.subrange(0, i as int),
        decreases chars@.len() - i,
    {
        push_char(s, chars[i]);
        i = i + 1;
        assert(chars@.subrange(0, i as int) == chars@.subrange(0, i - 1).push(chars@[i - 1]));
    }
    assert(chars@.subrange(0, chars@.len() as int) == chars@);
}

/// A `String` holding exactly `chars`.
pub fn string_of(chars: &[char]) -> (s: String)
    ensures
        s@ == chars@,
{
    let mut s = String::new();
    push_chars(&mut s, chars);
    s
}

/// The characters `v[lo..hi]`.
pub fn sub_chars(v: &[char], lo: usize, hi: usize) -> (r: Vec<char>)
    requires
        lo <= hi <= v@.len(),
    ensures
        r@ == v@.subrange(lo as int, hi as int),
{
    let mut r: Vec<char> = Vec::new();
    let mut i = lo;
    while i < hi
        invariant
            lo <= i <= hi,
            hi <= v@.len(),
            r@ == v@.subrange(lo as int, i as int),
        decreases hi - i,
    {
        r.push(v[i]);
        i = i + 1;
        assert(v@.subrange(lo as int, i as int) == v@.subrange(lo as int, i - 1).push(v@[i - 1]));
    }
    r
}

/// Whether `s` ends with `suf`.
pub fn ends_with(s: &[char], suf: &[char]) -> (b: bool)
    ensures
        b == is_suffix(s@, suf@),
{
    if suf.len() > s.len() {
        return false;
    }
    let off = s.len() - suf.len();
    let mut i: usize = 0;
    while i < suf.len()
        invariant
            off + suf@.len() == s@.len(),
            s@.len() <= usize::MAX,
            i <= suf@.len(),
            forall|j: int| 0 <= j < i ==> s@[off + j] == suf@[j],
        decreases suf@.len() - i,
    {
        if s[off + i] != suf[i] {
            assert(s@.subrange(off as int, s@.len() as int)[i as int] != suf@[i as int]);
            return false;
        }
        i = i + 1;
    }
    assert(s@.subrange(off as int, s@.len() as int) =~= suf@);
    true
}

/// Whether `s` starts with `pre`.
pub fn starts_with(s: &[char], pre: &[char]) -> (b: bool)
    ensures
        b == is_prefix(s@, pre@),
{
    if pre.len() > s.len() {
        return false;
    }
    let mut i: usize = 0;
    while i < pre.len()
        invariant
            pre@.len() <= s@.len(),
            i <= pre@.len(),
            forall|j: int| 0 <= j < i ==> s@[j] == pre@[j],
        decreases pre@.len() - i,
    {
        if s[i] != pre[i] {
            assert(s@.subrange(0, pre@.len() as int)[i as int] != pre@[i as int]);
            return false;
        }
        i = i + 1;
    }
    assert(s@.subrange(0, pre@.len() as int) =~= pre@);
    true
}

/// Whether two character slices are equal.
pub fn chars_eq(a: &[char], b: &[char]) -> (r: bool)
    ensures
        r == (a@ == b@),
{
    if a.len() != b.len() {
        return false;
    }
    let r = starts_with(a, b);
    proof {
        if r {
            assert(a@ =~= a@.subrange(0, b@.len() as int));
        }
        if a@ == b@ {
            assert(a@.subrange(0, b@.len() as int) =~= a@);
        }
    }
    r
}

/// ASCII lower-casing of one character.
pub fn to_lower_char(c: char) -> (r: char)
    ensures
        r == lower_char(c),
{
    if 'A' <= c && c <= 'Z' {
        let u = (c as u32) + 32;
        assert(u < 128);
        char_from_ascii(u)
    } else {
        c
    }
}

/// The character with code `u`, for `u < 128`.
fn char_from_ascii(u: u32) -> (c: char)
    requires
        u < 128,
    ensures
        c == u as char,
        c as u32 == u,
{
    let b: u8 = u as u8;
    b as char
}

/// ASCII lower-casing of every character of `s`.
pub fn to_lower(s: &[char]) -> (r: Vec<char>)
    ensures
        r@ == lower(s@),
{
    let mut r: Vec<char> = Vec::new();
    let mut i: usize = 0;
    while i < s.len()
        invariant
            i <= s@.len(),
            r@ == lower(s@.subrange(0, i as int)),
        decreases s@.len() - i,
    {
        let c = to_lower_char(s[i]);
        r.push(c);
        i = i + 1;
        assert(lower(s@.subrange(0, i as int)) =~= lower(s@.subrange(0, i - 1)).push(c));
    }
    assert(s@.subrange(0, s@.len() as int) == s@);
    r
}

/// Whether `c` is an ASCII hexadecimal digit.
pub fn is_hex(c: char) -> (b: bool)
    ensures
        b == is_hex_char(c),
{
    ('0' <= c && c <= '9') || ('a' <= c && c <= 'f') || ('A' <= c && c <= 'F')
}

/// Appends the decimal notation of `n`.
pub fn push_decimal(s: &mut String, n: u64)
    ensures
        final(s)@ == old(s)@ + decimal(n as nat),
    decreases n,
{
    if n >= 10 {
        push_decimal(s, n / 10);
    }
    let d: u64 = n % 10;
    let c = char_from_ascii((48 + d) as u32);
    push_char(s, c);
    proof {
        assert(c == digit_char(d as nat));
        if n >= 10 {
            assert(decimal(n as nat) == decimal((n / 10) as nat).push(digit_char((n % 10) as nat)));
        } else {
            assert(decimal(n as nat) == seq![digit_char(n as nat)]);
        }
    }
}

/// Appends the decimal notation of a signed number.
pub fn push_signed_decimal(s: &mut String, n: i64)
    ensures
        final(s)@ == old(s)@ + signed_decimal(n as int),
{
    if n < 0 {
        push_char(s, '-');
        let m: u64 = (-(n as i128)) as u64;
        push_decimal(s, m);
        assert(final(s)@ =~= old(s)@ + (seq!['-'] + decimal(m as nat)));
    } else {
        push_decimal(s, n as u64);
    }
}

} // verus!

verus! {

/// Joining a path component onto a directory the way `PathBuf::push` does
/// on Unix: an absolute component replaces the base; otherwise a `/` goes
/// between them unless the base is empty or already ends with one.
pub open spec fn spec_path_join(base: Seq<char>, p: Seq<char>) -> Seq<char> {
    if p.len() > 0 && p[0] == '/' {
        p
    } else if base.len() == 0 || base.last() == '/' {
        base + p
    } else {
        base + seq!['/'] + p
    }
}

/// `base` joined with `p` (see [`spec_path_join`]).
pub fn path_join(base: &str, p: &str) -> (r: String)
    ensures
        r@ == spec_path_join(base@, p@),
{
    let pc = chars_of(p);
    if pc.len() > 0 && pc[0] == '/' {
        return p.to_owned();
    }
    let bc = chars_of(base);
    let mut r = base.to_owned();
    if !(bc.len() == 0 || bc[bc.len() - 1] == '/') {
        push_char(&mut r, '/');
    }
    push_chars(&mut r, &pc);
    r
}

} // verus!
