use vstd::prelude::*;

verus! {

broadcast use vstd::string::group_string_axioms;

/// The decimal digit character for `d`.
pub open spec fn digit_char(d: nat) -> char {
    if d == 0 {
        '0'
    } else if d == 1 {
        '1'
    } else if d == 2 {
        '2'
    } else if d == 3 {
        '3'
    } else if d == 4 {
        '4'
    } else if d == 5 {
        '5'
    } else if d == 6 {
        '6'
    } else if d == 7 {
        '7'
    } else if d == 8 {
        '8'
    } else {
        '9'
    }
}

/// The decimal representation of `n`, most significant digit first,
/// without leading zeros (a single `'0'` for zero).
pub open spec fn dec_seq(n: nat) -> Seq<char>
    decreases n,
{
    if n < 10 {
        seq![digit_char(n)]
    } else {
        dec_seq(n / 10).push(digit_char(n % 10))
    }
}

pub fn digit_of(d: u64) -> (c: char)
    requires
        d < 10,
    ensures
        c == digit_char(d as nat),
{
    match d {
        0 => '0',
        1 => '1',
        2 => '2',
        3 => '3',
        4 => '4',
        5 => '5',
        6 => '6',
        7 => '7',
        8 => '8',
        _ => '9',
    }
}

/// The decimal digits of `n`.
pub fn u64_to_dec(n: u64) -> (r: Vec<char>)
    ensures
        r@ == dec_seq(n as nat),
    decreases n,
{
    if n < 10 {
        let mut v: Vec<char> = Vec::new();
        v.push(digit_of(n));
        assert(v@ =~= dec_seq(n as nat));
        v
    } else {
        let mut v = u64_to_dec(n / 10);
        v.push(digit_of(n % 10));
        assert(v@ =~= dec_seq(n as nat));
        v
    }
}

/// Relies on `String`'s `FromIterator<char>` impl: collecting chars
/// yields the string of exactly those characters, in order.
#[verifier::external_body]
pub(crate) fn string_from_chars(chars: &Vec<char>) -> (r: String)
    ensures
        r@ == chars@,
{
    chars.iter().collect()
}

/// The decimal representation of `n` as a `String`.
pub fn u64_to_string(n: u64) -> (r: String)
    ensures
        r@ == dec_seq(n as nat),
{
    let digits = u64_to_dec(n);
    string_from_chars(&digits)
}

/// The characters of `s`, collected with a verified loop.
pub fn chars_of_str(s: &str) -> (r: Vec<char>)
    ensures
        r@ == s@,
{
    let n = s.unicode_len();
    let mut r: Vec<char> = Vec::new();
    let mut i: usize = 0;
    while i < n
        invariant
            i <= n,
            n == s@.len(),
            r@ =~= s@.subrange(0, i as int),
        decreases n - i,
    {
        r.push(s.get_char(i));
        assert(r@ =~= s@.subrange(0, i + 1 as int));
        i = i + 1;
    }
    assert(r@ =~= s@);
    r
}

/// Whitespace for the purpose of trimming account names: the ASCII
/// blank characters a terminal key event can produce.
pub open spec fn is_space_char(c: char) -> bool {
    c == ' ' || c == '\t' || c == '\n' || c == '\r'
}

pub fn is_space(c: char) -> (r: bool)
    ensures
        r == is_space_char(c),
{
    c == ' ' || c == '\t' || c == '\n' || c == '\r'
}

/// `s` without leading and trailing whitespace.
pub open spec fn trimmed(s: Seq<char>) -> Seq<char>
    decreases s.len(),
{
    if s.len() == 0 {
        s
    } else if is_space_char(s[0]) {
        trimmed(s.drop_first())
    } else if is_space_char(s.last()) {
        trimmed(s.drop_last())
    } else {
        s
    }
}

proof fn lemma_trimmed_subrange(s: Seq<char>, lo: int, hi: int)
    requires
        0 <= lo <= hi <= s.len(),
        forall|i: int| 0 <= i < lo ==> is_space_char(s[i]),
        forall|i: int| hi <= i < s.len() ==> is_space_char(s[i]),
        lo < hi ==> !is_space_char(s[lo]) && !is_space_char(s[hi - 1]),
    ensures
        trimmed(s) == s.subrange(lo, hi),
    decreases s.len(),
{
    if s.len() == 0 {
        assert(trimmed(s) =~= s.subrange(lo, hi));
    } else if is_space_char(s[0]) {
        // lo > 0, or the kept range is empty and sits at the front.
        if lo > 0 {
            let t = s.drop_first();
            assert(t =~= s.subrange(1, s.len() as int));
            lemma_trimmed_subrange(t, lo - 1, hi - 1);
            assert(t.subrange(lo - 1, hi - 1) =~= s.subrange(lo, hi));
        } else {
            // lo == 0, so lo == hi (otherwise s[0] would not be a space).
            let t = s.drop_first();
            assert(t =~= s.subrange(1, s.len() as int));
            lemma_trimmed_subrange(t, 0, 0);
            assert(t.subrange(0, 0) =~= s.subrange(lo, hi));
        }
    } else if is_space_char(s.last()) {
        // hi < s.len(), or the kept range is empty and sits at the end.
        let t = s.drop_last();
        assert(t =~= s.subrange(0, s.len() - 1));
        if hi < s.len() {
            lemma_trimmed_subrange(t, lo, hi);
            assert(t.subrange(lo, hi) =~= s.subrange(lo, hi));
        } else {
            // hi == s.len(), so lo == hi (otherwise s.last() would not be a space).
            lemma_trimmed_subrange(t, lo - 1, lo - 1);
            assert(t.subrange(lo - 1, lo - 1) =~= s.subrange(lo, hi));
        }
    } else {
        assert(trimmed(s) == s);
        assert(lo == 0 && hi == s.len());
        assert(s.subrange(0, s.len() as int) =~= s);
    }
}

/// `chars` without leading and trailing whitespace.
pub fn trim_chars(chars: &Vec<char>) -> (r: Vec<char>)
    ensures
        r@ == trimmed(chars@),
{
    let n = chars.len();
    let mut lo: usize = 0;
    while lo < n && is_space(chars[lo])
        invariant
            lo <= n,
            n == chars@.len(),
            forall|i: int| 0 <= i < lo ==> is_space_char(chars@[i]),
        decreases n - lo,
    {
        lo = lo + 1;
    }
    let mut hi: usize = n;
    while hi > lo && is_space(chars[hi - 1])
        invariant
            lo <= hi <= n,
            n == chars@.len(),
            forall|i: int| 0 <= i < lo ==> is_space_char(chars@[i]),
            forall|i: int| hi <= i < n ==> is_space_char(chars@[i]),
        decreases hi,
    {
        hi = hi - 1;
    }
    let mut r: Vec<char> = Vec::new();
    let mut i: usize = lo;
    while i < hi
        invariant
            lo <= i <= hi <= n,
            n == chars@.len(),
            r@ =~= chars@.subrange(lo as int, i as int),
        decreases hi - i,
    {
        r.push(chars[i]);
        assert(r@ =~= chars@.subrange(lo as int, i + 1 as int));
        i = i + 1;
    }
    proof {
        if lo < hi {
            assert(!is_space_char(chars@[lo as int]));
            assert(!is_space_char(chars@[hi - 1]));
        }
        lemma_trimmed_subrange(chars@, lo as int, hi as int);
    }
    r
}

/// True when `chars` trims to nothing: it holds whitespace alone.
pub fn is_blank(chars: &Vec<char>) -> (r: bool)
    ensures
        r == (trimmed(chars@).len() == 0),
{
    let t = trim_chars(chars);
    t.len() == 0
}

/// Character-wise string equality, proved by scanning.
pub fn str_eq(a: &str, b: &str) -> (r: bool)
    ensures
        r == (a@ == b@),
{
    let n = a.unicode_len();
    let m = b.unicode_len();
    if n != m {
        return false;
    }
    let mut i: usize = 0;
    while i < n
        invariant
            i <= n,
            n == a@.len(),
            n == b@.len(),
            forall|j: int| 0 <= j < i ==> a@[j] == b@[j],
        decreases n - i,
    {
        if a.get_char(i) != b.get_char(i) {
            return false;
        }
        i = i + 1;
    }
    proof {
        assert(a@ =~= b@);
    }
    true
}

/// Control characters as Rust defines them: the C0 range, delete,
/// and the C1 range. The dashboard refuses them in name buffers.
pub open spec fn is_control_char(c: char) -> bool {
    (c as u32) < 0x20 || (0x7f <= (c as u32) && (c as u32) < 0xa0)
}

pub fn is_control(c: char) -> (r: bool)
    ensures
        r == is_control_char(c),
{
    let u = c as u32;
    u < 0x20 || (0x7f <= u && u < 0xa0)
}

} // verus!
