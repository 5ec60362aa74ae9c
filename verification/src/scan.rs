//! Byte-level scanning and text primitives shared by the framing and
//! session layers: delimiter searches, ASCII case folding, whitespace
//! trimming, and header unfolding, each proved against a spec function.

use vstd::prelude::*;

verus! {

/// Carriage return, the first byte of the line terminator.
pub const CR: u8 = 13;

/// Line feed, the second byte of the line terminator.
pub const LF: u8 = 10;

/// The dot that forms the middle of the body terminator.
pub const DOT: u8 = 46;

/// True when a CRLF pair starts at position `i` of `s`.
pub open spec fn is_crlf_at(s: Seq<u8>, i: int) -> bool {
    &&& 0 <= i
    &&& i + 2 <= s.len()
    &&& s[i] == 13u8
    &&& s[i + 1] == 10u8
}

/// True when no CRLF pair starts before position `n` of `s`.
pub open spec fn no_crlf_before(s: Seq<u8>, n: int) -> bool {
    forall|j: int| 0 <= j < n ==> !is_crlf_at(s, j)
}

/// True when the five-byte body terminator CRLF `.` CRLF starts at
/// position `i` of `s`.
pub open spec fn is_terminator_at(s: Seq<u8>, i: int) -> bool {
    &&& 0 <= i
    &&& i + 5 <= s.len()
    &&& s[i] == 13u8
    &&& s[i + 1] == 10u8
    &&& s[i + 2] == 46u8
    &&& s[i + 3] == 13u8
    &&& s[i + 4] == 10u8
}

/// True when no body terminator starts before position `n` of `s`.
pub open spec fn no_terminator_before(s: Seq<u8>, n: int) -> bool {
    forall|j: int| 0 <= j < n ==> !is_terminator_at(s, j)
}

/// Finds the first CRLF pair at or after `from`.
pub fn find_crlf(v: &Vec<u8>, from: usize) -> (r: Option<usize>)
    requires
        no_crlf_before(v@, from as int),
    ensures
        match r {
            Some(i) => is_crlf_at(v@, i as int) && no_crlf_before(v@, i as int),
            None => no_crlf_before(v@, v@.len() as int),
        },
{
    let n: usize = v.len();
    let mut i: usize = from;
    while i < n
        invariant
            n == v@.len(),
            no_crlf_before(v@, i as int),
        decreases n - i,
    {
        if v[i] == CR && i + 1 < n && v[i + 1] == LF {
            return Some(i);
        }
        i = i + 1;
    }
    None
}

/// Finds the first body terminator at or after `from`.
pub fn find_terminator(v: &Vec<u8>, from: usize) -> (r: Option<usize>)
    requires
        no_terminator_before(v@, from as int),
    ensures
        match r {
            Some(i) => is_terminator_at(v@, i as int) && no_terminator_before(v@, i as int),
            None => no_terminator_before(v@, v@.len() as int),
        },
{
    let n: usize = v.len();
    let mut i: usize = from;
    while i < n
        invariant
            n == v@.len(),
            no_terminator_before(v@, i as int),
        decreases n - i,
    {
        if n - i >= 5 && v[i] == CR && v[i + 1] == LF && v[i + 2] == DOT && v[i + 3] == CR && v[i
            + 4] == LF {
            return Some(i);
        }
        i = i + 1;
    }
    None
}

/// Finds the first occurrence of `b` in `v`.
pub fn find_byte(v: &Vec<u8>, b: u8) -> (r: Option<usize>)
    ensures
        match r {
            Some(i) => i < v@.len() && v@[i as int] == b && (forall|j: int|
                0 <= j < i ==> v@[j] != b),
            None => forall|j: int| 0 <= j < v@.len() ==> v@[j] != b,
        },
{
    let n: usize = v.len();
    let mut i: usize = 0;
    while i < n
        invariant
            n == v@.len(),
            i <= n,
            forall|j: int| 0 <= j < i ==> v@[j] != b,
        decreases n - i,
    {
        if v[i] == b {
            return Some(i);
        }
        i = i + 1;
    }
    None
}

/// True when the two byte strings hold the same bytes.
pub fn bytes_eq(a: &[u8], b: &[u8]) -> (r: bool)
    ensures
        r <==> a@ == b@,
{
    if a.len() != b.len() {
        return false;
    }
    let n: usize = a.len();
    let mut i: usize = 0;
    while i < n
        invariant
            n == a@.len(),
            n == b@.len(),
            i <= n,
            forall|j: int| 0 <= j < i ==> a@[j] == b@[j],
        decreases n - i,
    {
        if a[i] != b[i] {
            return false;
        }
        i = i + 1;
    }
    proof {
        assert(a@ =~= b@);
    }
    true
}

/// Copies the bytes of `v` from `lo` (inclusive) to `hi` (exclusive).
pub fn sub_bytes(v: &Vec<u8>, lo: usize, hi: usize) -> (r: Vec<u8>)
    requires
        lo <= hi <= v@.len(),
    ensures
        r@ == v@.subrange(lo as int, hi as int),
{
    let mut r: Vec<u8> = Vec::new();
    let mut i: usize = lo;
    while i < hi
        invariant
            lo <= i <= hi <= v@.len(),
            r@ =~= v@.subrange(lo as int, i as int),
        decreases hi - i,
    {
        r.push(v[i]);
        proof {
            assert(r@ =~= v@.subrange(lo as int, i + 1 as int));
        }
        i = i + 1;
    }
    r
}

/// Copies the bytes of the slice `s` from `lo` (inclusive) to `hi`
/// (exclusive).
pub fn slice_to_vec(s: &[u8], lo: usize, hi: usize) -> (r: Vec<u8>)
    requires
        lo <= hi <= s@.len(),
    ensures
        r@ == s@.subrange(lo as int, hi as int),
{
    let mut r: Vec<u8> = Vec::new();
    let mut i: usize = lo;
    while i < hi
        invariant
            lo <= i <= hi <= s@.len(),
            r@ =~= s@.subrange(lo as int, i as int),
        decreases hi - i,
    {
        r.push(s[i]);
        proof {
            assert(r@ =~= s@.subrange(lo as int, i + 1 as int));
        }
        i = i + 1;
    }
    r
}

/// The ASCII upper-case image of one byte.
pub open spec fn spec_upper_byte(b: u8) -> u8 {
    if 97 <= b <= 122 {
        (b - 32) as u8
    } else {
        b
    }
}

/// The ASCII upper-case image of a byte string.
pub open spec fn spec_upper(s: Seq<u8>) -> Seq<u8> {
    s.map_values(|b: u8| spec_upper_byte(b))
}

/// Upper-cases the ASCII letters of `v`.
pub fn to_upper(v: &Vec<u8>) -> (r: Vec<u8>)
    ensures
        r@ == spec_upper(v@),
{
    let n: usize = v.len();
    let mut r: Vec<u8> = Vec::new();
    let mut i: usize = 0;
    while i < n
        invariant
            n == v@.len(),
            i <= n,
            r@.len() == i,
            forall|j: int| 0 <= j < i ==> r@[j] == spec_upper_byte(v@[j]),
        decreases n - i,
    {
        let b = v[i];
        if 97 <= b && b <= 122 {
            r.push(b - 32);
        } else {
            r.push(b);
        }
        i = i + 1;
    }
    proof {
        assert(r@ =~= spec_upper(v@));
    }
    r
}

/// True for the whitespace bytes that surround a value: space, tab,
/// carriage return, line feed.
pub open spec fn is_ws(b: u8) -> bool {
    b == 32 || b == 9 || b == 13 || b == 10
}

/// `s` with leading whitespace removed.
pub open spec fn trim_front(s: Seq<u8>) -> Seq<u8>
    decreases s.len(),
{
    if s.len() > 0 && is_ws(s[0]) {
        trim_front(s.drop_first())
    } else {
        s
    }
}

/// `s` with trailing whitespace removed.
pub open spec fn trim_back(s: Seq<u8>) -> Seq<u8>
    decreases s.len(),
{
    if s.len() > 0 && is_ws(s[s.len() - 1]) {
        trim_back(s.drop_last())
    } else {
        s
    }
}

/// `s` with surrounding whitespace removed.
pub open spec fn spec_trim(s: Seq<u8>) -> Seq<u8> {
    trim_back(trim_front(s))
}

proof fn lemma_trim_front_skip(s: Seq<u8>, k: int)
    requires
        0 <= k <= s.len(),
        forall|j: int| 0 <= j < k ==> is_ws(s[j]),
        k < s.len() ==> !is_ws(s[k]),
    ensures
        trim_front(s) == s.skip(k),
    decreases k,
{
    if k == 0 {
        assert(s.skip(0) =~= s);
    } else {
        assert(is_ws(s[0]));
        lemma_trim_front_skip(s.drop_first(), k - 1);
        assert(s.drop_first().skip(k - 1) =~= s.skip(k));
    }
}

proof fn lemma_trim_back_take(s: Seq<u8>, k: int)
    requires
        0 <= k <= s.len(),
        forall|j: int| k <= j < s.len() ==> is_ws(s[j]),
        k > 0 ==> !is_ws(s[k - 1]),
    ensures
        trim_back(s) == s.take(k),
    decreases s.len() - k,
{
    if k == s.len() {
        assert(s.take(k) =~= s);
        if s.len() > 0 && is_ws(s[s.len() - 1]) {
            lemma_trim_back_take(s.drop_last(), k - 1);
            assert(s.drop_last().take(k - 1) =~= s.take(k - 1));
            assert(false);
        }
    } else {
        assert(is_ws(s[s.len() - 1]));
        lemma_trim_back_take(s.drop_last(), k);
        assert(s.drop_last().take(k) =~= s.take(k));
    }
}

/// True when the byte is surrounding whitespace.
pub fn is_ws_byte(b: u8) -> (r: bool)
    ensures
        r == is_ws(b),
{
    b == 32 || b == 9 || b == 13 || b == 10
}

/// Removes surrounding whitespace from `v`.
pub fn trim(v: &Vec<u8>) -> (r: Vec<u8>)
    ensures
        r@ == spec_trim(v@),
{
    let n: usize = v.len();
    let mut lo: usize = 0;
    while lo < n && is_ws_byte(v[lo])
        invariant
            n == v@.len(),
            lo <= n,
            forall|j: int| 0 <= j < lo ==> is_ws(v@[j]),
        decreases n - lo,
    {
        lo = lo + 1;
    }
    proof {
        lemma_trim_front_skip(v@, lo as int);
    }
    let mut hi: usize = n;
    while hi > lo && is_ws_byte(v[hi - 1])
        invariant
            lo <= hi <= n,
            n == v@.len(),
            forall|j: int| hi <= j < n ==> is_ws(v@[j]),
        decreases hi,
    {
        hi = hi - 1;
    }
    let r = sub_bytes(v, lo, hi);
    proof {
        let s = v@.skip(lo as int);
        assert(forall|j: int| hi - lo <= j < s.len() ==> is_ws(#[trigger] s[j]) && s[j] == v@[j
            + lo]) by {
            assert(forall|j: int| hi - lo <= j < s.len() ==> s[j] == v@[j + lo]);
        }
        if hi == lo {
            lemma_trim_back_take(s, 0);
        } else {
            assert(s[hi - lo - 1] == v@[hi - 1]);
            lemma_trim_back_take(s, hi - lo as int);
        }
        assert(s.take(hi - lo as int) =~= v@.subrange(lo as int, hi as int));
    }
    r
}

/// `s` with every CRLF pair removed.  In a folded header block every
/// interior CRLF precedes an indented continuation line, so removing
/// the pair splices that line, indent included, onto the previous one.
pub open spec fn spec_unfold(s: Seq<u8>) -> Seq<u8>
    decreases s.len(),
{
    if s.len() >= 2 && s[0] == 13u8 && s[1] == 10u8 {
        spec_unfold(s.skip(2))
    } else if s.len() > 0 {
        seq![s[0]] + spec_unfold(s.skip(1))
    } else {
        Seq::empty()
    }
}

/// Removes every CRLF pair from `v`.
pub fn unfold(v: &Vec<u8>) -> (r: Vec<u8>)
    ensures
        r@ == spec_unfold(v@),
{
    let n: usize = v.len();
    let mut r: Vec<u8> = Vec::new();
    let mut i: usize = 0;
    proof {
        assert(v@.skip(0) =~= v@);
        assert(r@ + spec_unfold(v@) =~= spec_unfold(v@));
    }
    while i < n
        invariant
            n == v@.len(),
            i <= n,
            spec_unfold(v@) == r@ + spec_unfold(v@.skip(i as int)),
        decreases n - i,
    {
        let ghost suf = v@.skip(i as int);
        if v[i] == CR && i + 1 < n && v[i + 1] == LF {
            proof {
                assert(suf[0] == 13u8);
                assert(suf[1] == 10u8);
                assert(suf.skip(2) =~= v@.skip(i + 2));
            }
            i = i + 2;
        } else {
            let ghost r0 = r@;
            r.push(v[i]);
            proof {
                assert(suf[0] == v@[i as int]);
                if suf.len() >= 2 && suf[0] == 13u8 && suf[1] == 10u8 {
                    assert(suf[1] == v@[i + 1]);
                    assert(false);
                }
                assert(spec_unfold(suf) == seq![suf[0]] + spec_unfold(suf.skip(1)));
                assert(suf.skip(1) =~= v@.skip(i + 1));
                assert(r0 + (seq![suf[0]] + spec_unfold(suf.skip(1))) =~= r@ + spec_unfold(
                    v@.skip(i + 1)));
            }
            i = i + 1;
        }
    }
    proof {
        assert(v@.skip(n as int) =~= Seq::<u8>::empty());
        assert(r@ + Seq::<u8>::empty() =~= r@);
    }
    r
}

/// Relies on std::str::from_utf8: it returns `Ok` exactly when the bytes
/// are valid UTF-8, and the borrowed str then views those same bytes.
#[verifier::external_body]
pub(crate) fn utf8_to_string(v: &[u8]) -> (r: Option<String>)
    ensures
        match r {
            Some(s) => vstd::utf8::valid_utf8(v@) && s@ == vstd::utf8::decode_utf8(v@),
            None => !vstd::utf8::valid_utf8(v@),
        },
{
    match std::str::from_utf8(v) {
        Ok(s) => Some(s.to_string()),
        Err(_) => None,
    }
}

} // verus!
