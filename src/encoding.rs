//! Choosing the transfer compression from what a client accepts.

use vstd::prelude::*;
use crate::text::{before, lemma_before_at};
use vstd::string::StringSliceAdditionalSpecFns;

verus! {

/// A content coding as a client names it.
#[derive(Clone, Copy, Debug, PartialEq, Eq, Structural)]
pub enum Coding {
    Gzip,
    Deflate,
    Identity,
    Other,
}

/// The representations the page is served in.
#[derive(Clone, Copy, Debug, PartialEq, Eq, Structural)]
pub enum Encoding {
    Identity,
    Gzip,
    Deflate,
}

/// One coding that a client accepts, with its weight in thousandths
/// (`q=0.5` is 500; no weight given is 1000).
#[derive(Clone, Copy, Debug, PartialEq, Eq, Structural)]
pub struct QualityItem {
    pub coding: Coding,
    pub quality: u16,
}

pub open spec fn compresses(c: Coding) -> bool {
    c == Coding::Gzip || c == Coding::Deflate
}

pub open spec fn encoding_of(c: Coding) -> Encoding {
    match c {
        Coding::Gzip => Encoding::Gzip,
        Coding::Deflate => Encoding::Deflate,
        _ => Encoding::Identity,
    }
}

/// Item `i` is the compressing coding that a stable sort by falling weight
/// puts first: no compressing item weighs more, and every one before it
/// weighs less.
pub open spec fn is_choice(items: Seq<QualityItem>, i: int) -> bool {
    &&& 0 <= i < items.len()
    &&& compresses(items[i].coding)
    &&& forall|j: int| 0 <= j < items.len() && compresses(#[trigger] items[j].coding) ==> items[j].quality <= items[i].quality
    &&& forall|j: int| 0 <= j < i && compresses(#[trigger] items[j].coding) ==> items[j].quality < items[i].quality
}

/// The encoding chosen for `items`: the coding of the choice, or identity
/// where no item names gzip or deflate.
pub open spec fn negotiated(items: Seq<QualityItem>) -> Encoding {
    if exists|i: int| is_choice(items, i) {
        encoding_of(items[choose|i: int| is_choice(items, i)].coding)
    } else {
        Encoding::Identity
    }
}

/// At most one item is the choice.
pub proof fn lemma_choice_unique(items: Seq<QualityItem>, i: int, k: int)
    requires
        is_choice(items, i),
        is_choice(items, k),
    ensures
        i == k,
{
    if i < k {
        assert(items[i].quality < items[k].quality);
    } else if k < i {
        assert(items[k].quality < items[i].quality);
    }
}

/// Of a client's items, the compressing one with the greatest weight, the
/// earliest among equals, decides the encoding; as a stable sort by
/// falling weight followed by taking the first gzip or deflate would.
pub proof fn lemma_negotiated_choice(items: Seq<QualityItem>, i: int)
    requires
        is_choice(items, i),
    ensures
        negotiated(items) == encoding_of(items[i].coding),
{
    let c = choose|k: int| is_choice(items, k);
    lemma_choice_unique(items, i, c);
}

/// The compression to serve for what a client accepts: of the items naming
/// gzip or deflate, the one with the greatest weight, the earliest among
/// equals; identity where there is none.
pub fn negotiate(items: &Vec<QualityItem>) -> (r: Encoding)
    ensures
        r == negotiated(items@),
        (r == Encoding::Identity) <==> (forall|j: int| 0 <= j < items@.len() ==> !compresses(#[trigger] items@[j].coding)),
{
    let mut best: Option<usize> = None;
    let mut i: usize = 0;
    while i < items.len()
        invariant
            i <= items@.len(),
            best is None ==> forall|j: int| 0 <= j < i ==> !compresses(#[trigger] items@[j].coding),
            best matches Some(b) ==> b < i && is_choice(items@.take(i as int), b as int),
        decreases items@.len() - i,
    {
        let it = items[i];
        let compressing = match it.coding {
            Coding::Gzip => true,
            Coding::Deflate => true,
            _ => false,
        };
        if compressing {
            match best {
                None => {
                    best = Some(i);
                    assert(is_choice(items@.take(i + 1), i as int));
                },
                Some(b) => {
                    if it.quality > items[b].quality {
                        best = Some(i);
                        assert(is_choice(items@.take(i + 1), i as int));
                    } else {
                        assert(is_choice(items@.take(i + 1), b as int));
                    }
                },
            }
        } else {
            match best {
                Some(b) => {
                    assert(is_choice(items@.take(i + 1), b as int));
                },
                None => {},
            }
        }
        i = i + 1;
    }
    assert(items@.take(items@.len() as int) =~= items@);
    match best {
        None => Encoding::Identity,
        Some(b) => {
            proof {
                let c = choose|k: int| is_choice(items@, k);
                lemma_choice_unique(items@, b as int, c);
            }
            match items[b].coding {
                Coding::Gzip => Encoding::Gzip,
                _ => Encoding::Deflate,
            }
        },
    }
}

/// Space or tab.
pub open spec fn is_ows(b: u8) -> bool {
    b == 32 || b == 9
}

pub open spec fn trim_start(s: Seq<u8>) -> Seq<u8>
    decreases s.len(),
{
    if s.len() > 0 && is_ows(s[0]) {
        trim_start(s.skip(1))
    } else {
        s
    }
}

pub open spec fn trim_end(s: Seq<u8>) -> Seq<u8>
    decreases s.len(),
{
    if s.len() > 0 && is_ows(s.last()) {
        trim_end(s.drop_last())
    } else {
        s
    }
}

/// `s` without spaces and tabs at either end.
pub open spec fn trim(s: Seq<u8>) -> Seq<u8> {
    trim_end(trim_start(s))
}

/// The coding a name stands for: `gzip`, `deflate` and `identity`, in
/// lower case, are known.
pub open spec fn coding_named(t: Seq<u8>) -> Coding {
    if t.len() == 4 && t[0] == 103 && t[1] == 122 && t[2] == 105 && t[3] == 112 {
        Coding::Gzip
    } else if t.len() == 7 && t[0] == 100 && t[1] == 101 && t[2] == 102 && t[3] == 108 && t[4] == 97
        && t[5] == 116 && t[6] == 101 {
        Coding::Deflate
    } else if t.len() == 8 && t[0] == 105 && t[1] == 100 && t[2] == 101 && t[3] == 110 && t[4] == 116
        && t[5] == 105 && t[6] == 116 && t[7] == 121 {
        Coding::Identity
    } else {
        Coding::Other
    }
}

pub open spec fn is_digit(b: u8) -> bool {
    48 <= b <= 57
}

/// The decimal digit at `i` of `v`, 0 past its end.
pub open spec fn digit_at(v: Seq<u8>, i: int) -> int {
    if i < v.len() {
        v[i] - 48
    } else {
        0
    }
}

/// A weight as HTTP writes it, in thousandths: `1`, or `1.` with up to
/// three zeros, or `0`, or `0.` with up to three digits.
pub open spec fn weight_of(v: Seq<u8>) -> Option<u16> {
    if v.len() == 1 && v[0] == 49 {
        Some(1000)
    } else if v.len() == 1 && v[0] == 48 {
        Some(0)
    } else if 2 <= v.len() <= 5 && v[1] == 46 && v[0] == 49 && (forall|i: int| 2 <= i < v.len() ==> v[i] == 48) {
        Some(1000)
    } else if 2 <= v.len() <= 5 && v[1] == 46 && v[0] == 48 && (forall|i: int| 2 <= i < v.len() ==> is_digit(v[i])) {
        Some((digit_at(v, 2) * 100 + digit_at(v, 3) * 10 + digit_at(v, 4)) as u16)
    } else {
        None
    }
}

/// The weight that a parameter `q=...` gives.
pub open spec fn quality_param(p: Seq<u8>) -> Option<u16> {
    if p.len() >= 2 && p[0] == 113 && p[1] == 61 {
        weight_of(p.skip(2))
    } else {
        None
    }
}

/// One comma-separated element: a coding name, then optionally `;` and a
/// weight. Blank elements, and those with a weight that does not read, are
/// left out.
pub open spec fn element_item(e: Seq<u8>) -> Option<QualityItem> {
    let t = trim(e);
    let name = before(t, 59u8);
    if t.len() == 0 {
        None
    } else if name.len() == t.len() {
        Some(QualityItem { coding: coding_named(trim(name)), quality: 1000 })
    } else {
        match quality_param(trim(t.skip(name.len() as int + 1))) {
            Some(q) => Some(QualityItem { coding: coding_named(trim(name)), quality: q }),
            None => None,
        }
    }
}

/// The items of an `Accept-Encoding` value, in the order written.
pub open spec fn accepted_items(s: Seq<u8>) -> Seq<QualityItem>
    decreases s.len(),
{
    let head = before(s, 44u8);
    let rest = if head.len() < s.len() {
        accepted_items(s.skip(head.len() as int + 1))
    } else {
        Seq::empty()
    };
    match element_item(head) {
        Some(q) => seq![q] + rest,
        None => rest,
    }
}

fn find_byte(s: &[u8], b: u8, lo: usize, hi: usize) -> (r: usize)
    requires
        lo <= hi <= s@.len(),
    ensures
        lo <= r <= hi,
        forall|i: int| lo <= i < r ==> s@[i] != b,
        r == hi || s@[r as int] == b,
{
    let mut i = lo;
    while i < hi && s[i] != b
        invariant
            lo <= i <= hi <= s@.len(),
            forall|j: int| lo <= j < i ==> s@[j] != b,
        decreases hi - i,
    {
        i = i + 1;
    }
    i
}

/// Where `before` splits `s[lo..hi]` at `sep`.
fn split_at_byte(s: &[u8], sep: u8, lo: usize, hi: usize) -> (k: usize)
    requires
        lo <= hi <= s@.len(),
    ensures
        lo <= k <= hi,
        before(s@.subrange(lo as int, hi as int), sep) == s@.subrange(lo as int, k as int),
{
    let k = find_byte(s, sep, lo, hi);
    proof {
        let t = s@.subrange(lo as int, hi as int);
        lemma_before_at(t, sep, k - lo);
        assert(t.take(k - lo) =~= s@.subrange(lo as int, k as int));
    }
    k
}

fn trim_bounds(s: &[u8], lo: usize, hi: usize) -> (r: (usize, usize))
    requires
        lo <= hi <= s@.len(),
    ensures
        lo <= r.0 <= r.1 <= hi,
        s@.subrange(r.0 as int, r.1 as int) == trim(s@.subrange(lo as int, hi as int)),
{
    let mut a = lo;
    while a < hi && (s[a] == 32 || s[a] == 9)
        invariant
            lo <= a <= hi <= s@.len(),
            trim_start(s@.subrange(lo as int, hi as int)) == trim_start(s@.subrange(a as int, hi as int)),
        decreases hi - a,
    {
        assert(s@.subrange(a as int, hi as int).skip(1) =~= s@.subrange(a + 1, hi as int));
        a = a + 1;
    }
    let mut b = hi;
    while b > a && (s[b - 1] == 32 || s[b - 1] == 9)
        invariant
            lo <= a <= b <= hi <= s@.len(),
            trim(s@.subrange(lo as int, hi as int)) == trim_end(s@.subrange(a as int, b as int)),
        decreases b - a,
    {
        assert(s@.subrange(a as int, b as int).drop_last() =~= s@.subrange(a as int, b - 1));
        b = b - 1;
    }
    (a, b)
}

fn coding_at(s: &[u8], lo: usize, hi: usize) -> (r: Coding)
    requires
        lo <= hi <= s@.len(),
    ensures
        r == coding_named(s@.subrange(lo as int, hi as int)),
{
    let n = hi - lo;
    if n == 4 && s[lo] == 103 && s[lo + 1] == 122 && s[lo + 2] == 105 && s[lo + 3] == 112 {
        Coding::Gzip
    } else if n == 7 && s[lo] == 100 && s[lo + 1] == 101 && s[lo + 2] == 102 && s[lo + 3] == 108
        && s[lo + 4] == 97 && s[lo + 5] == 116 && s[lo + 6] == 101 {
        Coding::Deflate
    } else if n == 8 && s[lo] == 105 && s[lo + 1] == 100 && s[lo + 2] == 101 && s[lo + 3] == 110
        && s[lo + 4] == 116 && s[lo + 5] == 105 && s[lo + 6] == 116 && s[lo + 7] == 121 {
        Coding::Identity
    } else {
        Coding::Other
    }
}

/// Whether each byte of `s[lo..hi]` is `0`, or (with `any_digit`) a digit.
fn all_digits(s: &[u8], lo: usize, hi: usize, any_digit: bool) -> (r: bool)
    requires
        lo <= hi <= s@.len(),
    ensures
        !any_digit ==> r == (forall|i: int| lo <= i < hi ==> s@[i] == 48),
        any_digit ==> r == (forall|i: int| lo <= i < hi ==> is_digit(s@[i])),
{
    let mut i = lo;
    while i < hi
        invariant
            lo <= i <= hi <= s@.len(),
            !any_digit ==> forall|j: int| lo <= j < i ==> s@[j] == 48,
            any_digit ==> forall|j: int| lo <= j < i ==> is_digit(s@[j]),
        decreases hi - i,
    {
        let ok = if any_digit { 48 <= s[i] && s[i] <= 57 } else { s[i] == 48 };
        if !ok {
            return false;
        }
        i = i + 1;
    }
    true
}

fn quality_at(s: &[u8], lo: usize, hi: usize) -> (r: Option<u16>)
    requires
        lo <= hi <= s@.len(),
    ensures
        r == quality_param(s@.subrange(lo as int, hi as int)),
{
    let ghost p = s@.subrange(lo as int, hi as int);
    if hi - lo < 2 || s[lo] != 113 || s[lo + 1] != 61 {
        return None;
    }
    let v0 = lo + 2;
    let n = hi - v0;
    let ghost v = p.skip(2);
    assert(v =~= s@.subrange(v0 as int, hi as int));
    if n == 1 && s[v0] == 49 {
        Some(1000)
    } else if n == 1 && s[v0] == 48 {
        Some(0)
    } else if 2 <= n && n <= 5 && s[v0 + 1] == 46 && s[v0] == 49 {
        if all_digits(s, v0 + 2, hi, false) {
            assert(forall|i: int| 2 <= i < v.len() ==> v[i] == s@[v0 + i]);
            Some(1000)
        } else {
            assert(!(forall|i: int| 2 <= i < v.len() ==> v[i] == 48)) by {
                let j = choose|j: int| v0 + 2 <= j < hi && s@[j] != 48;
                assert(v[j - v0] == s@[j]);
            }
            None
        }
    } else if 2 <= n && n <= 5 && s[v0 + 1] == 46 && s[v0] == 48 {
        if all_digits(s, v0 + 2, hi, true) {
            assert(forall|i: int| 2 <= i < v.len() ==> v[i] == s@[v0 + i]);
            let d2: u16 = if n > 2 { (s[v0 + 2] - 48) as u16 } else { 0 };
            let d3: u16 = if n > 3 { (s[v0 + 3] - 48) as u16 } else { 0 };
            let d4: u16 = if n > 4 { (s[v0 + 4] - 48) as u16 } else { 0 };
            assert(d2 == digit_at(v, 2) && d3 == digit_at(v, 3) && d4 == digit_at(v, 4));
            Some(d2 * 100 + d3 * 10 + d4)
        } else {
            assert(!(forall|i: int| 2 <= i < v.len() ==> is_digit(v[i]))) by {
                let j = choose|j: int| v0 + 2 <= j < hi && !is_digit(s@[j]);
                assert(v[j - v0] == s@[j]);
            }
            None
        }
    } else {
        None
    }
}

fn element_at(s: &[u8], lo: usize, hi: usize) -> (r: Option<QualityItem>)
    requires
        lo <= hi <= s@.len(),
    ensures
        r == element_item(s@.subrange(lo as int, hi as int)),
{
    let ghost e = s@.subrange(lo as int, hi as int);
    let (a, b) = trim_bounds(s, lo, hi);
    if a == b {
        return None;
    }
    let k = split_at_byte(s, 59, a, b);
    let (n0, n1) = trim_bounds(s, a, k);
    let coding = coding_at(s, n0, n1);
    if k == b {
        Some(QualityItem { coding: coding, quality: 1000 })
    } else {
        let (w0, w1) = trim_bounds(s, k + 1, b);
        proof {
            let t = s@.subrange(a as int, b as int);
            assert(t.skip(k - a + 1) =~= s@.subrange(k + 1, b as int));
        }
        match quality_at(s, w0, w1) {
            Some(q) => Some(QualityItem { coding: coding, quality: q }),
            None => None,
        }
    }
}

/// Reads an `Accept-Encoding` value into its items, in the order written.
pub fn parse_accept_encoding(header: &str) -> (r: Vec<QualityItem>)
    ensures
        r@ == accepted_items(header.spec_bytes()),
{
    let s = header.as_bytes();
    let len = s.len();
    let mut out: Vec<QualityItem> = Vec::new();
    let mut start: usize = 0;
    assert(s@.skip(0) =~= s@);
    loop
        invariant
            start <= len == s@.len(),
            accepted_items(s@) == out@ + accepted_items(s@.skip(start as int)),
        ensures
            start == len,
            accepted_items(s@) == out@ + accepted_items(s@.skip(start as int)),
        decreases len - start,
    {
        let k = split_at_byte(s, 44, start, len);
        let item = element_at(s, start, k);
        let ghost rest = s@.skip(start as int);
        assert(rest =~= s@.subrange(start as int, len as int));
        let ghost prev = out@;
        match item {
            Some(q) => out.push(q),
            None => {},
        }
        if k == len {
            assert(out@ =~= prev + accepted_items(rest));
            assert(s@.skip(len as int) =~= Seq::<u8>::empty());
            assert(accepted_items(s@.skip(len as int)) =~= Seq::<QualityItem>::empty());
            assert(accepted_items(s@) =~= out@ + accepted_items(s@.skip(len as int)));
            start = len;
            break;
        }
        assert(rest.skip(k - start + 1) =~= s@.skip(k + 1));
        assert(accepted_items(s@) =~= out@ + accepted_items(s@.skip(k + 1)));
        start = k + 1;
    }
    assert(s@.skip(len as int) =~= Seq::<u8>::empty());
    assert(accepted_items(s@.skip(len as int)) =~= Seq::<QualityItem>::empty());
    assert(out@ =~= accepted_items(s@));
    out
}

} // verus!
