//! Byte-wise text comparisons.
//!
//! Paths are ordered and matched by their UTF-8 bytes, as storage orders them.

use vstd::prelude::*;
use vstd::utf8::encode_utf8;

verus! {

/// The UTF-8 bytes of a text.
pub open spec fn utf8(text: Seq<char>) -> Seq<u8> {
    encode_utf8(text)
}

/// The bytes of `text` begin with those of `prefix`.
pub open spec fn begins(text: Seq<u8>, prefix: Seq<u8>) -> bool {
    prefix.len() <= text.len() && text.subrange(0, prefix.len() as int) == prefix
}

/// The bytes end in a slash.
pub open spec fn is_directory(text: Seq<u8>) -> bool {
    text.len() > 0 && text.last() == 47u8
}

/// Byte-wise lexicographic order.
pub open spec fn precedes(a: Seq<u8>, b: Seq<u8>) -> bool
    decreases b.len(),
{
    if b.len() == 0 {
        false
    } else if a.len() == 0 {
        true
    } else if a[0] != b[0] {
        a[0] < b[0]
    } else {
        precedes(a.drop_first(), b.drop_first())
    }
}

/// `needle` occurs in `text` at `at`.
pub open spec fn occurs_at(text: Seq<u8>, needle: Seq<u8>, at: int) -> bool {
    0 <= at && at + needle.len() <= text.len() && text.subrange(at, at + needle.len()) == needle
}

/// `needle` occurs somewhere in `text`.
pub open spec fn occurs(text: Seq<u8>, needle: Seq<u8>) -> bool {
    exists|at: int| occurs_at(text, needle, at)
}

/// No text precedes itself.
pub proof fn order_is_irreflexive(a: Seq<u8>)
    ensures
        !precedes(a, a),
    decreases a.len(),
{
    if a.len() > 0 {
        order_is_irreflexive(a.drop_first());
    }
}

/// A text that precedes one that precedes another precedes that one too.
pub proof fn order_is_transitive(a: Seq<u8>, b: Seq<u8>, c: Seq<u8>)
    requires
        precedes(a, b),
        precedes(b, c),
    ensures
        precedes(a, c),
    decreases c.len(),
{
    if a.len() > 0 && a[0] == b[0] && b[0] == c[0] {
        order_is_transitive(a.drop_first(), b.drop_first(), c.drop_first());
    }
}

/// Of two different texts one precedes the other.
pub proof fn order_is_total(a: Seq<u8>, b: Seq<u8>)
    ensures
        precedes(a, b) || precedes(b, a) || a == b,
    decreases b.len(),
{
    if a.len() == 0 && b.len() == 0 {
        assert(a =~= b);
    } else if a.len() > 0 && b.len() > 0 && a[0] == b[0] {
        order_is_total(a.drop_first(), b.drop_first());
        if a.drop_first() == b.drop_first() {
            assert(a =~= seq![a[0]] + a.drop_first());
            assert(b =~= seq![b[0]] + b.drop_first());
        }
    }
}

proof fn order_after_common(a: Seq<u8>, b: Seq<u8>, n: int)
    requires
        0 <= n <= a.len(),
        n <= b.len(),
        a.subrange(0, n) == b.subrange(0, n),
    ensures
        precedes(a, b) == precedes(a.subrange(n, a.len() as int), b.subrange(n, b.len() as int)),
    decreases n,
{
    if n == 0 {
        assert(a.subrange(0, a.len() as int) =~= a);
        assert(b.subrange(0, b.len() as int) =~= b);
    } else {
        assert(a[0] == a.subrange(0, n)[0]);
        assert(b[0] == b.subrange(0, n)[0]);
        let x = a.drop_first();
        let y = b.drop_first();
        assert(x.subrange(0, n - 1) =~= a.subrange(0, n).drop_first());
        assert(y.subrange(0, n - 1) =~= b.subrange(0, n).drop_first());
        order_after_common(x, y, n - 1);
        assert(x.subrange(n - 1, x.len() as int) =~= a.subrange(n, a.len() as int));
        assert(y.subrange(n - 1, y.len() as int) =~= b.subrange(n, b.len() as int));
    }
}

/// The number of bytes of a text.
pub fn byte_len(text: &str) -> (n: usize)
    ensures
        n == utf8(text@).len(),
{
    text.as_bytes().len()
}

/// Whether two byte strings are the same.
pub fn same_bytes(a: &[u8], b: &[u8]) -> (r: bool)
    ensures
        r == (a@ == b@),
{
    if a.len() != b.len() {
        return false;
    }
    let mut i: usize = 0;
    while i < a.len()
        invariant
            i <= a@.len(),
            a@.len() == b@.len(),
            forall|j: int| 0 <= j < i ==> a@[j] == b@[j],
        decreases a@.len() - i,
    {
        if a[i] != b[i] {
            assert(a@[i as int] != b@[i as int]);
            return false;
        }
        i += 1;
    }
    assert(a@ =~= b@);
    true
}

/// Whether two texts are the same, byte for byte.
pub fn same_text(a: &str, b: &str) -> (r: bool)
    ensures
        r == (utf8(a@) == utf8(b@)),
{
    same_bytes(a.as_bytes(), b.as_bytes())
}

/// Whether the bytes begin with a prefix.
pub fn begins_bytes(text: &[u8], prefix: &[u8]) -> (r: bool)
    ensures
        r == begins(text@, prefix@),
{
    if text.len() < prefix.len() {
        return false;
    }
    let mut i: usize = 0;
    while i < prefix.len()
        invariant
            i <= prefix@.len() <= text@.len(),
            forall|j: int| 0 <= j < i ==> text@[j] == prefix@[j],
        decreases prefix@.len() - i,
    {
        if text[i] != prefix[i] {
            assert(text@.subrange(0, prefix@.len() as int)[i as int] == text@[i as int]);
            return false;
        }
        i += 1;
    }
    assert(text@.subrange(0, prefix@.len() as int) =~= prefix@);
    true
}

/// Whether a text begins with a prefix.
pub fn begins_with(text: &str, prefix: &str) -> (r: bool)
    ensures
        r == begins(utf8(text@), utf8(prefix@)),
{
    begins_bytes(text.as_bytes(), prefix.as_bytes())
}

/// Whether a text ends in a slash.
pub fn ends_in_slash(text: &str) -> (r: bool)
    ensures
        r == is_directory(utf8(text@)),
{
    let bytes = text.as_bytes();
    bytes.len() > 0 && bytes[bytes.len() - 1] == 47u8
}

/// Whether a text comes before another in byte order.
pub fn text_precedes(a: &str, b: &str) -> (r: bool)
    ensures
        r == precedes(utf8(a@), utf8(b@)),
{
    let x = a.as_bytes();
    let y = b.as_bytes();
    let mut i: usize = 0;
    while i < x.len() && i < y.len() && x[i] == y[i]
        invariant
            i <= x@.len(),
            i <= y@.len(),
            forall|j: int| 0 <= j < i ==> x@[j] == y@[j],
        decreases x@.len() - i,
    {
        i += 1;
    }
    proof {
        assert(x@.subrange(0, i as int) =~= y@.subrange(0, i as int));
        order_after_common(x@, y@, i as int);
    }
    if i == y.len() {
        false
    } else if i == x.len() {
        true
    } else {
        x[i] < y[i]
    }
}

/// Whether `needle` occurs in `text`.
pub fn contains_bytes(text: &[u8], needle: &[u8]) -> (r: bool)
    ensures
        r == occurs(text@, needle@),
{
    if text.len() < needle.len() {
        return false;
    }
    let last: usize = text.len() - needle.len();
    let mut at: usize = 0;
    while at <= last
        invariant
            last == text@.len() - needle@.len(),
            text@.len() <= usize::MAX,
            at <= last + 1,
            forall|k: int| 0 <= k < at ==> !occurs_at(text@, needle@, k),
        decreases last + 1 - at,
    {
        let mut i: usize = 0;
        while i < needle.len() && text[at + i] == needle[i]
            invariant
                at <= last,
                last == text@.len() - needle@.len(),
                text@.len() <= usize::MAX,
                i <= needle@.len(),
                forall|j: int| 0 <= j < i ==> text@[at + j] == needle@[j],
            decreases needle@.len() - i,
        {
            i += 1;
        }
        if i == needle.len() {
            assert(text@.subrange(at as int, at + needle@.len()) =~= needle@);
            assert(occurs_at(text@, needle@, at as int));
            return true;
        }
        proof {
            if occurs_at(text@, needle@, at as int) {
                assert(text@.subrange(at as int, at + needle@.len())[i as int] == text@[at + i]);
            }
        }
        if at == last {
            return false;
        }
        at += 1;
    }
    false
}

/// What follows a prefix, where the text begins with it.
pub fn strip<'a>(text: &'a str, prefix: &str) -> (r: Option<&'a [u8]>)
    ensures
        r is Some == begins(utf8(text@), utf8(prefix@)),
        r matches Some(rest) ==> rest@ == utf8(text@).subrange(
            utf8(prefix@).len() as int,
            utf8(text@).len() as int,
        ),
{
    let bytes = text.as_bytes();
    let head = prefix.as_bytes();
    if begins_bytes(bytes, head) {
        Some(vstd::slice::slice_subrange(bytes, head.len(), bytes.len()))
    } else {
        None
    }
}

/// A text begins with a prefix exactly where it is the prefix with something behind it.
pub proof fn beginnings_are_prefixes(text: Seq<u8>, prefix: Seq<u8>)
    ensures
        begins(text, prefix) <==> exists|rest: Seq<u8>| text == #[trigger] (prefix + rest),
{
    if begins(text, prefix) {
        let rest = text.subrange(prefix.len() as int, text.len() as int);
        assert(text =~= prefix + rest);
    }
    if exists|rest: Seq<u8>| text == #[trigger] (prefix + rest) {
        let rest = choose|rest: Seq<u8>| text == #[trigger] (prefix + rest);
        assert((prefix + rest).subrange(0, prefix.len() as int) =~= prefix);
    }
}

/// One text precedes another exactly where it is a proper prefix of it, or the first byte in which
/// they differ is smaller.
pub proof fn order_is_lexicographic(a: Seq<u8>, b: Seq<u8>)
    ensures
        precedes(a, b) <==> exists|k: int|
            {
                &&& 0 <= k <= a.len()
                &&& k < b.len()
                &&& a.subrange(0, k) == #[trigger] b.subrange(0, k)
                &&& k == a.len() || a[k] < b[k]
            },
    decreases b.len(),
{
    if b.len() > 0 && a.len() > 0 && a[0] == b[0] {
        let (x, y) = (a.drop_first(), b.drop_first());
        order_is_lexicographic(x, y);
        if precedes(x, y) {
            let k = choose|k: int|
                {
                    &&& 0 <= k <= x.len()
                    &&& k < y.len()
                    &&& x.subrange(0, k) == #[trigger] y.subrange(0, k)
                    &&& k == x.len() || x[k] < y[k]
                };
            assert(a.subrange(0, k + 1) =~= seq![a[0]] + x.subrange(0, k));
            assert(b.subrange(0, k + 1) =~= seq![b[0]] + y.subrange(0, k));
        }
        if exists|k: int|
            {
                &&& 0 <= k <= a.len()
                &&& k < b.len()
                &&& a.subrange(0, k) == #[trigger] b.subrange(0, k)
                &&& k == a.len() || a[k] < b[k]
            } {
            let k = choose|k: int|
                {
                    &&& 0 <= k <= a.len()
                    &&& k < b.len()
                    &&& a.subrange(0, k) == #[trigger] b.subrange(0, k)
                    &&& k == a.len() || a[k] < b[k]
                };
            assert(x.subrange(0, k - 1) =~= a.subrange(0, k).drop_first());
            assert(y.subrange(0, k - 1) =~= b.subrange(0, k).drop_first());
        }
    } else if b.len() > 0 {
        assert(a.subrange(0, 0) =~= b.subrange(0, 0));
        if exists|k: int|
            {
                &&& 0 <= k <= a.len()
                &&& k < b.len()
                &&& a.subrange(0, k) == #[trigger] b.subrange(0, k)
                &&& k == a.len() || a[k] < b[k]
            } {
            let k = choose|k: int|
                {
                    &&& 0 <= k <= a.len()
                    &&& k < b.len()
                    &&& a.subrange(0, k) == #[trigger] b.subrange(0, k)
                    &&& k == a.len() || a[k] < b[k]
                };
            if k > 0 {
                assert(a.subrange(0, k)[0] == b.subrange(0, k)[0]);
            }
        }
    }
}

} // verus!
