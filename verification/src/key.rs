//! Fixed-width, NUL-padded keys and namespace names.
use vstd::prelude::*;
use vstd::slice::slice_subrange;
use vstd::utf8::valid_utf8;
use vstd::string::StringSliceAdditionalSpecFns;

use crate::text::{all_ascii, ascii_chars, ascii_string, escape_default, push_escaped, lemma_escape_ascii, lemma_escape_default_table};
use crate::{MAX_KEY_LENGTH, MAX_KEY_NUL_TERMINATED_LENGTH};

verus! {

/// A 16-byte key used for NVS storage (15 characters + null terminator)
#[derive(Clone, Copy, PartialEq, Eq, PartialOrd, Ord, Hash)]
pub struct Key([u8; MAX_KEY_NUL_TERMINATED_LENGTH]);

impl View for Key {
    type V = Seq<u8>;

    closed spec fn view(&self) -> Seq<u8> {
        self.0@
    }
}

/// `bytes` followed by NUL bytes up to the width of a key.
pub open spec fn nul_padded(bytes: Seq<u8>) -> Seq<u8> {
    bytes + Seq::new((16 - bytes.len()) as nat, |i: int| 0u8)
}

/// A key made from at most 15 bytes gives them back in front, is NUL
/// everywhere after them, and so always ends in its NUL terminator.
pub proof fn lemma_nul_padded_keeps_bytes(bytes: Seq<u8>)
    requires
        bytes.len() <= 15,
    ensures
        nul_padded(bytes).len() == 16,
        nul_padded(bytes).take(bytes.len() as int) == bytes,
        forall|i: int| bytes.len() <= i < 16 ==> #[trigger] nul_padded(bytes)[i] == 0,
        nul_padded(bytes)[15] == 0,
{
    assert(nul_padded(bytes).take(bytes.len() as int) =~= bytes);
}

/// `a` comes before `b` in the order of byte slices: at the first place
/// where they differ the byte of `a` is smaller, or `a` is a proper
/// prefix of `b`.
pub open spec fn bytes_less(a: Seq<u8>, b: Seq<u8>) -> bool
    decreases a.len(),
{
    if a.len() == 0 {
        b.len() > 0
    } else if b.len() == 0 {
        false
    } else if a[0] != b[0] {
        a[0] < b[0]
    } else {
        bytes_less(a.drop_first(), b.drop_first())
    }
}

/// `bytes` followed by NUL bytes up to length `n`.
pub open spec fn padded_to(bytes: Seq<u8>, n: nat) -> Seq<u8> {
    bytes + Seq::new((n - bytes.len()) as nat, |i: int| 0u8)
}

proof fn lemma_be_value_front(x: Seq<u8>)
    requires
        x.len() > 0,
    ensures
        be_value(x) == x[0] * pow256((x.len() - 1) as nat) + be_value(x.drop_first()),
    decreases x.len(),
{
    if x.len() == 1 {
        assert(x.drop_last() =~= Seq::<u8>::empty());
        assert(x.drop_first() =~= Seq::<u8>::empty());
        assert(be_value(x) == be_value(x.drop_last()) * 256 + x.last());
        assert(pow256(0) == 1);
        assert(x[0] * pow256(0) == x[0]);
    } else {
        let dl = x.drop_last();
        lemma_be_value_front(dl);
        assert(dl.drop_first() =~= x.drop_first().drop_last());
        assert(x.drop_first().last() == x.last());
        let p = pow256((x.len() - 2) as nat);
        let x0 = x[0] as int;
        let r = be_value(dl.drop_first()) as int;
        assert(pow256((x.len() - 1) as nat) == p * 256);
        assert(be_value(x) == be_value(dl) * 256 + x.last());
        assert(be_value(x.drop_first()) == be_value(x.drop_first().drop_last()) * 256 + x.drop_first().last());
        assert(be_value(x.drop_first()) == r * 256 + x.last());
        assert(be_value(dl) == x0 * p + r);
        assert((x0 * p + r) * 256 == x0 * (p * 256) + r * 256) by (nonlinear_arith);
    }
}

/// On sequences of one length, big-endian values compare as the
/// sequences do.
proof fn lemma_be_value_order(x: Seq<u8>, y: Seq<u8>)
    requires
        x.len() == y.len(),
    ensures
        (be_value(x) < be_value(y)) == bytes_less(x, y),
    decreases x.len(),
{
    if x.len() > 0 {
        let n = (x.len() - 1) as nat;
        let p = pow256(n);
        lemma_be_value_front(x);
        lemma_be_value_front(y);
        lemma_be_value_bound(x.drop_first());
        lemma_be_value_bound(y.drop_first());
        lemma_be_value_order(x.drop_first(), y.drop_first());
        let x0 = x[0] as int;
        let y0 = y[0] as int;
        let rx = be_value(x.drop_first()) as int;
        let ry = be_value(y.drop_first()) as int;
        if x0 < y0 {
            assert(x0 * p + rx < y0 * p + ry) by (nonlinear_arith)
                requires
                    x0 < y0,
                    0 <= rx < p,
                    0 <= ry,
                    0 <= x0,
            ;
        } else if y0 < x0 {
            assert(y0 * p + ry < x0 * p + rx) by (nonlinear_arith)
                requires
                    y0 < x0,
                    0 <= ry < p,
                    0 <= rx,
                    0 <= y0,
            ;
        }
    }
}

proof fn lemma_padded_nul_free(a: Seq<u8>, b: Seq<u8>, n: nat)
    requires
        a.len() <= n,
        b.len() <= n,
        !a.contains(0u8),
        !b.contains(0u8),
    ensures
        (padded_to(a, n) == padded_to(b, n)) == (a == b),
        bytes_less(padded_to(a, n), padded_to(b, n)) == bytes_less(a, b),
    decreases n,
{
    let pa = padded_to(a, n);
    let pb = padded_to(b, n);
    if n > 0 {
        if a.len() == 0 && b.len() == 0 {
            assert(pa =~= pb);
            assert(a =~= b);
            lemma_bytes_less_irreflexive(pa);
        } else if a.len() == 0 {
            assert(pa[0] == 0);
            assert(pb[0] == b[0]);
            assert(b[0] != 0) by {
                assert(b.contains(b[0]));
            }
            assert(pa[0] != pb[0]);
        } else if b.len() == 0 {
            assert(pb[0] == 0);
            assert(pa[0] == a[0]);
            assert(a[0] != 0) by {
                assert(a.contains(a[0]));
            }
            assert(pa[0] != pb[0]);
        } else if a[0] != b[0] {
            assert(pa[0] == a[0] && pb[0] == b[0]);
        } else {
            let ra = a.drop_first();
            let rb = b.drop_first();
            assert forall|x: u8| ra.contains(x) implies a.contains(x) by {
                let k = choose|k: int| 0 <= k < ra.len() && ra[k] == x;
                assert(a[k + 1] == x);
            }
            assert forall|x: u8| rb.contains(x) implies b.contains(x) by {
                let k = choose|k: int| 0 <= k < rb.len() && rb[k] == x;
                assert(b[k + 1] == x);
            }
            lemma_padded_nul_free(ra, rb, (n - 1) as nat);
            assert(pa.drop_first() =~= padded_to(ra, (n - 1) as nat));
            assert(pb.drop_first() =~= padded_to(rb, (n - 1) as nat));
            assert(pa[0] == pb[0]);
            if a == b {
                assert(ra == rb);
            }
            assert(a =~= seq![a[0]] + ra);
            assert(b =~= seq![b[0]] + rb);
            if pa == pb {
                assert(pa.drop_first() == pb.drop_first());
            }
            if padded_to(ra, (n - 1) as nat) == padded_to(rb, (n - 1) as nat) {
                assert(pa =~= pb);
            }
        }
    } else {
        assert(a =~= b);
        assert(pa =~= pb);
        lemma_bytes_less_irreflexive(pa);
    }
}

proof fn lemma_bytes_less_irreflexive(a: Seq<u8>)
    ensures
        !bytes_less(a, a),
    decreases a.len(),
{
    if a.len() > 0 {
        lemma_bytes_less_irreflexive(a.drop_first());
    }
}

/// On byte slices without NUL, making keys is injective and keeps the
/// order of the slices: the keys' codes compare as the slices do.
pub proof fn lemma_keys_of_nul_free_bytes(a: Seq<u8>, b: Seq<u8>)
    requires
        a.len() <= 15,
        b.len() <= 15,
        !a.contains(0u8),
        !b.contains(0u8),
    ensures
        (nul_padded(a) == nul_padded(b)) == (a == b),
        (be_value(nul_padded(a)) < be_value(nul_padded(b))) == bytes_less(a, b),
{
    lemma_padded_nul_free(a, b, 16);
    assert(nul_padded(a) =~= padded_to(a, 16));
    assert(nul_padded(b) =~= padded_to(b, 16));
    lemma_be_value_order(nul_padded(a), nul_padded(b));
}

/// The body of a key's debug text: each byte escaped as
/// `core::ascii::escape_default` does it, but NUL written as `\0`.
pub open spec fn debug_body(bytes: Seq<u8>) -> Seq<u8>
    decreases bytes.len(),
{
    if bytes.len() == 0 {
        Seq::empty()
    } else {
        debug_body(bytes.drop_last()) + (if bytes.last() == 0 {
            seq![92u8, 48u8]
        } else {
            escape_default(bytes.last())
        })
    }
}

/// `Key(b"...")` around the debug body of the first 15 bytes; the final
/// terminator is left out.
pub open spec fn key_debug_text(key: Seq<u8>) -> Seq<u8> {
    seq![75u8, 101u8, 121u8, 40u8, 98u8, 34u8] + debug_body(key.take(15)) + seq![34u8, 41u8]
}


/// The bytes read as a big-endian number.
pub open spec fn be_value(bytes: Seq<u8>) -> nat
    decreases bytes.len(),
{
    if bytes.len() == 0 {
        0
    } else {
        be_value(bytes.drop_last()) * 256 + bytes.last() as nat
    }
}

/// `256` to the power `n`.
pub open spec fn pow256(n: nat) -> nat
    decreases n,
{
    if n == 0 {
        1
    } else {
        pow256((n - 1) as nat) * 256
    }
}

proof fn lemma_be_value_bound(bytes: Seq<u8>)
    ensures
        be_value(bytes) < pow256(bytes.len()),
    decreases bytes.len(),
{
    if bytes.len() > 0 {
        lemma_be_value_bound(bytes.drop_last());
    }
}

proof fn lemma_pow256_monotonic(a: nat, b: nat)
    requires
        a <= b,
    ensures
        pow256(a) <= pow256(b),
    decreases b,
{
    if a < b {
        lemma_pow256_monotonic(a, (b - 1) as nat);
    }
}

/// The big-endian value of 16 bytes fits in a `u128`.
pub proof fn lemma_be_value_fits_u128(bytes: Seq<u8>)
    requires
        bytes.len() == 16,
    ensures
        be_value(bytes) <= u128::MAX,
{
    lemma_be_value_bound(bytes);
    reveal_with_fuel(pow256, 17);
    assert(pow256(16) == 340282366920938463463374607431768211456nat);
}

/// Two byte sequences of one length with the same big-endian value are equal.
pub proof fn lemma_be_value_injective(a: Seq<u8>, b: Seq<u8>)
    requires
        a.len() == b.len(),
        be_value(a) == be_value(b),
    ensures
        a == b,
    decreases a.len(),
{
    if a.len() > 0 {
        let v: int = be_value(a) as int;
        vstd::arithmetic::div_mod::lemma_fundamental_div_mod_converse(
            v, 256, be_value(a.drop_last()) as int, a.last() as int);
        vstd::arithmetic::div_mod::lemma_fundamental_div_mod_converse(
            v, 256, be_value(b.drop_last()) as int, b.last() as int);
        lemma_be_value_injective(a.drop_last(), b.drop_last());
        assert(a =~= a.drop_last().push(a.last()));
        assert(b =~= b.drop_last().push(b.last()));
    }
}

proof fn lemma_debug_body_ascii(bytes: Seq<u8>)
    ensures
        all_ascii(debug_body(bytes)),
    decreases bytes.len(),
{
    if bytes.len() > 0 {
        lemma_debug_body_ascii(bytes.drop_last());
        lemma_escape_ascii(bytes.last());
        let a = debug_body(bytes.drop_last());
        let b = if bytes.last() == 0 {
            seq![92u8, 48u8]
        } else {
            escape_default(bytes.last())
        };
        assert forall|i: int| 0 <= i < (a + b).len() implies #[trigger] (a + b)[i] < 0x80 by {
            if i < a.len() {
                assert((a + b)[i] == a[i]);
            } else {
                assert((a + b)[i] == b[i - a.len()]);
            }
        }
    }
}

proof fn lemma_debug_body_append(a: Seq<u8>, b: Seq<u8>)
    ensures
        debug_body(a + b) == debug_body(a) + debug_body(b),
    decreases b.len(),
{
    if b.len() == 0 {
        assert(a + b =~= a);
        assert(debug_body(a) + debug_body(b) =~= debug_body(a));
    } else {
        lemma_debug_body_append(a, b.drop_last());
        assert((a + b).drop_last() =~= a + b.drop_last());
        assert((a + b).last() == b.last());
        let tail = if b.last() == 0 {
            seq![92u8, 48u8]
        } else {
            escape_default(b.last())
        };
        assert(debug_body(a) + debug_body(b.drop_last()) + tail =~= debug_body(a) + (debug_body(b.drop_last()) + tail));
    }
}

/// Printable ASCII other than the quotes and the backslash.
pub open spec fn plain_byte(b: u8) -> bool {
    0x20 <= b <= 0x7e && b != 34 && b != 39 && b != 92
}

proof fn lemma_debug_body_plain(bytes: Seq<u8>)
    requires
        forall|i: int| 0 <= i < bytes.len() ==> plain_byte(#[trigger] bytes[i]),
    ensures
        debug_body(bytes) == bytes,
    decreases bytes.len(),
{
    if bytes.len() > 0 {
        let x = bytes.last();
        assert(plain_byte(bytes[bytes.len() - 1]));
        lemma_escape_default_table(x);
        lemma_debug_body_plain(bytes.drop_last());
        assert(bytes.drop_last().push(x) =~= bytes);
        assert(bytes.drop_last() + seq![x] =~= bytes);
    }
}

proof fn lemma_debug_body_nuls(m: nat)
    ensures
        debug_body(Seq::new(m, |i: int| 0u8)) == Seq::new(2 * m, |i: int| if i % 2 == 0 { 92u8 } else { 48u8 }),
    decreases m,
{
    if m > 0 {
        let z = Seq::new(m, |i: int| 0u8);
        let zp = Seq::new((m - 1) as nat, |i: int| 0u8);
        assert(z.drop_last() =~= zp);
        lemma_debug_body_nuls((m - 1) as nat);
        let e = Seq::new((2 * (m - 1)) as nat, |i: int| if i % 2 == 0 { 92u8 } else { 48u8 });
        let f = Seq::new(2 * m, |i: int| if i % 2 == 0 { 92u8 } else { 48u8 });
        let g = e + seq![92u8, 48u8];
        assert forall|i: int| 0 <= i < f.len() implies #[trigger] g[i] == f[i] by {
            if i < e.len() {
            } else if i == e.len() {
                assert(i % 2 == 0);
            } else {
                assert(i % 2 == 1);
            }
        }
        assert(g =~= f);
    }
}

/// The debug text of a key made from at most 15 plain printable bytes
/// (no quote, no backslash): `Key(b"`, the bytes themselves, one `\0`
/// for each NUL of the padding up to byte 15, and `")`.
pub proof fn lemma_debug_text_of_plain_key(bytes: Seq<u8>)
    requires
        bytes.len() <= 15,
        forall|i: int| 0 <= i < bytes.len() ==> plain_byte(#[trigger] bytes[i]),
    ensures
        key_debug_text(nul_padded(bytes)).len() == 38 - bytes.len(),
        key_debug_text(nul_padded(bytes)).take(6) == seq![75u8, 101u8, 121u8, 40u8, 98u8, 34u8],
        key_debug_text(nul_padded(bytes)).subrange(6, 6 + bytes.len() as int) == bytes,
        forall|j: int| bytes.len() <= j < 15 ==> {
            &&& #[trigger] key_debug_text(nul_padded(bytes))[6 + bytes.len() + 2 * (j - bytes.len())] == 92
            &&& key_debug_text(nul_padded(bytes))[6 + bytes.len() + 2 * (j - bytes.len()) + 1] == 48
        },
        key_debug_text(nul_padded(bytes)).subrange(36 - bytes.len() as int, 38 - bytes.len() as int)
            == seq![34u8, 41u8],
{
    let n: int = bytes.len() as int;
    let m: nat = (15 - n) as nat;
    let z = Seq::new(m, |i: int| 0u8);
    assert(nul_padded(bytes).take(15) =~= bytes + z);
    lemma_debug_body_append(bytes, z);
    lemma_debug_body_plain(bytes);
    lemma_debug_body_nuls(m);
    let head = seq![75u8, 101u8, 121u8, 40u8, 98u8, 34u8];
    let e = Seq::new(2 * m, |i: int| if i % 2 == 0 { 92u8 } else { 48u8 });
    let t = key_debug_text(nul_padded(bytes));
    assert(t == head + (bytes + e) + seq![34u8, 41u8]);
    assert(t.take(6) =~= head);
    assert(t.subrange(6, 6 + n) =~= bytes);
    assert forall|j: int| n <= j < 15 implies {
        &&& #[trigger] t[6 + n + 2 * (j - n)] == 92
        &&& t[6 + n + 2 * (j - n) + 1] == 48
    } by {
        let k = 2 * (j - n);
        assert(k % 2 == 0);
        assert((k + 1) % 2 == 1);
        assert(t[6 + n + k] == e[k]);
        assert(t[6 + n + k + 1] == e[k + 1]);
    }
    assert(t.subrange(36 - n, 38 - n) =~= seq![34u8, 41u8]);
}

/// `core::str::from_utf8` on bytes that are valid UTF-8, unwrapped. Its
/// documentation promises `Ok` exactly for valid UTF-8, a string slice
/// over those very bytes; the contract states that.
#[verifier::external_body]
fn str_from_utf8(bytes: &[u8]) -> (s: &str)
    requires
        valid_utf8(bytes@),
    ensures
        s.spec_bytes() == bytes@,
{
    core::str::from_utf8(bytes).unwrap()
}

impl Key {
    /// Every key is 16 bytes wide.
    pub proof fn lemma_len(key: Key)
        ensures
            key@.len() == 16,
    {
    }

    /// Creates a 16 byte, null-padded byte array used as key for values and namespaces.
    ///
    /// Usage: `Key::from_array(b"my_key")`
    pub fn from_array<const M: usize>(src: &[u8; M]) -> (key: Key)
        requires
            M <= MAX_KEY_LENGTH,
        ensures
            key@ == nul_padded(src@),
    {
        let mut dst = [0u8; MAX_KEY_NUL_TERMINATED_LENGTH];
        let mut i: usize = 0;
        while i < M
            invariant
                M <= 15,
                i <= M,
                src@.len() == M,
                dst@.len() == 16,
                forall|j: int| 0 <= j < i ==> #[trigger] dst@[j] == src@[j],
                forall|j: int| i <= j < 16 ==> #[trigger] dst@[j] == 0,
            decreases M - i,
        {
            dst[i] = src[i];
            i = i + 1;
        }
        let key = Key(dst);
        assert(key@ =~= nul_padded(src@));
        key
    }

    /// Creates a 16 byte, null-padded byte array used as key for values and namespaces.
    ///
    /// Usage: `Key::from_slice(b"my_key")`
    pub fn from_slice(src: &[u8]) -> (key: Key)
        requires
            src@.len() <= MAX_KEY_LENGTH,
        ensures
            key@ == nul_padded(src@),
    {
        let mut dst = [0u8; MAX_KEY_NUL_TERMINATED_LENGTH];
        let mut i: usize = 0;
        while i < src.len()
            invariant
                src@.len() <= 15,
                i <= src@.len(),
                dst@.len() == 16,
                forall|j: int| 0 <= j < i ==> #[trigger] dst@[j] == src@[j],
                forall|j: int| i <= j < 16 ==> #[trigger] dst@[j] == 0,
            decreases src@.len() - i,
        {
            dst[i] = src[i];
            i = i + 1;
        }
        let key = Key(dst);
        assert(key@ =~= nul_padded(src@));
        key
    }

    /// Creates a 16 byte, null-padded byte array used as key for values and namespaces.
    ///
    /// Usage: `Key::from_str("my_key")`
    pub fn from_str(s: &str) -> (key: Key)
        requires
            s.spec_bytes().len() <= MAX_KEY_LENGTH,
        ensures
            key@ == nul_padded(s.spec_bytes()),
    {
        let bytes = s.as_bytes();
        Self::from_slice(bytes)
    }

    /// Converts a key to a byte array.
    pub fn as_bytes(&self) -> (bytes: &[u8; MAX_KEY_NUL_TERMINATED_LENGTH])
        ensures
            bytes@ == self@,
    {
        &self.0
    }

    /// The first 15 bytes as a string slice, NUL padding included. The
    /// bytes must be valid UTF-8.
    pub fn as_str(&self) -> (s: &str)
        requires
            valid_utf8(self@.take(15)),
        ensures
            s.spec_bytes() == self@.take(15),
    {
        let all = self.0.as_slice();
        let head = slice_subrange(all, 0, MAX_KEY_LENGTH);
        assert(head@ =~= self@.take(15));
        str_from_utf8(head)
    }

    /// The key's bytes read as a big-endian number; distinct keys have
    /// distinct codes (`lemma_be_value_injective`).
    pub fn code(&self) -> (c: u128)
        ensures
            c == be_value(self@),
    {
        let mut c: u128 = 0;
        let mut i: usize = 0;
        while i < MAX_KEY_NUL_TERMINATED_LENGTH
            invariant
                i <= 16,
                self@.len() == 16,
                c == be_value(self@.take(i as int)),
            decreases 16 - i,
        {
            proof {
                lemma_be_value_bound(self@.take(i as int));
                lemma_pow256_monotonic(i as nat, 15);
                reveal_with_fuel(pow256, 16);
                assert(pow256(15) == 1329227995784915872903807060280344576nat);
                assert(self@.take(i + 1).drop_last() =~= self@.take(i as int));
            }
            c = c * 256 + self.0[i] as u128;
            i = i + 1;
        }
        assert(self@.take(16) =~= self@);
        c
    }

    /// Whether the last byte is the NUL terminator.
    pub fn is_nul_terminated(&self) -> (b: bool)
        ensures
            b == (self@[15] == 0),
    {
        self.0[MAX_KEY_LENGTH] == 0
    }

    /// The debug text of the key: `Key(b"...")` with the bytes escaped,
    /// NUL shown as `\0`, and the final terminator left out.
    pub fn debug_string(&self) -> (s: String)
        ensures
            s@ == ascii_chars(key_debug_text(self@)),
    {
        let mut out: Vec<u8> = Vec::new();
        out.push(75u8);
        out.push(101u8);
        out.push(121u8);
        out.push(40u8);
        out.push(98u8);
        out.push(34u8);
        let ghost prefix = out@;
        assert(prefix =~= seq![75u8, 101u8, 121u8, 40u8, 98u8, 34u8]);
        let mut i: usize = 0;
        while i < MAX_KEY_LENGTH
            invariant
                i <= 15,
                self@.len() == 16,
                out@ == prefix + debug_body(self@.take(i as int)),
            decreases 15 - i,
        {
            let b: u8 = self.0[i];
            let ghost before = out@;
            if b == 0 {
                out.push(92u8);
                out.push(48u8);
            } else {
                push_escaped(&mut out, b);
            }
            assert(self@.take(i + 1).drop_last() =~= self@.take(i as int));
            assert(self@.take(i + 1).last() == b);
            i = i + 1;
            assert(out@ =~= prefix + debug_body(self@.take(i as int)));
        }
        out.push(34u8);
        out.push(41u8);
        assert(out@ =~= key_debug_text(self@));
        proof {
            lemma_debug_body_ascii(self@.take(15));
            let t = key_debug_text(self@);
            let body = debug_body(self@.take(15));
            assert forall|j: int| 0 <= j < t.len() implies #[trigger] t[j] < 0x80 by {
                if j < 6 {
                } else if j < 6 + body.len() {
                    assert(t[j] == body[j - 6]);
                } else {
                }
            }
        }
        ascii_string(out)
    }
}

impl AsRef<[u8]> for Key {
    fn as_ref(&self) -> (bytes: &[u8])
        ensures
            bytes@ == self@,
    {
        self.0.as_slice()
    }
}

} // verus!
