//! The cursor codec: a stateless, bidirectional transform between an
//! in-memory position token and an opaque wire string.
//!
//! A cursor pairs the ordering key of a row with the type tag of the listed
//! entity. On the wire it is the base64 rendering of a fixed-shape byte
//! payload holding the decimal ordering key and the tag text. Decoding
//! accepts exactly the payloads this module produces and fails with
//! [`ApiError::InvalidCursor`] on everything else.

use vstd::arithmetic::div_mod::lemma_fundamental_div_mod;
use vstd::prelude::*;

use crate::b64::{b64_decode, b64_encode, base64_decoding, base64_encoding};
use crate::errors::ApiError;

verus! {

/// The entity variants that can appear in a paginated list.
#[derive(Clone, Copy, Debug, PartialEq, Eq, Structural)]
pub enum NodeType {
    User,
    Blog,
    Post,
}

/// A position in a paginated sequence: the ordering key of the row at that
/// position, and the tag of the entity variant the list holds.
#[derive(Clone, Copy, Debug, PartialEq, Eq, Structural)]
pub struct Cursor {
    /// The per-table ordering key; `0` is the sentinel for the position
    /// strictly before the first row, real keys start at `1`.
    pub _rowid: i32,
    /// Which entity variant the cursor belongs to.
    pub ty: NodeType,
}

impl Cursor {
    /// A cursor is valid when its ordering key is the sentinel `0` or a real
    /// assigned key.
    pub open spec fn valid(self) -> bool {
        0 <= self._rowid
    }
}

/// The decimal digit bytes of a non-negative integer, most significant first,
/// without leading zeros.
pub open spec fn dec_digits(n: int) -> Seq<u8>
    recommends
        0 <= n,
    decreases n,
{
    if n < 10 {
        seq![(48 + n) as u8]
    } else {
        dec_digits(n / 10).push((48 + n % 10) as u8)
    }
}

/// The integer a sequence of decimal digit bytes denotes.
pub open spec fn digits_value(s: Seq<u8>) -> int
    decreases s.len(),
{
    if s.len() == 0 {
        0
    } else {
        digits_value(s.drop_last()) * 10 + (s.last() - 48)
    }
}

/// Every byte of `s` is a decimal digit.
pub open spec fn all_digits(s: Seq<u8>) -> bool {
    forall|i: int| 0 <= i < s.len() ==> 48 <= #[trigger] s[i] <= 57
}

/// `s` is the canonical decimal rendering of some non-negative integer:
/// non-empty, all digits, no leading zero.
pub open spec fn canonical_digits(s: Seq<u8>) -> bool {
    &&& s.len() > 0
    &&& all_digits(s)
    &&& s.len() > 1 ==> s[0] != 48
}

/// Ten to the `k`.
pub open spec fn pow10(k: nat) -> int
    decreases k,
{
    if k == 0 {
        1
    } else {
        10 * pow10((k - 1) as nat)
    }
}

/// The fixed payload bytes before the ordering key: `{"_rowid":`.
pub open spec fn payload_head() -> Seq<u8> {
    seq![123u8, 34u8, 95u8, 114u8, 111u8, 119u8, 105u8, 100u8, 34u8, 58u8]
}

/// The fixed payload bytes between the key and the tag: `,"ty":"`.
pub open spec fn payload_mid() -> Seq<u8> {
    seq![44u8, 34u8, 116u8, 121u8, 34u8, 58u8, 34u8]
}

/// The fixed payload bytes after the tag: `"}`.
pub open spec fn payload_tail() -> Seq<u8> {
    seq![34u8, 125u8]
}

/// The tag text of an entity variant, as payload bytes.
pub open spec fn tag_bytes(t: NodeType) -> Seq<u8> {
    match t {
        NodeType::User => seq![85u8, 115u8, 101u8, 114u8],
        NodeType::Blog => seq![66u8, 108u8, 111u8, 103u8],
        NodeType::Post => seq![80u8, 111u8, 115u8, 116u8],
    }
}

/// The byte payload of a cursor: its ordering key in decimal and its tag
/// text, in the fixed frame.
pub open spec fn payload_bytes(c: Cursor) -> Seq<u8> {
    payload_head() + dec_digits(c._rowid as int) + payload_mid() + tag_bytes(c.ty)
        + payload_tail()
}

/// The opaque wire form of a cursor: the base64 rendering of its payload.
pub open spec fn encoded_cursor(c: Cursor) -> Seq<char> {
    base64_encoding(payload_bytes(c))
}

proof fn lemma_dec_digits_form(n: int)
    requires
        0 <= n,
    ensures
        canonical_digits(dec_digits(n)),
        digits_value(dec_digits(n)) == n,
        n < 10 ==> dec_digits(n).len() == 1,
    decreases n,
{
    if n < 10 {
        let s = dec_digits(n);
        assert(s == seq![(48 + n) as u8]);
        assert(s.drop_last() =~= Seq::<u8>::empty());
        assert(digits_value(Seq::<u8>::empty()) == 0);
    } else {
        lemma_dec_digits_form(n / 10);
        lemma_fundamental_div_mod(n, 10);
        let s = dec_digits(n / 10);
        let d = (48 + n % 10) as u8;
        assert(dec_digits(n) == s.push(d));
        assert(s.push(d).drop_last() =~= s);
        assert(s.push(d).last() == d);
        if s.len() == 1 {
            assert(s.drop_last() =~= Seq::<u8>::empty());
            assert(digits_value(Seq::<u8>::empty()) == 0);
            assert(digits_value(s) == s[0] - 48);
            assert(s[0] != 48);
        }
    }
}

proof fn lemma_leading_digit_value(s: Seq<u8>)
    requires
        all_digits(s),
        s.len() >= 1,
        s[0] != 48,
    ensures
        digits_value(s) >= 1,
    decreases s.len(),
{
    if s.len() == 1 {
        assert(s.drop_last() =~= Seq::<u8>::empty());
        assert(digits_value(Seq::<u8>::empty()) == 0);
    } else {
        assert(s.drop_last()[0] == s[0]);
        lemma_leading_digit_value(s.drop_last());
    }
}

proof fn lemma_canonical_digits_unique(s: Seq<u8>)
    requires
        canonical_digits(s),
    ensures
        dec_digits(digits_value(s)) == s,
        digits_value(s) >= 0,
    decreases s.len(),
{
    if s.len() == 1 {
        assert(s.drop_last() =~= Seq::<u8>::empty());
        assert(digits_value(Seq::<u8>::empty()) == 0);
        assert(digits_value(s) == s[0] - 48);
        assert(dec_digits(digits_value(s)) =~= s);
    } else {
        let s0 = s.drop_last();
        let d = s.last() - 48;
        assert(s0[0] == s[0]);
        assert(all_digits(s0));
        lemma_canonical_digits_unique(s0);
        lemma_leading_digit_value(s0);
        let v0 = digits_value(s0);
        let v = digits_value(s);
        assert(v == v0 * 10 + d);
        assert(v >= 10) by (nonlinear_arith)
            requires
                v == v0 * 10 + d,
                v0 >= 1,
                0 <= d <= 9,
        ;
        assert(v / 10 == v0 && v % 10 == d) by (nonlinear_arith)
            requires
                v == v0 * 10 + d,
                0 <= d <= 9,
                v0 >= 0,
        ;
        assert(dec_digits(v) == dec_digits(v0).push((48 + d) as u8));
        assert((48 + d) as u8 == s.last());
        assert(dec_digits(v) =~= s);
    }
}

proof fn lemma_pow10_monotone(a: nat, b: nat)
    requires
        a <= b,
    ensures
        pow10(a) <= pow10(b),
        pow10(a) >= 1,
    decreases b,
{
    if b > 0 {
        if a == b {
            lemma_pow10_monotone((b - 1) as nat, (b - 1) as nat);
        } else {
            lemma_pow10_monotone(a, (b - 1) as nat);
        }
    }
}

proof fn lemma_dec_digits_len(n: int, k: nat)
    requires
        0 <= n,
        1 <= k,
        n < pow10(k),
    ensures
        dec_digits(n).len() <= k,
    decreases n,
{
    if n < 10 {
    } else {
        if k == 1 {
            assert(pow10(1nat) == 10) by {
                reveal_with_fuel(pow10, 2);
            }
            assert(false);
        }
        assert(pow10(k) == 10 * pow10((k - 1) as nat));
        assert(n / 10 < pow10((k - 1) as nat)) by (nonlinear_arith)
            requires
                0 <= n,
                n < 10 * pow10((k - 1) as nat),
        ;
        lemma_dec_digits_len(n / 10, (k - 1) as nat);
    }
}

/// The shape facts of a valid cursor's payload that every parser branch and
/// the injectivity law lean on.
proof fn lemma_payload_shape(c: Cursor)
    requires
        c.valid(),
    ensures
        ({
            let p = payload_bytes(c);
            let d = dec_digits(c._rowid as int);
            &&& p.len() == 23 + d.len()
            &&& 1 <= d.len() <= 10
            &&& canonical_digits(d)
            &&& digits_value(d) == c._rowid as int
            &&& p.subrange(0, 10) == payload_head()
            &&& p.subrange(10, p.len() - 13) == d
            &&& p.subrange(p.len() - 13, p.len() - 6) == payload_mid()
            &&& p.subrange(p.len() - 6, p.len() - 2) == tag_bytes(c.ty)
            &&& p.subrange(p.len() - 2, p.len() as int) == payload_tail()
        }),
{
    let p = payload_bytes(c);
    let d = dec_digits(c._rowid as int);
    lemma_dec_digits_form(c._rowid as int);
    assert(pow10(10nat) == 10000000000) by {
        reveal_with_fuel(pow10, 11);
    }
    lemma_dec_digits_len(c._rowid as int, 10nat);
    assert(p.len() == 23 + d.len());
    assert(p.subrange(0, 10) =~= payload_head());
    assert(p.subrange(10, p.len() - 13) =~= d);
    assert(p.subrange(p.len() - 13, p.len() - 6) =~= payload_mid());
    assert(p.subrange(p.len() - 6, p.len() - 2) =~= tag_bytes(c.ty));
    assert(p.subrange(p.len() - 2, p.len() as int) =~= payload_tail());
}

/// Index-level facts of a valid cursor's payload, phrased the way the parser
/// inspects the bytes.
#[verifier::rlimit(60)]
proof fn lemma_payload_facts(s: Seq<u8>, c: Cursor)
    requires
        c.valid(),
        s == payload_bytes(c),
    ensures
        24 <= s.len() <= 33,
        s[0] == 123 && s[1] == 34 && s[2] == 95 && s[3] == 114 && s[4] == 111 && s[5] == 119
            && s[6] == 105 && s[7] == 100 && s[8] == 34 && s[9] == 58,
        s[s.len() - 13] == 44 && s[s.len() - 12] == 34 && s[s.len() - 11] == 116 && s[s.len()
            - 10] == 121 && s[s.len() - 9] == 34 && s[s.len() - 8] == 58 && s[s.len() - 7] == 34,
        s[s.len() - 2] == 34 && s[s.len() - 1] == 125,
        canonical_digits(s.subrange(10, s.len() - 13)),
        digits_value(s.subrange(10, s.len() - 13)) == c._rowid as int,
        s.subrange(s.len() - 6, s.len() - 2) == tag_bytes(c.ty),
        (match c.ty {
            NodeType::User => s[s.len() - 6] == 85 && s[s.len() - 5] == 115 && s[s.len() - 4]
                == 101 && s[s.len() - 3] == 114,
            NodeType::Blog => s[s.len() - 6] == 66 && s[s.len() - 5] == 108 && s[s.len() - 4]
                == 111 && s[s.len() - 3] == 103,
            NodeType::Post => s[s.len() - 6] == 80 && s[s.len() - 5] == 111 && s[s.len() - 4]
                == 115 && s[s.len() - 3] == 116,
        }),
{
    lemma_payload_shape(c);
    let n = s.len() as int;
    assert(forall|j: int| 0 <= j < 10 ==> #[trigger] s.subrange(0, 10)[j] == s[j]);
    assert(forall|j: int| 0 <= j < 7 ==> #[trigger] s.subrange(n - 13, n - 6)[j] == s[n - 13 + j]);
    assert(forall|j: int| 0 <= j < 4 ==> #[trigger] s.subrange(n - 6, n - 2)[j] == s[n - 6 + j]);
    assert(forall|j: int| 0 <= j < 2 ==> #[trigger] s.subrange(n - 2, n)[j] == s[n - 2 + j]);
    assert(payload_head()[0] == 123 && payload_head()[1] == 34 && payload_head()[2] == 95
        && payload_head()[3] == 114 && payload_head()[4] == 111 && payload_head()[5] == 119
        && payload_head()[6] == 105 && payload_head()[7] == 100 && payload_head()[8] == 34
        && payload_head()[9] == 58);
    assert(payload_mid()[0] == 44 && payload_mid()[1] == 34 && payload_mid()[2] == 116
        && payload_mid()[3] == 121 && payload_mid()[4] == 34 && payload_mid()[5] == 58
        && payload_mid()[6] == 34);
    assert(payload_tail()[0] == 34 && payload_tail()[1] == 125);
    match c.ty {
        NodeType::User => {
            assert(tag_bytes(c.ty)[0] == 85 && tag_bytes(c.ty)[1] == 115 && tag_bytes(c.ty)[2]
                == 101 && tag_bytes(c.ty)[3] == 114);
        },
        NodeType::Blog => {
            assert(tag_bytes(c.ty)[0] == 66 && tag_bytes(c.ty)[1] == 108 && tag_bytes(c.ty)[2]
                == 111 && tag_bytes(c.ty)[3] == 103);
        },
        NodeType::Post => {
            assert(tag_bytes(c.ty)[0] == 80 && tag_bytes(c.ty)[1] == 111 && tag_bytes(c.ty)[2]
                == 115 && tag_bytes(c.ty)[3] == 116);
        },
    }
}

/// The converse of [`lemma_payload_facts`]: bytes that decompose into the
/// five payload pieces are the payload of the cursor.
proof fn lemma_payload_assemble(s: Seq<u8>, c: Cursor)
    requires
        c.valid(),
        s.len() == 23 + dec_digits(c._rowid as int).len(),
        s.subrange(0, 10) == payload_head(),
        s.subrange(10, s.len() - 13) == dec_digits(c._rowid as int),
        s.subrange(s.len() - 13, s.len() - 6) == payload_mid(),
        s.subrange(s.len() - 6, s.len() - 2) == tag_bytes(c.ty),
        s.subrange(s.len() - 2, s.len() as int) == payload_tail(),
    ensures
        s == payload_bytes(c),
{
    lemma_payload_shape(c);
    let p = payload_bytes(c);
    let n = s.len() as int;
    assert(p.len() == n);
    assert forall|i: int| 0 <= i < n implies s[i] == p[i] by {
        if i < 10 {
            assert(s.subrange(0, 10)[i] == s[i]);
            assert(p.subrange(0, 10)[i] == p[i]);
        } else if i < n - 13 {
            assert(s.subrange(10, n - 13)[i - 10] == s[i]);
            assert(p.subrange(10, n - 13)[i - 10] == p[i]);
        } else if i < n - 6 {
            assert(s.subrange(n - 13, n - 6)[i - (n - 13)] == s[i]);
            assert(p.subrange(n - 13, n - 6)[i - (n - 13)] == p[i]);
        } else if i < n - 2 {
            assert(s.subrange(n - 6, n - 2)[i - (n - 6)] == s[i]);
            assert(p.subrange(n - 6, n - 2)[i - (n - 6)] == p[i]);
        } else {
            assert(s.subrange(n - 2, n)[i - (n - 2)] == s[i]);
            assert(p.subrange(n - 2, n)[i - (n - 2)] == p[i]);
        }
    }
    assert(s =~= p);
}

/// Law: the payload determines the cursor: two valid cursors with the same
/// payload bytes are the same cursor.
pub proof fn lemma_payload_injective(c1: Cursor, c2: Cursor)
    requires
        c1.valid(),
        c2.valid(),
        payload_bytes(c1) == payload_bytes(c2),
    ensures
        c1 == c2,
{
    lemma_payload_shape(c1);
    lemma_payload_shape(c2);
    let p = payload_bytes(c1);
    let d1 = dec_digits(c1._rowid as int);
    let d2 = dec_digits(c2._rowid as int);
    assert(d1.len() == d2.len());
    assert(d1 == d2);
    assert(c1._rowid == c2._rowid);
    let t1 = tag_bytes(c1.ty);
    let t2 = tag_bytes(c2.ty);
    assert(t1 == t2);
    assert(t1[0] == t2[0]);
    match c1.ty {
        NodeType::User => {
            assert(t1[0] == 85);
        }
        NodeType::Blog => {
            assert(t1[0] == 66);
        }
        NodeType::Post => {
            assert(t1[0] == 80);
        }
    }
    match c2.ty {
        NodeType::User => {
            assert(t2[0] == 85);
        }
        NodeType::Blog => {
            assert(t2[0] == 66);
        }
        NodeType::Post => {
            assert(t2[0] == 80);
        }
    }
    assert(c1.ty == c2.ty);
}

fn push_digits(out: &mut Vec<u8>, n: u32)
    ensures
        final(out)@ == old(out)@ + dec_digits(n as int),
    decreases n,
{
    if n < 10 {
        out.push(48u8 + n as u8);
        assert(out@ =~= old(out)@ + dec_digits(n as int));
    } else {
        push_digits(out, n / 10);
        out.push(48u8 + (n % 10) as u8);
        assert(out@ =~= old(out)@ + dec_digits(n as int));
    }
}

fn parse_digits(bytes: &Vec<u8>, start: usize, end: usize) -> (r: Option<u64>)
    requires
        start <= end,
        end <= bytes@.len(),
        end - start <= 10,
    ensures
        (match r {
            Some(v) => {
                &&& canonical_digits(bytes@.subrange(start as int, end as int))
                &&& v == digits_value(bytes@.subrange(start as int, end as int))
            },
            None => !canonical_digits(bytes@.subrange(start as int, end as int)),
        }),
{
    if start == end {
        return None;
    }
    if end - start > 1 && bytes[start] == 48 {
        return None;
    }
    let mut i: usize = start;
    let mut v: u64 = 0;
    proof {
        assert(bytes@.subrange(start as int, start as int) =~= Seq::<u8>::empty());
        lemma_pow10_monotone(0nat, 0nat);
    }
    while i < end
        invariant
            start <= i <= end,
            end <= bytes@.len(),
            end - start <= 10,
            all_digits(bytes@.subrange(start as int, i as int)),
            v == digits_value(bytes@.subrange(start as int, i as int)),
            v < pow10((i - start) as nat),
        decreases end - i,
    {
        let b = bytes[i];
        if b < 48 || b > 57 {
            proof {
                assert(bytes@.subrange(start as int, end as int)[i - start] == bytes@[i as int]);
            }
            return None;
        }
        proof {
            lemma_pow10_monotone((i - start) as nat, 9nat);
            assert(pow10(9nat) == 1000000000) by {
                reveal_with_fuel(pow10, 10);
            }
        }
        v = v * 10 + (b - 48) as u64;
        i = i + 1;
        proof {
            let sub_new = bytes@.subrange(start as int, i as int);
            assert(sub_new =~= bytes@.subrange(start as int, i - 1).push(bytes@[i - 1]));
            assert(sub_new.drop_last() =~= bytes@.subrange(start as int, i - 1));
            assert(pow10((i - start) as nat) == 10 * pow10((i - 1 - start) as nat));
        }
    }
    proof {
        assert(bytes@.subrange(start as int, end as int)[0] == bytes@[start as int]);
    }
    Some(v)
}

fn parse_payload(bytes: &Vec<u8>) -> (r: Option<Cursor>)
    ensures
        (match r {
            Some(c) => c.valid() && bytes@ == payload_bytes(c),
            None => forall|c: Cursor| c.valid() ==> bytes@ != payload_bytes(c),
        }),
{
    let n = bytes.len();
    let ghost s = bytes@;
    if n < 24 || n > 33 {
        proof {
            assert forall|c: Cursor| c.valid() implies s != payload_bytes(c) by {
                if s == payload_bytes(c) {
                    lemma_payload_facts(s, c);
                }
            }
        }
        return None;
    }
    if bytes[0] != 123 || bytes[1] != 34 || bytes[2] != 95 || bytes[3] != 114 || bytes[4] != 111
        || bytes[5] != 119 || bytes[6] != 105 || bytes[7] != 100 || bytes[8] != 34
        || bytes[9] != 58 {
        proof {
            assert forall|c: Cursor| c.valid() implies s != payload_bytes(c) by {
                if s == payload_bytes(c) {
                    lemma_payload_facts(s, c);
                }
            }
        }
        return None;
    }
    if bytes[n - 13] != 44 || bytes[n - 12] != 34 || bytes[n - 11] != 116 || bytes[n - 10] != 121
        || bytes[n - 9] != 34 || bytes[n - 8] != 58 || bytes[n - 7] != 34 {
        proof {
            assert forall|c: Cursor| c.valid() implies s != payload_bytes(c) by {
                if s == payload_bytes(c) {
                    lemma_payload_facts(s, c);
                }
            }
        }
        return None;
    }
    if bytes[n - 2] != 34 || bytes[n - 1] != 125 {
        proof {
            assert forall|c: Cursor| c.valid() implies s != payload_bytes(c) by {
                if s == payload_bytes(c) {
                    lemma_payload_facts(s, c);
                }
            }
        }
        return None;
    }
    let ty: NodeType;
    if bytes[n - 6] == 85 && bytes[n - 5] == 115 && bytes[n - 4] == 101 && bytes[n - 3] == 114 {
        ty = NodeType::User;
    } else if bytes[n - 6] == 66 && bytes[n - 5] == 108 && bytes[n - 4] == 111 && bytes[n - 3]
        == 103 {
        ty = NodeType::Blog;
    } else if bytes[n - 6] == 80 && bytes[n - 5] == 111 && bytes[n - 4] == 115 && bytes[n - 3]
        == 116 {
        ty = NodeType::Post;
    } else {
        proof {
            assert forall|c: Cursor| c.valid() implies s != payload_bytes(c) by {
                if s == payload_bytes(c) {
                    lemma_payload_facts(s, c);
                }
            }
        }
        return None;
    }
    let v = match parse_digits(bytes, 10, n - 13) {
        Some(v) => v,
        None => {
            proof {
                assert forall|c: Cursor| c.valid() implies s != payload_bytes(c) by {
                    if s == payload_bytes(c) {
                        lemma_payload_facts(s, c);
                    }
                }
            }
            return None;
        },
    };
    if v > 2147483647 {
        proof {
            assert forall|c: Cursor| c.valid() implies s != payload_bytes(c) by {
                if s == payload_bytes(c) {
                    lemma_payload_facts(s, c);
                }
            }
        }
        return None;
    }
    let c = Cursor { _rowid: v as i32, ty };
    proof {
        let region = s.subrange(10, n - 13);
        lemma_canonical_digits_unique(region);
        assert(dec_digits(c._rowid as int) == region);
        assert(s.subrange(0, 10) =~= payload_head());
        assert(s.subrange(n - 13, n - 6) =~= payload_mid());
        assert(s.subrange(n - 6, n - 2) =~= tag_bytes(ty));
        assert(s.subrange(n - 2, n as int) =~= payload_tail());
        lemma_payload_assemble(s, c);
    }
    Some(c)
}

impl Cursor {
    /// Serialize the cursor to its opaque, transport-safe wire string.
    pub fn encode(&self) -> (r: String)
        requires
            self.valid(),
        ensures
            r@ == encoded_cursor(*self),
    {
        let mut p: Vec<u8> = Vec::new();
        p.push(123u8);
        p.push(34u8);
        p.push(95u8);
        p.push(114u8);
        p.push(111u8);
        p.push(119u8);
        p.push(105u8);
        p.push(100u8);
        p.push(34u8);
        p.push(58u8);
        proof {
            assert(p@ =~= payload_head());
        }
        push_digits(&mut p, self._rowid as u32);
        let ghost after_digits = p@;
        proof {
            assert(self._rowid as u32 as int == self._rowid as int);
            assert(after_digits == payload_head() + dec_digits(self._rowid as int));
        }
        p.push(44u8);
        p.push(34u8);
        p.push(116u8);
        p.push(121u8);
        p.push(34u8);
        p.push(58u8);
        p.push(34u8);
        proof {
            assert(p@ =~= after_digits + payload_mid());
        }
        let ghost after_mid = p@;
        match self.ty {
            NodeType::User => {
                p.push(85u8);
                p.push(115u8);
                p.push(101u8);
                p.push(114u8);
            },
            NodeType::Blog => {
                p.push(66u8);
                p.push(108u8);
                p.push(111u8);
                p.push(103u8);
            },
            NodeType::Post => {
                p.push(80u8);
                p.push(111u8);
                p.push(115u8);
                p.push(116u8);
            },
        }
        proof {
            assert(p@ =~= after_mid + tag_bytes(self.ty));
        }
        let ghost after_tag = p@;
        p.push(34u8);
        p.push(125u8);
        proof {
            assert(p@ =~= after_tag + payload_tail());
            assert(p@ =~= payload_bytes(*self));
        }
        b64_encode(&p)
    }

    /// Decode an opaque wire string back into a cursor.
    ///
    /// Succeeds exactly on the strings whose base64 decoding is the payload
    /// of a valid cursor; in particular, on everything [`Cursor::encode`]
    /// produces. Every other input yields [`ApiError::InvalidCursor`].
    pub fn decode(s: &str) -> (r: Result<Cursor, ApiError>)
        ensures
            (match r {
                Ok(c) => c.valid() && base64_decoding(s@) == Some(payload_bytes(c)),
                Err(e) => {
                    &&& e == ApiError::InvalidCursor
                    &&& forall|c: Cursor|
                        c.valid() ==> base64_decoding(s@) != Some(payload_bytes(c))
                },
            }),
            forall|c: Cursor|
                c.valid() && s@ == encoded_cursor(c) ==> r == Ok::<Cursor, ApiError>(c),
    {
        let bytes = match b64_decode(s) {
            Some(b) => b,
            None => {
                return Err(ApiError::InvalidCursor);
            },
        };
        match parse_payload(&bytes) {
            Some(c) => {
                proof {
                    assert forall|c2: Cursor|
                        c2.valid() && s@ == encoded_cursor(c2) implies Ok::<
                        Cursor,
                        ApiError,
                    >(c) == Ok::<Cursor, ApiError>(c2) by {
                        assert(bytes@ == payload_bytes(c2));
                        assert(payload_bytes(c) == payload_bytes(c2));
                        lemma_payload_injective(c, c2);
                    }
                }
                Ok(c)
            },
            None => Err(ApiError::InvalidCursor),
        }
    }
}

/// Law: the codec round-trips. For every valid cursor, decoding the encoded
/// wire string yields exactly the cursor back.
pub fn cursor_round_trip(c: Cursor) -> (r: Result<Cursor, ApiError>)
    requires
        c.valid(),
    ensures
        r == Ok::<Cursor, ApiError>(c),
{
    let s = c.encode();
    Cursor::decode(s.as_str())
}

} // verus!
