//! The persisted form of a record, and proof that it loses nothing.
//!
//! A record is framed as three length-prefixed fields: identity, payload,
//! and an optional secondary key behind a presence tag. Lengths are 64-bit
//! little-endian. Decoding inverts encoding exactly — the round-trip lemma
//! below — which is what makes recovery from persisted bytes lossless.

use vstd::prelude::*;

use crate::store::{has_id, Collection, Record, RecordModel};
use vstd::bytes::{
    lemma_auto_spec_u64_to_from_le_bytes, spec_u64_from_le_bytes, spec_u64_to_le_bytes,
    u64_from_le_bytes, u64_to_le_bytes,
};

verus! {

/// The persisted bytes of a record.
pub open spec fn spec_encode_record(m: RecordModel) -> Seq<u8> {
    spec_u64_to_le_bytes(m.identity.len() as u64) + m.identity + spec_u64_to_le_bytes(
        m.payload.len() as u64,
    ) + m.payload + (match m.secondary {
        None => seq![0u8],
        Some(k) => seq![1u8] + spec_u64_to_le_bytes(k.len() as u64) + k,
    })
}

/// One length-prefixed field taken off the front: the field bytes and what
/// follows them; `None` when the input is too short.
pub open spec fn take_len_chunk(b: Seq<u8>) -> Option<(Seq<u8>, Seq<u8>)> {
    if b.len() < 8 {
        None
    } else {
        let n = spec_u64_from_le_bytes(b.subrange(0, 8)) as int;
        if b.len() < 8 + n {
            None
        } else {
            Some((b.subrange(8, 8 + n), b.subrange(8 + n, b.len() as int)))
        }
    }
}

/// What decoding persisted bytes yields; `None` on anything that is not
/// exactly the encoding of one record.
pub open spec fn spec_decode_record(b: Seq<u8>) -> Option<RecordModel> {
    match take_len_chunk(b) {
        None => None,
        Some(c1) => match take_len_chunk(c1.1) {
            None => None,
            Some(c2) => {
                let rest = c2.1;
                if rest.len() == 1 && rest[0] == 0 {
                    Some(RecordModel { identity: c1.0, payload: c2.0, secondary: None })
                } else if rest.len() >= 1 && rest[0] == 1 {
                    match take_len_chunk(rest.drop_first()) {
                        None => None,
                        Some(c3) => if c3.1.len() == 0 {
                            Some(
                                RecordModel {
                                    identity: c1.0,
                                    payload: c2.0,
                                    secondary: Some(c3.0),
                                },
                            )
                        } else {
                            None
                        },
                    }
                } else {
                    None
                }
            },
        },
    }
}

/// Taking a chunk off a well-formed frame returns the framed field and the
/// trailing bytes unchanged.
pub proof fn lemma_take_len_chunk(x: Seq<u8>, rest: Seq<u8>)
    requires
        x.len() <= u64::MAX,
    ensures
        take_len_chunk(spec_u64_to_le_bytes(x.len() as u64) + x + rest) == Some((x, rest)),
{
    lemma_auto_spec_u64_to_from_le_bytes();
    let whole = spec_u64_to_le_bytes(x.len() as u64) + x + rest;
    assert(whole.subrange(0, 8) =~= spec_u64_to_le_bytes(x.len() as u64));
    let n = spec_u64_from_le_bytes(whole.subrange(0, 8)) as int;
    assert(n == x.len());
    assert(whole.subrange(8, 8 + n) =~= x);
    assert(whole.subrange(8 + n, whole.len() as int) =~= rest);
}

/// Decoding inverts encoding: no persisted record loses anything.
pub proof fn lemma_record_round_trip(m: RecordModel)
    requires
        m.identity.len() <= u64::MAX,
        m.payload.len() <= u64::MAX,
        m.secondary matches Some(k) ==> k.len() <= u64::MAX,
    ensures
        spec_decode_record(spec_encode_record(m)) == Some(m),
{
    let tail = match m.secondary {
        None => seq![0u8],
        Some(k) => seq![1u8] + spec_u64_to_le_bytes(k.len() as u64) + k,
    };
    let after_id = spec_u64_to_le_bytes(m.payload.len() as u64) + m.payload + tail;
    assert(spec_encode_record(m) =~= spec_u64_to_le_bytes(m.identity.len() as u64) + m.identity
        + after_id);
    lemma_take_len_chunk(m.identity, after_id);
    lemma_take_len_chunk(m.payload, tail);
    match m.secondary {
        None => {
            assert(tail.len() == 1 && tail[0] == 0);
        },
        Some(k) => {
            assert(tail[0] == 1);
            assert(tail.drop_first() =~= spec_u64_to_le_bytes(k.len() as u64) + k
                + Seq::<u8>::empty());
            lemma_take_len_chunk(k, Seq::<u8>::empty());
        },
    }
}

/// An owned copy of `v[a..b]`.
pub fn copy_range(v: &Vec<u8>, a: usize, b: usize) -> (r: Vec<u8>)
    requires
        a <= b <= v@.len(),
    ensures
        r@ == v@.subrange(a as int, b as int),
{
    let mut out: Vec<u8> = Vec::new();
    let mut i: usize = a;
    while i < b
        invariant
            a <= i <= b <= v@.len(),
            out@ =~= v@.subrange(a as int, i as int),
        decreases b - i,
    {
        out.push(v[i]);
        i += 1;
        proof {
            assert(out@ =~= v@.subrange(a as int, i as int));
        }
    }
    out
}

/// The 64-bit little-endian number at offset `off`.
fn read_u64_at(v: &Vec<u8>, off: usize) -> (r: u64)
    requires
        off + 8 <= v@.len(),
    ensures
        r == spec_u64_from_le_bytes(v@.subrange(off as int, off as int + 8)),
{
    let l = v.len();
    let tmp = copy_range(v, off, off + 8);
    u64_from_le_bytes(tmp.as_slice())
}

/// The persisted bytes of `r`.
pub fn encode_record(r: &Record) -> (out: Vec<u8>)
    ensures
        out@ == spec_encode_record(r@),
{
    let mut out = u64_to_le_bytes(r.identity.len() as u64);
    let mut part = copy_range(&r.identity, 0, r.identity.len());
    out.append(&mut part);
    let mut plen = u64_to_le_bytes(r.payload.len() as u64);
    out.append(&mut plen);
    let mut pay = copy_range(&r.payload, 0, r.payload.len());
    out.append(&mut pay);
    match &r.secondary {
        None => {
            out.push(0);
        },
        Some(k) => {
            out.push(1);
            let mut klen = u64_to_le_bytes(k.len() as u64);
            out.append(&mut klen);
            let mut kb = copy_range(k, 0, k.len());
            out.append(&mut kb);
        },
    }
    proof {
        assert(r.identity@.subrange(0, r.identity@.len() as int) =~= r.identity@);
        assert(r.payload@.subrange(0, r.payload@.len() as int) =~= r.payload@);
        if let Some(k) = &r.secondary {
            assert(k@.subrange(0, k@.len() as int) =~= k@);
        }
        assert(out@ =~= spec_encode_record(r@));
    }
    out
}

/// The record persisted as `bytes`, or `None` when `bytes` is not exactly
/// the encoding of one record.
#[verifier::loop_isolation(false)]
pub fn decode_record(bytes: &Vec<u8>) -> (r: Option<Record>)
    ensures
        match r {
            Some(rec) => spec_decode_record(bytes@) == Some(rec@),
            None => spec_decode_record(bytes@) is None,
        },
{
    let ghost b = bytes@;
    let n = bytes.len();
    if n < 8 {
        return None;
    }
    let ilen64 = read_u64_at(bytes, 0);
    proof {
        assert(b.subrange(0, 8) =~= b.subrange(0 as int, 0 as int + 8));
    }
    if ilen64 > (n - 8) as u64 {
        return None;
    }
    let ilen = ilen64 as usize;
    let identity = copy_range(bytes, 8, 8 + ilen);
    let off1 = 8 + ilen;
    let ghost rest1 = b.subrange(off1 as int, n as int);
    proof {
        assert(take_len_chunk(b) == Some((identity@, rest1)));
    }
    if n - off1 < 8 {
        proof {
            assert(rest1.len() < 8);
        }
        return None;
    }
    let plen64 = read_u64_at(bytes, off1);
    proof {
        assert(rest1.subrange(0, 8) =~= b.subrange(off1 as int, off1 as int + 8));
    }
    if plen64 > (n - off1 - 8) as u64 {
        return None;
    }
    let plen = plen64 as usize;
    let payload = copy_range(bytes, off1 + 8, off1 + 8 + plen);
    let off2 = off1 + 8 + plen;
    let ghost rest2 = b.subrange(off2 as int, n as int);
    proof {
        assert(rest1.subrange(8, 8 + plen as int) =~= b.subrange(
            off1 as int + 8,
            off1 as int + 8 + plen as int,
        ));
        assert(rest1.subrange(8 + plen as int, rest1.len() as int) =~= rest2);
        assert(take_len_chunk(rest1) == Some((payload@, rest2)));
    }
    if off2 >= n {
        return None;
    }
    let tag = bytes[off2];
    proof {
        assert(rest2[0] == b[off2 as int]);
    }
    if tag == 0 {
        if off2 + 1 == n {
            return Some(Record { identity, payload, secondary: None });
        } else {
            return None;
        }
    }
    if tag != 1 {
        return None;
    }
    let off3 = off2 + 1;
    let ghost rest3 = b.subrange(off3 as int, n as int);
    proof {
        assert(rest2.drop_first() =~= rest3);
    }
    if n - off3 < 8 {
        proof {
            assert(rest3.len() < 8);
        }
        return None;
    }
    let klen64 = read_u64_at(bytes, off3);
    proof {
        assert(rest3.subrange(0, 8) =~= b.subrange(off3 as int, off3 as int + 8));
    }
    if klen64 > (n - off3 - 8) as u64 {
        return None;
    }
    let klen = klen64 as usize;
    let key = copy_range(bytes, off3 + 8, off3 + 8 + klen);
    let off4 = off3 + 8 + klen;
    proof {
        assert(rest3.subrange(8, 8 + klen as int) =~= b.subrange(
            off3 as int + 8,
            off3 as int + 8 + klen as int,
        ));
        assert(rest3.subrange(8 + klen as int, rest3.len() as int) =~= b.subrange(
            off4 as int,
            n as int,
        ));
        assert(take_len_chunk(rest3) == Some(
            (key@, b.subrange(off4 as int, n as int)),
        ));
    }
    if off4 == n {
        Some(Record { identity, payload, secondary: Some(key) })
    } else {
        None
    }
}

/// A collection rebuilt purely from the persisted bytes of its records:
/// nothing survives but what was actually written, and what was written is
/// everything.
pub fn rebuild_collection(c: &Collection) -> (r: Collection)
    requires
        c.wf(),
    ensures
        r@ == c@,
        r.wf(),
{
    let mut out = Collection::new();
    let mut i: usize = 0;
    let total = c.count();
    while i < total
        invariant
            i <= total,
            total == c@.len(),
            c.wf(),
            out.wf(),
            out@ =~= c@.subrange(0, i as int),
        decreases total - i,
    {
        let rec = c.get(i);
        let idl = rec.identity.len();
        let pll = rec.payload.len();
        match &rec.secondary {
            Some(k) => {
                let kl = k.len();
                proof {
                    assert(rec@.secondary matches Some(ks) ==> ks.len() <= u64::MAX);
                }
            },
            None => {},
        }
        let persisted = encode_record(rec);
        proof {
            assert(rec@.identity.len() <= u64::MAX);
            assert(rec@.payload.len() <= u64::MAX);
            lemma_record_round_trip(rec@);
        }
        let revived = match decode_record(&persisted) {
            Some(rv) => rv,
            None => {
                proof {
                    assert(false);
                }
                return out;
            },
        };
        proof {
            assert(revived@ == c@[i as int]);
            assert(!has_id(out@, revived@.identity)) by {
                if has_id(out@, revived@.identity) {
                    let j = choose|j: int|
                        0 <= j < out@.len() && #[trigger] out@[j].identity == revived@.identity;
                    assert(c@[j].identity == c@[i as int].identity);
                }
            }
        }
        let res = out.insert(revived);
        proof {
            assert(res is Ok);
            assert(out@ =~= c@.subrange(0, i as int + 1));
        }
        i += 1;
    }
    proof {
        assert(out@ =~= c@);
    }
    out
}

} // verus!
