//! Primitive scalar codec: fixed-width little-endian integers, single bytes,
//! raw byte runs and strict `bool` bytes, read from and appended to linear
//! byte buffers.  Each reader is paired with a spec function that says
//! exactly which bytes it consumes and which value those bytes denote.

use vstd::bytes::*;
use vstd::prelude::*;
use vstd::utf8::{encode_utf8, valid_utf8};

verus! {

/// Relies on `String::from_utf8`: it returns a string holding exactly the
/// given bytes when they are valid UTF-8, and an error otherwise.
#[verifier::external_body]
pub fn string_from_utf8(v: Vec<u8>) -> (r: Option<String>)
    ensures
        r is Some <==> valid_utf8(v@),
        r matches Some(s) ==> encode_utf8(s@) == v@,
{
    match String::from_utf8(v) {
        Ok(s) => Some(s),
        Err(_) => None,
    }
}

/// The byte a `bool` is serialized as: `1` for true, `0` for false.
pub open spec fn spec_bool_byte(b: bool) -> u8 {
    if b {
        1
    } else {
        0
    }
}

/// What reading one byte at `i` yields: the byte and the next offset, or
/// nothing when the buffer is exhausted.
pub open spec fn spec_read_byte(s: Seq<u8>, i: int) -> Option<(u8, int)> {
    if 0 <= i && i + 1 <= s.len() {
        Some((s[i], i + 1))
    } else {
        None
    }
}

/// What reading a little-endian `u16` at `i` yields.
pub open spec fn spec_read_u16(s: Seq<u8>, i: int) -> Option<(u16, int)> {
    if 0 <= i && i + 2 <= s.len() {
        Some((spec_u16_from_le_bytes(s.subrange(i, i + 2)), i + 2))
    } else {
        None
    }
}

/// What reading a little-endian `u64` at `i` yields.
pub open spec fn spec_read_u64(s: Seq<u8>, i: int) -> Option<(u64, int)> {
    if 0 <= i && i + 8 <= s.len() {
        Some((spec_u64_from_le_bytes(s.subrange(i, i + 8)), i + 8))
    } else {
        None
    }
}

/// What reading a run of `n` raw bytes at `i` yields.
pub open spec fn spec_read_run(s: Seq<u8>, i: int, n: int) -> Option<(Seq<u8>, int)> {
    if 0 <= i && 0 <= n && i + n <= s.len() {
        Some((s.subrange(i, i + n), i + n))
    } else {
        None
    }
}

/// What reading a strict `bool` byte at `i` yields: only `0` and `1` denote
/// a value; any other byte is malformed.
pub open spec fn spec_read_bool(s: Seq<u8>, i: int) -> Option<(bool, int)> {
    match spec_read_byte(s, i) {
        Some((b, j)) => if b == 0 {
            Some((false, j))
        } else if b == 1 {
            Some((true, j))
        } else {
            None
        },
        None => None,
    }
}

/// Concatenation of byte sequences is associative.
pub proof fn lemma_seq_assoc(a: Seq<u8>, b: Seq<u8>, c: Seq<u8>)
    ensures
        (a + b) + c == a + (b + c),
{
    assert((a + b) + c =~= a + (b + c));
}

/// Peeling a known prefix off a suffix: when the bytes of `s` from `i` on
/// read `head + rest`, the next `head.len()` bytes are exactly `head` and the
/// bytes after them read `rest`.
pub proof fn lemma_split_prefix(s: Seq<u8>, i: int, head: Seq<u8>, rest: Seq<u8>)
    requires
        0 <= i <= s.len(),
        s.subrange(i, s.len() as int) == head + rest,
    ensures
        i + head.len() + rest.len() == s.len(),
        s.subrange(i, i + head.len()) == head,
        s.subrange(i + head.len(), s.len() as int) == rest,
{
    let suf = s.subrange(i, s.len() as int);
    assert((head + rest).len() == head.len() + rest.len());
    assert(suf.len() == s.len() - i);
    assert(s.subrange(i, i + head.len()) =~= head) by {
        assert forall|k: int| 0 <= k < head.len() implies s.subrange(i, i + head.len())[k]
            == head[k] by {
            assert(s.subrange(i, i + head.len())[k] == s[i + k]);
            assert(suf[k] == s[i + k]);
            assert(suf[k] == (head + rest)[k]);
            assert((head + rest)[k] == head[k]);
        }
    }
    assert(s.subrange(i + head.len(), s.len() as int) =~= rest) by {
        assert forall|k: int| 0 <= k < rest.len() implies s.subrange(
            i + head.len(),
            s.len() as int,
        )[k] == rest[k] by {
            assert(s.subrange(i + head.len(), s.len() as int)[k] == s[i + head.len() + k]);
            assert(suf[head.len() + k] == s[i + head.len() + k]);
            assert(suf[head.len() + k] == (head + rest)[head.len() + k]);
            assert((head + rest)[head.len() + k] == rest[k]);
        }
    }
}

/// Append the two little-endian bytes of `v`.
pub fn write_u16(out: &mut Vec<u8>, v: u16)
    ensures
        final(out)@ == old(out)@ + spec_u16_to_le_bytes(v),
{
    let mut b = u16_to_le_bytes(v);
    out.append(&mut b);
}

/// Append the eight little-endian bytes of `v`.
pub fn write_u64(out: &mut Vec<u8>, v: u64)
    ensures
        final(out)@ == old(out)@ + spec_u64_to_le_bytes(v),
{
    let mut b = u64_to_le_bytes(v);
    out.append(&mut b);
}

/// Append one byte.
pub fn write_byte(out: &mut Vec<u8>, b: u8)
    ensures
        final(out)@ == old(out)@ + seq![b],
{
    out.push(b);
    proof {
        assert(out@ =~= old(out)@ + seq![b]);
    }
}

/// Append the byte a `bool` is serialized as.
pub fn write_bool(out: &mut Vec<u8>, b: bool)
    ensures
        final(out)@ == old(out)@ + seq![spec_bool_byte(b)],
{
    write_byte(out, if b { 1 } else { 0 });
}

/// Append every byte of `data`.
pub fn write_run(out: &mut Vec<u8>, data: &Vec<u8>)
    ensures
        final(out)@ == old(out)@ + data@,
{
    let mut k: usize = 0;
    while k < data.len()
        invariant
            k <= data.len(),
            out@ == old(out)@ + data@.subrange(0, k as int),
        decreases data.len() - k,
    {
        out.push(data[k]);
        k = k + 1;
        proof {
            assert(out@ =~= old(out)@ + data@.subrange(0, k as int));
        }
    }
    proof {
        assert(old(out)@ + data@.subrange(0, data@.len() as int) =~= old(out)@ + data@);
    }
}

/// Read one byte at `i`.
pub fn read_byte(bytes: &Vec<u8>, i: usize) -> (r: Option<(u8, usize)>)
    ensures
        match r {
            Some((b, j)) => spec_read_byte(bytes@, i as int) == Some((b, j as int)),
            None => spec_read_byte(bytes@, i as int) is None,
        },
{
    if i < bytes.len() {
        Some((bytes[i], i + 1))
    } else {
        None
    }
}

/// Read a little-endian `u16` at `i`.
pub fn read_u16(bytes: &Vec<u8>, i: usize) -> (r: Option<(u16, usize)>)
    ensures
        match r {
            Some((v, j)) => spec_read_u16(bytes@, i as int) == Some((v, j as int)),
            None => spec_read_u16(bytes@, i as int) is None,
        },
{
    if bytes.len() >= 2 && i <= bytes.len() - 2 {
        let mut tmp: Vec<u8> = Vec::new();
        tmp.push(bytes[i]);
        tmp.push(bytes[i + 1]);
        proof {
            assert(tmp@ =~= bytes@.subrange(i as int, i as int + 2));
        }
        let v = u16_from_le_bytes(tmp.as_slice());
        Some((v, i + 2))
    } else {
        None
    }
}

/// Read a little-endian `u64` at `i`.
pub fn read_u64(bytes: &Vec<u8>, i: usize) -> (r: Option<(u64, usize)>)
    ensures
        match r {
            Some((v, j)) => spec_read_u64(bytes@, i as int) == Some((v, j as int)),
            None => spec_read_u64(bytes@, i as int) is None,
        },
{
    let len = bytes.len();
    if len >= 8 && i <= len - 8 {
        let mut tmp: Vec<u8> = Vec::new();
        let mut k: usize = 0;
        while k < 8
            invariant
                k <= 8,
                i + 8 <= len,
                len == bytes@.len(),
                tmp@ == bytes@.subrange(i as int, i as int + k as int),
            decreases 8 - k,
        {
            tmp.push(bytes[i + k]);
            k = k + 1;
            proof {
                assert(tmp@ =~= bytes@.subrange(i as int, i as int + k as int));
            }
        }
        let v = u64_from_le_bytes(tmp.as_slice());
        Some((v, i + 8))
    } else {
        None
    }
}

/// Read a run of `n` raw bytes at `i`.
pub fn read_run(bytes: &Vec<u8>, i: usize, n: usize) -> (r: Option<(Vec<u8>, usize)>)
    ensures
        match r {
            Some((run, j)) => spec_read_run(bytes@, i as int, n as int) == Some((run@, j as int)),
            None => spec_read_run(bytes@, i as int, n as int) is None,
        },
{
    let len = bytes.len();
    if n <= len && i <= len - n {
        let mut run: Vec<u8> = Vec::new();
        let mut k: usize = 0;
        while k < n
            invariant
                k <= n,
                i + n <= len,
                len == bytes@.len(),
                run@ == bytes@.subrange(i as int, i as int + k as int),
            decreases n - k,
        {
            run.push(bytes[i + k]);
            k = k + 1;
            proof {
                assert(run@ =~= bytes@.subrange(i as int, i as int + k as int));
            }
        }
        Some((run, i + n))
    } else {
        None
    }
}

/// Read a strict `bool` byte at `i`.
pub fn read_bool(bytes: &Vec<u8>, i: usize) -> (r: Option<(bool, usize)>)
    ensures
        match r {
            Some((b, j)) => spec_read_bool(bytes@, i as int) == Some((b, j as int)),
            None => spec_read_bool(bytes@, i as int) is None,
        },
{
    match read_byte(bytes, i) {
        Some((b, j)) => if b == 0 {
            Some((false, j))
        } else if b == 1 {
            Some((true, j))
        } else {
            None
        },
        None => None,
    }
}

} // verus!
