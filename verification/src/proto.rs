//! The wire protocol's framing: one message per line.
//!
//! Both sides of the robot protocol exchange UTF-8 JSON, one message per
//! line.  The library owns the framing discipline — a message holds no
//! newline, a frame is the message followed by one newline, and a reader
//! takes back exactly the bytes up to the first newline.  Encoding and
//! decoding of the JSON itself happens outside, on plain values.

use vstd::prelude::*;

verus! {

/// A payload fit for one frame: it contains no newline byte.
pub open spec fn spec_clean_line(s: Seq<u8>) -> bool {
    forall|i: int| 0 <= i < s.len() ==> s[i] != 10u8
}

/// The first frame of a buffer: the bytes before the first newline, and the
/// bytes after it.  A buffer without a newline holds no complete frame.
pub open spec fn spec_take_line(buf: Seq<u8>) -> Option<(Seq<u8>, Seq<u8>)> {
    match buf.index_of_first(10u8) {
        None => None,
        Some(i) => Some((buf.subrange(0, i), buf.subrange(i + 1, buf.len() as int))),
    }
}

/// Whether a payload can be framed as one line.
pub fn is_clean_line(payload: &Vec<u8>) -> (r: bool)
    ensures
        r == spec_clean_line(payload@),
{
    let mut i: usize = 0;
    while i < payload.len()
        invariant
            0 <= i <= payload.len(),
            forall|j: int| 0 <= j < i ==> payload@[j] != 10u8,
        decreases payload.len() - i,
    {
        if payload[i] == 10u8 {
            return false;
        }
        i += 1;
    }
    true
}

/// Frames one message: the payload followed by one newline.
pub fn frame_line(payload: &Vec<u8>) -> (r: Vec<u8>)
    requires
        spec_clean_line(payload@),
        payload@.len() < usize::MAX,
    ensures
        r@ == payload@ + seq![10u8],
        spec_take_line(r@) == Some((payload@, Seq::<u8>::empty())),
{
    let mut out: Vec<u8> = Vec::new();
    let mut i: usize = 0;
    while i < payload.len()
        invariant
            0 <= i <= payload.len(),
            out@ == payload@.take(i as int),
        decreases payload.len() - i,
    {
        out.push(payload[i]);
        proof {
            assert(out@ =~= payload@.take(i + 1));
        }
        i += 1;
    }
    proof {
        assert(out@ =~= payload@);
    }
    out.push(10u8);
    proof {
        lemma_take_line_at(payload@ + seq![10u8], payload@.len() as int);
        assert(out@ =~= payload@ + seq![10u8]);
        assert((payload@ + seq![10u8]).subrange(0, payload@.len() as int) =~= payload@);
        assert((payload@ + seq![10u8]).subrange(
            payload@.len() as int + 1,
            (payload@ + seq![10u8]).len() as int,
        ) =~= Seq::<u8>::empty());
    }
    out
}

/// Takes the first complete frame off a buffer, if one is there.
pub fn take_line(buf: &Vec<u8>) -> (r: Option<(Vec<u8>, Vec<u8>)>)
    ensures
        match r {
            Some(p) => spec_take_line(buf@) == Some((p.0@, p.1@)),
            None => spec_take_line(buf@) is None,
        },
{
    let n: usize = buf.len();
    let mut i: usize = 0;
    while i < n
        invariant
            0 <= i <= n,
            n == buf@.len(),
            forall|j: int| 0 <= j < i ==> buf@[j] != 10u8,
        decreases n - i,
    {
        if buf[i] == 10u8 {
            proof {
                buf@.index_of_first_ensures(10u8);
                assert(buf@[i as int] == 10u8);
                match buf@.index_of_first(10u8) {
                    Some(k) => {
                        if k < i as int {
                            assert(buf@[k] != 10u8);
                        } else if k > i as int {
                            assert(buf@[i as int] != 10u8);
                        }
                    },
                    None => {
                        assert(buf@.contains(10u8));
                    },
                }
            }
            let mut line: Vec<u8> = Vec::new();
            let mut j: usize = 0;
            while j < i
                invariant
                    0 <= j <= i < n,
                    n == buf@.len(),
                    line@ == buf@.subrange(0, j as int),
                decreases i - j,
            {
                line.push(buf[j]);
                proof {
                    assert(line@ =~= buf@.subrange(0, j + 1));
                }
                j += 1;
            }
            let mut rest: Vec<u8> = Vec::new();
            let mut k: usize = i + 1;
            while k < n
                invariant
                    i < n == buf@.len(),
                    i + 1 <= k <= n,
                    rest@ == buf@.subrange(i + 1, k as int),
                decreases n - k,
            {
                rest.push(buf[k]);
                proof {
                    assert(rest@ =~= buf@.subrange(i + 1, k + 1));
                }
                k += 1;
            }
            return Some((line, rest));
        }
        i += 1;
    }
    proof {
        buf@.index_of_first_ensures(10u8);
        match buf@.index_of_first(10u8) {
            Some(k) => {
                assert(buf@[k] == 10u8);
                assert(buf@[k] != 10u8);
            },
            None => {},
        }
    }
    None
}

/// The first newline of a clean payload followed by a newline and anything
/// further stands right after the payload.
proof fn lemma_take_line_at(buf: Seq<u8>, i: int)
    requires
        0 <= i < buf.len(),
        buf[i] == 10u8,
        forall|j: int| 0 <= j < i ==> buf[j] != 10u8,
    ensures
        buf.index_of_first(10u8) == Some(i),
{
    buf.index_of_first_ensures(10u8);
    match buf.index_of_first(10u8) {
        Some(k) => {
            if k < i {
                assert(buf[k] != 10u8);
            } else if k > i {
                assert(buf[i] != 10u8);
            }
        },
        None => {
            assert(buf.contains(10u8));
        },
    }
}

/// Law: framing round-trips.  A clean payload framed and followed by any
/// remainder is read back as exactly that payload, with exactly that
/// remainder left over.
pub proof fn lemma_frame_round_trip(payload: Seq<u8>, rest: Seq<u8>)
    requires
        spec_clean_line(payload),
    ensures
        spec_take_line(payload + seq![10u8] + rest) == Some((payload, rest)),
{
    let buf = payload + seq![10u8] + rest;
    assert(buf[payload.len() as int] == 10u8);
    assert(forall|j: int| 0 <= j < payload.len() ==> buf[j] == payload[j]);
    lemma_take_line_at(buf, payload.len() as int);
    assert(buf.subrange(0, payload.len() as int) =~= payload);
    assert(buf.subrange(payload.len() as int + 1, buf.len() as int) =~= rest);
}

} // verus!
