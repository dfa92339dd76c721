//! The binary snapshot codec for the bundle record.
//!
//! The snapshot is a self-describing, map/array based binary form of the
//! bundle, with a fixed field order: a four-entry map holding the
//! morphology list, the decoration list, the connectivity and the run
//! parameters.  Every unsigned argument (integer values and all lengths) is
//! written as a full eight-byte big-endian argument, so the encoding of a
//! bundle is one exact byte sequence — byte-for-byte stable across runs.
//! Decoding is the exact inverse on every encoded bundle
//! ([`lemma_bundle_round_trip`]).

use vstd::prelude::*;
use vstd::utf8::encode_utf8;

use crate::err::{err_v, Error, ErrorKind, ErrorV};
use crate::gen::{Bundle, BundleEdge, BundleEdgeV, BundleV};
use crate::raw::Run;

verus! {

/// The major-type tags of the encoding: an unsigned integer, a text
/// string, an array and a map, each with an eight-byte argument.
pub const TAG_UINT: u8 = 0x1b;

pub const TAG_TEXT: u8 = 0x7b;

pub const TAG_ARR: u8 = 0x9b;

pub const TAG_MAP: u8 = 0xbb;

/// The eight-byte big-endian form of an unsigned argument.
pub open spec fn be8(x: u64) -> Seq<u8> {
    seq![
        ((x >> 56) & 0xff) as u8,
        ((x >> 48) & 0xff) as u8,
        ((x >> 40) & 0xff) as u8,
        ((x >> 32) & 0xff) as u8,
        ((x >> 24) & 0xff) as u8,
        ((x >> 16) & 0xff) as u8,
        ((x >> 8) & 0xff) as u8,
        (x & 0xff) as u8,
    ]
}

/// A tag byte followed by its eight-byte argument.
pub open spec fn hdr(tag: u8, n: u64) -> Seq<u8> {
    seq![tag] + be8(n)
}

/// An unsigned integer item.
pub open spec fn c_u64(x: u64) -> Seq<u8> {
    hdr(TAG_UINT, x)
}

/// A text item: its length and its bytes.
pub open spec fn c_text(b: Seq<u8>) -> Seq<u8> {
    hdr(TAG_TEXT, b.len() as u64) + b
}

/// A text item holding a fixed key.
pub open spec fn c_key(k: Seq<char>) -> Seq<u8> {
    c_text(encode_utf8(k))
}

/// The text items of the list from position `k` on, in order.
pub open spec fn c_texts(ts: Seq<Seq<u8>>, k: int) -> Seq<u8>
    decreases ts.len() - k,
{
    if k < 0 || k >= ts.len() {
        Seq::empty()
    } else {
        c_text(ts[k]) + c_texts(ts, k + 1)
    }
}

/// One connectivity entry: a three-entry map.
pub open spec fn c_edge(e: BundleEdgeV) -> Seq<u8> {
    hdr(TAG_MAP, 3) + c_key("source"@) + c_text(e.source) + c_key("target"@) + c_text(e.target)
        + c_key("weight"@) + c_u64(e.weight)
}

/// The connectivity entries from position `k` on, in order.
pub open spec fn c_edges(es: Seq<BundleEdgeV>, k: int) -> Seq<u8>
    decreases es.len() - k,
{
    if k < 0 || k >= es.len() {
        Seq::empty()
    } else {
        c_edge(es[k]) + c_edges(es, k + 1)
    }
}

/// A keyed field holding a list of text items.
pub open spec fn c_text_field(k: Seq<char>, ts: Seq<Seq<u8>>) -> Seq<u8> {
    c_key(k) + hdr(TAG_ARR, ts.len() as u64) + c_texts(ts, 0)
}

/// The keyed connectivity field.
pub open spec fn c_edge_field(es: Seq<BundleEdgeV>) -> Seq<u8> {
    c_key("edges"@) + hdr(TAG_ARR, es.len() as u64) + c_edges(es, 0)
}

/// The keyed run-parameter field: a two-entry map.
pub open spec fn c_run_field(r: Run) -> Seq<u8> {
    c_key("run"@) + hdr(TAG_MAP, 2) + c_key("t_end"@) + c_u64(r.t_end) + c_key("dt"@) + c_u64(
        r.dt,
    )
}

/// The exact byte form of a bundle: a four-entry map whose fields stand in
/// a fixed order under fixed names.
pub open spec fn spec_encode_bundle(b: BundleV) -> Seq<u8> {
    hdr(TAG_MAP, 4) + c_text_field("morphology"@, b.morphology) + c_text_field(
        "decoration"@,
        b.decoration,
    ) + c_edge_field(b.edges) + c_run_field(b.run)
}

/// The unsigned argument read back from eight big-endian bytes.
pub open spec fn rd8(s: Seq<u8>, j: int) -> u64 {
    (((s[j] as u64) << 56) | ((s[j + 1] as u64) << 48) | ((s[j + 2] as u64) << 40) | ((s[j + 3]
        as u64) << 32) | ((s[j + 4] as u64) << 24) | ((s[j + 5] as u64) << 16) | ((s[j + 6]
        as u64) << 8) | (s[j + 7] as u64)) as u64
}

/// A tagged argument at position `i`: its value and the position past it.
pub open spec fn d_hdr(s: Seq<u8>, i: int, tag: u8) -> Option<(u64, int)> {
    if 0 <= i && i + 9 <= s.len() && s[i] == tag {
        Some((rd8(s, i + 1), i + 9))
    } else {
        None
    }
}

/// A text item at position `i`: its bytes and the position past it.
pub open spec fn d_text(s: Seq<u8>, i: int) -> Option<(Seq<u8>, int)> {
    match d_hdr(s, i, TAG_TEXT) {
        Some((n, j)) => if j + n <= s.len() {
            Some((s.subrange(j, j + n), j + n))
        } else {
            None
        },
        None => None,
    }
}

/// A text item that must hold the fixed key `k`: the position past it.
pub open spec fn d_key(s: Seq<u8>, i: int, k: Seq<char>) -> Option<int> {
    match d_text(s, i) {
        Some((b, j)) => if b == encode_utf8(k) {
            Some(j)
        } else {
            None
        },
        None => None,
    }
}

/// `cnt` text items from position `i` on.
pub open spec fn d_texts(s: Seq<u8>, i: int, cnt: u64) -> Option<(Seq<Seq<u8>>, int)>
    decreases cnt,
{
    if cnt == 0 {
        Some((Seq::empty(), i))
    } else {
        match d_text(s, i) {
            Some((b, j)) => match d_texts(s, j, (cnt - 1) as u64) {
                Some((bs, j2)) => Some((seq![b] + bs, j2)),
                None => None,
            },
            None => None,
        }
    }
}

/// One connectivity entry at position `i`.
pub open spec fn d_edge(s: Seq<u8>, i: int) -> Option<(BundleEdgeV, int)> {
    match d_hdr(s, i, TAG_MAP) {
        Some((m, j0)) => if m == 3 {
            match d_key(s, j0, "source"@) {
                Some(j1) => match d_text(s, j1) {
                    Some((src, j2)) => match d_key(s, j2, "target"@) {
                        Some(j3) => match d_text(s, j3) {
                            Some((tgt, j4)) => match d_key(s, j4, "weight"@) {
                                Some(j5) => match d_hdr(s, j5, TAG_UINT) {
                                    Some((w, j6)) => Some(
                                        (BundleEdgeV { source: src, target: tgt, weight: w }, j6),
                                    ),
                                    None => None,
                                },
                                None => None,
                            },
                            None => None,
                        },
                        None => None,
                    },
                    None => None,
                },
                None => None,
            }
        } else {
            None
        },
        None => None,
    }
}

/// `cnt` connectivity entries from position `i` on.
pub open spec fn d_edges(s: Seq<u8>, i: int, cnt: u64) -> Option<(Seq<BundleEdgeV>, int)>
    decreases cnt,
{
    if cnt == 0 {
        Some((Seq::empty(), i))
    } else {
        match d_edge(s, i) {
            Some((e, j)) => match d_edges(s, j, (cnt - 1) as u64) {
                Some((es, j2)) => Some((seq![e] + es, j2)),
                None => None,
            },
            None => None,
        }
    }
}

/// A keyed text-list field at position `i`: the list and the position past
/// the field.
pub open spec fn d_text_field(s: Seq<u8>, i: int, k: Seq<char>) -> Option<(Seq<Seq<u8>>, int)> {
    match d_key(s, i, k) {
        Some(j) => match d_hdr(s, j, TAG_ARR) {
            Some((n, j2)) => d_texts(s, j2, n),
            None => None,
        },
        None => None,
    }
}

/// The keyed connectivity field at position `i`.
pub open spec fn d_edge_field(s: Seq<u8>, i: int) -> Option<(Seq<BundleEdgeV>, int)> {
    match d_key(s, i, "edges"@) {
        Some(j) => match d_hdr(s, j, TAG_ARR) {
            Some((n, j2)) => d_edges(s, j2, n),
            None => None,
        },
        None => None,
    }
}

/// The keyed run field at position `i`.
pub open spec fn d_run_field(s: Seq<u8>, i: int) -> Option<(Run, int)> {
    match d_key(s, i, "run"@) {
        Some(j) => match d_hdr(s, j, TAG_MAP) {
            Some((m, j2)) => if m == 2 {
                match d_key(s, j2, "t_end"@) {
                    Some(j3) => match d_hdr(s, j3, TAG_UINT) {
                        Some((te, j4)) => match d_key(s, j4, "dt"@) {
                            Some(j5) => match d_hdr(s, j5, TAG_UINT) {
                                Some((dt, j6)) => Some((Run { t_end: te, dt }, j6)),
                                None => None,
                            },
                            None => None,
                        },
                        None => None,
                    },
                    None => None,
                }
            } else {
                None
            },
            None => None,
        },
        None => None,
    }
}

/// Decoding of a snapshot: the bundle, or nothing on any byte sequence
/// that is not exactly the encoding of one.
pub open spec fn spec_decode_bundle(s: Seq<u8>) -> Option<BundleV> {
    match d_hdr(s, 0, TAG_MAP) {
        Some((m, i0)) => if m == 4 {
            match d_text_field(s, i0, "morphology"@) {
                Some((mor, i1)) => match d_text_field(s, i1, "decoration"@) {
                    Some((dec, i2)) => match d_edge_field(s, i2) {
                        Some((eds, i3)) => match d_run_field(s, i3) {
                            Some((run, i4)) => if i4 == s.len() {
                                Some(BundleV { morphology: mor, decoration: dec, edges: eds, run })
                            } else {
                                None
                            },
                            None => None,
                        },
                        None => None,
                    },
                    None => None,
                },
                None => None,
            }
        } else {
            None
        },
        None => None,
    }
}

/// The bundle's lists and names fit the encoding's eight-byte arguments.
/// Every bundle held in memory satisfies this.
pub open spec fn wf_bundle(b: BundleV) -> bool {
    &&& b.morphology.len() <= u64::MAX
    &&& b.decoration.len() <= u64::MAX
    &&& b.edges.len() <= u64::MAX
    &&& forall|t: int| 0 <= t < b.morphology.len() ==> #[trigger] b.morphology[t].len() <= u64::MAX
    &&& forall|t: int| 0 <= t < b.decoration.len() ==> #[trigger] b.decoration[t].len() <= u64::MAX
    &&& forall|t: int|
        0 <= t < b.edges.len() ==> #[trigger] b.edges[t].source.len() <= u64::MAX
            && b.edges[t].target.len() <= u64::MAX
}

fn push_arg(out: &mut Vec<u8>, tag: u8, n: u64)
    ensures
        final(out)@ == old(out)@ + hdr(tag, n),
{
    proof {
        assert((n >> 56) & 0xff < 256 && (n >> 48) & 0xff < 256 && (n >> 40) & 0xff < 256 && (n
            >> 32) & 0xff < 256 && (n >> 24) & 0xff < 256 && (n >> 16) & 0xff < 256 && (n >> 8)
            & 0xff < 256 && n & 0xff < 256) by (bit_vector);
    }
    out.push(tag);
    out.push(((n >> 56) & 0xff) as u8);
    out.push(((n >> 48) & 0xff) as u8);
    out.push(((n >> 40) & 0xff) as u8);
    out.push(((n >> 32) & 0xff) as u8);
    out.push(((n >> 24) & 0xff) as u8);
    out.push(((n >> 16) & 0xff) as u8);
    out.push(((n >> 8) & 0xff) as u8);
    out.push((n & 0xff) as u8);
    proof {
        assert(out@ =~= old(out)@ + hdr(tag, n));
    }
}

fn push_bytes(out: &mut Vec<u8>, b: &Vec<u8>)
    ensures
        final(out)@ == old(out)@ + b@,
{
    let mut t: usize = 0;
    while t < b.len()
        invariant
            0 <= t <= b@.len(),
            out@ == old(out)@ + b@.subrange(0, t as int),
        decreases b@.len() - t,
    {
        out.push(b[t]);
        proof {
            assert(out@ =~= old(out)@ + b@.subrange(0, t + 1));
        }
        t += 1;
    }
    proof {
        assert(b@.subrange(0, b@.len() as int) =~= b@);
    }
}

fn push_text(out: &mut Vec<u8>, b: &Vec<u8>)
    ensures
        final(out)@ == old(out)@ + c_text(b@),
{
    push_arg(out, TAG_TEXT, b.len() as u64);
    let ghost mid = out@;
    push_bytes(out, b);
    proof {
        assert(out@ =~= old(out)@ + c_text(b@));
    }
}

fn push_key(out: &mut Vec<u8>, k: &str)
    ensures
        final(out)@ == old(out)@ + c_key(k@),
{
    let kb = k.as_bytes_vec();
    push_text(out, &kb);
    proof {
        assert(out@ =~= old(out)@ + c_key(k@));
    }
}

fn push_edge(out: &mut Vec<u8>, e: &BundleEdge)
    ensures
        final(out)@ == old(out)@ + c_edge(e.deep_view()),
{
    push_arg(out, TAG_MAP, 3);
    push_key(out, "source");
    push_text(out, &e.source);
    push_key(out, "target");
    push_text(out, &e.target);
    push_key(out, "weight");
    push_arg(out, TAG_UINT, e.weight);
    proof {
        assert(out@ =~= old(out)@ + c_edge(e.deep_view()));
    }
}

fn push_texts(out: &mut Vec<u8>, ts: &Vec<Vec<u8>>)
    ensures
        final(out)@ == old(out)@ + c_texts(ts.deep_view(), 0),
{
    let ghost tv = ts.deep_view();
    let mut k: usize = 0;
    while k < ts.len()
        invariant
            tv == ts.deep_view(),
            tv.len() == ts@.len(),
            0 <= k <= tv.len(),
            out@ + c_texts(tv, k as int) == old(out)@ + c_texts(tv, 0),
        decreases tv.len() - k,
    {
        proof {
            assert(tv[k as int] == ts[k as int]@);
        }
        let ghost pre = out@;
        push_text(out, &ts[k]);
        proof {
            assert(out@ + c_texts(tv, k + 1) =~= pre + c_texts(tv, k as int));
        }
        k += 1;
    }
    proof {
        assert(out@ + c_texts(tv, tv.len() as int) =~= out@);
    }
}

fn push_edges(out: &mut Vec<u8>, es: &Vec<BundleEdge>)
    ensures
        final(out)@ == old(out)@ + c_edges(es.deep_view(), 0),
{
    let ghost ev = es.deep_view();
    let mut k: usize = 0;
    while k < es.len()
        invariant
            ev == es.deep_view(),
            ev.len() == es@.len(),
            0 <= k <= ev.len(),
            out@ + c_edges(ev, k as int) == old(out)@ + c_edges(ev, 0),
        decreases ev.len() - k,
    {
        proof {
            assert(ev[k as int] == es[k as int].deep_view());
        }
        let ghost pre = out@;
        push_edge(out, &es[k]);
        proof {
            assert(out@ + c_edges(ev, k + 1) =~= pre + c_edges(ev, k as int));
        }
        k += 1;
    }
    proof {
        assert(out@ + c_edges(ev, ev.len() as int) =~= out@);
    }
}

/// Encodes a bundle into its exact snapshot bytes.
pub fn encode_bundle(b: &Bundle) -> (r: Vec<u8>)
    ensures
        r@ == spec_encode_bundle(b.deep_view()),
{
    let mut out: Vec<u8> = Vec::new();
    push_arg(&mut out, TAG_MAP, 4);
    push_key(&mut out, "morphology");
    push_arg(&mut out, TAG_ARR, b.morphology.len() as u64);
    push_texts(&mut out, &b.morphology);
    push_key(&mut out, "decoration");
    push_arg(&mut out, TAG_ARR, b.decoration.len() as u64);
    push_texts(&mut out, &b.decoration);
    push_key(&mut out, "edges");
    push_arg(&mut out, TAG_ARR, b.edges.len() as u64);
    push_edges(&mut out, &b.edges);
    push_key(&mut out, "run");
    push_arg(&mut out, TAG_MAP, 2);
    push_key(&mut out, "t_end");
    push_arg(&mut out, TAG_UINT, b.run.t_end);
    push_key(&mut out, "dt");
    push_arg(&mut out, TAG_UINT, b.run.dt);
    proof {
        assert(out@ =~= spec_encode_bundle(b.deep_view()));
    }
    out
}

fn bytes_eq(a: &Vec<u8>, b: &Vec<u8>) -> (r: bool)
    ensures
        r == (a@ == b@),
{
    if a.len() != b.len() {
        return false;
    }
    let mut t: usize = 0;
    while t < a.len()
        invariant
            a@.len() == b@.len(),
            0 <= t <= a@.len(),
            forall|u: int| 0 <= u < t ==> a@[u] == b@[u],
        decreases a@.len() - t,
    {
        if a[t] != b[t] {
            return false;
        }
        t += 1;
    }
    proof {
        assert(a@ =~= b@);
    }
    true
}

fn take_bytes(s: &Vec<u8>, from: usize, to: usize) -> (r: Vec<u8>)
    requires
        from <= to <= s@.len(),
    ensures
        r@ == s@.subrange(from as int, to as int),
{
    let mut out: Vec<u8> = Vec::new();
    let mut t: usize = from;
    while t < to
        invariant
            from <= t <= to <= s@.len(),
            out@ == s@.subrange(from as int, t as int),
        decreases to - t,
    {
        out.push(s[t]);
        proof {
            assert(out@ =~= s@.subrange(from as int, t + 1));
        }
        t += 1;
    }
    out
}

fn rd_hdr(s: &Vec<u8>, i: usize, tag: u8) -> (r: Option<(u64, usize)>)
    ensures
        match r {
            Some(t) => d_hdr(s@, i as int, tag) == Some((t.0, t.1 as int)) && i < t.1 <= s@.len(),
            None => d_hdr(s@, i as int, tag) is None,
        },
{
    if s.len() < 9 || i > s.len() - 9 {
        return None;
    }
    if s[i] != tag {
        return None;
    }
    let x: u64 = ((s[i + 1] as u64) << 56) | ((s[i + 2] as u64) << 48) | ((s[i + 3] as u64) << 40)
        | ((s[i + 4] as u64) << 32) | ((s[i + 5] as u64) << 24) | ((s[i + 6] as u64) << 16) | ((s[i
        + 7] as u64) << 8) | (s[i + 8] as u64);
    Some((x, i + 9))
}

fn rd_text(s: &Vec<u8>, i: usize) -> (r: Option<(Vec<u8>, usize)>)
    ensures
        match r {
            Some(t) => d_text(s@, i as int) == Some((t.0@, t.1 as int)) && i < t.1 <= s@.len(),
            None => d_text(s@, i as int) is None,
        },
{
    let (n, j) = match rd_hdr(s, i, TAG_TEXT) {
        Some(t) => t,
        None => return None,
    };
    if n > (s.len() - j) as u64 {
        return None;
    }
    let m = n as usize;
    proof {
        assert(m == n);
    }
    let b = take_bytes(s, j, j + m);
    Some((b, j + m))
}

fn rd_key(s: &Vec<u8>, i: usize, k: &str) -> (r: Option<usize>)
    ensures
        match r {
            Some(j) => d_key(s@, i as int, k@) == Some(j as int) && i < j <= s@.len(),
            None => d_key(s@, i as int, k@) is None,
        },
{
    let (b, j) = match rd_text(s, i) {
        Some(t) => t,
        None => return None,
    };
    let kb = k.as_bytes_vec();
    if bytes_eq(&b, &kb) {
        Some(j)
    } else {
        None
    }
}

fn rd_texts(s: &Vec<u8>, i: usize, cnt: u64) -> (r: Option<(Vec<Vec<u8>>, usize)>)
    requires
        i <= s@.len(),
    ensures
        match r {
            Some(t) => d_texts(s@, i as int, cnt) == Some((t.0.deep_view(), t.1 as int)) && i
                <= t.1 <= s@.len(),
            None => d_texts(s@, i as int, cnt) is None,
        },
    decreases cnt,
{
    if cnt == 0 {
        let out: Vec<Vec<u8>> = Vec::new();
        proof {
            assert(out.deep_view() =~= Seq::<Seq<u8>>::empty());
        }
        return Some((out, i));
    }
    let (b, j) = match rd_text(s, i) {
        Some(t) => t,
        None => return None,
    };
    match rd_texts(s, j, cnt - 1) {
        Some((mut bs, j2)) => {
            let ghost tail = bs.deep_view();
            let ghost bv = b@;
            bs.insert(0, b);
            proof {
                assert(bs.deep_view() =~~= seq![bv] + tail);
            }
            Some((bs, j2))
        },
        None => None,
    }
}

fn rd_edge(s: &Vec<u8>, i: usize) -> (r: Option<(BundleEdge, usize)>)
    ensures
        match r {
            Some(t) => d_edge(s@, i as int) == Some((t.0.deep_view(), t.1 as int)) && i < t.1
                <= s@.len(),
            None => d_edge(s@, i as int) is None,
        },
{
    let (m, j0) = match rd_hdr(s, i, TAG_MAP) {
        Some(t) => t,
        None => return None,
    };
    if m != 3 {
        return None;
    }
    let j1 = match rd_key(s, j0, "source") {
        Some(j) => j,
        None => return None,
    };
    let (src, j2) = match rd_text(s, j1) {
        Some(t) => t,
        None => return None,
    };
    let j3 = match rd_key(s, j2, "target") {
        Some(j) => j,
        None => return None,
    };
    let (tgt, j4) = match rd_text(s, j3) {
        Some(t) => t,
        None => return None,
    };
    let j5 = match rd_key(s, j4, "weight") {
        Some(j) => j,
        None => return None,
    };
    let (w, j6) = match rd_hdr(s, j5, TAG_UINT) {
        Some(t) => t,
        None => return None,
    };
    Some((BundleEdge { source: src, target: tgt, weight: w }, j6))
}

fn rd_edges(s: &Vec<u8>, i: usize, cnt: u64) -> (r: Option<(Vec<BundleEdge>, usize)>)
    requires
        i <= s@.len(),
    ensures
        match r {
            Some(t) => d_edges(s@, i as int, cnt) == Some((t.0.deep_view(), t.1 as int)) && i
                <= t.1 <= s@.len(),
            None => d_edges(s@, i as int, cnt) is None,
        },
    decreases cnt,
{
    if cnt == 0 {
        let out: Vec<BundleEdge> = Vec::new();
        proof {
            assert(out.deep_view() =~= Seq::<BundleEdgeV>::empty());
        }
        return Some((out, i));
    }
    let (e, j) = match rd_edge(s, i) {
        Some(t) => t,
        None => return None,
    };
    match rd_edges(s, j, cnt - 1) {
        Some((mut es, j2)) => {
            let ghost tail = es.deep_view();
            let ghost ev = e.deep_view();
            es.insert(0, e);
            proof {
                assert(es.deep_view() =~= seq![ev] + tail);
            }
            Some((es, j2))
        },
        None => None,
    }
}

/// Decodes a snapshot back into the bundle it encodes; any other byte
/// sequence fails with a structure error.
pub fn decode_bundle(s: &Vec<u8>) -> (r: Result<Bundle, Error>)
    ensures
        match r {
            Ok(b) => spec_decode_bundle(s@) == Some(b.deep_view()),
            Err(e) => spec_decode_bundle(s@) is None && e@ == err_v(
                ErrorKind::Structure,
                "snapshot"@,
            ),
        },
{
    match rd_bundle(s) {
        Some(b) => Ok(b),
        None => Err(Error::structure(String::from_str("snapshot"))),
    }
}

fn rd_bundle(s: &Vec<u8>) -> (r: Option<Bundle>)
    ensures
        match r {
            Some(b) => spec_decode_bundle(s@) == Some(b.deep_view()),
            None => spec_decode_bundle(s@) is None,
        },
{
    let (m, i0) = match rd_hdr(s, 0, TAG_MAP) {
                Some(t) => t,
                None => return None,
            };
            if m != 4 {
                return None;
            }
            let i1 = match rd_key(s, i0, "morphology") {
                Some(j) => j,
                None => return None,
            };
            let (n1, i2) = match rd_hdr(s, i1, TAG_ARR) {
                Some(t) => t,
                None => return None,
            };
            let (mor, i3) = match rd_texts(s, i2, n1) {
                Some(t) => t,
                None => return None,
            };
            let i4 = match rd_key(s, i3, "decoration") {
                Some(j) => j,
                None => return None,
            };
            let (n2, i5) = match rd_hdr(s, i4, TAG_ARR) {
                Some(t) => t,
                None => return None,
            };
            let (dec, i6) = match rd_texts(s, i5, n2) {
                Some(t) => t,
                None => return None,
            };
            let i7 = match rd_key(s, i6, "edges") {
                Some(j) => j,
                None => return None,
            };
            let (n3, i8) = match rd_hdr(s, i7, TAG_ARR) {
                Some(t) => t,
                None => return None,
            };
            let (eds, i9) = match rd_edges(s, i8, n3) {
                Some(t) => t,
                None => return None,
            };
            let i10 = match rd_key(s, i9, "run") {
                Some(j) => j,
                None => return None,
            };
            let (m2, i11) = match rd_hdr(s, i10, TAG_MAP) {
                Some(t) => t,
                None => return None,
            };
            if m2 != 2 {
                return None;
            }
            let i12 = match rd_key(s, i11, "t_end") {
                Some(j) => j,
                None => return None,
            };
            let (te, i13) = match rd_hdr(s, i12, TAG_UINT) {
                Some(t) => t,
                None => return None,
            };
            let i14 = match rd_key(s, i13, "dt") {
                Some(j) => j,
                None => return None,
            };
            let (dt, i15) = match rd_hdr(s, i14, TAG_UINT) {
                Some(t) => t,
                None => return None,
            };
            if i15 != s.len() {
                return None;
            }
    Some(Bundle { morphology: mor, decoration: dec, edges: eds, run: Run { t_end: te, dt } })
}


proof fn lemma_concat_sub(s: Seq<u8>, a: int, p: Seq<u8>, q: Seq<u8>)
    requires
        0 <= a,
        a + p.len() + q.len() <= s.len(),
        s.subrange(a, a + p.len() + q.len()) == p + q,
    ensures
        s.subrange(a, a + p.len()) =~= p,
        s.subrange(a + p.len(), a + p.len() + q.len()) =~= q,
{
    assert forall|t: int| 0 <= t < p.len() implies s.subrange(a, a + p.len())[t] == p[t] by {
        assert(s.subrange(a, a + p.len() + q.len())[t] == (p + q)[t]);
    }
    assert forall|t: int|
        0 <= t < q.len() implies s.subrange(a + p.len(), a + p.len() + q.len())[t] == q[t] by {
        assert(s.subrange(a, a + p.len() + q.len())[p.len() + t] == (p + q)[p.len() + t]);
        assert(s.subrange(a, a + p.len() + q.len())[p.len() + t] == s[a + p.len() + t]);
        assert((p + q)[p.len() + t] == q[t]);
        assert(s.subrange(a + p.len(), a + p.len() + q.len())[t] == s[a + p.len() + t]);
    }
}

proof fn lemma_rd8_be8(s: Seq<u8>, j: int, x: u64)
    requires
        0 <= j,
        j + 8 <= s.len(),
        s.subrange(j, j + 8) == be8(x),
    ensures
        rd8(s, j) == x,
{
    assert(s[j] == be8(x)[0]);
    assert(s[j + 1] == be8(x)[1]);
    assert(s[j + 2] == be8(x)[2]);
    assert(s[j + 3] == be8(x)[3]);
    assert(s[j + 4] == be8(x)[4]);
    assert(s[j + 5] == be8(x)[5]);
    assert(s[j + 6] == be8(x)[6]);
    assert(s[j + 7] == be8(x)[7]);
    assert((((((x >> 56) & 0xff) as u8 as u64) << 56) | ((((x >> 48) & 0xff) as u8 as u64) << 48)
        | ((((x >> 40) & 0xff) as u8 as u64) << 40) | ((((x >> 32) & 0xff) as u8 as u64) << 32) | ((
    ((x >> 24) & 0xff) as u8 as u64) << 24) | ((((x >> 16) & 0xff) as u8 as u64) << 16) | ((((x
        >> 8) & 0xff) as u8 as u64) << 8) | ((x & 0xff) as u8 as u64)) as u64 == x)
        by (bit_vector);
}

proof fn lemma_d_hdr_at(s: Seq<u8>, i: int, tag: u8, n: u64)
    requires
        0 <= i,
        i + 9 <= s.len(),
        s.subrange(i, i + 9) == hdr(tag, n),
    ensures
        d_hdr(s, i, tag) == Some((n, i + 9)),
{
    lemma_concat_sub(s, i, seq![tag], be8(n));
    assert(s[i] == s.subrange(i, i + 1)[0]);
    lemma_rd8_be8(s, i + 1, n);
}

proof fn lemma_d_text_at(s: Seq<u8>, i: int, b: Seq<u8>)
    requires
        0 <= i,
        b.len() <= u64::MAX,
        i + 9 + b.len() <= s.len(),
        s.subrange(i, i + 9 + b.len()) == c_text(b),
    ensures
        d_text(s, i) == Some((b, i + 9 + b.len())),
{
    lemma_concat_sub(s, i, hdr(TAG_TEXT, b.len() as u64), b);
    lemma_d_hdr_at(s, i, TAG_TEXT, b.len() as u64);
}

proof fn lemma_d_key_at(s: Seq<u8>, i: int, k: Seq<char>)
    requires
        0 <= i,
        encode_utf8(k).len() <= u64::MAX,
        i + 9 + encode_utf8(k).len() <= s.len(),
        s.subrange(i, i + 9 + encode_utf8(k).len()) == c_key(k),
    ensures
        d_key(s, i, k) == Some(i + 9 + encode_utf8(k).len()),
{
    lemma_d_text_at(s, i, encode_utf8(k));
}

/// The canonical byte encoding of a character sequence takes at most four
/// bytes per character.
proof fn lemma_encode_len(chars: Seq<char>)
    ensures
        encode_utf8(chars).len() <= 4 * chars.len(),
    decreases chars.len(),
{
    if chars.len() == 0 {
    } else {
        lemma_encode_len(chars.drop_first());
        assert(vstd::utf8::encode_scalar(chars[0] as u32).len() <= 4);
    }
}

/// The fixed keys of the snapshot fit an eight-byte length argument.
proof fn lemma_key_lens()
    ensures
        encode_utf8("morphology"@).len() <= u64::MAX,
        encode_utf8("decoration"@).len() <= u64::MAX,
        encode_utf8("edges"@).len() <= u64::MAX,
        encode_utf8("run"@).len() <= u64::MAX,
        encode_utf8("t_end"@).len() <= u64::MAX,
        encode_utf8("dt"@).len() <= u64::MAX,
        encode_utf8("source"@).len() <= u64::MAX,
        encode_utf8("target"@).len() <= u64::MAX,
        encode_utf8("weight"@).len() <= u64::MAX,
{
    reveal_strlit("morphology");
    reveal_strlit("decoration");
    reveal_strlit("edges");
    reveal_strlit("run");
    reveal_strlit("t_end");
    reveal_strlit("dt");
    reveal_strlit("source");
    reveal_strlit("target");
    reveal_strlit("weight");
    lemma_encode_len("morphology"@);
    lemma_encode_len("decoration"@);
    lemma_encode_len("edges"@);
    lemma_encode_len("run"@);
    lemma_encode_len("t_end"@);
    lemma_encode_len("dt"@);
    lemma_encode_len("source"@);
    lemma_encode_len("target"@);
    lemma_encode_len("weight"@);
}

proof fn lemma_d_texts_at(s: Seq<u8>, i: int, ts: Seq<Seq<u8>>, k: int)
    requires
        0 <= k <= ts.len(),
        ts.len() <= u64::MAX,
        forall|t: int| 0 <= t < ts.len() ==> #[trigger] ts[t].len() <= u64::MAX,
        0 <= i,
        i + c_texts(ts, k).len() <= s.len(),
        s.subrange(i, i + c_texts(ts, k).len()) == c_texts(ts, k),
    ensures
        d_texts(s, i, (ts.len() - k) as u64) == Some((ts.skip(k), i + c_texts(ts, k).len())),
    decreases ts.len() - k,
{
    if k == ts.len() {
        assert(ts.skip(k) =~= Seq::<Seq<u8>>::empty());
    } else {
        let e = ts[k];
        assert(c_texts(ts, k) == c_text(e) + c_texts(ts, k + 1));
        lemma_concat_sub(s, i, c_text(e), c_texts(ts, k + 1));
        lemma_d_text_at(s, i, e);
        let i2 = i + 9 + e.len();
        lemma_d_texts_at(s, i2, ts, k + 1);
        let cnt = (ts.len() - k) as u64;
        assert(cnt != 0);
        assert((cnt - 1) as u64 == (ts.len() - (k + 1)) as u64);
        assert(seq![e] + ts.skip(k + 1) =~= ts.skip(k));
    }
}

#[verifier::rlimit(50)]
proof fn lemma_d_edge_at(s: Seq<u8>, i: int, e: BundleEdgeV)
    requires
        e.source.len() <= u64::MAX,
        e.target.len() <= u64::MAX,
        0 <= i,
        i + c_edge(e).len() <= s.len(),
        s.subrange(i, i + c_edge(e).len()) == c_edge(e),
    ensures
        d_edge(s, i) == Some((e, i + c_edge(e).len())),
{
    lemma_key_lens();
    let p1 = hdr(TAG_MAP, 3);
    let p2 = c_key("source"@);
    let p3 = c_text(e.source);
    let p4 = c_key("target"@);
    let p5 = c_text(e.target);
    let p6 = c_key("weight"@);
    let p7 = c_u64(e.weight);
    let a2 = p1 + p2;
    let a3 = a2 + p3;
    let a4 = a3 + p4;
    let a5 = a4 + p5;
    let a6 = a5 + p6;
    let a7 = a6 + p7;
    assert(c_edge(e) == a7);
    lemma_concat_sub(s, i, a6, p7);
    lemma_concat_sub(s, i, a5, p6);
    lemma_concat_sub(s, i, a4, p5);
    lemma_concat_sub(s, i, a3, p4);
    lemma_concat_sub(s, i, a2, p3);
    lemma_concat_sub(s, i, p1, p2);
    lemma_d_hdr_at(s, i, TAG_MAP, 3);
    lemma_d_key_at(s, i + p1.len(), "source"@);
    lemma_d_text_at(s, i + a2.len(), e.source);
    lemma_d_key_at(s, i + a3.len(), "target"@);
    lemma_d_text_at(s, i + a4.len(), e.target);
    lemma_d_key_at(s, i + a5.len(), "weight"@);
    lemma_d_hdr_at(s, i + a6.len(), TAG_UINT, e.weight);
}

#[verifier::rlimit(100)]
proof fn lemma_d_edges_at(s: Seq<u8>, i: int, es: Seq<BundleEdgeV>, k: int)
    requires
        0 <= k <= es.len(),
        es.len() <= u64::MAX,
        forall|t: int|
            0 <= t < es.len() ==> #[trigger] es[t].source.len() <= u64::MAX
                && es[t].target.len() <= u64::MAX,
        0 <= i,
        i + c_edges(es, k).len() <= s.len(),
        s.subrange(i, i + c_edges(es, k).len()) == c_edges(es, k),
    ensures
        d_edges(s, i, (es.len() - k) as u64) == Some((es.skip(k), i + c_edges(es, k).len())),
    decreases es.len() - k,
{
    if k == es.len() {
        assert(es.skip(k) =~= Seq::<BundleEdgeV>::empty());
    } else {
        let e = es[k];
        assert(c_edges(es, k) == c_edge(e) + c_edges(es, k + 1));
        lemma_concat_sub(s, i, c_edge(e), c_edges(es, k + 1));
        lemma_d_edge_at(s, i, e);
        let i2 = i + c_edge(e).len();
        lemma_d_edges_at(s, i2, es, k + 1);
        let cnt = (es.len() - k) as u64;
        assert(cnt != 0);
        assert((cnt - 1) as u64 == (es.len() - (k + 1)) as u64);
        assert(seq![e] + es.skip(k + 1) =~= es.skip(k));
    }
}

/// A keyed text-list field decodes to its list.
#[verifier::rlimit(50)]
proof fn lemma_d_text_field_at(s: Seq<u8>, i: int, k: Seq<char>, ts: Seq<Seq<u8>>)
    requires
        encode_utf8(k).len() <= u64::MAX,
        ts.len() <= u64::MAX,
        forall|t: int| 0 <= t < ts.len() ==> #[trigger] ts[t].len() <= u64::MAX,
        0 <= i,
        i + c_text_field(k, ts).len() <= s.len(),
        s.subrange(i, i + c_text_field(k, ts).len()) == c_text_field(k, ts),
    ensures
        d_text_field(s, i, k) == Some((ts, i + c_text_field(k, ts).len())),
{
    let p1 = c_key(k);
    let p2 = hdr(TAG_ARR, ts.len() as u64);
    let p3 = c_texts(ts, 0);
    let a2 = p1 + p2;
    let a3 = a2 + p3;
    assert(c_text_field(k, ts) == a3);
    lemma_concat_sub(s, i, a2, p3);
    lemma_concat_sub(s, i, p1, p2);
    lemma_d_key_at(s, i, k);
    lemma_d_hdr_at(s, i + p1.len(), TAG_ARR, ts.len() as u64);
    lemma_d_texts_at(s, i + a2.len(), ts, 0);
    assert(ts.skip(0) =~= ts);
    assert((ts.len() - 0) as u64 == ts.len() as u64);
}

/// The keyed connectivity field decodes to its entries.
#[verifier::rlimit(50)]
proof fn lemma_d_edge_field_at(s: Seq<u8>, i: int, es: Seq<BundleEdgeV>)
    requires
        es.len() <= u64::MAX,
        forall|t: int|
            0 <= t < es.len() ==> #[trigger] es[t].source.len() <= u64::MAX
                && es[t].target.len() <= u64::MAX,
        0 <= i,
        i + c_edge_field(es).len() <= s.len(),
        s.subrange(i, i + c_edge_field(es).len()) == c_edge_field(es),
    ensures
        d_edge_field(s, i) == Some((es, i + c_edge_field(es).len())),
{
    lemma_key_lens();
    let p1 = c_key("edges"@);
    let p2 = hdr(TAG_ARR, es.len() as u64);
    let p3 = c_edges(es, 0);
    let a2 = p1 + p2;
    let a3 = a2 + p3;
    assert(c_edge_field(es) == a3);
    lemma_concat_sub(s, i, a2, p3);
    lemma_concat_sub(s, i, p1, p2);
    lemma_d_key_at(s, i, "edges"@);
    lemma_d_hdr_at(s, i + p1.len(), TAG_ARR, es.len() as u64);
    lemma_d_edges_at(s, i + a2.len(), es, 0);
    assert(es.skip(0) =~= es);
    assert((es.len() - 0) as u64 == es.len() as u64);
}

/// The keyed run field decodes to its two parameters.
#[verifier::rlimit(50)]
proof fn lemma_d_run_field_at(s: Seq<u8>, i: int, r: Run)
    requires
        0 <= i,
        i + c_run_field(r).len() <= s.len(),
        s.subrange(i, i + c_run_field(r).len()) == c_run_field(r),
    ensures
        d_run_field(s, i) == Some((r, i + c_run_field(r).len())),
{
    lemma_key_lens();
    let p1 = c_key("run"@);
    let p2 = hdr(TAG_MAP, 2);
    let p3 = c_key("t_end"@);
    let p4 = c_u64(r.t_end);
    let p5 = c_key("dt"@);
    let p6 = c_u64(r.dt);
    let a2 = p1 + p2;
    let a3 = a2 + p3;
    let a4 = a3 + p4;
    let a5 = a4 + p5;
    let a6 = a5 + p6;
    assert(c_run_field(r) == a6);
    lemma_concat_sub(s, i, a5, p6);
    lemma_concat_sub(s, i, a4, p5);
    lemma_concat_sub(s, i, a3, p4);
    lemma_concat_sub(s, i, a2, p3);
    lemma_concat_sub(s, i, p1, p2);
    lemma_d_key_at(s, i, "run"@);
    lemma_d_hdr_at(s, i + p1.len(), TAG_MAP, 2);
    lemma_d_key_at(s, i + a2.len(), "t_end"@);
    lemma_d_hdr_at(s, i + a3.len(), TAG_UINT, r.t_end);
    lemma_d_key_at(s, i + a4.len(), "dt"@);
    lemma_d_hdr_at(s, i + a5.len(), TAG_UINT, r.dt);
}

/// The snapshot of a bundle splits into its five consecutive pieces.
#[verifier::rlimit(100)]
proof fn lemma_bundle_pieces(b: BundleV)
    ensures
        ({
            let s = spec_encode_bundle(b);
            let l2 = c_text_field("morphology"@, b.morphology).len() as int;
            let l3 = c_text_field("decoration"@, b.decoration).len() as int;
            let l4 = c_edge_field(b.edges).len() as int;
            let l5 = c_run_field(b.run).len() as int;
            &&& s.len() == 9 + l2 + l3 + l4 + l5
            &&& s.subrange(0, 9) == hdr(TAG_MAP, 4)
            &&& s.subrange(9, 9 + l2) == c_text_field("morphology"@, b.morphology)
            &&& s.subrange(9 + l2, 9 + l2 + l3) == c_text_field("decoration"@, b.decoration)
            &&& s.subrange(9 + l2 + l3, 9 + l2 + l3 + l4) == c_edge_field(b.edges)
            &&& s.subrange(9 + l2 + l3 + l4, 9 + l2 + l3 + l4 + l5) == c_run_field(b.run)
        }),
{
    let s = spec_encode_bundle(b);
    let p1 = hdr(TAG_MAP, 4);
    let p2 = c_text_field("morphology"@, b.morphology);
    let p3 = c_text_field("decoration"@, b.decoration);
    let p4 = c_edge_field(b.edges);
    let p5 = c_run_field(b.run);
    let a2 = p1 + p2;
    let a3 = a2 + p3;
    let a4 = a3 + p4;
    let a5 = a4 + p5;
    assert(s == a5);
    assert(s.subrange(0, s.len() as int) =~= s);
    lemma_concat_sub(s, 0, a4, p5);
    lemma_concat_sub(s, 0, a3, p4);
    lemma_concat_sub(s, 0, a2, p3);
    lemma_concat_sub(s, 0, p1, p2);
}

/// Round trip: decoding the snapshot of a bundle yields that bundle, equal
/// in all fields.
#[verifier::rlimit(100)]
pub proof fn lemma_bundle_round_trip(b: BundleV)
    requires
        wf_bundle(b),
    ensures
        spec_decode_bundle(spec_encode_bundle(b)) == Some(b),
{
    lemma_key_lens();
    lemma_bundle_pieces(b);
    let s = spec_encode_bundle(b);
    let l2 = c_text_field("morphology"@, b.morphology).len() as int;
    let l3 = c_text_field("decoration"@, b.decoration).len() as int;
    let l4 = c_edge_field(b.edges).len() as int;
    let l5 = c_run_field(b.run).len() as int;
    lemma_d_hdr_at(s, 0, TAG_MAP, 4);
    lemma_d_text_field_at(s, 9, "morphology"@, b.morphology);
    lemma_d_text_field_at(s, 9 + l2, "decoration"@, b.decoration);
    lemma_d_edge_field_at(s, 9 + l2 + l3, b.edges);
    lemma_d_run_field_at(s, 9 + l2 + l3 + l4, b.run);
    assert((BundleV {
        morphology: b.morphology,
        decoration: b.decoration,
        edges: b.edges,
        run: Run { t_end: b.run.t_end, dt: b.run.dt },
    }) =~= b);
}

} // verus!
