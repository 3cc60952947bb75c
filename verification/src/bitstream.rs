//! Annex-B and AVCC byte handling.
//!
//! An H.264 access unit is a run of NAL units. AVCC puts a four-byte
//! big-endian length in front of each unit; Annex-B puts a start code there.
//! The encoder hands out AVCC, network clients want Annex-B.
use vstd::prelude::*;
use vstd::slice::slice_subrange;

verus! {

/// The four-byte Annex-B start code.
pub open spec fn start_code() -> Seq<u8> {
    seq![0u8, 0u8, 0u8, 1u8]
}

/// Whether `d` opens with a four-byte start code.
pub open spec fn is_annexb(d: Seq<u8>) -> bool {
    d.len() >= 4 && d[0] == 0 && d[1] == 0 && d[2] == 0 && d[3] == 1
}

/// The big-endian 32-bit number at the front of `d`.
pub open spec fn be32(d: Seq<u8>) -> int {
    d[0] * 0x100_0000 + d[1] * 0x1_0000 + d[2] * 0x100 + d[3]
}

/// The big-endian 16-bit number at the front of `d`.
pub open spec fn be16(d: Seq<u8>) -> int {
    d[0] * 0x100 + d[1]
}

/// The NAL units of an AVCC buffer, or `None` where a length prefix is zero or
/// overruns the buffer. Fewer than four bytes left over are not a prefix and
/// are ignored.
pub open spec fn avcc_units(d: Seq<u8>) -> Option<Seq<Seq<u8>>>
    decreases d.len(),
{
    if d.len() < 4 {
        Some(Seq::empty())
    } else {
        let n = be32(d);
        if n <= 0 || n > d.len() - 4 {
            None
        } else {
            match avcc_units(d.skip(4 + n)) {
                Some(rest) => Some(seq![d.subrange(4, 4 + n)] + rest),
                None => None,
            }
        }
    }
}

/// The units written one after the other, each behind a start code.
pub open spec fn annexb(units: Seq<Seq<u8>>) -> Seq<u8>
    decreases units.len(),
{
    if units.len() == 0 {
        Seq::empty()
    } else {
        annexb(units.drop_last()) + start_code() + units.last()
    }
}

/// A NAL header stands at `p`: the three bytes before it are `00 00 01`. A
/// four-byte start code ends in the same three bytes.
pub open spec fn is_nal_header(d: Seq<u8>, p: int) -> bool {
    3 <= p < d.len() && d[p - 3] == 0 && d[p - 2] == 0 && d[p - 1] == 1
}

/// The unit type in the header at `p`: the low five bits.
pub open spec fn nal_type_at(d: Seq<u8>, p: int) -> u8 {
    d[p] & 0x1f
}

/// Coded slice types: 1 is an ordinary slice, 5 a slice of an IDR picture.
pub open spec fn is_slice_type(t: u8) -> bool {
    t == 1 || t == 5
}

/// Parameter set types: 7 is a sequence parameter set, 8 a picture one.
pub open spec fn is_parameter_set_type(t: u8) -> bool {
    t == 7 || t == 8
}

/// `p` holds the first slice of `d`.
pub open spec fn is_first_slice(d: Seq<u8>, p: int) -> bool {
    &&& is_nal_header(d, p)
    &&& is_slice_type(nal_type_at(d, p))
    &&& forall|q: int| #[trigger] is_nal_header(d, q) && q < p ==> !is_slice_type(nal_type_at(d, q))
}

/// `p` holds the first header of `d` that is a slice or a parameter set.
pub open spec fn is_first_deciding(d: Seq<u8>, p: int) -> bool {
    &&& is_nal_header(d, p)
    &&& is_slice_type(nal_type_at(d, p)) || is_parameter_set_type(nal_type_at(d, p))
    &&& forall|q: int| #[trigger]
        is_nal_header(d, q) && q < p ==> !is_slice_type(nal_type_at(d, q))
            && !is_parameter_set_type(nal_type_at(d, q))
}

/// `d` is a key frame: it has a slice, and the first one is an IDR slice.
pub open spec fn is_key_frame(d: Seq<u8>) -> bool {
    exists|p: int| #[trigger] is_first_slice(d, p) && nal_type_at(d, p) == 5
}

/// A parameter set comes before any slice of `d`.
pub open spec fn leads_with_parameter_sets(d: Seq<u8>) -> bool {
    exists|p: int| #[trigger]
        is_first_deciding(d, p) && is_parameter_set_type(nal_type_at(d, p))
}

proof fn lemma_annexb_push(units: Seq<Seq<u8>>, unit: Seq<u8>)
    ensures
        annexb(units.push(unit)) == annexb(units) + start_code() + unit,
{
    assert(units.push(unit).drop_last() =~= units);
}

/// One parse step: a unit at the front goes on the end of what came before.
proof fn lemma_units_step(d: Seq<u8>, off: int, done: Seq<Seq<u8>>)
    requires
        0 <= off <= d.len() - 4,
        0 < be32(d.skip(off)) <= d.len() - off - 4,
    ensures
        ({
            let n = be32(d.skip(off));
            let unit = d.subrange(off + 4, off + 4 + n);
            let rest = avcc_units(d.skip(off + 4 + n));
            let whole = avcc_units(d.skip(off));
            match rest {
                Some(r) => whole is Some && done + whole->0 =~= done.push(unit) + r,
                None => whole is None,
            }
        }),
{
    let n = be32(d.skip(off));
    let tail = d.skip(off);
    assert(tail.skip(4 + n) =~= d.skip(off + 4 + n));
    assert(tail.subrange(4, 4 + n) =~= d.subrange(off + 4, off + 4 + n));
}

fn push_start_code(out: &mut Vec<u8>)
    ensures
        final(out)@ == old(out)@ + start_code(),
{
    out.push(0);
    out.push(0);
    out.push(0);
    out.push(1);
    assert(out@ =~= old(out)@ + start_code());
}

fn append_bytes(out: &mut Vec<u8>, d: &[u8])
    ensures
        final(out)@ == old(out)@ + d@,
{
    out.extend_from_slice(d);
    assert(out@ =~= old(out)@ + d@);
}

/// Append AVCC (four-byte length prefixes) to `out` as Annex-B start codes.
///
/// Returns the number of bytes appended. That is 0 when the input does not
/// parse as AVCC; `out` is then untouched and the caller appends the input
/// verbatim. Input that is already Annex-B passes through.
pub fn append_avcc_as_annexb(out: &mut Vec<u8>, d: &[u8]) -> (written: usize)
    ensures
        final(out)@ == old(out)@ + annexb_of(d@),
        written == annexb_of(d@).len(),
{
    if d.len() >= 4 && d[0] == 0 && d[1] == 0 && d[2] == 0 && d[3] == 1 {
        append_bytes(out, d);
        return d.len();
    }
    let mut off: usize = 0;
    let mut nals: Vec<(usize, usize)> = Vec::new();
    let ghost mut units: Seq<Seq<u8>> = Seq::empty();
    assert(d@.skip(0) =~= d@);
    assert(avcc_units(d@) is Some ==> Seq::<Seq<u8>>::empty() + avcc_units(d@)->0
        =~= avcc_units(d@)->0);
    while d.len() - off >= 4
        invariant
            off <= d@.len(),
            out@ == old(out)@,
            !is_annexb(d@),
            nals@.len() == units.len(),
            annexb(units).len() == off,
            forall|k: int|
                #![trigger nals@[k]]
                #![trigger units[k]]
                0 <= k < nals@.len() ==> nals@[k].0 + nals@[k].1 <= d@.len() && units[k]
                    == d@.subrange(nals@[k].0 as int, nals@[k].0 + nals@[k].1),
            match avcc_units(d@.skip(off as int)) {
                Some(rest) => avcc_units(d@) == Some(units + rest),
                None => avcc_units(d@) is None,
            },
        decreases d.len() - off,
    {
        let len: usize = (d[off] as usize) * 0x100_0000 + (d[off + 1] as usize) * 0x1_0000 + (d[off
            + 2] as usize) * 0x100 + (d[off + 3] as usize);
        assert(len == be32(d@.skip(off as int)));
        if len == 0 || len > d.len() - off - 4 {
            assert(out@ =~= old(out)@ + annexb_of(d@));
            return 0;
        }
        let ghost unit = d@.subrange(off + 4, off + 4 + len);
        proof {
            lemma_units_step(d@, off as int, units);
            lemma_annexb_push(units, unit);
            units = units.push(unit);
        }
        nals.push((off + 4, len));
        off = off + 4 + len;
    }
    proof {
        assert(avcc_units(d@.skip(off as int)) == Some(Seq::<Seq<u8>>::empty()));
        assert(units + Seq::<Seq<u8>>::empty() =~= units);
    }
    let mut k: usize = 0;
    assert(units.take(0) =~= Seq::<Seq<u8>>::empty());
    assert(old(out)@ + Seq::<u8>::empty() =~= old(out)@);
    while k < nals.len()
        invariant
            k <= nals@.len(),
            nals@.len() == units.len(),
            out@ == old(out)@ + annexb(units.take(k as int)),
            forall|k: int|
                #![trigger nals@[k]]
                #![trigger units[k]]
                0 <= k < nals@.len() ==> nals@[k].0 + nals@[k].1 <= d@.len() && units[k]
                    == d@.subrange(nals@[k].0 as int, nals@[k].0 + nals@[k].1),
        decreases nals.len() - k,
    {
        let (start, len): (usize, usize) = nals[k];
        assert(start + len <= d.len());
        push_start_code(out);
        append_bytes(out, slice_subrange(d, start, start + len));
        proof {
            let unit = units[k as int];
            lemma_annexb_push(units.take(k as int), unit);
            assert(units.take(k + 1) =~= units.take(k as int).push(unit));
            assert(out@ =~= old(out)@ + annexb(units.take(k + 1)));
        }
        k = k + 1;
    }
    assert(units.take(k as int) =~= units);
    off
}

/// What `append_avcc_as_annexb` appends for the input `d`.
pub open spec fn annexb_of(d: Seq<u8>) -> Seq<u8> {
    if is_annexb(d) {
        d
    } else {
        match avcc_units(d) {
            Some(units) => annexb(units),
            None => Seq::empty(),
        }
    }
}

/// Walk the start codes of `d` and return, in order, where each NAL header
/// stands and what type it names. Three- and four-byte start codes count.
pub fn nal_types(d: &[u8]) -> (nals: Vec<(usize, u8)>)
    ensures
        forall|k: int|
            #![trigger nals@[k]]
            0 <= k < nals@.len() ==> is_nal_header(d@, nals@[k].0 as int) && nals@[k].1
                == nal_type_at(d@, nals@[k].0 as int),
        forall|j: int, k: int| 0 <= j < k < nals@.len() ==> nals@[j].0 < nals@[k].0,
        forall|p: int| #[trigger]
            is_nal_header(d@, p) ==> exists|k: int|
                0 <= k < nals@.len() && (#[trigger] nals@[k]).0 == p,
{
    let mut nals: Vec<(usize, u8)> = Vec::new();
    let mut i: usize = 0;
    while d.len() >= 4 && i <= d.len() - 4
        invariant
            i <= d@.len(),
            forall|k: int|
                #![trigger nals@[k]]
                0 <= k < nals@.len() ==> is_nal_header(d@, nals@[k].0 as int) && nals@[k].1
                    == nal_type_at(d@, nals@[k].0 as int) && nals@[k].0 <= i,
            forall|j: int, k: int| 0 <= j < k < nals@.len() ==> nals@[j].0 < nals@[k].0,
            forall|p: int| #[trigger]
                is_nal_header(d@, p) && p < i + 3 ==> exists|k: int|
                    0 <= k < nals@.len() && (#[trigger] nals@[k]).0 == p,
        decreases d.len() - i,
    {
        let sc: usize = if d[i] == 0 && d[i + 1] == 0 && d[i + 2] == 0 && d[i + 3] == 1 {
            4
        } else if d[i] == 0 && d[i + 1] == 0 && d[i + 2] == 1 {
            3
        } else {
            i = i + 1;
            continue;
        };
        if sc >= d.len() - i {
            i = i + 1;
            continue;
        }
        let at: usize = i + sc;
        let ghost before = nals@;
        nals.push((at, d[at] & 0x1f));
        assert forall|p: int| #[trigger] is_nal_header(d@, p) && p < at + 3 implies exists|k: int|
            0 <= k < nals@.len() && (#[trigger] nals@[k]).0 == p by {
            if p < i + 3 {
                let k = choose|k: int| 0 <= k < before.len() && (#[trigger] before[k]).0 == p;
                assert(nals@[k].0 == p);
            } else {
                assert(p == at);
                assert(nals@[nals@.len() - 1].0 == p);
            }
        }
        i = at;
    }
    nals
}

/// An IDR frame is one whose first slice has type 5. Parameter sets, SEI and
/// access-unit delimiters are skipped.
pub fn first_slice_is_idr(d: &[u8]) -> (r: bool)
    ensures
        r == is_key_frame(d@),
{
    let nals = nal_types(d);
    let mut k: usize = 0;
    while k < nals.len()
        invariant
            k <= nals@.len(),
            forall|j: int|
                #![trigger nals@[j]]
                0 <= j < nals@.len() ==> is_nal_header(d@, nals@[j].0 as int) && nals@[j].1
                    == nal_type_at(d@, nals@[j].0 as int),
            forall|j: int, k: int| 0 <= j < k < nals@.len() ==> nals@[j].0 < nals@[k].0,
            forall|p: int| #[trigger]
                is_nal_header(d@, p) ==> exists|j: int|
                    0 <= j < nals@.len() && (#[trigger] nals@[j]).0 == p,
            forall|j: int| 0 <= j < k ==> !is_slice_type((#[trigger] nals@[j]).1),
        decreases nals.len() - k,
    {
        let t: u8 = nals[k].1;
        if t == 1 || t == 5 {
            let ghost p = nals@[k as int].0 as int;
            proof {
                assert(is_first_slice(d@, p));
                assert forall|q: int| #[trigger] is_first_slice(d@, q) implies q == p by {
                    assert(is_nal_header(d@, q));
                    if q < p {
                        assert(!is_slice_type(nal_type_at(d@, q)));
                    }
                }
            }
            return t == 5;
        }
        k = k + 1;
    }
    false
}

/// True when the access unit already opens with a parameter set, so that
/// prepending the stored sets would duplicate what the encoder emitted.
pub fn starts_with_parameter_sets(d: &[u8]) -> (r: bool)
    ensures
        r == leads_with_parameter_sets(d@),
{
    let nals = nal_types(d);
    let mut k: usize = 0;
    while k < nals.len()
        invariant
            k <= nals@.len(),
            forall|j: int|
                #![trigger nals@[j]]
                0 <= j < nals@.len() ==> is_nal_header(d@, nals@[j].0 as int) && nals@[j].1
                    == nal_type_at(d@, nals@[j].0 as int),
            forall|j: int, k: int| 0 <= j < k < nals@.len() ==> nals@[j].0 < nals@[k].0,
            forall|p: int| #[trigger]
                is_nal_header(d@, p) ==> exists|j: int|
                    0 <= j < nals@.len() && (#[trigger] nals@[j]).0 == p,
            forall|j: int|
                0 <= j < k ==> !is_slice_type((#[trigger] nals@[j]).1) && !is_parameter_set_type(
                    nals@[j].1,
                ),
        decreases nals.len() - k,
    {
        let t: u8 = nals[k].1;
        if t == 7 || t == 8 || t == 1 || t == 5 {
            let ghost p = nals@[k as int].0 as int;
            proof {
                assert(is_first_deciding(d@, p));
                assert forall|q: int| #[trigger] is_first_deciding(d@, q) implies q == p by {
                    assert(is_nal_header(d@, q));
                    if q < p {
                        assert(!is_slice_type(nal_type_at(d@, q)));
                    }
                }
            }
            return t == 7 || t == 8;
        }
        k = k + 1;
    }
    false
}

/// A list of length-prefixed parameter sets, read as far as it goes.
pub struct SetList {
    /// The sets read.
    pub sets: Seq<Seq<u8>>,
    /// Where reading stopped.
    pub end: int,
    /// Whether all `count` sets were there.
    pub complete: bool,
}

/// Reads `count` parameter sets, each behind a 16-bit length, from offset
/// `at` of `p`, and stops where the buffer ends early.
pub open spec fn set_list(p: Seq<u8>, at: int, count: nat) -> SetList
    decreases count,
{
    if count == 0 {
        SetList { sets: Seq::empty(), end: at, complete: true }
    } else {
        let before = set_list(p, at, (count - 1) as nat);
        if !before.complete || before.end + 2 > p.len() {
            SetList { complete: false, ..before }
        } else {
            let n = be16(p.skip(before.end));
            if before.end + 2 + n > p.len() {
                SetList { complete: false, ..before }
            } else {
                SetList {
                    sets: before.sets.push(p.subrange(before.end + 2, before.end + 2 + n)),
                    end: before.end + 2 + n,
                    complete: true,
                }
            }
        }
    }
}

/// The parameter sets in a decoder configuration record: the sequence sets
/// counted by the low five bits of the sixth byte, then the picture sets
/// counted by the byte after them. A record that ends early gives the sets
/// that are whole; what is not such a record gives none.
pub open spec fn record_sets(p: Seq<u8>) -> Seq<Seq<u8>> {
    if p.len() <= 7 || p[0] != 1 {
        Seq::empty()
    } else {
        let sps = set_list(p, 6, (p[5] & 0x1f) as nat);
        if !sps.complete || sps.end >= p.len() {
            sps.sets
        } else {
            sps.sets + set_list(p, sps.end + 1, p[sps.end] as nat).sets
        }
    }
}

proof fn lemma_set_list_stops(p: Seq<u8>, at: int, short: nat, count: nat)
    requires
        short <= count,
        !set_list(p, at, short).complete,
    ensures
        set_list(p, at, count) == set_list(p, at, short),
    decreases count,
{
    if short < count {
        lemma_set_list_stops(p, at, short, (count - 1) as nat);
    }
}

proof fn lemma_annexb_concat(a: Seq<Seq<u8>>, b: Seq<Seq<u8>>)
    ensures
        annexb(a + b) == annexb(a) + annexb(b),
    decreases b.len(),
{
    if b.len() == 0 {
        assert(a + b =~= a);
        assert(annexb(a) + Seq::<u8>::empty() =~= annexb(a));
    } else {
        lemma_annexb_concat(a, b.drop_last());
        assert((a + b).drop_last() =~= a + b.drop_last());
        assert(annexb(a + b) =~= annexb(a) + annexb(b));
    }
}

/// Appends up to `count` length-prefixed sets from `p` at `at`. Returns where
/// it stopped, or `None` when the buffer ended early.
fn append_set_list(out: &mut Vec<u8>, p: &[u8], at: usize, count: u8) -> (end: Option<usize>)
    requires
        at <= p@.len(),
    ensures
        final(out)@ == old(out)@ + annexb(set_list(p@, at as int, count as nat).sets),
        match end {
            Some(e) => set_list(p@, at as int, count as nat).complete && e == set_list(
                p@,
                at as int,
                count as nat,
            ).end && e <= p@.len(),
            None => !set_list(p@, at as int, count as nat).complete,
        },
{
    let mut pos: usize = at;
    let mut k: u8 = 0;
    assert(old(out)@ + Seq::<u8>::empty() =~= old(out)@);
    while k < count
        invariant
            k <= count,
            at <= p@.len(),
            pos <= p@.len(),
            set_list(p@, at as int, k as nat).complete,
            set_list(p@, at as int, k as nat).end == pos,
            out@ == old(out)@ + annexb(set_list(p@, at as int, k as nat).sets),
        decreases count - k,
    {
        let ghost next = set_list(p@, at as int, (k + 1) as nat);
        let ghost here = set_list(p@, at as int, k as nat);
        if p.len() - pos < 2 {
            proof {
                lemma_set_list_stops(p@, at as int, (k + 1) as nat, count as nat);
            }
            return None;
        }
        let len: usize = (p[pos] as usize) * 0x100 + (p[pos + 1] as usize);
        assert(len == be16(p@.skip(pos as int)));
        if len > p.len() - pos - 2 {
            proof {
                lemma_set_list_stops(p@, at as int, (k + 1) as nat, count as nat);
            }
            return None;
        }
        push_start_code(out);
        append_bytes(out, slice_subrange(p, pos + 2, pos + 2 + len));
        proof {
            let unit = p@.subrange(pos + 2, pos + 2 + len);
            lemma_annexb_push(here.sets, unit);
            assert(next.sets == here.sets.push(unit));
            assert(out@ =~= old(out)@ + annexb(next.sets));
        }
        pos = pos + 2 + len;
        k = k + 1;
    }
    Some(pos)
}

/// Convert a decoder configuration record into start-code-prefixed parameter
/// sets.
///
/// The encoder's header query hands back such a record, not Annex-B:
///   01 <profile> <compat> <level> <ff|length size>
///   <e0|SPS count> [u16 length + SPS]...  <PPS count> [u16 length + PPS]...
///
/// A buffer that is no such record gives an empty result; a record cut short
/// gives the sets that parsed.
pub fn avcc_record_to_annexb(p: &[u8]) -> (out: Vec<u8>)
    ensures
        out@ == annexb(record_sets(p@)),
{
    let mut out: Vec<u8> = Vec::new();
    if p.len() <= 7 || p[0] != 1 {
        return out;
    }
    let sps_count: u8 = p[5] & 0x1f;
    let ghost sps = set_list(p@, 6, sps_count as nat);
    let end: Option<usize> = append_set_list(&mut out, p, 6, sps_count);
    assert(out@ =~= annexb(sps.sets));
    match end {
        None => out,
        Some(e) => {
            if e >= p.len() {
                return out;
            }
            let pps_count: u8 = p[e];
            let ghost pps = set_list(p@, e + 1, pps_count as nat);
            let _ = append_set_list(&mut out, p, e + 1, pps_count);
            proof {
                lemma_annexb_concat(sps.sets, pps.sets);
            }
            out
        },
    }
}

/// The big-endian bytes of a 32-bit length.
#[verifier::opaque]
pub open spec fn be32_bytes(n: int) -> Seq<u8> {
    seq![
        (n / 0x100_0000) as u8,
        (n / 0x1_0000 % 0x100) as u8,
        (n / 0x100 % 0x100) as u8,
        (n % 0x100) as u8,
    ]
}

/// The big-endian bytes of a 16-bit length.
pub open spec fn be16_bytes(n: int) -> Seq<u8> {
    seq![(n / 0x100) as u8, (n % 0x100) as u8]
}

/// The units written one after the other, each behind its 32-bit length.
pub open spec fn avcc(units: Seq<Seq<u8>>) -> Seq<u8>
    decreases units.len(),
{
    if units.len() == 0 {
        Seq::empty()
    } else {
        be32_bytes(units[0].len() as int) + units[0] + avcc(units.drop_first())
    }
}

/// The sets written one after the other, each behind its 16-bit length.
pub open spec fn length_prefixed(sets: Seq<Seq<u8>>) -> Seq<u8>
    decreases sets.len(),
{
    if sets.len() == 0 {
        Seq::empty()
    } else {
        length_prefixed(sets.drop_last()) + be16_bytes(sets.last().len() as int) + sets.last()
    }
}

/// A decoder configuration record that holds the given parameter sets.
pub open spec fn record(
    profile: Seq<u8>,
    marker: u8,
    sps: Seq<Seq<u8>>,
    pps: Seq<Seq<u8>>,
) -> Seq<u8> {
    seq![1u8] + profile + seq![marker] + length_prefixed(sps) + seq![pps.len() as u8]
        + length_prefixed(pps)
}

/// Every unit has a length that a 32-bit prefix can hold, and is not empty.
pub open spec fn units_fit_avcc(units: Seq<Seq<u8>>) -> bool {
    forall|k: int| 0 <= k < units.len() ==> 0 < (#[trigger] units[k]).len() < 0x1_0000_0000
}

/// Every set has a length that a 16-bit prefix can hold.
pub open spec fn sets_fit_record(sets: Seq<Seq<u8>>) -> bool {
    forall|k: int| 0 <= k < sets.len() ==> (#[trigger] sets[k]).len() < 0x1_0000
}

proof fn lemma_be32_bytes(n: int, rest: Seq<u8>)
    requires
        0 <= n < 0x1_0000_0000,
    ensures
        be32_bytes(n).len() == 4,
        be32(be32_bytes(n) + rest) == n,
{
    reveal(be32_bytes);
    let d = be32_bytes(n) + rest;
    assert(d[0] == n / 0x100_0000);
    assert(d[1] == n / 0x1_0000 % 0x100);
    assert(d[2] == n / 0x100 % 0x100);
    assert(d[3] == n % 0x100);
}

/// Reading one unit behind its prefix, whatever the prefix looks like.
proof fn lemma_avcc_units_step(prefix: Seq<u8>, unit: Seq<u8>, rest: Seq<u8>)
    requires
        prefix.len() == 4,
        be32(prefix + (unit + rest)) == unit.len(),
        unit.len() > 0,
        avcc_units(rest) is Some,
    ensures
        avcc_units(prefix + (unit + rest)) == Some(seq![unit] + avcc_units(rest)->0),
{
    let d = prefix + (unit + rest);
    let n = unit.len() as int;
    assert(d.skip(4 + n) =~= rest);
    assert(d.subrange(4, 4 + n) =~= unit);
}

proof fn lemma_avcc_units_of_avcc(units: Seq<Seq<u8>>)
    requires
        units_fit_avcc(units),
    ensures
        avcc_units(avcc(units)) == Some(units),
    decreases units.len(),
{
    if units.len() == 0 {
        assert(units =~= Seq::<Seq<u8>>::empty());
    } else {
        let rest = units.drop_first();
        let n = units[0].len() as int;
        assert(units_fit_avcc(rest)) by {
            assert forall|k: int| 0 <= k < rest.len() implies 0 < (#[trigger] rest[k]).len()
                < 0x1_0000_0000 by {
                assert(rest[k] == units[k + 1]);
            }
        }
        lemma_avcc_units_of_avcc(rest);
        lemma_be32_bytes(n, units[0] + avcc(rest));
        lemma_avcc_units_step(be32_bytes(n), units[0], avcc(rest));
        assert(avcc(units) =~= be32_bytes(n) + (units[0] + avcc(rest)));
        assert(seq![units[0]] + rest =~= units);
    }
}

/// Converting what a length-prefixing writer produced gives the same units
/// behind start codes. A first unit of exactly one byte is left out: its
/// length prefix is the start code itself, so the buffer passes for Annex-B.
pub proof fn law_conversion_keeps_every_unit(units: Seq<Seq<u8>>)
    requires
        units_fit_avcc(units),
        units.len() > 0 ==> units[0].len() != 1,
    ensures
        annexb_of(avcc(units)) == annexb(units),
{
    lemma_avcc_units_of_avcc(units);
    if units.len() > 0 {
        let d = avcc(units);
        let n = units[0].len() as int;
        let rest = units[0] + avcc(units.drop_first());
        assert(d =~= be32_bytes(n) + rest);
        lemma_be32_bytes(n, rest);
        assert(!is_annexb(d));
    }
}

proof fn lemma_annexb_opens_with_start_code(units: Seq<Seq<u8>>)
    requires
        units.len() > 0,
    ensures
        is_annexb(annexb(units)),
    decreases units.len(),
{
    if units.len() > 1 {
        lemma_annexb_opens_with_start_code(units.drop_last());
    } else {
        assert(annexb(units.drop_last()) =~= Seq::<u8>::empty());
    }
    assert(annexb(units).len() >= 4);
}

/// What a conversion appended converts to itself.
pub proof fn law_conversion_is_idempotent(d: Seq<u8>)
    ensures
        annexb_of(annexb_of(d)) == annexb_of(d),
{
    if !is_annexb(d) {
        if let Some(units) = avcc_units(d) {
            if units.len() > 0 {
                lemma_annexb_opens_with_start_code(units);
            }
        }
    }
}

proof fn lemma_set_list_of_length_prefixed(
    before: Seq<u8>,
    sets: Seq<Seq<u8>>,
    after: Seq<u8>,
)
    requires
        sets_fit_record(sets),
    ensures
        set_list(before + length_prefixed(sets) + after, before.len() as int, sets.len())
            =~= (SetList {
            sets,
            end: (before.len() + length_prefixed(sets).len()) as int,
            complete: true,
        }),
        set_list(before + length_prefixed(sets) + after, before.len() as int, sets.len()).sets
            == sets,
    decreases sets.len(),
{
    if sets.len() == 0 {
        assert(sets =~= Seq::<Seq<u8>>::empty());
    } else {
        let front = sets.drop_last();
        let last = sets.last();
        let tail = be16_bytes(last.len() as int) + last + after;
        let p = before + length_prefixed(sets) + after;
        assert forall|k: int| 0 <= k < front.len() implies (#[trigger] front[k]).len()
            < 0x1_0000 by {
            assert(front[k] == sets[k]);
        }
        assert(sets[sets.len() - 1].len() < 0x1_0000);
        lemma_set_list_of_length_prefixed(before, front, tail);
        assert(before + length_prefixed(front) + tail =~= p);
        let end = (before.len() + length_prefixed(front).len()) as int;
        assert(be16(p.skip(end)) == last.len());
        assert(p.subrange(end + 2, end + 2 + last.len()) =~= last);
        assert(front.push(last) =~= sets);
    }
}

/// Reading back a record gives every parameter set that was put in it, the
/// sequence sets first.
pub proof fn law_record_gives_back_its_sets(
    profile: Seq<u8>,
    marker: u8,
    sps: Seq<Seq<u8>>,
    pps: Seq<Seq<u8>>,
)
    requires
        profile.len() == 4,
        marker & 0x1f == sps.len(),
        pps.len() < 0x100,
        sets_fit_record(sps),
        sets_fit_record(pps),
    ensures
        annexb(record_sets(record(profile, marker, sps, pps))) == annexb(sps + pps),
{
    let p = record(profile, marker, sps, pps);
    let head = seq![1u8] + profile + seq![marker];
    let mid = seq![pps.len() as u8] + length_prefixed(pps);
    lemma_set_list_of_length_prefixed(head, sps, mid);
    assert(head + length_prefixed(sps) + mid =~= p);
    let front = head + length_prefixed(sps) + seq![pps.len() as u8];
    lemma_set_list_of_length_prefixed(front, pps, Seq::empty());
    assert(front + length_prefixed(pps) + Seq::<u8>::empty() =~= p);
    assert(p[5] == marker);
    if p.len() <= 7 {
        assert(length_prefixed(sps).len() == 0);
        if sps.len() > 0 {
            assert(length_prefixed(sps).len() >= 2);
        }
        if pps.len() > 0 {
            assert(length_prefixed(pps).len() >= 2);
        }
        assert(sps + pps =~= Seq::<Seq<u8>>::empty());
    }
}

/// Parameter sets at the front of an access unit stay at its front whatever
/// follows them.
pub proof fn law_prepended_sets_lead(sets: Seq<u8>, frame: Seq<u8>)
    requires
        leads_with_parameter_sets(sets),
    ensures
        leads_with_parameter_sets(sets + frame),
{
    let p = choose|p: int| #[trigger]
        is_first_deciding(sets, p) && is_parameter_set_type(nal_type_at(sets, p));
    let d = sets + frame;
    assert forall|q: int| #[trigger] is_nal_header(d, q) && q < p implies !is_slice_type(
        nal_type_at(d, q),
    ) && !is_parameter_set_type(nal_type_at(d, q)) by {
        assert(is_nal_header(sets, q));
        assert(nal_type_at(d, q) == nal_type_at(sets, q));
    }
    assert(nal_type_at(d, p) == nal_type_at(sets, p));
    assert(is_nal_header(d, p));
    assert(is_first_deciding(d, p));
}

/// Putting parameter sets in front of an Annex-B access unit does not change
/// whether it is a key frame.
pub proof fn law_prepended_sets_keep_the_frame_kind(sets: Seq<u8>, frame: Seq<u8>)
    requires
        is_annexb(frame),
        forall|p: int| #[trigger] is_nal_header(sets, p) ==> !is_slice_type(nal_type_at(sets, p)),
    ensures
        is_key_frame(sets + frame) == is_key_frame(frame),
{
    let d = sets + frame;
    let n = sets.len() as int;
    assert forall|q: int| #[trigger] is_nal_header(d, q) && q < n implies is_nal_header(sets, q)
        && nal_type_at(d, q) == nal_type_at(sets, q) by {}
    assert forall|q: int| #[trigger] is_nal_header(d, q) && q > n implies is_nal_header(
        frame,
        q - n,
    ) && nal_type_at(d, q) == nal_type_at(frame, q - n) by {
        assert(d[n] == frame[0] && d[n + 1] == frame[1] && d[n + 2] == frame[2]);
    }
    assert(nal_type_at(d, n) == 0) by {
        assert(d[n] == 0);
        assert(0u8 & 0x1f == 0) by (bit_vector);
    }
    assert forall|q: int| #[trigger] is_nal_header(frame, q) implies is_nal_header(d, q + n)
        && nal_type_at(d, q + n) == nal_type_at(frame, q) by {
        assert(d[q + n - 3] == frame[q - 3]);
        assert(d[q + n - 2] == frame[q - 2]);
        assert(d[q + n - 1] == frame[q - 1]);
    }
    if is_key_frame(frame) {
        let p = choose|p: int| #[trigger] is_first_slice(frame, p) && nal_type_at(frame, p) == 5;
        assert(is_nal_header(frame, p));
        assert(is_nal_header(d, p + n));
        assert forall|q: int| #[trigger] is_nal_header(d, q) && q < p + n implies !is_slice_type(
            nal_type_at(d, q),
        ) by {
            if q > n {
                assert(is_nal_header(frame, q - n));
            } else if q < n {
                assert(is_nal_header(sets, q));
            }
        }
        assert(is_first_slice(d, p + n));
    }
    if is_key_frame(d) {
        let p = choose|p: int| #[trigger] is_first_slice(d, p) && nal_type_at(d, p) == 5;
        assert(is_nal_header(d, p));
        if p < n {
            assert(is_nal_header(sets, p));
        }
        assert(is_nal_header(frame, p - n));
        assert forall|q: int| #[trigger] is_nal_header(frame, q) && q < p - n implies
            !is_slice_type(nal_type_at(frame, q)) by {
            assert(is_nal_header(d, q + n));
        }
        assert(is_first_slice(frame, p - n));
    }
}

/// The byte form goes unit by unit: one unit is the bytes 0, 0, 0, 1 and then
/// the unit as it is, and more of them are written one after the other, with
/// nothing between.
pub proof fn law_units_are_written_one_after_the_other(
    a: Seq<Seq<u8>>,
    b: Seq<Seq<u8>>,
    unit: Seq<u8>,
)
    ensures
        annexb(seq![unit]) == seq![0u8, 0u8, 0u8, 1u8] + unit,
        annexb(a + b) == annexb(a) + annexb(b),
    decreases b.len(),
{
    assert(seq![unit].drop_last() =~= Seq::<Seq<u8>>::empty());
    assert(annexb(Seq::<Seq<u8>>::empty()) =~= Seq::<u8>::empty());
    assert(seq![unit].last() == unit);
    assert(annexb(seq![unit]) =~= seq![0u8, 0u8, 0u8, 1u8] + unit);
    if b.len() == 0 {
        assert(a + b =~= a);
        assert(annexb(a + b) =~= annexb(a) + annexb(b));
    } else {
        law_units_are_written_one_after_the_other(a, b.drop_last(), unit);
        assert((a + b).drop_last() =~= a + b.drop_last());
        assert((a + b).last() == b.last());
        assert(annexb(a + b) =~= annexb(a) + annexb(b));
    }
}

proof fn lemma_low_five_bits(b: u8)
    ensures
        b & 0x1f == b % 32,
{
    assert(b & 0x1f == b % 32) by (bit_vector);
}

/// The byte at `p` follows the bytes 0, 0, 1, and its low five bits are `t`.
pub open spec fn unit_of_type_at(d: Seq<u8>, p: int, t: int) -> bool {
    3 <= p < d.len() && d[p - 3] == 0 && d[p - 2] == 0 && d[p - 1] == 1 && d[p] % 32 == t
}

/// What makes a key frame, in bytes. The first unit of type 1 or 5 decides:
/// with type 5 it is one, with type 1 it is none. Without any such unit it is
/// none. Units of other types do not count.
pub proof fn law_the_first_slice_decides(d: Seq<u8>, p: int)
    requires
        forall|q: int| q < p ==> !(#[trigger] unit_of_type_at(d, q, 1)) && !unit_of_type_at(d, q, 5),
    ensures
        unit_of_type_at(d, p, 5) ==> is_key_frame(d),
        unit_of_type_at(d, p, 1) ==> !is_key_frame(d),
        p >= d.len() ==> !is_key_frame(d),
{
    assert forall|q: int| #[trigger] is_nal_header(d, q) && q < p implies !is_slice_type(
        nal_type_at(d, q),
    ) by {
        lemma_low_five_bits(d[q]);
        assert(!unit_of_type_at(d, q, 1));
        assert(!unit_of_type_at(d, q, 5));
    }
    if 0 <= p < d.len() {
        lemma_low_five_bits(d[p]);
    }
    if unit_of_type_at(d, p, 5) {
        assert(is_first_slice(d, p));
    } else if unit_of_type_at(d, p, 1) {
        if is_key_frame(d) {
            let k = choose|k: int| #[trigger] is_first_slice(d, k) && nal_type_at(d, k) == 5;
            assert(is_nal_header(d, k));
            assert(is_nal_header(d, p));
            assert(is_slice_type(nal_type_at(d, p)));
            assert(k <= p);
            assert(k >= p);
        }
    } else if p >= d.len() {
        if is_key_frame(d) {
            let k = choose|k: int| #[trigger] is_first_slice(d, k) && nal_type_at(d, k) == 5;
            assert(is_nal_header(d, k));
        }
    }
}

/// What it is to open with parameter sets, in bytes. The first unit of type 1,
/// 5, 7 or 8 decides: with 7 or 8 the frame opens with them, with 1 or 5 it
/// does not, and without any such unit it does not.
pub proof fn law_the_first_set_or_slice_decides(d: Seq<u8>, p: int)
    requires
        forall|q: int|
            q < p ==> !(#[trigger] unit_of_type_at(d, q, 1)) && !unit_of_type_at(d, q, 5)
                && !unit_of_type_at(d, q, 7) && !unit_of_type_at(d, q, 8),
    ensures
        unit_of_type_at(d, p, 7) || unit_of_type_at(d, p, 8) ==> leads_with_parameter_sets(d),
        unit_of_type_at(d, p, 1) || unit_of_type_at(d, p, 5) ==> !leads_with_parameter_sets(d),
        p >= d.len() ==> !leads_with_parameter_sets(d),
{
    assert forall|q: int| #[trigger] is_nal_header(d, q) && q < p implies !is_slice_type(
        nal_type_at(d, q),
    ) && !is_parameter_set_type(nal_type_at(d, q)) by {
        lemma_low_five_bits(d[q]);
        assert(!unit_of_type_at(d, q, 1));
        assert(!unit_of_type_at(d, q, 5));
        assert(!unit_of_type_at(d, q, 7));
        assert(!unit_of_type_at(d, q, 8));
    }
    if 0 <= p < d.len() {
        lemma_low_five_bits(d[p]);
    }
    if unit_of_type_at(d, p, 7) || unit_of_type_at(d, p, 8) {
        assert(is_first_deciding(d, p));
    } else if leads_with_parameter_sets(d) {
        let k = choose|k: int| #[trigger]
            is_first_deciding(d, k) && is_parameter_set_type(nal_type_at(d, k));
        assert(is_nal_header(d, k));
        if unit_of_type_at(d, p, 1) || unit_of_type_at(d, p, 5) {
            assert(is_nal_header(d, p));
            assert(is_slice_type(nal_type_at(d, p)));
            assert(k <= p);
            assert(k >= p);
        }
    }
}

proof fn lemma_avcc_then_more(units: Seq<Seq<u8>>, rest: Seq<u8>)
    requires
        units_fit_avcc(units),
    ensures
        avcc_units(avcc(units) + rest) == match avcc_units(rest) {
            Some(more) => Some(units + more),
            None => None,
        },
    decreases units.len(),
{
    if units.len() == 0 {
        assert(avcc(units) + rest =~= rest);
        if let Some(more) = avcc_units(rest) {
            assert(units + more =~= more);
        }
    } else {
        let tail = units.drop_first();
        let n = units[0].len() as int;
        assert forall|k: int| 0 <= k < tail.len() implies 0 < (#[trigger] tail[k]).len()
            < 0x1_0000_0000 by {
            assert(tail[k] == units[k + 1]);
        }
        lemma_avcc_then_more(tail, rest);
        let after = avcc(tail) + rest;
        lemma_be32_bytes(n, units[0] + after);
        let d = be32_bytes(n) + (units[0] + after);
        assert(avcc(units) + rest =~= d);
        assert(d.skip(4 + n) =~= after);
        assert(d.subrange(4, 4 + n) =~= units[0]);
        assert(be32(d) == n);
        if let Some(more) = avcc_units(rest) {
            assert(seq![units[0]] + (tail + more) =~= units + more);
        }
    }
}

/// A buffer that breaks off is taken at its word or not at all. One to three
/// bytes behind the last unit are no prefix, and are ignored. A prefix of zero,
/// or of more than is left, gives nothing, whatever stood before it.
pub proof fn law_a_broken_prefix_gives_nothing(
    units: Seq<Seq<u8>>,
    tail: Seq<u8>,
    n: int,
    after: Seq<u8>,
)
    requires
        units_fit_avcc(units),
        units.len() > 0 && units[0].len() != 1,
        tail.len() < 4,
        0 <= n < 0x1_0000_0000,
        n == 0 || n > after.len(),
    ensures
        annexb_of(avcc(units) + tail) == annexb(units),
        annexb_of(avcc(units) + be32_bytes(n) + after) == Seq::<u8>::empty(),
{
    lemma_avcc_then_more(units, tail);
    assert(units + Seq::<Seq<u8>>::empty() =~= units);
    let bad = be32_bytes(n) + after;
    lemma_avcc_then_more(units, bad);
    lemma_be32_bytes(n, after);
    assert(avcc_units(bad) is None);
    assert(avcc(units) + be32_bytes(n) + after =~= avcc(units) + bad);
    let first = units[0].len() as int;
    let rest = units[0] + avcc(units.drop_first());
    assert(avcc(units) =~= be32_bytes(first) + rest);
    lemma_be32_bytes(first, rest + tail);
    lemma_be32_bytes(first, rest + bad);
    assert(avcc(units) + tail =~= be32_bytes(first) + (rest + tail));
    assert(avcc(units) + bad =~= be32_bytes(first) + (rest + bad));
    assert(!is_annexb(avcc(units) + tail));
    assert(!is_annexb(avcc(units) + bad));
}

/// What already opens with 0, 0, 0, 1 goes out byte for byte.
pub proof fn law_annexb_goes_out_as_it_is(rest: Seq<u8>)
    ensures
        annexb_of(seq![0u8, 0u8, 0u8, 1u8] + rest) == seq![0u8, 0u8, 0u8, 1u8] + rest,
{
}

/// A record that ends early gives the sets that are whole: with fewer sequence
/// sets than it counts, and then too little for one more, it gives those.
pub proof fn law_a_cut_record_gives_its_whole_sets(
    profile: Seq<u8>,
    marker: u8,
    sps: Seq<Seq<u8>>,
    cut: Seq<u8>,
)
    requires
        profile.len() == 4,
        marker & 0x1f > sps.len(),
        sets_fit_record(sps),
        cut.len() < 2 || cut[0] * 256 + cut[1] + 2 > cut.len(),
        length_prefixed(sps).len() + cut.len() >= 2,
    ensures
        record_sets(seq![1u8] + profile + seq![marker] + length_prefixed(sps) + cut) == sps,
{
    let head = seq![1u8] + profile + seq![marker];
    let p = head + length_prefixed(sps) + cut;
    lemma_set_list_of_length_prefixed(head, sps, cut);
    let end = (6 + length_prefixed(sps).len()) as int;
    let before = set_list(p, 6, sps.len());
    assert(before.end == end && before.complete && before.sets == sps);
    assert(p.skip(end) =~= cut);
    let more = set_list(p, 6, sps.len() + 1);
    assert(!more.complete && more.sets == sps);
    lemma_set_list_stops(p, 6, sps.len() + 1, (marker & 0x1f) as nat);
    assert(p[5] == marker);
    assert(p[0] == 1);
}

/// What does not open with a 1, or is too short, is no record.
pub proof fn law_no_record_gives_no_sets(p: Seq<u8>)
    requires
        p.len() < 8 || p[0] != 1,
    ensures
        record_sets(p).len() == 0,
{
}

/// Each set takes at least the two bytes of its length.
pub proof fn lemma_prefixed_is_long(sets: Seq<Seq<u8>>)
    ensures
        length_prefixed(sets).len() >= 2 * sets.len(),
    decreases sets.len(),
{
    if sets.len() > 0 {
        lemma_prefixed_is_long(sets.drop_last());
    }
}

} // verus!
