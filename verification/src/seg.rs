//! Shot records (CDP files): a header and a matrix of `f32` samples, one
//! column per trace. The `f32` values are held as their bit patterns.

use vstd::prelude::*;
use crate::bytes::{
    field, le_bytes, le_halfwords, le_of_signed, le_value, lemma_byte_ranges, lemma_le_halfwords,
    lemma_le_halfwords_len, lemma_le_roundtrip, lemma_le_signed_roundtrip, push_halfwords,
    push_i16, push_u32, read_i16_at, read_u32_at, signed_of,
};
use crate::matrix::{
    trace_cells, trace_dims, trace_entries, trace_from_columns, trace_shape, usize_of,
    usize_of_i16, TraceMatrix,
};

verus! {

/// A shot record.
pub struct Seg {
    shot: u32,
    offset: u32,
    dx: u32,
    n: i16,
    m: i16,
    dt: u32,
    data: TraceMatrix,
}

/// What a shot record holds: the bit patterns of the shot position, the
/// offset, the trace spacing and the sampling interval; the number of
/// traces `n` and of samples per trace `m`; and the samples of the `nrows`
/// by `ncols` matrix in storage order, trace after trace.
pub struct SegView {
    pub shot: u32,
    pub offset: u32,
    pub dx: u32,
    pub n: int,
    pub m: int,
    pub dt: u32,
    pub nrows: nat,
    pub ncols: nat,
    pub cells: Seq<u32>,
}

impl SegView {
    /// Counts that are `i16`, and an `m as usize` by `n as usize` matrix of
    /// samples.
    pub open spec fn well_formed(self) -> bool {
        &&& i16::MIN <= self.n <= i16::MAX
        &&& i16::MIN <= self.m <= i16::MAX
        &&& self.nrows == usize_of(self.m)
        &&& self.ncols == usize_of(self.n)
        &&& self.cells.len() == self.ncols * self.nrows
    }
}

impl View for Seg {
    type V = SegView;

    closed spec fn view(&self) -> SegView {
        SegView {
            shot: self.shot,
            offset: self.offset,
            dx: self.dx,
            n: self.n as int,
            m: self.m as int,
            dt: self.dt,
            nrows: trace_shape(self.data).0,
            ncols: trace_shape(self.data).1,
            cells: trace_cells(self.data),
        }
    }
}

/// The `i16` in the two bytes of `b` from `pos` on.
pub open spec fn short_at(b: Seq<u8>, pos: int) -> int {
    signed_of(le_value(field(b, pos, 2)), 2)
}

/// The `u32` in the four bytes of `b` from `pos` on.
pub open spec fn halfword_at(b: Seq<u8>, pos: int) -> u32 {
    le_value(field(b, pos, 4)) as u32
}

/// The number of samples the shot record `b` announces: traces times
/// samples per trace, each count taken `as usize`.
pub open spec fn sample_count(b: Seq<u8>) -> nat {
    usize_of(short_at(b, 14)) * usize_of(short_at(b, 16))
}

/// Whether a shot record can be read from `b`: its header is there, and all
/// the samples it announces are there.
pub open spec fn cdp_readable(b: Seq<u8>) -> bool {
    &&& b.len() >= 22
    &&& b.len() >= 22 + 4 * sample_count(b)
}

/// The shot record read from `b`: two bytes of mark, the shot position at
/// byte 2, the offset at 6, the trace spacing at 10, the number of traces
/// at 14, the samples per trace at 16, the sampling interval at 18, and the
/// samples from byte 22 on, trace after trace, into an `m as usize` by
/// `n as usize` matrix.
pub open spec fn cdp_reading(b: Seq<u8>) -> SegView {
    SegView {
        shot: halfword_at(b, 2),
        offset: halfword_at(b, 6),
        dx: halfword_at(b, 10),
        n: short_at(b, 14),
        m: short_at(b, 16),
        dt: halfword_at(b, 18),
        nrows: usize_of(short_at(b, 16)),
        ncols: usize_of(short_at(b, 14)),
        cells: Seq::new(sample_count(b), |k: int| halfword_at(b, 22 + 4 * k)),
    }
}

/// The shot record as a file: the mark `TX`, then the header values and
/// the samples in storage order, all little-endian.
pub open spec fn cdp_image(s: SegView) -> Seq<u8> {
    seq![84u8, 88u8] + le_bytes(s.shot as nat, 4) + le_bytes(s.offset as nat, 4) + le_bytes(
        s.dx as nat,
        4,
    ) + le_of_signed(s.n, 2) + le_of_signed(s.m, 2) + le_bytes(s.dt as nat, 4) + le_halfwords(
        s.cells,
    )
}

/// A shot record written as a file reads back as the same shot record.
pub proof fn lemma_cdp_roundtrip(s: SegView)
    requires
        s.well_formed(),
    ensures
        cdp_readable(cdp_image(s)),
        cdp_reading(cdp_image(s)) == s,
{
    let b = cdp_image(s);
    lemma_byte_ranges();
    lemma_le_roundtrip(s.shot as nat, 4);
    lemma_le_roundtrip(s.offset as nat, 4);
    lemma_le_roundtrip(s.dx as nat, 4);
    lemma_le_roundtrip(s.dt as nat, 4);
    lemma_le_signed_roundtrip(s.n, 2);
    lemma_le_signed_roundtrip(s.m, 2);
    lemma_le_halfwords_len(s.cells);
    let h = seq![84u8, 88u8] + le_bytes(s.shot as nat, 4) + le_bytes(s.offset as nat, 4)
        + le_bytes(s.dx as nat, 4) + le_of_signed(s.n, 2) + le_of_signed(s.m, 2) + le_bytes(
        s.dt as nat,
        4,
    );
    assert(h.len() == 22);
    assert(b =~= h + le_halfwords(s.cells));
    assert(field(b, 2, 4) =~= le_bytes(s.shot as nat, 4));
    assert(field(b, 6, 4) =~= le_bytes(s.offset as nat, 4));
    assert(field(b, 10, 4) =~= le_bytes(s.dx as nat, 4));
    assert(field(b, 14, 2) =~= le_of_signed(s.n, 2));
    assert(field(b, 16, 2) =~= le_of_signed(s.m, 2));
    assert(field(b, 18, 4) =~= le_bytes(s.dt as nat, 4));
    assert(short_at(b, 14) == s.n);
    assert(short_at(b, 16) == s.m);
    let r = cdp_reading(b);
    assert forall|k: int| 0 <= k < s.cells.len() implies #[trigger] r.cells[k] == s.cells[k] by {
        lemma_le_halfwords(s.cells, k);
        assert(field(b, 22 + 4 * k, 4) =~= field(le_halfwords(s.cells), 4 * k, 4));
    }
    assert(r.cells =~= s.cells);
}

impl Seg {
    /// Every shot record is well formed.
    #[verifier::type_invariant]
    spec fn well_formed_record(self) -> bool {
        self@.well_formed()
    }

    /// A shot record from its header values and its samples in storage
    /// order, trace after trace, for an `m as usize` by `n as usize` matrix.
    /// `None` where `samples` does not hold that many samples.
    pub fn from_samples(shot: u32, offset: u32, dx: u32, n: i16, m: i16, dt: u32, samples: &[u32]) -> (r:
        Option<Seg>)
        ensures
            r is Some <==> samples@.len() == usize_of(n as int) * usize_of(m as int),
            r matches Some(s) ==> s@ == (SegView {
                shot,
                offset,
                dx,
                n: n as int,
                m: m as int,
                dt,
                nrows: usize_of(m as int),
                ncols: usize_of(n as int),
                cells: samples@,
            }) && s@.well_formed(),
    {
        let nn = usize_of_i16(n);
        let mm = usize_of_i16(m);
        proof {
            assert(nn * mm <= 0xffff_ffff_ffff_ffff * 0xffff_ffff_ffff_ffff) by (nonlinear_arith)
                requires
                    nn <= 0xffff_ffff_ffff_ffff,
                    mm <= 0xffff_ffff_ffff_ffff,
            ;
            assert(mm * nn == nn * mm) by (nonlinear_arith);
        }
        if samples.len() as u128 != (nn as u128) * (mm as u128) {
            return None;
        }
        let data = trace_from_columns(mm, nn, samples);
        Some(Seg { shot, offset, dx, n, m, dt, data })
    }

    /// Reads a shot record from the whole file `bytes`. `None` where the
    /// file is too short or a count is negative.
    pub fn from_cdp_bytes(bytes: &[u8]) -> (r: Option<Seg>)
        ensures
            r is Some <==> cdp_readable(bytes@),
            r matches Some(s) ==> s@ == cdp_reading(bytes@) && s@.well_formed(),
    {
        if bytes.len() < 22 {
            return None;
        }
        let shot = read_u32_at(bytes, 2);
        let offset = read_u32_at(bytes, 6);
        let dx = read_u32_at(bytes, 10);
        let n = read_i16_at(bytes, 14);
        let m = read_i16_at(bytes, 16);
        let dt = read_u32_at(bytes, 18);
        let nn = usize_of_i16(n);
        let mm = usize_of_i16(m);
        proof {
            assert(nn * mm <= 0xffff_ffff_ffff_ffff * 0xffff_ffff_ffff_ffff) by (nonlinear_arith)
                requires
                    nn <= 0xffff_ffff_ffff_ffff,
                    mm <= 0xffff_ffff_ffff_ffff,
            ;
            assert(mm * nn == nn * mm) by (nonlinear_arith);
        }
        let wanted: u128 = (nn as u128) * (mm as u128);
        assert(wanted == sample_count(bytes@));
        let room: u128 = ((bytes.len() - 22) / 4) as u128;
        if wanted > room {
            return None;
        }
        let count: usize = wanted as usize;
        let ghost b = bytes@;
        let mut samples: Vec<u32> = Vec::new();
        let mut k: usize = 0;
        while k < count
            invariant
                b == bytes@,
                b.len() == bytes.len(),
                b.len() >= 22 + 4 * count,
                k <= count,
                samples@.len() == k,
                forall|q: int| 0 <= q < k ==> #[trigger] samples@[q] == halfword_at(b, 22 + 4 * q),
            decreases count - k,
        {
            let v = read_u32_at(bytes, 22 + 4 * k);
            samples.push(v);
            k = k + 1;
        }
        let data = trace_from_columns(mm, nn, samples.as_slice());
        let s = Seg { shot, offset, dx, n, m, dt, data };
        assert(s@.cells =~= cdp_reading(b).cells);
        Some(s)
    }

    /// The shot record as a file, as the writer lays it out.
    pub fn to_cdp_bytes(&self) -> (b: Vec<u8>)
        ensures
            b@ == cdp_image(self@),
            self@.well_formed(),
    {
        proof {
            use_type_invariant(self);
        }
        let mut out: Vec<u8> = Vec::new();
        out.push(84u8);
        out.push(88u8);
        push_u32(&mut out, self.shot);
        push_u32(&mut out, self.offset);
        push_u32(&mut out, self.dx);
        push_i16(&mut out, self.n);
        push_i16(&mut out, self.m);
        push_u32(&mut out, self.dt);
        let cells = trace_entries(&self.data);
        push_halfwords(&mut out, &cells);
        assert(out@ =~= cdp_image(self@));
        out
    }

    /// The bit pattern of the shot position.
    pub fn shot(&self) -> (v: u32)
        ensures
            v == self@.shot,
    {
        self.shot
    }

    /// The bit pattern of the offset.
    pub fn offset(&self) -> (v: u32)
        ensures
            v == self@.offset,
    {
        self.offset
    }

    /// The bit pattern of the trace spacing.
    pub fn dx(&self) -> (v: u32)
        ensures
            v == self@.dx,
    {
        self.dx
    }

    /// The number of traces.
    pub fn n(&self) -> (v: i16)
        ensures
            v as int == self@.n,
    {
        self.n
    }

    /// The number of samples per trace.
    pub fn m(&self) -> (v: i16)
        ensures
            v as int == self@.m,
    {
        self.m
    }

    /// The bit pattern of the sampling interval.
    pub fn dt(&self) -> (v: u32)
        ensures
            v == self@.dt,
    {
        self.dt
    }

    /// The number of rows and of columns of the sample matrix.
    pub fn shape(&self) -> (s: (usize, usize))
        ensures
            s.0 as nat == self@.nrows,
            s.1 as nat == self@.ncols,
            self@.well_formed(),
    {
        proof {
            use_type_invariant(self);
        }
        trace_dims(&self.data)
    }

    /// The samples in storage order, trace after trace.
    pub fn cells(&self) -> (v: Vec<u32>)
        ensures
            v@ == self@.cells,
            self@.well_formed(),
    {
        proof {
            use_type_invariant(self);
        }
        trace_entries(&self.data)
    }
}

} // verus!
