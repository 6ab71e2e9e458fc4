//! Fixed-capacity circular delay line: the primitive under every time-based
//! effect.
//!
//! The model of a line is its history `hist()`: a sequence as long as the
//! capacity in which slot `k` holds the sample written `k` writes ago
//! (slot 0 is the most recent write, the last slot is about to be
//! overwritten).

use vstd::prelude::*;
use crate::fixed::{FRAC_ONE, SAMPLE_LIMIT, in_range, mul_q, mul_q_spec};

verus! {

pub struct DelayLine {
    buffer: Vec<i64>,
    index: usize,
}

/// One write: the new sample enters slot 0 and every older sample moves one
/// slot toward the end; the oldest slot falls off.
pub open spec fn write_spec(h: Seq<i64>, v: i64) -> Seq<i64> {
    Seq::new(h.len() as nat, |k: int| if k == 0 { v } else { h[k - 1] })
}

/// Value of a linearly interpolated read at the fractional Q16 offset
/// `delay_q` from history `h`: the blend of the two bracketing slots.
pub open spec fn interp_read_spec(h: Seq<i64>, delay_q: i64) -> i64 {
    let off = (delay_q as int / 65536) % (h.len() as int);
    let frac = delay_q as int % 65536;
    let s1 = h[off];
    let s2 = h[(off + 1) % (h.len() as int)];
    (s1 + mul_q_spec(frac, s2 - s1)) as i64
}

/// A whole sequence of writes, first element written first.
pub open spec fn write_seq_spec(h: Seq<i64>, ws: Seq<i64>) -> Seq<i64>
    decreases ws.len(),
{
    if ws.len() == 0 {
        h
    } else {
        write_seq_spec(write_spec(h, ws[0]), ws.drop_first())
    }
}

impl DelayLine {
    /// Physical slot of history entry `k`, counting back from the cursor.
    pub closed spec fn slot(self, k: int) -> int {
        if self.index - 1 - k >= 0 {
            self.index - 1 - k
        } else {
            self.index - 1 - k + self.buffer.len()
        }
    }

    /// The line's history, newest first.
    pub closed spec fn hist(self) -> Seq<i64> {
        Seq::new(self.buffer.len() as nat, |k: int| self.buffer[self.slot(k)])
    }

    pub closed spec fn wf(self) -> bool {
        &&& self.buffer.len() >= 16
        &&& self.buffer.len() <= 0x1000_0000
        &&& self.index < self.buffer.len()
        &&& forall|k: int| 0 <= k < self.buffer.len() ==> in_range(#[trigger] self.buffer[k] as int)
    }

    pub open spec fn capacity_spec(self) -> int {
        self.hist().len() as int
    }

    /// Every stored sample is inside the saturation range, and the capacity
    /// sits inside its construction bounds.
    pub proof fn lemma_hist_in_range(self)
        requires
            self.wf(),
        ensures
            forall|k: int| 0 <= k < self.hist().len() ==> in_range(#[trigger] self.hist()[k] as int),
            16 <= self.capacity_spec() <= 0x1000_0000,
    {
    }

    /// Capacity is fixed at construction and clamped to a minimum of 16.
    pub fn new(size: usize) -> (r: DelayLine)
        requires
            size <= 0x1000_0000,
        ensures
            r.wf(),
            r.capacity_spec() == if size >= 16 { size as int } else { 16int },
            forall|k: int| 0 <= k < r.hist().len() ==> #[trigger] r.hist()[k] == 0i64,
    {
        let actual_size = if size >= 16 { size } else { 16 };
        let mut buffer: Vec<i64> = Vec::new();
        let mut i: usize = 0;
        while i < actual_size
            invariant
                i <= actual_size,
                buffer.len() == i,
                forall|k: int| 0 <= k < i ==> #[trigger] buffer[k] == 0i64,
            decreases actual_size - i,
        {
            buffer.push(0);
            i += 1;
        }
        let r = DelayLine { buffer, index: 0 };
        proof {
            assert forall|k: int| 0 <= k < r.hist().len() implies #[trigger] r.hist()[k] == 0i64 by {
                assert(0 <= r.slot(k) < r.buffer.len());
            }
        }
        r
    }

    pub fn capacity(&self) -> (r: usize)
        requires
            self.wf(),
        ensures
            r as int == self.capacity_spec(),
    {
        self.buffer.len()
    }

    /// The sample written `offset` writes ago; out-of-range offsets wrap.
    pub fn read_at(&self, offset: usize) -> (r: i64)
        requires
            self.wf(),
        ensures
            r == self.hist()[offset as int % self.capacity_spec()],
            in_range(r as int),
    {
        let len = self.buffer.len();
        let off = offset % len;
        let idx = if self.index > off {
            self.index - 1 - off
        } else {
            self.index + len - 1 - off
        };
        self.buffer[idx]
    }

    /// The oldest stored sample: the slot the next write overwrites.
    pub fn read(&self) -> (r: i64)
        requires
            self.wf(),
        ensures
            r == self.hist()[self.capacity_spec() - 1],
            in_range(r as int),
    {
        let len = self.buffer.len();
        proof {
            vstd::arithmetic::div_mod::lemma_small_mod((len - 1) as nat, len as nat);
        }
        self.read_at(len - 1)
    }

    /// Linear interpolation between the two integer offsets bracketing the
    /// fractional delay `delay_q` (a Q16 sample count). At a zero fractional
    /// part the interpolation degenerates to an exact `read_at`.
    pub fn read_interpolated(&self, delay_q: i64) -> (r: i64)
        requires
            self.wf(),
            0 <= delay_q,
        ensures
            r == interp_read_spec(self.hist(), delay_q),
            delay_q as int % 65536 == 0
                ==> r == self.hist()[(delay_q as int / 65536) % self.capacity_spec()],
            in_range(r as int),
    {
        let len = self.buffer.len();
        let off_wide: i64 = (delay_q / FRAC_ONE) % (len as i64);
        let off: usize = off_wide as usize;
        let frac: i64 = delay_q % FRAC_ONE;

        let off2 = if off + 1 < len { off + 1 } else { 0 };

        let s1 = self.read_at(off);
        let s2 = self.read_at(off2);
        proof {
            vstd::arithmetic::div_mod::lemma_small_mod(off as nat, len as nat);
            vstd::arithmetic::div_mod::lemma_small_mod(off2 as nat, len as nat);
            if off + 1 == len {
                vstd::arithmetic::div_mod::lemma_mod_self_0(len as int);
            }
            assert(off2 as int == (off as int + 1) % self.capacity_spec());
        }

        proof {
            crate::fixed::lemma_abs_mul_bound(
                frac as int, s2 - s1, 65536, 2 * SAMPLE_LIMIT as int);
        }
        let interp = mul_q(frac, s2 - s1);
        proof {
            crate::fixed::lemma_mul_q_interp(frac as int, s2 - s1);
            if frac == 0 {
                assert(frac as int * ((s2 - s1) as int) == 0) by (nonlinear_arith)
                    requires frac as int == 0;
            }
        }
        s1 + interp
    }

    /// Store `v` at the cursor, then advance the cursor modulo capacity.
    pub fn write(&mut self, v: i64)
        requires
            old(self).wf(),
            in_range(v as int),
        ensures
            final(self).wf(),
            final(self).capacity_spec() == old(self).capacity_spec(),
            final(self).hist() == write_spec(old(self).hist(), v),
    {
        let len = self.buffer.len();
        let i = self.index;
        self.buffer[i] = v;
        self.index = if i + 1 < len { i + 1 } else { 0 };
        proof {
            let h_new = self.hist();
            let h_spec = write_spec(old(self).hist(), v);
            assert forall|k: int| 0 <= k < h_new.len() implies h_new[k] == h_spec[k] by {
                assert(0 <= self.slot(k) < self.buffer.len());
                if k == 0 {
                    assert(self.slot(0) == old(self).index);
                } else {
                    assert(self.slot(k) == old(self).slot(k - 1));
                }
            }
            assert(h_new =~= h_spec);
        }
    }

    /// Zero the buffer and the cursor.
    pub fn reset(&mut self)
        requires
            old(self).wf(),
        ensures
            final(self).wf(),
            final(self).capacity_spec() == old(self).capacity_spec(),
            forall|k: int| 0 <= k < final(self).hist().len() ==> #[trigger] final(self).hist()[k] == 0i64,
    {
        let len = self.buffer.len();
        let mut i: usize = 0;
        while i < len
            invariant
                i <= len,
                self.buffer.len() == len,
                self.index == old(self).index,
                old(self).wf(),
                forall|k: int| 0 <= k < i ==> #[trigger] self.buffer[k] == 0i64,
                forall|k: int| i <= k < len ==> #[trigger] self.buffer[k] == old(self).buffer[k],
            decreases len - i,
        {
            self.buffer[i] = 0;
            i += 1;
        }
        self.index = 0;
        proof {
            assert forall|k: int| 0 <= k < self.hist().len() implies #[trigger] self.hist()[k] == 0i64 by {
                assert(0 <= self.slot(k) < self.buffer.len());
            }
        }
    }
}

/// An interpolated read from an all-silent history is silent.
pub proof fn lemma_interp_zero(h: Seq<i64>, delay_q: i64)
    requires
        h.len() > 0,
        forall|k: int| 0 <= k < h.len() ==> h[k] == 0i64,
        0 <= delay_q,
    ensures
        interp_read_spec(h, delay_q) == 0i64,
{
    let off = (delay_q as int / 65536) % (h.len() as int);
    let frac = delay_q as int % 65536;
    vstd::arithmetic::div_mod::lemma_div_pos_is_pos(delay_q as int, 65536);
    vstd::arithmetic::div_mod::lemma_mod_bound(delay_q as int / 65536, h.len() as int);
    vstd::arithmetic::div_mod::lemma_mod_bound(off + 1, h.len() as int);
    assert(frac * 0 == 0) by (nonlinear_arith);
}

/// After a run of writes, each slot holds the sample written that many writes
/// before: slot `k + |ws|` of the final history is slot `k` of the initial one.
pub proof fn lemma_write_seq_shift(h: Seq<i64>, ws: Seq<i64>, k: int)
    requires
        0 <= k,
        k + ws.len() < h.len(),
    ensures
        write_seq_spec(h, ws).len() == h.len(),
        write_seq_spec(h, ws)[k + ws.len()] == h[k],
    decreases ws.len(),
{
    if ws.len() > 0 {
        lemma_write_seq_shift(write_spec(h, ws[0]), ws.drop_first(), k + 1);
    }
}

/// Law: a write is retained. After writing `v` and then `d` further samples
/// (`d` below capacity), reading at offset `d` still yields `v`; in
/// particular, right after the write, offset 0 yields `v`.
pub proof fn lemma_delay_retention(h: Seq<i64>, v: i64, ws: Seq<i64>)
    requires
        ws.len() < h.len(),
    ensures
        write_seq_spec(write_spec(h, v), ws)[ws.len() as int] == v,
        write_spec(h, v)[0] == v,
{
    lemma_write_seq_shift(write_spec(h, v), ws, 0);
}

} // verus!
