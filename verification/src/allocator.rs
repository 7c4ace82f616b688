//! First-fit allocator for the USB controller's endpoint/descriptor space.
//!
//! The controller exposes its control memory as a flat range of offsets.
//! Descriptors and transfer buffers are carved out of the range
//! `START_OFFSET .. END_OFFSET` by software. The hardware requires every
//! region base to sit on a 16-byte boundary, so free-space arithmetic always
//! rounds region lengths up to the next multiple of 16 while the table keeps
//! the exact requested length for each live region.

use vstd::prelude::*;

verus! {

/// First usable offset of the descriptor space: the controller reserves the
/// first 0x48 bytes, and 8 bytes of padding bring the start to a 16-byte
/// boundary.
pub const START_OFFSET: u32 = 0x50;

/// Upper bound of the descriptor space; no region may extend past it.
pub const END_OFFSET: u32 = 0xFF00;

/// `len` rounded up to the next multiple of 16; multiples of 16 are unchanged.
pub open spec fn round16(len: int) -> int {
    if len % 16 == 0 {
        len
    } else {
        len + (16 - len % 16)
    }
}

/// Well-formedness of an allocation table: entries ascend by base offset,
/// every base is 16-byte aligned and inside the range, every length is
/// positive and keeps its region inside the range, and consecutive regions
/// stay disjoint even after their lengths are rounded up to the alignment
/// unit.
pub open spec fn table_wf(s: Seq<(u32, u32)>) -> bool {
    &&& forall|i: int| 0 <= i < s.len() ==> (#[trigger] s[i]).0 % 16 == 0
    &&& forall|i: int| 0 <= i < s.len() ==> START_OFFSET <= (#[trigger] s[i]).0
    &&& forall|i: int| 0 <= i < s.len() ==> 0 < (#[trigger] s[i]).1
    &&& forall|i: int| 0 <= i < s.len() ==> (#[trigger] s[i]).0 + s[i].1 <= END_OFFSET
    &&& forall|i: int|
        0 <= i < s.len() - 1 ==> (#[trigger] s[i]).0 + round16(s[i].1 as int) <= s[i + 1].0
}

/// True when `off` is the base of a live region of `s`.
pub open spec fn contains_base(s: Seq<(u32, u32)>, off: u32) -> bool {
    exists|i: int| 0 <= i < s.len() && (#[trigger] s[i]).0 == off
}

/// The offset a first-fit scan yields starting at entry `i` with the scan
/// cursor at `cursor`: the first gap of at least `req` bytes before an
/// existing region, else the tail after the last region, and `None` when the
/// winning candidate would extend past `END_OFFSET`.
pub open spec fn first_fit_from(s: Seq<(u32, u32)>, i: int, cursor: int, req: int) -> Option<int>
    decreases s.len() - i,
{
    if i < 0 || i >= s.len() {
        if cursor + req <= END_OFFSET {
            Some(cursor)
        } else {
            None
        }
    } else if s[i].0 > cursor && s[i].0 - cursor >= req {
        if cursor + req <= END_OFFSET {
            Some(cursor)
        } else {
            None
        }
    } else {
        first_fit_from(s, i + 1, s[i].0 + round16(s[i].1 as int), req)
    }
}

/// The offset a full first-fit scan of table `s` yields for a request of
/// `req` bytes.
pub open spec fn first_fit(s: Seq<(u32, u32)>, req: int) -> Option<int> {
    first_fit_from(s, 0, START_OFFSET as int, req)
}

/// The largest contiguous free extent seen by a scan starting at entry `i`
/// with the cursor at `cursor`: the maximum over every gap before an existing
/// region and the tail up to `END_OFFSET`.
pub open spec fn max_gap_from(s: Seq<(u32, u32)>, i: int, cursor: int) -> int
    decreases s.len() - i,
{
    if i < 0 || i >= s.len() {
        if END_OFFSET - cursor >= 0 {
            END_OFFSET - cursor
        } else {
            0
        }
    } else {
        let g = if s[i].0 > cursor {
            s[i].0 - cursor
        } else {
            0
        };
        let rest = max_gap_from(s, i + 1, s[i].0 + round16(s[i].1 as int));
        if g >= rest {
            g
        } else {
            rest
        }
    }
}

/// The largest contiguous free extent of table `s`, the tail included.
pub open spec fn max_gap(s: Seq<(u32, u32)>) -> int {
    max_gap_from(s, 0, START_OFFSET as int)
}

/// The index at which a new region with base `off` belongs in the ascending
/// table `s`: the number of entries whose base precedes `off`.
pub open spec fn slot_of(s: Seq<(u32, u32)>, off: int) -> int
    decreases s.len(),
{
    if s.len() == 0 {
        0
    } else if off < s[0].0 {
        0
    } else {
        1 + slot_of(s.drop_first(), off)
    }
}

/// The index of the entry of `s` whose base is `off`, or `-1` when no entry
/// has that base.
pub open spec fn find_base(s: Seq<(u32, u32)>, off: u32) -> int
    decreases s.len(),
{
    if s.len() == 0 {
        -1
    } else if s[0].0 == off {
        0
    } else if find_base(s.drop_first(), off) < 0 {
        -1
    } else {
        1 + find_base(s.drop_first(), off)
    }
}

proof fn lemma_round16_bounds(l: int)
    requires
        0 <= l,
    ensures
        l <= round16(l) < l + 16,
        round16(l) % 16 == 0,
{
    if l % 16 != 0 {
        let q = l / 16;
        let r = l % 16;
        vstd::arithmetic::div_mod::lemma_fundamental_div_mod(l, 16);
        assert(l == 16 * q + r);
        assert(round16(l) == 16 * q + 16);
        assert((16 * q + 16) % 16 == 0) by {
            vstd::arithmetic::div_mod::lemma_mod_multiples_vanish(q + 1, 0, 16);
        }
    }
}

/// A 16-byte-aligned extent that is at least `b` long is also at least
/// `round16(b)` long.
proof fn lemma_round16_le(a: int, b: int)
    requires
        0 <= b <= a,
        a % 16 == 0,
    ensures
        round16(b) <= a,
{
    if b % 16 != 0 {
        let qa = a / 16;
        let qb = b / 16;
        let r = b % 16;
        vstd::arithmetic::div_mod::lemma_fundamental_div_mod(a, 16);
        vstd::arithmetic::div_mod::lemma_fundamental_div_mod(b, 16);
        assert(a == 16 * qa);
        assert(b == 16 * qb + r);
        assert(16 * qa >= 16 * qb + r);
        assert(qa >= qb + 1) by {
            if qa <= qb {
                assert(16 * qa <= 16 * qb) by (nonlinear_arith)
                    requires qa <= qb;
            }
        }
        assert(a >= 16 * qb + 16);
    }
}

/// The difference of two multiples of 16 is a multiple of 16.
proof fn lemma_mod16_diff(a: int, b: int)
    requires
        a % 16 == 0,
        b % 16 == 0,
        b <= a,
    ensures
        (a - b) % 16 == 0,
{
    let qa = a / 16;
    let qb = b / 16;
    vstd::arithmetic::div_mod::lemma_fundamental_div_mod(a, 16);
    vstd::arithmetic::div_mod::lemma_fundamental_div_mod(b, 16);
    assert(a - b == 16 * (qa - qb)) by (nonlinear_arith)
        requires a == 16 * qa, b == 16 * qb;
    vstd::arithmetic::div_mod::lemma_mod_multiples_basic(qa - qb, 16);
}

/// No two live regions of a well-formed table overlap: the region at the
/// smaller base ends, even without rounding, at or before the larger base
/// begins.
pub proof fn lemma_table_no_overlap(s: Seq<(u32, u32)>, i: int, j: int)
    requires
        table_wf(s),
        0 <= i < j < s.len(),
    ensures
        s[i].0 + s[i].1 <= s[j].0,
    decreases j - i,
{
    lemma_round16_bounds(s[i].1 as int);
    if j == i + 1 {
        assert(s[i].0 + round16(s[i].1 as int) <= s[j].0);
    } else {
        lemma_table_no_overlap(s, i + 1, j);
        assert(s[i].0 + round16(s[i].1 as int) <= s[i + 1].0);
        lemma_round16_bounds(s[i + 1].1 as int);
    }
}

/// For a request of at least one byte, the first-fit scan succeeds exactly
/// when some gap (the tail included) can hold the request.
proof fn lemma_first_fit_iff_gap(s: Seq<(u32, u32)>, i: int, cursor: int, req: int)
    requires
        table_wf(s),
        0 <= i,
        1 <= req,
    ensures
        first_fit_from(s, i, cursor, req) is Some <==> req <= max_gap_from(s, i, cursor),
    decreases s.len() - i,
{
    if i >= s.len() {
    } else {
        let g = if s[i].0 > cursor { s[i].0 - cursor } else { 0 };
        let next = s[i].0 + round16(s[i].1 as int);
        lemma_first_fit_iff_gap(s, i + 1, next, req);
        if s[i].0 > cursor && s[i].0 - cursor >= req {
            assert(s[i].0 + s[i].1 <= END_OFFSET);
            assert(cursor + req <= s[i].0);
        }
    }
}

/// A first-fit scan whose cursor starts 16-byte aligned and at or after
/// `START_OFFSET`, and at or before the next region base, yields an aligned
/// offset inside the range.
proof fn lemma_first_fit_aligned(s: Seq<(u32, u32)>, i: int, cursor: int, req: int)
    requires
        table_wf(s),
        0 <= i,
        cursor % 16 == 0,
        START_OFFSET <= cursor,
        i < s.len() ==> cursor <= s[i].0,
        1 <= req,
    ensures
        first_fit_from(s, i, cursor, req) matches Some(off) ==> {
            &&& off % 16 == 0
            &&& START_OFFSET <= off
            &&& off + req <= END_OFFSET
        },
    decreases s.len() - i,
{
    if i >= s.len() {
    } else if s[i].0 > cursor && s[i].0 - cursor >= req {
    } else {
        let next = s[i].0 + round16(s[i].1 as int);
        lemma_round16_bounds(s[i].1 as int);
        assert(next % 16 == 0) by {
            vstd::arithmetic::div_mod::lemma_add_mod_noop(s[i].0 as int, round16(s[i].1 as int), 16);
        }
        lemma_first_fit_aligned(s, i + 1, next, req);
    }
}

proof fn lemma_slot_of_at(s: Seq<(u32, u32)>, off: int, i: int)
    requires
        0 <= i <= s.len(),
        forall|j: int| 0 <= j < i ==> (#[trigger] s[j]).0 < off,
        i < s.len() ==> off < s[i].0,
    ensures
        slot_of(s, off) == i,
    decreases i,
{
    if i == 0 {
    } else {
        assert(s[0].0 < off);
        lemma_slot_of_at(s.drop_first(), off, i - 1);
    }
}

proof fn lemma_find_base_at(s: Seq<(u32, u32)>, off: u32, i: int)
    requires
        0 <= i < s.len(),
        forall|j: int| 0 <= j < i ==> (#[trigger] s[j]).0 != off,
        s[i].0 == off,
    ensures
        find_base(s, off) == i,
    decreases i,
{
    if i == 0 {
    } else {
        lemma_find_base_at(s.drop_first(), off, i - 1);
    }
}

proof fn lemma_find_base_none(s: Seq<(u32, u32)>, off: u32)
    requires
        forall|j: int| 0 <= j < s.len() ==> (#[trigger] s[j]).0 != off,
    ensures
        find_base(s, off) < 0,
    decreases s.len(),
{
    if s.len() > 0 {
        lemma_find_base_none(s.drop_first(), off);
    }
}

/// First-fit interval allocator over the controller's descriptor space.
///
/// The table is kept ascending by base offset; each entry records the base
/// and the exact requested length of one live region. Gap arithmetic uses
/// lengths rounded up to 16 bytes so that every base the allocator hands out
/// stays 16-byte aligned, as the hardware requires.
pub struct EndpointSpaceAllocator {
    table: Vec<(u32, u32)>,
}

impl View for EndpointSpaceAllocator {
    type V = Seq<(u32, u32)>;

    closed spec fn view(&self) -> Seq<(u32, u32)> {
        self.table@
    }
}

impl EndpointSpaceAllocator {
    /// The allocator's invariant: its table is well formed.
    pub open spec fn wf(&self) -> bool {
        table_wf(self@)
    }

    /// A fresh allocator with no live regions.
    pub fn new() -> (r: EndpointSpaceAllocator)
        ensures
            r.wf(),
            r@ == Seq::<(u32, u32)>::empty(),
    {
        let r = EndpointSpaceAllocator { table: Vec::new() };
        proof {
            assert(r@ =~= Seq::<(u32, u32)>::empty());
        }
        r
    }

    /// Reserve `requested` bytes at the first-fit offset.
    ///
    /// A zero-byte request is rejected, and a request larger than every gap
    /// (the tail included) fails with the table untouched; otherwise the
    /// first sufficient gap's base is recorded with the exact requested
    /// length and returned. Every offset handed out is 16-byte aligned,
    /// inside the range, and disjoint from every live region.
    pub fn allocate(&mut self, requested: u32) -> (r: Option<u32>)
        requires
            old(self).wf(),
        ensures
            final(self).wf(),
            r is Some <==> 1 <= requested <= max_gap(old(self)@),
            r is None ==> final(self)@ == old(self)@,
            r matches Some(off) ==> {
                &&& Some(off as int) == first_fit(old(self)@, requested as int)
                &&& off % 16 == 0
                &&& START_OFFSET <= off
                &&& off + requested <= END_OFFSET
                &&& !contains_base(old(self)@, off)
                &&& final(self)@ == old(self)@.insert(slot_of(old(self)@, off as int), (off, requested))
            },
    {
        let ghost s = self.table@;
        if requested == 0 {
            return None;
        }
        let mut cursor: u32 = START_OFFSET;
        let mut i: usize = 0;
        let n = self.table.len();
        let mut found = false;
        while i < n && !found
            invariant
                self.table@ == s,
                table_wf(s),
                n == s.len(),
                0 <= i <= n,
                1 <= requested,
                cursor % 16 == 0,
                START_OFFSET <= cursor,
                i < n ==> cursor <= s[i as int].0,
                forall|j: int| 0 <= j < i ==> (#[trigger] s[j]).0 + round16(s[j].1 as int) <= cursor,
                first_fit_from(s, i as int, cursor as int, requested as int) == first_fit(
                    s,
                    requested as int,
                ),
                found ==> {
                    &&& i < n
                    &&& s[i as int].0 > cursor
                    &&& s[i as int].0 - cursor >= requested
                },
            decreases n - i + (if found { 0int } else { 1int }),
        {
            let (offset, length) = self.table[i];
            proof {
                lemma_round16_bounds(length as int);
            }
            let rounded = if length % 16 == 0 {
                length
            } else {
                length + (16 - length % 16)
            };
            assert(rounded == round16(length as int));
            if offset > cursor && offset - cursor >= requested {
                found = true;
            } else {
                proof {
                    assert(first_fit_from(s, i as int, cursor as int, requested as int)
                        == first_fit_from(
                        s,
                        i as int + 1,
                        offset + round16(length as int),
                        requested as int,
                    ));
                    assert((offset + round16(length as int)) % 16 == 0) by {
                        vstd::arithmetic::div_mod::lemma_add_mod_noop(
                            offset as int,
                            round16(length as int),
                            16,
                        );
                    }
                    if i + 1 < n {
                        assert(s[i as int].0 + round16(s[i as int].1 as int) <= s[i as int + 1].0);
                    }
                }
                cursor = offset + rounded;
                i = i + 1;
            }
        }
        proof {
            lemma_first_fit_iff_gap(s, 0, START_OFFSET as int, requested as int);
            lemma_first_fit_aligned(s, 0, START_OFFSET as int, requested as int);
        }
        if found {
            // A gap before entry `i` holds the request; its base is `cursor`.
            proof {
                assert(s[i as int].0 + s[i as int].1 <= END_OFFSET);
                assert(cursor + requested <= END_OFFSET);
                assert(first_fit_from(s, i as int, cursor as int, requested as int) == Some(
                    cursor as int,
                ));
                assert(forall|j: int| 0 <= j < i ==> (#[trigger] s[j]).0 < cursor) by {
                    assert(forall|j: int|
                        0 <= j < i ==> (#[trigger] s[j]).0 + round16(s[j].1 as int) <= cursor);
                    assert(forall|j: int| 0 <= j < i ==> (#[trigger] s[j]).1 <= round16(
                        s[j].1 as int,
                    )) by {
                        assert forall|j: int| 0 <= j < i implies (#[trigger] s[j]).1 <= round16(
                            s[j].1 as int,
                        ) by {
                            lemma_round16_bounds(s[j].1 as int);
                        }
                    }
                }
                lemma_slot_of_at(s, cursor as int, i as int);
                assert forall|j: int| i <= j < s.len() implies cursor < (#[trigger] s[j]).0 by {
                    if j > i {
                        lemma_table_no_overlap(s, i as int, j);
                    }
                }
                assert(!contains_base(s, cursor));
            }
            self.table.insert(i, (cursor, requested));
            proof {
                s.insert_ensures(i as int, (cursor, requested));
                lemma_mod16_diff(s[i as int].0 as int, cursor as int);
                lemma_round16_le(s[i as int].0 - cursor, requested as int);
                assert_forall_insert_wf(s, i as int, cursor, requested);
            }
            Some(cursor)
        } else {
            // Tail placement after the last region, if it stays in range.
            assert(i == n);
            if cursor <= END_OFFSET && requested <= END_OFFSET - cursor {
                proof {
                    assert(first_fit_from(s, n as int, cursor as int, requested as int) == Some(
                        cursor as int,
                    ));
                    assert(forall|j: int| 0 <= j < n ==> (#[trigger] s[j]).0 < cursor) by {
                        assert forall|j: int| 0 <= j < n implies (#[trigger] s[j]).0 < cursor by {
                            lemma_round16_bounds(s[j].1 as int);
                        }
                    }
                    lemma_slot_of_at(s, cursor as int, n as int);
                    assert(!contains_base(s, cursor));
                }
                self.table.insert(n, (cursor, requested));
                proof {
                    s.insert_ensures(n as int, (cursor, requested));
                    assert_forall_insert_wf(s, n as int, cursor, requested);
                }
                Some(cursor)
            } else {
                proof {
                    assert(first_fit_from(s, n as int, cursor as int, requested as int) is None);
                }
                None
            }
        }
    }

    /// Release the region whose base is `offset`.
    ///
    /// Returns `true` and removes the entry when `offset` is a live base;
    /// returns `false` and leaves the table untouched otherwise, so a
    /// double free or a free of an unknown offset is reported, never fatal.
    pub fn free(&mut self, offset: u32) -> (r: bool)
        requires
            old(self).wf(),
        ensures
            final(self).wf(),
            r <==> contains_base(old(self)@, offset),
            r ==> find_base(old(self)@, offset) >= 0 && final(self)@ == old(self)@.remove(
                find_base(old(self)@, offset),
            ),
            !r ==> final(self)@ == old(self)@,
    {
        let ghost s = self.table@;
        let n = self.table.len();
        let mut i: usize = 0;
        let mut hit = false;
        while i < n && !hit
            invariant
                self.table@ == s,
                table_wf(s),
                n == s.len(),
                0 <= i <= n,
                forall|j: int| 0 <= j < i ==> (#[trigger] s[j]).0 != offset,
                hit ==> i < n && s[i as int].0 == offset,
            decreases n - i + (if hit { 0int } else { 1int }),
        {
            if self.table[i].0 == offset {
                hit = true;
            } else {
                i = i + 1;
            }
        }
        if hit {
            proof {
                lemma_find_base_at(s, offset, i as int);
                assert(s[i as int].0 == offset);
                assert(contains_base(s, offset));
            }
            self.table.remove(i);
            proof {
                s.remove_ensures(i as int);
                assert_forall_remove_wf(s, i as int);
            }
            true
        } else {
            proof {
                lemma_find_base_none(s, offset);
            }
            false
        }
    }

    /// The number of live regions.
    pub fn len(&self) -> (r: usize)
        ensures
            r == self@.len(),
    {
        self.table.len()
    }

    /// The live regions, ascending by base offset, each with its exact
    /// requested length.
    pub fn entries(&self) -> (r: &Vec<(u32, u32)>)
        ensures
            r@ == self@,
    {
        &self.table
    }
}

proof fn assert_forall_insert_wf(s: Seq<(u32, u32)>, k: int, off: u32, len: u32)
    requires
        table_wf(s),
        0 <= k <= s.len(),
        off % 16 == 0,
        START_OFFSET <= off,
        0 < len,
        off + len <= END_OFFSET,
        k > 0 ==> s[k - 1].0 + round16(s[k - 1].1 as int) <= off,
        k < s.len() ==> off + round16(len as int) <= s[k].0,
    ensures
        table_wf(s.insert(k, (off, len))),
{
    let t = s.insert(k, (off, len));
    s.insert_ensures(k, (off, len));
    assert forall|i: int| 0 <= i < t.len() - 1 implies (#[trigger] t[i]).0 + round16(t[i].1 as int)
        <= t[i + 1].0 by {
        if i < k - 1 {
            assert(t[i] == s[i] && t[i + 1] == s[i + 1]);
        } else if i == k - 1 {
            assert(t[i] == s[i] && t[i + 1] == (off, len));
        } else if i == k {
            assert(t[i] == (off, len));
            if k < s.len() {
                assert(t[i + 1] == s[k]);
            }
        } else {
            assert(t[i] == s[i - 1] && t[i + 1] == s[i]);
        }
    }
    assert forall|i: int| 0 <= i < t.len() implies {
        &&& (#[trigger] t[i]).0 % 16 == 0
        &&& START_OFFSET <= t[i].0
        &&& 0 < t[i].1
        &&& t[i].0 + t[i].1 <= END_OFFSET
    } by {
        if i < k {
            assert(t[i] == s[i]);
        } else if i == k {
        } else {
            assert(t[i] == s[i - 1]);
        }
    }
}

proof fn assert_forall_remove_wf(s: Seq<(u32, u32)>, k: int)
    requires
        table_wf(s),
        0 <= k < s.len(),
    ensures
        table_wf(s.remove(k)),
{
    let t = s.remove(k);
    s.remove_ensures(k);
    assert forall|i: int| 0 <= i < t.len() - 1 implies (#[trigger] t[i]).0 + round16(t[i].1 as int)
        <= t[i + 1].0 by {
        if i < k - 1 {
            assert(t[i] == s[i] && t[i + 1] == s[i + 1]);
        } else if i == k - 1 {
            assert(t[i] == s[i] && t[i + 1] == s[k + 1]);
            lemma_round16_bounds(s[k].1 as int);
            assert(s[k - 1].0 + round16(s[k - 1].1 as int) <= s[k].0);
            assert(s[k].0 + round16(s[k].1 as int) <= s[k + 1].0);
        } else {
            assert(t[i] == s[i + 1] && t[i + 1] == s[i + 2]);
        }
    }
    assert forall|i: int| 0 <= i < t.len() implies {
        &&& (#[trigger] t[i]).0 % 16 == 0
        &&& START_OFFSET <= t[i].0
        &&& 0 < t[i].1
        &&& t[i].0 + t[i].1 <= END_OFFSET
    } by {
        if i < k {
            assert(t[i] == s[i]);
        } else {
            assert(t[i] == s[i + 1]);
        }
    }
}

} // verus!
