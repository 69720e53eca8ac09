//! The settings region of a device's flash: reads beyond its end give erased
//! bytes (`0xFF`), and a write rewrites each erase unit it touches, read,
//! modified and written back whole, skipping units whose bytes do not change.

use vstd::prelude::*;

verus! {

/// An erased flash byte.
pub const ERASED: u8 = 0xff;

/// One erase unit to rewrite: its offset in the region and its new bytes.
#[derive(Clone, Debug)]
pub struct UnitWrite {
    pub base: u32,
    pub bytes: Vec<u8>,
}

/// A range to erase that does not start and end on erase units.
#[derive(Copy, Clone, Debug, PartialEq, Eq, Structural)]
pub enum EraseError {
    NotAligned,
}

/// How many of `len` bytes at `offset` lie in a region of `size` bytes.
pub open spec fn in_region(size: int, offset: int, len: int) -> int {
    if offset >= size {
        0
    } else if size - offset < len {
        size - offset
    } else {
        len
    }
}

/// `len` bytes of `region` at `offset`; bytes past its end read as erased.
pub open spec fn region_read(region: Seq<u8>, offset: int, len: int) -> Seq<u8> {
    Seq::new(
        len as nat,
        |i: int|
            if offset + i < region.len() {
                region[offset + i]
            } else {
                ERASED
            },
    )
}

/// `region` with `data` in place at `offset`.
pub open spec fn overlay(region: Seq<u8>, offset: int, data: Seq<u8>) -> Seq<u8> {
    Seq::new(
        region.len(),
        |j: int|
            if offset <= j < offset + data.len() {
                data[j - offset]
            } else {
                region[j]
            },
    )
}

/// `region` after writing `data` at `offset`: what lies past the region's
/// end is dropped.
pub open spec fn region_written(region: Seq<u8>, offset: int, data: Seq<u8>) -> Seq<u8> {
    overlay(region, offset, data.take(in_region(region.len() as int, offset, data.len() as int)))
}

/// `region` after the unit writes `ws`, in order.
pub open spec fn apply_writes(region: Seq<u8>, ws: Seq<(u32, Seq<u8>)>) -> Seq<u8>
    decreases ws.len(),
{
    if ws.len() == 0 {
        region
    } else {
        overlay(apply_writes(region, ws.drop_last()), ws.last().0 as int, ws.last().1)
    }
}

/// Offset and bytes of each unit write.
pub open spec fn writes_view(ws: Seq<UnitWrite>) -> Seq<(u32, Seq<u8>)> {
    ws.map_values(|w: UnitWrite| (w.base, w.bytes@))
}

/// Every byte of `s` is erased.
pub open spec fn erased(s: Seq<u8>) -> bool {
    forall|i: int| 0 <= i < s.len() ==> s[i] == ERASED
}

/// How many of `len` bytes at `offset` lie in a region of `size` bytes.
pub fn readable_len(size: u32, offset: u32, len: usize) -> (r: usize)
    ensures
        r == in_region(size as int, offset as int, len as int),
{
    if offset >= size {
        0
    } else if ((size - offset) as usize) < len {
        (size - offset) as usize
    } else {
        len
    }
}

/// `len` bytes of `region` at `offset`; bytes past its end read as erased.
pub fn read_region(region: &Vec<u8>, offset: u32, len: usize) -> (r: Vec<u8>)
    ensures
        r@ == region_read(region@, offset as int, len as int),
{
    let mut r: Vec<u8> = Vec::new();
    let mut i: usize = 0;
    while i < len
        invariant
            i <= len,
            r@.len() == i,
            forall|k: int| 0 <= k < i ==> #[trigger] r@[k] == region_read(region@, offset as int, len as int)[k],
        decreases len - i,
    {
        if (offset as usize) < region.len() && i < region.len() - offset as usize {
            r.push(region[offset as usize + i]);
        } else {
            r.push(ERASED);
        }
        i = i + 1;
    }
    assert(r@ =~= region_read(region@, offset as int, len as int));
    r
}

/// What a read gives back of a write: the bytes written, where they lie in
/// the region, and erased bytes past its end; and every byte outside the
/// written range keeps its value.
pub proof fn lemma_read_after_write(region: Seq<u8>, offset: int, data: Seq<u8>)
    requires
        0 <= offset,
    ensures
        region_read(region_written(region, offset, data), offset, data.len() as int) == Seq::new(
            data.len(),
            |i: int|
                if offset + i < region.len() {
                    data[i]
                } else {
                    ERASED
                },
        ),
        region_written(region, offset, data).len() == region.len(),
        forall|j: int|
            0 <= j < region.len() && !(offset <= j < offset + data.len()) ==> #[trigger] region_written(
                region,
                offset,
                data,
            )[j] == region[j],
{
    let w = region_written(region, offset, data);
    assert(region_read(w, offset, data.len() as int) =~= Seq::new(
        data.len(),
        |i: int|
            if offset + i < region.len() {
                data[i]
            } else {
                ERASED
            },
    ));
}

/// Moving one chunk of `data` into `cur` keeps it equal to the region with
/// the first `done + chunk` bytes written.
proof fn lemma_overlay_step(
    region: Seq<u8>,
    cur: Seq<u8>,
    offset: int,
    data: Seq<u8>,
    done: int,
    chunk: int,
    base: int,
    unit_new: Seq<u8>,
)
    requires
        0 <= offset,
        0 <= done,
        0 < chunk,
        done + chunk <= data.len(),
        offset + done + chunk <= region.len(),
        cur == overlay(region, offset, data.take(done)),
        0 <= base <= offset + done,
        offset + done + chunk <= base + unit_new.len(),
        base + unit_new.len() <= region.len(),
        forall|j: int|
            0 <= j < unit_new.len() ==> #[trigger] unit_new[j] == (if offset + done <= base + j
                < offset + done + chunk {
                data[base + j - offset]
            } else {
                cur[base + j]
            }),
    ensures
        overlay(cur, base, unit_new) == overlay(region, offset, data.take(done + chunk)),
{
    assert(overlay(cur, base, unit_new) =~= overlay(region, offset, data.take(done + chunk)));
}

/// The erase unit holding byte `rel_off` of a region of `size` bytes made
/// of units of `unit` bytes.
proof fn lemma_unit_of(rel_off: int, size: int, unit: int)
    requires
        0 < unit,
        0 <= rel_off < size,
        size % unit == 0,
    ensures
        0 <= rel_off % unit <= rel_off,
        (rel_off - rel_off % unit) % unit == 0,
        rel_off - rel_off % unit + unit <= size,
{
    vstd::arithmetic::div_mod::lemma_fundamental_div_mod(rel_off, unit);
    vstd::arithmetic::div_mod::lemma_fundamental_div_mod(size, unit);
    vstd::arithmetic::div_mod::lemma_mod_pos_bound(rel_off, unit);
    vstd::arithmetic::div_mod::lemma_div_pos_is_pos(rel_off, unit);
    let q = rel_off / unit;
    let big_q = size / unit;
    assert(unit * q >= 0) by (nonlinear_arith)
        requires
            unit > 0,
            q >= 0,
    ;
    assert(q < big_q) by (nonlinear_arith)
        requires
            unit * q <= rel_off,
            rel_off < size,
            size == unit * big_q,
            unit > 0,
    ;
    assert(unit * q + unit <= unit * big_q) by (nonlinear_arith)
        requires
            q < big_q,
            unit > 0,
    ;
    vstd::arithmetic::div_mod::lemma_mod_multiples_basic(q, unit);
    assert(q * unit == unit * q) by (nonlinear_arith);
}

/// The unit writes that put `data` at `offset` into `region`, whose erase
/// units are `unit` bytes long.
///
/// Only the bytes that lie in the region are written; each unit touched is
/// written whole, once, in increasing order, and only when its bytes change.
pub fn plan_write(region: &Vec<u8>, unit: u32, offset: u32, data: &[u8]) -> (r: Vec<UnitWrite>)
    requires
        0 < unit,
        region.len() <= u32::MAX,
        (region.len() as int) % (unit as int) == 0,
    ensures
        apply_writes(region@, writes_view(r@)) == region_written(region@, offset as int, data@),
        forall|k: int|
            0 <= k < r@.len() ==> {
                let w = #[trigger] r@[k];
                &&& w.base % unit == 0
                &&& w.bytes@.len() == unit
                &&& w.base + unit <= region@.len()
                &&& w.bytes@ != region@.subrange(w.base as int, w.base + unit)
            },
        forall|k: int, l: int| 0 <= k < l < r@.len() ==> r@[k].base < r@[l].base,
        region_written(region@, offset as int, data@) == region@ ==> r@.len() == 0,
{
    let size = region.len();
    let mut writes: Vec<UnitWrite> = Vec::new();
    if data.len() == 0 || offset as usize >= size {
        proof {
            assert(data@.take(0) =~= Seq::<u8>::empty());
            assert(region_written(region@, offset as int, data@) =~= region@);
        }
        return writes;
    }
    let writable = readable_len(size as u32, offset, data.len());
    let ghost mut cur = region@;
    let mut done: usize = 0;
    proof {
        assert(data@.take(0) =~= Seq::<u8>::empty());
        assert(overlay(region@, offset as int, data@.take(0)) =~= region@);
    }
    while done < writable
        invariant
            0 < unit,
            size == region.len(),
            size <= u32::MAX,
            (size as int) % (unit as int) == 0,
            (offset as int) < size,
            writable == in_region(size as int, offset as int, data.len() as int),
            writable <= data.len(),
            offset + writable <= size,
            done <= writable,
            done > 0 ==> (offset + done) % (unit as int) == 0 || done == writable,
            cur == overlay(region@, offset as int, data@.take(done as int)),
            cur == apply_writes(region@, writes_view(writes@)),
            cur.len() == size,
            forall|k: int|
                0 <= k < writes@.len() ==> {
                    let w = #[trigger] writes@[k];
                    &&& w.base % unit == 0
                    &&& w.bytes@.len() == unit
                    &&& w.base < offset + done
                    &&& w.base + unit <= size
                    &&& w.bytes@ != region@.subrange(w.base as int, w.base + unit)
                },
            forall|k: int, l: int| 0 <= k < l < writes@.len() ==> writes@[k].base < writes@[l].base,
            done == 0 ==> writes@.len() == 0,
            region_written(region@, offset as int, data@) == region@ ==> writes@.len() == 0,
            region_written(region@, offset as int, data@) == overlay(
                region@,
                offset as int,
                data@.take(writable as int),
            ),
        decreases writable - done,
    {
        let rel_off: usize = offset as usize + done;
        let in_unit: usize = rel_off % (unit as usize);
        proof {
            lemma_unit_of(rel_off as int, size as int, unit as int);
        }
        let base: usize = rel_off - in_unit;
        let room: usize = unit as usize - in_unit;
        let chunk: usize = if writable - done < room {
            writable - done
        } else {
            room
        };
        proof {
            lemma_unit_of(rel_off as int, size as int, unit as int);
            assert(done > 0 ==> in_unit == 0);
        }
        let mut unit_bytes: Vec<u8> = Vec::new();
        let mut changed = false;
        let mut j: usize = 0;
        while j < unit as usize
            invariant
                j <= unit,
                base + unit <= size,
                size == region.len(),
                cur.len() == size,
                base <= rel_off,
                rel_off == base + in_unit,
                in_unit + chunk <= unit,
                rel_off + chunk <= data.len() + offset,
                rel_off == offset + done,
                done + chunk <= writable <= data.len(),
                cur == overlay(region@, offset as int, data@.take(done as int)),
                forall|i: int| base <= i < base + unit ==> cur[i] == region@[i],
                unit_bytes@.len() == j,
                forall|i: int|
                    0 <= i < j ==> #[trigger] unit_bytes@[i] == (if in_unit <= i < in_unit
                        + chunk {
                        data@[base + i - offset]
                    } else {
                        region@[base + i]
                    }),
                changed <==> exists|i: int|
                    0 <= i < j && in_unit <= i < in_unit + chunk && #[trigger] region@[base + i]
                        != data@[base + i - offset],
            decreases unit - j,
        {
            let old_byte = region[base + j];
            if in_unit <= j && j < in_unit + chunk {
                let new_byte = data[base + j - offset as usize];
                if new_byte != old_byte {
                    changed = true;
                }
                unit_bytes.push(new_byte);
            } else {
                unit_bytes.push(old_byte);
            }
            j = j + 1;
        }
        proof {
            assert(forall|i: int| 0 <= i < unit ==> #[trigger] unit_bytes@[i] == (if offset + done
                <= base + i < offset + done + chunk {
                data@[base + i - offset]
            } else {
                cur[base + i]
            }));
            lemma_overlay_step(
                region@,
                cur,
                offset as int,
                data@,
                done as int,
                chunk as int,
                base as int,
                unit_bytes@,
            );
        }
        if changed {
            proof {
                let i = choose|i: int|
                    0 <= i < unit && in_unit <= i < in_unit + chunk && #[trigger] region@[base + i]
                        != data@[base + i - offset];
                if region_written(region@, offset as int, data@) == region@ {
                    assert(overlay(region@, offset as int, data@.take(writable as int))[base + i]
                        == data@[base + i - offset]);
                }
                assert(unit_bytes@[i] != region@.subrange(base as int, base + unit)[i]);
            }
            let ghost before = writes@;
            writes.push(UnitWrite { base: base as u32, bytes: unit_bytes });
            proof {
                assert(writes_view(writes@).drop_last() =~= writes_view(before));
                cur = overlay(cur, base as int, writes@.last().bytes@);
            }
        } else {
            proof {
                assert(overlay(cur, base as int, unit_bytes@) =~= cur);
            }
        }
        proof {
            if chunk == room {
                vstd::arithmetic::div_mod::lemma_mod_add_multiples_vanish(base as int, unit as int);
            }
        }
        done = done + chunk;
    }
    proof {
        assert(data@.take(writable as int) == data@.take(
            in_region(region@.len() as int, offset as int, data@.len() as int),
        ));
    }
    writes
}

/// Offsets of the `page`-byte pages of `unit` that hold anything but erased
/// bytes, in increasing order.
pub fn pages_to_program(unit: &Vec<u8>, page: usize) -> (r: Vec<usize>)
    requires
        0 < page,
    ensures
        forall|k: int| 0 <= k < r@.len() ==> (#[trigger] r@[k]) % page == 0,
        forall|k: int, l: int| 0 <= k < l < r@.len() ==> r@[k] < r@[l],
        forall|o: int|
            #![trigger unit@.subrange(o, o + page)]
            0 <= o && o + page <= unit@.len() && o % (page as int) == 0 ==> (r@.contains(o as usize)
                <==> !erased(unit@.subrange(o, o + page))),
        forall|k: int| 0 <= k < r@.len() ==> #[trigger] r@[k] + page <= unit@.len(),
{
    let mut r: Vec<usize> = Vec::new();
    let mut o: usize = 0;
    while o < unit.len() && unit.len() - o >= page
        invariant
            0 < page,
            o % page == 0,
            o <= unit@.len(),
            forall|k: int| 0 <= k < r@.len() ==> (#[trigger] r@[k]) % page == 0,
            forall|k: int| 0 <= k < r@.len() ==> #[trigger] r@[k] < o,
            forall|k: int| 0 <= k < r@.len() ==> #[trigger] r@[k] + page <= unit@.len(),
            forall|k: int, l: int| 0 <= k < l < r@.len() ==> r@[k] < r@[l],
            forall|p: int|
                #![trigger unit@.subrange(p, p + page)]
                0 <= p < o && p + page <= unit@.len() && p % (page as int) == 0 ==> (r@.contains(
                    p as usize,
                ) <==> !erased(unit@.subrange(p, p + page))),
        decreases unit@.len() - o,
    {
        let mut all_erased = true;
        let mut i: usize = 0;
        while i < page
            invariant
                o + page <= unit@.len(),
                unit@.len() <= usize::MAX,
                i <= page,
                all_erased <==> forall|k: int| 0 <= k < i ==> #[trigger] unit@[o + k] == ERASED,
            decreases page - i,
        {
            if unit[o + i] != ERASED {
                all_erased = false;
            }
            i = i + 1;
        }
        proof {
            let s = unit@.subrange(o as int, o + page);
            if all_erased {
                assert forall|k: int| 0 <= k < s.len() implies s[k] == ERASED by {
                    assert(unit@[o + k] == ERASED);
                }
            } else {
                let k = choose|k: int| 0 <= k < page && #[trigger] unit@[o + k] != ERASED;
                assert(s[k] != ERASED);
            }
        }
        let ghost before = r@;
        if !all_erased {
            r.push(o);
        }
        proof {
            assert forall|p: int|
                #![trigger unit@.subrange(p, p + page)]
                0 <= p < o + page && p + page <= unit@.len() && p % (page as int)
                    == 0 implies (r@.contains(p as usize) <==> !erased(
                unit@.subrange(p, p + page),
            )) by {
                if p < o {
                    if before.contains(p as usize) {
                        let k = choose|k: int| 0 <= k < before.len() && before[k] == p as usize;
                        assert(r@[k] == p as usize);
                    }
                    if r@.contains(p as usize) {
                        let k = choose|k: int| 0 <= k < r@.len() && r@[k] == p as usize;
                        if k < before.len() {
                            assert(before[k] == p as usize);
                        } else {
                            assert(r@[k] == o);
                        }
                    }
                } else {
                    assert(p == o) by {
                        vstd::arithmetic::div_mod::lemma_mod_equivalence(p, o as int, page as int);
                        if p != o {
                            vstd::arithmetic::div_mod::lemma_small_mod(
                                (p - o) as nat,
                                page as nat,
                            );
                        }
                    }
                    if !all_erased {
                        assert(r@.last() == o);
                    } else {
                        if r@.contains(p as usize) {
                            let k = choose|k: int| 0 <= k < r@.len() && r@[k] == p;
                            assert(r@[k] < o);
                        }
                    }
                }
            }
        }
        o = o + page;
        proof {
            vstd::arithmetic::div_mod::lemma_mod_add_multiples_vanish((o - page) as int, page as int);
        }
    }
    proof {
        assert forall|p: int|
            #![trigger unit@.subrange(p, p + page)]
            0 <= p && p + page <= unit@.len() && p % (page as int) == 0 implies p < o by {}
    }
    r
}

/// A 16-bit word from two bytes, least significant first.
pub open spec fn le_halfword(lo: u8, hi: u8) -> u16 {
    (lo + 256 * hi) as u16
}

/// Halfword `i` of `page`.
pub open spec fn halfword_at(page: Seq<u8>, i: int) -> u16 {
    le_halfword(page[2 * i], page[2 * i + 1])
}

/// The halfwords of `page` to program, with their index: every one that is
/// not erased (`0xFFFF`), in increasing order.
pub fn halfwords_to_program(page: &Vec<u8>) -> (r: Vec<(usize, u16)>)
    ensures
        forall|k: int|
            0 <= k < r@.len() ==> {
                let (i, h) = #[trigger] r@[k];
                &&& 2 * i + 1 < page@.len()
                &&& h == halfword_at(page@, i as int)
                &&& h != 0xffff
            },
        forall|k: int, l: int| 0 <= k < l < r@.len() ==> r@[k].0 < r@[l].0,
        forall|i: int|
            0 <= i && 2 * i + 1 < page@.len() && #[trigger] halfword_at(page@, i)
                != 0xffff ==> exists|k: int| 0 <= k < r@.len() && #[trigger] r@[k].0 == i,
{
    let mut r: Vec<(usize, u16)> = Vec::new();
    let mut i: usize = 0;
    while i < page.len() / 2
        invariant
            i <= page@.len() / 2,
            forall|k: int|
                0 <= k < r@.len() ==> {
                    let (x, h) = #[trigger] r@[k];
                    &&& x < i
                    &&& 2 * x + 1 < page@.len()
                    &&& h == halfword_at(page@, x as int)
                    &&& h != 0xffff
                },
            forall|k: int, l: int| 0 <= k < l < r@.len() ==> r@[k].0 < r@[l].0,
            forall|x: int|
                0 <= x < i && #[trigger] halfword_at(page@, x) != 0xffff ==> exists|
                    k: int,
                | 0 <= k < r@.len() && #[trigger] r@[k].0 == x,
        decreases page@.len() / 2 - i,
    {
        let lo = page[2 * i];
        let hi = page[2 * i + 1];
        let h: u16 = (lo as u16) | ((hi as u16) << 8);
        assert(h == le_halfword(lo, hi)) by (bit_vector)
            requires
                h == (lo as u16) | ((hi as u16) << 8),
        ;
        let ghost before = r@;
        if h != 0xffff {
            r.push((i, h));
            assert(r@[r@.len() - 1].0 == i);
        }
        proof {
            assert forall|x: int|
                0 <= x < i + 1 && #[trigger] halfword_at(page@, x) != 0xffff implies exists|k: int|
                0 <= k < r@.len() && #[trigger] r@[k].0 == x by {
                if x < i {
                    let k = choose|k: int| 0 <= k < before.len() && #[trigger] before[k].0 == x;
                    assert(r@[k].0 == x);
                } else {
                    assert(r@[r@.len() - 1].0 == x);
                }
            }
        }
        i = i + 1;
    }
    proof {
        assert forall|x: int|
            0 <= x && 2 * x + 1 < page@.len() && #[trigger] halfword_at(page@, x)
                != 0xffff implies exists|k: int| 0 <= k < r@.len() && #[trigger] r@[k].0 == x by {
            assert(x < i);
        }
    }
    r
}

/// The erase units to erase for the range `from..to`: it must start and end
/// on units of `unit` bytes and not be empty.
pub fn erase_plan(from: u32, to: u32, unit: u32) -> (r: Result<Vec<u32>, EraseError>)
    requires
        0 < unit,
    ensures
        (from % unit != 0 || to % unit != 0 || from >= to) <==> r is Err,
        r matches Ok(units) ==> units@.len() == (to - from) / (unit as int) && forall|k: int|
            0 <= k < units@.len() ==> #[trigger] units@[k] == from + k * unit,
{
    if from % unit != 0 || to % unit != 0 || from >= to {
        return Err(EraseError::NotAligned);
    }
    let mut units: Vec<u32> = Vec::new();
    let mut addr: u32 = from;
    proof {
        vstd::arithmetic::div_mod::lemma_sub_mod_noop(to as int, from as int, unit as int);
        vstd::arithmetic::div_mod::lemma_small_mod(0, unit as nat);
    }
    while addr < to
        invariant
            0 < unit,
            from <= addr <= to,
            (to - addr) % (unit as int) == 0,
            addr == from + units@.len() * unit,
            forall|k: int| 0 <= k < units@.len() ==> #[trigger] units@[k] == from + k * unit,
        decreases to - addr,
    {
        proof {
            if to - addr < unit {
                vstd::arithmetic::div_mod::lemma_small_mod((to - addr) as nat, unit as nat);
            }
            vstd::arithmetic::div_mod::lemma_mod_sub_multiples_vanish((to - addr) as int, unit as int);
            assert((units@.len() + 1) * unit == units@.len() * unit + unit) by (nonlinear_arith);
        }
        units.push(addr);
        addr = addr + unit;
    }
    proof {
        assert(to - from == unit * units@.len()) by (nonlinear_arith)
            requires
                to - from == units@.len() * unit,
        ;
        vstd::arithmetic::div_mod::lemma_div_multiples_vanish(units@.len() as int, unit as int);
    }
    Ok(units)
}

} // verus!
