//! Processors and their caches.

use vstd::prelude::*;

verus! {

/// Processors that are supported.
pub const MAX_CPUS: usize = 4;

/// The number of a processor, from its affinity register.
pub fn cpu_id(mpidr: u64) -> (id: u64)
    ensures
        id == mpidr % 256,
{
    assert(mpidr & 0xFF == mpidr % 256) by (bit_vector);
    mpidr & 0xFF
}

/// Whether a processor has a place in the tables.
pub fn is_supported(cpu: u64) -> (supported: bool)
    ensures
        supported == (cpu < MAX_CPUS),
{
    cpu < MAX_CPUS as u64
}

/// Whether interrupts are delivered, from the mask register: bit 7 masks them.
pub fn are_interrupts_enabled(daif: u64) -> (enabled: bool)
    ensures
        enabled == (daif as int / 128 % 2 == 0),
{
    daif / 128 % 2 == 0
}

/// The bytes of a cache line, from the logarithm of its words.
pub open spec fn line_size(shift: u64) -> u64 {
    4u64 << shift
}

/// The lines of size `line` that hold the bytes from `start` to `end`.
pub open spec fn lines(start: int, end: int, line: int) -> Seq<u64>
    recommends
        line > 0,
{
    let first = start - start % line;
    Seq::new(
        if end > first {
            ((end - first + line - 1) / line) as nat
        } else {
            0
        },
        |i: int| (first + i * line) as u64,
    )
}

proof fn lemma_line_size(shift: u64)
    requires
        shift < 16,
    ensures
        4 <= line_size(shift) <= 0x2_0000,
{
    assert(4 <= (4u64 << shift) && (4u64 << shift) <= 0x2_0000) by (bit_vector)
        requires
            shift < 16,
    ;
}

/// The addresses of the lines that hold the bytes from `start` to `end`.
fn cache_lines(start: u64, end: u64, line: u64) -> (addrs: Vec<u64>)
    requires
        start <= end,
        4 <= line <= 0x2_0000,
        end + line <= u64::MAX,
    ensures
        addrs@ == lines(start as int, end as int, line as int),
{
    proof {
        vstd::arithmetic::div_mod::lemma_mod_decreases(start as nat, line as nat);
    }
    let first: u64 = start - start % line;
    let mut addr: u64 = first;
    let mut addrs: Vec<u64> = Vec::new();
    let ghost wanted = lines(start as int, end as int, line as int);
    assert(addrs@ =~= wanted.subrange(0, 0));
    while addr < end
        invariant
            4 <= line <= 0x2_0000,
            end + line <= u64::MAX,
            first == start as int - start as int % line as int,
            wanted == lines(start as int, end as int, line as int),
            addr == first + addrs@.len() * line,
            addrs@.len() <= wanted.len(),
            addrs@ == wanted.subrange(0, addrs@.len() as int),
        decreases end + line - addr,
    {
        let ghost n = addrs@.len() as int;
        proof {
            let l = line as int;
            let total = end - first + l - 1;
            assert(n * l < end - first);
            assert(n < total / l) by {
                vstd::arithmetic::div_mod::lemma_fundamental_div_mod(total, l);
                vstd::arithmetic::div_mod::lemma_mod_bound(total, l);
                assert(n < total / l) by (nonlinear_arith)
                    requires
                        n * l < total - l + 1,
                        total == l * (total / l) + total % l,
                        total % l < l,
                        l > 0,
                ;
            }
            assert((n + 1) * l == n * l + l) by (nonlinear_arith);
        }
        addrs.push(addr);
        addr = addr + line;
        assert(addrs@ =~= wanted.subrange(0, addrs@.len() as int));
    }
    proof {
        let l = line as int;
        let n = addrs@.len() as int;
        let total = end - first + l - 1;
        if end > first {
            vstd::arithmetic::div_mod::lemma_fundamental_div_mod(total, l);
            vstd::arithmetic::div_mod::lemma_mod_bound(total, l);
            assert(total / l <= n) by (nonlinear_arith)
                requires
                    n * l >= total - l + 1,
                    total == l * (total / l) + total % l,
                    total % l >= 0,
                    l > 0,
            ;
        }
        assert(wanted.subrange(0, n) =~= wanted);
    }
    addrs
}

/// The lines to clean from the data cache and those to drop from the instruction
/// cache, so that code written to memory can run. `ctr` is the cache type
/// register.
pub fn jit_sync_lines(ctr: u64, start: u64, len: u64) -> (result: (Vec<u64>, Vec<u64>))
    requires
        start + len + 0x2_0000 <= u64::MAX,
    ensures
        result.0@ == lines(start as int, start + len, line_size(ctr / 0x1_0000 % 16) as int),
        result.1@ == lines(start as int, start + len, line_size(ctr % 16) as int),
{
    let data: u64 = ctr / 0x1_0000 % 16;
    let code: u64 = ctr % 16;
    proof {
        lemma_line_size(data);
        lemma_line_size(code);
    }
    let end: u64 = start + len;
    (cache_lines(start, end, 4u64 << data), cache_lines(start, end, 4u64 << code))
}

/// Law: every byte of the range lies in one of the lines.
pub proof fn law_lines_cover(start: int, end: int, line: int, at: int)
    requires
        line > 0,
        0 <= start <= at < end,
        end + line <= u64::MAX,
    ensures
        exists|i: int|
            0 <= i < lines(start, end, line).len() && (#[trigger] lines(start, end, line)[i]) <= at
                && at < lines(start, end, line)[i] + line,
{
    let first = start - start % line;
    let i = (at - first) / line;
    vstd::arithmetic::div_mod::lemma_mod_bound(start, line);
    vstd::arithmetic::div_mod::lemma_mod_decreases(start as nat, line as nat);
    vstd::arithmetic::div_mod::lemma_fundamental_div_mod(at - first, line);
    vstd::arithmetic::div_mod::lemma_mod_bound(at - first, line);
    vstd::arithmetic::div_mod::lemma_div_pos_is_pos(at - first, line);
    let total = end - first + line - 1;
    vstd::arithmetic::div_mod::lemma_fundamental_div_mod(total, line);
    vstd::arithmetic::div_mod::lemma_mod_bound(total, line);
    assert(line * i == i * line) by (nonlinear_arith);
    assert(i < total / line) by (nonlinear_arith)
        requires
            i * line <= at - first,
            at - first <= total - line,
            total == line * (total / line) + total % line,
            total % line < line,
            line > 0,
    ;
    assert(first >= 0);
    assert(0 <= first + i * line <= at) by (nonlinear_arith)
        requires
            first >= 0,
            i >= 0,
            line > 0,
            i * line <= at - first,
    ;
    assert(lines(start, end, line)[i] == first + i * line);
}

/// Law: the number of a processor is the lowest byte of its affinity; four are supported;
/// interrupts are delivered exactly if bit 7 of the mask is clear.
pub proof fn law_processor_registers(
    mpidr: u64,
    daif: u64,
    cpu: u64,
    id: u64,
    enabled: bool,
    supported: bool,
)
    requires
        call_ensures(cpu_id, (mpidr,), id),
        call_ensures(are_interrupts_enabled, (daif,), enabled),
        call_ensures(is_supported, (cpu,), supported),
    ensures
        id as int == mpidr as int % 256,
        enabled <==> daif as int % 256 < 128,
        supported <==> cpu < 4,
{
}

/// Law: the lines begin at multiples of their size, follow each other, and reach no further
/// than the range: the first holds its start and the last its end.
pub proof fn law_lines_are_tight(start: int, end: int, line: int, i: int)
    requires
        line > 0,
        0 <= start < end,
        end + line <= u64::MAX,
        0 <= i < lines(start, end, line).len(),
    ensures
        ({
            let all = lines(start, end, line);
            &&& all[0] <= start < all[0] + line
            &&& all[i] == all[0] + i * line
            &&& all[i] < end
            &&& all[0] as int % line == 0
        }),
{
    let first = start - start % line;
    let all = lines(start, end, line);
    vstd::arithmetic::div_mod::lemma_mod_bound(start, line);
    vstd::arithmetic::div_mod::lemma_fundamental_div_mod(start, line);
    let total = end - first + line - 1;
    vstd::arithmetic::div_mod::lemma_fundamental_div_mod(total, line);
    vstd::arithmetic::div_mod::lemma_mod_bound(total, line);
    vstd::arithmetic::div_mod::lemma_mod_decreases(start as nat, line as nat);
    assert(i * line <= total - line) by (nonlinear_arith)
        requires
            i < total / line,
            total == line * (total / line) + total % line,
            total % line >= 0,
            line > 0,
    ;
    assert(0 <= i * line) by (nonlinear_arith)
        requires
            i >= 0,
            line > 0,
    ;
    assert(first == line * (start / line));
    assert((line * (start / line)) % line == 0) by {
        vstd::arithmetic::div_mod::lemma_mod_multiples_basic(start / line, line);
        assert(line * (start / line) == (start / line) * line) by (nonlinear_arith);
    }
    assert(all[0] == first + 0 * line);
}

/// Law: a line has four bytes for each of its words, whose number is two to the power that
/// the cache type register gives: bits 16 to 19 for data and the lowest four for code.
pub proof fn law_line_sizes(shift: u64)
    requires
        shift < 15,
    ensures
        line_size(0) == 4,
        line_size((shift + 1) as u64) == 2 * line_size(shift),
{
    let more = (shift + 1) as u64;
    assert(4u64 << 0u64 == 4 && 4u64 << more == 2 * (4u64 << shift)) by (bit_vector)
        requires
            more == shift + 1,
            shift < 15,
    ;
}

} // verus!
