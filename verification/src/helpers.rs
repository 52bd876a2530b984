//! Small helpers shared by the sensor model: the signed 16-bit conversion,
//! truncating division, sensor-name normalization, and the register-range
//! compaction that minimizes bus transactions.

use vstd::prelude::*;
use vstd::string::StrSliceExecFns;

verus! {

/// What `str::trim` returns for these characters: the same text with
/// leading and trailing whitespace removed. The result depends on the
/// characters alone.
pub uninterp spec fn trimmed_of(s: Seq<char>) -> Seq<char>;

/// What `str::to_lowercase` returns for these characters: their Unicode
/// lowercase form. The result depends on the characters alone.
pub uninterp spec fn lower_of(s: Seq<char>) -> Seq<char>;

/// Relies on str::trim: removes leading and trailing whitespace and
/// nothing else, so an empty input stays empty.
#[verifier::external_body]
fn trim_str<'a>(s: &'a str) -> (r: &'a str)
    ensures
        r@ == trimmed_of(s@),
        s@.len() == 0 ==> r@.len() == 0,
{
    s.trim()
}

/// Relies on str::to_lowercase: the lowercase equivalent of the text, so
/// an empty input stays empty.
#[verifier::external_body]
fn lower_str(s: &str) -> (r: String)
    ensures
        r@ == lower_of(s@),
        s@.len() == 0 ==> r@.len() == 0,
{
    s.to_lowercase()
}

/// Relies on String's FromIterator: collecting characters builds the string
/// of exactly those characters.
#[verifier::external_body]
fn chars_to_string(v: Vec<char>) -> (r: String)
    ensures
        r@ == v@,
{
    v.into_iter().collect()
}

/// Each space or hyphen replaced with an underscore, all other characters
/// kept.
pub open spec fn slug_chars(s: Seq<char>) -> Seq<char> {
    s.map_values(
        |c: char|
            if c == ' ' || c == '-' {
                '_'
            } else {
                c
            },
    )
}

/// The normalized form of a sensor name: trimmed, lower-cased, with each
/// space or hyphen replaced by an underscore.
pub open spec fn slug_of(s: Seq<char>) -> Seq<char> {
    slug_chars(lower_of(trimmed_of(s)))
}

/// Normalizes a sensor name for catalog lookup: trim whitespace, lower-case,
/// replace each space or hyphen with an underscore. Collaborators doing
/// lookups must reproduce this rule bit for bit.
pub fn slug_name(name: &str) -> (r: String)
    ensures
        r@ == slug_of(name@),
{
    let lowered = lower_str(trim_str(name));
    let ls: &str = lowered.as_str();
    let n: usize = ls.unicode_len();
    let mut out: Vec<char> = Vec::new();
    let mut i: usize = 0;
    while i < n
        invariant
            i <= n,
            n == ls@.len(),
            out@ == slug_chars(ls@).take(i as int),
        decreases n - i,
    {
        let c = ls.get_char(i);
        let mapped: char = if c == ' ' || c == '-' {
            '_'
        } else {
            c
        };
        proof {
            assert(slug_chars(ls@)[i as int] == mapped);
            assert(slug_chars(ls@).take(i as int + 1) =~= slug_chars(ls@).take(i as int).push(
                mapped,
            ));
        }
        out.push(mapped);
        i += 1;
    }
    proof {
        assert(slug_chars(ls@).take(n as int) =~= slug_chars(ls@));
    }
    chars_to_string(out)
}

/// The signed value that a raw 16-bit register word stands for: words up to
/// `0x7FFF` are taken as they are, anything above stands for a negative
/// value and has `0xFFFF` subtracted (the device's convention; note that it
/// is `0xFFFF`, not the two's-complement `0x10000`).
pub open spec fn signed_spec(v: int) -> int {
    if v <= 0x7FFF {
        v
    } else {
        v - 0xFFFF
    }
}

/// Some values can go negative. We need to convert the unsigned 16-bit
/// value into a signed one. The indication you haven't done this is values
/// close to 2^16 in metrics, representing negative values.
pub fn signed(raw_value: i64) -> (r: i64)
    ensures
        r == signed_spec(raw_value as int),
{
    if raw_value <= 0x7FFF {
        raw_value
    } else {
        raw_value - 0xFFFF
    }
}

/// The magnitude of an integer.
pub open spec fn abs_i(a: int) -> int {
    if a >= 0 {
        a
    } else {
        -a
    }
}

/// Truncating division, as the machine's signed division computes it: the
/// quotient of the magnitudes, carrying the sign of the operands.
pub open spec fn div_trunc(a: int, b: int) -> int
    recommends
        b != 0,
{
    if a >= 0 && b > 0 {
        a / b
    } else if a >= 0 && b < 0 {
        -(a / (-b))
    } else if a < 0 && b > 0 {
        -((-a) / b)
    } else {
        (-a) / (-b)
    }
}

/// The magnitude of a signed 64-bit value, without overflow at the lower
/// end of the range.
fn mag_u64(x: i64) -> (m: u64)
    ensures
        m == abs_i(x as int),
{
    if x >= 0 {
        x as u64
    } else {
        ((-(x + 1)) as u64) + 1
    }
}

/// Truncating signed division on 64-bit values, the division the decode
/// rules apply to raw register values and scale factors.
pub fn div_i64(a: i64, b: i64) -> (r: i64)
    requires
        b != 0,
        !(a == i64::MIN && b == -1),
    ensures
        r == div_trunc(a as int, b as int),
        abs_i(r as int) <= abs_i(a as int),
{
    let ma = mag_u64(a);
    let mb = mag_u64(b);
    let q: u64 = ma / mb;
    proof {
        vstd::arithmetic::div_mod::lemma_div_nonincreasing(ma as int, mb as int);
        if a == i64::MIN && b < -1 {
            vstd::arithmetic::div_mod::lemma_div_is_ordered_by_denominator(ma as int, 2, mb as int);
            assert(q <= 0x4000000000000000);
        }
    }
    let negative = (a < 0) != (b < 0);
    if negative {
        if q == 0 {
            0
        } else {
            -((q - 1) as i64) - 1
        }
    } else {
        q as i64
    }
}

/// A sequence of register addresses in non-decreasing order.
pub open spec fn sorted(s: Seq<u16>) -> bool {
    forall|i: int, j: int| 0 <= i < j < s.len() ==> s[i] <= s[j]
}

/// Whether the contiguous run `run` (a start address and a count) covers the
/// address `a`.
pub open spec fn run_covers(run: (u16, u16), a: u16) -> bool {
    run.0 <= a < run.0 + run.1
}

/// Whether some run in `runs` covers the address `a`.
pub open spec fn covers(runs: Seq<(u16, u16)>, a: u16) -> bool {
    exists|i: int| 0 <= i < runs.len() && run_covers(runs[i], a)
}

/// A well-formed run list: every run is nonempty and stays inside the 16-bit
/// address space, and each run ends strictly before the next one starts, with
/// at least one address missing in between. Together with coverage this makes
/// the runs sorted by start, pairwise disjoint, and each maximal.
pub open spec fn wf_runs(runs: Seq<(u16, u16)>) -> bool {
    &&& forall|i: int|
        0 <= i < runs.len() ==> (#[trigger] runs[i]).1 >= 1 && runs[i].0 + runs[i].1 <= 0x10000
    &&& forall|i: int|
        0 <= i < runs.len() - 1 ==> (#[trigger] runs[i]).0 + runs[i].1 < runs[i + 1].0
}

/// Sorts register addresses into a fresh vector by repeatedly extracting the
/// minimum, keeping the multiset of addresses intact.
fn sort_registers(input: Vec<u16>) -> (r: Vec<u16>)
    ensures
        sorted(r@),
        r@.to_multiset() == input@.to_multiset(),
        r@.len() == input@.len(),
        forall|x: u16| r@.contains(x) <==> input@.contains(x),
{
    broadcast use vstd::seq_lib::group_to_multiset_ensures;

    let mut v = input;
    let ghost orig = v@;
    let mut out: Vec<u16> = Vec::new();
    while v.len() > 0
        invariant
            sorted(out@),
            out@.to_multiset().add(v@.to_multiset()) =~= orig.to_multiset(),
            out@.len() + v@.len() == orig.len(),
            forall|i: int, j: int|
                0 <= i < out@.len() && 0 <= j < v@.len() ==> out@[i] <= v@[j],
        decreases v@.len(),
    {
        broadcast use vstd::seq_lib::group_to_multiset_ensures;

        let mut mi: usize = 0;
        let mut k: usize = 1;
        while k < v.len()
            invariant
                mi < k <= v@.len(),
                v@.len() > 0,
                forall|l: int| 0 <= l < k ==> v@[mi as int] <= v@[l],
            decreases v@.len() - k,
        {
            if v[k] < v[mi] {
                mi = k;
            }
            k += 1;
        }
        let ghost v_before = v@;
        let ghost out_before = out@;
        let m = v.remove(mi);
        out.push(m);
        proof {
            v_before.to_multiset_ensures();
            out_before.to_multiset_ensures();
            assert(v@.to_multiset() =~= v_before.to_multiset().remove(m));
            assert(out@.to_multiset() =~= out_before.to_multiset().insert(m));
            assert(v_before.contains(m));
            assert(v_before.to_multiset().count(m) > 0);
            assert(out@.to_multiset().add(v@.to_multiset()) =~= orig.to_multiset());
        }
    }
    proof {
        assert(v@.to_multiset() =~= vstd::multiset::Multiset::empty()) by {
            v@.to_multiset_ensures();
        }
        assert(out@.to_multiset() =~= orig.to_multiset());
        assert forall|x: u16| out@.contains(x) <==> orig.contains(x) by {
            out@.to_multiset_ensures();
            orig.to_multiset_ensures();
            assert(out@.to_multiset().count(x) == orig.to_multiset().count(x));
        }
    }
    out
}

/// Whether some 16-bit address does not occur in `s`. Opaque so that the
/// negated-membership fact stays out of unrelated reasoning; reveal it where
/// the witness is needed.
#[verifier::opaque]
pub open spec fn has_absent(s: Seq<u16>) -> bool {
    exists|a: u16| !s.contains(a)
}

/// A sequence of register addresses in strictly increasing order: sorted and
/// free of duplicates.
pub open spec fn strict_sorted(s: Seq<u16>) -> bool {
    forall|i: int, j: int| 0 <= i < j < s.len() ==> s[i] < s[j]
}

/// An absent address carries over to any sequence with the same members.
proof fn lemma_has_absent_transfer(s1: Seq<u16>, s2: Seq<u16>)
    requires
        has_absent(s1),
        forall|x: u16| s2.contains(x) <==> s1.contains(x),
    ensures
        has_absent(s2),
{
    reveal(has_absent);
    let a = choose|a: u16| !s1.contains(a);
    assert(!s2.contains(a));
}

/// In a strictly increasing sequence the element at position `j` is at
/// least `j` above the first element.
proof fn lemma_strict_lower(s: Seq<u16>, j: int)
    requires
        strict_sorted(s),
        0 <= j < s.len(),
    ensures
        s[j] >= s[0] + j,
    decreases j,
{
    if j > 0 {
        lemma_strict_lower(s, j - 1);
        assert(s[j - 1] < s[j]);
    }
}

/// In a strictly increasing sequence the element at position `j` is at
/// least as far below the last element as `j` is below the last position.
proof fn lemma_strict_upper(s: Seq<u16>, j: int)
    requires
        strict_sorted(s),
        0 <= j < s.len(),
    ensures
        s[j] + (s.len() - 1 - j) <= s[s.len() - 1],
    decreases s.len() - j,
{
    if j < s.len() - 1 {
        lemma_strict_upper(s, j + 1);
        assert(s[j] < s[j + 1]);
    }
}

/// A strictly increasing sequence of 16-bit addresses that misses some
/// address holds strictly fewer than 65536 elements.
proof fn lemma_strict_sorted_absent_len(s: Seq<u16>)
    requires
        strict_sorted(s),
        has_absent(s),
    ensures
        s.len() <= 0xFFFF,
{
    if s.len() > 0x10000 {
        lemma_strict_lower(s, 0x10000);
    }
    if s.len() == 0x10000 {
        // The sequence would be exactly 0, 1, ..., 0xFFFF and hold every
        // address, against the absent one.
        reveal(has_absent);
        let a = choose|a: u16| !s.contains(a);
        lemma_strict_lower(s, a as int);
        lemma_strict_upper(s, a as int);
        lemma_strict_lower(s, 0);
        lemma_strict_upper(s, s.len() - 1);
        assert(s[a as int] == a);
        assert(s.contains(a));
    }
}

/// Removes duplicates from a sorted address list, keeping exactly its
/// distinct addresses in strictly increasing order.
fn dedup_sorted(v: Vec<u16>) -> (r: Vec<u16>)
    requires
        sorted(v@),
    ensures
        strict_sorted(r@),
        forall|x: u16| r@.contains(x) <==> v@.contains(x),
        v@.len() == 0 ==> r@.len() == 0,
{
    let mut r: Vec<u16> = Vec::new();
    let mut i: usize = 0;
    while i < v.len()
        invariant
            i <= v@.len(),
            sorted(v@),
            strict_sorted(r@),
            forall|x: u16| r@.contains(x) <==> v@.take(i as int).contains(x),
            r@.len() > 0 ==> i > 0 && r@[r@.len() - 1] == v@[i - 1],
            r@.len() == 0 ==> i == 0,
        decreases v@.len() - i,
    {
        let x = v[i];
        proof {
            assert(v@.take(i as int + 1) =~= v@.take(i as int).push(x));
        }
        if r.len() == 0 || r[r.len() - 1] < x {
            let ghost r_before = r@;
            r.push(x);
            proof {
                assert(forall|k: int| 0 <= k < r_before.len() ==> r@[k] == r_before[k]);
                assert forall|y: u16| r@.contains(y) <==> v@.take(i as int + 1).contains(
                    y,
                ) by {
                    lemma_contains_push(r_before, x, y);
                    lemma_contains_push(v@.take(i as int), x, y);
                }
            }
        } else {
            proof {
                // Sortedness makes this a duplicate of the last kept address.
                assert(r@[r@.len() - 1] == x);
                assert forall|y: u16| r@.contains(y) <==> v@.take(i as int + 1).contains(
                    y,
                ) by {
                    lemma_contains_push(v@.take(i as int), x, y);
                    if y == x {
                        assert(r@[r@.len() - 1] == y);
                    }
                }
            }
        }
        i += 1;
    }
    proof {
        assert(v@.take(v@.len() as int) =~= v@);
    }
    r
}

/// Given a list of registers, return a list containing the starting registers in a consecutive row,
/// and the number of consecutive registers.
/// eg [1, 2, 3, 5, 6, 9] -> [(1, 3), (5, 2), (9, 1)]
///
/// The input may be unordered, of any length, and may contain duplicates; a
/// duplicated address counts once, as already covered by its run. The output
/// runs are sorted by start, pairwise disjoint and maximal, and together they
/// cover exactly the distinct input addresses. Some address must be absent
/// from the input: a run's count is a 16-bit word, so an input covering all
/// 65536 addresses has no representable run list.
#[verifier::rlimit(30)]
pub fn group_consecutive(registers: Vec<u16>) -> (out: Vec<(u16, u16)>)
    requires
        has_absent(registers@),
    ensures
        wf_runs(out@),
        forall|a: u16| #[trigger] covers(out@, a) <==> registers@.contains(a),
        registers@.len() == 0 ==> out@.len() == 0,
{
    let sorted_regs = sort_registers(registers);
    let regs = dedup_sorted(sorted_regs);
    proof {
        lemma_has_absent_transfer(registers@, regs@);
        lemma_strict_sorted_absent_len(regs@);
        assert(regs@.len() <= 0xFFFF);
    }
    let mut out: Vec<(u16, u16)> = Vec::new();
    if regs.len() == 0 {
        return out;
    }
    let mut starting_reg: u16 = regs[0];
    let mut consecutive_number: u16 = 1;
    let mut idx: usize = 1;
    proof {
        assert forall|a: u16|
            (covers(out@, a) || starting_reg <= a < starting_reg + consecutive_number)
                <==> #[trigger] regs@.take(1).contains(a) by {
            if starting_reg <= a < starting_reg + consecutive_number {
                assert(regs@.take(1)[0] == a);
            }
        }
    }
    while idx < regs.len()
        invariant
            1 <= idx <= regs@.len(),
            regs@.len() <= 0xFFFF,
            sorted(regs@),
            consecutive_number >= 1,
            consecutive_number <= idx,
            starting_reg + consecutive_number <= 0x10000,
            starting_reg + consecutive_number - 1 == regs@[idx - 1],
            wf_runs(out@),
            out@.len() > 0 ==> out@[out@.len() - 1].0 + out@[out@.len() - 1].1 < starting_reg,
            forall|a: u16|
                (#[trigger] covers(out@, a) || starting_reg <= a < starting_reg
                    + consecutive_number) <==> regs@.take(idx as int).contains(a),
        decreases regs@.len() - idx,
    {
        let reg = regs[idx];
        let ghost pre = regs@.take(idx as int);
        proof {
            assert(regs@[idx - 1] <= regs@[idx as int]);
            assert(regs@.take(idx as int + 1) =~= pre.push(reg));
        }
        let prev = starting_reg + (consecutive_number - 1);
        if reg == prev {
            // a repeated address is already covered by the open run; the
            // deduplicated input no longer carries any, but a merely sorted
            // one would be handled here
            proof {
                assert forall|a: u16|
                    (covers(out@, a) || starting_reg <= a < starting_reg + consecutive_number)
                        <==> #[trigger] regs@.take(idx as int + 1).contains(a) by {
                    lemma_contains_push(pre, reg, a);
                }
            }
        } else if reg - starting_reg == consecutive_number {
            consecutive_number += 1;
            proof {
                assert forall|a: u16|
                    (covers(out@, a) || starting_reg <= a < starting_reg + consecutive_number)
                        <==> #[trigger] regs@.take(idx as int + 1).contains(a) by {
                    lemma_contains_push(pre, reg, a);
                }
            }
        } else {
            proof {
                assert(reg > prev + 1);
            }
            let run = (starting_reg, consecutive_number);
            let ghost out_before = out@;
            out.push(run);
            starting_reg = reg;
            consecutive_number = 1;
            proof {
                lemma_covers_push(out_before, run);
                assert(forall|i: int| 0 <= i < out_before.len() ==> out@[i] == out_before[i]);
                assert(out@[out@.len() - 1] == run);
                assert forall|a: u16|
                    (covers(out@, a) || starting_reg <= a < starting_reg + consecutive_number)
                        <==> #[trigger] regs@.take(idx as int + 1).contains(a) by {
                    lemma_contains_push(pre, reg, a);
                }
            }
        }
        idx += 1;
    }
    let run = (starting_reg, consecutive_number);
    let ghost out_before = out@;
    proof {
        assert(forall|a: u16|
            (#[trigger] covers(out_before, a) || starting_reg <= a < starting_reg
                + consecutive_number) <==> regs@.take(idx as int).contains(a));
    }
    out.push(run);
    proof {
        lemma_covers_push(out_before, run);
        assert(forall|i: int| 0 <= i < out_before.len() ==> out@[i] == out_before[i]);
        assert(out@[out@.len() - 1] == run);
        assert(idx == regs@.len());
        assert forall|a: u16| #[trigger] covers(out@, a) <==> registers@.contains(a) by {
            assert(out@ == out_before.push(run));
            assert(covers(out_before.push(run), a) <==> (covers(out_before, a) || run_covers(
                run,
                a,
            )));
            assert(run_covers(run, a) == (starting_reg <= a < starting_reg + consecutive_number));
            assert((covers(out_before, a) || starting_reg <= a < starting_reg
                + consecutive_number) <==> regs@.take(idx as int).contains(a));
            assert(regs@.take(idx as int) =~= regs@);
            assert(regs@.take(idx as int).contains(a) == regs@.contains(a));
            assert(regs@.contains(a) == registers@.contains(a));
        }
    }
    out
}

/// In a well-formed run list every earlier run ends strictly before every
/// later run starts, not only the adjacent one.
proof fn lemma_runs_ordered(runs: Seq<(u16, u16)>, i: int, j: int)
    requires
        wf_runs(runs),
        0 <= i < j < runs.len(),
    ensures
        runs[i].0 + runs[i].1 < runs[j].0,
    decreases j - i,
{
    if j == i + 1 {
    } else {
        lemma_runs_ordered(runs, i, j - 1);
        assert(runs[j - 1].0 + runs[j - 1].1 < runs[j].0);
    }
}

/// Removing the first run from a well-formed run list covers exactly the
/// remaining addresses: those covered before and not lying in the first run.
proof fn lemma_covers_drop_first(runs: Seq<(u16, u16)>, a: u16)
    requires
        wf_runs(runs),
        runs.len() > 0,
    ensures
        covers(runs.drop_first(), a) <==> (covers(runs, a) && !run_covers(runs[0], a)),
{
    let tail = runs.drop_first();
    if covers(tail, a) {
        let i = choose|i: int| 0 <= i < tail.len() && run_covers(tail[i], a);
        assert(tail[i] == runs[i + 1]);
        assert(covers(runs, a));
        lemma_runs_ordered(runs, 0, i + 1);
        assert(!run_covers(runs[0], a));
    }
    if covers(runs, a) && !run_covers(runs[0], a) {
        let i = choose|i: int| 0 <= i < runs.len() && run_covers(runs[i], a);
        assert(i >= 1);
        assert(tail[i - 1] == runs[i]);
        assert(covers(tail, a));
    }
}

/// The lowest start in a well-formed run list is its first run's, so two
/// lists covering the same addresses begin with the same run: equal starts
/// (each list must cover the other's first address) and equal counts (a
/// longer first run would cover an address the other list leaves bare).
proof fn lemma_first_run_eq(r1: Seq<(u16, u16)>, r2: Seq<(u16, u16)>)
    requires
        wf_runs(r1),
        wf_runs(r2),
        forall|a: u16| covers(r1, a) <==> covers(r2, a),
        r1.len() > 0,
        r2.len() > 0,
    ensures
        r1[0] == r2[0],
{
    let s1 = r1[0].0;
    let s2 = r2[0].0;
    assert(run_covers(r1[0], s1));
    assert(covers(r1, s1));
    let j = choose|j: int| 0 <= j < r2.len() && run_covers(r2[j], s1);
    if j > 0 {
        lemma_runs_ordered(r2, 0, j);
    }
    assert(s2 <= s1);
    assert(run_covers(r2[0], s2));
    assert(covers(r2, s2));
    let k = choose|k: int| 0 <= k < r1.len() && run_covers(r1[k], s2);
    if k > 0 {
        lemma_runs_ordered(r1, 0, k);
    }
    assert(s1 <= s2);
    let e1 = r1[0].0 + r1[0].1;
    let e2 = r2[0].0 + r2[0].1;
    if e1 < e2 {
        let a = e1 as u16;
        assert(run_covers(r2[0], a));
        assert(covers(r2, a));
        let i = choose|i: int| 0 <= i < r1.len() && run_covers(r1[i], a);
        assert(i >= 1);
        lemma_runs_ordered(r1, 0, i);
        assert(false);
    }
    if e2 < e1 {
        let a = e2 as u16;
        assert(run_covers(r1[0], a));
        assert(covers(r1, a));
        let i = choose|i: int| 0 <= i < r2.len() && run_covers(r2[i], a);
        assert(i >= 1);
        lemma_runs_ordered(r2, 0, i);
        assert(false);
    }
}

/// Order-independence of range compaction: a well-formed run list is
/// determined by the set of addresses it covers, so any two inputs with the
/// same distinct addresses — any permutation, with or without duplicates —
/// compact to the same runs.
#[verifier::rlimit(100)]
pub proof fn lemma_runs_unique(r1: Seq<(u16, u16)>, r2: Seq<(u16, u16)>)
    requires
        wf_runs(r1),
        wf_runs(r2),
        forall|a: u16| covers(r1, a) <==> covers(r2, a),
    ensures
        r1 == r2,
    decreases r1.len(),
{
    if r1.len() == 0 {
        if r2.len() > 0 {
            let a = r2[0].0;
            assert(run_covers(r2[0], a));
            assert(covers(r2, a));
            assert(!covers(r1, a));
        }
        assert(r1 =~= r2);
    } else if r2.len() == 0 {
        let a = r1[0].0;
        assert(run_covers(r1[0], a));
        assert(covers(r1, a));
        assert(!covers(r2, a));
        assert(r1 =~= r2);
    } else {
        lemma_first_run_eq(r1, r2);
        // The tails cover the same addresses, so they agree by induction.
        assert forall|a: u16|
            covers(r1.drop_first(), a) <==> covers(r2.drop_first(), a) by {
            lemma_covers_drop_first(r1, a);
            lemma_covers_drop_first(r2, a);
        }
        assert(wf_runs(r1.drop_first())) by {
            assert(forall|i: int|
                0 <= i < r1.drop_first().len() ==> r1.drop_first()[i] == r1[i + 1]);
        }
        assert(wf_runs(r2.drop_first())) by {
            assert(forall|i: int|
                0 <= i < r2.drop_first().len() ==> r2.drop_first()[i] == r2[i + 1]);
        }
        lemma_runs_unique(r1.drop_first(), r2.drop_first());
        assert(r1.drop_first() == r2.drop_first());
        assert(r1.drop_first().len() == r1.len() - 1);
        assert(r2.drop_first().len() == r2.len() - 1);
        assert(r1.len() == r2.len());
        assert forall|i: int| 0 <= i < r1.len() implies r1[i] == r2[i] by {
            if i > 0 {
                assert(r1.drop_first()[i - 1] == r1[i]);
                assert(r2.drop_first()[i - 1] == r2[i]);
            }
        }
        assert(r1 =~= r2);
    }
}

/// Pushing one element onto a sequence makes it contain exactly the old
/// elements and the new one.
proof fn lemma_contains_push<A>(s: Seq<A>, x: A, y: A)
    ensures
        s.push(x).contains(y) <==> (s.contains(y) || x == y),
{
    if s.push(x).contains(y) {
        let i = choose|i: int| 0 <= i < s.push(x).len() && s.push(x)[i] == y;
        if i < s.len() {
            assert(s[i] == y);
        }
    }
    if s.contains(y) {
        let i = choose|i: int| 0 <= i < s.len() && s[i] == y;
        assert(s.push(x)[i] == y);
    }
    assert(s.push(x)[s.len() as int] == x);
}

/// Pushing a run onto a run list covers exactly the old addresses plus the
/// new run's addresses.
proof fn lemma_covers_push(runs: Seq<(u16, u16)>, run: (u16, u16))
    ensures
        forall|a: u16| #[trigger]
            covers(runs.push(run), a) <==> (covers(runs, a) || run_covers(run, a)),
{
    assert forall|a: u16| #[trigger]
        covers(runs.push(run), a) <==> (covers(runs, a) || run_covers(run, a)) by {
        if covers(runs.push(run), a) {
            let i = choose|i: int| 0 <= i < runs.push(run).len() && run_covers(runs.push(run)[i], a);
            if i < runs.len() {
                assert(covers(runs, a));
            } else {
                assert(runs.push(run)[runs.len() as int] == run);
            }
        }
        if covers(runs, a) {
            let i = choose|i: int| 0 <= i < runs.len() && run_covers(runs[i], a);
            assert(runs.push(run)[i] == runs[i]);
            assert(covers(runs.push(run), a));
        }
        if run_covers(run, a) {
            assert(runs.push(run)[runs.len() as int] == run);
            assert(covers(runs.push(run), a));
        }
    }
}

} // verus!
