//! Properties that hold across the library's operations.

use vstd::prelude::*;
use crate::index::{push_new, row_spec, scan_callees, scan_strings, scan_traps, FnRowView};
use crate::model::{first_index, lemma_first_index_found, FnSpan, Insn, QvmHeader};
use crate::session::{
    callers_of, const_hits, fn_hits, hint_spec, insn_line, lit_scan, named, placeholder, placeholder_is, resolve_spec,
    xrefs_spec, FnRef, Session,
};
use crate::text::{occurs_in, clipped, hex, lowercase, ascii_lower, ascii_upper, is_ascii_text, dec, digits, digit_char};
use crate::tools::{haystack, strings_text, traps_text, matching_strings, string_matches, matching_fns, page, plan_spec, tool_names, CallArgs, PlanView};

verus! {

proof fn lemma_callers_of(rows: Seq<FnRowView>, c: usize, k: int, f: usize)
    requires
        k <= rows.len() <= usize::MAX,
    ensures
        callers_of(rows, c, k).contains(f) <==> (f < k && rows[f as int].callees.contains(c)),
    decreases k,
{
    if k > 0 {
        lemma_callers_of(rows, c, k - 1, f);
        let prev = callers_of(rows, c, k - 1);
        if rows[k - 1].callees.contains(c) {
            let cur = prev.push((k - 1) as usize);
            assert(cur[prev.len() as int] == (k - 1) as usize);
            if cur.contains(f) && f != k - 1 {
                let j = choose|j: int| 0 <= j < cur.len() && #[trigger] cur[j] == f;
                assert(prev[j] == f);
            }
            if prev.contains(f) {
                let j = choose|j: int| 0 <= j < prev.len() && #[trigger] prev[j] == f;
                assert(cur[j] == f);
            }
        }
    } else {
        assert(callers_of(rows, c, k).len() == 0);
    }
}

proof fn lemma_callers_increasing(rows: Seq<FnRowView>, c: usize, k: int)
    requires
        k <= rows.len() <= usize::MAX,
    ensures
        forall|i: int| 0 <= i < callers_of(rows, c, k).len() ==> #[trigger] callers_of(rows, c, k)[i] < k,
        forall|i: int, j: int| 0 <= i < j < callers_of(rows, c, k).len() ==>
            #[trigger] callers_of(rows, c, k)[i] < #[trigger] callers_of(rows, c, k)[j],
    decreases k,
{
    if k > 0 {
        lemma_callers_increasing(rows, c, k - 1);
        let prev = callers_of(rows, c, k - 1);
        let cur = callers_of(rows, c, k);
        assert forall|i: int| 0 <= i < cur.len() implies #[trigger] cur[i] < k by {
            if i < prev.len() {
                assert(cur[i] == prev[i]);
            }
        }
        assert forall|i: int, j: int| 0 <= i < j < cur.len() implies #[trigger] cur[i] < #[trigger] cur[j] by {
            assert(cur[i] == prev[i]);
            if j < prev.len() {
                assert(cur[j] == prev[j]);
            }
        }
    }
}

/// Each caller list holds function indices in strictly increasing order.
pub proof fn law_callers_increasing(s: &Session, c: usize)
    requires
        s.wf(),
        c < s.fns.len(),
    ensures
        forall|i: int| 0 <= i < s.callers@[c as int]@.len() ==> #[trigger] s.callers@[c as int]@[i] < s.fns.len(),
        forall|i: int, j: int| 0 <= i < j < s.callers@[c as int]@.len() ==>
            #[trigger] s.callers@[c as int]@[i] < #[trigger] s.callers@[c as int]@[j],
{
    lemma_callers_increasing(s.rows(), c, s.fns.len() as int);
}

/// A function lists `f` among its callers exactly when `f` lists it among
/// its callees.
pub proof fn law_callers_mirror_callees(s: &Session, c: usize, f: usize)
    requires
        s.wf(),
        c < s.fns.len(),
        f < s.fns.len(),
    ensures
        s.callers@[c as int]@.contains(f) <==> s.fns@[f as int].callees@.contains(c),
{
    lemma_callers_of(s.rows(), c, s.fns.len() as int, f);
    assert(s.rows()[f as int] == s.fns@[f as int]@);
}

proof fn lemma_push_new_distinct<A>(s: Seq<A>, x: A)
    requires
        s.no_duplicates(),
    ensures
        push_new(s, x).no_duplicates(),
        forall|y: A| push_new(s, x).contains(y) <==> (s.contains(y) || y == x),
{
    if !s.contains(x) {
        let t = s.push(x);
        assert forall|i: int, j: int| 0 <= i < t.len() && 0 <= j < t.len() && i != j implies t[i] != t[j] by {
            if i == s.len() {
                assert(s[j] == t[j]);
            } else if j == s.len() {
                assert(s[i] == t[i]);
            } else {
                assert(s[i] == t[i] && s[j] == t[j]);
            }
        }
        assert forall|y: A| t.contains(y) <==> (s.contains(y) || y == x) by {
            if t.contains(y) && y != x {
                let i = choose|i: int| 0 <= i < t.len() && #[trigger] t[i] == y;
                assert(s[i] == y);
            }
            if s.contains(y) {
                let i = choose|i: int| 0 <= i < s.len() && #[trigger] s[i] == y;
                assert(t[i] == y);
            }
            if y == x {
                assert(t[s.len() as int] == y);
            }
        }
    }
}

proof fn lemma_scans_distinct(ins: Seq<Insn>, spans: Seq<FnSpan>, e: int, n: int, k: int)
    ensures
        scan_strings(ins, e, k).no_duplicates(),
        scan_traps(ins, e, n, k).no_duplicates(),
        scan_callees(ins, spans, e, n, k).no_duplicates(),
    decreases k,
{
    if k > 0 {
        lemma_scans_distinct(ins, spans, e, n, k - 1);
        let i = ins[e + k - 1];
        if i.string is Some {
            lemma_push_new_distinct(scan_strings(ins, e, k - 1), i.string->0@);
        }
        lemma_push_new_distinct(
            scan_traps(ins, e, n, k - 1),
            (crate::index::syscall_num(i.operand->0), crate::index::trap_label(i)),
        );
        let t = i.operand->0 as int;
        lemma_push_new_distinct(
            scan_callees(ins, spans, e, n, k - 1),
            crate::index::entry_index(spans, t)->0 as usize,
        );
    }
}

/// The distinct items among `f(0)`, .., `f(k - 1)`, in order of first
/// occurrence.
pub open spec fn dedup_scan<A>(f: spec_fn(int) -> Option<A>, k: int) -> Seq<A>
    decreases k,
{
    if k <= 0 {
        seq![]
    } else {
        let prev = dedup_scan(f, k - 1);
        match f(k - 1) {
            Some(x) => push_new(prev, x),
            None => prev,
        }
    }
}

/// `x` occurs among `f(0..k)` before every occurrence of `y`.
pub open spec fn occurs_before<A>(f: spec_fn(int) -> Option<A>, k: int, x: A, y: A) -> bool {
    exists|p: int|
        0 <= p < k && #[trigger] f(p) === Some(x) && forall|q: int| 0 <= q < k && #[trigger] f(q) === Some(y) ==> p < q
}

/// A de-duplicating scan lists exactly the items that occur, and lists
/// them in the order in which they first occur.
pub proof fn law_dedup_scan<A>(f: spec_fn(int) -> Option<A>, k: int)
    requires
        0 <= k,
    ensures
        forall|x: A| #[trigger] dedup_scan(f, k).contains(x) <==> exists|p: int| 0 <= p < k && #[trigger] f(p) === Some(x),
        forall|i: int, j: int| 0 <= i < j < dedup_scan(f, k).len() ==> occurs_before(
            f,
            k,
            #[trigger] dedup_scan(f, k)[i],
            #[trigger] dedup_scan(f, k)[j],
        ),
    decreases k,
{
    if k > 0 {
        law_dedup_scan(f, k - 1);
        let prev = dedup_scan(f, k - 1);
        let cur = dedup_scan(f, k);
        let pushed: bool = match f(k - 1) {
            Some(y) => !prev.contains(y),
            None => false,
        };
        if pushed {
            let y = f(k - 1)->0;
            assert(cur == prev.push(y));
            lemma_push_contains(prev, y);
        } else {
            assert(cur == prev);
        }
        assert forall|x: A| #[trigger] cur.contains(x) <==> exists|p: int| 0 <= p < k && #[trigger] f(p) === Some(x) by {
            if cur.contains(x) {
                if prev.contains(x) {
                    let p = choose|p: int| 0 <= p < k - 1 && #[trigger] f(p) === Some(x);
                    assert(0 <= p < k && f(p) === Some(x));
                } else {
                    assert(f(k - 1) === Some(x));
                }
            }
            if exists|p: int| 0 <= p < k && #[trigger] f(p) === Some(x) {
                let p = choose|p: int| 0 <= p < k && #[trigger] f(p) === Some(x);
                if p < k - 1 {
                    assert(prev.contains(x));
                } else {
                    assert(f(k - 1) === Some(x));
                }
            }
        }
        assert forall|i: int, j: int| 0 <= i < j < cur.len() implies occurs_before(
            f,
            k,
            #[trigger] cur[i],
            #[trigger] cur[j],
        ) by {
            assert(cur[i] == prev[i]);
            if j < prev.len() {
                assert(cur[j] == prev[j]);
                assert(occurs_before(f, k - 1, prev[i], prev[j]));
                let p2 = choose|p2: int| 0 <= p2 < k - 1 && #[trigger] f(p2) === Some(prev[i]) && forall|q: int|
                    0 <= q < k - 1 && #[trigger] f(q) === Some(prev[j]) ==> p2 < q;
                assert forall|q: int| 0 <= q < k && #[trigger] f(q) === Some(cur[j]) implies p2 < q by {
                    if q == k - 1 {
                        assert(p2 < k - 1);
                    }
                }
                assert(0 <= p2 < k && f(p2) === Some(cur[i]));
            } else {
                assert(prev.contains(prev[i]));
                let p = choose|p: int| 0 <= p < k - 1 && #[trigger] f(p) === Some(prev[i]);
                assert(pushed);
                assert(f(k - 1) === Some(cur[j]) && !prev.contains(cur[j]));
                assert forall|q: int| 0 <= q < k && #[trigger] f(q) === Some(cur[j]) implies p < q by {
                    if q < k - 1 {
                        assert(prev.contains(cur[j]));
                    }
                }
                assert(0 <= p < k && f(p) === Some(cur[i]));
            }
        }
    } else {
        assert(dedup_scan(f, k).len() == 0);
    }
}

proof fn lemma_push_contains<A>(s: Seq<A>, y: A)
    ensures
        forall|x: A| #[trigger] s.push(y).contains(x) <==> (s.contains(x) || x == y),
{
    let t = s.push(y);
    assert forall|x: A| #[trigger] t.contains(x) <==> (s.contains(x) || x == y) by {
        if t.contains(x) && x != y {
            let i = choose|i: int| 0 <= i < t.len() && #[trigger] t[i] == x;
            assert(s[i] == x);
        }
        if s.contains(x) {
            let i = choose|i: int| 0 <= i < s.len() && #[trigger] s[i] == x;
            assert(t[i] == x);
        }
        if x == y {
            assert(t[s.len() as int] == x);
        }
    }
}

proof fn lemma_push_new_list<A>(s: Seq<A>, o: Option<A>)
    ensures
        match o {
            Some(x) => if s.contains(x) { push_new(s, x) == s } else { push_new(s, x) == s.push(x) },
            None => true,
        },
{
}

/// The string literal referenced at position `p` of a scan from `e`.
pub open spec fn string_item(ins: Seq<Insn>, e: int) -> spec_fn(int) -> Option<Seq<char>> {
    |p: int| {
        let i = ins[e + p];
        if i.op == crate::model::Op::Const && i.operand is Some && i.string is Some {
            Some(i.string->0@)
        } else {
            None
        }
    }
}

/// The syscall called at position `p` of a scan from `e` ending at `n`.
pub open spec fn trap_item(ins: Seq<Insn>, e: int, n: int) -> spec_fn(int) -> Option<(u32, Seq<char>)> {
    |p: int|
        if crate::index::call_site(ins, n, e + p) && ins[e + p].operand->0 < 0 {
            Some((crate::index::syscall_num(ins[e + p].operand->0), crate::index::trap_label(ins[e + p])))
        } else {
            None
        }
}

/// The function called at position `p` of a scan from `e` ending at `n`.
pub open spec fn callee_item(ins: Seq<Insn>, spans: Seq<FnSpan>, e: int, n: int) -> spec_fn(int) -> Option<usize> {
    |p: int|
        if crate::index::call_site(ins, n, e + p) && ins[e + p].operand->0 >= 0 && crate::index::entry_index(
            spans,
            ins[e + p].operand->0 as int,
        ) is Some {
            Some(crate::index::entry_index(spans, ins[e + p].operand->0 as int)->0 as usize)
        } else {
            None
        }
}

proof fn lemma_scans_are_dedup(ins: Seq<Insn>, spans: Seq<FnSpan>, e: int, n: int, k: int)
    ensures
        scan_strings(ins, e, k) == dedup_scan(string_item(ins, e), k),
        scan_traps(ins, e, n, k) == dedup_scan(trap_item(ins, e, n), k),
        scan_callees(ins, spans, e, n, k) == dedup_scan(callee_item(ins, spans, e, n), k),
    decreases k,
{
    if k > 0 {
        lemma_scans_are_dedup(ins, spans, e, n, k - 1);
    }
}

/// The syscalls, string literals and callees recorded for a function are
/// its distinct references in order of first occurrence in its
/// instruction range (see [`law_dedup_scan`]).
pub proof fn law_summaries_in_first_occurrence_order(ins: Seq<Insn>, spans: Seq<FnSpan>, idx: int)
    ensures
        row_spec(ins, spans, idx).strings == dedup_scan(
            string_item(ins, spans[idx].entry as int),
            spans[idx].end - spans[idx].entry,
        ),
        row_spec(ins, spans, idx).traps == dedup_scan(
            trap_item(ins, spans[idx].entry as int, spans[idx].end as int),
            spans[idx].end - spans[idx].entry,
        ),
        row_spec(ins, spans, idx).callees == dedup_scan(
            callee_item(ins, spans, spans[idx].entry as int, spans[idx].end as int),
            spans[idx].end - spans[idx].entry,
        ),
{
    let e = spans[idx].entry as int;
    let n = spans[idx].end as int;
    lemma_scans_are_dedup(ins, spans, e, n, n - e);
}

/// The syscalls, string literals and callees recorded for a function are
/// each listed once.
pub proof fn law_summaries_are_distinct(ins: Seq<Insn>, spans: Seq<FnSpan>, idx: int)
    ensures
        row_spec(ins, spans, idx).traps.no_duplicates(),
        row_spec(ins, spans, idx).strings.no_duplicates(),
        row_spec(ins, spans, idx).callees.no_duplicates(),
{
    let e = spans[idx].entry as int;
    let n = spans[idx].end as int;
    lemma_scans_distinct(ins, spans, e, n, n - e);
}

proof fn lemma_digits_nonempty(n: nat, b: nat)
    ensures
        digits(n, b).len() >= 1,
        b >= 2 && n >= b ==> digits(n, b).len() >= 2,
    decreases n,
{
    if b >= 2 && n >= b {
        assert(n / b < n) by (nonlinear_arith)
            requires
                b >= 2,
                n >= b,
        ;
        lemma_digits_nonempty(n / b, b);
    }
}

/// Decimal renderings of distinct naturals differ.
pub proof fn lemma_digits_injective(a: nat, c: nat)
    requires
        digits(a, 10) == digits(c, 10),
    ensures
        a == c,
    decreases a,
{
    lemma_digits_nonempty(a, 10);
    lemma_digits_nonempty(c, 10);
    if a >= 10 && c >= 10 {
        let da = digits(a / 10, 10);
        let dc = digits(c / 10, 10);
        assert(digits(a, 10) == da.push(digit_char(a % 10)));
        assert(digits(c, 10) == dc.push(digit_char(c % 10)));
        assert(da =~= digits(a, 10).drop_last());
        assert(dc =~= digits(c, 10).drop_last());
        assert(digits(a, 10).last() == digit_char(a % 10));
        assert(a / 10 < a);
        lemma_digits_injective(a / 10, c / 10);
        assert(a == 10 * (a / 10) + a % 10);
        assert(c == 10 * (c / 10) + c % 10);
    } else if a < 10 && c < 10 {
        assert(digits(a, 10)[0] == digit_char(a));
        assert(digits(c, 10)[0] == digit_char(c));
    }
}

proof fn lemma_placeholder_injective(i: int, j: int)
    requires
        0 <= i,
        0 <= j,
        placeholder(i) == placeholder(j),
    ensures
        i == j,
{
    let p = "fn_"@;
    assert(dec(i) =~= placeholder(i).subrange(p.len() as int, placeholder(i).len() as int));
    assert(dec(j) =~= placeholder(j).subrange(p.len() as int, placeholder(j).len() as int));
    lemma_digits_injective(i as nat, j as nat);
}

/// A function is found by its index and, unless a function carries that
/// name as its map name, by its `fn_<idx>` placeholder.
pub proof fn law_index_and_placeholder_agree(rows: Seq<FnRowView>, i: usize, name: String)
    requires
        i < rows.len(),
        name@ == placeholder(i as int),
        forall|j: int| 0 <= j < rows.len() ==> rows[j].name != Some(placeholder(i as int)),
    ensures
        resolve_spec(rows, FnRef::Index(i as u64)) == Ok::<usize, Seq<char>>(i),
        resolve_spec(rows, FnRef::Name(name)) == Ok::<usize, Seq<char>>(i),
{
    let n = rows.len() as int;
    let p = named(rows, name@);
    assert(forall|j: int| 0 <= j < n ==> !#[trigger] p(j));
    assert(first_index(p, n) == None::<int>);
    let q = placeholder_is(name@);
    assert forall|k: int| 0 <= k < i implies !#[trigger] q(k) by {
        if q(k) {
            lemma_placeholder_injective(k, i as int);
        }
    }
    lemma_first_index_found(q, n, i as int);
}

/// A map name designates the first function that carries it.
pub proof fn law_map_name_first_wins(rows: Seq<FnRowView>, i: usize, name: String)
    requires
        i < rows.len(),
        rows[i as int].name == Some(name@),
        forall|j: int| 0 <= j < i ==> rows[j].name != Some(name@),
    ensures
        resolve_spec(rows, FnRef::Name(name)) == Ok::<usize, Seq<char>>(i),
{
    let p = named(rows, name@);
    lemma_first_index_found(p, rows.len() as int, i as int);
}

/// Consecutive pages put together give the page that spans both, and a
/// page holds at most `limit` rows.
pub proof fn law_pages_concatenate<A>(s: Seq<A>, offset: int, l1: int, l2: int)
    requires
        0 <= offset,
        0 <= l1,
        0 <= l2,
    ensures
        page(s, offset, l1) + page(s, offset + l1, l2) == page(s, offset, l1 + l2),
        page(s, offset, l1).len() <= l1,
{
    assert(page(s, offset, l1) + page(s, offset + l1, l2) =~= page(s, offset, l1 + l2));
}

/// The literal-segment table lists strings in increasing address order,
/// each inside the literal segment and each as stored at its address.
pub proof fn law_literal_table_ordered(probe: Seq<Option<Seq<char>>>, base: int, off: int)
    requires
        i32::MIN <= base,
        0 <= off,
        base + probe.len() <= i32::MAX,
    ensures
        forall|i: int| 0 <= i < lit_scan(probe, base, off).len() ==> {
            let e = #[trigger] lit_scan(probe, base, off)[i];
            &&& base + off <= e.0 < base + probe.len()
            &&& probe[e.0 - base] == Some(e.1)
        },
        forall|i: int, j: int| 0 <= i < j < lit_scan(probe, base, off).len() ==>
            (#[trigger] lit_scan(probe, base, off)[i]).0 < (#[trigger] lit_scan(probe, base, off)[j]).0,
    decreases probe.len() - off,
{
    if off < probe.len() {
        match probe[off] {
            Some(s) => {
                let next = off + crate::session::byte_len(s) + 1;
                let head = seq![((base + off) as i32, s)];
                let tail = if next < probe.len() { lit_scan(probe, base, next) } else { seq![] };
                if next < probe.len() {
                    law_literal_table_ordered(probe, base, next);
                }
                let r = lit_scan(probe, base, off);
                assert(r == head + tail);
                assert forall|i: int| 0 <= i < r.len() implies {
                    let e = #[trigger] r[i];
                    &&& base + off <= e.0 < base + probe.len()
                    &&& probe[e.0 - base] == Some(e.1)
                } by {
                    if i > 0 {
                        assert(r[i] == tail[i - 1]);
                    }
                }
                assert forall|i: int, j: int| 0 <= i < j < r.len() implies (#[trigger] r[i]).0 < (#[trigger] r[j]).0 by {
                    assert(r[j] == tail[j - 1]);
                    if i > 0 {
                        assert(r[i] == tail[i - 1]);
                    }
                }
            },
            None => {
                law_literal_table_ordered(probe, base, off + 1);
            },
        }
    }
}

proof fn lemma_xrefs(rows: Seq<FnRowView>, ins: Seq<Insn>, addr: i32, k: int)
    requires
        k <= rows.len(),
        forall|i: int| 0 <= i < rows.len() ==> (#[trigger] rows[i]).idx == i,
        forall|i: int| 0 <= i < rows.len() ==> fn_hits(ins, #[trigger] rows[i], addr) <= u32::MAX,
    ensures
        forall|j: int| 0 <= j < xrefs_spec(rows, ins, addr, k).len() ==> {
            let e = #[trigger] xrefs_spec(rows, ins, addr, k)[j];
            &&& e.0 < k
            &&& e.1 > 0
            &&& e.1 == fn_hits(ins, rows[e.0 as int], addr)
        },
        forall|f: int| 0 <= f < k && fn_hits(ins, #[trigger] rows[f], addr) > 0 ==> exists|j: int|
            0 <= j < xrefs_spec(rows, ins, addr, k).len() && (#[trigger] xrefs_spec(rows, ins, addr, k)[j]).0 == f,
        forall|a: int, b: int| 0 <= a < b < xrefs_spec(rows, ins, addr, k).len() ==>
            (#[trigger] xrefs_spec(rows, ins, addr, k)[a]).0 < (#[trigger] xrefs_spec(rows, ins, addr, k)[b]).0,
    decreases k,
{
    if k > 0 {
        lemma_xrefs(rows, ins, addr, k - 1);
        let prev = xrefs_spec(rows, ins, addr, k - 1);
        let cur = xrefs_spec(rows, ins, addr, k);
        assert(rows[k - 1].idx == k - 1);
        assert forall|f: int| 0 <= f < k && fn_hits(ins, #[trigger] rows[f], addr) > 0 implies exists|j: int|
            0 <= j < cur.len() && (#[trigger] cur[j]).0 == f by {
            if f == k - 1 {
                assert(cur[prev.len() as int].0 == f);
            } else {
                let j = choose|j: int| 0 <= j < prev.len() && (#[trigger] prev[j]).0 == f;
                assert(cur[j] == prev[j]);
            }
        }
        assert forall|j: int| 0 <= j < cur.len() implies {
            let e = #[trigger] cur[j];
            &&& e.0 < k
            &&& e.1 > 0
            &&& e.1 == fn_hits(ins, rows[e.0 as int], addr)
        } by {
            if j < prev.len() {
                assert(cur[j] == prev[j]);
            }
        }
        assert forall|a: int, b: int| 0 <= a < b < cur.len() implies (#[trigger] cur[a]).0 < (#[trigger] cur[b]).0 by {
            assert(cur[a] == prev[a]);
            if b < prev.len() {
                assert(cur[b] == prev[b]);
            }
        }
    }
}

/// `xrefs_to` lists exactly the functions holding a `CONST addr`, each with
/// its number of such instructions.
pub proof fn law_xrefs_exact(s: &Session, addr: i32, f: usize)
    requires
        s.wf(),
        f < s.fns.len(),
    ensures
        (exists|j: int| 0 <= j < xrefs_spec(s.rows(), s.insns@, addr, s.fns.len() as int).len()
            && (#[trigger] xrefs_spec(s.rows(), s.insns@, addr, s.fns.len() as int)[j]).0 == f)
            <==> fn_hits(s.insns@, s.rows()[f as int], addr) > 0,
        forall|j: int| 0 <= j < xrefs_spec(s.rows(), s.insns@, addr, s.fns.len() as int).len() ==> {
            let e = #[trigger] xrefs_spec(s.rows(), s.insns@, addr, s.fns.len() as int)[j];
            e.1 > 0 && e.1 == fn_hits(s.insns@, s.rows()[e.0 as int], addr)
        },
{
    let rows = s.rows();
    assert forall|i: int| 0 <= i < rows.len() implies fn_hits(s.insns@, #[trigger] rows[i], addr) <= u32::MAX by {
        assert(rows[i] == s.fns@[i]@);
        crate::session::lemma_hits_bounded(s.insns@, rows[i].entry as int, rows[i].end - rows[i].entry, addr);
    }
    assert forall|i: int| 0 <= i < rows.len() implies (#[trigger] rows[i]).idx == i by {
        assert(rows[i] == s.fns@[i]@);
    }
    lemma_xrefs(rows, s.insns@, addr, rows.len() as int);
}

/// Address 0 is `NULL`, and exactly the addresses outside data, literals
/// and BSS get no classification.
pub proof fn law_hint_outside_memory(h: QvmHeader, addr: i32, pr: crate::session::AddrProbe)
    ensures
        addr == 0 ==> hint_spec(h, addr, pr) == Some("NULL"@),
        addr != 0 ==> (hint_spec(h, addr, pr) is None <==> (addr < 0 || addr >= h.data_length
            + h.lit_length + h.bss_length)),
{
}

/// Without an open module every tool but `open_qvm` fails with the same
/// message.
pub proof fn law_tools_need_session(name: Seq<char>, args: CallArgs)
    requires
        name != "open_qvm"@,
    ensures
        plan_spec(None, name, args) == PlanView::Failed("no QVM loaded - call open_qvm first"@),
{
}

/// With a module open, a `tools/call` is answered "unknown tool" exactly
/// when the tool is not one of those `tools/list` describes.
pub proof fn law_listed_tools_are_dispatched(rows: Seq<FnRowView>, name: Seq<char>, args: CallArgs)
    ensures
        plan_spec(Some(rows), name, args) == PlanView::Rejected("unknown tool: "@ + name)
            <==> !tool_names().contains(name),
{
    reveal_strlit("open_qvm");
    reveal_strlit("session_info");
    reveal_strlit("list_functions");
    reveal_strlit("get_function");
    reveal_strlit("decompile_function");
    reveal_strlit("disassemble_function");
    reveal_strlit("get_strings");
    reveal_strlit("xrefs_to");
    reveal_strlit("mem_hint");
    reveal_strlit("unknown tool: ");
    reveal_strlit("open_qvm: missing string `path`");
    reveal_strlit("xrefs_to: missing integer `address`");
    reveal_strlit("mem_hint: missing integer `address`");
    reveal_strlit("missing argument `fn`");
    let t = tool_names();
    let u = "unknown tool: "@ + name;
    assert(u[0] == 'u');
    if t.contains(name) {
        let i = choose|i: int| 0 <= i < t.len() && t[i] == name;
        assert(name == t[i]);
        let r = plan_spec(Some(rows), name, args);
        if r is Rejected {
            let m = r->Rejected_0;
            assert(m[0] != 'u');
        }
    } else {
        assert(forall|i: int| 0 <= i < t.len() ==> t[i] != name);
        assert(t[0] != name);
        assert(t[1] != name);
        assert(t[2] != name);
        assert(t[3] != name);
        assert(t[4] != name);
        assert(t[5] != name);
        assert(t[6] != name);
        assert(t[7] != name);
        assert(t[8] != name);
    }
}

/// A function filter that differs from another in the case of ASCII
/// letters only selects the same functions: `list_functions` matches an
/// ASCII filter through its ASCII lowercase form, which both share.
pub proof fn law_filter_ignores_ascii_case(rows: Seq<FnRowView>, f: Seq<char>, k: int)
    requires
        is_ascii_text(f),
    ensures
        is_ascii_text(ascii_upper(f)),
        ascii_lower(ascii_upper(f)) == ascii_lower(f),
        matching_fns(rows, ascii_lower(ascii_upper(f)), k) == matching_fns(rows, ascii_lower(f), k),
{
    assert forall|i: int| 0 <= i < ascii_upper(f).len() implies (#[trigger] ascii_upper(f)[i] as u32) < 128 by {
        assert((f[i] as u32) < 128);
    }
    assert(ascii_lower(ascii_upper(f)) =~= ascii_lower(f)) by {
        assert forall|i: int| 0 <= i < f.len() implies #[trigger] ascii_lower(ascii_upper(f))[i] == ascii_lower(f)[i] by {
            let c = f[i];
            assert((c as u32) < 128);
        }
    }
}

/// The instruction is a `CONST addr`.
pub open spec fn refs_addr(addr: i32) -> spec_fn(Insn) -> bool {
    |i: Insn| i.op == crate::model::Op::Const && i.operand == Some(addr)
}

/// The hit count of a scan is the number of `CONST addr` instructions in
/// the scanned range.
proof fn lemma_hits_are_const_count(ins: Seq<Insn>, entry: int, k: int, addr: i32)
    requires
        0 <= entry,
        0 <= k,
        entry + k <= ins.len(),
    ensures
        const_hits(ins, entry, k, addr) == ins.subrange(entry, entry + k).filter(refs_addr(addr)).len(),
    decreases k,
{
    reveal(Seq::filter);
    if k == 0 {
        assert(ins.subrange(entry, entry).len() == 0);
    } else {
        lemma_hits_are_const_count(ins, entry, k - 1, addr);
        let s0 = ins.subrange(entry, entry + k - 1);
        assert(ins.subrange(entry, entry + k) =~= s0.push(ins[entry + k - 1]));
        s0.lemma_filter_push(ins[entry + k - 1], refs_addr(addr));
    }
}

/// `xrefs_to(addr)` lists a function exactly when its instruction range
/// holds a `CONST addr`, and reports for it the number of such
/// instructions.
pub proof fn law_xrefs_count_const_refs(s: &Session, addr: i32, f: usize)
    requires
        s.wf(),
        f < s.fns.len(),
    ensures
        (exists|j: int| 0 <= j < xrefs_spec(s.rows(), s.insns@, addr, s.fns.len() as int).len()
            && (#[trigger] xrefs_spec(s.rows(), s.insns@, addr, s.fns.len() as int)[j]).0 == f)
            <==> s.insns@.subrange(s.fns@[f as int].entry as int, s.fns@[f as int].end as int).filter(refs_addr(addr)).len() > 0,
        forall|j: int| 0 <= j < xrefs_spec(s.rows(), s.insns@, addr, s.fns.len() as int).len()
            && (#[trigger] xrefs_spec(s.rows(), s.insns@, addr, s.fns.len() as int)[j]).0 == f
            ==> xrefs_spec(s.rows(), s.insns@, addr, s.fns.len() as int)[j].1 as int
                == s.insns@.subrange(s.fns@[f as int].entry as int, s.fns@[f as int].end as int).filter(refs_addr(addr)).len(),
        forall|a: int, b: int| 0 <= a < b < xrefs_spec(s.rows(), s.insns@, addr, s.fns.len() as int).len() ==>
            (#[trigger] xrefs_spec(s.rows(), s.insns@, addr, s.fns.len() as int)[a]).0
                < (#[trigger] xrefs_spec(s.rows(), s.insns@, addr, s.fns.len() as int)[b]).0,
{
    law_xrefs_exact(s, addr, f);
    let rows = s.rows();
    assert forall|i: int| 0 <= i < rows.len() implies fn_hits(s.insns@, #[trigger] rows[i], addr) <= u32::MAX by {
        assert(rows[i] == s.fns@[i]@);
        crate::session::lemma_hits_bounded(s.insns@, rows[i].entry as int, rows[i].end - rows[i].entry, addr);
    }
    assert forall|i: int| 0 <= i < rows.len() implies (#[trigger] rows[i]).idx == i by {
        assert(rows[i] == s.fns@[i]@);
    }
    lemma_xrefs(rows, s.insns@, addr, rows.len() as int);
    let r = s.fns@[f as int];
    assert(s.rows()[f as int] == r@);
    lemma_hits_are_const_count(s.insns@, r.entry as int, r.end - r.entry, addr);
}

proof fn lemma_matching_strings(lits: Seq<(i32, Seq<char>)>, filter: Seq<char>, k: int, i: usize)
    requires
        k <= lits.len() <= usize::MAX,
    ensures
        matching_strings(lits, filter, k).contains(i) <==> (i < k && string_matches(lits[i as int].1, filter)),
        forall|a: int, b: int| 0 <= a < b < matching_strings(lits, filter, k).len() ==>
            #[trigger] matching_strings(lits, filter, k)[a] < #[trigger] matching_strings(lits, filter, k)[b],
        forall|a: int| 0 <= a < matching_strings(lits, filter, k).len() ==> #[trigger] matching_strings(lits, filter, k)[a] < k,
    decreases k,
{
    if k > 0 {
        lemma_matching_strings(lits, filter, k - 1, i);
        let prev = matching_strings(lits, filter, k - 1);
        let cur = matching_strings(lits, filter, k);
        if string_matches(lits[k - 1].1, filter) {
            lemma_push_contains(prev, (k - 1) as usize);
            assert(cur == prev.push((k - 1) as usize));
            assert forall|a: int, b: int| 0 <= a < b < cur.len() implies #[trigger] cur[a] < #[trigger] cur[b] by {
                assert(cur[a] == prev[a]);
                if b < prev.len() {
                    assert(cur[b] == prev[b]);
                }
            }
            assert forall|a: int| 0 <= a < cur.len() implies #[trigger] cur[a] < k by {
                if a < prev.len() {
                    assert(cur[a] == prev[a]);
                }
            }
        }
    } else {
        assert(matching_strings(lits, filter, k).len() == 0);
    }
}

/// `get_strings` keeps, in address order, exactly the literal strings in
/// which the lowercased filter occurs as a contiguous run of characters of
/// the lowercased string (all of them for an empty filter).
pub proof fn law_string_filter_is_substring_search(lits: Seq<(i32, Seq<char>)>, filter: Seq<char>, i: usize)
    requires
        lits.len() <= usize::MAX,
    ensures
        matching_strings(lits, filter, lits.len() as int).contains(i) <==> (i < lits.len() && (filter.len() == 0
            || exists|p: int| 0 <= p && p + lowercase(filter).len() <= lowercase(lits[i as int].1).len()
                && #[trigger] lowercase(lits[i as int].1).subrange(p, p + lowercase(filter).len()) == lowercase(filter))),
        forall|a: int, b: int| 0 <= a < b < matching_strings(lits, filter, lits.len() as int).len() ==>
            #[trigger] matching_strings(lits, filter, lits.len() as int)[a]
                < #[trigger] matching_strings(lits, filter, lits.len() as int)[b],
{
    lemma_matching_strings(lits, filter, lits.len() as int, i);
}

/// A listing line carries a call or syscall annotation only when a `CALL`
/// follows: otherwise it is the instruction's text, plus the string at the
/// operand of a `CONST`.
pub proof fn law_call_annotation_needs_call(ins: Seq<Insn>, p: int)
    requires
        0 <= p < ins.len(),
        !(p + 1 < ins.len() && ins[p + 1].op == crate::model::Op::Call),
    ensures
        insn_line(ins, p) == ins[p].text@ + if ins[p].op == crate::model::Op::Const && ins[p].operand is Some
            && ins[p].string is Some {
            "  ; \""@ + clipped(ins[p].string->0@, 60) + "\""@
        } else {
            seq![]
        },
{
    assert(insn_line(ins, p) =~= ins[p].text@ + if ins[p].op == crate::model::Op::Const && ins[p].operand is Some
        && ins[p].string is Some {
        "  ; \""@ + clipped(ins[p].string->0@, 60) + "\""@
    } else {
        seq![]
    });
}

/// Every listing line starts with the instruction's own text.
pub proof fn law_listing_line_starts_with_text(ins: Seq<Insn>, p: int)
    requires
        0 <= p < ins.len(),
    ensures
        ins[p].text@.is_prefix_of(insn_line(ins, p)),
{
    let t = ins[p].text@;
    let l = insn_line(ins, p);
    assert(l.subrange(0, t.len() as int) =~= t);
}

/// A literal-segment address is described by its float value when four
/// bytes fit there, and by the string stored there, each independently of
/// the other; a data address by its string, else its data word (for
/// addresses inside memory).
pub proof fn law_hint_parts(h: QvmHeader, addr: i32, pr: crate::session::AddrProbe)
    requires
        0 < addr < h.data_length + h.lit_length + h.bss_length,
    ensures
        h.data_length <= addr < h.data_length + h.lit_length ==> hint_spec(h, addr, pr) == Some(
            "[0x"@ + hex(addr as nat) + "]"@ + " lit"@ + match pr.float_text {
                Some(f) => " = float "@ + f@,
                None => seq![],
            } + match pr.string {
                Some(s) => "; string "@ + ("\""@ + clipped(s@, 60) + "\""@),
                None => seq![],
            },
        ),
        addr < h.data_length ==> hint_spec(h, addr, pr) == Some(
            "[0x"@ + hex(addr as nat) + "]"@ + " data"@ + match pr.string {
                Some(s) => " = "@ + ("\""@ + clipped(s@, 60) + "\""@),
                None => match pr.word {
                    Some(v) => " = "@ + dec(v as int) + " (0x"@ + hex((v as u32) as nat) + ")"@,
                    None => seq![],
                },
            },
        ),
{
    if h.data_length <= addr < h.data_length + h.lit_length {
        assert(hint_spec(h, addr, pr)->0 =~= "[0x"@ + hex(addr as nat) + "]"@ + " lit"@ + match pr.float_text {
            Some(f) => " = float "@ + f@,
            None => seq![],
        } + match pr.string {
            Some(s) => "; string "@ + ("\""@ + clipped(s@, 60) + "\""@),
            None => seq![],
        });
    }
    if addr < h.data_length {
        assert(hint_spec(h, addr, pr)->0 =~= "[0x"@ + hex(addr as nat) + "]"@ + " data"@ + match pr.string {
            Some(s) => " = "@ + ("\""@ + clipped(s@, 60) + "\""@),
            None => match pr.word {
                Some(v) => " = "@ + dec(v as int) + " (0x"@ + hex((v as u32) as nat) + ")"@,
                None => seq![],
            },
        });
    }
}

proof fn lemma_occurs_self(x: Seq<char>)
    ensures
        occurs_in(x, x),
{
    let i: int = 0;
    assert(x.subrange(i, i + x.len()) =~= x);
    assert(0 <= i && i + x.len() <= x.len() && x.subrange(i, i + x.len()) == x);
}

proof fn lemma_occurs_left(x: Seq<char>, a: Seq<char>, b: Seq<char>)
    requires
        occurs_in(x, a),
    ensures
        occurs_in(x, a + b),
{
    let i = choose|i: int| 0 <= i && i + x.len() <= a.len() && #[trigger] a.subrange(i, i + x.len()) == x;
    assert((a + b).subrange(i, i + x.len()) =~= a.subrange(i, i + x.len()));
}

proof fn lemma_occurs_right(x: Seq<char>, a: Seq<char>, b: Seq<char>)
    requires
        occurs_in(x, b),
    ensures
        occurs_in(x, a + b),
{
    let i = choose|i: int| 0 <= i && i + x.len() <= b.len() && #[trigger] b.subrange(i, i + x.len()) == x;
    let j = a.len() + i;
    assert((a + b).subrange(j, j + x.len()) =~= b.subrange(i, i + x.len()));
}

proof fn lemma_traps_text_covers(t: Seq<(u32, Seq<char>)>, k: int, j: int)
    requires
        0 <= j < k <= t.len(),
    ensures
        occurs_in(t[j].1, traps_text(t, k)),
        occurs_in(dec(t[j].0 as int), traps_text(t, k)),
    decreases k,
{
    let prev = traps_text(t, k - 1);
    let e = t[k - 1];
    assert(traps_text(t, k) == prev + e.1 + " "@ + dec(e.0 as int) + " "@);
    if j < k - 1 {
        lemma_traps_text_covers(t, k - 1, j);
        lemma_occurs_left(t[j].1, prev, e.1);
        lemma_occurs_left(t[j].1, prev + e.1, " "@);
        lemma_occurs_left(t[j].1, prev + e.1 + " "@, dec(e.0 as int));
        lemma_occurs_left(t[j].1, prev + e.1 + " "@ + dec(e.0 as int), " "@);
        lemma_occurs_left(dec(t[j].0 as int), prev, e.1);
        lemma_occurs_left(dec(t[j].0 as int), prev + e.1, " "@);
        lemma_occurs_left(dec(t[j].0 as int), prev + e.1 + " "@, dec(e.0 as int));
        lemma_occurs_left(dec(t[j].0 as int), prev + e.1 + " "@ + dec(e.0 as int), " "@);
    } else {
        lemma_occurs_self(e.1);
        lemma_occurs_right(e.1, prev, e.1);
        lemma_occurs_left(e.1, prev + e.1, " "@);
        lemma_occurs_left(e.1, prev + e.1 + " "@, dec(e.0 as int));
        lemma_occurs_left(e.1, prev + e.1 + " "@ + dec(e.0 as int), " "@);
        lemma_occurs_self(dec(e.0 as int));
        lemma_occurs_right(dec(e.0 as int), prev + e.1 + " "@, dec(e.0 as int));
        lemma_occurs_left(dec(e.0 as int), prev + e.1 + " "@ + dec(e.0 as int), " "@);
    }
}

proof fn lemma_strings_text_covers(v: Seq<Seq<char>>, k: int, j: int)
    requires
        0 <= j < k <= v.len(),
    ensures
        occurs_in(v[j], strings_text(v, k)),
    decreases k,
{
    let prev = strings_text(v, k - 1);
    assert(strings_text(v, k) == prev + v[k - 1] + " "@);
    if j < k - 1 {
        lemma_strings_text_covers(v, k - 1, j);
        lemma_occurs_left(v[j], prev, v[k - 1]);
        lemma_occurs_left(v[j], prev + v[k - 1], " "@);
    } else {
        lemma_occurs_self(v[j]);
        lemma_occurs_right(v[j], prev, v[j]);
        lemma_occurs_left(v[j], prev + v[j], " "@);
    }
}

/// The text a function filter searches holds, each as a contiguous run,
/// the function's map name, its `fn_<idx>` placeholder, every one of its
/// trap names and syscall numbers and every one of its referenced strings.
pub proof fn law_haystack_covers(r: FnRowView)
    ensures
        r.name matches Some(n) ==> occurs_in(n, haystack(r)),
        occurs_in(placeholder(r.idx as int), haystack(r)),
        forall|j: int| 0 <= j < r.traps.len() ==> occurs_in(#[trigger] r.traps[j].1, haystack(r)),
        forall|j: int| 0 <= j < r.traps.len() ==> occurs_in(dec(#[trigger] r.traps[j].0 as int), haystack(r)),
        forall|j: int| 0 <= j < r.strings.len() ==> occurs_in(#[trigger] r.strings[j], haystack(r)),
{
    let d = crate::tools::display_names(r);
    let a = d + " fn"@ + dec(r.idx as int) + " "@ + dec(r.entry as int) + " "@;
    let tt = traps_text(r.traps, r.traps.len() as int);
    let st = strings_text(r.strings, r.strings.len() as int);
    assert(haystack(r) == a + tt + st);
    let ph = placeholder(r.idx as int);
    lemma_occurs_self(ph);
    match r.name {
        Some(n) => {
            lemma_occurs_self(n);
            lemma_occurs_left(n, n, " "@);
            lemma_occurs_left(n, n + " "@, ph);
            lemma_occurs_right(ph, n + " "@, ph);
        },
        None => {},
    }
    assert(occurs_in(ph, d));
    assert(r.name matches Some(n) ==> occurs_in(n, d));
    let d1 = d + " fn"@;
    let d2 = d1 + dec(r.idx as int);
    let d3 = d2 + " "@;
    let d4 = d3 + dec(r.entry as int);
    assert(a == d4 + " "@);
    lemma_occurs_left(ph, d, " fn"@);
    lemma_occurs_left(ph, d1, dec(r.idx as int));
    lemma_occurs_left(ph, d2, " "@);
    lemma_occurs_left(ph, d3, dec(r.entry as int));
    lemma_occurs_left(ph, d4, " "@);
    lemma_occurs_left(ph, a, tt);
    lemma_occurs_left(ph, a + tt, st);
    if r.name is Some {
        let n = r.name->0;
        lemma_occurs_left(n, d, " fn"@);
        lemma_occurs_left(n, d1, dec(r.idx as int));
        lemma_occurs_left(n, d2, " "@);
        lemma_occurs_left(n, d3, dec(r.entry as int));
        lemma_occurs_left(n, d4, " "@);
        lemma_occurs_left(n, a, tt);
        lemma_occurs_left(n, a + tt, st);
    }
    assert forall|j: int| 0 <= j < r.traps.len() implies occurs_in(#[trigger] r.traps[j].1, haystack(r)) by {
        lemma_traps_text_covers(r.traps, r.traps.len() as int, j);
        lemma_occurs_right(r.traps[j].1, a, tt);
        lemma_occurs_left(r.traps[j].1, a + tt, st);
    }
    assert forall|j: int| 0 <= j < r.traps.len() implies occurs_in(dec(#[trigger] r.traps[j].0 as int), haystack(r)) by {
        lemma_traps_text_covers(r.traps, r.traps.len() as int, j);
        lemma_occurs_right(dec(r.traps[j].0 as int), a, tt);
        lemma_occurs_left(dec(r.traps[j].0 as int), a + tt, st);
    }
    assert forall|j: int| 0 <= j < r.strings.len() implies occurs_in(#[trigger] r.strings[j], haystack(r)) by {
        lemma_strings_text_covers(r.strings, r.strings.len() as int, j);
        lemma_occurs_right(r.strings[j], a + tt, st);
    }
}

proof fn lemma_occurs_lower(x: Seq<char>, y: Seq<char>)
    requires
        occurs_in(x, y),
    ensures
        occurs_in(ascii_lower(x), ascii_lower(y)),
{
    let i = choose|i: int| 0 <= i && i + x.len() <= y.len() && #[trigger] y.subrange(i, i + x.len()) == x;
    assert forall|m: int| 0 <= m < x.len() implies #[trigger] ascii_lower(y)[i + m] == ascii_lower(x)[m] by {
        assert(y.subrange(i, i + x.len())[m] == y[i + m]);
    }
    assert(ascii_lower(y).subrange(i, i + ascii_lower(x).len()) =~= ascii_lower(x));
}

proof fn lemma_occurs_trans(x: Seq<char>, y: Seq<char>, z: Seq<char>)
    requires
        occurs_in(x, y),
        occurs_in(y, z),
    ensures
        occurs_in(x, z),
{
    let i = choose|i: int| 0 <= i && i + x.len() <= y.len() && #[trigger] y.subrange(i, i + x.len()) == x;
    let j = choose|j: int| 0 <= j && j + y.len() <= z.len() && #[trigger] z.subrange(j, j + y.len()) == y;
    assert forall|m: int| 0 <= m < x.len() implies #[trigger] z[j + i + m] == x[m] by {
        assert(y.subrange(i, i + x.len())[m] == y[i + m]);
        assert(z.subrange(j, j + y.len())[i + m] == z[j + i + m]);
    }
    assert(z.subrange(j + i, j + i + x.len()) =~= x);
}

/// A function passes an ASCII filter that occurs, ignoring ASCII case, in
/// any one of its trap names or referenced strings, whatever its position
/// in the list (for a function whose searched text is ASCII; the premises
/// on `lowercase` are what `list_functions` states of the filter and of
/// each searched text).
pub proof fn law_filter_finds_any_trap_or_string(r: FnRowView, f: Seq<char>, x: Seq<char>)
    requires
        f.len() > 0,
        is_ascii_text(f),
        lowercase(f) == ascii_lower(f),
        lowercase(haystack(r)) == ascii_lower(haystack(r)),
        (exists|j: int| 0 <= j < r.traps.len() && #[trigger] r.traps[j].1 == x) || r.strings.contains(x),
        occurs_in(ascii_lower(f), ascii_lower(x)),
    ensures
        crate::tools::fn_matches(r, lowercase(f)),
{
    law_haystack_covers(r);
    if r.strings.contains(x) {
        let j = choose|j: int| 0 <= j < r.strings.len() && r.strings[j] == x;
        assert(occurs_in(r.strings[j], haystack(r)));
    } else {
        let j = choose|j: int| 0 <= j < r.traps.len() && #[trigger] r.traps[j].1 == x;
        assert(occurs_in(r.traps[j].1, haystack(r)));
    }
    assert(occurs_in(x, haystack(r)));
    lemma_occurs_lower(x, haystack(r));
    lemma_occurs_trans(ascii_lower(f), ascii_lower(x), ascii_lower(haystack(r)));
}

proof fn lemma_matching_fns(rows: Seq<FnRowView>, lf: Seq<char>, k: int, i: usize)
    requires
        k <= rows.len() <= usize::MAX,
    ensures
        matching_fns(rows, lf, k).contains(i) <==> (i < k && crate::tools::fn_matches(rows[i as int], lf)),
        forall|a: int, b: int| 0 <= a < b < matching_fns(rows, lf, k).len() ==>
            #[trigger] matching_fns(rows, lf, k)[a] < #[trigger] matching_fns(rows, lf, k)[b],
        forall|a: int| 0 <= a < matching_fns(rows, lf, k).len() ==> #[trigger] matching_fns(rows, lf, k)[a] < k,
    decreases k,
{
    if k > 0 {
        lemma_matching_fns(rows, lf, k - 1, i);
        let prev = matching_fns(rows, lf, k - 1);
        let cur = matching_fns(rows, lf, k);
        if crate::tools::fn_matches(rows[k - 1], lf) {
            lemma_push_contains(prev, (k - 1) as usize);
            assert(cur == prev.push((k - 1) as usize));
            assert forall|a: int, b: int| 0 <= a < b < cur.len() implies #[trigger] cur[a] < #[trigger] cur[b] by {
                assert(cur[a] == prev[a]);
                if b < prev.len() {
                    assert(cur[b] == prev[b]);
                }
            }
            assert forall|a: int| 0 <= a < cur.len() implies #[trigger] cur[a] < k by {
                if a < prev.len() {
                    assert(cur[a] == prev[a]);
                }
            }
        }
    } else {
        assert(matching_fns(rows, lf, k).len() == 0);
    }
}

/// `list_functions` keeps, in index order, exactly the functions whose
/// lowercased searched text holds the lowercased filter as a contiguous run
/// (all of them for an empty filter).
pub proof fn law_function_filter_is_substring_search(rows: Seq<FnRowView>, lf: Seq<char>, i: usize)
    requires
        rows.len() <= usize::MAX,
    ensures
        matching_fns(rows, lf, rows.len() as int).contains(i) <==> (i < rows.len() && (lf.len() == 0
            || exists|p: int| 0 <= p && p + lf.len() <= lowercase(haystack(rows[i as int])).len()
                && #[trigger] lowercase(haystack(rows[i as int])).subrange(p, p + lf.len()) == lf)),
        forall|a: int, b: int| 0 <= a < b < matching_fns(rows, lf, rows.len() as int).len() ==>
            #[trigger] matching_fns(rows, lf, rows.len() as int)[a] < #[trigger] matching_fns(rows, lf, rows.len() as int)[b],
{
    lemma_matching_fns(rows, lf, rows.len() as int, i);
}

/// On a `CONST` that a `CALL` follows, the listing line names the call: for
/// a negative operand the syscall number `n` with `operand == -1 - n` and
/// its table name if known, for another operand the callee's name or its
/// entry address in hex.
pub proof fn law_call_site_annotation(ins: Seq<Insn>, p: int)
    requires
        0 <= p,
        p + 1 < ins.len(),
        ins[p].op == crate::model::Op::Const,
        ins[p].operand is Some,
        ins[p + 1].op == crate::model::Op::Call,
    ensures
        ({
            let opd = ins[p].operand->0;
            let base = ins[p].text@ + match ins[p].string {
                Some(s) => "  ; \""@ + clipped(s@, 60) + "\""@,
                None => seq![],
            };
            if opd < 0 {
                exists|n: u32| n + 1 + opd == 0 && #[trigger] dec(n as int) == dec(-1 - opd) && insn_line(ins, p)
                    == base + "  ; syscall "@ + dec(n as int) + match ins[p].trap {
                    Some(t) => " "@ + t@,
                    None => seq![],
                }
            } else {
                insn_line(ins, p) == base + match ins[p].callee_name {
                    Some(nm) => "  ; call "@ + nm@,
                    None => "  ; call fn@"@ + hex(opd as nat),
                }
            }
        }),
{
    let opd = ins[p].operand->0;
    if opd < 0 {
        let n = (-1 - opd) as u32;
        assert(n + 1 + opd == 0);
        assert(dec(n as int) == dec(-1 - opd));
    }
}

/// A BSS address is described as a runtime global whatever the module
/// holds there.
pub proof fn law_hint_bss(h: QvmHeader, addr: i32, pr: crate::session::AddrProbe)
    requires
        0 < addr,
        h.data_length <= addr,
        h.data_length + h.lit_length <= addr < h.data_length + h.lit_length + h.bss_length,
    ensures
        hint_spec(h, addr, pr) == Some("[0x"@ + hex(addr as nat) + "]"@ + " BSS = runtime global (zero at load)"@),
{
}

/// The number of named functions counts the rows that carry a name.
pub proof fn law_named_count(rows: Seq<FnRowView>, k: int)
    requires
        0 <= k <= rows.len(),
    ensures
        crate::session::named_count(rows, k) == rows.subrange(0, k).filter(|r: FnRowView| r.name is Some).len(),
    decreases k,
{
    reveal(Seq::filter);
    if k == 0 {
        assert(rows.subrange(0, 0).len() == 0);
    } else {
        law_named_count(rows, k - 1);
        let s0 = rows.subrange(0, k - 1);
        assert(rows.subrange(0, k) =~= s0.push(rows[k - 1]));
        s0.lemma_filter_push(rows[k - 1], |r: FnRowView| r.name is Some);
    }
}

/// A clipped text is the text itself when it is short enough; otherwise its
/// first `max` characters and an ellipsis, one character more than `max`.
pub proof fn law_clip(s: Seq<char>, max: nat)
    ensures
        s.len() <= max ==> clipped(s, max) == s,
        s.len() > max ==> {
            &&& clipped(s, max).len() == max + 1
            &&& forall|i: int| 0 <= i < max ==> #[trigger] clipped(s, max)[i] == s[i]
            &&& clipped(s, max)[max as int] == '\u{2026}'
        },
{
}

} // verus!
