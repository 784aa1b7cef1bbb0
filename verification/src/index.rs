//! The per-function index built once when a module is opened: for each
//! function the syscalls it calls, the string literals it references and
//! its direct callees.

use vstd::prelude::*;
use crate::model::{first_index, lemma_first_index_found, lemma_first_index_none, opt_view, strs_view, clone_opt, FnSpan, Insn, Op};

verus! {

/// `s` with `x` appended, unless `x` already occurs in it.
pub open spec fn push_new<A>(s: Seq<A>, x: A) -> Seq<A> {
    if s.contains(x) {
        s
    } else {
        s.push(x)
    }
}

/// The instruction at `p` is a `CONST` with an operand and a `CALL` follows
/// it before `end`.
pub open spec fn call_site(ins: Seq<Insn>, end: int, p: int) -> bool {
    &&& ins[p].op == Op::Const
    &&& ins[p].operand is Some
    &&& p + 1 < end
    &&& ins[p + 1].op == Op::Call
}

/// Syscall number encoded by a negative call operand.
pub open spec fn syscall_num(opd: i32) -> u32 {
    (-1 - opd) as u32
}

/// Name shown for the syscall of a call site: its table name or `?`.
pub open spec fn trap_label(i: Insn) -> Seq<char> {
    match i.trap {
        Some(t) => t@,
        None => seq!['?'],
    }
}

/// Index of the first function whose entry instruction is `target`.
pub open spec fn entry_index(spans: Seq<FnSpan>, target: int) -> Option<int> {
    first_index(entry_is(spans, target), spans.len() as int)
}

/// Span `j` starts at instruction `target`.
pub open spec fn entry_is(spans: Seq<FnSpan>, target: int) -> spec_fn(int) -> bool {
    |j: int| spans[j].entry == target
}

/// Distinct string literals referenced by the `CONST`s among the first `k`
/// instructions from `entry`, in order of first reference.
pub open spec fn scan_strings(ins: Seq<Insn>, entry: int, k: int) -> Seq<Seq<char>>
    decreases k,
{
    if k <= 0 {
        seq![]
    } else {
        let prev = scan_strings(ins, entry, k - 1);
        let i = ins[entry + k - 1];
        if i.op == Op::Const && i.operand is Some && i.string is Some {
            push_new(prev, i.string->0@)
        } else {
            prev
        }
    }
}

/// Distinct (syscall number, name) pairs called among the first `k`
/// instructions from `entry` of a function ending at `end`.
pub open spec fn scan_traps(ins: Seq<Insn>, entry: int, end: int, k: int) -> Seq<(u32, Seq<char>)>
    decreases k,
{
    if k <= 0 {
        seq![]
    } else {
        let prev = scan_traps(ins, entry, end, k - 1);
        let p = entry + k - 1;
        if call_site(ins, end, p) && ins[p].operand->0 < 0 {
            push_new(prev, (syscall_num(ins[p].operand->0), trap_label(ins[p])))
        } else {
            prev
        }
    }
}

/// Distinct indices of the functions called directly (`CONST entry; CALL`)
/// among the first `k` instructions from `entry`.
pub open spec fn scan_callees(ins: Seq<Insn>, spans: Seq<FnSpan>, entry: int, end: int, k: int) -> Seq<usize>
    decreases k,
{
    if k <= 0 {
        seq![]
    } else {
        let prev = scan_callees(ins, spans, entry, end, k - 1);
        let p = entry + k - 1;
        if call_site(ins, end, p) && ins[p].operand->0 >= 0 && entry_index(
            spans,
            ins[p].operand->0 as int,
        ) is Some {
            push_new(prev, entry_index(spans, ins[p].operand->0 as int)->0 as usize)
        } else {
            prev
        }
    }
}

/// Per-function summary built once at open time.
pub struct FnRow {
    pub idx: usize,
    pub entry: usize,
    pub end: usize,
    pub name: Option<String>,
    /// (syscall number, resolved name or "?").
    pub traps: Vec<(u32, String)>,
    /// Distinct string literals referenced by this function.
    pub strings: Vec<String>,
    /// Direct CONST+CALL callees (function indices).
    pub callees: Vec<usize>,
}

/// Abstract value of a [`FnRow`].
pub ghost struct FnRowView {
    pub idx: usize,
    pub entry: usize,
    pub end: usize,
    pub name: Option<Seq<char>>,
    pub traps: Seq<(u32, Seq<char>)>,
    pub strings: Seq<Seq<char>>,
    pub callees: Seq<usize>,
}

/// The characters of each (number, name) pair.
pub open spec fn traps_view(v: Seq<(u32, String)>) -> Seq<(u32, Seq<char>)> {
    v.map_values(|t: (u32, String)| (t.0, t.1@))
}

impl View for FnRow {
    type V = FnRowView;

    open spec fn view(&self) -> FnRowView {
        FnRowView {
            idx: self.idx,
            entry: self.entry,
            end: self.end,
            name: opt_view(self.name),
            traps: traps_view(self.traps@),
            strings: strs_view(self.strings@),
            callees: self.callees@,
        }
    }
}

/// The summary of function `idx` of a module.
pub open spec fn row_spec(ins: Seq<Insn>, spans: Seq<FnSpan>, idx: int) -> FnRowView {
    let e = spans[idx].entry as int;
    let n = spans[idx].end as int;
    FnRowView {
        idx: idx as usize,
        entry: spans[idx].entry,
        end: spans[idx].end,
        name: opt_view(spans[idx].name),
        traps: scan_traps(ins, e, n, n - e),
        strings: scan_strings(ins, e, n - e),
        callees: scan_callees(ins, spans, e, n, n - e),
    }
}

/// Whether `s` is among the strings of `v`.
pub fn contains_string(v: &Vec<String>, s: &String) -> (res: bool)
    ensures
        res == strs_view(v@).contains(s@),
{
    let mut i: usize = 0;
    while i < v.len()
        invariant
            i <= v.len(),
            forall|j: int| 0 <= j < i ==> strs_view(v@)[j] != s@,
        decreases v.len() - i,
    {
        if v[i] == *s {
            assert(strs_view(v@)[i as int] == s@);
            return true;
        }
        i += 1;
    }
    false
}

fn contains_trap(v: &Vec<(u32, String)>, num: u32, s: &String) -> (res: bool)
    ensures
        res == traps_view(v@).contains((num, s@)),
{
    let mut i: usize = 0;
    while i < v.len()
        invariant
            i <= v.len(),
            forall|j: int| 0 <= j < i ==> traps_view(v@)[j] != (num, s@),
        decreases v.len() - i,
    {
        if v[i].0 == num && v[i].1 == *s {
            assert(traps_view(v@)[i as int] == (num, s@));
            return true;
        }
        i += 1;
    }
    false
}

/// Whether `x` occurs in `v`.
pub fn contains_usize(v: &Vec<usize>, x: usize) -> (res: bool)
    ensures
        res == v@.contains(x),
{
    let mut i: usize = 0;
    while i < v.len()
        invariant
            i <= v.len(),
            forall|j: int| 0 <= j < i ==> v@[j] != x,
        decreases v.len() - i,
    {
        if v[i] == x {
            return true;
        }
        i += 1;
    }
    false
}

/// The index of the first span whose entry is `target`.
pub fn entry_index_of(spans: &Vec<FnSpan>, target: usize) -> (res: Option<usize>)
    ensures
        match res {
            Some(j) => entry_index(spans@, target as int) == Some(j as int),
            None => entry_index(spans@, target as int) == None::<int>,
        },
{
    let ghost p = entry_is(spans@, target as int);
    let mut j: usize = 0;
    while j < spans.len()
        invariant
            j <= spans.len(),
            p == entry_is(spans@, target as int),
            forall|k: int| 0 <= k < j ==> !#[trigger] p(k),
        decreases spans.len() - j,
    {
        if spans[j].entry == target {
            proof {
                lemma_first_index_found(p, spans.len() as int, j as int);
            }
            return Some(j);
        }
        j += 1;
    }
    proof {
        lemma_first_index_none(p, spans.len() as int);
    }
    None
}

/// Builds the summary of function `idx`.
pub fn build_row(insns: &Vec<Insn>, spans: &Vec<FnSpan>, idx: usize) -> (row: FnRow)
    requires
        idx < spans.len(),
        spans@[idx as int].entry <= spans@[idx as int].end <= insns.len(),
    ensures
        row@ == row_spec(insns@, spans@, idx as int),
{
    let entry = spans[idx].entry;
    let end = spans[idx].end;
    let len = end - entry;
    let mut traps: Vec<(u32, String)> = Vec::new();
    let mut strings: Vec<String> = Vec::new();
    let mut callees: Vec<usize> = Vec::new();
    let mut k: usize = 0;
    while k < len
        invariant
            entry == spans@[idx as int].entry,
            end == spans@[idx as int].end,
            len == end - entry,
            end <= insns.len(),
            k <= len,
            traps_view(traps@) == scan_traps(insns@, entry as int, end as int, k as int),
            strs_view(strings@) == scan_strings(insns@, entry as int, k as int),
            callees@ == scan_callees(insns@, spans@, entry as int, end as int, k as int),
        decreases len - k,
    {
        let p = entry + k;
        let ins = &insns[p];
        let ghost s0 = strings@;
        let ghost t0 = traps@;
        if let Some(opd) = ins.operand {
            if ins.op == Op::Const {
                if let Some(s) = &ins.string {
                    if !contains_string(&strings, s) {
                        strings.push(s.clone());
                        assert(strs_view(strings@) =~= strs_view(s0).push(s@));
                    }
                }
                if k + 1 < len {
                    let next = &insns[p + 1];
                    if next.op == Op::Call {
                        if opd < 0 {
                            let num = (-1 - opd) as u32;
                            let label = match &ins.trap {
                                Some(t) => t.clone(),
                                None => {
                                    proof {
                                        reveal_strlit("?");
                                    }
                                    "?".to_owned()
                                },
                            };
                            assert(label@ == trap_label(insns@[p as int]));
                            if !contains_trap(&traps, num, &label) {
                                traps.push((num, label));
                                assert(traps_view(traps@) =~= traps_view(t0).push((num, label@)));
                            }
                        } else if let Some(ci) = entry_index_of(spans, opd as usize) {
                            if !contains_usize(&callees, ci) {
                                callees.push(ci);
                            }
                        }
                    }
                }
            }
        }
        k += 1;
    }
    FnRow { idx, entry, end, name: clone_opt(&spans[idx].name), traps, strings, callees }
}

} // verus!
