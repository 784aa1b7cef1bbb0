//! Analysis session: one opened module plus everything the tools need.

use vstd::prelude::*;
use vstd::utf8::encode_utf8;
use crate::text::{is_plain_text, clip, clipped, dec, debug_quoted, debug_quote, hex, owned, push_dec, push_hex, push_str, push_udec, str_eq};
use crate::index::{syscall_num, call_site, entry_is, build_row, contains_usize, row_spec, scan_callees, entry_index, push_new, FnRow, FnRowView};
use crate::model::{clone_opt, strs_view, Op, first_index, lemma_first_index_bounds, lemma_first_index_found, lemma_first_index_none, opt_view, FnSpan, Insn, QvmHeader};

verus! {

/// Byte length of a string as `str::len` reports it.
pub open spec fn byte_len(s: Seq<char>) -> int {
    (encode_utf8(s).len() as usize) as int
}

/// The characters of each probed string.
pub open spec fn probes_view(v: Seq<Option<String>>) -> Seq<Option<Seq<char>>> {
    v.map_values(|o: Option<String>| opt_view(o))
}

/// The characters of each (address, string) pair.
pub open spec fn lits_view(v: Seq<(i32, String)>) -> Seq<(i32, Seq<char>)> {
    v.map_values(|t: (i32, String)| (t.0, t.1@))
}

/// The literal-segment string table, scanning from offset `off`: where a
/// string starts, it is listed with its address and the scan resumes past
/// its terminating NUL; elsewhere the scan moves one byte on.
/// `probe[k]` is the string stored at address `base + k`, if any.
pub open spec fn lit_scan(probe: Seq<Option<Seq<char>>>, base: int, off: int) -> Seq<(i32, Seq<char>)>
    decreases probe.len() - off,
{
    if off < 0 || off >= probe.len() {
        seq![]
    } else {
        match probe[off] {
            Some(s) => {
                let next = off + byte_len(s) + 1;
                seq![((base + off) as i32, s)] + if next < probe.len() {
                    lit_scan(probe, base, next)
                } else {
                    seq![]
                }
            },
            None => lit_scan(probe, base, off + 1),
        }
    }
}

/// The functions, among the first `k`, that call function `c` directly, in
/// index order.
pub open spec fn callers_of(rows: Seq<FnRowView>, c: usize, k: int) -> Seq<usize>
    decreases k,
{
    if k <= 0 {
        seq![]
    } else {
        let prev = callers_of(rows, c, k - 1);
        if rows[k - 1].callees.contains(c) {
            prev.push((k - 1) as usize)
        } else {
            prev
        }
    }
}

/// Data, literal and BSS segments are laid out from address 0: the
/// segment bounds (data, data + literals, data + literals + BSS) fit the
/// VM's address type.
pub open spec fn layout_ok(h: QvmHeader) -> bool {
    &&& i32::MIN <= h.data_length + h.lit_length <= i32::MAX
    &&& i32::MIN <= h.data_length + h.lit_length + h.bss_length <= i32::MAX
}

/// Number of literal-segment addresses a module has: its literal length,
/// or none when that length is negative.
pub open spec fn lit_count(h: QvmHeader) -> int {
    if h.lit_length < 0 { 0 } else { h.lit_length as int }
}

/// Instructions are numbered by position and can be counted in a `u32`.
pub open spec fn insns_ok(ins: Seq<Insn>) -> bool {
    &&& ins.len() <= u32::MAX
    &&& forall|i: int| 0 <= i < ins.len() ==> (#[trigger] ins[i]).idx == i
}

/// Every function span lies within the instruction list.
pub open spec fn spans_ok(spans: Seq<FnSpan>, n: int) -> bool {
    forall|j: int| 0 <= j < spans.len() ==> (#[trigger] spans[j]).entry <= spans[j].end <= n
}

/// What [`Session::open`] needs of what the loader produced.
pub open spec fn open_ok(h: QvmHeader, ins: Seq<Insn>, spans: Seq<FnSpan>, probe: Seq<Option<String>>) -> bool {
    &&& layout_ok(h)
    &&& insns_ok(ins)
    &&& spans_ok(spans, ins.len() as int)
    &&& probe.len() == lit_count(h)
}

/// Whether what the loader produced meets what [`Session::open`] needs.
pub fn open_inputs_ok(h: &QvmHeader, insns: &Vec<Insn>, spans: &Vec<FnSpan>, probe: &Vec<Option<String>>) -> (res: bool)
    ensures
        res == open_ok(*h, insns@, spans@, probe@),
{
    let lit_end: i64 = h.data_length as i64 + h.lit_length as i64;
    let total: i64 = lit_end + h.bss_length as i64;
    if lit_end < i32::MIN as i64 || lit_end > i32::MAX as i64 || total < i32::MIN as i64 || total > i32::MAX as i64 {
        return false;
    }
    if insns.len() as u64 > u32::MAX as u64 {
        return false;
    }
    assert(layout_ok(*h));
    let mut i: usize = 0;
    while i < insns.len()
        invariant
            insns.len() <= u32::MAX,
            i <= insns.len(),
            forall|k: int| 0 <= k < i ==> (#[trigger] insns@[k]).idx == k,
        decreases insns.len() - i,
    {
        if insns[i].idx != i {
            return false;
        }
        i += 1;
    }
    let mut j: usize = 0;
    while j < spans.len()
        invariant
            insns_ok(insns@),
            j <= spans.len(),
            forall|k: int| 0 <= k < j ==> (#[trigger] spans@[k]).entry <= spans@[k].end <= insns.len(),
        decreases spans.len() - j,
    {
        if !(spans[j].entry <= spans[j].end && spans[j].end <= insns.len()) {
            return false;
        }
        j += 1;
    }
    if h.lit_length < 0 {
        probe.len() == 0
    } else {
        probe.len() == h.lit_length as usize
    }
}

/// A tool's `fn` argument: an integer index, a string name, or neither.
#[derive(Debug, PartialEq, Eq)]
pub enum FnRef {
    Index(u64),
    Name(String),
    Invalid,
}

/// Placeholder name of function `i`, as the GUI shows it: `fn_<i>`.
pub open spec fn placeholder(i: int) -> Seq<char> {
    "fn_"@ + dec(i)
}

/// Function `i` carries the map name `name`.
pub open spec fn named(rows: Seq<FnRowView>, name: Seq<char>) -> spec_fn(int) -> bool {
    |i: int| rows[i].name == Some(name)
}

/// `name` is the placeholder of function `i`.
pub open spec fn placeholder_is(name: Seq<char>) -> spec_fn(int) -> bool {
    |i: int| placeholder(i) == name
}

/// The function a name designates: the first function with that map
/// name, else the function whose placeholder it is.
pub open spec fn resolve_name_spec(rows: Seq<FnRowView>, name: Seq<char>) -> Option<int> {
    match first_index(named(rows, name), rows.len() as int) {
        Some(i) => Some(i),
        None => first_index(placeholder_is(name), rows.len() as int),
    }
}

/// Message for an index past the function table.
pub open spec fn index_range_msg(idx: int, n: int) -> Seq<char> {
    "fn index "@ + dec(idx) + " out of range (0.."@ + dec(n) + ")"@
}

/// Message for a name that designates no function.
pub open spec fn no_name_msg(name: Seq<char>) -> Seq<char> {
    "no function named "@ + debug_quoted(name)
}

/// Message for an argument that is neither an index nor a name.
pub open spec fn bad_ref_msg() -> Seq<char> {
    "fn must be an integer index or a string name"@
}

/// Outcome of resolving a tool's `fn` argument against `rows`.
pub open spec fn resolve_spec(rows: Seq<FnRowView>, r: FnRef) -> Result<usize, Seq<char>> {
    match r {
        FnRef::Index(i) => if (i as usize) < rows.len() {
            Ok(i as usize)
        } else {
            Err(index_range_msg((i as usize) as int, rows.len() as int))
        },
        FnRef::Name(s) => match resolve_name_spec(rows, s@) {
            Some(k) => Ok(k as usize),
            None => Err(no_name_msg(s@)),
        },
        FnRef::Invalid => Err(bad_ref_msg()),
    }
}

/// The characters of an error message.
pub open spec fn res_view<T>(r: Result<T, String>) -> Result<T, Seq<char>> {
    match r {
        Ok(v) => Ok(v),
        Err(e) => Err(e@),
    }
}

/// The placeholder name of function `i`.
pub fn placeholder_of(i: usize) -> (res: String)
    ensures
        res@ == placeholder(i as int),
{
    let mut out = owned("fn_");
    push_udec(&mut out, i as u64);
    out
}

/// Number of `CONST addr` instructions among the first `k` from `entry`.
pub open spec fn const_hits(ins: Seq<Insn>, entry: int, k: int, addr: i32) -> nat
    decreases k,
{
    if k <= 0 {
        0
    } else {
        const_hits(ins, entry, k - 1, addr) + if ins[entry + k - 1].op == Op::Const
            && ins[entry + k - 1].operand == Some(addr) {
            1nat
        } else {
            0nat
        }
    }
}

/// Hit count of `addr` in function `r`.
pub open spec fn fn_hits(ins: Seq<Insn>, r: FnRowView, addr: i32) -> nat {
    const_hits(ins, r.entry as int, r.end - r.entry, addr)
}

/// Among the first `k` functions, those referencing `addr` through `CONST`,
/// with their hit counts.
pub open spec fn xrefs_spec(rows: Seq<FnRowView>, ins: Seq<Insn>, addr: i32, k: int) -> Seq<(usize, u32)>
    decreases k,
{
    if k <= 0 {
        seq![]
    } else {
        let prev = xrefs_spec(rows, ins, addr, k - 1);
        let c = fn_hits(ins, rows[k - 1], addr);
        if c > 0 {
            prev.push((rows[k - 1].idx, c as u32))
        } else {
            prev
        }
    }
}

pub proof fn lemma_hits_bounded(ins: Seq<Insn>, entry: int, k: int, addr: i32)
    ensures
        const_hits(ins, entry, k, addr) <= if k < 0 { 0 } else { k },
    decreases k,
{
    if k > 0 {
        lemma_hits_bounded(ins, entry, k - 1, addr);
    }
}

/// The annotation of a listing line: the loader's text, then the string at
/// the operand of a `CONST`, then what a following `CALL` calls.
pub open spec fn insn_line(ins: Seq<Insn>, p: int) -> Seq<char> {
    let i = ins[p];
    if i.op != Op::Const || i.operand is None {
        i.text@
    } else {
        let opd = i.operand->0;
        let base = i.text@ + match i.string {
            Some(s) => "  ; \""@ + clipped(s@, 60) + "\""@,
            None => seq![],
        };
        if p + 1 < ins.len() && ins[p + 1].op == Op::Call {
            if opd < 0 {
                base + "  ; syscall "@ + dec(syscall_num(opd) as int) + match i.trap {
                    Some(t) => " "@ + t@,
                    None => seq![],
                }
            } else {
                base + match i.callee_name {
                    Some(n) => "  ; call "@ + n@,
                    None => "  ; call fn@"@ + hex(opd as nat),
                }
            }
        } else {
            base
        }
    }
}

/// The listing of the first `k` instructions from `entry`, one line each.
pub open spec fn listing(ins: Seq<Insn>, entry: int, k: int) -> Seq<char>
    decreases k,
{
    if k <= 0 {
        seq![]
    } else {
        listing(ins, entry, k - 1) + insn_line(ins, entry + k - 1) + "\n"@
    }
}

/// What the module holds at a queried address, as the loader reads it:
/// the string stored there, the data word the data table has at that
/// index, and the rendering of the 32-bit float stored there.
pub struct AddrProbe {
    pub string: Option<String>,
    pub word: Option<i32>,
    pub float_text: Option<String>,
}

/// `[0x<addr>]`.
pub open spec fn addr_tag(a: int) -> Seq<char> {
    "[0x"@ + hex(a as nat) + "]"@
}

/// A clipped string in double quotes.
pub open spec fn quoted(s: Seq<char>) -> Seq<char> {
    "\""@ + clipped(s, 60) + "\""@
}

/// What a data-segment hint says after the address.
pub open spec fn data_detail(pr: AddrProbe) -> Seq<char> {
    match pr.string {
        Some(s) => " = "@ + quoted(s@),
        None => match pr.word {
            Some(v) => " = "@ + dec(v as int) + " (0x"@ + hex((v as u32) as nat) + ")"@,
            None => seq![],
        },
    }
}

/// What a literal-segment hint says after the address.
pub open spec fn lit_detail(pr: AddrProbe) -> Seq<char> {
    let float_part = match pr.float_text {
        Some(f) => " = float "@ + f@,
        None => seq![],
    };
    let string_part = match pr.string {
        Some(s) => "; string "@ + quoted(s@),
        None => seq![],
    };
    float_part + string_part
}

/// Classification of a VM memory address: `NULL`, data (with its string or
/// word), literal (with its float and string), BSS, or nothing for an
/// address outside memory (a code address or garbage).
pub open spec fn hint_spec(h: QvmHeader, addr: i32, pr: AddrProbe) -> Option<Seq<char>> {
    let lit0 = h.data_length as int;
    let bss0 = lit0 + h.lit_length;
    let bss1 = bss0 + h.bss_length;
    if addr == 0 {
        Some("NULL"@)
    } else if addr < 0 || addr >= bss1 {
        None
    } else if addr < lit0 {
        Some(addr_tag(addr as int) + " data"@ + data_detail(pr))
    } else if addr < bss0 {
        Some(addr_tag(addr as int) + " lit"@ + lit_detail(pr))
    } else {
        Some(addr_tag(addr as int) + " BSS = runtime global (zero at load)"@)
    }
}

/// Number of named functions among the first `k`.
pub open spec fn named_count(rows: Seq<FnRowView>, k: int) -> nat
    decreases k,
{
    if k <= 0 {
        0
    } else {
        named_count(rows, k - 1) + if rows[k - 1].name is Some {
            1nat
        } else {
            0nat
        }
    }
}

/// The `session_info` record: header fields and table sizes.
pub struct SessionInfo {
    pub path: String,
    pub module: String,
    pub vm_magic: i32,
    pub instruction_count: i32,
    pub code_length: i32,
    pub data_length: i32,
    pub lit_length: i32,
    pub bss_length: i32,
    /// Number of functions.
    pub functions: usize,
    /// Number of literal-segment strings.
    pub strings: usize,
    /// Number of functions with a map name.
    pub named_functions: usize,
}

/// `i` describes session `s`.
pub open spec fn info_of(i: SessionInfo, s: Session) -> bool {
    &&& i.path@ == s.header.path@
    &&& i.module@ == s.header.module@
    &&& i.vm_magic == s.header.vm_magic
    &&& i.instruction_count == s.header.instruction_count
    &&& i.code_length == s.header.code_length
    &&& i.data_length == s.header.data_length
    &&& i.lit_length == s.header.lit_length
    &&& i.bss_length == s.header.bss_length
    &&& i.functions == s.fns.len()
    &&& i.strings == s.lit_strings.len()
    &&& i.named_functions == named_count(s.rows(), s.fns.len() as int)
}

/// One opened module with precomputed tables.
pub struct Session {
    pub header: QvmHeader,
    pub insns: Vec<Insn>,
    pub fns: Vec<FnRow>,
    /// Literal-segment string table in address order (addr, value).
    pub lit_strings: Vec<(i32, String)>,
    /// For each function, the functions that call it directly.
    pub callers: Vec<Vec<usize>>,
    /// Size in bytes of the literal segment image.
    pub lit_bytes: usize,
}

impl Session {
    /// Precomputes the function index, the literal-segment string table and
    /// the caller lists of a module the loader has read. `lit_probe[k]` is
    /// the string the module holds at address `data_length + k`, if any;
    /// `lit_bytes` the size of its literal segment image.
    pub fn open(
        header: QvmHeader,
        insns: Vec<Insn>,
        spans: Vec<FnSpan>,
        lit_probe: Vec<Option<String>>,
        lit_bytes: usize,
    ) -> (s: Session)
        requires
            open_ok(header, insns@, spans@, lit_probe@),
        ensures
            s.wf(),
            s.header == header,
            s.insns@ == insns@,
            s.lit_bytes == lit_bytes,
            s.fns.len() == spans.len(),
            forall|i: int| 0 <= i < spans.len() ==> (#[trigger] s.fns@[i])@ == row_spec(insns@, spans@, i),
            forall|i: int| 0 <= i < spans.len() ==> {
                &&& (#[trigger] s.fns@[i]).idx == i
                &&& s.fns@[i].entry == spans@[i].entry
                &&& s.fns@[i].end == spans@[i].end
                &&& opt_view(s.fns@[i].name) == opt_view(spans@[i].name)
            },
            lits_view(s.lit_strings@) == lit_scan(probes_view(lit_probe@), header.data_length as int, 0),
    {
        let n = spans.len();
        let mut fns: Vec<FnRow> = Vec::new();
        let mut idx: usize = 0;
        while idx < n
            invariant
                n == spans.len(),
                idx <= n,
                fns.len() == idx,
                spans_ok(spans@, insns.len() as int),
                forall|i: int| 0 <= i < idx ==> (#[trigger] fns@[i])@ == row_spec(insns@, spans@, i),
                forall|i: int| 0 <= i < idx ==> forall|j: int| 0 <= j < (#[trigger] fns@[i]).callees.len() ==> #[trigger] fns@[i].callees@[j] < n,
            decreases n - idx,
        {
            assert(spans@[idx as int].entry <= spans@[idx as int].end <= insns.len());
            let row = build_row(&insns, &spans, idx);
            proof {
                let e = spans@[idx as int].entry as int;
                let m = spans@[idx as int].end as int;
                lemma_callees_in_range(insns@, spans@, e, m, m - e);
            }
            fns.push(row);
            idx += 1;
        }
        let callers = callers_table(&fns);
        let lit_strings = scan_literals(&lit_probe, header.data_length);
        let s = Session { header, insns, fns, lit_strings, callers, lit_bytes };
        assert(s.rows() == fns@.map_values(|f: FnRow| f@));
        s
    }

    /// The function a name designates: the first function carrying that map
    /// name, else the function whose `fn_<idx>` placeholder it is.
    pub fn resolve_name(&self, name: &str) -> (res: Option<usize>)
        requires
            self.wf(),
        ensures
            match res {
                Some(i) => resolve_name_spec(self.rows(), name@) == Some(i as int),
                None => resolve_name_spec(self.rows(), name@) == None::<int>,
            },
    {
        let n = self.fns.len();
        let ghost rows = self.rows();
        let ghost p = named(rows, name@);
        let mut i: usize = 0;
        while i < n
            invariant
                n == self.fns.len(),
                rows == self.rows(),
                p == named(rows, name@),
                i <= n,
                forall|k: int| 0 <= k < i ==> !#[trigger] p(k),
            decreases n - i,
        {
            assert(rows[i as int].name == opt_view(self.fns@[i as int].name));
            match &self.fns[i].name {
                Some(fname) => {
                    if str_eq(fname.as_str(), name) {
                        proof {
                            lemma_first_index_found(p, n as int, i as int);
                        }
                        return Some(i);
                    }
                },
                None => {},
            }
            i += 1;
        }
        proof {
            lemma_first_index_none(p, n as int);
        }
        let ghost q = placeholder_is(name@);
        let mut j: usize = 0;
        while j < n
            invariant
                n == self.fns.len(),
                rows == self.rows(),
                q == placeholder_is(name@),
                first_index(named(rows, name@), n as int) == None::<int>,
                j <= n,
                forall|k: int| 0 <= k < j ==> !#[trigger] q(k),
            decreases n - j,
        {
            let ph = placeholder_of(j);
            if str_eq(ph.as_str(), name) {
                proof {
                    lemma_first_index_found(q, n as int, j as int);
                }
                return Some(j);
            }
            j += 1;
        }
        proof {
            lemma_first_index_none(q, n as int);
        }
        None
    }

    /// Resolves a tool's `fn` argument: an integer is an index, a string a
    /// name (map name or `fn_<idx>` placeholder).
    pub fn resolve_fn(&self, spec: &FnRef) -> (res: Result<usize, String>)
        requires
            self.wf(),
        ensures
            res_view(res) == resolve_spec(self.rows(), *spec),
            match *spec {
                FnRef::Name(n) => is_plain_text(n@) && res is Err ==> res_view(res) == Err::<usize, Seq<char>>(
                    "no function named "@ + (seq!['"'] + n@ + seq!['"']),
                ),
                _ => true,
            },
    {
        match spec {
            FnRef::Index(i) => {
                let idx = *i as usize;
                if idx < self.fns.len() {
                    Ok(idx)
                } else {
                    let mut msg = owned("fn index ");
                    push_udec(&mut msg, idx as u64);
                    push_str(&mut msg, " out of range (0..");
                    push_udec(&mut msg, self.fns.len() as u64);
                    push_str(&mut msg, ")");
                    Err(msg)
                }
            },
            FnRef::Name(s) => {
                match self.resolve_name(s.as_str()) {
                    Some(k) => Ok(k),
                    None => {
                        let mut msg = owned("no function named ");
                        let q = debug_quote(s.as_str());
                        push_str(&mut msg, q.as_str());
                        Err(msg)
                    },
                }
            },
            FnRef::Invalid => Err(owned("fn must be an integer index or a string name")),
        }
    }

    /// Functions referencing `addr` via `CONST`, with hit counts.
    pub fn xrefs_to(&self, addr: i32) -> (res: Vec<(usize, u32)>)
        requires
            self.wf(),
        ensures
            res@ == xrefs_spec(self.rows(), self.insns@, addr, self.fns.len() as int),
    {
        let ghost rows = self.rows();
        let mut out: Vec<(usize, u32)> = Vec::new();
        let mut fi: usize = 0;
        while fi < self.fns.len()
            invariant
                self.wf(),
                rows == self.rows(),
                fi <= self.fns.len(),
                out@ == xrefs_spec(rows, self.insns@, addr, fi as int),
            decreases self.fns.len() - fi,
        {
            let f = &self.fns[fi];
            assert(rows[fi as int] == f@);
            let mut n: u32 = 0;
            let mut p: usize = f.entry;
            while p < f.end
                invariant
                    self.wf(),
                    f == &self.fns@[fi as int],
                    f.entry <= p <= f.end <= self.insns.len(),
                    n == const_hits(self.insns@, f.entry as int, p - f.entry, addr),
                decreases f.end - p,
            {
                proof {
                    lemma_hits_bounded(self.insns@, f.entry as int, p - f.entry, addr);
                }
                let ins = &self.insns[p];
                if ins.op == Op::Const && ins.operand == Some(addr) {
                    n += 1;
                }
                p += 1;
            }
            if n > 0 {
                out.push((f.idx, n));
            }
            fi += 1;
        }
        out
    }

    /// One listing line: the instruction with string, syscall and call
    /// annotations on a `CONST` that a `CALL` follows.
    pub fn format_insn(&self, p: usize) -> (line: String)
        requires
            self.wf(),
            p < self.insns.len(),
        ensures
            line@ == insn_line(self.insns@, p as int),
    {
        let ins = &self.insns[p];
        let mut line = ins.text.clone();
        if ins.op != Op::Const {
            return line;
        }
        let opd = match ins.operand {
            Some(o) => o,
            None => return line,
        };
        if let Some(sv) = &ins.string {
            push_str(&mut line, "  ; \"");
            let c = clip(sv.as_str(), 60);
            push_str(&mut line, c.as_str());
            push_str(&mut line, "\"");
        }
        if ins.idx + 1 < self.insns.len() {
            let next = &self.insns[ins.idx + 1];
            if next.op == Op::Call && opd < 0 {
                let num = (-1 - opd) as u32;
                push_str(&mut line, "  ; syscall ");
                push_udec(&mut line, num as u64);
                match &ins.trap {
                    Some(t) => {
                        push_str(&mut line, " ");
                        push_str(&mut line, t.as_str());
                    },
                    None => {},
                }
            } else if next.op == Op::Call && opd >= 0 {
                match &ins.callee_name {
                    Some(nm) => {
                        push_str(&mut line, "  ; call ");
                        push_str(&mut line, nm.as_str());
                    },
                    None => {
                        push_str(&mut line, "  ; call fn@");
                        push_hex(&mut line, opd as u64);
                    },
                }
            }
        }
        line
    }

    /// Plain listing text for function `idx`, one annotated instruction per
    /// line.
    pub fn disasm_text(&self, idx: usize) -> (res: String)
        requires
            self.wf(),
            idx < self.fns.len(),
        ensures
            res@ == listing(self.insns@, self.fns@[idx as int].entry as int, self.fns@[idx as int].end - self.fns@[idx as int].entry),
    {
        let f = &self.fns[idx];
        let mut out = String::new();
        let mut p: usize = f.entry;
        while p < f.end
            invariant
                self.wf(),
                f == &self.fns@[idx as int],
                f.entry <= p <= f.end <= self.insns.len(),
                out@ == listing(self.insns@, f.entry as int, p - f.entry),
            decreases f.end - p,
        {
            let line = self.format_insn(p);
            push_str(&mut out, line.as_str());
            push_str(&mut out, "\n");
            assert(out@ =~= listing(self.insns@, f.entry as int, p + 1 - f.entry));
            p += 1;
        }
        out
    }

    /// Offset in the literal segment of a 32-bit value stored at `addr`,
    /// when `addr` lies in the literal segment and four bytes fit there.
    pub fn lit_float_offset(&self, addr: i32) -> (res: Option<usize>)
        requires
            self.wf(),
        ensures
            res == (if self.header.data_length <= addr < self.header.data_length + self.header.lit_length
                && addr - self.header.data_length + 4 <= self.lit_bytes {
                Some((addr - self.header.data_length) as usize)
            } else {
                None
            }),
    {
        let lit0 = self.header.data_length;
        let bss0 = lit0 + self.header.lit_length;
        if lit0 <= addr && addr < bss0 {
            let off = (addr - lit0) as usize;
            if off <= self.lit_bytes && 4 <= self.lit_bytes - off {
                return Some(off);
            }
        }
        None
    }

    /// One-line classification of a memory address (NULL, data, literal,
    /// BSS), or `None` outside memory. `probe` is what the module holds at
    /// `addr`.
    pub fn mem_hint(&self, addr: i32, probe: &AddrProbe) -> (res: Option<String>)
        requires
            self.wf(),
        ensures
            opt_view(res) == hint_spec(self.header, addr, *probe),
    {
        if addr == 0 {
            return Some(owned("NULL"));
        }
        let dl = self.header.data_length;
        let ll = self.header.lit_length;
        let bl = self.header.bss_length;
        let lit0 = dl;
        let bss0 = dl + ll;
        let bss1 = bss0 + bl;
        let a = addr;
        if a < 0 || a >= bss1 {
            return None;
        }
        let mut h = owned("[0x");
        push_hex(&mut h, a as u64);
        push_str(&mut h, "]");
        assert(h@ =~= addr_tag(a as int));
        if a < lit0 {
            let mut d = owned(" data");
            match &probe.string {
                Some(sv) => {
                    push_str(&mut d, " = ");
                    push_str(&mut d, "\"");
                    let c = clip(sv.as_str(), 60);
                    push_str(&mut d, c.as_str());
                    push_str(&mut d, "\"");
                },
                None => match probe.word {
                    Some(v) => {
                        push_str(&mut d, " = ");
                        push_dec(&mut d, v as i64);
                        push_str(&mut d, " (0x");
                        push_hex(&mut d, (v as u32) as u64);
                        push_str(&mut d, ")");
                    },
                    None => {},
                },
            }
            assert(d@ =~= " data"@ + data_detail(*probe));
            push_str(&mut h, d.as_str());
            assert(h@ =~= addr_tag(a as int) + " data"@ + data_detail(*probe));
            return Some(h);
        }
        if a < bss0 {
            let mut d = owned(" lit");
            match &probe.float_text {
                Some(ft) => {
                    push_str(&mut d, " = float ");
                    push_str(&mut d, ft.as_str());
                },
                None => {},
            }
            match &probe.string {
                Some(sv) => {
                    push_str(&mut d, "; string ");
                    push_str(&mut d, "\"");
                    let c = clip(sv.as_str(), 60);
                    push_str(&mut d, c.as_str());
                    push_str(&mut d, "\"");
                },
                None => {},
            }
            assert(d@ =~= " lit"@ + lit_detail(*probe));
            push_str(&mut h, d.as_str());
            assert(h@ =~= addr_tag(a as int) + " lit"@ + lit_detail(*probe));
            return Some(h);
        }
        push_str(&mut h, " BSS = runtime global (zero at load)");
        Some(h)
    }

    /// The instruction range of function `idx` to decompile.
    pub fn decompile_span(&self, idx: usize) -> (res: Result<(usize, usize), String>)
        requires
            self.wf(),
        ensures
            res_view(res) == (if idx < self.fns.len() {
                Ok::<(usize, usize), Seq<char>>((self.fns@[idx as int].entry, self.fns@[idx as int].end))
            } else {
                Err("bad fn index"@)
            }),
    {
        if idx < self.fns.len() {
            Ok((self.fns[idx].entry, self.fns[idx].end))
        } else {
            Err(owned("bad fn index"))
        }
    }

    /// Frame size of a function whose control-flow graph starts at
    /// instruction `entry`: the operand of that (`ENTER`) instruction, or 0.
    pub fn frame_at(&self, entry: usize) -> (res: i32)
        requires
            entry < self.insns.len(),
        ensures
            res == match self.insns@[entry as int].operand {
                Some(o) => o,
                None => 0,
            },
    {
        match self.insns[entry].operand {
            Some(o) => o,
            None => 0,
        }
    }

    /// Header fields, module, function and string counts.
    pub fn session_info(&self) -> (res: SessionInfo)
        requires
            self.wf(),
        ensures
            info_of(res, *self),
    {
        SessionInfo {
            path: self.header.path.clone(),
            module: self.header.module.clone(),
            vm_magic: self.header.vm_magic,
            instruction_count: self.header.instruction_count,
            code_length: self.header.code_length,
            data_length: self.header.data_length,
            lit_length: self.header.lit_length,
            bss_length: self.header.bss_length,
            functions: self.fns.len(),
            strings: self.lit_strings.len(),
            named_functions: self.named_functions(),
        }
    }

    /// Number of functions that carry a name.
    pub fn named_functions(&self) -> (res: usize)
        requires
            self.wf(),
        ensures
            res == named_count(self.rows(), self.fns.len() as int),
    {
        let ghost rows = self.rows();
        let mut n: usize = 0;
        let mut i: usize = 0;
        while i < self.fns.len()
            invariant
                rows == self.rows(),
                i <= self.fns.len(),
                n == named_count(rows, i as int),
                n <= i,
            decreases self.fns.len() - i,
        {
            assert(rows[i as int].name == opt_view(self.fns@[i as int].name));
            if self.fns[i].name.is_some() {
                n += 1;
            }
            i += 1;
        }
        n
    }

    /// The string literals a function detail shows: the first 40, each
    /// clipped to 120 characters.
    pub fn detail_strings(&self, idx: usize) -> (res: Vec<String>)
        requires
            self.wf(),
            idx < self.fns.len(),
        ensures
            strs_view(res@) == Seq::new(
                if self.fns@[idx as int].strings.len() < 40 { self.fns@[idx as int].strings.len() as nat } else { 40 },
                |j: int| clipped(self.fns@[idx as int].strings@[j]@, 120),
            ),
    {
        let f = &self.fns[idx];
        let m = if f.strings.len() < 40 { f.strings.len() } else { 40 };
        let mut out: Vec<String> = Vec::new();
        let mut j: usize = 0;
        while j < m
            invariant
                idx < self.fns.len(),
                f == &self.fns@[idx as int],
                m <= f.strings.len(),
                j <= m,
                strs_view(out@) == Seq::new(j as nat, |k: int| clipped(f.strings@[k]@, 120)),
            decreases m - j,
        {
            let c = clip(f.strings[j].as_str(), 120);
            let ghost o0 = out@;
            out.push(c);
            assert(strs_view(out@) =~= strs_view(o0).push(clipped(f.strings@[j as int]@, 120)));
            assert(strs_view(out@) =~= Seq::new((j + 1) as nat, |k: int| clipped(f.strings@[k]@, 120)));
            j += 1;
        }
        out
    }

    /// Index, name and placeholder of function `i`, or only the index when
    /// there is no such function.
    pub fn fn_ref(&self, i: usize) -> (res: Option<(Option<String>, String)>)
        requires
            self.wf(),
        ensures
            match res {
                Some((nm, ph)) => i < self.fns.len() && opt_view(nm) == opt_view(self.fns@[i as int].name)
                    && ph@ == placeholder(i as int),
                None => i >= self.fns.len(),
            },
    {
        if i < self.fns.len() {
            let f = &self.fns[i];
            Some((clone_opt(&f.name), placeholder_of(f.idx)))
        } else {
            None
        }
    }

    /// The summaries of all functions.
    pub open spec fn rows(&self) -> Seq<FnRowView> {
        self.fns@.map_values(|f: FnRow| f@)
    }

    /// Internal consistency of a session.
    pub open spec fn wf(&self) -> bool {
        &&& layout_ok(self.header)
        &&& insns_ok(self.insns@)
        &&& forall|i: int| 0 <= i < self.fns.len() ==> {
            &&& (#[trigger] self.fns@[i]).idx == i
            &&& self.fns@[i].entry <= self.fns@[i].end <= self.insns.len()
            &&& forall|j: int| 0 <= j < self.fns@[i].callees.len() ==> #[trigger] self.fns@[i].callees@[j] < self.fns.len()
        }
        &&& self.callers.len() == self.fns.len()
        &&& forall|c: int| 0 <= c < self.callers.len() ==> (#[trigger] self.callers@[c])@ == callers_of(self.rows(), c as usize, self.fns.len() as int)
    }
}

/// Every callee found by a scan is a function index.
proof fn lemma_callees_in_range(ins: Seq<Insn>, spans: Seq<FnSpan>, entry: int, end: int, k: int)
    ensures
        forall|j: int| 0 <= j < scan_callees(ins, spans, entry, end, k).len() ==> #[trigger] scan_callees(ins, spans, entry, end, k)[j] < spans.len(),
    decreases k,
{
    if k > 0 {
        lemma_callees_in_range(ins, spans, entry, end, k - 1);
        let prev = scan_callees(ins, spans, entry, end, k - 1);
        let p = entry + k - 1;
        if call_site(ins, end, p) && ins[p].operand->0 >= 0 {
            let t = ins[p].operand->0 as int;
            lemma_first_index_bounds(entry_is(spans, t), spans.len() as int);
            if entry_index(spans, t) is Some {
                let x = entry_index(spans, t)->0 as usize;
                let cur = scan_callees(ins, spans, entry, end, k);
                assert(cur == push_new(prev, x));
                assert forall|j: int| 0 <= j < cur.len() implies #[trigger] cur[j] < spans.len() by {
                    if j < prev.len() {
                        assert(cur[j] == prev[j]);
                    }
                }
            }
        }
    }
}

/// For each function, its direct callers in index order.
fn callers_table(fns: &Vec<FnRow>) -> (res: Vec<Vec<usize>>)
    ensures
        res.len() == fns.len(),
        forall|c: int| 0 <= c < res.len() ==> (#[trigger] res@[c])@ == callers_of(fns@.map_values(|f: FnRow| f@), c as usize, fns.len() as int),
{
    let ghost rv = fns@.map_values(|f: FnRow| f@);
    let n = fns.len();
    let mut res: Vec<Vec<usize>> = Vec::new();
    let mut c: usize = 0;
    while c < n
        invariant
            n == fns.len(),
            rv == fns@.map_values(|f: FnRow| f@),
            c <= n,
            res.len() == c,
            forall|d: int| 0 <= d < c ==> (#[trigger] res@[d])@ == callers_of(rv, d as usize, n as int),
        decreases n - c,
    {
        let mut v: Vec<usize> = Vec::new();
        let mut f: usize = 0;
        while f < n
            invariant
                n == fns.len(),
                rv == fns@.map_values(|f: FnRow| f@),
                c < n,
                f <= n,
                v@ == callers_of(rv, c, f as int),
            decreases n - f,
        {
            assert(rv[f as int].callees == fns@[f as int].callees@);
            if contains_usize(&fns[f].callees, c) {
                v.push(f);
            }
            f += 1;
        }
        res.push(v);
        c += 1;
    }
    res
}

/// Builds the literal-segment string table.
fn scan_literals(probe: &Vec<Option<String>>, base: i32) -> (res: Vec<(i32, String)>)
    requires
        base + probe.len() <= i32::MAX,
    ensures
        lits_view(res@) == lit_scan(probes_view(probe@), base as int, 0),
{
    let ghost pv = probes_view(probe@);
    let n = probe.len();
    let mut res: Vec<(i32, String)> = Vec::new();
    let mut off: usize = 0;
    while off < n
        invariant
            n == probe.len(),
            pv == probes_view(probe@),
            base + n <= i32::MAX,
            off <= n,
            lit_scan(pv, base as int, 0) == lits_view(res@) + lit_scan(pv, base as int, off as int),
        decreases n - off,
    {
        let ghost r0 = res@;
        match &probe[off] {
            Some(s) => {
                let blen = s.as_str().len();
                assert(pv[off as int] == Some(s@));
                let addr = (base as i64 + off as i64) as i32;
                res.push((addr, s.clone()));
                assert(lits_view(res@) =~= lits_view(r0).push(((base + off) as i32, s@)));
                assert(lits_view(r0) + lit_scan(pv, base as int, off as int) =~= lits_view(r0) + (seq![((base + off) as i32, s@)] + lit_scan(pv, base as int, off + byte_len(s@) + 1)));
                assert(lits_view(res@) + lit_scan(pv, base as int, off + byte_len(s@) + 1) =~= lits_view(r0) + (seq![((base + off) as i32, s@)] + lit_scan(pv, base as int, off + byte_len(s@) + 1)));
                if blen >= n - off {
                    off = n;
                } else {
                    off = off + blen + 1;
                }
            },
            None => {
                off = off + 1;
            },
        }
    }
    assert(lits_view(res@) + lit_scan(pv, base as int, off as int) =~= lits_view(res@));
    res
}

} // verus!
