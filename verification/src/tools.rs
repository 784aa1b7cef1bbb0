//! Tool surface: which tool a `tools/call` runs with which arguments, and
//! the filtered, paginated tables that the listing tools return.

use vstd::prelude::*;
use crate::index::{FnRow, FnRowView};
use crate::model::opt_view;
use crate::session::{info_of, SessionInfo, placeholder, placeholder_of, resolve_spec, res_view, lits_view, FnRef, Session};
use crate::text::{ascii_lower, is_ascii_text, dec, lowercase, occurs_in, owned, push_str, push_udec, str_contains, str_eq, to_lowercase};

verus! {

/// The arguments of a `tools/call`, as read from its JSON `arguments`
/// object: each field holds the member of that name when it has the
/// expected JSON type.
pub struct CallArgs {
    /// `path` as a string.
    pub path: Option<String>,
    /// `map_path` as a string.
    pub map_path: Option<String>,
    /// `filter` as a string.
    pub filter: Option<String>,
    /// `offset` as a non-negative integer.
    pub offset: Option<u64>,
    /// `limit` as a non-negative integer.
    pub limit: Option<u64>,
    /// `fn`, when present: an index, a name, or neither.
    pub fn_arg: Option<FnRef>,
    /// `address` as a signed integer.
    pub address: Option<i64>,
}

/// What a `tools/call` comes down to.
#[derive(Debug, PartialEq, Eq)]
pub enum ToolPlan {
    /// Load a module (and its map) and make it the session.
    Open { path: String, map_path: Option<String> },
    /// The tool failed: an `isError` result with this message.
    Failed(String),
    /// Protocol-level misuse: a JSON-RPC "invalid params" error.
    Rejected(String),
    SessionInfo,
    ListFunctions { filter: String, offset: usize, limit: usize },
    GetFunction(usize),
    Decompile(usize),
    Disassemble(usize),
    GetStrings { filter: String, offset: usize, limit: usize },
    XrefsTo(i32),
    MemHint(i32),
}

/// Abstract value of a [`ToolPlan`].
pub ghost enum PlanView {
    Open(Seq<char>, Option<Seq<char>>),
    Failed(Seq<char>),
    Rejected(Seq<char>),
    SessionInfo,
    ListFunctions(Seq<char>, usize, usize),
    GetFunction(usize),
    Decompile(usize),
    Disassemble(usize),
    GetStrings(Seq<char>, usize, usize),
    XrefsTo(i32),
    MemHint(i32),
}

impl View for ToolPlan {
    type V = PlanView;

    open spec fn view(&self) -> PlanView {
        match self {
            ToolPlan::Open { path, map_path } => PlanView::Open(path@, opt_view(*map_path)),
            ToolPlan::Failed(m) => PlanView::Failed(m@),
            ToolPlan::Rejected(m) => PlanView::Rejected(m@),
            ToolPlan::SessionInfo => PlanView::SessionInfo,
            ToolPlan::ListFunctions { filter, offset, limit } => PlanView::ListFunctions(filter@, *offset, *limit),
            ToolPlan::GetFunction(i) => PlanView::GetFunction(*i),
            ToolPlan::Decompile(i) => PlanView::Decompile(*i),
            ToolPlan::Disassemble(i) => PlanView::Disassemble(*i),
            ToolPlan::GetStrings { filter, offset, limit } => PlanView::GetStrings(filter@, *offset, *limit),
            ToolPlan::XrefsTo(a) => PlanView::XrefsTo(*a),
            ToolPlan::MemHint(a) => PlanView::MemHint(*a),
        }
    }
}

/// Rows shown when no `limit` is given.
pub open spec fn default_limit() -> u64 {
    200
}

/// The page size a `limit` argument asks for: 200 by default, kept within
/// 1..=2000.
pub open spec fn limit_of(l: Option<u64>) -> usize {
    let v = match l {
        Some(x) => x,
        None => default_limit(),
    };
    (if v < 1 { 1 } else if v > 2000 { 2000 } else { v }) as usize
}

/// The first row an `offset` argument asks for: 0 by default.
pub open spec fn offset_of(o: Option<u64>) -> usize {
    match o {
        Some(x) => x as usize,
        None => 0,
    }
}

/// The `filter` argument, or the empty string.
pub open spec fn filter_of(f: Option<String>) -> Seq<char> {
    match f {
        Some(s) => s@,
        None => seq![],
    }
}

/// The function a tool's `fn` argument designates, or what the call comes
/// down to without one: a missing argument makes the call malformed, an
/// argument that designates no function makes the tool fail.
pub open spec fn fn_arg_spec(rows: Seq<FnRowView>, a: Option<FnRef>) -> Result<usize, PlanView> {
    match a {
        None => Err(PlanView::Rejected("missing argument `fn`"@)),
        Some(r) => match resolve_spec(rows, r) {
            Ok(i) => Ok(i),
            Err(m) => Err(PlanView::Failed(m)),
        },
    }
}

/// A tool that takes a function argument, once the argument is resolved.
pub open spec fn with_fn_spec(rows: Seq<FnRowView>, a: Option<FnRef>, make: spec_fn(usize) -> PlanView) -> PlanView {
    match fn_arg_spec(rows, a) {
        Ok(i) => make(i),
        Err(p) => p,
    }
}

/// Abstract value of a resolved function argument or the plan without one.
pub open spec fn fn_arg_view(r: Result<usize, ToolPlan>) -> Result<usize, PlanView> {
    match r {
        Ok(i) => Ok(i),
        Err(p) => Err(p@),
    }
}

/// What a `tools/call` of `name` with `args` comes down to, given the
/// functions of the open session, if any.
pub open spec fn plan_spec(rows: Option<Seq<FnRowView>>, name: Seq<char>, args: CallArgs) -> PlanView {
    if name == "open_qvm"@ {
        match args.path {
            Some(p) => PlanView::Open(p@, opt_view(args.map_path)),
            None => PlanView::Rejected("open_qvm: missing string `path`"@),
        }
    } else {
        match rows {
            None => PlanView::Failed("no QVM loaded - call open_qvm first"@),
            Some(rows) => if name == "session_info"@ {
                PlanView::SessionInfo
            } else if name == "list_functions"@ {
                PlanView::ListFunctions(filter_of(args.filter), offset_of(args.offset), limit_of(args.limit))
            } else if name == "get_function"@ {
                with_fn_spec(rows, args.fn_arg, |i: usize| PlanView::GetFunction(i))
            } else if name == "decompile_function"@ {
                with_fn_spec(rows, args.fn_arg, |i: usize| PlanView::Decompile(i))
            } else if name == "disassemble_function"@ {
                with_fn_spec(rows, args.fn_arg, |i: usize| PlanView::Disassemble(i))
            } else if name == "get_strings"@ {
                PlanView::GetStrings(filter_of(args.filter), offset_of(args.offset), limit_of(args.limit))
            } else if name == "xrefs_to"@ {
                match args.address {
                    Some(a) => PlanView::XrefsTo(a as i32),
                    None => PlanView::Rejected("xrefs_to: missing integer `address`"@),
                }
            } else if name == "mem_hint"@ {
                match args.address {
                    Some(a) => PlanView::MemHint(a as i32),
                    None => PlanView::Rejected("mem_hint: missing integer `address`"@),
                }
            } else {
                PlanView::Rejected("unknown tool: "@ + name)
            },
        }
    }
}

/// The session's function summaries, when a session is open.
pub open spec fn rows_of(session: Option<&Session>) -> Option<Seq<FnRowView>> {
    match session {
        Some(s) => Some(s.rows()),
        None => None,
    }
}

fn limit_value(l: Option<u64>) -> (res: usize)
    ensures
        res == limit_of(l),
{
    let v = match l {
        Some(x) => x,
        None => 200,
    };
    if v < 1 {
        1
    } else if v > 2000 {
        2000
    } else {
        v as usize
    }
}

fn offset_value(o: Option<u64>) -> (res: usize)
    ensures
        res == offset_of(o),
{
    match o {
        Some(x) => x as usize,
        None => 0,
    }
}

fn filter_value(f: &Option<String>) -> (res: String)
    ensures
        res@ == filter_of(*f),
{
    match f {
        Some(s) => s.clone(),
        None => String::new(),
    }
}

/// The step after `open_qvm` loads a module: a loaded module (with the
/// loader's own image `X`) replaces the session and the tool answers with
/// its `session_info`; a failed load keeps the session as it was and the
/// tool fails with the load error.
pub fn finish_open<X>(slot: &mut Option<(X, Session)>, outcome: Result<(X, Session), String>) -> (res: Result<SessionInfo, String>)
    requires
        outcome matches Ok((_, s)) ==> s.wf(),
    ensures
        match outcome {
            Ok((x, s)) => *final(slot) == Some((x, s)) && (res matches Ok(i) && info_of(i, s)),
            Err(e) => *final(slot) == *old(slot) && (res matches Err(m) && m@ == e@),
        },
{
    match outcome {
        Ok(pair) => {
            let info = pair.1.session_info();
            *slot = Some(pair);
            Ok(info)
        },
        Err(e) => Err(e),
    }
}

/// Resolves the `fn` argument of a tool.
fn with_fn(s: &Session, a: &Option<FnRef>) -> (res: Result<usize, ToolPlan>)
    requires
        s.wf(),
    ensures
        fn_arg_view(res) == fn_arg_spec(s.rows(), *a),
{
    match a {
        None => Err(ToolPlan::Rejected(owned("missing argument `fn`"))),
        Some(r) => match s.resolve_fn(r) {
            Ok(i) => Ok(i),
            Err(m) => Err(ToolPlan::Failed(m)),
        },
    }
}

/// Dispatch one `tools/call`: `open_qvm` needs no session, every other tool
/// fails without one; malformed calls are rejected at protocol level, task
/// failures become failed results.
pub fn call(session: Option<&Session>, name: &str, args: &CallArgs) -> (res: ToolPlan)
    requires
        session matches Some(s) ==> s.wf(),
    ensures
        res@ == plan_spec(rows_of(session), name@, *args),
{
    if str_eq(name, "open_qvm") {
        return match &args.path {
            Some(p) => ToolPlan::Open { path: p.clone(), map_path: crate::model::clone_opt(&args.map_path) },
            None => ToolPlan::Rejected(owned("open_qvm: missing string `path`")),
        };
    }
    let s = match session {
        Some(s) => s,
        None => return ToolPlan::Failed(owned("no QVM loaded - call open_qvm first")),
    };
    if str_eq(name, "session_info") {
        ToolPlan::SessionInfo
    } else if str_eq(name, "list_functions") {
        ToolPlan::ListFunctions {
            filter: filter_value(&args.filter),
            offset: offset_value(args.offset),
            limit: limit_value(args.limit),
        }
    } else if str_eq(name, "get_function") {
        match with_fn(s, &args.fn_arg) {
            Ok(i) => ToolPlan::GetFunction(i),
            Err(p) => p,
        }
    } else if str_eq(name, "decompile_function") {
        match with_fn(s, &args.fn_arg) {
            Ok(i) => ToolPlan::Decompile(i),
            Err(p) => p,
        }
    } else if str_eq(name, "disassemble_function") {
        match with_fn(s, &args.fn_arg) {
            Ok(i) => ToolPlan::Disassemble(i),
            Err(p) => p,
        }
    } else if str_eq(name, "get_strings") {
        ToolPlan::GetStrings {
            filter: filter_value(&args.filter),
            offset: offset_value(args.offset),
            limit: limit_value(args.limit),
        }
    } else if str_eq(name, "xrefs_to") {
        match args.address {
            Some(a) => ToolPlan::XrefsTo(a as i32),
            None => ToolPlan::Rejected(owned("xrefs_to: missing integer `address`")),
        }
    } else if str_eq(name, "mem_hint") {
        match args.address {
            Some(a) => ToolPlan::MemHint(a as i32),
            None => ToolPlan::Rejected(owned("mem_hint: missing integer `address`")),
        }
    } else {
        let mut m = owned("unknown tool: ");
        push_str(&mut m, name);
        ToolPlan::Rejected(m)
    }
}

/// `s[offset..]` cut to at most `limit` elements.
pub open spec fn page<A>(s: Seq<A>, offset: int, limit: int) -> Seq<A> {
    let a = if offset < s.len() { offset } else { s.len() as int };
    let b = if a + limit < s.len() { a + limit } else { s.len() as int };
    s.subrange(a, b)
}

/// The elements of `v` that a page of `limit` rows from `offset` shows.
pub fn page_of(v: &Vec<usize>, offset: usize, limit: usize) -> (res: Vec<usize>)
    ensures
        res@ == page(v@, offset as int, limit as int),
{
    let n = v.len();
    let a = if offset < n { offset } else { n };
    let b = if limit < n - a { a + limit } else { n };
    let mut out: Vec<usize> = Vec::new();
    let mut i = a;
    while i < b
        invariant
            n == v.len(),
            a <= i <= b <= n,
            out@ == v@.subrange(a as int, i as int),
        decreases b - i,
    {
        out.push(v[i]);
        assert(out@ =~= v@.subrange(a as int, i + 1));
        i += 1;
    }
    out
}

/// Trap names and numbers of the first `k` pairs, each followed by a space.
pub open spec fn traps_text(t: Seq<(u32, Seq<char>)>, k: int) -> Seq<char>
    decreases k,
{
    if k <= 0 {
        seq![]
    } else {
        traps_text(t, k - 1) + t[k - 1].1 + " "@ + dec(t[k - 1].0 as int) + " "@
    }
}

/// The first `k` strings, each followed by a space.
pub open spec fn strings_text(v: Seq<Seq<char>>, k: int) -> Seq<char>
    decreases k,
{
    if k <= 0 {
        seq![]
    } else {
        strings_text(v, k - 1) + v[k - 1] + " "@
    }
}

/// Map name (when known) and placeholder of a function.
pub open spec fn display_names(r: FnRowView) -> Seq<char> {
    match r.name {
        Some(n) => n + " "@ + placeholder(r.idx as int),
        None => placeholder(r.idx as int),
    }
}

/// Text a function filter searches: map name, `fn_<idx>` placeholder,
/// `fn<idx>`, entry instruction, trap names and numbers, referenced strings.
pub open spec fn haystack(r: FnRowView) -> Seq<char> {
    display_names(r) + " fn"@ + dec(r.idx as int) + " "@ + dec(r.entry as int) + " "@ + traps_text(
        r.traps,
        r.traps.len() as int,
    ) + strings_text(r.strings, r.strings.len() as int)
}

/// Function `r` passes the lowercased filter `lf`: an empty filter passes
/// everything, else it must occur in the lowercased haystack.
pub open spec fn fn_matches(r: FnRowView, lf: Seq<char>) -> bool {
    lf.len() == 0 || occurs_in(lf, lowercase(haystack(r)))
}

/// Indices of the functions among the first `k` that pass `lf`.
pub open spec fn matching_fns(rows: Seq<FnRowView>, lf: Seq<char>, k: int) -> Seq<usize>
    decreases k,
{
    if k <= 0 {
        seq![]
    } else {
        let prev = matching_fns(rows, lf, k - 1);
        if fn_matches(rows[k - 1], lf) {
            prev.push((k - 1) as usize)
        } else {
            prev
        }
    }
}

/// A literal string passes a filter: an empty filter passes everything,
/// else the lowercased filter must occur in the lowercased string.
pub open spec fn string_matches(v: Seq<char>, filter: Seq<char>) -> bool {
    filter.len() == 0 || occurs_in(lowercase(filter), lowercase(v))
}

/// Positions of the literal strings among the first `k` that pass `filter`.
pub open spec fn matching_strings(lits: Seq<(i32, Seq<char>)>, filter: Seq<char>, k: int) -> Seq<usize>
    decreases k,
{
    if k <= 0 {
        seq![]
    } else {
        let prev = matching_strings(lits, filter, k - 1);
        if string_matches(lits[k - 1].1, filter) {
            prev.push((k - 1) as usize)
        } else {
            prev
        }
    }
}

/// With an empty filter every function matches.
pub proof fn lemma_empty_filter_matches_all(rows: Seq<FnRowView>, lf: Seq<char>, k: int)
    requires
        lf.len() == 0,
        0 <= k <= usize::MAX,
    ensures
        matching_fns(rows, lf, k) == Seq::new(k as nat, |j: int| j as usize),
    decreases k,
{
    if k > 0 {
        lemma_empty_filter_matches_all(rows, lf, k - 1);
        assert(matching_fns(rows, lf, k) =~= Seq::new(k as nat, |j: int| j as usize));
    } else {
        assert(matching_fns(rows, lf, k) =~= Seq::new(k as nat, |j: int| j as usize));
    }
}

/// With an empty filter every literal string matches.
pub proof fn lemma_empty_filter_keeps_all_strings(lits: Seq<(i32, Seq<char>)>, filter: Seq<char>, k: int)
    requires
        filter.len() == 0,
        0 <= k <= usize::MAX,
    ensures
        matching_strings(lits, filter, k) == Seq::new(k as nat, |j: int| j as usize),
    decreases k,
{
    if k > 0 {
        lemma_empty_filter_keeps_all_strings(lits, filter, k - 1);
        assert(matching_strings(lits, filter, k) =~= Seq::new(k as nat, |j: int| j as usize));
    } else {
        assert(matching_strings(lits, filter, k) =~= Seq::new(k as nat, |j: int| j as usize));
    }
}

/// The text a function filter searches.
pub fn fn_haystack(f: &FnRow) -> (res: String)
    ensures
        res@ == haystack(f@),
{
    let mut hay = match &f.name {
        Some(n) => {
            let mut h = n.clone();
            push_str(&mut h, " ");
            let ph = placeholder_of(f.idx);
            push_str(&mut h, ph.as_str());
            h
        },
        None => placeholder_of(f.idx),
    };
    push_str(&mut hay, " fn");
    push_udec(&mut hay, f.idx as u64);
    push_str(&mut hay, " ");
    push_udec(&mut hay, f.entry as u64);
    push_str(&mut hay, " ");
    let ghost head = hay@;
    let mut i: usize = 0;
    while i < f.traps.len()
        invariant
            i <= f.traps.len(),
            hay@ == head + traps_text(f@.traps, i as int),
        decreases f.traps.len() - i,
    {
        push_str(&mut hay, f.traps[i].1.as_str());
        push_str(&mut hay, " ");
        push_udec(&mut hay, f.traps[i].0 as u64);
        push_str(&mut hay, " ");
        assert(hay@ =~= head + traps_text(f@.traps, i + 1));
        i += 1;
    }
    let ghost mid = hay@;
    let mut j: usize = 0;
    while j < f.strings.len()
        invariant
            j <= f.strings.len(),
            hay@ == mid + strings_text(f@.strings, j as int),
        decreases f.strings.len() - j,
    {
        push_str(&mut hay, f.strings[j].as_str());
        push_str(&mut hay, " ");
        assert(hay@ =~= mid + strings_text(f@.strings, j + 1));
        j += 1;
    }
    assert(hay@ =~= haystack(f@));
    hay
}

/// Functions passing a case-insensitive substring filter over name,
/// placeholder, index, entry, trap names and numbers and referenced
/// strings: how many match, and the indices of the requested page.
pub fn list_functions(s: &Session, filter: &str, offset: usize, limit: usize) -> (res: (usize, Vec<usize>))
    requires
        s.wf(),
    ensures
        res.0 == matching_fns(s.rows(), lowercase(filter@), s.fns.len() as int).len(),
        res.1@ == page(matching_fns(s.rows(), lowercase(filter@), s.fns.len() as int), offset as int, limit as int),
        filter@.len() == 0 ==> matching_fns(s.rows(), lowercase(filter@), s.fns.len() as int)
            == Seq::new(s.fns.len() as nat, |j: int| j as usize),
        is_ascii_text(filter@) ==> lowercase(filter@) == ascii_lower(filter@),
        filter@.len() > 0 ==> forall|i: int| 0 <= i < s.fns.len() && is_ascii_text(#[trigger] haystack(s.rows()[i]))
            ==> lowercase(haystack(s.rows()[i])) == ascii_lower(haystack(s.rows()[i])),
{
    let lf = to_lowercase(filter);
    let ghost rows = s.rows();
    let mut matched: Vec<usize> = Vec::new();
    let mut i: usize = 0;
    while i < s.fns.len()
        invariant
            rows == s.rows(),
            lf@ == lowercase(filter@),
            i <= s.fns.len(),
            matched@ == matching_fns(rows, lf@, i as int),
            lf@.len() > 0 ==> forall|k: int| 0 <= k < i && is_ascii_text(#[trigger] haystack(rows[k]))
                ==> lowercase(haystack(rows[k])) == ascii_lower(haystack(rows[k])),
        decreases s.fns.len() - i,
    {
        assert(rows[i as int] == s.fns@[i as int]@);
        let keep = if lf.as_str().is_empty() {
            true
        } else {
            let hay = fn_haystack(&s.fns[i]);
            let lh = to_lowercase(hay.as_str());
            str_contains(lh.as_str(), lf.as_str())
        };
        if keep {
            matched.push(i);
        }
        i += 1;
    }
    proof {
        if filter@.len() == 0 {
            lemma_empty_filter_matches_all(rows, lf@, s.fns.len() as int);
        }
    }
    let rows_page = page_of(&matched, offset, limit);
    (matched.len(), rows_page)
}

/// Literal-segment strings passing a case-insensitive substring filter: how
/// many match, and the positions (in the string table) of the requested
/// page.
pub fn get_strings(s: &Session, filter: &str, offset: usize, limit: usize) -> (res: (usize, Vec<usize>))
    ensures
        res.0 == matching_strings(lits_view(s.lit_strings@), filter@, s.lit_strings.len() as int).len(),
        res.1@ == page(matching_strings(lits_view(s.lit_strings@), filter@, s.lit_strings.len() as int), offset as int, limit as int),
        filter@.len() == 0 ==> matching_strings(lits_view(s.lit_strings@), filter@, s.lit_strings.len() as int)
            == Seq::new(s.lit_strings.len() as nat, |j: int| j as usize),
        is_ascii_text(filter@) ==> lowercase(filter@) == ascii_lower(filter@),
{
    let ghost lits = lits_view(s.lit_strings@);
    let empty = filter.is_empty();
    let lf = to_lowercase(filter);
    let mut matched: Vec<usize> = Vec::new();
    let mut i: usize = 0;
    while i < s.lit_strings.len()
        invariant
            lits == lits_view(s.lit_strings@),
            empty == (filter@.len() == 0),
            lf@ == lowercase(filter@),
            i <= s.lit_strings.len(),
            matched@ == matching_strings(lits, filter@, i as int),
        decreases s.lit_strings.len() - i,
    {
        assert(lits[i as int].1 == s.lit_strings@[i as int].1@);
        let keep = if empty {
            true
        } else {
            let lv = to_lowercase(s.lit_strings[i].1.as_str());
            str_contains(lv.as_str(), lf.as_str())
        };
        if keep {
            matched.push(i);
        }
        i += 1;
    }
    proof {
        if filter@.len() == 0 {
            lemma_empty_filter_keeps_all_strings(lits, filter@, s.lit_strings.len() as int);
        }
    }
    let rows_page = page_of(&matched, offset, limit);
    (matched.len(), rows_page)
}

/// JSON type of a tool parameter.
#[derive(Clone, Copy, PartialEq, Eq, Structural, Debug)]
pub enum ParamKind {
    /// A string.
    Text,
    /// An integer.
    Integer,
    /// A function: a non-negative integer index or a string name.
    IndexOrName,
}

/// One parameter of a tool's input schema.
#[derive(Debug)]
pub struct ParamDef {
    pub name: &'static str,
    pub kind: ParamKind,
    pub description: Option<&'static str>,
    pub minimum: Option<i64>,
    pub maximum: Option<i64>,
}

/// A tool as `tools/list` describes it.
#[derive(Debug)]
pub struct ToolDef {
    pub name: &'static str,
    pub description: &'static str,
    pub params: Vec<ParamDef>,
    /// Names of the parameters the tool requires.
    pub required: Vec<&'static str>,
}

/// The tools, in `tools/list` order.
pub open spec fn tool_names() -> Seq<Seq<char>> {
    seq![
        "open_qvm"@,
        "session_info"@,
        "list_functions"@,
        "get_function"@,
        "decompile_function"@,
        "disassemble_function"@,
        "get_strings"@,
        "xrefs_to"@,
        "mem_hint"@,
    ]
}

/// Description of each tool, in `tools/list` order.
pub open spec fn tool_descriptions() -> Seq<Seq<char>> {
    seq![
        "Load a .qvm file as the analysis session. Optional map_path adds q3asm symbol names (by default a sibling .map is picked up automatically). Replaces the currently open QVM."@,
        "Info about the currently open QVM: header fields, module, function/string counts."@,
        "List functions (index, entry..end instruction range, name, size, traps). Supports substring filter and pagination."@,
        "Detail one function: traps, string literals, callees and callers."@,
        "Identity C decompilation of one function (stack -> SSA -> C)."@,
        "Instruction listing of one function with string/syscall/call annotations."@,
        "String literals from the literal segment, in address order. Supports substring filter and pagination."@,
        "Functions referencing a data address through CONST (with hit counts)."@,
        "Classify one memory address: data value, string, float literal, BSS global, NULL, or outside memory."@,
    ]
}

/// A parameter's name, type, description and bounds.
pub open spec fn shape(p: ParamDef) -> (Seq<char>, ParamKind, Option<Seq<char>>, Option<i64>, Option<i64>) {
    (p.name@, p.kind, match p.description {
        Some(d) => Some(d@),
        None => None,
    }, p.minimum, p.maximum)
}

/// The paging parameters of the listing tools.
pub open spec fn paging_shapes(filter_description: Option<Seq<char>>) -> Seq<(Seq<char>, ParamKind, Option<Seq<char>>, Option<i64>, Option<i64>)> {
    seq![
        ("filter"@, ParamKind::Text, filter_description, None, None),
        ("offset"@, ParamKind::Integer, None, Some(0i64), None),
        ("limit"@, ParamKind::Integer, None, Some(1i64), Some(2000i64)),
    ]
}

/// The function parameter of the function tools.
pub open spec fn fn_shapes() -> Seq<(Seq<char>, ParamKind, Option<Seq<char>>, Option<i64>, Option<i64>)> {
    seq![(
        "fn"@,
        ParamKind::IndexOrName,
        Some("Function: integer index or string name (map name or fn_<idx> placeholder)"@),
        Some(0i64),
        None,
    )]
}

/// Parameters of each tool (name, type, description, bounds), in
/// `tools/list` order.
pub open spec fn tool_params() -> Seq<Seq<(Seq<char>, ParamKind, Option<Seq<char>>, Option<i64>, Option<i64>)>> {
    seq![
        seq![
            ("path"@, ParamKind::Text, Some("Path to the .qvm file"@), None, None),
            ("map_path"@, ParamKind::Text, Some("Optional q3asm .map file with function names"@), None, None),
        ],
        seq![],
        paging_shapes(Some("Case-insensitive substring over name/placeholder/trap names/string literals"@)),
        fn_shapes(),
        fn_shapes(),
        fn_shapes(),
        paging_shapes(None),
        seq![("address"@, ParamKind::Integer, Some("VM memory address (data/lit/BSS)"@), None, None)],
        seq![("address"@, ParamKind::Integer, None, None, None)],
    ]
}

/// Required parameters of each tool, in `tools/list` order.
pub open spec fn tool_required() -> Seq<Seq<Seq<char>>> {
    seq![
        seq!["path"@],
        seq![],
        seq![],
        seq!["fn"@],
        seq!["fn"@],
        seq!["fn"@],
        seq![],
        seq!["address"@],
        seq!["address"@],
    ]
}

/// Names, types, descriptions and bounds of a list of parameters.
pub open spec fn param_shapes(ps: Seq<ParamDef>) -> Seq<(Seq<char>, ParamKind, Option<Seq<char>>, Option<i64>, Option<i64>)> {
    ps.map_values(|p: ParamDef| shape(p))
}

/// The characters of each `&str` of a list.
pub open spec fn names_view(v: Seq<&'static str>) -> Seq<Seq<char>> {
    v.map_values(|s: &'static str| s@)
}

fn param(
    name: &'static str,
    kind: ParamKind,
    description: Option<&'static str>,
    minimum: Option<i64>,
    maximum: Option<i64>,
) -> (res: ParamDef)
    ensures
        res.name == name,
        res.kind == kind,
        res.description == description,
        res.minimum == minimum,
        res.maximum == maximum,
{
    ParamDef { name, kind, description, minimum, maximum }
}

fn fn_param() -> (res: ParamDef)
    ensures
        shape(res) == fn_shapes()[0],
{
    param(
        "fn",
        ParamKind::IndexOrName,
        Some("Function: integer index or string name (map name or fn_<idx> placeholder)"),
        Some(0),
        None,
    )
}

fn paging_params(filter_description: Option<&'static str>) -> (res: Vec<ParamDef>)
    ensures
        param_shapes(res@) == paging_shapes(match filter_description {
            Some(d) => Some(d@),
            None => None,
        }),
{
    let mut v: Vec<ParamDef> = Vec::new();
    v.push(param("filter", ParamKind::Text, filter_description, None, None));
    v.push(param("offset", ParamKind::Integer, None, Some(0), None));
    v.push(param("limit", ParamKind::Integer, None, Some(1), Some(2000)));
    assert(param_shapes(v@) =~= paging_shapes(match filter_description {
        Some(d) => Some(d@),
        None => None,
    }));
    v
}

/// Tool descriptions and input schemas, in `tools/list` order.
pub fn definitions() -> (res: Vec<ToolDef>)
    ensures
        res.len() == 9,
        forall|i: int| 0 <= i < 9 ==> {
            &&& (#[trigger] res@[i]).name@ == tool_names()[i]
            &&& res@[i].description@ == tool_descriptions()[i]
            &&& param_shapes(res@[i].params@) == tool_params()[i]
            &&& names_view(res@[i].required@) == tool_required()[i]
        },
{
    let mut tools: Vec<ToolDef> = Vec::new();

    let mut p: Vec<ParamDef> = Vec::new();
    p.push(param("path", ParamKind::Text, Some("Path to the .qvm file"), None, None));
    p.push(param("map_path", ParamKind::Text, Some("Optional q3asm .map file with function names"), None, None));
    tools.push(ToolDef {
        name: "open_qvm",
        description: "Load a .qvm file as the analysis session. Optional map_path adds q3asm symbol names (by default a sibling .map is picked up automatically). Replaces the currently open QVM.",
        params: p,
        required: vec!["path"],
    });
    tools.push(ToolDef {
        name: "session_info",
        description: "Info about the currently open QVM: header fields, module, function/string counts.",
        params: Vec::new(),
        required: Vec::new(),
    });
    tools.push(ToolDef {
        name: "list_functions",
        description: "List functions (index, entry..end instruction range, name, size, traps). Supports substring filter and pagination.",
        params: paging_params(Some("Case-insensitive substring over name/placeholder/trap names/string literals")),
        required: Vec::new(),
    });
    tools.push(ToolDef {
        name: "get_function",
        description: "Detail one function: traps, string literals, callees and callers.",
        params: vec![fn_param()],
        required: vec!["fn"],
    });
    tools.push(ToolDef {
        name: "decompile_function",
        description: "Identity C decompilation of one function (stack -> SSA -> C).",
        params: vec![fn_param()],
        required: vec!["fn"],
    });
    tools.push(ToolDef {
        name: "disassemble_function",
        description: "Instruction listing of one function with string/syscall/call annotations.",
        params: vec![fn_param()],
        required: vec!["fn"],
    });
    tools.push(ToolDef {
        name: "get_strings",
        description: "String literals from the literal segment, in address order. Supports substring filter and pagination.",
        params: paging_params(None),
        required: Vec::new(),
    });
    tools.push(ToolDef {
        name: "xrefs_to",
        description: "Functions referencing a data address through CONST (with hit counts).",
        params: vec![param("address", ParamKind::Integer, Some("VM memory address (data/lit/BSS)"), None, None)],
        required: vec!["address"],
    });
    tools.push(ToolDef {
        name: "mem_hint",
        description: "Classify one memory address: data value, string, float literal, BSS global, NULL, or outside memory.",
        params: vec![param("address", ParamKind::Integer, None, None, None)],
        required: vec!["address"],
    });
    assert(param_shapes(tools@[0].params@) =~= tool_params()[0]);
    assert(param_shapes(tools@[1].params@) =~= tool_params()[1]);
    assert(param_shapes(tools@[3].params@) =~= tool_params()[3]);
    assert(param_shapes(tools@[4].params@) =~= tool_params()[4]);
    assert(param_shapes(tools@[5].params@) =~= tool_params()[5]);
    assert(param_shapes(tools@[7].params@) =~= tool_params()[7]);
    assert(param_shapes(tools@[8].params@) =~= tool_params()[8]);
    assert(names_view(tools@[0].required@) =~= tool_required()[0]);
    assert(names_view(tools@[1].required@) =~= tool_required()[1]);
    assert(names_view(tools@[2].required@) =~= tool_required()[2]);
    assert(names_view(tools@[3].required@) =~= tool_required()[3]);
    assert(names_view(tools@[4].required@) =~= tool_required()[4]);
    assert(names_view(tools@[5].required@) =~= tool_required()[5]);
    assert(names_view(tools@[6].required@) =~= tool_required()[6]);
    assert(names_view(tools@[7].required@) =~= tool_required()[7]);
    assert(names_view(tools@[8].required@) =~= tool_required()[8]);
    tools
}

} // verus!
