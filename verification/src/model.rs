//! Plain-value model of an opened QVM module: its header, its instructions
//! with what the loader reports about their operands, and its function
//! spans. Everything here is filled in by the program that loads the module.

use vstd::prelude::*;

verus! {

/// Instruction kinds the analysis tells apart.
#[derive(Clone, Copy, PartialEq, Eq, Structural, Debug)]
pub enum Op {
    /// `CONST` pushes its operand.
    Const,
    /// `CALL` calls the address (or syscall, when negative) on the stack.
    Call,
    /// Any other opcode.
    Other,
}

/// One disassembled instruction, with what the module reports about its
/// operand.
pub struct Insn {
    /// Position in the module's instruction list.
    pub idx: usize,
    pub op: Op,
    pub operand: Option<i32>,
    /// The loader's own rendering of the instruction (`idx addr OP operand`).
    pub text: String,
    /// The NUL-terminated string stored at the operand address, if any.
    pub string: Option<String>,
    /// For a negative operand: the name of syscall `-1 - operand` in the
    /// module's syscall table, if it has one.
    pub trap: Option<String>,
    /// For a non-negative operand: the function name known for that entry
    /// instruction, if any.
    pub callee_name: Option<String>,
}

/// Header fields of an opened module.
pub struct QvmHeader {
    pub path: String,
    /// `Game`, `CGame` or `Ui`.
    pub module: String,
    pub vm_magic: i32,
    pub instruction_count: i32,
    pub code_length: i32,
    pub data_length: i32,
    pub lit_length: i32,
    pub bss_length: i32,
}

/// One function as the module's function table reports it: instruction
/// range `entry..end` and its name, if one is known.
pub struct FnSpan {
    pub entry: usize,
    pub end: usize,
    pub name: Option<String>,
}

/// The characters of an optional string.
pub open spec fn opt_view(o: Option<String>) -> Option<Seq<char>> {
    match o {
        Some(s) => Some(s@),
        None => None,
    }
}

/// The characters of each string of a sequence.
pub open spec fn strs_view(v: Seq<String>) -> Seq<Seq<char>> {
    v.map_values(|s: String| s@)
}

/// A copy of an optional string.
pub fn clone_opt(o: &Option<String>) -> (res: Option<String>)
    ensures
        opt_view(res) == opt_view(*o),
{
    match o {
        Some(s) => Some(s.clone()),
        None => None,
    }
}

/// The first `j` in `0..n` for which `p` holds, if any.
pub open spec fn first_index(p: spec_fn(int) -> bool, n: int) -> Option<int> {
    if exists|j: int| 0 <= j < n && #[trigger] p(j) {
        Some(choose|j: int| 0 <= j < n && #[trigger] p(j) && forall|k: int| 0 <= k < j ==> !#[trigger] p(k))
    } else {
        None
    }
}

/// A least index where `p` holds is the first index.
pub proof fn lemma_first_index_found(p: spec_fn(int) -> bool, n: int, j: int)
    requires
        0 <= j < n,
        p(j),
        forall|k: int| 0 <= k < j ==> !#[trigger] p(k),
    ensures
        first_index(p, n) == Some(j),
{
    assert(0 <= j < n && p(j) && forall|k: int| 0 <= k < j ==> !#[trigger] p(k));
    let c = choose|c: int| 0 <= c < n && #[trigger] p(c) && forall|k: int| 0 <= k < c ==> !#[trigger] p(k);
    assert(c == j) by {
        if c < j {
            assert(!p(c));
        } else if c > j {
            assert(!p(j));
        }
    }
}

/// The first index lies below `n` and satisfies `p`.
pub proof fn lemma_first_index_bounds(p: spec_fn(int) -> bool, n: int)
    ensures
        first_index(p, n) matches Some(j) ==> 0 <= j < n && p(j),
{
    if exists|j: int| 0 <= j < n && #[trigger] p(j) {
        let w = choose|j: int| 0 <= j < n && #[trigger] p(j);
        lemma_least_witness(p, n, w);
    }
}

/// When `p` holds somewhere below `n`, it holds at a least index.
pub proof fn lemma_least_witness(p: spec_fn(int) -> bool, n: int, w: int)
    requires
        0 <= w < n,
        p(w),
    ensures
        exists|j: int| 0 <= j < n && #[trigger] p(j) && forall|k: int| 0 <= k < j ==> !#[trigger] p(k),
    decreases w,
{
    if exists|k: int| 0 <= k < w && #[trigger] p(k) {
        let k = choose|k: int| 0 <= k < w && #[trigger] p(k);
        lemma_least_witness(p, n, k);
    } else {
        assert(0 <= w < n && p(w) && forall|k: int| 0 <= k < w ==> !#[trigger] p(k));
    }
}

/// Without an index where `p` holds there is no first index.
pub proof fn lemma_first_index_none(p: spec_fn(int) -> bool, n: int)
    requires
        forall|k: int| 0 <= k < n ==> !#[trigger] p(k),
    ensures
        first_index(p, n) == None::<int>,
{
}

} // verus!
