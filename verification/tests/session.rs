use resq_mcp::model::{FnSpan, Insn, Op, QvmHeader};
use resq_mcp::session::{open_inputs_ok, AddrProbe, FnRef, Session};

fn insn(idx: usize, op: Op, operand: Option<i32>, text: &str) -> Insn {
    Insn {
        idx,
        op,
        operand,
        text: text.to_string(),
        string: None,
        trap: None,
        callee_name: None,
    }
}

fn header(data: i32, lit: i32, bss: i32) -> QvmHeader {
    QvmHeader {
        path: "smoke.qvm".to_string(),
        module: "Game".to_string(),
        vm_magic: 0x12721444,
        instruction_count: 9,
        code_length: 45,
        data_length: data,
        lit_length: lit,
        bss_length: bss,
    }
}

/// Two functions: `main` (0..6) prints a string through syscall 4 and calls
/// the unnamed function at instruction 6, which references the same string.
fn sample() -> Session {
    let mut v = Vec::new();
    v.push(insn(0, Op::Other, Some(8), "0 0 ENTER 8"));
    let mut i1 = insn(1, Op::Const, Some(100), "1 5 CONST 100");
    i1.string = Some("hello".to_string());
    v.push(i1);
    let mut i2 = insn(2, Op::Const, Some(-5), "2 10 CONST -5");
    i2.trap = Some("trap_Print".to_string());
    v.push(i2);
    v.push(insn(3, Op::Call, None, "3 15 CALL"));
    let mut i4 = insn(4, Op::Const, Some(6), "4 16 CONST 6");
    i4.callee_name = Some("helper".to_string());
    v.push(i4);
    v.push(insn(5, Op::Call, None, "5 21 CALL"));
    v.push(insn(6, Op::Other, Some(16), "6 22 ENTER 16"));
    let mut i7 = insn(7, Op::Const, Some(100), "7 27 CONST 100");
    i7.string = Some("hello".to_string());
    v.push(i7);
    v.push(insn(8, Op::Other, Some(16), "8 32 LEAVE 16"));
    let spans = vec![
        FnSpan { entry: 0, end: 6, name: Some("main".to_string()) },
        FnSpan { entry: 6, end: 9, name: None },
    ];
    // literal segment: 200..208 holds "ab\0" at 200 and "xyz\0" at 204
    let mut probe = vec![None; 8];
    probe[0] = Some("ab".to_string());
    probe[1] = Some("b".to_string());
    probe[4] = Some("xyz".to_string());
    probe[5] = Some("yz".to_string());
    Session::open(header(200, 8, 64), v, spans, probe, 8)
}

#[test]
fn open_builds_function_rows() {
    let s = sample();
    assert_eq!(s.fns.len(), 2);
    let f = &s.fns[0];
    assert_eq!((f.idx, f.entry, f.end), (0, 0, 6));
    assert_eq!(f.name.as_deref(), Some("main"));
    assert_eq!(f.traps, vec![(4u32, "trap_Print".to_string())]);
    assert_eq!(f.strings, vec!["hello".to_string()]);
    assert_eq!(f.callees, vec![1]);
    let g = &s.fns[1];
    assert_eq!(g.name, None);
    assert_eq!(g.strings, vec!["hello".to_string()]);
    assert!(g.traps.is_empty());
    assert!(g.callees.is_empty());
}

#[test]
fn callers_mirror_callees() {
    let s = sample();
    assert_eq!(s.callers[1], vec![0]);
    assert!(s.callers[0].is_empty());
}

#[test]
fn literal_table_skips_past_each_string() {
    let s = sample();
    assert_eq!(
        s.lit_strings,
        vec![(200, "ab".to_string()), (204, "xyz".to_string())]
    );
}

#[test]
fn unknown_trap_name_is_question_mark() {
    let mut v = Vec::new();
    v.push(insn(0, Op::Const, Some(-1), "0 0 CONST -1"));
    v.push(insn(1, Op::Call, None, "1 5 CALL"));
    v.push(insn(2, Op::Const, Some(-1), "2 6 CONST -1"));
    v.push(insn(3, Op::Call, None, "3 11 CALL"));
    let spans = vec![FnSpan { entry: 0, end: 4, name: None }];
    let s = Session::open(header(0, 0, 0), v, spans, Vec::new(), 0);
    assert_eq!(s.fns[0].traps, vec![(0u32, "?".to_string())]);
}

#[test]
fn call_at_range_end_is_not_a_call_site() {
    // the CALL after the last CONST belongs to the next function
    let mut v = Vec::new();
    v.push(insn(0, Op::Const, Some(-3), "0 0 CONST -3"));
    v.push(insn(1, Op::Call, None, "1 5 CALL"));
    let spans = vec![
        FnSpan { entry: 0, end: 1, name: None },
        FnSpan { entry: 1, end: 2, name: None },
    ];
    let s = Session::open(header(0, 0, 0), v, spans, Vec::new(), 0);
    assert!(s.fns[0].traps.is_empty());
}

#[test]
fn resolve_by_index_name_and_placeholder() {
    let s = sample();
    assert_eq!(s.resolve_fn(&FnRef::Index(1)), Ok(1));
    assert_eq!(s.resolve_fn(&FnRef::Name("main".to_string())), Ok(0));
    assert_eq!(s.resolve_fn(&FnRef::Name("fn_1".to_string())), Ok(1));
    assert_eq!(s.resolve_fn(&FnRef::Name("fn_0".to_string())), Ok(0));
}

#[test]
fn resolve_errors() {
    let s = sample();
    assert_eq!(
        s.resolve_fn(&FnRef::Index(7)),
        Err("fn index 7 out of range (0..2)".to_string())
    );
    assert_eq!(
        s.resolve_fn(&FnRef::Name("nope".to_string())),
        Err("no function named \"nope\"".to_string())
    );
    assert_eq!(
        s.resolve_fn(&FnRef::Invalid),
        Err("fn must be an integer index or a string name".to_string())
    );
}

#[test]
fn map_name_shadows_placeholder() {
    let v = vec![insn(0, Op::Other, None, "a"), insn(1, Op::Other, None, "b")];
    let spans = vec![
        FnSpan { entry: 0, end: 1, name: None },
        FnSpan { entry: 1, end: 2, name: Some("fn_0".to_string()) },
    ];
    let s = Session::open(header(0, 0, 0), v, spans, Vec::new(), 0);
    assert_eq!(s.resolve_fn(&FnRef::Name("fn_0".to_string())), Ok(1));
    assert_eq!(s.resolve_fn(&FnRef::Name("fn_1".to_string())), Ok(1));
}

#[test]
fn xrefs_count_const_references() {
    let s = sample();
    assert_eq!(s.xrefs_to(100), vec![(0, 1), (1, 1)]);
    assert_eq!(s.xrefs_to(6), vec![(0, 1)]);
    assert_eq!(s.xrefs_to(12345), vec![]);
}

#[test]
fn disassembly_annotates_call_sites() {
    let s = sample();
    assert_eq!(
        s.disasm_text(0),
        "0 0 ENTER 8\n\
         1 5 CONST 100  ; \"hello\"\n\
         2 10 CONST -5  ; syscall 4 trap_Print\n\
         3 15 CALL\n\
         4 16 CONST 6  ; call helper\n\
         5 21 CALL\n"
    );
    assert_eq!(
        s.disasm_text(1),
        "6 22 ENTER 16\n7 27 CONST 100  ; \"hello\"\n8 32 LEAVE 16\n"
    );
}

#[test]
fn disassembly_without_names() {
    let v = vec![
        insn(0, Op::Const, Some(-2), "0 CONST -2"),
        insn(1, Op::Call, None, "1 CALL"),
        insn(2, Op::Const, Some(26), "2 CONST 26"),
        insn(3, Op::Call, None, "3 CALL"),
    ];
    let spans = vec![FnSpan { entry: 0, end: 4, name: None }];
    let s = Session::open(header(0, 0, 0), v, spans, Vec::new(), 0);
    assert_eq!(
        s.disasm_text(0),
        "0 CONST -2  ; syscall 1\n1 CALL\n2 CONST 26  ; call fn@1a\n3 CALL\n"
    );
}

fn no_probe() -> AddrProbe {
    AddrProbe { string: None, word: None, float_text: None }
}

#[test]
fn mem_hint_classifies_addresses() {
    let s = sample();
    assert_eq!(s.mem_hint(0, &no_probe()), Some("NULL".to_string()));
    assert_eq!(s.mem_hint(-4, &no_probe()), None);
    assert_eq!(s.mem_hint(272, &no_probe()), None);
    assert_eq!(
        s.mem_hint(271, &no_probe()),
        Some("[0x10f] BSS = runtime global (zero at load)".to_string())
    );
    let word = AddrProbe { string: None, word: Some(5), float_text: None };
    assert_eq!(s.mem_hint(16, &word), Some("[0x10] data = 5 (0x5)".to_string()));
    let neg = AddrProbe { string: None, word: Some(-1), float_text: None };
    assert_eq!(
        s.mem_hint(16, &neg),
        Some("[0x10] data = -1 (0xffffffff)".to_string())
    );
    let text = AddrProbe { string: Some("g_gametype".to_string()), word: Some(5), float_text: None };
    assert_eq!(
        s.mem_hint(150, &text),
        Some("[0x96] data = \"g_gametype\"".to_string())
    );
    assert_eq!(s.mem_hint(20, &no_probe()), Some("[0x14] data".to_string()));
}

#[test]
fn mem_hint_literal_segment() {
    let s = sample();
    let lit = AddrProbe {
        string: Some("ab".to_string()),
        word: None,
        float_text: Some("0.001".to_string()),
    };
    assert_eq!(
        s.mem_hint(200, &lit),
        Some("[0xc8] lit = float 0.001; string \"ab\"".to_string())
    );
    assert_eq!(s.mem_hint(207, &no_probe()), Some("[0xcf] lit".to_string()));
    assert_eq!(s.lit_float_offset(200), Some(0));
    assert_eq!(s.lit_float_offset(204), Some(4));
    assert_eq!(s.lit_float_offset(205), None);
    assert_eq!(s.lit_float_offset(100), None);
}

#[test]
fn decompile_span_and_frame() {
    let s = sample();
    assert_eq!(s.decompile_span(1), Ok((6, 9)));
    assert_eq!(s.decompile_span(2), Err("bad fn index".to_string()));
    assert_eq!(s.frame_at(6), 16);
    assert_eq!(s.frame_at(3), 0);
}

#[test]
fn detail_strings_are_limited_and_clipped() {
    let mut v = Vec::new();
    for i in 0..50 {
        let mut c = insn(i, Op::Const, Some(i as i32 + 1000), "CONST");
        c.string = Some(format!("s{}{}", i, "x".repeat(130)));
        v.push(c);
    }
    let spans = vec![FnSpan { entry: 0, end: 50, name: None }];
    let s = Session::open(header(0, 0, 0), v, spans, Vec::new(), 0);
    let d = s.detail_strings(0);
    assert_eq!(d.len(), 40);
    assert_eq!(d[0].chars().count(), 121);
    assert!(d[0].ends_with('\u{2026}'));
    assert!(d[0].starts_with("s0xxx"));
}

#[test]
fn fn_ref_and_named_count() {
    let s = sample();
    assert_eq!(s.fn_ref(0), Some((Some("main".to_string()), "fn_0".to_string())));
    assert_eq!(s.fn_ref(1), Some((None, "fn_1".to_string())));
    assert_eq!(s.fn_ref(2), None);
    assert_eq!(s.named_functions(), 1);
}

#[test]
fn minimal_module_session() {
    // ENTER 16; LEAVE 16 in one function, 64 bytes of BSS
    let v = vec![
        insn(0, Op::Other, Some(16), "0 0 ENTER 16"),
        insn(1, Op::Other, Some(16), "1 5 LEAVE 16"),
    ];
    let spans = vec![FnSpan { entry: 0, end: 2, name: None }];
    let mut h = header(0, 0, 64);
    h.instruction_count = 2;
    let s = Session::open(h, v, spans, Vec::new(), 0);
    assert_eq!(s.fns.len(), 1);
    assert_eq!(s.header.instruction_count, 2);
    assert_eq!(s.named_functions(), 0);
    assert!(s.lit_strings.is_empty());
    assert_eq!(s.resolve_fn(&FnRef::Name("fn_0".to_string())), Ok(0));
    assert_eq!(s.decompile_span(0), Ok((0, 2)));
    assert_eq!(s.frame_at(0), 16);
    assert!(s.resolve_fn(&FnRef::Name("nope".to_string())).is_err());
    assert_eq!(s.mem_hint(8, &no_probe()), Some("[0x8] BSS = runtime global (zero at load)".to_string()));
}

#[test]
fn open_inputs_are_checked() {
    let v = vec![insn(0, Op::Other, None, "a")];
    let ok = vec![FnSpan { entry: 0, end: 1, name: None }];
    let bad = vec![FnSpan { entry: 0, end: 2, name: None }];
    assert!(open_inputs_ok(&header(0, 0, 0), &v, &ok, &Vec::new()));
    assert!(!open_inputs_ok(&header(0, 0, 0), &v, &bad, &Vec::new()));
    assert!(!open_inputs_ok(&header(0, 2, 0), &v, &ok, &Vec::new()));
    // negative lengths are accepted as long as the segment bounds fit
    assert!(open_inputs_ok(&header(-1, 0, 0), &v, &ok, &Vec::new()));
    assert!(open_inputs_ok(&header(0, -4, 0), &v, &ok, &Vec::new()));
    assert!(!open_inputs_ok(&header(0, -4, 0), &v, &ok, &vec![None]));
    assert!(!open_inputs_ok(&header(i32::MAX, 1, 0), &v, &ok, &vec![None]));
    assert!(!open_inputs_ok(&header(i32::MIN, -1, 0), &v, &ok, &Vec::new()));
    let misnumbered = vec![insn(3, Op::Other, None, "a")];
    assert!(!open_inputs_ok(&header(0, 0, 0), &misnumbered, &ok, &Vec::new()));
}

#[test]
fn summaries_list_each_item_once() {
    let mut v = Vec::new();
    for i in 0..3 {
        let mut c = insn(2 * i, Op::Const, Some(-8), "CONST -8");
        c.string = Some("same".to_string());
        c.trap = Some("trap_Cvar".to_string());
        v.push(c);
        v.push(insn(2 * i + 1, Op::Call, None, "CALL"));
    }
    let spans = vec![FnSpan { entry: 0, end: 6, name: None }];
    let s = Session::open(header(0, 0, 0), v, spans, Vec::new(), 0);
    assert_eq!(s.fns[0].strings, vec!["same".to_string()]);
    assert_eq!(s.fns[0].traps, vec![(7u32, "trap_Cvar".to_string())]);
}

#[test]
fn recursive_call_lists_itself_as_caller() {
    let mut c = insn(0, Op::Const, Some(0), "CONST 0");
    c.callee_name = Some("loop".to_string());
    let v = vec![c, insn(1, Op::Call, None, "CALL")];
    let spans = vec![FnSpan { entry: 0, end: 2, name: Some("loop".to_string()) }];
    let s = Session::open(header(0, 0, 0), v, spans, Vec::new(), 0);
    assert_eq!(s.fns[0].callees, vec![0]);
    assert_eq!(s.callers[0], vec![0]);
}

#[test]
fn first_function_with_a_map_name_wins() {
    let v = vec![insn(0, Op::Other, None, "a"), insn(1, Op::Other, None, "b")];
    let spans = vec![
        FnSpan { entry: 0, end: 1, name: Some("thunk".to_string()) },
        FnSpan { entry: 1, end: 2, name: Some("thunk".to_string()) },
    ];
    let s = Session::open(header(0, 0, 0), v, spans, Vec::new(), 0);
    assert_eq!(s.resolve_fn(&FnRef::Name("thunk".to_string())), Ok(0));
}

#[test]
fn empty_name_and_odd_placeholders_do_not_resolve() {
    let s = sample();
    assert!(s.resolve_fn(&FnRef::Name(String::new())).is_err());
    assert!(s.resolve_fn(&FnRef::Name("fn_01".to_string())).is_err());
    assert!(s.resolve_fn(&FnRef::Name("fn_2".to_string())).is_err());
    assert!(s.resolve_fn(&FnRef::Name("MAIN".to_string())).is_err());
}

#[test]
fn negative_lengths_are_served() {
    let v = vec![insn(0, Op::Other, None, "a")];
    let spans = vec![FnSpan { entry: 0, end: 1, name: None }];
    let s = Session::open(header(16, -4, 8), v, spans, Vec::new(), 0);
    assert!(s.lit_strings.is_empty());
    // data below 16, then BSS up to 20 (the literal segment is empty)
    assert_eq!(s.mem_hint(14, &no_probe()), Some("[0xe] data".to_string()));
    assert_eq!(s.mem_hint(17, &no_probe()), Some("[0x11] BSS = runtime global (zero at load)".to_string()));
    assert_eq!(s.mem_hint(20, &no_probe()), None);
    assert_eq!(s.lit_float_offset(17), None);
}

#[test]
fn literal_table_below_zero() {
    let v = vec![insn(0, Op::Other, None, "a")];
    let spans = vec![FnSpan { entry: 0, end: 1, name: None }];
    let probe = vec![Some("ab".to_string()), None, None, Some("c".to_string())];
    let s = Session::open(header(-8, 4, 0), v, spans, probe, 4);
    assert_eq!(s.lit_strings, vec![(-8, "ab".to_string()), (-5, "c".to_string())]);
}
