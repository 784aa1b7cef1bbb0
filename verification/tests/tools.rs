use resq_mcp::model::{FnSpan, Insn, Op, QvmHeader};
use resq_mcp::protocol::{is_initialized_notice, negotiate_version, route, Method};
use resq_mcp::session::{FnRef, Session};
use resq_mcp::tools::finish_open;
use resq_mcp::text::{clip, dec_string, str_contains, str_eq};
use resq_mcp::tools::{call, definitions, get_strings, list_functions, page_of, CallArgs, ParamKind, ToolPlan};

fn insn(idx: usize, op: Op, operand: Option<i32>) -> Insn {
    Insn {
        idx,
        op,
        operand,
        text: format!("{idx}"),
        string: None,
        trap: None,
        callee_name: None,
    }
}

fn header(lit: i32) -> QvmHeader {
    QvmHeader {
        path: "t.qvm".to_string(),
        module: "Game".to_string(),
        vm_magic: 0,
        instruction_count: 0,
        code_length: 0,
        data_length: 0,
        lit_length: lit,
        bss_length: 0,
    }
}

/// Three functions: `G_InitGame` calls trap_Print (syscall 0), an unnamed
/// one references "ClientConnect", `vmMain` does nothing of note.
fn sample() -> Session {
    let mut v = Vec::new();
    let mut c = insn(0, Op::Const, Some(-1));
    c.trap = Some("trap_Print".to_string());
    v.push(c);
    v.push(insn(1, Op::Call, None));
    let mut d = insn(2, Op::Const, Some(7));
    d.string = Some("ClientConnect".to_string());
    v.push(d);
    v.push(insn(3, Op::Other, None));
    let spans = vec![
        FnSpan { entry: 0, end: 2, name: Some("G_InitGame".to_string()) },
        FnSpan { entry: 2, end: 3, name: None },
        FnSpan { entry: 3, end: 4, name: Some("vmMain".to_string()) },
    ];
    let probe = vec![
        Some("Score".to_string()),
        Some("core".to_string()),
        Some("ore".to_string()),
        Some("re".to_string()),
        Some("e".to_string()),
        Some("".to_string()),
        Some("cs".to_string()),
        Some("s".to_string()),
        Some("".to_string()),
        None,
        Some("".to_string()),
        None,
    ];
    Session::open(header(12), v, spans, probe, 12)
}

fn args() -> CallArgs {
    CallArgs {
        path: None,
        map_path: None,
        filter: None,
        offset: None,
        limit: None,
        fn_arg: None,
        address: None,
    }
}

#[test]
fn clip_counts_characters() {
    assert_eq!(clip("hello", 5), "hello");
    assert_eq!(clip("hello", 3), "hel\u{2026}");
    assert_eq!(clip("h\u{e9}llo", 2), "h\u{e9}\u{2026}");
    assert_eq!(clip("", 0), "");
    assert_eq!(clip("a", 0), "\u{2026}");
}

#[test]
fn decimal_rendering() {
    assert_eq!(dec_string(0), "0");
    assert_eq!(dec_string(1310), "1310");
    assert_eq!(dec_string(-42), "-42");
    assert_eq!(dec_string(i64::MIN), i64::MIN.to_string());
    assert_eq!(dec_string(i64::MAX), i64::MAX.to_string());
}

#[test]
fn literal_strings_in_address_order() {
    let s = sample();
    assert_eq!(
        s.lit_strings,
        vec![(0, "Score".to_string()), (6, "cs".to_string()), (10, "".to_string())]
    );
}

#[test]
fn list_functions_filters_case_insensitively() {
    let s = sample();
    let (total, rows) = list_functions(&s, "", 0, 200);
    assert_eq!((total, rows), (3, vec![0, 1, 2]));
    // trap names, referenced strings, placeholders and names all match
    assert_eq!(list_functions(&s, "TRAP_print", 0, 200), (1, vec![0]));
    assert_eq!(list_functions(&s, "clientconnect", 0, 200), (1, vec![1]));
    assert_eq!(list_functions(&s, "fn_1", 0, 200), (1, vec![1]));
    assert_eq!(list_functions(&s, "vmmain", 0, 200), (1, vec![2]));
    // "fn2" matches the index field of the third function
    assert_eq!(list_functions(&s, "fn2 ", 0, 200), (1, vec![2]));
    assert_eq!(list_functions(&s, "nothing", 0, 200), (0, vec![]));
}

#[test]
fn list_functions_paginates() {
    let s = sample();
    assert_eq!(list_functions(&s, "", 1, 1), (3, vec![1]));
    assert_eq!(list_functions(&s, "", 2, 5), (3, vec![2]));
    assert_eq!(list_functions(&s, "", 9, 5), (3, vec![]));
}

#[test]
fn get_strings_filters_and_paginates() {
    let s = sample();
    assert_eq!(get_strings(&s, "", 0, 200), (3, vec![0, 1, 2]));
    assert_eq!(get_strings(&s, "SCORE", 0, 200), (1, vec![0]));
    assert_eq!(get_strings(&s, "CS", 0, 200), (1, vec![1]));
    assert_eq!(get_strings(&s, "", 1, 1), (3, vec![1]));
}

#[test]
fn pages_are_slices() {
    let v = vec![10, 11, 12, 13, 14];
    assert_eq!(page_of(&v, 0, 2), vec![10, 11]);
    assert_eq!(page_of(&v, 3, 10), vec![13, 14]);
    assert_eq!(page_of(&v, 5, 1), Vec::<usize>::new());
    assert_eq!(page_of(&v, 100, 1), Vec::<usize>::new());
}

#[test]
fn open_qvm_needs_a_path() {
    let mut a = args();
    assert_eq!(
        call(None, "open_qvm", &a),
        ToolPlan::Rejected("open_qvm: missing string `path`".to_string())
    );
    a.path = Some("x.qvm".to_string());
    a.map_path = Some("x.map".to_string());
    assert_eq!(
        call(None, "open_qvm", &a),
        ToolPlan::Open { path: "x.qvm".to_string(), map_path: Some("x.map".to_string()) }
    );
}

#[test]
fn tools_need_a_session() {
    for name in ["session_info", "decompile_function", "no_such_tool"] {
        assert_eq!(
            call(None, name, &args()),
            ToolPlan::Failed("no QVM loaded - call open_qvm first".to_string())
        );
    }
}

#[test]
fn paging_arguments_have_defaults_and_bounds() {
    let s = sample();
    assert_eq!(
        call(Some(&s), "list_functions", &args()),
        ToolPlan::ListFunctions { filter: String::new(), offset: 0, limit: 200 }
    );
    let mut a = args();
    a.limit = Some(0);
    a.offset = Some(3);
    a.filter = Some("x".to_string());
    assert_eq!(
        call(Some(&s), "get_strings", &a),
        ToolPlan::GetStrings { filter: "x".to_string(), offset: 3, limit: 1 }
    );
    a.limit = Some(99999);
    assert_eq!(
        call(Some(&s), "list_functions", &a),
        ToolPlan::ListFunctions { filter: "x".to_string(), offset: 3, limit: 2000 }
    );
}

#[test]
fn function_tools_resolve_their_argument() {
    let s = sample();
    let mut a = args();
    // a call without its required argument is malformed
    assert_eq!(
        call(Some(&s), "decompile_function", &a),
        ToolPlan::Rejected("missing argument `fn`".to_string())
    );
    a.fn_arg = Some(FnRef::Name("fn_0".to_string()));
    assert_eq!(call(Some(&s), "decompile_function", &a), ToolPlan::Decompile(0));
    a.fn_arg = Some(FnRef::Name("vmMain".to_string()));
    assert_eq!(call(Some(&s), "get_function", &a), ToolPlan::GetFunction(2));
    a.fn_arg = Some(FnRef::Index(1));
    assert_eq!(call(Some(&s), "disassemble_function", &a), ToolPlan::Disassemble(1));
    a.fn_arg = Some(FnRef::Name("nope".to_string()));
    assert_eq!(
        call(Some(&s), "decompile_function", &a),
        ToolPlan::Failed("no function named \"nope\"".to_string())
    );
}

#[test]
fn address_tools_need_an_integer() {
    let s = sample();
    let mut a = args();
    assert_eq!(
        call(Some(&s), "xrefs_to", &a),
        ToolPlan::Rejected("xrefs_to: missing integer `address`".to_string())
    );
    assert_eq!(
        call(Some(&s), "mem_hint", &a),
        ToolPlan::Rejected("mem_hint: missing integer `address`".to_string())
    );
    a.address = Some(98304);
    assert_eq!(call(Some(&s), "xrefs_to", &a), ToolPlan::XrefsTo(98304));
    // wider values are cut to the VM's 32-bit addresses
    a.address = Some(0x1_0000_0010);
    assert_eq!(call(Some(&s), "mem_hint", &a), ToolPlan::MemHint(16));
}

#[test]
fn unknown_tool_is_a_protocol_error() {
    let s = sample();
    assert_eq!(
        call(Some(&s), "resources", &args()),
        ToolPlan::Rejected("unknown tool: resources".to_string())
    );
    assert_eq!(call(Some(&s), "session_info", &args()), ToolPlan::SessionInfo);
}

#[test]
fn nine_tools_listed() {
    let d = definitions();
    assert_eq!(d.len(), 9);
    assert_eq!(d[0].name, "open_qvm");
    let names: Vec<&str> = d.iter().map(|t| t.name).collect();
    assert_eq!(
        names,
        vec![
            "open_qvm",
            "session_info",
            "list_functions",
            "get_function",
            "decompile_function",
            "disassemble_function",
            "get_strings",
            "xrefs_to",
            "mem_hint"
        ]
    );
    assert_eq!(d[0].required, vec!["path"]);
    assert_eq!(d[3].params[0].kind, ParamKind::IndexOrName);
    assert_eq!(d[2].params[2].maximum, Some(2000));
}

#[test]
fn protocol_version_negotiation() {
    assert_eq!(negotiate_version("2024-11-05"), "2024-11-05");
    assert_eq!(negotiate_version("2025-06-18"), "2025-06-18");
    assert_eq!(negotiate_version("1999-01-01"), "2025-06-18");
    assert_eq!(negotiate_version(""), "2025-06-18");
}

#[test]
fn method_routing() {
    assert_eq!(route("initialize"), Method::Initialize);
    assert_eq!(route("ping"), Method::Ping);
    assert_eq!(route("tools/list"), Method::ToolsList);
    assert_eq!(route("tools/call"), Method::ToolsCall);
    assert_eq!(route("resources/list"), Method::Unknown);
    assert!(is_initialized_notice("notifications/initialized"));
    assert!(!is_initialized_notice("initialized"));
}

#[test]
fn consecutive_pages_join_up() {
    let s = sample();
    let (_, a) = list_functions(&s, "", 0, 2);
    let (_, b) = list_functions(&s, "", 2, 2);
    let (_, whole) = list_functions(&s, "", 0, 4);
    let mut joined = a.clone();
    joined.extend(b);
    assert_eq!(joined, whole);
    assert!(a.len() <= 2);
}

#[test]
fn every_listed_tool_is_dispatched() {
    let s = sample();
    for t in definitions() {
        let plan = call(Some(&s), t.name, &args());
        assert_ne!(plan, ToolPlan::Rejected(format!("unknown tool: {}", t.name)));
    }
}

#[test]
fn tool_schemas() {
    let d = definitions();
    let shape = |t: usize| -> Vec<(&str, ParamKind, Option<i64>, Option<i64>)> {
        d[t].params.iter().map(|p| (p.name, p.kind, p.minimum, p.maximum)).collect()
    };
    assert_eq!(d[7].params[0].description, Some("VM memory address (data/lit/BSS)"));
    assert_eq!(d[8].params[0].description, None);
    assert_eq!(
        d[4].description,
        "Identity C decompilation of one function (stack -> SSA -> C)."
    );
    assert_eq!(shape(1), vec![]);
    assert_eq!(
        shape(6),
        vec![
            ("filter", ParamKind::Text, None, None),
            ("offset", ParamKind::Integer, Some(0), None),
            ("limit", ParamKind::Integer, Some(1), Some(2000)),
        ]
    );
    assert_eq!(shape(4), vec![("fn", ParamKind::IndexOrName, Some(0), None)]);
    assert_eq!(shape(7), vec![("address", ParamKind::Integer, None, None)]);
    assert!(d[2].required.is_empty());
    assert_eq!(d[8].required, vec!["address"]);
}

#[test]
fn filter_finds_named_function_by_placeholder() {
    let s = sample();
    assert_eq!(list_functions(&s, "fn_0", 0, 200), (1, vec![0]));
    assert_eq!(list_functions(&s, "FN_2", 0, 200), (1, vec![2]));
    assert_eq!(list_functions(&s, "g_initgame fn_0", 0, 200), (1, vec![0]));
}

#[test]
fn filter_ignores_ascii_case() {
    let s = sample();
    assert_eq!(list_functions(&s, "vmmain", 0, 200), list_functions(&s, "VMMAIN", 0, 200));
    assert_eq!(get_strings(&s, "score", 0, 200), get_strings(&s, "SCORE", 0, 200));
}

#[test]
fn session_info_counts() {
    let s = sample();
    let i = s.session_info();
    assert_eq!(i.path, "t.qvm");
    assert_eq!(i.module, "Game");
    assert_eq!((i.functions, i.strings, i.named_functions), (3, 3, 2));
    assert_eq!(i.lit_length, 12);
}

#[test]
fn loaded_module_replaces_session() {
    let mut slot: Option<(u8, Session)> = Some((1, sample()));
    let info = finish_open(&mut slot, Ok((2, sample())));
    assert_eq!(info.map(|i| i.functions), Ok(3));
    assert_eq!(slot.as_ref().map(|p| p.0), Some(2));
}

#[test]
fn failed_load_keeps_session() {
    let mut slot: Option<(u8, Session)> = Some((1, sample()));
    let res = finish_open(&mut slot, Err("load: no such file".to_string()));
    assert_eq!(res.err(), Some("load: no such file".to_string()));
    assert_eq!(slot.as_ref().map(|p| p.0), Some(1));
    let mut empty: Option<(u8, Session)> = None;
    assert!(finish_open(&mut empty, Err("x".to_string())).is_err());
    assert!(empty.is_none());
}

#[test]
fn substring_search() {
    assert!(str_contains("trap_print fn0", "print"));
    assert!(str_contains("abc", ""));
    assert!(str_contains("", ""));
    assert!(!str_contains("", "a"));
    assert!(!str_contains("ab", "abc"));
    assert!(str_contains("h\u{e9}llo", "\u{e9}l"));
    assert!(!str_contains("hello", "hellp"));
    assert!(str_contains("aaab", "aab"));
}

#[test]
fn string_equality() {
    assert!(str_eq("fn_0", "fn_0"));
    assert!(!str_eq("fn_0", "fn_00"));
    assert!(!str_eq("fn_0", "fn_1"));
    assert!(str_eq("", ""));
}
