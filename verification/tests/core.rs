use fst_reader::enum_table::hier_to_enum;
use fst_reader::facade::{
    get_metadata, get_next_time_change, get_timescale, get_var_enum_value_at_time,
    get_var_value_at_time, get_variable_info, file_type_name, read, var_type_name, FstError,
};
use fst_reader::radix::{narrow_to_i32, narrow_to_u8, parse_dec_usize, parse_radix2};
use fst_reader::registry::build_enum_registry;
use fst_reader::timeline::{next_change, value_at};
use fst_reader::tokens::split_whitespace_tokens;
use fst_reader::vars::{find_variable, VarInfo};

fn var(name: &str, handle: u32, ty: u32) -> VarInfo {
    VarInfo {
        name: name.to_string(),
        handle,
        ty,
    }
}

#[test]
fn splits_tokens_at_any_whitespace() {
    let toks = split_whitespace_tokens(" state\t3  IDLE\nRUN ");
    let toks: Vec<&str> = toks.iter().map(|t| t.as_str()).collect();
    assert_eq!(toks, vec!["state", "3", "IDLE", "RUN"]);
    assert!(split_whitespace_tokens("").is_empty());
    assert!(split_whitespace_tokens(" \t\n").is_empty());
    let uni = split_whitespace_tokens("a\u{a0}b\u{2003}c");
    let uni: Vec<&str> = uni.iter().map(|t| t.as_str()).collect();
    assert_eq!(uni, vec!["a", "b", "c"]);
}

#[test]
fn builder_decodes_valid_encoding() {
    let e = hier_to_enum("state 3 IDLE RUN HALT 00 01 10").unwrap();
    assert_eq!(e.name, "state");
    assert_eq!(e.length, 3);
    assert_eq!(e.lookup(0).unwrap().as_str(), "IDLE");
    assert_eq!(e.lookup(1).unwrap().as_str(), "RUN");
    assert_eq!(e.lookup(2).unwrap().as_str(), "HALT");
    assert!(e.lookup(3).is_none());
}

#[test]
fn builder_needs_four_tokens() {
    assert!(hier_to_enum("").is_none());
    assert!(hier_to_enum("state").is_none());
    assert!(hier_to_enum("state 1").is_none());
    assert!(hier_to_enum("state 1 IDLE").is_none());
    assert!(hier_to_enum("state 1 IDLE 0").is_some());
}

#[test]
fn builder_treats_unparsable_arity_as_zero() {
    let e = hier_to_enum("state xyz IDLE RUN").unwrap();
    assert_eq!(e.name, "state");
    assert_eq!(e.length, 0);
    assert!(e.lookup(0).is_none());
    assert!(e.map.is_empty());
}

#[test]
fn builder_skips_unparsable_codes() {
    let e = hier_to_enum("state 3 IDLE RUN HALT 00 2x 10").unwrap();
    assert_eq!(e.lookup(0).unwrap().as_str(), "IDLE");
    assert!(e.lookup(1).is_none());
    assert_eq!(e.lookup(2).unwrap().as_str(), "HALT");
}

#[test]
fn builder_pairs_stop_at_shorter_sequence() {
    // Two symbol slots but a single code token: only one pair is formed.
    let e = hier_to_enum("state 2 IDLE RUN 00").unwrap();
    assert_eq!(e.length, 2);
    assert_eq!(e.lookup(0).unwrap().as_str(), "IDLE");
    assert!(e.lookup(1).is_none());
    // An arity larger than the token count leaves no code tokens at all.
    let e2 = hier_to_enum("state 9 IDLE RUN 00").unwrap();
    assert_eq!(e2.length, 9);
    assert!(e2.lookup(0).is_none());
    assert!(e2.map.is_empty());
}

#[test]
fn builder_narrows_wide_codes_to_eight_bits() {
    // 100000001 in radix 2 is 257; its low eight bits give code 1.
    let e = hier_to_enum("e 1 SYM 100000001").unwrap();
    assert_eq!(e.lookup(1).unwrap().as_str(), "SYM");
}

#[test]
fn registry_last_write_wins() {
    let attrs = vec![
        "st 1 A 0".to_string(),
        "other 1 X 0".to_string(),
        "st 1 B 0".to_string(),
    ];
    let reg = build_enum_registry(&attrs);
    let t = reg.get("st").unwrap();
    assert_eq!(t.lookup(0).unwrap().as_str(), "B");
    assert!(reg.get("missing").is_none());
}

#[test]
fn registry_ignores_non_enum_attributes() {
    let attrs = vec!["some metadata".to_string(), "st 1 A 0".to_string()];
    let reg = build_enum_registry(&attrs);
    assert!(reg.get("some").is_none());
    assert_eq!(reg.get("st").unwrap().lookup(0).unwrap().as_str(), "A");
}

#[test]
fn parse_radix2_exact_values() {
    assert_eq!(parse_radix2("101"), Some(5));
    assert_eq!(parse_radix2("0"), Some(0));
    assert_eq!(parse_radix2("00000001"), Some(1));
    assert_eq!(parse_radix2(""), None);
    assert_eq!(parse_radix2("102"), None);
    assert_eq!(parse_radix2("-1"), None);
    // 63 ones: the largest value that still parses.
    let ones63: String = "1".repeat(63);
    assert_eq!(parse_radix2(&ones63), Some(i64::MAX as u64));
    let ones64: String = "1".repeat(64);
    assert_eq!(parse_radix2(&ones64), None);
}

#[test]
fn parse_dec_usize_exact_values() {
    assert_eq!(parse_dec_usize("3"), Some(3));
    assert_eq!(parse_dec_usize("0"), Some(0));
    assert_eq!(parse_dec_usize("42"), Some(42));
    assert_eq!(parse_dec_usize(""), None);
    assert_eq!(parse_dec_usize("4x"), None);
    assert_eq!(parse_dec_usize("99999999999999999999999999"), None);
}

#[test]
fn narrowing_matches_two_complement() {
    assert_eq!(narrow_to_u8(257), 1);
    assert_eq!(narrow_to_u8(255), 255);
    assert_eq!(narrow_to_i32(5), 5);
    assert_eq!(narrow_to_i32(0xffff_ffff), -1);
    assert_eq!(narrow_to_i32(0x1_0000_0005), 5);
}

#[test]
fn value_query_not_found_never_defaults() {
    let vars = vec![var("top.a", 1, 5)];
    let raw = "101".to_string();
    // Name absent: not found even though a raw value is on hand.
    assert_eq!(
        get_var_value_at_time(&vars, "top.b", Some(&raw)),
        Err(FstError::NotFound)
    );
    // Name present but no value at or before the time: not found.
    assert_eq!(get_var_value_at_time(&vars, "top.a", None), Err(FstError::NotFound));
}

#[test]
fn value_query_decodes_and_narrows() {
    let vars = vec![var("top.a", 1, 5)];
    let raw = "101".to_string();
    assert_eq!(get_var_value_at_time(&vars, "top.a", Some(&raw)), Ok(5));
    let wide = "1".repeat(32);
    assert_eq!(get_var_value_at_time(&vars, "top.a", Some(&wide)), Ok(-1));
    let bad = "1x0".to_string();
    assert_eq!(
        get_var_value_at_time(&vars, "top.a", Some(&bad)),
        Err(FstError::InvalidValue)
    );
}

#[test]
fn enum_query_three_distinguishable_causes() {
    let vars = vec![var("top.state", 1, 5)];
    let attrs = vec!["state 3 IDLE RUN HALT 00 01 10".to_string()];
    let reg = build_enum_registry(&attrs);
    let raw = "01".to_string();
    // Unknown enum name.
    assert_eq!(
        get_var_enum_value_at_time(&vars, "top.state", &reg, "nosuch", Some(&raw)),
        Err(FstError::EnumNotFound)
    );
    // Raw value not radix-2 parsable.
    let bad = "0z".to_string();
    assert_eq!(
        get_var_enum_value_at_time(&vars, "top.state", &reg, "state", Some(&bad)),
        Err(FstError::InvalidValue)
    );
    // Parsed code absent from the table.
    let absent = "11".to_string();
    assert_eq!(
        get_var_enum_value_at_time(&vars, "top.state", &reg, "state", Some(&absent)),
        Err(FstError::ValueNotInEnum)
    );
    // Unknown variable name and missing value are both not-found.
    assert_eq!(
        get_var_enum_value_at_time(&vars, "top.other", &reg, "state", Some(&raw)),
        Err(FstError::NotFound)
    );
    assert_eq!(
        get_var_enum_value_at_time(&vars, "top.state", &reg, "state", None),
        Err(FstError::NotFound)
    );
}

#[test]
fn enum_round_trip() {
    let vars = vec![var("top.state", 1, 5)];
    let reg = build_enum_registry(&vec!["state 3 IDLE RUN HALT 00 01 10".to_string()]);
    let raw = "01".to_string();
    assert_eq!(
        get_var_enum_value_at_time(&vars, "top.state", &reg, "state", Some(&raw)),
        Ok("RUN".to_string())
    );
}

#[test]
fn duplicate_names_resolve_to_first() {
    let vars = vec![
        var("top.x", 7, 1),
        var("top.x", 9, 5),
    ];
    assert_eq!(find_variable(&vars, "top.x"), Some(0));
    assert_eq!(get_variable_info(&vars, "top.x"), Some("VcdInteger".to_string()));
    assert_eq!(get_variable_info(&vars, "top.y"), None);
}

#[test]
fn timeline_value_at_takes_last_change_not_after() {
    let changes = vec![
        (5u64, "00".to_string()),
        (10u64, "01".to_string()),
        (20u64, "10".to_string()),
    ];
    assert!(value_at(&changes, 4).is_none());
    assert_eq!(value_at(&changes, 5).unwrap().as_str(), "00");
    assert_eq!(value_at(&changes, 7).unwrap().as_str(), "00");
    assert_eq!(value_at(&changes, 10).unwrap().as_str(), "01");
    assert_eq!(value_at(&changes, 99).unwrap().as_str(), "10");
    assert!(value_at(&Vec::new(), 5).is_none());
}

#[test]
fn timeline_next_change_is_strictly_after() {
    let changes = vec![
        (5u64, "00".to_string()),
        (10u64, "01".to_string()),
    ];
    assert_eq!(next_change(&changes, 0), Some(5));
    assert_eq!(next_change(&changes, 5), Some(10));
    assert_eq!(next_change(&changes, 10), None);
    assert_eq!(next_change(&Vec::new(), 0), None);
}

#[test]
fn next_change_query_errors() {
    let vars = vec![var("top.a", 1, 5)];
    let changes = vec![(5u64, "0".to_string())];
    assert_eq!(
        get_next_time_change(&vars, "top.b", &changes, 0),
        Err(FstError::NotFound)
    );
    assert_eq!(
        get_next_time_change(&vars, "top.a", &changes, 5),
        Err(FstError::DecoderError)
    );
    assert_eq!(get_next_time_change(&vars, "top.a", &changes, 0), Ok(5));
}

#[test]
fn read_lists_names_in_order() {
    let vars = vec![var("a", 1, 0), var("b.c", 2, 1)];
    assert_eq!(read(&vars), "a\nb.c\n");
    assert_eq!(read(&Vec::new()), "");
}

#[test]
fn timescale_unknown_exactly_when_absent() {
    assert_eq!(get_timescale(None), "Unknown");
    assert_eq!(get_timescale(Some("1ns")), "1ns");
    assert_eq!(get_timescale(Some("100us")), "100us");
}

#[test]
fn file_type_tags_resolve_to_names() {
    assert_eq!(file_type_name(0), "Verilog");
    assert_eq!(file_type_name(1), "VHDL");
    assert_eq!(file_type_name(2), "Verilog/VHDL");
    assert_eq!(file_type_name(3), "Unknown");
    assert_eq!(file_type_name(u32::MAX), "Unknown");
}

#[test]
fn var_type_tags_resolve_to_names() {
    assert_eq!(var_type_name(0), "VcdEvent");
    assert_eq!(var_type_name(1), "VcdInteger");
    assert_eq!(var_type_name(2), "VcdParameter");
    assert_eq!(var_type_name(3), "VcdReal");
    assert_eq!(var_type_name(5), "VcdReg");
    assert_eq!(var_type_name(4), "Unknown");
    assert_eq!(var_type_name(17), "Unknown");
}

#[test]
fn metadata_snapshot_resolves_tags() {
    let m = get_metadata(
        "date".to_string(),
        "v1".to_string(),
        3,
        99,
        7,
        None,
        -4,
        2,
        10,
        1,
    );
    assert_eq!(m.date, "date");
    assert_eq!(m.version, "v1");
    assert_eq!(m.start_time, 3);
    assert_eq!(m.end_time, 99);
    assert_eq!(m.file_type, "Unknown");
    assert_eq!(m.timescale, "Unknown");
    assert_eq!(m.timezero, -4);
    assert_eq!(m.scope_count, 2);
    assert_eq!(m.var_count, 10);
    assert_eq!(m.alias_count, 1);
    let m2 = get_metadata(
        "d".to_string(),
        "v".to_string(),
        0,
        0,
        2,
        Some("10ps"),
        0,
        0,
        0,
        0,
    );
    assert_eq!(m2.file_type, "Verilog/VHDL");
    assert_eq!(m2.timescale, "10ps");
}

#[test]
fn error_messages_are_distinct() {
    assert_eq!(FstError::NotFound.message(), "Not Found");
    assert_eq!(FstError::EnumNotFound.message(), "Enum not found");
    assert_eq!(FstError::InvalidValue.message(), "Invalid value");
    assert_eq!(FstError::ValueNotInEnum.message(), "Value not found in enum");
    assert_eq!(FstError::DecoderError.message(), "FST error");
}
