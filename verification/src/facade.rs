use vstd::prelude::*;
use vstd::string::StrSliceExecFns;
use crate::radix::{bin_parses, bin_val, low_i32, low_u8, narrow_to_i32, narrow_to_u8,
    parse_radix2};
use crate::registry::EnumRegistry;
use crate::enum_table::SpecTable;
use crate::timeline::{next_change, spec_next_change};
use crate::vars::{VarInfo, find_variable, first_match_index};

verus! {

/// File-kind tags as the FST container records them.
pub const FILE_TYPE_VERILOG: u32 = 0;

pub const FILE_TYPE_VHDL: u32 = 1;

pub const FILE_TYPE_VERILOG_VHDL: u32 = 2;

/// Signal-kind tags as the FST container records them.
pub const VAR_TYPE_VCD_EVENT: u32 = 0;

pub const VAR_TYPE_VCD_INTEGER: u32 = 1;

pub const VAR_TYPE_VCD_PARAMETER: u32 = 2;

pub const VAR_TYPE_VCD_REAL: u32 = 3;

pub const VAR_TYPE_VCD_REG: u32 = 5;

/// Why a query failed, distinguishable by the caller: asking for
/// something absent (`NotFound`, `EnumNotFound`) is told apart from
/// inconsistent data (`InvalidValue`, `ValueNotInEnum`) and from a
/// failure of the underlying decoder (`DecoderError`).
#[derive(Clone, Copy, Debug, PartialEq, Eq, Structural)]
pub enum FstError {
    /// The variable name is absent, or no value exists at or before the
    /// requested time.
    NotFound,
    /// The enum name was never registered.
    EnumNotFound,
    /// The raw value is not a parsable radix-2 digit string.
    InvalidValue,
    /// The parsed code has no symbol in the enum table.
    ValueNotInEnum,
    /// The underlying decoder reported a failure.
    DecoderError,
}

impl FstError {
    /// A short human-readable description of the failure.
    pub fn message(&self) -> (s: String)
        ensures
            s@ == match *self {
                FstError::NotFound => "Not Found"@,
                FstError::EnumNotFound => "Enum not found"@,
                FstError::InvalidValue => "Invalid value"@,
                FstError::ValueNotInEnum => "Value not found in enum"@,
                FstError::DecoderError => "FST error"@,
            },
    {
        match *self {
            FstError::NotFound => "Not Found".to_owned(),
            FstError::EnumNotFound => "Enum not found".to_owned(),
            FstError::InvalidValue => "Invalid value".to_owned(),
            FstError::ValueNotInEnum => "Value not found in enum".to_owned(),
            FstError::DecoderError => "FST error".to_owned(),
        }
    }
}

/// The names of the variable list, in native order.
pub open spec fn var_names(vars: Seq<VarInfo>) -> Seq<Seq<char>> {
    vars.map_values(|v: VarInfo| v.name@)
}

/// The newline-joined listing of a name sequence: each name followed by
/// one newline.
pub open spec fn joined_names(names: Seq<Seq<char>>) -> Seq<char>
    decreases names.len(),
{
    if names.len() == 0 {
        Seq::empty()
    } else {
        joined_names(names.drop_last()) + names.last() + seq!['\n']
    }
}

/// Lists all variable names in decoder-native order, one per line.
pub fn read(vars: &Vec<VarInfo>) -> (out: String)
    ensures
        out@ == joined_names(var_names(vars@)),
{
    let mut out = String::new();
    let mut i: usize = 0;
    proof {
        assert(var_names(vars@).take(0) =~= Seq::<Seq<char>>::empty());
    }
    while i < vars.len()
        invariant
            i <= vars@.len(),
            out@ == joined_names(var_names(vars@).take(i as int)),
        decreases vars@.len() - i,
    {
        proof {
            assert(var_names(vars@).take(i as int + 1).drop_last() =~= var_names(vars@).take(
                i as int,
            ));
            assert(var_names(vars@).take(i as int + 1).last() == vars@[i as int].name@);
            reveal_strlit("\n");
            assert("\n"@ =~= seq!['\n']);
        }
        out.append(vars[i].name.as_str());
        out.append("\n");
        i = i + 1;
    }
    proof {
        assert(var_names(vars@).take(vars@.len() as int) =~= var_names(vars@));
    }
    out
}

/// What the plain-integer query returns, given the variable list, the
/// requested name, and what the decoder reported for the first matching
/// handle (`None` both when the name matched nothing — the decoder is
/// then never consulted — and when it had no value at or before the
/// requested time).
pub open spec fn spec_value_query(
    vars: Seq<VarInfo>,
    var_name: Seq<char>,
    raw: Option<Seq<char>>,
) -> Result<int, FstError> {
    if first_match_index(vars, var_name) is None {
        Err(FstError::NotFound)
    } else if raw is None {
        Err(FstError::NotFound)
    } else if !bin_parses(raw->0) {
        Err(FstError::InvalidValue)
    } else {
        Ok(low_i32(bin_val(raw->0)))
    }
}

/// Decodes the raw value a variable held at the requested time into a
/// signed 32-bit integer (the parsed value narrowed to its low 32 bits).
/// An absent name or an absent value is reported as not found, never as a
/// default integer; an unparsable value is a distinct decode failure.
pub fn get_var_value_at_time(vars: &Vec<VarInfo>, var_name: &str, raw: Option<&String>) -> (r:
    Result<i32, FstError>)
    ensures
        r matches Ok(v) ==> spec_value_query(vars@, var_name@, view_opt(raw)) == Ok::<
            int,
            FstError,
        >(v as int),
        r matches Err(e) ==> spec_value_query(vars@, var_name@, view_opt(raw)) == Err::<
            int,
            FstError,
        >(e),
        first_match_index(vars@, var_name@) is None ==> r == Err::<i32, FstError>(
            FstError::NotFound,
        ),
{
    if find_variable(vars, var_name).is_none() {
        return Err(FstError::NotFound);
    }
    match raw {
        None => Err(FstError::NotFound),
        Some(s) => match parse_radix2(s.as_str()) {
            None => Err(FstError::InvalidValue),
            Some(v) => Ok(narrow_to_i32(v)),
        },
    }
}

/// The view of an optional borrowed string.
pub open spec fn view_opt(raw: Option<&String>) -> Option<Seq<char>> {
    match raw {
        Some(s) => Some(s@),
        None => None,
    }
}

/// What the enum-symbol query returns. Its three decode-side failures are
/// distinguishable: an unregistered enum name, a raw value that does not
/// parse in radix 2, and a parsed code absent from the table.
pub open spec fn spec_enum_query(
    vars: Seq<VarInfo>,
    var_name: Seq<char>,
    registry: Map<Seq<char>, SpecTable>,
    enum_name: Seq<char>,
    raw: Option<Seq<char>>,
) -> Result<Seq<char>, FstError> {
    if first_match_index(vars, var_name) is None {
        Err(FstError::NotFound)
    } else if raw is None {
        Err(FstError::NotFound)
    } else if !registry.contains_key(enum_name) {
        Err(FstError::EnumNotFound)
    } else if !bin_parses(raw->0) {
        Err(FstError::InvalidValue)
    } else if !registry[enum_name].codes.contains_key(low_u8(bin_val(raw->0)) as u8) {
        Err(FstError::ValueNotInEnum)
    } else {
        Ok(registry[enum_name].codes[low_u8(bin_val(raw->0)) as u8])
    }
}

/// Decodes the raw value a variable held at the requested time into the
/// symbol that the named enum table assigns to the parsed 8-bit code.
pub fn get_var_enum_value_at_time(
    vars: &Vec<VarInfo>,
    var_name: &str,
    enums: &EnumRegistry,
    enum_name: &str,
    raw: Option<&String>,
) -> (r: Result<String, FstError>)
    ensures
        r matches Ok(v) ==> spec_enum_query(
            vars@,
            var_name@,
            enums.view_map(),
            enum_name@,
            view_opt(raw),
        ) == Ok::<Seq<char>, FstError>(v@),
        r matches Err(e) ==> spec_enum_query(
            vars@,
            var_name@,
            enums.view_map(),
            enum_name@,
            view_opt(raw),
        ) == Err::<Seq<char>, FstError>(e),
{
    if find_variable(vars, var_name).is_none() {
        return Err(FstError::NotFound);
    }
    let s = match raw {
        None => {
            return Err(FstError::NotFound);
        },
        Some(s) => s,
    };
    let table = match enums.get(enum_name) {
        None => {
            return Err(FstError::EnumNotFound);
        },
        Some(t) => t,
    };
    let v = match parse_radix2(s.as_str()) {
        None => {
            return Err(FstError::InvalidValue);
        },
        Some(v) => v,
    };
    let code = narrow_to_u8(v);
    match table.lookup(code) {
        None => Err(FstError::ValueNotInEnum),
        Some(sym) => Ok(sym.clone()),
    }
}

/// What the next-change query returns: not found for an unresolved name,
/// a decoder failure when the search is exhausted, else the time of the
/// first recorded change strictly after the start time.
pub open spec fn spec_next_change_query(
    vars: Seq<VarInfo>,
    var_name: Seq<char>,
    changes: Seq<(u64, String)>,
    start_time: u64,
) -> Result<u64, FstError> {
    if first_match_index(vars, var_name) is None {
        Err(FstError::NotFound)
    } else {
        match spec_next_change(changes, start_time) {
            Some(t) => Ok(t),
            None => Err(FstError::DecoderError),
        }
    }
}

/// Returns the next time the variable's value changes after `start_time`,
/// given its recorded changes in trace order.
pub fn get_next_time_change(
    vars: &Vec<VarInfo>,
    var_name: &str,
    changes: &Vec<(u64, String)>,
    start_time: u64,
) -> (r: Result<u64, FstError>)
    ensures
        r == spec_next_change_query(vars@, var_name@, changes@, start_time),
{
    if find_variable(vars, var_name).is_none() {
        return Err(FstError::NotFound);
    }
    match next_change(changes, start_time) {
        Some(t) => Ok(t),
        None => Err(FstError::DecoderError),
    }
}

/// The timescale string shown to callers: the decoder's own string, or
/// the literal `Unknown` exactly when the decoder reports none.
pub open spec fn spec_timescale(timescale: Option<Seq<char>>) -> Seq<char> {
    match timescale {
        Some(t) => t,
        None => "Unknown"@,
    }
}

pub fn get_timescale(timescale: Option<&str>) -> (r: String)
    ensures
        r@ == spec_timescale(match timescale {
            Some(t) => Some(t@),
            None => None,
        }),
{
    match timescale {
        Some(t) => t.to_owned(),
        None => "Unknown".to_owned(),
    }
}

/// The file-kind name of a raw tag; an unrecognized tag resolves to the
/// literal `Unknown`, never to the raw numeric code.
pub open spec fn spec_file_type_name(tag: u32) -> Seq<char> {
    if tag == FILE_TYPE_VERILOG {
        "Verilog"@
    } else if tag == FILE_TYPE_VHDL {
        "VHDL"@
    } else if tag == FILE_TYPE_VERILOG_VHDL {
        "Verilog/VHDL"@
    } else {
        "Unknown"@
    }
}

pub fn file_type_name(tag: u32) -> (r: String)
    ensures
        r@ == spec_file_type_name(tag),
{
    if tag == FILE_TYPE_VERILOG {
        "Verilog".to_owned()
    } else if tag == FILE_TYPE_VHDL {
        "VHDL".to_owned()
    } else if tag == FILE_TYPE_VERILOG_VHDL {
        "Verilog/VHDL".to_owned()
    } else {
        "Unknown".to_owned()
    }
}

/// The signal-kind name of a raw tag, `Unknown` for any tag outside the
/// fixed enumeration handled here.
pub open spec fn spec_var_type_name(tag: u32) -> Seq<char> {
    if tag == VAR_TYPE_VCD_EVENT {
        "VcdEvent"@
    } else if tag == VAR_TYPE_VCD_INTEGER {
        "VcdInteger"@
    } else if tag == VAR_TYPE_VCD_PARAMETER {
        "VcdParameter"@
    } else if tag == VAR_TYPE_VCD_REAL {
        "VcdReal"@
    } else if tag == VAR_TYPE_VCD_REG {
        "VcdReg"@
    } else {
        "Unknown"@
    }
}

pub fn var_type_name(tag: u32) -> (r: String)
    ensures
        r@ == spec_var_type_name(tag),
{
    if tag == VAR_TYPE_VCD_EVENT {
        "VcdEvent".to_owned()
    } else if tag == VAR_TYPE_VCD_INTEGER {
        "VcdInteger".to_owned()
    } else if tag == VAR_TYPE_VCD_PARAMETER {
        "VcdParameter".to_owned()
    } else if tag == VAR_TYPE_VCD_REAL {
        "VcdReal".to_owned()
    } else if tag == VAR_TYPE_VCD_REG {
        "VcdReg".to_owned()
    } else {
        "Unknown".to_owned()
    }
}

/// Returns the signal-kind name of the first variable with the given
/// name, or nothing (not an error) when the name matches no variable.
pub fn get_variable_info(vars: &Vec<VarInfo>, var_name: &str) -> (r: Option<String>)
    ensures
        r is Some <==> first_match_index(vars@, var_name@) is Some,
        r matches Some(s) ==> s@ == spec_var_type_name(
            vars@[first_match_index(vars@, var_name@)->0].ty,
        ),
{
    match find_variable(vars, var_name) {
        Some(i) => {
            proof {
                crate::vars::lemma_first_match_characterization(vars@, var_name@);
            }
            Some(var_type_name(vars[i].ty))
        },
        None => None,
    }
}

/// The metadata snapshot of an open trace, with the file-kind tag and the
/// timescale already resolved to their display strings.
pub struct Metadata {
    pub date: String,
    pub version: String,
    pub start_time: u64,
    pub end_time: u64,
    pub file_type: String,
    pub timescale: String,
    pub timezero: i64,
    pub scope_count: u64,
    pub var_count: u64,
    pub alias_count: u64,
}

/// Assembles the metadata snapshot from the decoder's raw fields: scalar
/// fields are carried through unchanged, the file-kind tag and the
/// timescale resolve to their display strings, defaulting to `Unknown`.
pub fn get_metadata(
    date: String,
    version: String,
    start_time: u64,
    end_time: u64,
    file_type_tag: u32,
    timescale: Option<&str>,
    timezero: i64,
    scope_count: u64,
    var_count: u64,
    alias_count: u64,
) -> (m: Metadata)
    ensures
        m.date == date,
        m.version == version,
        m.start_time == start_time,
        m.end_time == end_time,
        m.file_type@ == spec_file_type_name(file_type_tag),
        m.timescale@ == spec_timescale(match timescale {
            Some(t) => Some(t@),
            None => None,
        }),
        m.timezero == timezero,
        m.scope_count == scope_count,
        m.var_count == var_count,
        m.alias_count == alias_count,
{
    Metadata {
        date,
        version,
        start_time,
        end_time,
        file_type: file_type_name(file_type_tag),
        timescale: get_timescale(timescale),
        timezero,
        scope_count,
        var_count,
        alias_count,
    }
}

} // verus!
