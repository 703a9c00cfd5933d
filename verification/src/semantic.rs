//! Settings for the optional semantic helper and the shape of its answers.

use crate::text::{decimal_u64, parse_u64, str_eq};
use crate::types::{RaceSeverity, Range, VarId, VariableInfo};
use std::path::PathBuf;
use vstd::prelude::*;
use vstd::string::StringExecFns;
use vstd::string::StringSliceAdditionalSpecFns;

verus! {

/// `std::path::PathBuf`, carried through without looking inside.
#[verifier::external_type_specification]
#[verifier::external_body]
pub struct ExPathBuf(PathBuf);

/// The text `Path::to_string_lossy` gives for a path.
pub uninterp spec fn lossy_text(path: &PathBuf) -> Seq<char>;

/// `std::path::Path::to_string_lossy`, copied into an owned string. The
/// result is a function of the path alone; what it is goes unsaid.
#[verifier::external_body]
fn to_string_lossy(path: &PathBuf) -> (r: String)
    ensures
        r@ == lossy_text(path),
{
    path.to_string_lossy().into_owned()
}

/// The path as text, with what is not Unicode replaced as the standard
/// library does.
pub fn path_to_string(path: &PathBuf) -> (r: String)
    ensures
        r@ == lossy_text(path),
{
    to_string_lossy(path)
}

/// Whether and how to ask the semantic helper.
#[derive(Clone, Debug)]
pub struct SemanticConfig {
    pub enabled: bool,
    pub helper_path: String,
    pub timeout_ms: u64,
}

/// One use as the helper reports it.
#[derive(Clone, Copy, Debug)]
pub struct SemanticUse {
    pub range: Range,
    pub reassign: bool,
    pub captured: bool,
}

/// A variable as the helper resolved it.
#[derive(Clone, Debug)]
pub struct SemanticVariable {
    pub info: VariableInfo,
    pub uses: Vec<SemanticUse>,
}

/// What `str::trim` leaves of a text.
pub uninterp spec fn trimmed(text: Seq<char>) -> Seq<char>;

/// `str::trim`: the text without leading and trailing white space. The
/// result is a function of the text alone; what counts as white space
/// goes unsaid.
#[verifier::external_body]
fn trim(text: &str) -> (r: &str)
    ensures
        r@ == trimmed(text@),
{
    text.trim()
}

/// The helper that is run where none is named.
pub open spec fn default_helper() -> Seq<char> {
    "goanalyzer-semantic"@
}

/// The words that switch the helper on.
pub open spec fn means_enabled(text: Seq<char>) -> bool {
    text == "1"@ || text == "true"@ || text == "TRUE"@ || text == "yes"@ || text == "YES"@
}

impl SemanticConfig {
    /// The configuration that three optional settings give: the helper is
    /// on where the first is one of `1`, `true`, `TRUE`, `yes`, `YES`; its
    /// path is the second unless that is missing or blank, then
    /// `goanalyzer-semantic`; the timeout is the third read as a decimal
    /// number of milliseconds, else 2000.
    pub fn from_settings(
        enabled: Option<&str>,
        helper_path: Option<&str>,
        timeout_ms: Option<&str>,
    ) -> (config: SemanticConfig)
        ensures
            config.enabled == (enabled is Some && means_enabled(enabled.unwrap()@)),
            config.helper_path@ == if helper_path is Some && trimmed(helper_path.unwrap()@).len()
                > 0 {
                helper_path.unwrap()@
            } else {
                default_helper()
            },
            config.timeout_ms == if timeout_ms is Some && decimal_u64(
                timeout_ms.unwrap().spec_bytes(),
            ) is Some {
                decimal_u64(timeout_ms.unwrap().spec_bytes()).unwrap()
            } else {
                2000
            },
    {
        let on = match enabled {
            Some(v) => str_eq(v, "1") || str_eq(v, "true") || str_eq(v, "TRUE") || str_eq(v, "yes")
                || str_eq(v, "YES"),
            None => false,
        };
        let path = match helper_path {
            Some(v) => if trim(v).is_empty() {
                String::from_str("goanalyzer-semantic")
            } else {
                String::from_str(v)
            },
            None => String::from_str("goanalyzer-semantic"),
        };
        let timeout = match timeout_ms {
            Some(v) => match parse_u64(v) {
                Some(ms) => ms,
                None => 2000,
            },
            None => 2000,
        };
        SemanticConfig { enabled: on, helper_path: path, timeout_ms: timeout }
    }
}

/// The ranges of a sequence of reported uses.
pub open spec fn use_ranges(uses: Seq<SemanticUse>) -> Seq<Range> {
    uses.map_values(|u: SemanticUse| u.range)
}

/// The variable that an answer of the helper describes: its uses are the
/// reported ranges in order, no race is flagged, and no declaration node
/// is identified.
pub fn semantic_variable(name: String, declaration: Range, uses: Vec<SemanticUse>, is_pointer: bool) -> (r:
    SemanticVariable)
    ensures
        r.info.name == name,
        r.info.declaration == declaration,
        r.info.uses@ == use_ranges(uses@),
        r.info.is_pointer == is_pointer,
        !r.info.potential_race,
        r.info.race_severity == RaceSeverity::Medium,
        r.info.var_id == (VarId { start_byte: 0, end_byte: 0 }),
        r.uses == uses,
{
    let mut ranges: Vec<Range> = Vec::new();
    let mut i: usize = 0;
    while i < uses.len()
        invariant
            i <= uses@.len(),
            ranges@ == use_ranges(uses@.subrange(0, i as int)),
        decreases uses@.len() - i,
    {
        ranges.push(uses[i].range);
        i += 1;
    }
    SemanticVariable {
        info: VariableInfo {
            name,
            declaration,
            uses: ranges,
            is_pointer,
            potential_race: false,
            race_severity: RaceSeverity::Medium,
            var_id: VarId { start_byte: 0, end_byte: 0 },
        },
        uses,
    }
}

} // verus!
