//! The normalization choice and its parsing.
//!
//! A caller asks for normalization to an explicit convention or to the
//! most frequent convention across the corpus. [`parse_norm_option`] reads
//! the choice from its textual form; [`resolve_target`] turns the choice
//! into a concrete rewrite target, absent when the most frequent
//! convention is asked for but the corpus has no dominant one — the
//! rewrite pass is then skipped.

use vstd::prelude::*;
use crate::stats::LineSep;

verus! {

/// The normalization target a caller may ask for.
#[derive(Clone, Copy, Debug, PartialEq, Eq, Structural)]
pub enum NormalizeOption {
    /// Normalize to the most frequent convention across all matched files.
    MostFrequent,
    Lf,
    CrLf,
    Cr,
}

/// Whether two string slices hold the same characters.
fn str_eq(a: &str, b: &str) -> (r: bool)
    ensures
        r == (a@ == b@),
{
    let owned_a = a.to_owned();
    owned_a.eq(&b.to_owned())
}

/// Parses a normalization choice: `"lf"`, `"crlf"` and `"cr"` name the
/// explicit conventions, `"any"` the most frequent one, and every other
/// string is rejected.
pub fn parse_norm_option(s: &str) -> (r: Result<NormalizeOption, String>)
    ensures
        s@ == "lf"@ ==> r == Ok::<NormalizeOption, String>(NormalizeOption::Lf),
        s@ == "crlf"@ ==> r == Ok::<NormalizeOption, String>(NormalizeOption::CrLf),
        s@ == "cr"@ ==> r == Ok::<NormalizeOption, String>(NormalizeOption::Cr),
        s@ == "any"@ ==> r == Ok::<NormalizeOption, String>(NormalizeOption::MostFrequent),
        s@ != "lf"@ && s@ != "crlf"@ && s@ != "cr"@ && s@ != "any"@ ==> (r matches Err(m) && m@
            == "Invalid line ending"@),
{
    proof {
        reveal_strlit("lf");
        reveal_strlit("crlf");
        reveal_strlit("cr");
        reveal_strlit("any");
        assert("lf"@.len() == 2 && "crlf"@.len() == 4 && "cr"@.len() == 2 && "any"@.len() == 3);
        assert("cr"@[0] == 'c' && "lf"@[0] == 'l');
    }
    if str_eq(s, "lf") {
        Ok(NormalizeOption::Lf)
    } else if str_eq(s, "crlf") {
        Ok(NormalizeOption::CrLf)
    } else if str_eq(s, "cr") {
        Ok(NormalizeOption::Cr)
    } else if str_eq(s, "any") {
        Ok(NormalizeOption::MostFrequent)
    } else {
        Err("Invalid line ending".to_owned())
    }
}

/// The rewrite target a choice selects: the explicit convention, or the
/// aggregate's dominant convention for [`NormalizeOption::MostFrequent`] —
/// absent when no dominant convention exists, in which case the rewrite
/// pass is skipped.
pub fn resolve_target(option: &NormalizeOption, aggregate_max: Option<LineSep>) -> (r: Option<
    LineSep,
>)
    ensures
        r == match option {
            NormalizeOption::Lf => Some(LineSep::Lf),
            NormalizeOption::CrLf => Some(LineSep::CrLf),
            NormalizeOption::Cr => Some(LineSep::Cr),
            NormalizeOption::MostFrequent => aggregate_max,
        },
{
    match option {
        NormalizeOption::Lf => Some(LineSep::Lf),
        NormalizeOption::CrLf => Some(LineSep::CrLf),
        NormalizeOption::Cr => Some(LineSep::Cr),
        NormalizeOption::MostFrequent => aggregate_max,
    }
}

} // verus!
