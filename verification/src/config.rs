//! Startup validation: the `YYYY/MM` range bounds of the command line
//! become a [`DateRange`], or the run fails before it starts.
use vstd::prelude::*;
use crate::dates::{parse_year_month, spec_parse_ym, DateRange};
use crate::types::Args;

verus! {

/// Which range bound of the command line was malformed.
#[derive(Clone, Copy, Debug, PartialEq, Eq, Structural)]
pub enum ConfigError {
    /// The start bound is not in `YYYY/MM` form.
    BadStart,
    /// The end bound is not in `YYYY/MM` form.
    BadEnd,
}

/// Validates the optional range bounds of the command line: a missing
/// bound leaves that side open; a malformed one is a fatal startup error,
/// the start bound being checked first.
pub fn date_range_of_args(args: &Args) -> (r: Result<DateRange, ConfigError>)
    ensures
        match r {
            Ok(dr) => {
                &&& (match args.start {
                    Some(s) => spec_parse_ym(s@) is Some && dr.start == spec_parse_ym(s@),
                    None => dr.start is None,
                })
                &&& (match args.end {
                    Some(s) => spec_parse_ym(s@) is Some && dr.end == spec_parse_ym(s@),
                    None => dr.end is None,
                })
            },
            Err(ConfigError::BadStart) => args.start is Some && spec_parse_ym(
                (args.start->0)@,
            ) is None,
            Err(ConfigError::BadEnd) => {
                &&& args.end is Some
                &&& spec_parse_ym((args.end->0)@) is None
                &&& (match args.start {
                    Some(s) => spec_parse_ym(s@) is Some,
                    None => true,
                })
            },
        },
{
    let start = match &args.start {
        Some(s) => {
            match parse_year_month(s.as_str()) {
                Some(ym) => Some(ym),
                None => {
                    return Err(ConfigError::BadStart);
                },
            }
        },
        None => None,
    };
    let end = match &args.end {
        Some(s) => {
            match parse_year_month(s.as_str()) {
                Some(ym) => Some(ym),
                None => {
                    return Err(ConfigError::BadEnd);
                },
            }
        },
        None => None,
    };
    Ok(DateRange { start, end })
}

} // verus!
