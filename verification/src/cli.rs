//! The program's command line: data file, bot token and fetch period.
use vstd::prelude::*;

use crate::text::{parse_u64, parse_u64_of};

verus! {

/// What the program runs with.
#[derive(Debug)]
pub struct Settings {
    /// The file that holds the subscriptions.
    pub datafile: String,
    /// The Telegram bot token.
    pub token: String,
    /// Seconds between two fetches of the feeds.
    pub period: u64,
}

/// Why the command line was refused.
#[derive(Clone, Copy, Debug, PartialEq, Eq, Structural)]
pub enum CliError {
    /// The data file or the token is missing.
    Usage,
    /// The period is not an unsigned number.
    BadPeriod,
}

/// The period used when none is given.
pub const DEFAULT_PERIOD: u64 = 3600;

/// Reads `program datafile token [period]`; further arguments are ignored.
pub fn parse_args(args: &Vec<String>) -> (res: Result<Settings, CliError>)
    ensures
        args.len() < 3 ==> res == Err::<Settings, CliError>(CliError::Usage),
        args.len() >= 4 && parse_u64_of(args[3]@) is None ==> res == Err::<Settings, CliError>(
            CliError::BadPeriod,
        ),
        args.len() >= 3 && (args.len() == 3 || parse_u64_of(args[3]@) is Some) ==> (
        res matches Ok(s) && s.datafile@ == args[1]@ && s.token@ == args[2]@ && s.period == (
        if args.len() == 3 {
            DEFAULT_PERIOD as int
        } else {
            parse_u64_of(args[3]@)->0
        })),
{
    if args.len() < 3 {
        return Err(CliError::Usage);
    }
    let period = if args.len() > 3 {
        match parse_u64(args[3].as_str()) {
            Some(p) => p,
            None => return Err(CliError::BadPeriod),
        }
    } else {
        DEFAULT_PERIOD
    };
    Ok(Settings { datafile: args[1].clone(), token: args[2].clone(), period })
}

} // verus!
