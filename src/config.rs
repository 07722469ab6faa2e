use vstd::prelude::*;

use crate::decimal::{fixed_of_text, parse_fixed, parse_u32, u32_of_text};

verus! {

/// Default share of lower case letters, in units of `1 / SCALE`.
pub const DEFAULT_LOWER_CASE_PERC: i64 = 350_000;

/// Default share of upper case letters, in units of `1 / SCALE`.
pub const DEFAULT_UPPER_CASE_PERC: i64 = 350_000;

/// Default share of digits, in units of `1 / SCALE`.
pub const DEFAULT_NUMBERS_PERC: i64 = 150_000;

/// Default share of symbols, in units of `1 / SCALE`.
pub const DEFAULT_SIGNS_PERC: i64 = 150_000;

/// Smallest accepted total of the four shares (0.99).
pub const TOTAL_MIN: i64 = 990_000;

/// Largest accepted total of the four shares (1.01).
pub const TOTAL_MAX: i64 = 1_010_000;

/// What a password is made of: its length and the share of each kind of
/// character, each share in units of `1 / SCALE` (so `350_000` is 0.35).
#[derive(Clone, Copy, Debug, PartialEq, Eq, Structural)]
pub struct Config {
    pub pass_len: u32,
    pub lower_case_perc: i64,
    pub upper_case_perc: i64,
    pub numbers_perc: i64,
    pub signs_perc: i64,
}

/// Why a command line was refused.
#[derive(Clone, Copy, Debug, PartialEq, Eq, Structural)]
pub enum ConfigError {
    /// Neither a length alone nor a length and four shares.
    ArgCount,
    /// The length is not an unsigned 32-bit integer.
    PassLen,
    /// The share of lower case letters is not a number.
    LowerCasePerc,
    /// The share of upper case letters is not a number.
    UpperCasePerc,
    /// The share of digits is not a number.
    NumbersPerc,
    /// The share of symbols is not a number.
    SignsPerc,
    /// The four shares do not add up to 1.0 within 0.01.
    Total,
}

/// The configuration with the default shares.
pub open spec fn default_config(pass_len: u32) -> Config {
    Config {
        pass_len,
        lower_case_perc: DEFAULT_LOWER_CASE_PERC,
        upper_case_perc: DEFAULT_UPPER_CASE_PERC,
        numbers_perc: DEFAULT_NUMBERS_PERC,
        signs_perc: DEFAULT_SIGNS_PERC,
    }
}

/// Whether four shares add up to 1.0 within the tolerance.
pub open spec fn total_in_range(l: int, u: int, n: int, s: int) -> bool {
    TOTAL_MIN <= l + u + n + s <= TOTAL_MAX
}

/// The outcome of reading a command line, program name first.
pub open spec fn config_of(args: Seq<Seq<char>>) -> Result<Config, ConfigError> {
    if args.len() != 2 && args.len() != 6 {
        Err(ConfigError::ArgCount)
    } else {
        match u32_of_text(args[1]) {
            None => Err(ConfigError::PassLen),
            Some(pass_len) => if args.len() == 2 {
                Ok(default_config(pass_len))
            } else {
                match (
                    fixed_of_text(args[2]),
                    fixed_of_text(args[3]),
                    fixed_of_text(args[4]),
                    fixed_of_text(args[5]),
                ) {
                    (None, _, _, _) => Err(ConfigError::LowerCasePerc),
                    (Some(_), None, _, _) => Err(ConfigError::UpperCasePerc),
                    (Some(_), Some(_), None, _) => Err(ConfigError::NumbersPerc),
                    (Some(_), Some(_), Some(_), None) => Err(ConfigError::SignsPerc),
                    (Some(l), Some(u), Some(n), Some(s)) => if total_in_range(
                        l as int,
                        u as int,
                        n as int,
                        s as int,
                    ) {
                        Ok(
                            Config {
                                pass_len,
                                lower_case_perc: l,
                                upper_case_perc: u,
                                numbers_perc: n,
                                signs_perc: s,
                            },
                        )
                    } else {
                        Err(ConfigError::Total)
                    },
                }
            },
        }
    }
}

/// The texts of a command line.
pub open spec fn texts_of(args: Seq<String>) -> Seq<Seq<char>> {
    args.map_values(|a: String| a@)
}

impl Config {
    /// Reads a command line, program name first: either a length, or a length
    /// and the shares of lower case letters, upper case letters, digits and
    /// symbols, which must add up to 1.0 within 0.01.
    pub fn new(args: &[String]) -> (r: Result<Config, ConfigError>)
        ensures
            r == config_of(texts_of(args@)),
    {
        let ghost texts = texts_of(args@);
        if args.len() != 2 && args.len() != 6 {
            return Err(ConfigError::ArgCount);
        }
        assert(texts[1] == args@[1]@);
        let pass_len = match parse_u32(args[1].as_str()) {
            Some(n) => n,
            None => {
                return Err(ConfigError::PassLen);
            },
        };
        if args.len() == 2 {
            return Ok(
                Config {
                    pass_len,
                    lower_case_perc: DEFAULT_LOWER_CASE_PERC,
                    upper_case_perc: DEFAULT_UPPER_CASE_PERC,
                    numbers_perc: DEFAULT_NUMBERS_PERC,
                    signs_perc: DEFAULT_SIGNS_PERC,
                },
            );
        }
        assert(texts[2] == args@[2]@ && texts[3] == args@[3]@ && texts[4] == args@[4]@
            && texts[5] == args@[5]@);
        let lower_case_perc = match parse_fixed(args[2].as_str()) {
            Some(v) => v,
            None => {
                return Err(ConfigError::LowerCasePerc);
            },
        };
        let upper_case_perc = match parse_fixed(args[3].as_str()) {
            Some(v) => v,
            None => {
                return Err(ConfigError::UpperCasePerc);
            },
        };
        let numbers_perc = match parse_fixed(args[4].as_str()) {
            Some(v) => v,
            None => {
                return Err(ConfigError::NumbersPerc);
            },
        };
        let signs_perc = match parse_fixed(args[5].as_str()) {
            Some(v) => v,
            None => {
                return Err(ConfigError::SignsPerc);
            },
        };
        let total = lower_case_perc + upper_case_perc + numbers_perc + signs_perc;
        if total < TOTAL_MIN || total > TOTAL_MAX {
            return Err(ConfigError::Total);
        }
        Ok(Config { pass_len, lower_case_perc, upper_case_perc, numbers_perc, signs_perc })
    }
}

} // verus!
