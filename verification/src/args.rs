use vstd::prelude::*;

use crate::digits::{dec_val, is_dec_seq, parse_u16, parse_u8};
use crate::error::{ConfigError, ConfigErrorV};

verus! {

/// The run configuration, immutable once parsed. `dir` stays unset when no
/// `--dir` flag is given; the save location then falls to the platform home
/// directory, resolved only when needed.
#[derive(Clone, Debug)]
pub struct Arguments {
    pub width: u16,
    pub height: u16,
    pub dir: Option<String>,
    pub threads: u8,
    pub count: u16,
}

/// The spec-level shape of the configuration, with the directory as a
/// character sequence.
pub ghost struct ArgumentsV {
    pub width: u16,
    pub height: u16,
    pub dir: Option<Seq<char>>,
    pub threads: u8,
    pub count: u16,
}

impl Arguments {
    /// The spec-level value of this configuration.
    pub open spec fn view(&self) -> ArgumentsV {
        ArgumentsV {
            width: self.width,
            height: self.height,
            dir: match self.dir {
                Some(d) => Some(d@),
                None => None,
            },
            threads: self.threads,
            count: self.count,
        }
    }
}

/// The defaults: 1920 by 1080, 50 images, 4 workers, no base directory.
pub open spec fn default_arguments_spec() -> ArgumentsV {
    ArgumentsV { width: 1920, height: 1080, dir: None, threads: 4, count: 50 }
}

/// Builds the default configuration.
pub fn default_arguments() -> (a: Arguments)
    ensures
        a@ == default_arguments_spec(),
{
    Arguments { width: 1920, height: 1080, dir: None, threads: 4, count: 50 }
}

/// What parsing the command line yields: a configuration to run with, a
/// request for the usage text, or a fatal configuration error.
#[derive(Clone, Debug)]
pub enum ParseOutcome {
    Run(Arguments),
    Help,
    Fail(ConfigError),
}

/// The spec-level shape of a parse outcome.
pub ghost enum ParseOutcomeV {
    Run(ArgumentsV),
    Help,
    Fail(ConfigErrorV),
}

impl ParseOutcome {
    /// The spec-level value of this outcome.
    pub open spec fn view(&self) -> ParseOutcomeV {
        match self {
            ParseOutcome::Run(a) => ParseOutcomeV::Run(a@),
            ParseOutcome::Help => ParseOutcomeV::Help,
            ParseOutcome::Fail(e) => ParseOutcomeV::Fail(e@),
        }
    }
}

/// What parsing the remaining arguments over the configuration `cur` yields.
/// Flags are read left to right and later values override earlier ones;
/// `--help` wins as soon as it is seen; an unrecognized argument, a missing or
/// non-numeric value, and a final worker count of zero are each fatal.
pub open spec fn parse_spec(args: Seq<Seq<char>>, cur: ArgumentsV) -> ParseOutcomeV
    decreases args.len(),
{
    if args.len() == 0 {
        if cur.threads == 0 {
            ParseOutcomeV::Fail(ConfigErrorV::ZeroWorkerCount)
        } else {
            ParseOutcomeV::Run(cur)
        }
    } else if args[0] == "--help"@ {
        ParseOutcomeV::Help
    } else if args[0] == "--count"@ {
        if args.len() < 2 {
            ParseOutcomeV::Fail(ConfigErrorV::MissingFlagValue("count"@))
        } else if !is_dec_seq(args[1]) || dec_val(args[1]) > u16::MAX {
            ParseOutcomeV::Fail(ConfigErrorV::NonNumericFlagValue("count"@))
        } else {
            parse_spec(args.skip(2), ArgumentsV { count: dec_val(args[1]) as u16, ..cur })
        }
    } else if args[0] == "--width"@ {
        if args.len() < 2 {
            ParseOutcomeV::Fail(ConfigErrorV::MissingFlagValue("width"@))
        } else if !is_dec_seq(args[1]) || dec_val(args[1]) > u16::MAX {
            ParseOutcomeV::Fail(ConfigErrorV::NonNumericFlagValue("width"@))
        } else {
            parse_spec(args.skip(2), ArgumentsV { width: dec_val(args[1]) as u16, ..cur })
        }
    } else if args[0] == "--height"@ {
        if args.len() < 2 {
            ParseOutcomeV::Fail(ConfigErrorV::MissingFlagValue("height"@))
        } else if !is_dec_seq(args[1]) || dec_val(args[1]) > u16::MAX {
            ParseOutcomeV::Fail(ConfigErrorV::NonNumericFlagValue("height"@))
        } else {
            parse_spec(args.skip(2), ArgumentsV { height: dec_val(args[1]) as u16, ..cur })
        }
    } else if args[0] == "--threads"@ {
        if args.len() < 2 {
            ParseOutcomeV::Fail(ConfigErrorV::MissingFlagValue("threads"@))
        } else if !is_dec_seq(args[1]) || dec_val(args[1]) > u8::MAX {
            ParseOutcomeV::Fail(ConfigErrorV::NonNumericFlagValue("threads"@))
        } else {
            parse_spec(args.skip(2), ArgumentsV { threads: dec_val(args[1]) as u8, ..cur })
        }
    } else if args[0] == "--dir"@ {
        if args.len() < 2 {
            ParseOutcomeV::Fail(ConfigErrorV::MissingFlagValue("dir"@))
        } else {
            parse_spec(args.skip(2), ArgumentsV { dir: Some(args[1]), ..cur })
        }
    } else {
        ParseOutcomeV::Fail(ConfigErrorV::UnknownFlag(args[0]))
    }
}

/// Compares two strings character by character.
fn str_eq(a: &str, b: &str) -> (r: bool)
    ensures
        r <==> a@ == b@,
{
    let la = a.unicode_len();
    let lb = b.unicode_len();
    if la != lb {
        return false;
    }
    let mut i: usize = 0;
    while i < la
        invariant
            0 <= i <= la,
            la == a@.len(),
            lb == b@.len(),
            la == lb,
            forall|k: int| 0 <= k < i ==> a@[k] == b@[k],
        decreases la - i,
    {
        let ca = a.get_char(i);
        let cb = b.get_char(i);
        if ca != cb {
            return false;
        }
        i += 1;
    }
    proof {
        assert(a@ =~= b@);
    }
    true
}

/// Parses the command-line arguments (the program name already removed) over
/// the default configuration, exactly as `parse_spec` says.
pub fn parse_arguments(args: &Vec<String>) -> (r: ParseOutcome)
    ensures
        r@ == parse_spec(args.deep_view(), default_arguments_spec()),
{
    let ghost whole = args.deep_view();
    let mut cur = default_arguments();
    let n = args.len();
    let mut i: usize = 0;
    proof {
        assert(whole.skip(0) =~= whole);
    }
    while i < n
        invariant
            0 <= i <= n,
            n == args@.len(),
            whole == args.deep_view(),
            whole.len() == n,
            parse_spec(whole.skip(i as int), cur@) == parse_spec(whole, default_arguments_spec()),
        decreases n - i,
    {
        let ghost rem = whole.skip(i as int);
        proof {
            assert(rem[0] == args@[i as int]@);
            if i + 1 < n {
                assert(rem[1] == args@[i as int + 1]@);
            }
        }
        let arg = &args[i];
        if str_eq(arg.as_str(), "--help") {
            return ParseOutcome::Help;
        } else if str_eq(arg.as_str(), "--count") {
            if i + 1 >= n {
                return ParseOutcome::Fail(
                    ConfigError::MissingFlagValue(String::from_str("count")),
                );
            }
            match parse_u16(args[i + 1].as_str()) {
                Some(v) => {
                    cur.count = v;
                },
                None => {
                    return ParseOutcome::Fail(
                        ConfigError::NonNumericFlagValue(String::from_str("count")),
                    );
                },
            }
            proof {
                assert(whole.skip(i as int + 2) =~= rem.skip(2));
            }
            i += 2;
        } else if str_eq(arg.as_str(), "--width") {
            if i + 1 >= n {
                return ParseOutcome::Fail(
                    ConfigError::MissingFlagValue(String::from_str("width")),
                );
            }
            match parse_u16(args[i + 1].as_str()) {
                Some(v) => {
                    cur.width = v;
                },
                None => {
                    return ParseOutcome::Fail(
                        ConfigError::NonNumericFlagValue(String::from_str("width")),
                    );
                },
            }
            proof {
                assert(whole.skip(i as int + 2) =~= rem.skip(2));
            }
            i += 2;
        } else if str_eq(arg.as_str(), "--height") {
            if i + 1 >= n {
                return ParseOutcome::Fail(
                    ConfigError::MissingFlagValue(String::from_str("height")),
                );
            }
            match parse_u16(args[i + 1].as_str()) {
                Some(v) => {
                    cur.height = v;
                },
                None => {
                    return ParseOutcome::Fail(
                        ConfigError::NonNumericFlagValue(String::from_str("height")),
                    );
                },
            }
            proof {
                assert(whole.skip(i as int + 2) =~= rem.skip(2));
            }
            i += 2;
        } else if str_eq(arg.as_str(), "--threads") {
            if i + 1 >= n {
                return ParseOutcome::Fail(
                    ConfigError::MissingFlagValue(String::from_str("threads")),
                );
            }
            match parse_u8(args[i + 1].as_str()) {
                Some(v) => {
                    cur.threads = v;
                },
                None => {
                    return ParseOutcome::Fail(
                        ConfigError::NonNumericFlagValue(String::from_str("threads")),
                    );
                },
            }
            proof {
                assert(whole.skip(i as int + 2) =~= rem.skip(2));
            }
            i += 2;
        } else if str_eq(arg.as_str(), "--dir") {
            if i + 1 >= n {
                return ParseOutcome::Fail(ConfigError::MissingFlagValue(String::from_str("dir")));
            }
            cur.dir = Some(args[i + 1].clone());
            proof {
                assert(whole.skip(i as int + 2) =~= rem.skip(2));
            }
            i += 2;
        } else {
            return ParseOutcome::Fail(ConfigError::UnknownFlag(arg.clone()));
        }
    }
    proof {
        assert(whole.skip(i as int) =~= Seq::<Seq<char>>::empty());
    }
    if cur.threads == 0 {
        ParseOutcome::Fail(ConfigError::ZeroWorkerCount)
    } else {
        ParseOutcome::Run(cur)
    }
}

} // verus!
