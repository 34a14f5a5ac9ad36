//! The settings of one run, checked.

use vstd::prelude::*;
use vstd::string::*;
use crate::cli::{PhasesArgs, SimpleArgs};
use crate::text::{clone_strings, strings_of};
use crate::errors::{Failure, JouleProfilerError};
use crate::measure::pattern::{invalid_pattern_text, pattern_refusal, TokenPattern};
use crate::rapl::domain::{
    discover_sockets,
    parse_sockets,
    selected_sockets,
    socket_filter_fault,
    socket_set,
    strictly_increasing,
    RaplDomain,
};

verus! {

/// The settings of one run.
#[derive(Debug)]
pub struct Config {
    /// The sockets whose counters are measured.
    pub sockets: Vec<u32>,
    /// Export structured data.
    pub json: bool,
    /// Export delimited rows.
    pub csv: bool,
    /// How often to run the command, where it is run more than once.
    pub iterations: Option<usize>,
    /// Where exported results go.
    pub jouleit_file: Option<String>,
    /// Where the command's standard output goes.
    pub output_file: Option<String>,
    /// The regular expression that marks a phase boundary.
    pub token_pattern: Option<String>,
    /// The text that marks the start of the work phase, where phases are
    /// delimited by two fixed texts.
    pub token_start: Option<String>,
    /// The text that marks the end of the work phase.
    pub token_end: Option<String>,
    /// The command and its arguments.
    pub cmd: Vec<String>,
}

/// How results are shown.
#[derive(Debug, Clone, Copy, PartialEq, Eq, Structural)]
pub enum OutputFormat {
    /// Structured data.
    Json,
    /// Delimited rows.
    Csv,
    /// Text for the console.
    Terminal,
}

/// The view of an optional text.
pub open spec fn text_of(t: Option<String>) -> Option<Seq<char>> {
    match t {
        Some(s) => Some(s@),
        None => None,
    }
}

/// An optional string with the same text as `t`.
pub fn clone_text(t: &Option<String>) -> (r: Option<String>)
    ensures
        text_of(r) == text_of(*t),
{
    match t {
        Some(s) => Some(s.clone()),
        None => None,
    }
}

impl Clone for Config {
    fn clone(&self) -> (r: Self)
        ensures
            r.sockets@ == self.sockets@,
            r.json == self.json,
            r.csv == self.csv,
            r.iterations == self.iterations,
            text_of(r.jouleit_file) == text_of(self.jouleit_file),
            text_of(r.output_file) == text_of(self.output_file),
            text_of(r.token_pattern) == text_of(self.token_pattern),
            text_of(r.token_start) == text_of(self.token_start),
            text_of(r.token_end) == text_of(self.token_end),
            strings_of(r.cmd@) == strings_of(self.cmd@),
    {
        let mut sockets: Vec<u32> = Vec::new();
        let mut i: usize = 0;
        while i < self.sockets.len()
            invariant
                i <= self.sockets@.len(),
                sockets@ == self.sockets@.take(i as int),
            decreases self.sockets@.len() - i,
        {
            sockets.push(self.sockets[i]);
            i += 1;
        }
        Config {
            sockets,
            json: self.json,
            csv: self.csv,
            iterations: self.iterations,
            jouleit_file: clone_text(&self.jouleit_file),
            output_file: clone_text(&self.output_file),
            token_pattern: clone_text(&self.token_pattern),
            token_start: clone_text(&self.token_start),
            token_end: clone_text(&self.token_end),
            cmd: clone_strings(&self.cmd),
        }
    }
}

/// The first reason to refuse a request, in the order in which requests
/// are checked: the socket filter, the iteration count, the command, the
/// export formats.
pub open spec fn request_fault(
    sockets: Option<Seq<char>>,
    iterations: Option<usize>,
    cmd_len: nat,
    json: bool,
    csv: bool,
    known: Set<u32>,
) -> Option<Failure> {
    if socket_filter_fault(sockets, known) is Some {
        socket_filter_fault(sockets, known)
    } else if iterations == Some(0usize) {
        Some(Failure::InvalidIterations(0))
    } else if cmd_len == 0 {
        Some(Failure::NoCommand)
    } else if json && csv {
        Some(Failure::ConflictingOutputFormats)
    } else {
        None
    }
}

/// The sockets that `spec` selects among those of `domains`; all of them
/// where there is no filter.
fn parse_or_all_sockets(spec: &Option<String>, domains: &[RaplDomain]) -> (r: Result<
    Vec<u32>,
    JouleProfilerError,
>)
    ensures
        match socket_filter_fault(text_of(*spec), socket_set(domains@)) {
            Some(fault) => r matches Err(e) && e@ == fault,
            None => r matches Ok(v) && strictly_increasing(v@) && v@.to_set() == selected_sockets(
                text_of(*spec),
                socket_set(domains@),
            ),
        },
{
    match spec {
        Some(text) => parse_sockets(text.as_str(), domains),
        None => Ok(discover_sockets(domains)),
    }
}

/// The first reason to refuse the request `args` for a plain
/// measurement.
pub open spec fn simple_fault(args: SimpleArgs, domains: Seq<RaplDomain>) -> Option<Failure> {
    request_fault(
        text_of(args.sockets),
        args.iterations,
        args.cmd@.len(),
        args.json,
        args.csv,
        socket_set(domains),
    )
}

/// The first reason to refuse the request `args` for a measurement by
/// phases, its token pattern left aside.
pub open spec fn phases_request_fault(args: PhasesArgs, domains: Seq<RaplDomain>) -> Option<
    Failure,
> {
    request_fault(
        text_of(args.sockets),
        args.iterations,
        args.cmd@.len(),
        args.json,
        args.csv,
        socket_set(domains),
    )
}

/// The failure of a token pattern that does not compile.
pub open spec fn pattern_fault(source: Seq<char>) -> Option<Failure> {
    match pattern_refusal(source) {
        Some(reason) => Some(Failure::InvalidPattern(invalid_pattern_text(source, reason))),
        None => None,
    }
}

/// The first reason to refuse the request `args` for a measurement by
/// phases: what is wrong with the request itself, else a token pattern
/// that does not compile.
pub open spec fn phases_fault(args: PhasesArgs, domains: Seq<RaplDomain>) -> Option<Failure> {
    if phases_request_fault(args, domains) is Some {
        phases_request_fault(args, domains)
    } else {
        pattern_fault(args.token_pattern@)
    }
}

/// Whether `c` holds the settings that the request `args` for a plain
/// measurement asks for: the sockets it selects among those of `domains`,
/// each once in increasing order, no token, and all else as in `args`.
pub open spec fn is_simple_config(c: Config, args: SimpleArgs, domains: Seq<RaplDomain>) -> bool {
    &&& strictly_increasing(c.sockets@)
    &&& c.sockets@.to_set() == selected_sockets(text_of(args.sockets), socket_set(domains))
    &&& c.json == args.json
    &&& c.csv == args.csv
    &&& c.iterations == args.iterations
    &&& c.jouleit_file == args.jouleit_file
    &&& c.output_file == args.output_file
    &&& c.token_pattern is None
    &&& c.token_start is None
    &&& c.token_end is None
    &&& c.cmd == args.cmd
}

/// Whether `c` holds the settings that the request `args` for a
/// measurement by phases asks for: the sockets it selects among those of
/// `domains`, each once in increasing order, its token pattern, no
/// anchors, and all else as in `args`.
pub open spec fn is_phases_config(c: Config, args: PhasesArgs, domains: Seq<RaplDomain>) -> bool {
    &&& strictly_increasing(c.sockets@)
    &&& c.sockets@.to_set() == selected_sockets(text_of(args.sockets), socket_set(domains))
    &&& c.json == args.json
    &&& c.csv == args.csv
    &&& c.iterations == args.iterations
    &&& c.jouleit_file == args.jouleit_file
    &&& c.output_file == args.output_file
    &&& c.token_pattern == Some(args.token_pattern)
    &&& c.token_start is None
    &&& c.token_end is None
    &&& c.cmd == args.cmd
}

impl Config {
    /// The settings for a plain measurement, or the first reason to
    /// refuse the request.
    pub fn from_simple(args: SimpleArgs, domains: &[RaplDomain]) -> (r: Result<
        Config,
        JouleProfilerError,
    >)
        ensures
            match simple_fault(args, domains@) {
                Some(fault) => r matches Err(e) && e@ == fault,
                None => r matches Ok(c) && is_simple_config(c, args, domains@),
            },
    {
        let sockets = match parse_or_all_sockets(&args.sockets, domains) {
            Ok(v) => v,
            Err(e) => {
                return Err(e);
            },
        };
        match args.iterations {
            Some(n) => {
                if n == 0 {
                    return Err(JouleProfilerError::InvalidIterations(0));
                }
            },
            None => {},
        }
        if args.cmd.len() == 0 {
            return Err(JouleProfilerError::NoCommand);
        }
        if args.json && args.csv {
            return Err(JouleProfilerError::ConflictingOutputFormats);
        }
        Ok(
            Config {
                sockets,
                json: args.json,
                csv: args.csv,
                iterations: args.iterations,
                jouleit_file: args.jouleit_file,
                output_file: args.output_file,
                token_pattern: None,
                token_start: None,
                token_end: None,
                cmd: args.cmd,
            },
        )
    }

    /// The settings for a measurement by phases, given what became of
    /// compiling the token pattern: the first reason to refuse the
    /// request, else the pattern's failure, else the settings.
    pub fn from_phases_checked(
        args: PhasesArgs,
        domains: &[RaplDomain],
        pattern: Result<TokenPattern, JouleProfilerError>,
    ) -> (r: Result<Config, JouleProfilerError>)
        ensures
            match phases_request_fault(args, domains@) {
                Some(fault) => r matches Err(e) && e@ == fault,
                None => match pattern {
                    Err(refused) => r == Err::<Config, JouleProfilerError>(refused),
                    Ok(_) => r matches Ok(c) && is_phases_config(c, args, domains@),
                },
            },
    {
        let sockets = match parse_or_all_sockets(&args.sockets, domains) {
            Ok(v) => v,
            Err(e) => {
                return Err(e);
            },
        };
        match args.iterations {
            Some(n) => {
                if n == 0 {
                    return Err(JouleProfilerError::InvalidIterations(0));
                }
            },
            None => {},
        }
        if args.cmd.len() == 0 {
            return Err(JouleProfilerError::NoCommand);
        }
        if args.json && args.csv {
            return Err(JouleProfilerError::ConflictingOutputFormats);
        }
        match pattern {
            Err(refused) => {
                return Err(refused);
            },
            Ok(_) => {},
        }
        Ok(
            Config {
                sockets,
                json: args.json,
                csv: args.csv,
                iterations: args.iterations,
                jouleit_file: args.jouleit_file,
                output_file: args.output_file,
                token_pattern: Some(args.token_pattern),
                token_start: None,
                token_end: None,
                cmd: args.cmd,
            },
        )
    }

    /// The settings for a measurement by phases, or the first reason to
    /// refuse the request. A request that is in order otherwise is
    /// refused exactly where its token pattern does not compile.
    pub fn from_phases(args: PhasesArgs, domains: &[RaplDomain]) -> (r: Result<
        Config,
        JouleProfilerError,
    >)
        ensures
            match phases_fault(args, domains@) {
                Some(fault) => r matches Err(e) && e@ == fault,
                None => r matches Ok(c) && is_phases_config(c, args, domains@),
            },
    {
        let pattern = TokenPattern::compile(args.token_pattern.as_str());
        Config::from_phases_checked(args, domains, pattern)
    }

    /// How the results of this run are shown: structured data where it was
    /// asked for, else delimited rows where they were, else console text.
    pub fn output_format(&self) -> (f: OutputFormat)
        ensures
            f == (if self.json {
                OutputFormat::Json
            } else if self.csv {
                OutputFormat::Csv
            } else {
                OutputFormat::Terminal
            }),
    {
        if self.json {
            OutputFormat::Json
        } else if self.csv {
            OutputFormat::Csv
        } else {
            OutputFormat::Terminal
        }
    }

    /// Whether the command is run more than once.
    pub fn is_multi_iteration(&self) -> (b: bool)
        ensures
            b == (self.iterations matches Some(n) && n > 1),
    {
        match self.iterations {
            Some(n) => n > 1,
            None => false,
        }
    }
}

} // verus!
