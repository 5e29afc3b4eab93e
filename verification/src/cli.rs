//! What a call of the program asks for.
use vstd::prelude::*;
use crate::calendar::Date;
use crate::reading::Reading;
use crate::source::DataSource;

verus! {

/// How log lines are written to the console.
#[derive(Debug, Clone, Copy, PartialEq, Eq, Structural)]
pub enum LogFormat {
    Pretty,
    Compact,
    Json,
}

/// How results are printed.
#[derive(Debug, Clone, Copy, PartialEq, Eq, Structural)]
pub enum OutputFormat {
    Text,
    Json,
}

#[derive(Debug, Clone)]
pub enum Command {
    Cache(CacheCommand),
    Source(SourceCommand),
    Station(StationCommand),
    Fetch(FetchCommand),
    Normalize(NormalizeCommand),
    Build(BuildCommand),
    Query(QueryCommand),
}

#[derive(Debug, Clone)]
pub struct CacheCommand {
    pub command: CacheSubcommand,
}

#[derive(Debug, Clone)]
pub enum CacheSubcommand {
    Init,
    Show,
    Doctor,
    Manifests { station: Option<String> },
}

#[derive(Debug, Clone)]
pub struct SourceCommand {
    pub command: SourceSubcommand,
}

#[derive(Debug, Clone)]
pub enum SourceSubcommand {
    List,
}

#[derive(Debug, Clone)]
pub struct StationCommand {
    pub command: StationSubcommand,
}

#[derive(Debug, Clone)]
pub enum StationSubcommand {
    Inspect { station: String },
}

#[derive(Debug, Clone)]
pub struct FetchCommand {
    pub command: FetchSubcommand,
}

#[derive(Debug, Clone)]
pub enum FetchSubcommand {
    Station(FetchStationArgs),
    Current(FetchCurrentArgs),
}

#[derive(Debug, Clone)]
pub struct FetchStationArgs {
    pub station: String,
    pub source: DataSource,
    pub start: Date,
    pub end: Date,
    pub refresh: bool,
}

#[derive(Debug, Clone)]
pub struct FetchCurrentArgs {
    pub station: String,
    pub source: DataSource,
}

#[derive(Debug, Clone)]
pub struct NormalizeCommand {
    pub command: NormalizeSubcommand,
}

#[derive(Debug, Clone)]
pub enum NormalizeSubcommand {
    Station { station: String, source: DataSource },
}

#[derive(Debug, Clone)]
pub struct BuildCommand {
    pub command: BuildSubcommand,
}

#[derive(Debug, Clone)]
pub enum BuildSubcommand {
    Daily { station: String, year: Option<i32> },
    Profiles { station: String, year: Option<i32> },
}

#[derive(Debug, Clone)]
pub struct QueryCommand {
    pub command: QuerySubcommand,
}

#[derive(Debug, Clone)]
pub enum QuerySubcommand {
    Day { station: String, date: Date },
    Today { station: String },
    Prob(ProbabilityArgs),
    Analogs(AnalogsArgs),
    DuckdbPaths { station: Option<String>, year: Option<i32> },
}

/// A question for a probability. The threshold is in degrees Fahrenheit; `as_of_hour` is the hour
/// of the time up to which the day counts.
#[derive(Debug, Clone)]
pub struct ProbabilityArgs {
    pub station: String,
    pub date: Option<Date>,
    pub today: bool,
    pub threshold_high: Reading,
    pub as_of_hour: Option<u8>,
}

/// A search for analogs. `as_of_hour` is the hour of the time up to which the day counts.
#[derive(Debug, Clone)]
pub struct AnalogsArgs {
    pub station: String,
    pub date: Option<Date>,
    pub today: bool,
    pub as_of_hour: Option<u8>,
    pub top: usize,
}

/// What is logged at a level of verbosity.
pub open spec fn filter_at(verbose: u8) -> Seq<char> {
    if verbose == 0 {
        "wxmatch=info,reqwest=warn"@
    } else if verbose == 1 {
        "wxmatch=debug,reqwest=info"@
    } else {
        "wxmatch=trace,reqwest=debug"@
    }
}

/// What is logged: as the given filter says, or by the level of verbosity.
pub fn log_filter(given: Option<&str>, verbose: u8) -> (r: String)
    ensures
        r@ == (match given {
            Some(filter) => filter@,
            None => filter_at(verbose),
        }),
{
    match given {
        Some(filter) => filter.to_string(),
        None => {
            if verbose == 0 {
                "wxmatch=info,reqwest=warn".to_string()
            } else if verbose == 1 {
                "wxmatch=debug,reqwest=info".to_string()
            } else {
                "wxmatch=trace,reqwest=debug".to_string()
            }
        },
    }
}

/// Whether a command sees to the manifests of all data files before it runs.
pub fn backfills(command: &Command) -> (r: bool)
    ensures
        r == (match *command {
            Command::Source(_) => true,
            Command::Station(_) => true,
            Command::Cache(cache) => cache.command is Manifests,
            Command::Query(query) => query.command is DuckdbPaths,
            _ => false,
        }),
{
    match command {
        Command::Source(_) => true,
        Command::Station(_) => true,
        Command::Cache(cache) => match &cache.command {
            CacheSubcommand::Manifests { .. } => true,
            _ => false,
        },
        Command::Query(query) => match &query.command {
            QuerySubcommand::DuckdbPaths { .. } => true,
            _ => false,
        },
        _ => false,
    }
}

} // verus!
