//! What is downloaded, and what follows from what is in the cache already.
use vstd::prelude::*;
use crate::calendar::Date;
use crate::domain::{Failure, StationId};
use crate::ghcnh::{ghcnh_url, year_url};
use crate::iem;
use crate::iem::iem_url;
use crate::ncei;
use crate::ncei::{month_number, month_span, months_between, ncei_url};
use crate::source::DataSource;
use crate::text::texts;

verus! {

/// What a download of a window of days left behind.
#[derive(Debug, Clone)]
pub struct HistoricalFetchResult {
    pub path: String,
    pub byte_count: usize,
    pub reused: bool,
}

/// What a download of a current observation left behind.
#[derive(Debug, Clone)]
pub struct CurrentFetchResult {
    pub path: String,
    pub byte_count: usize,
    pub reused: bool,
}

/// A window of days ends no earlier than it starts.
pub fn check_window(start: Date, end: Date) -> (r: Result<(), Failure>)
    ensures
        r is Ok <==> start.not_after(end),
        r matches Err(failure) ==> failure.message@ == "--end must not be earlier than --start"@,
{
    if start.is_not_after(end) {
        Ok(())
    } else {
        Err(Failure::new("--end must not be earlier than --start"))
    }
}

/// Whether a raw file is used again in place of a download: it is there, and no refresh is asked
/// for.
pub fn is_reused(is_there: bool, refresh: bool) -> (r: bool)
    ensures
        r == (is_there && !refresh),
{
    is_there && !refresh
}

/// Why a source has no downloads of windows of days.
pub open spec fn historical_refusal_text(source: DataSource) -> Option<Seq<char>> {
    match source {
        DataSource::NwsApi => Some("nws-api historical fetch is not implemented in wxmatch v1"@),
        _ => None,
    }
}

/// Why a source has no downloads of windows of days.
pub fn historical_refusal(source: DataSource) -> (r: Option<&'static str>)
    ensures
        crate::fields::opt_str(r) == historical_refusal_text(source),
{
    match source {
        DataSource::NwsApi => Some("nws-api historical fetch is not implemented in wxmatch v1"),
        _ => None,
    }
}

/// Why a source has no downloads of current observations.
pub open spec fn current_refusal_text(source: DataSource) -> Option<Seq<char>> {
    match source {
        DataSource::NwsApi => None,
        DataSource::IemAsosOneMinute => Some(
            "iem-asos-1min does not support current observation fetch in wxmatch v1"@,
        ),
        DataSource::NceiAsosFiveMinute => Some(
            "ncei-asos-5min does not provide current observation fetch in wxmatch"@,
        ),
        DataSource::Ghcnh => Some("ghcnh does not provide current observation fetch in wxmatch"@),
    }
}

/// Why a source has no downloads of current observations.
pub fn current_refusal(source: DataSource) -> (r: Option<&'static str>)
    ensures
        crate::fields::opt_str(r) == current_refusal_text(source),
{
    match source {
        DataSource::NwsApi => None,
        DataSource::IemAsosOneMinute => Some(
            "iem-asos-1min does not support current observation fetch in wxmatch v1",
        ),
        DataSource::NceiAsosFiveMinute => Some(
            "ncei-asos-5min does not provide current observation fetch in wxmatch",
        ),
        DataSource::Ghcnh => Some("ghcnh does not provide current observation fetch in wxmatch"),
    }
}

/// How far a download from IEM has come, with the status of the last answer.
#[derive(Debug, Clone, Copy, PartialEq, Eq, Structural)]
pub enum IemProgress {
    /// Nothing has been asked for.
    NotAsked,
    /// The request with the optional values was answered.
    AskedAll(u16),
    /// The request without them was answered.
    AskedCore(u16),
}

impl IemProgress {
    pub open spec fn after(self, status: u16) -> IemProgress {
        match self {
            IemProgress::NotAsked => IemProgress::AskedAll(status),
            _ => IemProgress::AskedCore(status),
        }
    }

    /// Whether the next request asks for the optional values; none where no request follows.
    pub open spec fn asks_for(self) -> Option<bool> {
        match self {
            IemProgress::NotAsked => Some(true),
            IemProgress::AskedAll(status) => if status == 422 {
                Some(false)
            } else {
                None
            },
            IemProgress::AskedCore(_) => None,
        }
    }

    /// The progress once the next request has been answered with this status.
    pub fn answered(self, status: u16) -> (r: IemProgress)
        ensures
            r == self.after(status),
    {
        match self {
            IemProgress::NotAsked => IemProgress::AskedAll(status),
            _ => IemProgress::AskedCore(status),
        }
    }
}

/// The address to ask next at IEM: first with the optional values, and once more without them where
/// that was answered with the status 422.
pub fn next_iem_url(
    station_id: &StationId,
    timezone: &str,
    start: Date,
    end: Date,
    progress: IemProgress,
) -> (r: Option<String>)
    ensures
        match (progress.asks_for(), r) {
            (Some(optional), Some(url)) => url@ == iem_url(
                station_id@,
                timezone@,
                start,
                end,
                optional,
            ),
            (None, None) => true,
            _ => false,
        },
{
    match progress {
        IemProgress::NotAsked => Some(iem::request_url(station_id, timezone, start, end, true)),
        IemProgress::AskedAll(status) => {
            if status == 422 {
                Some(iem::request_url(station_id, timezone, start, end, false))
            } else {
                None
            }
        },
        IemProgress::AskedCore(_) => None,
    }
}

/// A refused request for the optional values is followed by one for the others, and whatever the
/// answer to that, by no third.
pub proof fn law_iem_is_asked_again_once(first: u16, second: u16)
    ensures
        IemProgress::NotAsked.asks_for() == Some(true),
        IemProgress::NotAsked.after(first).asks_for() == (if first == 422 {
            Some(false)
        } else {
            None
        }),
        IemProgress::NotAsked.after(first).after(second).asks_for() is None,
{
}

/// The addresses of the months of a window at NCEI.
pub open spec fn month_urls_are(station: Seq<char>, start: Date, end: Date, urls: Seq<Seq<char>>) -> bool {
    let months = months_between(start, end);
    urls.len() == months.len() && forall|i: int|
        0 <= i < months.len() ==> #[trigger] urls[i] == ncei_url(station, months[i].0, months[i].1)
}

/// The addresses of the months of a window at NCEI.
pub fn month_urls(station_id: &StationId, start: Date, end: Date) -> (r: Vec<String>)
    requires
        month_number(start.y(), start.m()) <= month_number(end.y(), end.m()),
    ensures
        month_urls_are(station_id@, start, end, texts(r@)),
{
    let months = month_span(start, end);
    let ghost wanted = months_between(start, end);
    let ghost plain = months@.map_values(|month: (i32, u32)| (month.0 as int, month.1 as int));
    let mut urls: Vec<String> = Vec::new();
    let mut i: usize = 0;
    while i < months.len()
        invariant
            i <= months@.len(),
            plain == months@.map_values(|month: (i32, u32)| (month.0 as int, month.1 as int)),
            plain == wanted,
            urls@.len() == i,
            forall|k: int|
                0 <= k < i ==> (#[trigger] urls@[k])@ == ncei_url(
                    station_id@,
                    wanted[k].0,
                    wanted[k].1,
                ),
        decreases months@.len() - i,
    {
        assert(plain[i as int] == (months@[i as int].0 as int, months@[i as int].1 as int));
        let (year, month) = months[i];
        urls.push(ncei::request_url(station_id, year, month));
        i += 1;
    }
    assert(plain.len() == months@.len());
    urls
}

/// A window that ends no earlier than it starts has its months and its years in order.
pub proof fn law_windows_have_months_in_order(start: Date, end: Date)
    requires
        start.valid(),
        end.valid(),
        start.not_after(end),
    ensures
        month_number(start.y(), start.m()) <= month_number(end.y(), end.m()),
        start.y() <= end.y(),
{
}

/// The addresses of the years of a window at GHCNh.
pub fn year_urls(ghcnh_station_id: &str, start: Date, end: Date) -> (r: Vec<String>)
    requires
        start.y() <= end.y(),
    ensures
        r@.len() == end.y() - start.y() + 1,
        forall|i: int|
            0 <= i < r@.len() ==> (#[trigger] r@[i])@ == ghcnh_url(
                ghcnh_station_id@,
                start.y() + i,
            ),
{
    let first: i32 = start.year();
    let last: i32 = end.year();
    let mut urls: Vec<String> = Vec::new();
    let mut year: i32 = first;
    while year < last
        invariant
            start.valid(),
            end.valid(),
            first == start.y(),
            last == end.y(),
            first <= year <= last,
            urls@.len() == year - first,
            forall|i: int|
                0 <= i < urls@.len() ==> (#[trigger] urls@[i])@ == ghcnh_url(
                    ghcnh_station_id@,
                    start.y() + i,
                ),
        decreases last - year,
    {
        urls.push(year_url(ghcnh_station_id, year));
        year += 1;
    }
    urls.push(year_url(ghcnh_station_id, last));
    urls
}

/// What is done for a source of a station before its data are read.
#[derive(Debug, Clone, Copy, PartialEq, Eq, Structural)]
pub enum SourceStep {
    /// Its observations are there: see to their manifests.
    Backfill,
    /// Only its raw files are there: normalize them.
    Normalize,
    /// Nothing of it is there.
    Skip,
}

/// What is done for a source of a station before its data are read.
pub fn source_step(normalized_files: usize, raw_files: usize) -> (r: SourceStep)
    ensures
        r == if normalized_files > 0 {
            SourceStep::Backfill
        } else if raw_files > 0 {
            SourceStep::Normalize
        } else {
            SourceStep::Skip
        },
{
    if normalized_files > 0 {
        SourceStep::Backfill
    } else if raw_files > 0 {
        SourceStep::Normalize
    } else {
        SourceStep::Skip
    }
}

/// Whether the derived data of the year are built anew after the current observation was merged: it
/// was new, or one of them is missing.
pub fn is_rebuilt_today(added: usize, daily_is_there: bool, profiles_are_there: bool) -> (r: bool)
    ensures
        r == (added > 0 || !daily_is_there || !profiles_are_there),
{
    added > 0 || !daily_is_there || !profiles_are_there
}

} // verus!
