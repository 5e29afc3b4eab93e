//! Where things are kept: the directories of the cache, and the names of the files in them.
use vstd::prelude::*;
use crate::calendar::{compact_date, Date, UtcTime};
use crate::domain::{station_code, Failure, StationId};
use crate::numeral::{
    decimal, digits, int_text, law_int_text_reads_back, lemma_int_text_plain, signed_decimal,
};
use crate::paths::{
    file_in, join_path, last_piece_start, lemma_join_last_piece, lemma_last_dot_at,
    lemma_last_piece_start, lemma_pieces_push, path_join, pieces, source_in, station_in, stem,
    year_in,
};
use crate::source::{
    all_sources, cadence_of, law_slug_reads_back, lemma_slug_lens, slug_of, source_with_slug,
    summary_of, DataSource,
};
use crate::text::{slashless, starts_with, strip_prefix, trim, upper, upper_char};

verus! {

pub const APP_NAME: &'static str = "wxmatch";

/// The directories of the cache.
#[derive(Debug, Clone)]
pub struct CacheLayout {
    pub root: String,
    pub sources_dir: String,
    pub stations_dir: String,
    pub derived_dir: String,
    pub manifests_dir: String,
    pub logs_dir: String,
}

/// A note of what the cache was made with.
#[derive(Debug, Clone)]
pub struct BootstrapManifest {
    pub app_name: &'static str,
    pub created_at_utc: UtcTime,
    pub sources: Vec<BootstrapSource>,
}

/// A source in the note.
#[derive(Debug, Clone)]
pub struct BootstrapSource {
    pub slug: String,
    pub summary: &'static str,
    pub cadence: &'static str,
}

impl BootstrapSource {
    pub open spec fn describes(self, source: DataSource) -> bool {
        &&& self.slug@ == slug_of(source)
        &&& self.summary@ == summary_of(source)
        &&& self.cadence@ == cadence_of(source)
    }
}

/// The note of what the cache was made with, at this time.
pub fn bootstrap_manifest(created_at_utc: UtcTime) -> (r: BootstrapManifest)
    ensures
        r.app_name@ == APP_NAME@,
        r.created_at_utc == created_at_utc,
        r.sources@.len() == 4,
        r.sources@[0].describes(DataSource::IemAsosOneMinute),
        r.sources@[1].describes(DataSource::NceiAsosFiveMinute),
        r.sources@[2].describes(DataSource::NwsApi),
        r.sources@[3].describes(DataSource::Ghcnh),
{
    let all = all_sources();
    let mut sources: Vec<BootstrapSource> = Vec::new();
    let mut i: usize = 0;
    while i < all.len()
        invariant
            i <= all@.len(),
            sources@.len() == i,
            forall|k: int| 0 <= k < i ==> (#[trigger] sources@[k]).describes(all@[k]),
        decreases all@.len() - i,
    {
        let source = all[i];
        sources.push(
            BootstrapSource {
                slug: source.slug().to_string(),
                summary: source.summary(),
                cadence: source.cadence(),
            },
        );
        i += 1;
    }
    BootstrapManifest { app_name: APP_NAME, created_at_utc, sources }
}

impl CacheLayout {
    /// The directories below a root.
    pub open spec fn below(self, root: Seq<char>) -> bool {
        &&& self.root@ == root
        &&& self.sources_dir@ == path_join(root, "sources"@)
        &&& self.stations_dir@ == path_join(root, "stations"@)
        &&& self.derived_dir@ == path_join(root, "derived"@)
        &&& self.manifests_dir@ == path_join(root, "manifests"@)
        &&& self.logs_dir@ == path_join(root, "logs"@)
    }

    /// The directories below a given root, or below the cache directory of the user.
    pub fn resolve(override_dir: Option<&str>, user_cache_dir: Option<&str>) -> (r: Result<
        Self,
        Failure,
    >)
        ensures
            match (override_dir, user_cache_dir) {
                (Some(root), _) => r matches Ok(layout) && layout.below(root@),
                (None, Some(base)) => r matches Ok(layout) && layout.below(
                    path_join(base@, APP_NAME@),
                ),
                (None, None) => r matches Err(failure) && failure.message@
                    == "unable to resolve user cache directory"@,
            },
    {
        let root = match (override_dir, user_cache_dir) {
            (Some(path), _) => path.to_string(),
            (None, Some(base)) => join_path(base, APP_NAME),
            (None, None) => {
                return Err(Failure::new("unable to resolve user cache directory"));
            },
        };
        Ok(
            Self {
                sources_dir: join_path(&root, "sources"),
                stations_dir: join_path(&root, "stations"),
                derived_dir: join_path(&root, "derived"),
                manifests_dir: join_path(&root, "manifests"),
                logs_dir: join_path(&root, "logs"),
                root,
            },
        )
    }

    /// All directories, the root first.
    pub fn directories(&self) -> (r: [&str; 6])
        ensures
            r@[0]@ == self.root@,
            r@[1]@ == self.sources_dir@,
            r@[2]@ == self.stations_dir@,
            r@[3]@ == self.derived_dir@,
            r@[4]@ == self.manifests_dir@,
            r@[5]@ == self.logs_dir@,
    {
        [
            self.root.as_str(),
            self.sources_dir.as_str(),
            self.stations_dir.as_str(),
            self.derived_dir.as_str(),
            self.manifests_dir.as_str(),
            self.logs_dir.as_str(),
        ]
    }

    pub fn bootstrap_manifest_path(&self) -> (r: String)
        ensures
            r@ == path_join(self.manifests_dir@, "bootstrap.json"@),
    {
        join_path(&self.manifests_dir, "bootstrap.json")
    }

    pub open spec fn source_dir(self, source: DataSource) -> Seq<char> {
        path_join(self.sources_dir@, slug_of(source))
    }

    pub fn source_root(&self, source: DataSource) -> (r: String)
        ensures
            r@ == self.source_dir(source),
    {
        join_path(&self.sources_dir, source.slug())
    }

    pub fn station_metadata_path(&self, station_id: &StationId) -> (r: String)
        ensures
            r@ == path_join(self.stations_dir@, station_id@ + ".json"@),
    {
        let mut name: String = station_id.as_str().to_string();
        name.append(".json");
        join_path(&self.stations_dir, &name)
    }

    /// Where the raw observations of a window of days are kept.
    pub fn historical_raw_path(
        &self,
        source: DataSource,
        station_id: &StationId,
        start: Date,
        end: Date,
        extension: &str,
    ) -> (r: String)
        ensures
            r@ == path_join(
                self.source_dir(source),
                "raw/station="@ + station_id@ + "/window="@ + window_text(start, end) + "."@
                    + extension@,
            ),
    {
        let mut name: String = "raw/station=".to_string();
        name.append(station_id.as_str());
        name.append("/window=");
        name.append(&window(start, end));
        name.append(".");
        name.append(extension);
        join_path(&self.source_root(source), &name)
    }

    pub open spec fn current_file(
        self,
        source: DataSource,
        station: Seq<char>,
        date: Date,
        name: Seq<char>,
        extension: Seq<char>,
    ) -> Seq<char> {
        path_join(
            self.source_dir(source),
            "raw/station="@ + station + "/date="@ + date.text() + "/"@ + name + "."@ + extension,
        )
    }

    /// Where a raw snapshot of a date is kept, under its name.
    pub fn current_raw_path(
        &self,
        source: DataSource,
        station_id: &StationId,
        date: Date,
        name: &str,
        extension: &str,
    ) -> (r: String)
        ensures
            r@ == self.current_file(source, station_id@, date, name@, extension@),
    {
        let mut file: String = "raw/station=".to_string();
        file.append(station_id.as_str());
        file.append("/date=");
        file.append(&date.to_text());
        file.append("/");
        file.append(name);
        file.append(".");
        file.append(extension);
        join_path(&self.source_root(source), &file)
    }

    /// The directory of the raw files of a station.
    pub fn raw_station_root(&self, source: DataSource, station_id: &StationId) -> (r: String)
        ensures
            r@ == path_join(self.source_dir(source), "raw/station="@ + station_id@),
    {
        let mut name: String = "raw/station=".to_string();
        name.append(station_id.as_str());
        join_path(&self.source_root(source), &name)
    }

    /// The directory of the observations of a station.
    pub fn normalized_station_root(&self, source: DataSource, station_id: &StationId) -> (r: String)
        ensures
            r@ == path_join(self.source_dir(source), "normalized/station="@ + station_id@),
    {
        let mut name: String = "normalized/station=".to_string();
        name.append(station_id.as_str());
        join_path(&self.source_root(source), &name)
    }

    /// The directory of a kind of derived data of a station.
    pub fn derived_station_root(&self, station_id: &StationId, kind: &str) -> (r: String)
        ensures
            r@ == path_join(self.derived_dir@, "station="@ + station_id@ + "/"@ + kind@),
    {
        let mut name: String = "station=".to_string();
        name.append(station_id.as_str());
        name.append("/");
        name.append(kind);
        join_path(&self.derived_dir, &name)
    }

    /// The path of the observations of a station in a year.
    pub open spec fn normalized_file(self, source: DataSource, station: Seq<char>, year: int) -> Seq<
        char,
    > {
        path_join(
            self.source_dir(source),
            "normalized/station="@ + station + "/year="@ + int_text(year) + ".parquet"@,
        )
    }

    /// Where the observations of a station in a year are kept.
    pub fn normalized_path(&self, source: DataSource, station_id: &StationId, year: i32) -> (r: String)
        ensures
            r@ == self.normalized_file(source, station_id@, year as int),
    {
        let mut name: String = "normalized/station=".to_string();
        name.append(station_id.as_str());
        name.append("/year=");
        name.append(&signed_decimal(year as i64));
        name.append(".parquet");
        join_path(&self.source_root(source), &name)
    }

    /// The path of a kind of derived data of a station in a year.
    pub open spec fn derived_file(self, kind: Seq<char>, station: Seq<char>, year: int) -> Seq<char> {
        path_join(
            self.derived_dir@,
            "station="@ + station + "/"@ + kind + "/year="@ + int_text(year) + ".parquet"@,
        )
    }

    fn derived_path(&self, kind: &str, station_id: &StationId, year: i32) -> (r: String)
        ensures
            r@ == self.derived_file(kind@, station_id@, year as int),
    {
        let mut name: String = "station=".to_string();
        name.append(station_id.as_str());
        name.append("/");
        name.append(kind);
        name.append("/year=");
        name.append(&signed_decimal(year as i64));
        name.append(".parquet");
        join_path(&self.derived_dir, &name)
    }

    /// Where the daily summaries of a station in a year are kept.
    pub fn daily_summary_path(&self, station_id: &StationId, year: i32) -> (r: String)
        ensures
            r@ == self.derived_file("daily"@, station_id@, year as int),
    {
        self.derived_path("daily", station_id, year)
    }

    /// Where the profiles of a station in a year are kept.
    pub fn day_profile_path(&self, station_id: &StationId, year: i32) -> (r: String)
        ensures
            r@ == self.derived_file("profiles"@, station_id@, year as int),
    {
        self.derived_path("profiles", station_id, year)
    }

    /// Where the note of a download is kept.
    pub fn fetch_manifest_path(
        &self,
        source: DataSource,
        station_id: &StationId,
        start: Date,
        end: Option<Date>,
    ) -> (r: String)
        ensures
            r@ == path_join(
                self.manifests_dir@,
                "fetch-"@ + slug_of(source) + "-"@ + station_id@ + "-"@ + (match end {
                    Some(end) => window_text(start, end),
                    None => compact_date(start.y(), start.m(), start.d()),
                }) + ".json"@,
            ),
    {
        let suffix = match end {
            Some(end) => window(start, end),
            None => start.to_compact(),
        };
        let mut name: String = "fetch-".to_string();
        name.append(source.slug());
        name.append("-");
        name.append(station_id.as_str());
        name.append("-");
        name.append(&suffix);
        name.append(".json");
        join_path(&self.manifests_dir, &name)
    }

    /// The path of the note of the observations of a station in a year.
    pub open spec fn normalized_manifest(self, source: DataSource, station: Seq<char>, year: int) -> Seq<
        char,
    > {
        path_join(
            self.manifests_dir@,
            "normalized-"@ + slug_of(source) + "-"@ + station + "-"@ + int_text(year) + ".json"@,
        )
    }

    /// Where the note of the observations of a station in a year is kept.
    pub fn normalized_manifest_path(
        &self,
        source: DataSource,
        station_id: &StationId,
        year: i32,
    ) -> (r: String)
        ensures
            r@ == self.normalized_manifest(source, station_id@, year as int),
    {
        let mut name: String = "normalized-".to_string();
        name.append(source.slug());
        name.append("-");
        name.append(station_id.as_str());
        name.append("-");
        name.append(&signed_decimal(year as i64));
        name.append(".json");
        join_path(&self.manifests_dir, &name)
    }

    /// The path of the note of a kind of derived data of a station in a year.
    pub open spec fn derived_manifest(self, kind: Seq<char>, station: Seq<char>, year: int) -> Seq<
        char,
    > {
        path_join(
            self.manifests_dir@,
            "derived-"@ + kind + "-"@ + station + "-"@ + int_text(year) + ".json"@,
        )
    }

    /// Where the note of a kind of derived data of a station in a year is kept.
    pub fn derived_manifest_path(&self, kind: &str, station_id: &StationId, year: i32) -> (r: String)
        ensures
            r@ == self.derived_manifest(kind@, station_id@, year as int),
    {
        let mut name: String = "derived-".to_string();
        name.append(kind);
        name.append("-");
        name.append(station_id.as_str());
        name.append("-");
        name.append(&signed_decimal(year as i64));
        name.append(".json");
        join_path(&self.manifests_dir, &name)
    }
}

/// A window of days as `20260501__20260514`.
pub open spec fn window_text(start: Date, end: Date) -> Seq<char> {
    compact_date(start.y(), start.m(), start.d()) + "__"@ + compact_date(end.y(), end.m(), end.d())
}

fn window(start: Date, end: Date) -> (r: String)
    ensures
        r@ == window_text(start, end),
{
    let mut text = start.to_compact();
    text.append("__");
    text.append(&end.to_compact());
    text
}

/// The lines that show the layout.
pub fn layout_lines(layout: &CacheLayout) -> (r: Vec<String>)
    ensures
        r@.len() == 6,
        r@[0]@ == "root: "@ + layout.root@,
        r@[1]@ == "sources: "@ + layout.sources_dir@,
        r@[2]@ == "stations: "@ + layout.stations_dir@,
        r@[3]@ == "derived: "@ + layout.derived_dir@,
        r@[4]@ == "manifests: "@ + layout.manifests_dir@,
        r@[5]@ == "logs: "@ + layout.logs_dir@,
{
    let mut lines: Vec<String> = Vec::new();
    lines.push(labelled("root: ", &layout.root));
    lines.push(labelled("sources: ", &layout.sources_dir));
    lines.push(labelled("stations: ", &layout.stations_dir));
    lines.push(labelled("derived: ", &layout.derived_dir));
    lines.push(labelled("manifests: ", &layout.manifests_dir));
    lines.push(labelled("logs: ", &layout.logs_dir));
    lines
}

/// A label and a text.
pub fn labelled(label: &str, text: &str) -> (r: String)
    ensures
        r@ == label@ + text@,
{
    let mut line: String = label.to_string();
    line.append(text);
    line
}

/// The name under which a file is written before it takes its place.
pub fn temp_file_name(file_name: Option<&str>, process: u32, nanos: u128) -> (r: String)
    ensures
        r@ == "."@ + (match file_name {
            Some(name) => name@,
            None => "artifact"@,
        }) + ".tmp-"@ + digits(process as nat) + "-"@ + digits(nanos as nat),
{
    let mut text: String = ".".to_string();
    match file_name {
        Some(name) => {
            text.append(name);
        },
        None => {
            text.append("artifact");
        },
    }
    text.append(".tmp-");
    text.append(&decimal(process as u128));
    text.append("-");
    text.append(&decimal(nanos));
    text
}

/// The extension of the lock of a file with this extension.
pub fn lock_extension(extension: Option<&str>) -> (r: String)
    ensures
        r@ == (match extension {
            Some(name) => name@,
            None => "artifact"@,
        }) + ".lock"@,
{
    let mut text: String = match extension {
        Some(name) => name.to_string(),
        None => "artifact".to_string(),
    };
    text.append(".lock");
    text
}

/// The extension under which an unreadable file with this extension is set aside.
pub fn quarantine_extension(extension: Option<&str>, nanos: u128) -> (r: String)
    ensures
        r@ == (match extension {
            Some(name) => name@,
            None => "artifact"@,
        }) + ".corrupt-"@ + digits(nanos as nat),
{
    let mut text: String = match extension {
        Some(name) => name.to_string(),
        None => "artifact".to_string(),
    };
    text.append(".corrupt-");
    text.append(&decimal(nanos));
    text
}

/// What came of an attempt to take a lock.
#[derive(Debug, Clone, Copy, PartialEq, Eq, Structural)]
pub enum LockEvent {
    Taken,
    Busy,
    Failed,
}

/// What to do after an attempt to take a lock.
#[derive(Debug, Clone, Copy, PartialEq, Eq, Structural)]
pub enum LockStep {
    /// The lock is held.
    Hold,
    /// Wait, then try again.
    Retry,
    /// Give up: the lock cannot be taken.
    Fail,
    /// Give up: the lock stayed busy.
    TimeOut,
}

/// The number of attempts to take a lock.
pub const LOCK_ATTEMPTS: u32 = 200;

/// The milliseconds to wait between two attempts.
pub const LOCK_WAIT_MS: u64 = 100;

/// What to do after the attempt with this number, counted from 1. A busy lock is tried again until
/// the last attempt was made.
pub fn lock_step(attempt: u32, event: LockEvent) -> (r: LockStep)
    ensures
        r == (match event {
            LockEvent::Taken => LockStep::Hold,
            LockEvent::Failed => LockStep::Fail,
            LockEvent::Busy => if attempt < LOCK_ATTEMPTS {
                LockStep::Retry
            } else {
                LockStep::TimeOut
            },
        }),
{
    match event {
        LockEvent::Taken => LockStep::Hold,
        LockEvent::Failed => LockStep::Fail,
        LockEvent::Busy => {
            if attempt < LOCK_ATTEMPTS {
                LockStep::Retry
            } else {
                LockStep::TimeOut
            }
        },
    }
}

/// The name of the file of a year says the year.
proof fn lemma_year_name(year: int)
    requires
        i32::MIN <= year <= i32::MAX,
    ensures
        slashless("year="@ + int_text(year) + ".parquet"@),
        forall|pieces: Seq<Seq<char>>|
            year_in(#[trigger] pieces.push("year="@ + int_text(year) + ".parquet"@)) == Some(year),
        strip_prefix("year="@ + int_text(year) + ".parquet"@, "station="@) is None,
        source_with_slug("year="@ + int_text(year) + ".parquet"@) is None,
{
    let numeral = int_text(year);
    let name = "year="@ + numeral + ".parquet"@;
    reveal_strlit("year=");
    reveal_strlit(".parquet");
    reveal_strlit("station=");
    reveal_strlit(".");
    reveal_strlit("..");
    lemma_int_text_plain(year);
    law_int_text_reads_back(year);
    let ending = seq!['p', 'a', 'r', 'q', 'u', 'e', 't'];
    assert(".parquet"@ =~= seq!['.'] + ending);
    assert(name =~= ("year="@ + numeral) + seq!['.'] + ending);
    lemma_last_dot_at("year="@ + numeral, ending);
    assert(stem(name) =~= "year="@ + numeral);
    assert(("year="@ + numeral).take(5) =~= "year="@);
    assert(("year="@ + numeral).skip(5) =~= numeral);
    assert(name[0] == 'y');
    assert(name.len() > 2);
    assert(name.take(8)[0] == 'y');
    assert("station="@[0] == 's');
    lemma_slug_starts();
    assert forall|pieces: Seq<Seq<char>>| year_in(#[trigger] pieces.push(name)) == Some(year) by {
        assert(pieces.push(name).last() == name);
        assert(name != "."@ && name != ".."@);
        assert(file_in(pieces.push(name)) == Some(name));
    }
}

proof fn lemma_slug_starts()
    ensures
        slug_of(DataSource::IemAsosOneMinute)[0] == 'i',
        slug_of(DataSource::NceiAsosFiveMinute)[0] == 'n',
        slug_of(DataSource::NwsApi)[0] == 'n',
        slug_of(DataSource::Ghcnh)[0] == 'g',
{
    reveal_strlit("iem-asos-1min");
    reveal_strlit("ncei-asos-5min");
    reveal_strlit("nws-api");
    reveal_strlit("ghcnh");
}

/// The short name of a source holds no slash.
proof fn lemma_slug_plain(source: DataSource)
    ensures
        slashless(slug_of(source)),
        slug_of(source).len() > 0,
{
    reveal_strlit("iem-asos-1min");
    reveal_strlit("ncei-asos-5min");
    reveal_strlit("nws-api");
    reveal_strlit("ghcnh");
}

/// The name of the folder of a station says the station.
proof fn lemma_station_folder(station: Seq<char>)
    ensures
        strip_prefix("station="@ + station, "station="@) == Some(station),
        source_with_slug("station="@ + station) is None,
        slashless(station) ==> slashless("station="@ + station),
{
    let folder = "station="@ + station;
    reveal_strlit("station=");
    lemma_slug_starts();
    assert(folder.take(8) =~= "station="@);
    assert(folder.skip(8) =~= station);
    assert(folder[0] == 's');
}

/// The folder of a station names no source, slashes in the code of the station or not.
proof fn lemma_folder_names_no_source(base: Seq<char>, station: Seq<char>)
    requires
        forall|i: int| 0 <= i < station.len() ==> !('a' <= #[trigger] station[i] <= 'z'),
    ensures
        source_in(pieces(base + seq!['/'] + ("station="@ + station))) == source_in(pieces(base)),
    decreases station.len(),
{
    let folder = "station="@ + station;
    reveal_strlit("station=");
    lemma_station_folder(station);
    lemma_slug_starts();
    if slashless(station) {
        lemma_pieces_push(base, folder);
        assert(pieces(base).push(folder).drop_last() =~= pieces(base));
    } else {
        let i = choose|i: int| 0 <= i < station.len() && station[i] == '/';
        assert(folder[8 + i] == '/');
        lemma_last_piece_start(folder);
        let start = last_piece_start(folder) as int;
        assert(start > 8 + i);
        let shorter = station.take(start - 9);
        let front = "station="@ + shorter;
        let last = folder.skip(start);
        let middle = base + seq!['/'] + front;
        assert(base + seq!['/'] + folder =~= middle + seq!['/'] + last);
        assert forall|k: int| 0 <= k < last.len() implies #[trigger] last[k] != '/' by {
            assert(folder[start + k] != '/');
        }
        lemma_pieces_push(middle, last);
        assert(pieces(middle).push(last).drop_last() =~= pieces(middle));
        if last.len() > 0 {
            assert(last[0] == station[start - 8]);
        }
        lemma_slug_plain(DataSource::IemAsosOneMinute);
        lemma_slug_plain(DataSource::NceiAsosFiveMinute);
        lemma_slug_plain(DataSource::NwsApi);
        lemma_slug_plain(DataSource::Ghcnh);
        assert(source_with_slug(last) is None);
        lemma_folder_names_no_source(base, shorter);
    }
}

/// A kept code holds no small letters.
proof fn lemma_code_in_capitals(station: Seq<char>)
    requires
        station_code(station) == station,
    ensures
        forall|i: int| 0 <= i < station.len() ==> !('a' <= #[trigger] station[i] <= 'z'),
{
    let code = upper(trim(station));
    assert forall|i: int| 0 <= i < code.len() implies !('a' <= #[trigger] code[i] <= 'z') by {
        assert(code[i] == upper_char(trim(station)[i]));
    }
    assert forall|i: int| 0 <= i < station.len() implies !('a' <= #[trigger] station[i] <= 'z') by {
        if station.len() == code.len() {
            assert(station[i] == code[i]);
        } else if i > 0 {
            assert(station[i] == code[i - 1]);
        }
    }
}

/// The path of the observations of a station in a year is that of the folder of the station, and
/// the name of the file of the year behind it.
proof fn lemma_normalized_file(
    layout: CacheLayout,
    source: DataSource,
    station: Seq<char>,
    year: int,
)
    ensures
        layout.normalized_file(source, station, year) == layout.source_dir(source) + seq!['/']
            + "normalized"@ + seq!['/'] + ("station="@ + station) + seq!['/'] + ("year="@ + int_text(
            year,
        ) + ".parquet"@),
        slashless("normalized"@),
        "normalized"@.len() == 10,
{
    let dir = layout.source_dir(source);
    let slug = slug_of(source);
    let folder = "station="@ + station;
    let file = "year="@ + int_text(year) + ".parquet"@;
    let rest = "normalized/station="@ + station + "/year="@ + int_text(year) + ".parquet"@;
    lemma_slug_plain(source);
    assert(dir.len() > 0 && dir.last() == slug.last());
    assert("normalized/station="@ =~= "normalized"@ + seq!['/'] + "station="@ && slashless(
        "normalized"@,
    ) && "normalized/station="@[0] == 'n' && "normalized"@.len() == 10) by {
        reveal_strlit("normalized/station=");
        reveal_strlit("normalized");
        reveal_strlit("station=");
    }
    assert("/year="@ =~= seq!['/'] + "year="@) by {
        reveal_strlit("/year=");
        reveal_strlit("year=");
    }
    assert(rest =~= "normalized"@ + seq!['/'] + folder + seq!['/'] + file);
    assert(rest[0] == 'n');
    assert(layout.normalized_file(source, station, year) =~= dir + seq!['/'] + "normalized"@ + seq![
        '/',
    ] + folder + seq!['/'] + file);
}

/// The path of the observations of a station in a year says the source and the year, and it says
/// the station where no slash stands in its code.
pub proof fn law_normalized_path_reads_back(
    layout: CacheLayout,
    source: DataSource,
    station: Seq<char>,
    year: int,
)
    requires
        station_code(station) == station,
        i32::MIN <= year <= i32::MAX,
    ensures
        year_in(pieces(layout.normalized_file(source, station, year))) == Some(year),
        source_in(pieces(layout.normalized_file(source, station, year))) == Some(source),
        slashless(station) ==> station_in(pieces(layout.normalized_file(source, station, year)))
            == Some(station),
{
    let dir = layout.source_dir(source);
    let folder = "station="@ + station;
    let file = "year="@ + int_text(year) + ".parquet"@;
    let first = dir + seq!['/'] + "normalized"@;
    let second = first + seq!['/'] + folder;
    lemma_normalized_file(layout, source, station, year);
    lemma_station_folder(station);
    lemma_year_name(year);
    lemma_slug_plain(source);
    lemma_pieces_push(dir, "normalized"@);
    lemma_pieces_push(second, file);
    lemma_join_last_piece(layout.sources_dir@, slug_of(source));
    law_slug_reads_back(source);
    lemma_slug_lens();
    let one = pieces(dir);
    let two = one.push("normalized"@);
    let three = pieces(second);
    assert(three.push(file).drop_last() =~= three);
    assert(two.drop_last() =~= one);
    assert(three.push(file).last() == file && two.last() == "normalized"@);
    assert(source_in(one) == Some(source));
    assert(source_in(two) == Some(source));
    lemma_code_in_capitals(station);
    lemma_folder_names_no_source(first, station);
    assert(source_in(three) == Some(source));
    if slashless(station) {
        lemma_pieces_push(first, folder);
        assert(three.last() == folder);
        assert(station_in(three) == Some(station));
    }
}

/// The path of a raw snapshot ends in its name and extension, behind a slash.
pub proof fn lemma_current_file(
    layout: CacheLayout,
    source: DataSource,
    station: Seq<char>,
    date: Date,
    name: Seq<char>,
    extension: Seq<char>,
)
    requires
        slashless(name),
        slashless(extension),
    ensures
        pieces(layout.current_file(source, station, date, name, extension)).last() == name + "."@
            + extension,
{
    let dir = layout.source_dir(source);
    let middle = "raw/station="@ + station + "/date="@ + date.text();
    let file = name + "."@ + extension;
    lemma_slug_plain(source);
    assert(dir.len() > 0 && dir.last() == slug_of(source).last());
    assert("/"@ =~= seq!['/'] && slashless("."@) && "raw/station="@.len() > 0
        && "raw/station="@[0] == 'r') by {
        reveal_strlit("/");
        reveal_strlit(".");
        reveal_strlit("raw/station=");
    }
    let rest = middle + "/"@ + name + "."@ + extension;
    assert(rest[0] == 'r');
    assert(layout.current_file(source, station, date, name, extension) =~= (dir + seq!['/'] + middle)
        + seq!['/'] + file);
    lemma_pieces_push(dir + seq!['/'] + middle, file);
}

/// The path of the derived data of a station in a year says the year, and it says the station where
/// no slash stands in its code.
pub proof fn law_derived_path_reads_back(
    layout: CacheLayout,
    kind: Seq<char>,
    station: Seq<char>,
    year: int,
)
    requires
        kind == "daily"@ || kind == "profiles"@,
        station_code(station) == station,
        i32::MIN <= year <= i32::MAX,
    ensures
        year_in(pieces(layout.derived_file(kind, station, year))) == Some(year),
        slashless(station) ==> station_in(pieces(layout.derived_file(kind, station, year)))
            == Some(station),
{
    let folder = "station="@ + station;
    let file = "year="@ + int_text(year) + ".parquet"@;
    let dir = path_join(layout.derived_dir@, folder);
    let first = dir + seq!['/'] + kind;
    let one = pieces(dir);
    let two = one.push(kind);
    lemma_station_folder(station);
    lemma_year_name(year);
    assert(slashless(kind) && kind[0] != 's' && "station="@[0] == 's' && "station="@.len() == 8) by {
        reveal_strlit("station=");
        reveal_strlit("daily");
        reveal_strlit("profiles");
    }
    assert("/"@ =~= seq!['/']) by {
        reveal_strlit("/");
    }
    assert("/year="@ =~= seq!['/'] + "year="@) by {
        reveal_strlit("/year=");
        reveal_strlit("year=");
    }
    assert(folder[0] == 's');
    assert(dir.len() > 0);
    assert(layout.derived_file(kind, station, year) =~= first + seq!['/'] + file);
    lemma_pieces_push(dir, kind);
    lemma_pieces_push(first, file);
    assert(two.push(file).drop_last() =~= two);
    assert(two.drop_last() =~= one);
    assert(two.push(file).last() == file && two.last() == kind);
    assert(strip_prefix(kind, "station="@) is None) by {
        if starts_with(kind, "station="@) {
            assert(kind.take(8)[0] == kind[0]);
        }
    }
    if slashless(station) {
        lemma_join_last_piece(layout.derived_dir@, folder);
        assert(station_in(one) == Some(station));
        assert(station_in(two) == Some(station));
    }
}

} // verus!
