//! Sources and places: the names of the sources, and where the cache keeps what.
use vstd::prelude::*;
use crate::cache::{
    bootstrap_manifest, layout_lines, lock_step, temp_file_name, BootstrapManifest, CacheLayout,
    LockEvent, LockStep,
};
use crate::calendar::{compact_date, Date, UtcTime};
use crate::domain::{Failure, StationId};
use crate::numeral::{digits, int_text};
use crate::source::{all_sources, slug_of, DataSource};

verus! {

/// The short names of the sources.
pub proof fn law_sources_have_these_names(source: DataSource, slug: &'static str)
    requires
        call_ensures(DataSource::slug, (source,), slug),
    ensures
        source is IemAsosOneMinute ==> slug@ == "iem-asos-1min"@,
        source is NceiAsosFiveMinute ==> slug@ == "ncei-asos-5min"@,
        source is NwsApi ==> slug@ == "nws-api"@,
        source is Ghcnh ==> slug@ == "ghcnh"@,
        slug@ == slug_of(source),
{
}

/// The name of a source says the source, and no other name says one.
pub proof fn law_names_say_their_sources(slug: &str, source: Option<DataSource>)
    requires
        call_ensures(DataSource::from_slug, (slug,), source),
    ensures
        source == Some(DataSource::IemAsosOneMinute) <==> slug@ == "iem-asos-1min"@,
        source == Some(DataSource::NceiAsosFiveMinute) <==> slug@ == "ncei-asos-5min"@,
        source == Some(DataSource::NwsApi) <==> slug@ == "nws-api"@,
        source == Some(DataSource::Ghcnh) <==> slug@ == "ghcnh"@,
{
    crate::source::lemma_slug_lens();
}

/// What is said of each source: how often it observes, and where.
pub proof fn law_sources_are_described(source: DataSource, cadence: &'static str,
    scope: &'static str)
    requires
        call_ensures(DataSource::cadence, (source,), cadence),
        call_ensures(DataSource::scope, (source,), scope),
    ensures
        source is IemAsosOneMinute ==> cadence@ == "1 minute"@ && scope@ == "U.S. ASOS/METAR"@,
        source is NceiAsosFiveMinute ==> cadence@ == "5 minutes"@ && scope@ == "U.S. ASOS"@,
        source is NwsApi ==> cadence@ == "live/recent"@ && scope@ == "U.S. NWS stations"@,
        source is Ghcnh ==> cadence@ == "hourly"@ && scope@ == "global"@,
{
}

/// The note of the making of the cache names each source once, with what is said of it.
pub proof fn law_the_cache_is_made_with_every_source(
    created: UtcTime,
    note: BootstrapManifest,
    sources: Vec<DataSource>,
    source: DataSource,
)
    requires
        call_ensures(bootstrap_manifest, (created,), note),
        call_ensures(all_sources, (), sources),
    ensures
        note.created_at_utc == created,
        note.app_name@ == "wxmatch"@,
        note.sources@.len() == sources@.len(),
        sources@.contains(source),
        sources@.len() == 4,
        forall|k: int|
            0 <= k < sources@.len() ==> (#[trigger] note.sources@[k]).slug@ == slug_of(sources@[k]),
{
    assert(sources@[0] == DataSource::IemAsosOneMinute);
    assert(sources@[1] == DataSource::NceiAsosFiveMinute);
    assert(sources@[2] == DataSource::NwsApi);
    assert(sources@[3] == DataSource::Ghcnh);
}

/// The directories of the cache are shown with their names, in the order in which they are made.
pub proof fn law_the_directories_are_shown(layout: &CacheLayout, lines: Vec<String>)
    requires
        call_ensures(layout_lines, (layout,), lines),
    ensures
        lines@.len() == 6,
        lines@[0]@ == "root: "@ + layout.root@,
        lines@[1]@ == "sources: "@ + layout.sources_dir@,
        lines@[2]@ == "stations: "@ + layout.stations_dir@,
        lines@[3]@ == "derived: "@ + layout.derived_dir@,
        lines@[4]@ == "manifests: "@ + layout.manifests_dir@,
        lines@[5]@ == "logs: "@ + layout.logs_dir@,
{
}

/// Something can be joined to this directory with a slash.
pub open spec fn is_plain_directory(path: Seq<char>) -> bool {
    path.len() > 0 && path.last() != '/'
}

/// The cache is below the given root, or else below the user's cache directory, under the name of
/// the program; each of its directories has its own name.
pub proof fn law_the_cache_is_below_its_root(
    given: Option<&str>,
    base: Option<&str>,
    out: Result<CacheLayout, Failure>,
)
    requires
        call_ensures(CacheLayout::resolve, (given, base), out),
        given is Some ==> is_plain_directory(given->0@),
        base is Some ==> is_plain_directory(base->0@),
    ensures
        out is Err <==> given is None && base is None,
        given is Some ==> out->Ok_0.root@ == given->0@,
        given is None && base is Some ==> out->Ok_0.root@ == base->0@ + "/wxmatch"@,
        out is Ok ==> {
            let layout = out->Ok_0;
            &&& layout.sources_dir@ == layout.root@ + "/sources"@
            &&& layout.stations_dir@ == layout.root@ + "/stations"@
            &&& layout.derived_dir@ == layout.root@ + "/derived"@
            &&& layout.manifests_dir@ == layout.root@ + "/manifests"@
            &&& layout.logs_dir@ == layout.root@ + "/logs"@
        },
{
    reveal_strlit("sources");
    reveal_strlit("stations");
    reveal_strlit("derived");
    reveal_strlit("manifests");
    reveal_strlit("logs");
    reveal_strlit("wxmatch");
    reveal_strlit("/sources");
    reveal_strlit("/stations");
    reveal_strlit("/derived");
    reveal_strlit("/manifests");
    reveal_strlit("/logs");
    reveal_strlit("/wxmatch");
    assert("/sources"@ =~= seq!['/'] + "sources"@);
    assert("/stations"@ =~= seq!['/'] + "stations"@);
    assert("/derived"@ =~= seq!['/'] + "derived"@);
    assert("/manifests"@ =~= seq!['/'] + "manifests"@);
    assert("/logs"@ =~= seq!['/'] + "logs"@);
    assert("/wxmatch"@ =~= seq!['/'] + "wxmatch"@);
    if out is Ok {
        let layout = out->Ok_0;
        let root = layout.root@;
        assert(crate::cache::APP_NAME@ == "wxmatch"@);
        assert(is_plain_directory(root)) by {
            if given is None {
                assert(root =~= base->0@ + "/wxmatch"@);
                assert("/wxmatch"@.last() == 'h');
            }
        }
        assert(layout.sources_dir@ =~= root + "/sources"@);
        assert(layout.stations_dir@ =~= root + "/stations"@);
        assert(layout.derived_dir@ =~= root + "/derived"@);
        assert(layout.manifests_dir@ =~= root + "/manifests"@);
        assert(layout.logs_dir@ =~= root + "/logs"@);
    }
}

/// The observations of a station in a year are kept below the directory of their source.
pub proof fn law_observations_are_kept_below_their_source(
    layout: &CacheLayout,
    source: DataSource,
    station: &StationId,
    year: i32,
    root: String,
    path: String,
    directory: String,
    raw_directory: String,
)
    requires
        is_plain_directory(layout.sources_dir@),
        call_ensures(CacheLayout::source_root, (layout, source), root),
        call_ensures(CacheLayout::normalized_path, (layout, source, station, year), path),
        call_ensures(CacheLayout::normalized_station_root, (layout, source, station), directory),
        call_ensures(CacheLayout::raw_station_root, (layout, source, station), raw_directory),
    ensures
        root@ == layout.sources_dir@ + "/"@ + slug_of(source),
        raw_directory@ == root@ + "/raw/station="@ + station@,
        directory@ == root@ + "/normalized/station="@ + station@,
        path@ == directory@ + "/year="@ + int_text(year as int) + ".parquet"@,
{
    lemma_slug_is_plain(source);
    let slug = slug_of(source);
    reveal_strlit("/");
    assert(layout.source_dir(source) =~= layout.sources_dir@ + "/"@ + slug);
    assert(root@.last() == slug.last());
    reveal_strlit("normalized/station=");
    reveal_strlit("/normalized/station=");
    reveal_strlit("raw/station=");
    reveal_strlit("/raw/station=");
    assert("/normalized/station="@ =~= seq!['/'] + "normalized/station="@);
    assert("/raw/station="@ =~= seq!['/'] + "raw/station="@);
    assert(("raw/station="@ + station@)[0] == 'r');
    assert(("normalized/station="@ + station@)[0] == 'n');
    assert(raw_directory@ =~= root@ + "/raw/station="@ + station@);
    assert(directory@ =~= root@ + "/normalized/station="@ + station@);
    let rest = "normalized/station="@ + station@ + "/year="@ + int_text(year as int) + ".parquet"@;
    assert(rest[0] == 'n');
    assert(path@ =~= root@ + seq!['/'] + rest);
    assert(path@ =~= directory@ + "/year="@ + int_text(year as int) + ".parquet"@);
}

proof fn lemma_slug_is_plain(source: DataSource)
    ensures
        slug_of(source).len() > 0,
        slug_of(source)[0] != '/',
        slug_of(source).last() != '/',
{
    reveal_strlit("iem-asos-1min");
    reveal_strlit("ncei-asos-5min");
    reveal_strlit("nws-api");
    reveal_strlit("ghcnh");
}

/// The raw observations of a window of days are kept under the first and the last day, those of a
/// date under the date and their name, both below the directory of the raw files of the station.
pub proof fn law_raw_files_are_kept_by_their_days(
    layout: &CacheLayout,
    source: DataSource,
    station: &StationId,
    start: Date,
    end: Date,
    name: &str,
    extension: &str,
    directory: String,
    window: String,
    snapshot: String,
)
    requires
        is_plain_directory(layout.sources_dir@),
        call_ensures(CacheLayout::raw_station_root, (layout, source, station), directory),
        call_ensures(
            CacheLayout::historical_raw_path,
            (layout, source, station, start, end, extension),
            window,
        ),
        call_ensures(
            CacheLayout::current_raw_path,
            (layout, source, station, start, name, extension),
            snapshot,
        ),
    ensures
        window@ == directory@ + "/window="@ + compact_date(start.y(), start.m(), start.d()) + "__"@
            + compact_date(end.y(), end.m(), end.d()) + "."@ + extension@,
        snapshot@ == directory@ + "/date="@ + start.text() + "/"@ + name@ + "."@ + extension@,
{
    lemma_slug_is_plain(source);
    let slug = slug_of(source);
    let dir = layout.source_dir(source);
    assert(dir.len() > 0 && dir.last() == slug.last());
    reveal_strlit("raw/station=");
    assert(("raw/station="@ + station@)[0] == 'r');
    let one = "raw/station="@ + station@ + "/window="@ + crate::cache::window_text(start,
        end) + "."@
        + extension@;
    let other = "raw/station="@ + station@ + "/date="@ + start.text() + "/"@ + name@ + "."@
        + extension@;
    assert(one[0] == 'r' && other[0] == 'r');
    assert(directory@ =~= dir + seq!['/'] + ("raw/station="@ + station@));
    assert(window@ =~= dir + seq!['/'] + one);
    assert(snapshot@ =~= dir + seq!['/'] + other);
    assert(window@ =~= directory@ + "/window="@ + compact_date(start.y(), start.m(), start.d())
        + "__"@ + compact_date(end.y(), end.m(), end.d()) + "."@ + extension@);
    assert(snapshot@ =~= directory@ + "/date="@ + start.text() + "/"@ + name@ + "."@ + extension@);
}

/// The daily summaries and the profiles of a station in a year are kept in directories of their own
/// below that of the station.
pub proof fn law_derived_data_are_kept_by_their_kind(
    layout: &CacheLayout,
    station: &StationId,
    year: i32,
    daily: String,
    profiles: String,
)
    requires
        is_plain_directory(layout.derived_dir@),
        call_ensures(CacheLayout::daily_summary_path, (layout, station, year), daily),
        call_ensures(CacheLayout::day_profile_path, (layout, station, year), profiles),
    ensures
        daily@ == layout.derived_dir@ + "/station="@ + station@ + "/daily/year="@ + int_text(
            year as int,
        ) + ".parquet"@,
        profiles@ == layout.derived_dir@ + "/station="@ + station@ + "/profiles/year="@ + int_text(
            year as int,
        ) + ".parquet"@,
{
    assert("/daily/year="@ =~= "/"@ + "daily"@ + "/year="@) by {
        reveal_strlit("/");
        reveal_strlit("daily");
        reveal_strlit("/year=");
        reveal_strlit("/daily/year=");
    }
    assert("/profiles/year="@ =~= "/"@ + "profiles"@ + "/year="@) by {
        reveal_strlit("/");
        reveal_strlit("profiles");
        reveal_strlit("/year=");
        reveal_strlit("/profiles/year=");
    }
    lemma_derived_file(*layout, "daily"@, "/daily/year="@, station@, year as int);
    lemma_derived_file(*layout, "profiles"@, "/profiles/year="@, station@, year as int);
}

proof fn lemma_derived_file(
    layout: CacheLayout,
    kind: Seq<char>,
    middle: Seq<char>,
    station: Seq<char>,
    year: int,
)
    requires
        is_plain_directory(layout.derived_dir@),
        middle == "/"@ + kind + "/year="@,
    ensures
        layout.derived_file(kind, station, year) == layout.derived_dir@ + "/station="@ + station
            + middle + int_text(year) + ".parquet"@,
{
    assert("/station="@ =~= seq!['/'] + "station="@ && "station="@.len() > 0
        && "station="@[0] == 's') by {
        reveal_strlit("station=");
        reveal_strlit("/station=");
    }
    let numeral = int_text(year);
    let rest = "station="@ + station + "/"@ + kind + "/year="@ + numeral + ".parquet"@;
    assert(rest[0] == 's');
    assert(rest =~= "station="@ + (station + middle + numeral + ".parquet"@));
    assert(layout.derived_file(kind, station, year) == layout.derived_dir@ + seq!['/'] + rest);
    assert(layout.derived_dir@ + seq!['/'] + rest =~= layout.derived_dir@ + "/station="@ + station
        + middle + numeral + ".parquet"@);
}

/// The manifests stand side by side, named by their kind, source, station and year; what is known
/// of a station is kept under its code.
pub proof fn law_manifests_are_named_by_what_they_tell_of(
    layout: &CacheLayout,
    source: DataSource,
    station: &StationId,
    year: i32,
    kind: &str,
    start: Date,
    normalized: String,
    derived: String,
    fetched: String,
    bootstrap: String,
    known: String,
)
    requires
        is_plain_directory(layout.manifests_dir@),
        is_plain_directory(layout.stations_dir@),
        station@.len() > 0,
        station@[0] != '/',
        call_ensures(CacheLayout::normalized_manifest_path, (layout, source, station, year),
            normalized),
        call_ensures(CacheLayout::derived_manifest_path, (layout, kind, station, year), derived),
        call_ensures(
            CacheLayout::fetch_manifest_path,
            (layout, source, station, start, None::<Date>),
            fetched,
        ),
        call_ensures(CacheLayout::bootstrap_manifest_path, (layout,), bootstrap),
        call_ensures(CacheLayout::station_metadata_path, (layout, station), known),
    ensures
        normalized@ == layout.manifests_dir@ + "/normalized-"@ + slug_of(source) + "-"@ + station@
            + "-"@ + int_text(year as int) + ".json"@,
        derived@
            == layout.manifests_dir@ + "/derived-"@ + kind@ + "-"@ + station@ + "-"@ + int_text(
            year as int,
        ) + ".json"@,
        fetched@ == layout.manifests_dir@ + "/fetch-"@ + slug_of(source) + "-"@ + station@ + "-"@
            + compact_date(start.y(), start.m(), start.d()) + ".json"@,
        bootstrap@ == layout.manifests_dir@ + "/bootstrap.json"@,
        known@ == layout.stations_dir@ + "/"@ + station@ + ".json"@,
{
    reveal_strlit("normalized-");
    reveal_strlit("/normalized-");
    reveal_strlit("derived-");
    reveal_strlit("/derived-");
    reveal_strlit("fetch-");
    reveal_strlit("/fetch-");
    reveal_strlit("bootstrap.json");
    reveal_strlit("/bootstrap.json");
    reveal_strlit("/");
    reveal_strlit(".json");
    let dir = layout.manifests_dir@;
    let numeral = int_text(year as int);
    let one = "normalized-"@ + slug_of(source) + "-"@ + station@ + "-"@ + numeral + ".json"@;
    let two = "derived-"@ + kind@ + "-"@ + station@ + "-"@ + numeral + ".json"@;
    let three = "fetch-"@ + slug_of(source) + "-"@ + station@ + "-"@ + compact_date(
        start.y(),
        start.m(),
        start.d(),
    ) + ".json"@;
    assert(one[0] == 'n' && two[0] == 'd' && three[0] == 'f');
    assert("bootstrap.json"@[0] == 'b');
    assert("/normalized-"@ =~= seq!['/'] + "normalized-"@);
    assert("/derived-"@ =~= seq!['/'] + "derived-"@);
    assert("/fetch-"@ =~= seq!['/'] + "fetch-"@);
    assert("/bootstrap.json"@ =~= seq!['/'] + "bootstrap.json"@);
    assert(normalized@ =~= dir + seq!['/'] + one);
    assert(derived@ =~= dir + seq!['/'] + two);
    assert(fetched@ =~= dir + seq!['/'] + three);
    assert(normalized@ =~= dir + "/normalized-"@ + slug_of(source) + "-"@ + station@ + "-"@ + numeral
        + ".json"@);
    assert(derived@ =~= dir + "/derived-"@ + kind@ + "-"@ + station@ + "-"@ + numeral + ".json"@);
    assert(fetched@ =~= dir + "/fetch-"@ + slug_of(source) + "-"@ + station@ + "-"@ + compact_date(
        start.y(),
        start.m(),
        start.d(),
    ) + ".json"@);
    assert(bootstrap@ =~= dir + "/bootstrap.json"@);
    assert((station@ + ".json"@)[0] == station@[0]);
    assert(known@ =~= layout.stations_dir@ + "/"@ + station@ + ".json"@);
}

/// The note of a download of a window is named by the first and the last day.
pub proof fn law_downloads_of_windows_are_noted_by_their_days(
    layout: &CacheLayout,
    source: DataSource,
    station: &StationId,
    start: Date,
    end: Date,
    path: String,
)
    requires
        is_plain_directory(layout.manifests_dir@),
        call_ensures(
            CacheLayout::fetch_manifest_path,
            (layout, source, station, start, Some(end)),
            path,
        ),
    ensures
        path@ == layout.manifests_dir@ + "/fetch-"@ + slug_of(source) + "-"@ + station@ + "-"@
            + compact_date(start.y(), start.m(), start.d()) + "__"@ + compact_date(
            end.y(),
            end.m(),
            end.d(),
        ) + ".json"@,
{
    reveal_strlit("fetch-");
    reveal_strlit("/fetch-");
    let dir = layout.manifests_dir@;
    let first = compact_date(start.y(), start.m(), start.d());
    let last = compact_date(end.y(), end.m(), end.d());
    let rest = "fetch-"@ + slug_of(source) + "-"@ + station@ + "-"@ + (first + "__"@ + last)
        + ".json"@;
    assert(rest[0] == 'f');
    assert("/fetch-"@ =~= seq!['/'] + "fetch-"@);
    assert(path@ =~= dir + seq!['/'] + rest);
    assert(path@ =~= dir + "/fetch-"@ + slug_of(source) + "-"@ + station@ + "-"@ + first + "__"@ + last
        + ".json"@);
}

/// A lock that is taken is held, one that fails is given up, and a busy one is tried two hundred
/// times.
pub proof fn law_busy_locks_are_tried_two_hundred_times(
    attempt: u32,
    event: LockEvent,
    step: LockStep,
)
    requires
        call_ensures(lock_step, (attempt, event), step),
    ensures
        step is Hold <==> event is Taken,
        step is Fail <==> event is Failed,
        step is Retry <==> event is Busy && attempt < 200,
        step is TimeOut <==> event is Busy && attempt >= 200,
{
}

/// Files that are written for different instants or by different processes have different names
/// before they take their place.
pub proof fn law_files_are_written_under_names_of_their_own(
    name: &str,
    process: u32,
    nanos: u128,
    temporary: String,
)
    requires
        call_ensures(temp_file_name, (Some(name), process, nanos), temporary),
    ensures
        temporary@
            == "."@ + name@ + ".tmp-"@ + digits(process as nat) + "-"@ + digits(nanos as nat),
{
}

} // verus!
