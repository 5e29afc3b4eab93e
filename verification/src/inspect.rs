//! What is printed of sources, stations, manifests and data files.
use vstd::prelude::*;
use crate::cache::CacheLayout;
use crate::calendar::Date;
use crate::domain::{opt_text, DatasetManifest, StationId};
use crate::json::{
    count_at, count_in_json, integer_at, integer_in_json, text_at, text_in_json,
};
use crate::manifest::{
    format_years, has_warning, has_year, manifest_kind, manifest_warnings, manifest_years, role_of,
    kind_named, source_role, years_text,
};
use crate::numeral::{
    align_left, align_right, decimal, digits, int_text, left_aligned, right_aligned, signed_decimal,
};
use crate::order::dictionary;
use crate::paths::{
    opt_int, pieces, station_id_from_artifact_path, station_in, year_from_artifact_path, year_in,
};
use crate::report::{derived_kind, kind_of_derived, note_line, put, put_all, put_label, put_note};
use crate::source::{cadence_of, scope_of, slug_of, summary_of, DataSource};
use crate::text::{same_text, texts};

verus! {

/// What the cache holds of a source.
#[derive(Debug, Clone)]
pub struct SourceReport {
    pub source: DataSource,
    pub raw_files: usize,
    pub normalized_files: usize,
    pub manifest_files: usize,
    pub coverage_years: Vec<i32>,
    pub warnings: Vec<String>,
}

pub open spec fn count_text(count: nat) -> Seq<char> {
    right_aligned(digits(count), 4)
}

/// The lines of a source: its description in columns, then its warnings.
pub open spec fn source_text(report: SourceReport) -> Seq<Seq<char>> {
    seq![
        left_aligned(slug_of(report.source), 16) + "  role="@ + left_aligned(
            role_of(report.source),
            20,
        ) + " cadence="@ + left_aligned(cadence_of(report.source), 12) + " scope="@ + left_aligned(
            scope_of(report.source),
            18,
        ) + " raw="@ + count_text(report.raw_files as nat) + " normalized="@ + count_text(
            report.normalized_files as nat,
        ) + " manifests="@ + count_text(report.manifest_files as nat) + " years="@ + years_text(
            report.coverage_years@,
        ) + " "@ + summary_of(report.source),
    ] + Seq::new(
        report.warnings@.len(),
        |i: int| "  warning: "@ + report.warnings@[i]@,
    )
}

/// The lines of a source.
pub fn source_lines(report: &SourceReport) -> (r: Vec<String>)
    ensures
        texts(r@) == source_text(*report),
{
    let source = report.source;
    let mut line = align_left(source.slug(), 16);
    line.append("  role=");
    line.append(&align_left(source_role(source), 20));
    line.append(" cadence=");
    line.append(&align_left(source.cadence(), 12));
    line.append(" scope=");
    line.append(&align_left(source.scope(), 18));
    line.append(" raw=");
    line.append(&align_right(&decimal(report.raw_files as u128), 4));
    line.append(" normalized=");
    line.append(&align_right(&decimal(report.normalized_files as u128), 4));
    line.append(" manifests=");
    line.append(&align_right(&decimal(report.manifest_files as u128), 4));
    line.append(" years=");
    line.append(&format_years(&report.coverage_years));
    line.append(" ");
    line.append(source.summary());
    let mut lines: Vec<String> = Vec::new();
    assert(texts(lines@) =~= seq![]);
    put(&mut lines, line);
    let ghost wanted = source_text(*report);
    let mut i: usize = 0;
    assert(texts(lines@) =~= wanted.take(1));
    while i < report.warnings.len()
        invariant
            i <= report.warnings@.len(),
            wanted == source_text(*report),
            texts(lines@) == wanted.take(1 + i),
        decreases report.warnings@.len() - i,
    {
        put_label(&mut lines, "  warning: ", &report.warnings[i]);
        i += 1;
        assert(texts(lines@) =~= wanted.take(1 + i));
    }
    assert(wanted.take(1 + i) =~= wanted);
    lines
}

/// What the manifests of a station say of a source.
#[derive(Debug, Clone)]
pub struct SourceCoverage {
    pub source: DataSource,
    pub role: &'static str,
    pub coverage_years: Vec<i32>,
    pub warnings: Vec<String>,
    pub manifest_count: usize,
}

/// What the manifests of a station say of a source: their years, rising, and their warnings, in the
/// order of their texts, each once.
pub fn source_coverage(source: DataSource, manifests: &Vec<DatasetManifest>) -> (r: SourceCoverage)
    ensures
        r.source == source,
        r.role@ == role_of(source),
        forall|a: int, b: int|
            0 <= a < b < r.coverage_years@.len() ==> #[trigger] r.coverage_years@[a]
                < #[trigger] r.coverage_years@[b],
        forall|year: i32|
            #[trigger] r.coverage_years@.contains(year) <==> has_year(manifests@, year),
        forall|a: int, b: int|
            0 <= a < b < r.warnings@.len() ==> !dictionary(
                (#[trigger] r.warnings@[b])@,
                (#[trigger] r.warnings@[a])@,
            ),
        forall|text: Seq<char>|
            #[trigger] texts(r.warnings@).contains(text) <==> has_warning(manifests@, text),
        r.manifest_count == manifests@.len(),
{
    SourceCoverage {
        source,
        role: source_role(source),
        coverage_years: manifest_years(manifests),
        warnings: manifest_warnings(manifests),
        manifest_count: manifests.len(),
    }
}

/// What is known of a station. The latitude, longitude and elevation are written as they are shown.
#[derive(Debug, Clone)]
pub struct StationReport {
    pub station: String,
    pub source_station_id: String,
    pub name: String,
    pub timezone: String,
    pub latitude: String,
    pub longitude: String,
    pub elevation_m: Option<String>,
    pub provider: Option<String>,
    pub station_cache: String,
    pub iem_raw_files: usize,
    pub iem_normalized_files: usize,
    pub nws_normalized_files: usize,
    pub ncei_normalized_files: usize,
    pub ghcnh_normalized_files: usize,
    pub daily_years: usize,
    pub profile_years: usize,
    pub normalized_manifests: usize,
    pub derived_manifests: usize,
    pub freshness_note: Option<String>,
    pub coverage: Vec<SourceCoverage>,
}

/// The provider, or that it is unknown.
pub open spec fn provider_text(provider: Option<Seq<char>>) -> Seq<char> {
    match provider {
        Some(text) => text,
        None => "unknown"@,
    }
}

/// The provider, or that it is unknown.
pub fn provider_name(provider: &Option<String>) -> (r: String)
    ensures
        r@ == provider_text(opt_text(*provider)),
{
    match provider {
        Some(text) => text.clone(),
        None => "unknown".to_string(),
    }
}

/// The line of a source of a station.
pub open spec fn coverage_text(coverage: SourceCoverage) -> Seq<char> {
    slug_of(coverage.source) + ": years="@ + years_text(coverage.coverage_years@) + " warnings="@
        + digits(coverage.warnings@.len())
}

fn coverage_line(coverage: &SourceCoverage) -> (r: String)
    ensures
        r@ == coverage_text(*coverage),
{
    let mut line: String = coverage.source.slug().to_string();
    line.append(": years=");
    line.append(&format_years(&coverage.coverage_years));
    line.append(" warnings=");
    line.append(&decimal(coverage.warnings.len() as u128));
    line
}

/// The lines of a station before its sources.
pub open spec fn station_head(report: StationReport) -> Seq<Seq<char>> {
    seq![
        "station: "@ + report.station@,
        "source station id: "@ + report.source_station_id@,
        "name: "@ + report.name@,
        "timezone: "@ + report.timezone@,
        "location: "@ + report.latitude@ + ", "@ + report.longitude@,
    ] + note_line("elevation_m: "@, opt_text(report.elevation_m)) + seq![
        "provider: "@ + provider_text(opt_text(report.provider)),
        "station cache: "@ + report.station_cache@,
        "iem raw files: "@ + digits(report.iem_raw_files as nat),
        "iem normalized files: "@ + digits(report.iem_normalized_files as nat),
        "nws normalized files: "@ + digits(report.nws_normalized_files as nat),
        "ncei normalized files: "@ + digits(report.ncei_normalized_files as nat),
        "ghcnh normalized files: "@ + digits(report.ghcnh_normalized_files as nat),
        "daily years built: "@ + digits(report.daily_years as nat),
        "profile years built: "@ + digits(report.profile_years as nat),
        "normalized manifests: "@ + digits(report.normalized_manifests as nat),
        "derived manifests: "@ + digits(report.derived_manifests as nat),
    ] + note_line("current-day status: "@, opt_text(report.freshness_note))
}

/// The lines of a station.
pub open spec fn station_text(report: StationReport) -> Seq<Seq<char>> {
    station_head(report) + Seq::new(
        report.coverage@.len(),
        |i: int| coverage_text(report.coverage@[i]),
    )
}

pub(crate) fn put_count(lines: &mut Vec<String>, label: &str, count: usize)
    ensures
        texts(final(lines)@) == texts(old(lines)@) + seq![label@ + digits(count as nat)],
{
    put_label(lines, label, &decimal(count as u128));
}

fn station_head_lines(report: &StationReport) -> (r: Vec<String>)
    ensures
        texts(r@) == station_head(*report),
{
    let mut lines: Vec<String> = Vec::new();
    assert(texts(lines@) =~= seq![]);
    put_label(&mut lines, "station: ", &report.station);
    put_label(&mut lines, "source station id: ", &report.source_station_id);
    put_label(&mut lines, "name: ", &report.name);
    put_label(&mut lines, "timezone: ", &report.timezone);
    let mut location: String = "location: ".to_string();
    location.append(&report.latitude);
    location.append(", ");
    location.append(&report.longitude);
    put(&mut lines, location);
    put_note(&mut lines, "elevation_m: ", &report.elevation_m);
    put_label(&mut lines, "provider: ", &provider_name(&report.provider));
    put_label(&mut lines, "station cache: ", &report.station_cache);
    put_count(&mut lines, "iem raw files: ", report.iem_raw_files);
    put_count(&mut lines, "iem normalized files: ", report.iem_normalized_files);
    put_count(&mut lines, "nws normalized files: ", report.nws_normalized_files);
    put_count(&mut lines, "ncei normalized files: ", report.ncei_normalized_files);
    put_count(&mut lines, "ghcnh normalized files: ", report.ghcnh_normalized_files);
    put_count(&mut lines, "daily years built: ", report.daily_years);
    put_count(&mut lines, "profile years built: ", report.profile_years);
    put_count(&mut lines, "normalized manifests: ", report.normalized_manifests);
    put_count(&mut lines, "derived manifests: ", report.derived_manifests);
    put_note(&mut lines, "current-day status: ", &report.freshness_note);
    assert(texts(lines@) =~= station_head(*report));
    lines
}

/// The lines of a station.
pub fn station_lines(report: &StationReport) -> (r: Vec<String>)
    ensures
        texts(r@) == station_text(*report),
{
    let mut lines = station_head_lines(report);
    let ghost head = station_head(*report);
    let ghost tail = Seq::new(
        report.coverage@.len(),
        |i: int| coverage_text(report.coverage@[i]),
    );
    let mut i: usize = 0;
    assert(head + tail.take(0) =~= head);
    while i < report.coverage.len()
        invariant
            i <= report.coverage@.len(),
            tail == Seq::new(
                report.coverage@.len(),
                |i: int| coverage_text(report.coverage@[i]),
            ),
            texts(lines@) == head + tail.take(i as int),
        decreases report.coverage@.len() - i,
    {
        put(&mut lines, coverage_line(&report.coverage[i]));
        i += 1;
        assert(texts(lines@) =~= head + tail.take(i as int));
    }
    assert(tail.take(i as int) =~= tail);
    lines
}

/// What a manifest says, where it is read.
#[derive(Debug, Clone)]
pub struct ManifestFacts {
    pub station_id: Option<String>,
    pub year: i64,
    pub row_count: u64,
}

/// The line of a manifest.
pub open spec fn manifest_text(name: Seq<char>, path: Seq<char>, facts: Option<ManifestFacts>) -> Seq<
    char,
> {
    let kind = left_aligned(kind_named(name), 18);
    match facts {
        Some(found) => kind + " station="@ + (match opt_text(found.station_id) {
            Some(station) => station,
            None => "-"@,
        }) + " year="@ + int_text(found.year as int) + " rows="@ + digits(found.row_count as nat)
            + " path="@ + path,
        None => kind + " path="@ + path,
    }
}

/// The facts, where a number that is not there counts as nought.
pub open spec fn are_facts(
    station: Option<Seq<char>>,
    year: Option<i64>,
    rows: Option<u64>,
    facts: ManifestFacts,
) -> bool {
    &&& opt_text(facts.station_id) == station
    &&& facts.year == (match year {
        Some(y) => y,
        None => 0,
    })
    &&& facts.row_count == (match rows {
        Some(n) => n,
        None => 0,
    })
}

/// The facts, where a number that is not there counts as nought.
pub fn facts_of(station_id: Option<String>, year: Option<i64>, rows: Option<u64>) -> (r: ManifestFacts)
    ensures
        are_facts(opt_text(station_id), year, rows, r),
{
    let year: i64 = match year {
        Some(y) => y,
        None => 0,
    };
    let row_count: u64 = match rows {
        Some(n) => n,
        None => 0,
    };
    ManifestFacts { station_id, year, row_count }
}

/// What a manifest says: its `station_id`, `year` and `row_count`; none where it is no JSON.
pub fn manifest_facts(body: &[u8]) -> (r: Option<ManifestFacts>)
    ensures
        match (
            text_in_json(body@, "station_id"@),
            integer_in_json(body@, "year"@),
            count_in_json(body@, "row_count"@),
        ) {
            (Some(station), Some(year), Some(rows)) => r is Some && are_facts(
                station,
                year,
                rows,
                r->0,
            ),
            _ => r is None,
        },
{
    match (text_at(body, "station_id"), integer_at(body, "year"), count_at(body, "row_count")) {
        (Some(station), Some(year), Some(rows)) => Some(facts_of(station, year, rows)),
        _ => None,
    }
}

/// Whether a manifest is read for its facts; the note of the making of the cache has none.
pub fn is_read_for_facts(file_name: &str) -> (r: bool)
    ensures
        r == (kind_named(file_name@) != "bootstrap"@),
{
    !same_text(manifest_kind(file_name), "bootstrap")
}

/// The line of a manifest.
pub fn manifest_line(file_name: &str, path: &str, facts: &Option<ManifestFacts>) -> (r: String)
    ensures
        r@ == manifest_text(file_name@, path@, *facts),
{
    let mut line = align_left(manifest_kind(file_name), 18);
    match facts {
        Some(found) => {
            line.append(" station=");
            match &found.station_id {
                Some(station) => {
                    line.append(station);
                },
                None => {
                    line.append("-");
                },
            }
            line.append(" year=");
            line.append(&signed_decimal(found.year));
            line.append(" rows=");
            line.append(&decimal(found.row_count as u128));
            line.append(" path=");
            line.append(path);
        },
        None => {
            line.append(" path=");
            line.append(path);
        },
    }
    line
}

/// The path is of the station and the year, as far as these are asked for.
pub open spec fn is_asked_for(path: Seq<char>, station: Option<Seq<char>>, year: Option<int>) -> bool {
    (station is None || station_in(pieces(path)) == station) && (year is None || year_in(
        pieces(path),
    ) == year)
}

pub open spec fn opt_station(station: Option<&StationId>) -> Option<Seq<char>> {
    match station {
        Some(id) => Some(id@),
        None => None,
    }
}

/// Whether a path is of the station and the year, as far as these are asked for.
pub fn artifact_matches(path: &str, station: Option<&StationId>, year: Option<i32>) -> (r: bool)
    ensures
        r == is_asked_for(path@, opt_station(station), opt_int(year)),
{
    if let Some(wanted) = station {
        match station_id_from_artifact_path(path) {
            Some(found) => {
                if !same_text(found.as_str(), wanted.as_str()) {
                    return false;
                }
            },
            None => {
                return false;
            },
        }
    }
    if let Some(wanted) = year {
        match year_from_artifact_path(path) {
            Some(found) => {
                if found != wanted {
                    return false;
                }
            },
            None => {
                return false;
            },
        }
    }
    true
}

/// A file of observations of a source.
#[derive(Debug, Clone)]
pub struct NormalizedFile {
    pub source: DataSource,
    pub path: String,
}

/// Commands that show the first file of observations.
pub open spec fn example_texts(normalized: Seq<NormalizedFile>) -> Seq<Seq<char>> {
    if normalized.len() == 0 {
        seq![]
    } else {
        let path = normalized[0].path@;
        seq![
            "duckdb -c \"select * from '"@ + path + "' limit 5\""@,
            "duckdb -c \"describe select * from '"@ + path + "'\""@,
        ]
    }
}

/// Commands that show the first file of observations.
pub fn duckdb_examples(normalized: &Vec<NormalizedFile>) -> (r: Vec<String>)
    ensures
        texts(r@) == example_texts(normalized@),
{
    let mut lines: Vec<String> = Vec::new();
    assert(texts(lines@) =~= seq![]);
    if normalized.len() > 0 {
        let mut first: String = "duckdb -c \"select * from '".to_string();
        first.append(&normalized[0].path);
        first.append("' limit 5\"");
        put(&mut lines, first);
        let mut second: String = "duckdb -c \"describe select * from '".to_string();
        second.append(&normalized[0].path);
        second.append("'\"");
        put(&mut lines, second);
        assert(texts(lines@) =~= example_texts(normalized@));
    }
    lines
}

/// The lines of the data files.
pub open spec fn duckdb_text(normalized: Seq<NormalizedFile>, derived: Seq<String>) -> Seq<Seq<char>> {
    seq!["normalized:"@] + Seq::new(
        normalized.len(),
        |i: int| slug_of(normalized[i].source) + "  "@ + normalized[i].path@,
    ) + seq!["derived:"@] + Seq::new(
        derived.len(),
        |i: int| kind_of_derived(derived[i]@) + "  "@ + derived[i]@,
    ) + example_texts(normalized)
}

/// The lines of the data files: those of observations, those of derived data, and commands that
/// show the first.
pub fn duckdb_lines(normalized: &Vec<NormalizedFile>, derived: &Vec<String>) -> (r: Vec<String>)
    ensures
        texts(r@) == duckdb_text(normalized@, derived@),
{
    let mut lines: Vec<String> = Vec::new();
    assert(texts(lines@) =~= seq![]);
    put(&mut lines, "normalized:".to_string());
    let ghost first = Seq::new(
        normalized@.len(),
        |i: int| slug_of(normalized@[i].source) + "  "@ + normalized@[i].path@,
    );
    let ghost second = Seq::new(
        derived@.len(),
        |i: int| kind_of_derived(derived@[i]@) + "  "@ + derived@[i]@,
    );
    let ghost head = texts(lines@);
    let mut i: usize = 0;
    assert(head + first.take(0) =~= head);
    while i < normalized.len()
        invariant
            i <= normalized@.len(),
            first == Seq::new(
                normalized@.len(),
                |i: int| slug_of(normalized@[i].source) + "  "@ + normalized@[i].path@,
            ),
            texts(lines@) == head + first.take(i as int),
        decreases normalized@.len() - i,
    {
        let mut line: String = normalized[i].source.slug().to_string();
        line.append("  ");
        line.append(&normalized[i].path);
        put(&mut lines, line);
        i += 1;
        assert(texts(lines@) =~= head + first.take(i as int));
    }
    assert(first.take(i as int) =~= first);
    put(&mut lines, "derived:".to_string());
    let ghost middle = texts(lines@);
    let mut k: usize = 0;
    assert(middle + second.take(0) =~= middle);
    while k < derived.len()
        invariant
            k <= derived@.len(),
            second == Seq::new(
                derived@.len(),
                |i: int| kind_of_derived(derived@[i]@) + "  "@ + derived@[i]@,
            ),
            texts(lines@) == middle + second.take(k as int),
        decreases derived@.len() - k,
    {
        let mut line: String = derived_kind(&derived[k]).to_string();
        line.append("  ");
        line.append(&derived[k]);
        put(&mut lines, line);
        k += 1;
        assert(texts(lines@) =~= middle + second.take(k as int));
    }
    assert(second.take(k as int) =~= second);
    put_all(&mut lines, duckdb_examples(normalized));
    assert(texts(lines@) =~= duckdb_text(normalized@, derived@));
    lines
}

/// What a download of a window of days prints.
pub fn fetch_station_lines(
    station: &StationId,
    source: DataSource,
    start: Date,
    end: Date,
    raw_path: &str,
    byte_count: usize,
    reused: bool,
) -> (r: Vec<String>)
    ensures
        texts(r@) == seq![
            "station: "@ + station@,
            "source: "@ + slug_of(source),
            "window: "@ + start.text() + " -> "@ + end.text(),
            "raw path: "@ + raw_path@,
            "bytes: "@ + digits(byte_count as nat),
            "cache: "@ + (if reused {
                "reused"@
            } else {
                "downloaded"@
            }),
        ],
{
    let mut lines: Vec<String> = Vec::new();
    assert(texts(lines@) =~= seq![]);
    put_label(&mut lines, "station: ", station.as_str());
    put_label(&mut lines, "source: ", source.slug());
    let mut window: String = "window: ".to_string();
    window.append(&start.to_text());
    window.append(" -> ");
    window.append(&end.to_text());
    put(&mut lines, window);
    put_label(&mut lines, "raw path: ", raw_path);
    put_count(&mut lines, "bytes: ", byte_count);
    if reused {
        put_label(&mut lines, "cache: ", "reused");
    } else {
        put_label(&mut lines, "cache: ", "downloaded");
    }
    lines
}

/// What a download of the current observation prints.
pub fn fetch_current_lines(
    station: &StationId,
    raw_path: &str,
    normalized_path: &str,
    added: usize,
) -> (r: Vec<String>)
    ensures
        texts(r@) == seq![
            "station: "@ + station@,
            "source: "@ + slug_of(DataSource::NwsApi),
            "raw path: "@ + raw_path@,
            "normalized path: "@ + normalized_path@,
            "observations added: "@ + digits(added as nat),
        ],
{
    let mut lines: Vec<String> = Vec::new();
    assert(texts(lines@) =~= seq![]);
    put_label(&mut lines, "station: ", station.as_str());
    put_label(&mut lines, "source: ", DataSource::NwsApi.slug());
    put_label(&mut lines, "raw path: ", raw_path);
    put_label(&mut lines, "normalized path: ", normalized_path);
    put_count(&mut lines, "observations added: ", added);
    lines
}

/// What the normalization of a station prints.
pub fn normalize_lines(
    layout: &CacheLayout,
    station: &StationId,
    source: DataSource,
    normalized_total: usize,
) -> (r: Vec<String>)
    ensures
        texts(r@) == seq![
            "station: "@ + station@,
            "source: "@ + slug_of(source),
            "normalized observations: "@ + digits(normalized_total as nat),
            "normalized root: "@ + crate::paths::path_join(
                layout.source_dir(source),
                "normalized/station="@ + station@,
            ),
        ],
{
    let mut lines: Vec<String> = Vec::new();
    assert(texts(lines@) =~= seq![]);
    put_label(&mut lines, "station: ", station.as_str());
    put_label(&mut lines, "source: ", source.slug());
    put_count(&mut lines, "normalized observations: ", normalized_total);
    put_label(&mut lines, "normalized root: ", &layout.normalized_station_root(source, station));
    lines
}

} // verus!
