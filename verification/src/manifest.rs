//! Manifests: what is kept beside the data files, which of them are due, and what they say
//! together.
use vstd::prelude::*;
use crate::cache::CacheLayout;
use crate::calendar::{Date, UtcTime};
use crate::domain::{
    kept, lemma_kept_push, DailySummary, DatasetManifest, DayProfile, ObservationRecord, QualityFlag,
    StationId, SCHEMA_VERSION,
};
use crate::json::{has_key, key_in_json};
use crate::numeral::{int_text, join, joined, lemma_int_text_plain, signed_decimal};
use crate::order::{
    dictionary, group, in_group, in_some_group, is_grouping, lemma_dictionary_ties, pick, picked,
    ties, Key,
};
use crate::paths::{file_in, lemma_join_last_piece, pieces};
use crate::source::{slug_of, DataSource};
use crate::text::{
    begins, contains_text, has_text, same_text, slashless, starts_with, texts, to_chars, to_text,
};

verus! {

/// The extension of the raw files of a source.
pub open spec fn raw_extension(source: DataSource) -> Seq<char> {
    match source {
        DataSource::IemAsosOneMinute => "csv"@,
        DataSource::NceiAsosFiveMinute => "dat"@,
        DataSource::NwsApi => "json"@,
        DataSource::Ghcnh => "psv"@,
    }
}

/// The extension of the raw files of a source.
pub fn source_raw_extension(source: DataSource) -> (r: &'static str)
    ensures
        r@ == raw_extension(source),
{
    match source {
        DataSource::IemAsosOneMinute => "csv",
        DataSource::NceiAsosFiveMinute => "dat",
        DataSource::NwsApi => "json",
        DataSource::Ghcnh => "psv",
    }
}

/// What a source is for.
pub open spec fn role_of(source: DataSource) -> Seq<char> {
    match source {
        DataSource::IemAsosOneMinute => "historical-fast-path"@,
        DataSource::NceiAsosFiveMinute => "historical-authoritative"@,
        DataSource::NwsApi => "current-day-live"@,
        DataSource::Ghcnh => "fallback-hourly"@,
    }
}

/// What a source is for.
pub fn source_role(source: DataSource) -> (r: &'static str)
    ensures
        r@ == role_of(source),
{
    match source {
        DataSource::IemAsosOneMinute => "historical-fast-path",
        DataSource::NceiAsosFiveMinute => "historical-authoritative",
        DataSource::NwsApi => "current-day-live",
        DataSource::Ghcnh => "fallback-hourly",
    }
}

/// An observation lacks a field of its source.
pub open spec fn lacks_field(observation: ObservationRecord) -> bool {
    exists|k: int|
        0 <= k < observation.quality_flags@.len() && (
        #[trigger] observation.quality_flags@[k]) is SourceFieldMissing
}

/// One of the observations lacks a field of its source.
pub open spec fn any_lacks_field(observations: Seq<ObservationRecord>) -> bool {
    exists|i: int| 0 <= i < observations.len() && lacks_field(#[trigger] observations[i])
}

/// What a manifest warns of: hourly cadence, and missing fields.
pub open spec fn warnings_of(source: DataSource, observations: Seq<ObservationRecord>) -> Seq<
    Seq<char>,
> {
    (if source == DataSource::Ghcnh {
        seq!["hourly fallback cadence; analog and probability methods may be lower confidence"@]
    } else {
        seq![]
    }) + (if any_lacks_field(observations) {
        seq![
            "one or more optional normalized fields were limited by source availability or parser coverage"@,
        ]
    } else {
        seq![]
    })
}

fn is_lacking(observation: &ObservationRecord) -> (r: bool)
    ensures
        r == lacks_field(*observation),
{
    let mut k: usize = 0;
    while k < observation.quality_flags.len()
        invariant
            k <= observation.quality_flags@.len(),
            forall|j: int|
                0 <= j < k ==> !((#[trigger] observation.quality_flags@[j]) is SourceFieldMissing),
        decreases observation.quality_flags@.len() - k,
    {
        if let QualityFlag::SourceFieldMissing(_) = &observation.quality_flags[k] {
            assert(observation.quality_flags@[k as int] is SourceFieldMissing);
            return true;
        }
        k += 1;
    }
    false
}

/// What a manifest warns of.
pub fn normalized_manifest_warnings(source: DataSource, observations: &Vec<ObservationRecord>) -> (r: Vec<
    String,
>)
    ensures
        texts(r@) == warnings_of(source, observations@),
{
    let mut warnings: Vec<String> = Vec::new();
    if source == DataSource::Ghcnh {
        warnings.push(
            "hourly fallback cadence; analog and probability methods may be lower confidence".to_string(),
        );
    }
    let mut lacking = false;
    let mut i: usize = 0;
    while i < observations.len() && !lacking
        invariant
            i <= observations@.len(),
            !lacking ==> forall|k: int| 0 <= k < i ==> !lacks_field(#[trigger] observations@[k]),
            lacking ==> any_lacks_field(observations@),
        decreases observations@.len() - i,
    {
        if is_lacking(&observations[i]) {
            assert(lacks_field(observations@[i as int]));
            lacking = true;
        }
        i += 1;
    }
    if lacking {
        let ghost before = warnings@;
        let text: String = "one or more optional normalized fields were limited by source availability or parser coverage".to_string();
        warnings.push(text);
        assert(texts(warnings@) =~= texts(before).push(text@));
    }
    assert(texts(warnings@) =~= warnings_of(source, observations@));
    warnings
}

/// The earliest of the dates.
pub open spec fn is_earliest(dates: Seq<Date>, out: Option<Date>) -> bool {
    match out {
        Some(date) => dates.contains(date) && forall|i: int|
            0 <= i < dates.len() ==> date.not_after(#[trigger] dates[i]),
        None => dates.len() == 0,
    }
}

/// The latest of the dates.
pub open spec fn is_latest_date(dates: Seq<Date>, out: Option<Date>) -> bool {
    match out {
        Some(date) => dates.contains(date) && forall|i: int|
            0 <= i < dates.len() ==> (#[trigger] dates[i]).not_after(date),
        None => dates.len() == 0,
    }
}

/// The earliest and the latest of the dates.
pub fn date_range(dates: &Vec<Date>) -> (r: (Option<Date>, Option<Date>))
    ensures
        is_earliest(dates@, r.0),
        is_latest_date(dates@, r.1),
{
    if dates.len() == 0 {
        return (None, None);
    }
    let mut first = dates[0];
    let mut last = dates[0];
    let mut i: usize = 1;
    while i < dates.len()
        invariant
            1 <= i <= dates@.len(),
            dates@.contains(first),
            dates@.contains(last),
            forall|k: int| 0 <= k < i ==> first.not_after(#[trigger] dates@[k]),
            forall|k: int| 0 <= k < i ==> (#[trigger] dates@[k]).not_after(last),
        decreases dates@.len() - i,
    {
        let date = dates[i];
        assert(dates@.contains(date));
        if date.is_not_after(first) {
            first = date;
        }
        if last.is_not_after(date) {
            last = date;
        }
        i += 1;
    }
    (Some(first), Some(last))
}

pub open spec fn observation_dates(observations: Seq<ObservationRecord>) -> Seq<Date> {
    Seq::new(observations.len(), |i: int| observations[i].local_date)
}

fn collect_dates(observations: &Vec<ObservationRecord>) -> (r: Vec<Date>)
    ensures
        r@ == observation_dates(observations@),
{
    let mut dates: Vec<Date> = Vec::new();
    let mut i: usize = 0;
    while i < observations.len()
        invariant
            i <= observations@.len(),
            dates@ == observation_dates(observations@).take(i as int),
        decreases observations@.len() - i,
    {
        dates.push(observations[i].local_date);
        i += 1;
        assert(dates@ =~= observation_dates(observations@).take(i as int));
    }
    assert(dates@ =~= observation_dates(observations@));
    dates
}

/// One of the observations came from the source.
pub open spec fn occurs(observations: Seq<ObservationRecord>, source: DataSource) -> bool {
    exists|i: int| 0 <= i < observations.len() && (#[trigger] observations[i]).source == source
}

pub open spec fn one_if(condition: bool) -> nat {
    if condition {
        1
    } else {
        0
    }
}

/// The number of sources that the observations came from.
pub open spec fn source_count_of(observations: Seq<ObservationRecord>) -> nat {
    one_if(occurs(observations, DataSource::IemAsosOneMinute)) + one_if(
        occurs(observations, DataSource::NceiAsosFiveMinute),
    ) + one_if(occurs(observations, DataSource::NwsApi)) + one_if(
        occurs(observations, DataSource::Ghcnh),
    )
}

fn has_source(observations: &Vec<ObservationRecord>, source: DataSource) -> (r: usize)
    ensures
        r == one_if(occurs(observations@, source)),
{
    let mut i: usize = 0;
    while i < observations.len()
        invariant
            i <= observations@.len(),
            forall|k: int| 0 <= k < i ==> (#[trigger] observations@[k]).source != source,
        decreases observations@.len() - i,
    {
        if observations[i].source == source {
            return 1;
        }
        i += 1;
    }
    0
}

/// The manifest of the observations of a station in a year.
pub fn normalized_manifest(
    source: DataSource,
    station_id: &StationId,
    year: i32,
    generated_at_utc: UtcTime,
    artifact_path: &str,
    observations: &Vec<ObservationRecord>,
    input_paths: Vec<String>,
) -> (r: DatasetManifest)
    ensures
        r.dataset_kind@ == "normalized-observations"@,
        r.source == Some(source),
        r.station_id@ == station_id@,
        r.year == year,
        r.schema_version@ == SCHEMA_VERSION@,
        r.generated_at_utc == generated_at_utc,
        r.row_count == observations@.len(),
        is_earliest(observation_dates(observations@), r.start_date),
        is_latest_date(observation_dates(observations@), r.end_date),
        r.artifact_path@ == artifact_path@,
        r.input_paths == input_paths,
        texts(r.warnings@) == warnings_of(source, observations@),
        r.source_count == source_count_of(observations@),
{
    let dates = collect_dates(observations);
    let (start_date, end_date) = date_range(&dates);
    let source_count: usize = has_source(observations, DataSource::IemAsosOneMinute) + has_source(
        observations,
        DataSource::NceiAsosFiveMinute,
    ) + has_source(observations, DataSource::NwsApi) + has_source(observations, DataSource::Ghcnh);
    DatasetManifest {
        dataset_kind: "normalized-observations".to_string(),
        source: Some(source),
        station_id: station_id.as_str().to_string(),
        year,
        schema_version: SCHEMA_VERSION.to_string(),
        generated_at_utc,
        row_count: observations.len(),
        start_date,
        end_date,
        artifact_path: artifact_path.to_string(),
        input_paths,
        warnings: normalized_manifest_warnings(source, observations),
        source_count,
    }
}

/// The manifest of derived data of a station in a year. The inputs are the data files of the
/// sources that have one for the year.
pub fn derived_manifest(
    dataset_kind: &str,
    station_id: &StationId,
    year: i32,
    generated_at_utc: UtcTime,
    artifact_path: &str,
    row_count: usize,
    start_date: Option<Date>,
    end_date: Option<Date>,
    input_paths: Vec<String>,
) -> (r: DatasetManifest)
    ensures
        r.dataset_kind@ == dataset_kind@,
        r.source is None,
        r.station_id@ == station_id@,
        r.year == year,
        r.schema_version@ == SCHEMA_VERSION@,
        r.generated_at_utc == generated_at_utc,
        r.row_count == row_count,
        r.start_date == start_date,
        r.end_date == end_date,
        r.artifact_path@ == artifact_path@,
        r.input_paths == input_paths,
        r.warnings@.len() == 0,
        r.source_count == input_paths@.len(),
{
    let source_count: usize = input_paths.len();
    DatasetManifest {
        dataset_kind: dataset_kind.to_string(),
        source: None,
        station_id: station_id.as_str().to_string(),
        year,
        schema_version: SCHEMA_VERSION.to_string(),
        generated_at_utc,
        row_count,
        start_date,
        end_date,
        artifact_path: artifact_path.to_string(),
        input_paths,
        warnings: Vec::new(),
        source_count,
    }
}

/// The manifest of the daily summaries of a station in a year.
pub fn daily_manifest(
    station_id: &StationId,
    year: i32,
    generated_at_utc: UtcTime,
    artifact_path: &str,
    summaries: &Vec<DailySummary>,
    input_paths: Vec<String>,
) -> (r: DatasetManifest)
    ensures
        r.dataset_kind@ == "daily"@,
        r.source is None,
        r.station_id@ == station_id@,
        r.year == year,
        r.schema_version@ == SCHEMA_VERSION@,
        r.generated_at_utc == generated_at_utc,
        r.row_count == summaries@.len(),
        is_earliest(crate::dataset::summary_dates(summaries@), r.start_date),
        is_latest_date(crate::dataset::summary_dates(summaries@), r.end_date),
        r.artifact_path@ == artifact_path@,
        r.input_paths == input_paths,
        r.warnings@.len() == 0,
        r.source_count == input_paths@.len(),
{
    let mut dates: Vec<Date> = Vec::new();
    let ghost wanted = crate::dataset::summary_dates(summaries@);
    let mut i: usize = 0;
    while i < summaries.len()
        invariant
            i <= summaries@.len(),
            wanted == crate::dataset::summary_dates(summaries@),
            dates@ == wanted.take(i as int),
        decreases summaries@.len() - i,
    {
        dates.push(summaries[i].local_date);
        i += 1;
        assert(dates@ =~= wanted.take(i as int));
    }
    assert(dates@ =~= wanted);
    let (start_date, end_date) = date_range(&dates);
    derived_manifest(
        "daily",
        station_id,
        year,
        generated_at_utc,
        artifact_path,
        summaries.len(),
        start_date,
        end_date,
        input_paths,
    )
}

/// The number of hours in the profiles.
pub open spec fn hour_count(profiles: Seq<DayProfile>) -> nat
    decreases profiles.len(),
{
    if profiles.len() == 0 {
        0
    } else {
        hour_count(profiles.drop_last()) + profiles.last().hours@.len()
    }
}

proof fn lemma_hour_count(profiles: Seq<DayProfile>, n: int)
    requires
        0 <= n <= profiles.len(),
    ensures
        hour_count(profiles.take(n)) <= hour_count(profiles),
    decreases profiles.len() - n,
{
    if n < profiles.len() {
        assert(profiles.take(n + 1).drop_last() =~= profiles.take(n));
        lemma_hour_count(profiles, n + 1);
    } else {
        assert(profiles.take(n) =~= profiles);
    }
}

/// The manifest of the profiles of a station in a year, its rows being their hours.
pub fn profile_manifest(
    station_id: &StationId,
    year: i32,
    generated_at_utc: UtcTime,
    artifact_path: &str,
    profiles: &Vec<DayProfile>,
    input_paths: Vec<String>,
) -> (r: DatasetManifest)
    requires
        hour_count(profiles@) <= usize::MAX,
    ensures
        r.dataset_kind@ == "profiles"@,
        r.source is None,
        r.station_id@ == station_id@,
        r.year == year,
        r.schema_version@ == SCHEMA_VERSION@,
        r.generated_at_utc == generated_at_utc,
        r.row_count == hour_count(profiles@),
        is_earliest(crate::dataset::profile_dates(profiles@), r.start_date),
        is_latest_date(crate::dataset::profile_dates(profiles@), r.end_date),
        r.artifact_path@ == artifact_path@,
        r.input_paths == input_paths,
        r.warnings@.len() == 0,
        r.source_count == input_paths@.len(),
{
    let mut dates: Vec<Date> = Vec::new();
    let ghost wanted = crate::dataset::profile_dates(profiles@);
    let mut rows: usize = 0;
    let mut i: usize = 0;
    assert(profiles@.take(0) =~= seq![]);
    while i < profiles.len()
        invariant
            i <= profiles@.len(),
            hour_count(profiles@) <= usize::MAX,
            wanted == crate::dataset::profile_dates(profiles@),
            dates@ == wanted.take(i as int),
            rows == hour_count(profiles@.take(i as int)),
        decreases profiles@.len() - i,
    {
        proof {
            assert(profiles@.take(i + 1).drop_last() =~= profiles@.take(i as int));
            lemma_hour_count(profiles@, i + 1);
        }
        dates.push(profiles[i].local_date);
        rows += profiles[i].hours.len();
        i += 1;
        assert(dates@ =~= wanted.take(i as int));
    }
    assert(dates@ =~= wanted);
    assert(profiles@.take(i as int) =~= profiles@);
    let (start_date, end_date) = date_range(&dates);
    derived_manifest(
        "profiles",
        station_id,
        year,
        generated_at_utc,
        artifact_path,
        rows,
        start_date,
        end_date,
        input_paths,
    )
}

/// Whether a manifest has to be written anew: it was written before manifests had `warnings` and a
/// `source_count`. None where it is no JSON.
pub fn dataset_manifest_needs_refresh(body: &[u8]) -> (r: Option<bool>)
    ensures
        r == (match (key_in_json(body@, "warnings"@), key_in_json(body@, "source_count"@)) {
            (Some(warnings), Some(source_count)) => Some(!(warnings && source_count)),
            _ => None,
        }),
{
    match (has_key(body, "warnings"), has_key(body, "source_count")) {
        (Some(warnings), Some(source_count)) => Some(is_outdated(warnings, source_count)),
        _ => None,
    }
}

/// Whether a manifest was written before manifests had warnings and counts of sources.
pub fn is_outdated(has_warnings: bool, has_source_count: bool) -> (r: bool)
    ensures
        r == !(has_warnings && has_source_count),
{
    !has_warnings || !has_source_count
}

/// The kind of a manifest, by the name of its file.
pub open spec fn kind_named(name: Seq<char>) -> Seq<char> {
    if starts_with(name, "normalized-"@) {
        "normalized"@
    } else if starts_with(name, "derived-"@) {
        "derived"@
    } else if starts_with(name, "fetch-"@) {
        "fetch"@
    } else if name == "bootstrap.json"@ {
        "bootstrap"@
    } else {
        "unknown"@
    }
}

/// The kind of a manifest, by the name of its file.
pub fn manifest_kind(file_name: &str) -> (r: &'static str)
    ensures
        r@ == kind_named(file_name@),
{
    let chars = to_chars(file_name);
    if begins(&chars, "normalized-") {
        "normalized"
    } else if begins(&chars, "derived-") {
        "derived"
    } else if begins(&chars, "fetch-") {
        "fetch"
    } else if same_text(file_name, "bootstrap.json") {
        "bootstrap"
    } else {
        "unknown"
    }
}

/// The text behind which the year stands in the name of a manifest of a station.
pub open spec fn station_mark(station: Seq<char>) -> Seq<char> {
    "-"@ + station + "-"@
}

/// The file is a manifest of observations of a source.
pub open spec fn names_source(name: Seq<char>, source: DataSource) -> bool {
    starts_with(name, "normalized-"@ + slug_of(source) + "-"@)
}

/// Whether a file is a manifest of observations of a source.
pub fn is_source_manifest(name: &str, source: DataSource) -> (r: bool)
    ensures
        r == names_source(name@, source),
{
    let mut start: String = "normalized-".to_string();
    start.append(source.slug());
    start.append("-");
    begins(&to_chars(name), &start)
}

/// Whether the name of a file holds the start of the names of the manifests of a source.
pub fn mentions_source(name: &str, source: DataSource) -> (r: bool)
    ensures
        r == contains_text(name@, "normalized-"@ + slug_of(source) + "-"@),
{
    let mut start: String = "normalized-".to_string();
    start.append(source.slug());
    start.append("-");
    has_text(&to_chars(name), &start)
}

/// Whether a file is a manifest of a station, its name starting so.
pub fn is_station_manifest(name: &str, prefix: &str, station_id: &StationId) -> (r: bool)
    ensures
        r == (starts_with(name@, prefix@) && contains_text(name@, station_mark(station_id@))),
{
    let mut mark: String = "-".to_string();
    mark.append(station_id.as_str());
    mark.append("-");
    let chars = to_chars(name);
    begins(&chars, prefix) && has_text(&chars, &mark)
}

/// Whether a file is a manifest of observations of a source and station.
pub fn is_station_source_manifest(name: &str, station_id: &StationId, source: DataSource) -> (r: bool)
    ensures
        r == (names_source(name@, source) && contains_text(name@, station_mark(station_id@))),
{
    proof {
        reveal_strlit("");
        assert(name@.take(0) =~= ""@);
    }
    is_source_manifest(name, source) && is_station_manifest(name, "", station_id)
}

/// Whether the name of a file holds the code of a station, where one is asked for.
pub fn is_listed(name: Option<&str>, station: Option<&StationId>) -> (r: bool)
    ensures
        r == (match (station, name) {
            (None, _) => true,
            (Some(_), None) => false,
            (Some(station), Some(name)) => contains_text(name@, station@),
        }),
{
    match (station, name) {
        (None, _) => true,
        (Some(_), None) => false,
        (Some(station), Some(name)) => has_text(&to_chars(name), station.as_str()),
    }
}

/// Those of the paths that hold the year.
pub open spec fn paths_with_year(paths: Seq<String>, year: int) -> Seq<String> {
    kept(
        Seq::new(
            paths.len(),
            |i: int|
                if contains_text(paths[i]@, int_text(year)) {
                    Some(paths[i])
                } else {
                    None
                },
        ),
    )
}

/// Those of the raw files that hold the year in their paths.
pub fn input_paths_for_year(paths: Vec<String>, year: i32) -> (r: Vec<String>)
    ensures
        r@ == paths_with_year(paths@, year as int),
{
    let numeral = signed_decimal(year as i64);
    let ghost all = Seq::new(
        paths@.len(),
        |i: int|
            if contains_text(paths@[i]@, int_text(year as int)) {
                Some(paths@[i])
            } else {
                None
            },
    );
    let mut chosen: Vec<usize> = Vec::new();
    let mut i: usize = 0;
    assert(all.take(0) =~= seq![]);
    assert(picked(paths@, chosen@) =~= seq![]);
    while i < paths.len()
        invariant
            i <= paths@.len(),
            numeral@ == int_text(year as int),
            all == Seq::new(
                paths@.len(),
                |i: int|
                    if contains_text(paths@[i]@, int_text(year as int)) {
                        Some(paths@[i])
                    } else {
                        None
                    },
            ),
            forall|k: int| 0 <= k < chosen@.len() ==> #[trigger] chosen@[k] < i,
            forall|k: int, l: int|
                0 <= k < l < chosen@.len() ==> #[trigger] chosen@[k] < #[trigger] chosen@[l],
            picked(paths@, chosen@) == kept(all.take(i as int)),
        decreases paths@.len() - i,
    {
        proof {
            lemma_kept_push(all.take(i as int), all[i as int]);
            assert(all.take(i as int).push(all[i as int]) =~= all.take(i + 1));
        }
        if has_text(&to_chars(&paths[i]), &numeral) {
            let ghost before = chosen@;
            chosen.push(i);
            assert(picked(paths@, chosen@) =~= picked(paths@, before).push(paths@[i as int]));
        }
        i += 1;
    }
    assert(all.take(i as int) =~= all);
    pick(paths, &chosen)
}

/// One of the manifests is of the year.
pub open spec fn has_year(manifests: Seq<DatasetManifest>, year: i32) -> bool {
    exists|i: int| 0 <= i < manifests.len() && (#[trigger] manifests[i]).year == year
}

/// The years of the manifests, rising, each once.
pub fn manifest_years(manifests: &Vec<DatasetManifest>) -> (r: Vec<i32>)
    ensures
        forall|a: int, b: int| 0 <= a < b < r@.len() ==> #[trigger] r@[a] < #[trigger] r@[b],
        forall|year: i32| #[trigger] r@.contains(year) <==> has_year(manifests@, year),
{
    let mut keys: Vec<i64> = Vec::new();
    let mut i: usize = 0;
    while i < manifests.len()
        invariant
            i <= manifests@.len(),
            keys@.len() == i,
            forall|k: int| 0 <= k < i ==> #[trigger] keys@[k] == manifests@[k].year,
        decreases manifests@.len() - i,
    {
        keys.push(manifests[i].year as i64);
        i += 1;
    }
    let groups = group(&keys);
    let mut years: Vec<i32> = Vec::new();
    let mut g: usize = 0;
    while g < groups.len()
        invariant
            g <= groups@.len(),
            keys@.len() == manifests@.len(),
            forall|k: int| 0 <= k < keys@.len() ==> #[trigger] keys@[k] == manifests@[k].year,
            is_grouping(keys@, groups@),
            years@.len() == g,
            forall|h: int| 0 <= h < g ==> #[trigger] years@[h] == keys@[groups@[h]@[0] as int],
        decreases groups@.len() - g,
    {
        assert(groups@[g as int]@.len() > 0);
        assert(0 <= groups@[g as int]@[0] < keys@.len());
        years.push(manifests[groups[g][0]].year);
        g += 1;
    }
    proof {
        assert forall|a: int, b: int| 0 <= a < b < years@.len() implies #[trigger] years@[a]
            < #[trigger] years@[b] by {
            assert(!keys@[groups@[b]@[0] as int].at_most(&keys@[groups@[a]@[0] as int]));
        }
        assert forall|year: i32| #[trigger] years@.contains(year) <==> has_year(manifests@, year) by {
            if years@.contains(year) {
                let h = choose|h: int| 0 <= h < years@.len() && years@[h] == year;
                assert(groups@[h]@.len() > 0);
                assert(0 <= groups@[h]@[0] < keys@.len());
                assert(manifests@[groups@[h]@[0] as int].year == year);
            }
            if has_year(manifests@, year) {
                let i = choose|i: int|
                    0 <= i < manifests@.len() && (#[trigger] manifests@[i]).year == year;
                assert(in_some_group(groups@, i));
                let h = choose|h: int| #[trigger] in_group(groups@, h, i);
                let b = choose|b: int| 0 <= b < groups@[h]@.len() && groups@[h]@[b] == i as usize;
                assert(ties(keys@[groups@[h]@[b] as int], keys@[groups@[h]@[0] as int]));
                assert(years@[h] == year);
            }
        }
    }
    years
}

/// One of the manifests warns so.
pub open spec fn has_warning(manifests: Seq<DatasetManifest>, text: Seq<char>) -> bool {
    exists|i: int, k: int|
        0 <= i < manifests.len() && 0 <= k < manifests[i].warnings@.len() && (
        #[trigger] manifests[i].warnings@[k])@ == text
}

fn collect_warnings(manifests: &Vec<DatasetManifest>) -> (r: Vec<Vec<char>>)
    ensures
        forall|j: int| 0 <= j < r@.len() ==> has_warning(manifests@, (#[trigger] r@[j])@),
        forall|i: int, k: int|
            0 <= i < manifests@.len() && 0 <= k < manifests@[i].warnings@.len() ==> spelled(
                r@,
                (#[trigger] manifests@[i].warnings@[k])@,
            ),
{
    let mut all: Vec<Vec<char>> = Vec::new();
    let mut i: usize = 0;
    while i < manifests.len()
        invariant
            i <= manifests@.len(),
            forall|j: int| 0 <= j < all@.len() ==> has_warning(manifests@, (#[trigger] all@[j])@),
            forall|h: int, k: int|
                0 <= h < i && 0 <= k < manifests@[h].warnings@.len() ==> spelled(
                    all@,
                    (#[trigger] manifests@[h].warnings@[k])@,
                ),
        decreases manifests@.len() - i,
    {
        let mut k: usize = 0;
        while k < manifests[i].warnings.len()
            invariant
                i < manifests@.len(),
                k <= manifests@[i as int].warnings@.len(),
                forall|j: int|
                    0 <= j < all@.len() ==> has_warning(manifests@, (#[trigger] all@[j])@),
                forall|h: int, l: int|
                    0 <= l < manifests@[h].warnings@.len() && (0 <= h < i || (h == i && l < k))
                        ==> spelled(all@, (#[trigger] manifests@[h].warnings@[l])@),
            decreases manifests@[i as int].warnings@.len() - k,
        {
            let chars = to_chars(&manifests[i].warnings[k]);
            let ghost before = all@;
            all.push(chars);
            proof {
                assert(manifests@[i as int].warnings@[k as int]@ == chars@);
                assert(has_warning(manifests@, chars@));
                assert forall|h: int, l: int|
                    0 <= l < manifests@[h].warnings@.len() && (0 <= h < i || (h == i && l < k + 1)) implies spelled(
                    all@,
                    (#[trigger] manifests@[h].warnings@[l])@,
                ) by {
                    let text = manifests@[h].warnings@[l]@;
                    if h == i && l == k {
                        assert(all@[all@.len() - 1]@ == text);
                    } else {
                        assert(spelled(before, text));
                        let j = choose|j: int| 0 <= j < before.len() && (#[trigger] before[j])@ == text;
                        assert(all@[j]@ == text);
                    }
                }
            }
            k += 1;
        }
        i += 1;
    }
    all
}

/// One of the texts reads so.
pub open spec fn spelled(texts: Seq<Vec<char>>, text: Seq<char>) -> bool {
    exists|j: int| 0 <= j < texts.len() && (#[trigger] texts[j])@ == text
}

/// The warnings of the manifests, in the order of their texts, each once.
pub fn manifest_warnings(manifests: &Vec<DatasetManifest>) -> (r: Vec<String>)
    ensures
        forall|a: int, b: int|
            0 <= a < b < r@.len() ==> !dictionary((#[trigger] r@[b])@, (#[trigger] r@[a])@),
        forall|text: Seq<char>|
            #[trigger] texts(r@).contains(text) <==> has_warning(manifests@, text),
{
    let keys = collect_warnings(manifests);
    let groups = group(&keys);
    let mut warnings: Vec<String> = Vec::new();
    let mut g: usize = 0;
    while g < groups.len()
        invariant
            g <= groups@.len(),
            is_grouping(keys@, groups@),
            warnings@.len() == g,
            forall|h: int| 0 <= h < g ==> (#[trigger] warnings@[h])@ == keys@[groups@[h]@[0] as int]@,
        decreases groups@.len() - g,
    {
        assert(groups@[g as int]@.len() > 0);
        assert(0 <= groups@[g as int]@[0] < keys@.len());
        warnings.push(to_text(&keys[groups[g][0]]));
        g += 1;
    }
    proof {
        assert forall|a: int, b: int| 0 <= a < b < warnings@.len() implies !dictionary(
            (#[trigger] warnings@[b])@,
            (#[trigger] warnings@[a])@,
        ) by {
            assert(!keys@[groups@[b]@[0] as int].at_most(&keys@[groups@[a]@[0] as int]));
        }
        assert forall|text: Seq<char>| #[trigger] texts(warnings@).contains(text) <==> has_warning(
            manifests@,
            text,
        ) by {
            if texts(warnings@).contains(text) {
                let h = choose|h: int| 0 <= h < texts(warnings@).len() && texts(warnings@)[h] == text;
                assert(groups@[h]@.len() > 0);
                assert(0 <= groups@[h]@[0] < keys@.len());
                assert(warnings@[h]@ == text);
                assert(has_warning(manifests@, keys@[groups@[h]@[0] as int]@));
            }
            if has_warning(manifests@, text) {
                let (i, k) = choose|i: int, k: int|
                    0 <= i < manifests@.len() && 0 <= k < manifests@[i].warnings@.len() && (
                    #[trigger] manifests@[i].warnings@[k])@ == text;
                assert(spelled(keys@, text));
                let j = choose|j: int| 0 <= j < keys@.len() && (#[trigger] keys@[j])@ == text;
                assert(in_some_group(groups@, j));
                let h = choose|h: int| #[trigger] in_group(groups@, h, j);
                let b = choose|b: int| 0 <= b < groups@[h]@.len() && groups@[h]@[b] == j as usize;
                assert(ties(keys@[groups@[h]@[b] as int], keys@[groups@[h]@[0] as int]));
                lemma_dictionary_ties(keys@[j]@, keys@[groups@[h]@[0] as int]@);
                assert(texts(warnings@)[h] == text);
            }
        }
    }
    warnings
}

/// The years with commas between them, or a hyphen where there are none.
pub open spec fn years_text(years: Seq<i32>) -> Seq<char> {
    if years.len() == 0 {
        "-"@
    } else {
        joined(Seq::new(years.len(), |i: int| int_text(years[i] as int)), ","@)
    }
}

/// The years with commas between them, or a hyphen where there are none.
pub fn format_years(years: &Vec<i32>) -> (r: String)
    ensures
        r@ == years_text(years@),
{
    if years.len() == 0 {
        return "-".to_string();
    }
    let ghost wanted = Seq::new(years@.len(), |i: int| int_text(years@[i] as int));
    let mut numerals: Vec<String> = Vec::new();
    let mut i: usize = 0;
    while i < years.len()
        invariant
            i <= years@.len(),
            wanted == Seq::new(years@.len(), |i: int| int_text(years@[i] as int)),
            numerals@.len() == i,
            forall|k: int| 0 <= k < i ==> (#[trigger] numerals@[k])@ == wanted[k],
        decreases years@.len() - i,
    {
        numerals.push(signed_decimal(years[i] as i64));
        i += 1;
    }
    assert(texts(numerals@) =~= wanted);
    join(&numerals, ",")
}

proof fn lemma_manifest_name(start: Seq<char>, station: Seq<char>, year: int)
    requires
        slashless(start),
        slashless(station),
        start.len() > 0,
    ensures
        ({
            let name = start + "-"@ + station + "-"@ + int_text(year) + ".json"@;
            &&& slashless(name)
            &&& name != "."@ && name != ".."@
            &&& contains_text(name, station_mark(station))
            &&& starts_with(name, start + "-"@)
        }),
{
    let name = start + "-"@ + station + "-"@ + int_text(year) + ".json"@;
    let mark = station_mark(station);
    reveal_strlit("-");
    reveal_strlit(".json");
    reveal_strlit(".");
    reveal_strlit("..");
    lemma_int_text_plain(year);
    let at = start.len() as int;
    assert(name.len() > ".."@.len());
    assert(name.subrange(at, at + mark.len()) =~= mark);
    assert(name.take(at + 1) =~= start + "-"@);
}

/// The manifest of the observations of a station in a year is found again by its name: it is one of
/// observations, of the source and of the station.
pub proof fn law_normalized_manifest_is_found(
    layout: CacheLayout,
    source: DataSource,
    station: Seq<char>,
    year: int,
)
    requires
        slashless(station),
    ensures
        file_in(pieces(layout.normalized_manifest(source, station, year))) matches Some(name) && {
            &&& kind_named(name) == "normalized"@
            &&& names_source(name, source)
            &&& starts_with(name, "normalized-"@) && contains_text(name, station_mark(station))
        },
{
    let start = "normalized-"@ + slug_of(source);
    let name = start + "-"@ + station + "-"@ + int_text(year) + ".json"@;
    assert(slashless(start) && start.len() > 0) by {
        reveal_strlit("normalized-");
        reveal_strlit("iem-asos-1min");
        reveal_strlit("ncei-asos-5min");
        reveal_strlit("nws-api");
        reveal_strlit("ghcnh");
    }
    lemma_manifest_name(start, station, year);
    lemma_join_last_piece(layout.manifests_dir@, name);
    assert(name.take("normalized-"@.len() as int) =~= "normalized-"@);
}

/// The manifest of derived data of a station in a year is found again by its name: it is one of
/// derived data, and of the station.
pub proof fn law_derived_manifest_is_found(
    layout: CacheLayout,
    kind: Seq<char>,
    station: Seq<char>,
    year: int,
)
    requires
        kind == "daily"@ || kind == "profiles"@,
        slashless(station),
    ensures
        file_in(pieces(layout.derived_manifest(kind, station, year))) matches Some(name) && {
            &&& kind_named(name) == "derived"@
            &&& starts_with(name, "derived-"@) && contains_text(name, station_mark(station))
        },
{
    let start = "derived-"@ + kind;
    let name = start + "-"@ + station + "-"@ + int_text(year) + ".json"@;
    reveal_strlit("derived-");
    reveal_strlit("normalized-");
    assert(slashless(start)) by {
        reveal_strlit("daily");
        reveal_strlit("profiles");
    }
    lemma_manifest_name(start, station, year);
    lemma_join_last_piece(layout.manifests_dir@, name);
    assert(name.take("derived-"@.len() as int) =~= "derived-"@);
    assert(!starts_with(name, "normalized-"@)) by {
        assert(name[0] == 'd');
        if starts_with(name, "normalized-"@) {
            assert(name.take("normalized-"@.len() as int)[0] == 'd');
        }
    }
}

} // verus!
