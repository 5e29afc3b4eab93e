//! Upkeep: what manifests tell of the data files, what is wrong with the cache, and what the cache
//! is told to hold.
use vstd::prelude::*;
use crate::cache::CacheLayout;
use crate::calendar::{Date, UtcTime};
use crate::domain::{
    opt_text, DailySummary, DatasetManifest, DayProfile, ObservationRecord, StationId,
};
use crate::inspect::{
    artifact_matches, count_text, coverage_text, duckdb_lines, fetch_current_lines,
    fetch_station_lines, manifest_facts, manifest_line, normalize_lines, source_coverage,
    source_lines, source_text, station_head, station_lines, ManifestFacts, NormalizedFile,
    SourceCoverage, SourceReport, StationReport,
};
use crate::json::{count_in_json, integer_in_json, key_in_json, text_in_json};
use crate::laws::answers::one_where;
use crate::laws::lists::lemma_kept_filter;
use crate::manifest::{
    any_lacks_field, daily_manifest, dataset_manifest_needs_refresh, format_years, has_warning,
    has_year, hour_count, input_paths_for_year, is_earliest, is_latest_date, is_listed, is_outdated,
    is_source_manifest, is_station_manifest, lacks_field, manifest_kind, mentions_source,
    normalized_manifest, normalized_manifest_warnings, observation_dates, profile_manifest, role_of,
    source_raw_extension, source_role, years_text,
};
use crate::numeral::{digits, int_text, left_aligned, right_aligned};
use crate::paths::{pieces, station_in, year_in};
use crate::report::{
    check_derived, check_normalized, derived_kind, doctor_lines, flat, input_warnings, is_newer,
    manifest_of_derived, named_kind, status_text, DerivedCheck, NormalizedCheck,
};
use crate::source::{cadence_of, scope_of, slug_of, summary_of, DataSource};
use crate::text::{contains_text, ends_with, starts_with, texts};

verus! {

/// What each source is for, and how its raw files end.
pub proof fn law_sources_have_these_roles(
    source: DataSource,
    role: &'static str,
    extension: &'static str,
)
    requires
        call_ensures(source_role, (source,), role),
        call_ensures(source_raw_extension, (source,), extension),
    ensures
        source is IemAsosOneMinute ==> role@ == "historical-fast-path"@ && extension@ == "csv"@,
        source is NceiAsosFiveMinute ==> role@ == "historical-authoritative"@ && extension@
            == "dat"@,
        source is NwsApi ==> role@ == "current-day-live"@ && extension@ == "json"@,
        source is Ghcnh ==> role@ == "fallback-hourly"@ && extension@ == "psv"@,
{
}

/// The manifest of observations counts them, goes from the first of their dates to the last, counts
/// their sources, and repeats what it was given.
pub proof fn law_manifests_tell_of_the_observations(
    source: DataSource,
    station: &StationId,
    year: i32,
    generated: UtcTime,
    path: &str,
    observations: &Vec<ObservationRecord>,
    inputs: Vec<String>,
    manifest: DatasetManifest,
)
    requires
        call_ensures(
            normalized_manifest,
            (source, station, year, generated, path, observations, inputs),
            manifest,
        ),
    ensures
        manifest.dataset_kind@ == "normalized-observations"@,
        manifest.source == Some(source),
        manifest.station_id@ == station@,
        manifest.year == year,
        manifest.generated_at_utc == generated,
        manifest.artifact_path@ == path@,
        manifest.input_paths == inputs,
        manifest.row_count == observations@.len(),
        manifest.start_date is Some <==> observations@.len() > 0,
        manifest.end_date is Some <==> observations@.len() > 0,
        forall|i: int|
            0 <= i < observations@.len() ==> manifest.start_date->0.not_after(
                (#[trigger] observations@[i]).local_date,
            ) && observations@[i].local_date.not_after(manifest.end_date->0),
        observations@.len() > 0 ==> (exists|i: int|
            0 <= i < observations@.len() && (#[trigger] observations@[i]).local_date
                == manifest.start_date->0) && (exists|i: int|
            0 <= i < observations@.len() && (#[trigger] observations@[i]).local_date
                == manifest.end_date->0),
        manifest.source_count == one_where(
            exists|i: int|
                0 <= i < observations@.len() && (#[trigger] observations@[i]).source
                    == DataSource::IemAsosOneMinute,
        ) + one_where(
            exists|i: int|
                0 <= i < observations@.len() && (#[trigger] observations@[i]).source
                    == DataSource::NceiAsosFiveMinute,
        ) + one_where(
            exists|i: int|
                0 <= i < observations@.len() && (#[trigger] observations@[i]).source
                    == DataSource::NwsApi,
        ) + one_where(
            exists|i: int|
                0 <= i < observations@.len() && (#[trigger] observations@[i]).source
                    == DataSource::Ghcnh,
        ),
{
    let dates = observation_dates(observations@);
    lemma_dates(dates, manifest.start_date, manifest.end_date);
    assert forall|i: int| 0 <= i < observations@.len() implies manifest.start_date->0.not_after(
        (#[trigger] observations@[i]).local_date,
    ) && observations@[i].local_date.not_after(manifest.end_date->0) by {
        assert(dates[i] == observations@[i].local_date);
    }
    if observations@.len() > 0 {
        let i = choose|i: int| 0 <= i < dates.len() && dates[i] == manifest.start_date->0;
        assert(observations@[i].local_date == manifest.start_date->0);
        let k = choose|k: int| 0 <= k < dates.len() && dates[k] == manifest.end_date->0;
        assert(observations@[k].local_date == manifest.end_date->0);
    }
}

proof fn lemma_dates(dates: Seq<Date>, first: Option<Date>, last: Option<Date>)
    requires
        is_earliest(dates, first),
        is_latest_date(dates, last),
    ensures
        first is Some <==> dates.len() > 0,
        last is Some <==> dates.len() > 0,
        forall|i: int|
            0 <= i < dates.len() ==> first->0.not_after(#[trigger] dates[i]) && dates[i].not_after(
                last->0,
            ),
        dates.len() > 0 ==> dates.contains(first->0) && dates.contains(last->0),
{
}

/// A manifest of observations warns of the hourly source where it is of that source, and of missing
/// fields where an observation says that one is missing, and of nothing else.
pub proof fn law_manifests_warn_of_what_is_missing(
    source: DataSource,
    observations: &Vec<ObservationRecord>,
    warnings: Vec<String>,
)
    requires
        call_ensures(normalized_manifest_warnings, (source, observations), warnings),
    ensures
        ({
            let lacking = exists|i: int, k: int|
                0 <= i < observations@.len() && 0 <= k < observations@[i].quality_flags@.len() && (
                #[trigger] observations@[i].quality_flags@[k]) is SourceFieldMissing;
            &&& warnings@.len() == one_where(source is Ghcnh) + one_where(lacking)
            &&& source is Ghcnh ==> warnings@[0]@
                == "hourly fallback cadence; analog and probability methods may be lower confidence"@
            &&& lacking ==> warnings@.last()@
                == "one or more optional normalized fields were limited by source availability or parser coverage"@
        }),
{
    let all = texts(warnings@);
    assert(all.len() == warnings@.len());
    let lacking = exists|i: int, k: int|
        0 <= i < observations@.len() && 0 <= k < observations@[i].quality_flags@.len() && (
        #[trigger] observations@[i].quality_flags@[k]) is SourceFieldMissing;
    if lacking {
        let (i, k) = choose|i: int, k: int|
            0 <= i < observations@.len() && 0 <= k < observations@[i].quality_flags@.len() && (
            #[trigger] observations@[i].quality_flags@[k]) is SourceFieldMissing;
        assert(lacks_field(observations@[i]));
    }
    if any_lacks_field(observations@) {
        let i = choose|i: int| 0 <= i < observations@.len()
            && lacks_field(#[trigger] observations@[i]);
        let k = choose|k: int|
            0 <= k < observations@[i].quality_flags@.len() && (
            #[trigger] observations@[i].quality_flags@[k]) is SourceFieldMissing;
        assert(lacking);
    }
    if source is Ghcnh {
        assert(all[0] == warnings@[0]@);
    }
    if lacking {
        assert(all[all.len() - 1] == warnings@[warnings@.len() - 1]@);
    }
}

/// The manifest of daily summaries counts them, goes from the first of their dates to the last,
/// counts its inputs, and repeats what it was given.
pub proof fn law_manifests_tell_of_the_summaries(
    station: &StationId,
    year: i32,
    generated: UtcTime,
    path: &str,
    summaries: &Vec<DailySummary>,
    inputs: Vec<String>,
    manifest: DatasetManifest,
)
    requires
        call_ensures(daily_manifest, (station, year, generated, path, summaries, inputs), manifest),
    ensures
        manifest.dataset_kind@ == "daily"@,
        manifest.source is None,
        manifest.station_id@ == station@,
        manifest.year == year,
        manifest.generated_at_utc == generated,
        manifest.artifact_path@ == path@,
        manifest.input_paths == inputs,
        manifest.source_count == inputs@.len(),
        manifest.warnings@.len() == 0,
        manifest.row_count == summaries@.len(),
        manifest.start_date is Some <==> summaries@.len() > 0,
        manifest.end_date is Some <==> summaries@.len() > 0,
        forall|i: int|
            0 <= i < summaries@.len() ==> manifest.start_date->0.not_after(
                (#[trigger] summaries@[i]).local_date,
            ) && summaries@[i].local_date.not_after(manifest.end_date->0),
        summaries@.len() > 0 ==> (exists|i: int|
            0 <= i < summaries@.len()
                && (#[trigger] summaries@[i]).local_date == manifest.start_date->0)
            && (exists|i: int|
            0 <= i < summaries@.len()
                && (#[trigger] summaries@[i]).local_date == manifest.end_date->0),
{
    let dates = crate::dataset::summary_dates(summaries@);
    lemma_dates(dates, manifest.start_date, manifest.end_date);
    assert forall|i: int| 0 <= i < summaries@.len() implies manifest.start_date->0.not_after(
        (#[trigger] summaries@[i]).local_date,
    ) && summaries@[i].local_date.not_after(manifest.end_date->0) by {
        assert(dates[i] == summaries@[i].local_date);
    }
    if summaries@.len() > 0 {
        let i = choose|i: int| 0 <= i < dates.len() && dates[i] == manifest.start_date->0;
        assert(summaries@[i].local_date == manifest.start_date->0);
        let k = choose|k: int| 0 <= k < dates.len() && dates[k] == manifest.end_date->0;
        assert(summaries@[k].local_date == manifest.end_date->0);
    }
}

/// The manifest of profiles counts their hours, goes from the first of their dates to the last,
/// counts its inputs, and repeats what it was given.
pub proof fn law_manifests_tell_of_the_profiles(
    station: &StationId,
    year: i32,
    generated: UtcTime,
    path: &str,
    profiles: &Vec<DayProfile>,
    inputs: Vec<String>,
    manifest: DatasetManifest,
)
    requires
        call_ensures(profile_manifest, (station, year, generated, path, profiles, inputs),
            manifest),
        hour_count(profiles@) <= usize::MAX,
    ensures
        manifest.dataset_kind@ == "profiles"@,
        manifest.source is None,
        manifest.station_id@ == station@,
        manifest.year == year,
        manifest.generated_at_utc == generated,
        manifest.artifact_path@ == path@,
        manifest.input_paths == inputs,
        manifest.source_count == inputs@.len(),
        manifest.warnings@.len() == 0,
        (forall|i: int| 0 <= i < profiles@.len() ==> (#[trigger] profiles@[i]).hours@.len() == 24)
            ==> manifest.row_count == 24 * profiles@.len(),
        manifest.start_date is Some <==> profiles@.len() > 0,
        manifest.end_date is Some <==> profiles@.len() > 0,
        forall|i: int|
            0 <= i < profiles@.len() ==> manifest.start_date->0.not_after(
                (#[trigger] profiles@[i]).local_date,
            ) && profiles@[i].local_date.not_after(manifest.end_date->0),
        profiles@.len() > 0 ==> (exists|i: int|
            0 <= i < profiles@.len()
                && (#[trigger] profiles@[i]).local_date == manifest.start_date->0)
            && (exists|i: int|
            0 <= i < profiles@.len()
                && (#[trigger] profiles@[i]).local_date == manifest.end_date->0),
{
    let dates = crate::dataset::profile_dates(profiles@);
    lemma_dates(dates, manifest.start_date, manifest.end_date);
    assert forall|i: int| 0 <= i < profiles@.len() implies manifest.start_date->0.not_after(
        (#[trigger] profiles@[i]).local_date,
    ) && profiles@[i].local_date.not_after(manifest.end_date->0) by {
        assert(dates[i] == profiles@[i].local_date);
    }
    if profiles@.len() > 0 {
        let i = choose|i: int| 0 <= i < dates.len() && dates[i] == manifest.start_date->0;
        assert(profiles@[i].local_date == manifest.start_date->0);
        let k = choose|k: int| 0 <= k < dates.len() && dates[k] == manifest.end_date->0;
        assert(profiles@[k].local_date == manifest.end_date->0);
    }
    lemma_full_hour_count(profiles@);
}

proof fn lemma_full_hour_count(profiles: Seq<DayProfile>)
    ensures
        (forall|i: int| 0 <= i < profiles.len() ==> (#[trigger] profiles[i]).hours@.len() == 24)
            ==> hour_count(profiles) == 24 * profiles.len(),
    decreases profiles.len(),
{
    if profiles.len() > 0 {
        let front = profiles.drop_last();
        lemma_full_hour_count(front);
        if forall|i: int| 0 <= i < profiles.len() ==> (#[trigger] profiles[i]).hours@.len() == 24 {
            assert forall|i: int| 0 <= i < front.len()
                implies (#[trigger] front[i]).hours@.len() == 24 by {
                assert(profiles[i].hours@.len() == 24);
            }
            assert(profiles[profiles.len() - 1].hours@.len() == 24);
        }
    }
}

/// A manifest is told by the start of its name, and the note of the making of the cache by its
/// name.
pub proof fn law_manifests_are_told_by_their_names(name: &str, rest: Seq<char>, kind: &'static str)
    requires
        call_ensures(manifest_kind, (name,), kind),
    ensures
        name@ == "normalized-"@ + rest ==> kind@ == "normalized"@,
        name@ == "derived-"@ + rest ==> kind@ == "derived"@,
        name@ == "fetch-"@ + rest ==> kind@ == "fetch"@,
        name@ == "bootstrap.json"@ ==> kind@ == "bootstrap"@,
        name@.len() > 0 && name@[0] != 'n' && name@[0] != 'd' && name@[0] != 'f' && name@[0] != 'b'
            ==> kind@ == "unknown"@,
{
    reveal_strlit("normalized-");
    reveal_strlit("derived-");
    reveal_strlit("fetch-");
    reveal_strlit("bootstrap.json");
    let s = name@;
    if s == "normalized-"@ + rest {
        assert(s.take(11) =~= "normalized-"@);
    }
    if s == "derived-"@ + rest {
        assert(s.take(8) =~= "derived-"@);
        assert(s[0] == 'd');
    }
    if s == "fetch-"@ + rest {
        assert(s.take(6) =~= "fetch-"@);
        assert(s[0] == 'f');
    }
    if s == "bootstrap.json"@ {
        assert(s[0] == 'b');
    }
    assert(starts_with(s, "normalized-"@) ==> s[0] == 'n') by {
        if starts_with(s, "normalized-"@) {
            assert(s.take(11)[0] == s[0]);
        }
    }
    assert(starts_with(s, "derived-"@) ==> s[0] == 'd') by {
        if starts_with(s, "derived-"@) {
            assert(s.take(8)[0] == s[0]);
        }
    }
    assert(starts_with(s, "fetch-"@) ==> s[0] == 'f') by {
        if starts_with(s, "fetch-"@) {
            assert(s.take(6)[0] == s[0]);
        }
    }
}

/// A manifest of a station is one whose name starts as asked for and holds the code between
/// hyphens.
pub proof fn law_station_manifests_hold_the_code(
    name: &str,
    prefix: &str,
    station: &StationId,
    before: Seq<char>,
    after: Seq<char>,
    is: bool,
)
    requires
        call_ensures(is_station_manifest, (name, prefix, station), is),
        name@ == before + "-"@ + station@ + "-"@ + after,
    ensures
        is <==> starts_with(name@, prefix@),
{
    let mark = "-"@ + station@ + "-"@;
    let at = before.len() as int;
    assert(name@.subrange(at, at + mark.len()) =~= mark);
}

/// The inputs of a year are the raw files that hold the year in their paths, in their order.
pub proof fn law_inputs_of_a_year_hold_the_year(paths: Vec<String>, year: i32, out: Vec<String>)
    requires
        call_ensures(input_paths_for_year, (paths, year), out),
    ensures
        out@ == paths@.filter(|path: String| contains_text(path@, int_text(year as int))),
{
    let y = year as int;
    lemma_kept_filter(
        paths@,
        Seq::new(
            paths@.len(),
            |i: int|
                if contains_text(paths@[i]@, int_text(y)) {
                    Some(paths@[i])
                } else {
                    None
                },
        ),
        |path: String| contains_text(path@, int_text(y)),
    );
    assert((|path: String| contains_text(path@, int_text(y))) =~= (|path: String|
        contains_text(path@, int_text(year as int))));
}

/// One of the manifests is of the year.
pub open spec fn one_is_of_year(manifests: Seq<DatasetManifest>, year: i32) -> bool {
    exists|i: int| 0 <= i < manifests.len() && (#[trigger] manifests[i]).year == year
}

/// One of the manifests warns so.
pub open spec fn one_warns_so(manifests: Seq<DatasetManifest>, text: Seq<char>) -> bool {
    exists|i: int, k: int|
        0 <= i < manifests.len() && 0 <= k < manifests[i].warnings@.len() && (
        #[trigger] manifests[i].warnings@[k])@ == text
}

/// The years and the warnings of manifests: each that one of them has, and no other, the years
/// rising.
pub proof fn law_coverage_is_that_of_the_manifests(
    source: DataSource,
    manifests: &Vec<DatasetManifest>,
    coverage: SourceCoverage,
)
    requires
        call_ensures(source_coverage, (source, manifests), coverage),
    ensures
        coverage.source == source,
        coverage.manifest_count == manifests@.len(),
        forall|i: int|
            0 <= i < manifests@.len() ==> coverage.coverage_years@.contains(
                (#[trigger] manifests@[i]).year,
            ),
        forall|k: int|
            0 <= k < coverage.coverage_years@.len() ==> one_is_of_year(
                manifests@,
                #[trigger] coverage.coverage_years@[k],
            ),
        forall|k: int, l: int|
            0 <= k < l < coverage.coverage_years@.len() ==> #[trigger] coverage.coverage_years@[k]
                < #[trigger] coverage.coverage_years@[l],
        forall|i: int, k: int|
            0 <= i < manifests@.len() && 0 <= k < manifests@[i].warnings@.len() ==> texts(
                coverage.warnings@,
            ).contains((#[trigger] manifests@[i].warnings@[k])@),
        forall|l: int|
            0 <= l < coverage.warnings@.len() ==> one_warns_so(
                manifests@,
                (#[trigger] coverage.warnings@[l])@,
            ),
{
    let years = coverage.coverage_years@;
    assert forall|i: int| 0 <= i < manifests@.len() implies years.contains(
        (#[trigger] manifests@[i]).year,
    ) by {
        assert(has_year(manifests@, manifests@[i].year));
    }
    assert forall|k: int| 0 <= k < years.len() implies one_is_of_year(
        manifests@,
        #[trigger] years[k],
    ) by {
        assert(years.contains(years[k]));
        assert(has_year(manifests@, years[k]));
    }
    let warnings = texts(coverage.warnings@);
    assert forall|i: int, k: int|
        0 <= i < manifests@.len() && 0 <= k < manifests@[i].warnings@.len()
            implies warnings.contains(
        (#[trigger] manifests@[i].warnings@[k])@,
    ) by {
        assert(has_warning(manifests@, manifests@[i].warnings@[k]@));
    }
    assert forall|l: int| 0 <= l < coverage.warnings@.len() implies one_warns_so(
        manifests@,
        (#[trigger] coverage.warnings@[l])@,
    ) by {
        assert(warnings[l] == coverage.warnings@[l]@);
        assert(warnings.contains(warnings[l]));
        assert(has_warning(manifests@, warnings[l]));
    }
}

/// The line of a source names it and its counts behind their names, and each warning has a line.
pub proof fn law_source_lines_say_what_the_cache_holds(report: &SourceReport, lines: Vec<String>,
    k: int)
    requires
        call_ensures(source_lines, (report,), lines),
        0 <= k < report.warnings@.len(),
    ensures
        lines@.len() == 1 + report.warnings@.len(),
        starts_with(lines@[0]@, slug_of(report.source)),
        contains_text(lines@[0]@, "  role="@ + left_aligned(role_of(report.source), 20)),
        contains_text(lines@[0]@, " cadence="@ + left_aligned(cadence_of(report.source), 12)),
        contains_text(lines@[0]@, " scope="@ + left_aligned(scope_of(report.source), 18)),
        contains_text(lines@[0]@, " years="@ + years_text(report.coverage_years@)),
        ends_with(lines@[0]@, summary_of(report.source)),
        contains_text(lines@[0]@, " raw="@ + right_aligned(digits(report.raw_files as nat), 4)),
        contains_text(
            lines@[0]@,
            " normalized="@ + right_aligned(digits(report.normalized_files as nat), 4),
        ),
        contains_text(
            lines@[0]@,
            " manifests="@ + right_aligned(digits(report.manifest_files as nat), 4),
        ),
        lines@[k + 1]@ == "  warning: "@ + report.warnings@[k]@,
{
    let all = texts(lines@);
    assert(all.len() == lines@.len());
    assert(all[0] == lines@[0]@);
    assert(all[k + 1] == lines@[k + 1]@);
    lemma_source_line(*report);
}

proof fn lemma_source_line(report: SourceReport)
    ensures
        ({
            let line = source_text(report)[0];
            &&& starts_with(line, slug_of(report.source))
            &&& contains_text(line, "  role="@ + left_aligned(role_of(report.source), 20))
            &&& contains_text(line, " cadence="@ + left_aligned(cadence_of(report.source), 12))
            &&& contains_text(line, " scope="@ + left_aligned(scope_of(report.source), 18))
            &&& contains_text(line, " years="@ + years_text(report.coverage_years@))
            &&& ends_with(line, summary_of(report.source))
            &&& contains_text(line, " raw="@ + count_text(report.raw_files as nat))
            &&& contains_text(line, " normalized="@ + count_text(report.normalized_files as nat))
            &&& contains_text(line, " manifests="@ + count_text(report.manifest_files as nat))
        }),
{
    let line = source_text(report)[0];
    let slug = left_aligned(slug_of(report.source), 16);
    lemma_in_columns(
        slug,
        "  role="@,
        left_aligned(role_of(report.source), 20),
        " cadence="@,
        left_aligned(cadence_of(report.source), 12),
        " scope="@,
        left_aligned(scope_of(report.source), 18),
        " raw="@,
        count_text(report.raw_files as nat),
        " normalized="@,
        count_text(report.normalized_files as nat),
        " manifests="@,
        count_text(report.manifest_files as nat),
        " years="@,
        years_text(report.coverage_years@),
        " "@,
        summary_of(report.source),
    );
    let name = slug_of(report.source);
    assert(slug.take(name.len() as int) =~= name);
    assert(line.take(name.len() as int) =~= line.take(slug.len() as int).take(name.len() as int));
}

/// Columns one behind the other hold each pair of a label and a value.
proof fn lemma_in_columns(
    p0: Seq<char>,
    p1: Seq<char>,
    p2: Seq<char>,
    p3: Seq<char>,
    p4: Seq<char>,
    p5: Seq<char>,
    p6: Seq<char>,
    p7: Seq<char>,
    p8: Seq<char>,
    p9: Seq<char>,
    p10: Seq<char>,
    p11: Seq<char>,
    p12: Seq<char>,
    p13: Seq<char>,
    p14: Seq<char>,
    p15: Seq<char>,
    p16: Seq<char>,
)
    ensures
        ({
            let all = p0 + p1 + p2 + p3 + p4 + p5 + p6 + p7 + p8 + p9 + p10 + p11 + p12 + p13 + p14
                + p15 + p16;
            &&& p0.len() <= all.len()
            &&& all.take(p0.len() as int) == p0
            &&& contains_text(all, p1 + p2)
            &&& contains_text(all, p3 + p4)
            &&& contains_text(all, p5 + p6)
            &&& contains_text(all, p13 + p14)
            &&& ends_with(all, p16)
            &&& contains_text(all, p7 + p8)
            &&& contains_text(all, p9 + p10)
            &&& contains_text(all, p11 + p12)
        }),
{
    let all = p0 + p1 + p2 + p3 + p4 + p5 + p6 + p7 + p8 + p9 + p10 + p11 + p12 + p13 + p14 + p15
        + p16;
    let q1 = p1 + p2;
    let q2 = p3 + p4;
    let q3 = p5 + p6;
    let q4 = p7 + p8;
    let q5 = p9 + p10;
    let q6 = p11 + p12;
    let q7 = p13 + p14;
    let n1 = p0.len() as int;
    let n2 = n1 + q1.len();
    let n3 = n2 + q2.len();
    let n4 = n3 + q3.len();
    let n5 = n4 + q4.len();
    let n6 = n5 + q5.len();
    let n7 = n6 + q6.len();
    assert(all.take(n1) =~= p0);
    assert(all.subrange(n1, n1 + q1.len()) =~= q1);
    assert(all.subrange(n2, n2 + q2.len()) =~= q2);
    assert(all.subrange(n3, n3 + q3.len()) =~= q3);
    assert(all.subrange(n4, n4 + q4.len()) =~= q4);
    assert(all.subrange(n5, n5 + q5.len()) =~= q5);
    assert(all.subrange(n6, n6 + q6.len()) =~= q6);
    assert(all.subrange(n7, n7 + q7.len()) =~= q7);
    assert(all.skip(all.len() - p16.len()) =~= p16);
}

proof fn lemma_holds_piece(before: Seq<char>, piece: Seq<char>, after: Seq<char>)
    ensures
        contains_text(before + piece + after, piece),
{
    let all = before + piece + after;
    let at = before.len() as int;
    assert(all.subrange(at, at + piece.len()) =~= piece);
}

/// The lines of a station: what is known of it, and the counts of its files, each behind its name,
/// then a line for each source.
pub proof fn law_station_lines_say_what_is_known(report: &StationReport, lines: Vec<String>, k: int)
    requires
        call_ensures(station_lines, (report,), lines),
        0 <= k < report.coverage@.len(),
    ensures
        ({
            let all = texts(lines@);
            let n = 5 + one_where(report.elevation_m is Some) as int;
            let m = n + 11 + one_where(report.freshness_note is Some) as int;
            &&& all.len() == m + report.coverage@.len()
            &&& all[0] == "station: "@ + report.station@
            &&& all[1] == "source station id: "@ + report.source_station_id@
            &&& all[2] == "name: "@ + report.name@
            &&& all[3] == "timezone: "@ + report.timezone@
            &&& all[4] == "location: "@ + report.latitude@ + ", "@ + report.longitude@
            &&& report.elevation_m is Some ==> all[5] == "elevation_m: "@ + report.elevation_m->0@
            &&& report.provider is Some ==> all[n] == "provider: "@ + report.provider->0@
            &&& report.provider is None ==> all[n] == "provider: "@ + "unknown"@
            &&& all[n + 1] == "station cache: "@ + report.station_cache@
            &&& all[n + 2] == "iem raw files: "@ + digits(report.iem_raw_files as nat)
            &&& all[n + 3] == "iem normalized files: "@ + digits(report.iem_normalized_files as nat)
            &&& all[n + 4] == "nws normalized files: "@ + digits(report.nws_normalized_files as nat)
            &&& all[n + 5]
                == "ncei normalized files: "@ + digits(report.ncei_normalized_files as nat)
            &&& all[n + 6]
                == "ghcnh normalized files: "@ + digits(report.ghcnh_normalized_files as nat)
            &&& all[n + 7] == "daily years built: "@ + digits(report.daily_years as nat)
            &&& all[n + 8] == "profile years built: "@ + digits(report.profile_years as nat)
            &&& all[n + 9] == "normalized manifests: "@ + digits(report.normalized_manifests as nat)
            &&& all[n + 10] == "derived manifests: "@ + digits(report.derived_manifests as nat)
            &&& report.freshness_note is Some ==> all[n + 11] == "current-day status: "@
                + report.freshness_note->0@
            &&& all[m + k] == slug_of(report.coverage@[k].source) + ": years="@ + years_text(
                report.coverage@[k].coverage_years@,
            ) + " warnings="@ + digits(report.coverage@[k].warnings@.len())
        }),
{
    let all = texts(lines@);
    let head = station_head(*report);
    let tail = Seq::new(
        report.coverage@.len(),
        |i: int| coverage_text(report.coverage@[i]),
    );
    assert(all =~= head + tail);
    lemma_station_head(*report);
    let m = head.len() as int;
    assert(all[m + k] == tail[k]);
    assert forall|i: int| 0 <= i < m implies #[trigger] all[i] == head[i] by {}
}

proof fn lemma_station_head(report: StationReport)
    ensures
        ({
            let all = station_head(report);
            let n = 5 + one_where(report.elevation_m is Some) as int;
            &&& all.len() == n + 11 + one_where(report.freshness_note is Some)
            &&& all[0] == "station: "@ + report.station@
            &&& all[1] == "source station id: "@ + report.source_station_id@
            &&& all[2] == "name: "@ + report.name@
            &&& all[3] == "timezone: "@ + report.timezone@
            &&& all[4] == "location: "@ + report.latitude@ + ", "@ + report.longitude@
            &&& report.elevation_m is Some ==> all[5] == "elevation_m: "@ + report.elevation_m->0@
            &&& report.provider is Some ==> all[n] == "provider: "@ + report.provider->0@
            &&& report.provider is None ==> all[n] == "provider: "@ + "unknown"@
            &&& all[n + 1] == "station cache: "@ + report.station_cache@
            &&& all[n + 2] == "iem raw files: "@ + digits(report.iem_raw_files as nat)
            &&& all[n + 3] == "iem normalized files: "@ + digits(report.iem_normalized_files as nat)
            &&& all[n + 4] == "nws normalized files: "@ + digits(report.nws_normalized_files as nat)
            &&& all[n + 5]
                == "ncei normalized files: "@ + digits(report.ncei_normalized_files as nat)
            &&& all[n + 6]
                == "ghcnh normalized files: "@ + digits(report.ghcnh_normalized_files as nat)
            &&& all[n + 7] == "daily years built: "@ + digits(report.daily_years as nat)
            &&& all[n + 8] == "profile years built: "@ + digits(report.profile_years as nat)
            &&& all[n + 9] == "normalized manifests: "@ + digits(report.normalized_manifests as nat)
            &&& all[n + 10] == "derived manifests: "@ + digits(report.derived_manifests as nat)
            &&& report.freshness_note is Some ==> all[n + 11] == "current-day status: "@
                + report.freshness_note->0@
        }),
{
}

/// The line of a manifest has its kind first, then what is known of it, and its path last.
pub proof fn law_manifest_lines_end_in_the_path(
    name: &str,
    path: &str,
    facts: &Option<ManifestFacts>,
    line: String,
)
    requires
        call_ensures(manifest_line, (name, path, facts), line),
    ensures
        ends_with(line@, " path="@ + path@),
        facts is Some ==> ends_with(
            line@,
            " year="@ + int_text(facts->0.year as int) + " rows="@ + digits(
                facts->0.row_count as nat,
            ) + " path="@ + path@,
        ),
        facts is Some && facts->0.station_id is Some ==> contains_text(
            line@,
            " station="@ + facts->0.station_id->0@ + " year="@,
        ),
{
    let kind = left_aligned(crate::manifest::kind_named(name@), 18);
    let end = " path="@ + path@;
    match facts {
        Some(found) => {
            let station = match opt_text(found.station_id) {
                Some(station) => station,
                None => "-"@,
            };
            let before = kind + " station="@ + station;
            let tail = " year="@ + int_text(found.year as int) + " rows="@ + digits(
                found.row_count as nat,
            ) + " path="@ + path@;
            assert(line@ =~= before + tail);
            assert(line@.skip(line@.len() - tail.len()) =~= tail);
            assert(line@.skip(line@.len() - end.len()) =~= end);
            if found.station_id is Some {
                let mark = " station="@ + found.station_id->0@ + " year="@;
                let at = kind.len() as int;
                assert(line@.subrange(at, at + mark.len()) =~= mark);
            }
        },
        None => {
            assert(line@ =~= kind + end);
            assert(line@.skip(line@.len() - end.len()) =~= end);
        },
    }
}

/// A path is asked for where it says the station and the year that are asked for.
pub proof fn law_paths_are_asked_for_by_station_and_year(
    path: &str,
    station: Option<&StationId>,
    year: Option<i32>,
    matches: bool,
)
    requires
        call_ensures(artifact_matches, (path, station, year), matches),
    ensures
        station is None && year is None ==> matches,
        matches && station is Some ==> station_in(pieces(path@)) == Some(station->0@),
        matches && year is Some ==> year_in(pieces(path@)) == Some(year->0 as int),
        (station is Some ==> station_in(pieces(path@)) == Some(station->0@)) && (year is Some
            ==> year_in(pieces(path@)) == Some(year->0 as int)) ==> matches,
{
}

/// The lines of the data files: each file of observations behind the name of its source, each of
/// derived data behind its kind, and commands that show the first.
pub proof fn law_data_files_are_listed(
    normalized: &Vec<NormalizedFile>,
    derived: &Vec<String>,
    lines: Vec<String>,
    i: int,
)
    requires
        call_ensures(duckdb_lines, (normalized, derived), lines),
    ensures
        ({
            let all = texts(lines@);
            let n = normalized@.len() as int;
            let m = derived@.len() as int;
            &&& all.len() == 2 + n + m + (if n > 0 { 2int } else { 0int })
            &&& all[0] == "normalized:"@
            &&& 0 <= i < n ==> all[1 + i] == slug_of(normalized@[i].source) + "  "@
                + normalized@[i].path@
            &&& all[1 + n] == "derived:"@
            &&& 0 <= i < m ==> ends_with(all[2 + n + i], "  "@ + derived@[i]@)
            &&& n > 0
                ==> contains_text(all[2 + n + m], "select * from '"@ + normalized@[0].path@ + "'"@)
        }),
{
    let all = texts(lines@);
    let n = normalized@.len() as int;
    let m = derived@.len() as int;
    let first = Seq::new(
        normalized@.len(),
        |i: int| slug_of(normalized@[i].source) + "  "@ + normalized@[i].path@,
    );
    let second = Seq::new(
        derived@.len(),
        |i: int| crate::report::kind_of_derived(derived@[i]@) + "  "@ + derived@[i]@,
    );
    let last = crate::inspect::example_texts(normalized@);
    assert(all =~= seq!["normalized:"@] + first + seq!["derived:"@] + second + last);
    assert(all[0] == "normalized:"@);
    assert(all[1 + n] == "derived:"@);
    if 0 <= i < n {
        assert(all[1 + i] == first[i]);
    }
    if 0 <= i < m {
        assert(all[2 + n + i] == second[i]);
        let end = "  "@ + derived@[i]@;
        assert(second[i].skip(second[i].len() - end.len()) =~= end);
    }
    if n > 0 {
        assert(all[2 + n + m] == last[0]);
        reveal_strlit("duckdb -c \"select * from '");
        reveal_strlit("select * from '");
        reveal_strlit("'");
        reveal_strlit("' limit 5\"");
        let piece = "select * from '"@ + normalized@[0].path@ + "'"@;
        let whole = last[0];
        assert(whole.subrange(11, 11 + piece.len() as int) =~= piece);
    }
}

/// Derived data are daily summaries in a directory of that name.
pub proof fn law_derived_data_are_told_by_their_directory(
    path: &str,
    before: Seq<char>,
    after: Seq<char>,
    kind: &'static str,
    named: Option<&'static str>,
)
    requires
        call_ensures(derived_kind, (path,), kind),
        call_ensures(named_kind, (path,), named),
    ensures
        path@ == before + "/daily/"@ + after ==> kind@ == "daily"@ && named is Some && named->0@
            == "daily"@,
        path@ == before + "/profiles/"@ + after && !contains_text(path@, "/daily/"@) ==> kind@
            == "profiles"@ && named is Some && named->0@ == "profiles"@,
{
    if path@ == before + "/daily/"@ + after {
        lemma_holds_piece(before, "/daily/"@, after);
    }
    if path@ == before + "/profiles/"@ + after {
        lemma_holds_piece(before, "/profiles/"@, after);
    }
}

/// What a download prints tells of the window, the file and its size.
pub proof fn law_downloads_are_told(
    station: &StationId,
    source: DataSource,
    start: Date,
    end: Date,
    path: &str,
    bytes: usize,
    reused: bool,
    lines: Vec<String>,
)
    requires
        call_ensures(
            fetch_station_lines,
            (station, source, start, end, path, bytes, reused),
            lines,
        ),
    ensures
        lines@.len() == 6,
        lines@[0]@ == "station: "@ + station@,
        lines@[1]@ == "source: "@ + slug_of(source),
        lines@[2]@ == "window: "@ + start.text() + " -> "@ + end.text(),
        lines@[3]@ == "raw path: "@ + path@,
        lines@[4]@ == "bytes: "@ + digits(bytes as nat),
        reused ==> lines@[5]@ == "cache: "@ + "reused"@,
        !reused ==> lines@[5]@ == "cache: "@ + "downloaded"@,
{
    let all = texts(lines@);
    assert(all.len() == lines@.len());
    assert(all[0] == lines@[0]@ && all[1] == lines@[1]@ && all[2] == lines@[2]@ && all[3]
        == lines@[3]@ && all[4] == lines@[4]@ && all[5] == lines@[5]@);
}

/// The examination of the cache tells of each directory, in their order, and of the note of its
/// making, whether it is there.
pub proof fn law_each_directory_is_examined(
    layout: &CacheLayout,
    there: &Vec<bool>,
    bootstrap: bool,
    normalized: &Vec<NormalizedCheck>,
    derived: &Vec<DerivedCheck>,
    lines: Vec<String>,
)
    requires
        there@.len() == 6,
        call_ensures(doctor_lines, (layout, there, bootstrap, normalized, derived), lines),
    ensures
        ({
            let all = texts(lines@);
            &&& all.len() >= 8
            &&& all[0] == "cache root: "@ + layout.root@
            &&& is_status(all[1], there@[0], layout.root@)
            &&& is_status(all[2], there@[1], layout.sources_dir@)
            &&& is_status(all[3], there@[2], layout.stations_dir@)
            &&& is_status(all[4], there@[3], layout.derived_dir@)
            &&& is_status(all[5], there@[4], layout.manifests_dir@)
            &&& is_status(all[6], there@[5], layout.logs_dir@)
            &&& is_status(
                all[7],
                bootstrap,
                crate::paths::path_join(layout.manifests_dir@, "bootstrap.json"@),
            )
        }),
{
    lemma_status(there@[0], layout.root@);
    lemma_status(there@[1], layout.sources_dir@);
    lemma_status(there@[2], layout.stations_dir@);
    lemma_status(there@[3], layout.derived_dir@);
    lemma_status(there@[4], layout.manifests_dir@);
    lemma_status(there@[5], layout.logs_dir@);
    lemma_status(bootstrap, crate::paths::path_join(layout.manifests_dir@, "bootstrap.json"@));
}

/// The line says of the path whether it is there.
pub open spec fn is_status(line: Seq<char>, there: bool, path: Seq<char>) -> bool {
    &&& there ==> ends_with(line, " ok  "@ + path)
    &&& !there ==> ends_with(line, " missing  "@ + path)
}

proof fn lemma_status(there: bool, path: Seq<char>)
    ensures
        is_status(status_text(there, path), there, path),
{
    reveal_strlit("ok");
    reveal_strlit("missing");
    reveal_strlit("  ");
    reveal_strlit(" ok  ");
    reveal_strlit(" missing  ");
    let line = status_text(there, path);
    let end = if there {
        " ok  "@ + path
    } else {
        " missing  "@ + path
    };
    assert(line.skip(line.len() - end.len()) =~= end);
}

/// A file of observations whose manifest is missing is told, and no other.
pub proof fn law_missing_manifests_of_observations_are_told(
    layout: &CacheLayout,
    check: &NormalizedCheck,
    source: DataSource,
    station: Seq<char>,
    year: int,
    lines: Vec<String>,
)
    requires
        call_ensures(check_normalized, (layout, check), lines),
        check.path@ == layout.normalized_file(source, station, year),
        crate::domain::station_code(station) == station,
        crate::text::slashless(station),
        i32::MIN <= year <= i32::MAX,
    ensures
        check.manifest_exists ==> lines@.len() == 0,
        !check.manifest_exists ==> lines@.len() == 1 && ends_with(lines@[0]@, check.path@),
{
    crate::cache::law_normalized_path_reads_back(*layout, source, station, year);
    let all = texts(lines@);
    assert(all.len() == lines@.len());
    if !check.manifest_exists {
        assert(all[0] == lines@[0]@);
        let line = all[0];
        assert(line.skip(line.len() - check.path@.len()) =~= check.path@);
    }
}

/// A file of derived data whose manifest is missing is told, and one whose manifest is older than
/// an input, or than the manifest of an input; where neither holds nothing is told.
pub proof fn law_outdated_manifests_of_derived_data_are_told(
    layout: &CacheLayout,
    check: &DerivedCheck,
    kind: Seq<char>,
    station: Seq<char>,
    year: int,
    lines: Vec<String>,
)
    requires
        call_ensures(check_derived, (layout, check), lines),
        kind == "daily"@ || kind == "profiles"@,
        check.path@ == layout.derived_file(kind, station, year),
        crate::domain::station_code(station) == station,
        crate::text::slashless(station),
        i32::MIN <= year <= i32::MAX,
    ensures
        check.manifest is None ==> lines@.len() == 1 && ends_with(lines@[0]@, check.path@),
        check.manifest is Some ==> {
            let found = check.manifest->0;
            &&& (exists|i: int|
                0 <= i < found.inputs@.len() && (#[trigger] found.inputs@[i]).modified is Some
                    && found.modified is Some && found.inputs@[i].modified->0 > found.modified->0)
                ==> lines@.len() > 0
            &&& (forall|i: int|
                0 <= i < found.inputs@.len() ==> {
                    let input = #[trigger] found.inputs@[i];
                    found.modified is None || {
                        &&& input.modified is None || input.modified->0 <= found.modified->0
                        &&& input.manifest_modified is None || input.manifest_modified->0
                            <= found.modified->0
                    }
                }) ==> lines@.len() == 0
        },
{
    crate::cache::law_derived_path_reads_back(*layout, kind, station, year);
    let all = texts(lines@);
    assert(all.len() == lines@.len());
    let manifest = manifest_of_derived(*layout, check.path@)->0;
    match check.manifest {
        None => {
            assert(all[0] == lines@[0]@);
            let line = all[0];
            assert(line.skip(line.len() - check.path@.len()) =~= check.path@);
        },
        Some(found) => {
            let parts = Seq::new(
                found.inputs@.len(),
                |i: int| input_warnings(*layout, manifest, found.modified, found.inputs@[i]),
            );
            assert(all == flat(parts));
            if exists|i: int|
                0 <= i < found.inputs@.len() && (#[trigger] found.inputs@[i]).modified is Some
                    && found.modified is Some && found.inputs@[i].modified->0 > found.modified->0 {
                let i = choose|i: int|
                    0 <= i < found.inputs@.len() && (#[trigger] found.inputs@[i]).modified is Some
                        && found.modified is Some
                            && found.inputs@[i].modified->0 > found.modified->0;
                assert(parts[i].len() > 0);
                lemma_flat_len(parts, i);
            }
            if forall|i: int|
                0 <= i < found.inputs@.len() ==> {
                    let input = #[trigger] found.inputs@[i];
                    found.modified is None || {
                        &&& input.modified is None || input.modified->0 <= found.modified->0
                        &&& input.manifest_modified is None || input.manifest_modified->0
                            <= found.modified->0
                    }
                } {
                assert forall|i: int| 0 <= i < parts.len()
                    implies (#[trigger] parts[i]).len() == 0 by {
                    let input = found.inputs@[i];
                    assert(!is_newer(input.modified, found.modified));
                    assert(!is_newer(input.manifest_modified, found.modified));
                }
                lemma_flat_empty(parts);
            }
        },
    }
}

proof fn lemma_flat_len(parts: Seq<Seq<Seq<char>>>, i: int)
    requires
        0 <= i < parts.len(),
    ensures
        flat(parts).len() >= parts[i].len(),
    decreases parts.len(),
{
    if i < parts.len() - 1 {
        lemma_flat_len(parts.drop_last(), i);
    }
}

proof fn lemma_flat_empty(parts: Seq<Seq<Seq<char>>>)
    requires
        forall|i: int| 0 <= i < parts.len() ==> (#[trigger] parts[i]).len() == 0,
    ensures
        flat(parts).len() == 0,
    decreases parts.len(),
{
    if parts.len() > 0 {
        let front = parts.drop_last();
        assert forall|i: int| 0 <= i < front.len() implies (#[trigger] front[i]).len() == 0 by {
            assert(parts[i].len() == 0);
        }
        lemma_flat_empty(front);
        assert(parts[parts.len() - 1].len() == 0);
    }
}

/// A manifest has to be written anew unless it has both its warnings and its count of sources.
pub proof fn law_old_manifests_are_written_anew(
    body: &[u8],
    due: Option<bool>,
    has_warnings: bool,
    has_source_count: bool,
    outdated: bool,
)
    requires
        call_ensures(dataset_manifest_needs_refresh, (body,), due),
        call_ensures(is_outdated, (has_warnings, has_source_count), outdated),
    ensures
        !outdated <==> has_warnings && has_source_count,
        due is Some <==> key_in_json(body@, "warnings"@) is Some && key_in_json(
            body@,
            "source_count"@,
        ) is Some,
        due == Some(false) <==> key_in_json(body@, "warnings"@) == Some(true) && key_in_json(
            body@,
            "source_count"@,
        ) == Some(true),
{
}

/// A manifest of a source is one whose name starts with that of its kind and the short name of the
/// source.
pub proof fn law_source_manifests_start_with_the_source(
    name: &str,
    source: DataSource,
    rest: Seq<char>,
    is: bool,
    mentions: bool,
)
    requires
        call_ensures(is_source_manifest, (name, source), is),
        call_ensures(mentions_source, (name, source), mentions),
    ensures
        is <==> starts_with(name@, "normalized-"@ + slug_of(source) + "-"@),
        name@ == "normalized-"@ + slug_of(source) + "-"@ + rest ==> is && mentions,
{
    let start = "normalized-"@ + slug_of(source) + "-"@;
    if name@ == start + rest {
        assert(name@.take(start.len() as int) =~= start);
        lemma_holds_piece(Seq::empty(), start, rest);
        assert(name@ =~= Seq::<char>::empty() + start + rest);
    }
}

/// Without a station every manifest is listed, and with one those whose names hold its code.
pub proof fn law_manifests_are_listed_by_station(
    name: &str,
    station: &StationId,
    before: Seq<char>,
    after: Seq<char>,
    always: bool,
    listed: bool,
    nameless: bool,
)
    requires
        call_ensures(is_listed, (Some(name), None::<&StationId>), always),
        call_ensures(is_listed, (Some(name), Some(station)), listed),
        call_ensures(is_listed, (None::<&str>, Some(station)), nameless),
    ensures
        always,
        listed <==> contains_text(name@, station@),
        name@ == before + station@ + after ==> listed,
        !nameless,
{
    if name@ == before + station@ + after {
        lemma_holds_piece(before, station@, after);
    }
}

/// What a manifest says is under the names of its station, its year and its rows, a number that is
/// not there being nought.
pub proof fn law_facts_are_those_of_the_manifest(body: &[u8], facts: Option<ManifestFacts>)
    requires
        call_ensures(manifest_facts, (body,), facts),
    ensures
        facts is Some <==> text_in_json(body@, "station_id"@) is Some && integer_in_json(
            body@,
            "year"@,
        ) is Some && count_in_json(body@, "row_count"@) is Some,
        facts is Some ==> {
            let year = integer_in_json(body@, "year"@)->0;
            let rows = count_in_json(body@, "row_count"@)->0;
            &&& opt_text(facts->0.station_id) == text_in_json(body@, "station_id"@)->0
            &&& year is Some ==> facts->0.year == year->0
            &&& year is None ==> facts->0.year == 0
            &&& rows is Some ==> facts->0.row_count == rows->0
            &&& rows is None ==> facts->0.row_count == 0
        },
{
}

/// What a download of the current observation, and a normalization, print.
pub proof fn law_current_observations_are_told(
    layout: &CacheLayout,
    station: &StationId,
    source: DataSource,
    raw_path: &str,
    normalized_path: &str,
    added: usize,
    total: usize,
    lines: Vec<String>,
    others: Vec<String>,
    root: String,
)
    requires
        call_ensures(fetch_current_lines, (station, raw_path, normalized_path, added), lines),
        call_ensures(normalize_lines, (layout, station, source, total), others),
        call_ensures(CacheLayout::normalized_station_root, (layout, source, station), root),
    ensures
        lines@.len() == 5,
        lines@[0]@ == "station: "@ + station@,
        lines@[1]@ == "source: "@ + "nws-api"@,
        lines@[2]@ == "raw path: "@ + raw_path@,
        lines@[3]@ == "normalized path: "@ + normalized_path@,
        lines@[4]@ == "observations added: "@ + digits(added as nat),
        others@.len() == 4,
        others@[0]@ == "station: "@ + station@,
        others@[1]@ == "source: "@ + slug_of(source),
        others@[2]@ == "normalized observations: "@ + digits(total as nat),
        others@[3]@ == "normalized root: "@ + root@,
{
    let all = texts(lines@);
    assert(all.len() == lines@.len());
    assert(all[0] == lines@[0]@ && all[1] == lines@[1]@ && all[2] == lines@[2]@ && all[3]
        == lines@[3]@ && all[4] == lines@[4]@);
    let more = texts(others@);
    assert(more.len() == others@.len());
    assert(more[0] == others@[0]@ && more[1] == others@[1]@ && more[2] == others@[2]@ && more[3]
        == others@[3]@);
}

/// No years are a hyphen, and one year is its numeral.
pub proof fn law_years_are_written_with_commas(years: &Vec<i32>, text: String)
    requires
        call_ensures(format_years, (years,), text),
    ensures
        years@.len() == 0 ==> text@ == "-"@,
        years@.len() == 1 ==> text@ == int_text(years@[0] as int),
        years@.len() == 2
            ==> text@ == int_text(years@[0] as int) + ","@ + int_text(years@[1] as int),
{
    let all = Seq::new(years@.len(), |i: int| int_text(years@[i] as int));
    if years@.len() == 2 {
        reveal_with_fuel(crate::numeral::joined, 3);
        assert(all.drop_last().len() == 1);
        assert(all.drop_last()[0] == int_text(years@[0] as int));
    }
}

} // verus!
