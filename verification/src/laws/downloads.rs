//! Downloads: which addresses are asked, in which order, and which questions are refused.
use vstd::prelude::*;
use crate::calendar::{two_digits, year_text, Date};
use crate::cli::{backfills, log_filter, Command};
use crate::domain::{iem_code, Failure, StationId};
use crate::fetch::{
    check_window, current_refusal, historical_refusal, is_rebuilt_today, is_reused, month_urls,
    next_iem_url, source_step, year_urls, IemProgress, SourceStep,
};
use crate::ghcnh::{ghcnh_station_id, ghcnh_url, mapped_station, row_names, GhcnhStationListRow};
use crate::iem::iem_url;
use crate::ncei::{months_between, ncei_url};
use crate::numeral::int_text;
use crate::probability::target_date_or_today;
use crate::source::DataSource;
use crate::text::{contains_text, ends_with, replaced, starts_with, texts};

verus! {

/// A window is refused exactly where it ends before it starts.
pub proof fn law_windows_that_end_before_they_start_are_refused(
    start: Date,
    end: Date,
    out: Result<(), Failure>,
)
    requires
        call_ensures(check_window, (start, end), out),
    ensures
        out is Err <==> end.y() < start.y() || end.y() == start.y() && (end.m() < start.m()
            || end.m() == start.m() && end.d() < start.d()),
{
}

/// A raw file that is there is used again, unless a refresh is asked for.
pub proof fn law_raw_files_are_used_again(is_there: bool, refresh: bool, reused: bool)
    requires
        call_ensures(is_reused, (is_there, refresh), reused),
    ensures
        refresh ==> !reused,
        !is_there ==> !reused,
        is_there && !refresh ==> reused,
{
}

/// The live service alone has current observations, and it alone has no windows of days.
pub proof fn law_only_the_live_service_is_current(
    source: DataSource,
    historical: Option<&'static str>,
    current: Option<&'static str>,
)
    requires
        call_ensures(historical_refusal, (source,), historical),
        call_ensures(current_refusal, (source,), current),
    ensures
        historical is Some <==> source is NwsApi,
        current is None <==> source is NwsApi,
{
}

/// At the one-minute archive the optional values are asked for first, and once more without them
/// where the status 422 was answered; whatever is answered then, nothing more is asked.
pub proof fn law_the_one_minute_archive_is_asked_again_without_optional_values(
    station: &StationId,
    timezone: &str,
    start: Date,
    end: Date,
    first: u16,
    second: u16,
    after_first: IemProgress,
    after_second: IemProgress,
    one: Option<String>,
    two: Option<String>,
    three: Option<String>,
)
    requires
        call_ensures(next_iem_url, (station, timezone, start, end, IemProgress::NotAsked), one),
        call_ensures(IemProgress::answered, (IemProgress::NotAsked, first), after_first),
        call_ensures(next_iem_url, (station, timezone, start, end, after_first), two),
        call_ensures(IemProgress::answered, (after_first, second), after_second),
        call_ensures(next_iem_url, (station, timezone, start, end, after_second), three),
    ensures
        one is Some,
        contains_text(one->0@, "&vars=p01i&vars=vsby&vars=skyc1"@),
        two is Some <==> first == 422,
        two is Some ==> two->0@ == iem_url(station@, timezone@, start, end, false),
        three is None,
{
    law_one_minute_addresses_say_what_is_asked(station@, timezone@, start, end, true);
}

/// The address of a window at the one-minute archive says the station, from the start of the first
/// day to the end of the last, and the zone.
pub proof fn law_one_minute_addresses_say_what_is_asked(
    station: Seq<char>,
    timezone: Seq<char>,
    start: Date,
    end: Date,
    with_optional: bool,
)
    ensures
        ({
            let url = iem_url(station, timezone, start, end, with_optional);
            &&& starts_with(
                url,
                "https://mesonet.agron.iastate.edu/cgi-bin/request/asos1min.py?station="@ + iem_code(
                    station,
                ) + "&vars=tmpf&vars=dwpf&vars=drct&vars=sknt&vars=pres1"@,
            )
            &&& with_optional ==> contains_text(url, "&vars=p01i&vars=vsby&vars=skyc1"@)
            &&& contains_text(
                url,
                "&year1="@ + year_text(start.y()) + "&month1="@ + two_digits(start.m()) + "&day1="@
                    + two_digits(start.d()) + "&hour1=0&minute1=0"@,
            )
            &&& contains_text(
                url,
                "&year2="@ + year_text(end.y()) + "&month2="@ + two_digits(end.m()) + "&day2="@
                    + two_digits(end.d()) + "&hour2=23&minute2=59"@,
            )
            &&& ends_with(url, "&tz="@ + replaced(timezone, '/', "%2F"@))
        }),
{
    let url = iem_url(station, timezone, start, end, with_optional);
    let base = "https://mesonet.agron.iastate.edu/cgi-bin/request/asos1min.py?station="@ + iem_code(
        station,
    ) + "&vars=tmpf&vars=dwpf&vars=drct&vars=sknt&vars=pres1"@;
    let optional = if with_optional {
        "&vars=p01i&vars=vsby&vars=skyc1"@
    } else {
        ""@
    };
    let from = "&year1="@ + year_text(start.y()) + "&month1="@ + two_digits(start.m()) + "&day1="@
        + two_digits(start.d());
    let clock = "&hour1=0&minute1=0"@;
    let to = "&year2="@ + year_text(end.y()) + "&month2="@ + two_digits(end.m()) + "&day2="@
        + two_digits(end.d());
    let last = "&hour2=23&minute2=59"@;
    let zone = "&tz="@ + replaced(timezone, '/', "%2F"@);
    assert("&hour1=0&minute1=0&year2="@ =~= clock + "&year2="@) by {
        reveal_strlit("&hour1=0&minute1=0&year2=");
        reveal_strlit("&hour1=0&minute1=0");
        reveal_strlit("&year2=");
    }
    assert("&hour2=23&minute2=59&what=download&tz="@ =~= last + "&what=download"@ + "&tz="@) by {
        reveal_strlit("&hour2=23&minute2=59&what=download&tz=");
        reveal_strlit("&hour2=23&minute2=59");
        reveal_strlit("&what=download");
        reveal_strlit("&tz=");
    }
    lemma_address(base, optional, from, clock, to, last, "&what=download"@, zone);
    lemma_parts_of_address(
        base + optional,
        "&year1="@,
        year_text(start.y()),
        "&month1="@,
        two_digits(start.m()),
        "&day1="@,
        two_digits(start.d()),
        clock,
    );
    let half = base + optional + from + clock;
    lemma_parts_of_address(
        half,
        "&year2="@,
        year_text(end.y()),
        "&month2="@,
        two_digits(end.m()),
        "&day2="@,
        two_digits(end.d()),
        last,
    );
    lemma_join_pairs(
        base + optional + "&year1="@ + year_text(start.y()) + "&month1="@ + two_digits(start.m())
            + "&day1="@ + two_digits(start.d()),
        clock,
        "&year2="@,
    );
    let most = half + "&year2="@ + year_text(end.y()) + "&month2="@ + two_digits(end.m()) + "&day2="@
        + two_digits(end.d());
    lemma_join_pairs(most, last + "&what=download"@, "&tz="@);
    lemma_join_pairs(most, last, "&what=download"@);
    lemma_join_pairs(most + last + "&what=download"@, "&tz="@, replaced(timezone, '/', "%2F"@));
}

proof fn lemma_join_pairs(a: Seq<char>, b: Seq<char>, c: Seq<char>)
    ensures
        a + (b + c) == a + b + c,
{
    assert(a + (b + c) =~= a + b + c);
}

proof fn lemma_parts_of_address(
    before: Seq<char>,
    p0: Seq<char>,
    p1: Seq<char>,
    p2: Seq<char>,
    p3: Seq<char>,
    p4: Seq<char>,
    p5: Seq<char>,
    after: Seq<char>,
)
    ensures
        before + (p0 + p1 + p2 + p3 + p4 + p5) + after
            == before + p0 + p1 + p2 + p3 + p4 + p5 + after,
{
    assert(before + (p0 + p1 + p2 + p3 + p4 + p5) + after =~= before + p0 + p1 + p2 + p3 + p4 + p5
        + after);
}

proof fn lemma_address(
    base: Seq<char>,
    optional: Seq<char>,
    from: Seq<char>,
    clock: Seq<char>,
    to: Seq<char>,
    last: Seq<char>,
    what: Seq<char>,
    zone: Seq<char>,
)
    ensures
        ({
            let url = base + optional + from + clock + to + last + what + zone;
            &&& starts_with(url, base)
            &&& contains_text(url, optional)
            &&& contains_text(url, from + clock)
            &&& contains_text(url, to + last)
            &&& ends_with(url, zone)
        }),
{
    let url = base + optional + from + clock + to + last + what + zone;
    let a = base.len() as int;
    assert(url.take(a) =~= base);
    assert(url.subrange(a, a + optional.len()) =~= optional);
    let b = a + optional.len();
    let first = from + clock;
    assert(url.subrange(b, b + first.len()) =~= first);
    let c = b + first.len();
    let second = to + last;
    assert(url.subrange(c, c + second.len()) =~= second);
    assert(url.skip(url.len() - zone.len()) =~= zone);
}

/// At the five-minute archive each month of a window is asked for, from that of its start to that
/// of its end, each the one after the one before.
pub proof fn law_every_month_of_a_window_is_asked_for(
    station: &StationId,
    start: Date,
    end: Date,
    urls: Vec<String>,
    i: int,
)
    requires
        start.valid(),
        end.valid(),
        start.not_after(end),
        call_ensures(month_urls, (station, start, end), urls),
        0 <= i < urls@.len(),
    ensures
        urls@.len() == (end.y() - start.y()) * 12 + end.m() - start.m() + 1,
        urls@[0]@ == ncei_url(station@, start.y(), start.m()),
        urls@.last()@ == ncei_url(station@, end.y(), end.m()),
        exists|year: int, month: int|
            {
                &&& 1 <= month <= 12
                &&& urls@[i]@ == #[trigger] ncei_url(station@, year, month)
                &&& (year - start.y()) * 12 + month - start.m() == i
            },
{
    let months = months_between(start, end);
    let all = texts(urls@);
    assert(all.len() == urls@.len());
    assert forall|k: int| 0 <= k < urls@.len() implies #[trigger] all[k] == urls@[k]@ by {}
    let n = months.len() as int;
    assert(all[0] == ncei_url(station@, months[0].0, months[0].1));
    assert(all[n - 1] == ncei_url(station@, months[n - 1].0, months[n - 1].1));
    assert(all[i] == ncei_url(station@, months[i].0, months[i].1));
    assert(all[0] == urls@[0]@ && all[n - 1] == urls@.last()@ && all[i] == urls@[i]@);
    let (year, month) = months[i];
    assert(urls@[i]@ == ncei_url(station@, year, month));
}

/// The address of a month at the five-minute archive is below the year and the month, and names the
/// station, the year and the month.
pub proof fn law_five_minute_addresses_say_the_month(station: Seq<char>, year: int, month: int)
    ensures
        ends_with(
            ncei_url(station, year, month),
            "/"@ + int_text(year) + "/"@ + two_digits(month) + "/asos-5min-"@ + station + "-"@
                + int_text(year) + two_digits(month) + ".dat"@,
        ),
{
    let url = ncei_url(station, year, month);
    let end = "/"@ + int_text(year) + "/"@ + two_digits(month) + "/asos-5min-"@ + station + "-"@
        + int_text(year) + two_digits(month) + ".dat"@;
    let base = "https://www.ncei.noaa.gov/data/automated-surface-observing-system-five-minute/access/"@;
    reveal_strlit("https://www.ncei.noaa.gov/data/automated-surface-observing-system-five-minute/access/");
    reveal_strlit("/");
    assert(base.last() == '/');
    let rest = int_text(year) + "/"@ + two_digits(month) + "/asos-5min-"@ + station + "-"@ + int_text(
        year,
    ) + two_digits(month) + ".dat"@;
    assert(url =~= base + rest);
    assert(end =~= "/"@ + rest);
    assert(url.skip(url.len() - end.len()) =~= end);
}

/// At the hourly archive each year of a window is asked for, in turn.
pub proof fn law_every_year_of_a_window_is_asked_for(
    id: &str,
    start: Date,
    end: Date,
    urls: Vec<String>,
    i: int,
)
    requires
        start.y() <= end.y(),
        call_ensures(year_urls, (id, start, end), urls),
        0 <= i < urls@.len(),
    ensures
        urls@.len() == end.y() - start.y() + 1,
        ends_with(
            urls@[i]@,
            "/"@ + int_text(start.y() + i) + "/psv/GHCNh_"@ + id@ + "_"@ + int_text(start.y() + i)
                + ".psv"@,
        ),
{
    let year = start.y() + i;
    let url = ghcnh_url(id@, year);
    assert(urls@[i]@ == ghcnh_url(id@, start.y() + i));
    let base = "https://www.ncei.noaa.gov/oa/global-historical-climatology-network/hourly/access/by-year/"@;
    reveal_strlit("https://www.ncei.noaa.gov/oa/global-historical-climatology-network/hourly/access/by-year/");
    reveal_strlit("/");
    let rest = int_text(year) + "/psv/GHCNh_"@ + id@ + "_"@ + int_text(year) + ".psv"@;
    let end = "/"@ + int_text(year) + "/psv/GHCNh_"@ + id@ + "_"@ + int_text(year) + ".psv"@;
    assert(base.last() == '/');
    assert(url =~= base + rest);
    assert(end =~= "/"@ + rest);
    assert(url.skip(url.len() - end.len()) =~= end);
}

/// The hourly archive knows a station by the code in the first row with its own code, and not at
/// all where there is no such row.
pub proof fn law_the_hourly_archive_maps_stations_by_their_code(
    rows: &Vec<GhcnhStationListRow>,
    station: &StationId,
    out: Result<String, Failure>,
    i: int,
)
    requires
        call_ensures(ghcnh_station_id, (rows, station), out),
    ensures
        out is Ok <==> exists|k: int|
            0 <= k < rows@.len() && (#[trigger] rows@[k]).icao is Some && rows@[k].icao->0@
                == station@,
        0 <= i < rows@.len() && rows@[i].icao is Some && rows@[i].icao->0@ == station@
            && (forall|k: int|
            0 <= k < i ==> !((#[trigger] rows@[k]).icao is Some && rows@[k].icao->0@ == station@))
            ==> out is Ok && out->Ok_0@ == rows@[i].ghcn_id@,
{
    lemma_mapped(rows@, station@, i);
}

proof fn lemma_mapped(rows: Seq<GhcnhStationListRow>, station: Seq<char>, i: int)
    ensures
        mapped_station(rows, station) is Some <==> exists|k: int|
            0 <= k < rows.len() && (#[trigger] rows[k]).icao is Some && rows[k].icao->0@ == station,
        0 <= i < rows.len() && rows[i].icao is Some && rows[i].icao->0@ == station
            && (forall|k: int|
            0 <= k < i ==> !((#[trigger] rows[k]).icao is Some && rows[k].icao->0@ == station))
            ==> mapped_station(rows, station) == Some(rows[i].ghcn_id@),
    decreases rows.len(),
{
    if rows.len() > 0 {
        let rest = rows.drop_first();
        lemma_mapped(rest, station, i - 1);
        if row_names(rows[0], station) {
            assert(rows[0].icao is Some && rows[0].icao->0@ == station);
        } else {
            assert(!(rows[0].icao is Some && rows[0].icao->0@ == station));
            if exists|k: int|
                0 <= k < rows.len() && (#[trigger] rows[k]).icao is Some
                    && rows[k].icao->0@ == station {
                let k = choose|k: int|
                    0 <= k < rows.len() && (#[trigger] rows[k]).icao is Some && rows[k].icao->0@
                        == station;
                assert(rest[k - 1] == rows[k]);
            }
            if mapped_station(rest, station) is Some {
                let k = choose|k: int|
                    0 <= k < rest.len() && (#[trigger] rest[k]).icao is Some && rest[k].icao->0@
                        == station;
                assert(rows[k + 1] == rest[k]);
            }
            if 0 < i < rows.len() {
                assert(rest[i - 1] == rows[i]);
                if forall|k: int|
                    0 <= k < i
                        ==> !((#[trigger] rows[k]).icao is Some && rows[k].icao->0@ == station) {
                    assert forall|k: int| 0 <= k < i - 1 implies !((#[trigger] rest[k]).icao is Some
                        && rest[k].icao->0@ == station) by {
                        assert(rows[k + 1] == rest[k]);
                    }
                }
            }
        }
    }
}

/// A source whose observations are there needs its manifests seen to, one with raw files alone is
/// normalized, and one with nothing is passed over.
pub proof fn law_sources_are_made_ready(normalized: usize, raw: usize, step: SourceStep)
    requires
        call_ensures(source_step, (normalized, raw), step),
    ensures
        step is Backfill <==> normalized > 0,
        step is Normalize <==> normalized == 0 && raw > 0,
        step is Skip <==> normalized == 0 && raw == 0,
{
}

/// The derived data of today are kept as they are exactly where nothing is new and both are there.
pub proof fn law_derived_data_of_today_are_rebuilt(
    added: usize,
    daily: bool,
    profiles: bool,
    rebuilt: bool,
)
    requires
        call_ensures(is_rebuilt_today, (added, daily, profiles), rebuilt),
    ensures
        !rebuilt <==> added == 0 && daily && profiles,
{
}

/// Either a date or today is asked for, and not both.
pub proof fn law_either_a_date_or_today_is_asked_for(
    date: Option<Date>,
    today: bool,
    local_today: Date,
    out: Result<Date, Failure>,
)
    requires
        call_ensures(target_date_or_today, (date, today, local_today), out),
    ensures
        out is Ok <==> (date is Some) != today,
        out is Ok && date is Some ==> out->Ok_0 == date->0,
        out is Ok && date is None ==> out->Ok_0 == local_today,
{
}

/// A given filter decides what is logged, and without one each level of verbosity says more.
pub proof fn law_given_filters_decide_what_is_logged(given: Option<&str>, verbose: u8,
    filter: String)
    requires
        call_ensures(log_filter, (given, verbose), filter),
    ensures
        given is Some ==> filter@ == given->0@,
        given is None && verbose == 0 ==> filter@ == "wxmatch=info,reqwest=warn"@,
        given is None && verbose == 1 ==> filter@ == "wxmatch=debug,reqwest=info"@,
        given is None && verbose >= 2 ==> filter@ == "wxmatch=trace,reqwest=debug"@,
{
}

/// Manifests are seen to before sources, stations, manifests and data files are listed, and before
/// nothing else.
pub proof fn law_lists_see_to_the_manifests(command: &Command, does: bool)
    requires
        call_ensures(backfills, (command,), does),
    ensures
        command is Source || command is Station ==> does,
        command is Cache ==> (does <==> command->Cache_0.command is Manifests),
        command is Query ==> (does <==> command->Query_0.command is DuckdbPaths),
        !(command is Source || command is Station || command is Cache || command is Query)
            ==> !does,
{
}

} // verus!
