//! What the queries print: a day, a probability, and analogs. Temperatures, percentages, weights
//! and distances come written as they are shown.
use vstd::prelude::*;
use crate::analogs::{analog_models, fewest_hours, minimum_analog_hours};
use crate::calendar::Date;
use crate::dataset::{day_note, day_state, quality_note_for_day, quality_state_for_day};
use crate::domain::{
    opt_text, AnalogModel, AnalogResult, BreakdownModel, DailySummary, DayProfile, EstimateModel,
    ProbabilityBreakdown, ProbabilityEstimate, StationId,
};
use crate::inspect::put_count;
use crate::numeral::{decimal, digits, join, joined};
use crate::report::{line_if, note_line, put, put_label, put_note};
use crate::text::{texts, to_chars};

verus! {

/// A temperature in degrees Fahrenheit, where there is one.
pub open spec fn degrees_line(label: Seq<char>, value: Option<Seq<char>>) -> Seq<Seq<char>> {
    match value {
        Some(text) => seq![label + text + "F"@],
        None => seq![],
    }
}

fn put_degrees(lines: &mut Vec<String>, label: &str, value: &Option<String>)
    ensures
        texts(final(lines)@) == texts(old(lines)@) + degrees_line(label@, opt_text(*value)),
{
    match value {
        Some(text) => {
            let mut line: String = label.to_string();
            line.append(text);
            line.append("F");
            put(lines, line);
        },
        None => {
            assert(texts(lines@) =~= texts(lines@) + seq![]);
        },
    }
}

/// The temperatures of a day as they are shown.
#[derive(Debug, Clone)]
pub struct DayTexts {
    pub high: Option<String>,
    pub low: Option<String>,
    pub mean: Option<String>,
}

/// The sources of a day, where it has some.
pub open spec fn sources_line(slugs: Seq<Seq<char>>) -> Seq<Seq<char>> {
    line_if(joined(slugs, ","@).len() > 0, "sources: "@ + joined(slugs, ","@))
}

/// The lines of a day.
pub open spec fn day_text(
    station: Seq<char>,
    summary: DailySummary,
    profile: DayProfile,
    shown: DayTexts,
    date: Date,
    freshness: Option<Seq<char>>,
) -> Seq<Seq<char>> {
    let slugs = texts(summary.source_slugs@);
    let hours = profile.observed_hour_count as nat;
    seq![
        "station: "@ + station,
        "date: "@ + date.text(),
        "observations: "@ + digits(summary.observation_count as nat),
    ] + degrees_line("high: "@, opt_text(shown.high)) + degrees_line("low: "@, opt_text(shown.low))
        + degrees_line("mean: "@, opt_text(shown.mean)) + seq![
        "observed hours: "@ + digits(hours),
        "quality state: "@ + day_state(hours, slugs),
    ] + sources_line(slugs) + note_line("freshness: "@, freshness) + note_line(
        "quality: "@,
        day_note(hours, slugs),
    )
}

/// The lines of a day.
pub fn day_lines(
    station: &StationId,
    summary: &DailySummary,
    profile: &DayProfile,
    shown: &DayTexts,
    date: Date,
    freshness: &Option<String>,
) -> (r: Vec<String>)
    ensures
        texts(r@) == day_text(station@, *summary, *profile, *shown, date, opt_text(*freshness)),
{
    let hours: usize = profile.observed_hour_count;
    let mut lines: Vec<String> = Vec::new();
    assert(texts(lines@) =~= seq![]);
    put_label(&mut lines, "station: ", station.as_str());
    put_label(&mut lines, "date: ", &date.to_text());
    put_count(&mut lines, "observations: ", summary.observation_count);
    put_degrees(&mut lines, "high: ", &shown.high);
    put_degrees(&mut lines, "low: ", &shown.low);
    put_degrees(&mut lines, "mean: ", &shown.mean);
    put_count(&mut lines, "observed hours: ", hours);
    put_label(&mut lines, "quality state: ", &quality_state_for_day(hours, &summary.source_slugs));
    let sources = join(&summary.source_slugs, ",");
    if to_chars(&sources).len() > 0 {
        put_label(&mut lines, "sources: ", &sources);
    } else {
        assert(texts(lines@) =~= texts(lines@) + seq![]);
    }
    put_note(&mut lines, "freshness: ", freshness);
    put_note(&mut lines, "quality: ", &quality_note_for_day(hours, &summary.source_slugs));
    assert(texts(lines@) =~= day_text(
        station@,
        *summary,
        *profile,
        *shown,
        date,
        opt_text(*freshness),
    ));
    lines
}

/// A method's percentage and weight as they are shown.
#[derive(Debug, Clone)]
pub struct MethodTexts {
    pub percent: String,
    pub weight: Option<String>,
}

/// A label, a text and an end, where there is a text.
pub open spec fn wrapped(start: Seq<char>, text: Option<Seq<char>>, end: Seq<char>) -> Seq<char> {
    match text {
        Some(t) => start + t + end,
        None => ""@,
    }
}

fn wrap(start: &str, text: &Option<String>, end: &str) -> (r: String)
    ensures
        r@ == wrapped(start@, opt_text(*text), end@),
{
    match text {
        Some(t) => {
            let mut all: String = start.to_string();
            all.append(t);
            all.append(end);
            all
        },
        None => "".to_string(),
    }
}

/// The line of a method.
pub open spec fn method_text(estimate: EstimateModel, shown: MethodTexts) -> Seq<char> {
    estimate.method + ": "@ + shown.percent@ + "% (n="@ + digits(estimate.sample_size as nat) + ")"@
        + wrapped(" weight="@, opt_text(shown.weight), ""@) + wrapped(
        " confidence="@,
        estimate.confidence_note,
        ""@,
    ) + wrapped(" ["@, estimate.note, "]"@)
}

fn method_line(estimate: &ProbabilityEstimate, shown: &MethodTexts) -> (r: String)
    ensures
        r@ == method_text(estimate@, *shown),
{
    let mut line: String = estimate.method.clone();
    line.append(": ");
    line.append(&shown.percent);
    line.append("% (n=");
    line.append(&decimal(estimate.sample_size as u128));
    line.append(")");
    line.append(&wrap(" weight=", &shown.weight, ""));
    line.append(&wrap(" confidence=", &estimate.confidence_note, ""));
    line.append(&wrap(" [", &estimate.note, "]"));
    line
}

/// The line of the methods together.
pub open spec fn combined_text(breakdown: BreakdownModel, percent: Option<Seq<char>>) -> Seq<char> {
    match (breakdown.combined, percent) {
        (Some(combined), Some(shown)) => "combined: "@ + shown + "% (methods="@ + digits(
            combined.method_count as nat,
        ) + " ["@ + combined.combination_note + "])"@,
        _ => "combined: unavailable (need at least two methods)"@,
    }
}

/// The lines of a probability.
pub open spec fn probability_text(
    breakdown: BreakdownModel,
    threshold: Seq<char>,
    shown: Seq<MethodTexts>,
    percent: Option<Seq<char>>,
    freshness: Option<Seq<char>>,
    quality: Option<Seq<char>>,
) -> Seq<Seq<char>> {
    seq![
        "station: "@ + breakdown.station,
        "date: "@ + breakdown.target_date.text(),
        "threshold high: "@ + threshold + "F"@,
        "quality state: "@ + breakdown.quality_state,
    ] + Seq::new(
        breakdown.methods.len(),
        |i: int| method_text(breakdown.methods[i], shown[i]),
    ) + Seq::new(
        breakdown.unavailable_methods.len(),
        |i: int|
            breakdown.unavailable_methods[i].0 + ": unavailable ["@
                + breakdown.unavailable_methods[i].1 + "]"@,
    ) + seq![combined_text(breakdown, percent)] + note_line("freshness: "@, freshness) + note_line(
        "quality: "@,
        quality,
    )
}

/// The lines of a probability.
pub fn probability_lines(
    breakdown: &ProbabilityBreakdown,
    threshold: &str,
    shown: &Vec<MethodTexts>,
    percent: &Option<String>,
    freshness: &Option<String>,
    quality: &Option<String>,
) -> (r: Vec<String>)
    requires
        shown@.len() == breakdown.methods@.len(),
        percent is Some <==> breakdown.combined is Some,
    ensures
        texts(r@) == probability_text(
            breakdown@,
            threshold@,
            shown@,
            opt_text(*percent),
            opt_text(*freshness),
            opt_text(*quality),
        ),
{
    let mut lines: Vec<String> = Vec::new();
    assert(texts(lines@) =~= seq![]);
    put_label(&mut lines, "station: ", breakdown.station_id.as_str());
    put_label(&mut lines, "date: ", &breakdown.target_date.to_text());
    let mut high: String = "threshold high: ".to_string();
    high.append(threshold);
    high.append("F");
    put(&mut lines, high);
    put_label(&mut lines, "quality state: ", &breakdown.quality_state);
    let ghost head = texts(lines@);
    let ghost model = breakdown@;
    let ghost first = Seq::new(
        model.methods.len(),
        |i: int| method_text(model.methods[i], shown@[i]),
    );
    let ghost second = Seq::new(
        model.unavailable_methods.len(),
        |i: int|
            model.unavailable_methods[i].0 + ": unavailable ["@ + model.unavailable_methods[i].1
                + "]"@,
    );
    let mut i: usize = 0;
    assert(head + first.take(0) =~= head);
    while i < breakdown.methods.len()
        invariant
            i <= breakdown.methods@.len(),
            shown@.len() == breakdown.methods@.len(),
            model == breakdown@,
            first == Seq::new(
                model.methods.len(),
                |i: int| method_text(model.methods[i], shown@[i]),
            ),
            texts(lines@) == head + first.take(i as int),
        decreases breakdown.methods@.len() - i,
    {
        assert(model.methods[i as int] == breakdown.methods@[i as int]@);
        put(&mut lines, method_line(&breakdown.methods[i], &shown[i]));
        i += 1;
        assert(texts(lines@) =~= head + first.take(i as int));
    }
    assert(first.take(i as int) =~= first);
    let ghost middle = texts(lines@);
    let mut k: usize = 0;
    assert(middle + second.take(0) =~= middle);
    while k < breakdown.unavailable_methods.len()
        invariant
            k <= breakdown.unavailable_methods@.len(),
            model == breakdown@,
            second == Seq::new(
                model.unavailable_methods.len(),
                |i: int|
                    model.unavailable_methods[i].0 + ": unavailable ["@
                        + model.unavailable_methods[i].1 + "]"@,
            ),
            texts(lines@) == middle + second.take(k as int),
        decreases breakdown.unavailable_methods@.len() - k,
    {
        let item = &breakdown.unavailable_methods[k];
        assert(model.unavailable_methods[k as int] == (item.method@, item.reason@));
        let mut line: String = item.method.clone();
        line.append(": unavailable [");
        line.append(&item.reason);
        line.append("]");
        put(&mut lines, line);
        k += 1;
        assert(texts(lines@) =~= middle + second.take(k as int));
    }
    assert(second.take(k as int) =~= second);
    match (&breakdown.combined, percent) {
        (Some(combined), Some(text)) => {
            let mut line: String = "combined: ".to_string();
            line.append(text);
            line.append("% (methods=");
            line.append(&decimal(combined.method_count as u128));
            line.append(" [");
            line.append(&combined.combination_note);
            line.append("])");
            put(&mut lines, line);
        },
        _ => {
            put(&mut lines, "combined: unavailable (need at least two methods)".to_string());
        },
    }
    put_note(&mut lines, "freshness: ", freshness);
    put_note(&mut lines, "quality: ", quality);
    assert(texts(lines@) =~= probability_text(
        model,
        threshold@,
        shown@,
        opt_text(*percent),
        opt_text(*freshness),
        opt_text(*quality),
    ));
    lines
}

/// What is said where a search found no analogs.
pub open spec fn search_note(found: nat, observed_hours: nat, as_of_hour: Option<u8>) -> Option<
    Seq<char>,
> {
    if found > 0 {
        None
    } else if observed_hours < fewest_hours(as_of_hour) {
        Some(
            "insufficient observed hours for analog search: "@ + digits(observed_hours)
                + " observed, "@ + digits(fewest_hours(as_of_hour) as nat) + " required"@,
        )
    } else {
        Some(
            "no comparable analogs found for target profile with "@ + digits(observed_hours)
                + " observed hours"@,
        )
    }
}

/// What is said where a search found no analogs.
pub fn analog_status_note(found: usize, observed_hours: usize, as_of_hour: Option<u8>) -> (r: Option<
    String,
>)
    ensures
        opt_text(r) == search_note(found as nat, observed_hours as nat, as_of_hour),
{
    if found > 0 {
        return None;
    }
    let fewest: usize = minimum_analog_hours(as_of_hour);
    if observed_hours < fewest {
        let mut note: String = "insufficient observed hours for analog search: ".to_string();
        note.append(&decimal(observed_hours as u128));
        note.append(" observed, ");
        note.append(&decimal(fewest as u128));
        note.append(" required");
        Some(note)
    } else {
        let mut note: String = "no comparable analogs found for target profile with ".to_string();
        note.append(&decimal(observed_hours as u128));
        note.append(" observed hours");
        Some(note)
    }
}

/// An analog's distance and high as they are shown.
#[derive(Debug, Clone)]
pub struct AnalogTexts {
    pub distance: String,
    pub high: Option<String>,
}

/// The line of an analog.
pub open spec fn analog_text(analog: AnalogModel, shown: AnalogTexts) -> Seq<char> {
    analog.analog_date.text() + "  distance="@ + shown.distance@ + " high="@ + (match opt_text(
        shown.high,
    ) {
        Some(high) => high + "F"@,
        None => "n/a"@,
    }) + " compared_hours="@ + digits(analog.compared_hours as nat) + " sources="@
        + analog.candidate_source_summary + wrapped(" ["@, analog.source_mix_note, "]"@)
}

fn analog_line(analog: &AnalogResult, shown: &AnalogTexts) -> (r: String)
    ensures
        r@ == analog_text(analog@, *shown),
{
    let high: String = match &shown.high {
        Some(text) => {
            let mut degrees: String = text.clone();
            degrees.append("F");
            degrees
        },
        None => "n/a".to_string(),
    };
    let mut line = analog.analog_date.to_text();
    line.append("  distance=");
    line.append(&shown.distance);
    line.append(" high=");
    line.append(&high);
    line.append(" compared_hours=");
    line.append(&decimal(analog.compared_hours as u128));
    line.append(" sources=");
    line.append(&analog.candidate_source_summary);
    line.append(&wrap(" [", &analog.source_mix_note, "]"));
    line
}

/// The lines of a search for analogs.
pub open spec fn analogs_text(
    station: Seq<char>,
    target_date: Date,
    target: DayProfile,
    analogs: Seq<AnalogModel>,
    shown: Seq<AnalogTexts>,
    quality_state: Seq<char>,
    as_of_hour: Option<u8>,
    freshness: Option<Seq<char>>,
) -> Seq<Seq<char>> {
    let hours = target.observed_hour_count as nat;
    seq![
        "station: "@ + station,
        "date: "@ + target_date.text(),
        "top analogs: "@ + digits(analogs.len()),
        "target observed hours: "@ + digits(hours),
        "quality state: "@ + quality_state,
    ] + note_line("freshness: "@, freshness) + note_line(
        "quality: "@,
        day_note(hours, texts(target.source_slugs@)),
    ) + note_line("status: "@, search_note(analogs.len(), hours, as_of_hour)) + Seq::new(
        analogs.len(),
        |i: int| analog_text(analogs[i], shown[i]),
    )
}

/// The lines of a search for analogs.
pub fn analogs_lines(
    station: &StationId,
    target_date: Date,
    target: &DayProfile,
    analogs: &Vec<AnalogResult>,
    shown: &Vec<AnalogTexts>,
    quality_state: &str,
    as_of_hour: Option<u8>,
    freshness: &Option<String>,
) -> (r: Vec<String>)
    requires
        shown@.len() == analogs@.len(),
    ensures
        texts(r@) == analogs_text(
            station@,
            target_date,
            *target,
            analog_models(analogs@),
            shown@,
            quality_state@,
            as_of_hour,
            opt_text(*freshness),
        ),
{
    let hours: usize = target.observed_hour_count;
    let mut lines: Vec<String> = Vec::new();
    assert(texts(lines@) =~= seq![]);
    put_label(&mut lines, "station: ", station.as_str());
    put_label(&mut lines, "date: ", &target_date.to_text());
    put_count(&mut lines, "top analogs: ", analogs.len());
    put_count(&mut lines, "target observed hours: ", hours);
    put_label(&mut lines, "quality state: ", quality_state);
    put_note(&mut lines, "freshness: ", freshness);
    put_note(&mut lines, "quality: ", &quality_note_for_day(hours, &target.source_slugs));
    put_note(&mut lines, "status: ", &analog_status_note(analogs.len(), hours, as_of_hour));
    let ghost head = texts(lines@);
    let ghost models = analog_models(analogs@);
    let ghost tail = Seq::new(models.len(), |i: int| analog_text(models[i], shown@[i]));
    let mut i: usize = 0;
    assert(head + tail.take(0) =~= head);
    while i < analogs.len()
        invariant
            i <= analogs@.len(),
            shown@.len() == analogs@.len(),
            models == analog_models(analogs@),
            tail == Seq::new(models.len(), |i: int| analog_text(models[i], shown@[i])),
            texts(lines@) == head + tail.take(i as int),
        decreases analogs@.len() - i,
    {
        assert(models[i as int] == analogs@[i as int]@);
        put(&mut lines, analog_line(&analogs[i], &shown[i]));
        i += 1;
        assert(texts(lines@) =~= head + tail.take(i as int));
    }
    assert(tail.take(i as int) =~= tail);
    assert(texts(lines@) =~= analogs_text(
        station@,
        target_date,
        *target,
        models,
        shown@,
        quality_state@,
        as_of_hour,
        opt_text(*freshness),
    ));
    lines
}

} // verus!
