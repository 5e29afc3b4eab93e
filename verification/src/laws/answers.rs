//! Answers: the lines of a day, of a probability and of a search for analogs say what was found.
use vstd::prelude::*;
use crate::calendar::Date;
use crate::dataset::{day_note, day_state};
use crate::domain::{
    opt_text, AnalogResult, DailySummary, DayProfile, ProbabilityBreakdown, StationId,
};
use crate::numeral::{digits, joined};
use crate::query::{
    analog_status_note, analog_text, analogs_lines, combined_text, day_lines, degrees_line,
    method_text, probability_lines, search_note, sources_line, wrapped, AnalogTexts, DayTexts,
    MethodTexts,
};
use crate::report::note_line;
use crate::text::{starts_with, texts};

verus! {

/// One if the condition holds, and zero if not.
pub open spec fn one_where(condition: bool) -> nat {
    if condition {
        1
    } else {
        0
    }
}

/// The lines of a day: its station and date, the number of its observations, the high, the low and
/// the mean that are shown, each behind its own name, the number of its observed hours, and nothing
/// else but its state, its sources and the notes.
pub proof fn law_day_lines_say_what_the_day_was_like(
    station: &StationId,
    summary: &DailySummary,
    profile: &DayProfile,
    shown: &DayTexts,
    date: Date,
    freshness: &Option<String>,
    lines: Vec<String>,
)
    requires
        call_ensures(day_lines, (station, summary, profile, shown, date, freshness), lines),
    ensures
        ({
            let all = texts(lines@);
            let hours = profile.observed_hour_count as nat;
            &&& all.len() >= 5
            &&& all[0] == "station: "@ + station@
            &&& all[1] == "date: "@ + date.text()
            &&& all[2] == "observations: "@ + digits(summary.observation_count as nat)
            &&& shown.high is Some ==> all.contains("high: "@ + shown.high->0@ + "F"@)
            &&& shown.low is Some ==> all.contains("low: "@ + shown.low->0@ + "F"@)
            &&& shown.mean is Some ==> all.contains("mean: "@ + shown.mean->0@ + "F"@)
            &&& all.contains("observed hours: "@ + digits(hours))
            &&& all.contains("quality state: "@ + day_state(hours, texts(summary.source_slugs@)))
            &&& joined(texts(summary.source_slugs@), ","@).len() > 0 ==> all.contains(
                "sources: "@ + joined(texts(summary.source_slugs@), ","@),
            )
            &&& freshness is Some ==> all.contains("freshness: "@ + freshness->0@)
            &&& day_note(hours, texts(summary.source_slugs@)) is Some ==> all.last() == "quality: "@
                + day_note(hours, texts(summary.source_slugs@))->0
            &&& all.len() == 5 + one_where(shown.high is Some) + one_where(shown.low is Some)
                + one_where(shown.mean is Some) + one_where(
                joined(texts(summary.source_slugs@), ","@).len() > 0,
            ) + one_where(freshness is Some) + one_where(
                day_note(hours, texts(summary.source_slugs@)) is Some,
            )
        }),
{
    let all = texts(lines@);
    let slugs = texts(summary.source_slugs@);
    let hours = profile.observed_hour_count as nat;
    let head = seq![
        "station: "@ + station@,
        "date: "@ + date.text(),
        "observations: "@ + digits(summary.observation_count as nat),
    ];
    let high = degrees_line("high: "@, opt_text(shown.high));
    let low = degrees_line("low: "@, opt_text(shown.low));
    let mean = degrees_line("mean: "@, opt_text(shown.mean));
    let middle = seq![
        "observed hours: "@ + digits(hours),
        "quality state: "@ + day_state(hours, slugs),
    ];
    let sources = sources_line(slugs);
    let fresh = note_line("freshness: "@, opt_text(*freshness));
    let quality = note_line("quality: "@, day_note(hours, slugs));
    lemma_pieces_are_there(head, high, low, mean, middle, sources, fresh, quality);
    assert(all == head + high + low + mean + middle + sources + fresh + quality);
}

proof fn lemma_pieces_are_there(
    p0: Seq<Seq<char>>,
    p1: Seq<Seq<char>>,
    p2: Seq<Seq<char>>,
    p3: Seq<Seq<char>>,
    p4: Seq<Seq<char>>,
    p5: Seq<Seq<char>>,
    p6: Seq<Seq<char>>,
    p7: Seq<Seq<char>>,
)
    requires
        p0.len() == 3,
        p4.len() == 2,
    ensures
        ({
            let all = p0 + p1 + p2 + p3 + p4 + p5 + p6 + p7;
            &&& all[0] == p0[0]
            &&& all[1] == p0[1]
            &&& all[2] == p0[2]
            &&& p1.len() > 0 ==> all.contains(p1[0])
            &&& p2.len() > 0 ==> all.contains(p2[0])
            &&& p3.len() > 0 ==> all.contains(p3[0])
            &&& all.contains(p4[0])
            &&& all.contains(p4[1])
            &&& p5.len() > 0 ==> all.contains(p5[0])
            &&& p6.len() > 0 ==> all.contains(p6[0])
            &&& p7.len() == 1 ==> all.last() == p7[0]
            &&& all.len() == 5 + p1.len() + p2.len() + p3.len() + p5.len() + p6.len() + p7.len()
        }),
{
    let all = p0 + p1 + p2 + p3 + p4 + p5 + p6 + p7;
    if p1.len() > 0 {
        assert(all[3] == p1[0]);
    }
    let n2 = 3 + p1.len();
    if p2.len() > 0 {
        assert(all[n2 as int] == p2[0]);
    }
    let n3 = n2 + p2.len();
    if p3.len() > 0 {
        assert(all[n3 as int] == p3[0]);
    }
    let n4 = n3 + p3.len();
    assert(all[n4 as int] == p4[0]);
    assert(all[n4 as int + 1] == p4[1]);
    let n5 = n4 + 2;
    if p5.len() > 0 {
        assert(all[n5 as int] == p5[0]);
    }
    let n6 = n4 + 2 + p5.len();
    if p6.len() > 0 {
        assert(all[n6 as int] == p6[0]);
    }
}

/// The lines of a probability: the station, the date, the threshold and the state, then a line for
/// each method with its name, its percentage and its number of samples, one for each method that is
/// not available with the reason, and one for the methods together.
pub proof fn law_probability_lines_say_what_the_methods_make(
    breakdown: &ProbabilityBreakdown,
    threshold: &str,
    shown: &Vec<MethodTexts>,
    percent: &Option<String>,
    freshness: &Option<String>,
    quality: &Option<String>,
    lines: Vec<String>,
    k: int,
)
    requires
        call_ensures(
            probability_lines,
            (breakdown, threshold, shown, percent, freshness, quality),
            lines,
        ),
        shown@.len() == breakdown.methods@.len(),
        percent is Some <==> breakdown.combined is Some,
    ensures
        ({
            let all = texts(lines@);
            let n = breakdown.methods@.len() as int;
            let m = breakdown.unavailable_methods@.len() as int;
            &&& all.len() == 5 + n + m + one_where(freshness is Some) + one_where(quality is Some)
            &&& all[0] == "station: "@ + breakdown.station_id@
            &&& all[1] == "date: "@ + breakdown.target_date.text()
            &&& all[2] == "threshold high: "@ + threshold@ + "F"@
            &&& all[3] == "quality state: "@ + breakdown.quality_state@
            &&& 0 <= k < n
                ==> all[4 + k] == breakdown.methods@[k].method@ + ": "@ + shown@[k].percent@
                + "% (n="@ + digits(breakdown.methods@[k].sample_size as nat) + ")"@ + (
            if shown@[k].weight is Some {
                " weight="@ + shown@[k].weight->0@
            } else {
                Seq::empty()
            }) + (if breakdown.methods@[k].confidence_note is Some {
                " confidence="@ + breakdown.methods@[k].confidence_note->0@
            } else {
                Seq::empty()
            }) + (if breakdown.methods@[k].note is Some {
                " ["@ + breakdown.methods@[k].note->0@ + "]"@
            } else {
                Seq::empty()
            })
            &&& 0 <= k < m ==> all[4 + n + k] == breakdown.unavailable_methods@[k].method@
                + ": unavailable ["@ + breakdown.unavailable_methods@[k].reason@ + "]"@
            &&& breakdown.combined is Some ==> all[4 + n + m] == "combined: "@ + percent->0@
                + "% (methods="@ + digits(breakdown.combined->0.method_count as nat) + " ["@
                + breakdown.combined->0.combination_note@ + "])"@
            &&& breakdown.combined is None ==> starts_with(
                all[4 + n + m],
                "combined: unavailable"@,
            )
            &&& freshness is Some ==> all[5 + n + m] == "freshness: "@ + freshness->0@
            &&& quality is Some ==> all.last() == "quality: "@ + quality->0@
        }),
{
    let all = texts(lines@);
    let model = breakdown@;
    let n = breakdown.methods@.len() as int;
    let m = breakdown.unavailable_methods@.len() as int;
    assert(model.methods.len() == n && model.unavailable_methods.len() == m);
    let head = seq![
        "station: "@ + model.station,
        "date: "@ + model.target_date.text(),
        "threshold high: "@ + threshold@ + "F"@,
        "quality state: "@ + model.quality_state,
    ];
    let first = Seq::new(
        model.methods.len(),
        |i: int| method_text(model.methods[i], shown@[i]),
    );
    let second = Seq::new(
        model.unavailable_methods.len(),
        |i: int|
            model.unavailable_methods[i].0 + ": unavailable ["@ + model.unavailable_methods[i].1
                + "]"@,
    );
    let line = combined_text(model, opt_text(*percent));
    let fresh = note_line("freshness: "@, opt_text(*freshness));
    let last = note_line("quality: "@, opt_text(*quality));
    assert(all =~= head + first + second + seq![line] + fresh + last);
    assert(all[0] == head[0] && all[1] == head[1] && all[2] == head[2] && all[3] == head[3]);
    if 0 <= k < n {
        assert(model.methods[k] == breakdown.methods@[k]@);
        assert(all[4 + k] == first[k]);
        lemma_wrapped(" weight="@, opt_text(shown@[k].weight), ""@);
        lemma_wrapped(" confidence="@, model.methods[k].confidence_note, ""@);
        lemma_wrapped(" ["@, model.methods[k].note, "]"@);
    }
    if 0 <= k < m {
        assert(all[4 + n + k] == second[k]);
        assert(model.unavailable_methods[k] == (
            breakdown.unavailable_methods@[k].method@,
            breakdown.unavailable_methods@[k].reason@,
        ));
    }
    assert(all[4 + n + m] == line);
    reveal_strlit("combined: unavailable");
    reveal_strlit("combined: unavailable (need at least two methods)");
    if breakdown.combined is None {
        assert(line.take(21) =~= "combined: unavailable"@);
    }
    if freshness is Some {
        assert(all[5 + n + m] == fresh[0]);
    }
    if quality is Some {
        assert(all.last() == last[0]);
    }
}

proof fn lemma_wrapped(start: Seq<char>, text: Option<Seq<char>>, end: Seq<char>)
    ensures
        text is Some ==> wrapped(start, text, end) == start + text->0 + end,
        text is Some && end.len() == 0 ==> wrapped(start, text, end) == start + text->0,
        text is None ==> wrapped(start, text, end) == Seq::<char>::empty(),
        ""@.len() == 0,
{
    reveal_strlit("");
    if text is Some && end.len() == 0 {
        assert(start + text->0 + end =~= start + text->0);
    }
    assert(""@ =~= Seq::<char>::empty());
}

/// Something is said of a search exactly where it found nothing: that too few hours were observed,
/// of two up to an hour and six for a whole day, or else that no day is comparable.
pub proof fn law_searches_without_analogs_have_a_note(
    found: usize,
    hours: usize,
    as_of_hour: Option<u8>,
    note: Option<String>,
)
    requires
        call_ensures(analog_status_note, (found, hours, as_of_hour), note),
    ensures
        note is Some <==> found == 0,
        note is Some && hours < (if as_of_hour is Some { 2int } else { 6int }) ==> note->0@
            == "insufficient observed hours for analog search: "@ + digits(hours as nat)
            + " observed, "@ + digits(if as_of_hour is Some { 2 } else { 6 }) + " required"@,
        note is Some && hours >= (if as_of_hour is Some { 2int } else { 6int }) ==> note->0@
            == "no comparable analogs found for target profile with "@ + digits(hours as nat)
            + " observed hours"@,
{
}

/// The lines of a search: the station, the date, the number of analogs, the number of observed
/// hours and the state, and at the end a line for each analog, in their order, with its date, its
/// distance, its high or `n/a`, and the number of hours compared.
pub proof fn law_analog_lines_say_which_days_were_alike(
    station: &StationId,
    target_date: Date,
    target: &DayProfile,
    analogs: &Vec<AnalogResult>,
    shown: &Vec<AnalogTexts>,
    quality_state: &str,
    as_of_hour: Option<u8>,
    freshness: &Option<String>,
    lines: Vec<String>,
    k: int,
)
    requires
        call_ensures(
            analogs_lines,
            (
                station,
                target_date,
                target,
                analogs,
                shown,
                quality_state,
                as_of_hour,
                freshness,
            ),
            lines,
        ),
        shown@.len() == analogs@.len(),
        0 <= k < analogs@.len(),
    ensures
        ({
            let all = texts(lines@);
            let n = analogs@.len() as int;
            &&& all.len() >= 5 + n
            &&& all[0] == "station: "@ + station@
            &&& all[1] == "date: "@ + target_date.text()
            &&& all[2] == "top analogs: "@ + digits(analogs@.len())
            &&& all[3] == "target observed hours: "@ + digits(target.observed_hour_count as nat)
            &&& all[4] == "quality state: "@ + quality_state@
            &&& freshness is Some ==> all[5] == "freshness: "@ + freshness->0@
            &&& all[all.len() - n + k] == analogs@[k].analog_date.text() + "  distance="@
                + shown@[k].distance@ + " high="@ + (if shown@[k].high is Some {
                shown@[k].high->0@ + "F"@
            } else {
                "n/a"@
            }) + " compared_hours="@ + digits(analogs@[k].compared_hours as nat) + " sources="@
                + analogs@[k].candidate_source_summary@ + (if analogs@[k].source_mix_note is Some {
                " ["@ + analogs@[k].source_mix_note->0@ + "]"@
            } else {
                Seq::empty()
            })
        }),
{
    let all = texts(lines@);
    let models = crate::analogs::analog_models(analogs@);
    let hours = target.observed_hour_count as nat;
    let n = analogs@.len() as int;
    let head = seq![
        "station: "@ + station@,
        "date: "@ + target_date.text(),
        "top analogs: "@ + digits(models.len()),
        "target observed hours: "@ + digits(hours),
        "quality state: "@ + quality_state@,
    ];
    let fresh = note_line("freshness: "@, opt_text(*freshness));
    let quality = note_line("quality: "@, day_note(hours, texts(target.source_slugs@)));
    let status = note_line("status: "@, search_note(models.len(), hours, as_of_hour));
    let tail = Seq::new(models.len(), |i: int| analog_text(models[i], shown@[i]));
    assert(all =~= head + fresh + quality + status + tail);
    assert(all[0] == head[0] && all[1] == head[1] && all[2] == head[2] && all[3] == head[3]
        && all[4] == head[4]);
    if freshness is Some {
        assert(all[5] == fresh[0]);
    }
    assert(all[all.len() - n + k] == tail[k]);
    assert(models[k] == analogs@[k]@);
    lemma_wrapped(" ["@, models[k].source_mix_note, "]"@);
}

} // verus!
