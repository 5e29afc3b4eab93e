//! Lines of text, and what the examination of the cache prints.
use vstd::prelude::*;
use crate::cache::CacheLayout;
use crate::domain::opt_text;
use crate::fields::opt_str;
use crate::numeral::{align_right, right_aligned};
use crate::paths::{
    path_join, pieces, source_from_artifact_path, source_in, station_id_from_artifact_path,
    station_in, year_from_artifact_path, year_in,
};
use crate::text::{contains_text, has_text, texts, to_chars};

verus! {

/// The line, where there is one.
pub open spec fn line_if(condition: bool, line: Seq<char>) -> Seq<Seq<char>> {
    if condition {
        seq![line]
    } else {
        seq![]
    }
}

/// A label and a text, where there is a text.
pub open spec fn note_line(label: Seq<char>, note: Option<Seq<char>>) -> Seq<Seq<char>> {
    match note {
        Some(text) => seq![label + text],
        None => seq![],
    }
}

pub(crate) fn put(lines: &mut Vec<String>, line: String)
    ensures
        texts(final(lines)@) == texts(old(lines)@) + seq![line@],
{
    let ghost before = lines@;
    lines.push(line);
    assert(texts(lines@) =~= texts(before) + seq![line@]);
}

pub(crate) fn put_label(lines: &mut Vec<String>, label: &str, text: &str)
    ensures
        texts(final(lines)@) == texts(old(lines)@) + seq![label@ + text@],
{
    let mut line: String = label.to_string();
    line.append(text);
    put(lines, line);
}

pub(crate) fn put_note(lines: &mut Vec<String>, label: &str, note: &Option<String>)
    ensures
        texts(final(lines)@) == texts(old(lines)@) + note_line(label@, opt_text(*note)),
{
    match note {
        Some(text) => {
            put_label(lines, label, text);
        },
        None => {
            assert(texts(lines@) =~= texts(lines@) + seq![]);
        },
    }
}

pub(crate) fn put_all(lines: &mut Vec<String>, more: Vec<String>)
    ensures
        texts(final(lines)@) == texts(old(lines)@) + texts(more@),
{
    let ghost before = lines@;
    let mut rest = more;
    lines.append(&mut rest);
    assert(texts(lines@) =~= texts(before) + texts(more@));
}

/// The lists of lines, one behind the other.
pub open spec fn flat(parts: Seq<Seq<Seq<char>>>) -> Seq<Seq<char>>
    decreases parts.len(),
{
    if parts.len() == 0 {
        seq![]
    } else {
        flat(parts.drop_last()) + parts.last()
    }
}

pub proof fn lemma_flat_push(parts: Seq<Seq<Seq<char>>>, part: Seq<Seq<char>>)
    ensures
        flat(parts.push(part)) == flat(parts) + part,
{
    assert(parts.push(part).drop_last() =~= parts);
}

/// A path, behind the word that tells whether it is there.
pub open spec fn status_text(is_there: bool, path: Seq<char>) -> Seq<char> {
    right_aligned(
        if is_there {
            "ok"@
        } else {
            "missing"@
        },
        10,
    ) + "  "@ + path
}

fn status_line(is_there: bool, path: &str) -> (r: String)
    ensures
        r@ == status_text(is_there, path@),
{
    let word: &str = if is_there {
        "ok"
    } else {
        "missing"
    };
    let mut line = align_right(word, 10);
    line.append("  ");
    line.append(path);
    line
}

/// The manifest that belongs to a file of observations, where its path says which.
pub open spec fn manifest_of_normalized(layout: CacheLayout, path: Seq<char>) -> Option<Seq<char>> {
    let parts = pieces(path);
    match (source_in(parts), station_in(parts), year_in(parts)) {
        (Some(source), Some(station), Some(year)) => Some(
            layout.normalized_manifest(source, station, year),
        ),
        _ => None,
    }
}

/// The manifest that belongs to a file of observations, where its path says which.
pub fn normalized_manifest_for(layout: &CacheLayout, path: &str) -> (r: Option<String>)
    ensures
        opt_text(r) == manifest_of_normalized(*layout, path@),
{
    match (
        source_from_artifact_path(path),
        station_id_from_artifact_path(path),
        year_from_artifact_path(path),
    ) {
        (Some(source), Some(station), Some(year)) => Some(
            layout.normalized_manifest_path(source, &station, year),
        ),
        _ => None,
    }
}

/// The kind of derived data in a file: daily summaries in a directory of that name, and profiles
/// elsewhere.
pub open spec fn kind_of_derived(path: Seq<char>) -> Seq<char> {
    if contains_text(path, "/daily/"@) {
        "daily"@
    } else {
        "profiles"@
    }
}

/// The kind of derived data in a file.
pub fn derived_kind(path: &str) -> (r: &'static str)
    ensures
        r@ == kind_of_derived(path@),
{
    if has_text(&to_chars(path), "/daily/") {
        "daily"
    } else {
        "profiles"
    }
}

/// The kind of derived data that the directory of a file names, if it names one.
pub open spec fn kind_named_by(path: Seq<char>) -> Option<Seq<char>> {
    if contains_text(path, "/daily/"@) {
        Some("daily"@)
    } else if contains_text(path, "/profiles/"@) {
        Some("profiles"@)
    } else {
        None
    }
}

/// The kind of derived data that the directory of a file names, if it names one.
pub fn named_kind(path: &str) -> (r: Option<&'static str>)
    ensures
        opt_str(r) == kind_named_by(path@),
{
    let chars = to_chars(path);
    if has_text(&chars, "/daily/") {
        Some("daily")
    } else if has_text(&chars, "/profiles/") {
        Some("profiles")
    } else {
        None
    }
}

/// The manifest that belongs to a file of derived data, where its path says which.
pub open spec fn manifest_of_derived(layout: CacheLayout, path: Seq<char>) -> Option<Seq<char>> {
    let parts = pieces(path);
    match (station_in(parts), year_in(parts)) {
        (Some(station), Some(year)) => Some(
            layout.derived_manifest(kind_of_derived(path), station, year),
        ),
        _ => None,
    }
}

/// The manifest that belongs to a file of derived data, where its path says which.
pub fn derived_manifest_for(layout: &CacheLayout, path: &str) -> (r: Option<String>)
    ensures
        opt_text(r) == manifest_of_derived(*layout, path@),
{
    match (station_id_from_artifact_path(path), year_from_artifact_path(path)) {
        (Some(station), Some(year)) => Some(
            layout.derived_manifest_path(derived_kind(path), &station, year),
        ),
        _ => None,
    }
}

/// A file of observations, and whether its manifest is there.
#[derive(Debug, Clone)]
pub struct NormalizedCheck {
    pub path: String,
    pub manifest_exists: bool,
}

/// An input of derived data: when it and its manifest were last written, as far as is known.
#[derive(Debug, Clone)]
pub struct InputCheck {
    pub path: String,
    pub modified: Option<i128>,
    pub manifest_modified: Option<i128>,
}

/// The manifest of derived data: when it was last written, and what it names as inputs.
#[derive(Debug, Clone)]
pub struct ManifestCheck {
    pub modified: Option<i128>,
    pub inputs: Vec<InputCheck>,
}

/// A file of derived data, and its manifest where it is there.
#[derive(Debug, Clone)]
pub struct DerivedCheck {
    pub path: String,
    pub manifest: Option<ManifestCheck>,
}

/// The input was written after the output.
pub open spec fn is_newer(input: Option<i128>, output: Option<i128>) -> bool {
    match (input, output) {
        (Some(i), Some(o)) => i > o,
        _ => false,
    }
}

fn newer(input: Option<i128>, output: Option<i128>) -> (r: bool)
    ensures
        r == is_newer(input, output),
{
    match (input, output) {
        (Some(i), Some(o)) => i > o,
        _ => false,
    }
}

/// What is wrong with a file of observations.
pub open spec fn normalized_warnings(layout: CacheLayout, check: NormalizedCheck) -> Seq<Seq<char>> {
    line_if(
        manifest_of_normalized(layout, check.path@) is Some && !check.manifest_exists,
        "   warning  missing normalized manifest for "@ + check.path@,
    )
}

/// What is wrong with a manifest, by one of its inputs.
pub open spec fn input_warnings(
    layout: CacheLayout,
    manifest: Seq<char>,
    modified: Option<i128>,
    input: InputCheck,
) -> Seq<Seq<char>> {
    line_if(
        is_newer(input.modified, modified),
        "   warning  derived manifest "@ + manifest + " is older than input "@ + input.path@,
    ) + (match manifest_of_normalized(layout, input.path@) {
        Some(other) => line_if(
            is_newer(input.manifest_modified, modified),
            "   warning  derived manifest "@ + manifest + " is older than normalized manifest "@
                + other,
        ),
        None => seq![],
    })
}

/// What is wrong with a file of derived data.
pub open spec fn derived_warnings(layout: CacheLayout, check: DerivedCheck) -> Seq<Seq<char>> {
    match manifest_of_derived(layout, check.path@) {
        None => seq![],
        Some(manifest) => match check.manifest {
            None => seq!["   warning  missing derived manifest for "@ + check.path@],
            Some(found) => flat(
                Seq::new(
                    found.inputs@.len(),
                    |i: int| input_warnings(layout, manifest, found.modified, found.inputs@[i]),
                ),
            ),
        },
    }
}

/// The lines on what is wrong with a file of observations.
pub fn check_normalized(layout: &CacheLayout, check: &NormalizedCheck) -> (r: Vec<String>)
    ensures
        texts(r@) == normalized_warnings(*layout, *check),
{
    let mut lines: Vec<String> = Vec::new();
    assert(texts(lines@) =~= seq![]);
    let manifest = normalized_manifest_for(layout, &check.path);
    if manifest.is_some() && !check.manifest_exists {
        put_label(&mut lines, "   warning  missing normalized manifest for ", &check.path);
    }
    assert(texts(lines@) =~= normalized_warnings(*layout, *check));
    lines
}

fn check_input(
    layout: &CacheLayout,
    manifest: &str,
    modified: Option<i128>,
    input: &InputCheck,
) -> (r: Vec<String>)
    ensures
        texts(r@) == input_warnings(*layout, manifest@, modified, *input),
{
    let mut lines: Vec<String> = Vec::new();
    assert(texts(lines@) =~= seq![]);
    if newer(input.modified, modified) {
        let mut line: String = "   warning  derived manifest ".to_string();
        line.append(manifest);
        line.append(" is older than input ");
        line.append(&input.path);
        put(&mut lines, line);
    }
    if let Some(other) = normalized_manifest_for(layout, &input.path) {
        if newer(input.manifest_modified, modified) {
            let mut line: String = "   warning  derived manifest ".to_string();
            line.append(manifest);
            line.append(" is older than normalized manifest ");
            line.append(&other);
            put(&mut lines, line);
        }
    }
    assert(texts(lines@) =~= input_warnings(*layout, manifest@, modified, *input));
    lines
}

/// The lines on what is wrong with a file of derived data.
pub fn check_derived(layout: &CacheLayout, check: &DerivedCheck) -> (r: Vec<String>)
    ensures
        texts(r@) == derived_warnings(*layout, *check),
{
    let mut lines: Vec<String> = Vec::new();
    assert(texts(lines@) =~= seq![]);
    let manifest = match derived_manifest_for(layout, &check.path) {
        Some(manifest) => manifest,
        None => {
            return lines;
        },
    };
    match &check.manifest {
        None => {
            put_label(&mut lines, "   warning  missing derived manifest for ", &check.path);
            assert(texts(lines@) =~= derived_warnings(*layout, *check));
            lines
        },
        Some(found) => {
            let ghost parts = Seq::new(
                found.inputs@.len(),
                |i: int| input_warnings(*layout, manifest@, found.modified, found.inputs@[i]),
            );
            let mut i: usize = 0;
            assert(parts.take(0) =~= seq![]);
            while i < found.inputs.len()
                invariant
                    i <= found.inputs@.len(),
                    parts == Seq::new(
                        found.inputs@.len(),
                        |i: int|
                            input_warnings(*layout, manifest@, found.modified, found.inputs@[i]),
                    ),
                    texts(lines@) == flat(parts.take(i as int)),
                decreases found.inputs@.len() - i,
            {
                let more = check_input(layout, &manifest, found.modified, &found.inputs[i]);
                proof {
                    lemma_flat_push(parts.take(i as int), parts[i as int]);
                    assert(parts.take(i as int).push(parts[i as int]) =~= parts.take(i + 1));
                }
                put_all(&mut lines, more);
                i += 1;
            }
            assert(parts.take(i as int) =~= parts);
            lines
        },
    }
}

/// What the examination of the cache prints: its directories, the note of its making, the files of
/// observations without a manifest, and the derived data without a manifest or with one that is
/// older than its inputs.
pub open spec fn doctor_report(
    layout: CacheLayout,
    directories_exist: Seq<bool>,
    bootstrap_exists: bool,
    normalized: Seq<NormalizedCheck>,
    derived: Seq<DerivedCheck>,
) -> Seq<Seq<char>> {
    seq![
        "cache root: "@ + layout.root@,
        status_text(directories_exist[0], layout.root@),
        status_text(directories_exist[1], layout.sources_dir@),
        status_text(directories_exist[2], layout.stations_dir@),
        status_text(directories_exist[3], layout.derived_dir@),
        status_text(directories_exist[4], layout.manifests_dir@),
        status_text(directories_exist[5], layout.logs_dir@),
        status_text(
            bootstrap_exists,
            path_join(layout.manifests_dir@, "bootstrap.json"@),
        ),
    ] + flat(Seq::new(normalized.len(), |i: int| normalized_warnings(layout, normalized[i]))) + flat(
        Seq::new(derived.len(), |i: int| derived_warnings(layout, derived[i])),
    )
}

/// What the examination of the cache prints, `directories_exist` telling of each directory of the
/// layout whether it is there.
pub fn doctor_lines(
    layout: &CacheLayout,
    directories_exist: &Vec<bool>,
    bootstrap_exists: bool,
    normalized: &Vec<NormalizedCheck>,
    derived: &Vec<DerivedCheck>,
) -> (r: Vec<String>)
    requires
        directories_exist@.len() == 6,
    ensures
        texts(r@) == doctor_report(
            *layout,
            directories_exist@,
            bootstrap_exists,
            normalized@,
            derived@,
        ),
{
    let mut lines: Vec<String> = Vec::new();
    assert(texts(lines@) =~= seq![]);
    put_label(&mut lines, "cache root: ", &layout.root);
    put(&mut lines, status_line(directories_exist[0], &layout.root));
    put(&mut lines, status_line(directories_exist[1], &layout.sources_dir));
    put(&mut lines, status_line(directories_exist[2], &layout.stations_dir));
    put(&mut lines, status_line(directories_exist[3], &layout.derived_dir));
    put(&mut lines, status_line(directories_exist[4], &layout.manifests_dir));
    put(&mut lines, status_line(directories_exist[5], &layout.logs_dir));
    put(&mut lines, status_line(bootstrap_exists, &layout.bootstrap_manifest_path()));
    let ghost head = texts(lines@);
    let ghost first = Seq::new(
        normalized@.len(),
        |i: int| normalized_warnings(*layout, normalized@[i]),
    );
    let ghost second = Seq::new(derived@.len(), |i: int| derived_warnings(*layout, derived@[i]));
    let mut i: usize = 0;
    assert(first.take(0) =~= seq![]);
    assert(head =~= head + flat(first.take(0)));
    while i < normalized.len()
        invariant
            i <= normalized@.len(),
            first == Seq::new(
                normalized@.len(),
                |i: int| normalized_warnings(*layout, normalized@[i]),
            ),
            texts(lines@) == head + flat(first.take(i as int)),
        decreases normalized@.len() - i,
    {
        let more = check_normalized(layout, &normalized[i]);
        proof {
            lemma_flat_push(first.take(i as int), first[i as int]);
            assert(first.take(i as int).push(first[i as int]) =~= first.take(i + 1));
        }
        put_all(&mut lines, more);
        assert(texts(lines@) =~= head + flat(first.take(i + 1)));
        i += 1;
    }
    assert(first.take(i as int) =~= first);
    let ghost middle = texts(lines@);
    let mut k: usize = 0;
    assert(second.take(0) =~= seq![]);
    assert(middle =~= middle + flat(second.take(0)));
    while k < derived.len()
        invariant
            k <= derived@.len(),
            second == Seq::new(derived@.len(), |i: int| derived_warnings(*layout, derived@[i])),
            texts(lines@) == middle + flat(second.take(k as int)),
        decreases derived@.len() - k,
    {
        let more = check_derived(layout, &derived[k]);
        proof {
            lemma_flat_push(second.take(k as int), second[k as int]);
            assert(second.take(k as int).push(second[k as int]) =~= second.take(k + 1));
        }
        put_all(&mut lines, more);
        assert(texts(lines@) =~= middle + flat(second.take(k + 1)));
        k += 1;
    }
    assert(second.take(k as int) =~= second);
    assert(texts(lines@) =~= doctor_report(
        *layout,
        directories_exist@,
        bootstrap_exists,
        normalized@,
        derived@,
    ));
    lines
}

} // verus!
