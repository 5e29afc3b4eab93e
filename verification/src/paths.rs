//! Paths as text: their pieces between slashes, and what the names in them say.
use vstd::prelude::*;
use crate::domain::{station_code, StationId};
use crate::numeral::{int_value, parse_i32};
use crate::order::{is_stable_order, lemma_order_is_distinct, pick, picked, sort_order};
use crate::source::{source_with_slug, DataSource};
use crate::text::{after, slashless, spells, strip_prefix, to_chars, to_text, views};

verus! {

/// A path below another: a path that starts with a slash stands for itself.
pub open spec fn path_join(base: Seq<char>, rest: Seq<char>) -> Seq<char> {
    if rest.len() > 0 && rest[0] == '/' {
        rest
    } else if base.len() == 0 || base.last() == '/' {
        base + rest
    } else {
        base + seq!['/'] + rest
    }
}

/// A path below another.
pub fn join_path(base: &str, rest: &str) -> (r: String)
    ensures
        r@ == path_join(base@, rest@),
{
    let base_chars = to_chars(base);
    let rest_chars = to_chars(rest);
    if rest_chars.len() > 0 && rest_chars[0] == '/' {
        return rest.to_string();
    }
    let mut path: String = base.to_string();
    if base_chars.len() > 0 && base_chars[base_chars.len() - 1] != '/' {
        path.push('/');
        path.append(rest);
        assert(path@ =~= base@ + seq!['/'] + rest@);
    } else {
        path.append(rest);
    }
    path
}

/// The position behind the last slash, or the start.
pub open spec fn last_piece_start(s: Seq<char>) -> nat
    decreases s.len(),
{
    if s.len() == 0 || s.last() == '/' {
        s.len()
    } else {
        last_piece_start(s.drop_last())
    }
}

/// What stands behind the last slash holds none.
pub proof fn lemma_last_piece_start(s: Seq<char>)
    ensures
        last_piece_start(s) <= s.len(),
        last_piece_start(s) > 0 ==> s[last_piece_start(s) - 1] == '/',
        forall|i: int| last_piece_start(s) <= i < s.len() ==> #[trigger] s[i] != '/',
    decreases s.len(),
{
    if s.len() > 0 && s.last() != '/' {
        lemma_last_piece_start(s.drop_last());
        assert forall|i: int| last_piece_start(s) <= i < s.len() implies #[trigger] s[i] != '/' by {
            if i < s.len() - 1 {
                assert(s[i] == s.drop_last()[i]);
            }
        }
    }
}

/// The pieces of a path between its slashes.
pub open spec fn pieces(s: Seq<char>) -> Seq<Seq<char>>
    decreases s.len(),
    via pieces_shrink
{
    let start = last_piece_start(s) as int;
    if start == 0 {
        seq![s]
    } else {
        pieces(s.take(start - 1)).push(s.skip(start))
    }
}

#[via_fn]
proof fn pieces_shrink(s: Seq<char>) {
    lemma_last_piece_start(s);
}

/// A piece behind a slash is the last of the pieces.
pub proof fn lemma_pieces_push(base: Seq<char>, piece: Seq<char>)
    requires
        slashless(piece),
    ensures
        pieces(base + seq!['/'] + piece) == pieces(base).push(piece),
{
    let s = base + seq!['/'] + piece;
    lemma_last_piece_at(base, piece);
    assert(s.take(base.len() as int) =~= base);
    assert(s.skip(base.len() as int + 1) =~= piece);
}

proof fn lemma_last_piece_at(base: Seq<char>, piece: Seq<char>)
    requires
        slashless(piece),
    ensures
        last_piece_start(base + seq!['/'] + piece) == base.len() + 1,
    decreases piece.len(),
{
    let s = base + seq!['/'] + piece;
    if piece.len() > 0 {
        let shorter = piece.drop_last();
        assert(s.drop_last() =~= base + seq!['/'] + shorter);
        assert(s.last() == piece.last());
        lemma_last_piece_at(base, shorter);
    } else {
        assert(s.last() == '/');
    }
}

/// A name below a directory is the last piece of its path.
pub proof fn lemma_join_last_piece(base: Seq<char>, name: Seq<char>)
    requires
        slashless(name),
    ensures
        pieces(path_join(base, name)).len() > 0,
        pieces(path_join(base, name)).last() == name,
{
    if base.len() == 0 {
        assert(base + name =~= name);
        lemma_last_piece_start(name);
        if last_piece_start(name) > 0 {
            assert(name[last_piece_start(name) - 1] == '/');
        }
    } else if base.last() == '/' {
        let dir = base.drop_last();
        assert(base + name =~= dir + seq!['/'] + name);
        lemma_pieces_push(dir, name);
    } else {
        lemma_pieces_push(base, name);
    }
}

/// The pieces of a path, the last first.
pub fn split_path(path: &str) -> (r: Vec<Vec<char>>)
    ensures
        views(r@) == pieces(path@).reverse(),
{
    let chars = to_chars(path);
    let mut out: Vec<Vec<char>> = Vec::new();
    let mut end: usize = chars.len();
    let ghost mut left: Seq<char> = path@;
    assert(chars@.take(end as int) =~= left);
    assert(pieces(left).reverse() =~= views(out@) + pieces(left).reverse());
    loop
        invariant_except_break
            chars@ == path@,
            end <= chars@.len(),
            left == chars@.take(end as int),
            pieces(path@).reverse() == views(out@) + pieces(left).reverse(),
        ensures
            views(out@) == pieces(path@).reverse(),
        decreases end,
    {
        let mut start: usize = end;
        while start > 0 && chars[start - 1] != '/'
            invariant
                start <= end <= chars@.len(),
                left == chars@.take(end as int),
                last_piece_start(left) == last_piece_start(chars@.take(start as int)),
            decreases start,
        {
            assert(chars@.take(start as int).drop_last() =~= chars@.take(start - 1));
            start -= 1;
        }
        let piece = vstd::slice::slice_to_vec(
            vstd::slice::slice_subrange(chars.as_slice(), start, end),
        );
        assert(chars@.take(start as int).len() == start);
        assert(last_piece_start(left) == start);
        assert(piece@ =~= left.skip(start as int));
        let ghost before = out@;
        out.push(piece);
        assert(views(out@) =~= views(before).push(piece@));
        if start == 0 {
            assert(left.skip(0) =~= left);
            assert(pieces(left) =~= seq![piece@]);
            assert(views(out@) =~= views(before) + pieces(left).reverse());
            break;
        }
        proof {
            let rest = left.take(start - 1);
            assert(rest =~= chars@.take(start - 1));
            assert(pieces(left) == pieces(rest).push(piece@));
            assert(views(before) + pieces(left).reverse() =~= views(out@) + pieces(rest).reverse());
            left = rest;
        }
        end = start - 1;
    }
    out
}

/// The station that the pieces of a path name: behind `station=`, in the last piece that starts
/// so.
pub open spec fn station_in(pieces: Seq<Seq<char>>) -> Option<Seq<char>>
    decreases pieces.len(),
{
    if pieces.len() == 0 {
        None
    } else {
        match strip_prefix(pieces.last(), "station="@) {
            Some(code) => Some(station_code(code)),
            None => station_in(pieces.drop_last()),
        }
    }
}

/// The source that the pieces of a path name: the last piece that is a short name of a source.
pub open spec fn source_in(pieces: Seq<Seq<char>>) -> Option<DataSource>
    decreases pieces.len(),
{
    if pieces.len() == 0 {
        None
    } else {
        match source_with_slug(pieces.last()) {
            Some(source) => Some(source),
            None => source_in(pieces.drop_last()),
        }
    }
}

/// The file that the pieces of a path name: the last, but for empty ones and single dots.
pub open spec fn file_in(pieces: Seq<Seq<char>>) -> Option<Seq<char>>
    decreases pieces.len(),
{
    if pieces.len() == 0 {
        None
    } else if pieces.last().len() == 0 || pieces.last() == "."@ {
        file_in(pieces.drop_last())
    } else if pieces.last() == ".."@ {
        None
    } else {
        Some(pieces.last())
    }
}

/// The position of the last dot, or the length where there is none.
pub open spec fn last_dot(s: Seq<char>) -> nat
    decreases s.len(),
{
    if s.len() == 0 {
        0
    } else if s.last() == '.' {
        (s.len() - 1) as nat
    } else {
        let p = last_dot(s.drop_last());
        if p == s.len() - 1 {
            s.len()
        } else {
            p
        }
    }
}

/// The name of a file without its extension: the text before the last dot, unless that is empty.
pub open spec fn stem(name: Seq<char>) -> Seq<char> {
    let p = last_dot(name) as int;
    if p == 0 || p >= name.len() {
        name
    } else {
        name.take(p)
    }
}

/// The extension of a file: the text behind the last dot, unless nothing stands before the dot.
pub open spec fn extension(name: Seq<char>) -> Option<Seq<char>> {
    let p = last_dot(name) as int;
    if p == 0 || p >= name.len() {
        None
    } else {
        Some(name.skip(p + 1))
    }
}

proof fn lemma_last_dot(s: Seq<char>)
    ensures
        last_dot(s) <= s.len(),
        last_dot(s) < s.len() ==> s[last_dot(s) as int] == '.',
        forall|i: int| last_dot(s) < i < s.len() ==> #[trigger] s[i] != '.',
        last_dot(s) == s.len() ==> forall|i: int| 0 <= i < s.len() ==> #[trigger] s[i] != '.',
    decreases s.len(),
{
    if s.len() > 0 && s.last() != '.' {
        let rest = s.drop_last();
        lemma_last_dot(rest);
        assert(forall|i: int| 0 <= i < rest.len() ==> #[trigger] s[i] == rest[i]);
    }
}

/// Text without dots behind a dot leaves that dot the last.
pub proof fn lemma_last_dot_at(base: Seq<char>, ending: Seq<char>)
    requires
        forall|i: int| 0 <= i < ending.len() ==> #[trigger] ending[i] != '.',
    ensures
        last_dot(base + seq!['.'] + ending) == base.len(),
    decreases ending.len(),
{
    let s = base + seq!['.'] + ending;
    if ending.len() > 0 {
        let shorter = ending.drop_last();
        assert(s.drop_last() =~= base + seq!['.'] + shorter);
        assert(s.last() == ending.last());
        lemma_last_dot_at(base, shorter);
    } else {
        assert(s.last() == '.');
    }
}

fn find_last_dot(chars: &[char]) -> (r: usize)
    ensures
        r == last_dot(chars@),
{
    let mut end: usize = chars.len();
    while end > 0 && chars[end - 1] != '.'
        invariant
            end <= chars@.len(),
            forall|i: int| end <= i < chars@.len() ==> #[trigger] chars@[i] != '.',
        decreases end,
    {
        end -= 1;
    }
    proof {
        lemma_last_dot(chars@);
        let p = last_dot(chars@) as int;
        if end > 0 && p != end - 1 {
            assert(chars@[end - 1] == '.');
        }
    }
    if end == 0 {
        chars.len()
    } else {
        end - 1
    }
}

/// The file that a path names.
fn file_piece(backward: &Vec<Vec<char>>, Ghost(forward): Ghost<Seq<Seq<char>>>) -> (r: Option<usize>)
    requires
        views(backward@) == forward.reverse(),
    ensures
        match r {
            Some(k) => k < backward@.len() && file_in(forward) == Some(backward@[k as int]@),
            None => file_in(forward) is None,
        },
{
    let mut i: usize = 0;
    let n: usize = backward.len();
    assert(views(backward@).len() == n);
    assert(forward.take(n as int) =~= forward);
    while i < n
        invariant
            i <= n,
            n == backward@.len(),
            forward.len() == n,
            views(backward@) == forward.reverse(),
            file_in(forward) == file_in(forward.take(n - i)),
        decreases n - i,
    {
        let ghost now = forward.take(n - i);
        assert(now.last() == views(backward@)[i as int]);
        assert(now.drop_last() =~= forward.take(n - i - 1));
        if backward[i].len() == 0 || spells(&backward[i], ".") {
            i += 1;
        } else if spells(&backward[i], "..") {
            return None;
        } else {
            return Some(i);
        }
    }
    None
}

/// The year that the file of a path names, behind `year=`.
pub open spec fn year_in(pieces: Seq<Seq<char>>) -> Option<int> {
    match file_in(pieces) {
        Some(name) => match strip_prefix(stem(name), "year="@) {
            Some(numeral) => match int_value(numeral) {
                Some(year) => if i32::MIN <= year <= i32::MAX {
                    Some(year)
                } else {
                    None
                },
                None => None,
            },
            None => None,
        },
        None => None,
    }
}

pub open spec fn opt_int(year: Option<i32>) -> Option<int> {
    match year {
        Some(y) => Some(y as int),
        None => None,
    }
}

/// The year that the file of a path names.
pub fn year_from_artifact_path(path: &str) -> (r: Option<i32>)
    ensures
        opt_int(r) == year_in(pieces(path@)),
{
    let backward = split_path(path);
    match file_piece(&backward, Ghost(pieces(path@))) {
        Some(k) => {
            let name = &backward[k];
            let p: usize = find_last_dot(name);
            let start = if p == 0 || p >= name.len() {
                name.as_slice()
            } else {
                vstd::slice::slice_subrange(name.as_slice(), 0, p)
            };
            assert(start@ =~= stem(name@));
            match after(start, "year=") {
                Some(numeral) => parse_i32(numeral),
                None => None,
            }
        },
        None => None,
    }
}

/// Whether the file of a path has this extension.
pub fn has_extension(path: &str, expected: &str) -> (r: bool)
    ensures
        r == (match file_in(pieces(path@)) {
            Some(name) => extension(name) == Some(expected@),
            None => false,
        }),
{
    let backward = split_path(path);
    match file_piece(&backward, Ghost(pieces(path@))) {
        Some(k) => {
            let name = &backward[k];
            let p: usize = find_last_dot(name);
            if p == 0 || p >= name.len() {
                false
            } else {
                let ending = vstd::slice::slice_subrange(name.as_slice(), p + 1, name.len());
                assert(ending@ =~= name@.skip(p + 1));
                spells(ending, expected)
            }
        },
        None => false,
    }
}

/// The name of the file of a path.
pub fn file_name(path: &str) -> (r: Option<String>)
    ensures
        match r {
            Some(name) => file_in(pieces(path@)) == Some(name@),
            None => file_in(pieces(path@)) is None,
        },
{
    let backward = split_path(path);
    match file_piece(&backward, Ghost(pieces(path@))) {
        Some(k) => Some(to_text(&backward[k])),
        None => None,
    }
}

/// The station that a path names.
pub fn station_id_from_artifact_path(path: &str) -> (r: Option<StationId>)
    ensures
        station_in(pieces(path@)) == (match r {
            Some(station) => Some(station@),
            None => None,
        }),
{
    let backward = split_path(path);
    let ghost forward = pieces(path@);
    let n: usize = backward.len();
    let mut i: usize = 0;
    assert(views(backward@).len() == n);
    assert(forward.take(n as int) =~= forward);
    while i < n
        invariant
            i <= n,
            n == backward@.len(),
            forward.len() == n,
            forward == pieces(path@),
            views(backward@) == forward.reverse(),
            station_in(forward) == station_in(forward.take(n - i)),
        decreases n - i,
    {
        let ghost now = forward.take(n - i);
        assert(now.last() == views(backward@)[i as int]);
        assert(now.drop_last() =~= forward.take(n - i - 1));
        if let Some(code) = after(&backward[i], "station=") {
            return Some(StationId::new(&to_text(code)));
        }
        i += 1;
    }
    None
}

/// The source that a path names.
pub fn source_from_artifact_path(path: &str) -> (r: Option<DataSource>)
    ensures
        r == source_in(pieces(path@)),
{
    let backward = split_path(path);
    let ghost forward = pieces(path@);
    let n: usize = backward.len();
    let mut i: usize = 0;
    assert(views(backward@).len() == n);
    assert(forward.take(n as int) =~= forward);
    while i < n
        invariant
            i <= n,
            n == backward@.len(),
            forward.len() == n,
            forward == pieces(path@),
            views(backward@) == forward.reverse(),
            source_in(forward) == source_in(forward.take(n - i)),
        decreases n - i,
    {
        let ghost now = forward.take(n - i);
        assert(now.last() == views(backward@)[i as int]);
        assert(now.drop_last() =~= forward.take(n - i - 1));
        if let Some(source) = DataSource::from_slug(&to_text(&backward[i])) {
            return Some(source);
        }
        i += 1;
    }
    None
}

/// The pieces of a path in their order.
fn path_key(path: &str) -> (r: Vec<Vec<char>>)
    ensures
        views(r@) == pieces(path@),
{
    let mut backward = split_path(path);
    let ghost all = views(backward@);
    let n: usize = backward.len();
    let mut forward: Vec<Vec<char>> = Vec::new();
    let mut i: usize = 0;
    while i < n
        invariant
            i <= n,
            all.len() == n,
            views(backward@) == all.take(n - i),
            views(forward@) == all.reverse().take(i as int),
        decreases n - i,
    {
        let ghost left = backward@;
        assert(views(left).len() == n - i);
        match backward.pop() {
            Some(piece) => {
                let ghost before = forward@;
                forward.push(piece);
                proof {
                    assert(views(left).last() == piece@);
                    assert(views(forward@) =~= views(before).push(piece@));
                    assert(all.reverse()[i as int] == all[n - 1 - i]);
                    assert(all.take(n - i)[n - i - 1] == all[n - 1 - i]);
                    assert(views(forward@) =~= all.reverse().take(i + 1));
                    assert(views(backward@) =~= all.take(n - i - 1));
                }
            },
            None => {
                assert(false);
            },
        }
        i += 1;
    }
    assert(all.reverse().take(n as int) =~= all.reverse());
    assert(pieces(path@).reverse().reverse() =~= pieces(path@));
    forward
}

/// The keys are the pieces of the paths.
pub open spec fn keys_are_pieces(keys: Seq<Vec<Vec<char>>>, paths: Seq<String>) -> bool {
    keys.len() == paths.len() && forall|i: int|
        0 <= i < paths.len() ==> views((#[trigger] keys[i])@) == pieces(paths[i]@)
}

/// The paths in the dictionary order of their pieces.
pub open spec fn is_path_order(paths: Seq<String>, sorted: Seq<String>) -> bool {
    exists|keys: Seq<Vec<Vec<char>>>, order: Seq<usize>| #[trigger]
        keys_are_pieces(keys, paths) && #[trigger] is_stable_order(keys, order) && sorted == picked(
            paths,
            order,
        )
}

/// The paths in the dictionary order of their pieces.
pub fn sort_paths(paths: Vec<String>) -> (r: Vec<String>)
    ensures
        is_path_order(paths@, r@),
{
    let mut keys: Vec<Vec<Vec<char>>> = Vec::new();
    let mut i: usize = 0;
    while i < paths.len()
        invariant
            i <= paths@.len(),
            keys@.len() == i,
            forall|k: int| 0 <= k < i ==> views((#[trigger] keys@[k])@) == pieces(paths@[k]@),
        decreases paths@.len() - i,
    {
        keys.push(path_key(&paths[i]));
        i += 1;
    }
    assert(keys_are_pieces(keys@, paths@));
    let order = sort_order(&keys);
    proof {
        lemma_order_is_distinct(keys@, order@);
    }
    pick(paths, &order)
}

} // verus!
