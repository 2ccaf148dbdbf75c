//! Paths as text, compared by the parts they name.

use vstd::prelude::*;

use crate::text;

verus! {

/// Where the part that starts at `from` ends: at the next slash, or at the end.
pub open spec fn part_end(path: Seq<char>, from: int) -> int
    decreases path.len() - from,
{
    if from < 0 || from >= path.len() || path[from] == '/' {
        from
    } else {
        part_end(path, from + 1)
    }
}

/// The parts a path names from `from` on. A part without a name is none, and
/// neither is one that stands for the directory it is in, unless the path
/// starts with it.
pub open spec fn parts_from(path: Seq<char>, from: int) -> Seq<Seq<char>>
    decreases path.len() + 1 - from,
{
    let end = part_end(path, from);
    if from < 0 || from >= path.len() || end < from || end > path.len() {
        Seq::empty()
    } else {
        let part = path.subrange(from, end);
        let rest = parts_from(path, end + 1);
        if part.len() == 0 || (from > 0 && part == seq!['.']) {
            rest
        } else {
            seq![part] + rest
        }
    }
}

/// Whether a path starts at the root.
pub open spec fn is_rooted(path: Seq<char>) -> bool {
    path.len() > 0 && path[0] == '/'
}

/// Whether two paths are the same, part by part.
pub open spec fn are_same(path: Seq<char>, other: Seq<char>) -> bool {
    is_rooted(path) == is_rooted(other) && parts_from(path, 0) == parts_from(other, 0)
}

/// The parts a path names.
fn parts_of(path: &str) -> (parts: Vec<String>)
    ensures
        parts@.map_values(|part: String| part@) == parts_from(path@, 0),
{
    let letters: Vec<char> = text::chars_of(path);
    let ghost named = |part: String| part@;
    let mut parts: Vec<String> = Vec::new();
    let mut from: usize = 0;
    assert(parts@.map_values(named) + parts_from(path@, 0) =~= parts_from(path@, 0));
    while from < letters.len()
        invariant
            letters@ == path@,
            named == (|part: String| part@),
            from <= letters@.len(),
            parts@.map_values(named) + parts_from(path@, from as int) == parts_from(path@, 0),
        decreases letters@.len() - from,
    {
        let mut end: usize = from;
        while end < letters.len() && letters[end] != '/'
            invariant
                letters@ == path@,
                from <= end <= letters@.len(),
                part_end(path@, from as int) == part_end(path@, end as int),
            decreases letters@.len() - end,
        {
            end = end + 1;
        }
        assert(end == part_end(path@, from as int));
        let ghost part = path@.subrange(from as int, end as int);
        let ghost before = parts@;
        let dot: bool = from > 0 && end - from == 1 && letters[from] == '.';
        proof {
            if part == seq!['.'] {
                assert(part.len() == 1 && part[0] == '.');
            }
            if dot {
                assert(part =~= seq!['.']);
            }
        }
        if end > from && !dot {
            let part: String = text::text_of(&letters, from, end);
            parts.push(part);
            assert(parts@.map_values(named) =~= before.map_values(named).push(part@));
            assert(parts@.map_values(named) + parts_from(path@, end + 1) =~= before.map_values(
                named,
            ) + (seq![part@] + parts_from(path@, end + 1)));
        }
        from = if end < letters.len() {
            end + 1
        } else {
            end
        };
    }
    assert(parts_from(path@, from as int) =~= Seq::empty());
    assert(parts@.map_values(named) =~= parts_from(path@, 0));
    parts
}

fn is_from_root(path: &str) -> (rooted: bool)
    ensures
        rooted == is_rooted(path@),
{
    let letters: Vec<char> = text::chars_of(path);
    letters.len() > 0 && letters[0] == '/'
}

/// Whether two paths are the same, part by part: repeated slashes, and parts
/// that stand for the directory they are in, make no difference.
pub fn same(path: &str, other: &str) -> (same: bool)
    ensures
        same == are_same(path@, other@),
{
    if is_from_root(path) != is_from_root(other) {
        return false;
    }
    let own: Vec<String> = parts_of(path);
    let their: Vec<String> = parts_of(other);
    let ghost named = |part: String| part@;
    if own.len() != their.len() {
        proof {
            assert(own@.map_values(named).len() != their@.map_values(named).len());
        }
        return false;
    }
    for index in 0..own.len()
        invariant
            own@.len() == their@.len(),
            named == (|part: String| part@),
            forall|i: int| 0 <= i < index ==> (#[trigger] own@[i])@ == their@[i]@,
            own@.map_values(named) == parts_from(path@, 0),
            their@.map_values(named) == parts_from(other@, 0),
    {
        if !text::same(own[index].as_str(), their[index].as_str()) {
            proof {
                assert(own@.map_values(named)[index as int] != their@.map_values(
                    named,
                )[index as int]);
            }
            return false;
        }
    }
    assert(own@.map_values(named) =~= their@.map_values(named));
    true
}

proof fn lemma_part_end(path: Seq<char>, from: int)
    requires
        0 <= from <= path.len(),
    ensures
        from <= part_end(path, from) <= path.len(),
        forall|i: int| from <= i < part_end(path, from) ==> #[trigger] path[i] != '/',
        part_end(path, from) < path.len() ==> path[part_end(path, from)] == '/',
    decreases path.len() - from,
{
    if from < path.len() && path[from] != '/' {
        lemma_part_end(path, from + 1);
    }
}

proof fn lemma_part_ends_at(path: Seq<char>, from: int, end: int)
    requires
        0 <= from <= end <= path.len(),
        forall|i: int| from <= i < end ==> #[trigger] path[i] != '/',
        end < path.len() ==> path[end] == '/',
    ensures
        part_end(path, from) == end,
    decreases end - from,
{
    if from < end {
        lemma_part_ends_at(path, from + 1, end);
    }
}

/// Past its start, what a path names depends on nothing before.
proof fn lemma_parts_of_the_rest(path: Seq<char>, from: int, other: Seq<char>, place: int)
    requires
        0 < from <= path.len(),
        0 < place <= other.len(),
        path.skip(from) == other.skip(place),
    ensures
        parts_from(path, from) == parts_from(other, place),
    decreases path.len() - from,
{
    let rest = path.skip(from);
    assert(rest.len() == path.len() - from == other.len() - place);
    if from < path.len() {
        let end = part_end(path, from);
        lemma_part_end(path, from);
        let width = end - from;
        assert forall|i: int| place <= i < place + width implies #[trigger] other[i] != '/' by {
            assert(other[i] == rest[i - place]);
            assert(path[from + (i - place)] == rest[i - place]);
        }
        if end < path.len() {
            assert(other[place + width] == rest[width]);
            assert(path[end] == rest[width]);
        }
        lemma_part_ends_at(other, place, place + width);
        assert(path.subrange(from, end) =~= rest.subrange(0, width));
        assert(other.subrange(place, place + width) =~= rest.subrange(0, width));
        if end < path.len() {
            assert(path.skip(end + 1) =~= rest.skip(width + 1));
            assert(other.skip(place + width + 1) =~= rest.skip(width + 1));
            lemma_parts_of_the_rest(path, end + 1, other, place + width + 1);
        } else {
            assert(parts_from(path, end + 1) =~= Seq::empty());
            assert(parts_from(other, place + width + 1) =~= Seq::empty());
        }
    }
}

proof fn lemma_parts_before_a_slash(left: Seq<char>, right: Seq<char>, from: int)
    requires
        0 <= from <= left.len(),
    ensures
        parts_from(left + seq!['/'] + right, from) == parts_from(left, from) + parts_from(
            seq!['/'] + right,
            0,
        ),
    decreases left.len() - from,
{
    let whole = left + seq!['/'] + right;
    let tail = seq!['/'] + right;
    if from == left.len() {
        assert(parts_from(left, from) =~= Seq::empty());
        assert(whole[from] == '/' && tail[0] == '/');
        lemma_part_ends_at(whole, from, from);
        lemma_part_ends_at(tail, 0, 0);
        assert(whole.skip(from + 1) =~= right);
        assert(tail.skip(1) =~= right);
        lemma_parts_of_the_rest(whole, from + 1, tail, 1);
        assert(whole.subrange(from, from).len() == 0);
        assert(tail.subrange(0, 0).len() == 0);
        assert(parts_from(whole, from) =~= parts_from(tail, 0));
        assert(parts_from(left, from) + parts_from(tail, 0) =~= parts_from(tail, 0));
    } else {
        let end = part_end(left, from);
        lemma_part_end(left, from);
        assert forall|i: int| from <= i < end implies #[trigger] whole[i] != '/' by {
            assert(whole[i] == left[i]);
        }
        assert(whole[end] == '/');
        lemma_part_ends_at(whole, from, end);
        assert(whole.subrange(from, end) =~= left.subrange(from, end));
        if end < left.len() {
            lemma_parts_before_a_slash(left, right, end + 1);
            assert(parts_from(whole, end + 1) == parts_from(left, end + 1) + parts_from(tail, 0));
        } else {
            assert(parts_from(left, end + 1) =~= Seq::empty());
            assert(whole.skip(end + 1) =~= right);
            assert(tail.skip(1) =~= right);
            lemma_parts_of_the_rest(whole, end + 1, tail, 1);
            lemma_part_ends_at(tail, 0, 0);
            assert(tail.subrange(0, 0).len() == 0);
            assert(parts_from(tail, 0) =~= parts_from(tail, 1));
            assert(parts_from(left, end + 1) + parts_from(tail, 0) =~= parts_from(tail, 0));
        }
        let part = left.subrange(from, end);
        assert((seq![part] + parts_from(left, end + 1)) + parts_from(tail, 0) =~= seq![part] + (
        parts_from(left, end + 1) + parts_from(tail, 0)));
    }
}

/// A slash parts a path: what stands before it and what stands after it are
/// named one after the other.
pub proof fn a_slash_parts_a_path(left: Seq<char>, right: Seq<char>)
    ensures
        parts_from(left + seq!['/'] + right, 0) == parts_from(left, 0) + parts_from(
            seq!['/'] + right,
            0,
        ),
{
    lemma_parts_before_a_slash(left, right, 0);
}

/// A text without a slash is one part, wherever it stands, unless it is empty;
/// behind a slash a single dot is none.
pub proof fn what_holds_no_slash_is_one_part(name: Seq<char>)
    requires
        forall|i: int| 0 <= i < name.len() ==> #[trigger] name[i] != '/',
    ensures
        parts_from(name, 0) == if name.len() == 0 {
            Seq::<Seq<char>>::empty()
        } else {
            seq![name]
        },
        parts_from(seq!['/'] + name, 0) == if name.len() == 0 || name == seq!['.'] {
            Seq::<Seq<char>>::empty()
        } else {
            seq![name]
        },
{
    let rooted = seq!['/'] + name;
    lemma_part_ends_at(name, 0, name.len() as int);
    lemma_part_ends_at(rooted, 0, 0);
    assert forall|i: int| 1 <= i < rooted.len() implies #[trigger] rooted[i] != '/' by {
        assert(rooted[i] == name[i - 1]);
    }
    lemma_part_ends_at(rooted, 1, rooted.len() as int);
    assert(rooted.subrange(0, 0).len() == 0);
    assert(rooted.subrange(1, rooted.len() as int) =~= name);
    assert(name.subrange(0, name.len() as int) =~= name);
    assert(parts_from(name, (name.len() + 1) as int) =~= Seq::empty());
    assert(parts_from(rooted, (rooted.len() + 1) as int) =~= Seq::empty());
    assert(parts_from(rooted, 0) =~= parts_from(rooted, 1));
    assert(seq![name] + Seq::<Seq<char>>::empty() =~= seq![name]);
}

/// Paths are compared by the parts they name and by whether they start at the
/// root, so being the same carries over: to the path itself, to the other side,
/// and from one path to the next.
pub proof fn same_paths_are_the_same_throughout(
    first: Seq<char>,
    second: Seq<char>,
    third: Seq<char>,
)
    ensures
        are_same(first, first),
        are_same(first, second) ==> are_same(second, first),
        are_same(first, second) && are_same(second, third) ==> are_same(first, third),
{
}

/// One more slash where there is one, a slash at the end and a dot behind a
/// slash make no difference.
pub proof fn slashes_and_dots_make_no_difference(left: Seq<char>, right: Seq<char>)
    requires
        left.len() > 0,
    ensures
        are_same(left + seq!['/'] + right, left + seq!['/'] + (seq!['/'] + right)),
        are_same(left + seq!['/'] + right, left + seq!['/', '.', '/'] + right),
        are_same(left, left + seq!['/']),
        !are_same(seq!['/'] + left, left) || left[0] == '/',
{
    let once = left + seq!['/'] + right;
    let twice = left + seq!['/'] + (seq!['/'] + right);
    let dotted = left + seq!['/', '.', '/'] + right;
    let none = Seq::<char>::empty();
    a_slash_parts_a_path(left, right);
    a_slash_parts_a_path(left, seq!['/'] + right);
    a_slash_parts_a_path(seq!['/'], right);
    what_holds_no_slash_is_one_part(none);
    what_holds_no_slash_is_one_part(seq!['.']);
    assert(seq!['/'] + none =~= seq!['/']);
    assert(seq!['/'] + (seq!['/'] + right) =~= seq!['/'] + seq!['/'] + right);
    let tail = parts_from(seq!['/'] + right, 0);
    assert(Seq::<Seq<char>>::empty() + tail =~= tail);
    assert(once[0] == left[0] && twice[0] == left[0] && dotted[0] == left[0]);
    a_slash_parts_a_path(left + seq!['/', '.'], right);
    assert(left + seq!['/', '.'] + seq!['/'] + right =~= dotted);
    a_slash_parts_a_path(left, seq!['.']);
    assert(left + seq!['/'] + seq!['.'] =~= left + seq!['/', '.']);
    a_slash_parts_a_path(left, none);
    assert(left + seq!['/'] + none =~= left + seq!['/']);
    let own = parts_from(left, 0);
    assert(own + Seq::<Seq<char>>::empty() =~= own);
    assert((left + seq!['/'])[0] == left[0]);
    assert((seq!['/'] + left)[0] == '/');
}

} // verus!
