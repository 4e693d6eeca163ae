//! Resolution of a reference found in one document of the archive into a path
//! relative to the archive's root.
//!
//! A path is a sequence of segments separated by `/`. Resolution is purely
//! textual: it never looks at a file system.

use vstd::prelude::*;
use crate::text::chars_of;

verus! {

// ---------------------------------------------------------------------------
// The model
// ---------------------------------------------------------------------------

/// The segments of `path`: the pieces between its `/` characters. A path
/// without `/` is one segment; a path with `n` of them has `n + 1` segments,
/// some of which may be empty.
pub open spec fn split(path: Seq<char>) -> Seq<Seq<char>>
    decreases path.len(),
{
    if path.len() == 0 {
        seq![Seq::<char>::empty()]
    } else {
        let before = split(path.drop_last());
        if path.last() == '/' {
            before.push(Seq::<char>::empty())
        } else {
            before.drop_last().push(before.last().push(path.last()))
        }
    }
}

/// The segments written one after the other with a `/` between neighbours.
pub open spec fn join(segments: Seq<Seq<char>>) -> Seq<char>
    decreases segments.len(),
{
    if segments.len() == 0 {
        Seq::<char>::empty()
    } else if segments.len() == 1 {
        segments[0]
    } else {
        join(segments.drop_last()).push('/') + segments.last()
    }
}

/// The segment `.`, which stands for the directory it is found in.
pub open spec fn is_current_dir(segment: Seq<char>) -> bool {
    segment.len() == 1 && segment[0] == '.'
}

/// The segment `..`, which stands for the directory above.
pub open spec fn is_parent_dir(segment: Seq<char>) -> bool {
    segment.len() == 2 && segment[0] == '.' && segment[1] == '.'
}

/// One step of the walk: `..` takes the last segment off the stack (and does
/// nothing to an empty stack), `.` leaves the stack alone, and every other
/// segment, the empty one too, goes on top.
pub open spec fn apply_segment(stack: Seq<Seq<char>>, segment: Seq<char>) -> Seq<Seq<char>> {
    if is_parent_dir(segment) {
        if stack.len() > 0 {
            stack.drop_last()
        } else {
            stack
        }
    } else if is_current_dir(segment) {
        stack
    } else {
        stack.push(segment)
    }
}

/// The stack after `segments` have been walked from left to right, starting
/// from `stack`.
pub open spec fn walk(stack: Seq<Seq<char>>, segments: Seq<Seq<char>>) -> Seq<Seq<char>>
    decreases segments.len(),
{
    if segments.len() == 0 {
        stack
    } else {
        apply_segment(walk(stack, segments.drop_last()), segments.last())
    }
}

/// The segments of the directory that holds the document `base`: all segments
/// of `base` but the last. Empty when `base` has no `/`.
pub open spec fn parent_segments(base: Seq<char>) -> Seq<Seq<char>> {
    split(base).drop_last()
}

/// The parent directory of `base` joined with `href`, segment by segment.
pub open spec fn joined_segments(base: Seq<char>, href: Seq<char>) -> Seq<Seq<char>> {
    parent_segments(base) + split(href)
}

/// The root-relative path that `href`, found in the document at `base`,
/// refers to.
pub open spec fn resolve(base: Seq<char>, href: Seq<char>) -> Seq<char> {
    join(walk(Seq::empty(), joined_segments(base, href)))
}

/// `base` up to and including its last `/`; empty when it has none.
pub open spec fn dir_prefix(base: Seq<char>) -> Seq<char> {
    base.take(base.len() - split(base).last().len())
}

/// No segment of `segments` is `.` or `..`.
pub open spec fn no_dot_segments(segments: Seq<Seq<char>>) -> bool {
    forall|i: int|
        0 <= i < segments.len() ==> !is_current_dir(#[trigger] segments[i]) && !is_parent_dir(
            segments[i],
        )
}

// ---------------------------------------------------------------------------
// Facts about the model
// ---------------------------------------------------------------------------

/// A path always has at least one segment.
pub proof fn lemma_split_nonempty(path: Seq<char>)
    ensures
        split(path).len() >= 1,
    decreases path.len(),
{
    if path.len() > 0 {
        lemma_split_nonempty(path.drop_last());
    }
}

/// Splitting a path and joining the segments again gives the path back.
pub proof fn lemma_join_split(path: Seq<char>)
    ensures
        join(split(path)) == path,
    decreases path.len(),
{
    if path.len() == 0 {
        assert(join(split(path)) =~= path);
    } else {
        let shorter = path.drop_last();
        let before = split(shorter);
        lemma_split_nonempty(shorter);
        lemma_join_split(shorter);
        if path.last() == '/' {
            let now = before.push(Seq::<char>::empty());
            assert(now.drop_last() =~= before);
            assert(join(now) =~= shorter.push('/'));
            assert(shorter.push('/') =~= path);
        } else {
            let grown = before.last().push(path.last());
            let now = before.drop_last().push(grown);
            if before.len() == 1 {
                assert(join(now) =~= shorter.push(path.last()));
            } else {
                assert(now.drop_last() =~= before.drop_last());
                assert(join(now) =~= join(before).push(path.last()));
            }
            assert(shorter.push(path.last()) =~= path);
        }
    }
}

/// Walking two runs of segments one after the other is walking their
/// concatenation.
pub proof fn lemma_walk_concat(
    stack: Seq<Seq<char>>,
    first: Seq<Seq<char>>,
    second: Seq<Seq<char>>,
)
    ensures
        walk(stack, first + second) == walk(walk(stack, first), second),
    decreases second.len(),
{
    if second.len() == 0 {
        assert(first + second =~= first);
    } else {
        lemma_walk_concat(stack, first, second.drop_last());
        assert((first + second).drop_last() =~= first + second.drop_last());
        assert((first + second).last() == second.last());
    }
}

/// A walk over segments none of which is `.` or `..` only adds them.
pub proof fn lemma_walk_without_dots(stack: Seq<Seq<char>>, segments: Seq<Seq<char>>)
    requires
        no_dot_segments(segments),
    ensures
        walk(stack, segments) == stack + segments,
    decreases segments.len(),
{
    if segments.len() == 0 {
        assert(stack + segments =~= stack);
    } else {
        let shorter = segments.drop_last();
        assert forall|i: int| 0 <= i < shorter.len() implies !is_current_dir(
            #[trigger] shorter[i],
        ) && !is_parent_dir(shorter[i]) by {
            assert(shorter[i] == segments[i]);
        }
        lemma_walk_without_dots(stack, shorter);
        assert(!is_current_dir(segments[segments.len() - 1]));
        assert((stack + shorter).push(segments.last()) =~= stack + segments);
    }
}

/// Joining two runs of segments, the second not empty, puts one `/` between
/// what each of them joins to, unless the first run is empty.
pub proof fn lemma_join_concat(first: Seq<Seq<char>>, second: Seq<Seq<char>>)
    requires
        second.len() >= 1,
    ensures
        join(first + second) == if first.len() == 0 {
            join(second)
        } else {
            join(first).push('/') + join(second)
        },
    decreases second.len(),
{
    if first.len() == 0 {
        assert(first + second =~= second);
    } else if second.len() == 1 {
        assert((first + second).drop_last() =~= first);
        assert((first + second).last() == second[0]);
    } else {
        let shorter = second.drop_last();
        lemma_join_concat(first, shorter);
        assert((first + second).drop_last() =~= first + shorter);
        assert((first + second).last() == second.last());
        assert(join(first + second) =~= join(first).push('/') + join(second));
    }
}

/// The directory prefix of `base` is what its parent segments join to,
/// followed by a `/`; it is empty when `base` has no parent segments.
pub proof fn lemma_dir_prefix(base: Seq<char>)
    ensures
        dir_prefix(base) == if parent_segments(base).len() == 0 {
            Seq::<char>::empty()
        } else {
            join(parent_segments(base)).push('/')
        },
{
    lemma_split_nonempty(base);
    lemma_join_split(base);
    let segments = split(base);
    if segments.len() == 1 {
        assert(dir_prefix(base) =~= Seq::<char>::empty());
    } else {
        let head = join(segments.drop_last()).push('/');
        assert(base == head + segments.last());
        assert(dir_prefix(base) =~= head);
    }
}

/// Where neither the parent directory of `base` nor `href` holds a segment
/// `.` or `..`, resolution changes nothing: the result is the text of `base`
/// up to and including its last `/`, followed by `href` as it stands.
pub proof fn lemma_resolve_without_dot_segments(base: Seq<char>, href: Seq<char>)
    requires
        no_dot_segments(joined_segments(base, href)),
    ensures
        resolve(base, href) == join(joined_segments(base, href)),
        resolve(base, href) == dir_prefix(base) + href,
{
    let segments = joined_segments(base, href);
    lemma_walk_without_dots(Seq::empty(), segments);
    assert(Seq::<Seq<char>>::empty() + segments =~= segments);
    lemma_split_nonempty(href);
    lemma_join_concat(parent_segments(base), split(href));
    lemma_join_split(href);
    lemma_dir_prefix(base);
    assert(Seq::<char>::empty() + href =~= href);
}

/// No character of `segment` is the separator.
pub open spec fn is_plain(segment: Seq<char>) -> bool {
    forall|j: int| 0 <= j < segment.len() ==> segment[j] != '/'
}

/// Every one of `segments` is free of the separator.
pub open spec fn all_plain(segments: Seq<Seq<char>>) -> bool {
    forall|i: int| 0 <= i < segments.len() ==> is_plain(#[trigger] segments[i])
}

/// The segments of a path hold no `/`.
pub proof fn lemma_split_is_plain(path: Seq<char>)
    ensures
        all_plain(split(path)),
    decreases path.len(),
{
    if path.len() > 0 {
        let before = split(path.drop_last());
        lemma_split_nonempty(path.drop_last());
        lemma_split_is_plain(path.drop_last());
        let now = split(path);
        assert forall|i: int| 0 <= i < now.len() implies is_plain(#[trigger] now[i]) by {
            if i < now.len() - 1 {
                assert(now[i] == before[i]);
            } else if path.last() != '/' {
                assert(is_plain(before[before.len() - 1]));
            }
        }
    }
}

/// Text without `/` that is written behind a path lengthens its last segment
/// and changes nothing else.
pub proof fn lemma_split_append_plain(path: Seq<char>, more: Seq<char>)
    requires
        is_plain(more),
    ensures
        split(path).len() >= 1,
        split(path + more) == split(path).drop_last().push(split(path).last() + more),
    decreases more.len(),
{
    lemma_split_nonempty(path);
    let segments = split(path);
    if more.len() == 0 {
        assert(path + more =~= path);
        assert(segments.last() + more =~= segments.last());
        assert(segments.drop_last().push(segments.last()) =~= segments);
    } else {
        let shorter = more.drop_last();
        assert(is_plain(shorter)) by {
            assert forall|j: int| 0 <= j < shorter.len() implies shorter[j] != '/' by {
                assert(shorter[j] == more[j]);
            }
        }
        lemma_split_append_plain(path, shorter);
        assert((path + more).drop_last() =~= path + shorter);
        assert((path + more).last() == more.last());
        assert(more[more.len() - 1] != '/');
        let grown = segments.drop_last().push(segments.last() + shorter);
        assert(grown.drop_last() =~= segments.drop_last());
        assert((segments.last() + shorter).push(more.last()) =~= segments.last() + more);
    }
}

/// Joining segments that hold no `/` and splitting the result gives the
/// segments back, where there is at least one.
pub proof fn lemma_split_join(segments: Seq<Seq<char>>)
    requires
        segments.len() >= 1,
        all_plain(segments),
    ensures
        split(join(segments)) == segments,
    decreases segments.len(),
{
    let empty = Seq::<char>::empty();
    assert(is_plain(segments[segments.len() - 1]));
    if segments.len() == 1 {
        lemma_split_append_plain(empty, segments[0]);
        assert(empty + segments[0] =~= segments[0]);
        assert(split(empty) =~= seq![empty]);
        assert(split(empty).drop_last().push(empty + segments[0]) =~= segments);
    } else {
        let before = segments.drop_last();
        assert(all_plain(before)) by {
            assert forall|i: int| 0 <= i < before.len() implies is_plain(#[trigger] before[i]) by {
                assert(before[i] == segments[i]);
            }
        }
        lemma_split_join(before);
        let head = join(before).push('/');
        assert(head.drop_last() =~= join(before));
        assert(split(head) == before.push(empty));
        lemma_split_append_plain(head, segments.last());
        assert(before.push(empty).drop_last() =~= before);
        assert(empty + segments.last() =~= segments.last());
        assert(before.push(segments.last()) =~= segments);
    }
}

/// A walk puts nothing on the stack but segments that it was given, and
/// never `.` or `..`.
pub proof fn lemma_walk_keeps_plain_and_dotless(stack: Seq<Seq<char>>, segments: Seq<Seq<char>>)
    requires
        all_plain(stack),
        no_dot_segments(stack),
        all_plain(segments),
    ensures
        all_plain(walk(stack, segments)),
        no_dot_segments(walk(stack, segments)),
    decreases segments.len(),
{
    if segments.len() > 0 {
        let shorter = segments.drop_last();
        assert(all_plain(shorter)) by {
            assert forall|i: int| 0 <= i < shorter.len() implies is_plain(#[trigger] shorter[i]) by {
                assert(shorter[i] == segments[i]);
            }
        }
        lemma_walk_keeps_plain_and_dotless(stack, shorter);
        let before = walk(stack, shorter);
        let after = walk(stack, segments);
        assert(is_plain(segments[segments.len() - 1]));
        assert forall|i: int| 0 <= i < after.len() implies is_plain(#[trigger] after[i])
            && !is_current_dir(after[i]) && !is_parent_dir(after[i]) by {
            if i < before.len() {
                assert(after[i] == before[i]);
                assert(is_plain(before[i]));
                assert(!is_current_dir(before[i]));
            }
        }
    }
}

/// A resolved path is in its final form: it holds no segment `.` or `..`,
/// and resolving it once more, against the root, gives it back unchanged.
pub proof fn lemma_resolve_is_final(base: Seq<char>, href: Seq<char>)
    ensures
        no_dot_segments(walk(Seq::empty(), joined_segments(base, href))),
        resolve(Seq::empty(), resolve(base, href)) == resolve(base, href),
{
    let none = Seq::<Seq<char>>::empty();
    let empty = Seq::<char>::empty();
    let given = joined_segments(base, href);
    lemma_split_is_plain(base);
    lemma_split_is_plain(href);
    lemma_split_nonempty(base);
    assert(all_plain(given)) by {
        assert forall|i: int| 0 <= i < given.len() implies is_plain(#[trigger] given[i]) by {
            if i < parent_segments(base).len() {
                assert(given[i] == split(base)[i]);
            } else {
                assert(given[i] == split(href)[i - parent_segments(base).len()]);
            }
        }
    }
    lemma_walk_keeps_plain_and_dotless(none, given);
    let stack = walk(none, given);
    let path = join(stack);
    assert(split(empty) =~= seq![empty]);
    assert(parent_segments(empty) =~= none);
    assert(joined_segments(empty, path) =~= split(path));
    if stack.len() == 0 {
        assert(path =~= empty);
        let again = split(path);
        assert(again.drop_last() =~= none);
        assert(walk(none, again.drop_last()) == none);
        assert(walk(none, again) =~= seq![empty]);
    } else {
        lemma_split_join(stack);
        lemma_walk_without_dots(none, stack);
        assert(none + stack =~= stack);
    }
}

// ---------------------------------------------------------------------------
// The executable resolver
// ---------------------------------------------------------------------------

/// The segments that a stack of character vectors stands for.
pub open spec fn segment_views(stack: Seq<Vec<char>>) -> Seq<Seq<char>> {
    Seq::new(stack.len(), |i: int| stack[i]@)
}

fn apply_to_stack(stack: &mut Vec<Vec<char>>, segment: Vec<char>)
    ensures
        segment_views(final(stack)@) == apply_segment(segment_views(old(stack)@), segment@),
{
    if segment.len() == 2 && segment[0] == '.' && segment[1] == '.' {
        let _ = stack.pop();
        assert(segment_views(stack@) =~= apply_segment(segment_views(old(stack)@), segment@));
    } else if segment.len() == 1 && segment[0] == '.' {
    } else {
        stack.push(segment);
        assert(segment_views(stack@) =~= apply_segment(segment_views(old(stack)@), segment@));
    }
}

/// Walks the segments of `path` over `stack`; the last segment only where
/// `with_last` is set.
fn walk_path(stack: &mut Vec<Vec<char>>, path: &str, with_last: bool)
    ensures
        segment_views(final(stack)@) == walk(
            segment_views(old(stack)@),
            if with_last {
                split(path@)
            } else {
                split(path@).drop_last()
            },
        ),
{
    let chars = chars_of(path);
    let ghost start = segment_views(stack@);
    let mut current: Vec<char> = Vec::new();
    let mut i: usize = 0;
    assert(chars@.take(0) =~= Seq::<char>::empty());
    assert(split(chars@.take(0)).drop_last() =~= Seq::<Seq<char>>::empty());
    while i < chars.len()
        invariant
            i <= chars.len(),
            chars@ == path@,
            start == segment_views(old(stack)@),
            split(chars@.take(i as int)).len() >= 1,
            current@ == split(chars@.take(i as int)).last(),
            segment_views(stack@) == walk(start, split(chars@.take(i as int)).drop_last()),
        decreases chars.len() - i,
    {
        let c = chars[i];
        let ghost done = split(chars@.take(i as int));
        let ghost longer = chars@.take(i + 1);
        assert(longer.drop_last() =~= chars@.take(i as int));
        assert(longer.last() == c);
        if c == '/' {
            assert(split(longer) == done.push(Seq::<char>::empty()));
            assert(split(longer).drop_last() =~= done);
            apply_to_stack(stack, current);
            current = Vec::new();
        } else {
            assert(split(longer) == done.drop_last().push(done.last().push(c)));
            assert(split(longer).drop_last() =~= done.drop_last());
            current.push(c);
        }
        i += 1;
    }
    assert(chars@.take(i as int) =~= chars@);
    if with_last {
        apply_to_stack(stack, current);
    }
}

fn join_segments(segments: &Vec<Vec<char>>) -> (path: String)
    ensures
        path@ == join(segment_views(segments@)),
{
    let mut path = String::new();
    let ghost views = segment_views(segments@);
    let mut i: usize = 0;
    assert(views.take(0) =~= Seq::<Seq<char>>::empty());
    while i < segments.len()
        invariant
            i <= segments.len(),
            views == segment_views(segments@),
            path@ == join(views.take(i as int)),
        decreases segments.len() - i,
    {
        if i > 0 {
            path.push('/');
        }
        let ghost head = path@;
        let segment = &segments[i];
        let mut j: usize = 0;
        while j < segment.len()
            invariant
                j <= segment.len(),
                path@ == head + segment@.take(j as int),
            decreases segment.len() - j,
        {
            path.push(segment[j]);
            assert(segment@.take(j + 1) =~= segment@.take(j as int).push(segment@[j as int]));
            j += 1;
        }
        assert(segment@.take(j as int) =~= segment@);
        assert(views.take(i + 1).drop_last() =~= views.take(i as int));
        assert(views.take(i + 1).last() == segment@);
        assert(path@ =~= join(views.take(i + 1)));
        i += 1;
    }
    assert(views.take(i as int) =~= views);
    path
}

/// Resolves `item_href`, a reference found in the document at `opf_path`, into
/// a path relative to the archive's root.
///
/// The directory of `opf_path` is joined with `item_href`, and the segments of
/// the result are walked from left to right: `.` is dropped, `..` drops the
/// segment before it (and is itself dropped where there is none), every other
/// segment is kept.
pub fn get_abs_path(opf_path: &str, item_href: &str) -> (path: String)
    ensures
        path@ == resolve(opf_path@, item_href@),
{
    let mut stack: Vec<Vec<char>> = Vec::new();
    assert(segment_views(stack@) =~= Seq::<Seq<char>>::empty());
    walk_path(&mut stack, opf_path, false);
    walk_path(&mut stack, item_href, true);
    proof {
        lemma_walk_concat(Seq::empty(), parent_segments(opf_path@), split(item_href@));
    }
    join_segments(&stack)
}

} // verus!
