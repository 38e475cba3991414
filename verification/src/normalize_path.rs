//! Lexical path normalization.
//!
//! Paths are read as text in which `/` separates segments. Nothing here
//! touches a file system: a path is simplified from its characters alone, so
//! it may name a file that does not exist yet.

use crate::text::collect_chars;
use vstd::prelude::*;
use vstd::string::*;

verus! {

/// The segments of `path`: the pieces between separators, empty ones
/// included. A path without separator has one segment.
pub open spec fn split_segments(path: Seq<char>) -> Seq<Seq<char>>
    decreases path.len(),
{
    if path.len() == 0 {
        seq![Seq::<char>::empty()]
    } else {
        let before = split_segments(path.drop_last());
        if path.last() == '/' {
            before.push(Seq::<char>::empty())
        } else {
            before.drop_last().push(before.last().push(path.last()))
        }
    }
}

/// The segment `.`, which names the directory it stands in.
pub open spec fn is_current_dir(segment: Seq<char>) -> bool {
    segment.len() == 1 && segment[0] == '.'
}

/// The segment `..`, which names the parent directory.
pub open spec fn is_parent_dir(segment: Seq<char>) -> bool {
    segment.len() == 2 && segment[0] == '.' && segment[1] == '.'
}

/// A segment that names a file or directory of its own.
pub open spec fn is_plain_segment(segment: Seq<char>) -> bool {
    &&& segment.len() > 0
    &&& !is_current_dir(segment)
    &&& !is_parent_dir(segment)
    &&& forall|i: int| 0 <= i < segment.len() ==> segment[i] != '/'
}

/// One step of normalization: what the stack of plain segments becomes when
/// `segment` is read. Empty segments and `.` leave it alone, `..` removes the
/// last plain segment if there is one, and is dropped otherwise.
pub open spec fn apply_segment(stack: Seq<Seq<char>>, segment: Seq<char>) -> Seq<Seq<char>> {
    if segment.len() == 0 || is_current_dir(segment) {
        stack
    } else if is_parent_dir(segment) {
        if stack.len() > 0 {
            stack.drop_last()
        } else {
            stack
        }
    } else {
        stack.push(segment)
    }
}

/// The plain segments that are left when `segments` are read in order.
pub open spec fn resolve_segments(segments: Seq<Seq<char>>) -> Seq<Seq<char>>
    decreases segments.len(),
{
    if segments.len() == 0 {
        Seq::<Seq<char>>::empty()
    } else {
        apply_segment(resolve_segments(segments.drop_last()), segments.last())
    }
}

/// `segments` written one after the other with a separator between them.
pub open spec fn join_segments(segments: Seq<Seq<char>>) -> Seq<char>
    decreases segments.len(),
{
    if segments.len() == 0 {
        Seq::<char>::empty()
    } else if segments.len() == 1 {
        segments[0]
    } else {
        join_segments(segments.drop_last()) + seq!['/'] + segments.last()
    }
}

/// A path that starts at the root.
pub open spec fn is_absolute(path: Seq<char>) -> bool {
    path.len() > 0 && path[0] == '/'
}

/// The root, for an absolute path; nothing, for a relative one.
pub open spec fn root_of(path: Seq<char>) -> Seq<char> {
    if is_absolute(path) {
        seq!['/']
    } else {
        Seq::<char>::empty()
    }
}

/// The normal form of `path`: its root, if it has one, and then its plain
/// segments after `.` and `..` were resolved.
pub open spec fn lexical_normal_form(path: Seq<char>) -> Seq<char> {
    root_of(path) + join_segments(resolve_segments(split_segments(path)))
}

/// The four characters `\\?\` that some platforms put in front of an
/// absolute path.
pub open spec fn verbatim_prefix() -> Seq<char> {
    seq!['\\', '\\', '?', '\\']
}

pub open spec fn has_verbatim_prefix(path: Seq<char>) -> bool {
    &&& path.len() >= 4
    &&& path[0] == '\\'
    &&& path[1] == '\\'
    &&& path[2] == '?'
    &&& path[3] == '\\'
}

/// `path` without its verbatim prefix, if it has one.
pub open spec fn strip_verbatim(path: Seq<char>) -> Seq<char> {
    if has_verbatim_prefix(path) {
        path.skip(4)
    } else {
        path
    }
}

/// `path` as a platform hands it on: without its verbatim prefix, where the
/// platform writes paths with one (`verbatim`), and as it is on any other.
pub open spec fn stripped_on(path: Seq<char>, verbatim: bool) -> Seq<char> {
    if verbatim {
        strip_verbatim(path)
    } else {
        path
    }
}

/// What `normalize_path` returns: the normal form of `path`; without its
/// verbatim prefix, where the platform writes paths with one.
pub open spec fn normalized(path: Seq<char>, verbatim: bool) -> Seq<char> {
    stripped_on(lexical_normal_form(path), verbatim)
}

/// `base` with `path` put behind it: `path` itself where it is absolute,
/// else both, with a separator between them unless `base` is empty or
/// already ends in one.
pub open spec fn joined(base: Seq<char>, path: Seq<char>) -> Seq<char> {
    if is_absolute(path) {
        path
    } else if base.len() == 0 || base.last() == '/' {
        base + path
    } else {
        base + seq!['/'] + path
    }
}

/// The directory that holds `path`: everything before the last segment of
/// its normal form.
pub open spec fn parent_of(path: Seq<char>) -> Seq<char> {
    let kept = resolve_segments(split_segments(path));
    if kept.len() == 0 {
        root_of(path)
    } else {
        root_of(path) + join_segments(kept.drop_last())
    }
}

/// The segments that `ranges` cut out of `chars`.
spec fn segments_at(chars: Seq<char>, ranges: Seq<(usize, usize)>) -> Seq<Seq<char>> {
    Seq::new(ranges.len(), |k: int| chars.subrange(ranges[k].0 as int, ranges[k].1 as int))
}

spec fn ranges_within(ranges: Seq<(usize, usize)>, limit: int) -> bool {
    forall|k: int| 0 <= k < ranges.len() ==> #[trigger] ranges[k].0 <= ranges[k].1 <= limit
}

proof fn lemma_split_step(path: Seq<char>, i: int)
    requires
        0 <= i < path.len(),
    ensures
        path.take(i + 1).drop_last() == path.take(i),
        path.take(i + 1).last() == path[i],
        split_segments(path.take(i + 1)).len() > 0,
        split_segments(path.take(i)).len() > 0,
{
    assert(path.take(i + 1).drop_last() =~= path.take(i));
    lemma_split_nonempty(path.take(i + 1));
    lemma_split_nonempty(path.take(i));
}

/// A path always has a segment, though it may be empty.
pub proof fn lemma_split_nonempty(path: Seq<char>)
    ensures
        split_segments(path).len() > 0,
    decreases path.len(),
{
    if path.len() > 0 {
        lemma_split_nonempty(path.drop_last());
    }
}

/// Reads the segment `chars[start..end)` onto the stack of kept ranges.
fn read_segment(chars: &Vec<char>, stack: &mut Vec<(usize, usize)>, start: usize, end: usize)
    requires
        start <= end <= chars.len(),
        ranges_within(old(stack)@, chars.len() as int),
    ensures
        ranges_within(final(stack)@, chars.len() as int),
        segments_at(chars@, final(stack)@) == apply_segment(
            segments_at(chars@, old(stack)@),
            chars@.subrange(start as int, end as int),
        ),
{
    let ghost before = segments_at(chars@, stack@);
    let ghost segment = chars@.subrange(start as int, end as int);
    let len = end - start;
    if len == 0 {
    } else if len == 1 && chars[start] == '.' {
        assert(is_current_dir(segment));
    } else if len == 2 && chars[start] == '.' && chars[start + 1] == '.' {
        assert(is_parent_dir(segment));
        if stack.len() > 0 {
            stack.pop();
            assert(segments_at(chars@, stack@) =~= before.drop_last());
        }
    } else {
        assert(!is_current_dir(segment));
        assert(!is_parent_dir(segment)) by {
            if len == 2 {
                assert(segment[0] == chars[start as int]);
                assert(segment[1] == chars[start + 1]);
            }
        }
        stack.push((start, end));
        assert(segments_at(chars@, stack@) =~= before.push(segment));
    }
}

/// The ranges of the plain segments that are left of `chars`.
fn kept_ranges(chars: &Vec<char>) -> (stack: Vec<(usize, usize)>)
    ensures
        ranges_within(stack@, chars.len() as int),
        segments_at(chars@, stack@) == resolve_segments(split_segments(chars@)),
{
    let n = chars.len();
    let mut stack: Vec<(usize, usize)> = Vec::new();
    let mut start: usize = 0;
    let mut i: usize = 0;
    proof {
        assert(chars@.take(0) =~= Seq::<char>::empty());
        assert(split_segments(chars@.take(0)) =~= seq![Seq::<char>::empty()]);
        assert(split_segments(chars@.take(0)).drop_last() =~= Seq::<Seq<char>>::empty());
        assert(segments_at(chars@, stack@) =~= Seq::<Seq<char>>::empty());
        assert(chars@.subrange(0, 0) =~= Seq::<char>::empty());
    }
    while i < n
        invariant
            n == chars.len(),
            start <= i <= n,
            ranges_within(stack@, n as int),
            split_segments(chars@.take(i as int)).len() > 0,
            chars@.subrange(start as int, i as int) == split_segments(chars@.take(i as int)).last(),
            segments_at(chars@, stack@) == resolve_segments(
                split_segments(chars@.take(i as int)).drop_last(),
            ),
        decreases n - i,
    {
        proof {
            lemma_split_step(chars@, i as int);
        }
        let ghost before = split_segments(chars@.take(i as int));
        let ghost after = split_segments(chars@.take(i + 1));
        if chars[i] == '/' {
            read_segment(chars, &mut stack, start, i);
            start = i + 1;
            proof {
                assert(after == before.push(Seq::<char>::empty()));
                assert(after.drop_last() =~= before);
                assert(before.drop_last().push(before.last()) =~= before);
                assert(chars@.subrange(start as int, i + 1) =~= Seq::<char>::empty());
            }
        } else {
            proof {
                assert(after == before.drop_last().push(before.last().push(chars@[i as int])));
                assert(after.drop_last() =~= before.drop_last());
                assert(chars@.subrange(start as int, i + 1) =~= chars@.subrange(
                    start as int,
                    i as int,
                ).push(chars@[i as int]));
            }
        }
        i = i + 1;
    }
    read_segment(chars, &mut stack, start, n);
    proof {
        assert(chars@.take(n as int) =~= chars@);
        let all = split_segments(chars@);
        assert(all.drop_last().push(all.last()) =~= all);
    }
    stack
}

/// The root of `path`, if it has one, and the first `count` of the segments
/// that `stack` cuts out of it.
fn write_segments(path: &str, chars: &Vec<char>, stack: &Vec<(usize, usize)>, count: usize) -> (out:
    String)
    requires
        chars@ == path@,
        count <= stack.len(),
        ranges_within(stack@, chars.len() as int),
    ensures
        out@ == root_of(path@) + join_segments(segments_at(chars@, stack@).take(count as int)),
{
    let ghost kept = segments_at(chars@, stack@);
    let mut out = String::new();
    if chars.len() > 0 && chars[0] == '/' {
        proof {
            reveal_strlit("/");
        }
        out.append("/");
        assert(out@ =~= seq!['/']);
    }
    assert(out@ =~= root_of(path@));
    assert(kept.take(0) =~= Seq::<Seq<char>>::empty());
    let mut k: usize = 0;
    while k < count
        invariant
            k <= count <= stack.len(),
            chars@ == path@,
            ranges_within(stack@, chars.len() as int),
            kept == segments_at(chars@, stack@),
            out@ == root_of(path@) + join_segments(kept.take(k as int)),
        decreases count - k,
    {
        let (from, to) = stack[k];
        proof {
            reveal_strlit("/");
            assert(kept.take(k + 1).drop_last() =~= kept.take(k as int));
            assert(kept.take(k + 1).last() == kept[k as int]);
            assert(kept[k as int] == chars@.subrange(from as int, to as int));
        }
        if k > 0 {
            out.append("/");
        }
        out.append(path.substring_char(from, to));
        proof {
            if k == 0 {
                assert(join_segments(kept.take(1)) == kept[0]);
                assert(out@ =~= root_of(path@) + join_segments(kept.take(1)));
            } else {
                assert(out@ =~= root_of(path@) + (join_segments(kept.take(k as int)) + seq!['/']
                    + kept[k as int]));
            }
        }
        k = k + 1;
    }
    out
}

/// `path` with `.` and `..` resolved from its text alone. `verbatim` says
/// whether the platform writes paths with a verbatim prefix: only there is
/// that prefix taken off the result.
///
/// `..` removes the segment before it; at the root, or where nothing is left
/// to remove, it is dropped. Repeated and trailing separators vanish.
pub fn normalize_path(path: &str, verbatim: bool) -> (normal: String)
    ensures
        normal@ == normalized(path@, verbatim),
{
    let chars = collect_chars(path);
    let stack = kept_ranges(&chars);
    let out = write_segments(path, &chars, &stack, stack.len());
    assert(segments_at(chars@, stack@).take(stack.len() as int) =~= segments_at(chars@, stack@));
    strip_windows_prefix(out.as_str(), verbatim)
}

/// The directory that holds `path`, in normal form: the root alone for a
/// path that names the root, and nothing for a single relative segment.
pub fn parent_dir(path: &str) -> (parent: String)
    ensures
        parent@ == parent_of(path@),
{
    let chars = collect_chars(path);
    let stack = kept_ranges(&chars);
    let count = if stack.len() > 0 {
        stack.len() - 1
    } else {
        0
    };
    let parent = write_segments(path, &chars, &stack, count);
    proof {
        let kept = segments_at(chars@, stack@);
        if stack.len() == 0 {
            assert(kept.take(0) =~= Seq::<Seq<char>>::empty());
        } else {
            assert(kept.take(count as int) =~= kept.drop_last());
        }
    }
    parent
}

/// `path` without the verbatim prefix `\\?\`, if it starts with it and the
/// platform writes paths with one (`verbatim`); on any other platform,
/// `path` as it is.
pub fn strip_windows_prefix(path: &str, verbatim: bool) -> (stripped: String)
    ensures
        stripped@ == stripped_on(path@, verbatim),
{
    let n = path.unicode_len();
    if verbatim && n >= 4 && path.get_char(0) == '\\' && path.get_char(1) == '\\' && path.get_char(2) == '?'
        && path.get_char(3) == '\\' {
        let rest = path.substring_char(4, n);
        assert(rest@ =~= path@.skip(4));
        String::from_str(rest)
    } else {
        String::from_str(path)
    }
}

/// `path` put behind `base`, as a path is joined onto a directory.
pub fn join_path(base: &str, path: &str) -> (whole: String)
    ensures
        whole@ == joined(base@, path@),
{
    let path_len = path.unicode_len();
    if path_len > 0 && path.get_char(0) == '/' {
        return String::from_str(path);
    }
    let base_len = base.unicode_len();
    let mut whole = String::from_str(base);
    if base_len > 0 && base.get_char(base_len - 1) != '/' {
        proof {
            reveal_strlit("/");
        }
        whole.append("/");
    }
    whole.append(path);
    whole
}

/// Every segment of a path is free of separators.
pub proof fn lemma_segments_have_no_separator(path: Seq<char>)
    ensures
        forall|k: int, i: int|
            #![trigger split_segments(path)[k][i]]
            0 <= k < split_segments(path).len() && 0 <= i < split_segments(path)[k].len()
                ==> split_segments(path)[k][i] != '/',
    decreases path.len(),
{
    if path.len() > 0 {
        lemma_segments_have_no_separator(path.drop_last());
        lemma_split_nonempty(path.drop_last());
    }
}

/// Splitting at a separator splits the list of segments.
pub proof fn lemma_split_at_separator(left: Seq<char>, right: Seq<char>)
    ensures
        split_segments(left + seq!['/'] + right) == split_segments(left) + split_segments(right),
    decreases right.len(),
{
    let whole = left + seq!['/'] + right;
    if right.len() == 0 {
        assert(whole.drop_last() =~= left);
        assert(split_segments(right) =~= seq![Seq::<char>::empty()]);
        assert(split_segments(whole) =~= split_segments(left) + split_segments(right));
    } else {
        lemma_split_at_separator(left, right.drop_last());
        lemma_split_nonempty(right.drop_last());
        assert(whole.drop_last() =~= left + seq!['/'] + right.drop_last());
        assert(whole.last() == right.last());
        let inner = split_segments(right.drop_last());
        let before = split_segments(left) + inner;
        if right.last() == '/' {
            assert(before.push(Seq::<char>::empty()) =~= split_segments(left) + inner.push(
                Seq::<char>::empty(),
            ));
        } else {
            assert(before.last() == inner.last());
            assert(before.drop_last() =~= split_segments(left) + inner.drop_last());
            assert(before.drop_last().push(before.last().push(right.last())) =~= split_segments(
                left,
            ) + inner.drop_last().push(inner.last().push(right.last())));
        }
    }
}

/// A text without separator is its own single segment.
pub proof fn lemma_split_one_segment(segment: Seq<char>)
    requires
        forall|i: int| 0 <= i < segment.len() ==> segment[i] != '/',
    ensures
        split_segments(segment) == seq![segment],
    decreases segment.len(),
{
    if segment.len() == 0 {
        assert(segment =~= Seq::<char>::empty());
    } else {
        let front = segment.drop_last();
        lemma_split_one_segment(front);
        let before = seq![front];
        assert(before.last() == front);
        assert(front.push(segment.last()) =~= segment);
        assert(before.drop_last().push(segment) =~= seq![segment]);
    }
}

/// Joining plain segments and splitting the result gives them back.
pub proof fn lemma_split_of_join(segments: Seq<Seq<char>>)
    requires
        segments.len() > 0,
        forall|k: int| 0 <= k < segments.len() ==> is_plain_segment(#[trigger] segments[k]),
    ensures
        split_segments(join_segments(segments)) == segments,
    decreases segments.len(),
{
    if segments.len() == 1 {
        lemma_split_one_segment(segments[0]);
        assert(seq![segments[0]] =~= segments);
    } else {
        let front = segments.drop_last();
        lemma_split_of_join(front);
        lemma_split_at_separator(join_segments(front), segments.last());
        lemma_split_one_segment(segments.last());
        assert(front + seq![segments.last()] =~= segments);
    }
}

/// Plain segments are kept as they are.
pub proof fn lemma_resolve_plain(lead: Seq<Seq<char>>, segments: Seq<Seq<char>>)
    requires
        forall|k: int| 0 <= k < lead.len() ==> (#[trigger] lead[k]).len() == 0,
        forall|k: int| 0 <= k < segments.len() ==> is_plain_segment(#[trigger] segments[k]),
    ensures
        resolve_segments(lead + segments) == segments,
    decreases lead.len() + segments.len(),
{
    let all = lead + segments;
    if segments.len() > 0 {
        lemma_resolve_plain(lead, segments.drop_last());
        assert(all.drop_last() =~= lead + segments.drop_last());
        assert(all.last() == segments.last());
        assert(segments.drop_last().push(segments.last()) =~= segments);
    } else if lead.len() > 0 {
        lemma_resolve_plain(lead.drop_last(), segments);
        assert(all.drop_last() =~= lead.drop_last() + segments);
        assert(all.last() == lead.last());
    } else {
        assert(all =~= Seq::<Seq<char>>::empty());
    }
}

/// What is kept of separator-free segments is plain.
pub proof fn lemma_resolved_are_plain(segments: Seq<Seq<char>>)
    requires
        forall|k: int, i: int|
            #![trigger segments[k][i]]
            0 <= k < segments.len() && 0 <= i < segments[k].len() ==> segments[k][i] != '/',
    ensures
        forall|k: int|
            0 <= k < resolve_segments(segments).len() ==> is_plain_segment(
                #[trigger] resolve_segments(segments)[k],
            ),
    decreases segments.len(),
{
    if segments.len() > 0 {
        let front = segments.drop_last();
        assert forall|k: int, i: int|
            #![trigger front[k][i]]
            0 <= k < front.len() && 0 <= i < front[k].len() implies front[k][i] != '/' by {
            assert(front[k][i] == segments[k][i]);
        }
        lemma_resolved_are_plain(front);
        let last = segments.last();
        assert forall|i: int| 0 <= i < last.len() implies last[i] != '/' by {
            assert(last[i] == segments[segments.len() - 1][i]);
        }
        let kept = resolve_segments(front);
        let after = resolve_segments(segments);
        assert(after == apply_segment(kept, last));
        assert forall|k: int| 0 <= k < after.len() implies is_plain_segment(
            #[trigger] after[k],
        ) by {
            if last.len() == 0 || is_current_dir(last) {
                assert(after[k] == kept[k]);
            } else if is_parent_dir(last) {
                assert(after[k] == kept[k]);
            } else if k < kept.len() {
                assert(after[k] == kept[k]);
            } else {
                assert(after[k] == last);
            }
        }
    }
}

/// The plain segments of any path.
pub proof fn lemma_kept_segments_are_plain(path: Seq<char>)
    ensures
        forall|k: int|
            0 <= k < resolve_segments(split_segments(path)).len() ==> is_plain_segment(
                #[trigger] resolve_segments(split_segments(path))[k],
            ),
{
    lemma_segments_have_no_separator(path);
    lemma_resolved_are_plain(split_segments(path));
}

/// Joined plain segments start with the first of them.
pub proof fn lemma_join_starts_with_first(segments: Seq<Seq<char>>)
    requires
        segments.len() > 0,
        segments[0].len() > 0,
    ensures
        join_segments(segments).len() > 0,
        join_segments(segments)[0] == segments[0][0],
    decreases segments.len(),
{
    if segments.len() > 1 {
        lemma_join_starts_with_first(segments.drop_last());
    }
}

/// The empty segments that stand before the plain segments of a normal
/// form: one where it is rooted, one where it is empty, two where it is the
/// root alone.
pub open spec fn leading_segments(rooted: bool, bare: bool) -> Seq<Seq<char>> {
    if rooted && bare {
        seq![Seq::<char>::empty(), Seq::<char>::empty()]
    } else if rooted || bare {
        seq![Seq::<char>::empty()]
    } else {
        Seq::<Seq<char>>::empty()
    }
}

/// A rooted list of plain segments is in normal form, and its segments are
/// those of the list, behind an empty one where it is rooted.
pub proof fn lemma_normal_form_of_joined(rooted: bool, segments: Seq<Seq<char>>)
    requires
        forall|k: int| 0 <= k < segments.len() ==> is_plain_segment(#[trigger] segments[k]),
    ensures
        ({
            let text = (if rooted {
                seq!['/']
            } else {
                Seq::<char>::empty()
            }) + join_segments(segments);
            &&& is_absolute(text) == rooted
            &&& resolve_segments(split_segments(text)) == segments
            &&& lexical_normal_form(text) == text
            &&& split_segments(text) == leading_segments(rooted, segments.len() == 0) + segments
        }),
{
    let empty = Seq::<char>::empty();
    let body = join_segments(segments);
    if segments.len() == 0 {
        if rooted {
            let text = seq!['/'] + body;
            assert(text =~= seq!['/']);
            assert(text.drop_last() =~= empty);
            assert(split_segments(empty) =~= seq![empty]);
            assert(text.last() == '/');
            assert(split_segments(text) == split_segments(empty).push(empty));
            assert(split_segments(text) =~= seq![empty, empty]);
            lemma_resolve_plain(seq![empty, empty], segments);
            assert(seq![empty, empty] + segments =~= seq![empty, empty]);
            assert(split_segments(text) =~= leading_segments(true, true) + segments);
        } else {
            let text = empty + body;
            assert(text =~= empty);
            assert(split_segments(text) =~= seq![empty]);
            lemma_resolve_plain(seq![empty], segments);
            assert(seq![empty] + segments =~= seq![empty]);
            assert(split_segments(text) =~= leading_segments(false, true) + segments);
        }
    } else {
        lemma_split_of_join(segments);
        lemma_join_starts_with_first(segments);
        assert(segments[0][0] != '/');
        if rooted {
            let text = seq!['/'] + body;
            assert(text =~= empty + seq!['/'] + body);
            lemma_split_at_separator(empty, body);
            lemma_resolve_plain(seq![empty], segments);
            assert(text[0] == '/');
            assert(split_segments(empty) =~= seq![empty]);
            assert(split_segments(text) == seq![empty] + segments);
            assert(split_segments(text) =~= leading_segments(true, false) + segments);
        } else {
            let text = empty + body;
            assert(text =~= body);
            lemma_resolve_plain(Seq::<Seq<char>>::empty(), segments);
            assert(Seq::<Seq<char>>::empty() + segments =~= segments);
            assert(split_segments(text) =~= leading_segments(false, false) + segments);
        }
    }
}

/// Normalizing a normal form changes nothing, and a path stays absolute or
/// relative as it was.
pub proof fn lemma_normal_form_idempotent(path: Seq<char>)
    ensures
        lexical_normal_form(lexical_normal_form(path)) == lexical_normal_form(path),
        is_absolute(lexical_normal_form(path)) == is_absolute(path),
{
    lemma_kept_segments_are_plain(path);
    lemma_normal_form_of_joined(is_absolute(path), resolve_segments(split_segments(path)));
}

/// `part` is made of elements of `whole`, taken at `places` in their order.
pub open spec fn taken_in_order(
    part: Seq<Seq<char>>,
    whole: Seq<Seq<char>>,
    places: Seq<int>,
) -> bool {
    &&& places.len() == part.len()
    &&& forall|k: int|
        0 <= k < part.len() ==> 0 <= #[trigger] places[k] < whole.len() && part[k]
            == whole[places[k]]
    &&& forall|j: int, k: int| 0 <= j < k < part.len() ==> #[trigger] places[j] < #[trigger] places[k]
}

/// The segments that are kept are segments of the path, in the order in
/// which the path has them: normalization brings in nothing and moves
/// nothing.
pub proof fn lemma_kept_segments_are_taken_in_order(segments: Seq<Seq<char>>) -> (places: Seq<int>)
    ensures
        taken_in_order(resolve_segments(segments), segments, places),
    decreases segments.len(),
{
    if segments.len() == 0 {
        Seq::<int>::empty()
    } else {
        let front = segments.drop_last();
        let before = lemma_kept_segments_are_taken_in_order(front);
        let kept = resolve_segments(front);
        let last = segments.last();
        assert forall|k: int| 0 <= k < kept.len() implies kept[k] == segments[before[k]] by {
            assert(front[before[k]] == segments[before[k]]);
        }
        if last.len() == 0 || is_current_dir(last) {
            before
        } else if is_parent_dir(last) {
            if kept.len() > 0 {
                before.drop_last()
            } else {
                before
            }
        } else {
            before.push(segments.len() - 1)
        }
    }
}

/// No segment of a normal form is `.` or `..`: each is a plain segment, or
/// the empty one before the root's separator.
pub proof fn lemma_normal_form_has_no_dot_segment(path: Seq<char>)
    ensures
        forall|k: int|
            0 <= k < split_segments(lexical_normal_form(path)).len() ==> {
                let segment = #[trigger] split_segments(lexical_normal_form(path))[k];
                !is_current_dir(segment) && !is_parent_dir(segment)
            },
{
    lemma_kept_segments_are_plain(path);
    lemma_normal_form_of_joined(is_absolute(path), resolve_segments(split_segments(path)));
    let form = lexical_normal_form(path);
    let text = (if is_absolute(path) {
        seq!['/']
    } else {
        Seq::<char>::empty()
    }) + join_segments(resolve_segments(split_segments(path)));
    assert(form == text);
    let kept = resolve_segments(split_segments(path));
    let lead = leading_segments(is_absolute(path), kept.len() == 0);
    assert(split_segments(form) == lead + kept);
    assert forall|k: int| 0 <= k < split_segments(form).len() implies {
        let segment = #[trigger] split_segments(form)[k];
        !is_current_dir(segment) && !is_parent_dir(segment)
    } by {
        if k < lead.len() {
            assert(split_segments(form)[k] == lead[k]);
            assert(lead[k].len() == 0);
        } else {
            assert(split_segments(form)[k] == kept[k - lead.len()]);
            assert(is_plain_segment(kept[k - lead.len()]));
        }
    }
}

/// An absolute path has no verbatim prefix to lose, so on every platform
/// what `normalize_path` makes of it is its normal form, which is absolute,
/// and normalizing that again changes nothing.
pub proof fn lemma_normalized_absolute(path: Seq<char>, verbatim: bool)
    requires
        is_absolute(path),
    ensures
        normalized(path, verbatim) == lexical_normal_form(path),
        is_absolute(normalized(path, verbatim)),
        normalized(normalized(path, verbatim), verbatim) == normalized(path, verbatim),
{
    lemma_normal_form_idempotent(path);
    lemma_normal_form_idempotent(lexical_normal_form(path));
}

/// On a platform that writes no verbatim prefix nothing is taken off a
/// path: what `normalize_path` makes of it is its normal form. Normalizing
/// that again changes nothing, it has a root exactly when the path has one,
/// and none of its segments is `.` or `..`.
pub proof fn lemma_normalized_without_prefix(path: Seq<char>)
    ensures
        normalized(path, false) == lexical_normal_form(path),
        normalized(normalized(path, false), false) == normalized(path, false),
        is_absolute(normalized(path, false)) == is_absolute(path),
        forall|k: int|
            0 <= k < split_segments(normalized(path, false)).len() ==> {
                let segment = #[trigger] split_segments(normalized(path, false))[k];
                !is_current_dir(segment) && !is_parent_dir(segment)
            },
{
    lemma_normal_form_idempotent(path);
    lemma_normal_form_has_no_dot_segment(path);
}


} // verus!
