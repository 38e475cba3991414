//! From the path that a script names to the path of the file to write.

use crate::engine::value_shape;
use crate::js_convert_judge::{extract_string, string_text_of};
use crate::normalize_path::{
    has_verbatim_prefix, is_absolute, is_current_dir, is_parent_dir, is_plain_segment, join_path,
    join_segments, joined, lemma_kept_segments_are_plain, lemma_normal_form_idempotent,
    lemma_normal_form_of_joined, lemma_normalized_absolute, lemma_normalized_without_prefix,
    lexical_normal_form, normalize_path, normalized, resolve_segments, split_segments,
};
use crate::replace_prefix_or_not::{
    has_match, lemma_longest_exists, longest_index, matches_at, replace_prefix_longest,
    substituted, substitution, AliasEntries, PathAliasTable,
};
use boa_engine::JsValue;
use vstd::prelude::*;
use vstd::string::*;

verus! {

/// `key_path` before it is normalized: its longest alias replaced by the
/// alias's directory or, where it starts with no alias, `key_path` joined
/// onto `base`.
pub open spec fn placed(entries: AliasEntries, base: Seq<char>, key_path: Seq<char>) -> Seq<char> {
    if has_match(entries, key_path) {
        substitution(entries, key_path, longest_index(entries, key_path))
    } else {
        joined(base, key_path)
    }
}

/// The file that `key_path` names: its longest alias replaced by the alias's
/// directory or, where it starts with no alias, `key_path` joined onto
/// `base`; then what `normalize_path` makes of that on the platform.
pub open spec fn resolved(
    entries: AliasEntries,
    base: Seq<char>,
    key_path: Seq<char>,
    verbatim: bool,
) -> Seq<char> {
    normalized(placed(entries, base, key_path), verbatim)
}

/// Every directory of the table is absolute.
pub open spec fn directories_are_absolute(entries: AliasEntries) -> bool {
    forall|i: int| 0 <= i < entries.len() ==> is_absolute((#[trigger] entries[i]).1)
}

/// The path of the file that `key_path` names, given the aliases and the
/// directory `current_path` that relative paths start from. `verbatim` says
/// whether the platform writes paths with a verbatim prefix.
pub fn from_string_to_path_string(
    path_alias: &PathAliasTable,
    current_path: &str,
    key_path: String,
    verbatim: bool,
) -> (target: String)
    ensures
        target@ == resolved(path_alias@, current_path@, key_path@, verbatim),
{
    let raw = match path_alias.longest_alias(key_path.as_str()) {
        Some(_) => replace_prefix_longest(key_path.as_str(), path_alias),
        None => join_path(current_path, key_path.as_str()),
    };
    normalize_path(raw.as_str(), verbatim)
}

/// The path of the file that the value `key_path` names: where it is a
/// string, what it holds, else the form in which the engine displays it,
/// resolved as `from_string_to_path_string` resolves a text.
pub fn from_js_value_to_path_string(
    path_alias: &PathAliasTable,
    current_path: &str,
    key_path: &JsValue,
    verbatim: bool,
) -> (target: String)
    ensures
        exists|key: Seq<char>| target@ == resolved(path_alias@, current_path@, key, verbatim),
        string_text_of(value_shape(*key_path)) matches Some(key) ==> target@ == resolved(
            path_alias@,
            current_path@,
            key,
            verbatim,
        ),
{
    let key = extract_string(key_path);
    from_string_to_path_string(path_alias, current_path, key, verbatim)
}

/// Joined plain segments, taken apart at the first of them.
proof fn lemma_join_from_the_left(segments: Seq<Seq<char>>)
    requires
        segments.len() >= 2,
    ensures
        join_segments(segments) == segments[0] + seq!['/'] + join_segments(segments.skip(1)),
    decreases segments.len(),
{
    let rest = segments.skip(1);
    if segments.len() == 2 {
        assert(segments.drop_last() =~= seq![segments[0]]);
        assert(rest =~= seq![segments[1]]);
        assert(join_segments(segments.drop_last()) == segments[0]);
        assert(join_segments(rest) == segments[1]);
    } else {
        let front = segments.drop_last();
        lemma_join_from_the_left(front);
        assert(rest.drop_last() =~= front.skip(1));
        assert(rest.last() == segments.last());
        assert(front[0] == segments[0]);
        assert(join_segments(segments) =~= segments[0] + seq!['/'] + (join_segments(
            front.skip(1),
        ) + seq!['/'] + segments.last()));
    }
}

/// Where the result of `normalize_path` is absolute, it is a normal form.
pub proof fn lemma_absolute_result_is_normal(path: Seq<char>, verbatim: bool)
    requires
        is_absolute(normalized(path, verbatim)),
    ensures
        normalized(normalized(path, verbatim), verbatim) == normalized(path, verbatim),
{
    let form = lexical_normal_form(path);
    lemma_normal_form_idempotent(path);
    if is_absolute(path) {
        lemma_normalized_absolute(path, verbatim);
    } else {
        // The normal form is relative, so a verbatim prefix was taken off it.
        assert(has_verbatim_prefix(form));
        let kept = resolve_segments(split_segments(path));
        lemma_kept_segments_are_plain(path);
        assert(form =~= join_segments(kept));
        let result = form.skip(4);
        assert(result[0] == form[4]);
        assert(kept.len() >= 2 && kept[0].len() == 4) by {
            assert(kept.len() > 0);
            assert(is_plain_segment(kept[0]));
            if kept.len() == 1 {
                assert(form == kept[0]);
                assert(kept[0][4] != '/');
            } else {
                lemma_join_from_the_left(kept);
                let tail = seq!['/'] + join_segments(kept.skip(1));
                assert(form =~= kept[0] + tail);
                if kept[0].len() > 4 {
                    assert(form[4] == kept[0][4]);
                } else if kept[0].len() < 4 {
                    assert(form[kept[0].len() as int] == tail[0]);
                }
            }
        }
        lemma_join_from_the_left(kept);
        let later = kept.skip(1);
        assert(result =~= seq!['/'] + join_segments(later));
        assert forall|k: int| 0 <= k < later.len() implies is_plain_segment(
            #[trigger] later[k],
        ) by {
            assert(later[k] == kept[k + 1]);
        }
        lemma_normal_form_of_joined(true, later);
    }
}

/// Substituting the longest alias of a path and normalizing, done again on
/// its own result, changes nothing, where the result starts with no alias.
/// On a platform that writes no verbatim prefix this holds of every path.
/// On the others the relative paths that lost a verbatim prefix are left
/// out: without it they may be read differently.
pub proof fn lemma_alias_resolution_is_idempotent(
    entries: AliasEntries,
    path: Seq<char>,
    verbatim: bool,
)
    requires
        !has_match(entries, normalized(substituted(entries, path), verbatim)),
        !verbatim || is_absolute(normalized(substituted(entries, path), verbatim))
            || !has_verbatim_prefix(lexical_normal_form(substituted(entries, path))),
    ensures
        normalized(
            substituted(entries, normalized(substituted(entries, path), verbatim)),
            verbatim,
        ) == normalized(substituted(entries, path), verbatim),
{
    let raw = substituted(entries, path);
    if is_absolute(normalized(raw, verbatim)) {
        lemma_absolute_result_is_normal(raw, verbatim);
    } else {
        lemma_normal_form_idempotent(raw);
    }
}

/// Resolving a resolved path again gives the same path, where that path
/// starts with no alias and is absolute. On a platform that writes no
/// verbatim prefix the same holds of a relative path where there is no base
/// directory to join it onto.
pub proof fn lemma_resolution_is_idempotent(
    entries: AliasEntries,
    base: Seq<char>,
    key_path: Seq<char>,
    verbatim: bool,
)
    requires
        !has_match(entries, resolved(entries, base, key_path, verbatim)),
        is_absolute(resolved(entries, base, key_path, verbatim)) || (base.len() == 0
            && !verbatim),
    ensures
        resolved(entries, base, resolved(entries, base, key_path, verbatim), verbatim)
            == resolved(entries, base, key_path, verbatim),
{
    let raw = placed(entries, base, key_path);
    let once = resolved(entries, base, key_path, verbatim);
    if is_absolute(once) {
        lemma_absolute_result_is_normal(raw, verbatim);
    } else {
        lemma_normal_form_idempotent(raw);
        assert(joined(base, once) =~= once);
    }
}

/// With an absolute base directory and absolute alias directories every
/// resolved path is absolute.
pub proof fn lemma_resolved_is_absolute(
    entries: AliasEntries,
    base: Seq<char>,
    key_path: Seq<char>,
    verbatim: bool,
)
    requires
        is_absolute(base),
        directories_are_absolute(entries),
    ensures
        is_absolute(resolved(entries, base, key_path, verbatim)),
{
    if has_match(entries, key_path) {
        let i = longest_index(entries, key_path);
        lemma_longest_exists(entries, key_path);
        assert(matches_at(entries, key_path, i));
        let raw = substitution(entries, key_path, i);
        assert(is_absolute(entries[i].1));
        assert(raw[0] == entries[i].1[0]);
        lemma_normalized_absolute(raw, verbatim);
    } else {
        let raw = joined(base, key_path);
        if !is_absolute(key_path) {
            assert(raw[0] == base[0]);
        }
        lemma_normalized_absolute(raw, verbatim);
    }
}

/// On a platform that writes no verbatim prefix a resolved path is a normal
/// form: none of its segments is `.` or `..`, and it has a root exactly when
/// the path had one after its alias was replaced or it was joined onto the
/// base directory.
pub proof fn lemma_resolved_is_a_normal_form(
    entries: AliasEntries,
    base: Seq<char>,
    key_path: Seq<char>,
)
    ensures
        resolved(entries, base, key_path, false) == lexical_normal_form(
            placed(entries, base, key_path),
        ),
        is_absolute(resolved(entries, base, key_path, false)) == is_absolute(
            placed(entries, base, key_path),
        ),
        forall|k: int|
            0 <= k < split_segments(resolved(entries, base, key_path, false)).len() ==> {
                let segment = #[trigger] split_segments(
                    resolved(entries, base, key_path, false),
                )[k];
                !is_current_dir(segment) && !is_parent_dir(segment)
            },
{
    lemma_normalized_without_prefix(placed(entries, base, key_path));
}

} // verus!
