//! The alias table, and the substitution of the longest alias that a path
//! starts with.

use crate::normalize_path::{join_path, joined, normalize_path, normalized};
use crate::text::collect_chars;
use vstd::prelude::*;
use vstd::string::*;

verus! {

/// An alias table as contracts see it: pairs of a logical prefix and the
/// directory it stands for.
pub type AliasEntries = Seq<(Seq<char>, Seq<char>)>;

/// No prefix occurs twice.
pub open spec fn distinct_keys(entries: AliasEntries) -> bool {
    forall|i: int, j: int|
        0 <= i < entries.len() && 0 <= j < entries.len() && i != j ==> (#[trigger] entries[i]).0
            != (#[trigger] entries[j]).0
}

/// `key` is one of the prefixes of `entries`.
pub open spec fn has_key(entries: AliasEntries, key: Seq<char>) -> bool {
    exists|i: int| 0 <= i < entries.len() && (#[trigger] entries[i]).0 == key
}

/// Entry `i` is an alias that `text` starts with.
pub open spec fn matches_at(entries: AliasEntries, text: Seq<char>, i: int) -> bool {
    0 <= i < entries.len() && entries[i].0.is_prefix_of(text)
}

/// `text` starts with some alias.
pub open spec fn has_match(entries: AliasEntries, text: Seq<char>) -> bool {
    exists|i: int| matches_at(entries, text, i)
}

/// Entry `i` is an alias that `text` starts with, and no alias that `text`
/// starts with is longer.
pub open spec fn longest_match(entries: AliasEntries, text: Seq<char>, i: int) -> bool {
    &&& matches_at(entries, text, i)
    &&& forall|j: int| #[trigger]
        matches_at(entries, text, j) ==> entries[j].0.len() <= entries[i].0.len()
}

/// The entry that holds the longest alias that `text` starts with. It means
/// something only where `text` starts with an alias.
pub open spec fn longest_index(entries: AliasEntries, text: Seq<char>) -> int {
    choose|i: int| longest_match(entries, text, i)
}

/// `text` with the alias of entry `i` replaced by its directory. What follows
/// the alias is kept as it is.
pub open spec fn substitution(entries: AliasEntries, text: Seq<char>, i: int) -> Seq<char> {
    entries[i].1 + text.skip(entries[i].0.len() as int)
}

/// `text` with its longest alias replaced; `text` itself where it starts with
/// no alias.
pub open spec fn substituted(entries: AliasEntries, text: Seq<char>) -> Seq<char> {
    if has_match(entries, text) {
        substitution(entries, text, longest_index(entries, text))
    } else {
        text
    }
}

/// `entries` after `key` was given `value`: in place, where the key was
/// there, else at the end.
pub open spec fn with_entry(entries: AliasEntries, key: Seq<char>, value: Seq<char>)
    -> AliasEntries {
    if has_key(entries, key) {
        let i = choose|i: int| 0 <= i < entries.len() && (#[trigger] entries[i]).0 == key;
        entries.update(i, (key, value))
    } else {
        entries.push((key, value))
    }
}

/// `entries` with every directory joined onto `base` and normalized as the
/// platform asks.
pub open spec fn anchored_entries(entries: AliasEntries, base: Seq<char>, verbatim: bool)
    -> AliasEntries {
    Seq::new(
        entries.len(),
        |i: int| (entries[i].0, normalized(joined(base, entries[i].1), verbatim)),
    )
}

/// Among distinct keys only one can be the longest that `text` starts with.
pub proof fn lemma_longest_match_unique(entries: AliasEntries, text: Seq<char>, i: int, j: int)
    requires
        distinct_keys(entries),
        longest_match(entries, text, i),
        longest_match(entries, text, j),
    ensures
        i == j,
{
    assert(matches_at(entries, text, i));
    assert(matches_at(entries, text, j));
    assert(entries[i].0.len() == entries[j].0.len());
    assert(entries[i].0 =~= entries[j].0);
}

/// Where `text` starts with an alias, `longest_index` names the longest.
pub proof fn lemma_longest_index(entries: AliasEntries, text: Seq<char>, i: int)
    requires
        distinct_keys(entries),
        longest_match(entries, text, i),
    ensures
        has_match(entries, text),
        longest_index(entries, text) == i,
{
    assert(matches_at(entries, text, i));
    lemma_longest_match_unique(entries, text, i, longest_index(entries, text));
}

/// Among the first `n` entries, one with the longest alias that `text`
/// starts with.
proof fn lemma_longest_among(entries: AliasEntries, text: Seq<char>, n: int) -> (best: int)
    requires
        0 <= n <= entries.len(),
        exists|j: int| 0 <= j < n && matches_at(entries, text, j),
    ensures
        0 <= best < n,
        matches_at(entries, text, best),
        forall|j: int|
            0 <= j < n && #[trigger] matches_at(entries, text, j) ==> entries[j].0.len()
                <= entries[best].0.len(),
    decreases n,
{
    let last = n - 1;
    if exists|j: int| 0 <= j < last && matches_at(entries, text, j) {
        let earlier = lemma_longest_among(entries, text, last);
        if matches_at(entries, text, last) && entries[last].0.len() > entries[earlier].0.len() {
            last
        } else {
            earlier
        }
    } else {
        assert(matches_at(entries, text, last));
        last
    }
}

/// Where `text` starts with an alias, one of those aliases is the longest,
/// and `longest_index` names such a one.
pub proof fn lemma_longest_exists(entries: AliasEntries, text: Seq<char>)
    requires
        has_match(entries, text),
    ensures
        longest_match(entries, text, longest_index(entries, text)),
{
    let some = choose|i: int| matches_at(entries, text, i);
    assert(matches_at(entries, text, some));
    let best = lemma_longest_among(entries, text, entries.len() as int);
    assert(longest_match(entries, text, best));
}

/// The longer of two aliases that `text` starts with takes precedence: the
/// shorter one is never the one that is replaced.
pub proof fn lemma_longer_alias_takes_precedence(
    entries: AliasEntries,
    text: Seq<char>,
    shorter: int,
    longer: int,
)
    requires
        matches_at(entries, text, shorter),
        matches_at(entries, text, longer),
        entries[shorter].0.len() < entries[longer].0.len(),
    ensures
        longest_index(entries, text) != shorter,
        entries[longest_index(entries, text)].0.len() >= entries[longer].0.len(),
        substituted(entries, text) == substitution(entries, text, longest_index(entries, text)),
{
    lemma_longest_exists(entries, text);
}

/// A table from logical prefixes to directories. No prefix occurs twice.
#[derive(Debug)]
pub struct PathAliasTable {
    entries: Vec<(String, String)>,
}

impl View for PathAliasTable {
    type V = AliasEntries;

    closed spec fn view(&self) -> AliasEntries {
        self.entries.deep_view()
    }
}

/// Whether `text` starts with `key`.
fn starts_with(text: &Vec<char>, key: &Vec<char>) -> (yes: bool)
    ensures
        yes == key@.is_prefix_of(text@),
{
    if key.len() > text.len() {
        return false;
    }
    let mut i: usize = 0;
    while i < key.len()
        invariant
            i <= key.len() <= text.len(),
            forall|k: int| 0 <= k < i ==> key@[k] == text@[k],
        decreases key.len() - i,
    {
        if key[i] != text[i] {
            assert(text@.subrange(0, key@.len() as int)[i as int] == text@[i as int]);
            return false;
        }
        i = i + 1;
    }
    assert(key@ =~= text@.subrange(0, key@.len() as int));
    true
}

impl PathAliasTable {
    #[verifier::type_invariant]
    spec fn keys_are_distinct(&self) -> bool {
        distinct_keys(self.entries.deep_view())
    }

    /// The table without entries.
    pub fn new() -> (table: Self)
        ensures
            table@ == AliasEntries::empty(),
    {
        let table = PathAliasTable { entries: Vec::new() };
        assert(table.entries.deep_view() =~= AliasEntries::empty());
        table
    }

    /// The number of aliases.
    pub fn len(&self) -> (n: usize)
        ensures
            n == self@.len(),
    {
        self.entries.len()
    }

    /// What contracts may use of every table.
    pub fn entries_are_distinct(&self)
        ensures
            distinct_keys(self@),
    {
        proof {
            use_type_invariant(self);
        }
    }

    /// The prefix of entry `i`.
    pub fn key_at(&self, i: usize) -> (key: &String)
        requires
            i < self@.len(),
        ensures
            key@ == self@[i as int].0,
    {
        &self.entries[i].0
    }

    /// The directory of entry `i`.
    pub fn value_at(&self, i: usize) -> (value: &String)
        requires
            i < self@.len(),
        ensures
            value@ == self@[i as int].1,
    {
        &self.entries[i].1
    }

    /// The place of `key`, if the table holds it.
    pub fn position(&self, key: &str) -> (found: Option<usize>)
        ensures
            match found {
                Some(i) => i < self@.len() && self@[i as int].0 == key@,
                None => !has_key(self@, key@),
            },
    {
        let wanted = collect_chars(key);
        let mut i: usize = 0;
        while i < self.entries.len()
            invariant
                i <= self.entries.len(),
                wanted@ == key@,
                forall|k: int| 0 <= k < i ==> (#[trigger] self@[k]).0 != key@,
            decreases self.entries.len() - i,
        {
            let held = collect_chars(self.entries[i].0.as_str());
            if held.len() == wanted.len() && starts_with(&wanted, &held) {
                assert(held@ =~= wanted@);
                return Some(i);
            }
            assert(self@[i as int].0 != key@);
            i = i + 1;
        }
        None
    }

    /// Gives `key` the directory `value`. A key that the table holds keeps
    /// its place and gets the new directory; a new key goes to the end.
    pub fn insert(&mut self, key: String, value: String)
        ensures
            final(self)@ == with_entry(old(self)@, key@, value@),
    {
        proof {
            use_type_invariant(&*self);
        }
        let ghost before = self@;
        let found = self.position(key.as_str());
        let place: usize = match found {
            Some(i) => i,
            None => self.entries.len(),
        };
        let ghost after = with_entry(before, key@, value@);
        proof {
            match found {
                Some(i) => {
                    let chosen = choose|k: int|
                        0 <= k < before.len() && (#[trigger] before[k]).0 == key@;
                    assert(before[i as int].0 == key@);
                    assert(chosen == i);
                    assert(after == before.update(i as int, (key@, value@)));
                },
                None => {
                    assert(after == before.push((key@, value@)));
                },
            }
        }
        let mut entries: Vec<(String, String)> = Vec::new();
        let mut k: usize = 0;
        while k < self.entries.len()
            invariant
                k <= self.entries.len(),
                before == self.entries.deep_view(),
                place <= before.len(),
                after.len() >= before.len(),
                forall|j: int| 0 <= j < before.len() && j != place ==> after[j] == before[j],
                entries.deep_view() == after.take(k as int),
                place < before.len() ==> after[place as int] == (key@, value@),
            decreases self.entries.len() - k,
        {
            let ghost so_far = entries.deep_view();
            if k == place {
                entries.push((key.clone(), value.clone()));
                assert(entries.deep_view() =~= so_far.push((key@, value@)));
            } else {
                let held = &self.entries[k];
                entries.push((held.0.clone(), held.1.clone()));
                assert(entries.deep_view() =~= so_far.push(before[k as int]));
            }
            assert(after.take(k + 1) =~= after.take(k as int).push(after[k as int]));
            k = k + 1;
        }
        if place == self.entries.len() {
            let ghost so_far = entries.deep_view();
            entries.push((key, value));
            assert(entries.deep_view() =~= so_far.push((key@, value@)));
            assert(entries.deep_view() =~= after);
        } else {
            assert(after.take(before.len() as int) =~= after);
        }
        proof {
            assert forall|i: int, j: int|
                0 <= i < after.len() && 0 <= j < after.len() && i != j implies (
            #[trigger] after[i]).0 != (#[trigger] after[j]).0 by {
                if place < before.len() {
                    assert(after[i].0 == before[i].0);
                    assert(after[j].0 == before[j].0);
                } else {
                    if i == place {
                        assert(after[j] == before[j]);
                    } else if j == place {
                        assert(after[i] == before[i]);
                    } else {
                        assert(after[i] == before[i]);
                        assert(after[j] == before[j]);
                    }
                }
            }
        }
        *self = PathAliasTable { entries };
    }

    /// A copy of the table.
    pub fn copy(&self) -> (copy: Self)
        ensures
            copy@ == self@,
    {
        proof {
            use_type_invariant(self);
        }
        let mut entries: Vec<(String, String)> = Vec::new();
        let mut k: usize = 0;
        while k < self.entries.len()
            invariant
                k <= self.entries.len(),
                entries.deep_view() == self.entries.deep_view().take(k as int),
            decreases self.entries.len() - k,
        {
            let ghost so_far = entries.deep_view();
            let held = &self.entries[k];
            entries.push((held.0.clone(), held.1.clone()));
            assert(entries.deep_view() =~= so_far.push(self.entries.deep_view()[k as int]));
            assert(self.entries.deep_view().take(k + 1) =~= self.entries.deep_view().take(
                k as int,
            ).push(self.entries.deep_view()[k as int]));
            k = k + 1;
        }
        assert(self.entries.deep_view().take(self.entries.len() as int)
            =~= self.entries.deep_view());
        PathAliasTable { entries }
    }

    /// The table with every directory read from `base`: joined onto it, and
    /// normalized as the platform asks (`verbatim`). The aliases stay as
    /// they are.
    pub fn anchored(&self, base: &str, verbatim: bool) -> (table: Self)
        ensures
            table@ == anchored_entries(self@, base@, verbatim),
    {
        proof {
            use_type_invariant(self);
        }
        let ghost wanted = anchored_entries(self@, base@, verbatim);
        let mut entries: Vec<(String, String)> = Vec::new();
        let mut k: usize = 0;
        while k < self.entries.len()
            invariant
                k <= self.entries.len(),
                wanted == anchored_entries(self.entries.deep_view(), base@, verbatim),
                entries.deep_view() == wanted.take(k as int),
            decreases self.entries.len() - k,
        {
            let ghost so_far = entries.deep_view();
            let held = &self.entries[k];
            let directory = normalize_path(join_path(base, held.1.as_str()).as_str(), verbatim);
            entries.push((held.0.clone(), directory));
            assert(entries.deep_view() =~= so_far.push(wanted[k as int]));
            assert(wanted.take(k + 1) =~= wanted.take(k as int).push(wanted[k as int]));
            k = k + 1;
        }
        assert(wanted.take(self.entries.len() as int) =~= wanted);
        proof {
            assert forall|i: int, j: int|
                0 <= i < wanted.len() && 0 <= j < wanted.len() && i != j implies (
            #[trigger] wanted[i]).0 != (#[trigger] wanted[j]).0 by {
                assert(wanted[i].0 == self@[i].0);
                assert(wanted[j].0 == self@[j].0);
            }
        }
        PathAliasTable { entries }
    }

    /// The entry with the longest alias that `text` starts with.
    pub fn longest_alias(&self, text: &str) -> (found: Option<usize>)
        ensures
            match found {
                Some(i) => {
                    &&& has_match(self@, text@)
                    &&& i == longest_index(self@, text@)
                    &&& longest_match(self@, text@, i as int)
                },
                None => !has_match(self@, text@),
            },
    {
        proof {
            use_type_invariant(self);
        }
        let chars = collect_chars(text);
        let mut best: Option<usize> = None;
        let mut best_len: usize = 0;
        let mut i: usize = 0;
        while i < self.entries.len()
            invariant
                i <= self.entries.len(),
                chars@ == text@,
                match best {
                    Some(b) => {
                        &&& b < i
                        &&& matches_at(self@, text@, b as int)
                        &&& best_len == self@[b as int].0.len()
                        &&& forall|j: int|
                            0 <= j < i && #[trigger] matches_at(self@, text@, j) ==> self@[j].0.len()
                                <= best_len
                    },
                    None => forall|j: int| 0 <= j < i ==> !#[trigger] matches_at(self@, text@, j),
                },
            decreases self.entries.len() - i,
        {
            let key = collect_chars(self.entries[i].0.as_str());
            assert(key@ == self@[i as int].0);
            if starts_with(&chars, &key) {
                let longer = match best {
                    Some(_) => key.len() > best_len,
                    None => true,
                };
                if longer {
                    best = Some(i);
                    best_len = key.len();
                }
            }
            i = i + 1;
        }
        proof {
            match best {
                Some(b) => {
                    assert(longest_match(self@, text@, b as int));
                    lemma_longest_index(self@, text@, b as int);
                },
                None => {},
            }
        }
        best
    }
}

/// `s` with the longest alias that it starts with replaced by the alias's
/// directory; `s` itself where it starts with none.
pub fn replace_prefix_longest(s: &str, map: &PathAliasTable) -> (replaced: String)
    ensures
        replaced@ == substituted(map@, s@),
{
    match map.longest_alias(s) {
        Some(i) => {
            let key_len = map.key_at(i).as_str().unicode_len();
            let text_len = s.unicode_len();
            let mut replaced = map.value_at(i).clone();
            let rest = s.substring_char(key_len, text_len);
            assert(rest@ =~= s@.skip(key_len as int));
            replaced.append(rest);
            replaced
        },
        None => String::from_str(s),
    }
}

} // verus!
