//! The orders the content list of an instance can be sorted in.
use std::cmp::Ordering;
use vstd::prelude::*;

use crate::model::InstanceContentSummary;

verus! {

/// How many digits a character may add to a run of digits once transliterated to ASCII: one
/// for an ASCII digit, none for other ASCII characters (they end a run), and for any other
/// character at most ten (the most digits any single character transliterates to).
pub open spec fn digit_weight(c: char) -> int {
    if '0' <= c && c <= '9' {
        1
    } else if c <= '\x7f' {
        0
    } else {
        10
    }
}

/// The digits the run of digits at the end of `s` may hold.
pub open spec fn trailing_run(s: Seq<char>) -> int
    decreases s.len(),
{
    if s.len() == 0 {
        0
    } else if digit_weight(s.last()) == 0 {
        0
    } else {
        trailing_run(s.drop_last()) + digit_weight(s.last())
    }
}

/// No run of digits in the transliteration of `s` can reach twenty digits, so natural
/// comparison reads each of its numbers into a `u64` without overflow.
pub open spec fn short_digit_runs(s: Seq<char>) -> bool
    decreases s.len(),
{
    if s.len() == 0 {
        true
    } else {
        short_digit_runs(s.drop_last()) && trailing_run(s) < 20
    }
}

/// What `lexical_sort::natural_lexical_cmp` returns: the order of two texts compared by their
/// lowercase ASCII transliterations, runs of digits by value, and by code point when those tie.
pub uninterp spec fn natural_lexical_order(a: Seq<char>, b: Seq<char>) -> Ordering;

/// Calls `lexical_sort::natural_lexical_cmp`. Its contract claims that the result is the named
/// order of the two texts, and that it is `Equal` exactly when the texts are equal (the crate
/// returns `Equal` only from comparing the two strings themselves), and that comparing the
/// texts the other way round gives the reverse order (every step of the crate's comparison
/// treats its two sides alike, and its last step is `str::cmp`). It requires that one of
/// the texts have no run of twenty digits: the crate reads aligned runs of digits of both texts
/// into `u64`s, which overflows past nineteen digits.
#[verifier::external_body]
fn natural_lexical_cmp(a: &str, b: &str) -> (res: Ordering)
    requires
        short_digit_runs(a@) || short_digit_runs(b@),
    ensures
        res == natural_lexical_order(a@, b@),
        (res == Ordering::Equal) <==> (a@ == b@),
        natural_lexical_order(b@, a@) == reversed(res),
{
    lexical_sort::natural_lexical_cmp(a, b)
}

/// Whether no run of digits in a text can reach twenty digits.
pub fn has_short_digit_runs(s: &str) -> (res: bool)
    ensures
        res == short_digit_runs(s@),
{
    let chars = crate::text::chars_of(s);
    let mut run: u64 = 0;
    let mut i: usize = 0;
    while i < chars.len()
        invariant
            chars@ == s@,
            i <= chars.len(),
            short_digit_runs(s@.take(i as int)),
            run == trailing_run(s@.take(i as int)),
            run < 20,
        decreases chars.len() - i,
    {
        let c = chars[i];
        assert(s@.take(i + 1).drop_last() =~= s@.take(i as int));
        assert(s@.take(i + 1).last() == c);
        if '0' <= c && c <= '9' {
            run = run + 1;
        } else if c <= '\x7f' {
            run = 0;
        } else {
            run = run + 10;
        }
        if run >= 20 {
            proof {
                lemma_short_runs_prefix(s@, i + 1);
            }
            return false;
        }
        i = i + 1;
    }
    assert(s@.take(s@.len() as int) =~= s@);
    true
}

proof fn lemma_short_runs_prefix(s: Seq<char>, n: int)
    requires
        0 <= n <= s.len(),
        !short_digit_runs(s.take(n)),
    ensures
        !short_digit_runs(s),
    decreases s.len() - n,
{
    if n < s.len() {
        assert(s.take(n + 1).drop_last() =~= s.take(n));
        lemma_short_runs_prefix(s, n + 1);
    } else {
        assert(s.take(n) =~= s);
    }
}

/// The orders of the content list.
#[derive(Clone, Copy, PartialEq, Eq, Structural, Debug)]
pub enum InstanceContentSortKey {
    Name,
    ModId,
    Filename,
    ModifiedTime,
    FileSize,
}

/// The name shown for an order.
pub open spec fn sort_key_label(k: InstanceContentSortKey) -> Seq<char> {
    match k {
        InstanceContentSortKey::Name => "Name"@,
        InstanceContentSortKey::ModId => "Mod Id"@,
        InstanceContentSortKey::Filename => "Filename"@,
        InstanceContentSortKey::ModifiedTime => "Modified Time"@,
        InstanceContentSortKey::FileSize => "Filesize"@,
    }
}

/// The text an item is sorted by: for `Name` its name, else its mod id, else its file name;
/// for `ModId` its mod id, else its name, else its file name; for the others its file name.
pub open spec fn sort_text(k: InstanceContentSortKey, s: InstanceContentSummary) -> Seq<char> {
    let name = s.content_summary.name;
    let id = s.content_summary.id;
    match k {
        InstanceContentSortKey::Name => match name {
            Some(n) => n@,
            None => match id {
                Some(i) => i@,
                None => s.filename@,
            },
        },
        InstanceContentSortKey::ModId => match id {
            Some(i) => i@,
            None => match name {
                Some(n) => n@,
                None => s.filename@,
            },
        },
        _ => s.filename@,
    }
}

/// The order of two integers, reversed: larger first.
pub open spec fn descending(a: int, b: int) -> Ordering {
    if a > b {
        Ordering::Less
    } else if a == b {
        Ordering::Equal
    } else {
        Ordering::Greater
    }
}

/// When a file was last modified, in milliseconds since the Unix epoch.
pub open spec fn modified_time(s: InstanceContentSummary) -> int {
    s.modified_unix_ms as int
}

/// A file size, zero when unknown.
pub open spec fn size_or_zero(s: InstanceContentSummary) -> int {
    match s.content_summary.filesize {
        Some(n) => n as int,
        None => 0,
    }
}

/// How two items compare under an order: texts naturally, newest first by modification time,
/// largest first by size.
pub open spec fn sort_order(k: InstanceContentSortKey, a: InstanceContentSummary, b: InstanceContentSummary) -> Ordering {
    match k {
        InstanceContentSortKey::ModifiedTime => descending(modified_time(a), modified_time(b)),
        InstanceContentSortKey::FileSize => descending(size_or_zero(a), size_or_zero(b)),
        _ => natural_lexical_order(sort_text(k, a), sort_text(k, b)),
    }
}

/// Whether natural comparison can read the texts two items are sorted by.
pub open spec fn comparable(k: InstanceContentSortKey, a: InstanceContentSummary, b: InstanceContentSummary) -> bool {
    match k {
        InstanceContentSortKey::ModifiedTime | InstanceContentSortKey::FileSize => true,
        _ => short_digit_runs(sort_text(k, a)) || short_digit_runs(sort_text(k, b)),
    }
}

impl InstanceContentSortKey {
    /// The name shown for an order.
    pub fn name(self) -> (res: &'static str)
        ensures
            res@ == sort_key_label(self),
    {
        match self {
            InstanceContentSortKey::Name => "Name",
            InstanceContentSortKey::ModId => "Mod Id",
            InstanceContentSortKey::Filename => "Filename",
            InstanceContentSortKey::ModifiedTime => "Modified Time",
            InstanceContentSortKey::FileSize => "Filesize",
        }
    }

    /// The text an item is sorted by.
    pub fn sort_text_of(self, s: &InstanceContentSummary) -> (res: &str)
        ensures
            res@ == sort_text(self, *s),
    {
        let name = &s.content_summary.name;
        let id = &s.content_summary.id;
        match self {
            InstanceContentSortKey::Name => match name {
                Some(n) => n.as_str(),
                None => match id {
                    Some(i) => i.as_str(),
                    None => s.filename.as_str(),
                },
            },
            InstanceContentSortKey::ModId => match id {
                Some(i) => i.as_str(),
                None => match name {
                    Some(n) => n.as_str(),
                    None => s.filename.as_str(),
                },
            },
            _ => s.filename.as_str(),
        }
    }

    /// How two items compare under this order.
    pub fn compare(self, a: &InstanceContentSummary, b: &InstanceContentSummary) -> (res: Ordering)
        requires
            comparable(self, *a, *b),
        ensures
            res == sort_order(self, *a, *b),
            sort_order(self, *b, *a) == reversed(res),
    {
        match self {
            InstanceContentSortKey::ModifiedTime => {
                if a.modified_unix_ms > b.modified_unix_ms {
                    Ordering::Less
                } else if a.modified_unix_ms == b.modified_unix_ms {
                    Ordering::Equal
                } else {
                    Ordering::Greater
                }
            },
            InstanceContentSortKey::FileSize => {
                let x: u64 = match a.content_summary.filesize {
                    Some(n) => n,
                    None => 0,
                };
                let y: u64 = match b.content_summary.filesize {
                    Some(n) => n,
                    None => 0,
                };
                if x > y {
                    Ordering::Less
                } else if x == y {
                    Ordering::Equal
                } else {
                    Ordering::Greater
                }
            },
            _ => natural_lexical_cmp(self.sort_text_of(a), self.sort_text_of(b)),
        }
    }
}

/// An order reversed.
pub open spec fn reversed(o: Ordering) -> Ordering {
    match o {
        Ordering::Less => Ordering::Greater,
        Ordering::Equal => Ordering::Equal,
        Ordering::Greater => Ordering::Less,
    }
}

/// The time and size orders are total orders: swapping two items reverses their order, they
/// compare equal exactly when their times (sizes) are equal, and one ordered before another
/// that is ordered before a third is ordered before the third.
pub proof fn law_numeric_orders(
    k: InstanceContentSortKey,
    a: InstanceContentSummary,
    b: InstanceContentSummary,
    c: InstanceContentSummary,
)
    requires
        k == InstanceContentSortKey::ModifiedTime || k == InstanceContentSortKey::FileSize,
    ensures
        sort_order(k, a, b) == reversed(sort_order(k, b, a)),
        (sort_order(k, a, b) == Ordering::Equal) <==> (if k == InstanceContentSortKey::ModifiedTime {
            modified_time(a) == modified_time(b)
        } else {
            size_or_zero(a) == size_or_zero(b)
        }),
        sort_order(k, a, b) == Ordering::Less && sort_order(k, b, c) == Ordering::Less ==> sort_order(k, a, c)
            == Ordering::Less,
{
}

/// The item with its name set to `name` (its other parts as they were).
pub open spec fn renamed(s: InstanceContentSummary, name: Option<String>) -> InstanceContentSummary {
    InstanceContentSummary { content_summary: crate::model::ContentSummary { name, ..s.content_summary }, ..s }
}

/// The item with its mod id set to `id` (its other parts as they were).
pub open spec fn with_id(s: InstanceContentSummary, id: Option<String>) -> InstanceContentSummary {
    InstanceContentSummary { content_summary: crate::model::ContentSummary { id, ..s.content_summary }, ..s }
}

/// What the name and mod-id orders sort an item by. Under the name order: its name when it has
/// one (its id and file name then play no part); else its mod id, so that it sorts exactly as
/// if its id were its name; its file name only when it has neither. Under the mod-id order the
/// same with id and name swapped.
pub proof fn law_text_sort_fallbacks(a: InstanceContentSummary, b: InstanceContentSummary, other: Option<String>)
    ensures
        a.content_summary.name matches Some(n) ==> sort_text(InstanceContentSortKey::Name, a) == n@
            && sort_order(InstanceContentSortKey::Name, a, b) == sort_order(
            InstanceContentSortKey::Name,
            with_id(a, other),
            b,
        ),
        (a.content_summary.name is None && a.content_summary.id is Some) ==> sort_text(
            InstanceContentSortKey::Name,
            a,
        ) == a.content_summary.id->0@ && sort_order(InstanceContentSortKey::Name, a, b) == sort_order(
            InstanceContentSortKey::Name,
            renamed(a, a.content_summary.id),
            b,
        ),
        (a.content_summary.name is None && a.content_summary.id is None) ==> sort_text(
            InstanceContentSortKey::Name,
            a,
        ) == a.filename@,
        a.content_summary.id matches Some(i) ==> sort_text(InstanceContentSortKey::ModId, a) == i@
            && sort_order(InstanceContentSortKey::ModId, a, b) == sort_order(
            InstanceContentSortKey::ModId,
            renamed(a, other),
            b,
        ),
        (a.content_summary.id is None && a.content_summary.name is Some) ==> sort_text(
            InstanceContentSortKey::ModId,
            a,
        ) == a.content_summary.name->0@ && sort_order(InstanceContentSortKey::ModId, a, b) == sort_order(
            InstanceContentSortKey::ModId,
            with_id(a, a.content_summary.name),
            b,
        ),
        (a.content_summary.id is None && a.content_summary.name is None) ==> sort_text(
            InstanceContentSortKey::ModId,
            a,
        ) == a.filename@,
        sort_text(InstanceContentSortKey::Filename, a) == a.filename@,
{
}

/// The size an item is sorted by: its file size, zero when unknown.
pub open spec fn known_size(s: InstanceContentSummary) -> u64 {
    match s.content_summary.filesize {
        Some(n) => n,
        None => 0u64,
    }
}

/// The time order puts the more recently modified item first, and the size order the larger
/// file first (a file of unknown size counting as empty); items modified at the same time, or of
/// the same size, compare equal.
pub proof fn law_newest_and_largest_first(a: InstanceContentSummary, b: InstanceContentSummary)
    ensures
        a.modified_unix_ms > b.modified_unix_ms ==> sort_order(InstanceContentSortKey::ModifiedTime, a, b)
            == Ordering::Less,
        a.modified_unix_ms < b.modified_unix_ms ==> sort_order(InstanceContentSortKey::ModifiedTime, a, b)
            == Ordering::Greater,
        a.modified_unix_ms == b.modified_unix_ms ==> sort_order(InstanceContentSortKey::ModifiedTime, a, b)
            == Ordering::Equal,
        known_size(a) > known_size(b) ==> sort_order(InstanceContentSortKey::FileSize, a, b) == Ordering::Less,
        known_size(a) < known_size(b) ==> sort_order(InstanceContentSortKey::FileSize, a, b) == Ordering::Greater,
        known_size(a) == known_size(b) ==> sort_order(InstanceContentSortKey::FileSize, a, b) == Ordering::Equal,
{
}

} // verus!
