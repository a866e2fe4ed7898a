//! The search index: the offsets at which a query occurs in the contents.
//!
//! A query is looked for as it stands, byte for byte. Where the query, its
//! spaces taken out, is a string of hexadecimal digit pairs, the bytes that
//! the pairs denote are looked for as well, and the two lists of offsets are
//! merged into one ascending list.

use vstd::prelude::*;

verus! {

/// Whether `pattern` stands in `content` at offset `at`. An empty pattern
/// stands nowhere.
pub open spec fn occurs_at(content: Seq<u8>, pattern: Seq<u8>, at: int) -> bool {
    &&& pattern.len() > 0
    &&& 0 <= at
    &&& at + pattern.len() <= content.len()
    &&& content.subrange(at, at + pattern.len()) == pattern
}

/// The offsets below `bound` at which `pattern` stands in `content`, ascending.
pub open spec fn matches_below(content: Seq<u8>, pattern: Seq<u8>, bound: int) -> Seq<usize>
    decreases bound,
{
    if bound <= 0 {
        Seq::empty()
    } else if occurs_at(content, pattern, bound - 1) {
        matches_below(content, pattern, bound - 1).push((bound - 1) as usize)
    } else {
        matches_below(content, pattern, bound - 1)
    }
}

/// All offsets at which `pattern` stands in `content`, ascending.
pub open spec fn match_offsets(content: Seq<u8>, pattern: Seq<u8>) -> Seq<usize> {
    matches_below(content, pattern, content.len() as int)
}

/// Whether a list of offsets ascends, equal neighbours allowed.
pub open spec fn ascending(offsets: Seq<usize>) -> bool {
    forall|i: int, j: int| 0 <= i <= j < offsets.len() ==> offsets[i] <= offsets[j]
}

/// Whether a list of offsets ascends without equal neighbours.
pub open spec fn strictly_ascending(offsets: Seq<usize>) -> bool {
    forall|i: int, j: int| 0 <= i < j < offsets.len() ==> offsets[i] < offsets[j]
}

/// The list of matches below a bound holds exactly the offsets below the
/// bound at which the pattern stands, each once and in ascending order.
pub proof fn lemma_matches_below(content: Seq<u8>, pattern: Seq<u8>, bound: int)
    requires
        bound <= content.len() <= usize::MAX,
    ensures
        strictly_ascending(matches_below(content, pattern, bound)),
        forall|i: int|
            0 <= i < matches_below(content, pattern, bound).len() ==> {
                &&& (#[trigger] matches_below(content, pattern, bound)[i]) < bound
                &&& occurs_at(content, pattern, matches_below(content, pattern, bound)[i] as int)
            },
        forall|at: int|
            0 <= at < bound && occurs_at(content, pattern, at) ==> matches_below(
                content,
                pattern,
                bound,
            ).contains(at as usize),
    decreases bound,
{
    if bound > 0 {
        lemma_matches_below(content, pattern, bound - 1);
        let shorter = matches_below(content, pattern, bound - 1);
        let longer = matches_below(content, pattern, bound);
        if occurs_at(content, pattern, bound - 1) {
            assert(longer[longer.len() - 1] == (bound - 1) as usize);
        }
        assert forall|at: int| 0 <= at < bound && occurs_at(content, pattern, at) implies longer.contains(
            at as usize,
        ) by {
            if at < bound - 1 {
                let k = choose|k: int| 0 <= k < shorter.len() && shorter[k] == at as usize;
                assert(longer[k] == at as usize);
            } else {
                assert(longer[longer.len() - 1] == at as usize);
            }
        }
    }
}

/// The list of matches holds exactly the offsets at which the pattern stands
/// in the content, each once and in ascending order.
pub proof fn lemma_match_offsets(content: Seq<u8>, pattern: Seq<u8>)
    requires
        content.len() <= usize::MAX,
    ensures
        strictly_ascending(match_offsets(content, pattern)),
        ascending(match_offsets(content, pattern)),
        forall|i: int|
            0 <= i < match_offsets(content, pattern).len() ==> occurs_at(
                content,
                pattern,
                (#[trigger] match_offsets(content, pattern)[i]) as int,
            ),
        forall|at: int| #[trigger]
            occurs_at(content, pattern, at) ==> match_offsets(content, pattern).contains(
                at as usize,
            ),
{
    lemma_matches_below(content, pattern, content.len() as int);
    let offsets = match_offsets(content, pattern);
    assert forall|i: int, j: int| 0 <= i <= j < offsets.len() implies offsets[i] <= offsets[j] by {
        if i < j {
            assert(offsets[i] < offsets[j]);
        }
    }
}

/// Whether `pattern` stands in `content` at offset `at`.
pub fn matches_at(content: &[u8], pattern: &[u8], at: usize) -> (found: bool)
    ensures
        found == occurs_at(content@, pattern@, at as int),
{
    let len = pattern.len();
    if len == 0 || content.len() < len || at > content.len() - len {
        return false;
    }
    let mut k: usize = 0;
    while k < len
        invariant
            k <= len == pattern.len(),
            at + len <= content.len(),
            forall|j: int| 0 <= j < k ==> content@[at + j] == pattern@[j],
        decreases len - k,
    {
        if content[at + k] != pattern[k] {
            assert(content@.subrange(at as int, at + len)[k as int] != pattern@[k as int]);
            return false;
        }
        k += 1;
    }
    assert(content@.subrange(at as int, at + len) =~= pattern@);
    true
}

/// Scans the content once and lists every offset at which the pattern stands.
pub fn find_matches(content: &[u8], pattern: &[u8]) -> (offsets: Vec<usize>)
    ensures
        offsets@ == match_offsets(content@, pattern@),
{
    let mut offsets: Vec<usize> = Vec::new();
    let mut at: usize = 0;
    while at < content.len()
        invariant
            at <= content.len(),
            offsets@ == matches_below(content@, pattern@, at as int),
        decreases content.len() - at,
    {
        if matches_at(content, pattern, at) {
            offsets.push(at);
        }
        at += 1;
    }
    offsets
}

/// Two ascending lists merged into one ascending list. Of two equal heads
/// the one of the first list comes first.
pub open spec fn merge(first: Seq<usize>, second: Seq<usize>) -> Seq<usize>
    decreases first.len() + second.len(),
{
    if first.len() == 0 {
        second
    } else if second.len() == 0 {
        first
    } else if first[0] <= second[0] {
        seq![first[0]] + merge(first.drop_first(), second)
    } else {
        seq![second[0]] + merge(first, second.drop_first())
    }
}

/// A merged list holds exactly the offsets of the two lists, each as often as
/// the two together hold it; and it ascends where both lists do.
pub proof fn lemma_merge(first: Seq<usize>, second: Seq<usize>)
    ensures
        merge(first, second).len() == first.len() + second.len(),
        merge(first, second).to_multiset() == first.to_multiset().add(second.to_multiset()),
        forall|x: usize| #[trigger]
            merge(first, second).contains(x) <==> first.contains(x) || second.contains(x),
        ascending(first) && ascending(second) ==> ascending(merge(first, second)),
    decreases first.len() + second.len(),
{
    broadcast use vstd::seq_lib::group_to_multiset_ensures;

    let merged = merge(first, second);
    if first.len() == 0 {
        assert(first.to_multiset() =~= vstd::multiset::Multiset::empty());
        assert(merged.to_multiset() =~= first.to_multiset().add(second.to_multiset()));
    } else if second.len() == 0 {
        assert(second.to_multiset() =~= vstd::multiset::Multiset::empty());
        assert(merged.to_multiset() =~= first.to_multiset().add(second.to_multiset()));
    } else if first[0] <= second[0] {
        let rest = merge(first.drop_first(), second);
        lemma_merge(first.drop_first(), second);
        lemma_cons(first[0], rest);
        lemma_cons(first[0], first.drop_first());
        assert(seq![first[0]] + first.drop_first() =~= first);
        assert(merged.to_multiset() =~= first.to_multiset().add(second.to_multiset()));
        assert forall|x: usize| #[trigger]
            merged.contains(x) <==> first.contains(x) || second.contains(x) by {
            assert((seq![first[0]] + rest).contains(x) <==> x == first[0] || rest.contains(x));
            assert((seq![first[0]] + first.drop_first()).contains(x) <==> x == first[0]
                || first.drop_first().contains(x));
        }
        if ascending(first) && ascending(second) {
            lemma_ascending_tail(first);
            assert forall|x: usize| rest.contains(x) implies first[0] <= x by {
                if first.drop_first().contains(x) {
                    let k = choose|k: int|
                        0 <= k < first.drop_first().len() && first.drop_first()[k] == x;
                    assert(first[k + 1] == x);
                } else {
                    let k = choose|k: int| 0 <= k < second.len() && second[k] == x;
                    assert(second[0] <= second[k]);
                }
            }
            lemma_ascending_cons(first[0], rest);
        }
    } else {
        let rest = merge(first, second.drop_first());
        lemma_merge(first, second.drop_first());
        lemma_cons(second[0], rest);
        lemma_cons(second[0], second.drop_first());
        assert(seq![second[0]] + second.drop_first() =~= second);
        assert(merged.to_multiset() =~= first.to_multiset().add(second.to_multiset()));
        assert forall|x: usize| #[trigger]
            merged.contains(x) <==> first.contains(x) || second.contains(x) by {
            assert((seq![second[0]] + rest).contains(x) <==> x == second[0] || rest.contains(x));
            assert((seq![second[0]] + second.drop_first()).contains(x) <==> x == second[0]
                || second.drop_first().contains(x));
        }
        if ascending(first) && ascending(second) {
            lemma_ascending_tail(second);
            assert forall|x: usize| rest.contains(x) implies second[0] <= x by {
                if second.drop_first().contains(x) {
                    let k = choose|k: int|
                        0 <= k < second.drop_first().len() && second.drop_first()[k] == x;
                    assert(second[k + 1] == x);
                } else {
                    let k = choose|k: int| 0 <= k < first.len() && first[k] == x;
                    assert(first[0] <= first[k]);
                }
            }
            lemma_ascending_cons(second[0], rest);
        }
    }
}

/// What a list with one more offset in front holds.
proof fn lemma_cons(head: usize, rest: Seq<usize>)
    ensures
        (seq![head] + rest).to_multiset() == rest.to_multiset().insert(head),
        forall|x: usize| #[trigger]
            (seq![head] + rest).contains(x) <==> x == head || rest.contains(x),
{
    broadcast use vstd::seq_lib::group_to_multiset_ensures;

    let whole = seq![head] + rest;
    assert(whole.drop_first() =~= rest);
    assert(whole[0] == head);
    whole.drop_first().to_multiset_ensures();
    assert(whole =~= rest.insert(0, head));
    assert forall|x: usize| #[trigger] whole.contains(x) <==> x == head || rest.contains(x) by {
        if whole.contains(x) {
            let k = choose|k: int| 0 <= k < whole.len() && whole[k] == x;
            if k > 0 {
                assert(rest[k - 1] == x);
            }
        }
        if rest.contains(x) {
            let k = choose|k: int| 0 <= k < rest.len() && rest[k] == x;
            assert(whole[k + 1] == x);
        }
    }
}

/// An ascending list without its first offset ascends.
proof fn lemma_ascending_tail(offsets: Seq<usize>)
    requires
        ascending(offsets),
        offsets.len() > 0,
    ensures
        ascending(offsets.drop_first()),
{
    let tail = offsets.drop_first();
    assert forall|i: int, j: int| 0 <= i <= j < tail.len() implies tail[i] <= tail[j] by {
        assert(offsets[i + 1] <= offsets[j + 1]);
    }
}

/// An ascending list with an offset in front that none of its own is under
/// ascends.
proof fn lemma_ascending_cons(head: usize, rest: Seq<usize>)
    requires
        ascending(rest),
        forall|x: usize| rest.contains(x) ==> head <= x,
    ensures
        ascending(seq![head] + rest),
{
    let whole = seq![head] + rest;
    assert forall|i: int, j: int| 0 <= i <= j < whole.len() implies whole[i] <= whole[j] by {
        if j > 0 {
            assert(rest.contains(rest[j - 1]));
            if i > 0 {
                assert(rest[i - 1] <= rest[j - 1]);
            }
        }
    }
}

/// Merges two lists of offsets into one.
pub fn merge_offsets(first: &Vec<usize>, second: &Vec<usize>) -> (merged: Vec<usize>)
    ensures
        merged@ == merge(first@, second@),
{
    let mut merged: Vec<usize> = Vec::new();
    let mut i: usize = 0;
    let mut j: usize = 0;
    proof {
        assert(first@.subrange(0, first.len() as int) =~= first@);
        assert(second@.subrange(0, second.len() as int) =~= second@);
        assert(merged@ + merge(first@, second@) =~= merge(first@, second@));
    }
    while i < first.len() || j < second.len()
        invariant
            i <= first.len(),
            j <= second.len(),
            merge(first@, second@) == merged@ + merge(
                first@.subrange(i as int, first.len() as int),
                second@.subrange(j as int, second.len() as int),
            ),
        decreases first.len() - i + second.len() - j,
    {
        let ghost left = first@.subrange(i as int, first.len() as int);
        let ghost right = second@.subrange(j as int, second.len() as int);
        let ghost done = merged@;
        if j == second.len() || (i < first.len() && first[i] <= second[j]) {
            merged.push(first[i]);
            i += 1;
            proof {
                let rest = merge(first@.subrange(i as int, first.len() as int), right);
                assert(left.drop_first() =~= first@.subrange(i as int, first.len() as int));
                if right.len() == 0 {
                    lemma_merge_empty(left);
                    lemma_merge_empty(left.drop_first());
                    assert(left =~= seq![left[0]] + left.drop_first());
                }
                assert(merge(left, right) == seq![left[0]] + rest);
                assert(done + (seq![left[0]] + rest) =~= merged@ + rest);
            }
        } else {
            merged.push(second[j]);
            j += 1;
            proof {
                let rest = merge(left, second@.subrange(j as int, second.len() as int));
                assert(right.drop_first() =~= second@.subrange(j as int, second.len() as int));
                if left.len() == 0 {
                    assert(right =~= seq![right[0]] + right.drop_first());
                }
                assert(merge(left, right) == seq![right[0]] + rest);
                assert(done + (seq![right[0]] + rest) =~= merged@ + rest);
            }
        }
    }
    proof {
        assert(merged@ + Seq::<usize>::empty() =~= merged@);
    }
    merged
}

/// Merging with an empty list changes nothing.
proof fn lemma_merge_empty(offsets: Seq<usize>)
    ensures
        merge(offsets, Seq::empty()) == offsets,
        merge(Seq::empty(), offsets) == offsets,
{
}

/// The text without its spaces.
pub open spec fn without_spaces(text: Seq<u8>) -> Seq<u8>
    decreases text.len(),
{
    if text.len() == 0 {
        Seq::empty()
    } else if text.last() == 0x20 {
        without_spaces(text.drop_last())
    } else {
        without_spaces(text.drop_last()).push(text.last())
    }
}

/// Copies the text without its spaces.
pub fn strip_spaces(text: &[u8]) -> (stripped: Vec<u8>)
    ensures
        stripped@ == without_spaces(text@),
{
    let mut stripped: Vec<u8> = Vec::new();
    let mut i: usize = 0;
    while i < text.len()
        invariant
            i <= text.len(),
            stripped@ == without_spaces(text@.subrange(0, i as int)),
        decreases text.len() - i,
    {
        proof {
            assert(text@.subrange(0, i + 1).drop_last() =~= text@.subrange(0, i as int));
        }
        if text[i] != 0x20 {
            stripped.push(text[i]);
        }
        i += 1;
    }
    proof {
        assert(text@.subrange(0, text.len() as int) =~= text@);
    }
    stripped
}

/// The number that a hexadecimal digit stands for, in either case.
pub open spec fn hex_value(digit: u8) -> Option<u8> {
    if 0x30 <= digit <= 0x39 {
        Some((digit - 0x30) as u8)
    } else if 0x41 <= digit <= 0x46 {
        Some((digit - 0x41 + 10) as u8)
    } else if 0x61 <= digit <= 0x66 {
        Some((digit - 0x61 + 10) as u8)
    } else {
        None
    }
}

/// Whether the text is made of pairs of hexadecimal digits.
pub open spec fn is_hex_text(text: Seq<u8>) -> bool {
    &&& text.len() % 2 == 0
    &&& forall|i: int| 0 <= i < text.len() ==> hex_value(#[trigger] text[i]) is Some
}

/// The bytes that the pairs of hexadecimal digits of the text denote.
pub open spec fn hex_bytes(text: Seq<u8>) -> Seq<u8> {
    Seq::new(
        text.len() / 2,
        |i: int| (hex_value(text[2 * i]).unwrap() * 16 + hex_value(text[2 * i + 1]).unwrap()) as u8,
    )
}

/// Calls `hex::decode` and drops the reason of a failure. The call succeeds
/// on an even number of hexadecimal digits, upper or lower case, and on
/// nothing else; each pair of digits gives one byte, the first digit its high
/// half.
#[verifier::external_body]
fn decode_hex(text: &Vec<u8>) -> (bytes: Option<Vec<u8>>)
    ensures
        bytes is Some <==> is_hex_text(text@),
        bytes is Some ==> bytes.unwrap()@ == hex_bytes(text@),
{
    hex::decode(text).ok()
}

/// The bytes that a query denotes when it is read as hexadecimal, if it can
/// be read so.
pub open spec fn hex_pattern_of(query: Seq<u8>) -> Option<Seq<u8>> {
    if is_hex_text(without_spaces(query)) {
        Some(hex_bytes(without_spaces(query)))
    } else {
        None
    }
}

/// Reads a query as hexadecimal: its spaces are taken out and the rest is
/// decoded, where it is an even number of hexadecimal digits.
pub fn hex_pattern(query: &[u8]) -> (pattern: Option<Vec<u8>>)
    ensures
        pattern is Some <==> hex_pattern_of(query@) is Some,
        pattern is Some ==> pattern.unwrap()@ == hex_pattern_of(query@).unwrap(),
{
    let stripped = strip_spaces(query);
    decode_hex(&stripped)
}

/// The index of a query over the contents: the offsets at which the query
/// stands as it is, merged with the offsets at which the bytes stand that it
/// denotes as hexadecimal.
pub open spec fn search_index(content: Seq<u8>, query: Seq<u8>) -> Seq<usize> {
    match hex_pattern_of(query) {
        Some(pattern) => merge(match_offsets(content, query), match_offsets(content, pattern)),
        None => match_offsets(content, query),
    }
}

/// Builds the index of a query over the contents.
pub fn rebuild(content: &[u8], query: &[u8]) -> (offsets: Vec<usize>)
    ensures
        offsets@ == search_index(content@, query@),
{
    let literal = find_matches(content, query);
    match hex_pattern(query) {
        Some(pattern) => {
            let decoded = find_matches(content, pattern.as_slice());
            merge_offsets(&literal, &decoded)
        },
        None => literal,
    }
}

/// The index ascends, and it holds exactly the offsets at which the query or
/// the bytes that it denotes stand in the contents.
pub proof fn lemma_search_index(content: Seq<u8>, query: Seq<u8>)
    requires
        content.len() <= usize::MAX,
    ensures
        ascending(search_index(content, query)),
        forall|i: int|
            0 <= i < search_index(content, query).len() ==> {
                let at = (#[trigger] search_index(content, query)[i]) as int;
                occurs_at(content, query, at) || (hex_pattern_of(query) is Some && occurs_at(
                    content,
                    hex_pattern_of(query).unwrap(),
                    at,
                ))
            },
        forall|at: int| #[trigger]
            occurs_at(content, query, at) ==> search_index(content, query).contains(at as usize),
        forall|at: int|
            hex_pattern_of(query) is Some && #[trigger] occurs_at(
                content,
                hex_pattern_of(query).unwrap(),
                at,
            ) ==> search_index(content, query).contains(at as usize),
{
    lemma_match_offsets(content, query);
    let literal = match_offsets(content, query);
    match hex_pattern_of(query) {
        Some(pattern) => {
            lemma_match_offsets(content, pattern);
            let decoded = match_offsets(content, pattern);
            lemma_merge(literal, decoded);
            let index = search_index(content, query);
            assert forall|i: int| 0 <= i < index.len() implies {
                let at = (#[trigger] index[i]) as int;
                occurs_at(content, query, at) || occurs_at(content, pattern, at)
            } by {
                assert(index.contains(index[i]));
                if literal.contains(index[i]) {
                    let k = choose|k: int| 0 <= k < literal.len() && literal[k] == index[i];
                    assert(occurs_at(content, query, literal[k] as int));
                } else {
                    let k = choose|k: int| 0 <= k < decoded.len() && decoded[k] == index[i];
                    assert(occurs_at(content, pattern, decoded[k] as int));
                }
            }
        },
        None => {},
    }
}

} // verus!
