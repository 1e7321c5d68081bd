//! The short form of a component's type name: the last path segment, and for
//! a generic type the last path segment of its first argument as well.

use vstd::prelude::*;

verus! {

/// The pieces of `s` between the occurrences of `pat`, which are matched from
/// the left and do not overlap; `i` is where the search in `s` stands. With
/// `i` at 0 these are the pieces that `str::split` yields.
pub open spec fn split_from(s: Seq<char>, pat: Seq<char>, i: int) -> Seq<Seq<char>>
    recommends
        pat.len() > 0,
        0 <= i,
    decreases s.len(), s.len() - i,
{
    if pat.len() == 0 || i < 0 || i + pat.len() > s.len() {
        seq![s]
    } else if s.subrange(i, i + pat.len()) == pat {
        seq![s.take(i)] + split_from(s.skip(i + pat.len()), pat, 0)
    } else {
        split_from(s, pat, i + 1)
    }
}

/// The pieces of `s` between the occurrences of `pat`.
pub open spec fn split(s: Seq<char>, pat: Seq<char>) -> Seq<Seq<char>> {
    split_from(s, pat, 0)
}

/// The separator of path segments, `::`.
pub open spec fn path_sep() -> Seq<char> {
    seq![':', ':']
}

/// The opening bracket of a generic argument list, `<`.
pub open spec fn angle() -> Seq<char> {
    seq!['<']
}

/// What follows the last `::` of `s`; all of `s` where it holds none.
pub open spec fn last_segment(s: Seq<char>) -> Seq<char> {
    split(s, path_sep()).last()
}

/// The short form of the type name `name`.
///
/// Without a `<` it is the last path segment. With one, it is the last
/// segment of what precedes the first `<`, then `<`, then the last segment of
/// what stands between the first `<` and the second (or the end).
pub open spec fn spec_simple_name(name: Seq<char>) -> Seq<char> {
    let parts = split(name, angle());
    if parts.len() > 1 {
        last_segment(parts[0]) + angle() + last_segment(parts[1])
    } else {
        last_segment(name)
    }
}

/// A split always yields a piece.
pub proof fn lemma_split_nonempty(s: Seq<char>, pat: Seq<char>, i: int)
    ensures
        split_from(s, pat, i).len() >= 1,
    decreases s.len(), s.len() - i,
{
    if pat.len() == 0 || i < 0 || i + pat.len() > s.len() {
    } else if s.subrange(i, i + pat.len()) == pat {
        lemma_split_nonempty(s.skip(i + pat.len()), pat, 0);
    } else {
        lemma_split_nonempty(s, pat, i + 1);
    }
}

/// Splitting on a single character `c`, from `i`, where the next `c` stands
/// at `k` (or nowhere, with `k` the length): the first piece ends at `k`, and
/// the rest is the split of what follows.
pub proof fn lemma_split_at_char(s: Seq<char>, c: char, i: int, k: int)
    requires
        0 <= i <= k <= s.len(),
        forall|j: int| i <= j < k ==> s[j] != c,
        k < s.len() ==> s[k] == c,
    ensures
        split_from(s, seq![c], i) == if k < s.len() {
            seq![s.take(k)] + split(s.skip(k + 1), seq![c])
        } else {
            seq![s]
        },
    decreases k - i,
{
    let pat = seq![c];
    if i + 1 > s.len() {
    } else {
        assert(s.subrange(i, i + 1) =~= seq![s[i]]);
        if s.subrange(i, i + 1) == pat {
            assert(seq![s[i]][0] == pat[0]);
            assert(i == k);
        } else {
            assert(s[i] != c) by {
                if s[i] == c {
                    assert(seq![s[i]] =~= pat);
                }
            }
            lemma_split_at_char(s, c, i + 1, k);
        }
    }
}

/// Whether `pat` stands in `s` at `i`.
pub open spec fn occurs_at(s: Seq<char>, pat: Seq<char>, i: int) -> bool {
    0 <= i && i + pat.len() <= s.len() && s.subrange(i, i + pat.len()) == pat
}

/// Where `c` first stands in `s` at or after `from`; the length of `s` where
/// it does not.
pub open spec fn index_of_char(s: Seq<char>, c: char, from: int) -> int
    decreases s.len() - from,
{
    if from < 0 || from >= s.len() {
        s.len() as int
    } else if s[from] == c {
        from
    } else {
        index_of_char(s, c, from + 1)
    }
}

proof fn lemma_index_of_char(s: Seq<char>, c: char, from: int)
    requires
        0 <= from <= s.len(),
    ensures
        from <= index_of_char(s, c, from) <= s.len(),
        forall|j: int| from <= j < index_of_char(s, c, from) ==> s[j] != c,
        index_of_char(s, c, from) < s.len() ==> s[index_of_char(s, c, from)] == c,
    decreases s.len() - from,
{
    if from < s.len() && s[from] != c {
        lemma_index_of_char(s, c, from + 1);
    }
}

/// Where `pat` stands nowhere from `i` on, nothing is split off.
proof fn lemma_split_without_match(s: Seq<char>, pat: Seq<char>, i: int)
    requires
        0 <= i,
        forall|j: int| i <= j ==> !occurs_at(s, pat, j),
    ensures
        split_from(s, pat, i) == seq![s],
    decreases s.len() - i,
{
    if pat.len() == 0 || i + pat.len() > s.len() {
    } else {
        assert(!occurs_at(s, pat, i));
        lemma_split_without_match(s, pat, i + 1);
    }
}

/// The last piece of a split is an end of what was split, from `k` on, and
/// `pat` stands nowhere in it.
proof fn lemma_last_piece(s: Seq<char>, pat: Seq<char>, i: int) -> (k: int)
    requires
        pat.len() > 0,
        0 <= i,
        forall|j: int| 0 <= j < i ==> !occurs_at(s, pat, j),
    ensures
        0 <= k <= s.len(),
        split_from(s, pat, i).last() == s.skip(k),
        forall|j: int| !occurs_at(s.skip(k), pat, j),
    decreases s.len(), s.len() - i,
{
    if i + pat.len() > s.len() {
        assert(s.skip(0) =~= s);
        0
    } else if s.subrange(i, i + pat.len()) == pat {
        let rest = s.skip(i + pat.len());
        let k = lemma_last_piece(rest, pat, 0);
        lemma_split_nonempty(rest, pat, 0);
        assert(rest.skip(k) =~= s.skip(i + pat.len() + k));
        i + pat.len() + k
    } else {
        assert(!occurs_at(s, pat, i));
        lemma_last_piece(s, pat, i + 1)
    }
}

/// A name without `<` or `::` is its own short form.
proof fn lemma_plain_name(s: Seq<char>)
    requires
        forall|j: int| 0 <= j < s.len() ==> s[j] != '<',
        forall|j: int| !occurs_at(s, path_sep(), j),
    ensures
        split(s, angle()) == seq![s],
        last_segment(s) == s,
        spec_simple_name(s) == s,
{
    lemma_split_at_char(s, '<', 0, s.len() as int);
    lemma_split_without_match(s, path_sep(), 0);
}

/// The last path segment of a text without `<`: it has neither `<` nor `::`.
proof fn lemma_last_segment_plain(s: Seq<char>)
    requires
        forall|j: int| 0 <= j < s.len() ==> s[j] != '<',
    ensures
        forall|j: int| 0 <= j < last_segment(s).len() ==> last_segment(s)[j] != '<',
        forall|j: int| !occurs_at(last_segment(s), path_sep(), j),
{
    let k = lemma_last_piece(s, path_sep(), 0);
    assert forall|j: int| 0 <= j < s.skip(k).len() implies s.skip(k)[j] != '<' by {
        assert(s.skip(k)[j] == s[k + j]);
    }
}

/// Shortening a short name changes nothing.
pub proof fn lemma_simple_name_idempotent(name: Seq<char>)
    ensures
        spec_simple_name(spec_simple_name(name)) == spec_simple_name(name),
{
    let first = index_of_char(name, '<', 0);
    lemma_index_of_char(name, '<', 0);
    lemma_split_at_char(name, '<', 0, first);
    if first == name.len() {
        lemma_last_segment_plain(name);
        lemma_plain_name(last_segment(name));
    } else {
        let rest = name.skip(first + 1);
        let second = index_of_char(rest, '<', 0);
        lemma_index_of_char(rest, '<', 0);
        lemma_split_at_char(rest, '<', 0, second);
        lemma_split_nonempty(rest.skip(second + 1), angle(), 0);
        let before = name.take(first);
        let between = rest.take(second);
        let parts = split(name, angle());
        assert(parts[0] == before);
        assert(parts[1] == between) by {
            if second == rest.len() {
                assert(rest.take(second) =~= rest);
            }
        }
        assert(parts.len() > 1);
        lemma_last_segment_plain(before);
        lemma_last_segment_plain(between);
        let left = last_segment(before);
        let generic = last_segment(between);
        let short = left + angle() + generic;
        assert(spec_simple_name(name) == short);
        lemma_plain_name(left);
        lemma_plain_name(generic);
        assert(forall|j: int| 0 <= j < left.len() ==> short[j] == left[j]);
        assert(short[left.len() as int] == '<');
        lemma_split_at_char(short, '<', 0, left.len() as int);
        assert(short.take(left.len() as int) =~= left);
        assert(short.skip(left.len() as int + 1) =~= generic);
        assert(split(short, angle()) =~= seq![left, generic]);
    }
}

/// The characters of `s`, in order.
fn chars_of(s: &str) -> (chars: Vec<char>)
    ensures
        chars@ == s@,
{
    let mut chars: Vec<char> = Vec::new();
    for c in it: s.chars()
        invariant
            chars@ == it.seq().take(it.index() as int),
            it.seq() == s@,
    {
        chars.push(c);
    }
    chars
}

/// Where `c` first stands in `chars[from..to]`; `to` where it does not.
fn find_char(chars: &Vec<char>, c: char, from: usize, to: usize) -> (k: usize)
    requires
        from <= to <= chars.len(),
    ensures
        from <= k <= to,
        forall|j: int| from <= j < k ==> chars[j] != c,
        k < to ==> chars[k as int] == c,
{
    let mut k: usize = from;
    while k < to && chars[k] != c
        invariant
            from <= k <= to <= chars.len(),
            forall|j: int| from <= j < k ==> chars[j] != c,
        decreases to - k,
    {
        k = k + 1;
    }
    k
}

/// Where the last path segment of `chars[from..to]` begins.
fn last_segment_start(chars: &Vec<char>, from: usize, to: usize) -> (start: usize)
    requires
        from <= to <= chars.len(),
    ensures
        from <= start <= to,
        chars@.subrange(start as int, to as int) == last_segment(
            chars@.subrange(from as int, to as int),
        ),
{
    let ghost whole = chars@.subrange(from as int, to as int);
    let mut start: usize = from;
    let mut i: usize = from;
    while to - i >= 2
        invariant
            from <= start <= i <= to <= chars.len(),
            whole == chars@.subrange(from as int, to as int),
            last_segment(whole) == split_from(
                chars@.subrange(start as int, to as int),
                path_sep(),
                i - start,
            ).last(),
        decreases to - i,
    {
        let ghost cur = chars@.subrange(start as int, to as int);
        let ghost j = i - start;
        assert(cur.subrange(j, j + 2) =~= seq![chars[i as int], chars[i + 1]]);
        if chars[i] == ':' && chars[i + 1] == ':' {
            proof {
                assert(cur.subrange(j, j + 2) =~= path_sep());
                lemma_split_nonempty(cur.skip(j + 2), path_sep(), 0);
                assert(cur.skip(j + 2) =~= chars@.subrange(i + 2, to as int));
            }
            i = i + 2;
            start = i;
        } else {
            proof {
                if cur.subrange(j, j + 2) == path_sep() {
                    assert(seq![chars[i as int], chars[i + 1]][0] == path_sep()[0]);
                    assert(seq![chars[i as int], chars[i + 1]][1] == path_sep()[1]);
                }
            }
            i = i + 1;
        }
    }
    start
}

/// The short form of the type name `name`.
pub fn simple_name(name: &str) -> (simple: String)
    ensures
        simple@ == spec_simple_name(name@),
{
    let chars = chars_of(name);
    let len = chars.len();
    let first = find_char(&chars, '<', 0, len);
    proof {
        lemma_split_at_char(name@, '<', 0, first as int);
        assert(chars@.subrange(0, len as int) =~= name@);
    }
    if first == len {
        let start = last_segment_start(&chars, 0, len);
        String::from_str(name.substring_char(start, len))
    } else {
        let second = find_char(&chars, '<', first + 1, len);
        let left = last_segment_start(&chars, 0, first);
        let generic = last_segment_start(&chars, first + 1, second);
        proof {
            let rest = name@.skip(first + 1);
            lemma_split_nonempty(rest, angle(), 0);
            lemma_split_at_char(rest, '<', 0, second - first - 1);
            lemma_split_nonempty(rest.skip(second - first), angle(), 0);
            assert(name@.take(first as int) =~= chars@.subrange(0, first as int));
            assert(rest.take(second - first - 1) =~= chars@.subrange(
                first + 1,
                second as int,
            ));
            if second == len {
                assert(rest =~= chars@.subrange(first + 1, second as int));
            }
            reveal_strlit("<");
            assert("<"@ =~= angle());
        }
        let mut simple = String::from_str(name.substring_char(left, first));
        simple.append("<");
        simple.append(name.substring_char(generic, second));
        simple
    }
}

} // verus!
