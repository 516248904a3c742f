//! The name of the output file: where it comes from, and how a name that is
//! already taken is told apart.

use vstd::prelude::*;
use crate::decimal::{decimal, lemma_decimal_injective, lemma_decimal_value, push_decimal};
use crate::plan::texts_of;
use crate::text::{
    append_chars, append_str, find, find_chars, from_chars, last_index_of, last_index_of_char,
    lemma_find, lemma_last_index_before, matches_at, slice_chars, text_of, to_chars, trim_char,
    trim_chars,
};

verus! {

/// The name that is used where neither the response nor the URL gives one.
pub const DEFAULT_FILENAME: &'static str = "downloaded_file.ts";

/// The marker that precedes the file name in a `Content-Disposition` value.
pub const FILENAME_MARKER: &'static str = "filename=";

/// The file name that a `Content-Disposition` value gives: what stands
/// between the first `filename=` and the next one, or the end of the value,
/// without the double quotes at its ends. `None` where the marker is missing.
pub open spec fn disposition_filename(value: Seq<char>) -> Option<Seq<char>> {
    let marker = FILENAME_MARKER@;
    match find(value, marker) {
        None => None,
        Some(at) => {
            let rest = value.subrange(at + marker.len(), value.len() as int);
            let piece = match find(rest, marker) {
                Some(next) => rest.subrange(0, next),
                None => rest,
            };
            Some(trim_char(piece, '"'))
        },
    }
}

/// What follows the last `/` of `path`; all of `path` where it has none.
pub open spec fn last_component(path: Seq<char>) -> Seq<char> {
    match last_index_of(path, '/') {
        Some(at) => path.subrange(at + 1, path.len() as int),
        None => path,
    }
}

/// The name that the response and the URL give the download: the file name
/// of the `Content-Disposition` value where it has one; else the last,
/// non-empty segment of the URL's path; else the default name. Of the name so
/// found, only what follows its last `/` counts.
pub open spec fn chosen_name(disposition: Option<Seq<char>>, path: Option<Seq<char>>) -> Seq<char> {
    if disposition is Some && disposition_filename(disposition->0) is Some {
        last_component(disposition_filename(disposition->0)->0)
    } else if path is Some && last_component(path->0).len() > 0 {
        last_component(path->0)
    } else {
        DEFAULT_FILENAME@
    }
}

/// The stem and the extension of `name`, split at its last `.`; a name
/// without a `.`, or with its only one in front, is all stem.
pub open spec fn stem_and_extension(name: Seq<char>) -> (Seq<char>, Seq<char>) {
    match last_index_of(name, '.') {
        Some(at) if at > 0 => (name.subrange(0, at), name.subrange(at + 1, name.len() as int)),
        _ => (name, Seq::empty()),
    }
}

/// `name` with ` (number)` put after its stem.
pub open spec fn numbered_name(name: Seq<char>, number: nat) -> Seq<char> {
    let (stem, extension) = stem_and_extension(name);
    if extension.len() == 0 {
        stem + " ("@ + decimal(number) + ")"@
    } else {
        stem + " ("@ + decimal(number) + ")."@ + extension
    }
}

/// The name that is tried in round `number`: `name` itself first, then
/// `name` numbered 1, 2 and so on.
pub open spec fn candidate(name: Seq<char>, number: nat) -> Seq<char> {
    if number == 0 {
        name
    } else {
        numbered_name(name, number)
    }
}

/// The first round from `from` on whose candidate is not among `taken`; no
/// round after the one whose number is the length of `taken` is looked at.
pub open spec fn first_free(name: Seq<char>, taken: Seq<Seq<char>>, from: nat) -> nat
    decreases taken.len() - from,
{
    if from >= taken.len() || !taken.contains(candidate(name, from)) {
        from
    } else {
        first_free(name, taken, from + 1)
    }
}

/// The first of the candidates for `name` that is not among `taken`.
pub open spec fn free_name(name: Seq<char>, taken: Seq<Seq<char>>) -> Seq<char> {
    candidate(name, first_free(name, taken, 0))
}

/// Two texts that agree but for a middle part have the same middle part.
proof fn lemma_same_middle(
    front: Seq<char>,
    first: Seq<char>,
    second: Seq<char>,
    back: Seq<char>,
)
    requires
        front + first + back == front + second + back,
    ensures
        first == second,
{
    let a = front + first + back;
    let b = front + second + back;
    assert(a.len() == b.len());
    assert forall|i: int| 0 <= i < first.len() implies first[i] == second[i] by {
        assert(a[front.len() + i] == first[i]);
        assert(b[front.len() + i] == second[i]);
    }
    assert(first =~= second);
}

/// Different rounds try different names.
pub proof fn lemma_candidate_injective(name: Seq<char>, a: nat, b: nat)
    requires
        candidate(name, a) == candidate(name, b),
    ensures
        a == b,
{
    reveal_strlit(" (");
    reveal_strlit(")");
    reveal_strlit(").");
    lemma_decimal_value(a);
    lemma_decimal_value(b);
    lemma_last_index_before(name, '.', name.len() as int);
    let (stem, extension) = stem_and_extension(name);
    if a == 0 && b == 0 {
    } else if a == 0 || b == 0 {
        let n = if a == 0 {
            b
        } else {
            a
        };
        assert(numbered_name(name, n).len() > name.len());
    } else if extension.len() == 0 {
        assert(stem + " ("@ + decimal(a) + ")"@ =~= (stem + " ("@) + decimal(a) + ")"@);
        assert(stem + " ("@ + decimal(b) + ")"@ =~= (stem + " ("@) + decimal(b) + ")"@);
        lemma_same_middle(stem + " ("@, decimal(a), decimal(b), ")"@);
        lemma_decimal_injective(a, b);
    } else {
        assert(stem + " ("@ + decimal(a) + ")."@ + extension =~= (stem + " ("@) + decimal(a) + (
        ")."@ + extension));
        assert(stem + " ("@ + decimal(b) + ")."@ + extension =~= (stem + " ("@) + decimal(b) + (
        ")."@ + extension));
        lemma_same_middle(stem + " ("@, decimal(a), decimal(b), ")."@ + extension);
        lemma_decimal_injective(a, b);
    }
}

/// The candidates of the rounds before `count`.
pub open spec fn candidates_before(name: Seq<char>, count: nat) -> Set<Seq<char>> {
    Set::new(|s: Seq<char>| exists|i: nat| i < count && s == #[trigger] candidate(name, i))
}

/// There are as many candidates before round `count` as rounds.
proof fn lemma_candidates_count(name: Seq<char>, count: nat)
    ensures
        candidates_before(name, count).finite(),
        candidates_before(name, count).len() == count,
    decreases count,
{
    if count == 0 {
        assert(candidates_before(name, 0) =~= Set::<Seq<char>>::empty());
    } else {
        let fewer = candidates_before(name, (count - 1) as nat);
        let last = candidate(name, (count - 1) as nat);
        lemma_candidates_count(name, (count - 1) as nat);
        assert(!fewer.contains(last)) by {
            if fewer.contains(last) {
                let i = choose|i: nat| i < count - 1 && last == #[trigger] candidate(name, i);
                lemma_candidate_injective(name, i, (count - 1) as nat);
            }
        }
        assert(candidates_before(name, count) =~= fewer.insert(last)) by {
            assert forall|s: Seq<char>| candidates_before(name, count).contains(s) implies fewer.insert(
                last,
            ).contains(s) by {
                let i = choose|i: nat| i < count && s == #[trigger] candidate(name, i);
                if i < count - 1 {
                    assert(fewer.contains(s));
                }
            }
            assert forall|s: Seq<char>| fewer.insert(last).contains(s) implies candidates_before(
                name,
                count,
            ).contains(s) by {
                if s == last {
                    assert(s == candidate(name, (count - 1) as nat));
                } else {
                    let i = choose|i: nat| i < count - 1 && s == #[trigger] candidate(name, i);
                    assert(s == candidate(name, i));
                }
            }
        }
    }
}

/// The rounds before the first free one all find their candidate taken.
pub proof fn lemma_first_free_least(name: Seq<char>, taken: Seq<Seq<char>>, from: nat)
    ensures
        from <= first_free(name, taken, from),
        first_free(name, taken, from) <= taken.len() || first_free(name, taken, from) == from,
        forall|i: nat|
            from <= i < first_free(name, taken, from) ==> taken.contains(
                #[trigger] candidate(name, i),
            ),
        first_free(name, taken, from) < taken.len() ==> !taken.contains(
            candidate(name, first_free(name, taken, from)),
        ),
    decreases taken.len() - from,
{
    if from >= taken.len() || !taken.contains(candidate(name, from)) {
    } else {
        lemma_first_free_least(name, taken, from + 1);
    }
}

/// The name that is found free is not taken, and every candidate of an
/// earlier round is.
pub proof fn lemma_free_name_is_free(name: Seq<char>, taken: Seq<Seq<char>>)
    ensures
        !taken.contains(free_name(name, taken)),
        forall|i: nat|
            i < first_free(name, taken, 0) ==> taken.contains(#[trigger] candidate(name, i)),
{
    lemma_first_free_least(name, taken, 0);
    let round = first_free(name, taken, 0);
    if round >= taken.len() && taken.contains(candidate(name, round)) {
        let count = taken.len();
        let tried = candidates_before(name, count);
        let all = taken.to_set();
        lemma_candidates_count(name, count);
        taken.lemma_cardinality_of_set();
        assert(tried.subset_of(all)) by {
            assert forall|s: Seq<char>| tried.contains(s) implies all.contains(s) by {
                let i = choose|i: nat| i < count && s == #[trigger] candidate(name, i);
                assert(taken.contains(candidate(name, i)));
            }
        }
        vstd::set_lib::lemma_len_subset(tried, all);
        vstd::set_lib::lemma_subset_equality(tried, all);
        assert(all.contains(candidate(name, round)));
        assert(tried.contains(candidate(name, round)));
        let i = choose|i: nat| i < count && candidate(name, round) == #[trigger] candidate(name, i);
        lemma_candidate_injective(name, i, round);
    }
}

/// Gives the file name that a `Content-Disposition` value holds, if any.
pub fn filename_from_disposition(value: &str) -> (name: Option<String>)
    ensures
        text_of(name) == disposition_filename(value@),
{
    let chars = to_chars(value);
    let marker = to_chars(FILENAME_MARKER);
    let found = find_chars(&chars, &marker);
    proof {
        lemma_find(chars@, marker@);
    }
    match found {
        None => None,
        Some(at) => {
            assert(matches_at(chars@, marker@, at as int));
            assert(at + marker.len() <= chars.len());
            let rest = slice_chars(&chars, at + marker.len(), chars.len());
            let next = find_chars(&rest, &marker);
            proof {
                lemma_find(rest@, marker@);
            }
            let piece = match next {
                Some(end) => {
                    assert(matches_at(rest@, marker@, end as int));
                    slice_chars(&rest, 0, end)
                },
                None => rest,
            };
            Some(from_chars(&trim_chars(&piece, '"')))
        },
    }
}

/// Gives what follows the last `/` of `path`.
pub fn final_component(path: &Vec<char>) -> (name: Vec<char>)
    ensures
        name@ == last_component(path@),
{
    let found = last_index_of_char(path, '/');
    proof {
        lemma_last_index_before(path@, '/', path@.len() as int);
    }
    match found {
        Some(at) => {
            assert(at < path.len());
            slice_chars(path, at + 1, path.len())
        },
        None => slice_chars(path, 0, path.len()),
    }
}

/// Chooses the name of a download from the `Content-Disposition` value of
/// the response, if it has one, and the path of the URL, if it has one.
pub fn choose_name(disposition: Option<&str>, path: Option<&str>) -> (name: String)
    ensures
        name@ == chosen_name(
            match disposition {
                Some(d) => Some(d@),
                None => None,
            },
            match path {
                Some(p) => Some(p@),
                None => None,
            },
        ),
{
    if let Some(value) = disposition {
        if let Some(found) = filename_from_disposition(value) {
            return from_chars(&final_component(&to_chars(found.as_str())));
        }
    }
    if let Some(p) = path {
        let last = final_component(&to_chars(p));
        if last.len() > 0 {
            return from_chars(&last);
        }
    }
    from_chars(&to_chars(DEFAULT_FILENAME))
}

/// Gives the candidate of round `number` for `name`.
pub fn candidate_name(name: &str, number: u64) -> (result: String)
    ensures
        result@ == candidate(name@, number as nat),
{
    let chars = to_chars(name);
    if number == 0 {
        return from_chars(&chars);
    }
    let mut out: Vec<char> = Vec::new();
    match last_index_of_char(&chars, '.') {
        Some(at) if at > 0 => {
            proof {
                lemma_last_index_before(chars@, '.', chars@.len() as int);
            }
            let stem = slice_chars(&chars, 0, at);
            let extension = slice_chars(&chars, at + 1, chars.len());
            append_chars(&mut out, &stem);
            append_str(&mut out, " (");
            push_decimal(&mut out, number);
            if extension.len() == 0 {
                append_str(&mut out, ")");
            } else {
                append_str(&mut out, ").");
                append_chars(&mut out, &extension);
            }
            proof {
                assert(out@ =~= numbered_name(name@, number as nat));
            }
        },
        _ => {
            append_chars(&mut out, &chars);
            append_str(&mut out, " (");
            push_decimal(&mut out, number);
            append_str(&mut out, ")");
            proof {
                assert(out@ =~= numbered_name(name@, number as nat));
            }
        },
    }
    from_chars(&out)
}

/// Tells whether `name` is one of `taken`.
pub fn is_taken(taken: &Vec<String>, name: &String) -> (found: bool)
    ensures
        found == texts_of(taken@).contains(name@),
{
    let mut i: usize = 0;
    while i < taken.len()
        invariant
            i <= taken.len(),
            forall|j: int| 0 <= j < i ==> texts_of(taken@)[j] != name@,
        decreases taken.len() - i,
    {
        if taken[i] == *name {
            assert(texts_of(taken@)[i as int] == name@);
            return true;
        }
        i += 1;
    }
    false
}

/// Finds a name for the file that none of the files in `taken` has: `name`
/// itself where it is free, else the first free one of `name` numbered 1, 2
/// and so on.
pub fn free_file_name(name: &str, taken: &Vec<String>) -> (result: String)
    ensures
        result@ == free_name(name@, texts_of(taken@)),
        !texts_of(taken@).contains(result@),
{
    proof {
        lemma_free_name_is_free(name@, texts_of(taken@));
    }
    let mut round: usize = 0;
    while round < taken.len()
        invariant
            round <= taken.len(),
            first_free(name@, texts_of(taken@), 0) == first_free(
                name@,
                texts_of(taken@),
                round as nat,
            ),
        decreases taken.len() - round,
    {
        let attempt = candidate_name(name, round as u64);
        if !is_taken(taken, &attempt) {
            return attempt;
        }
        round += 1;
    }
    candidate_name(name, round as u64)
}

} // verus!
