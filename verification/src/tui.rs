//! The repository list that the picker shows: archived repositories hidden
//! or kept, a stable sort by update time, name or stars, and the search
//! filter over names and descriptions.
use vstd::prelude::*;
use crate::cli::SortBy;
use crate::models::Repo;
use crate::text::{
    chars_of, contains_chars, has_infix, lemma_lex_lt_irreflexive, lemma_lex_lt_total,
    lemma_lex_lt_transitive, lex_less, lex_lt, lowercase, string_of, to_lowercase, trim_chars,
    trimmed, TrimSet,
};

verus! {

broadcast use vstd::string::group_string_axioms;

// ------------------------------------------------------------------
// Order
// ------------------------------------------------------------------

/// The text a sort mode orders by (none for stars).
pub open spec fn sort_text(r: Repo, sort: SortBy) -> Seq<char> {
    match sort {
        SortBy::Updated => r.updated_at@,
        SortBy::Name => r.full_name@,
        SortBy::Stars => Seq::empty(),
    }
}

/// Repository `a` is listed strictly before repository `b`: newer update
/// time first, name in ascending order, or more stars first.
pub open spec fn key_before(repos: Seq<Repo>, sort: SortBy, a: usize, b: usize) -> bool {
    match sort {
        SortBy::Updated => lex_lt(repos[b as int].updated_at@, repos[a as int].updated_at@),
        SortBy::Name => lex_lt(repos[a as int].full_name@, repos[b as int].full_name@),
        SortBy::Stars => repos[b as int].stargazers_count < repos[a as int].stargazers_count,
    }
}

/// Repositories `a` and `b` have the same sort key.
pub open spec fn same_key(repos: Seq<Repo>, sort: SortBy, a: usize, b: usize) -> bool {
    match sort {
        SortBy::Updated => repos[a as int].updated_at@ == repos[b as int].updated_at@,
        SortBy::Name => repos[a as int].full_name@ == repos[b as int].full_name@,
        SortBy::Stars => repos[a as int].stargazers_count == repos[b as int].stargazers_count,
    }
}

/// The indices whose repository has the same sort key as repository `k`.
pub open spec fn class_pred(repos: Seq<Repo>, sort: SortBy, k: usize) -> spec_fn(usize) -> bool {
    |e: usize| same_key(repos, sort, e, k)
}

/// The members of `s`, in order, with the sort key of repository `k`.
pub open spec fn key_class(repos: Seq<Repo>, sort: SortBy, s: Seq<usize>, k: usize) -> Seq<usize> {
    s.filter(class_pred(repos, sort, k))
}

/// No member of `s` is listed strictly before an earlier one.
pub open spec fn sorted_by_key(repos: Seq<Repo>, sort: SortBy, s: Seq<usize>) -> bool {
    forall|i: int, j: int| 0 <= i < j < s.len() ==> !key_before(repos, sort, #[trigger] s[j], #[trigger] s[i])
}

/// `out` is `inp` sorted stably: sorted by key, and for every key the
/// members with that key come in the order they had in `inp` (so `out`
/// also holds exactly the members of `inp`).
pub open spec fn is_stable_sort_of(repos: Seq<Repo>, sort: SortBy, out: Seq<usize>, inp: Seq<usize>) -> bool {
    &&& sorted_by_key(repos, sort, out)
    &&& forall|k: usize| #[trigger] key_class(repos, sort, out, k) == key_class(repos, sort, inp, k)
}

/// All members of `s` index `repos`.
pub open spec fn indices_in(s: Seq<usize>, n: nat) -> bool {
    forall|i: int| 0 <= i < s.len() ==> #[trigger] s[i] < n
}

/// The sort keys form a strict weak order: `key_before` is irreflexive,
/// asymmetric and transitive, and two keys are equal exactly when neither
/// comes before the other.
pub proof fn lemma_key_order(repos: Seq<Repo>, sort: SortBy, a: usize, b: usize, c: usize)
    ensures
        !key_before(repos, sort, a, a),
        key_before(repos, sort, a, b) ==> !key_before(repos, sort, b, a),
        key_before(repos, sort, a, b) && key_before(repos, sort, b, c) ==> key_before(repos, sort, a, c),
        same_key(repos, sort, a, b) <==> (!key_before(repos, sort, a, b) && !key_before(repos, sort, b, a)),
{
    match sort {
        SortBy::Updated => {
            let (ka, kb, kc) = (repos[a as int].updated_at@, repos[b as int].updated_at@, repos[c as int].updated_at@);
            lemma_lex_lt_irreflexive(ka);
            lemma_lex_lt_irreflexive(kb);
            lemma_lex_lt_total(ka, kb);
            if lex_lt(kb, ka) && lex_lt(kc, kb) {
                lemma_lex_lt_transitive(kc, kb, ka);
            }
        },
        SortBy::Name => {
            let (ka, kb, kc) = (repos[a as int].full_name@, repos[b as int].full_name@, repos[c as int].full_name@);
            lemma_lex_lt_irreflexive(ka);
            lemma_lex_lt_irreflexive(kb);
            lemma_lex_lt_total(ka, kb);
            if lex_lt(ka, kb) && lex_lt(kb, kc) {
                lemma_lex_lt_transitive(ka, kb, kc);
            }
        },
        SortBy::Stars => {},
    }
}

/// Equal keys are an equivalence, and "not before" is transitive.
pub proof fn lemma_key_order_more(repos: Seq<Repo>, sort: SortBy, a: usize, b: usize, c: usize)
    ensures
        same_key(repos, sort, a, a),
        same_key(repos, sort, a, b) ==> same_key(repos, sort, b, a),
        same_key(repos, sort, a, b) && same_key(repos, sort, b, c) ==> same_key(repos, sort, a, c),
        !key_before(repos, sort, a, b) && !key_before(repos, sort, b, c) ==> !key_before(repos, sort, a, c),
        key_before(repos, sort, a, b) && same_key(repos, sort, b, c) ==> key_before(repos, sort, a, c),
{
    lemma_key_order(repos, sort, a, b, c);
    lemma_key_order(repos, sort, b, c, a);
    lemma_key_order(repos, sort, c, a, b);
    lemma_key_order(repos, sort, a, c, b);
    lemma_key_order(repos, sort, b, a, c);
    lemma_key_order(repos, sort, c, b, a);
}

/// A filter keeps nothing of a sequence none of whose members pass.
proof fn lemma_filter_none(s: Seq<usize>, p: spec_fn(usize) -> bool)
    requires
        forall|i: int| 0 <= i < s.len() ==> !p(#[trigger] s[i]),
    ensures
        s.filter(p) == Seq::<usize>::empty(),
    decreases s.len(),
{
    reveal_with_fuel(Seq::filter, 1);
    if s.len() > 0 {
        lemma_filter_none(s.drop_last(), p);
        assert(!p(s[s.len() - 1]));
    }
    assert(s.filter(p) =~= Seq::<usize>::empty());
}

/// Filtering `s` with `x` appended.
proof fn lemma_filter_push(s: Seq<usize>, x: usize, p: spec_fn(usize) -> bool)
    ensures
        s.push(x).filter(p) == (if p(x) { s.filter(p).push(x) } else { s.filter(p) }),
{
    reveal_with_fuel(Seq::filter, 1);
    assert(s.push(x).drop_last() =~= s);
}

/// Inserting `x` into a stably sorted `out` after every member that is not
/// after it, and before every member that is, stably sorts `inp` with `x`
/// appended.
proof fn lemma_insert_stable(repos: Seq<Repo>, sort: SortBy, out: Seq<usize>, inp: Seq<usize>, x: usize, p: int)
    requires
        is_stable_sort_of(repos, sort, out, inp),
        0 <= p <= out.len(),
        forall|j: int| 0 <= j < p ==> !key_before(repos, sort, x, #[trigger] out[j]),
        forall|j: int| p <= j < out.len() ==> key_before(repos, sort, x, #[trigger] out[j]),
    ensures
        is_stable_sort_of(repos, sort, out.insert(p, x), inp.push(x)),
{
    let new = out.insert(p, x);
    assert forall|i: int, j: int| 0 <= i < j < new.len() implies !key_before(repos, sort, #[trigger] new[j], #[trigger] new[i]) by {
        if i < p && j < p {
            assert(new[i] == out[i] && new[j] == out[j]);
        } else if i < p && j == p {
            assert(new[i] == out[i]);
        } else if i < p {
            assert(new[i] == out[i] && new[j] == out[j - 1]);
        } else if i == p {
            assert(new[j] == out[j - 1]);
            lemma_key_order(repos, sort, x, out[j - 1], x);
        } else {
            assert(new[i] == out[i - 1] && new[j] == out[j - 1]);
        }
    }
    assert forall|k: usize| #[trigger] key_class(repos, sort, new, k) == key_class(repos, sort, inp.push(x), k) by {
        let f = class_pred(repos, sort, k);
        assert(key_class(repos, sort, out, k) == key_class(repos, sort, inp, k));
        let head = out.take(p);
        let tail = out.skip(p);
        assert(new =~= head + seq![x] + tail);
        assert(out =~= head + tail);
        Seq::filter_distributes_over_add(head + seq![x], tail, f);
        Seq::filter_distributes_over_add(head, seq![x], f);
        Seq::filter_distributes_over_add(head, tail, f);
        lemma_filter_push(inp, x, f);
        lemma_filter_push(Seq::<usize>::empty(), x, f);
        assert(seq![x] =~= Seq::<usize>::empty().push(x));
        assert(Seq::<usize>::empty().filter(f) =~= Seq::<usize>::empty()) by {
            reveal_with_fuel(Seq::filter, 1);
        }
        if f(x) {
            assert forall|j: int| 0 <= j < tail.len() implies !f(#[trigger] tail[j]) by {
                assert(tail[j] == out[p + j]);
                lemma_key_order(repos, sort, x, tail[j], k);
                lemma_key_order_more(repos, sort, x, tail[j], k);
                lemma_key_order_more(repos, sort, tail[j], k, x);
                lemma_key_order_more(repos, sort, k, x, tail[j]);
            }
            lemma_filter_none(tail, f);
            assert(head.filter(f) + tail.filter(f) =~= head.filter(f));
            assert(new.filter(f) =~= head.filter(f).push(x));
            assert(inp.push(x).filter(f) == inp.filter(f).push(x));
            assert(out.filter(f) == head.filter(f));
        } else {
            assert(new.filter(f) =~= head.filter(f) + tail.filter(f));
            assert(inp.push(x).filter(f) == inp.filter(f));
        }
    }
}

/// Whether repository `a` is listed strictly before repository `b`.
fn precedes(repos: &[Repo], keys: &Vec<Vec<char>>, sort: SortBy, a: usize, b: usize) -> (r: bool)
    requires
        a < repos.len(),
        b < repos.len(),
        keys.len() == repos.len(),
        forall|i: int| 0 <= i < repos.len() ==> #[trigger] keys@[i]@ == sort_text(repos@[i], sort),
    ensures
        r == key_before(repos@, sort, a, b),
{
    match sort {
        SortBy::Updated => lex_less(&keys[b], &keys[a]),
        SortBy::Name => lex_less(&keys[a], &keys[b]),
        SortBy::Stars => repos[b].stargazers_count < repos[a].stargazers_count,
    }
}

/// The sort text of every repository.
fn sort_keys(repos: &[Repo], sort: SortBy) -> (keys: Vec<Vec<char>>)
    ensures
        keys.len() == repos.len(),
        forall|i: int| 0 <= i < repos.len() ==> #[trigger] keys@[i]@ == sort_text(repos@[i], sort),
{
    let mut keys: Vec<Vec<char>> = Vec::new();
    let mut i: usize = 0;
    while i < repos.len()
        invariant
            i <= repos.len(),
            keys.len() == i,
            forall|j: int| 0 <= j < i ==> #[trigger] keys@[j]@ == sort_text(repos@[j], sort),
        decreases repos.len() - i,
    {
        let k = match sort {
            SortBy::Updated => chars_of(repos[i].updated_at.as_str()),
            SortBy::Name => chars_of(repos[i].full_name.as_str()),
            SortBy::Stars => Vec::new(),
        };
        keys.push(k);
        i = i + 1;
    }
    keys
}

/// Sorts `indices` stably by the repositories they point to: by update
/// time, newest first; by full name; or by stars, most first.
pub fn sort_indices(repos: &[Repo], indices: &mut [usize], sort: SortBy)
    requires
        indices_in(old(indices)@, repos@.len()),
    ensures
        is_stable_sort_of(repos@, sort, final(indices)@, old(indices)@),
        indices_in(final(indices)@, repos@.len()),
{
    let keys = sort_keys(repos, sort);
    let mut out: Vec<usize> = Vec::new();
    let mut i: usize = 0;
    assert forall|k: usize| #[trigger] key_class(repos@, sort, out@, k) == key_class(repos@, sort, indices@.take(0), k) by {
        assert(indices@.take(0) =~= out@);
    }
    while i < indices.len()
        invariant
            i <= indices.len(),
            indices_in(indices@, repos@.len()),
            indices_in(out@, repos@.len()),
            keys.len() == repos.len(),
            forall|j: int| 0 <= j < repos.len() ==> #[trigger] keys@[j]@ == sort_text(repos@[j], sort),
            is_stable_sort_of(repos@, sort, out@, indices@.take(i as int)),
            out@.len() == i,
        decreases indices.len() - i,
    {
        let x = indices[i];
        let mut p: usize = out.len();
        while p > 0 && precedes(repos, &keys, sort, x, out[p - 1])
            invariant
                p <= out.len(),
                x < repos.len(),
                indices_in(out@, repos@.len()),
                keys.len() == repos.len(),
                forall|j: int| 0 <= j < repos.len() ==> #[trigger] keys@[j]@ == sort_text(repos@[j], sort),
                forall|j: int| p <= j < out.len() ==> key_before(repos@, sort, x, #[trigger] out@[j]),
            decreases p,
        {
            p = p - 1;
        }
        proof {
            let o = out@;
            assert forall|j: int| 0 <= j < p implies !key_before(repos@, sort, x, #[trigger] o[j]) by {
                if p > 0 {
                    assert(!key_before(repos@, sort, x, o[p - 1]));
                    if j < p - 1 {
                        assert(!key_before(repos@, sort, o[p - 1], o[j]));
                        lemma_key_order_more(repos@, sort, x, o[p - 1], o[j]);
                    }
                }
            }
            lemma_insert_stable(repos@, sort, o, indices@.take(i as int), x, p as int);
            assert(indices@.take(i as int).push(x) =~= indices@.take(i + 1));
        }
        out.insert(p, x);
        i = i + 1;
    }
    assert(indices@.take(indices@.len() as int) =~= indices@);
    let ghost sorted = out@;
    let n = indices.len();
    let mut j: usize = 0;
    while j < n
        invariant
            j <= n == indices.len() == out.len(),
            out@ == sorted,
            forall|l: int| 0 <= l < j ==> indices@[l] == sorted[l],
        decreases n - j,
    {
        indices[j] = out[j];
        j = j + 1;
    }
    assert(indices@ =~= sorted);
}

// ------------------------------------------------------------------
// The base list
// ------------------------------------------------------------------

/// The repository is listed: archived ones only when they are included.
pub open spec fn is_listed(r: Repo, include_archived: bool) -> bool {
    include_archived || !r.archived
}

/// The indices of the first `n` repositories that are listed, in order.
pub open spec fn listed_upto(repos: Seq<Repo>, include_archived: bool, n: int) -> Seq<usize> {
    Seq::new(n as nat, |i: int| i as usize).filter(|i: usize| is_listed(repos[i as int], include_archived))
}

/// The indices of all listed repositories, in order.
pub open spec fn listed(repos: Seq<Repo>, include_archived: bool) -> Seq<usize> {
    listed_upto(repos, include_archived, repos.len() as int)
}

/// The base list: the listed repositories, sorted stably.
pub fn base_indices(repos: &[Repo], include_archived: bool, sort_by: SortBy) -> (idx: Vec<usize>)
    ensures
        is_stable_sort_of(repos@, sort_by, idx@, listed(repos@, include_archived)),
        indices_in(idx@, repos@.len()),
{
    let mut idx: Vec<usize> = Vec::new();
    let mut i: usize = 0;
    let ghost keep = |j: usize| is_listed(repos@[j as int], include_archived);
    proof {
        reveal_with_fuel(Seq::filter, 1);
        assert(Seq::new(0, |j: int| j as usize) =~= Seq::<usize>::empty());
        assert(idx@ =~= listed_upto(repos@, include_archived, 0));
    }
    while i < repos.len()
        invariant
            i <= repos.len(),
            idx@ == listed_upto(repos@, include_archived, i as int),
            indices_in(idx@, i as nat),
        decreases repos.len() - i,
    {
        proof {
            let all = Seq::new((i + 1) as nat, |j: int| j as usize);
            assert(all.drop_last() =~= Seq::new(i as nat, |j: int| j as usize));
            assert(all.last() == i);
            reveal_with_fuel(Seq::filter, 1);
        }
        if include_archived || !repos[i].archived {
            idx.push(i);
        }
        i = i + 1;
    }
    sort_indices(repos, idx.as_mut_slice(), sort_by);
    idx
}

// ------------------------------------------------------------------
// The search filter
// ------------------------------------------------------------------

/// The search text that a query filters by: trimmed, then lower-cased.
pub open spec fn query_text(query: Seq<char>) -> Seq<char> {
    lowercase(trimmed(query, TrimSet::WhiteSpace))
}

/// A repository's description, or nothing.
pub open spec fn description_text(r: Repo) -> Seq<char> {
    match r.description {
        Some(d) => d@,
        None => Seq::empty(),
    }
}

/// The repository's lower-cased name or description holds the search text.
pub open spec fn repo_matches(r: Repo, q: Seq<char>) -> bool {
    has_infix(lowercase(r.full_name@), q) || has_infix(lowercase(description_text(r)), q)
}

/// The indices whose repository matches the search text `q`.
pub open spec fn match_pred(repos: Seq<Repo>, q: Seq<char>) -> spec_fn(usize) -> bool {
    |i: usize| repo_matches(repos[i as int], q)
}

/// The members of `base` whose repository matches the query, in order; all
/// of `base` where the search text is empty.
pub open spec fn filtered(repos: Seq<Repo>, base: Seq<usize>, query: Seq<char>) -> Seq<usize> {
    let q = query_text(query);
    if q.len() == 0 {
        base
    } else {
        base.filter(match_pred(repos, q))
    }
}

/// The indices whose lower-cased name or description (given in `names`
/// and `descs`) holds the search text `q`.
pub open spec fn text_match_pred(names: Seq<String>, descs: Seq<String>, q: Seq<char>) -> spec_fn(usize) -> bool {
    |i: usize| has_infix(names[i as int]@, q) || has_infix(descs[i as int]@, q)
}

/// The members of `base`, in order, whose name or description holds the
/// search text `q`; the names, descriptions and search text come already
/// lower-cased, one name and one description per repository.
pub fn rows_matching(base: &[usize], names: &[String], descs: &[String], q: &str) -> (r: Vec<usize>)
    requires
        indices_in(base@, names@.len()),
        indices_in(base@, descs@.len()),
    ensures
        r@ == base@.filter(text_match_pred(names@, descs@, q@)),
{
    let qc = chars_of(q);
    let ghost pred = text_match_pred(names@, descs@, q@);
    let mut out: Vec<usize> = Vec::new();
    let mut i: usize = 0;
    proof {
        reveal_with_fuel(Seq::filter, 1);
        assert(base@.take(0) =~= Seq::<usize>::empty());
    }
    while i < base.len()
        invariant
            i <= base.len(),
            indices_in(base@, names@.len()),
            indices_in(base@, descs@.len()),
            qc@ == q@,
            pred == text_match_pred(names@, descs@, q@),
            out@ == base@.take(i as int).filter(pred),
        decreases base.len() - i,
    {
        let j = base[i];
        proof {
            assert(base@.take(i + 1).drop_last() =~= base@.take(i as int));
            reveal_with_fuel(Seq::filter, 1);
        }
        let keep = contains_chars(&chars_of(names[j].as_str()), &qc) || contains_chars(
            &chars_of(descs[j].as_str()),
            &qc,
        );
        if keep {
            out.push(j);
        }
        i = i + 1;
    }
    assert(base@.take(base@.len() as int) =~= base@);
    out
}

/// Filters that agree on every member of `s` keep the same members.
proof fn lemma_filter_agree(s: Seq<usize>, p: spec_fn(usize) -> bool, q: spec_fn(usize) -> bool)
    requires
        forall|i: int| 0 <= i < s.len() ==> p(#[trigger] s[i]) == q(s[i]),
    ensures
        s.filter(p) == s.filter(q),
    decreases s.len(),
{
    reveal_with_fuel(Seq::filter, 1);
    if s.len() > 0 {
        lemma_filter_agree(s.drop_last(), p, q);
        assert(p(s[s.len() - 1]) == q(s[s.len() - 1]));
    }
}

/// The members of `base` that match `query`; all of `base` for a blank
/// query, which looks at no repository.
pub fn filter_from_base(repos: &[Repo], base: &[usize], query: &str) -> (r: Vec<usize>)
    requires
        trimmed(query@, TrimSet::WhiteSpace).len() > 0 ==> indices_in(base@, repos@.len()),
    ensures
        r@ == filtered(repos@, base@, query@),
        trimmed(query@, TrimSet::WhiteSpace).len() == 0 ==> r@ == base@,
{
    let trimmed_query = trim_chars(&chars_of(query), TrimSet::WhiteSpace);
    let q = to_lowercase(string_of(&trimmed_query).as_str());
    if chars_of(q.as_str()).len() == 0 {
        return vstd::slice::slice_to_vec(base);
    }
    let mut names: Vec<String> = Vec::new();
    let mut descs: Vec<String> = Vec::new();
    let mut j: usize = 0;
    while j < repos.len()
        invariant
            j <= repos.len(),
            names.len() == j,
            descs.len() == j,
            forall|k: int| 0 <= k < j ==> #[trigger] names@[k]@ == lowercase(repos@[k].full_name@),
            forall|k: int| 0 <= k < j ==> #[trigger] descs@[k]@ == lowercase(description_text(repos@[k])),
        decreases repos.len() - j,
    {
        names.push(to_lowercase(repos[j].full_name.as_str()));
        let d = match &repos[j].description {
            Some(d) => to_lowercase(d.as_str()),
            None => {
                proof {
                    reveal_strlit("");
                    assert(""@ =~= description_text(repos@[j as int]));
                }
                to_lowercase("")
            },
        };
        descs.push(d);
        j = j + 1;
    }
    let r = rows_matching(base, names.as_slice(), descs.as_slice(), q.as_str());
    proof {
        let p1 = text_match_pred(names@, descs@, q@);
        let p2 = match_pred(repos@, q@);
        assert forall|i: int| 0 <= i < base@.len() implies p1(#[trigger] base@[i]) == p2(base@[i]) by {
            let k = base@[i] as int;
            assert(names@[k]@ == lowercase(repos@[k].full_name@));
            assert(descs@[k]@ == lowercase(description_text(repos@[k])));
        }
        lemma_filter_agree(base@, p1, p2);
    }
    r
}

/// The label of a sort mode.
pub fn sort_label(sort: SortBy) -> (s: &'static str)
    ensures
        s@ == match sort {
            SortBy::Updated => "updated"@,
            SortBy::Name => "name"@,
            SortBy::Stars => "stars"@,
        },
{
    match sort {
        SortBy::Updated => "updated",
        SortBy::Name => "name",
        SortBy::Stars => "stars",
    }
}

// ------------------------------------------------------------------
// The picker
// ------------------------------------------------------------------

/// A key, as the picker reads it.
#[derive(Clone, Copy, Debug, PartialEq, Eq, Structural)]
pub enum Key {
    Char(char),
    Up,
    Down,
    Enter,
    Backspace,
    Esc,
    /// Any other key.
    Other,
}

/// A key event with the modifiers the picker looks at.
#[derive(Clone, Copy, Debug)]
pub struct KeyPress {
    pub key: Key,
    pub ctrl: bool,
    pub alt: bool,
    /// The key went down; releases and repeats are not presses.
    pub press: bool,
}

/// What the picker asks of the terminal after a key press.
#[derive(Clone, Copy, Debug, PartialEq, Eq, Structural)]
pub enum PickerStep {
    /// The state changed: draw it again.
    Redraw,
    /// Nothing changed.
    Unchanged,
    /// Leave without choosing.
    Quit,
    /// Leave with the repository at this index of the list chosen.
    Choose(usize),
}

/// What the picker hands back when it ends.
pub struct TuiOutput {
    pub selected: Option<Repo>,
    pub last_query: String,
}

/// The interactive repository picker: the repositories, the base list
/// computed once, the search query, the list that it filters to, the
/// selected row and whether the help overlay is shown.
pub struct Picker {
    repos: Vec<Repo>,
    base: Vec<usize>,
    filtered: Vec<usize>,
    query: Vec<char>,
    selected: usize,
    show_help: bool,
    include_archived: bool,
    sort: SortBy,
}

/// The picker's state as values.
pub struct PickerState {
    pub repos: Seq<Repo>,
    pub base: Seq<usize>,
    pub filtered: Seq<usize>,
    pub query: Seq<char>,
    pub selected: usize,
    pub show_help: bool,
    pub include_archived: bool,
    pub sort: SortBy,
}

impl View for Picker {
    type V = PickerState;

    closed spec fn view(&self) -> PickerState {
        PickerState {
            repos: self.repos@,
            base: self.base@,
            filtered: self.filtered@,
            query: self.query@,
            selected: self.selected,
            show_help: self.show_help,
            include_archived: self.include_archived,
            sort: self.sort,
        }
    }
}

/// The picker's state holds together: the base list is the listed
/// repositories sorted stably, the shown list is the base list filtered by
/// the query, and the selection is a row of the shown list (or 0 when it is
/// empty).
pub open spec fn consistent(s: PickerState) -> bool {
    &&& indices_in(s.base, s.repos.len())
    &&& is_stable_sort_of(s.repos, s.sort, s.base, listed(s.repos, s.include_archived))
    &&& s.filtered == filtered(s.repos, s.base, s.query)
    &&& s.filtered.len() == 0 ==> s.selected == 0
    &&& s.filtered.len() > 0 ==> s.selected < s.filtered.len()
}

/// The state with a new query: the list filtered again, the first row selected.
pub open spec fn with_query(s: PickerState, q: Seq<char>) -> PickerState {
    PickerState { query: q, filtered: filtered(s.repos, s.base, q), selected: 0, ..s }
}

/// What a key event does to the picker, and what it asks for. Only key
/// presses act: a release or a repeat changes nothing. Ctrl+C quits
/// at once. While help is shown, Esc and `?` close it and other keys do
/// nothing. Otherwise `?` opens help, Esc quits, Up and Down move the
/// selection within the list, Enter chooses the selected repository (or
/// quits on an empty list), Backspace deletes the last query character,
/// and a character without Ctrl or Alt is added to the query; a changed
/// query selects the first row.
pub open spec fn step(s: PickerState, k: KeyPress) -> (PickerState, PickerStep) {
    if !k.press {
        (s, PickerStep::Unchanged)
    } else if k.key == Key::Char('c') && k.ctrl {
        (s, PickerStep::Quit)
    } else if s.show_help {
        if k.key == Key::Esc || k.key == Key::Char('?') {
            (PickerState { show_help: false, ..s }, PickerStep::Redraw)
        } else {
            (s, PickerStep::Unchanged)
        }
    } else {
        match k.key {
            Key::Char(c) => if c == '?' {
                (PickerState { show_help: true, ..s }, PickerStep::Redraw)
            } else if !k.ctrl && !k.alt {
                (with_query(s, s.query.push(c)), PickerStep::Redraw)
            } else {
                (s, PickerStep::Unchanged)
            },
            Key::Esc => (s, PickerStep::Quit),
            Key::Up => if s.selected > 0 {
                (PickerState { selected: (s.selected - 1) as usize, ..s }, PickerStep::Redraw)
            } else {
                (s, PickerStep::Unchanged)
            },
            Key::Down => if s.filtered.len() > 0 && s.selected + 1 < s.filtered.len() {
                (PickerState { selected: (s.selected + 1) as usize, ..s }, PickerStep::Redraw)
            } else {
                (s, PickerStep::Unchanged)
            },
            Key::Enter => if s.filtered.len() > 0 {
                (s, PickerStep::Choose(s.filtered[s.selected as int]))
            } else {
                (s, PickerStep::Quit)
            },
            Key::Backspace => if s.query.len() > 0 {
                (with_query(s, s.query.drop_last()), PickerStep::Redraw)
            } else {
                (s, PickerStep::Unchanged)
            },
            Key::Other => (s, PickerStep::Unchanged),
        }
    }
}

impl Picker {
    /// The picker holds together.
    pub open spec fn wf(&self) -> bool {
        consistent(self@)
    }

    /// A picker over `repos`, listing archived repositories only when
    /// `include_archived`, sorted by `sort_by`, with `initial_query` as the
    /// query and the first row selected.
    pub fn new(repos: Vec<Repo>, include_archived: bool, sort_by: SortBy, initial_query: String) -> (p: Picker)
        ensures
            p.wf(),
            p@.repos == repos@,
            p@.query == initial_query@,
            p@.selected == 0,
            !p@.show_help,
            p@.include_archived == include_archived,
            p@.sort == sort_by,
    {
        let base = base_indices(repos.as_slice(), include_archived, sort_by);
        let query = chars_of(initial_query.as_str());
        let filtered = filter_from_base(repos.as_slice(), base.as_slice(), initial_query.as_str());
        Picker { repos, base, filtered, query, selected: 0, show_help: false, include_archived, sort: sort_by }
    }

    /// Applies one key press.
    pub fn handle_key(&mut self, k: KeyPress) -> (r: PickerStep)
        requires
            old(self).wf(),
        ensures
            final(self).wf(),
            (final(self)@, r) == step(old(self)@, k),
    {
        if !k.press {
            return PickerStep::Unchanged;
        }
        if k.key == Key::Char('c') && k.ctrl {
            return PickerStep::Quit;
        }
        if self.show_help {
            if k.key == Key::Esc || k.key == Key::Char('?') {
                self.show_help = false;
                return PickerStep::Redraw;
            }
            return PickerStep::Unchanged;
        }
        match k.key {
            Key::Char(c) => {
                if c == '?' {
                    self.show_help = true;
                    PickerStep::Redraw
                } else if !k.ctrl && !k.alt {
                    self.query.push(c);
                    self.refilter();
                    PickerStep::Redraw
                } else {
                    PickerStep::Unchanged
                }
            },
            Key::Esc => PickerStep::Quit,
            Key::Up => {
                if self.selected > 0 {
                    self.selected = self.selected - 1;
                    PickerStep::Redraw
                } else {
                    PickerStep::Unchanged
                }
            },
            Key::Down => {
                if self.filtered.len() > 0 && self.selected + 1 < self.filtered.len() {
                    self.selected = self.selected + 1;
                    PickerStep::Redraw
                } else {
                    PickerStep::Unchanged
                }
            },
            Key::Enter => {
                if self.filtered.len() > 0 {
                    PickerStep::Choose(self.filtered[self.selected])
                } else {
                    PickerStep::Quit
                }
            },
            Key::Backspace => {
                if self.query.len() > 0 {
                    self.query.pop();
                    self.refilter();
                    PickerStep::Redraw
                } else {
                    PickerStep::Unchanged
                }
            },
            Key::Other => PickerStep::Unchanged,
        }
    }

    /// Filters the list again for the current query and selects the first row.
    fn refilter(&mut self)
        requires
            indices_in(old(self)@.base, old(self)@.repos.len()),
        ensures
            final(self)@ == with_query(old(self)@, old(self)@.query),
    {
        let q = string_of(&self.query);
        self.filtered = filter_from_base(self.repos.as_slice(), self.base.as_slice(), q.as_str());
        self.selected = 0;
    }

    /// The query typed so far.
    pub fn query(&self) -> (q: String)
        ensures
            q@ == self@.query,
    {
        string_of(&self.query)
    }

    /// All repositories.
    pub fn repos(&self) -> (r: &Vec<Repo>)
        ensures
            r@ == self@.repos,
    {
        &self.repos
    }

    /// The rows shown: indices into the repositories.
    pub fn shown(&self) -> (r: &Vec<usize>)
        ensures
            r@ == self@.filtered,
    {
        &self.filtered
    }

    /// The selected row.
    pub fn selected(&self) -> (r: usize)
        ensures
            r == self@.selected,
    {
        self.selected
    }

    /// Whether the help overlay is shown.
    pub fn show_help(&self) -> (r: bool)
        ensures
            r == self@.show_help,
    {
        self.show_help
    }

    /// Whether archived repositories are listed.
    pub fn include_archived(&self) -> (r: bool)
        ensures
            r == self@.include_archived,
    {
        self.include_archived
    }

    /// The sort mode.
    pub fn sort(&self) -> (r: SortBy)
        ensures
            r == self@.sort,
    {
        self.sort
    }

    /// Ends the picker: the repository at `chosen` (as `Choose` named it),
    /// if any, and the last query.
    pub fn finish(self, chosen: Option<usize>) -> (out: TuiOutput)
        requires
            chosen matches Some(i) ==> i < self@.repos.len(),
        ensures
            out.last_query@ == self@.query,
            match chosen {
                Some(i) => out.selected == Some(self@.repos[i as int]),
                None => out.selected is None,
            },
    {
        let last_query = string_of(&self.query);
        let mut repos = self.repos;
        let selected = match chosen {
            Some(i) => Some(repos.remove(i)),
            None => None,
        };
        TuiOutput { selected, last_query }
    }
}

// ------------------------------------------------------------------
// Laws
// ------------------------------------------------------------------

/// A stable sort holds exactly the members of the sequence it sorts.
pub proof fn lemma_stable_sort_members(repos: Seq<Repo>, sort: SortBy, out: Seq<usize>, inp: Seq<usize>, x: usize)
    requires
        is_stable_sort_of(repos, sort, out, inp),
    ensures
        out.contains(x) <==> inp.contains(x),
{
    let f = class_pred(repos, sort, x);
    lemma_key_order_more(repos, sort, x, x, x);
    assert(key_class(repos, sort, out, x) == key_class(repos, sort, inp, x));
    if out.contains(x) {
        let i = choose|i: int| 0 <= i < out.len() && out[i] == x;
        out.lemma_filter_contains(f, i);
        inp.lemma_filter_contains_rev(f, x);
    }
    if inp.contains(x) {
        let i = choose|i: int| 0 <= i < inp.len() && inp[i] == x;
        inp.lemma_filter_contains(f, i);
        out.lemma_filter_contains_rev(f, x);
    }
}

/// The base list holds exactly the repositories that are listed: every
/// repository that is not archived, and the archived ones only when they
/// are included.
pub proof fn lemma_base_members(repos: Seq<Repo>, sort: SortBy, base: Seq<usize>, include_archived: bool, x: usize)
    requires
        is_stable_sort_of(repos, sort, base, listed(repos, include_archived)),
    ensures
        base.contains(x) <==> (x < repos.len() && is_listed(repos[x as int], include_archived)),
{
    lemma_stable_sort_members(repos, sort, base, listed(repos, include_archived), x);
    let all = Seq::new(repos.len(), |i: int| i as usize);
    let keep = |i: usize| is_listed(repos[i as int], include_archived);
    assert(listed(repos, include_archived) == all.filter(keep));
    if all.filter(keep).contains(x) {
        all.lemma_filter_contains_rev(keep, x);
        let j = choose|j: int| 0 <= j < all.filter(keep).len() && all.filter(keep)[j] == x;
        all.lemma_filter_pred(keep, j);
    }
    if x < repos.len() && is_listed(repos[x as int], include_archived) {
        assert(all[x as int] == x);
        all.lemma_filter_contains(keep, x as int);
    }
}

/// Every key press keeps the picker's state consistent.
pub proof fn lemma_step_consistent(s: PickerState, k: KeyPress)
    requires
        consistent(s),
    ensures
        consistent(step(s, k).0),
{
}

/// Typing a character (other than `?`, without Ctrl or Alt) and then
/// Backspace gives back the query and the list that were there before, with
/// the first row selected.
pub proof fn lemma_type_then_erase(s: PickerState, c: char, back: KeyPress)
    requires
        consistent(s),
        !s.show_help,
        c != '?',
        back.key == Key::Backspace,
        back.press,
    ensures
        ({
            let typed = step(s, KeyPress { key: Key::Char(c), ctrl: false, alt: false, press: true });
            let erased = step(typed.0, back);
            &&& typed.1 == PickerStep::Redraw
            &&& erased.1 == PickerStep::Redraw
            &&& erased.0 == PickerState { selected: 0, ..s }
        }),
{
    assert(s.query.push(c).drop_last() =~= s.query);
}

/// Pressing `?` opens the help overlay and pressing it again closes it;
/// nothing else changes.
pub proof fn lemma_help_toggle(s: PickerState, open: KeyPress, close: KeyPress)
    requires
        !s.show_help,
        open.key == Key::Char('?'),
        close.key == Key::Char('?'),
        open.press,
        close.press,
    ensures
        step(s, open) == (PickerState { show_help: true, ..s }, PickerStep::Redraw),
        step(step(s, open).0, close) == (s, PickerStep::Redraw),
{
}

/// While the help overlay is shown, every key but Esc, `?` and Ctrl+C
/// leaves the picker as it is.
pub proof fn lemma_help_blocks(s: PickerState, k: KeyPress)
    requires
        s.show_help,
        k.key != Key::Esc,
        k.key != Key::Char('?'),
        !(k.key == Key::Char('c') && k.ctrl),
    ensures
        step(s, k) == (s, PickerStep::Unchanged),
{
}

/// Ctrl+C quits from every state, and changes nothing.
pub proof fn lemma_ctrl_c_quits(s: PickerState, k: KeyPress)
    requires
        k.key == Key::Char('c'),
        k.ctrl,
        k.press,
    ensures
        step(s, k) == (s, PickerStep::Quit),
{
}

/// A key release or repeat leaves the picker as it is, so a key that a
/// terminal reports twice acts once.
pub proof fn lemma_only_presses_act(s: PickerState, k: KeyPress)
    requires
        !k.press,
    ensures
        step(s, k) == (s, PickerStep::Unchanged),
{
}

/// Every shown row is a listed repository (archived only when included)
/// that matches the search text, unless that is empty.
pub proof fn lemma_shown_rows(s: PickerState, j: int)
    requires
        consistent(s),
        0 <= j < s.filtered.len(),
    ensures
        s.filtered[j] < s.repos.len(),
        is_listed(s.repos[s.filtered[j] as int], s.include_archived),
        query_text(s.query).len() == 0 || repo_matches(s.repos[s.filtered[j] as int], query_text(s.query)),
{
    let q = query_text(s.query);
    let i = s.filtered[j];
    if q.len() > 0 {
        let pred = match_pred(s.repos, q);
        s.base.lemma_filter_pred(pred, j);
        assert(s.base.filter(pred).contains(i));
        s.base.lemma_filter_contains_rev(pred, i);
    } else {
        assert(s.base.contains(i));
    }
    lemma_base_members(s.repos, s.sort, s.base, s.include_archived, i);
}

/// The repository that Enter chooses is the selected row of the shown list;
/// it is listed (archived only when included), and it matches the search
/// text unless that is empty.
pub proof fn lemma_choice_matches(s: PickerState, k: KeyPress, i: usize)
    requires
        consistent(s),
        step(s, k).1 == PickerStep::Choose(i),
    ensures
        k.key == Key::Enter,
        i == s.filtered[s.selected as int],
        i < s.repos.len(),
        is_listed(s.repos[i as int], s.include_archived),
        query_text(s.query).len() == 0 || repo_matches(s.repos[i as int], query_text(s.query)),
{
    lemma_shown_rows(s, s.selected as int);
}

/// Every shown row points to a repository.
pub proof fn lemma_shown_in_range(s: PickerState)
    requires
        consistent(s),
    ensures
        indices_in(s.filtered, s.repos.len()),
{
    let q = query_text(s.query);
    if q.len() > 0 {
        let pred = match_pred(s.repos, q);
        assert forall|j: int| 0 <= j < s.filtered.len() implies #[trigger] s.filtered[j] < s.repos.len() by {
            let x = s.filtered[j];
            assert(s.base.filter(pred).contains(x));
            s.base.lemma_filter_contains_rev(pred, x);
        }
    }
}

/// The picker after a sequence of key events.
pub open spec fn run_steps(s: PickerState, ks: Seq<KeyPress>) -> PickerState
    decreases ks.len(),
{
    if ks.len() == 0 {
        s
    } else {
        run_steps(step(s, ks[0]).0, ks.drop_first())
    }
}

/// The query and whether help is shown after a sequence of key events, from
/// query `q` and help `help`: only presses act, and Ctrl+C none; with help
/// shown, Esc and `?` close it; with help closed, `?` opens it, a character
/// without Ctrl or Alt is added to the query and Backspace deletes the last
/// character (none from an empty query); nothing else changes either.
pub open spec fn typed(q: Seq<char>, help: bool, ks: Seq<KeyPress>) -> (Seq<char>, bool)
    decreases ks.len(),
{
    if ks.len() == 0 {
        (q, help)
    } else {
        let k = ks[0];
        let rest = ks.drop_first();
        if !k.press || (k.key == Key::Char('c') && k.ctrl) {
            typed(q, help, rest)
        } else if help {
            if k.key == Key::Esc || k.key == Key::Char('?') {
                typed(q, false, rest)
            } else {
                typed(q, help, rest)
            }
        } else {
            match k.key {
                Key::Char(c) => if c == '?' {
                    typed(q, true, rest)
                } else if !k.ctrl && !k.alt {
                    typed(q.push(c), help, rest)
                } else {
                    typed(q, help, rest)
                },
                Key::Backspace => typed(
                    if q.len() > 0 {
                        q.drop_last()
                    } else {
                        q
                    },
                    help,
                    rest,
                ),
                _ => typed(q, help, rest),
            }
        }
    }
}

/// Over any sequence of key events the picker stays consistent, and its
/// query (the one it ends with, and hands back) and help overlay are what
/// `typed` gives from where it started.
pub proof fn lemma_typed_query(s: PickerState, ks: Seq<KeyPress>)
    requires
        consistent(s),
    ensures
        consistent(run_steps(s, ks)),
        run_steps(s, ks).query == typed(s.query, s.show_help, ks).0,
        run_steps(s, ks).show_help == typed(s.query, s.show_help, ks).1,
    decreases ks.len(),
{
    if ks.len() > 0 {
        lemma_step_consistent(s, ks[0]);
        lemma_typed_query(step(s, ks[0]).0, ks.drop_first());
    }
}

// ------------------------------------------------------------------
// Facts about filters
// ------------------------------------------------------------------

/// Filtering a sequence that starts with `x`.
proof fn lemma_filter_cons(s: Seq<usize>, p: spec_fn(usize) -> bool)
    requires
        s.len() > 0,
    ensures
        s.filter(p) == (if p(s[0]) {
            seq![s[0]] + s.drop_first().filter(p)
        } else {
            s.drop_first().filter(p)
        }),
{
    assert(s =~= seq![s[0]] + s.drop_first());
    Seq::filter_distributes_over_add(seq![s[0]], s.drop_first(), p);
    lemma_filter_push(Seq::<usize>::empty(), s[0], p);
    assert(seq![s[0]] =~= Seq::<usize>::empty().push(s[0]));
    assert(Seq::<usize>::empty().filter(p) =~= Seq::<usize>::empty()) by {
        reveal_with_fuel(Seq::filter, 1);
    }
    if p(s[0]) {
        assert(seq![s[0]].filter(p) =~= seq![s[0]]);
    } else {
        assert(seq![s[0]].filter(p) =~= Seq::<usize>::empty());
        assert(Seq::<usize>::empty() + s.drop_first().filter(p) =~= s.drop_first().filter(p));
    }
}

/// Filtering twice is filtering once by both tests.
proof fn lemma_filter_twice(s: Seq<usize>, p: spec_fn(usize) -> bool, q: spec_fn(usize) -> bool)
    ensures
        s.filter(p).filter(q) == s.filter(|x: usize| p(x) && q(x)),
    decreases s.len(),
{
    let pq = |x: usize| p(x) && q(x);
    reveal_with_fuel(Seq::filter, 1);
    if s.len() == 0 {
        assert(s.filter(p).filter(q) =~= s.filter(pq));
    } else {
        lemma_filter_twice(s.drop_last(), p, q);
        let x = s.last();
        if p(x) {
            lemma_filter_push(s.drop_last().filter(p), x, q);
        }
    }
}

/// A filter that keeps everything keeps the sequence.
proof fn lemma_filter_all(s: Seq<usize>, p: spec_fn(usize) -> bool)
    requires
        forall|i: int| 0 <= i < s.len() ==> p(#[trigger] s[i]),
    ensures
        s.filter(p) == s,
    decreases s.len(),
{
    reveal_with_fuel(Seq::filter, 1);
    if s.len() > 0 {
        lemma_filter_all(s.drop_last(), p);
        assert(p(s[s.len() - 1]));
        assert(s.drop_last().push(s.last()) =~= s);
    }
}

/// The members of `s` in strictly increasing order.
pub open spec fn increasing(s: Seq<usize>) -> bool {
    forall|i: int, j: int| 0 <= i < j < s.len() ==> #[trigger] s[i] < #[trigger] s[j]
}

/// A filter of an increasing sequence is increasing.
proof fn lemma_filter_increasing(s: Seq<usize>, p: spec_fn(usize) -> bool)
    requires
        increasing(s),
    ensures
        increasing(s.filter(p)),
    decreases s.len(),
{
    reveal_with_fuel(Seq::filter, 1);
    if s.len() > 0 {
        let t = s.drop_last();
        assert(increasing(t)) by {
            assert forall|i: int, j: int| 0 <= i < j < t.len() implies #[trigger] t[i] < #[trigger] t[j] by {
                assert(t[i] == s[i] && t[j] == s[j]);
            }
        }
        lemma_filter_increasing(t, p);
        let f = t.filter(p);
        if p(s.last()) {
            assert forall|i: int| 0 <= i < f.len() implies #[trigger] f[i] < s.last() by {
                assert(f.contains(f[i]));
                t.lemma_filter_contains_rev(p, f[i]);
                let m = choose|m: int| 0 <= m < t.len() && t[m] == f[i];
                assert(s[m] == f[i]);
            }
            let g = f.push(s.last());
            assert forall|i: int, j: int| 0 <= i < j < g.len() implies #[trigger] g[i] < #[trigger] g[j] by {
                if j == g.len() - 1 {
                    assert(g[i] == f[i]);
                } else {
                    assert(g[i] == f[i] && g[j] == f[j]);
                }
            }
        }
    }
}

/// A filter of a sequence sorted by key is sorted by key.
proof fn lemma_filter_sorted(repos: Seq<Repo>, sort: SortBy, s: Seq<usize>, p: spec_fn(usize) -> bool)
    requires
        sorted_by_key(repos, sort, s),
    ensures
        sorted_by_key(repos, sort, s.filter(p)),
    decreases s.len(),
{
    reveal_with_fuel(Seq::filter, 1);
    if s.len() > 0 {
        let t = s.drop_last();
        assert(sorted_by_key(repos, sort, t)) by {
            assert forall|i: int, j: int| 0 <= i < j < t.len() implies !key_before(repos, sort, #[trigger] t[j], #[trigger] t[i]) by {
                assert(t[i] == s[i] && t[j] == s[j]);
            }
        }
        lemma_filter_sorted(repos, sort, t, p);
        let f = t.filter(p);
        if p(s.last()) {
            let g = f.push(s.last());
            assert forall|i: int, j: int| 0 <= i < j < g.len() implies !key_before(repos, sort, #[trigger] g[j], #[trigger] g[i]) by {
                if j == g.len() - 1 {
                    assert(g[i] == f[i]);
                    assert(f.contains(f[i]));
                    t.lemma_filter_contains_rev(p, f[i]);
                    let m = choose|m: int| 0 <= m < t.len() && t[m] == f[i];
                    assert(s[m] == f[i]);
                    assert(s[s.len() - 1] == s.last());
                } else {
                    assert(g[i] == f[i] && g[j] == f[j]);
                }
            }
        }
    }
}

// ------------------------------------------------------------------
// The sort is determined
// ------------------------------------------------------------------

/// Two sequences sorted by key, with the same members in the same order
/// for every key, are equal.
proof fn lemma_sorted_classes_equal(repos: Seq<Repo>, sort: SortBy, a: Seq<usize>, b: Seq<usize>)
    requires
        sorted_by_key(repos, sort, a),
        sorted_by_key(repos, sort, b),
        forall|k: usize| #[trigger] key_class(repos, sort, a, k) == key_class(repos, sort, b, k),
    ensures
        a == b,
    decreases a.len() + b.len(),
{
    if a.len() == 0 && b.len() == 0 {
        assert(a =~= b);
    } else if a.len() == 0 || b.len() == 0 {
        let (e, nonempty, empty) = if a.len() == 0 { (b[0], b, a) } else { (a[0], a, b) };
        lemma_key_order_more(repos, sort, e, e, e);
        lemma_filter_cons(nonempty, class_pred(repos, sort, e));
        assert(key_class(repos, sort, a, e) == key_class(repos, sort, b, e));
        assert(empty.filter(class_pred(repos, sort, e)) =~= Seq::<usize>::empty()) by {
            reveal_with_fuel(Seq::filter, 1);
        }
        assert(key_class(repos, sort, nonempty, e).len() > 0);
    } else {
        let x = a[0];
        let y = b[0];
        lemma_key_order_more(repos, sort, x, x, x);
        lemma_key_order_more(repos, sort, y, y, y);
        lemma_key_order_more(repos, sort, x, y, x);
        lemma_key_order(repos, sort, x, y, x);
        lemma_filter_cons(a, class_pred(repos, sort, x));
        lemma_filter_cons(b, class_pred(repos, sort, x));
        lemma_filter_cons(a, class_pred(repos, sort, y));
        lemma_filter_cons(b, class_pred(repos, sort, y));
        assert(key_class(repos, sort, a, x) == key_class(repos, sort, b, x));
        assert(key_class(repos, sort, a, y) == key_class(repos, sort, b, y));
        if same_key(repos, sort, x, y) {
            assert(key_class(repos, sort, b, x)[0] == y);
            assert(key_class(repos, sort, a, x)[0] == x);
        } else if key_before(repos, sort, y, x) {
            let c = key_class(repos, sort, b, y);
            assert(c[0] == y);
            assert(c.contains(y));
            a.lemma_filter_contains_rev(class_pred(repos, sort, y), y);
            let m = choose|m: int| 0 <= m < a.len() && a[m] == y;
            assert(m != 0);
            assert(!key_before(repos, sort, a[m], a[0]));
        } else {
            assert(key_before(repos, sort, x, y));
            let c = key_class(repos, sort, a, x);
            assert(c[0] == x);
            assert(c.contains(x));
            b.lemma_filter_contains_rev(class_pred(repos, sort, x), x);
            let m = choose|m: int| 0 <= m < b.len() && b[m] == x;
            assert(m != 0);
            assert(!key_before(repos, sort, b[m], b[0]));
        }
        assert(x == y);
        let a1 = a.drop_first();
        let b1 = b.drop_first();
        assert(sorted_by_key(repos, sort, a1)) by {
            assert forall|i: int, j: int| 0 <= i < j < a1.len() implies !key_before(repos, sort, #[trigger] a1[j], #[trigger] a1[i]) by {
                assert(a1[i] == a[i + 1] && a1[j] == a[j + 1]);
            }
        }
        assert(sorted_by_key(repos, sort, b1)) by {
            assert forall|i: int, j: int| 0 <= i < j < b1.len() implies !key_before(repos, sort, #[trigger] b1[j], #[trigger] b1[i]) by {
                assert(b1[i] == b[i + 1] && b1[j] == b[j + 1]);
            }
        }
        assert forall|k: usize| #[trigger] key_class(repos, sort, a1, k) == key_class(repos, sort, b1, k) by {
            assert(key_class(repos, sort, a, k) == key_class(repos, sort, b, k));
            lemma_filter_cons(a, class_pred(repos, sort, k));
            lemma_filter_cons(b, class_pred(repos, sort, k));
            if same_key(repos, sort, x, k) {
                assert(key_class(repos, sort, a1, k) =~= key_class(repos, sort, a, k).drop_first());
                assert(key_class(repos, sort, b1, k) =~= key_class(repos, sort, b, k).drop_first());
            }
        }
        lemma_sorted_classes_equal(repos, sort, a1, b1);
        assert(a =~= seq![x] + a1);
        assert(b =~= seq![y] + b1);
    }
}

/// A sequence has one stable sort: two stable sorts of it are equal.
pub proof fn lemma_stable_sort_unique(repos: Seq<Repo>, sort: SortBy, out1: Seq<usize>, out2: Seq<usize>, inp: Seq<usize>)
    requires
        is_stable_sort_of(repos, sort, out1, inp),
        is_stable_sort_of(repos, sort, out2, inp),
    ensures
        out1 == out2,
{
    assert forall|k: usize| #[trigger] key_class(repos, sort, out1, k) == key_class(repos, sort, out2, k) by {
        assert(key_class(repos, sort, out1, k) == key_class(repos, sort, inp, k));
        assert(key_class(repos, sort, out2, k) == key_class(repos, sort, inp, k));
    }
    lemma_sorted_classes_equal(repos, sort, out1, out2);
}

/// The picker's rows are the query filter of what `base_indices` computes:
/// its base list is that stable sort of the listed repositories, as there
/// is only one.
pub proof fn lemma_picker_rows(s: PickerState, base: Seq<usize>)
    requires
        consistent(s),
        is_stable_sort_of(s.repos, s.sort, base, listed(s.repos, s.include_archived)),
    ensures
        s.base == base,
        s.filtered == filtered(s.repos, base, s.query),
{
    lemma_stable_sort_unique(s.repos, s.sort, s.base, base, listed(s.repos, s.include_archived));
}

// ------------------------------------------------------------------
// Members, counts and order of the base list
// ------------------------------------------------------------------

/// How often `x` occurs in a filter of `s`.
proof fn lemma_filter_count(s: Seq<usize>, p: spec_fn(usize) -> bool, x: usize)
    ensures
        s.filter(p).to_multiset().count(x) == (if p(x) {
            s.to_multiset().count(x)
        } else {
            0
        }),
    decreases s.len(),
{
    broadcast use vstd::seq_lib::group_to_multiset_ensures;

    reveal_with_fuel(Seq::filter, 1);
    if s.len() == 0 {
        assert(s.filter(p) =~= Seq::<usize>::empty());
    } else {
        let t = s.drop_last();
        lemma_filter_count(t, p, x);
        assert(t.push(s.last()) =~= s);
    }
}

/// A stable sort holds every member as often as the sequence it sorts.
pub proof fn lemma_stable_sort_permutes(repos: Seq<Repo>, sort: SortBy, out: Seq<usize>, inp: Seq<usize>)
    requires
        is_stable_sort_of(repos, sort, out, inp),
    ensures
        out.to_multiset() == inp.to_multiset(),
{
    assert forall|x: usize| #[trigger] out.to_multiset().count(x) == inp.to_multiset().count(x) by {
        lemma_key_order_more(repos, sort, x, x, x);
        assert(key_class(repos, sort, out, x) == key_class(repos, sort, inp, x));
        lemma_filter_count(out, class_pred(repos, sort, x), x);
        lemma_filter_count(inp, class_pred(repos, sort, x), x);
    }
    assert(out.to_multiset() =~= inp.to_multiset());
}

/// How often `x` occurs among the indices below `n`.
proof fn lemma_indices_count(n: int, x: usize)
    requires
        0 <= n <= usize::MAX + 1,
    ensures
        Seq::new(n as nat, |i: int| i as usize).to_multiset().count(x) == (if x < n {
            1int
        } else {
            0int
        }),
    decreases n,
{
    broadcast use vstd::seq_lib::group_to_multiset_ensures;

    let all = Seq::new(n as nat, |i: int| i as usize);
    if n == 0 {
        assert(all =~= Seq::<usize>::empty());
    } else {
        lemma_indices_count(n - 1, x);
        let prev = Seq::new((n - 1) as nat, |i: int| i as usize);
        assert(all =~= prev.push((n - 1) as usize));
    }
}

/// How often `x` occurs among the listed repositories.
proof fn lemma_listed_count(repos: Seq<Repo>, include_archived: bool, x: usize)
    requires
        repos.len() <= usize::MAX,
    ensures
        listed(repos, include_archived).to_multiset().count(x) == (if x < repos.len() && is_listed(
            repos[x as int],
            include_archived,
        ) {
            1int
        } else {
            0int
        }),
{
    let all = Seq::new(repos.len(), |i: int| i as usize);
    let keep = |i: usize| is_listed(repos[i as int], include_archived);
    lemma_filter_count(all, keep, x);
    lemma_indices_count(repos.len() as int, x);
}

/// The base list holds each listed repository exactly once, and nothing
/// else.
pub proof fn lemma_base_exactly_once(repos: Seq<Repo>, sort: SortBy, base: Seq<usize>, include_archived: bool, x: usize)
    requires
        is_stable_sort_of(repos, sort, base, listed(repos, include_archived)),
        repos.len() <= usize::MAX,
    ensures
        base.to_multiset().count(x) == (if x < repos.len() && is_listed(repos[x as int], include_archived) {
            1int
        } else {
            0int
        }),
{
    lemma_stable_sort_permutes(repos, sort, base, listed(repos, include_archived));
    lemma_listed_count(repos, include_archived, x);
}

/// The listed repositories come in increasing index order.
proof fn lemma_listed_increasing(repos: Seq<Repo>, include_archived: bool)
    requires
        repos.len() <= usize::MAX,
    ensures
        increasing(listed(repos, include_archived)),
{
    let all = Seq::new(repos.len(), |i: int| i as usize);
    assert forall|i: int, j: int| 0 <= i < j < all.len() implies #[trigger] all[i] < #[trigger] all[j] by {
        assert(all[i] == i && all[j] == j);
    }
    lemma_filter_increasing(all, |i: usize| is_listed(repos[i as int], include_archived));
}

/// Next to each other in the base list, a repository is never listed
/// before the one ahead of it, and of two with the same key the one with
/// the smaller index comes first.
pub proof fn lemma_base_adjacent(repos: Seq<Repo>, sort: SortBy, base: Seq<usize>, include_archived: bool, j: int)
    requires
        is_stable_sort_of(repos, sort, base, listed(repos, include_archived)),
        repos.len() <= usize::MAX,
        0 <= j,
        j + 1 < base.len(),
    ensures
        !key_before(repos, sort, base[j + 1], base[j]),
        same_key(repos, sort, base[j], base[j + 1]) ==> base[j] < base[j + 1],
{
    let x = base[j];
    let y = base[j + 1];
    if same_key(repos, sort, x, y) {
        let f = class_pred(repos, sort, x);
        lemma_key_order_more(repos, sort, x, x, x);
        lemma_key_order_more(repos, sort, y, x, y);
        let head = base.take(j + 1);
        let tail = base.skip(j + 1);
        assert(base =~= head + tail);
        Seq::filter_distributes_over_add(head, tail, f);
        head.lemma_filter_contains(f, j);
        let hf = head.filter(f);
        let a = choose|a: int| 0 <= a < hf.len() && hf[a] == x;
        lemma_filter_cons(tail, f);
        assert(tail[0] == y);
        let c = key_class(repos, sort, base, x);
        assert(c == hf + tail.filter(f));
        assert(c[a] == x);
        assert(c[hf.len() as int] == y);
        assert(c == key_class(repos, sort, listed(repos, include_archived), x));
        lemma_listed_increasing(repos, include_archived);
        lemma_filter_increasing(listed(repos, include_archived), f);
    }
}

/// Hiding archived repositories commutes with the sort: the base list
/// without archived ones is the base list with them, less the archived.
pub proof fn lemma_hiding_commutes(repos: Seq<Repo>, sort: SortBy, with_archived: Seq<usize>, without: Seq<usize>)
    requires
        is_stable_sort_of(repos, sort, with_archived, listed(repos, true)),
        is_stable_sort_of(repos, sort, without, listed(repos, false)),
    ensures
        without == with_archived.filter(|i: usize| !repos[i as int].archived),
{
    let na = |i: usize| !repos[i as int].archived;
    let cand = with_archived.filter(na);
    let all = Seq::new(repos.len(), |i: int| i as usize);
    let yes = |i: usize| is_listed(repos[i as int], true);
    let no = |i: usize| is_listed(repos[i as int], false);
    assert(listed(repos, true) == all.filter(yes));
    assert(listed(repos, false) == all.filter(no));
    lemma_filter_twice(all, yes, na);
    assert((|x: usize| yes(x) && na(x)) =~= no);
    lemma_filter_sorted(repos, sort, with_archived, na);
    assert forall|k: usize| #[trigger] key_class(repos, sort, cand, k) == key_class(repos, sort, listed(repos, false), k) by {
        let ck = class_pred(repos, sort, k);
        assert(key_class(repos, sort, with_archived, k) == key_class(repos, sort, listed(repos, true), k));
        lemma_filter_twice(with_archived, na, ck);
        lemma_filter_twice(with_archived, ck, na);
        assert((|x: usize| na(x) && ck(x)) =~= (|x: usize| ck(x) && na(x)));
        lemma_filter_twice(all.filter(yes), ck, na);
        lemma_filter_twice(all.filter(yes), na, ck);
    }
    lemma_stable_sort_unique(repos, sort, without, cand, listed(repos, false));
}

/// `q` occurs in `t` and `t` in `s`: `q` occurs in `s`.
proof fn lemma_infix_transitive(s: Seq<char>, t: Seq<char>, q: Seq<char>)
    requires
        has_infix(s, t),
        has_infix(t, q),
    ensures
        has_infix(s, q),
{
    let i = choose|i: int| 0 <= i && i + t.len() <= s.len() && #[trigger] s.subrange(i, i + t.len()) == t;
    let j = choose|j: int| 0 <= j && j + q.len() <= t.len() && #[trigger] t.subrange(j, j + q.len()) == q;
    assert(s.subrange(i + j, i + j + q.len()) =~= q) by {
        assert forall|l: int| 0 <= l < q.len() implies s.subrange(i + j, i + j + q.len())[l] == q[l] by {
            assert(t.subrange(j, j + q.len())[l] == t[j + l]);
            assert(s.subrange(i, i + t.len())[j + l] == s[i + j + l]);
        }
    }
}

/// `t` keeps some of the members of `s`, in their order.
pub open spec fn is_subsequence(t: Seq<usize>, s: Seq<usize>) -> bool {
    exists|p: spec_fn(usize) -> bool| t == s.filter(p)
}

/// Refining the query never adds rows: where the new search text holds the
/// old one, the rows it shows are some of the old rows, in their order.
pub proof fn lemma_refined_query(repos: Seq<Repo>, base: Seq<usize>, q1: Seq<char>, q2: Seq<char>)
    requires
        has_infix(query_text(q2), query_text(q1)),
    ensures
        is_subsequence(filtered(repos, base, q2), filtered(repos, base, q1)),
{
    let t1 = query_text(q1);
    let t2 = query_text(q2);
    if t1.len() == 0 {
        if t2.len() == 0 {
            let all = |i: usize| true;
            lemma_filter_all(base, all);
            assert(filtered(repos, base, q2) == base.filter(all));
        } else {
            assert(filtered(repos, base, q2) == base.filter(match_pred(repos, t2)));
        }
    } else {
        let p1 = match_pred(repos, t1);
        let p2 = match_pred(repos, t2);
        assert forall|i: usize| #[trigger] p2(i) implies p1(i) by {
            let r = repos[i as int];
            if has_infix(lowercase(r.full_name@), t2) {
                lemma_infix_transitive(lowercase(r.full_name@), t2, t1);
            } else {
                lemma_infix_transitive(lowercase(description_text(r)), t2, t1);
            }
        }
        lemma_filter_twice(base, p1, p2);
        assert((|x: usize| p1(x) && p2(x)) =~= p2);
        assert(filtered(repos, base, q2) == base.filter(p1).filter(p2));
    }
}

/// The base list comes in the order its sort mode names: a repository
/// updated later (its whole `updated_at` text greater, as `str` compares)
/// comes before one updated earlier; a name that sorts lower comes before a
/// higher one; a repository with more stars comes before one with fewer.
pub proof fn lemma_base_order(repos: Seq<Repo>, sort: SortBy, base: Seq<usize>, include_archived: bool)
    requires
        is_stable_sort_of(repos, sort, base, listed(repos, include_archived)),
    ensures
        forall|a: int, b: int|
            0 <= a < base.len() && 0 <= b < base.len() && sort == SortBy::Updated && lex_lt(
                repos[#[trigger] base[b] as int].updated_at@,
                repos[#[trigger] base[a] as int].updated_at@,
            ) ==> a < b,
        forall|a: int, b: int|
            0 <= a < base.len() && 0 <= b < base.len() && sort == SortBy::Name && lex_lt(
                repos[#[trigger] base[a] as int].full_name@,
                repos[#[trigger] base[b] as int].full_name@,
            ) ==> a < b,
        forall|a: int, b: int|
            0 <= a < base.len() && 0 <= b < base.len() && sort == SortBy::Stars
                && repos[#[trigger] base[b] as int].stargazers_count < repos[#[trigger] base[a] as int].stargazers_count
                ==> a < b,
{
    assert forall|a: int, b: int| 0 <= a < base.len() && 0 <= b < base.len() && key_before(repos, sort, #[trigger] base[a], #[trigger] base[b]) implies a < b by {
        if a == b {
            lemma_lex_lt_irreflexive(repos[base[a] as int].updated_at@);
            lemma_lex_lt_irreflexive(repos[base[a] as int].full_name@);
        } else if b < a {
            assert(!key_before(repos, sort, base[a], base[b]));
        }
    }
}

/// Repositories whose sort field is equal (the same `updated_at` text, the
/// same name, or as many stars) keep the order in which they come in
/// `repos`: the sort is stable.
pub proof fn lemma_base_ties_keep_order(repos: Seq<Repo>, sort: SortBy, base: Seq<usize>, include_archived: bool, i: int, j: int)
    requires
        is_stable_sort_of(repos, sort, base, listed(repos, include_archived)),
        repos.len() <= usize::MAX,
        0 <= i < j < base.len(),
        match sort {
            SortBy::Updated => repos[base[i] as int].updated_at@ == repos[base[j] as int].updated_at@,
            SortBy::Name => repos[base[i] as int].full_name@ == repos[base[j] as int].full_name@,
            SortBy::Stars => repos[base[i] as int].stargazers_count == repos[base[j] as int].stargazers_count,
        },
    ensures
        base[i] < base[j],
{
    let x = base[i];
    let y = base[j];
    let f = class_pred(repos, sort, x);
    lemma_key_order_more(repos, sort, x, x, x);
    assert(f(y));
    let head = base.take(i + 1);
    let tail = base.skip(i + 1);
    assert(base =~= head + tail);
    Seq::filter_distributes_over_add(head, tail, f);
    head.lemma_filter_contains(f, i);
    tail.lemma_filter_contains(f, j - i - 1);
    let hf = head.filter(f);
    let tf = tail.filter(f);
    let a = choose|a: int| 0 <= a < hf.len() && hf[a] == x;
    let b = choose|b: int| 0 <= b < tf.len() && tf[b] == y;
    let c = key_class(repos, sort, base, x);
    assert(c == hf + tf);
    assert(c[a] == x);
    assert(c[hf.len() + b] == y);
    assert(c == key_class(repos, sort, listed(repos, include_archived), x));
    lemma_listed_increasing(repos, include_archived);
    lemma_filter_increasing(listed(repos, include_archived), f);
}

/// Typing a character (other than `?`, without Ctrl or Alt, help closed)
/// adds it to the query, filters the base list by the new query and selects
/// the first row, whatever row was selected before; so Enter right after it
/// chooses the first repository the new query shows.
pub proof fn lemma_typing_selects_first(s: PickerState, c: char, enter: KeyPress)
    requires
        !s.show_help,
        c != '?',
        enter.key == Key::Enter,
        enter.press,
    ensures
        ({
            let t = step(s, KeyPress { key: Key::Char(c), ctrl: false, alt: false, press: true });
            &&& t.1 == PickerStep::Redraw
            &&& t.0.query == s.query.push(c)
            &&& t.0.filtered == filtered(s.repos, s.base, s.query.push(c))
            &&& t.0.selected == 0
            &&& t.0.filtered.len() > 0 ==> step(t.0, enter).1 == PickerStep::Choose(
                filtered(s.repos, s.base, s.query.push(c))[0],
            )
        }),
{
}

/// A key that changes the query, typed or erased, selects the first row.
pub proof fn lemma_query_change_selects_first(s: PickerState, k: KeyPress)
    ensures
        step(s, k).0.query != s.query ==> step(s, k).0.selected == 0 && step(s, k).0.filtered == filtered(
            s.repos,
            s.base,
            step(s, k).0.query,
        ),
{
}

/// Down moves the selection one row on where there is a row below, and Up
/// moves it back: nothing else changes. On the last row Down, and on the
/// first row Up, change nothing.
pub proof fn lemma_down_then_up(s: PickerState, down: KeyPress, up: KeyPress)
    requires
        consistent(s),
        s.filtered.len() <= usize::MAX,
        !s.show_help,
        down.key == Key::Down,
        up.key == Key::Up,
        down.press,
        up.press,
    ensures
        s.selected + 1 < s.filtered.len() ==> {
            let d = step(s, down);
            &&& d.1 == PickerStep::Redraw
            &&& d.0 == (PickerState { selected: (s.selected + 1) as usize, ..s })
            &&& step(d.0, up) == (s, PickerStep::Redraw)
        },
        s.selected + 1 >= s.filtered.len() ==> step(s, down) == (s, PickerStep::Unchanged),
        s.selected == 0 ==> step(s, up) == (s, PickerStep::Unchanged),
{
    if s.selected + 1 < s.filtered.len() {
        let d = step(s, down);
        assert(d.0 == PickerState { selected: (s.selected + 1) as usize, ..s });
        assert(step(d.0, up).0 == PickerState { selected: s.selected, ..s });
        assert(PickerState { selected: s.selected, ..s } == s);
    }
}

/// With help closed, Esc leaves without choosing and changes nothing; a
/// character typed with Ctrl or Alt (other than Ctrl+C, which quits) edits
/// nothing.
pub proof fn lemma_esc_and_modified_keys(s: PickerState, k: KeyPress)
    requires
        !s.show_help,
        k.press,
    ensures
        k.key == Key::Esc ==> step(s, k) == (s, PickerStep::Quit),
        (k.key matches Key::Char(c) && c != '?' && (k.ctrl || k.alt) && !(c == 'c' && k.ctrl)) ==> step(s, k) == (
        s, PickerStep::Unchanged),
{
}

} // verus!
