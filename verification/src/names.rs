//! The generic-name synthesizer.
//!
//! Fresh type-parameter names are drawn from the bijective base-26
//! enumeration `A, B, ..., Z, AA, AB, ...` and checked against the
//! template's pre-existing parameter names; a colliding index is skipped.

use vstd::prelude::*;
use vstd::arithmetic::div_mod::lemma_fundamental_div_mod;
use vstd::set_lib::set_int_range;
use vstd::set_lib::lemma_int_range;
use vstd::set_lib::lemma_len_subset;
use crate::text;

verus! {

/// The name at index `n` of the bijective base-26 enumeration:
/// 0 is `A`, 25 is `Z`, 26 is `AA`, and so on.
pub open spec fn spec_alpha(n: nat) -> Seq<char>
    decreases n,
{
    if n < 26 {
        seq![((65 + n) as u8) as char]
    } else {
        spec_alpha((n / 26 - 1) as nat).push(((65 + n % 26) as u8) as char)
    }
}

/// Every name of the enumeration has at least one letter.
pub proof fn lemma_alpha_len(n: nat)
    ensures
        spec_alpha(n).len() >= 1,
    decreases n,
{
    if n >= 26 {
        lemma_alpha_len((n / 26 - 1) as nat);
    }
}

/// Distinct indices yield distinct names.
pub proof fn lemma_alpha_injective(a: nat, b: nat)
    ensures
        spec_alpha(a) == spec_alpha(b) ==> a == b,
    decreases a + b,
{
    if spec_alpha(a) == spec_alpha(b) {
        if a < 26 && b < 26 {
            assert(spec_alpha(a)[0] == spec_alpha(b)[0]);
        } else if a < 26 && b >= 26 {
            lemma_alpha_len((b / 26 - 1) as nat);
            assert(spec_alpha(b).len() >= 2);
        } else if a >= 26 && b < 26 {
            lemma_alpha_len((a / 26 - 1) as nat);
            assert(spec_alpha(a).len() >= 2);
        } else {
            let pa = spec_alpha((a / 26 - 1) as nat);
            let pb = spec_alpha((b / 26 - 1) as nat);
            assert(spec_alpha(a).last() == spec_alpha(b).last());
            assert(65 + a % 26 == 65 + b % 26);
            assert(pa =~= spec_alpha(a).drop_last());
            assert(pb =~= spec_alpha(b).drop_last());
            lemma_alpha_injective((a / 26 - 1) as nat, (b / 26 - 1) as nat);
            assert(a / 26 == b / 26);
            lemma_fundamental_div_mod(a as int, 26);
            lemma_fundamental_div_mod(b as int, 26);
        }
    }
}

/// The name at index `n`, as a string.
pub fn get_alpha(n: usize) -> (r: String)
    ensures
        r@ == spec_alpha(n as nat),
{
    let cs = alpha_chars(n);
    text::string_of(&cs)
}

/// The name at index `n`, as a character vector.
pub fn alpha_chars(n: usize) -> (r: Vec<char>)
    ensures
        r@ == spec_alpha(n as nat),
    decreases n,
{
    if n < 26 {
        let mut r: Vec<char> = Vec::new();
        r.push((65 + n as u8) as char);
        assert(r@ =~= spec_alpha(n as nat));
        r
    } else {
        let mut r = alpha_chars(n / 26 - 1);
        r.push((65 + (n % 26) as u8) as char);
        assert(r@ =~= spec_alpha(n as nat));
        r
    }
}

/// Whether a list of names contains the given name.
pub fn texts_contain(list: &Vec<Vec<char>>, t: &Vec<char>) -> (r: bool)
    ensures
        r == list.deep_view().contains(t@),
{
    let mut i: usize = 0;
    while i < list.len()
        invariant
            i <= list.len(),
            forall|j: int| 0 <= j < i ==> list.deep_view()[j] != t@,
        decreases list.len() - i,
    {
        if text_eq_at(list, i, t) {
            assert(list.deep_view()[i as int] == t@);
            return true;
        }
        i = i + 1;
    }
    assert(forall|j: int| 0 <= j < list.deep_view().len() ==> list.deep_view()[j] != t@);
    false
}

/// Compares one element of a list of names with the given name.
fn text_eq_at(list: &Vec<Vec<char>>, i: usize, t: &Vec<char>) -> (r: bool)
    requires
        i < list@.len(),
    ensures
        r == (list.deep_view()[i as int] == t@),
{
    let r = text::text_eq(&list[i], t);
    assert(list.deep_view()[i as int] == list@[i as int]@);
    r
}

/// The result of one fresh-name search: `n` is the first index at or past
/// `lo` whose name collides with none of `taken`.
pub open spec fn fresh_index_for(taken: Seq<Seq<char>>, lo: nat, n: nat) -> bool {
    &&& lo <= n
    &&& !taken.contains(spec_alpha(n))
    &&& forall|m: nat| lo <= m < n ==> taken.contains(spec_alpha(m))
}

/// Searches upward from `counter` for the first enumeration index whose
/// name is not already a parameter name in `taken`, and returns that name
/// together with its index.
pub fn synth_name(taken: &Vec<Vec<char>>, counter: usize) -> (r: (Vec<char>, usize))
    requires
        counter + taken@.len() <= usize::MAX,
    ensures
        fresh_index_for(taken.deep_view(), counter as nat, r.1 as nat),
        r.0@ == spec_alpha(r.1 as nat),
        r.1 <= counter + taken@.len(),
{
    let ghost tdv = taken.deep_view();
    let mut n: usize = counter;
    let mut name = alpha_chars(n);
    let ghost seen: Set<int> = Set::empty();
    let mut seen = Ghost(seen);
    while texts_contain(taken, &name)
        invariant
            counter <= n,
            name@ == spec_alpha(n as nat),
            forall|m: nat| counter <= m < n ==> tdv.contains(spec_alpha(m)),
            seen@.finite(),
            seen@.subset_of(set_int_range(0, taken@.len() as int)),
            forall|j: int|
                seen@.contains(j) ==> exists|m: nat|
                    counter <= m < n && tdv[j] == spec_alpha(m),
            n - counter <= seen@.len(),
        decreases taken@.len() - seen@.len(),
    {
        proof {
            broadcast use vstd::set::axiom_set_insert_len;

            lemma_int_range(0, taken@.len() as int);
            let j = choose|j: int| 0 <= j < tdv.len() && tdv[j] == spec_alpha(n as nat);
            if seen@.contains(j) {
                let m = choose|m: nat| counter <= m < n && tdv[j] == spec_alpha(m);
                lemma_alpha_injective(m, n as nat);
                assert(false);
            }
            seen@ = seen@.insert(j);
            lemma_len_subset(seen@, set_int_range(0, taken@.len() as int));
        }
        n = n + 1;
        name = alpha_chars(n);
    }
    proof {
        lemma_int_range(0, taken@.len() as int);
        lemma_len_subset(seen@, set_int_range(0, taken@.len() as int));
    }
    (name, n)
}

/// One whole invocation's worth of fresh names: the search for each name
/// starts one past the index found for the name before it.
pub open spec fn synth_chain(taken: Seq<Seq<char>>, idxs: Seq<nat>, k: int) -> bool {
    &&& idxs.len() == k
    &&& forall|j: int|
        0 <= j < k ==> fresh_index_for(
            taken,
            if j == 0 {
                0nat
            } else {
                (idxs[j - 1] + 1) as nat
            },
            #[trigger] idxs[j],
        )
}

/// The names at the given enumeration indices.
pub open spec fn names_of_idxs(idxs: Seq<nat>) -> Seq<Seq<char>> {
    idxs.map_values(|n: nat| spec_alpha(n))
}

/// Indices of one synthesis chain climb strictly.
proof fn lemma_chain_increasing(taken: Seq<Seq<char>>, idxs: Seq<nat>, k: int, a: int, b: int)
    requires
        synth_chain(taken, idxs, k),
        0 <= a < b < k,
    ensures
        idxs[a] < idxs[b],
    decreases b - a,
{
    if a + 1 == b {
        assert(fresh_index_for(taken, (idxs[a] + 1) as nat, idxs[b]));
    } else {
        lemma_chain_increasing(taken, idxs, k, a, b - 1);
        assert(fresh_index_for(taken, (idxs[b - 1] + 1) as nat, idxs[b]));
    }
}

/// The synthesizer's law: over one invocation, a synthesized name never
/// collides with a pre-existing parameter name, and never repeats.
pub proof fn lemma_synth_names_fresh(taken: Seq<Seq<char>>, idxs: Seq<nat>, k: int)
    requires
        synth_chain(taken, idxs, k),
    ensures
        forall|j: int| 0 <= j < k ==> !taken.contains(#[trigger] names_of_idxs(idxs)[j]),
        forall|a: int, b: int|
            0 <= a < b < k ==> names_of_idxs(idxs)[a] != names_of_idxs(idxs)[b],
{
    assert forall|j: int| 0 <= j < k implies !taken.contains(#[trigger] names_of_idxs(idxs)[j]) by {
        assert(fresh_index_for(
            taken,
            if j == 0 {
                0nat
            } else {
                (idxs[j - 1] + 1) as nat
            },
            idxs[j],
        ));
    }
    assert forall|a: int, b: int| 0 <= a < b < k implies names_of_idxs(idxs)[a] != names_of_idxs(
        idxs,
    )[b] by {
        lemma_chain_increasing(taken, idxs, k, a, b);
        lemma_alpha_injective(idxs[a], idxs[b]);
    }
}

/// Synthesizes `k` fresh names, one per choice field, threading the index
/// forward so that names never repeat across fields.
pub fn synth_names(taken: &Vec<Vec<char>>, k: usize) -> (r: Vec<Vec<char>>)
    requires
        (k as int) * (taken@.len() as int + 1) < usize::MAX as int,
    ensures
        r@.len() == k,
        exists|idxs: Seq<nat>|
            synth_chain(taken.deep_view(), idxs, k as int) && r.deep_view() == names_of_idxs(idxs),
        forall|a: int, b: int| 0 <= a < b < k ==> r.deep_view()[a] != r.deep_view()[b],
        forall|a: int| 0 <= a < k ==> !taken.deep_view().contains(r.deep_view()[a]),
{
    let ghost tdv = taken.deep_view();
    let ghost ell = taken@.len() as int;
    let mut r: Vec<Vec<char>> = Vec::new();
    let mut counter: usize = 0;
    let ghost gidxs: Seq<nat> = Seq::empty();
    let mut gidxs = Ghost(gidxs);
    let mut j: usize = 0;
    assert(names_of_idxs(gidxs@) =~= Seq::<Seq<char>>::empty());
    while j < k
        invariant
            j <= k,
            r@.len() == j,
            gidxs@.len() == j,
            synth_chain(tdv, gidxs@, j as int),
            r.deep_view() == names_of_idxs(gidxs@),
            counter as int <= (j as int) * (ell + 1),
            j > 0 ==> counter as int == gidxs@[j - 1] + 1,
            j == 0 ==> counter == 0,
        decreases k - j,
    {
        proof {
            assert((j as int) * (ell + 1) + (ell + 1) == ((j as int) + 1) * (ell + 1))
                by (nonlinear_arith);
            assert(((j as int) + 1) * (ell + 1) <= (k as int) * (ell + 1)) by (nonlinear_arith)
                requires
                    (j as int) + 1 <= k as int,
                    ell >= 0,
            ;
        }
        let (name, n) = synth_name(taken, counter);
        let ghost gidxs0 = gidxs@;
        let ghost rdv0 = r.deep_view();
        let ghost nv = name@;
        r.push(name);
        proof {
            gidxs@ = gidxs@.push(n as nat);
            assert(r.deep_view() =~~= rdv0.push(nv));
            assert(names_of_idxs(gidxs@) =~= names_of_idxs(gidxs0).push(spec_alpha(n as nat)));
            assert forall|q: int| 0 <= q < j + 1 implies fresh_index_for(
                tdv,
                if q == 0 {
                    0nat
                } else {
                    (gidxs@[q - 1] + 1) as nat
                },
                #[trigger] gidxs@[q],
            ) by {
                if q < j {
                    assert(gidxs@[q] == gidxs0[q]);
                }
            }
        }
        counter = n + 1;
        j = j + 1;
    }
    proof {
        lemma_synth_names_fresh(tdv, gidxs@, k as int);
    }
    r
}

} // verus!
