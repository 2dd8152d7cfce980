//! Which elements a query over several elements asks about: an element is
//! asked about only when its noun can hold one of the wanted nouns.

use vstd::prelude::*;
use crate::refno::RefU64;

verus! {

/// Whether an element of noun `noun` can hold one of `nouns`: the noun is
/// one of them, or the noun graph has a path from one of them to it
/// (`paths[j]` is the noun graph's answer for `nouns[j]`).
pub open spec fn reaches_any(noun: Seq<char>, nouns: Seq<&str>, paths: Seq<bool>) -> bool {
    exists|j: int| 0 <= j < nouns.len() && #[trigger] reaches_at(noun, nouns, paths, j)
}

/// Whether `noun` is `nouns[j]` or the noun graph has a path from `nouns[j]`
/// to it.
pub open spec fn reaches_at(noun: Seq<char>, nouns: Seq<&str>, paths: Seq<bool>, j: int) -> bool {
    nouns[j]@ == noun || (j < paths.len() && paths[j])
}

/// Whether an element is asked about: every element when `every_without_nouns`
/// and no noun is wanted; otherwise an element whose noun is known and can
/// hold a wanted noun.
pub open spec fn is_queried(
    noun: Option<String>,
    nouns: Seq<&str>,
    paths: Seq<bool>,
    every_without_nouns: bool,
) -> bool {
    if every_without_nouns && nouns.len() == 0 {
        true
    } else {
        match noun {
            Some(n) => reaches_any(n@, nouns, paths),
            None => false,
        }
    }
}

/// The refnos of the first `k` elements that are asked about, in order.
pub open spec fn queried_refnos(
    refnos: Seq<RefU64>,
    refno_nouns: Seq<Option<String>>,
    nouns: Seq<&str>,
    paths: Seq<Vec<bool>>,
    every_without_nouns: bool,
    k: int,
) -> Seq<RefU64>
    decreases k,
{
    if k <= 0 {
        Seq::empty()
    } else {
        let before = queried_refnos(refnos, refno_nouns, nouns, paths, every_without_nouns, k - 1);
        if is_queried(refno_nouns[k - 1], nouns, paths[k - 1]@, every_without_nouns) {
            before.push(refnos[k - 1])
        } else {
            before
        }
    }
}

/// The number of elements described by all three lists.
pub open spec fn described(refnos: Seq<RefU64>, refno_nouns: Seq<Option<String>>, paths: Seq<Vec<bool>>) -> int {
    let a = if refnos.len() <= refno_nouns.len() { refnos.len() } else { refno_nouns.len() };
    if a <= paths.len() { a as int } else { paths.len() as int }
}

/// Whether `noun` can hold one of `nouns`.
fn reaches(noun: &String, nouns: &[&str], paths: &Vec<bool>) -> (r: bool)
    ensures
        r == reaches_any(noun@, nouns@, paths@),
{
    let n = nouns.len();
    let mut j: usize = 0;
    while j < n
        invariant
            n == nouns@.len(),
            j <= n,
            forall|i: int| 0 <= i < j ==> !#[trigger] reaches_at(noun@, nouns@, paths@, i),
        decreases n - j,
    {
        let wanted = String::from_str(nouns[j]);
        let same: bool = wanted == *noun;
        let path: bool = j < paths.len() && paths[j];
        if same || path {
            assert(reaches_at(noun@, nouns@, paths@, j as int));
            return true;
        }
        assert(!reaches_at(noun@, nouns@, paths@, j as int));
        j = j + 1;
    }
    proof {
        if reaches_any(noun@, nouns@, paths@) {
            let i = choose|i: int| 0 <= i < nouns@.len() && #[trigger] reaches_at(noun@, nouns@, paths@, i);
            assert(!reaches_at(noun@, nouns@, paths@, i));
        }
    }
    false
}

/// The refnos to ask about, in order, of the elements described by
/// `refnos`, their nouns (`None` where the noun is not known) and the noun
/// graph's answers (`paths[i][j]`: whether there is a path from `nouns[j]`
/// to the noun of element `i`). With `every_without_nouns`, an empty noun list
/// asks about every element.
pub fn refnos_to_query(
    refnos: &[RefU64],
    refno_nouns: &[Option<String>],
    nouns: &[&str],
    paths: &[Vec<bool>],
    every_without_nouns: bool,
) -> (r: Vec<RefU64>)
    ensures
        r@ == queried_refnos(
            refnos@,
            refno_nouns@,
            nouns@,
            paths@,
            every_without_nouns,
            described(refnos@, refno_nouns@, paths@),
        ),
{
    let mut count = refnos.len();
    if refno_nouns.len() < count {
        count = refno_nouns.len();
    }
    if paths.len() < count {
        count = paths.len();
    }
    let mut out: Vec<RefU64> = Vec::new();
    let mut i: usize = 0;
    while i < count
        invariant
            count == described(refnos@, refno_nouns@, paths@),
            count <= refnos@.len() && count <= refno_nouns@.len() && count <= paths@.len(),
            i <= count,
            out@ == queried_refnos(refnos@, refno_nouns@, nouns@, paths@, every_without_nouns, i as int),
        decreases count - i,
    {
        let asked = if every_without_nouns && nouns.len() == 0 {
            true
        } else {
            match &refno_nouns[i] {
                Some(noun) => reaches(noun, nouns, &paths[i]),
                None => false,
            }
        };
        if asked {
            out.push(refnos[i]);
        }
        i = i + 1;
    }
    out
}

} // verus!
