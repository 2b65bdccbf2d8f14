//! Validation and deduplication of save file names.
//!
//! A requested name must be a bare file name; it is normalized to end in
//! `.db`.  When a normalized name collides with an existing save, the
//! directory probes `base_copy1.ext`, `base_copy2.ext`, ... and takes the
//! first name that is free.

use crate::digits::{dec_rep, lemma_dec_rep_injective, u64_to_dec_string};
use crate::errors::SaveError;
use crate::text::str_eq;
use vstd::prelude::*;
use vstd::set_lib::lemma_len_subset;

verus! {

/// Whether the name holds a path separator, which a bare file name must not.
pub open spec fn has_separator(s: Seq<char>) -> bool {
    exists|i: int| 0 <= i < s.len() && (s[i] == '/' || s[i] == '\\')
}

/// The `.db` extension that every save file name carries.
pub open spec fn db_suffix() -> Seq<char> {
    seq!['.', 'd', 'b']
}

/// Whether the name already ends in `.db`, in any letter case.
pub open spec fn ends_with_db(s: Seq<char>) -> bool {
    &&& s.len() >= 3
    &&& s[s.len() - 3] == '.'
    &&& (s[s.len() - 2] == 'd' || s[s.len() - 2] == 'D')
    &&& (s[s.len() - 1] == 'b' || s[s.len() - 1] == 'B')
}

/// A name with the `.db` extension appended unless already present.
pub open spec fn normalized_name(s: Seq<char>) -> Seq<char> {
    if ends_with_db(s) {
        s
    } else {
        s + db_suffix()
    }
}

/// Whether the name already ends in `.db`, in any letter case.
pub fn has_db_suffix(s: &str) -> (b: bool)
    ensures
        b == ends_with_db(s@),
{
    let n = s.unicode_len();
    if n >= 3 {
        let c1 = s.get_char(n - 3);
        let c2 = s.get_char(n - 2);
        let c3 = s.get_char(n - 1);
        c1 == '.' && (c2 == 'd' || c2 == 'D') && (c3 == 'b' || c3 == 'B')
    } else {
        false
    }
}

/// Rejects names holding a path separator; otherwise appends `.db`
/// unless the name already ends in it (case-insensitively).
pub fn normalize_save_name(raw: &str) -> (r: Result<String, SaveError>)
    ensures
        r is Ok <==> !has_separator(raw@),
        r is Err ==> (r matches Err(e) && e is InvalidName),
        r matches Ok(name) ==> name@ == normalized_name(raw@),
{
    let n = raw.unicode_len();
    let mut i: usize = 0;
    while i < n
        invariant
            n == raw@.len(),
            i <= n,
            forall|j: int| 0 <= j < i ==> !(raw@[j] == '/' || raw@[j] == '\\'),
        decreases n - i,
    {
        let c = raw.get_char(i);
        if c == '/' || c == '\\' {
            return Err(SaveError::InvalidName);
        }
        i = i + 1;
    }
    if has_db_suffix(raw) {
        Ok(String::from_str(raw))
    } else {
        let mut s = String::from_str(raw);
        s.append(".db");
        proof {
            reveal_strlit(".db");
            assert(".db"@ =~= db_suffix());
        }
        Ok(s)
    }
}

/// The index of the last `.` in the name, or `-1` when there is none.
pub open spec fn last_dot(s: Seq<char>) -> int
    decreases s.len(),
{
    if s.len() == 0 {
        -1
    } else if s[s.len() - 1] == '.' {
        s.len() - 1
    } else {
        last_dot(s.drop_last())
    }
}

/// The part of the name before its last `.`, or the whole name.
pub open spec fn base_of(s: Seq<char>) -> Seq<char> {
    if last_dot(s) >= 0 {
        s.take(last_dot(s))
    } else {
        s
    }
}

/// The part of the name after its last `.`, or empty when there is no `.`.
pub open spec fn ext_of(s: Seq<char>) -> Seq<char> {
    if last_dot(s) >= 0 {
        s.skip(last_dot(s) + 1)
    } else {
        Seq::empty()
    }
}

/// The marker spliced in before the probe number.
pub open spec fn copy_marker() -> Seq<char> {
    seq!['_', 'c', 'o', 'p', 'y']
}

pub open spec fn copy_prefix(s: Seq<char>) -> Seq<char> {
    base_of(s) + copy_marker()
}

pub open spec fn copy_suffix(s: Seq<char>) -> Seq<char> {
    if ext_of(s).len() == 0 {
        Seq::empty()
    } else {
        seq!['.'] + ext_of(s)
    }
}

/// The `i`-th probe name for a colliding `s`: `base_copy<i>.ext`, or
/// `base_copy<i>` when `s` has no extension.
pub open spec fn copy_candidate(s: Seq<char>, i: nat) -> Seq<char> {
    copy_prefix(s) + dec_rep(i) + copy_suffix(s)
}

/// Whether `s` occurs among `names`.
pub open spec fn name_taken(names: Seq<Seq<char>>, s: Seq<char>) -> bool {
    exists|j: int| 0 <= j < names.len() && names[j] == s
}

/// The character sequences of a vector of names.
pub open spec fn names_view(v: Seq<String>) -> Seq<Seq<char>> {
    v.map_values(|s: String| s@)
}

/// What deduplication promises: the result is free; a free candidate is
/// kept unchanged; a colliding candidate becomes the first free probe.
pub open spec fn deduped_ok(names: Seq<Seq<char>>, candidate: Seq<char>, r: Seq<char>) -> bool {
    &&& !name_taken(names, r)
    &&& (!name_taken(names, candidate) ==> r == candidate)
    &&& (name_taken(names, candidate) ==> exists|n: nat|
        {
            &&& 1 <= n
            &&& r == #[trigger] copy_candidate(candidate, n)
            &&& (forall|m: nat| 1 <= m < n ==> name_taken(names, #[trigger] copy_candidate(candidate, m)))
        })
}

/// Deduplication is deterministic given the existing-name set:
/// membership, not order or multiplicity, decides the result, so two
/// directories holding the same names dedupe a candidate identically.
pub proof fn lemma_dedupe_deterministic(
    names1: Seq<Seq<char>>,
    names2: Seq<Seq<char>>,
    c: Seq<char>,
    r1: Seq<char>,
    r2: Seq<char>,
)
    requires
        forall|s: Seq<char>| #[trigger] name_taken(names1, s) == name_taken(names2, s),
        deduped_ok(names1, c, r1),
        deduped_ok(names2, c, r2),
    ensures
        r1 == r2,
{
    if name_taken(names1, c) {
        let n1 = choose|n: nat|
            {
                &&& 1 <= n
                &&& r1 == #[trigger] copy_candidate(c, n)
                &&& (forall|m: nat| 1 <= m < n ==> name_taken(names1, #[trigger] copy_candidate(c, m)))
            };
        let n2 = choose|n: nat|
            {
                &&& 1 <= n
                &&& r2 == #[trigger] copy_candidate(c, n)
                &&& (forall|m: nat| 1 <= m < n ==> name_taken(names2, #[trigger] copy_candidate(c, m)))
            };
        if n1 < n2 {
            assert(name_taken(names2, copy_candidate(c, n1)));
            assert(name_taken(names1, r1));
        }
        if n2 < n1 {
            assert(name_taken(names1, copy_candidate(c, n2)));
            assert(name_taken(names2, r2));
        }
        assert(n1 == n2);
    }
}

/// Whether `s` occurs among `names`, character for character.
pub fn contains_name(names: &Vec<String>, s: &str) -> (b: bool)
    ensures
        b == name_taken(names_view(names@), s@),
{
    let mut j: usize = 0;
    while j < names.len()
        invariant
            j <= names@.len(),
            forall|k: int| 0 <= k < j ==> names@[k]@ != s@,
        decreases names@.len() - j,
    {
        if str_eq(names[j].as_str(), s) {
            proof {
                assert(names_view(names@)[j as int] == s@);
            }
            return true;
        }
        j = j + 1;
    }
    proof {
        assert forall|k: int| 0 <= k < names_view(names@).len() implies names_view(names@)[k]
            != s@ by {
            assert(names_view(names@)[k] == names@[k]@);
        }
    }
    false
}

/// Builds the `i`-th probe name for `candidate`.
fn build_copy_candidate(candidate: &str, i: u64) -> (r: String)
    ensures
        r@ == copy_candidate(candidate@, i as nat),
{
    proof {
        reveal_strlit("_copy");
        reveal_strlit(".");
        assert("_copy"@ =~= copy_marker());
    }
    let n = candidate.unicode_len();
    // Find the index after the last '.', scanning from the end.
    let mut k: usize = n;
    let mut dot: Option<usize> = None;
    proof {
        assert(candidate@.take(n as int) =~= candidate@);
    }
    while k > 0
        invariant_except_break
            dot is None,
            last_dot(candidate@) == last_dot(candidate@.take(k as int)),
        invariant
            n == candidate@.len(),
            k <= n,
        ensures
            match dot {
                Some(d) => d < n && last_dot(candidate@) == d,
                None => k == 0 && last_dot(candidate@) == last_dot(candidate@.take(k as int)),
            },
        decreases k,
    {
        let c = candidate.get_char(k - 1);
        if c == '.' {
            dot = Some(k - 1);
            proof {
                let t = candidate@.take(k as int);
                assert(t.len() == k);
                assert(t[k - 1] == candidate@[k - 1]);
                assert(last_dot(t) == k - 1);
            }
            break;
        } else {
            proof {
                let t = candidate@.take(k as int);
                assert(t.len() == k);
                assert(t[k - 1] == candidate@[k - 1]);
                assert(t.drop_last() =~= candidate@.take(k - 1));
                assert(last_dot(t) == last_dot(candidate@.take(k - 1)));
            }
            k = k - 1;
        }
    }
    proof {
        if dot is None {
            assert(candidate@.take(0) =~= Seq::<char>::empty());
            assert(last_dot(candidate@) == -1);
        }
    }
    let num = u64_to_dec_string(i);
    let r = match dot {
        Some(d) => {
            let base = candidate.substring_char(0, d);
            let ext = candidate.substring_char(d + 1, n);
            proof {
                assert(base@ =~= base_of(candidate@));
                assert(ext@ =~= ext_of(candidate@));
            }
            let mut out = String::from_str(base);
            out.append("_copy");
            out.append(num.as_str());
            if ext.unicode_len() > 0 {
                out.append(".");
                out.append(ext);
                proof {
                    assert(seq!['.'] =~= "."@);
                    assert(out@ =~= copy_candidate(candidate@, i as nat));
                }
            } else {
                proof {
                    assert(copy_suffix(candidate@) =~= Seq::<char>::empty());
                    assert(out@ =~= copy_candidate(candidate@, i as nat));
                }
            }
            out
        },
        None => {
            let mut out = String::from_str(candidate);
            out.append("_copy");
            out.append(num.as_str());
            proof {
                assert(base_of(candidate@) == candidate@);
                assert(ext_of(candidate@).len() == 0);
                assert(copy_suffix(candidate@) =~= Seq::<char>::empty());
                assert(out@ =~= copy_candidate(candidate@, i as nat));
            }
            out
        },
    };
    r
}

/// Splicing different numerals between a fixed prefix and suffix gives
/// different names.
proof fn lemma_concat_middle_injective(p: Seq<char>, x: Seq<char>, y: Seq<char>, s: Seq<char>)
    requires
        p + x + s == p + y + s,
    ensures
        x == y,
{
    assert((p + x).len() == p.len() + x.len());
    assert((p + y).len() == p.len() + y.len());
    assert(((p + x) + s).len() == (p + x).len() + s.len());
    assert(((p + y) + s).len() == (p + y).len() + s.len());
    assert(x.len() == y.len());
    assert forall|i: int| 0 <= i < x.len() implies x[i] == y[i] by {
        assert((p + x + s)[p.len() + i] == x[i]);
        assert((p + y + s)[p.len() + i] == y[i]);
    }
    assert(x =~= y);
}

/// Distinct probe numbers give distinct probe names.
pub proof fn lemma_copy_candidate_injective(c: Seq<char>, i: nat, j: nat)
    requires
        copy_candidate(c, i) == copy_candidate(c, j),
    ensures
        i == j,
{
    lemma_concat_middle_injective(copy_prefix(c), dec_rep(i), dec_rep(j), copy_suffix(c));
    lemma_dec_rep_injective(i, j);
}

/// The probe names numbered `1..=k` for a candidate `c`.
spec fn candidate_set(c: Seq<char>, k: nat) -> Set<Seq<char>> {
    Set::new(|s: Seq<char>| exists|m: nat| 1 <= m <= k && s == copy_candidate(c, m))
}

proof fn lemma_candidate_set_card(c: Seq<char>, k: nat)
    ensures
        candidate_set(c, k).finite(),
        candidate_set(c, k).len() == k,
    decreases k,
{
    broadcast use vstd::set::group_set_axioms;

    if k == 0 {
        assert(candidate_set(c, 0) =~= Set::<Seq<char>>::empty());
    } else {
        let prev = candidate_set(c, (k - 1) as nat);
        let last = copy_candidate(c, k);
        lemma_candidate_set_card(c, (k - 1) as nat);
        assert(!prev.contains(last)) by {
            if prev.contains(last) {
                let m = choose|m: nat| 1 <= m <= k - 1 && last == copy_candidate(c, m);
                lemma_copy_candidate_injective(c, m, k);
            }
        }
        assert(candidate_set(c, k) =~= prev.insert(last));
    }
}

/// Pigeonhole: when every probe numbered `1..=k` collides with one of
/// the `names`, there are at least `k` names.
pub proof fn lemma_probe_bound(names: Seq<Seq<char>>, c: Seq<char>, k: nat)
    requires
        forall|m: nat| 1 <= m <= k ==> name_taken(names, #[trigger] copy_candidate(c, m)),
    ensures
        k <= names.len(),
{
    broadcast use vstd::seq_lib::seq_to_set_is_finite;

    lemma_candidate_set_card(c, k);
    let nset = names.to_set();
    assert forall|s: Seq<char>| candidate_set(c, k).contains(s) implies nset.contains(s) by {
        let m = choose|m: nat| 1 <= m <= k && s == copy_candidate(c, m);
        assert(name_taken(names, copy_candidate(c, m)));
        let j = choose|j: int| 0 <= j < names.len() && names[j] == s;
        assert(names.contains(s));
    }
    assert(candidate_set(c, k).subset_of(nset));
    names.lemma_cardinality_of_set();
    lemma_len_subset(candidate_set(c, k), nset);
}

/// Returns `candidate` when it is not among `existing`; otherwise probes
/// `base_copy1.ext`, `base_copy2.ext`, ... and returns the first probe
/// that is absent.  Membership alone decides the result, so it is
/// deterministic for a given set of existing names.
pub fn dedupe_name(existing: &Vec<String>, candidate: &str) -> (r: String)
    requires
        existing@.len() + 2 <= usize::MAX,
    ensures
        deduped_ok(names_view(existing@), candidate@, r@),
{
    if !contains_name(existing, candidate) {
        return String::from_str(candidate);
    }
    let ghost names = names_view(existing@);
    let mut i: u64 = 1;
    loop
        invariant
            existing@.len() + 2 <= usize::MAX,
            names == names_view(existing@),
            name_taken(names, candidate@),
            1 <= i <= existing@.len() + 1,
            forall|m: nat| 1 <= m < i ==> name_taken(names, #[trigger] copy_candidate(candidate@, m)),
        decreases existing@.len() + 2 - i,
    {
        let probe = build_copy_candidate(candidate, i);
        if !contains_name(existing, probe.as_str()) {
            proof {
                let n = i as nat;
                assert(probe@ == copy_candidate(candidate@, n));
            }
            return probe;
        }
        proof {
            assert forall|m: nat| 1 <= m <= i as nat implies name_taken(
                names,
                #[trigger] copy_candidate(candidate@, m),
            ) by {
                if m == i as nat {
                    assert(name_taken(names, probe@));
                }
            }
            lemma_probe_bound(names, candidate@, i as nat);
        }
        i = i + 1;
    }
}

} // verus!
