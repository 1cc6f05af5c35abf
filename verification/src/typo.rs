//! Edit distance between package names and the typosquatting similarity test.
use vstd::prelude::*;
use crate::text::to_chars;

verus! {

/// Edit distance in the optimal string alignment form of Levenshtein's: the fewest
/// single-character insertions, deletions, substitutions and swaps of two neighbouring
/// characters that turn `a` into `b` (no part edited twice), so `axois` is one edit from
/// `axios`.
pub open spec fn lev(a: Seq<char>, b: Seq<char>) -> nat
    decreases a.len() + b.len(),
{
    if a.len() == 0 {
        b.len()
    } else if b.len() == 0 {
        a.len()
    } else {
        let cost: nat = if a.last() == b.last() { 0 } else { 1 };
        let base = min3(
            lev(a.drop_last(), b.drop_last()) + cost,
            lev(a.drop_last(), b) + 1,
            lev(a, b.drop_last()) + 1,
        );
        if swapped_ends(a, b) {
            min2(base, lev(a.drop_last().drop_last(), b.drop_last().drop_last()) + 1)
        } else {
            base
        }
    }
}

/// The last two characters of `a` are those of `b` in the other order.
pub open spec fn swapped_ends(a: Seq<char>, b: Seq<char>) -> bool {
    a.len() >= 2 && b.len() >= 2 && a.last() == b[b.len() - 2] && a[a.len() - 2] == b.last()
}

pub open spec fn min2(x: nat, y: nat) -> nat {
    if x <= y { x } else { y }
}

pub open spec fn min3(x: nat, y: nat, z: nat) -> nat {
    if x <= y && x <= z {
        x
    } else if y <= z {
        y
    } else {
        z
    }
}

pub open spec fn max_nat(x: nat, y: nat) -> nat {
    if x >= y { x } else { y }
}

/// The distance never exceeds the longer length.
pub proof fn lemma_lev_le_max(a: Seq<char>, b: Seq<char>)
    ensures
        lev(a, b) <= max_nat(a.len(), b.len()),
    decreases a.len() + b.len(),
{
    if a.len() > 0 && b.len() > 0 {
        lemma_lev_le_max(a.drop_last(), b.drop_last());
    }
}

/// The distance is symmetric.
pub proof fn lemma_lev_symmetric(a: Seq<char>, b: Seq<char>)
    ensures
        lev(a, b) == lev(b, a),
    decreases a.len() + b.len(),
{
    if a.len() > 0 && b.len() > 0 {
        lemma_lev_symmetric(a.drop_last(), b.drop_last());
        lemma_lev_symmetric(a.drop_last(), b);
        lemma_lev_symmetric(a, b.drop_last());
        if swapped_ends(a, b) {
            lemma_lev_symmetric(a.drop_last().drop_last(), b.drop_last().drop_last());
        }
    }
}

/// A name is at distance 0 from itself.
pub proof fn lemma_lev_self(a: Seq<char>)
    ensures
        lev(a, a) == 0,
    decreases a.len(),
{
    if a.len() > 0 {
        lemma_lev_self(a.drop_last());
    }
}

proof fn lemma_take_drop_last(s: Seq<char>, i: int)
    requires
        1 <= i <= s.len(),
    ensures
        s.take(i).drop_last() == s.take(i - 1),
        s.take(i).last() == s[i - 1],
        s.take(i).len() == i,
        i >= 2 ==> s.take(i).drop_last().drop_last() == s.take(i - 2),
        i >= 2 ==> s.take(i)[i - 2] == s[i - 2],
{
    assert(s.take(i).drop_last() =~= s.take(i - 1));
    if i >= 2 {
        assert(s.take(i).drop_last().drop_last() =~= s.take(i - 2));
    }
}

/// Edit distance between two strings, counted in characters (see `lev`).
pub fn levenshtein_distance(a: &str, b: &str) -> (d: usize)
    ensures
        d == lev(a@, b@),
{
    let a_chars = to_chars(a);
    let b_chars = to_chars(b);
    let len_a = a_chars.len();
    let len_b = b_chars.len();
    let ghost sa = a_chars@;
    let ghost sb = b_chars@;

    if len_a == 0 {
        return len_b;
    }
    if len_b == 0 {
        return len_a;
    }

    let mut prev: Vec<usize> = Vec::new();
    let mut j: usize = 0;
    while j < len_b
        invariant
            j <= len_b,
            len_b == sb.len(),
            prev@.len() == j,
            forall|k: int| 0 <= k < j ==> prev@[k] == k,
        decreases len_b - j,
    {
        prev.push(j);
        j += 1;
    }
    prev.push(len_b);
    assert forall|k: int| 0 <= k <= len_b implies prev@[k] == lev(sa.take(0), sb.take(k)) by {
        assert(sa.take(0).len() == 0);
    }
    let mut prev2: Vec<usize> = Vec::new();

    let mut i0: usize = 0;
    while i0 < len_a
        invariant
            0 <= i0 <= len_a,
            len_a == sa.len(),
            len_b == sb.len(),
            len_b >= 1,
            sa == a_chars@,
            sb == b_chars@,
            prev@.len() == len_b + 1,
            forall|k: int| 0 <= k <= len_b ==> prev@[k] == lev(sa.take(i0 as int), sb.take(k)),
            i0 >= 1 ==> prev2@.len() == len_b + 1,
            i0 >= 1 ==> forall|k: int| 0 <= k <= len_b ==> prev2@[k] == lev(sa.take(i0 - 1), sb.take(k)),
        decreases len_a - i0,
    {
        let i = i0 + 1;
        let ghost cur_a = sa.take(i as int);
        proof {
            lemma_take_drop_last(sa, i as int);
        }
        let mut cur: Vec<usize> = Vec::new();
        cur.push(i);
        assert(sb.take(0).len() == 0);
        let mut j0: usize = 0;
        while j0 < len_b
            invariant
                1 <= i <= len_a,
                i == i0 + 1,
                0 <= j0 <= len_b,
                len_a == sa.len(),
                len_b == sb.len(),
                sa == a_chars@,
                sb == b_chars@,
                cur_a == sa.take(i as int),
                cur_a.drop_last() == sa.take(i - 1),
                cur_a.last() == sa[i - 1],
                cur_a.len() == i,
                i >= 2 ==> cur_a.drop_last().drop_last() == sa.take(i - 2),
                i >= 2 ==> cur_a[i - 2] == sa[i - 2],
                prev@.len() == len_b + 1,
                forall|k: int| 0 <= k <= len_b ==> prev@[k] == lev(sa.take(i0 as int), sb.take(k)),
                i0 >= 1 ==> prev2@.len() == len_b + 1,
                i0 >= 1 ==> forall|k: int| 0 <= k <= len_b ==> prev2@[k] == lev(sa.take(i0 - 1), sb.take(k)),
                cur@.len() == j0 + 1,
                forall|k: int| 0 <= k <= j0 ==> cur@[k] == lev(cur_a, sb.take(k)),
            decreases len_b - j0,
        {
            let j = j0 + 1;
            let ghost cur_b = sb.take(j as int);
            proof {
                lemma_take_drop_last(sb, j as int);
                lemma_lev_le_max(sa.take(i0 as int), sb.take(j - 1));
                if i >= 2 && j >= 2 {
                    lemma_lev_le_max(sa.take(i - 2), sb.take(j - 2));
                }
            }
            let cost: usize = if a_chars[i - 1] == b_chars[j - 1] { 0 } else { 1 };
            let diag = prev[j - 1] + cost;
            let up = prev[j];
            let left = cur[j - 1];
            let m = if up < left { up } else { left };
            let mut v = if m < diag { m + 1 } else { diag };
            if i >= 2 && j >= 2 && a_chars[i - 1] == b_chars[j - 2] && a_chars[i - 2] == b_chars[j - 1] {
                let t = prev2[j - 2] + 1;
                if t < v {
                    v = t;
                }
            }
            assert(swapped_ends(cur_a, cur_b) <==> (i >= 2 && j >= 2 && sa[i - 1] == sb[j - 2] && sa[i - 2] == sb[j - 1]));
            cur.push(v);
            assert(cur@[j as int] == lev(cur_a, cur_b));
            j0 += 1;
        }
        prev2 = prev;
        prev = cur;
        i0 += 1;
    }
    assert(sa.take(len_a as int) =~= sa);
    assert(sb.take(len_b as int) =~= sb);
    prev[len_b]
}

/// `s` begins with `p`.
pub open spec fn starts_with(s: Seq<char>, p: Seq<char>) -> bool {
    p.len() <= s.len() && s.take(p.len() as int) == p
}

/// A variant name: one name is the other followed by `-`, `_` or `.` and more.
pub open spec fn is_separated_variant(a: Seq<char>, b: Seq<char>) -> bool {
    (starts_with(a, b) || starts_with(b, a)) && {
        let (longer, shorter) = if a.len() > b.len() { (a, b) } else { (b, a) };
        let suffix = longer.skip(shorter.len() as int);
        suffix.len() > 0 && (suffix[0] == '-' || suffix[0] == '_' || suffix[0] == '.')
    }
}

/// The typosquatting rule: names of more than 3 characters whose lengths differ by at most 2,
/// that are not separated variants of each other, and whose edit distance is 1, or at most 2
/// when the longer has more than 10 characters.
pub open spec fn suspiciously_similar(a: Seq<char>, b: Seq<char>) -> bool {
    let min_len = if a.len() <= b.len() { a.len() } else { b.len() };
    let max_len = max_nat(a.len(), b.len());
    let d = lev(a, b);
    &&& min_len > 3
    &&& max_len - min_len <= 2
    &&& !is_separated_variant(a, b)
    &&& d != 0
    &&& if max_len <= 10 { d == 1 } else { d <= 2 }
}

/// Executable `starts_with`.
fn starts_with_exec(s: &Vec<char>, p: &Vec<char>) -> (r: bool)
    ensures
        r == starts_with(s@, p@),
{
    if p.len() > s.len() {
        return false;
    }
    let mut i: usize = 0;
    while i < p.len()
        invariant
            i <= p@.len() <= s@.len(),
            forall|k: int| 0 <= k < i ==> s@[k] == p@[k],
        decreases p@.len() - i,
    {
        if s[i] != p[i] {
            assert(s@.take(p@.len() as int)[i as int] != p@[i as int]);
            return false;
        }
        i += 1;
    }
    assert(s@.take(p@.len() as int) =~= p@);
    true
}

/// Whether `a` looks like a typo of `b` (see `suspiciously_similar`).
pub fn is_suspiciously_similar(a: &str, b: &str) -> (r: bool)
    ensures
        r == suspiciously_similar(a@, b@),
{
    let ac = to_chars(a);
    let bc = to_chars(b);
    let len_a = ac.len();
    let len_b = bc.len();
    let min_len = if len_a <= len_b { len_a } else { len_b };
    let max_len = if len_a >= len_b { len_a } else { len_b };

    if min_len <= 3 {
        return false;
    }
    if max_len - min_len > 2 {
        return false;
    }

    if starts_with_exec(&ac, &bc) || starts_with_exec(&bc, &ac) {
        let (longer, shorter) = if len_a > len_b { (&ac, &bc) } else { (&bc, &ac) };
        let sl = shorter.len();
        if sl < longer.len() {
            let c = longer[sl];
            assert(longer@.skip(sl as int)[0] == c);
            if c == '-' || c == '_' || c == '.' {
                return false;
            }
        }
    }

    let dist = levenshtein_distance(a, b);
    if dist == 0 {
        return false;
    }

    if max_len <= 5 {
        dist == 1
    } else if max_len <= 10 {
        dist <= 1
    } else {
        dist <= 2
    }
}

/// Similarity does not depend on which name comes first.
pub proof fn lemma_similar_symmetric(a: Seq<char>, b: Seq<char>)
    ensures
        suspiciously_similar(a, b) == suspiciously_similar(b, a),
{
    lemma_lev_symmetric(a, b);
    if a.len() == b.len() && (starts_with(a, b) || starts_with(b, a)) {
        assert(a =~= b);
    }
}

/// No name is a typo of itself.
pub proof fn lemma_not_similar_to_self(a: Seq<char>)
    ensures
        !suspiciously_similar(a, a),
{
    lemma_lev_self(a);
}

} // verus!
