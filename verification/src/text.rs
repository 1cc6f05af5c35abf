//! Character-sequence helpers shared by the parsers of the library.
use vstd::prelude::*;

verus! {

/// The characters of `s`, in order.
pub fn to_chars(s: &str) -> (r: Vec<char>)
    ensures
        r@ == s@,
{
    let mut r: Vec<char> = Vec::new();
    for c in it: s.chars()
        invariant
            r@ == it.seq().take(it.index() as int),
    {
        r.push(c);
    }
    r
}

/// Appends one character to a string (`String::push`).
#[verifier::external_body]
pub(crate) fn push_char(s: &mut String, c: char)
    ensures
        final(s)@ == old(s)@.push(c),
{
    s.push(c);
}

/// The string whose characters are `v[lo..hi]`.
pub fn string_of(v: &Vec<char>, lo: usize, hi: usize) -> (r: String)
    requires
        lo <= hi <= v@.len(),
    ensures
        r@ == v@.subrange(lo as int, hi as int),
{
    let mut r = String::new();
    let mut i = lo;
    while i < hi
        invariant
            lo <= i <= hi <= v@.len(),
            r@ == v@.subrange(lo as int, i as int),
        decreases hi - i,
    {
        push_char(&mut r, v[i]);
        i += 1;
        assert(r@ =~= v@.subrange(lo as int, i as int));
    }
    r
}

/// The string whose characters are `v`.
pub fn string_of_all(v: &Vec<char>) -> (r: String)
    ensures
        r@ == v@,
{
    let r = string_of(v, 0, v.len());
    assert(v@.subrange(0, v@.len() as int) =~= v@);
    r
}

/// Index of the first `c` in `s` at or after `from`.
pub open spec fn first_from(s: Seq<char>, from: int, c: char) -> Option<int>
    decreases s.len() - from,
{
    if from < 0 || from >= s.len() {
        None
    } else if s[from] == c {
        Some(from)
    } else {
        first_from(s, from + 1, c)
    }
}

/// What `first_from` gives back: the position of a `c`, with no `c` between `from` and it.
pub proof fn lemma_first_from(s: Seq<char>, from: int, c: char)
    requires
        0 <= from,
    ensures
        match first_from(s, from, c) {
            Some(i) => from <= i < s.len() && s[i] == c && forall|j: int| from <= j < i ==> s[j] != c,
            None => forall|j: int| from <= j < s.len() ==> s[j] != c,
        },
    decreases s.len() - from,
{
    if from < s.len() && s[from] != c {
        lemma_first_from(s, from + 1, c);
    }
}

/// Executable `first_from`.
pub fn find_char(s: &Vec<char>, from: usize, c: char) -> (r: Option<usize>)
    ensures
        match r {
            Some(i) => first_from(s@, from as int, c) == Some(i as int),
            None => first_from(s@, from as int, c) is None,
        },
{
    let mut i = from;
    while i < s.len()
        invariant
            from <= i,
            first_from(s@, from as int, c) == first_from(s@, i as int, c),
        decreases s.len() - i,
    {
        if s[i] == c {
            return Some(i);
        }
        i += 1;
    }
    None
}

} // verus!

verus! {

/// `char::is_whitespace`: the Unicode White_Space characters.
pub open spec fn is_ws(c: char) -> bool {
    ('\u{9}' <= c && c <= '\u{d}') || c == ' ' || c == '\u{85}' || c == '\u{a0}'
        || c == '\u{1680}' || ('\u{2000}' <= c && c <= '\u{200a}') || c == '\u{2028}'
        || c == '\u{2029}' || c == '\u{202f}' || c == '\u{205f}' || c == '\u{3000}'
}

pub fn is_ws_exec(c: char) -> (r: bool)
    ensures
        r == is_ws(c),
{
    ('\u{9}' <= c && c <= '\u{d}') || c == ' ' || c == '\u{85}' || c == '\u{a0}'
        || c == '\u{1680}' || ('\u{2000}' <= c && c <= '\u{200a}') || c == '\u{2028}'
        || c == '\u{2029}' || c == '\u{202f}' || c == '\u{205f}' || c == '\u{3000}'
}

/// `s` without its leading whitespace.
pub open spec fn trim_start(s: Seq<char>) -> Seq<char>
    decreases s.len(),
{
    if s.len() > 0 && is_ws(s[0]) {
        trim_start(s.drop_first())
    } else {
        s
    }
}

/// `s` without its trailing whitespace.
pub open spec fn trim_end(s: Seq<char>) -> Seq<char>
    decreases s.len(),
{
    if s.len() > 0 && is_ws(s.last()) {
        trim_end(s.drop_last())
    } else {
        s
    }
}

/// `str::trim`.
pub open spec fn trim(s: Seq<char>) -> Seq<char> {
    trim_end(trim_start(s))
}

/// `str::trim_start_matches(c)`: every leading `c` removed.
pub open spec fn strip_leading(s: Seq<char>, c: char) -> Seq<char>
    decreases s.len(),
{
    if s.len() > 0 && s[0] == c {
        strip_leading(s.drop_first(), c)
    } else {
        s
    }
}

/// `str::trim_end_matches(c)`: every trailing `c` removed.
pub open spec fn strip_trailing(s: Seq<char>, c: char) -> Seq<char>
    decreases s.len(),
{
    if s.len() > 0 && s.last() == c {
        strip_trailing(s.drop_last(), c)
    } else {
        s
    }
}

/// Index of the first char of `s` from `from` on that satisfies `is_ws`.
pub open spec fn first_ws_from(s: Seq<char>, from: int) -> Option<int>
    decreases s.len() - from,
{
    if from < 0 || from >= s.len() {
        None
    } else if is_ws(s[from]) {
        Some(from)
    } else {
        first_ws_from(s, from + 1)
    }
}

/// Shared loop of the two suffix/prefix trimmers: the index of the first kept char.
fn skip_leading(v: &Vec<char>, ws: bool, c: char) -> (r: usize)
    ensures
        r <= v@.len(),
        ws ==> v@.skip(r as int) == trim_start(v@),
        !ws ==> v@.skip(r as int) == strip_leading(v@, c),
{
    let mut i: usize = 0;
    assert(v@.skip(0) =~= v@);
    while i < v.len()
        invariant
            i <= v@.len(),
            ws ==> trim_start(v@) == trim_start(v@.skip(i as int)),
            !ws ==> strip_leading(v@, c) == strip_leading(v@.skip(i as int), c),
        decreases v@.len() - i,
    {
        let hit = if ws { is_ws_exec(v[i]) } else { v[i] == c };
        if !hit {
            return i;
        }
        assert(v@.skip(i as int).drop_first() =~= v@.skip(i + 1));
        i += 1;
    }
    assert(v@.skip(i as int).len() == 0);
    i
}

fn keep_trailing(v: &Vec<char>, ws: bool, c: char) -> (r: usize)
    ensures
        r <= v@.len(),
        ws ==> v@.take(r as int) == trim_end(v@),
        !ws ==> v@.take(r as int) == strip_trailing(v@, c),
{
    let mut i: usize = v.len();
    assert(v@.take(i as int) =~= v@);
    while i > 0
        invariant
            i <= v@.len(),
            ws ==> trim_end(v@) == trim_end(v@.take(i as int)),
            !ws ==> strip_trailing(v@, c) == strip_trailing(v@.take(i as int), c),
        decreases i,
    {
        let hit = if ws { is_ws_exec(v[i - 1]) } else { v[i - 1] == c };
        if !hit {
            return i;
        }
        assert(v@.take(i as int).drop_last() =~= v@.take(i - 1));
        i -= 1;
    }
    i
}

/// The chars `v[lo..hi]` as a new vector.
pub fn slice_vec(v: &Vec<char>, lo: usize, hi: usize) -> (r: Vec<char>)
    requires
        lo <= hi <= v@.len(),
    ensures
        r@ == v@.subrange(lo as int, hi as int),
{
    let mut r: Vec<char> = Vec::new();
    let mut i = lo;
    while i < hi
        invariant
            lo <= i <= hi <= v@.len(),
            r@ == v@.subrange(lo as int, i as int),
        decreases hi - i,
    {
        r.push(v[i]);
        i += 1;
        assert(r@ =~= v@.subrange(lo as int, i as int));
    }
    r
}

/// Executable `trim`.
pub fn trim_vec(v: &Vec<char>) -> (r: Vec<char>)
    ensures
        r@ == trim(v@),
{
    let lo = skip_leading(v, true, ' ');
    let t = slice_vec(v, lo, v.len());
    assert(t@ =~= v@.skip(lo as int));
    let hi = keep_trailing(&t, true, ' ');
    let r = slice_vec(&t, 0, hi);
    assert(r@ =~= t@.take(hi as int));
    r
}

/// Executable `strip_leading`.
pub fn strip_leading_vec(v: &Vec<char>, c: char) -> (r: Vec<char>)
    ensures
        r@ == strip_leading(v@, c),
{
    let lo = skip_leading(v, false, c);
    let r = slice_vec(v, lo, v.len());
    assert(r@ =~= v@.skip(lo as int));
    r
}

/// Executable `strip_trailing`.
pub fn strip_trailing_vec(v: &Vec<char>, c: char) -> (r: Vec<char>)
    ensures
        r@ == strip_trailing(v@, c),
{
    let hi = keep_trailing(v, false, c);
    let r = slice_vec(v, 0, hi);
    assert(r@ =~= v@.take(hi as int));
    r
}

/// Appends the chars of `w` to `v`.
pub fn extend(v: &mut Vec<char>, w: &Vec<char>)
    ensures
        final(v)@ == old(v)@ + w@,
{
    let mut i: usize = 0;
    let ghost start = v@;
    while i < w.len()
        invariant
            i <= w@.len(),
            v@ == start + w@.take(i as int),
        decreases w@.len() - i,
    {
        v.push(w[i]);
        i += 1;
        assert(v@ =~= start + w@.take(i as int));
    }
    assert(w@.take(w@.len() as int) =~= w@);
}

/// Appends the chars of `s` to `v`.
pub fn extend_str(v: &mut Vec<char>, s: &str)
    ensures
        final(v)@ == old(v)@ + s@,
{
    let w = to_chars(s);
    extend(v, &w);
}

/// `s.split(c)`: the pieces between the occurrences of `c` (n occurrences give n + 1 pieces).
pub open spec fn split_on(s: Seq<char>, c: char) -> Seq<Seq<char>>
    decreases s.len(),
{
    match first_from(s, 0, c) {
        Some(i) => {
            if 0 <= i < s.len() {
                seq![s.take(i)] + split_on(s.skip(i + 1), c)
            } else {
                seq![s]
            }
        },
        None => seq![s],
    }
}

/// The views of a vector of char vectors.
pub open spec fn views(v: Seq<Vec<char>>) -> Seq<Seq<char>> {
    Seq::new(v.len(), |i: int| v[i]@)
}

/// Executable `split_on`.
pub fn split_on_vec(v: &Vec<char>, c: char) -> (r: Vec<Vec<char>>)
    ensures
        views(r@) == split_on(v@, c),
{
    let mut parts: Vec<Vec<char>> = Vec::new();
    let mut rest = slice_vec(v, 0, v.len());
    assert(rest@ =~= v@);
    let ghost acc: Seq<Seq<char>> = Seq::empty();
    loop
        invariant
            views(parts@) + split_on(rest@, c) == split_on(v@, c),
        decreases rest@.len(),
    {
        match find_char(&rest, 0, c) {
            Some(i) => {
                proof {
                    lemma_first_from(rest@, 0, c);
                }
                let head = slice_vec(&rest, 0, i);
                let tail = slice_vec(&rest, i + 1, rest.len());
                assert(head@ =~= rest@.take(i as int));
                assert(tail@ =~= rest@.skip(i + 1));
                let ghost old_parts = parts@;
                parts.push(head);
                assert(views(parts@) =~= views(old_parts) + seq![head@]);
                assert(split_on(rest@, c) == seq![rest@.take(i as int)] + split_on(rest@.skip(i + 1), c));
                assert(views(parts@) + split_on(tail@, c) =~= views(old_parts) + split_on(rest@, c));
                rest = tail;
            },
            None => {
                let ghost old_parts = parts@;
                assert(split_on(rest@, c) == seq![rest@]);
                parts.push(rest);
                assert(views(parts@) =~= views(old_parts) + seq![rest@]);
                return parts;
            },
        }
    }
}

/// Every char of `s` is an ASCII digit (true of the empty sequence).
pub open spec fn all_digits(s: Seq<char>) -> bool {
    forall|i: int| 0 <= i < s.len() ==> '0' <= #[trigger] s[i] && s[i] <= '9'
}

pub fn all_digits_exec(v: &Vec<char>) -> (r: bool)
    ensures
        r == all_digits(v@),
{
    let mut i: usize = 0;
    while i < v.len()
        invariant
            i <= v@.len(),
            forall|k: int| 0 <= k < i ==> '0' <= #[trigger] v@[k] && v@[k] <= '9',
        decreases v@.len() - i,
    {
        if !('0' <= v[i] && v[i] <= '9') {
            return false;
        }
        i += 1;
    }
    true
}

/// `s` and `t` are the same chars.
pub fn eq_vec(s: &Vec<char>, t: &Vec<char>) -> (r: bool)
    ensures
        r == (s@ == t@),
{
    if s.len() != t.len() {
        return false;
    }
    let mut i: usize = 0;
    while i < s.len()
        invariant
            s@.len() == t@.len(),
            i <= s@.len(),
            forall|k: int| 0 <= k < i ==> s@[k] == t@[k],
        decreases s@.len() - i,
    {
        if s[i] != t[i] {
            return false;
        }
        i += 1;
    }
    assert(s@ =~= t@);
    true
}

/// `a` and `b` are the same text.
pub fn str_eq(a: &str, b: &str) -> (r: bool)
    ensures
        r == (a@ == b@),
{
    let x = to_chars(a);
    let y = to_chars(b);
    eq_vec(&x, &y)
}

/// `s` equals the literal `lit`.
pub fn eq_str(s: &Vec<char>, lit: &str) -> (r: bool)
    ensures
        r == (s@ == lit@),
{
    let t = to_chars(lit);
    eq_vec(s, &t)
}

} // verus!

verus! {

/// The value of a decimal digit char.
pub open spec fn digit_val(c: char) -> nat {
    (c as int - '0' as int) as nat
}

/// The value of a string of decimal digits (0 for the empty string).
pub open spec fn dec_value(s: Seq<char>) -> nat
    decreases s.len(),
{
    if s.len() == 0 {
        0
    } else {
        dec_value(s.drop_last()) * 10 + digit_val(s.last())
    }
}

/// `u64::from_str`: an optional `+`, then one or more ASCII digits whose value fits in a `u64`.
pub open spec fn parse_u64(s: Seq<char>) -> Option<nat> {
    let d = if s.len() > 0 && s[0] == '+' { s.drop_first() } else { s };
    if d.len() > 0 && all_digits(d) && dec_value(d) <= u64::MAX {
        Some(dec_value(d))
    } else {
        None
    }
}

proof fn lemma_dec_value_prefix(s: Seq<char>, k: int)
    requires
        0 <= k <= s.len(),
        all_digits(s),
    ensures
        dec_value(s.take(k)) <= dec_value(s),
    decreases s.len(),
{
    if k < s.len() {
        assert(all_digits(s.drop_last()));
        assert(s.drop_last().take(k) =~= s.take(k));
        lemma_dec_value_prefix(s.drop_last(), k);
    } else {
        assert(s.take(k) =~= s);
    }
}

/// Executable `parse_u64`.
pub fn parse_u64_exec(s: &Vec<char>) -> (r: Option<u64>)
    ensures
        match r {
            Some(n) => parse_u64(s@) == Some(n as nat),
            None => parse_u64(s@) is None,
        },
{
    let start: usize = if s.len() > 0 && s[0] == '+' { 1 } else { 0 };
    let ghost d = if s@.len() > 0 && s@[0] == '+' { s@.drop_first() } else { s@ };
    assert(d =~= s@.skip(start as int));
    if start >= s.len() {
        return None;
    }
    let mut acc: u64 = 0;
    let mut i = start;
    assert(d.take(0) =~= Seq::<char>::empty());
    while i < s.len()
        invariant
            start <= i <= s@.len(),
            d == s@.skip(start as int),
            d == (if s@.len() > 0 && s@[0] == '+' { s@.drop_first() } else { s@ }),
            acc as nat == dec_value(d.take(i - start)),
            forall|k: int| 0 <= k < i - start ==> '0' <= #[trigger] d[k] && d[k] <= '9',
        decreases s@.len() - i,
    {
        let c = s[i];
        assert(d[i - start] == c);
        if !('0' <= c && c <= '9') {
            assert(!all_digits(d));
            assert(d == (if s@.len() > 0 && s@[0] == '+' { s@.drop_first() } else { s@ }));
            assert(parse_u64(s@) is None);
            return None;
        }
        let dv = (c as u32 - '0' as u32) as u64;
        assert(d.take(i + 1 - start).drop_last() =~= d.take(i - start));
        assert(d.take(i + 1 - start).last() == c);
        let m = acc.checked_mul(10);
        match m {
            None => {
                proof {
                    if all_digits(d) {
                        lemma_dec_value_prefix(d, i + 1 - start);
                    }
                }
                return None;
            },
            Some(m) => {
                match m.checked_add(dv) {
                    None => {
                        proof {
                            if all_digits(d) {
                                lemma_dec_value_prefix(d, i + 1 - start);
                            }
                        }
                        return None;
                    },
                    Some(v) => {
                        acc = v;
                    },
                }
            },
        }
        i += 1;
    }
    assert(d.take(s@.len() - start) =~= d);
    Some(acc)
}

/// A digit `0..=9` as its char.
pub open spec fn digit_char(d: nat) -> char {
    (d + '0' as nat) as char
}

/// The decimal digits of `n`, as `format!("{}", n)` writes them.
pub open spec fn dec(n: nat) -> Seq<char>
    decreases n,
{
    if n < 10 {
        seq![digit_char(n)]
    } else {
        dec(n / 10) + seq![digit_char(n % 10)]
    }
}

/// Executable `dec`.
pub fn dec_exec(n: u64) -> (r: Vec<char>)
    ensures
        r@ == dec(n as nat),
    decreases n,
{
    let d = (n % 10) as u8;
    let c = (d + 48u8) as char;
    assert(c == digit_char((n % 10) as nat));
    if n < 10 {
        let mut v = Vec::new();
        v.push(c);
        v
    } else {
        let mut v = dec_exec(n / 10);
        v.push(c);
        v
    }
}

} // verus!

verus! {

/// `p` occurs in `s` at position `i`.
pub open spec fn occurs_at(s: Seq<char>, p: Seq<char>, i: int) -> bool {
    0 <= i && i + p.len() <= s.len() && s.subrange(i, i + p.len()) == p
}

/// `str::replace(pat, rep)`: non-overlapping occurrences of `pat`, left to right, replaced.
pub open spec fn replace(s: Seq<char>, pat: Seq<char>, rep: Seq<char>) -> Seq<char>
    decreases s.len(),
{
    if s.len() == 0 || pat.len() == 0 {
        s
    } else if occurs_at(s, pat, 0) {
        rep + replace(s.skip(pat.len() as int), pat, rep)
    } else {
        seq![s[0]] + replace(s.drop_first(), pat, rep)
    }
}

/// Executable `occurs_at`.
pub fn occurs_at_exec(s: &Vec<char>, p: &Vec<char>, i: usize) -> (r: bool)
    ensures
        r == occurs_at(s@, p@, i as int),
{
    if i > s.len() || p.len() > s.len() - i {
        return false;
    }
    let mut k: usize = 0;
    while k < p.len()
        invariant
            i + p@.len() <= s@.len(),
            s@.len() <= usize::MAX,
            k <= p@.len(),
            forall|j: int| 0 <= j < k ==> s@[i + j] == p@[j],
        decreases p@.len() - k,
    {
        let idx = i + k;
        if s[idx] != p[k] {
            assert(s@.subrange(i as int, i + p@.len())[k as int] != p@[k as int]);
            return false;
        }
        k += 1;
    }
    assert(s@.subrange(i as int, i + p@.len()) =~= p@);
    true
}

/// Executable `replace`, for a non-empty pattern.
pub fn replace_vec(s: &Vec<char>, pat: &str, rep: &str) -> (r: Vec<char>)
    ensures
        r@ == replace(s@, pat@, rep@),
{
    let p = to_chars(pat);
    let rp = to_chars(rep);
    let mut out: Vec<char> = Vec::new();
    let mut i: usize = 0;
    assert(s@.skip(0) =~= s@);
    while i < s.len()
        invariant
            i <= s@.len(),
            p@ == pat@,
            rp@ == rep@,
            out@ + replace(s@.skip(i as int), p@, rp@) == replace(s@, p@, rp@),
        decreases s@.len() - i,
    {
        let ghost rest = s@.skip(i as int);
        if p.len() > 0 && occurs_at_exec(s, &p, i) {
            assert(rest.subrange(0, p@.len() as int) =~= s@.subrange(i as int, i + p@.len()));
            assert(occurs_at(rest, p@, 0));
            assert(rest.skip(p@.len() as int) =~= s@.skip(i + p@.len()));
            let ghost old_out = out@;
            extend(&mut out, &rp);
            assert(out@ + replace(s@.skip(i + p@.len()), p@, rp@) =~= old_out + (rp@ + replace(rest.skip(p@.len() as int), p@, rp@)));
            i += p.len();
        } else {
            if p.len() > 0 {
                assert(!occurs_at(rest, p@, 0)) by {
                    if occurs_at(rest, p@, 0) {
                        assert(rest.subrange(0, p@.len() as int) =~= s@.subrange(i as int, i + p@.len()));
                    }
                }
            }
            assert(rest.drop_first() =~= s@.skip(i + 1));
            let ghost old_out = out@;
            out.push(s[i]);
            assert(out@ + replace(s@.skip(i + 1), p@, rp@) =~= old_out + (seq![rest[0]] + replace(rest.drop_first(), p@, rp@)));
            i += 1;
        }
    }
    assert(s@.skip(i as int).len() == 0);
    assert(out@ + replace(s@.skip(i as int), p@, rp@) =~= out@);
    out
}

/// Index of the first occurrence of `p` in `s` at or after `from`.
pub open spec fn find_pat_from(s: Seq<char>, p: Seq<char>, from: int) -> Option<int>
    decreases s.len() + 1 - from,
{
    if from < 0 || from + p.len() > s.len() {
        None
    } else if occurs_at(s, p, from) {
        Some(from)
    } else {
        find_pat_from(s, p, from + 1)
    }
}

/// What `find_pat_from` gives back: the first place at or after `from` where `p` occurs.
pub proof fn lemma_find_pat_from(s: Seq<char>, p: Seq<char>, from: int)
    requires
        0 <= from,
    ensures
        match find_pat_from(s, p, from) {
            Some(i) => from <= i && occurs_at(s, p, i) && forall|j: int| from <= j < i ==> !occurs_at(s, p, j),
            None => forall|j: int| from <= j ==> !occurs_at(s, p, j),
        },
    decreases s.len() + 1 - from,
{
    if from + p.len() <= s.len() && !occurs_at(s, p, from) {
        lemma_find_pat_from(s, p, from + 1);
    }
}

/// Executable `find_pat_from`.
pub fn find_pat(s: &Vec<char>, p: &Vec<char>, from: usize) -> (r: Option<usize>)
    ensures
        match r {
            Some(i) => find_pat_from(s@, p@, from as int) == Some(i as int),
            None => find_pat_from(s@, p@, from as int) is None,
        },
{
    if p.len() == 0 {
        return if from <= s.len() {
            assert(s@.subrange(from as int, from as int) =~= p@);
            Some(from)
        } else {
            None
        };
    }
    let mut i = from;
    while i < s.len() && p.len() <= s.len() - i
        invariant
            from <= i,
            p@.len() > 0,
            find_pat_from(s@, p@, from as int) == find_pat_from(s@, p@, i as int),
        decreases s@.len() + 1 - i,
    {
        if occurs_at_exec(s, p, i) {
            return Some(i);
        }
        i += 1;
    }
    None
}

/// `str::split(pat)` with a non-empty pattern: the pieces between non-overlapping occurrences.
pub open spec fn split_pat(s: Seq<char>, p: Seq<char>) -> Seq<Seq<char>>
    decreases s.len(),
{
    if p.len() == 0 {
        seq![s]
    } else {
        match find_pat_from(s, p, 0) {
            Some(i) => {
                if 0 <= i && i + p.len() <= s.len() {
                    seq![s.take(i)] + split_pat(s.skip(i + p.len()), p)
                } else {
                    seq![s]
                }
            },
            None => seq![s],
        }
    }
}

/// Executable `split_pat`.
pub fn split_pat_vec(v: &Vec<char>, pat: &str) -> (r: Vec<Vec<char>>)
    requires
        pat@.len() > 0,
    ensures
        views(r@) == split_pat(v@, pat@),
{
    let p = to_chars(pat);
    let mut parts: Vec<Vec<char>> = Vec::new();
    let mut rest = slice_vec(v, 0, v.len());
    assert(rest@ =~= v@);
    loop
        invariant
            p@ == pat@,
            p@.len() > 0,
            views(parts@) + split_pat(rest@, p@) == split_pat(v@, p@),
        decreases rest@.len(),
    {
        match find_pat(&rest, &p, 0) {
            Some(i) => {
                proof {
                    lemma_find_pat_from(rest@, p@, 0);
                }
                assert(occurs_at(rest@, p@, i as int));
                let rl = rest.len();
                let head = slice_vec(&rest, 0, i);
                let tail = slice_vec(&rest, i + p.len(), rl);
                assert(head@ =~= rest@.take(i as int));
                assert(tail@ =~= rest@.skip(i + p@.len()));
                let ghost old_parts = parts@;
                parts.push(head);
                assert(views(parts@) =~= views(old_parts) + seq![head@]);
                assert(views(parts@) + split_pat(tail@, p@) =~= views(old_parts) + split_pat(rest@, p@));
                rest = tail;
            },
            None => {
                let ghost old_parts = parts@;
                parts.push(rest);
                assert(views(parts@) =~= views(old_parts) + seq![rest@]);
                return parts;
            },
        }
    }
}

/// `parts` joined with `sep` between neighbours.
pub open spec fn join(parts: Seq<Seq<char>>, sep: Seq<char>) -> Seq<char>
    decreases parts.len(),
{
    if parts.len() == 0 {
        Seq::empty()
    } else if parts.len() == 1 {
        parts[0]
    } else {
        join(parts.drop_last(), sep) + sep + parts.last()
    }
}

/// Executable `join`.
pub fn join_vec(parts: &Vec<Vec<char>>, sep: &str) -> (r: Vec<char>)
    ensures
        r@ == join(views(parts@), sep@),
{
    let sp = to_chars(sep);
    let mut out: Vec<char> = Vec::new();
    let mut i: usize = 0;
    while i < parts.len()
        invariant
            i <= parts@.len(),
            sp@ == sep@,
            out@ == join(views(parts@).take(i as int), sep@),
        decreases parts@.len() - i,
    {
        let ghost old_out = out@;
        if i > 0 {
            extend(&mut out, &sp);
        }
        extend(&mut out, &parts[i]);
        let ghost t = views(parts@).take(i + 1);
        assert(t.drop_last() =~= views(parts@).take(i as int));
        assert(t.last() == parts@[i as int]@);
        i += 1;
    }
    assert(views(parts@).take(parts@.len() as int) =~= views(parts@));
    out
}

} // verus!

verus! {

/// Trimming the start drops a prefix and leaves no whitespace in front.
pub proof fn lemma_trim_start(s: Seq<char>)
    ensures
        trim_start(s).len() <= s.len(),
        trim_start(s).len() > 0 ==> !is_ws(trim_start(s)[0]),
        exists|k: int| 0 <= k <= s.len() && trim_start(s) == s.skip(k),
    decreases s.len(),
{
    if s.len() > 0 && is_ws(s[0]) {
        lemma_trim_start(s.drop_first());
        let k = choose|k: int| 0 <= k <= s.drop_first().len() && trim_start(s.drop_first()) == s.drop_first().skip(k);
        assert(s.drop_first().skip(k) =~= s.skip(k + 1));
    } else {
        assert(s.skip(0) =~= s);
    }
}

/// What `first_ws_from` gives back: the first whitespace char at or after `from`.
pub proof fn lemma_first_ws_from(s: Seq<char>, from: int)
    requires
        0 <= from,
    ensures
        match first_ws_from(s, from) {
            Some(i) => from <= i < s.len() && is_ws(s[i]) && forall|j: int| from <= j < i ==> !is_ws(s[j]),
            None => forall|j: int| from <= j < s.len() ==> !is_ws(s[j]),
        },
    decreases s.len() - from,
{
    if from < s.len() && !is_ws(s[from]) {
        lemma_first_ws_from(s, from + 1);
    }
}

/// `str::split_whitespace`: the maximal runs of non-whitespace chars.
pub open spec fn split_ws(s: Seq<char>) -> Seq<Seq<char>>
    decreases s.len(),
{
    let t = trim_start(s);
    if t.len() == 0 || t.len() > s.len() {
        Seq::empty()
    } else {
        match first_ws_from(t, 0) {
            Some(i) => {
                if 0 < i && i < t.len() {
                    seq![t.take(i)] + split_ws(t.skip(i))
                } else {
                    seq![t]
                }
            },
            None => seq![t],
        }
    }
}

fn first_ws_exec(v: &Vec<char>) -> (r: Option<usize>)
    ensures
        match r {
            Some(i) => first_ws_from(v@, 0) == Some(i as int),
            None => first_ws_from(v@, 0) is None,
        },
{
    let mut i: usize = 0;
    while i < v.len()
        invariant
            first_ws_from(v@, 0) == first_ws_from(v@, i as int),
        decreases v@.len() - i,
    {
        if is_ws_exec(v[i]) {
            return Some(i);
        }
        i += 1;
    }
    None
}

/// Executable `split_ws`.
pub fn split_ws_vec(v: &Vec<char>) -> (r: Vec<Vec<char>>)
    ensures
        views(r@) == split_ws(v@),
{
    let mut parts: Vec<Vec<char>> = Vec::new();
    let mut rest = slice_vec(v, 0, v.len());
    assert(rest@ =~= v@);
    loop
        invariant
            views(parts@) + split_ws(rest@) == split_ws(v@),
        decreases rest@.len(),
    {
        let lo = skip_leading(&rest, true, ' ');
        let rl = rest.len();
        let t = slice_vec(&rest, lo, rl);
        assert(t@ =~= rest@.skip(lo as int));
        proof {
            lemma_trim_start(rest@);
        }
        if t.len() == 0 {
            assert(views(parts@) + split_ws(rest@) =~= views(parts@));
            return parts;
        }
        match first_ws_exec(&t) {
            Some(i) => {
                proof {
                    lemma_first_ws_from(t@, 0);
                }
                let tl = t.len();
                let head = slice_vec(&t, 0, i);
                let tail = slice_vec(&t, i, tl);
                assert(head@ =~= t@.take(i as int));
                assert(tail@ =~= t@.skip(i as int));
                let ghost old_parts = parts@;
                parts.push(head);
                assert(views(parts@) =~= views(old_parts) + seq![head@]);
                assert(views(parts@) + split_ws(tail@) =~= views(old_parts) + split_ws(rest@));
                rest = tail;
            },
            None => {
                let ghost old_parts = parts@;
                parts.push(t);
                assert(views(parts@) =~= views(old_parts) + seq![t@]);
                assert(split_ws(rest@) == seq![t@]);
                return parts;
            },
        }
    }
}

} // verus!

verus! {

/// `Path::join` on Unix: an absolute part replaces the base; otherwise a `/` separates the
/// two unless the base is empty or already ends with one.
pub open spec fn join_path(base: Seq<char>, part: Seq<char>) -> Seq<char> {
    if part.len() > 0 && part[0] == '/' {
        part
    } else if base.len() == 0 {
        part
    } else if base.last() == '/' {
        base + part
    } else {
        base + seq!['/'] + part
    }
}

/// Executable `join_path`.
pub fn join_path_exec(base: &str, part: &str) -> (r: String)
    ensures
        r@ == join_path(base@, part@),
{
    let b = to_chars(base);
    let p = to_chars(part);
    if p.len() > 0 && p[0] == '/' {
        return part.to_owned();
    }
    if b.len() == 0 {
        return part.to_owned();
    }
    let mut out = b;
    if out[out.len() - 1] != '/' {
        out.push('/');
    }
    extend(&mut out, &p);
    string_of_all(&out)
}

/// The views of a list of strings.
pub open spec fn str_views(v: Seq<String>) -> Seq<Seq<char>> {
    v.map_values(|s: String| s@)
}

/// Whether the list holds the text `s`.
pub fn contains_str(v: &Vec<String>, s: &str) -> (r: bool)
    ensures
        r == str_views(v@).contains(s@),
{
    let mut i: usize = 0;
    while i < v.len()
        invariant
            i <= v@.len(),
            forall|k: int| 0 <= k < i ==> str_views(v@)[k] != s@,
        decreases v@.len() - i,
    {
        if str_eq(v[i].as_str(), s) {
            assert(str_views(v@)[i as int] == s@);
            return true;
        }
        i += 1;
    }
    false
}

/// `s` starts with `p`.
pub open spec fn starts_with(s: Seq<char>, p: Seq<char>) -> bool {
    p.len() <= s.len() && s.take(p.len() as int) == p
}

/// `s` ends with `p`.
pub open spec fn ends_with(s: Seq<char>, p: Seq<char>) -> bool {
    p.len() <= s.len() && s.skip(s.len() - p.len()) == p
}

/// `p` occurs somewhere in `s` (the empty text occurs everywhere).
pub open spec fn contains_pat(s: Seq<char>, p: Seq<char>) -> bool {
    exists|i: int| 0 <= i <= s.len() - p.len() && #[trigger] occurs_at(s, p, i)
}

/// Executable `starts_with`.
pub fn starts_with_str(s: &str, p: &str) -> (r: bool)
    ensures
        r == starts_with(s@, p@),
{
    let a = to_chars(s);
    let b = to_chars(p);
    if b.len() > a.len() {
        return false;
    }
    let h = slice_vec(&a, 0, b.len());
    assert(h@ =~= a@.take(b@.len() as int));
    eq_vec(&h, &b)
}

/// Executable `ends_with`.
pub fn ends_with_str(s: &str, p: &str) -> (r: bool)
    ensures
        r == ends_with(s@, p@),
{
    let a = to_chars(s);
    let b = to_chars(p);
    if b.len() > a.len() {
        return false;
    }
    let t = slice_vec(&a, a.len() - b.len(), a.len());
    assert(t@ =~= a@.skip(a@.len() - b@.len()));
    eq_vec(&t, &b)
}

/// Executable `contains_pat`.
pub fn contains_pat_str(s: &str, p: &str) -> (r: bool)
    ensures
        r == contains_pat(s@, p@),
{
    let a = to_chars(s);
    let b = to_chars(p);
    if b.len() > a.len() {
        return false;
    }
    let last = a.len() - b.len();
    let mut i: usize = 0;
    loop
        invariant
            a@ == s@,
            b@ == p@,
            b@.len() <= a@.len(),
            last == a@.len() - b@.len(),
            i <= last,
            forall|k: int| 0 <= k < i ==> !occurs_at(a@, b@, k),
        decreases last - i,
    {
        if occurs_at_exec(&a, &b, i) {
            assert(occurs_at(s@, p@, i as int));
            return true;
        }
        if i == last {
            assert forall|k: int| 0 <= k <= s@.len() - p@.len() implies !#[trigger] occurs_at(s@, p@, k) by {
                assert(k < i || k == i);
            }
            return false;
        }
        i += 1;
    }
}

} // verus!
