//! Rewriting of npm version ranges into the comparator syntax of the `semver` crate.
use vstd::prelude::*;
use crate::text::{
    trim, trim_start, trim_end, is_ws, strip_leading, first_from, split_on, views, all_digits, parse_u64, dec, join,
    find_pat_from, replace, split_ws, occurs_at, to_chars, trim_vec, strip_leading_vec, find_char,
    lemma_first_from, slice_vec, split_on_vec, all_digits_exec, parse_u64_exec, dec_exec, extend,
    join_vec, string_of_all, find_pat, lemma_find_pat_from, replace_vec, split_ws_vec,
};

verus! {

pub open spec fn star() -> Seq<char> {
    seq!['*']
}

/// `*`, `x` or `X`: a wildcard part.
pub open spec fn is_star(p: Seq<char>) -> bool {
    p == seq!['*'] || p == seq!['x'] || p == seq!['X']
}

/// A wildcard part as `*`, any other part unchanged.
pub open spec fn star_or(p: Seq<char>) -> Seq<char> {
    if is_star(p) { star() } else { p }
}

/// A version string trimmed, then stripped of its leading `v`s, then of its leading `=`s.
pub open spec fn clean(v: Seq<char>) -> Seq<char> {
    strip_leading(strip_leading(trim(v), 'v'), '=')
}

/// A version split before its first `-` (the pre-release tail keeps its `-`).
pub open spec fn split_dash(c: Seq<char>) -> (Seq<char>, Seq<char>) {
    match first_from(c, 0, '-') {
        Some(i) => (c.take(i), c.skip(i)),
        None => (c, Seq::empty()),
    }
}

pub open spec fn dot_zero() -> Seq<char> {
    seq!['.', '0']
}

/// A partial version completed with zeros: `1` gives `1.0.0`, `1.2` gives `1.2.0`, `1.x` gives
/// `1.*`, wildcards become `*`; what is not made of digits is left as it was cleaned.
pub open spec fn norm_version(v: Seq<char>) -> Seq<char> {
    let c = clean(v);
    if c.len() == 0 || is_star(c) {
        star()
    } else {
        let (ver, extra) = split_dash(c);
        let parts = split_on(ver, '.');
        if parts.len() == 1 {
            if is_star(parts[0]) {
                star()
            } else if all_digits(parts[0]) {
                parts[0] + dot_zero() + dot_zero() + extra
            } else {
                c
            }
        } else if parts.len() == 2 {
            let p0 = star_or(parts[0]);
            let p1 = star_or(parts[1]);
            if p1 == star() {
                if p0 == star() { star() } else { p0 + seq!['.', '*'] }
            } else if all_digits(p0) && all_digits(p1) {
                p0 + seq!['.'] + p1 + dot_zero() + extra
            } else {
                c
            }
        } else {
            join(parts.map_values(|p: Seq<char>| star_or(p)), seq!['.']) + extra
        }
    }
}

/// The lower bound of a hyphen range `left - right`.
pub open spec fn hyphen_lower(left: Seq<char>) -> Seq<char> {
    let (lv, lx) = split_dash(clean(left));
    let parts = split_on(lv, '.');
    if parts.len() == 1 && all_digits(parts[0]) {
        seq!['>', '='] + parts[0] + dot_zero() + dot_zero() + lx
    } else if parts.len() == 2 && all_digits(parts[0]) && all_digits(parts[1]) {
        seq!['>', '='] + parts[0] + seq!['.'] + parts[1] + dot_zero() + lx
    } else {
        seq!['>', '='] + lv + lx
    }
}

/// The upper bound of a hyphen range `left - right`: a partial version excludes the next one.
pub open spec fn hyphen_upper(right: Seq<char>) -> Seq<char> {
    let rc = clean(right);
    let (rv, _rx) = split_dash(rc);
    let parts = split_on(rv, '.');
    if parts.len() == 1 {
        match parse_u64(parts[0]) {
            Some(n) => seq!['<'] + dec(n + 1) + dot_zero() + dot_zero(),
            None => seq!['<', '='] + parts[0] + dot_zero() + dot_zero(),
        }
    } else if parts.len() == 2 {
        match (parse_u64(parts[0]), parse_u64(parts[1])) {
            (Some(m), Some(n)) => seq!['<'] + dec(m) + seq!['.'] + dec(n + 1) + dot_zero(),
            _ => seq!['<', '='] + parts[0] + seq!['.'] + parts[1] + dot_zero(),
        }
    } else {
        seq!['<', '='] + rc
    }
}

/// The upper bound of `right` would have to count past `u64::MAX` (the computation panics there).
pub open spec fn upper_overflows(right: Seq<char>) -> bool {
    parts_at_max(split_on(split_dash(clean(right)).0, '.'))
}

/// A hyphen range `left - right` as two comparators.
pub open spec fn norm_hyphen(left: Seq<char>, right: Seq<char>) -> Seq<char> {
    hyphen_lower(left) + seq![',', ' '] + hyphen_upper(right)
}

/// The operator that begins a token, tried in the order `>=`, `<=`, `>`, `<`, `^`, `~`, `=`.
pub open spec fn op_len(t: Seq<char>) -> int {
    if t.len() >= 2 && t[0] == '>' && t[1] == '=' {
        2
    } else if t.len() >= 2 && t[0] == '<' && t[1] == '=' {
        2
    } else if t.len() >= 1 && (t[0] == '>' || t[0] == '<' || t[0] == '^' || t[0] == '~' || t[0] == '=') {
        1
    } else {
        0
    }
}

/// The version of a token without a `v` that stands right before a digit.
pub open spec fn token_version(t: Seq<char>) -> Seq<char> {
    let raw = t.skip(op_len(t));
    if raw.len() >= 2 && raw[0] == 'v' && '0' <= raw[1] && raw[1] <= '9' {
        raw.drop_first()
    } else {
        raw
    }
}

pub open spec fn is_le_op(t: Seq<char>) -> bool {
    t.len() >= 2 && t[0] == '<' && t[1] == '='
}

/// One comparator token of a clause, rewritten: `<=1` becomes `<2.0.0`, `<=1.2` becomes
/// `<1.3.0`, a bare `1.x` becomes `1.*`, and versions after an operator are completed.
pub open spec fn norm_token(t: Seq<char>) -> Seq<char> {
    let op = t.take(op_len(t));
    let v = token_version(t);
    if op_len(t) == 0 {
        if is_star(v) || v.len() == 0 {
            star()
        } else if v.len() >= 2 && v[v.len() - 2] == '.' && (v.last() == 'x' || v.last() == 'X') {
            v.take(v.len() - 2) + seq!['.', '*']
        } else {
            v
        }
    } else {
        let parts = split_on(split_dash(v).0, '.');
        if is_le_op(t) && parts.len() == 1 && parse_u64(parts[0]) is Some {
            seq!['<'] + dec(parse_u64(parts[0]).unwrap() + 1) + dot_zero() + dot_zero()
        } else if is_le_op(t) && parts.len() == 2 && parse_u64(parts[0]) is Some && parse_u64(parts[1]) is Some {
            seq!['<'] + dec(parse_u64(parts[0]).unwrap()) + seq!['.'] + dec(parse_u64(parts[1]).unwrap() + 1) + dot_zero()
        } else {
            op + norm_version(v)
        }
    }
}

/// The token's `<=` bound would have to count past `u64::MAX`.
pub open spec fn token_overflows(t: Seq<char>) -> bool {
    op_len(t) > 0 && is_le_op(t) && parts_at_max(split_on(split_dash(token_version(t)).0, '.'))
}

/// The spaces after the operators of a clause taken out.
pub open spec fn close_ops(t: Seq<char>) -> Seq<char> {
    replace(replace(replace(replace(replace(replace(replace(t,
        seq!['>', '=', ' '], seq!['>', '=']),
        seq!['<', '=', ' '], seq!['<', '=']),
        seq!['>', ' '], seq!['>']),
        seq!['<', ' '], seq!['<']),
        seq!['^', ' '], seq!['^']),
        seq!['~', ' '], seq!['~']),
        seq!['=', ' '], seq!['='])
}

pub open spec fn hyphen_sep() -> Seq<char> {
    seq![' ', '-', ' ']
}

/// One clause of an npm range (no `||`) in `semver` syntax: a hyphen range, or its
/// whitespace-separated comparators rewritten and joined with commas.
pub open spec fn norm_clause(r: Seq<char>) -> Seq<char> {
    let t = trim(r);
    match find_pat_from(t, hyphen_sep(), 0) {
        Some(i) => norm_hyphen(t.take(i), t.skip(i + 3)),
        None => join(split_ws(close_ops(t)).map_values(|tok: Seq<char>| norm_token(tok)), seq![',']),
    }
}

/// Rewriting the clause counts a bound past `u64::MAX`.
pub open spec fn clause_overflows(r: Seq<char>) -> bool {
    let t = trim(r);
    match find_pat_from(t, hyphen_sep(), 0) {
        Some(i) => upper_overflows(t.skip(i + 3)),
        None => exists|k: int| 0 <= k < split_ws(close_ops(t)).len() && token_overflows(#[trigger] split_ws(close_ops(t))[k]),
    }
}

// ---------------------------------------------------------------- executable side

fn push_all(v: &mut Vec<char>, cs: &[char])
    ensures
        final(v)@ == old(v)@ + cs@,
{
    let mut i: usize = 0;
    let ghost start = v@;
    while i < cs.len()
        invariant
            i <= cs@.len(),
            v@ == start + cs@.take(i as int),
        decreases cs@.len() - i,
    {
        v.push(cs[i]);
        i += 1;
        assert(v@ =~= start + cs@.take(i as int));
    }
    assert(cs@.take(cs@.len() as int) =~= cs@);
}

fn is_star_exec(p: &Vec<char>) -> (r: bool)
    ensures
        r == is_star(p@),
{
    if p.len() == 1 && (p[0] == '*' || p[0] == 'x' || p[0] == 'X') {
        assert(p@ =~= seq![p@[0]]);
        true
    } else {
        proof {
            if p@ == seq!['*'] || p@ == seq!['x'] || p@ == seq!['X'] {
                assert(p@.len() == 1);
            }
        }
        false
    }
}

fn star_vec() -> (r: Vec<char>)
    ensures
        r@ == star(),
{
    let mut r = Vec::new();
    r.push('*');
    assert(r@ =~= star());
    r
}

fn star_or_exec(p: &Vec<char>) -> (r: Vec<char>)
    ensures
        r@ == star_or(p@),
{
    if is_star_exec(p) { star_vec() } else { slice_vec(p, 0, p.len()) }
}

fn clean_exec(v: &Vec<char>) -> (r: Vec<char>)
    ensures
        r@ == clean(v@),
{
    let t = trim_vec(v);
    let t = strip_leading_vec(&t, 'v');
    strip_leading_vec(&t, '=')
}

fn split_dash_exec(c: &Vec<char>) -> (r: (Vec<char>, Vec<char>))
    ensures
        (r.0@, r.1@) == split_dash(c@),
{
    match find_char(c, 0, '-') {
        Some(i) => {
            proof { lemma_first_from(c@, 0, '-'); }
            let a = slice_vec(c, 0, i);
            let b = slice_vec(c, i, c.len());
            assert(a@ =~= c@.take(i as int));
            assert(b@ =~= c@.skip(i as int));
            (a, b)
        },
        None => {
            let a = slice_vec(c, 0, c.len());
            assert(a@ =~= c@);
            (a, Vec::new())
        },
    }
}

/// Splitting on a char always gives at least one piece.
pub proof fn lemma_split_on_nonempty(s: Seq<char>, c: char)
    ensures
        split_on(s, c).len() >= 1,
    decreases s.len(),
{
    match first_from(s, 0, c) {
        Some(i) => {
            if 0 <= i < s.len() {
                lemma_first_from(s, 0, c);
                lemma_split_on_nonempty(s.skip(i + 1), c);
            }
        },
        None => {},
    }
}

fn norm_version_vec(v: &Vec<char>) -> (r: Vec<char>)
    ensures
        r@ == norm_version(v@),
{
    let c = clean_exec(v);
    if c.len() == 0 || is_star_exec(&c) {
        return star_vec();
    }
    let (ver, extra) = split_dash_exec(&c);
    let parts = split_on_vec(&ver, '.');
    proof { lemma_split_on_nonempty(ver@, '.'); }
    assert(parts@.len() == views(parts@).len());
    if parts.len() == 1 {
        assert(views(parts@)[0] == parts@[0]@);
        if is_star_exec(&parts[0]) {
            star_vec()
        } else if all_digits_exec(&parts[0]) {
            let mut r = slice_vec(&parts[0], 0, parts[0].len());
            assert(r@ =~= parts@[0]@);
            push_all(&mut r, &['.', '0', '.', '0']);
            extend(&mut r, &extra);
            assert(r@ =~= parts@[0]@ + dot_zero() + dot_zero() + extra@);
            r
        } else {
            c
        }
    } else if parts.len() == 2 {
        assert(views(parts@)[0] == parts@[0]@);
        assert(views(parts@)[1] == parts@[1]@);
        let p0 = star_or_exec(&parts[0]);
        let p1 = star_or_exec(&parts[1]);
        if is_star_exec(&p1) && p1[0] == '*' {
            assert(p1@ =~= star());
            if is_star_exec(&p0) && p0[0] == '*' {
                assert(p0@ =~= star());
                star_vec()
            } else {
                let mut r = p0;
                push_all(&mut r, &['.', '*']);
                proof {
                    if star_or(parts@[0]@) == star() {
                        assert(r@[0] == '*');
                    }
                }
                r
            }
        } else if all_digits_exec(&p0) && all_digits_exec(&p1) {
            proof {
                if star_or(parts@[1]@) == star() {
                    assert(p1@[0] == '*');
                }
            }
            let mut r = p0;
            r.push('.');
            extend(&mut r, &p1);
            push_all(&mut r, &['.', '0']);
            extend(&mut r, &extra);
            r
        } else {
            proof {
                if star_or(parts@[1]@) == star() {
                    assert(p1@[0] == '*');
                }
            }
            c
        }
    } else {
        let mut mapped: Vec<Vec<char>> = Vec::new();
        let mut i: usize = 0;
        while i < parts.len()
            invariant
                i <= parts@.len(),
                mapped@.len() == i,
                forall|k: int| 0 <= k < i ==> #[trigger] mapped@[k]@ == star_or(parts@[k]@),
            decreases parts@.len() - i,
        {
            mapped.push(star_or_exec(&parts[i]));
            i += 1;
        }
        assert(views(mapped@) =~= views(parts@).map_values(|p: Seq<char>| star_or(p)));
        let mut r = join_vec(&mapped, ".");
        proof { reveal_strlit("."); }
        assert(".".view() =~= seq!['.']);
        extend(&mut r, &extra);
        r
    }
}

/// `normalize_version_str`: see `norm_version`.
pub fn normalize_version_str(v: &str) -> (r: String)
    ensures
        r@ == norm_version(v@),
{
    let vv = to_chars(v);
    let r = norm_version_vec(&vv);
    string_of_all(&r)
}

fn hyphen_lower_vec(left: &Vec<char>) -> (r: Vec<char>)
    ensures
        r@ == hyphen_lower(left@),
{
    let c = clean_exec(left);
    let (lv, lx) = split_dash_exec(&c);
    let parts = split_on_vec(&lv, '.');
    proof { lemma_split_on_nonempty(lv@, '.'); }
    let mut r: Vec<char> = Vec::new();
    push_all(&mut r, &['>', '=']);
    if parts.len() == 1 && all_digits_exec(&parts[0]) {
        assert(views(parts@)[0] == parts@[0]@);
        extend(&mut r, &parts[0]);
        push_all(&mut r, &['.', '0', '.', '0']);
        extend(&mut r, &lx);
        assert(r@ =~= seq!['>', '='] + parts@[0]@ + dot_zero() + dot_zero() + lx@);
    } else if parts.len() == 2 && all_digits_exec(&parts[0]) && all_digits_exec(&parts[1]) {
        assert(views(parts@)[0] == parts@[0]@);
        assert(views(parts@)[1] == parts@[1]@);
        extend(&mut r, &parts[0]);
        r.push('.');
        extend(&mut r, &parts[1]);
        push_all(&mut r, &['.', '0']);
        extend(&mut r, &lx);
        assert(r@ =~= seq!['>', '='] + parts@[0]@ + seq!['.'] + parts@[1]@ + dot_zero() + lx@);
    } else {
        proof {
            if parts@.len() == 1 { assert(views(parts@)[0] == parts@[0]@); }
            if parts@.len() == 2 {
                assert(views(parts@)[0] == parts@[0]@);
                assert(views(parts@)[1] == parts@[1]@);
            }
        }
        extend(&mut r, &lv);
        extend(&mut r, &lx);
    }
    r
}

fn hyphen_upper_vec(right: &Vec<char>) -> (r: Vec<char>)
    requires
        !upper_overflows(right@),
    ensures
        r@ == hyphen_upper(right@),
{
    let rc = clean_exec(right);
    let (rv, _rx) = split_dash_exec(&rc);
    let parts = split_on_vec(&rv, '.');
    proof { lemma_split_on_nonempty(rv@, '.'); }
    let mut r: Vec<char> = Vec::new();
    if parts.len() == 1 {
        assert(views(parts@)[0] == parts@[0]@);
        match parse_u64_exec(&parts[0]) {
            Some(n) => {
                r.push('<');
                let d = dec_exec(n + 1);
                extend(&mut r, &d);
                push_all(&mut r, &['.', '0', '.', '0']);
                assert(r@ =~= seq!['<'] + dec((n + 1) as nat) + dot_zero() + dot_zero());
            },
            None => {
                push_all(&mut r, &['<', '=']);
                extend(&mut r, &parts[0]);
                push_all(&mut r, &['.', '0', '.', '0']);
                assert(r@ =~= seq!['<', '='] + parts@[0]@ + dot_zero() + dot_zero());
            },
        }
    } else if parts.len() == 2 {
        assert(views(parts@)[0] == parts@[0]@);
        assert(views(parts@)[1] == parts@[1]@);
        match (parse_u64_exec(&parts[0]), parse_u64_exec(&parts[1])) {
            (Some(m), Some(n)) => {
                r.push('<');
                let dm = dec_exec(m);
                extend(&mut r, &dm);
                r.push('.');
                let dn = dec_exec(n + 1);
                extend(&mut r, &dn);
                push_all(&mut r, &['.', '0']);
                assert(r@ =~= seq!['<'] + dec(m as nat) + seq!['.'] + dec((n + 1) as nat) + dot_zero());
            },
            _ => {
                push_all(&mut r, &['<', '=']);
                extend(&mut r, &parts[0]);
                r.push('.');
                extend(&mut r, &parts[1]);
                push_all(&mut r, &['.', '0']);
                assert(r@ =~= seq!['<', '='] + parts@[0]@ + seq!['.'] + parts@[1]@ + dot_zero());
            },
        }
    } else {
        push_all(&mut r, &['<', '=']);
        extend(&mut r, &rc);
    }
    r
}

fn norm_hyphen_vec(left: &Vec<char>, right: &Vec<char>) -> (r: Vec<char>)
    requires
        !upper_overflows(right@),
    ensures
        r@ == norm_hyphen(left@, right@),
{
    let mut r = hyphen_lower_vec(left);
    push_all(&mut r, &[',', ' ']);
    let u = hyphen_upper_vec(right);
    extend(&mut r, &u);
    r
}

/// `normalize_hyphen_range`: see `norm_hyphen`.
pub fn normalize_hyphen_range(left: &str, right: &str) -> (r: String)
    requires
        !upper_overflows(right@),
    ensures
        r@ == norm_hyphen(left@, right@),
{
    let l = to_chars(left);
    let rr = to_chars(right);
    let out = norm_hyphen_vec(&l, &rr);
    string_of_all(&out)
}

fn op_len_exec(t: &Vec<char>) -> (r: usize)
    ensures
        r as int == op_len(t@),
{
    if t.len() >= 2 && t[0] == '>' && t[1] == '=' {
        2
    } else if t.len() >= 2 && t[0] == '<' && t[1] == '=' {
        2
    } else if t.len() >= 1 && (t[0] == '>' || t[0] == '<' || t[0] == '^' || t[0] == '~' || t[0] == '=') {
        1
    } else {
        0
    }
}

fn token_version_vec(t: &Vec<char>) -> (v: Vec<char>)
    ensures
        v@ == token_version(t@),
{
    let ol = op_len_exec(t);
    let raw = slice_vec(t, ol, t.len());
    assert(raw@ =~= t@.skip(op_len(t@)));
    if raw.len() >= 2 && raw[0] == 'v' && '0' <= raw[1] && raw[1] <= '9' {
        let w = slice_vec(&raw, 1, raw.len());
        assert(w@ =~= raw@.drop_first());
        w
    } else {
        raw
    }
}

/// The dot-separated parts of a bound end in a number that cannot be counted past.
pub open spec fn parts_at_max(parts: Seq<Seq<char>>) -> bool {
    (parts.len() == 1 && parse_u64(parts[0]) == Some(u64::MAX as nat))
    || (parts.len() == 2 && parse_u64(parts[0]) is Some && parse_u64(parts[1]) == Some(u64::MAX as nat))
}

fn parts_at_max_exec(parts: &Vec<Vec<char>>) -> (r: bool)
    ensures
        r == parts_at_max(views(parts@)),
{
    if parts.len() == 1 {
        assert(views(parts@)[0] == parts@[0]@);
        parse_u64_exec(&parts[0]) == Some(u64::MAX)
    } else if parts.len() == 2 {
        assert(views(parts@)[0] == parts@[0]@);
        assert(views(parts@)[1] == parts@[1]@);
        match parse_u64_exec(&parts[0]) {
            Some(_) => parse_u64_exec(&parts[1]) == Some(u64::MAX),
            None => false,
        }
    } else {
        false
    }
}

fn upper_overflows_exec(right: &Vec<char>) -> (r: bool)
    ensures
        r == upper_overflows(right@),
{
    let rc = clean_exec(right);
    let (rv, _rx) = split_dash_exec(&rc);
    let parts = split_on_vec(&rv, '.');
    parts_at_max_exec(&parts)
}

fn token_overflows_exec(t: &Vec<char>) -> (r: bool)
    ensures
        r == token_overflows(t@),
{
    let v = token_version_vec(t);
    let (ver, _extra) = split_dash_exec(&v);
    let parts = split_on_vec(&ver, '.');
    let le = t.len() >= 2 && t[0] == '<' && t[1] == '=';
    op_len_exec(t) > 0 && le && parts_at_max_exec(&parts)
}

/// Executable `clause_overflows`: whether rewriting the clause would count past `u64::MAX`.
pub fn clause_overflows_exec(r: &Vec<char>) -> (b: bool)
    ensures
        b == clause_overflows(r@),
{
    let t = trim_vec(r);
    let sep = to_chars(" - ");
    proof { reveal_strlit(" - "); }
    assert(sep@ =~= hyphen_sep());
    match find_pat(&t, &sep, 0) {
        Some(i) => {
            proof { lemma_find_pat_from(t@, sep@, 0); }
            let tl = t.len();
            if i + 3 > tl {
                assert(false);
            }
            let right = slice_vec(&t, i + 3, tl);
            assert(right@ =~= t@.skip(i + 3));
            upper_overflows_exec(&right)
        },
        None => {
            let pre = close_ops_vec(&t);
            let toks = split_ws_vec(&pre);
            let mut i: usize = 0;
            while i < toks.len()
                invariant
                    i <= toks@.len(),
                    t@ == trim(r@),
                    find_pat_from(t@, hyphen_sep(), 0) is None,
                    views(toks@) == split_ws(close_ops(t@)),
                    forall|k: int| 0 <= k < i ==> !token_overflows(#[trigger] views(toks@)[k]),
                decreases toks@.len() - i,
            {
                assert(views(toks@)[i as int] == toks@[i as int]@);
                if token_overflows_exec(&toks[i]) {
                    assert(token_overflows(toks@[i as int]@));
                    assert(views(toks@)[i as int] == toks@[i as int]@);
                    assert(token_overflows(split_ws(close_ops(t@))[i as int]));
                    assert(0 <= i < split_ws(close_ops(t@)).len());
                    return true;
                }
                i += 1;
            }
            false
        },
    }
}

fn norm_token_vec(t: &Vec<char>) -> (r: Vec<char>)
    requires
        !token_overflows(t@),
    ensures
        r@ == norm_token(t@),
{
    let ol = op_len_exec(t);
    let op = slice_vec(t, 0, ol);
    assert(op@ =~= t@.take(op_len(t@)));
    let v = token_version_vec(t);
    if ol == 0 {
        if is_star_exec(&v) || v.len() == 0 {
            star_vec()
        } else if v.len() >= 2 && v[v.len() - 2] == '.' && (v[v.len() - 1] == 'x' || v[v.len() - 1] == 'X') {
            let mut r = slice_vec(&v, 0, v.len() - 2);
            push_all(&mut r, &['.', '*']);
            r
        } else {
            v
        }
    } else {
        let (ver, _extra) = split_dash_exec(&v);
        let parts = split_on_vec(&ver, '.');
        let le = t.len() >= 2 && t[0] == '<' && t[1] == '=';
        if le && parts.len() == 1 {
            assert(views(parts@)[0] == parts@[0]@);
            if let Some(n) = parse_u64_exec(&parts[0]) {
                let mut r: Vec<char> = Vec::new();
                r.push('<');
                let d = dec_exec(n + 1);
                extend(&mut r, &d);
                push_all(&mut r, &['.', '0', '.', '0']);
                assert(r@ =~= seq!['<'] + dec((n + 1) as nat) + dot_zero() + dot_zero());
                return r;
            }
        } else if le && parts.len() == 2 {
            assert(views(parts@)[0] == parts@[0]@);
            assert(views(parts@)[1] == parts@[1]@);
            if let (Some(m), Some(n)) = (parse_u64_exec(&parts[0]), parse_u64_exec(&parts[1])) {
                let mut r: Vec<char> = Vec::new();
                r.push('<');
                let dm = dec_exec(m);
                extend(&mut r, &dm);
                r.push('.');
                let dn = dec_exec(n + 1);
                extend(&mut r, &dn);
                push_all(&mut r, &['.', '0']);
                assert(r@ =~= seq!['<'] + dec(m as nat) + seq!['.'] + dec((n + 1) as nat) + dot_zero());
                return r;
            }
        }
        proof {
            if parts@.len() == 1 { assert(views(parts@)[0] == parts@[0]@); }
            if parts@.len() == 2 {
                assert(views(parts@)[0] == parts@[0]@);
                assert(views(parts@)[1] == parts@[1]@);
            }
        }
        let nv = norm_version_vec(&v);
        let mut r = op;
        extend(&mut r, &nv);
        r
    }
}

fn close_ops_vec(t: &Vec<char>) -> (r: Vec<char>)
    ensures
        r@ == close_ops(t@),
{
    proof {
        reveal_strlit(">= ");
        reveal_strlit(">=");
        reveal_strlit("<= ");
        reveal_strlit("<=");
        reveal_strlit("> ");
        reveal_strlit(">");
        reveal_strlit("< ");
        reveal_strlit("<");
        reveal_strlit("^ ");
        reveal_strlit("^");
        reveal_strlit("~ ");
        reveal_strlit("~");
        reveal_strlit("= ");
        reveal_strlit("=");
    }
    assert(">= "@ =~= seq!['>', '=', ' ']);
    assert(">="@ =~= seq!['>', '=']);
    assert("<= "@ =~= seq!['<', '=', ' ']);
    assert("<="@ =~= seq!['<', '=']);
    assert("> "@ =~= seq!['>', ' ']);
    assert(">"@ =~= seq!['>']);
    assert("< "@ =~= seq!['<', ' ']);
    assert("<"@ =~= seq!['<']);
    assert("^ "@ =~= seq!['^', ' ']);
    assert("^"@ =~= seq!['^']);
    assert("~ "@ =~= seq!['~', ' ']);
    assert("~"@ =~= seq!['~']);
    assert("= "@ =~= seq!['=', ' ']);
    assert("="@ =~= seq!['=']);
    let a = replace_vec(t, ">= ", ">=");
    let a = replace_vec(&a, "<= ", "<=");
    let a = replace_vec(&a, "> ", ">");
    let a = replace_vec(&a, "< ", "<");
    let a = replace_vec(&a, "^ ", "^");
    let a = replace_vec(&a, "~ ", "~");
    replace_vec(&a, "= ", "=")
}

pub(crate) fn norm_clause_vec(r: &Vec<char>) -> (out: Vec<char>)
    requires
        !clause_overflows(r@),
    ensures
        out@ == norm_clause(r@),
{
    let t = trim_vec(r);
    let sep = to_chars(" - ");
    proof { reveal_strlit(" - "); }
    assert(sep@ =~= hyphen_sep());
    match find_pat(&t, &sep, 0) {
        Some(i) => {
            proof { lemma_find_pat_from(t@, sep@, 0); }
            assert(occurs_at(t@, sep@, i as int));
            let tl = t.len();
            let left = slice_vec(&t, 0, i);
            let right = slice_vec(&t, i + 3, tl);
            assert(left@ =~= t@.take(i as int));
            assert(right@ =~= t@.skip(i + 3));
            norm_hyphen_vec(&left, &right)
        },
        None => {
            let pre = close_ops_vec(&t);
            let toks = split_ws_vec(&pre);
            let mut mapped: Vec<Vec<char>> = Vec::new();
            let mut i: usize = 0;
            while i < toks.len()
                invariant
                    i <= toks@.len(),
                    views(toks@) == split_ws(close_ops(t@)),
                    forall|k: int| 0 <= k < toks@.len() ==> !token_overflows(#[trigger] views(toks@)[k]),
                    mapped@.len() == i,
                    forall|k: int| 0 <= k < i ==> #[trigger] mapped@[k]@ == norm_token(toks@[k]@),
                decreases toks@.len() - i,
            {
                assert(views(toks@)[i as int] == toks@[i as int]@);
                mapped.push(norm_token_vec(&toks[i]));
                i += 1;
            }
            assert(views(mapped@) =~= views(toks@).map_values(|tok: Seq<char>| norm_token(tok)));
            let out = join_vec(&mapped, ",");
            proof { reveal_strlit(","); }
            assert(","@ =~= seq![',']);
            out
        },
    }
}

/// `normalize_npm_semver_clause`: see `norm_clause`.
pub fn normalize_npm_semver_clause(r: &str) -> (out: String)
    requires
        !clause_overflows(r@),
    ensures
        out@ == norm_clause(r@),
{
    let rv = to_chars(r);
    let o = norm_clause_vec(&rv);
    string_of_all(&o)
}

} // verus!

verus! {

/// No whitespace and no `=` in the text.
pub open spec fn plain(s: Seq<char>) -> bool {
    forall|i: int| 0 <= i < s.len() ==> !is_ws(#[trigger] s[i]) && s[i] != '='
}

/// The char does not occur in the text.
pub open spec fn lacks(s: Seq<char>, c: char) -> bool {
    forall|i: int| 0 <= i < s.len() ==> #[trigger] s[i] != c
}

proof fn lemma_strip_leading(s: Seq<char>, c: char) -> (k: int)
    ensures
        0 <= k <= s.len(),
        strip_leading(s, c) == s.skip(k),
        strip_leading(s, c).len() > 0 ==> strip_leading(s, c)[0] != c,
    decreases s.len(),
{
    if s.len() > 0 && s[0] == c {
        let k = lemma_strip_leading(s.drop_first(), c);
        assert(s.drop_first().skip(k) =~= s.skip(k + 1));
        k + 1
    } else {
        assert(s.skip(0) =~= s);
        0
    }
}

proof fn lemma_clean_plain(v: Seq<char>)
    requires
        plain(v),
    ensures
        plain(clean(v)),
        clean(v).len() > 0 ==> clean(v)[0] != 'v',
{
    assert(trim_start(v) == v);
    assert(trim_end(v) == v);
    let k = lemma_strip_leading(v, 'v');
    let s1 = strip_leading(v, 'v');
    assert forall|i: int| 0 <= i < s1.len() implies !is_ws(#[trigger] s1[i]) && s1[i] != '=' by {
        assert(s1[i] == v[i + k]);
    }
    assert(strip_leading(s1, '=') == s1);
}

proof fn lemma_clean_id(w: Seq<char>)
    requires
        plain(w),
        w.len() > 0 ==> w[0] != 'v',
    ensures
        clean(w) == w,
{
    assert(trim_start(w) == w);
    assert(trim_end(w) == w);
    assert(strip_leading(w, 'v') == w);
    assert(strip_leading(w, '=') == w);
}

proof fn lemma_split_dash(c: Seq<char>)
    ensures
        split_dash(c).0 + split_dash(c).1 == c,
        lacks(split_dash(c).0, '-'),
        split_dash(c).1.len() > 0 ==> split_dash(c).1[0] == '-',
{
    lemma_first_from(c, 0, '-');
    match first_from(c, 0, '-') {
        Some(i) => { assert(c.take(i) + c.skip(i) =~= c); },
        None => { assert(c + Seq::<char>::empty() =~= c); },
    }
}

proof fn lemma_split_dash_of(a: Seq<char>, b: Seq<char>)
    requires
        lacks(a, '-'),
        b.len() == 0 || b[0] == '-',
    ensures
        split_dash(a + b) == (a, b),
{
    let s = a + b;
    lemma_first_from(s, 0, '-');
    if b.len() == 0 {
        assert(s =~= a);
        assert(forall|j: int| 0 <= j < s.len() ==> s[j] == a[j]);
    } else {
        assert(s[a.len() as int] == '-');
        assert(forall|j: int| 0 <= j < a.len() ==> s[j] == a[j]);
        assert(s.take(a.len() as int) =~= a);
        assert(s.skip(a.len() as int) =~= b);
    }
}

proof fn lemma_split_on_single(s: Seq<char>)
    requires
        lacks(s, '.'),
    ensures
        split_on(s, '.') == seq![s],
{
    lemma_first_from(s, 0, '.');
}

proof fn lemma_split_on_cons(a: Seq<char>, b: Seq<char>)
    requires
        lacks(a, '.'),
    ensures
        split_on(a + seq!['.'] + b, '.') == seq![a] + split_on(b, '.'),
{
    let s = a + seq!['.'] + b;
    lemma_first_from(s, 0, '.');
    assert(s[a.len() as int] == '.');
    assert(forall|j: int| 0 <= j < a.len() ==> s[j] == a[j]);
    assert(s.take(a.len() as int) =~= a);
    assert(s.skip(a.len() as int + 1) =~= b);
}

/// The pieces of a split hold no `.`, keep every property that all chars of the text have,
/// and the first is a prefix of the text.
proof fn lemma_split_on_facts(s: Seq<char>, p: spec_fn(char) -> bool)
    requires
        forall|m: int| 0 <= m < s.len() ==> p(#[trigger] s[m]),
    ensures
        split_on(s, '.').len() >= 1,
        forall|k: int, j: int| 0 <= k < split_on(s, '.').len() && 0 <= j < split_on(s, '.')[k].len()
            ==> #[trigger] split_on(s, '.')[k][j] != '.' && p(split_on(s, '.')[k][j]),
        split_on(s, '.')[0].len() <= s.len(),
        s.take(split_on(s, '.')[0].len() as int) == split_on(s, '.')[0],
    decreases s.len(),
{
    lemma_first_from(s, 0, '.');
    match first_from(s, 0, '.') {
        Some(i) => {
            let rest = s.skip(i + 1);
            assert forall|m: int| 0 <= m < rest.len() implies p(#[trigger] rest[m]) by {
                assert(rest[m] == s[m + i + 1]);
            }
            lemma_split_on_facts(rest, p);
            let parts = split_on(s, '.');
            assert(parts == seq![s.take(i)] + split_on(rest, '.'));
            assert forall|k: int, j: int| 0 <= k < parts.len() && 0 <= j < parts[k].len()
                implies #[trigger] parts[k][j] != '.' && p(parts[k][j]) by {
                if k == 0 {
                    assert(parts[0][j] == s[j]);
                } else {
                    assert(parts[k] == split_on(rest, '.')[k - 1]);
                }
            }
            assert(s.take(i).len() == i);
        },
        None => {
            assert(s.take(s.len() as int) =~= s);
        },
    }
}

proof fn lemma_join_cons(qs: Seq<Seq<char>>, sep: Seq<char>)
    requires
        qs.len() >= 2,
    ensures
        join(qs, sep) == qs[0] + sep + join(qs.drop_first(), sep),
    decreases qs.len(),
{
    if qs.len() == 2 {
        assert(qs.drop_last().len() == 1);
        assert(join(qs.drop_last(), sep) == qs[0]);
        assert(qs.drop_first().len() == 1);
        assert(join(qs.drop_first(), sep) == qs[1]);
        assert(qs.last() == qs[1]);
        assert(join(qs, sep) == qs[0] + sep + qs[1]);
    } else {
        lemma_join_cons(qs.drop_last(), sep);
        let r = qs.drop_first();
        assert(qs.drop_last().drop_first() =~= r.drop_last());
        assert(r.last() == qs.last());
        assert(qs.drop_last()[0] == qs[0]);
        let j = join(r.drop_last(), sep);
        assert(join(r, sep) == j + sep + qs.last());
        assert(join(qs, sep) == (qs[0] + sep + j) + sep + qs.last());
        assert((qs[0] + sep + j) + sep + qs.last() =~= qs[0] + sep + (j + sep + qs.last()));
    }
}

proof fn lemma_split_join(qs: Seq<Seq<char>>)
    requires
        qs.len() >= 1,
        forall|k: int| 0 <= k < qs.len() ==> lacks(#[trigger] qs[k], '.'),
    ensures
        split_on(join(qs, seq!['.']), '.') == qs,
    decreases qs.len(),
{
    if qs.len() == 1 {
        lemma_split_on_single(qs[0]);
        assert(seq![qs[0]] =~= qs);
    } else {
        lemma_join_cons(qs, seq!['.']);
        assert(lacks(qs[0], '.'));
        lemma_split_join(qs.drop_first());
        lemma_split_on_cons(qs[0], join(qs.drop_first(), seq!['.']));
        assert(seq![qs[0]] + qs.drop_first() =~= qs);
    }
}

proof fn lemma_join_chars(qs: Seq<Seq<char>>, sep: Seq<char>, p: spec_fn(char) -> bool)
    requires
        forall|k: int, j: int| 0 <= k < qs.len() && 0 <= j < qs[k].len() ==> p(#[trigger] qs[k][j]),
        forall|j: int| 0 <= j < sep.len() ==> p(#[trigger] sep[j]),
    ensures
        forall|j: int| 0 <= j < join(qs, sep).len() ==> p(#[trigger] join(qs, sep)[j]),
    decreases qs.len(),
{
    if qs.len() >= 2 {
        lemma_join_chars(qs.drop_last(), sep, p);
        let a = join(qs.drop_last(), sep);
        let l = qs.last();
        assert(forall|j: int| 0 <= j < l.len() ==> p(#[trigger] l[j]) ) by {
            assert forall|j: int| 0 <= j < l.len() implies p(#[trigger] l[j]) by {
                assert(l[j] == qs[qs.len() - 1][j]);
            }
        }
        assert forall|j: int| 0 <= j < join(qs, sep).len() implies p(#[trigger] join(qs, sep)[j]) by {
            if j < a.len() {
                assert(join(qs, sep)[j] == a[j]);
            } else if j < a.len() + sep.len() {
                assert(join(qs, sep)[j] == sep[j - a.len()]);
            } else {
                assert(join(qs, sep)[j] == l[j - a.len() - sep.len()]);
            }
        }
    } else if qs.len() == 1 {
        assert forall|j: int| 0 <= j < join(qs, sep).len() implies p(#[trigger] join(qs, sep)[j]) by {
            assert(join(qs, sep)[j] == qs[0][j]);
        }
    }
}


/// A char that may stand in a version part: no whitespace, no `=`, no `-`.
pub open spec fn part_char(ch: char) -> bool {
    !is_ws(ch) && ch != '=' && ch != '-'
}

proof fn lemma_star_plain()
    ensures
        plain(star()),
        clean(star()) == star(),
{
    lemma_clean_id(star());
}

proof fn lemma_join3(x: Seq<char>, y: Seq<char>, z: Seq<char>)
    ensures
        join(seq![x, y, z], seq!['.']) == x + seq!['.'] + y + seq!['.'] + z,
{
    let qs = seq![x, y, z];
    lemma_join_cons(qs, seq!['.']);
    assert(qs.drop_first() =~= seq![y, z]);
    lemma_join_cons(seq![y, z], seq!['.']);
    assert(seq![y, z].drop_first() =~= seq![z]);
    assert(x + seq!['.'] + (y + seq!['.'] + z) =~= x + seq!['.'] + y + seq!['.'] + z);
}

/// A version made of three or more normalized parts and a pre-release tail normalizes to
/// itself.
proof fn lemma_norm_parts_fixed(qs: Seq<Seq<char>>, extra: Seq<char>)
    requires
        qs.len() >= 3,
        forall|k: int| 0 <= k < qs.len() ==> lacks(#[trigger] qs[k], '.'),
        forall|k: int| 0 <= k < qs.len() ==> star_or(#[trigger] qs[k]) == qs[k],
        forall|k: int, j: int| 0 <= k < qs.len() && 0 <= j < qs[k].len() ==> part_char(#[trigger] qs[k][j]),
        qs[0].len() > 0 ==> qs[0][0] != 'v',
        plain(extra),
        extra.len() == 0 || extra[0] == '-',
    ensures
        norm_version(join(qs, seq!['.']) + extra) == join(qs, seq!['.']) + extra,
{
    let jn = join(qs, seq!['.']);
    let w = jn + extra;
    lemma_join_chars(qs, seq!['.'], |ch: char| part_char(ch));
    lemma_split_join(qs);
    lemma_join_cons(qs, seq!['.']);
    lemma_join_cons(qs.drop_first(), seq!['.']);
    assert(jn.len() >= 2);
    assert(lacks(jn, '-'));
    lemma_split_dash_of(jn, extra);
    assert(plain(w)) by {
        assert forall|i: int| 0 <= i < w.len() implies !is_ws(#[trigger] w[i]) && w[i] != '=' by {
            if i >= jn.len() {
                assert(w[i] == extra[i - jn.len()]);
            } else {
                assert(w[i] == jn[i]);
                assert(part_char(jn[i]));
            }
        }
    }
    assert(jn[0] != 'v') by {
        if qs[0].len() > 0 {
            assert(jn[0] == qs[0][0]);
        } else {
            assert(jn[0] == '.');
        }
    }
    assert(w[0] == jn[0]);
    lemma_clean_id(w);
    assert(!is_star(w));
    assert(qs.map_values(|q: Seq<char>| star_or(q)) =~= qs);
}

/// `p.*` normalizes to itself.
proof fn lemma_norm_star_tail(p0: Seq<char>)
    requires
        lacks(p0, '.'),
        forall|j: int| 0 <= j < p0.len() ==> part_char(#[trigger] p0[j]),
        !is_star(p0),
        p0.len() > 0 ==> p0[0] != 'v',
    ensures
        norm_version(p0 + seq!['.', '*']) == p0 + seq!['.', '*'],
{
    let w = p0 + seq!['.', '*'];
    assert(w =~= p0 + seq!['.'] + seq!['*']);
    lemma_split_on_cons(p0, seq!['*']);
    lemma_split_on_single(seq!['*']);
    assert(lacks(w, '-'));
    lemma_split_dash_of(w, Seq::empty());
    assert(w + Seq::<char>::empty() =~= w);
    assert(plain(w));
    assert(w[0] != 'v');
    lemma_clean_id(w);
    assert(split_on(w, '.') =~= seq![p0, seq!['*']]);
    assert(!is_star(w));
}

/// Normalizing a version a second time changes nothing, for a version written without
/// whitespace or `=` (stated as a law in `laws`).
pub(crate) proof fn lemma_norm_idempotent(v: Seq<char>)
    requires
        plain(v),
    ensures
        norm_version(norm_version(v)) == norm_version(v),
{
    lemma_clean_plain(v);
    lemma_star_plain();
    let c = clean(v);
    let w = norm_version(v);
    if w == c {
        lemma_clean_id(c);
        return;
    }
    if w == star() {
        return;
    }
    lemma_split_dash(c);
    let ver = split_dash(c).0;
    let extra = split_dash(c).1;
    assert(forall|i: int| 0 <= i < ver.len() ==> #[trigger] ver[i] == c[i]);
    assert(forall|i: int| 0 <= i < extra.len() ==> #[trigger] extra[i] == c[i + ver.len()]);
    assert(plain(extra));
    assert(forall|m: int| 0 <= m < ver.len() ==> part_char(#[trigger] ver[m]));
    lemma_split_on_facts(ver, |ch: char| part_char(ch));
    let parts = split_on(ver, '.');
    let p0 = parts[0];
    assert(p0.len() > 0 ==> p0[0] == ver[0]);
    assert(forall|j: int| 0 <= j < p0.len() ==> part_char(#[trigger] p0[j]) && p0[j] != '.');
    let zero = seq!['0'];
    assert(!is_star(zero)) by {
        assert(zero[0] == '0');
        assert(seq!['*'][0] == '*');
        assert(seq!['x'][0] == 'x');
        assert(seq!['X'][0] == 'X');
    }
    if parts.len() == 1 {
        assert(!is_star(p0) && all_digits(p0));
        lemma_join3(p0, zero, zero);
        assert(w =~= join(seq![p0, zero, zero], seq!['.']) + extra);
        let qs = seq![p0, zero, zero];
        assert(forall|k: int| 0 <= k < 3 ==> star_or(#[trigger] qs[k]) == qs[k]);
        lemma_norm_parts_fixed(qs, extra);
    } else if parts.len() == 2 {
        let q0 = star_or(parts[0]);
        let q1 = star_or(parts[1]);
        let p1 = parts[1];
        assert(forall|j: int| 0 <= j < p1.len() ==> part_char(#[trigger] p1[j]) && p1[j] != '.');
        if q1 == star() {
            assert(q0 == p0);
            lemma_norm_star_tail(p0);
        } else {
            assert(all_digits(q0) && all_digits(q1));
            assert(!is_star(p0));
            assert(!is_star(p1));
            lemma_join3(p0, p1, zero);
            assert(w =~= join(seq![p0, p1, zero], seq!['.']) + extra);
            let qs = seq![p0, p1, zero];
            assert(forall|k: int| 0 <= k < 3 ==> star_or(#[trigger] qs[k]) == qs[k]);
            lemma_norm_parts_fixed(qs, extra);
        }
    } else {
        let qs = parts.map_values(|q: Seq<char>| star_or(q));
        assert forall|k: int| 0 <= k < qs.len() implies lacks(#[trigger] qs[k], '.') by {
            assert forall|j: int| 0 <= j < qs[k].len() implies #[trigger] qs[k][j] != '.' by {
                if !is_star(parts[k]) { assert(qs[k][j] == parts[k][j]); }
            }
        }
        assert forall|k: int, j: int| 0 <= k < qs.len() && 0 <= j < qs[k].len()
            implies part_char(#[trigger] qs[k][j]) by {
            if !is_star(parts[k]) { assert(qs[k][j] == parts[k][j]); }
        }
        assert(qs[0].len() > 0 ==> qs[0][0] != 'v') by {
            if !is_star(p0) { assert(qs[0] == p0); }
        }
        lemma_norm_parts_fixed(qs, extra);
    }
}
} // verus!
