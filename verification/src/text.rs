//! Literal substring search and replacement over `&str` / `String`,
//! verified against character-sequence specifications.

use vstd::prelude::*;

verus! {

use vstd::string::StrSliceExecFns;
use vstd::string::StringExecFns;

/// `p` occurs in `t` starting at index `i`.
pub open spec fn match_at(t: Seq<char>, p: Seq<char>, i: int) -> bool {
    0 <= i && i + p.len() <= t.len() && t.subrange(i, i + p.len()) == p
}

/// `p` occurs somewhere in `t`.
pub open spec fn has_sub(t: Seq<char>, p: Seq<char>) -> bool {
    exists|j: int| match_at(t, p, j)
}

/// Index of the first occurrence of `p` in `t` at or after `i`, if any.
pub open spec fn first_occ_from(t: Seq<char>, p: Seq<char>, i: int) -> Option<int>
    decreases t.len() - i + 1 when 0 <= i
{
    if i + p.len() > t.len() {
        None
    } else if match_at(t, p, i) {
        Some(i)
    } else {
        first_occ_from(t, p, i + 1)
    }
}

/// `t` with every occurrence of `p` replaced by `to`, scanning left to
/// right and never rescanning replacement text. An empty pattern
/// replaces nothing.
pub open spec fn spec_replace(t: Seq<char>, p: Seq<char>, to: Seq<char>) -> Seq<char>
    decreases t.len()
{
    if p.len() == 0 {
        t
    } else {
        match first_occ_from(t, p, 0) {
            None => t,
            Some(i) => if 0 <= i && i + p.len() <= t.len() {
                t.subrange(0, i) + to + spec_replace(t.subrange(i + p.len(), t.len() as int), p, to)
            } else {
                t
            },
        }
    }
}

/// A `Some` answer of `first_occ_from` is a match, lies at or after the
/// start index, and is the leftmost match from there.
pub proof fn lemma_first_occ_from_some(t: Seq<char>, p: Seq<char>, i: int, j: int)
    requires
        0 <= i,
        first_occ_from(t, p, i) == Some(j),
    ensures
        i <= j,
        match_at(t, p, j),
        forall|k: int| i <= k < j ==> !match_at(t, p, k),
    decreases t.len() - i + 1,
{
    if i + p.len() > t.len() {
    } else if match_at(t, p, i) {
    } else {
        lemma_first_occ_from_some(t, p, i + 1, j);
    }
}

/// A `None` answer of `first_occ_from` means no match at or after the
/// start index.
pub proof fn lemma_first_occ_from_none(t: Seq<char>, p: Seq<char>, i: int)
    requires
        0 <= i,
        first_occ_from(t, p, i) is None,
    ensures
        forall|k: int| i <= k ==> !match_at(t, p, k),
    decreases t.len() - i + 1,
{
    if i + p.len() > t.len() {
        assert forall|k: int| i <= k implies !match_at(t, p, k) by {
            if match_at(t, p, k) {
                assert(k + p.len() <= t.len());
            }
        }
    } else if match_at(t, p, i) {
    } else {
        lemma_first_occ_from_none(t, p, i + 1);
    }
}

/// `has_sub` agrees with `first_occ_from` started at zero.
pub proof fn lemma_has_sub_iff_first_occ(t: Seq<char>, p: Seq<char>)
    ensures
        has_sub(t, p) <==> first_occ_from(t, p, 0) is Some,
{
    match first_occ_from(t, p, 0) {
        None => {
            lemma_first_occ_from_none(t, p, 0);
            assert forall|j: int| !match_at(t, p, j) by {
                if j < 0 {
                } else {
                    assert(!match_at(t, p, j));
                }
            }
        },
        Some(j) => {
            lemma_first_occ_from_some(t, p, 0, j);
        },
    }
}

/// Replacing a pattern that does not occur leaves the text unchanged.
pub proof fn lemma_replace_absent(t: Seq<char>, p: Seq<char>, to: Seq<char>)
    requires
        !has_sub(t, p),
    ensures
        spec_replace(t, p, to) == t,
{
    if p.len() == 0 {
        assert(t.subrange(0, 0) =~= p);
        assert(match_at(t, p, 0));
    } else {
        lemma_has_sub_iff_first_occ(t, p);
    }
}

/// A match of a pattern contains, at the right offset, a match of any
/// part of that pattern.
pub proof fn lemma_match_within(t: Seq<char>, p: Seq<char>, q: Seq<char>, i: int, k: int)
    requires
        match_at(t, p, i),
        match_at(p, q, k),
    ensures
        match_at(t, q, i + k),
{
    assert(t.subrange(i + k, i + k + q.len()) =~= t.subrange(i, i + p.len()).subrange(
        k,
        k + q.len(),
    ));
}

/// Text containing a pattern contains every part of that pattern.
pub proof fn lemma_has_sub_within(t: Seq<char>, p: Seq<char>, q: Seq<char>)
    requires
        has_sub(t, p),
        exists|k: int| match_at(p, q, k),
    ensures
        has_sub(t, q),
{
    let i = choose|i: int| match_at(t, p, i);
    let k = choose|k: int| match_at(p, q, k);
    lemma_match_within(t, p, q, i, k);
}

/// An occurrence in either part of a concatenation is an occurrence in
/// the whole.
pub proof fn lemma_has_sub_concat(a: Seq<char>, b: Seq<char>, p: Seq<char>)
    ensures
        has_sub(a, p) ==> has_sub(a + b, p),
        has_sub(b, p) ==> has_sub(a + b, p),
{
    if has_sub(a, p) {
        let i = choose|i: int| match_at(a, p, i);
        assert((a + b).subrange(i, i + p.len()) =~= a.subrange(i, i + p.len()));
        assert(match_at(a + b, p, i));
    }
    if has_sub(b, p) {
        let i = choose|i: int| match_at(b, p, i);
        assert((a + b).subrange(a.len() + i, a.len() + i + p.len()) =~= b.subrange(
            i,
            i + p.len(),
        ));
        assert(match_at(a + b, p, a.len() + i));
    }
}

/// If the replacement text itself contains `q`, then replacing an
/// occurring pattern leaves an occurrence of `q` behind.
pub proof fn lemma_replace_keeps_sub(t: Seq<char>, p: Seq<char>, to: Seq<char>, q: Seq<char>)
    requires
        p.len() > 0,
        has_sub(t, p),
        has_sub(to, q),
    ensures
        has_sub(spec_replace(t, p, to), q),
{
    lemma_has_sub_iff_first_occ(t, p);
    let i = first_occ_from(t, p, 0)->Some_0;
    lemma_first_occ_from_some(t, p, 0, i);
    let tail = spec_replace(t.subrange(i + p.len(), t.len() as int), p, to);
    lemma_has_sub_concat(to, tail, q);
    lemma_has_sub_concat(t.subrange(0, i), to + tail, q);
    assert(t.subrange(0, i) + to + tail =~= t.subrange(0, i) + (to + tail));
}

/// Replacing the whole text by a pattern equal to it yields exactly the
/// replacement.
pub proof fn lemma_replace_whole(p: Seq<char>, to: Seq<char>)
    requires
        p.len() > 0,
    ensures
        spec_replace(p, p, to) == to,
{
    assert(p.subrange(0, p.len() as int) =~= p);
    assert(match_at(p, p, 0));
    let rest = p.subrange(p.len() as int, p.len() as int);
    assert(rest =~= Seq::<char>::empty());
    assert(first_occ_from(rest, p, 0) is None);
    assert(spec_replace(rest, p, to) =~= rest);
    assert(p.subrange(0, 0) + to + rest =~= to);
}

/// ASCII uppercase of one character: `a` to `z` move to `A` to `Z`,
/// everything else stays.
pub open spec fn spec_upper_char(c: char) -> char {
    if 97 <= c as u32 && c as u32 <= 122 {
        ((c as u32) - 32) as char
    } else {
        c
    }
}

/// ASCII lowercase of one character: `A` to `Z` move to `a` to `z`,
/// everything else stays.
pub open spec fn spec_lower_char(c: char) -> char {
    if 65 <= c as u32 && c as u32 <= 90 {
        ((c as u32) + 32) as char
    } else {
        c
    }
}

/// `s` with every ASCII letter uppercased.
pub open spec fn spec_upper(s: Seq<char>) -> Seq<char> {
    s.map_values(|c: char| spec_upper_char(c))
}

/// `s` with every ASCII letter lowercased.
pub open spec fn spec_lower(s: Seq<char>) -> Seq<char> {
    s.map_values(|c: char| spec_lower_char(c))
}

/// The characters of Unicode's White_Space class, the class that
/// `str::trim` strips.
pub open spec fn spec_is_space(c: char) -> bool {
    let u = c as u32;
    u == 0x20 || (0x9 <= u && u <= 0xD) || u == 0x85 || u == 0xA0 || u == 0x1680 || (0x2000 <= u
        && u <= 0x200A) || u == 0x2028 || u == 0x2029 || u == 0x202F || u == 0x205F || u == 0x3000
}

/// `s` without its leading run of whitespace.
pub open spec fn spec_trim_start(s: Seq<char>) -> Seq<char>
    decreases s.len(),
{
    if s.len() > 0 && spec_is_space(s[0]) {
        spec_trim_start(s.drop_first())
    } else {
        s
    }
}

/// `s` without its trailing run of whitespace.
pub open spec fn spec_trim_end(s: Seq<char>) -> Seq<char>
    decreases s.len(),
{
    if s.len() > 0 && spec_is_space(s.last()) {
        spec_trim_end(s.drop_last())
    } else {
        s
    }
}

/// `s` without leading and trailing whitespace.
pub open spec fn spec_trim(s: Seq<char>) -> Seq<char> {
    spec_trim_end(spec_trim_start(s))
}

/// What `spec_trim_start` leaves: a suffix of the text whose head is
/// not whitespace.
pub proof fn lemma_trim_start_shape(s: Seq<char>)
    ensures
        spec_trim_start(s).len() <= s.len(),
        spec_trim_start(s) == s.subrange(s.len() - spec_trim_start(s).len(), s.len() as int),
        spec_trim_start(s).len() > 0 ==> !spec_is_space(spec_trim_start(s)[0]),
    decreases s.len(),
{
    if s.len() > 0 && spec_is_space(s[0]) {
        lemma_trim_start_shape(s.drop_first());
        let r = spec_trim_start(s);
        assert(s.drop_first().subrange(
            s.drop_first().len() - r.len(),
            s.drop_first().len() as int,
        ) =~= s.subrange(s.len() - r.len(), s.len() as int));
    } else {
        assert(s.subrange(0, s.len() as int) =~= s);
    }
}

/// What `spec_trim_end` leaves: a prefix of the text whose last
/// character is not whitespace.
pub proof fn lemma_trim_end_shape(s: Seq<char>)
    ensures
        spec_trim_end(s).len() <= s.len(),
        spec_trim_end(s) == s.subrange(0, spec_trim_end(s).len() as int),
        spec_trim_end(s).len() > 0 ==> !spec_is_space(spec_trim_end(s).last()),
    decreases s.len(),
{
    if s.len() > 0 && spec_is_space(s.last()) {
        lemma_trim_end_shape(s.drop_last());
        assert(s.drop_last().subrange(0, spec_trim_end(s).len() as int) =~= s.subrange(
            0,
            spec_trim_end(s).len() as int,
        ));
    } else {
        assert(s.subrange(0, s.len() as int) =~= s);
    }
}

/// Law: trimming already-trimmed text changes nothing.
pub proof fn lemma_trim_idempotent(s: Seq<char>)
    ensures
        spec_trim(spec_trim(s)) == spec_trim(s),
{
    let t = spec_trim_start(s);
    let u = spec_trim_end(t);
    lemma_trim_start_shape(s);
    lemma_trim_end_shape(t);
    if u.len() > 0 {
        assert(u[0] == t[0]);
        assert(!spec_is_space(u[0]));
        assert(spec_trim_start(u) == u);
        assert(spec_trim_end(u) == u);
    } else {
        assert(spec_trim_start(u) == u);
        assert(spec_trim_end(u) == u);
    }
}

/// Law: ASCII uppercasing is idempotent.
pub proof fn lemma_upper_idempotent(s: Seq<char>)
    ensures
        spec_upper(spec_upper(s)) == spec_upper(s),
{
    assert forall|i: int| 0 <= i < s.len() implies spec_upper(spec_upper(s))[i] == spec_upper(
        s,
    )[i] by {
        let c = s[i];
        if 97 <= c as u32 && c as u32 <= 122 {
            let u = (c as u32) - 32;
            assert((u as char) as u32 == u);
        }
    }
    assert(spec_upper(spec_upper(s)) =~= spec_upper(s));
}

/// Uppercasing commutes with taking a part of the text.
proof fn lemma_upper_subrange(s: Seq<char>, a: int, b: int)
    requires
        0 <= a <= b <= s.len(),
    ensures
        spec_upper(s).subrange(a, b) == spec_upper(s.subrange(a, b)),
{
    assert(spec_upper(s).subrange(a, b) =~= spec_upper(s.subrange(a, b)));
}

/// Law: the normalizer's verified preparation — uppercase, then trim —
/// is idempotent: applied to its own output it changes nothing.
pub proof fn lemma_upper_trim_idempotent(s: Seq<char>)
    ensures
        spec_trim(spec_upper(spec_trim(spec_upper(s)))) == spec_trim(spec_upper(s)),
{
    let up = spec_upper(s);
    let t = spec_trim_start(up);
    let n = spec_trim(up);
    lemma_trim_start_shape(up);
    lemma_trim_end_shape(t);
    let a = up.len() - t.len();
    assert(n =~= up.subrange(a, a + n.len()));
    lemma_upper_idempotent(s);
    lemma_upper_subrange(up, a, a + n.len());
    assert(spec_upper(n) =~= n);
    lemma_trim_idempotent(up);
}

/// Relies on str::to_ascii_uppercase: every ASCII letter is mapped to
/// its uppercase form, every other character is left unchanged.
#[verifier::external_body]
pub fn to_ascii_upper(s: &str) -> (r: String)
    ensures
        r@ == spec_upper(s@),
{
    s.to_ascii_uppercase()
}

/// Relies on str::to_ascii_lowercase: every ASCII letter is mapped to
/// its lowercase form, every other character is left unchanged.
#[verifier::external_body]
pub fn to_ascii_lower(s: &str) -> (r: String)
    ensures
        r@ == spec_lower(s@),
{
    s.to_ascii_lowercase()
}

/// Relies on str::trim: leading and trailing characters of Unicode's
/// White_Space class are removed, nothing else changes.
#[verifier::external_body]
pub fn trim_spaces(s: &str) -> (r: String)
    ensures
        r@ == spec_trim(s@),
{
    s.trim().to_owned()
}

/// Whether `p` occurs in `t` starting at position `i`.
fn matches_at_exec(t: &str, p: &str, i: usize) -> (r: bool)
    requires
        i + p@.len() <= t@.len(),
        t@.len() <= usize::MAX,
    ensures
        r == match_at(t@, p@, i as int),
{
    let pl = p.unicode_len();
    let mut j: usize = 0;
    while j < pl
        invariant
            j <= pl,
            pl == p@.len(),
            i + pl <= t@.len() <= usize::MAX,
            forall|k: int| 0 <= k < j ==> t@[i + k] == p@[k],
        decreases pl - j,
    {
        if t.get_char(i + j) != p.get_char(j) {
            assert(!match_at(t@, p@, i as int)) by {
                if t@.subrange(i as int, i + p@.len()) == p@ {
                    assert(t@.subrange(i as int, i + p@.len())[j as int] == t@[i + j]);
                }
            }
            return false;
        }
        j = j + 1;
    }
    assert(t@.subrange(i as int, i + p@.len()) =~= p@);
    true
}

/// Index of the first occurrence of `p` in `t`, in characters, if any.
pub fn str_index_of(t: &str, p: &str) -> (r: Option<usize>)
    ensures
        match r {
            Some(i) => first_occ_from(t@, p@, 0) == Some(i as int),
            None => first_occ_from(t@, p@, 0) is None,
        },
{
    let tl = t.unicode_len();
    let pl = p.unicode_len();
    if pl > tl {
        return None;
    }
    if pl == 0 {
        proof {
            assert(t@.subrange(0, 0) =~= p@);
        }
        return Some(0);
    }
    let mut i: usize = 0;
    while i <= tl - pl
        invariant
            0 <= i <= tl - pl + 1,
            1 <= pl <= tl,
            tl == t@.len(),
            pl == p@.len(),
            first_occ_from(t@, p@, 0) == first_occ_from(t@, p@, i as int),
        decreases tl - i,
    {
        if matches_at_exec(t, p, i) {
            return Some(i);
        }
        i = i + 1;
    }
    None
}

/// Whether `p` occurs anywhere in `t`.
pub fn contains_literal(t: &str, p: &str) -> (r: bool)
    ensures
        r == has_sub(t@, p@),
{
    proof {
        lemma_has_sub_iff_first_occ(t@, p@);
    }
    match str_index_of(t, p) {
        Some(_) => true,
        None => false,
    }
}

/// Whether two string slices hold the same characters.
pub fn str_eq_str(a: &str, b: &str) -> (r: bool)
    ensures
        r == (a@ == b@),
{
    let al = a.unicode_len();
    let bl = b.unicode_len();
    if al != bl {
        return false;
    }
    let r = matches_at_exec(b, a, 0);
    proof {
        if r {
            assert(b@.subrange(0, a@.len() as int) =~= b@);
        } else {
            if a@ == b@ {
                assert(b@.subrange(0, a@.len() as int) =~= b@);
            }
        }
    }
    r
}

/// Whether `t` ends in `p`.
pub fn ends_with_literal(t: &str, p: &str) -> (r: bool)
    ensures
        r == (p@.len() <= t@.len() && match_at(t@, p@, t@.len() - p@.len())),
{
    let tl = t.unicode_len();
    let pl = p.unicode_len();
    if pl > tl {
        return false;
    }
    matches_at_exec(t, p, tl - pl)
}

/// `t` with every occurrence of `p` replaced by `to`, left to right.
pub fn replace_literal(t: &str, p: &str, to: &str) -> (r: String)
    requires
        p@.len() > 0,
    ensures
        r@ == spec_replace(t@, p@, to@),
    decreases t@.len(),
{
    match str_index_of(t, p) {
        None => t.to_owned(),
        Some(i) => {
            proof {
                lemma_first_occ_from_some(t@, p@, 0, i as int);
            }
            let tl = t.unicode_len();
            let pl = p.unicode_len();
            let pre = t.substring_char(0, i);
            let rest = t.substring_char(i + pl, tl);
            let mut s = pre.to_owned();
            s.append(to);
            let tail = replace_literal(rest, p, to);
            s.append(tail.as_str());
            s
        },
    }
}

} // verus!
