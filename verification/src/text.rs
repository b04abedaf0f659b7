//! Small string utilities shared by the modules of this crate.

use vstd::prelude::*;

verus! {

broadcast use vstd::string::group_string_axioms;

/// The characters of `s`, in order.
pub fn chars_of(s: &str) -> (v: Vec<char>)
    ensures
        v@ == s@,
{
    let mut v: Vec<char> = Vec::new();
    for c in it: s.chars()
        invariant
            v@ == it.seq().take(it.index() as int),
    {
        v.push(c);
    }
    v
}

} // verus!

verus! {

/// Whether two string slices hold the same characters.
pub fn str_eq(a: &str, b: &str) -> (r: bool)
    ensures
        r == (a@ == b@),
{
    let x: String = a.to_owned();
    let y: String = b.to_owned();
    x == y
}

/// `String::from_iter` over a slice of characters: the string holding exactly
/// those characters, in order.
#[verifier::external_body]
pub fn string_from_chars(chars: &[char]) -> (s: String)
    ensures
        s@ == chars@,
{
    chars.iter().collect()
}

} // verus!

verus! {

/// Whether `c` has the Unicode `White_Space` property: tab through carriage
/// return, space, next line, no-break space, ogham space mark, the spaces
/// from en quad through hair space, the line and paragraph separators, narrow
/// no-break space, medium mathematical space and ideographic space.
pub open spec fn is_whitespace_char(c: char) -> bool {
    ||| ('\u{9}' <= c && c <= '\u{d}')
    ||| c == ' '
    ||| c == '\u{85}'
    ||| c == '\u{a0}'
    ||| c == '\u{1680}'
    ||| ('\u{2000}' <= c && c <= '\u{200a}')
    ||| c == '\u{2028}'
    ||| c == '\u{2029}'
    ||| c == '\u{202f}'
    ||| c == '\u{205f}'
    ||| c == '\u{3000}'
}

/// `char::is_whitespace`, which its documentation defines as having the
/// Unicode `White_Space` property.
#[verifier::external_body]
pub fn char_is_whitespace(c: char) -> (b: bool)
    ensures
        b == is_whitespace_char(c),
{
    c.is_whitespace()
}

/// `s` in lowercase, as `str::to_lowercase` maps it.
pub uninterp spec fn lowercase_text(s: Seq<char>) -> Seq<char>;

/// `str::to_lowercase`. The lowercase mapping comes from the Unicode tables
/// of `std` and is only named here.
#[verifier::external_body]
pub(crate) fn to_lowercase(s: &str) -> (r: String)
    ensures
        r@ == lowercase_text(s@),
{
    s.to_lowercase()
}

/// The length in bytes of the UTF-8 encoding of `s`.
pub open spec fn utf8_len(s: Seq<char>) -> nat {
    vstd::utf8::encode_utf8(s).len()
}

} // verus!

verus! {

/// `base` with a relative path component appended, as `PathBuf::push` does
/// for one: a `/` goes between them unless `base` is empty or already ends
/// with one.
pub open spec fn path_joined(base: Seq<char>, part: Seq<char>) -> Seq<char> {
    if base.len() == 0 {
        part
    } else if base.last() == '/' {
        base + part
    } else {
        base + seq!['/'] + part
    }
}

pub fn path_join(base: &str, part: &str) -> (r: String)
    ensures
        r@ == path_joined(base@, part@),
{
    let mut v = chars_of(base);
    let p = chars_of(part);
    if v.len() > 0 && v[v.len() - 1] != '/' {
        v.push('/');
    }
    let mut i: usize = 0;
    let ghost v0 = v@;
    while i < p.len()
        invariant
            i <= p@.len(),
            v@ == v0 + p@.take(i as int),
        decreases p@.len() - i,
    {
        v.push(p[i]);
        i = i + 1;
        assert(v@ =~= v0 + p@.take(i as int));
    }
    assert(p@.take(p@.len() as int) =~= p@);
    let r = string_from_chars(v.as_slice());
    assert(r@ =~= path_joined(base@, part@));
    r
}

} // verus!

verus! {

/// The string holding the characters of `a` followed by those of `b`.
pub fn join_str(a: &str, b: &str) -> (r: String)
    ensures
        r@ == a@ + b@,
{
    let mut v = chars_of(a);
    let p = chars_of(b);
    let ghost v0 = v@;
    let mut i: usize = 0;
    while i < p.len()
        invariant
            i <= p@.len(),
            v@ == v0 + p@.take(i as int),
        decreases p@.len() - i,
    {
        v.push(p[i]);
        i = i + 1;
        assert(v@ =~= v0 + p@.take(i as int));
    }
    assert(p@.take(p@.len() as int) =~= p@);
    string_from_chars(v.as_slice())
}

/// The decimal digit character for `d < 10`.
pub open spec fn digit_char(d: nat) -> char {
    if d == 0 { '0' }
    else if d == 1 { '1' }
    else if d == 2 { '2' }
    else if d == 3 { '3' }
    else if d == 4 { '4' }
    else if d == 5 { '5' }
    else if d == 6 { '6' }
    else if d == 7 { '7' }
    else if d == 8 { '8' }
    else { '9' }
}

/// The decimal representation of `n`, without sign or leading zeros, as
/// `Display` writes unsigned integers.
pub open spec fn decimal(n: nat) -> Seq<char>
    decreases n,
{
    if n < 10 {
        seq![digit_char(n)]
    } else {
        decimal(n / 10).push(digit_char(n % 10))
    }
}

fn digit(d: usize) -> (c: char)
    requires
        d < 10,
    ensures
        c == digit_char(d as nat),
{
    if d == 0 { '0' }
    else if d == 1 { '1' }
    else if d == 2 { '2' }
    else if d == 3 { '3' }
    else if d == 4 { '4' }
    else if d == 5 { '5' }
    else if d == 6 { '6' }
    else if d == 7 { '7' }
    else if d == 8 { '8' }
    else { '9' }
}

/// The digits of `n`, most significant first.
pub fn decimal_string(n: usize) -> (s: String)
    ensures
        s@ == decimal(n as nat),
    decreases n,
{
    if n < 10 {
        let c = digit(n);
        let v: Vec<char> = vec![c];
        let s = string_from_chars(v.as_slice());
        assert(s@ =~= decimal(n as nat));
        s
    } else {
        let head = decimal_string(n / 10);
        let mut v = chars_of(head.as_str());
        v.push(digit(n % 10));
        let s = string_from_chars(v.as_slice());
        assert(s@ =~= decimal(n as nat));
        s
    }
}

} // verus!

verus! {

/// The pieces of `s` between the line feeds, as `str::split('\n')` yields
/// them: one more piece than there are line feeds, empty ones included.
pub open spec fn split_newlines(s: Seq<char>) -> Seq<Seq<char>>
    decreases s.len(),
{
    if s.len() == 0 {
        seq![Seq::<char>::empty()]
    } else {
        let p = split_newlines(s.drop_last());
        if s.last() == '\n' {
            p.push(Seq::<char>::empty())
        } else {
            p.update(p.len() - 1, p.last().push(s.last()))
        }
    }
}

pub proof fn lemma_split_newlines_nonempty(s: Seq<char>)
    ensures
        split_newlines(s).len() >= 1,
    decreases s.len(),
{
    if s.len() > 0 {
        lemma_split_newlines_nonempty(s.drop_last());
    }
}

/// `l` without one trailing carriage return.
pub open spec fn strip_cr(l: Seq<char>) -> Seq<char> {
    if l.len() > 0 && l.last() == '\r' {
        l.drop_last()
    } else {
        l
    }
}

/// The lines of `s`, as `str::lines` yields them: split at line feeds, a
/// carriage return before a line feed dropped, and no empty last line after a
/// final line feed.
pub open spec fn text_lines(s: Seq<char>) -> Seq<Seq<char>> {
    let p = split_newlines(s);
    let ended = p.drop_last().map_values(|l: Seq<char>| strip_cr(l));
    if s.len() == 0 || s.last() == '\n' {
        ended
    } else {
        ended.push(p.last())
    }
}

/// The lines `ls` joined with a line feed between each two.
pub open spec fn join_lines(ls: Seq<Seq<char>>) -> Seq<char>
    decreases ls.len(),
{
    if ls.len() == 0 {
        Seq::<char>::empty()
    } else if ls.len() == 1 {
        ls[0]
    } else {
        join_lines(ls.drop_last()) + seq!['\n'] + ls.last()
    }
}

/// The views of a vector of strings.
pub open spec fn views(v: Seq<String>) -> Seq<Seq<char>> {
    v.map_values(|s: String| s@)
}

/// `s.split('\n')`, collected.
pub fn split_newline_pieces(s: &str) -> (r: Vec<String>)
    ensures
        views(r@) == split_newlines(s@),
{
    let cs = chars_of(s);
    let mut done: Vec<String> = Vec::new();
    let mut cur: Vec<char> = Vec::new();
    let mut i: usize = 0;
    while i < cs.len()
        invariant
            i <= cs@.len(),
            cs@ == s@,
            views(done@).push(cur@) == split_newlines(s@.take(i as int)),
        decreases cs@.len() - i,
    {
        let c = cs[i];
        let ghost pre = s@.take(i as int);
        assert(s@.take(i + 1).drop_last() =~= pre);
        if c == '\n' {
            let piece = string_from_chars(cur.as_slice());
            done.push(piece);
            cur = Vec::new();
            assert(views(done@).push(cur@) =~= split_newlines(pre).push(Seq::<char>::empty()));
        } else {
            let ghost old_cur = cur@;
            cur.push(c);
            proof {
                lemma_split_newlines_nonempty(pre);
            }
            assert(views(done@).push(cur@) =~= split_newlines(pre).update(
                split_newlines(pre).len() - 1,
                split_newlines(pre).last().push(c),
            ));
        }
        i = i + 1;
    }
    assert(s@.take(cs@.len() as int) =~= s@);
    let last = string_from_chars(cur.as_slice());
    done.push(last);
    assert(views(done@) =~= split_newlines(s@));
    done
}

/// `s.lines()`, collected.
pub fn text_lines_of(s: &str) -> (r: Vec<String>)
    ensures
        views(r@) == text_lines(s@),
{
    let pieces = split_newline_pieces(s);
    proof {
        lemma_split_newlines_nonempty(s@);
    }
    let cs = chars_of(s);
    let n = pieces.len();
    let mut out: Vec<String> = Vec::new();
    let mut i: usize = 0;
    while i + 1 < n
        invariant
            n == pieces@.len(),
            n >= 1,
            i + 1 <= n,
            views(pieces@) == split_newlines(s@),
            views(out@) == split_newlines(s@).drop_last().take(i as int).map_values(
                |l: Seq<char>| strip_cr(l),
            ),
        decreases n - i,
    {
        let pc = chars_of(pieces[i].as_str());
        proof {
            assert(pc@ == split_newlines(s@)[i as int]);
        }
        let line = if pc.len() > 0 && pc[pc.len() - 1] == '\r' {
            let body = slice_prefix(&pc, pc.len() - 1);
            let l = string_from_chars(body.as_slice());
            assert(l@ =~= strip_cr(pc@));
            l
        } else {
            let l = string_from_chars(pc.as_slice());
            assert(l@ =~= strip_cr(pc@));
            l
        };
        let ghost old_out = out@;
        out.push(line);
        proof {
            let sp = split_newlines(s@);
            assert(views(out@) =~= views(old_out).push(line@));
            assert(sp.drop_last()[i as int] == sp[i as int]);
            assert(sp.drop_last().take(i + 1).map_values(|l: Seq<char>| strip_cr(l)) =~=
                sp.drop_last().take(i as int).map_values(|l: Seq<char>| strip_cr(l)).push(
                strip_cr(sp[i as int])));
        }
        i = i + 1;
    }
    assert(split_newlines(s@).drop_last().take(i as int) =~= split_newlines(s@).drop_last());
    let ended = cs.len() == 0 || cs[cs.len() - 1] == '\n';
    if !ended {
        out.push(clone_string(&pieces[n - 1]));
        assert(views(out@) =~= text_lines(s@));
    } else {
        assert(views(out@) =~= text_lines(s@));
    }
    out
}

/// The first `k` characters of `v`.
pub fn slice_prefix(v: &Vec<char>, k: usize) -> (r: Vec<char>)
    requires
        k <= v@.len(),
    ensures
        r@ == v@.take(k as int),
{
    let mut r: Vec<char> = Vec::new();
    let mut i: usize = 0;
    while i < k
        invariant
            i <= k,
            k <= v@.len(),
            r@ == v@.take(i as int),
        decreases k - i,
    {
        r.push(v[i]);
        i = i + 1;
        assert(r@ =~= v@.take(i as int));
    }
    r
}

/// A copy of `s`.
pub fn clone_string(s: &String) -> (r: String)
    ensures
        r@ == s@,
{
    s.as_str().to_owned()
}

/// `ls.join("\n")`.
pub fn join_with_newlines(ls: &[String]) -> (r: String)
    ensures
        r@ == join_lines(views(ls@)),
{
    if ls.len() == 0 {
        return String::new();
    }
    let mut acc: String = clone_string(&ls[0]);
    let mut i: usize = 1;
    assert(views(ls@).take(1) =~= seq![views(ls@)[0]]);
    while i < ls.len()
        invariant
            1 <= i <= ls@.len(),
            acc@ == join_lines(views(ls@).take(i as int)),
        decreases ls@.len() - i,
    {
        let with_nl = join_str(acc.as_str(), "\n");
        acc = join_str(with_nl.as_str(), ls[i].as_str());
        proof {
            reveal_strlit("\n");
            assert(views(ls@).take(i + 1).drop_last() =~= views(ls@).take(i as int));
        }
        i = i + 1;
    }
    assert(views(ls@).take(ls@.len() as int) =~= views(ls@));
    acc
}

} // verus!

verus! {

/// Whether `p` occurs in `v` starting at index `i`.
pub open spec fn occurs_at(v: Seq<char>, i: int, p: Seq<char>) -> bool {
    0 <= i && i + p.len() <= v.len() && v.subrange(i, i + p.len()) == p
}

/// Whether `p` occurs anywhere in `v`.
pub open spec fn contains_seq(v: Seq<char>, p: Seq<char>) -> bool {
    exists|i: int| occurs_at(v, i, p)
}

pub fn matches_at(v: &Vec<char>, i: usize, p: &Vec<char>) -> (r: bool)
    ensures
        r == occurs_at(v@, i as int, p@),
{
    if i > v.len() || p.len() > v.len() - i {
        return false;
    }
    let mut k: usize = 0;
    while k < p.len()
        invariant
            k <= p@.len(),
            i + p@.len() <= v@.len(),
            v@.len() == v.len(),
            p@.len() == p.len(),
            forall|j: int| 0 <= j < k ==> v@[i + j] == p@[j],
        decreases p@.len() - k,
    {
        if v[i + k] != p[k] {
            assert(v@.subrange(i as int, i + p@.len())[k as int] != p@[k as int]);
            return false;
        }
        k = k + 1;
    }
    assert(v@.subrange(i as int, i + p@.len()) =~= p@);
    true
}

/// `str::contains` with a string pattern.
pub fn contains_str(s: &str, pat: &str) -> (r: bool)
    ensures
        r == contains_seq(s@, pat@),
{
    let v = chars_of(s);
    let p = chars_of(pat);
    let mut i: usize = 0;
    while i < v.len()
        invariant
            i <= v@.len(),
            v@ == s@,
            p@ == pat@,
            forall|j: int| 0 <= j < i ==> !occurs_at(s@, j, pat@),
        decreases v@.len() - i,
    {
        if matches_at(&v, i, &p) {
            return true;
        }
        i = i + 1;
    }
    if matches_at(&v, i, &p) {
        return true;
    }
    assert forall|j: int| !occurs_at(s@, j, pat@) by {
        if 0 <= j && j + pat@.len() <= s@.len() {
            assert(j <= v@.len());
        }
    }
    false
}

/// `s` with every leading repetition of `p` removed, as `str::trim_start_matches`
/// does with a string pattern.
pub open spec fn strip_leading(s: Seq<char>, p: Seq<char>) -> Seq<char>
    decreases s.len(),
{
    if p.len() > 0 && occurs_at(s, 0, p) {
        strip_leading(s.skip(p.len() as int), p)
    } else {
        s
    }
}

/// `s.trim_start_matches(p)`.
pub fn trim_start_matches_str(s: &str, p: &str) -> (r: String)
    ensures
        r@ == strip_leading(s@, p@),
{
    let v = chars_of(s);
    let pv = chars_of(p);
    let mut i: usize = 0;
    assert(s@.skip(0) =~= s@);
    while pv.len() > 0 && matches_at(&v, i, &pv)
        invariant
            v@ == s@,
            pv@ == p@,
            v@.len() == v.len(),
            pv@.len() == pv.len(),
            i <= v@.len(),
            strip_leading(s@, p@) == strip_leading(s@.skip(i as int), p@),
        decreases v@.len() - i,
    {
        proof {
            let rest = s@.skip(i as int);
            assert(rest.subrange(0, p@.len() as int) =~= s@.subrange(i as int, i + p@.len()));
            assert(rest.skip(p@.len() as int) =~= s@.skip(i + p@.len()));
        }
        i = i + pv.len();
    }
    proof {
        let rest = s@.skip(i as int);
        if p@.len() > 0 {
            assert(rest.len() >= p@.len() ==> rest.subrange(0, p@.len() as int) =~= s@.subrange(
                i as int,
                i + p@.len(),
            ));
        }
    }
    let mut out: Vec<char> = Vec::new();
    let mut k: usize = i;
    while k < v.len()
        invariant
            i <= k <= v@.len(),
            out@ == v@.subrange(i as int, k as int),
        decreases v@.len() - k,
    {
        out.push(v[k]);
        k = k + 1;
        assert(out@ =~= v@.subrange(i as int, k as int));
    }
    assert(out@ =~= s@.skip(i as int));
    string_from_chars(out.as_slice())
}

} // verus!

verus! {

/// `s` without its leading whitespace.
pub open spec fn trim_start_ws(s: Seq<char>) -> Seq<char>
    decreases s.len(),
{
    if s.len() > 0 && is_whitespace_char(s[0]) {
        trim_start_ws(s.skip(1))
    } else {
        s
    }
}

/// `s` without its trailing whitespace.
pub open spec fn trim_end_ws(s: Seq<char>) -> Seq<char>
    decreases s.len(),
{
    if s.len() > 0 && is_whitespace_char(s.last()) {
        trim_end_ws(s.drop_last())
    } else {
        s
    }
}

/// `s` without leading and trailing whitespace, as `str::trim` leaves it.
pub open spec fn trimmed(s: Seq<char>) -> Seq<char> {
    trim_end_ws(trim_start_ws(s))
}

/// `s.trim()`.
pub fn trim_str(s: &str) -> (r: String)
    ensures
        r@ == trimmed(s@),
{
    let v = chars_of(s);
    let mut lo: usize = 0;
    assert(s@.skip(0) =~= s@);
    while lo < v.len() && char_is_whitespace(v[lo])
        invariant
            v@ == s@,
            lo <= v@.len(),
            trim_start_ws(s@) == trim_start_ws(s@.skip(lo as int)),
        decreases v@.len() - lo,
    {
        assert(s@.skip(lo as int).skip(1) =~= s@.skip(lo + 1));
        lo = lo + 1;
    }
    let ghost front = s@.skip(lo as int);
    assert(trim_start_ws(s@) == front);
    let mut hi: usize = v.len();
    assert(front.take(front.len() as int) =~= front);
    while hi > lo && char_is_whitespace(v[hi - 1])
        invariant
            v@ == s@,
            lo <= hi <= v@.len(),
            front == s@.skip(lo as int),
            trim_end_ws(front) == trim_end_ws(s@.subrange(lo as int, hi as int)),
        decreases hi,
    {
        assert(s@.subrange(lo as int, hi as int).drop_last() =~= s@.subrange(lo as int, hi - 1));
        hi = hi - 1;
    }
    assert(trim_end_ws(s@.subrange(lo as int, hi as int)) == s@.subrange(lo as int, hi as int));
    let mut out: Vec<char> = Vec::new();
    let mut k: usize = lo;
    while k < hi
        invariant
            lo <= k <= hi,
            hi <= v@.len(),
            out@ == v@.subrange(lo as int, k as int),
        decreases hi - k,
    {
        out.push(v[k]);
        k = k + 1;
        assert(out@ =~= v@.subrange(lo as int, k as int));
    }
    proof {
        assert(front =~= s@.subrange(lo as int, v@.len() as int));
    }
    string_from_chars(out.as_slice())
}

} // verus!
