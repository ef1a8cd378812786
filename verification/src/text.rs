//! Text helpers shared by the bridge, the protocol handler and the transport:
//! UTF-8 decoding, substring search and splicing over character views.

use vstd::prelude::*;

use vstd::utf8::{encode_utf8, valid_utf8};

verus! {

/// Relies on String::from_utf8: it succeeds exactly on valid UTF-8 and the
/// resulting string holds exactly the given bytes.
#[verifier::external_body]
pub fn utf8_to_string(bytes: &Vec<u8>) -> (r: Option<String>)
    ensures
        r is Some <==> valid_utf8(bytes@),
        r matches Some(s) ==> encode_utf8(s@) == bytes@,
{
    String::from_utf8(bytes.clone()).ok()
}

/// The needle sits in the haystack at position `i`.
pub open spec fn match_at(h: Seq<char>, n: Seq<char>, i: int) -> bool {
    0 <= i && i + n.len() <= h.len() && h.subrange(i, i + n.len()) == n
}

/// The needle sits somewhere in the haystack.
pub open spec fn spec_contains(h: Seq<char>, n: Seq<char>) -> bool {
    exists|i: int| match_at(h, n, i)
}

/// Position of the first occurrence of the needle at or after position `i`.
pub open spec fn spec_find_from(h: Seq<char>, n: Seq<char>, i: int) -> Option<int>
    decreases h.len() - i + 1,
{
    if i < 0 || i + n.len() > h.len() {
        None
    } else if h.subrange(i, i + n.len()) == n {
        Some(i)
    } else {
        spec_find_from(h, n, i + 1)
    }
}

/// Position of the first occurrence of the needle in the haystack.
pub open spec fn spec_find(h: Seq<char>, n: Seq<char>) -> Option<int> {
    spec_find_from(h, n, 0)
}

proof fn lemma_find_from_props(h: Seq<char>, n: Seq<char>, i: int)
    requires
        0 <= i,
    ensures
        spec_find_from(h, n, i) matches Some(k) ==> i <= k && match_at(h, n, k) && (forall|j: int|
            i <= j < k ==> !match_at(h, n, j)),
        spec_find_from(h, n, i) is None ==> forall|j: int| j >= i ==> !match_at(h, n, j),
    decreases h.len() - i + 1,
{
    if i + n.len() > h.len() {
        assert(forall|j: int| j >= i ==> !match_at(h, n, j));
    } else if h.subrange(i, i + n.len()) == n {
    } else {
        lemma_find_from_props(h, n, i + 1);
        assert(!match_at(h, n, i));
    }
}

/// The first occurrence is an occurrence, and nothing sits before it; when
/// there is no first occurrence, nothing sits anywhere.
pub proof fn lemma_find_props(h: Seq<char>, n: Seq<char>)
    ensures
        spec_find(h, n) matches Some(i) ==> match_at(h, n, i) && (forall|j: int|
            0 <= j < i ==> !match_at(h, n, j)),
        spec_find(h, n) is None ==> forall|j: int| !match_at(h, n, j),
{
    lemma_find_from_props(h, n, 0);
}

proof fn lemma_find_from_first(h: Seq<char>, n: Seq<char>, i: int, k: int)
    requires
        0 <= i <= k,
        match_at(h, n, k),
        forall|j: int| i <= j < k ==> !match_at(h, n, j),
    ensures
        spec_find_from(h, n, i) == Some(k),
    decreases k - i,
{
    if i == k {
    } else {
        assert(!match_at(h, n, i));
        lemma_find_from_first(h, n, i + 1, k);
    }
}

/// An occurrence with nothing before it is the first occurrence.
pub proof fn lemma_find_first(h: Seq<char>, n: Seq<char>, i: int)
    requires
        match_at(h, n, i),
        forall|j: int| 0 <= j < i ==> !match_at(h, n, j),
    ensures
        spec_find(h, n) == Some(i),
{
    lemma_find_from_first(h, n, 0, i);
}

/// No occurrence anywhere means no first occurrence.
pub proof fn lemma_find_none(h: Seq<char>, n: Seq<char>)
    requires
        forall|j: int| !match_at(h, n, j),
    ensures
        spec_find(h, n) is None,
{
    lemma_find_from_props(h, n, 0);
    match spec_find(h, n) {
        Some(k) => {
            assert(match_at(h, n, k));
        },
        None => {},
    }
}

/// Whether the needle sits in the haystack at position `i`.
fn match_at_exec(h: &str, n: &str, i: usize) -> (b: bool)
    requires
        i + n@.len() <= h@.len(),
    ensures
        b == match_at(h@, n@, i as int),
{
    let hl = h.unicode_len();
    let nl = n.unicode_len();
    let mut j: usize = 0;
    while j < nl
        invariant
            j <= nl,
            hl == h@.len(),
            nl == n@.len(),
            i + nl <= hl,
            forall|k: int| 0 <= k < j ==> h@[i + k] == n@[k],
        decreases nl - j,
    {
        if h.get_char(i + j) != n.get_char(j) {
            proof {
                assert(h@.subrange(i as int, i + nl) != n@) by {
                    assert(h@.subrange(i as int, i + nl)[j as int] == h@[i + j]);
                }
            }
            return false;
        }
        j = j + 1;
    }
    proof {
        assert(h@.subrange(i as int, i + nl) =~= n@);
    }
    true
}

/// Position of the first occurrence of the needle, if any.
pub fn find_str(h: &str, n: &str) -> (r: Option<usize>)
    ensures
        r matches Some(i) ==> spec_find(h@, n@) == Some(i as int),
        r is None ==> spec_find(h@, n@) is None,
{
    let hl = h.unicode_len();
    let nl = n.unicode_len();
    if nl > hl {
        proof {
            assert(forall|j: int| !match_at(h@, n@, j));
            lemma_find_none(h@, n@);
        }
        return None;
    }
    if nl == 0 {
        proof {
            assert(h@.subrange(0, 0) =~= n@);
            lemma_find_first(h@, n@, 0);
        }
        return Some(0);
    }
    let mut i: usize = 0;
    while i <= hl - nl
        invariant
            1 <= nl <= hl,
            hl == h@.len(),
            nl == n@.len(),
            i <= hl - nl + 1,
            forall|j: int| 0 <= j < i ==> !match_at(h@, n@, j),
        decreases hl - nl - i + 1,
    {
        if match_at_exec(h, n, i) {
            proof {
                lemma_find_first(h@, n@, i as int);
            }
            return Some(i);
        }
        i = i + 1;
    }
    proof {
        assert forall|j: int| true implies !match_at(h@, n@, j) by {
            if 0 <= j <= hl - nl {
                assert(!match_at(h@, n@, j));
            }
        }
        lemma_find_none(h@, n@);
    }
    None
}

/// The haystack starts with the prefix.
pub open spec fn spec_starts_with(s: Seq<char>, p: Seq<char>) -> bool {
    p.len() <= s.len() && s.subrange(0, p.len() as int) == p
}

pub fn str_starts_with(s: &str, p: &str) -> (b: bool)
    ensures
        b == spec_starts_with(s@, p@),
{
    let sl = s.unicode_len();
    let pl = p.unicode_len();
    if pl > sl {
        return false;
    }
    match_at_exec(s, p, 0)
}

pub fn str_eq(a: &str, b: &str) -> (r: bool)
    ensures
        r == (a@ == b@),
{
    let al = a.unicode_len();
    let bl = b.unicode_len();
    if al != bl {
        return false;
    }
    let r = match_at_exec(a, b, 0);
    proof {
        assert(a@.subrange(0, al as int) =~= a@);
    }
    r
}

/// The result of splicing an insertion into the middle of a string.
pub open spec fn spec_splice(h: Seq<char>, i: int, ins: Seq<char>) -> Seq<char> {
    h.subrange(0, i) + ins + h.subrange(i, h.len() as int)
}

/// Splices `ins` into `h` immediately before character position `i`.
pub fn splice_str(h: &str, i: usize, ins: &str) -> (r: String)
    requires
        i <= h@.len(),
    ensures
        r@ == spec_splice(h@, i as int, ins@),
{
    let hl = h.unicode_len();
    let mut r = String::from_str(h.substring_char(0, i));
    r.append(ins);
    r.append(h.substring_char(i, hl));
    r
}

/// The string with every leading `/` removed.
pub open spec fn spec_trim_slashes(s: Seq<char>) -> Seq<char>
    decreases s.len(),
{
    if s.len() > 0 && s[0] == '/' {
        spec_trim_slashes(s.drop_first())
    } else {
        s
    }
}

proof fn lemma_trim_slashes(s: Seq<char>, k: int)
    requires
        0 <= k <= s.len(),
        forall|j: int| 0 <= j < k ==> s[j] == '/',
        k < s.len() ==> s[k] != '/',
    ensures
        spec_trim_slashes(s) == s.subrange(k, s.len() as int),
    decreases s.len(),
{
    if s.len() > 0 && s[0] == '/' {
        let d = s.drop_first();
        assert(k >= 1);
        assert forall|j: int| 0 <= j < k - 1 implies d[j] == '/' by {
            assert(d[j] == s[j + 1]);
        }
        lemma_trim_slashes(d, k - 1);
        assert(d.subrange(k - 1, d.len() as int) =~= s.subrange(k, s.len() as int));
    } else {
        assert(s.subrange(k, s.len() as int) =~= s);
    }
}

/// Removes every leading `/`.
pub fn trim_leading_slashes(s: &str) -> (r: String)
    ensures
        r@ == spec_trim_slashes(s@),
{
    let sl = s.unicode_len();
    let mut k: usize = 0;
    while k < sl
        invariant
            k <= sl,
            sl == s@.len(),
            forall|j: int| 0 <= j < k ==> s@[j] == '/',
        decreases sl - k,
    {
        if s.get_char(k) != '/' {
            proof {
                lemma_trim_slashes(s@, k as int);
            }
            return String::from_str(s.substring_char(k, sl));
        }
        k = k + 1;
    }
    proof {
        lemma_trim_slashes(s@, sl as int);
        assert(s@.subrange(sl as int, sl as int) =~= Seq::<char>::empty());
    }
    String::from_str(s.substring_char(sl, sl))
}

/// The string with one occurrence of the prefix removed from the front, or
/// unchanged when the prefix is not there.
pub open spec fn spec_strip_prefix(s: Seq<char>, p: Seq<char>) -> Seq<char> {
    if spec_starts_with(s, p) {
        s.subrange(p.len() as int, s.len() as int)
    } else {
        s
    }
}

pub fn strip_prefix_once(s: &str, p: &str) -> (r: String)
    ensures
        r@ == spec_strip_prefix(s@, p@),
{
    let sl = s.unicode_len();
    let pl = p.unicode_len();
    if str_starts_with(s, p) {
        String::from_str(s.substring_char(pl, sl))
    } else {
        String::from_str(s)
    }
}

/// The pieces of a string cut at every occurrence of a separator: always at
/// least one piece, the separators themselves dropped.
pub open spec fn spec_split(s: Seq<char>, c: char) -> Seq<Seq<char>>
    decreases s.len(),
{
    if s.len() == 0 {
        seq![Seq::<char>::empty()]
    } else {
        let rest = spec_split(s.drop_first(), c);
        if s[0] == c {
            seq![Seq::<char>::empty()] + rest
        } else {
            seq![seq![s[0]] + rest[0]] + rest.drop_first()
        }
    }
}

pub proof fn lemma_split_len(s: Seq<char>, c: char)
    ensures
        spec_split(s, c).len() >= 1,
    decreases s.len(),
{
    if s.len() > 0 {
        lemma_split_len(s.drop_first(), c);
    }
}

proof fn lemma_split_push(s: Seq<char>, c: char, ch: char)
    ensures
        ch == c ==> spec_split(s.push(ch), c) == spec_split(s, c).push(Seq::<char>::empty()),
        ch != c ==> spec_split(s.push(ch), c) == spec_split(s, c).update(
            spec_split(s, c).len() - 1,
            spec_split(s, c).last().push(ch),
        ),
    decreases s.len(),
{
    lemma_split_len(s, c);
    let t = s.push(ch);
    if s.len() == 0 {
        assert(t.drop_first() =~= Seq::<char>::empty());
        assert(spec_split(Seq::<char>::empty(), c) == seq![Seq::<char>::empty()]);
        assert(spec_split(t.drop_first(), c) == seq![Seq::<char>::empty()]);
        if ch == c {
            assert(spec_split(t, c) =~~= spec_split(s, c).push(Seq::<char>::empty()));
        } else {
            assert(spec_split(t, c) =~~= spec_split(s, c).update(
                0,
                spec_split(s, c).last().push(ch),
            ));
        }
    } else {
        let d = s.drop_first();
        lemma_split_len(d, c);
        lemma_split_push(d, c, ch);
        assert(t[0] == s[0]);
        assert(t.drop_first() =~= d.push(ch));
        if ch == c {
            assert(spec_split(t, c) =~~= spec_split(s, c).push(Seq::<char>::empty()));
        } else {
            let sp = spec_split(s, c);
            assert(spec_split(t, c) =~~= sp.update(sp.len() - 1, sp.last().push(ch)));
        }
    }
}

/// Cuts a string at every occurrence of the separator.
pub fn split_str(s: &str, c: char) -> (r: Vec<String>)
    ensures
        r.deep_view() == spec_split(s@, c),
{
    let sl = s.unicode_len();
    let mut r: Vec<String> = Vec::new();
    let mut cur = String::new();
    let mut i: usize = 0;
    while i < sl
        invariant
            i <= sl,
            sl == s@.len(),
            r.deep_view().push(cur@) =~~= spec_split(s@.subrange(0, i as int), c),
        decreases sl - i,
    {
        let ghost pre = s@.subrange(0, i as int);
        let ch = s.get_char(i);
        proof {
            lemma_split_push(pre, c, ch);
            lemma_split_len(pre, c);
            assert(s@.subrange(0, i as int + 1) =~= pre.push(ch));
        }
        if ch == c {
            let ghost r0 = r.deep_view();
            let ghost c0 = cur@;
            r.push(cur);
            cur = String::new();
            proof {
                assert(r.deep_view() =~~= r0.push(c0));
                assert(r.deep_view().push(cur@) =~~= spec_split(s@.subrange(0, i as int + 1), c));
            }
        } else {
            let ghost c0 = cur@;
            cur.append(s.substring_char(i, i + 1));
            proof {
                assert(s@.subrange(i as int, i as int + 1) =~= seq![ch]);
                assert(cur@ =~= c0.push(ch));
                let sp = spec_split(pre, c);
                assert(sp.last() == c0);
                assert(r.deep_view().push(cur@) =~~= sp.update(sp.len() - 1, sp.last().push(ch)));
            }
        }
        i = i + 1;
    }
    proof {
        assert(s@.subrange(0, sl as int) =~= s@);
    }
    r.push(cur);
    proof {
        assert(r.deep_view() =~~= spec_split(s@, c));
    }
    r
}

} // verus!
