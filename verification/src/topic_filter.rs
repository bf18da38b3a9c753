//! The MQTT v5 topic-filter grammar and the wildcard matcher used for
//! retained-message replay: levels separated by `/`, `+` standing for one
//! whole level, `#` only as the final level, no null bytes, non-empty.

use vstd::prelude::*;

verus! {

/// Position of the first level separator, or the length when none occurs.
pub open spec fn first_slash(s: Seq<char>) -> nat
    decreases s.len(),
{
    if s.len() == 0 {
        0
    } else if s[0] == '/' {
        0
    } else {
        1 + first_slash(s.drop_first())
    }
}

/// `first_slash` is the least separator position.
pub proof fn lemma_first_slash(s: Seq<char>)
    ensures
        0 <= first_slash(s) <= s.len(),
        forall|k: int| 0 <= k < first_slash(s) ==> s[k] != '/',
        first_slash(s) < s.len() ==> s[first_slash(s) as int] == '/',
    decreases s.len(),
{
    if s.len() > 0 && s[0] != '/' {
        lemma_first_slash(s.drop_first());
        assert forall|k: int| 0 <= k < first_slash(s) implies s[k] != '/' by {
            if k >= 1 {
                assert(s.drop_first()[k - 1] == s[k]);
            }
        }
        if first_slash(s) < s.len() {
            assert(s.drop_first()[first_slash(s) - 1] == s[first_slash(s) as int]);
        }
    }
}

/// Any least separator position is `first_slash`.
pub proof fn lemma_first_slash_at(s: Seq<char>, r: int)
    requires
        0 <= r <= s.len(),
        forall|k: int| 0 <= k < r ==> s[k] != '/',
        r < s.len() ==> s[r] == '/',
    ensures
        first_slash(s) == r,
    decreases s.len(),
{
    if s.len() > 0 && s[0] != '/' {
        assert(r != 0);
        assert(forall|j: int|
            0 <= j < s.drop_first().len() ==> #[trigger] s.drop_first()[j] == s[j + 1]);
        lemma_first_slash_at(s.drop_first(), r - 1);
    }
}

/// A `+` must fill a whole level.
pub open spec fn plus_ok(s: Seq<char>, i: int) -> bool {
    (i == 0 || s[i - 1] == '/') && (i == s.len() - 1 || s[i + 1] == '/')
}

/// A `#` must fill the final level.
pub open spec fn hash_ok(s: Seq<char>, i: int) -> bool {
    (i == 0 || s[i - 1] == '/') && i == s.len() - 1
}

/// The topic-filter grammar.
pub open spec fn valid_filter(s: Seq<char>) -> bool {
    &&& s.len() > 0
    &&& forall|i: int| 0 <= i < s.len() ==> #[trigger] s[i] != '\u{0}'
    &&& forall|i: int| 0 <= i < s.len() && #[trigger] s[i] == '+' ==> plus_ok(s, i)
    &&& forall|i: int| 0 <= i < s.len() && #[trigger] s[i] == '#' ==> hash_ok(s, i)
}

/// Checks a subscription filter path against the grammar.
pub fn sub_path_validator(path: &String) -> (r: bool)
    ensures
        r == valid_filter(path@),
{
    let s = path.as_str();
    let n = s.unicode_len();
    if n == 0 {
        return false;
    }
    let mut i: usize = 0;
    while i < n
        invariant
            n == s@.len(),
            s@ == path@,
            i <= n,
            forall|j: int| 0 <= j < i ==> #[trigger] s@[j] != '\u{0}',
            forall|j: int| 0 <= j < i && #[trigger] s@[j] == '+' ==> plus_ok(s@, j),
            forall|j: int| 0 <= j < i && #[trigger] s@[j] == '#' ==> hash_ok(s@, j),
        decreases n - i,
    {
        let c = s.get_char(i);
        if c == '\u{0}' {
            return false;
        }
        if c == '+' {
            if !(i == 0 || s.get_char(i - 1) == '/') {
                return false;
            }
            if !(i == n - 1 || s.get_char(i + 1) == '/') {
                return false;
            }
        }
        if c == '#' {
            if !(i == 0 || s.get_char(i - 1) == '/') {
                return false;
            }
            if i != n - 1 {
                return false;
            }
        }
        i = i + 1;
    }
    true
}

/// Whether a topic name matches a filter, level by level: `+` matches one
/// level, a final `#` matches the remaining levels, including none.
pub open spec fn filter_matches(t: Seq<char>, f: Seq<char>) -> bool
    decreases t.len() + f.len(),
{
    let ft = first_slash(f) as int;
    let tt = first_slash(t) as int;
    if ft >= f.len() {
        if f == seq!['#'] {
            true
        } else if tt < t.len() {
            false
        } else {
            f == seq!['+'] || f == t
        }
    } else {
        if f.take(ft) == seq!['#'] {
            true
        } else if tt >= t.len() {
            (f.take(ft) == seq!['+'] || f.take(ft) == t) && f.skip(ft + 1) == seq!['#']
        } else {
            (f.take(ft) == seq!['+'] || f.take(ft) == t.take(tt)) && filter_matches(
                t.skip(tt + 1),
                f.skip(ft + 1),
            )
        }
    }
}

/// Position of the first separator at or after `i`.
fn slash_from(s: &str, i: usize, n: usize) -> (r: usize)
    requires
        n == s@.len(),
        i <= n,
    ensures
        i <= r <= n,
        r - i == first_slash(s@.skip(i as int)),
        r < n ==> s@[r as int] == '/',
        forall|k: int| i <= k < r ==> s@[k] != '/',
{
    let mut j: usize = i;
    while j < n
        invariant
            n == s@.len(),
            i <= j <= n,
            forall|k: int| i <= k < j ==> s@[k] != '/',
        decreases n - j,
    {
        if s.get_char(j) == '/' {
            proof {
                let x = s@.skip(i as int);
                assert(forall|k: int| 0 <= k < x.len() ==> #[trigger] x[k] == s@[i + k]);
                lemma_first_slash_at(x, j - i);
            }
            return j;
        }
        j = j + 1;
    }
    proof {
        let x = s@.skip(i as int);
        assert(forall|k: int| 0 <= k < x.len() ==> #[trigger] x[k] == s@[i + k]);
        lemma_first_slash_at(x, n - i);
    }
    n
}

/// Whether the character ranges `[ai, ae)` of `a` and `[bi, be)` of `b`
/// hold the same text.
fn range_eq(a: &str, ai: usize, ae: usize, b: &str, bi: usize, be: usize) -> (r: bool)
    requires
        ai <= ae <= a@.len(),
        bi <= be <= b@.len(),
    ensures
        r == (a@.subrange(ai as int, ae as int) == b@.subrange(bi as int, be as int)),
{
    let la = ae - ai;
    let lb = be - bi;
    if la != lb {
        proof {
            assert(a@.subrange(ai as int, ae as int).len() != b@.subrange(bi as int, be as int).len());
        }
        return false;
    }
    let mut m: usize = 0;
    while m < la
        invariant
            ai <= ae <= a@.len(),
            bi <= be <= b@.len(),
            la == ae - ai,
            la == be - bi,
            m <= la,
            forall|k: int| 0 <= k < m ==> #[trigger] a@[ai + k] == b@[bi + k],
        decreases la - m,
    {
        if a.get_char(ai + m) != b.get_char(bi + m) {
            proof {
                assert(a@.subrange(ai as int, ae as int)[m as int] != b@.subrange(
                    bi as int,
                    be as int,
                )[m as int]);
            }
            return false;
        }
        m = m + 1;
    }
    proof {
        assert forall|k: int|
            0 <= k < la implies a@.subrange(ai as int, ae as int)[k] == b@.subrange(
            bi as int,
            be as int,
        )[k] by {
            assert(a@[ai + k] == b@[bi + k]);
        }
        assert(a@.subrange(ai as int, ae as int) =~= b@.subrange(bi as int, be as int));
    }
    true
}

/// Whether the character range `[i, e)` of `s` is exactly the character `c`.
fn range_is_char(s: &str, i: usize, e: usize, c: char) -> (r: bool)
    requires
        i <= e <= s@.len(),
    ensures
        r == (s@.subrange(i as int, e as int) == seq![c]),
{
    if e - i != 1 {
        proof {
            assert(s@.subrange(i as int, e as int).len() != seq![c].len());
        }
        return false;
    }
    let r = s.get_char(i) == c;
    proof {
        if r {
            assert(s@.subrange(i as int, e as int) =~= seq![c]);
        } else {
            assert(s@.subrange(i as int, e as int)[0] != seq![c][0]);
        }
    }
    r
}

/// Matches the topic from character `ti` against the filter from `fi`.
fn match_from(t: &str, ti: usize, tn: usize, f: &str, fi: usize, fn_: usize) -> (r: bool)
    requires
        tn == t@.len(),
        fn_ == f@.len(),
        ti <= tn,
        fi <= fn_,
    ensures
        r == filter_matches(t@.skip(ti as int), f@.skip(fi as int)),
    decreases tn - ti + fn_ - fi,
{
    let ghost bigt = t@.skip(ti as int);
    let ghost bigf = f@.skip(fi as int);
    proof {
        assert(forall|k: int| 0 <= k < bigt.len() ==> #[trigger] bigt[k] == t@[ti + k]);
        assert(forall|k: int| 0 <= k < bigf.len() ==> #[trigger] bigf[k] == f@[fi + k]);
    }
    let fe = slash_from(f, fi, fn_);
    let te = slash_from(t, ti, tn);
    proof {
        assert(bigf.take((fe - fi) as int) =~= f@.subrange(fi as int, fe as int));
        assert(bigt.take((te - ti) as int) =~= t@.subrange(ti as int, te as int));
        assert(bigf =~= f@.subrange(fi as int, fn_ as int));
        assert(bigt =~= t@.subrange(ti as int, tn as int));
    }
    if fe >= fn_ {
        // Final filter level.
        if range_is_char(f, fi, fn_, '#') {
            true
        } else if te < tn {
            false
        } else if range_is_char(f, fi, fn_, '+') {
            true
        } else {
            range_eq(f, fi, fn_, t, ti, tn)
        }
    } else {
        if range_is_char(f, fi, fe, '#') {
            true
        } else if te >= tn {
            let head = range_is_char(f, fi, fe, '+') || range_eq(f, fi, fe, t, ti, tn);
            if !head {
                return false;
            }
            proof {
                assert(bigf.skip((fe - fi) as int + 1) =~= f@.subrange(fe as int + 1, fn_ as int));
            }
            range_is_char(f, fe + 1, fn_, '#')
        } else {
            let head = range_is_char(f, fi, fe, '+') || range_eq(f, fi, fe, t, ti, te);
            if !head {
                return false;
            }
            proof {
                assert(bigf.skip((fe - fi) as int + 1) =~= f@.skip(fe as int + 1));
                assert(bigt.skip((te - ti) as int + 1) =~= t@.skip(te as int + 1));
            }
            match_from(t, te + 1, tn, f, fe + 1, fn_)
        }
    }
}

/// Whether a topic name matches a subscription filter.
pub fn topic_matches_filter(topic: &String, filter: &String) -> (r: bool)
    ensures
        r == filter_matches(topic@, filter@),
{
    let t = topic.as_str();
    let f = filter.as_str();
    let tn = t.unicode_len();
    let fn_ = f.unicode_len();
    proof {
        assert(t@.skip(0) =~= t@);
        assert(f@.skip(0) =~= f@);
    }
    match_from(t, 0, tn, f, 0, fn_)
}

/// The lesser of the cluster's and the subscriber's requested QoS.
pub fn min_qos(a: crate::packet::QoS, b: crate::packet::QoS) -> (r: crate::packet::QoS)
    ensures
        crate::packet::qos_level(r) == (if crate::packet::qos_level(a) <= crate::packet::qos_level(
            b,
        ) {
            crate::packet::qos_level(a)
        } else {
            crate::packet::qos_level(b)
        }),
{
    let la = match a {
        crate::packet::QoS::AtMostOnce => 0u8,
        crate::packet::QoS::AtLeastOnce => 1u8,
        crate::packet::QoS::ExactlyOnce => 2u8,
    };
    let lb = match b {
        crate::packet::QoS::AtMostOnce => 0u8,
        crate::packet::QoS::AtLeastOnce => 1u8,
        crate::packet::QoS::ExactlyOnce => 2u8,
    };
    if la <= lb {
        a
    } else {
        b
    }
}

} // verus!
