use vstd::prelude::*;
use crate::text::{chars_of, string_of};

verus! {

pub open spec fn is_space(c: char) -> bool {
    c == ' ' || c == '\t' || c == '\n' || c == '\r' || c == '\x0B' || c == '\x0C'
}

/// Whether `c` is dropped from the ends: a space when `q` is `None`, else
/// the character `q`.
pub open spec fn dropped(c: char, q: Option<char>) -> bool {
    match q {
        None => is_space(c),
        Some(d) => c == d,
    }
}

pub open spec fn trim_front(s: Seq<char>, q: Option<char>) -> Seq<char>
    decreases s.len(),
{
    if s.len() > 0 && dropped(s[0], q) {
        trim_front(s.drop_first(), q)
    } else {
        s
    }
}

pub open spec fn trim_back(s: Seq<char>, q: Option<char>) -> Seq<char>
    decreases s.len(),
{
    if s.len() > 0 && dropped(s.last(), q) {
        trim_back(s.drop_last(), q)
    } else {
        s
    }
}

/// `s` without the dropped characters at either end.
pub open spec fn trim(s: Seq<char>, q: Option<char>) -> Seq<char> {
    trim_back(trim_front(s, q), q)
}

/// `k` is the one `=` in `t`.
pub open spec fn sole_equals(t: Seq<char>, k: int) -> bool {
    &&& 0 <= k < t.len()
    &&& t[k] == '='
    &&& forall|j: int| 0 <= j < t.len() && j != k ==> t[j] != '='
}

/// The setting a line of `mew.toml` gives for the start script: the line,
/// trimmed, begins with `start` and holds one `=`; the value is what follows
/// it, trimmed, then without double and then single quotes at its ends.
pub open spec fn line_value(line: Seq<char>) -> Option<Seq<char>> {
    let t = trim(line, None);
    if t.len() >= 5 && t.subrange(0, 5) == "start"@ && exists|k: int| sole_equals(t, k) {
        let k = choose|k: int| sole_equals(t, k);
        Some(trim(trim(trim(t.subrange(k + 1, t.len() as int), None), Some('"')), Some('\'')))
    } else {
        None
    }
}

/// `s[a..b]` is a whole line of `s`.
pub open spec fn is_line(s: Seq<char>, a: int, b: int) -> bool {
    &&& 0 <= a <= b <= s.len()
    &&& (a == 0 || s[a - 1] == '\n')
    &&& (b == s.len() || s[b] == '\n')
    &&& forall|j: int| a <= j < b ==> s[j] != '\n'
}

proof fn lemma_trim_front_step(s: Seq<char>, lo: int, hi: int, q: Option<char>)
    requires
        0 <= lo < hi <= s.len(),
        dropped(s[lo], q),
    ensures
        trim_front(s.subrange(lo, hi), q) == trim_front(s.subrange(lo + 1, hi), q),
{
    assert(s.subrange(lo, hi).drop_first() =~= s.subrange(lo + 1, hi));
}

proof fn lemma_trim_back_step(s: Seq<char>, lo: int, hi: int, q: Option<char>)
    requires
        0 <= lo < hi <= s.len(),
        dropped(s[hi - 1], q),
    ensures
        trim_back(s.subrange(lo, hi), q) == trim_back(s.subrange(lo, hi - 1), q),
{
    assert(s.subrange(lo, hi).drop_last() =~= s.subrange(lo, hi - 1));
}

fn drops(c: char, q: Option<char>) -> (r: bool)
    ensures
        r == dropped(c, q),
{
    match q {
        None => c == ' ' || c == '\t' || c == '\n' || c == '\r' || c == '\x0B' || c == '\x0C',
        Some(d) => c == d,
    }
}

/// The bounds of `v[lo..hi]` with the dropped characters taken off both ends.
fn trimmed(v: &Vec<char>, lo: usize, hi: usize, q: Option<char>) -> (r: (usize, usize))
    requires
        lo <= hi <= v@.len(),
    ensures
        lo <= r.0 <= r.1 <= hi,
        v@.subrange(r.0 as int, r.1 as int) == trim(v@.subrange(lo as int, hi as int), q),
{
    let mut a = lo;
    while a < hi && drops(v[a], q)
        invariant
            lo <= a <= hi <= v@.len(),
            trim_front(v@.subrange(lo as int, hi as int), q) == trim_front(v@.subrange(a as int, hi as int), q),
        decreases hi - a,
    {
        proof {
            lemma_trim_front_step(v@, a as int, hi as int, q);
        }
        a += 1;
    }
    assert(trim_front(v@.subrange(a as int, hi as int), q) == v@.subrange(a as int, hi as int));
    let mut b = hi;
    while b > a && drops(v[b - 1], q)
        invariant
            lo <= a <= b <= hi <= v@.len(),
            trim_back(v@.subrange(a as int, hi as int), q) == trim_back(v@.subrange(a as int, b as int), q),
        decreases b - a,
    {
        proof {
            lemma_trim_back_step(v@, a as int, b as int, q);
        }
        b -= 1;
    }
    (a, b)
}

/// The start setting of one line `v[lo..hi]`.
fn value_of_line(v: &Vec<char>, lo: usize, hi: usize) -> (r: Option<String>)
    requires
        lo <= hi <= v@.len(),
    ensures
        r matches Some(s) ==> line_value(v@.subrange(lo as int, hi as int)) == Some(s@),
        r is None ==> line_value(v@.subrange(lo as int, hi as int)) is None,
{
    let ghost line = v@.subrange(lo as int, hi as int);
    let (a, b) = trimmed(v, lo, hi, None);
    let ghost t = v@.subrange(a as int, b as int);
    if b - a < 5 || !crate::text::spells(v, a, a + 5, "start") {
        proof {
            if t.len() >= 5 {
                assert(t.subrange(0, 5) =~= v@.subrange(a as int, a + 5));
            }
        }
        return None;
    }
    assert(t.subrange(0, 5) =~= v@.subrange(a as int, a + 5));
    let mut k = a;
    while k < b && v[k] != '='
        invariant
            a <= k <= b <= v@.len(),
            forall|j: int| a <= j < k ==> v@[j] != '=',
        decreases b - k,
    {
        k += 1;
    }
    if k == b {
        proof {
            assert forall|m: int| !sole_equals(t, m) by {
                if 0 <= m < t.len() {
                    assert(t[m] == v@[a + m]);
                }
            }
        }
        return None;
    }
    let mut j = k + 1;
    while j < b && v[j] != '='
        invariant
            k < j <= b <= v@.len(),
            forall|i: int| k < i < j ==> v@[i] != '=',
        decreases b - j,
    {
        j += 1;
    }
    if j < b {
        proof {
            assert forall|m: int| !sole_equals(t, m) by {
                if sole_equals(t, m) {
                    assert(t[k - a] == '=');
                    assert(t[j - a] == '=');
                }
            }
        }
        return None;
    }
    let ghost kk = (k - a) as int;
    proof {
        assert forall|i: int| 0 <= i < t.len() && i != kk implies t[i] != '=' by {
            assert(t[i] == v@[a + i]);
        }
        assert(sole_equals(t, kk));
        let c = choose|m: int| sole_equals(t, m);
        assert(c == kk) by {
            if c != kk {
                assert(t[kk] == '=');
            }
        }
        assert(t.subrange(kk + 1, t.len() as int) =~= v@.subrange(k + 1, b as int));
    }
    let (c, d) = trimmed(v, k + 1, b, None);
    let (c, d) = trimmed(v, c, d, Some('"'));
    let (c, d) = trimmed(v, c, d, Some('\''));
    Some(string_of(v, c, d))
}

/// The start script that `mew.toml` names: the value of the first line
/// that sets it, or `None` where no line does.
pub fn start_path(content: &str) -> (r: Option<String>)
    ensures
        r matches Some(p) ==> exists|a: int, b: int| {
            &&& is_line(content@, a, b)
            &&& line_value(content@.subrange(a, b)) == Some(p@)
            &&& forall|a2: int, b2: int| is_line(content@, a2, b2) && b2 < a
                ==> line_value(#[trigger] content@.subrange(a2, b2)) is None
        },
        r is None ==> forall|a: int, b: int| is_line(content@, a, b)
            ==> line_value(#[trigger] content@.subrange(a, b)) is None,
{
    let v = chars_of(content);
    let n = v.len();
    let mut a: usize = 0;
    loop
        invariant
            v@ == content@,
            n == v@.len(),
            a <= n,
            a == 0 || v@[a - 1] == '\n',
            forall|a2: int, b2: int| is_line(v@, a2, b2) && b2 < a
                ==> line_value(#[trigger] v@.subrange(a2, b2)) is None,
        decreases n - a,
    {
        let mut e = a;
        while e < n && v[e] != '\n'
            invariant
                a <= e <= n == v@.len(),
                forall|j: int| a <= j < e ==> v@[j] != '\n',
            decreases n - e,
        {
            e += 1;
        }
        assert(is_line(v@, a as int, e as int));
        match value_of_line(&v, a, e) {
            Some(p) => {
                return Some(p);
            },
            None => {},
        }
        proof {
            assert forall|a2: int, b2: int| is_line(v@, a2, b2) && b2 <= e
                implies line_value(#[trigger] v@.subrange(a2, b2)) is None by {
                if b2 >= a {
                    if b2 < e {
                        assert(v@[b2] != '\n');
                    }
                    assert(b2 == e);
                    if a2 < a {
                        assert(v@[a - 1] == '\n');
                    }
                    if a2 > a {
                        assert(v@[a2 - 1] != '\n');
                    }
                    assert(a2 == a);
                }
            }
        }
        if e == n {
            proof {
                assert forall|a2: int, b2: int| is_line(v@, a2, b2)
                    implies line_value(#[trigger] v@.subrange(a2, b2)) is None by {
                    assert(b2 <= e);
                }
            }
            return None;
        }
        a = e + 1;
    }
}

} // verus!
