use vstd::prelude::*;

use crate::tensor::elem_ok;
use crate::tensor::fill;
use crate::tensor::sv_const;
use crate::tensor::Dims;
use crate::tensor::Tensor;
use vstd::string::StrSliceExecFns;

verus! {

/// A tensor of the given extents with every element equal to `val`.
pub fn constant(dims: Dims, val: i64) -> (r: Tensor)
    requires
        dims.wf(),
        elem_ok(val as int),
    ensures
        r.wf(),
        r.dims == dims,
        r@ == sv_const(dims.rows as nat, dims.cols as nat, dims.time as nat, val as int),
{
    fill(dims, val)
}

/// Exact string equality, verified down to the character sequences.
pub fn str_eq(a: &str, b: &str) -> (r: bool)
    ensures
        r == (a@ == b@),
{
    let sa = a.to_owned();
    let sb = b.to_owned();
    sa == sb
}

/// Whether two characters agree up to ASCII case.
pub open spec fn eq_char_ci(x: char, y: char) -> bool {
    ||| x == y
    ||| ('A' <= x && x <= 'Z' && y as int == x as int + 32)
    ||| ('A' <= y && y <= 'Z' && x as int == y as int + 32)
}

/// Whether two character sequences agree up to ASCII case.
pub open spec fn eq_ignore_ascii_case(a: Seq<char>, b: Seq<char>) -> bool {
    a.len() == b.len() && forall|i: int| 0 <= i < a.len() ==> eq_char_ci(#[trigger] a[i], b[i])
}

/// Exact string comparison up to ASCII case, verified per character.
pub fn str_eq_ci(a: &str, b: &str) -> (r: bool)
    ensures
        r == eq_ignore_ascii_case(a@, b@),
{
    let la = a.unicode_len();
    let lb = b.unicode_len();
    if la != lb {
        return false;
    }
    let mut i: usize = 0;
    while i < la
        invariant
            la == a@.len(),
            la == b@.len(),
            i <= la,
            forall|k: int| 0 <= k < i ==> eq_char_ci(#[trigger] a@[k], b@[k]),
        decreases la - i,
    {
        let ca = a.get_char(i);
        let cb = b.get_char(i);
        let same = ca == cb || ('A' <= ca && ca <= 'Z' && cb as u32 == ca as u32 + 32) || ('A'
            <= cb && cb <= 'Z' && ca as u32 == cb as u32 + 32);
        if !same {
            proof {
                assert(!eq_char_ci(a@[i as int], b@[i as int]));
            }
            return false;
        }
        i += 1;
    }
    true
}

/// The value bound to `k` by a key-value list, later bindings shadowing
/// earlier ones.
pub open spec fn lookup(entries: Seq<(String, String)>, k: Seq<char>) -> Option<Seq<char>>
    decreases entries.len(),
{
    if entries.len() == 0 {
        None
    } else if entries.last().0@ == k {
        Some(entries.last().1@)
    } else {
        lookup(entries.drop_last(), k)
    }
}

/// A small string-to-string mapping, the shape layer configuration takes: a
/// list of bindings where the latest binding of a key wins.
pub struct StrMap {
    pub entries: Vec<(String, String)>,
}

impl StrMap {
    pub open spec fn spec_get(self, k: Seq<char>) -> Option<Seq<char>> {
        lookup(self.entries@, k)
    }

    /// An empty mapping.
    pub fn new() -> (m: StrMap)
        ensures
            m.entries@.len() == 0,
            forall|k: Seq<char>| m.spec_get(k) is None,
    {
        StrMap { entries: Vec::new() }
    }

    /// Binds `k` to `v`, shadowing any earlier binding of `k`.
    pub fn insert(&mut self, k: &str, v: String)
        ensures
            final(self).spec_get(k@) == Some::<Seq<char>>(v@),
            forall|k2: Seq<char>|
                k2 != k@ ==> final(self).spec_get(k2) == old(self).spec_get(k2),
            final(self).entries@.len() == old(self).entries@.len() + 1,
            final(self).entries@.drop_last() == old(self).entries@,
            final(self).entries@.last().0@ == k@,
            final(self).entries@.last().1 == v,
    {
        let ghost before = self.entries@;
        let kk = k.to_owned();
        let ghost kkv = kk;
        self.entries.push((kk, v));
        proof {
            assert(self.entries@.drop_last() =~= before);
            assert(self.entries@.last() == (kkv, v));
        }
    }

    /// Number of bindings, shadowed ones included.
    pub fn len(&self) -> (n: usize)
        ensures
            n == self.entries@.len(),
    {
        self.entries.len()
    }

    /// Looks `k` up, returning a copy of the latest value bound to it.
    pub fn get(&self, k: &str) -> (r: Option<String>)
        ensures
            match r {
                Some(v) => self.spec_get(k@) == Some(v@),
                None => self.spec_get(k@) is None,
            },
    {
        let mut i: usize = self.entries.len();
        proof {
            assert(self.entries@.take(i as int) =~= self.entries@);
        }
        while i > 0
            invariant
                i <= self.entries@.len(),
                lookup(self.entries@.take(i as int), k@) == lookup(self.entries@, k@),
            decreases i,
        {
            proof {
                assert(self.entries@.take(i as int).last() == self.entries@[i - 1]);
                assert(self.entries@.take(i as int).drop_last() =~= self.entries@.take(i - 1));
            }
            i -= 1;
            let entry_key: &String = &self.entries[i].0;
            if str_eq(entry_key.as_str(), k) {
                let v = self.entries[i].1.clone();
                return Some(v);
            }
        }
        proof {
            assert(self.entries@.take(0) =~= Seq::<(String, String)>::empty());
        }
        None
    }
}

/// Whether `c` is a decimal digit.
pub open spec fn is_digit(c: char) -> bool {
    '0' <= c && c <= '9'
}

/// The number a sequence of decimal digits denotes.
pub open spec fn digits_val(s: Seq<char>) -> int
    decreases s.len(),
{
    if s.len() == 0 {
        0
    } else {
        digits_val(s.drop_last()) * 10 + (s.last() as int - '0' as int)
    }
}

/// Whether every character of `s` is a decimal digit.
pub open spec fn all_digits(s: Seq<char>) -> bool {
    forall|i: int| 0 <= i < s.len() ==> is_digit(#[trigger] s[i])
}

/// Digit strings denote nonnegative numbers.
pub proof fn lemma_digits_nonneg(s: Seq<char>)
    requires
        all_digits(s),
    ensures
        digits_val(s) >= 0,
    decreases s.len(),
{
    if s.len() > 0 {
        assert(all_digits(s.drop_last())) by {
            assert(forall|i: int| 0 <= i < s.len() - 1 ==> s.drop_last()[i] == #[trigger] s[i]);
        }
        lemma_digits_nonneg(s.drop_last());
        assert(is_digit(s.last()));
    }
}

/// A digit string denotes at least as much as any of its prefixes.
pub proof fn lemma_digits_prefix_le(s: Seq<char>, n: int)
    requires
        all_digits(s),
        0 <= n <= s.len(),
    ensures
        digits_val(s.take(n)) <= digits_val(s),
    decreases s.len() - n,
{
    if n < s.len() {
        lemma_digits_prefix_le(s, n + 1);
        let p = s.take(n + 1);
        assert(all_digits(p)) by {
            assert(forall|i: int| 0 <= i < n + 1 ==> p[i] == #[trigger] s[i]);
        }
        assert(p.drop_last() =~= s.take(n));
        assert(is_digit(p.last()));
        lemma_digits_nonneg(p.drop_last());
    } else {
        assert(s.take(n) =~= s);
    }
}

/// Parses a nonempty string of decimal digits. Returns the denoted number
/// exactly when the string is well formed and the number fits a `usize`.
pub fn parse_usize(s: &str) -> (r: Option<usize>)
    ensures
        r is Some <==> s@.len() > 0 && all_digits(s@) && digits_val(s@) <= usize::MAX,
        r is Some ==> r->0 == digits_val(s@),
{
    let len = s.unicode_len();
    if len == 0 {
        return None;
    }
    let mut v: usize = 0;
    let mut i: usize = 0;
    while i < len
        invariant
            len == s@.len(),
            0 < len,
            i <= len,
            all_digits(s@.take(i as int)),
            v == digits_val(s@.take(i as int)),
        decreases len - i,
    {
        let c = s.get_char(i);
        if c < '0' || c > '9' {
            proof {
                assert(!is_digit(s@[i as int]));
                assert(!all_digits(s@));
            }
            return None;
        }
        let d = (c as u32 - '0' as u32) as usize;
        if v > (usize::MAX - d) / 10 {
            proof {
                let p = s@.take(i as int + 1);
                assert(p.drop_last() =~= s@.take(i as int));
                assert(p.last() == s@[i as int]);
                assert(digits_val(p) == v * 10 + d);
                vstd::arithmetic::div_mod::lemma_fundamental_div_mod(
                    usize::MAX as int - d as int,
                    10,
                );
                assert(digits_val(p) > usize::MAX);
                if all_digits(s@) {
                    lemma_digits_prefix_le(s@, i as int + 1);
                    assert(digits_val(s@) >= digits_val(p));
                }
            }
            return None;
        }
        proof {
            vstd::arithmetic::div_mod::lemma_fundamental_div_mod(usize::MAX as int - d as int, 10);
            assert(v * 10 + d <= usize::MAX);
        }
        proof {
            let p = s@.take(i as int + 1);
            assert(p.drop_last() =~= s@.take(i as int));
            assert(p.last() == s@[i as int]);
            assert(all_digits(p)) by {
                assert(forall|m: int|
                    0 <= m < i as int + 1 ==> p[m] == #[trigger] s@.take(i as int + 1)[m]);
            }
        }
        v = v * 10 + d;
        i += 1;
    }
    proof {
        assert(s@.take(len as int) =~= s@);
    }
    Some(v)
}

} // verus!
