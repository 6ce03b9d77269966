//! Small verified helpers over strings and string vectors.

use vstd::prelude::*;
use vstd::string::*;

verus! {

/// `p` is an initial segment of `s`.
pub open spec fn is_prefix(s: Seq<char>, p: Seq<char>) -> bool {
    p.len() <= s.len() && p == s.subrange(0, p.len() as int)
}

/// Equality of two string slices, decided by content.
pub fn str_eq(a: &str, b: &str) -> (r: bool)
    ensures
        r == (a@ == b@),
{
    let sa = String::from_str(a);
    let sb = String::from_str(b);
    sa.eq(&sb)
}

/// Whether `s` starts with the prefix `p`.
pub fn has_prefix(s: &str, p: &str) -> (r: bool)
    ensures
        r == is_prefix(s@, p@),
{
    let n = p.unicode_len();
    let m = s.unicode_len();
    if n > m {
        return false;
    }
    let mut i: usize = 0;
    while i < n
        invariant
            0 <= i <= n,
            n == p@.len(),
            n <= m == s@.len(),
            forall|j: int| 0 <= j < i ==> p@[j] == s@[j],
        decreases n - i,
    {
        if p.get_char(i) != s.get_char(i) {
            proof {
                assert(s@.subrange(0, p@.len() as int)[i as int] == s@[i as int]);
            }
            return false;
        }
        i = i + 1;
    }
    proof {
        assert(p@ =~= s@.subrange(0, p@.len() as int));
    }
    true
}

/// Whether the vector holds a string whose characters equal `s`.
pub fn vec_contains_str(v: &Vec<String>, s: &str) -> (r: bool)
    ensures
        r == v.deep_view().contains(s@),
{
    let mut i: usize = 0;
    while i < v.len()
        invariant
            0 <= i <= v@.len(),
            v.deep_view().len() == v@.len(),
            forall|j: int| 0 <= j < v@.len() ==> v.deep_view()[j] == v@[j]@,
            forall|j: int| 0 <= j < i ==> v@[j]@ != s@,
        decreases v@.len() - i,
    {
        if str_eq(v[i].as_str(), s) {
            proof {
                assert(v.deep_view()[i as int] == s@);
            }
            return true;
        }
        i = i + 1;
    }
    proof {
        assert(forall|j: int| 0 <= j < v.deep_view().len() ==> v.deep_view()[j] != s@);
    }
    false
}

/// The stream-kind part of a channel identifier `name:pair`; an
/// identifier without a `:` is all name.
pub open spec fn chan_name(c: Seq<char>) -> Seq<char> {
    match c.index_of_first(':') {
        Some(i) => c.take(i),
        None => c,
    }
}

/// The pair part of a channel identifier `name:pair`; empty without `:`.
pub open spec fn chan_pair(c: Seq<char>) -> Seq<char> {
    match c.index_of_first(':') {
        Some(i) => c.skip(i + 1),
        None => Seq::empty(),
    }
}

/// Splits one channel identifier at its first `:`.
pub fn split_channel(s: &str) -> (r: (String, String))
    ensures
        r.0@ == chan_name(s@),
        r.1@ == chan_pair(s@),
{
    let n = s.unicode_len();
    let mut i: usize = 0;
    while i < n
        invariant
            0 <= i <= n,
            n == s@.len(),
            forall|j: int| 0 <= j < i ==> s@[j] != ':',
        decreases n - i,
    {
        if s.get_char(i) == ':' {
            proof {
                s@.index_of_first_ensures(':');
                assert(s@.contains(':'));
                match s@.index_of_first(':') {
                    Some(k) => {
                        if k < i {
                            assert(s@[k] != ':');
                        }
                        if k > i {
                            assert(s@[i as int] != ':');
                        }
                        assert(k == i);
                    },
                    None => {
                        assert(false);
                    },
                }
            }
            let name = s.substring_char(0, i);
            let pair = s.substring_char(i + 1, n);
            proof {
                assert(chan_name(s@) =~= s@.subrange(0, i as int));
                assert(chan_pair(s@) =~= s@.subrange(i as int + 1, n as int));
            }
            return (String::from_str(name), String::from_str(pair));
        }
        i = i + 1;
    }
    proof {
        if s@.contains(':') {
            let w = choose|w: int| 0 <= w < s@.len() && s@[w] == ':';
            assert(s@[w] != ':');
        }
        s@.index_of_first_ensures(':');
        match s@.index_of_first(':') {
            Some(_) => {
                assert(false);
            },
            None => {},
        }
    }
    (String::from_str(s), String::new())
}

/// The concatenation of three string slices.
pub fn concat3(a: &str, b: &str, c: &str) -> (r: String)
    ensures
        r@ == a@ + b@ + c@,
{
    let mut s = String::from_str(a);
    s.append(b);
    s.append(c);
    s
}

} // verus!
