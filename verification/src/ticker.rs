//! The record a listing of a token is stored in.

use vstd::prelude::*;
use vstd::utf8::encode_utf8;

verus! {

/// A listed token.
#[derive(Clone, Debug, PartialEq, Eq)]
pub struct Ticker {
    pub address: String,
    pub image: String,
    pub name: String,
    pub ticker: String,
    pub description: String,
    pub badges: Vec<String>,
}

/// Bytes the first `n` badges take, each with its length prefix.
pub open spec fn badges_size(badges: Seq<String>, n: int) -> int
    decreases n,
{
    if n <= 0 {
        0
    } else {
        badges_size(badges, n - 1) + 4 + encode_utf8(badges[n - 1]@).len()
    }
}

impl Ticker {
    /// Bytes a stored listing with these fields takes.
    pub open spec fn size_of(
        a: String,
        i: String,
        n: String,
        t: String,
        d: String,
        b: Vec<String>,
    ) -> int {
        8 + 4 + encode_utf8(a@).len() + 4 + encode_utf8(i@).len() + 4 + encode_utf8(n@).len() + 4
            + encode_utf8(t@).len() + 4 + encode_utf8(d@).len() + 4 + b@.len() + badges_size(
            b@,
            b@.len() as int,
        )
    }

    /// Bytes a stored listing with these fields takes.
    pub fn get_size(a: String, i: String, n: String, t: String, d: String, b: Vec<String>) -> (size:
        usize)
        requires
            Self::size_of(a, i, n, t, d, b) <= usize::MAX,
        ensures
            size == Self::size_of(a, i, n, t, d, b),
    {
        let mut lens: usize = 0;
        let mut k: usize = 0;
        proof {
            lemma_badges_size_grows(b@, 0, b@.len() as int);
        }
        while k < b.len()
            invariant
                0 <= k <= b@.len(),
                lens == badges_size(b@, k as int),
                badges_size(b@, b@.len() as int) <= usize::MAX,
            decreases b@.len() - k,
        {
            proof {
                lemma_badges_size_grows(b@, k + 1, b@.len() as int);
            }
            lens = lens + 4 + b[k].as_str().len();
            k += 1;
        }
        8 + 4 + a.as_str().len() + 4 + i.as_str().len() + 4 + n.as_str().len() + 4
            + t.as_str().len() + 4 + d.as_str().len() + 4 + b.len() + lens
    }
}

/// More badges take no fewer bytes.
pub proof fn lemma_badges_size_grows(badges: Seq<String>, fewer: int, more: int)
    requires
        0 <= fewer <= more,
    ensures
        0 <= badges_size(badges, fewer) <= badges_size(badges, more),
    decreases more,
{
    if fewer < more {
        lemma_badges_size_grows(badges, fewer, more - 1);
    } else if more > 0 {
        lemma_badges_size_grows(badges, fewer - 1, more - 1);
    }
}

} // verus!
