use vstd::prelude::*;
use crate::types::{same_hash, BlockHash, Header};

verus! {

/// The header indexed under `hash`: the last one in `hs` that carries it.
pub open spec fn lookup(hs: Seq<Header>, hash: BlockHash) -> Option<Header>
    decreases hs.len(),
{
    if hs.len() == 0 {
        None
    } else if hs.last().hash == hash {
        Some(hs.last())
    } else {
        lookup(hs.drop_last(), hash)
    }
}

/// Follows parent links from `cur` for at most `fuel` headers until `from`
/// is met; the hashes passed, `cur` first, `from` left out.
pub open spec fn walk(hs: Seq<Header>, from: BlockHash, cur: BlockHash, fuel: nat) -> Option<Seq<BlockHash>>
    decreases fuel,
{
    if cur == from {
        Some(Seq::empty())
    } else if fuel == 0 {
        None
    } else {
        match lookup(hs, cur) {
            None => None,
            Some(h) => match walk(hs, from, h.parent_hash, (fuel - 1) as nat) {
                None => None,
                Some(rest) => Some(seq![cur].add(rest)),
            },
        }
    }
}

/// The route from `to` back to `from` through the headers of `hs`: `to`
/// first, `from` left out. A route that exists never visits a header twice,
/// so it has at most as many steps as there are headers.
pub open spec fn ancestry_of(hs: Seq<Header>, from: BlockHash, to: BlockHash) -> Option<Seq<BlockHash>> {
    walk(hs, from, to, hs.len())
}

/// An index over a batch of relay headers, by hash.
pub struct AncestryChain {
    pub headers: Vec<Header>,
}

impl AncestryChain {
    pub open spec fn spec_headers(&self) -> Seq<Header> {
        self.headers@
    }

    /// Indexes a batch of headers.
    pub fn new(headers: Vec<Header>) -> (r: AncestryChain)
        ensures
            r.spec_headers() == headers@,
    {
        AncestryChain { headers }
    }

    /// The header known by `hash`, if the batch holds one.
    pub fn header(&self, hash: &BlockHash) -> (r: Option<&Header>)
        ensures
            match r {
                None => lookup(self.spec_headers(), *hash) is None,
                Some(h) => lookup(self.spec_headers(), *hash) == Some(*h),
            },
    {
        let mut i: usize = self.headers.len();
        assert(self.headers@.take(i as int) =~= self.headers@);
        while i > 0
            invariant
                i <= self.headers@.len(),
                lookup(self.headers@, *hash) == lookup(self.headers@.take(i as int), *hash),
            decreases i,
        {
            let h = &self.headers[i - 1];
            assert(self.headers@.take(i as int).drop_last() =~= self.headers@.take(i - 1));
            if same_hash(&h.hash, hash) {
                return Some(h);
            }
            i = i - 1;
        }
        None
    }

    /// The hashes from `to` back to `from`, `to` first and `from` left out,
    /// following parent links through the batch.
    pub fn ancestry(&self, from: &BlockHash, to: &BlockHash) -> (r: Result<Vec<BlockHash>, ()>)
        ensures
            match r {
                Ok(route) => {
                    &&& ancestry_of(self.spec_headers(), *from, *to) == Some(route@)
                    &&& forall|i: int|
                        0 <= i < route@.len() ==> #[trigger] lookup(self.spec_headers(), route@[i]) is Some
                },
                Err(_) => ancestry_of(self.spec_headers(), *from, *to) is None,
            },
    {
        let ghost hs = self.headers@;
        let n: usize = self.headers.len();
        let mut route: Vec<BlockHash> = Vec::new();
        let mut cur: BlockHash = *to;
        let mut fuel: usize = n;
        while !same_hash(&cur, from)
            invariant
                fuel <= n,
                n == hs.len(),
                hs == self.headers@,
                forall|i: int| 0 <= i < route@.len() ==> #[trigger] lookup(hs, route@[i]) is Some,
                ancestry_of(hs, *from, *to) == match walk(hs, *from, cur, fuel as nat) {
                    None => None,
                    Some(rest) => Some(route@.add(rest)),
                },
            decreases fuel,
        {
            if fuel == 0 {
                return Err(());
            }
            match self.header(&cur) {
                None => {
                    return Err(());
                },
                Some(h) => {
                    let ghost old_route = route@;
                    route.push(cur);
                    assert(old_route.add(seq![cur]) =~= route@);
                    proof {
                        match walk(hs, *from, h.parent_hash, (fuel - 1) as nat) {
                            None => {},
                            Some(rest) => {
                                assert(old_route.add(seq![cur].add(rest)) =~= route@.add(rest));
                            },
                        }
                    }
                    cur = h.parent_hash;
                    fuel = fuel - 1;
                },
            }
        }
        assert(route@.add(Seq::empty()) =~= route@);
        Ok(route)
    }
}

} // verus!
