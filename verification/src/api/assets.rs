//! The asset route's path handling. Looking an asset up and serving it is
//! the transport layer's work; what is verified here is the path the lookup
//! receives: the request's segments joined with `/`.

use vstd::prelude::*;
use vstd::string::StringExecFns;

verus! {

/// The path segments extracted from an asset request.
pub struct PathExtractor {
    pub parts: Vec<String>,
}

/// Segments joined with a single `/` between consecutive segments.
pub open spec fn joined_path(parts: Seq<Seq<char>>) -> Seq<char>
    decreases parts.len(),
{
    if parts.len() == 0 {
        Seq::empty()
    } else if parts.len() == 1 {
        parts[0]
    } else {
        parts[0] + seq!['/'] + joined_path(parts.skip(1))
    }
}

/// Joining distributes over appending one segment at the end.
proof fn lemma_joined_path_push(parts: Seq<Seq<char>>)
    requires
        parts.len() > 1,
    ensures
        joined_path(parts) == joined_path(parts.drop_last()) + seq!['/'] + parts.last(),
    decreases parts.len(),
{
    if parts.len() == 2 {
        assert(parts.skip(1) =~= seq![parts[1]]);
        assert(parts.drop_last() =~= seq![parts[0]]);
        assert(joined_path(seq![parts[1]]) == parts[1]);
        assert(joined_path(seq![parts[0]]) == parts[0]);
        assert(joined_path(parts) =~= joined_path(parts.drop_last()) + seq!['/'] + parts.last());
    } else {
        lemma_joined_path_push(parts.skip(1));
        assert(parts.skip(1).drop_last() =~= parts.drop_last().skip(1));
        assert(parts.drop_last()[0] == parts[0]);
        assert(joined_path(parts) =~= joined_path(parts.drop_last()) + seq!['/'] + parts.last());
    }
}

impl PathExtractor {
    /// The relative path the asset lookup receives.
    pub fn asset_path(&self) -> (r: String)
        ensures
            r@ == joined_path(self.parts.deep_view()),
    {
        let ghost parts: Seq<Seq<char>> = self.parts.deep_view();
        let mut r = String::new();
        let mut i: usize = 0;
        while i < self.parts.len()
            invariant
                i <= parts.len(),
                parts == self.parts.deep_view(),
                parts.len() == self.parts@.len(),
                forall|j: int| 0 <= j < parts.len() ==> parts[j] == self.parts@[j]@,
                r@ == joined_path(parts.take(i as int)),
            decreases parts.len() - i,
        {
            if i > 0 {
                r.append("/");
                proof {
                    reveal_strlit("/");
                    assert("/"@ =~= seq!['/']);
                }
            }
            r.append(self.parts[i].as_str());
            proof {
                if i == 0 {
                    assert(parts.take(1int) =~= seq![parts[0]]);
                    assert(r@ =~= joined_path(parts.take(i as int + 1)));
                } else {
                    lemma_joined_path_push(parts.take(i as int + 1));
                    assert(parts.take(i as int + 1).drop_last() =~= parts.take(i as int));
                    assert(r@ =~= joined_path(parts.take(i as int + 1)));
                }
            }
            i = i + 1;
        }
        proof {
            assert(parts.take(parts.len() as int) =~= parts);
        }
        r
    }
}

} // verus!
