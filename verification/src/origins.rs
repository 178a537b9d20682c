use vstd::prelude::*;

verus! {

/// The origins from which a websocket interface accepts connections.
pub enum AllowedOrigins {
    /// Any origin.
    Any,
    /// Only these origins.
    Origins(Vec<String>),
}

/// The abstract value of [`AllowedOrigins`]: `None` for any origin, else the set of origins.
pub open spec fn origins_view(o: &AllowedOrigins) -> Option<Set<Seq<char>>> {
    match o {
        AllowedOrigins::Any => None,
        AllowedOrigins::Origins(v) => Some(v@.map_values(|s: String| s@).to_set()),
    }
}

impl AllowedOrigins {
    /// A copy of these allowed origins.
    pub fn duplicate(&self) -> (r: AllowedOrigins)
        ensures
            origins_view(&r) == origins_view(self),
    {
        match self {
            AllowedOrigins::Any => AllowedOrigins::Any,
            AllowedOrigins::Origins(v) => {
                let mut c: Vec<String> = Vec::new();
                let mut i: usize = 0;
                while i < v.len()
                    invariant
                        i <= v@.len(),
                        c@.len() == i,
                        forall|k: int| 0 <= k < i ==> #[trigger] c@[k]@ == v@[k]@,
                    decreases v@.len() - i,
                {
                    c.push(v[i].clone());
                    i = i + 1;
                }
                assert(c@.map_values(|s: String| s@) =~= v@.map_values(|s: String| s@));
                AllowedOrigins::Origins(c)
            },
        }
    }
}

/// Whether two sets of allowed origins are the same.
pub fn allowed_origins_eq(a: &AllowedOrigins, b: &AllowedOrigins) -> (r: bool)
    ensures
        r == (origins_view(a) == origins_view(b)),
{
    match (a, b) {
        (AllowedOrigins::Any, AllowedOrigins::Any) => true,
        (AllowedOrigins::Origins(x), AllowedOrigins::Origins(y)) => {
            let in_y = all_contained(x, y);
            let in_x = all_contained(y, x);
            proof {
                let sx = x@.map_values(|s: String| s@).to_set();
                let sy = y@.map_values(|s: String| s@).to_set();
                if in_x && in_y {
                    assert(sx =~= sy);
                } else if !in_y {
                    assert(!sx.subset_of(sy));
                } else {
                    assert(!sy.subset_of(sx));
                }
            }
            in_x && in_y
        },
        (AllowedOrigins::Any, AllowedOrigins::Origins(_)) => false,
        (AllowedOrigins::Origins(_), AllowedOrigins::Any) => false,
    }
}

fn all_contained(x: &Vec<String>, y: &Vec<String>) -> (r: bool)
    ensures
        r == x@.map_values(|s: String| s@).to_set().subset_of(
            y@.map_values(|s: String| s@).to_set(),
        ),
{
    let ghost mx = x@.map_values(|s: String| s@);
    let ghost my = y@.map_values(|s: String| s@);
    let mut i: usize = 0;
    while i < x.len()
        invariant
            i <= x@.len(),
            mx == x@.map_values(|s: String| s@),
            my == y@.map_values(|s: String| s@),
            forall|k: int| 0 <= k < i ==> my.contains(#[trigger] mx[k]),
        decreases x@.len() - i,
    {
        let mut found = false;
        let mut j: usize = 0;
        while j < y.len()
            invariant
                i < x@.len(),
                j <= y@.len(),
                mx == x@.map_values(|s: String| s@),
                my == y@.map_values(|s: String| s@),
                found ==> my.contains(mx[i as int]),
                !found ==> forall|k: int| 0 <= k < j ==> my[k] != mx[i as int],
            decreases y@.len() - j,
        {
            if x[i] == y[j] {
                assert(my[j as int] == mx[i as int]);
                found = true;
            }
            j = j + 1;
        }
        if !found {
            proof {
                assert(!my.contains(mx[i as int]));
                assert(mx.to_set().contains(mx[i as int]));
                assert(!my.to_set().contains(mx[i as int]));
            }
            return false;
        }
        i = i + 1;
    }
    proof {
        assert forall|v: Seq<char>| mx.to_set().contains(v) implies my.to_set().contains(v) by {
            let k = choose|k: int| 0 <= k < mx.len() && mx[k] == v;
            assert(my.contains(mx[k]));
        }
    }
    true
}

} // verus!
