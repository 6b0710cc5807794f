//! The migration runner's decision: which of the schema migrations built
//! into the binary remain to be applied. Running them — and refusing to
//! serve traffic if one fails — is the caller's part.

use vstd::prelude::*;

verus! {

/// Whether version `v` occurs in `applied`.
fn contains_version(applied: &Vec<u64>, v: u64) -> (r: bool)
    ensures
        r == applied@.contains(v),
{
    let n = applied.len();
    let mut i: usize = 0;
    while i < n
        invariant
            n == applied@.len(),
            i <= n,
            forall|k: int| 0 <= k < i ==> applied@[k] != v,
        decreases n - i,
    {
        if applied[i] == v {
            return true;
        }
        i = i + 1;
    }
    false
}

/// Of the migration versions defined in the binary, in their defined
/// order, those not yet recorded as applied: exactly what the startup
/// runner must still apply, oldest first, before the server accepts
/// traffic.
#[verifier::loop_isolation(false)]
pub fn pending_migrations(all: &Vec<u64>, applied: &Vec<u64>) -> (r: Vec<u64>)
    ensures
        r@ == all@.filter(|v: u64| !applied@.contains(v)),
{
    let n = all.len();
    let mut out: Vec<u64> = Vec::new();
    let mut i: usize = 0;
    while i < n
        invariant
            i <= n,
            out@ == all@.take(i as int).filter(|v: u64| !applied@.contains(v)),
        decreases n - i,
    {
        let v = all[i];
        proof {
            reveal(Seq::filter);
            assert(all@.take(i + 1).drop_last() =~= all@.take(i as int));
            assert(all@.take(i + 1).last() == all@[i as int]);
        }
        if !contains_version(applied, v) {
            out.push(v);
        }
        i = i + 1;
    }
    proof {
        assert(all@.take(n as int) =~= all@);
    }
    out
}

} // verus!
