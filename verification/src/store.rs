//! The `users` table: rows with a server-assigned id, and the three
//! single-row statements the handlers execute against it.

use vstd::prelude::*;

verus! {

/// A persisted user row. The id is assigned by the store on insert and is
/// immutable afterwards; the `admin` flag is not settable through the public
/// creation input and defaults to `false`.
pub struct User {
    pub id: i32,
    pub username: String,
    pub email: String,
    pub password: String,
    pub admin: bool,
}

/// Mathematical image of one row: the id as an unbounded integer, the text
/// fields as character sequences.
pub struct UserView {
    pub id: int,
    pub username: Seq<char>,
    pub email: Seq<char>,
    pub password: Seq<char>,
    pub admin: bool,
}

impl View for User {
    type V = UserView;

    open spec fn view(&self) -> UserView {
        UserView {
            id: self.id as int,
            username: self.username@,
            email: self.email@,
            password: self.password@,
            admin: self.admin,
        }
    }
}

/// What an insert carries: the three required text fields. Neither the id
/// nor the admin flag can be supplied by a caller.
pub struct NewUser {
    pub username: String,
    pub email: String,
    pub password: String,
}

/// The create endpoint's input, as decoded from the request body.
pub struct NewUserInput {
    pub username: String,
    pub email: String,
    pub password: String,
}

/// The table's generic failure signal: a statement that cannot be carried
/// out (here: the id space is exhausted) is collapsed into this one value,
/// with no differentiated error codes.
#[derive(Debug, PartialEq, Eq)]
pub struct DbError;

/// Whether some row of `rows` carries the id `id`.
pub open spec fn contains_id(rows: Seq<UserView>, id: int) -> bool {
    exists|k: int| 0 <= k < rows.len() && #[trigger] rows[k].id == id
}

/// In-memory model of the `users` table: the rows in insertion order, and
/// the id the next successful insert will receive.
pub struct UserStore {
    users: Vec<User>,
    next_id: i32,
}

impl UserStore {
    /// The table's contents, in insertion order, as mathematical rows.
    pub closed spec fn rows(self) -> Seq<UserView> {
        self.users@.map_values(|u: User| u@)
    }

    /// The id the next successful insert will be given.
    pub closed spec fn fresh_id(self) -> int {
        self.next_id as int
    }

    /// Table invariant: ids are positive, strictly increasing in insertion
    /// order, and all below the next fresh id.
    pub closed spec fn wf(self) -> bool {
        &&& 1 <= self.fresh_id() <= i32::MAX
        &&& forall|k: int|
            0 <= k < self.rows().len() ==> 0 < #[trigger] self.rows()[k].id < self.fresh_id()
        &&& forall|i: int, j: int|
            0 <= i < j < self.rows().len() ==> #[trigger] self.rows()[i].id < #[trigger] self.rows()[j].id
    }

    /// An empty table; the first insert will receive id 1.
    pub fn new() -> (s: UserStore)
        ensures
            s.wf(),
            s.rows().len() == 0,
            s.fresh_id() == 1,
    {
        UserStore { users: Vec::new(), next_id: 1 }
    }

    /// An empty table whose next insert will receive the given id, as a
    /// database would present after prior, since-deleted history.
    pub fn starting_at(fresh: i32) -> (s: UserStore)
        requires
            1 <= fresh,
        ensures
            s.wf(),
            s.rows().len() == 0,
            s.fresh_id() == fresh as int,
    {
        UserStore { users: Vec::new(), next_id: fresh }
    }

    /// Inserts a row built from `nu`: the store assigns the next fresh id,
    /// leaves the admin flag at its default, and returns the created row.
    /// The one failure is an exhausted id space.
    pub fn create(&mut self, nu: NewUser) -> (r: Result<User, DbError>)
        requires
            old(self).wf(),
        ensures
            final(self).wf(),
            r is Ok <==> old(self).fresh_id() < i32::MAX,
            (r matches Ok(u) ==> {
                &&& u@.id == old(self).fresh_id()
                &&& 0 < u@.id
                &&& u@.username == nu.username@
                &&& u@.email == nu.email@
                &&& u@.password == nu.password@
                &&& u@.admin == false
                &&& final(self).rows() == old(self).rows().push(u@)
                &&& final(self).fresh_id() == old(self).fresh_id() + 1
                &&& contains_id(final(self).rows(), u@.id)
            }),
            r is Err ==> *final(self) == *old(self),
    {
        if self.next_id == i32::MAX {
            return Err(DbError);
        }
        let id = self.next_id;
        let row = User {
            id,
            username: nu.username.clone(),
            email: nu.email.clone(),
            password: nu.password.clone(),
            admin: false,
        };
        let out = User {
            id,
            username: nu.username,
            email: nu.email,
            password: nu.password,
            admin: false,
        };
        proof {
            lemma_rows_push(self.users@, row);
        }
        self.users.push(row);
        self.next_id = id + 1;
        proof {
            assert(self.rows() =~= old(self).rows().push(out@));
            assert forall|k: int| 0 <= k < self.rows().len()
                implies 0 < #[trigger] self.rows()[k].id < self.fresh_id() by {
                if k < self.rows().len() - 1 {
                    assert(self.rows()[k] == old(self).rows()[k]);
                }
            }
            assert(contains_id(self.rows(), out@.id)) by {
                assert(self.rows()[self.rows().len() - 1].id == out@.id);
            }
        }
        Ok(out)
    }

    /// Fetches the row with the given id, if any. The result is the matching
    /// row exactly when one exists, and absence otherwise — absence is not
    /// an error.
    pub fn read(&self, id: i32) -> (r: Option<User>)
        requires
            self.wf(),
        ensures
            r is Some <==> contains_id(self.rows(), id as int),
            r matches Some(u) ==> forall|k: int|
                0 <= k < self.rows().len() && #[trigger] self.rows()[k].id == id as int
                    ==> u@ == self.rows()[k],
    {
        let n = self.users.len();
        let mut i: usize = 0;
        while i < n
            invariant
                self.wf(),
                n == self.users.len(),
                i <= n,
                forall|k: int| 0 <= k < i ==> #[trigger] self.rows()[k].id != id as int,
            decreases n - i,
        {
            if self.users[i].id == id {
                let u = dup(&self.users[i]);
                proof {
                    assert(self.rows()[i as int].id == id as int);
                    assert forall|k: int|
                        0 <= k < self.rows().len() && #[trigger] self.rows()[k].id == id as int
                        implies u@ == self.rows()[k] by {
                        if k < i as int {
                            assert(self.rows()[k].id != id as int);
                        } else if k > i as int {
                            assert(self.rows()[i as int].id < self.rows()[k].id);
                        }
                    }
                }
                return Some(u);
            }
            i = i + 1;
        }
        None
    }

    /// Deletes the row with the given id. Exactly one row is affected when
    /// the id is present, in which case the result is success; a delete that
    /// affects no row is reported as the same absence signal a failed lookup
    /// gives, not as a distinct error.
    pub fn delete(&mut self, id: i32) -> (r: Option<()>)
        requires
            old(self).wf(),
        ensures
            final(self).wf(),
            r is Some <==> contains_id(old(self).rows(), id as int),
            final(self).fresh_id() == old(self).fresh_id(),
            r is None ==> *final(self) == *old(self),
            r is Some ==> exists|k: int|
                0 <= k < old(self).rows().len() && #[trigger] old(self).rows()[k].id == id as int
                    && final(self).rows() == old(self).rows().remove(k),
            !contains_id(final(self).rows(), id as int),
    {
        let n = self.users.len();
        let mut i: usize = 0;
        while i < n
            invariant
                *self == *old(self),
                self.wf(),
                n == self.users.len(),
                i <= n,
                forall|k: int| 0 <= k < i ==> #[trigger] self.rows()[k].id != id as int,
            decreases n - i,
        {
            if self.users[i].id == id {
                proof {
                    lemma_rows_remove(self.users@, i as int);
                }
                self.users.remove(i);
                proof {
                    let prev = old(self).rows();
                    assert(self.rows() =~= prev.remove(i as int));
                    assert forall|a: int, b: int|
                        0 <= a < b < self.rows().len()
                        implies #[trigger] self.rows()[a].id < #[trigger] self.rows()[b].id by {
                        let a0 = if a < i as int { a } else { a + 1 };
                        let b0 = if b < i as int { b } else { b + 1 };
                        assert(self.rows()[a] == prev[a0]);
                        assert(self.rows()[b] == prev[b0]);
                        assert(prev[a0].id < prev[b0].id);
                    }
                    assert forall|k: int| 0 <= k < self.rows().len()
                        implies 0 < #[trigger] self.rows()[k].id < self.fresh_id() by {
                        let k0 = if k < i as int { k } else { k + 1 };
                        assert(self.rows()[k] == prev[k0]);
                    }
                    lemma_removed_id_absent(prev, i as int, id as int);
                    assert(prev[i as int].id == id as int);
                    assert(self.rows() == prev.remove(i as int));
                }
                return Some(());
            }
            i = i + 1;
        }
        None
    }
}

/// A field-for-field copy of a row, equal to the original in view.
fn dup(u: &User) -> (r: User)
    ensures
        r@ == u@,
{
    User {
        id: u.id,
        username: u.username.clone(),
        email: u.email.clone(),
        password: u.password.clone(),
        admin: u.admin,
    }
}

proof fn lemma_rows_push(s: Seq<User>, u: User)
    ensures
        s.push(u).map_values(|x: User| x@) =~= s.map_values(|x: User| x@).push(u@),
{
}

proof fn lemma_rows_remove(s: Seq<User>, k: int)
    requires
        0 <= k < s.len(),
    ensures
        s.remove(k).map_values(|x: User| x@) =~= s.map_values(|x: User| x@).remove(k),
{
}

/// With ids strictly increasing — hence unique — removing the row that
/// carries `id` leaves no row carrying `id`: a lookup after the delete
/// finds nothing.
pub proof fn lemma_removed_id_absent(rows: Seq<UserView>, k: int, id: int)
    requires
        forall|i: int, j: int|
            0 <= i < j < rows.len() ==> #[trigger] rows[i].id < #[trigger] rows[j].id,
        0 <= k < rows.len(),
        rows[k].id == id,
    ensures
        !contains_id(rows.remove(k), id),
{
    let out = rows.remove(k);
    assert forall|m: int| 0 <= m < out.len() implies #[trigger] out[m].id != id by {
        if m < k {
            assert(out[m] == rows[m]);
            assert(rows[m].id < rows[k].id);
        } else {
            assert(out[m] == rows[m + 1]);
            assert(rows[k].id < rows[m + 1].id);
        }
    }
}

/// An id the store never assigned is absent: ids are handed out from 1
/// upward, so nothing at zero or below, and nothing at or above the next
/// fresh id, is in the table; a read of such an id returns nothing.
pub proof fn lemma_unassigned_id_absent(s: UserStore, id: int)
    requires
        s.wf(),
        id <= 0 || id >= s.fresh_id(),
    ensures
        !contains_id(s.rows(), id),
{
}

} // verus!
