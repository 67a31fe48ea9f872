//! Subscriptions of users to crates.

use vstd::prelude::*;
use crate::errors::{Error, ErrorKind};
use crate::model::{Crate, Follow, User};
use crate::registry::{first_in_slot, follows_wf, slot_taken, Registry};

verus! {

/// The subscriptions with `f` among them: added at the end if it was not
/// there.
pub open spec fn with_follow(follows: Seq<Follow>, f: Follow) -> Seq<Follow> {
    if follows.contains(f) {
        follows
    } else {
        follows.push(f)
    }
}

/// The subscriptions without `f`. Each subscription is there once at most, so
/// taking out the one at the position that `index_of` gives takes out `f`.
pub open spec fn without_follow(follows: Seq<Follow>, f: Follow) -> Seq<Follow> {
    if follows.contains(f) {
        follows.remove(follows.index_of(f))
    } else {
        follows
    }
}

/// The subscription of `user` to the crate that holds the slot of
/// `crate_name`.
pub open spec fn target_of(conn: Registry, user: User, crate_name: Seq<char>) -> Follow {
    Follow { user_id: user.id, crate_id: conn.crates@[first_in_slot(conn.crates@, crate_name)].id }
}

impl Registry {
    /// The position of the subscription `f`.
    pub fn follow_position(&self, f: Follow) -> (r: Option<usize>)
        requires
            self.wf(),
        ensures
            match r {
                Some(i) => self.follows@.contains(f) && i == self.follows@.index_of(f) && i
                    < self.follows@.len() && self.follows@[i as int] == f,
                None => !self.follows@.contains(f),
            },
    {
        let mut i: usize = 0;
        while i < self.follows.len()
            invariant
                i <= self.follows.len(),
                self.wf(),
                forall|j: int| 0 <= j < i ==> self.follows@[j] != f,
            decreases self.follows.len() - i,
        {
            let have = self.follows[i];
            if have.user_id == f.user_id && have.crate_id == f.crate_id {
                proof {
                    reveal(follows_wf);
                    assert(self.follows@[i as int] == f);
                    let k = self.follows@.index_of(f);
                    assert(self.follows@.contains(f));
                    assert(0 <= k < self.follows@.len() && self.follows@[k] == f);
                    if k != i {
                        assert(self.follows@[k] != self.follows@[i as int]);
                    }
                }
                return Some(i);
            }
            i = i + 1;
        }
        None
    }
}

/// The subscription that a request of `user` about the crate `crate_name` is
/// about.
pub fn follow_target(conn: &Registry, user: &User, crate_name: &str) -> (r: Result<Follow, Error>)
    ensures
        match r {
            Ok(f) => slot_taken(conn.crates@, crate_name@) && f == target_of(
                *conn,
                *user,
                crate_name@,
            ),
            Err(e) => !slot_taken(conn.crates@, crate_name@) && e@ == (
                ErrorKind::NotFound,
                Seq::<char>::empty(),
            ),
        },
{
    match Crate::by_name(conn, crate_name) {
        Some(c) => Ok(Follow { user_id: user.id, crate_id: c.id }),
        None => Err(Error::bare(ErrorKind::NotFound)),
    }
}

/// Subscribes `user` to the crate `crate_name`. Subscribing twice is
/// subscribing once.
pub fn follow(conn: &mut Registry, user: &User, crate_name: &str) -> (r: Result<(), Error>)
    requires
        old(conn).wf(),
    ensures
        final(conn).wf(),
        if slot_taken(old(conn).crates@, crate_name@) {
            r is Ok && final(conn).follows@ == with_follow(
                old(conn).follows@,
                target_of(*old(conn), *user, crate_name@),
            ) && *final(conn) == (Registry { follows: final(conn).follows, ..*old(conn) })
        } else {
            r matches Err(e) && e@ == (ErrorKind::NotFound, Seq::<char>::empty()) && *final(conn)
                == *old(conn)
        },
{
    let f = follow_target(conn, user, crate_name)?;
    if conn.follow_position(f).is_none() {
        proof {
            reveal(follows_wf);
            let after = conn.follows@.push(f);
            assert forall|i: int, j: int|
                #![trigger after[i], after[j]]
                0 <= i < after.len() && 0 <= j < after.len() && i != j implies after[i]
                != after[j] by {
                if i < conn.follows@.len() {
                    assert(after[i] == conn.follows@[i]);
                }
                if j < conn.follows@.len() {
                    assert(after[j] == conn.follows@[j]);
                }
            }
        }
        conn.follows.push(f);
    }
    Ok(())
}

/// Ends the subscription of `user` to the crate `crate_name`, if there is one.
pub fn unfollow(conn: &mut Registry, user: &User, crate_name: &str) -> (r: Result<(), Error>)
    requires
        old(conn).wf(),
    ensures
        final(conn).wf(),
        if slot_taken(old(conn).crates@, crate_name@) {
            r is Ok && final(conn).follows@ == without_follow(
                old(conn).follows@,
                target_of(*old(conn), *user, crate_name@),
            ) && *final(conn) == (Registry { follows: final(conn).follows, ..*old(conn) })
        } else {
            r matches Err(e) && e@ == (ErrorKind::NotFound, Seq::<char>::empty()) && *final(conn)
                == *old(conn)
        },
{
    let f = follow_target(conn, user, crate_name)?;
    match conn.follow_position(f) {
        Some(i) => {
            proof {
                reveal(follows_wf);
                let before = conn.follows@;
                let after = before.remove(i as int);
                assert forall|a: int, b: int|
                    #![trigger after[a], after[b]]
                    0 <= a < after.len() && 0 <= b < after.len() && a != b implies after[a]
                    != after[b] by {
                    let oa = if a < i {
                        a
                    } else {
                        a + 1
                    };
                    let ob = if b < i {
                        b
                    } else {
                        b + 1
                    };
                    assert(after[a] == before[oa]);
                    assert(after[b] == before[ob]);
                }
            }
            conn.follows.remove(i);
        },
        None => {},
    }
    Ok(())
}

/// Whether `user` is subscribed to the crate `crate_name`.
pub fn following(conn: &Registry, user: &User, crate_name: &str) -> (r: Result<bool, Error>)
    requires
        conn.wf(),
    ensures
        match r {
            Ok(b) => slot_taken(conn.crates@, crate_name@) && b == conn.follows@.contains(
                target_of(*conn, *user, crate_name@),
            ),
            Err(e) => !slot_taken(conn.crates@, crate_name@) && e@ == (
                ErrorKind::NotFound,
                Seq::<char>::empty(),
            ),
        },
{
    let f = follow_target(conn, user, crate_name)?;
    Ok(conn.follow_position(f).is_some())
}

} // verus!
