use crate::token::SessionToken;
use rand_chacha::ChaCha8Rng;
use vstd::prelude::*;

verus! {

/// Why a session could not be recorded.
#[derive(Clone, Copy, Debug, PartialEq, Eq, Structural)]
pub enum StoreError {
    /// A session with this token already exists; retry with a fresh token.
    DuplicateKey,
}

/// The session table: each row maps a token (its primary key) to the user
/// who logged in with it. A row's existence is the proof of a login, and
/// deleting it is the only way to end one.
pub struct SessionStore {
    rows: Vec<(u128, i32)>,
    model: Ghost<Map<u128, i32>>,
}

impl View for SessionStore {
    type V = Map<u128, i32>;

    /// The token value of each live session, mapped to its user.
    closed spec fn view(&self) -> Map<u128, i32> {
        self.model@
    }
}

impl SessionStore {
    /// The rows agree with the model and no token appears twice.
    pub closed spec fn wf(&self) -> bool {
        &&& forall|i: int|
            0 <= i < self.rows@.len() ==> #[trigger] self.model@.contains_key(self.rows@[i].0)
                && self.model@[self.rows@[i].0] == self.rows@[i].1
        &&& forall|k: u128|
            #[trigger] self.model@.contains_key(k) ==> exists|i: int|
                0 <= i < self.rows@.len() && #[trigger] self.rows@[i].0 == k
        &&& forall|i: int, j: int|
            0 <= i < j < self.rows@.len() ==> #[trigger] self.rows@[i].0 != #[trigger] self.rows@[j].0
    }

    /// An empty table.
    pub fn new() -> (r: SessionStore)
        ensures
            r.wf(),
            r@ == Map::<u128, i32>::empty(),
    {
        SessionStore { rows: Vec::new(), model: Ghost(Map::empty()) }
    }

    /// Whether no session is open.
    pub fn is_empty(&self) -> (r: bool)
        requires
            self.wf(),
        ensures
            r == (self@ == Map::<u128, i32>::empty()),
    {
        proof {
            if self.rows@.len() > 0 {
                assert(self@.contains_key(self.rows@[0].0));
            } else {
                assert forall|k: u128| !self@.contains_key(k) by {
                    if self@.contains_key(k) {
                        let i = choose|i: int| 0 <= i < self.rows@.len() && #[trigger] self.rows@[i].0 == k;
                    }
                }
                assert(self@ =~= Map::<u128, i32>::empty());
            }
        }
        self.rows.len() == 0
    }

    /// The row index of `key`, if a row has it.
    fn position(&self, key: u128) -> (r: Option<usize>)
        requires
            self.wf(),
        ensures
            r is None <==> !self@.contains_key(key),
            r matches Some(i) ==> i < self.rows@.len() && self.rows@[i as int].0 == key,
    {
        let mut i: usize = 0;
        while i < self.rows.len()
            invariant
                self.wf(),
                i <= self.rows@.len(),
                forall|j: int| 0 <= j < i ==> self.rows@[j].0 != key,
            decreases self.rows@.len() - i,
        {
            if self.rows[i].0 == key {
                return Some(i);
            }
            i = i + 1;
        }
        proof {
            if self@.contains_key(key) {
                let j = choose|j: int| 0 <= j < self.rows@.len() && #[trigger] self.rows@[j].0 == key;
            }
        }
        None
    }

    /// Records a new session. An existing session with the same token is
    /// never overwritten: that is a `DuplicateKey` error.
    pub fn create(&mut self, token: SessionToken, user_id: i32) -> (r: Result<(), StoreError>)
        requires
            old(self).wf(),
        ensures
            final(self).wf(),
            old(self)@.contains_key(token.0) ==> r == Err::<(), StoreError>(StoreError::DuplicateKey)
                && final(self)@ == old(self)@,
            !old(self)@.contains_key(token.0) ==> r is Ok && final(self)@ == old(self)@.insert(
                token.0,
                user_id,
            ),
    {
        if self.position(token.0).is_some() {
            return Err(StoreError::DuplicateKey);
        }
        let ghost old_rows = self.rows@;
        let ghost old_model = self.model@;
        self.rows.push((token.0, user_id));
        self.model = Ghost(self.model@.insert(token.0, user_id));
        proof {
            assert forall|k: u128| #[trigger] self.model@.contains_key(k) implies exists|i: int|
                0 <= i < self.rows@.len() && #[trigger] self.rows@[i].0 == k by {
                if k == token.0 {
                    assert(self.rows@[old_rows.len() as int].0 == k);
                } else {
                    assert(old_model.contains_key(k));
                    let i = choose|i: int| 0 <= i < old_rows.len() && #[trigger] old_rows[i].0 == k;
                    assert(self.rows@[i].0 == k);
                }
            }
            assert forall|i: int, j: int| 0 <= i < j < self.rows@.len() implies #[trigger] self.rows@[i].0
                != #[trigger] self.rows@[j].0 by {
                if j == old_rows.len() {
                    assert(old_model.contains_key(old_rows[i].0));
                } else {
                    assert(old_rows[i].0 != old_rows[j].0);
                }
            }
            assert forall|i: int| 0 <= i < self.rows@.len() implies #[trigger] self.model@.contains_key(
                self.rows@[i].0,
            ) && self.model@[self.rows@[i].0] == self.rows@[i].1 by {
                if i < old_rows.len() {
                    assert(self.rows@[i] == old_rows[i]);
                    assert(old_model.contains_key(old_rows[i].0));
                }
            }
        }
        Ok(())
    }

    /// The user of the session with this token; `None` for a token that no
    /// session has, which is ordinary traffic and no error.
    pub fn resolve(&self, token: SessionToken) -> (r: Option<i32>)
        requires
            self.wf(),
        ensures
            r == (if self@.contains_key(token.0) {
                Some(self@[token.0])
            } else {
                None::<i32>
            }),
    {
        match self.position(token.0) {
            Some(i) => Some(self.rows[i].1),
            None => None,
        }
    }

    /// Removes row `i`, and with it the session of its token.
    fn remove_row(&mut self, i: usize)
        requires
            old(self).wf(),
            i < old(self).rows@.len(),
        ensures
            final(self).wf(),
            final(self).rows@ == old(self).rows@.remove(i as int),
            final(self)@ == old(self)@.remove(old(self).rows@[i as int].0),
    {
        let ghost old_rows = self.rows@;
        let ghost old_model = self.model@;
        let ghost key = old_rows[i as int].0;
        self.rows.remove(i);
        self.model = Ghost(self.model@.remove(key));
        proof {
            assert forall|j: int| 0 <= j < self.rows@.len() implies #[trigger] self.model@.contains_key(
                self.rows@[j].0,
            ) && self.model@[self.rows@[j].0] == self.rows@[j].1 by {
                let oj = if j < i { j } else { j + 1 };
                assert(self.rows@[j] == old_rows[oj]);
                assert(old_model.contains_key(old_rows[oj].0));
                if j < i {
                    assert(old_rows[j].0 != old_rows[i as int].0);
                } else {
                    assert(old_rows[i as int].0 != old_rows[j + 1].0);
                }
            }
            assert forall|k: u128| #[trigger] self.model@.contains_key(k) implies exists|j: int|
                0 <= j < self.rows@.len() && #[trigger] self.rows@[j].0 == k by {
                assert(old_model.contains_key(k));
                let oj = choose|oj: int| 0 <= oj < old_rows.len() && #[trigger] old_rows[oj].0 == k;
                if oj < i {
                    assert(self.rows@[oj].0 == k);
                } else {
                    assert(oj != i);
                    assert(self.rows@[oj - 1].0 == k);
                }
            }
            assert forall|a: int, b: int| 0 <= a < b < self.rows@.len() implies #[trigger] self.rows@[a].0
                != #[trigger] self.rows@[b].0 by {
                let oa = if a < i { a } else { a + 1 };
                let ob = if b < i { b } else { b + 1 };
                assert(self.rows@[a] == old_rows[oa]);
                assert(self.rows@[b] == old_rows[ob]);
                assert(old_rows[oa].0 != old_rows[ob].0);
            }
        }
    }

    /// Ends the session of one token. Returns whether there was one.
    pub fn revoke_token(&mut self, token: SessionToken) -> (r: bool)
        requires
            old(self).wf(),
        ensures
            final(self).wf(),
            r == old(self)@.contains_key(token.0),
            final(self)@ == old(self)@.remove(token.0),
    {
        match self.position(token.0) {
            Some(i) => {
                self.remove_row(i);
                true
            },
            None => {
                assert(self@.remove(token.0) =~= self@);
                false
            },
        }
    }

    /// Ends every session of `user_id`, on all of the user's devices. A user
    /// with no session is no error: the table is then unchanged.
    pub fn revoke_user(&mut self, user_id: i32)
        requires
            old(self).wf(),
        ensures
            final(self).wf(),
            forall|k: u128|
                #[trigger] final(self)@.contains_key(k) <==> old(self)@.contains_key(k) && old(
                    self,
                )@[k] != user_id,
            forall|k: u128| #[trigger] final(self)@.contains_key(k) ==> final(self)@[k] == old(self)@[k],
    {
        let ghost start = self@;
        let mut i: usize = 0;
        while i < self.rows.len()
            invariant
                self.wf(),
                i <= self.rows@.len(),
                forall|j: int| 0 <= j < i ==> self.rows@[j].1 != user_id,
                forall|k: u128|
                    #[trigger] self@.contains_key(k) ==> start.contains_key(k) && self@[k] == start[k],
                forall|k: u128|
                    start.contains_key(k) && start[k] != user_id ==> #[trigger] self@.contains_key(k),
            decreases self.rows@.len() - i,
        {
            if self.rows[i].1 == user_id {
                let ghost rows = self.rows@;
                self.remove_row(i);
                assert forall|j: int| 0 <= j < i implies self.rows@[j].1 != user_id by {
                    assert(self.rows@[j] == rows[j]);
                }
            } else {
                i = i + 1;
            }
        }
        proof {
            assert forall|k: u128| #[trigger] self@.contains_key(k) implies self@[k] != user_id by {
                let j = choose|j: int| 0 <= j < self.rows@.len() && #[trigger] self.rows@[j].0 == k;
            }
        }
    }
}

/// Opens a session for `user_id` under a freshly generated token and
/// returns the token. If the drawn token is already in use, the error hands
/// it back with the table left as it was, and the caller may try again.
pub fn new_session(random: &mut ChaCha8Rng, user_id: i32, sessions: &mut SessionStore) -> (r: Result<
    SessionToken,
    (StoreError, SessionToken),
>)
    requires
        old(sessions).wf(),
    ensures
        final(sessions).wf(),
        r matches Ok(t) ==> !old(sessions)@.contains_key(t.0) && final(sessions)@ == old(
            sessions,
        )@.insert(t.0, user_id),
        r matches Err(e) ==> e.0 == StoreError::DuplicateKey && old(sessions)@.contains_key(e.1.0)
            && final(sessions)@ == old(sessions)@,
        old(sessions)@ == Map::<u128, i32>::empty() ==> r is Ok,
{
    let token = SessionToken::generate_new(random);
    match sessions.create(token, user_id) {
        Ok(()) => Ok(token),
        Err(e) => Err((e, token)),
    }
}

} // verus!
