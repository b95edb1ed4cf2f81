use vstd::prelude::*;

verus! {

/// An account: its id, unique username and email, the hash record of its
/// password (never the plaintext) and an optional account type.
pub struct Account {
    pub id: i32,
    pub username: String,
    pub email: String,
    pub password_hash: String,
    pub account_type: Option<i32>,
}

/// Why an account could not be registered.
#[derive(Clone, Copy, Debug, PartialEq, Eq, Structural)]
pub enum AccountError {
    /// The username or the email is already taken.
    AccountExists,
}

/// The account table. Account `i` (from 0) has the id `i + 1`.
pub struct AccountTable {
    accounts: Vec<Account>,
}

impl View for AccountTable {
    type V = Seq<Account>;

    closed spec fn view(&self) -> Seq<Account> {
        self.accounts@
    }
}

/// Some account of `s` has the username `name`.
pub open spec fn has_username(s: Seq<Account>, name: Seq<char>) -> bool {
    exists|i: int| 0 <= i < s.len() && #[trigger] s[i].username@ == name
}

/// Some account of `s` has the email `email`.
pub open spec fn has_email(s: Seq<Account>, email: Seq<char>) -> bool {
    exists|i: int| 0 <= i < s.len() && #[trigger] s[i].email@ == email
}

/// The index of the account with the id `id`, when there is one.
pub open spec fn index_of_id(s: Seq<Account>, id: i32) -> int {
    id - 1
}

/// `id` names an account of `s`.
pub open spec fn valid_id(s: Seq<Account>, id: i32) -> bool {
    1 <= id <= s.len()
}

impl AccountTable {
    /// Ids follow positions; usernames and emails are unique.
    pub open spec fn wf(&self) -> bool {
        let s = self@;
        &&& s.len() < i32::MAX
        &&& forall|i: int| 0 <= i < s.len() ==> #[trigger] s[i].id == i + 1
        &&& forall|i: int, j: int|
            0 <= i < j < s.len() ==> #[trigger] s[i].username@ != #[trigger] s[j].username@
        &&& forall|i: int, j: int|
            0 <= i < j < s.len() ==> #[trigger] s[i].email@ != #[trigger] s[j].email@
    }

    /// An empty table.
    pub fn new() -> (r: AccountTable)
        ensures
            r.wf(),
            r@.len() == 0,
    {
        AccountTable { accounts: Vec::new() }
    }

    /// The number of accounts.
    pub fn len(&self) -> (r: usize)
        ensures
            r == self@.len(),
    {
        self.accounts.len()
    }

    /// The index of the account named `name`.
    fn index_of_username(&self, name: &String) -> (r: Option<usize>)
        requires
            self.wf(),
        ensures
            r is None <==> !has_username(self@, name@),
            r matches Some(i) ==> i < self@.len() && self@[i as int].username@ == name@,
    {
        let mut i: usize = 0;
        while i < self.accounts.len()
            invariant
                i <= self@.len(),
                forall|j: int| 0 <= j < i ==> self@[j].username@ != name@,
            decreases self@.len() - i,
        {
            if self.accounts[i].username == *name {
                return Some(i);
            }
            i = i + 1;
        }
        None
    }

    /// Whether an account has the email `email`.
    fn email_taken(&self, email: &String) -> (r: bool)
        ensures
            r == has_email(self@, email@),
    {
        let mut i: usize = 0;
        while i < self.accounts.len()
            invariant
                i <= self@.len(),
                forall|j: int| 0 <= j < i ==> self@[j].email@ != email@,
            decreases self@.len() - i,
        {
            if self.accounts[i].email == *email {
                return true;
            }
            i = i + 1;
        }
        false
    }

    /// Whether the username or the email is taken.
    pub fn is_taken(&self, username: &str, email: &str) -> (r: bool)
        requires
            self.wf(),
        ensures
            r == (has_username(self@, username@) || has_email(self@, email@)),
    {
        let name = username.to_owned();
        let mail = email.to_owned();
        self.index_of_username(&name).is_some() || self.email_taken(&mail)
    }

    /// Adds an account and returns its id. A username or email that is
    /// already taken is refused.
    pub fn register(
        &mut self,
        username: &str,
        email: &str,
        password_hash: String,
        account_type: Option<i32>,
    ) -> (r: Result<i32, AccountError>)
        requires
            old(self).wf(),
            old(self)@.len() + 1 < i32::MAX,
        ensures
            final(self).wf(),
            (has_username(old(self)@, username@) || has_email(old(self)@, email@)) <==> r is Err,
            r is Err ==> final(self)@ == old(self)@,
            r matches Ok(id) ==> {
                &&& id == old(self)@.len() + 1
                &&& final(self)@.len() == old(self)@.len() + 1
                &&& final(self)@.take(old(self)@.len() as int) == old(self)@
                &&& final(self)@.last().id == id
                &&& final(self)@.last().username@ == username@
                &&& final(self)@.last().email@ == email@
                &&& final(self)@.last().password_hash@ == password_hash@
                &&& final(self)@.last().account_type == account_type
            },
    {
        let name = username.to_owned();
        let mail = email.to_owned();
        if self.index_of_username(&name).is_some() || self.email_taken(&mail) {
            return Err(AccountError::AccountExists);
        }
        let id = (self.accounts.len() + 1) as i32;
        let ghost before = self@;
        self.accounts.push(
            Account { id, username: name, email: mail, password_hash, account_type },
        );
        proof {
            assert(self@.take(before.len() as int) =~= before);
            assert forall|i: int, j: int| 0 <= i < j < self@.len() implies #[trigger] self@[i].username@
                != #[trigger] self@[j].username@ by {
                if j == before.len() {
                    assert(self@[i] == before[i]);
                } else {
                    assert(before[i].username@ != before[j].username@);
                }
            }
            assert forall|i: int, j: int| 0 <= i < j < self@.len() implies #[trigger] self@[i].email@
                != #[trigger] self@[j].email@ by {
                if j == before.len() {
                    assert(self@[i] == before[i]);
                } else {
                    assert(before[i].email@ != before[j].email@);
                }
            }
        }
        Ok(id)
    }

    /// The id and stored hash record of the account named `username`.
    pub fn credentials(&self, username: &str) -> (r: Option<(i32, String)>)
        requires
            self.wf(),
        ensures
            r is None <==> !has_username(self@, username@),
            r matches Some(c) ==> valid_id(self@, c.0) && self@[index_of_id(
                self@,
                c.0,
            )].username@ == username@ && c.1@ == self@[index_of_id(self@, c.0)].password_hash@,
    {
        let name = username.to_owned();
        match self.index_of_username(&name) {
            Some(i) => Some((self.accounts[i].id, self.accounts[i].password_hash.clone())),
            None => None,
        }
    }

    /// The stored hash record of account `id`.
    pub fn password_hash_of(&self, id: i32) -> (r: Option<String>)
        requires
            self.wf(),
        ensures
            r is Some <==> valid_id(self@, id),
            r matches Some(h) ==> h@ == self@[index_of_id(self@, id)].password_hash@,
    {
        if 1 <= id && (id as usize) <= self.accounts.len() {
            Some(self.accounts[(id - 1) as usize].password_hash.clone())
        } else {
            None
        }
    }

    /// The account type of account `id`; `None` when there is no such
    /// account or it has no type.
    pub fn account_type_of(&self, id: i32) -> (r: Option<i32>)
        requires
            self.wf(),
        ensures
            r == (if valid_id(self@, id) {
                self@[index_of_id(self@, id)].account_type
            } else {
                None::<i32>
            }),
    {
        if 1 <= id && (id as usize) <= self.accounts.len() {
            self.accounts[(id - 1) as usize].account_type
        } else {
            None
        }
    }

    /// Replaces the stored hash record of account `id`. Returns whether the
    /// account exists; nothing else changes.
    pub fn set_password_hash(&mut self, id: i32, password_hash: String) -> (r: bool)
        requires
            old(self).wf(),
        ensures
            final(self).wf(),
            r == valid_id(old(self)@, id),
            final(self)@.len() == old(self)@.len(),
            forall|j: int|
                0 <= j < old(self)@.len() && j != index_of_id(old(self)@, id)
                    ==> #[trigger] final(self)@[j] == old(self)@[j],
            r ==> {
                let k = index_of_id(old(self)@, id);
                &&& final(self)@[k].password_hash@ == password_hash@
                &&& final(self)@[k].id == old(self)@[k].id
                &&& final(self)@[k].username@ == old(self)@[k].username@
                &&& final(self)@[k].email@ == old(self)@[k].email@
                &&& final(self)@[k].account_type == old(self)@[k].account_type
            },
            !r ==> final(self)@ == old(self)@,
    {
        if 1 <= id && (id as usize) <= self.accounts.len() {
            let k = (id - 1) as usize;
            let ghost before = self@;
            self.accounts[k].password_hash = password_hash;
            proof {
                assert forall|i: int, j: int| 0 <= i < j < self@.len() implies #[trigger] self@[i].username@
                    != #[trigger] self@[j].username@ by {
                    assert(before[i].username@ != before[j].username@);
                }
                assert forall|i: int, j: int| 0 <= i < j < self@.len() implies #[trigger] self@[i].email@
                    != #[trigger] self@[j].email@ by {
                    assert(before[i].email@ != before[j].email@);
                }
            }
            true
        } else {
            false
        }
    }
}

} // verus!
