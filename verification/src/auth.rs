//! The session authority: operator accounts with slow salted password
//! hashes, credential verification that never says whether the name or the
//! password was wrong, and the forced-password-change flag that is cleared
//! exactly by a successful change. Hashing and verification go through the
//! bcrypt functions behind the two trusted wrappers here; everything
//! decided on their results is proved.

use vstd::prelude::*;
use vstd::string::*;
use crate::text::str_eq;

verus! {

/// One operator account.
pub struct User {
    pub username: String,
    pub password_hash: String,
    pub role: String,
    pub must_change_password: bool,
}

/// The mathematical content of a `User`.
pub ghost struct UserView {
    pub username: Seq<char>,
    pub password_hash: Seq<char>,
    pub role: Seq<char>,
    pub must_change_password: bool,
}

impl View for User {
    type V = UserView;

    open spec fn view(&self) -> UserView {
        UserView {
            username: self.username@,
            password_hash: self.password_hash@,
            role: self.role@,
            must_change_password: self.must_change_password,
        }
    }
}

impl DeepView for User {
    type V = UserView;

    open spec fn deep_view(&self) -> UserView {
        self.view()
    }
}

/// Whether bcrypt verification accepts `password` against `hash`: a
/// function of the two alone (a malformed hash accepts nothing).
pub uninterp spec fn bcrypt_matches(password: Seq<char>, hash: Seq<char>) -> bool;

/// A password in the range where distinct texts hash to distinct inputs:
/// printable-range single-byte characters, shorter than bcrypt's 72-byte
/// truncation limit.
pub open spec fn plain_secret(s: Seq<char>) -> bool {
    s.len() < 72 && forall|i: int| 0 <= i < s.len() ==> '\u{1}' <= #[trigger] s[i] && s[i]
        <= '\u{7f}'
}

/// Relies on bcrypt::verify: whether a password matches a hash is computed
/// from the two arguments alone (the salt and cost are read out of the
/// hash); a malformed hash yields an error, counted here as no match.
#[verifier::external_body]
fn bcrypt_check(password: &str, hash: &str) -> (r: bool)
    ensures
        r == bcrypt_matches(password@, hash@),
{
    bcrypt::verify(password, hash).unwrap_or(false)
}

/// Relies on bcrypt::hash with the library's default cost: it fails only
/// when the operating system's randomness does; a hash it returns verifies
/// against the hashed password, and — when that password stays under the
/// 72-byte truncation limit — against no other such password.
#[verifier::external_body]
fn bcrypt_make_hash(password: &str) -> (r: Option<String>)
    ensures
        r is Some ==> bcrypt_matches(password@, r.unwrap()@),
        r is Some && plain_secret(password@) ==> forall|q: Seq<char>|
            plain_secret(q) && q != password@ ==> !(#[trigger] bcrypt_matches(q, r.unwrap()@)),
{
    bcrypt::hash(password, bcrypt::DEFAULT_COST).ok()
}

/// No two accounts share a username.
pub open spec fn unique_usernames(users: Seq<UserView>) -> bool {
    forall|i: int, j: int|
        0 <= i < j < users.len() ==> #[trigger] users[i].username != #[trigger] users[j].username
}

/// The first index carrying this username, if any.
pub open spec fn spec_find_user(users: Seq<UserView>, username: Seq<char>) -> Option<int>
    decreases users.len(),
{
    if users.len() == 0 {
        None
    } else if users[0].username == username {
        Some(0)
    } else {
        match spec_find_user(users.skip(1), username) {
            Some(i) => Some(i + 1),
            None => None,
        }
    }
}

pub proof fn lemma_find_user_spec(users: Seq<UserView>, username: Seq<char>)
    ensures
        match spec_find_user(users, username) {
            Some(i) => 0 <= i < users.len() && users[i].username == username && forall|j: int|
                0 <= j < i ==> (#[trigger] users[j]).username != username,
            None => forall|j: int|
                0 <= j < users.len() ==> (#[trigger] users[j]).username != username,
        },
    decreases users.len(),
{
    if users.len() > 0 && users[0].username != username {
        lemma_find_user_spec(users.skip(1), username);
        match spec_find_user(users.skip(1), username) {
            Some(i0) => {
                assert(users.skip(1)[i0] == users[i0 + 1]);
                assert forall|j: int| 0 <= j < i0 + 1 implies (#[trigger] users[j]).username
                    != username by {
                    if j > 0 {
                        assert(users.skip(1)[j - 1] == users[j]);
                    }
                }
            },
            None => {
                assert forall|j: int| 0 <= j < users.len() implies (#[trigger] users[j]).username
                    != username by {
                    if j > 0 {
                        assert(users.skip(1)[j - 1] == users[j]);
                    }
                }
            },
        }
    }
}

pub proof fn lemma_find_user_first(users: Seq<UserView>, username: Seq<char>, i: int)
    requires
        0 <= i < users.len(),
        users[i].username == username,
        forall|j: int| 0 <= j < i ==> (#[trigger] users[j]).username != username,
    ensures
        spec_find_user(users, username) == Some(i),
    decreases i,
{
    if i > 0 {
        assert(forall|j: int| 0 <= j < users.skip(1).len() ==> users.skip(1)[j] == users[j + 1]);
        lemma_find_user_first(users.skip(1), username, i - 1);
    }
}

/// Lookup depends on usernames alone.
pub proof fn lemma_find_user_same_names(a: Seq<UserView>, b: Seq<UserView>, username: Seq<char>)
    requires
        a.len() == b.len(),
        forall|i: int| 0 <= i < a.len() ==> (#[trigger] a[i]).username == b[i].username,
    ensures
        spec_find_user(a, username) == spec_find_user(b, username),
    decreases a.len(),
{
    if a.len() > 0 {
        assert(forall|i: int|
            0 <= i < a.skip(1).len() ==> (#[trigger] a.skip(1)[i]).username == a[i + 1].username
                && b.skip(1)[i].username == b[i + 1].username);
        lemma_find_user_same_names(a.skip(1), b.skip(1), username);
    }
}

/// What credential verification returns: the account whose username
/// matches and whose stored hash accepts the password; nothing otherwise,
/// with unknown names and wrong passwords indistinguishable.
pub open spec fn spec_verify(users: Seq<UserView>, username: Seq<char>, password: Seq<
    char,
>) -> Option<UserView> {
    match spec_find_user(users, username) {
        Some(i) => if bcrypt_matches(password, users[i].password_hash) {
            Some(users[i])
        } else {
            None
        },
        None => None,
    }
}

/// The account after a successful password change: same name and role, the
/// forced-change flag cleared, and a hash that accepts the new password —
/// and, for a new password under the truncation limit, no other such
/// password.
pub open spec fn rotated_entry(prev: UserView, next: UserView, new_pw: Seq<char>) -> bool {
    &&& next.username == prev.username
    &&& next.role == prev.role
    &&& next.must_change_password == false
    &&& bcrypt_matches(new_pw, next.password_hash)
    &&& (plain_secret(new_pw) ==> forall|q: Seq<char>|
        plain_secret(q) && q != new_pw ==> !(#[trigger] bcrypt_matches(q, next.password_hash)))
}

/// A freshly bootstrapped administrative account: named and roled
/// "admin", forced to change its password, holding a hash that accepts
/// exactly the fixed placeholder password among plain secrets.
pub open spec fn is_default_admin(u: UserView) -> bool {
    &&& u.username == "admin"@
    &&& u.role == "admin"@
    &&& u.must_change_password == true
    &&& bcrypt_matches("admin"@, u.password_hash)
    &&& forall|q: Seq<char>|
        plain_secret(q) && q != "admin"@ ==> !(#[trigger] bcrypt_matches(q, u.password_hash))
}

fn clone_string(s: &String) -> (r: String)
    ensures
        r == *s,
{
    s.clone()
}

fn clone_user(u: &User) -> (r: User)
    ensures
        r@ == u@,
{
    User {
        username: clone_string(&u.username),
        password_hash: clone_string(&u.password_hash),
        role: clone_string(&u.role),
        must_change_password: u.must_change_password,
    }
}

/// The accounts of `users` added to `acc` in order, accounts whose
/// username was already taken dropped.
pub open spec fn dedup_users(users: Seq<UserView>, acc: Seq<UserView>) -> Seq<UserView>
    decreases users.len(),
{
    if users.len() == 0 {
        acc
    } else {
        let taken = exists|i: int|
            0 <= i < acc.len() && (#[trigger] acc[i]).username == users[0].username;
        dedup_users(users.skip(1), if taken {
            acc
        } else {
            acc.push(users[0])
        })
    }
}

fn users_contain_name(v: &Vec<User>, username: &str) -> (r: bool)
    ensures
        r == exists|i: int|
            0 <= i < v.deep_view().len() && (#[trigger] v.deep_view()[i]).username == username@,
{
    let mut j: usize = 0;
    while j < v.len()
        invariant
            0 <= j <= v.len(),
            forall|k: int| 0 <= k < j ==> (#[trigger] v.deep_view()[k]).username != username@,
        decreases v.len() - j,
    {
        if str_eq(v[j].username.as_str(), username) {
            proof {
                assert(v.deep_view()[j as int].username == username@);
            }
            return true;
        }
        j = j + 1;
    }
    false
}

/// The store of operator accounts. Usernames are unique; every
/// constructor establishes that and every mutation keeps it.
pub struct AuthState {
    users: Vec<User>,
}

impl View for AuthState {
    type V = Seq<UserView>;

    closed spec fn view(&self) -> Seq<UserView> {
        self.users.deep_view()
    }
}

impl AuthState {
    /// Well-formedness: usernames are unique.
    pub open spec fn wf(&self) -> bool {
        unique_usernames(self@)
    }

    /// A store from what the application loaded. A persisted, non-empty
    /// account list is taken over (duplicate usernames dropped, first
    /// wins); an absent, malformed or empty store bootstraps exactly one
    /// administrative account with the fixed placeholder password and the
    /// forced-change flag set. Yields nothing only when that bootstrap
    /// hash could not be drawn from the system's randomness.
    pub fn from_loaded(loaded: Option<Vec<User>>) -> (r: Option<AuthState>)
        ensures
            match loaded {
                Some(entries) => entries.deep_view().len() > 0 ==> r is Some && r.unwrap()@
                    == dedup_users(entries.deep_view(), Seq::empty()),
                None => true,
            },
            (loaded is None || loaded.unwrap().deep_view().len() == 0) && r is Some ==> {
                &&& r.unwrap()@.len() == 1
                &&& is_default_admin(r.unwrap()@[0])
            },
            r is Some ==> r.unwrap().wf(),
    {
        let has_entries = match &loaded {
            Some(entries) => entries.len() > 0,
            None => false,
        };
        if !has_entries {
            let admin = match Self::default_user() {
                Some(u) => u,
                None => {
                    return None;
                },
            };
            let ghost av = admin@;
            let mut users: Vec<User> = Vec::new();
            users.push(admin);
            let state = AuthState { users };
            proof {
                assert(state@ =~= seq![av]);
            }
            return Some(state);
        }
        let entries = match loaded {
            Some(entries) => entries,
            None => {
                return None;
            },
        };
        let ghost ev = entries.deep_view();
        let mut users: Vec<User> = Vec::new();
        let mut i: usize = 0;
        proof {
            assert(ev.skip(0) =~= ev);
            assert(users.deep_view() =~= Seq::<UserView>::empty());
        }
        while i < entries.len()
            invariant
                0 <= i <= entries.len(),
                ev == entries.deep_view(),
                dedup_users(ev.skip(i as int), users.deep_view()) == dedup_users(ev, Seq::empty()),
                unique_usernames(users.deep_view()),
            decreases entries.len() - i,
        {
            let ghost pre = users.deep_view();
            proof {
                assert(ev.skip(i as int)[0] == ev[i as int]);
                assert(ev.skip(i as int).skip(1) =~= ev.skip(i as int + 1));
            }
            if !users_contain_name(&users, entries[i].username.as_str()) {
                users.push(clone_user(&entries[i]));
                proof {
                    assert(users.deep_view() =~= pre.push(ev[i as int]));
                    assert forall|a: int, b: int|
                        0 <= a < b < users.deep_view().len() implies #[trigger] users.deep_view()[a].username
                        != #[trigger] users.deep_view()[b].username by {
                        if b == users.deep_view().len() - 1 {
                            assert(pre[a].username != ev[i as int].username);
                        }
                    }
                }
            }
            i = i + 1;
        }
        proof {
            assert(ev.skip(entries.len() as int) =~= Seq::<UserView>::empty());
        }
        Some(AuthState { users })
    }

    /// The bootstrap administrative account, hashed fresh; nothing when
    /// the hash could not be drawn.
    fn default_user() -> (r: Option<User>)
        ensures
            r is Some ==> is_default_admin(r.unwrap()@),
    {
        proof {
            reveal_strlit("admin");
            assert(plain_secret("admin"@));
        }
        let hash = match bcrypt_make_hash("admin") {
            Some(h) => h,
            None => {
                return None;
            },
        };
        Some(
            User {
                username: String::from_str("admin"),
                password_hash: hash,
                role: String::from_str("admin"),
                must_change_password: true,
            },
        )
    }

    /// A snapshot of all accounts, in store order — what the application
    /// persists synchronously after every mutation.
    pub fn save(&self) -> (r: Vec<User>)
        ensures
            r.deep_view() == self@,
    {
        let mut out: Vec<User> = Vec::new();
        let mut i: usize = 0;
        while i < self.users.len()
            invariant
                0 <= i <= self.users.len(),
                out.deep_view() =~= self.users.deep_view().take(i as int),
            decreases self.users.len() - i,
        {
            let ghost pre = out.deep_view();
            out.push(clone_user(&self.users[i]));
            proof {
                assert(out.deep_view() =~= pre.push(self.users.deep_view()[i as int]));
                assert(out.deep_view() =~= self.users.deep_view().take(i as int + 1));
            }
            i = i + 1;
        }
        proof {
            assert(self.users.deep_view().take(self.users.len() as int) =~= self@);
        }
        out
    }

    /// Verifies a credential pair: the account comes back exactly when
    /// the username is known and the stored hash accepts the password.
    /// Unknown usernames and wrong passwords are indistinguishable in the
    /// result.
    pub fn verify_user(&self, username: &str, password: &str) -> (r: Option<User>)
        ensures
            r.deep_view() == spec_verify(self@, username@, password@),
    {
        let ghost uv = self.users.deep_view();
        let mut i: usize = 0;
        while i < self.users.len()
            invariant
                0 <= i <= self.users.len(),
                uv == self.users.deep_view(),
                forall|j: int| 0 <= j < i ==> (#[trigger] uv[j]).username != username@,
            decreases self.users.len() - i,
        {
            if str_eq(self.users[i].username.as_str(), username) {
                proof {
                    lemma_find_user_first(uv, username@, i as int);
                }
                if bcrypt_check(password, self.users[i].password_hash.as_str()) {
                    return Some(clone_user(&self.users[i]));
                }
                return None;
            }
            i = i + 1;
        }
        proof {
            lemma_find_user_spec(uv, username@);
            if spec_find_user(uv, username@) is Some {
                let w = spec_find_user(uv, username@).unwrap();
                assert(uv[w].username == username@);
            }
        }
        None
    }

    /// The account carrying this username, if any — what the session
    /// gate re-resolves on every request.
    pub fn get_user(&self, username: &str) -> (r: Option<User>)
        ensures
            r.deep_view() == match spec_find_user(self@, username@) {
                Some(i) => Some(self@[i]),
                None => None::<UserView>,
            },
    {
        let ghost uv = self.users.deep_view();
        let mut i: usize = 0;
        while i < self.users.len()
            invariant
                0 <= i <= self.users.len(),
                uv == self.users.deep_view(),
                forall|j: int| 0 <= j < i ==> (#[trigger] uv[j]).username != username@,
            decreases self.users.len() - i,
        {
            if str_eq(self.users[i].username.as_str(), username) {
                proof {
                    lemma_find_user_first(uv, username@, i as int);
                }
                return Some(clone_user(&self.users[i]));
            }
            i = i + 1;
        }
        proof {
            lemma_find_user_spec(uv, username@);
            if spec_find_user(uv, username@) is Some {
                let w = spec_find_user(uv, username@).unwrap();
                assert(uv[w].username == username@);
            }
        }
        None
    }

    /// Rotates an account's password: recomputes the hash and clears the
    /// forced-change flag, leaving every other account untouched. Returns
    /// whether anything changed: false exactly when the username is
    /// unknown or no hash could be drawn, and then the store is unchanged.
    pub fn update_password(&mut self, username: &str, new_password: &str) -> (r: bool)
        ensures
            !r ==> final(self)@ == old(self)@,
            spec_find_user(old(self)@, username@) is None ==> !r,
            r ==> spec_find_user(old(self)@, username@) is Some,
            r ==> {
                let i = spec_find_user(old(self)@, username@).unwrap();
                &&& 0 <= i < old(self)@.len()
                &&& final(self)@ == old(self)@.update(i, final(self)@[i])
                &&& rotated_entry(old(self)@[i], final(self)@[i], new_password@)
            },
            old(self).wf() ==> final(self).wf(),
    {
        let ghost uv = self.users.deep_view();
        proof {
            lemma_find_user_spec(uv, username@);
        }
        let mut i: usize = 0;
        while i < self.users.len()
            invariant
                0 <= i <= self.users.len(),
                uv == self.users.deep_view(),
                uv == old(self)@,
                forall|j: int| 0 <= j < i ==> (#[trigger] uv[j]).username != username@,
            decreases self.users.len() - i,
        {
            if str_eq(self.users[i].username.as_str(), username) {
                proof {
                    lemma_find_user_first(uv, username@, i as int);
                }
                let hash = match bcrypt_make_hash(new_password) {
                    Some(h) => h,
                    None => {
                        return false;
                    },
                };
                let updated = User {
                    username: clone_string(&self.users[i].username),
                    password_hash: hash,
                    role: clone_string(&self.users[i].role),
                    must_change_password: false,
                };
                let ghost upv = updated@;
                self.users.set(i, updated);
                proof {
                    assert(self.users.deep_view() =~= uv.update(i as int, upv));
                    assert(final(self)@ == old(self)@.update(i as int, final(self)@[i as int]));
                    if unique_usernames(uv) {
                        assert forall|a: int, b: int|
                            0 <= a < b < self.users.deep_view().len() implies #[trigger] self.users.deep_view()[a].username
                            != #[trigger] self.users.deep_view()[b].username by {
                            assert(uv[a].username != uv[b].username);
                            assert(uv[i as int].username == upv.username);
                        }
                    }
                }
                return true;
            }
            i = i + 1;
        }
        proof {
            lemma_find_user_spec(uv, username@);
            if spec_find_user(uv, username@) is Some {
                let w = spec_find_user(uv, username@).unwrap();
                assert(uv[w].username == username@);
            }
        }
        false
    }
}

/// Law: after a successful password change, the old password no longer
/// verifies, the new one does, and the forced-change flag is clear —
/// for passwords under the truncation limit, the old one distinct from
/// the new.
pub proof fn lemma_password_change(
    old_users: Seq<UserView>,
    new_users: Seq<UserView>,
    username: Seq<char>,
    old_pw: Seq<char>,
    new_pw: Seq<char>,
)
    requires
        spec_find_user(old_users, username) is Some,
        ({
            let i = spec_find_user(old_users, username).unwrap();
            &&& 0 <= i < old_users.len()
            &&& new_users == old_users.update(i, new_users[i])
            &&& rotated_entry(old_users[i], new_users[i], new_pw)
        }),
        plain_secret(old_pw),
        plain_secret(new_pw),
        old_pw != new_pw,
    ensures
        spec_verify(new_users, username, old_pw) is None,
        spec_verify(new_users, username, new_pw) is Some,
        spec_verify(new_users, username, new_pw).unwrap().must_change_password == false,
{
    let i = spec_find_user(old_users, username).unwrap();
    lemma_find_user_spec(old_users, username);
    assert(forall|k: int|
        0 <= k < new_users.len() ==> (#[trigger] new_users[k]).username == old_users[k].username);
    lemma_find_user_same_names(new_users, old_users, username);
    assert(spec_find_user(new_users, username) == Some(i));
    assert(!bcrypt_matches(old_pw, new_users[i].password_hash));
}

} // verus!
