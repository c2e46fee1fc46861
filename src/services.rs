//! The narrow faces of the outside collaborators that the game needs: the
//! dictionary, the identity provider and the user store.
use crate::letters::fold;
use crate::user::User;
use vstd::prelude::*;

verus! {

/// `r` is `s` with every ASCII upper-case letter turned to lower case.
pub open spec fn is_ascii_lowercase_of(r: Seq<char>, s: Seq<char>) -> bool {
    &&& r.len() == s.len()
    &&& forall|i: int|
        0 <= i < s.len() ==> fold(#[trigger] r[i]) == fold(s[i]) && !(65 <= r[i] as u32 && r[i] as u32 <= 90)
}

/// The characters of the scheme prefix of a bearer credential header.
pub open spec fn bearer_prefix() -> Seq<char> {
    seq!['B', 'e', 'a', 'r', 'e', 'r', ' ']
}

/// Relies on `str::to_ascii_lowercase`: the same characters, with ASCII
/// upper-case letters turned to lower case.
#[verifier::external_body]
fn ascii_lowercase(s: &str) -> (r: String)
    ensures
        is_ascii_lowercase_of(r@, s@),
{
    s.to_ascii_lowercase()
}

/// Word lookups against the dictionary service.
pub struct DictionaryService;

impl DictionaryService {
    pub fn new() -> (r: DictionaryService) {
        DictionaryService
    }

    /// The key under which the dictionary is asked for `word`: the word in
    /// lower case.
    pub fn lookup_key(&self, word: &str) -> (r: String)
        ensures
            is_ascii_lowercase_of(r@, word@),
    {
        ascii_lowercase(word)
    }

    /// Whether the dictionary's answer means that the word exists: a 2xx or
    /// 3xx status does; any other status, or no answer at all, does not.
    pub fn word_found(&self, status: Option<u16>) -> (r: bool)
        ensures
            r == (status matches Some(c) && 200 <= c && c < 400),
    {
        match status {
            Some(c) => 200 <= c && c < 400,
            None => false,
        }
    }
}

/// Access to the identity provider.
pub struct FacebookService;

impl FacebookService {
    pub fn new() -> (r: FacebookService) {
        FacebookService
    }

    /// The credential carried by an authorization header: what follows the
    /// `Bearer ` scheme prefix, or the whole header where it has none.
    pub fn bearer_credential(&self, header: &str) -> (r: String)
        ensures
            r@ == if header@.len() >= 7 && header@.take(7) == bearer_prefix() {
                header@.skip(7)
            } else {
                header@
            },
    {
        let n = header.unicode_len();
        if n >= 7 && header.get_char(0) == 'B' && header.get_char(1) == 'e' && header.get_char(2)
            == 'a' && header.get_char(3) == 'r' && header.get_char(4) == 'e' && header.get_char(5)
            == 'r' && header.get_char(6) == ' ' {
            assert(header@.take(7) =~= bearer_prefix());
            header.substring_char(7, n).to_owned()
        } else {
            proof {
                if header@.len() >= 7 && header@.take(7) == bearer_prefix() {
                    assert(header@.take(7)[0] == 'B');
                    assert(header@.take(7)[6] == ' ');
                }
            }
            header.to_owned()
        }
    }
}

/// Whether two texts hold the same characters.
pub fn same_text(a: &str, b: &str) -> (r: bool)
    ensures
        r == (a@ == b@),
{
    let n = a.unicode_len();
    if n != b.unicode_len() {
        return false;
    }
    let mut i: usize = 0;
    while i < n
        invariant
            n == a@.len(),
            n == b@.len(),
            i <= n,
            forall|k: int| 0 <= k < i ==> a@[k] == b@[k],
        decreases n - i,
    {
        if a.get_char(i) != b.get_char(i) {
            return false;
        }
        i = i + 1;
    }
    assert(a@ =~= b@);
    true
}

/// A user store held in memory.
pub struct FakeUserRepository {
    pub users: Vec<User>,
}

impl FakeUserRepository {
    /// An empty store.
    pub fn _new() -> (r: FakeUserRepository)
        ensures
            r.users@.len() == 0,
    {
        FakeUserRepository { users: Vec::new() }
    }

    /// The first stored user with the given id.
    pub fn find_by_id(&self, id: &str) -> (r: Option<User>)
        ensures
            r matches Some(u) ==> exists|k: int|
                0 <= k < self.users@.len() && self.users@[k] == u && u.id@ == id@ && forall|
                    j: int,
                | 0 <= j < k ==> (#[trigger] self.users@[j]).id@ != id@,
            r is None ==> forall|k: int|
                0 <= k < self.users@.len() ==> (#[trigger] self.users@[k]).id@ != id@,
    {
        let mut k: usize = 0;
        while k < self.users.len()
            invariant
                k <= self.users@.len(),
                forall|j: int| 0 <= j < k ==> (#[trigger] self.users@[j]).id@ != id@,
            decreases self.users@.len() - k,
        {
            if same_text(self.users[k].id.as_str(), id) {
                return Some(self.users[k].duplicate());
            }
            k = k + 1;
        }
        None
    }

    /// Stores `user` unless one with its id is stored already.
    pub fn save(&mut self, user: User)
        ensures
            (exists|k: int|
                0 <= k < old(self).users@.len() && (#[trigger] old(self).users@[k]).id@
                    == user.id@) ==> final(self).users == old(self).users,
            (forall|k: int|
                0 <= k < old(self).users@.len() ==> (#[trigger] old(self).users@[k]).id@
                    != user.id@) ==> final(self).users@ == old(self).users@.push(user),
    {
        if self.find_by_id(user.id.as_str()).is_none() {
            self.users.push(user);
        }
    }
}

} // verus!
