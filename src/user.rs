//! Player identities.
use vstd::prelude::*;

verus! {

/// A player's identity, as the identity provider gave it.
#[derive(Debug)]
pub struct User {
    pub id: String,
    pub name: String,
    pub email: String,
    pub photo: String,
    pub provider: String,
}

/// The profile that the identity provider returns for a bearer credential.
#[derive(Debug)]
pub struct FacebookProfile {
    pub id: String,
    pub name: String,
    pub email: Option<String>,
}

impl User {
    /// The identity of the owner of `profile`: its id and name, its email or
    /// an empty one, and no photo or provider.
    pub fn from_facebook_profile(profile: FacebookProfile) -> (r: User)
        ensures
            r.id == profile.id,
            r.name == profile.name,
            r.email@ == match profile.email {
                Some(e) => e@,
                None => Seq::<char>::empty(),
            },
            r.photo@ == Seq::<char>::empty(),
            r.provider@ == Seq::<char>::empty(),
    {
        let email = match profile.email {
            Some(e) => e,
            None => String::new(),
        };
        User {
            id: profile.id,
            name: profile.name,
            email,
            photo: String::new(),
            provider: String::new(),
        }
    }

    /// A copy of this identity.
    pub fn duplicate(&self) -> (r: User)
        ensures
            r == *self,
    {
        User {
            id: self.id.clone(),
            name: self.name.clone(),
            email: self.email.clone(),
            photo: self.photo.clone(),
            provider: self.provider.clone(),
        }
    }
}

/// A copy of a list of identities.
pub fn copy_users(users: &Vec<User>) -> (r: Vec<User>)
    ensures
        r@ == users@,
{
    let mut r: Vec<User> = Vec::new();
    let mut i: usize = 0;
    while i < users.len()
        invariant
            i <= users@.len(),
            r@ == users@.take(i as int),
        decreases users@.len() - i,
    {
        r.push(users[i].duplicate());
        assert(r@ =~= users@.take(i + 1));
        i = i + 1;
    }
    assert(users@.take(i as int) =~= users@);
    r
}

} // verus!
