use crate::api::endpoint::{opt_as_str, opt_str_view, opt_view};
use crate::api::user_id::UserId;
use vstd::prelude::*;

verus! {

/// A user together with what is known about them.
#[derive(Debug, Clone, PartialEq, Eq, PartialOrd, Ord, Hash)]
pub struct ContextualizedUser {
    uid: UserId,
    user_name: Option<String>,
    first_name: Option<String>,
    last_name: Option<String>,
    groups: Vec<String>,
    realm: Option<String>,
}

/// The first stage of building a [`ContextualizedUser`]: the id is still to be set.
pub struct ContextualizedUserBuilder;

/// The last stage of building a [`ContextualizedUser`]: the optional fields may be set.
pub struct ContextualizedUserComplete {
    user: ContextualizedUser,
}

impl ContextualizedUserBuilder {
    /// Sets the user's id.
    pub fn uid(self, uid: UserId) -> (r: ContextualizedUserComplete)
        ensures
            r.spec_user().spec_uid() == uid.0@,
            r.spec_user().spec_user_name() is None,
            r.spec_user().spec_first_name() is None,
            r.spec_user().spec_last_name() is None,
            r.spec_user().spec_groups().len() == 0,
            r.spec_user().spec_realm() is None,
    {
        ContextualizedUserComplete {
            user: ContextualizedUser {
                uid,
                user_name: None,
                first_name: None,
                last_name: None,
                groups: Vec::new(),
                realm: None,
            },
        }
    }
}

impl ContextualizedUserComplete {
    /// The user built so far.
    pub closed spec fn spec_user(&self) -> ContextualizedUser {
        self.user
    }

    /// Sets the user name.
    pub fn user_name(self, user_name: Option<String>) -> (r: ContextualizedUserComplete)
        ensures
            r.spec_user().spec_uid() == self.spec_user().spec_uid(),
            r.spec_user().spec_user_name() == opt_view(user_name),
            r.spec_user().spec_first_name() == self.spec_user().spec_first_name(),
            r.spec_user().spec_last_name() == self.spec_user().spec_last_name(),
            r.spec_user().spec_groups() == self.spec_user().spec_groups(),
            r.spec_user().spec_realm() == self.spec_user().spec_realm(),
    {
        ContextualizedUserComplete { user: ContextualizedUser { user_name, ..self.user } }
    }

    /// Sets the first name.
    pub fn first_name(self, first_name: Option<String>) -> (r: ContextualizedUserComplete)
        ensures
            r.spec_user().spec_uid() == self.spec_user().spec_uid(),
            r.spec_user().spec_user_name() == self.spec_user().spec_user_name(),
            r.spec_user().spec_first_name() == opt_view(first_name),
            r.spec_user().spec_last_name() == self.spec_user().spec_last_name(),
            r.spec_user().spec_groups() == self.spec_user().spec_groups(),
            r.spec_user().spec_realm() == self.spec_user().spec_realm(),
    {
        ContextualizedUserComplete { user: ContextualizedUser { first_name, ..self.user } }
    }

    /// Sets the last name.
    pub fn last_name(self, last_name: Option<String>) -> (r: ContextualizedUserComplete)
        ensures
            r.spec_user().spec_uid() == self.spec_user().spec_uid(),
            r.spec_user().spec_user_name() == self.spec_user().spec_user_name(),
            r.spec_user().spec_first_name() == self.spec_user().spec_first_name(),
            r.spec_user().spec_last_name() == opt_view(last_name),
            r.spec_user().spec_groups() == self.spec_user().spec_groups(),
            r.spec_user().spec_realm() == self.spec_user().spec_realm(),
    {
        ContextualizedUserComplete { user: ContextualizedUser { last_name, ..self.user } }
    }

    /// Adds a group.
    pub fn push_groups(self, group: String) -> (r: ContextualizedUserComplete)
        ensures
            r.spec_user().spec_groups() == self.spec_user().spec_groups().push(group),
            r.spec_user().spec_uid() == self.spec_user().spec_uid(),
            r.spec_user().spec_user_name() == self.spec_user().spec_user_name(),
            r.spec_user().spec_first_name() == self.spec_user().spec_first_name(),
            r.spec_user().spec_last_name() == self.spec_user().spec_last_name(),
            r.spec_user().spec_realm() == self.spec_user().spec_realm(),
    {
        let mut user = self.user;
        user.groups.push(group);
        ContextualizedUserComplete { user }
    }

    /// Sets the realm.
    pub fn realm(self, realm: Option<String>) -> (r: ContextualizedUserComplete)
        ensures
            r.spec_user().spec_uid() == self.spec_user().spec_uid(),
            r.spec_user().spec_user_name() == self.spec_user().spec_user_name(),
            r.spec_user().spec_first_name() == self.spec_user().spec_first_name(),
            r.spec_user().spec_last_name() == self.spec_user().spec_last_name(),
            r.spec_user().spec_groups() == self.spec_user().spec_groups(),
            r.spec_user().spec_realm() == opt_view(realm),
    {
        ContextualizedUserComplete { user: ContextualizedUser { realm, ..self.user } }
    }

    /// The user.
    pub fn build(self) -> (r: ContextualizedUser)
        ensures
            r == self.spec_user(),
    {
        self.user
    }
}

impl ContextualizedUser {
    /// Starts building a user.
    pub fn builder() -> ContextualizedUserBuilder {
        ContextualizedUserBuilder
    }

    pub closed spec fn spec_uid(&self) -> Seq<char> {
        self.uid.0@
    }

    pub closed spec fn spec_user_name(&self) -> Option<Seq<char>> {
        opt_view(self.user_name)
    }

    pub closed spec fn spec_first_name(&self) -> Option<Seq<char>> {
        opt_view(self.first_name)
    }

    pub closed spec fn spec_last_name(&self) -> Option<Seq<char>> {
        opt_view(self.last_name)
    }

    pub closed spec fn spec_groups(&self) -> Seq<String> {
        self.groups@
    }

    pub closed spec fn spec_realm(&self) -> Option<Seq<char>> {
        opt_view(self.realm)
    }

    /// Constructs a new instance of the type: a user known by id alone.
    pub fn new(uid: UserId) -> (r: ContextualizedUser)
        ensures
            r.spec_uid() == uid.0@,
            r.spec_user_name() is None,
            r.spec_first_name() is None,
            r.spec_last_name() is None,
            r.spec_groups().len() == 0,
            r.spec_realm() is None,
    {
        Self::builder().uid(uid).build()
    }

    pub fn uid(&self) -> (r: &UserId)
        ensures
            r.0@ == self.spec_uid(),
    {
        &self.uid
    }

    pub fn user_name(&self) -> (r: Option<&str>)
        ensures
            opt_str_view(r) == self.spec_user_name(),
    {
        opt_as_str(&self.user_name)
    }

    pub fn first_name(&self) -> (r: Option<&str>)
        ensures
            opt_str_view(r) == self.spec_first_name(),
    {
        opt_as_str(&self.first_name)
    }

    pub fn last_name(&self) -> (r: Option<&str>)
        ensures
            opt_str_view(r) == self.spec_last_name(),
    {
        opt_as_str(&self.last_name)
    }

    pub fn groups(&self) -> (r: &[String])
        ensures
            r@ == self.spec_groups(),
    {
        self.groups.as_slice()
    }

    pub fn realm(&self) -> (r: Option<&str>)
        ensures
            opt_str_view(r) == self.spec_realm(),
    {
        opt_as_str(&self.realm)
    }
}

} // verus!
