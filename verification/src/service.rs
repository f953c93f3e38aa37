//! The domain service: a stateless coordinator around one repository-port
//! instance. Each operation converts its validated request into the
//! entity or query shape the port expects, performs exactly one repository
//! call, and returns the port's outcome unchanged — the port's own
//! postcondition predicate is the whole of each contract.

use crate::dtos::{
    UserAddRequest, UserDeleteRequest, UserFindRequest, UserFindResponse, UserUpdateRequest,
};
use crate::model::{User, UserError, UserId, UserView};
use crate::repository::RepositoryTrait;
use vstd::prelude::*;

verus! {

/// The service over any repository satisfying the port for the user
/// domain types.
#[derive(Debug)]
pub struct UserService<R> where
    R: RepositoryTrait<
        Id = UserId,
        Entity = User,
        Error = UserError,
        FindOptions = UserFindRequest,
        FindResult = UserFindResponse,
    >,
 {
    user_repository: R,
}

impl<R> UserService<R> where
    R: RepositoryTrait<
        Id = UserId,
        Entity = User,
        Error = UserError,
        FindOptions = UserFindRequest,
        FindResult = UserFindResponse,
    >,
 {
    pub fn new(user_repository: R) -> (r: Self)
        ensures
            r.repository() == user_repository,
    {
        UserService { user_repository }
    }

    /// The held port instance.
    pub closed spec fn repository(&self) -> R {
        self.user_repository
    }

    /// Converts the creation request into an entity and saves it: the
    /// outcome is one `save` on the held repository, of a user carrying
    /// the request's names and email.
    pub fn create_user(&mut self, req: &UserAddRequest) -> (r: Result<User, UserError>)
        requires
            old(self).repository().inv(),
        ensures
            final(self).repository().inv(),
            exists|u: User|
                u@ == (UserView {
                    id: 0,
                    firstname: req.firstname_spec(),
                    lastname: req.lastname_spec(),
                    email: req.email_spec(),
                }) && #[trigger] R::save_post(
                    old(self).repository(),
                    final(self).repository(),
                    u,
                    r,
                ),
    {
        let user = req.to_user();
        let r = self.user_repository.save(&user);
        proof {
            assert(R::save_post(old(self).repository(), self.repository(), user, r));
        }
        r
    }

    /// Converts the update request into an entity and replaces the record
    /// at `user_id` with it: the outcome is one `update` on the held
    /// repository.
    pub fn update_user(&mut self, user_id: &UserId, req: &UserUpdateRequest) -> (r: Result<
        User,
        UserError,
    >)
        requires
            old(self).repository().inv(),
        ensures
            final(self).repository().inv(),
            exists|u: User|
                u@ == req.user_view() && #[trigger] R::update_post(
                    old(self).repository(),
                    final(self).repository(),
                    *user_id,
                    u,
                    r,
                ),
    {
        let user = req.to_user();
        let r = self.user_repository.update(user_id, &user);
        proof {
            assert(R::update_post(old(self).repository(), self.repository(), *user_id, user, r));
        }
        r
    }

    /// Fetches one record: the outcome is one `find_by_id` on the held
    /// repository.
    pub fn find_one_user(&self, user_id: &UserId) -> (r: Result<User, UserError>)
        requires
            self.repository().inv(),
        ensures
            self.repository().find_by_id_post(*user_id, r),
    {
        self.user_repository.find_by_id(user_id)
    }

    /// Runs one query: the outcome is one `find_all` on the held
    /// repository.
    pub fn find_user(&self, req: &UserFindRequest) -> (r: Result<UserFindResponse, UserError>)
        requires
            self.repository().inv(),
            R::find_pre(*req),
        ensures
            self.repository().find_all_post(*req, r),
    {
        self.user_repository.find_all(req)
    }

    /// Removes one record: the outcome is one `delete` on the held
    /// repository, at the request's identifier.
    pub fn delete_user(&mut self, req: &UserDeleteRequest) -> (r: Result<(), UserError>)
        requires
            old(self).repository().inv(),
        ensures
            final(self).repository().inv(),
            R::delete_post(
                old(self).repository(),
                final(self).repository(),
                (UserId { value: req.id_spec() }),
                r,
            ),
    {
        let id = req.get_user_id();
        self.user_repository.delete(&id)
    }
}

} // verus!
