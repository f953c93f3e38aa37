//! The storage port: a storage-agnostic contract polymorphic over the
//! identifier, entity, error, query and result types. What each operation
//! guarantees is carried by spec-level postcondition predicates that every
//! implementation defines for itself, so a caller generic over the port
//! still gets the implementation's exact semantics once the implementation
//! is fixed.

use vstd::prelude::*;

verus! {

/// The repository contract: persist, replace, remove, fetch and query
/// entities. Mutating operations take the store exclusively; queries share
/// it.
pub trait RepositoryTrait: Sized {
    type Id;

    type Entity;

    type Error;

    type FindOptions;

    type FindResult;

    /// The well-formedness the implementation maintains across every
    /// operation.
    spec fn inv(&self) -> bool;

    /// What `save` guarantees: how the outcome and the new store relate to
    /// the old store and the entity handed in.
    spec fn save_post(
        pre: Self,
        post: Self,
        entity: Self::Entity,
        r: Result<Self::Entity, Self::Error>,
    ) -> bool;

    /// What `update` guarantees.
    spec fn update_post(
        pre: Self,
        post: Self,
        entity_id: Self::Id,
        entity: Self::Entity,
        r: Result<Self::Entity, Self::Error>,
    ) -> bool;

    /// What `delete` guarantees.
    spec fn delete_post(pre: Self, post: Self, entity_id: Self::Id, r: Result<
        (),
        Self::Error,
    >) -> bool;

    /// What `find_by_id` guarantees.
    spec fn find_by_id_post(&self, entity_id: Self::Id, r: Result<
        Self::Entity,
        Self::Error,
    >) -> bool;

    /// What a query must satisfy before it may run.
    spec fn find_pre(options: Self::FindOptions) -> bool;

    /// What `find_all` guarantees.
    spec fn find_all_post(&self, options: Self::FindOptions, r: Result<
        Self::FindResult,
        Self::Error,
    >) -> bool;

    /// Persists a new record under a fresh identifier of the backend's
    /// choosing; any identifier on the input is ignored.
    fn save(&mut self, entity: &Self::Entity) -> (r: Result<Self::Entity, Self::Error>)
        requires
            old(self).inv(),
        ensures
            final(self).inv(),
            Self::save_post(*old(self), *final(self), *entity, r),
    ;

    /// Replaces the record at `entity_id` with `entity`.
    fn update(&mut self, entity_id: &Self::Id, entity: &Self::Entity) -> (r: Result<
        Self::Entity,
        Self::Error,
    >)
        requires
            old(self).inv(),
        ensures
            final(self).inv(),
            Self::update_post(*old(self), *final(self), *entity_id, *entity, r),
    ;

    /// Removes the record at `entity_id`.
    fn delete(&mut self, entity_id: &Self::Id) -> (r: Result<(), Self::Error>)
        requires
            old(self).inv(),
        ensures
            final(self).inv(),
            Self::delete_post(*old(self), *final(self), *entity_id, r),
    ;

    /// Fetches the record at `entity_id`.
    fn find_by_id(&self, entity_id: &Self::Id) -> (r: Result<Self::Entity, Self::Error>)
        requires
            self.inv(),
        ensures
            self.find_by_id_post(*entity_id, r),
    ;

    /// Runs the filter, sort and paginate pipeline over one consistent
    /// snapshot of the store.
    fn find_all(&self, options: &Self::FindOptions) -> (r: Result<Self::FindResult, Self::Error>)
        requires
            self.inv(),
            Self::find_pre(*options),
        ensures
            self.find_all_post(*options, r),
    ;
}

/// What a query exposes to a repository: the filter value, the sort field,
/// the page size and the page offset.
pub trait FindOptionTrait {
    type QueryFilter;

    fn get_query(&self) -> Self::QueryFilter;

    fn get_order_by(&self) -> String;

    fn get_limit(&self) -> u16;

    fn get_offset(&self) -> u64;
}

/// What a query result exposes: the produced entities and the total page
/// count.
pub trait FindResultTrait {
    type Entity;

    fn get_page_count(&self) -> u64;

    fn get_result(&self) -> Vec<Self::Entity>;
}

} // verus!
