//! The in-memory implementation of the repository port: a sequence of
//! users with pairwise-distinct identifiers, and the filter, sort and
//! paginate query engine over it.

use crate::dtos::{FilterView, UserFindRequest, UserFindRequestFilter, UserFindResponse};
use crate::model::{EmailAddress, User, UserError, UserId, UserView};
use crate::repository::{FindOptionTrait, RepositoryTrait};
use crate::text::{lemma_lex_le_total, lemma_lex_le_trans, lex_le, lower_of, str_lex_le,
    to_lowercase};
use vstd::prelude::*;
use vstd::string::StringExecFns;

verus! {

broadcast use vstd::seq_lib::group_seq_properties;

// ---------------------------------------------------------------------
// The store's mathematical model: a sequence of user views with
// pairwise-distinct identifiers.
// ---------------------------------------------------------------------

/// No two records share an identifier.
pub open spec fn distinct_ids(s: Seq<UserView>) -> bool {
    forall|i: int, j: int| 0 <= i < j < s.len() ==> s[i].id != s[j].id
}

/// Some record carries the identifier.
pub open spec fn has_id(s: Seq<UserView>, id: u128) -> bool {
    exists|i: int| 0 <= i < s.len() && s[i].id == id
}

/// The position of the record carrying the identifier.
pub open spec fn index_of_id(s: Seq<UserView>, id: u128) -> int {
    choose|i: int| 0 <= i < s.len() && s[i].id == id
}

/// A record other than `id` already carries the email.
pub open spec fn email_used_by_other(s: Seq<UserView>, id: u128, email: Seq<char>) -> bool {
    exists|i: int| 0 <= i < s.len() && s[i].id != id && s[i].email == email
}

/// The store after a record is put in under its identifier: replaced in
/// place if the identifier is present, appended otherwise.
pub open spec fn store_insert(s: Seq<UserView>, u: UserView) -> Seq<UserView> {
    if has_id(s, u.id) {
        s.update(index_of_id(s, u.id), u)
    } else {
        s.push(u)
    }
}

// ---------------------------------------------------------------------
// Filtering.
// ---------------------------------------------------------------------

/// A record matches iff every present filter field matches exactly;
/// absent fields impose no constraint.
pub open spec fn matches_filter(f: FilterView, u: UserView) -> bool {
    &&& (f.id matches Some(id) ==> u.id == id)
    &&& (f.firstname matches Some(n) ==> u.firstname == n)
    &&& (f.lastname matches Some(n) ==> u.lastname == n)
    &&& (f.email matches Some(e) ==> u.email == e)
}

/// The records matching the filter, in store order.
pub open spec fn filter_users(s: Seq<UserView>, f: FilterView) -> Seq<UserView>
    decreases s.len(),
{
    if s.len() == 0 {
        Seq::empty()
    } else {
        let rest = filter_users(s.drop_last(), f);
        if matches_filter(f, s.last()) {
            rest.push(s.last())
        } else {
            rest
        }
    }
}

/// Everything the filter keeps was in the store and matches; everything in
/// the store that matches is kept.
pub proof fn lemma_filter_users_characterized(s: Seq<UserView>, f: FilterView)
    ensures
        forall|k: int|
            0 <= k < filter_users(s, f).len() ==> s.contains(#[trigger] filter_users(s, f)[k])
                && matches_filter(f, filter_users(s, f)[k]),
        forall|k: int| 0 <= k < s.len() && matches_filter(f, #[trigger] s[k]) ==> filter_users(
            s,
            f,
        ).contains(s[k]),
    decreases s.len(),
{
    if s.len() > 0 {
        lemma_filter_users_characterized(s.drop_last(), f);
        let rest = filter_users(s.drop_last(), f);
        let all = filter_users(s, f);
        assert(forall|k: int|
            0 <= k < s.drop_last().len() ==> s.drop_last()[k] == #[trigger] s[k]);
        assert forall|k: int| 0 <= k < all.len() implies s.contains(#[trigger] all[k])
            && matches_filter(f, all[k]) by {
            if k < rest.len() {
                assert(s.drop_last().contains(rest[k]));
                let m = choose|m: int| 0 <= m < s.drop_last().len() && s.drop_last()[m] == rest[k];
                assert(s[m] == all[k]);
            } else {
                assert(all[k] == s.last());
                assert(s[s.len() - 1] == s.last());
            }
        }
        assert forall|k: int|
            0 <= k < s.len() && matches_filter(f, #[trigger] s[k]) implies all.contains(s[k]) by {
            if k < s.len() - 1 {
                assert(rest.contains(s.drop_last()[k]));
                let m = choose|m: int| 0 <= m < rest.len() && rest[m] == s.drop_last()[k];
                assert(all[m] == s[k]);
            } else {
                assert(all[all.len() - 1] == s[k]);
            }
        }
    }
}

// ---------------------------------------------------------------------
// Sorting: a stable insertion sort, characterized by a recursive spec.
// ---------------------------------------------------------------------

/// The field the comparator reads, selected from the query's `order_by`.
#[derive(Clone, Copy, Debug)]
pub enum SortField {
    Id,
    Email,
    Firstname,
    Lastname,
}

/// The comparator for the chosen field: identifiers numerically, strings
/// lexicographically.
pub open spec fn le_by(f: SortField, a: UserView, b: UserView) -> bool {
    match f {
        SortField::Id => a.id <= b.id,
        SortField::Email => lex_le(a.email, b.email),
        SortField::Firstname => lex_le(a.firstname, b.firstname),
        SortField::Lastname => lex_le(a.lastname, b.lastname),
    }
}

pub proof fn lemma_le_by_total(f: SortField, a: UserView, b: UserView)
    ensures
        le_by(f, a, b) || le_by(f, b, a),
{
    match f {
        SortField::Id => {},
        SortField::Email => lemma_lex_le_total(a.email, b.email),
        SortField::Firstname => lemma_lex_le_total(a.firstname, b.firstname),
        SortField::Lastname => lemma_lex_le_total(a.lastname, b.lastname),
    }
}

pub proof fn lemma_le_by_trans(f: SortField, a: UserView, b: UserView, c: UserView)
    requires
        le_by(f, a, b),
        le_by(f, b, c),
    ensures
        le_by(f, a, c),
{
    match f {
        SortField::Id => {},
        SortField::Email => lemma_lex_le_trans(a.email, b.email, c.email),
        SortField::Firstname => lemma_lex_le_trans(a.firstname, b.firstname, c.firstname),
        SortField::Lastname => lemma_lex_le_trans(a.lastname, b.lastname, c.lastname),
    }
}

/// Non-decreasing in the chosen field.
pub open spec fn sorted_by(f: SortField, s: Seq<UserView>) -> bool {
    forall|i: int, j: int| 0 <= i < j < s.len() ==> le_by(f, s[i], s[j])
}

/// `u` placed after every element it does not strictly precede: the
/// stable insertion position.
pub open spec fn insert_sorted(f: SortField, u: UserView, s: Seq<UserView>) -> Seq<UserView>
    decreases s.len(),
{
    if s.len() == 0 {
        Seq::empty().push(u)
    } else if le_by(f, s.last(), u) {
        s.push(u)
    } else {
        insert_sorted(f, u, s.drop_last()).push(s.last())
    }
}

/// The stable sort: each element inserted, in order, after its equals.
pub open spec fn sort_by_field(f: SortField, s: Seq<UserView>) -> Seq<UserView>
    decreases s.len(),
{
    if s.len() == 0 {
        s
    } else {
        insert_sorted(f, s.last(), sort_by_field(f, s.drop_last()))
    }
}

pub proof fn lemma_insert_sorted_len(f: SortField, u: UserView, s: Seq<UserView>)
    ensures
        insert_sorted(f, u, s).len() == s.len() + 1,
    decreases s.len(),
{
    if s.len() > 0 && !le_by(f, s.last(), u) {
        lemma_insert_sorted_len(f, u, s.drop_last());
    }
}

pub proof fn lemma_sort_by_field_len(f: SortField, s: Seq<UserView>)
    ensures
        sort_by_field(f, s).len() == s.len(),
    decreases s.len(),
{
    if s.len() > 0 {
        lemma_sort_by_field_len(f, s.drop_last());
        lemma_insert_sorted_len(f, s.last(), sort_by_field(f, s.drop_last()));
    }
}

pub proof fn lemma_insert_sorted_multiset(f: SortField, u: UserView, s: Seq<UserView>)
    ensures
        insert_sorted(f, u, s).to_multiset() =~= s.to_multiset().insert(u),
    decreases s.len(),
{
    broadcast use vstd::seq_lib::group_to_multiset_ensures;

    if s.len() == 0 || le_by(f, s.last(), u) {
    } else {
        lemma_insert_sorted_multiset(f, u, s.drop_last());
        assert(s.drop_last().push(s.last()) =~= s);
        assert(s.drop_last().push(s.last()).to_multiset() =~= s.drop_last().to_multiset().insert(
            s.last(),
        ));
    }
}

/// The sorted sequence holds exactly the elements of the input, with
/// multiplicity.
pub proof fn lemma_sort_by_field_multiset(f: SortField, s: Seq<UserView>)
    ensures
        sort_by_field(f, s).to_multiset() =~= s.to_multiset(),
    decreases s.len(),
{
    broadcast use vstd::seq_lib::group_to_multiset_ensures;

    if s.len() > 0 {
        lemma_sort_by_field_multiset(f, s.drop_last());
        lemma_insert_sorted_multiset(f, s.last(), sort_by_field(f, s.drop_last()));
        assert(s.drop_last().push(s.last()) =~= s);
        assert(s.drop_last().push(s.last()).to_multiset() =~= s.drop_last().to_multiset().insert(
            s.last(),
        ));
    }
}

pub proof fn lemma_insert_sorted_preserves_sorted(f: SortField, u: UserView, s: Seq<UserView>)
    requires
        sorted_by(f, s),
    ensures
        sorted_by(f, insert_sorted(f, u, s)),
    decreases s.len(),
{
    let r = insert_sorted(f, u, s);
    if s.len() == 0 {
    } else if le_by(f, s.last(), u) {
        assert forall|i: int, j: int| 0 <= i < j < r.len() implies le_by(f, r[i], r[j]) by {
            if j == r.len() - 1 {
                if i == s.len() - 1 {
                    assert(r[i] == s.last());
                } else {
                    assert(le_by(f, s[i], s[s.len() - 1]));
                    lemma_le_by_trans(f, r[i], s.last(), u);
                }
            }
        }
    } else {
        let inner = insert_sorted(f, u, s.drop_last());
        lemma_insert_sorted_preserves_sorted(f, u, s.drop_last());
        lemma_insert_sorted_len(f, u, s.drop_last());
        lemma_le_by_total(f, s.last(), u);
        // every element of `inner` is at most `s.last()`: it is either `u`
        // or an element of the prefix.
        lemma_insert_sorted_multiset(f, u, s.drop_last());
        assert forall|i: int, j: int| 0 <= i < j < r.len() implies le_by(f, r[i], r[j]) by {
            broadcast use vstd::seq_lib::group_to_multiset_ensures;

            if j == r.len() - 1 {
                assert(r[j] == s.last());
                assert(r[i] == inner[i]);
                assert(inner.contains(inner[i]));
                assert(inner.to_multiset().count(inner[i]) > 0);
                assert(s.drop_last().to_multiset().insert(u).count(inner[i]) > 0);
                if inner[i] == u {
                    assert(le_by(f, u, s.last()));
                } else {
                    assert(s.drop_last().to_multiset().count(inner[i]) > 0);
                    assert(s.drop_last().contains(inner[i]));
                    let k = choose|k: int|
                        0 <= k < s.drop_last().len() && s.drop_last()[k] == inner[i];
                    assert(le_by(f, s[k], s[s.len() - 1]));
                }
            } else {
                assert(r[i] == inner[i] && r[j] == inner[j]);
            }
        }
    }
}

/// The sort's output is non-decreasing in the chosen field.
pub proof fn lemma_sort_by_field_sorted(f: SortField, s: Seq<UserView>)
    ensures
        sorted_by(f, sort_by_field(f, s)),
    decreases s.len(),
{
    if s.len() > 0 {
        lemma_sort_by_field_sorted(f, s.drop_last());
        lemma_insert_sorted_preserves_sorted(f, s.last(), sort_by_field(f, s.drop_last()));
    }
}

// ---------------------------------------------------------------------
// Sort-field selection.
// ---------------------------------------------------------------------

/// The comparator selected by the lowercased `order_by` value: the three
/// named fields, and the identifier for everything else.
pub open spec fn sort_field_of(lowered: Seq<char>) -> SortField {
    if lowered == "email"@ {
        SortField::Email
    } else if lowered == "firstname"@ {
        SortField::Firstname
    } else if lowered == "lastname"@ {
        SortField::Lastname
    } else {
        SortField::Id
    }
}

/// Lowercases `order_by` and selects the comparator field.
pub fn sort_field_for(order_by: &str) -> (f: SortField)
    ensures
        f == sort_field_of(lower_of(order_by@)),
{
    let lowered = to_lowercase(order_by);
    if lowered == String::from_str("email") {
        SortField::Email
    } else if lowered == String::from_str("firstname") {
        SortField::Firstname
    } else if lowered == String::from_str("lastname") {
        SortField::Lastname
    } else {
        SortField::Id
    }
}

// ---------------------------------------------------------------------
// Pagination.
// ---------------------------------------------------------------------

/// How many pages of size `per_page` the set divides into; the last page
/// may be shorter, and an empty set has no pages.
pub open spec fn page_count_of(len: int, per_page: int) -> int {
    if len == 0 {
        0
    } else {
        (len - 1) / per_page + 1
    }
}

/// The chunk of size `per_page` at index `offset` into the chunk sequence,
/// counting chunks from zero; past the last chunk, the empty sequence.
pub open spec fn page_of(s: Seq<UserView>, per_page: int, offset: int) -> Seq<UserView> {
    if offset * per_page >= s.len() {
        Seq::empty()
    } else if offset * per_page + per_page <= s.len() {
        s.subrange(offset * per_page, offset * per_page + per_page)
    } else {
        s.subrange(offset * per_page, s.len() as int)
    }
}

// ---------------------------------------------------------------------
// Executable helpers.
// ---------------------------------------------------------------------

/// Relies on `uuid::Uuid::new_v4` for a random version-4 UUID, read out
/// through `Uuid::as_u128`; nothing is promised of a random value.
#[verifier::external_body]
fn fresh_user_id() -> UserId {
    UserId { value: uuid::Uuid::new_v4().as_u128() }
}

/// Decides `matches_filter`.
fn user_matches(f: &UserFindRequestFilter, u: &User) -> (r: bool)
    ensures
        r == matches_filter(f@, u@),
{
    let id_ok = match f.id {
        Some(q) => q == u.get_id(),
        None => true,
    };
    let firstname_ok = match &f.firstname {
        Some(q) => *q == u.get_firstname().to_string(),
        None => true,
    };
    let lastname_ok = match &f.lastname {
        Some(q) => *q == u.get_lastname().to_string(),
        None => true,
    };
    let email_ok = match &f.email {
        Some(q) => *q == u.get_email().to_string(),
        None => true,
    };
    id_ok && firstname_ok && lastname_ok && email_ok
}

/// Decides `le_by`.
fn user_le(f: SortField, a: &User, b: &User) -> (r: bool)
    ensures
        r == le_by(f, a@, b@),
{
    match f {
        SortField::Id => a.get_id().value <= b.get_id().value,
        SortField::Email => str_lex_le(a.get_email().as_str(), b.get_email().as_str()),
        SortField::Firstname => str_lex_le(a.get_firstname().as_str(), b.get_firstname().as_str()),
        SortField::Lastname => str_lex_le(a.get_lastname().as_str(), b.get_lastname().as_str()),
    }
}

/// The position of the record with the identifier, if any.
fn find_index(users: &Vec<User>, id: UserId) -> (r: Option<usize>)
    ensures
        r matches Some(i) ==> i < users.deep_view().len() && users.deep_view()[i as int].id
            == id.value,
        r is None <==> !has_id(users.deep_view(), id.value),
{
    let mut i: usize = 0;
    while i < users.len()
        invariant
            i <= users.len(),
            forall|k: int| 0 <= k < i ==> (#[trigger] users.deep_view()[k]).id != id.value,
        decreases users.len() - i,
    {
        if users[i].get_id() == id {
            proof {
                assert(users.deep_view()[i as int] == users@[i as int]@);
                assert(has_id(users.deep_view(), id.value));
            }
            return Some(i);
        }
        proof {
            assert(users.deep_view()[i as int] == users@[i as int]@);
        }
        i = i + 1;
    }
    None
}

/// Whether a record other than `id` carries the email.
fn email_in_use_by_other(users: &Vec<User>, id: UserId, email: &EmailAddress) -> (r: bool)
    ensures
        r == email_used_by_other(users.deep_view(), id.value, email@),
{
    let mut i: usize = 0;
    while i < users.len()
        invariant
            i <= users.len(),
            forall|k: int|
                0 <= k < i ==> !((#[trigger] users.deep_view()[k]).id != id.value
                    && users.deep_view()[k].email == email@),
        decreases users.len() - i,
    {
        if users[i].get_id() != id && *users[i].get_email() == *email {
            proof {
                assert(users.deep_view()[i as int] == users@[i as int]@);
                assert(email_used_by_other(users.deep_view(), id.value, email@));
            }
            return true;
        }
        proof {
            assert(users.deep_view()[i as int] == users@[i as int]@);
        }
        i = i + 1;
    }
    false
}

/// Replaces the record at `i`, keeping the order of the others.
fn replace_at(v: &mut Vec<User>, i: usize, u: User)
    requires
        i < old(v).len(),
    ensures
        final(v)@ == old(v)@.update(i as int, u),
        final(v).deep_view() =~= old(v).deep_view().update(i as int, u.deep_view()),
{
    v.remove(i);
    v.insert(i, u);
    proof {
        assert(final(v)@ =~= old(v)@.update(i as int, u));
    }
}

/// The stable insertion sort over the chosen field.
fn sort_users(field: SortField, v: &Vec<User>) -> (r: Vec<User>)
    ensures
        r.deep_view() == sort_by_field(field, v.deep_view()),
{
    let mut out: Vec<User> = Vec::new();
    let mut i: usize = 0;
    while i < v.len()
        invariant
            i <= v.len(),
            out.len() == i,
            out.deep_view() =~= sort_by_field(field, v.deep_view().take(i as int)),
        decreases v.len() - i,
    {
        let u = v[i].clone();
        let ghost uv = v.deep_view()[i as int];
        let ghost target = insert_sorted(field, uv, out.deep_view());
        let mut k: usize = out.len();
        proof {
            assert(out.deep_view().take(k as int) =~= out.deep_view());
            assert(insert_sorted(field, uv, out.deep_view().take(k as int)) + out.deep_view().skip(
                k as int,
            ) =~= target);
        }
        while k > 0 && !user_le(field, &out[k - 1], &u)
            invariant
                0 <= k <= out.len(),
                u@ == uv,
                target == insert_sorted(field, uv, out.deep_view()),
                insert_sorted(field, uv, out.deep_view().take(k as int)) + out.deep_view().skip(
                    k as int,
                ) =~= target,
            decreases k,
        {
            proof {
                let odv = out.deep_view();
                assert(odv.take(k as int).last() == odv[k - 1]);
                assert(odv.take(k as int).drop_last() =~= odv.take(k - 1));
                lemma_insert_sorted_len(field, uv, odv.take(k - 1));
                assert(odv.skip(k - 1)[0] == odv[k - 1]);
                assert(insert_sorted(field, uv, odv.take(k - 1)) + odv.skip(k - 1)
                    =~= insert_sorted(field, uv, odv.take(k - 1)).push(odv[k - 1]) + odv.skip(
                    k as int,
                ));
            }
            k = k - 1;
        }
        proof {
            let odv = out.deep_view();
            if k > 0 {
                assert(odv.take(k as int).last() == odv[k - 1]);
                assert(insert_sorted(field, uv, odv.take(k as int)) =~= odv.take(k as int).push(
                    uv,
                ));
            } else {
                assert(odv.take(0) =~= Seq::<UserView>::empty());
            }
            assert(target =~= odv.insert(k as int, uv));
        }
        out.insert(k, u);
        proof {
            assert(out.deep_view() =~= target);
            assert(v.deep_view().take(i + 1).drop_last() =~= v.deep_view().take(i as int));
            assert(v.deep_view().take(i + 1).last() == uv);
        }
        i = i + 1;
    }
    proof {
        assert(v.deep_view().take(v.len() as int) =~= v.deep_view());
    }
    out
}

// ---------------------------------------------------------------------
// The store.
// ---------------------------------------------------------------------

/// The in-memory repository: the canonical copies of the records, in
/// insertion order, with pairwise-distinct identifiers. Callers receive
/// clones and cannot affect the store through them.
#[derive(Debug)]
pub struct InMemoryUserRepository {
    users: Vec<User>,
}

impl View for InMemoryUserRepository {
    type V = Seq<UserView>;

    closed spec fn view(&self) -> Seq<UserView> {
        self.users.deep_view()
    }
}

impl InMemoryUserRepository {
    pub fn new() -> (r: InMemoryUserRepository)
        ensures
            r@ == Seq::<UserView>::empty(),
            r.inv(),
    {
        let r = InMemoryUserRepository { users: Vec::new() };
        proof {
            assert(r@ =~= Seq::<UserView>::empty());
        }
        r
    }

    /// How many records the store holds.
    pub fn len(&self) -> (n: usize)
        ensures
            n == self@.len(),
    {
        self.users.len()
    }
}

impl Default for InMemoryUserRepository {
    fn default() -> (r: Self)
        ensures
            r@ == Seq::<UserView>::empty(),
            r.inv(),
    {
        InMemoryUserRepository::new()
    }
}

impl Clone for InMemoryUserRepository {
    fn clone(&self) -> (r: Self)
        ensures
            r@ == self@,
    {
        let mut users: Vec<User> = Vec::new();
        let mut i: usize = 0;
        while i < self.users.len()
            invariant
                i <= self.users.len(),
                users.deep_view() =~= self.users.deep_view().take(i as int),
            decreases self.users.len() - i,
        {
            users.push(self.users[i].clone());
            proof {
                assert(self.users.deep_view().take(i + 1).drop_last() =~= self.users.deep_view()
                    .take(i as int));
                assert(self.users.deep_view().take(i + 1).last() == self.users.deep_view()[
                    i as int]);
            }
            i = i + 1;
        }
        proof {
            assert(self.users.deep_view().take(self.users.len() as int) =~= self@);
        }
        InMemoryUserRepository { users }
    }
}

impl RepositoryTrait for InMemoryUserRepository {
    type Id = UserId;

    type Entity = User;

    type Error = UserError;

    type FindOptions = UserFindRequest;

    type FindResult = UserFindResponse;

    /// Identifiers are pairwise distinct.
    open spec fn inv(&self) -> bool {
        distinct_ids(self@)
    }

    /// `save` always succeeds; the returned record carries the input's
    /// names and email under the freshly drawn identifier, and the store
    /// gains it (replacing in place in the vanishing case where the drawn
    /// identifier is already present).
    open spec fn save_post(
        pre: InMemoryUserRepository,
        post: InMemoryUserRepository,
        entity: User,
        r: Result<User, UserError>,
    ) -> bool {
        r matches Ok(u) && {
            &&& u@.firstname == entity@.firstname
            &&& u@.lastname == entity@.lastname
            &&& u@.email == entity@.email
            &&& post@ == store_insert(pre@, u@)
        }
    }

    /// `update` rejects an identifier mismatch, then a missing record,
    /// then an email already used by another record, in that order; when
    /// nothing rejects, the record is replaced in place and returned. A
    /// rejected call leaves the store untouched.
    open spec fn update_post(
        pre: InMemoryUserRepository,
        post: InMemoryUserRepository,
        entity_id: UserId,
        entity: User,
        r: Result<User, UserError>,
    ) -> bool {
        if entity_id.value != entity@.id {
            &&& r == Err::<User, UserError>(UserError::MismatchUserId {
                id1: entity_id,
                id2: (UserId { value: entity@.id }),
            })
            &&& post == pre
        } else if !has_id(pre@, entity_id.value) {
            &&& r == Err::<User, UserError>(UserError::UserNotExists { id: entity_id })
            &&& post == pre
        } else if email_used_by_other(pre@, entity_id.value, entity@.email) {
            &&& r matches Err(e)
            &&& (e matches UserError::EmailAlreadyUsedByOther { email } && email@ == entity@.email)
            &&& post == pre
        } else {
            &&& r matches Ok(u) && u@ == entity@
            &&& post@ == pre@.update(index_of_id(pre@, entity_id.value), entity@)
        }
    }

    /// `delete` removes the record when it exists and reports its absence
    /// otherwise, leaving the store untouched.
    open spec fn delete_post(
        pre: InMemoryUserRepository,
        post: InMemoryUserRepository,
        entity_id: UserId,
        r: Result<(), UserError>,
    ) -> bool {
        if has_id(pre@, entity_id.value) {
            &&& r == Ok::<(), UserError>(())
            &&& post@ == pre@.remove(index_of_id(pre@, entity_id.value))
        } else {
            &&& r == Err::<(), UserError>(UserError::UserNotExists { id: entity_id })
            &&& post == pre
        }
    }

    /// `find_by_id` returns a clone of the record when it exists and
    /// reports its absence otherwise.
    open spec fn find_by_id_post(&self, entity_id: UserId, r: Result<User, UserError>) -> bool {
        if has_id(self@, entity_id.value) {
            r matches Ok(u) && u@ == self@[index_of_id(self@, entity_id.value)]
        } else {
            r == Err::<User, UserError>(UserError::UserNotExists { id: entity_id })
        }
    }

    /// A query's page size was validated at construction; the setters do
    /// not re-validate, so the engine asks for it again.
    open spec fn find_pre(options: UserFindRequest) -> bool {
        options.per_page_spec() >= 1
    }

    /// `find_all` never fails: it returns the page at the query's offset
    /// of the filtered set sorted by the query's field, and the number of
    /// pages that whole filtered set divides into.
    open spec fn find_all_post(&self, options: UserFindRequest, r: Result<
        UserFindResponse,
        UserError,
    >) -> bool {
        r matches Ok(resp) && {
            let filtered = filter_users(self@, options.filters_spec());
            let sorted = sort_by_field(sort_field_of(lower_of(options.order_by_spec())), filtered);
            &&& resp.results_spec() == page_of(
                sorted,
                options.per_page_spec() as int,
                options.offset_spec() as int,
            )
            &&& resp.page_count_spec() == page_count_of(
                filtered.len() as int,
                options.per_page_spec() as int,
            )
        }
    }

    fn save(&mut self, entity: &User) -> (r: Result<User, UserError>) {
        let id = fresh_user_id();
        let user = User::new(id, entity.get_firstname(), entity.get_lastname(), entity.get_email());
        match find_index(&self.users, id) {
            Some(i) => {
                proof {
                    let m = index_of_id(old(self)@, id.value);
                    assert(old(self)@[m].id == id.value);
                    assert(m == i);
                }
                replace_at(&mut self.users, i, user.clone());
                proof {
                    assert forall|p: int, q: int| 0 <= p < q < self@.len() implies self@[p].id
                        != self@[q].id by {
                        assert(old(self)@[p].id != old(self)@[q].id);
                    }
                }
            },
            None => {
                self.users.push(user.clone());
                proof {
                    assert(self@ =~= old(self)@.push(user@));
                    assert forall|p: int, q: int| 0 <= p < q < self@.len() implies self@[p].id
                        != self@[q].id by {
                        if q == self@.len() - 1 {
                            assert(!has_id(old(self)@, id.value));
                            assert(old(self)@[p].id != id.value);
                        } else {
                            assert(old(self)@[p].id != old(self)@[q].id);
                        }
                    }
                }
            },
        }
        Ok(user)
    }

    fn update(&mut self, entity_id: &UserId, entity: &User) -> (r: Result<User, UserError>) {
        if *entity_id != entity.get_id() {
            Err(UserError::MismatchUserId { id1: *entity_id, id2: entity.get_id() })
        } else {
            match find_index(&self.users, *entity_id) {
                Some(i) => {
                    if email_in_use_by_other(&self.users, *entity_id, entity.get_email()) {
                        Err(UserError::EmailAlreadyUsedByOther { email: entity.get_email().clone() })
                    } else {
                        proof {
                            let m = index_of_id(old(self)@, entity_id.value);
                            assert(old(self)@[m].id == entity_id.value);
                            assert(m == i);
                        }
                        replace_at(&mut self.users, i, entity.clone());
                        proof {
                            assert forall|p: int, q: int| 0 <= p < q < self@.len() implies
                                self@[p].id != self@[q].id by {
                                assert(old(self)@[p].id != old(self)@[q].id);
                            }
                        }
                        Ok(entity.clone())
                    }
                },
                None => Err(UserError::UserNotExists { id: *entity_id }),
            }
        }
    }

    fn delete(&mut self, entity_id: &UserId) -> (r: Result<(), UserError>) {
        match find_index(&self.users, *entity_id) {
            Some(i) => {
                proof {
                    let m = index_of_id(old(self)@, entity_id.value);
                    assert(old(self)@[m].id == entity_id.value);
                    assert(m == i);
                }
                self.users.remove(i);
                proof {
                    assert(self@ =~= old(self)@.remove(i as int));
                    assert forall|p: int, q: int| 0 <= p < q < self@.len() implies self@[p].id
                        != self@[q].id by {
                        let p0: int = if p < i { p } else { p + 1 };
                        let q0: int = if q < i { q } else { q + 1 };
                        assert(self@[p] == old(self)@[p0]);
                        assert(self@[q] == old(self)@[q0]);
                        assert(old(self)@[p0].id != old(self)@[q0].id);
                    }
                }
                Ok(())
            },
            None => Err(UserError::UserNotExists { id: *entity_id }),
        }
    }

    fn find_by_id(&self, entity_id: &UserId) -> (r: Result<User, UserError>) {
        match find_index(&self.users, *entity_id) {
            Some(i) => {
                proof {
                    let m = index_of_id(self@, entity_id.value);
                    assert(self@[m].id == entity_id.value);
                    assert(m == i);
                }
                Ok(self.users[i].clone())
            },
            None => Err(UserError::UserNotExists { id: *entity_id }),
        }
    }

    fn find_all(&self, options: &UserFindRequest) -> (r: Result<UserFindResponse, UserError>) {
        let query = options.get_query();
        let limit = options.get_limit();
        let order_by = options.get_order_by();
        let offset = options.get_offset();
        let field = sort_field_for(order_by.as_str());
        // Filter, in store order.
        let mut filtered: Vec<User> = Vec::new();
        let mut i: usize = 0;
        proof {
            assert(filtered.deep_view() =~= filter_users(self@.take(0), query@));
        }
        while i < self.users.len()
            invariant
                i <= self.users.len(),
                query@ == options.filters_spec(),
                filtered.deep_view() =~= filter_users(self@.take(i as int), query@),
                self@ == self.users.deep_view(),
            decreases self.users.len() - i,
        {
            proof {
                assert(self@.take(i + 1).drop_last() =~= self@.take(i as int));
                assert(self@.take(i + 1).last() == self@[i as int]);
                assert(self@[i as int] == self.users@[i as int]@);
            }
            if user_matches(&query, &self.users[i]) {
                filtered.push(self.users[i].clone());
            }
            i = i + 1;
        }
        proof {
            assert(self@.take(self.users.len() as int) =~= self@);
        }
        // Sort, stably, by the chosen field.
        let sorted = sort_users(field, &filtered);
        let ghost sorted_spec = sort_by_field(field, filtered.deep_view());
        proof {
            lemma_sort_by_field_len(field, filtered.deep_view());
        }
        // Paginate.
        let total = sorted.len();
        let num_pages: u64 = if total == 0 {
            0
        } else {
            ((total as u64 - 1) / (limit as u64)) + 1
        };
        let mut selected: Vec<User> = Vec::new();
        if let Some(start) = offset.checked_mul(limit as u64) {
            if start < total as u64 {
                let s0 = start as usize;
                let end: usize = if total - s0 < limit as usize {
                    total
                } else {
                    s0 + limit as usize
                };
                let mut k = s0;
                proof {
                    assert(selected.deep_view() =~= sorted_spec.subrange(s0 as int, s0 as int));
                }
                while k < end
                    invariant
                        s0 <= k <= end <= total,
                        total == sorted.len(),
                        sorted.deep_view() == sorted_spec,
                        selected.deep_view() =~= sorted_spec.subrange(s0 as int, k as int),
                    decreases end - k,
                {
                    selected.push(sorted[k].clone());
                    proof {
                        assert(sorted.deep_view()[k as int] == sorted@[k as int]@);
                        assert(sorted_spec.subrange(s0 as int, k + 1).drop_last()
                            =~= sorted_spec.subrange(s0 as int, k as int));
                        assert(sorted_spec.subrange(s0 as int, k + 1).last() == sorted_spec[
                            k as int]);
                    }
                    k = k + 1;
                }
                proof {
                    assert(selected.deep_view() =~= page_of(
                        sorted_spec,
                        limit as int,
                        offset as int,
                    ));
                }
            } else {
                proof {
                    assert(page_of(sorted_spec, limit as int, offset as int)
                        =~= Seq::<UserView>::empty());
                    assert(selected.deep_view() =~= Seq::<UserView>::empty());
                }
            }
        } else {
            proof {
                assert(offset * (limit as int) > u64::MAX);
                assert(page_of(sorted_spec, limit as int, offset as int)
                    =~= Seq::<UserView>::empty());
                assert(selected.deep_view() =~= Seq::<UserView>::empty());
            }
        }
        Ok(UserFindResponse::new(selected, num_pages))
    }
}

// ---------------------------------------------------------------------
// Laws of the query engine.
// ---------------------------------------------------------------------

/// The page count depends only on the filtered set and the page size:
/// two queries over one store that differ in nothing but their offset
/// report the same page count.
pub proof fn lemma_page_count_independent_of_offset(
    store: InMemoryUserRepository,
    o1: UserFindRequest,
    o2: UserFindRequest,
    r1: Result<UserFindResponse, UserError>,
    r2: Result<UserFindResponse, UserError>,
)
    requires
        o1.filters_spec() == o2.filters_spec(),
        o1.per_page_spec() == o2.per_page_spec(),
        store.find_all_post(o1, r1),
        store.find_all_post(o2, r2),
    ensures
        r1 matches Ok(a) && r2 matches Ok(b) ==> a.page_count_spec() == b.page_count_spec(),
{
}

/// An offset past the last chunk returns the empty sequence, while the
/// page count still reflects the whole filtered set.
pub proof fn lemma_offset_past_end_is_empty(
    store: InMemoryUserRepository,
    options: UserFindRequest,
    r: Result<UserFindResponse, UserError>,
)
    requires
        store.find_all_post(options, r),
        options.offset_spec() * options.per_page_spec() >= filter_users(
            store@,
            options.filters_spec(),
        ).len(),
    ensures
        r matches Ok(resp) ==> resp.results_spec() == Seq::<UserView>::empty()
            && resp.page_count_spec() == page_count_of(
            filter_users(store@, options.filters_spec()).len() as int,
            options.per_page_spec() as int,
        ),
{
    let filtered = filter_users(store@, options.filters_spec());
    let field = sort_field_of(lower_of(options.order_by_spec()));
    lemma_sort_by_field_len(field, filtered);
}

/// A query never fails, and every record it returns is a record of the
/// store that matches every present filter field; a filter nothing
/// matches yields the empty sequence, not an error.
pub proof fn lemma_results_match_filter(
    store: InMemoryUserRepository,
    options: UserFindRequest,
    r: Result<UserFindResponse, UserError>,
)
    requires
        store.find_all_post(options, r),
    ensures
        r is Ok,
        r matches Ok(resp) ==> forall|k: int|
            0 <= k < resp.results_spec().len() ==> matches_filter(
                options.filters_spec(),
                #[trigger] resp.results_spec()[k],
            ) && store@.contains(resp.results_spec()[k]),
{
    broadcast use vstd::seq_lib::group_to_multiset_ensures;

    let f = options.filters_spec();
    let filtered = filter_users(store@, f);
    let field = sort_field_of(lower_of(options.order_by_spec()));
    let sorted = sort_by_field(field, filtered);
    lemma_sort_by_field_multiset(field, filtered);
    lemma_filter_users_characterized(store@, f);
    let resp = r->Ok_0;
    let page = resp.results_spec();
    assert forall|k: int| 0 <= k < page.len() implies matches_filter(f, #[trigger] page[k])
        && store@.contains(page[k]) by {
        let per_page = options.per_page_spec() as int;
        let start = options.offset_spec() as int * per_page;
        assert(page[k] == sorted[start + k]);
        assert(sorted.contains(sorted[start + k]));
        assert(sorted.to_multiset().count(sorted[start + k]) > 0);
        assert(filtered.to_multiset().count(sorted[start + k]) > 0);
        assert(filtered.contains(sorted[start + k]));
        let m = choose|m: int| 0 <= m < filtered.len() && filtered[m] == sorted[start + k];
        assert(matches_filter(f, filtered[m]) && store@.contains(filtered[m]));
    }
}

/// The returned page is non-decreasing in the field that the lowercased
/// `order_by` selects — the three named fields, and the identifier for
/// every other value.
pub proof fn lemma_results_sorted(
    store: InMemoryUserRepository,
    options: UserFindRequest,
    r: Result<UserFindResponse, UserError>,
)
    requires
        store.find_all_post(options, r),
    ensures
        r matches Ok(resp) ==> sorted_by(
            sort_field_of(lower_of(options.order_by_spec())),
            resp.results_spec(),
        ),
{
    let f = options.filters_spec();
    let filtered = filter_users(store@, f);
    let field = sort_field_of(lower_of(options.order_by_spec()));
    let sorted = sort_by_field(field, filtered);
    lemma_sort_by_field_sorted(field, filtered);
    let resp = r->Ok_0;
    let page = resp.results_spec();
    let per_page = options.per_page_spec() as int;
    let start = options.offset_spec() as int * per_page;
    assert forall|i: int, j: int| 0 <= i < j < page.len() implies le_by(
        field,
        page[i],
        page[j],
    ) by {
        assert(page[i] == sorted[start + i]);
        assert(page[j] == sorted[start + j]);
    }
}

/// Two updates that claim one email for different records cannot both
/// succeed: after one has committed, the other — targeting a record that
/// exists and carrying its own identifier — is rejected with
/// `EmailAlreadyUsedByOther`, and the store is unchanged by the rejected
/// call. An outer shell that runs each update in one exclusive critical
/// section serializes any pair of updates into this shape.
pub proof fn lemma_second_claim_of_email_fails(
    s0: InMemoryUserRepository,
    s1: InMemoryUserRepository,
    s2: InMemoryUserRepository,
    id1: UserId,
    u1: User,
    r1: Result<User, UserError>,
    id2: UserId,
    u2: User,
    r2: Result<User, UserError>,
)
    requires
        InMemoryUserRepository::update_post(s0, s1, id1, u1, r1),
        InMemoryUserRepository::update_post(s1, s2, id2, u2, r2),
        r1 is Ok,
        id1.value != id2.value,
        u1@.email == u2@.email,
        u2@.id == id2.value,
        has_id(s1@, id2.value),
    ensures
        r2 matches Err(e) && (e matches UserError::EmailAlreadyUsedByOther { email } && email@
            == u2@.email),
        s2 == s1,
{
    let idx1 = index_of_id(s0@, id1.value);
    assert(s0@[idx1].id == id1.value);
    assert(s1@[idx1] == u1@);
    assert(email_used_by_other(s1@, id2.value, u2@.email));
}

} // verus!
