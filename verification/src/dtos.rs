//! The request and response shapes the service consumes and produces:
//! creation, update and deletion payloads, the paging/filter query with its
//! construction-time bounds, and the paged result.

use crate::model::{EmailAddress, Name, User, UserError, UserId, UserView};
use vstd::prelude::*;
use vstd::string::{StrSliceExecFns, StringExecFns};

verus! {

/// The payload for creating a user: validated value objects, no
/// identifier (the backend assigns one).
#[derive(Debug)]
pub struct UserAddRequest {
    firstname: Name,
    lastname: Name,
    email: EmailAddress,
}

impl UserAddRequest {
    pub fn new(firstname: &Name, lastname: &Name, email: &EmailAddress) -> (r: UserAddRequest)
        ensures
            r.firstname_spec() == firstname@,
            r.lastname_spec() == lastname@,
            r.email_spec() == email@,
    {
        UserAddRequest {
            email: email.clone(),
            firstname: firstname.clone(),
            lastname: lastname.clone(),
        }
    }

    pub closed spec fn firstname_spec(&self) -> Seq<char> {
        self.firstname@
    }

    pub closed spec fn lastname_spec(&self) -> Seq<char> {
        self.lastname@
    }

    pub closed spec fn email_spec(&self) -> Seq<char> {
        self.email@
    }

    pub fn get_firstname(&self) -> (r: &Name)
        ensures
            r@ == self.firstname_spec(),
    {
        &self.firstname
    }

    pub fn get_lastname(&self) -> (r: &Name)
        ensures
            r@ == self.lastname_spec(),
    {
        &self.lastname
    }

    pub fn get_email(&self) -> (r: &EmailAddress)
        ensures
            r@ == self.email_spec(),
    {
        &self.email
    }

    /// The entity this request describes, under a placeholder identifier:
    /// the backend replaces it when the entity is saved.
    pub fn to_user(&self) -> (u: User)
        ensures
            u@ == (UserView {
                id: 0,
                firstname: self.firstname_spec(),
                lastname: self.lastname_spec(),
                email: self.email_spec(),
            }),
    {
        User::new(UserId { value: 0 }, &self.firstname, &self.lastname, &self.email)
    }
}

/// The payload for updating a user: the full replacement entity, with the
/// identifier it claims to update.
#[derive(Debug)]
pub struct UserUpdateRequest {
    id: UserId,
    firstname: Name,
    lastname: Name,
    email: EmailAddress,
}

impl UserUpdateRequest {
    pub fn new(id: UserId, firstname: &Name, lastname: &Name, email: &EmailAddress) -> (r:
        UserUpdateRequest)
        ensures
            r.user_view() == (UserView {
                id: id.value,
                firstname: firstname@,
                lastname: lastname@,
                email: email@,
            }),
    {
        UserUpdateRequest {
            id,
            firstname: firstname.clone(),
            lastname: lastname.clone(),
            email: email.clone(),
        }
    }

    /// The entity this request describes.
    pub closed spec fn user_view(&self) -> UserView {
        UserView {
            id: self.id.value,
            firstname: self.firstname@,
            lastname: self.lastname@,
            email: self.email@,
        }
    }

    pub fn to_user(&self) -> (u: User)
        ensures
            u@ == self.user_view(),
    {
        User::new(self.id, &self.firstname, &self.lastname, &self.email)
    }
}

/// The payload for deleting a user: the identifier alone.
#[derive(Debug)]
pub struct UserDeleteRequest {
    id: UserId,
}

impl UserDeleteRequest {
    pub fn new(user_id: UserId) -> (r: UserDeleteRequest)
        ensures
            r.id_spec() == user_id.value,
    {
        UserDeleteRequest { id: user_id }
    }

    pub closed spec fn id_spec(&self) -> u128 {
        self.id.value
    }

    pub fn get_user_id(&self) -> (r: UserId)
        ensures
            r.value == self.id_spec(),
    {
        self.id
    }
}

/// The failures a deletion can surface, in the request's own vocabulary.
#[derive(Debug)]
pub enum UserDeleteRequestError {
    /// No record exists at the given identifier.
    UserNotExists { id: UserId },
    /// A backend or infrastructure failure, with its opaque cause.
    Unknown { message: String },
}

/// The failures an update can surface, in the request's own vocabulary.
#[derive(Debug)]
pub enum UserUpdateRequestError {
    /// No record exists at the given identifier.
    UserNotExists { id: UserId },
    /// The email collides with a record other than the one being updated.
    EmailAlreadyUsedByOther { email: EmailAddress },
    /// A backend or infrastructure failure, with its opaque cause.
    Unknown { message: String },
}

/// The mathematical content of a query filter: for each field, either no
/// constraint or the exact value required.
#[verifier::ext_equal]
pub ghost struct FilterView {
    pub id: Option<u128>,
    pub firstname: Option<Seq<char>>,
    pub lastname: Option<Seq<char>>,
    pub email: Option<Seq<char>>,
}

/// The optional per-field constraints of a query: a record matches iff
/// every present field matches exactly.
#[derive(Debug)]
pub struct UserFindRequestFilter {
    pub id: Option<UserId>,
    pub firstname: Option<String>,
    pub lastname: Option<String>,
    pub email: Option<String>,
}

impl View for UserFindRequestFilter {
    type V = FilterView;

    open spec fn view(&self) -> FilterView {
        FilterView {
            id: match self.id {
                Some(i) => Some(i.value),
                None => None,
            },
            firstname: self.firstname.deep_view(),
            lastname: self.lastname.deep_view(),
            email: self.email.deep_view(),
        }
    }
}

fn clone_opt_string(s: &Option<String>) -> (r: Option<String>)
    ensures
        r.deep_view() == s.deep_view(),
{
    match s {
        Some(t) => Some(t.clone()),
        None => None,
    }
}

impl Clone for UserFindRequestFilter {
    fn clone(&self) -> (r: Self)
        ensures
            r@ == self@,
    {
        UserFindRequestFilter {
            id: self.id,
            firstname: clone_opt_string(&self.firstname),
            lastname: clone_opt_string(&self.lastname),
            email: clone_opt_string(&self.email),
        }
    }
}

fn eq_opt_string(a: &Option<String>, b: &Option<String>) -> (r: bool)
    ensures
        r == (a.deep_view() == b.deep_view()),
{
    match (a, b) {
        (Some(x), Some(y)) => {
            proof {
                assert(a.deep_view() == Some(x.deep_view()));
                assert(b.deep_view() == Some(y.deep_view()));
            }
            *x == *y
        },
        (None, None) => true,
        _ => false,
    }
}

impl PartialEq for UserFindRequestFilter {
    fn eq(&self, other: &UserFindRequestFilter) -> (r: bool) {
        let id_eq = match (self.id, other.id) {
            (Some(a), Some(b)) => a == b,
            (None, None) => true,
            _ => false,
        };
        id_eq && eq_opt_string(&self.firstname, &other.firstname) && eq_opt_string(
            &self.lastname,
            &other.lastname,
        ) && eq_opt_string(&self.email, &other.email)
    }
}

impl vstd::std_specs::cmp::PartialEqSpecImpl for UserFindRequestFilter {
    open spec fn obeys_eq_spec() -> bool {
        true
    }

    open spec fn eq_spec(&self, other: &UserFindRequestFilter) -> bool {
        self@ =~= other@
    }
}

impl Default for UserFindRequestFilter {
    /// The filter with no constraints.
    fn default() -> (r: Self)
        ensures
            r@ == (FilterView {
                id: None,
                firstname: None,
                lastname: None,
                email: None,
            }),
    {
        UserFindRequestFilter { id: None, firstname: None, lastname: None, email: None }
    }
}

/// A validated query: filters, the sort field, and paging bounds that were
/// checked at construction (`per_page` within `[1, 1000]`, `offset` at
/// least 1). The setters do not re-validate, as on the original shape.
#[derive(Debug)]
pub struct UserFindRequest {
    filters: UserFindRequestFilter,
    order_by: String,
    per_page: u16,
    offset: u64,
}

impl UserFindRequest {
    /// Validates the paging bounds, page size first, and builds the query
    /// only when both hold.
    pub fn new(filters: &UserFindRequestFilter, order_by: &str, per_page: u16, offset: u64) -> (r:
        Result<UserFindRequest, UserFindRequestError>)
        ensures
            r is Ok <==> 1 <= per_page <= 1000 && offset >= 1,
            r matches Ok(q) ==> q.filters_spec() =~= filters@ && q.order_by_spec() == order_by@
                && q.per_page_spec() == per_page && q.offset_spec() == offset,
            per_page < 1 ==> r == Err::<UserFindRequest, UserFindRequestError>(
                UserFindRequestError::PerPageValueTooLow { per_page },
            ),
            per_page > 1000 ==> r == Err::<UserFindRequest, UserFindRequestError>(
                UserFindRequestError::PerPageValueTooHigh { per_page },
            ),
            1 <= per_page <= 1000 && offset < 1 ==> r == Err::<
                UserFindRequest,
                UserFindRequestError,
            >(UserFindRequestError::PerPageOffsetTooLow { offset }),
    {
        let per_page = Self::validate_per_page(per_page)?;
        let offset = Self::validate_offset(offset)?;
        Ok(UserFindRequest {
            filters: filters.clone(),
            order_by: order_by.to_owned(),
            per_page,
            offset,
        })
    }

    /// Accepts exactly the page sizes within `[1, 1000]`.
    pub fn validate_per_page(per_page: u16) -> (r: Result<u16, UserFindRequestError>)
        ensures
            per_page < 1 ==> r == Err::<u16, UserFindRequestError>(
                UserFindRequestError::PerPageValueTooLow { per_page },
            ),
            per_page > 1000 ==> r == Err::<u16, UserFindRequestError>(
                UserFindRequestError::PerPageValueTooHigh { per_page },
            ),
            1 <= per_page <= 1000 ==> r == Ok::<u16, UserFindRequestError>(per_page),
    {
        if per_page < 1 {
            Err(UserFindRequestError::PerPageValueTooLow { per_page })
        } else if per_page > 1000 {
            Err(UserFindRequestError::PerPageValueTooHigh { per_page })
        } else {
            Ok(per_page)
        }
    }

    /// Accepts exactly the offsets of at least 1.
    pub fn validate_offset(offset: u64) -> (r: Result<u64, UserFindRequestError>)
        ensures
            offset < 1 ==> r == Err::<u64, UserFindRequestError>(
                UserFindRequestError::PerPageOffsetTooLow { offset },
            ),
            offset >= 1 ==> r == Ok::<u64, UserFindRequestError>(offset),
    {
        if offset < 1 {
            Err(UserFindRequestError::PerPageOffsetTooLow { offset })
        } else {
            Ok(offset)
        }
    }

    pub closed spec fn filters_spec(&self) -> FilterView {
        self.filters@
    }

    pub closed spec fn order_by_spec(&self) -> Seq<char> {
        self.order_by@
    }

    pub closed spec fn per_page_spec(&self) -> u16 {
        self.per_page
    }

    pub closed spec fn offset_spec(&self) -> u64 {
        self.offset
    }

    pub fn set_filters(&mut self, filters: &UserFindRequestFilter)
        ensures
            final(self).filters_spec() == filters@,
            final(self).order_by_spec() == old(self).order_by_spec(),
            final(self).per_page_spec() == old(self).per_page_spec(),
            final(self).offset_spec() == old(self).offset_spec(),
    {
        self.filters = filters.clone();
    }

    pub fn set_per_page(&mut self, per_page: u16)
        ensures
            final(self).per_page_spec() == per_page,
            final(self).filters_spec() == old(self).filters_spec(),
            final(self).order_by_spec() == old(self).order_by_spec(),
            final(self).offset_spec() == old(self).offset_spec(),
    {
        self.per_page = per_page;
    }

    pub fn set_offset(&mut self, offset: u64)
        ensures
            final(self).offset_spec() == offset,
            final(self).filters_spec() == old(self).filters_spec(),
            final(self).order_by_spec() == old(self).order_by_spec(),
            final(self).per_page_spec() == old(self).per_page_spec(),
    {
        self.offset = offset;
    }
}

impl Default for UserFindRequest {
    /// The query with no constraints: empty sort field, 25 records per
    /// page, offset 1.
    fn default() -> (r: Self)
        ensures
            r.filters_spec() == (FilterView {
                id: None,
                firstname: None,
                lastname: None,
                email: None,
            }),
            r.order_by_spec() == Seq::<char>::empty(),
            r.per_page_spec() == 25,
            r.offset_spec() == 1,
    {
        UserFindRequest {
            filters: UserFindRequestFilter::default(),
            order_by: String::new(),
            per_page: 25,
            offset: 1,
        }
    }
}

/// A page of results: the selected records in their sorted order, and the
/// number of pages the whole filtered set divides into.
#[derive(Debug)]
pub struct UserFindResponse {
    users: Vec<User>,
    num_pages: u64,
}

impl UserFindResponse {
    pub fn new(users: Vec<User>, num_pages: u64) -> (r: UserFindResponse)
        ensures
            r.results_spec() == users.deep_view(),
            r.page_count_spec() == num_pages,
    {
        UserFindResponse { users, num_pages }
    }

    pub closed spec fn results_spec(&self) -> Seq<UserView> {
        self.users.deep_view()
    }

    pub closed spec fn page_count_spec(&self) -> u64 {
        self.num_pages
    }
}

impl crate::repository::FindOptionTrait for UserFindRequest {
    type QueryFilter = UserFindRequestFilter;

    fn get_query(&self) -> (r: UserFindRequestFilter)
        ensures
            r@ == self.filters_spec(),
    {
        self.filters.clone()
    }

    fn get_order_by(&self) -> (r: String)
        ensures
            r@ == self.order_by_spec(),
    {
        self.order_by.clone()
    }

    fn get_limit(&self) -> (r: u16)
        ensures
            r == self.per_page_spec(),
    {
        self.per_page
    }

    fn get_offset(&self) -> (r: u64)
        ensures
            r == self.offset_spec(),
    {
        self.offset
    }
}

impl crate::repository::FindResultTrait for UserFindResponse {
    type Entity = User;

    fn get_page_count(&self) -> (r: u64)
        ensures
            r == self.page_count_spec(),
    {
        self.num_pages
    }

    fn get_result(&self) -> (r: Vec<User>)
        ensures
            r.deep_view() == self.results_spec(),
    {
        let mut out: Vec<User> = Vec::new();
        let mut i: usize = 0;
        while i < self.users.len()
            invariant
                0 <= i <= self.users.len(),
                out.deep_view() =~= self.users.deep_view().take(i as int),
            decreases self.users.len() - i,
        {
            out.push(self.users[i].clone());
            proof {
                assert(self.users.deep_view().take(i + 1) =~= self.users.deep_view().take(
                    i as int,
                ).push(self.users.deep_view()[i as int]));
            }
            i = i + 1;
        }
        proof {
            assert(self.users.deep_view().take(self.users.len() as int) =~= self.results_spec());
        }
        out
    }
}

/// The rejections of query construction, and the catch-all for backend
/// faults.
#[derive(Debug)]
pub enum UserFindRequestError {
    /// The requested page offset is below 1.
    PerPageOffsetTooLow { offset: u64 },
    /// The requested page size is below 1.
    PerPageValueTooLow { per_page: u16 },
    /// The requested page size is above 1000.
    PerPageValueTooHigh { per_page: u16 },
    /// A backend or infrastructure failure, with its opaque cause.
    Unknown { message: String },
}

impl UserFindRequestError {
    /// Renders the rejection as its failure message.
    pub fn to_string(&self) -> (r: String)
        ensures
            self matches UserFindRequestError::PerPageOffsetTooLow { offset } ==> r@
                == "offset value "@ + crate::text::dec_str(offset as nat)
                + " cannot be less than 1, please choose higher value"@,
            self matches UserFindRequestError::PerPageValueTooLow { per_page } ==> r@
                == "per_page value "@ + crate::text::dec_str(per_page as nat)
                + " cannot be less than 1, please choose higher value"@,
            self matches UserFindRequestError::PerPageValueTooHigh { per_page } ==> r@
                == "per_page value "@ + crate::text::dec_str(per_page as nat)
                + " is too high, please choose lower value"@,
            self matches UserFindRequestError::Unknown { message } ==> r@ == message@,
    {
        match self {
            UserFindRequestError::PerPageOffsetTooLow { offset } => {
                let mut s = String::from_str("offset value ");
                let d = crate::text::u64_to_string(*offset);
                s.append(d.as_str());
                s.append(" cannot be less than 1, please choose higher value");
                s
            },
            UserFindRequestError::PerPageValueTooLow { per_page } => {
                let mut s = String::from_str("per_page value ");
                let d = crate::text::u64_to_string(*per_page as u64);
                s.append(d.as_str());
                s.append(" cannot be less than 1, please choose higher value");
                s
            },
            UserFindRequestError::PerPageValueTooHigh { per_page } => {
                let mut s = String::from_str("per_page value ");
                let d = crate::text::u64_to_string(*per_page as u64);
                s.append(d.as_str());
                s.append(" is too high, please choose lower value");
                s
            },
            UserFindRequestError::Unknown { message } => message.clone(),
        }
    }
}

impl From<UserFindRequestError> for UserError {
    /// Maps each query-construction rejection to the shared error
    /// taxonomy, variant by variant.
    fn from(val: UserFindRequestError) -> (r: UserError) {
        match val {
            UserFindRequestError::PerPageOffsetTooLow { offset } => {
                UserError::PerPageOffsetTooLow { offset }
            },
            UserFindRequestError::PerPageValueTooHigh { per_page } => {
                UserError::PerPageValueTooHigh { per_page }
            },
            UserFindRequestError::PerPageValueTooLow { per_page } => {
                UserError::PerPageValueTooLow { per_page }
            },
            UserFindRequestError::Unknown { message } => UserError::Unknown { message },
        }
    }
}

impl vstd::std_specs::convert::FromSpecImpl<UserFindRequestError> for UserError {
    open spec fn obeys_from_spec() -> bool {
        true
    }

    open spec fn from_spec(val: UserFindRequestError) -> UserError {
        match val {
            UserFindRequestError::PerPageOffsetTooLow { offset } => {
                UserError::PerPageOffsetTooLow { offset }
            },
            UserFindRequestError::PerPageValueTooHigh { per_page } => {
                UserError::PerPageValueTooHigh { per_page }
            },
            UserFindRequestError::PerPageValueTooLow { per_page } => {
                UserError::PerPageValueTooLow { per_page }
            },
            UserFindRequestError::Unknown { message } => UserError::Unknown { message },
        }
    }
}

} // verus!
