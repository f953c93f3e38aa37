//! The domain model: the `Name` and `EmailAddress` value objects, the
//! `User` entity, and the error taxonomy shared by the service and the
//! repository.

use crate::text::{char_is_uppercase, trim, trim_spec, uppercase_char};
use vstd::prelude::*;
use vstd::string::{StrSliceExecFns, StringExecFns};

verus! {

/// The identifier of a `User`: a 128-bit value, wide enough to carry a UUID.
#[derive(Clone, Copy, PartialEq, Eq, Structural, Debug, Hash)]
pub struct UserId {
    pub value: u128,
}

impl UserId {
    pub fn new(value: u128) -> (r: UserId)
        ensures
            r.value == value,
    {
        UserId { value }
    }
}

/// A person's name: a trimmed, non-empty string whose first character is
/// uppercase.
#[derive(Debug)]
pub struct Name {
    text: String,
}

impl View for Name {
    type V = Seq<char>;

    closed spec fn view(&self) -> Seq<char> {
        self.text@
    }
}

impl DeepView for Name {
    type V = Seq<char>;

    open spec fn deep_view(&self) -> Seq<char> {
        self.view()
    }
}

/// The invariant a `Name` establishes at construction: the text is already
/// trimmed, is non-empty, and starts with an uppercase character.
pub open spec fn valid_name(s: Seq<char>) -> bool {
    &&& trim_spec(s) == s
    &&& s.len() > 0
    &&& uppercase_char(s[0])
}

impl Name {
    /// Trims the input and accepts it iff what remains is non-empty and
    /// starts with an uppercase character.
    pub fn new(raw: &str) -> (r: Result<Name, NameError>)
        ensures
            r is Ok <==> trim_spec(raw@).len() > 0 && uppercase_char(trim_spec(raw@)[0]),
            r matches Ok(n) ==> n@ == trim_spec(raw@) && valid_name(n@),
            r matches Err(e) ==> e.invalid_name@ == trim_spec(raw@),
    {
        let trimmed = trim(raw);
        proof {
            crate::text::lemma_trim_spec_idempotent(raw@);
        }
        match Self::validate_name(trimmed.as_str()) {
            Ok(_) => Ok(Name { text: trimmed }),
            Err(e) => Err(e),
        }
    }

    /// Accepts exactly the strings that are non-empty and start with an
    /// uppercase character.
    pub fn validate_name(raw: &str) -> (r: Result<&str, NameError>)
        ensures
            r is Ok <==> raw@.len() > 0 && uppercase_char(raw@[0]),
            r matches Ok(t) ==> t@ == raw@,
            r matches Err(e) ==> e.invalid_name@ == raw@,
    {
        if raw.unicode_len() > 0 && char_is_uppercase(raw.get_char(0)) {
            Ok(raw)
        } else {
            Err(NameError { invalid_name: raw.to_owned() })
        }
    }

    /// Same acceptance as `new`.
    pub fn try_from(value: &str) -> (r: Result<Name, NameError>)
        ensures
            r is Ok <==> trim_spec(value@).len() > 0 && uppercase_char(trim_spec(value@)[0]),
            r matches Ok(n) ==> n@ == trim_spec(value@) && valid_name(n@),
            r matches Err(e) ==> e.invalid_name@ == trim_spec(value@),
    {
        Name::new(value)
    }

    pub fn as_str(&self) -> (r: &str)
        ensures
            r@ == self@,
    {
        self.text.as_str()
    }

    /// Renders the name: the underlying string.
    pub fn to_string(&self) -> (r: String)
        ensures
            r@ == self@,
    {
        self.text.clone()
    }
}

impl Clone for Name {
    fn clone(&self) -> (r: Self)
        ensures
            r == *self,
    {
        Name { text: self.text.clone() }
    }
}

impl PartialEq for Name {
    fn eq(&self, other: &Name) -> (r: bool) {
        self.text == other.text
    }
}

impl vstd::std_specs::cmp::PartialEqSpecImpl for Name {
    open spec fn obeys_eq_spec() -> bool {
        true
    }

    open spec fn eq_spec(&self, other: &Name) -> bool {
        self@ == other@
    }
}

/// The mathematical content of a `User`: its identifier and the character
/// sequences of its three value objects.
#[verifier::ext_equal]
pub ghost struct UserView {
    pub id: u128,
    pub firstname: Seq<char>,
    pub lastname: Seq<char>,
    pub email: Seq<char>,
}

/// The entity: an identifier plus validated value objects. Identity is the
/// identifier; two users with equal names and emails are still distinct
/// entities when their identifiers differ.
#[derive(Debug)]
pub struct User {
    id: UserId,
    firstname: Name,
    lastname: Name,
    email: EmailAddress,
}

impl View for User {
    type V = UserView;

    closed spec fn view(&self) -> UserView {
        UserView {
            id: self.id.value,
            firstname: self.firstname@,
            lastname: self.lastname@,
            email: self.email@,
        }
    }
}

impl DeepView for User {
    type V = UserView;

    open spec fn deep_view(&self) -> UserView {
        self.view()
    }
}

impl User {
    pub fn new(id: UserId, firstname: &Name, lastname: &Name, email: &EmailAddress) -> (u: User)
        ensures
            u@ == (UserView {
                id: id.value,
                firstname: firstname@,
                lastname: lastname@,
                email: email@,
            }),
    {
        User {
            id,
            firstname: firstname.clone(),
            lastname: lastname.clone(),
            email: email.clone(),
        }
    }

    pub fn get_id(&self) -> (r: UserId)
        ensures
            r.value == self@.id,
    {
        self.id
    }

    pub fn get_firstname(&self) -> (r: &Name)
        ensures
            r@ == self@.firstname,
    {
        &self.firstname
    }

    pub fn get_lastname(&self) -> (r: &Name)
        ensures
            r@ == self@.lastname,
    {
        &self.lastname
    }

    pub fn get_email(&self) -> (r: &EmailAddress)
        ensures
            r@ == self@.email,
    {
        &self.email
    }
}

impl Clone for User {
    fn clone(&self) -> (r: Self)
        ensures
            r == *self,
    {
        User {
            id: self.id,
            firstname: self.firstname.clone(),
            lastname: self.lastname.clone(),
            email: self.email.clone(),
        }
    }
}

impl PartialEq for User {
    fn eq(&self, other: &User) -> (r: bool) {
        self.id == other.id && self.firstname == other.firstname && self.lastname
            == other.lastname && self.email == other.email
    }
}

impl vstd::std_specs::cmp::PartialEqSpecImpl for User {
    open spec fn obeys_eq_spec() -> bool {
        true
    }

    open spec fn eq_spec(&self, other: &User) -> bool {
        self@ =~= other@
    }
}

/// The domain failures the repository and the service surface. `Unknown`
/// is the catch-all for backend faults; every other variant is a
/// deterministic rejection.
#[derive(Debug)]
pub enum UserError {
    /// The identifier in the request path differs from the one embedded in
    /// the entity.
    MismatchUserId { id1: UserId, id2: UserId },
    /// The email collides with an existing record.
    EmailAlreadyUsed { email: EmailAddress },
    /// No record exists at the given identifier.
    UserNotExists { id: UserId },
    /// The email collides with a record other than the one being updated.
    EmailAlreadyUsedByOther { email: EmailAddress },
    /// The requested page offset is below 1.
    PerPageOffsetTooLow { offset: u64 },
    /// The requested page size is below 1.
    PerPageValueTooLow { per_page: u16 },
    /// The requested page size is above 1000.
    PerPageValueTooHigh { per_page: u16 },
    /// A backend or infrastructure failure, with its opaque cause.
    Unknown { message: String },
}

/// An ASCII letter or digit.
pub open spec fn is_alnum_char(c: char) -> bool {
    let n = c as u32;
    (0x30 <= n && n <= 0x39) || (0x41 <= n && n <= 0x5A) || (0x61 <= n && n <= 0x7A)
}

/// A character allowed in the local part of an email address.
pub open spec fn is_local_char(c: char) -> bool {
    is_alnum_char(c) || c == '_' || c == '.' || c == '+' || c == '-'
}

/// A character allowed in the domain before its first dot.
pub open spec fn is_domain_char(c: char) -> bool {
    is_alnum_char(c) || c == '-'
}

/// A character allowed in the domain after its first dot.
pub open spec fn is_domain_tail_char(c: char) -> bool {
    is_alnum_char(c) || c == '-' || c == '.'
}

/// The decomposition of an email address around positions `i` (the `@`) and
/// `j` (the dot that separates the domain's first label from the rest):
/// a non-empty local part, a non-empty dot-free label, a dot, and a
/// non-empty remainder.
pub open spec fn email_split_at(s: Seq<char>, i: int, j: int) -> bool {
    &&& 1 <= i
    &&& i + 1 < j
    &&& j < s.len() - 1
    &&& s[i] == '@'
    &&& s[j] == '.'
    &&& (forall|k: int| 0 <= k < i ==> is_local_char(#[trigger] s[k]))
    &&& (forall|k: int| i < k < j ==> is_domain_char(#[trigger] s[k]))
    &&& (forall|k: int| j < k < s.len() ==> is_domain_tail_char(#[trigger] s[k]))
}

/// The email grammar: `local-part@domain.tld`, with the token character
/// sets above.
pub open spec fn valid_email(s: Seq<char>) -> bool {
    exists|i: int, j: int| email_split_at(s, i, j)
}

/// In any decomposition, the `@` must be the first one, with only local
/// characters before it.
proof fn lemma_at_position_forced(s: Seq<char>, i: int, p: int, q: int)
    requires
        0 <= i < s.len(),
        s[i] == '@',
        forall|k: int| 0 <= k < i ==> is_local_char(#[trigger] s[k]) && s[k] != '@',
        email_split_at(s, p, q),
    ensures
        p == i,
{
    if p < i {
        assert(s[p] != '@');
    }
    if p > i {
        assert(is_local_char(s[i]));
    }
}

/// Given the `@` position, the separating dot must be the first dot after
/// it, with only dot-free domain characters in between.
proof fn lemma_dot_position_forced(s: Seq<char>, i: int, j: int, q: int)
    requires
        0 <= i < j < s.len(),
        s[j] == '.',
        forall|k: int| i < k < j ==> is_domain_char(#[trigger] s[k]) && s[k] != '.',
        email_split_at(s, i, q),
    ensures
        q == j,
{
    if q < j {
        assert(s[q] != '.');
    }
    if q > j {
        assert(is_domain_char(s[j]));
    }
}

/// Decides whether a string matches the email grammar.
pub fn check_email(s: &str) -> (r: bool)
    ensures
        r == valid_email(s@),
{
    let n = s.unicode_len();
    let mut i: usize = 0;
    loop
        invariant
            0 <= i <= n,
            n == s@.len(),
            forall|k: int| 0 <= k < i ==> is_local_char(#[trigger] s@[k]) && s@[k] != '@',
        ensures
            0 <= i < n,
            s@[i as int] == '@',
            forall|k: int| 0 <= k < i ==> is_local_char(#[trigger] s@[k]) && s@[k] != '@',
        decreases n - i,
    {
        if i == n {
            proof {
                assert forall|p: int, q: int| !email_split_at(s@, p, q) by {
                    if email_split_at(s@, p, q) {
                        assert(is_local_char(s@[p]) && s@[p] != '@');
                    }
                }
            }
            return false;
        }
        let c = s.get_char(i);
        if c == '@' {
            break;
        }
        let nc = c as u32;
        let local = (0x30 <= nc && nc <= 0x39) || (0x41 <= nc && nc <= 0x5A) || (0x61 <= nc && nc
            <= 0x7A) || c == '_' || c == '.' || c == '+' || c == '-';
        if !local {
            proof {
                assert forall|p: int, q: int| !email_split_at(s@, p, q) by {
                    if email_split_at(s@, p, q) {
                        if p > i {
                            assert(is_local_char(s@[i as int]));
                        } else if p < i {
                            assert(s@[p] != '@');
                        }
                    }
                }
            }
            return false;
        }
        i = i + 1;
    }
    // s@[i] is the first '@'; everything before it is a local character.
    if i == 0 {
        proof {
            assert forall|p: int, q: int| !email_split_at(s@, p, q) by {
                if email_split_at(s@, p, q) {
                    assert(is_local_char(s@[0]));
                }
            }
        }
        return false;
    }
    let mut j: usize = i + 1;
    loop
        invariant
            0 < i < j <= n,
            n == s@.len(),
            s@[i as int] == '@',
            forall|k: int| 0 <= k < i ==> is_local_char(#[trigger] s@[k]) && s@[k] != '@',
            forall|k: int| i < k < j ==> is_domain_char(#[trigger] s@[k]) && s@[k] != '.',
        ensures
            i < j < n,
            s@[j as int] == '.',
            forall|k: int| i < k < j ==> is_domain_char(#[trigger] s@[k]) && s@[k] != '.',
        decreases n - j,
    {
        if j == n {
            proof {
                assert forall|p: int, q: int| !email_split_at(s@, p, q) by {
                    if email_split_at(s@, p, q) {
                        lemma_at_position_forced(s@, i as int, p, q);
                        assert(s@[q] != '.');
                    }
                }
            }
            return false;
        }
        let c = s.get_char(j);
        if c == '.' {
            break;
        }
        let nc = c as u32;
        let domain = (0x30 <= nc && nc <= 0x39) || (0x41 <= nc && nc <= 0x5A) || (0x61 <= nc && nc
            <= 0x7A) || c == '-';
        if !domain {
            proof {
                assert forall|p: int, q: int| !email_split_at(s@, p, q) by {
                    if email_split_at(s@, p, q) {
                        lemma_at_position_forced(s@, i as int, p, q);
                        if q > j {
                            assert(is_domain_char(s@[j as int]));
                        } else if q < j {
                            assert(s@[q] != '.');
                        }
                    }
                }
            }
            return false;
        }
        j = j + 1;
    }
    // s@[j] is the first '.' after the '@'; in between are domain characters.
    if j == i + 1 || j + 1 == n {
        proof {
            assert forall|p: int, q: int| !email_split_at(s@, p, q) by {
                if email_split_at(s@, p, q) {
                    lemma_at_position_forced(s@, i as int, p, q);
                    lemma_dot_position_forced(s@, i as int, j as int, q);
                }
            }
        }
        return false;
    }
    let mut k: usize = j + 1;
    loop
        invariant
            0 < i,
            i + 1 < j,
            j < k <= n,
            j + 1 < n,
            n == s@.len(),
            s@[i as int] == '@',
            s@[j as int] == '.',
            forall|k2: int| 0 <= k2 < i ==> is_local_char(#[trigger] s@[k2]) && s@[k2] != '@',
            forall|k2: int| i < k2 < j ==> is_domain_char(#[trigger] s@[k2]) && s@[k2] != '.',
            forall|k2: int| j < k2 < k ==> is_domain_tail_char(#[trigger] s@[k2]),
        decreases n - k,
    {
        if k == n {
            proof {
                assert(email_split_at(s@, i as int, j as int));
            }
            return true;
        }
        let c = s.get_char(k);
        let nc = c as u32;
        let tail = (0x30 <= nc && nc <= 0x39) || (0x41 <= nc && nc <= 0x5A) || (0x61 <= nc && nc
            <= 0x7A) || c == '-' || c == '.';
        if !tail {
            proof {
                assert forall|p: int, q: int| !email_split_at(s@, p, q) by {
                    if email_split_at(s@, p, q) {
                        lemma_at_position_forced(s@, i as int, p, q);
                        lemma_dot_position_forced(s@, i as int, j as int, q);
                        assert(is_domain_tail_char(s@[k as int]));
                    }
                }
            }
            return false;
        }
        k = k + 1;
    }
}

/// No character of the email grammar is whitespace, so a string matching
/// the grammar is already trimmed: it is accepted unchanged, and the stored
/// value renders back to the input itself.
pub proof fn lemma_valid_email_trimmed(s: Seq<char>)
    requires
        valid_email(s),
    ensures
        trim_spec(s) == s,
        valid_email(trim_spec(s)),
{
    let (i, j): (int, int) = choose|i: int, j: int| email_split_at(s, i, j);
    assert(forall|k: int| 0 <= k < s.len() ==> !crate::text::is_space_char(#[trigger] s[k]));
    crate::text::lemma_trim_spec_of_spaceless(s);
}

/// An email address: a trimmed string matching the email grammar.
#[derive(Debug)]
pub struct EmailAddress {
    text: String,
}

impl View for EmailAddress {
    type V = Seq<char>;

    closed spec fn view(&self) -> Seq<char> {
        self.text@
    }
}

impl DeepView for EmailAddress {
    type V = Seq<char>;

    open spec fn deep_view(&self) -> Seq<char> {
        self.view()
    }
}

impl EmailAddress {
    /// Trims the input and accepts it iff what remains matches the email
    /// grammar.
    pub fn new(email: &str) -> (r: Result<EmailAddress, EmailAddressError>)
        ensures
            r is Ok <==> valid_email(trim_spec(email@)),
            r matches Ok(e) ==> e@ == trim_spec(email@),
            r matches Err(e) ==> e.invalid_email@ == trim_spec(email@),
    {
        let trimmed = trim(email);
        match Self::validate_email(trimmed.as_str()) {
            Ok(()) => Ok(EmailAddress { text: trimmed }),
            Err(e) => Err(e),
        }
    }

    /// Accepts exactly the strings that match the email grammar.
    pub fn validate_email(email: &str) -> (r: Result<(), EmailAddressError>)
        ensures
            r is Ok <==> valid_email(email@),
            r matches Err(e) ==> e.invalid_email@ == email@,
    {
        if check_email(email) {
            Ok(())
        } else {
            Err(EmailAddressError { invalid_email: email.to_owned() })
        }
    }

    /// Same acceptance as `new`.
    pub fn try_from(value: &str) -> (r: Result<EmailAddress, EmailAddressError>)
        ensures
            r is Ok <==> valid_email(trim_spec(value@)),
            r matches Ok(e) ==> e@ == trim_spec(value@),
            r matches Err(e) ==> e.invalid_email@ == trim_spec(value@),
    {
        EmailAddress::new(value)
    }

    pub fn as_str(&self) -> (r: &str)
        ensures
            r@ == self@,
    {
        self.text.as_str()
    }

    /// Renders the address: the underlying string.
    pub fn to_string(&self) -> (r: String)
        ensures
            r@ == self@,
    {
        self.text.clone()
    }
}

impl Clone for EmailAddress {
    fn clone(&self) -> (r: Self)
        ensures
            r == *self,
    {
        EmailAddress { text: self.text.clone() }
    }
}

impl PartialEq for EmailAddress {
    fn eq(&self, other: &EmailAddress) -> (r: bool) {
        self.text == other.text
    }
}

impl vstd::std_specs::cmp::PartialEqSpecImpl for EmailAddress {
    open spec fn obeys_eq_spec() -> bool {
        true
    }

    open spec fn eq_spec(&self, other: &EmailAddress) -> bool {
        self@ == other@
    }
}

/// The rejection a failed `EmailAddress` construction carries: the trimmed
/// input.
#[derive(Debug)]
pub struct EmailAddressError {
    pub invalid_email: String,
}

impl EmailAddressError {
    /// Renders the rejection as the construction's failure message.
    pub fn to_string(&self) -> (r: String)
        ensures
            r@ == self.invalid_email@ + " is not a valid email address"@,
    {
        let mut r = self.invalid_email.clone();
        r.append(" is not a valid email address");
        r
    }
}

/// The rejection a failed `Name` construction carries: the trimmed input.
#[derive(Debug)]
pub struct NameError {
    pub invalid_name: String,
}

impl NameError {
    /// Renders the rejection as the construction's failure message.
    pub fn to_string(&self) -> (r: String)
        ensures
            r@ == self.invalid_name@ + " is not a valid name. Name should not be empty and must begin with capital."@,
    {
        let mut r = self.invalid_name.clone();
        r.append(" is not a valid name. Name should not be empty and must begin with capital.");
        r
    }
}

} // verus!
