//! The user record, its postal address and the body of a create or update
//! request, each with a mathematical view over which contracts are stated.
use vstd::prelude::*;

verus! {

/// What a postal address holds.
pub struct AddressView {
    pub street: Seq<char>,
    pub city: Seq<char>,
    pub state: Seq<char>,
    pub zip: Seq<char>,
}

/// What a stored user holds.
pub struct UserView {
    pub id: i32,
    pub first_name: Seq<char>,
    pub last_name: Seq<char>,
    pub email: Option<Seq<char>>,
    pub phone: Option<Seq<char>>,
    pub address: Option<AddressView>,
}

/// What a create or update request holds: a user without its id.
pub struct RequestView {
    pub first_name: Seq<char>,
    pub last_name: Seq<char>,
    pub email: Option<Seq<char>>,
    pub phone: Option<Seq<char>>,
    pub address: Option<AddressView>,
}

/// A postal address; all four parts are required when an address is given.
#[derive(Clone, Debug, PartialEq, Eq)]
pub struct AddressDto {
    pub street: String,
    pub city: String,
    pub state: String,
    pub zip: String,
}

/// A stored user. On the wire the names are `firstName` and `lastName`.
#[derive(Clone, Debug, PartialEq, Eq)]
pub struct UserDto {
    pub id: i32,
    pub first_name: String,
    pub last_name: String,
    pub email: Option<String>,
    pub phone: Option<String>,
    pub address: Option<AddressDto>,
}

/// The body of a create or update request.
#[derive(Clone, Debug, PartialEq, Eq)]
pub struct CreateUpdateUserDto {
    pub first_name: String,
    pub last_name: String,
    pub email: Option<String>,
    pub phone: Option<String>,
    pub address: Option<AddressDto>,
}

/// A required field that a request body left out.
#[derive(Clone, Copy, Debug, PartialEq, Eq, Structural)]
pub enum MissingField {
    FirstName,
    LastName,
    Street,
    City,
    State,
    Zip,
}

/// The answer to a delete: always `success: true`.
#[derive(Clone, Copy, Debug, PartialEq, Eq, Structural)]
pub struct DeleteResponse {
    pub success: bool,
}

pub open spec fn opt_string_view(o: Option<String>) -> Option<Seq<char>> {
    match o {
        Some(s) => Some(s@),
        None => None,
    }
}

pub open spec fn opt_address_view(o: Option<AddressDto>) -> Option<AddressView> {
    match o {
        Some(a) => Some(a@),
        None => None,
    }
}

impl View for AddressDto {
    type V = AddressView;

    open spec fn view(&self) -> AddressView {
        AddressView { street: self.street@, city: self.city@, state: self.state@, zip: self.zip@ }
    }
}

impl View for UserDto {
    type V = UserView;

    open spec fn view(&self) -> UserView {
        UserView {
            id: self.id,
            first_name: self.first_name@,
            last_name: self.last_name@,
            email: opt_string_view(self.email),
            phone: opt_string_view(self.phone),
            address: opt_address_view(self.address),
        }
    }
}

impl View for CreateUpdateUserDto {
    type V = RequestView;

    open spec fn view(&self) -> RequestView {
        RequestView {
            first_name: self.first_name@,
            last_name: self.last_name@,
            email: opt_string_view(self.email),
            phone: opt_string_view(self.phone),
            address: opt_address_view(self.address),
        }
    }
}

/// The user that a request describes, stored under `id`.
pub open spec fn user_of(id: i32, req: RequestView) -> UserView {
    UserView {
        id,
        first_name: req.first_name,
        last_name: req.last_name,
        email: req.email,
        phone: req.phone,
        address: req.address,
    }
}

fn copy_opt_string(o: &Option<String>) -> (r: Option<String>)
    ensures
        opt_string_view(r) == opt_string_view(*o),
{
    match o {
        Some(s) => Some(s.clone()),
        None => None,
    }
}

impl AddressDto {
    /// Builds an address from the parts a body gave, failing on the first
    /// part that is missing (street, city, state, zip in that order).
    pub fn from_fields(
        street: Option<String>,
        city: Option<String>,
        state: Option<String>,
        zip: Option<String>,
    ) -> (r: Result<AddressDto, MissingField>)
        ensures
            street is None ==> r == Err::<AddressDto, MissingField>(MissingField::Street),
            street is Some && city is None ==> r == Err::<AddressDto, MissingField>(
                MissingField::City,
            ),
            street is Some && city is Some && state is None ==> r == Err::<
                AddressDto,
                MissingField,
            >(MissingField::State),
            street is Some && city is Some && state is Some && zip is None ==> r == Err::<
                AddressDto,
                MissingField,
            >(MissingField::Zip),
            r is Ok <==> (street is Some && city is Some && state is Some && zip is Some),
            r is Ok ==> r->Ok_0@ == (AddressView {
                street: street->Some_0@,
                city: city->Some_0@,
                state: state->Some_0@,
                zip: zip->Some_0@,
            }),
    {
        match (street, city, state, zip) {
            (None, _, _, _) => Err(MissingField::Street),
            (Some(_), None, _, _) => Err(MissingField::City),
            (Some(_), Some(_), None, _) => Err(MissingField::State),
            (Some(_), Some(_), Some(_), None) => Err(MissingField::Zip),
            (Some(street), Some(city), Some(state), Some(zip)) => Ok(
                AddressDto { street, city, state, zip },
            ),
        }
    }

    /// A copy with the same contents.
    pub fn copy(&self) -> (r: AddressDto)
        ensures
            r@ == self@,
    {
        AddressDto {
            street: self.street.clone(),
            city: self.city.clone(),
            state: self.state.clone(),
            zip: self.zip.clone(),
        }
    }
}

fn copy_opt_address(o: &Option<AddressDto>) -> (r: Option<AddressDto>)
    ensures
        opt_address_view(r) == opt_address_view(*o),
{
    match o {
        Some(a) => Some(a.copy()),
        None => None,
    }
}

impl CreateUpdateUserDto {
    /// Builds a request body from the fields it gave: both names are
    /// required, the rest may be absent. Fails on the first missing name.
    pub fn from_fields(
        first_name: Option<String>,
        last_name: Option<String>,
        email: Option<String>,
        phone: Option<String>,
        address: Option<AddressDto>,
    ) -> (r: Result<CreateUpdateUserDto, MissingField>)
        ensures
            first_name is None ==> r == Err::<CreateUpdateUserDto, MissingField>(
                MissingField::FirstName,
            ),
            first_name is Some && last_name is None ==> r == Err::<
                CreateUpdateUserDto,
                MissingField,
            >(MissingField::LastName),
            r is Ok <==> (first_name is Some && last_name is Some),
            r is Ok ==> r->Ok_0@ == (RequestView {
                first_name: first_name->Some_0@,
                last_name: last_name->Some_0@,
                email: opt_string_view(email),
                phone: opt_string_view(phone),
                address: opt_address_view(address),
            }),
    {
        match (first_name, last_name) {
            (None, _) => Err(MissingField::FirstName),
            (Some(_), None) => Err(MissingField::LastName),
            (Some(first_name), Some(last_name)) => Ok(
                CreateUpdateUserDto { first_name, last_name, email, phone, address },
            ),
        }
    }
}

impl UserDto {
    /// The user that `other` describes, with the id `id`.
    pub fn from_request(id: i32, other: &CreateUpdateUserDto) -> (r: UserDto)
        ensures
            r@ == user_of(id, other@),
    {
        UserDto {
            id: id,
            first_name: other.first_name.clone(),
            last_name: other.last_name.clone(),
            email: copy_opt_string(&other.email),
            phone: copy_opt_string(&other.phone),
            address: copy_opt_address(&other.address),
        }
    }

    /// A copy with the same contents.
    pub fn copy(&self) -> (r: UserDto)
        ensures
            r@ == self@,
    {
        UserDto {
            id: self.id,
            first_name: self.first_name.clone(),
            last_name: self.last_name.clone(),
            email: copy_opt_string(&self.email),
            phone: copy_opt_string(&self.phone),
            address: copy_opt_address(&self.address),
        }
    }
}

} // verus!
