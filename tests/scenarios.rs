use user_service::handlers::{create, delete, get_all, update};
use user_service::model::{AddressDto, CreateUpdateUserDto, MissingField, UserDto};
use user_service::store::Storage;

fn request(first: &str, last: &str) -> CreateUpdateUserDto {
    CreateUpdateUserDto::from_fields(Some(first.to_string()), Some(last.to_string()), None, None, None)
        .unwrap()
}

fn user(id: i32, first: &str, last: &str) -> UserDto {
    UserDto {
        id,
        first_name: first.to_string(),
        last_name: last.to_string(),
        email: None,
        phone: None,
        address: None,
    }
}

fn sorted(mut users: Vec<UserDto>) -> Vec<UserDto> {
    users.sort_by_key(|u| u.id);
    users
}

#[test]
fn create_assigns_id_one() {
    let mut store = Storage::new();
    let created = create(&request("A", "B"), &mut store).unwrap();
    assert_eq!(created, user(1, "A", "B"));
    assert_eq!(created.email, None);
    assert_eq!(created.phone, None);
    assert_eq!(get_all(&store), vec![user(1, "A", "B")]);
}

#[test]
fn second_create_picks_max_plus_one() {
    let mut store = Storage::new();
    create(&request("A", "B"), &mut store).unwrap();
    let second = create(&request("C", "D"), &mut store).unwrap();
    assert_eq!(second.id, 2);
    assert_eq!(second.first_name, "C");
    assert_eq!(sorted(get_all(&store)), vec![user(1, "A", "B"), user(2, "C", "D")]);
}

#[test]
fn create_after_gap_uses_largest_id() {
    let mut store = Storage::new();
    update(42, &request("X", "Y"), &mut store);
    update(7, &request("P", "Q"), &mut store);
    let created = create(&request("C", "D"), &mut store).unwrap();
    assert_eq!(created.id, 43);
}

#[test]
fn create_after_negative_ids() {
    let mut store = Storage::new();
    update(-5, &request("X", "Y"), &mut store);
    let created = create(&request("C", "D"), &mut store).unwrap();
    assert_eq!(created.id, -4);
}

#[test]
fn create_refused_when_ids_run_out() {
    let mut store = Storage::new();
    update(i32::MAX, &request("X", "Y"), &mut store);
    assert_eq!(store.next_id(), None);
    assert_eq!(create(&request("C", "D"), &mut store), None);
    assert_eq!(get_all(&store), vec![user(i32::MAX, "X", "Y")]);
}

#[test]
fn put_upserts() {
    let mut store = Storage::new();
    let put = update(42, &request("X", "Y"), &mut store);
    assert_eq!(put, user(42, "X", "Y"));
    assert_eq!(get_all(&store), vec![user(42, "X", "Y")]);
}

#[test]
fn delete_missing_id_succeeds() {
    let mut store = Storage::new();
    let answer = delete(99, &mut store);
    assert!(answer.success);
    assert_eq!(get_all(&store), Vec::<UserDto>::new());
}

#[test]
fn update_overwrites() {
    let mut store = Storage::new();
    let created = create(&request("Old", "Name"), &mut store).unwrap();
    assert_eq!(created.id, 1);
    update(1, &request("New", "Name"), &mut store);
    assert_eq!(get_all(&store), vec![user(1, "New", "Name")]);
}

#[test]
fn malformed_body_rejected() {
    let mut store = Storage::new();
    let body = CreateUpdateUserDto::from_fields(Some("X".to_string()), None, None, None, None);
    assert_eq!(body, Err(MissingField::LastName));
    assert_eq!(get_all(&store), Vec::<UserDto>::new());
    let missing_first = CreateUpdateUserDto::from_fields(None, Some("Y".to_string()), None, None, None);
    assert_eq!(missing_first, Err(MissingField::FirstName));
    assert!(create(&request("A", "B"), &mut store).is_some());
    assert_eq!(get_all(&store).len(), 1);
}

#[test]
fn body_keeps_optional_fields() {
    let address = AddressDto::from_fields(
        Some("1 Main St".to_string()),
        Some("Springfield".to_string()),
        Some("IL".to_string()),
        Some("62701".to_string()),
    )
    .unwrap();
    let body = CreateUpdateUserDto::from_fields(
        Some("A".to_string()),
        Some("B".to_string()),
        Some("a@example.com".to_string()),
        Some("555-0100".to_string()),
        Some(address.clone()),
    )
    .unwrap();
    let built = UserDto::from_request(9, &body);
    assert_eq!(built.id, 9);
    assert_eq!(built.email, Some("a@example.com".to_string()));
    assert_eq!(built.phone, Some("555-0100".to_string()));
    assert_eq!(built.address, Some(address));
    assert_eq!(built.copy(), built);
}

#[test]
fn address_parts_are_required() {
    let s = || Some("x".to_string());
    assert_eq!(AddressDto::from_fields(None, s(), s(), s()), Err(MissingField::Street));
    assert_eq!(AddressDto::from_fields(s(), None, s(), s()), Err(MissingField::City));
    assert_eq!(AddressDto::from_fields(s(), s(), None, s()), Err(MissingField::State));
    assert_eq!(AddressDto::from_fields(s(), s(), s(), None), Err(MissingField::Zip));
    let a = AddressDto::from_fields(s(), s(), s(), s()).unwrap();
    assert_eq!(a.street, "x");
    assert_eq!(a.zip, "x");
}
