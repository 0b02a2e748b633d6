use user_service::store::{StoreError, UserStore, MAX_USERS};
use user_service::user::{UpdateUser, User};

fn user(name: &str, password: &str, email: &str) -> User {
    User {
        id: -7,
        name: name.to_string(),
        password: password.to_string(),
        email: email.to_string(),
    }
}

fn stored(user: User, id: usize) -> User {
    User { id: id as i64, ..user }
}

fn numbered(n: usize) -> User {
    User {
        id: 1000 + n as i64,
        name: format!("user{}", n),
        password: format!("pw{}", n),
        email: format!("user{}@example.com", n),
    }
}

#[test]
fn new_store_is_empty() {
    let store = UserStore::new();
    assert_eq!(store.len(), 0);
    assert!(!store.contains(0));
    assert_eq!(store.get(0), Err(StoreError::NotFound));
}

#[test]
fn insert_then_get_returns_the_record() {
    let mut store = UserStore::new();
    let ada = user("ada", "secret", "ada@example.com");
    let id = store.insert(ada.clone());
    assert_eq!(id, 0);
    assert_eq!(store.get(id), Ok(stored(ada, id)));
    assert_eq!(store.len(), 1);
    assert!(store.contains(id));
}

#[test]
fn insert_overwrites_the_id_field_with_the_identifier() {
    let mut store = UserStore::new();
    let mut grace = user("grace", "pw", "grace@example.com");
    grace.id = 99;
    let id = store.insert(grace);
    assert_eq!(id, 0);
    let found = store.get(id).unwrap();
    assert_eq!(found.id, 0);
    assert_eq!(found.name, "grace");
    assert_eq!(found.password, "pw");
    assert_eq!(found.email, "grace@example.com");
}

#[test]
fn every_stored_record_carries_its_identifier() {
    let mut store = UserStore::new();
    for n in 0..6 {
        store.insert(numbered(n));
    }
    assert_eq!(store.remove(4), Ok(()));
    assert_eq!(store.remove(2), Ok(()));
    let mut late = numbered(40);
    late.id = i64::MIN;
    assert_eq!(store.insert(late), 2);
    let mut later = numbered(41);
    later.id = i64::MAX;
    assert_eq!(store.insert(later), 4);
    for id in 0..6usize {
        assert_eq!(store.get(id).unwrap().id, id as i64);
    }
    assert_eq!(store.get(2).unwrap().name, "user40");
    assert_eq!(store.get(4).unwrap().name, "user41");
}

#[test]
fn update_leaves_the_id_field_as_the_store_set_it() {
    let mut store = UserStore::new();
    store.insert(numbered(0));
    let id = store.insert(numbered(1));
    let change = UpdateUser { name: Some("n".to_string()), password: Some("p".to_string()) };
    assert_eq!(store.update(id, change), Ok(()));
    assert_eq!(store.get(id).unwrap().id, 1);
}

#[test]
fn first_ids_count_up_from_zero() {
    let mut store = UserStore::new();
    for n in 0..20 {
        assert_eq!(store.insert(numbered(n)), n);
    }
    assert_eq!(store.len(), 20);
    for n in 0..20 {
        assert_eq!(store.get(n), Ok(stored(numbered(n), n)));
    }
    assert_eq!(store.get(20), Err(StoreError::NotFound));
}

#[test]
fn vacant_id_is_not_found_by_any_operation() {
    let mut store = UserStore::new();
    store.insert(numbered(0));
    store.insert(numbered(1));
    assert_eq!(store.remove(0), Ok(()));
    for id in [0usize, 2, 3, 1000, usize::MAX] {
        assert_eq!(store.get(id), Err(StoreError::NotFound));
        let change = UpdateUser { name: Some("n".to_string()), password: Some("p".to_string()) };
        assert_eq!(store.update(id, change), Err(StoreError::NotFound));
        assert_eq!(store.remove(id), Err(StoreError::NotFound));
    }
    assert_eq!(store.len(), 1);
    assert_eq!(store.get(1), Ok(stored(numbered(1), 1)));
}

#[test]
fn second_remove_is_not_found() {
    let mut store = UserStore::new();
    let id = store.insert(numbered(7));
    assert_eq!(store.remove(id), Ok(()));
    assert_eq!(store.remove(id), Err(StoreError::NotFound));
    assert_eq!(store.len(), 0);
}

#[test]
fn removed_id_is_given_out_again() {
    let mut store = UserStore::new();
    for n in 0..5 {
        store.insert(numbered(n));
    }
    assert_eq!(store.remove(3), Ok(()));
    let newcomer = user("new", "pw", "new@example.com");
    assert_eq!(store.insert(newcomer.clone()), 3);
    assert_eq!(store.get(3), Ok(stored(newcomer, 3)));
    assert_eq!(store.len(), 5);
}

#[test]
fn insert_a_b_remove_a_insert_c() {
    let mut store = UserStore::new();
    let a = user("a", "pa", "a@example.com");
    let b = user("b", "pb", "b@example.com");
    let c = user("c", "pc", "c@example.com");
    assert_eq!(store.insert(a), 0);
    assert_eq!(store.insert(b.clone()), 1);
    assert_eq!(store.remove(0), Ok(()));
    assert_eq!(store.insert(c.clone()), 0);
    assert_eq!(store.get(0), Ok(stored(c, 0)));
    assert_eq!(store.get(1), Ok(stored(b, 1)));
}

#[test]
fn lowest_vacant_id_goes_first_when_the_higher_was_freed_last() {
    let mut store = UserStore::new();
    for n in 0..3 {
        store.insert(numbered(n));
    }
    assert_eq!(store.remove(0), Ok(()));
    assert_eq!(store.remove(2), Ok(()));
    assert_eq!(store.insert(numbered(10)), 0);
    assert_eq!(store.insert(numbered(11)), 2);
    assert_eq!(store.insert(numbered(12)), 3);
    assert_eq!(store.get(0), Ok(stored(numbered(10), 0)));
    assert_eq!(store.get(1), Ok(stored(numbered(1), 1)));
    assert_eq!(store.get(2), Ok(stored(numbered(11), 2)));
    assert_eq!(store.get(3), Ok(stored(numbered(12), 3)));
    assert_eq!(store.len(), 4);
}

#[test]
fn lowest_vacant_id_goes_first_when_the_lower_was_freed_last() {
    let mut store = UserStore::new();
    for n in 0..4 {
        store.insert(numbered(n));
    }
    assert_eq!(store.remove(2), Ok(()));
    assert_eq!(store.remove(1), Ok(()));
    assert_eq!(store.insert(numbered(20)), 1);
    assert_eq!(store.insert(numbered(21)), 2);
    assert_eq!(store.insert(numbered(22)), 4);
}

#[test]
fn vacancies_are_filled_in_rising_order_whatever_the_order_of_removal() {
    let mut store = UserStore::new();
    for n in 0..10 {
        store.insert(numbered(n));
    }
    for id in [4usize, 8, 1, 9, 6] {
        assert_eq!(store.remove(id), Ok(()));
    }
    assert_eq!(store.len(), 5);
    for (turn, expected) in [1usize, 4, 6, 8, 9, 10, 11].into_iter().enumerate() {
        assert_eq!(store.insert(numbered(100 + turn)), expected);
    }
    assert_eq!(store.len(), 12);
    for id in [0usize, 2, 3, 5, 7] {
        assert_eq!(store.get(id), Ok(stored(numbered(id), id)));
    }
    assert_eq!(store.get(8), Ok(stored(numbered(103), 8)));
}

#[test]
fn a_filled_vacancy_leaves_the_others_vacant() {
    let mut store = UserStore::new();
    for n in 0..6 {
        store.insert(numbered(n));
    }
    assert_eq!(store.remove(5), Ok(()));
    assert_eq!(store.remove(3), Ok(()));
    assert_eq!(store.remove(1), Ok(()));
    assert_eq!(store.remove(4), Ok(()));
    assert_eq!(store.insert(numbered(30)), 1);
    assert!(!store.contains(3));
    assert!(!store.contains(4));
    assert!(!store.contains(5));
    assert_eq!(store.len(), 3);
    assert_eq!(store.remove(3), Err(StoreError::NotFound));
    assert_eq!(store.insert(numbered(31)), 3);
    assert_eq!(store.remove(1), Ok(()));
    assert_eq!(store.insert(numbered(32)), 1);
    assert_eq!(store.insert(numbered(33)), 4);
    assert_eq!(store.insert(numbered(34)), 5);
    assert_eq!(store.insert(numbered(35)), 6);
}

#[test]
fn update_with_a_name_changes_only_the_name() {
    let mut store = UserStore::new();
    let id = store.insert(user("ada", "secret", "ada@example.com"));
    let change = UpdateUser { name: Some("X".to_string()), password: None };
    assert_eq!(store.update(id, change), Ok(()));
    assert_eq!(store.get(id), Ok(stored(user("X", "secret", "ada@example.com"), id)));
}

#[test]
fn update_with_a_password_changes_only_the_password() {
    let mut store = UserStore::new();
    let id = store.insert(user("ada", "secret", "ada@example.com"));
    let change = UpdateUser { name: None, password: Some("hunter2".to_string()) };
    assert_eq!(store.update(id, change), Ok(()));
    assert_eq!(store.get(id), Ok(stored(user("ada", "hunter2", "ada@example.com"), id)));
}

#[test]
fn update_with_both_fields_changes_both() {
    let mut store = UserStore::new();
    store.insert(numbered(0));
    let id = store.insert(user("ada", "secret", "ada@example.com"));
    let change = UpdateUser { name: Some("eve".to_string()), password: Some("pw".to_string()) };
    assert_eq!(store.update(id, change), Ok(()));
    assert_eq!(store.get(id), Ok(stored(user("eve", "pw", "ada@example.com"), id)));
    assert_eq!(store.get(0), Ok(stored(numbered(0), 0)));
}

#[test]
fn update_with_no_field_changes_nothing() {
    let mut store = UserStore::new();
    let id = store.insert(user("ada", "secret", "ada@example.com"));
    assert_eq!(store.update(id, UpdateUser { name: None, password: None }), Ok(()));
    assert_eq!(store.get(id), Ok(stored(user("ada", "secret", "ada@example.com"), id)));
}

#[test]
fn update_does_not_move_the_next_id() {
    let mut store = UserStore::new();
    for n in 0..3 {
        store.insert(numbered(n));
    }
    assert_eq!(store.remove(1), Ok(()));
    let change = UpdateUser { name: Some("renamed".to_string()), password: None };
    assert_eq!(store.update(2, change), Ok(()));
    assert_eq!(store.insert(numbered(9)), 1);
}

#[test]
fn inserts_in_turn_get_distinct_ids_and_lose_nothing() {
    let mut store = UserStore::new();
    for n in 0..8 {
        store.insert(numbered(n));
    }
    for id in [2usize, 5] {
        assert_eq!(store.remove(id), Ok(()));
    }
    let mut ids = Vec::new();
    for n in 50..60 {
        ids.push(store.insert(numbered(n)));
    }
    for (i, id) in ids.iter().enumerate() {
        for other in &ids[i + 1..] {
            assert_ne!(id, other);
        }
        assert_eq!(store.get(*id), Ok(stored(numbered(50 + i), *id)));
    }
    for id in [0usize, 1, 3, 4, 6, 7] {
        assert_eq!(store.get(id), Ok(stored(numbered(id), id)));
    }
    assert_eq!(store.len(), 16);
}

#[test]
fn store_limit_is_far_above_what_memory_holds() {
    assert_eq!(MAX_USERS, usize::MAX / 1024);
    assert!(MAX_USERS as u128 <= i64::MAX as u128);
}
