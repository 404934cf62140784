use contact_directory::directory::{Directory, DuplicateEmail, IdGen, NotFound};

#[test]
fn id_gen_starts_at_one_and_increases() {
    let mut ids = IdGen::new();
    assert_eq!(ids.next_id(), 1);
    assert_eq!(ids.next_id(), 2);
    assert_eq!(ids.next_id(), 3);
}

#[test]
fn seeded_directory_holds_the_two_samples() {
    let dir = Directory::seeded();
    let contacts = dir.list();
    assert_eq!(contacts.len(), 2);
    assert_eq!(contacts[0].id, 1);
    assert_eq!(contacts[0].name, "John");
    assert_eq!(contacts[0].email, "jd@gmail.com");
    assert_eq!(contacts[1].id, 2);
    assert_eq!(contacts[1].name, "Clara");
    assert_eq!(contacts[1].email, "cd@gmail.com");
}

#[test]
fn create_appends_a_contact_with_the_next_id() {
    let mut dir = Directory::seeded();
    let created = dir.create(String::from("Ann"), String::from("ann@x.com"));
    let contact = created.expect("a fresh email must be accepted");
    assert_eq!(contact.id, 3);
    assert_eq!(contact.name, "Ann");
    assert_eq!(contact.email, "ann@x.com");
    let contacts = dir.list();
    assert_eq!(contacts.len(), 3);
    assert_eq!(contacts[2].id, 3);
    assert_eq!(contacts[2].name, "Ann");
    assert_eq!(contacts[2].email, "ann@x.com");
}

#[test]
fn create_rejects_a_duplicate_email_and_changes_nothing() {
    let mut dir = Directory::seeded();
    let refused = dir.create(String::from("Ann"), String::from("jd@gmail.com"));
    assert_eq!(
        refused.unwrap_err(),
        DuplicateEmail { email: String::from("jd@gmail.com") }
    );
    let contacts = dir.list();
    assert_eq!(contacts.len(), 2);
    assert_eq!(contacts[0].name, "John");
    assert_eq!(contacts[1].name, "Clara");
}

#[test]
fn email_match_is_exact_and_case_sensitive() {
    let mut dir = Directory::seeded();
    let created = dir.create(String::from("Ann"), String::from("JD@GMAIL.COM"));
    assert!(created.is_ok());
    assert_eq!(dir.list().len(), 3);
}

#[test]
fn create_accepts_empty_strings_but_keeps_emails_unique() {
    let mut dir = Directory::new();
    let first = dir.create(String::new(), String::new());
    assert_eq!(first.expect("an empty email is acceptable").id, 1);
    let second = dir.create(String::from("x"), String::new());
    assert_eq!(second.unwrap_err(), DuplicateEmail { email: String::new() });
    assert_eq!(dir.list().len(), 1);
}

#[test]
fn ids_are_never_reused_after_deletion() {
    let mut dir = Directory::new();
    let a = dir.create(String::from("a"), String::from("a@x.com")).unwrap();
    let b = dir.create(String::from("b"), String::from("b@x.com")).unwrap();
    assert_eq!(a.id, 1);
    assert_eq!(b.id, 2);
    assert!(dir.delete(1).is_ok());
    let again = dir.create(String::from("a"), String::from("a@x.com")).unwrap();
    assert_eq!(again.id, 3);
    assert!(dir.delete(3).is_ok());
    let once_more = dir.create(String::from("a"), String::from("a@x.com")).unwrap();
    assert_eq!(once_more.id, 4);
}

#[test]
fn ids_strictly_increase_in_creation_order() {
    let mut dir = Directory::seeded();
    let mut previous: u32 = 0;
    for contact in dir.list() {
        assert!(contact.id > previous);
        previous = contact.id;
    }
    for i in 0..5u32 {
        let c = dir
            .create(format!("user{}", i), format!("user{}@x.com", i))
            .unwrap();
        assert!(c.id > previous);
        previous = c.id;
    }
}

#[test]
fn listing_keeps_insertion_order_across_deletions() {
    let mut dir = Directory::new();
    for i in 0..5u32 {
        dir.create(format!("user{}", i), format!("user{}@x.com", i))
            .unwrap();
    }
    assert!(dir.delete(3).is_ok());
    let ids: Vec<u32> = dir.list().iter().map(|c| c.id).collect();
    assert_eq!(ids, vec![1, 2, 4, 5]);
    dir.create(String::from("late"), String::from("late@x.com"))
        .unwrap();
    let ids: Vec<u32> = dir.list().iter().map(|c| c.id).collect();
    assert_eq!(ids, vec![1, 2, 4, 5, 6]);
}

#[test]
fn delete_twice_fails_the_second_time() {
    let mut dir = Directory::seeded();
    assert!(dir.delete(2).is_ok());
    assert_eq!(dir.delete(2).unwrap_err(), NotFound { id: 2 });
}

#[test]
fn delete_of_an_unknown_id_changes_nothing() {
    let mut dir = Directory::seeded();
    assert_eq!(dir.delete(99).unwrap_err(), NotFound { id: 99 });
    let contacts = dir.list();
    assert_eq!(contacts.len(), 2);
    assert_eq!(contacts[0].name, "John");
    assert_eq!(contacts[1].name, "Clara");
}

#[test]
fn serialized_creates_with_distinct_emails_all_succeed() {
    // Concurrent creates are serialized by the caller; under that discipline
    // N requests with distinct emails become N back-to-back calls.
    let mut dir = Directory::seeded();
    let before = dir.list().len();
    let mut new_ids: Vec<u32> = Vec::new();
    for i in 0..8u32 {
        let c = dir
            .create(format!("worker{}", i), format!("worker{}@x.com", i))
            .expect("distinct emails must all be accepted");
        new_ids.push(c.id);
    }
    assert_eq!(dir.list().len(), before + 8);
    for i in 0..new_ids.len() {
        for j in 0..new_ids.len() {
            if i != j {
                assert_ne!(new_ids[i], new_ids[j]);
            }
        }
    }
}

#[test]
fn serialized_creates_with_one_email_succeed_exactly_once() {
    let mut dir = Directory::seeded();
    let before = dir.list().len();
    let mut successes: u32 = 0;
    for i in 0..5u32 {
        match dir.create(format!("racer{}", i), String::from("race@x.com")) {
            Ok(c) => {
                successes += 1;
                assert_eq!(c.email, "race@x.com");
            }
            Err(e) => {
                assert_eq!(e, DuplicateEmail { email: String::from("race@x.com") });
            }
        }
    }
    assert_eq!(successes, 1);
    assert_eq!(dir.list().len(), before + 1);
}

#[test]
fn end_to_end_scenario() {
    let mut dir = Directory::seeded();

    let refused = dir.create(String::from("Ann"), String::from("jd@gmail.com"));
    assert_eq!(
        refused.unwrap_err(),
        DuplicateEmail { email: String::from("jd@gmail.com") }
    );
    assert_eq!(dir.list().len(), 2);

    let created = dir.create(String::from("Ann"), String::from("ann@x.com"));
    let ann = created.expect("ann@x.com is fresh");
    assert_eq!(ann.id, 3);
    assert_eq!(ann.name, "Ann");
    assert_eq!(ann.email, "ann@x.com");
    let names: Vec<&str> = dir.list().iter().map(|c| c.name.as_str()).collect();
    assert_eq!(names, vec!["John", "Clara", "Ann"]);

    assert!(dir.delete(2).is_ok());
    let names: Vec<&str> = dir.list().iter().map(|c| c.name.as_str()).collect();
    assert_eq!(names, vec!["John", "Ann"]);

    assert_eq!(dir.delete(2).unwrap_err(), NotFound { id: 2 });
}
