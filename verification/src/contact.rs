//! The contact record and queries over ordered collections of records.

use vstd::prelude::*;

verus! {

/// One person in the directory. The `id` is assigned at creation and never
/// changes; `name` and `email` are free-form text.
#[derive(Debug)]
pub struct Contact {
    pub id: u32,
    pub name: String,
    pub email: String,
}

/// The ordered collection of live contacts, insertion order preserved.
pub type Contacts = Vec<Contact>;

/// Some live contact in `s` holds exactly this email (case-sensitive).
pub open spec fn seq_has_email(s: Seq<Contact>, email: Seq<char>) -> bool {
    exists|i: int| 0 <= i < s.len() && s[i].email@ == email
}

/// Some live contact in `s` carries this id.
pub open spec fn seq_has_id(s: Seq<Contact>, id: u32) -> bool {
    exists|i: int| 0 <= i < s.len() && s[i].id == id
}

/// Ids strictly increase along `s`; since ids are issued in increasing order,
/// this is what "stored in creation order" means, and it makes ids unique.
pub open spec fn ids_increasing(s: Seq<Contact>) -> bool {
    forall|i: int, j: int| 0 <= i < j < s.len() ==> s[i].id < s[j].id
}

/// No two contacts of `s` hold the same email.
pub open spec fn emails_unique(s: Seq<Contact>) -> bool {
    forall|i: int, j: int| 0 <= i < j < s.len() ==> s[i].email@ != s[j].email@
}

/// Whether any contact of `contacts` holds exactly `email`.
pub fn has_email(contacts: &Contacts, email: &str) -> (r: bool)
    ensures
        r == seq_has_email(contacts@, email@),
{
    let owned: String = email.to_owned();
    let mut i: usize = 0;
    while i < contacts.len()
        invariant
            0 <= i <= contacts@.len(),
            owned@ == email@,
            forall|j: int| 0 <= j < i ==> contacts@[j].email@ != email@,
        decreases contacts@.len() - i,
    {
        if contacts[i].email == owned {
            return true;
        }
        i = i + 1;
    }
    false
}

/// The position of the first contact of `contacts` carrying `id`, if any.
pub fn get_contact_idx(contacts: &Contacts, id: u32) -> (r: Option<usize>)
    ensures
        match r {
            Some(i) => i < contacts@.len() && contacts@[i as int].id == id
                && (forall|j: int| 0 <= j < i ==> contacts@[j].id != id),
            None => !seq_has_id(contacts@, id),
        },
{
    let mut i: usize = 0;
    while i < contacts.len()
        invariant
            0 <= i <= contacts@.len(),
            forall|j: int| 0 <= j < i ==> contacts@[j].id != id,
        decreases contacts@.len() - i,
    {
        if contacts[i].id == id {
            return Some(i);
        }
        i = i + 1;
    }
    None
}

/// The two sample contacts the directory is seeded with at startup.
pub fn new_contacts() -> (r: Contacts)
    ensures
        r@.len() == 2,
        r@[0].id == 1 && r@[0].name@ == "John"@ && r@[0].email@ == "jd@gmail.com"@,
        r@[1].id == 2 && r@[1].name@ == "Clara"@ && r@[1].email@ == "cd@gmail.com"@,
        ids_increasing(r@),
        emails_unique(r@),
{
    let john = Contact {
        id: 1,
        name: "John".to_owned(),
        email: "jd@gmail.com".to_owned(),
    };
    let clara = Contact {
        id: 2,
        name: "Clara".to_owned(),
        email: "cd@gmail.com".to_owned(),
    };
    let mut v: Contacts = Vec::new();
    v.push(john);
    v.push(clara);
    proof {
        reveal_strlit("jd@gmail.com");
        reveal_strlit("cd@gmail.com");
        assert(("jd@gmail.com"@)[0] != ("cd@gmail.com"@)[0]);
    }
    v
}

} // verus!
