//! The contact directory: an ordered collection of contacts with unique
//! emails, and the identity generator that issues its ids.
//!
//! The directory is the only owner of its records. All mutation goes through
//! `create` and `delete`; callers that dispatch operations concurrently must
//! serialize them (for instance behind a mutex), so that each operation's
//! contract here describes one atomic step.

use vstd::prelude::*;
use crate::contact::Contact;
use crate::contact::Contacts;
use crate::contact::emails_unique;
use crate::contact::get_contact_idx;
use crate::contact::has_email;
use crate::contact::ids_increasing;
use crate::contact::new_contacts;
use crate::contact::seq_has_email;
use crate::contact::seq_has_id;

verus! {

/// Issues monotonically increasing positive ids, starting at 1. `last` is the
/// most recently issued id (0 when none has been issued yet); an id, once
/// issued, is never issued again.
#[derive(Clone, Copy, Debug)]
pub struct IdGen {
    pub last: u32,
}

impl IdGen {
    /// A generator that has issued nothing yet.
    pub fn new() -> (r: IdGen)
        ensures
            r.last == 0,
    {
        IdGen { last: 0 }
    }

    /// Returns a positive id strictly greater than every id issued before.
    pub fn next_id(&mut self) -> (r: u32)
        requires
            old(self).last < u32::MAX,
        ensures
            r == old(self).last + 1,
            final(self).last == r,
            1 <= r,
    {
        self.last = self.last + 1;
        self.last
    }
}

/// `create` refused the request: a live contact already holds this email.
/// The directory was left unchanged.
#[derive(Debug, PartialEq, Eq)]
pub struct DuplicateEmail {
    pub email: String,
}

/// `delete` found no live contact with this id. The directory was left
/// unchanged.
#[derive(Debug, PartialEq, Eq)]
pub struct NotFound {
    pub id: u32,
}

/// The in-memory store of contact records, in insertion order, together with
/// its identity generator.
pub struct Directory {
    pub contacts: Contacts,
    pub ids: IdGen,
}

impl Directory {
    /// The directory's invariant:
    /// - ids strictly increase along the collection (so they are unique, and
    ///   the listing order is the creation order);
    /// - no two live contacts share an email;
    /// - every live id is positive and at most the last issued id, so the
    ///   next issued id is fresh even with respect to deleted contacts.
    pub open spec fn wf(self) -> bool {
        &&& ids_increasing(self.contacts@)
        &&& emails_unique(self.contacts@)
        &&& forall|i: int|
            0 <= i < self.contacts@.len() ==> 1 <= #[trigger] self.contacts@[i].id
                <= self.ids.last
    }

    /// An empty directory; no id has been issued.
    pub fn new() -> (r: Directory)
        ensures
            r.wf(),
            r.contacts@.len() == 0,
            r.ids.last == 0,
    {
        Directory { contacts: Vec::new(), ids: IdGen::new() }
    }

    /// The directory as seeded at startup: the two sample contacts, with ids
    /// 1 and 2 already issued.
    pub fn seeded() -> (r: Directory)
        ensures
            r.wf(),
            r.ids.last == 2,
            r.contacts@.len() == 2,
            r.contacts@[0].id == 1 && r.contacts@[0].name@ == "John"@
                && r.contacts@[0].email@ == "jd@gmail.com"@,
            r.contacts@[1].id == 2 && r.contacts@[1].name@ == "Clara"@
                && r.contacts@[1].email@ == "cd@gmail.com"@,
    {
        Directory { contacts: new_contacts(), ids: IdGen { last: 2 } }
    }

    /// A read-only snapshot of all live contacts, in insertion order.
    /// No side effects; never fails.
    pub fn list(&self) -> (r: &Contacts)
        ensures
            r@ == self.contacts@,
    {
        &self.contacts
    }

    /// Creates a contact, unless a live contact already holds `email`.
    ///
    /// Succeeds if and only if no live contact holds `email` (exact,
    /// case-sensitive match; an empty email is as acceptable as any other).
    /// On success the new contact carries the next fresh id and is appended,
    /// immediately visible to later calls; on failure nothing changes.
    pub fn create(&mut self, name: String, email: String) -> (r: Result<
        Contact,
        DuplicateEmail,
    >)
        requires
            old(self).wf(),
            old(self).ids.last < u32::MAX,
        ensures
            final(self).wf(),
            match r {
                Ok(c) => {
                    &&& !seq_has_email(old(self).contacts@, email@)
                    &&& c.id == old(self).ids.last + 1
                    &&& c.name == name
                    &&& c.email == email
                    &&& final(self).contacts@ == old(self).contacts@.push(c)
                    &&& final(self).ids.last == old(self).ids.last + 1
                },
                Err(e) => {
                    &&& seq_has_email(old(self).contacts@, email@)
                    &&& e.email == email
                    &&& *final(self) == *old(self)
                },
            },
    {
        if has_email(&self.contacts, email.as_str()) {
            return Err(DuplicateEmail { email });
        }
        let id = self.ids.next_id();
        let contact = Contact { id, name, email };
        let stored = Contact {
            id: contact.id,
            name: contact.name.clone(),
            email: contact.email.clone(),
        };
        proof {
            assert(stored == contact);
        }
        self.contacts.push(stored);
        proof {
            let s = old(self).contacts@;
            let t = self.contacts@;
            assert forall|i: int, j: int| 0 <= i < j < t.len() implies t[i].id < t[j].id by {
                if j < s.len() {
                    assert(t[i] == s[i] && t[j] == s[j]);
                } else {
                    assert(t[i] == s[i] && t[j] == contact);
                }
            }
            assert forall|i: int, j: int| 0 <= i < j < t.len() implies t[i].email@
                != t[j].email@ by {
                if j < s.len() {
                    assert(t[i] == s[i] && t[j] == s[j]);
                } else {
                    assert(t[i] == s[i] && t[j] == contact);
                    assert(s[i].email@ != email@);
                }
            }
        }
        Ok(contact)
    }

    /// Deletes the live contact with this id, if there is one.
    ///
    /// Succeeds if and only if a live contact carries `id`; that contact is
    /// removed, the survivors keep their relative order, and the id is never
    /// issued again (the generator is not touched). When no live contact
    /// carries `id`, fails with `NotFound` and nothing changes.
    pub fn delete(&mut self, id: u32) -> (r: Result<(), NotFound>)
        requires
            old(self).wf(),
        ensures
            final(self).wf(),
            final(self).ids == old(self).ids,
            match r {
                Ok(_) => {
                    &&& seq_has_id(old(self).contacts@, id)
                    &&& exists|i: int|
                        0 <= i < old(self).contacts@.len()
                            && old(self).contacts@[i].id == id
                            && final(self).contacts@ == old(self).contacts@.remove(i)
                    &&& !seq_has_id(final(self).contacts@, id)
                },
                Err(e) => {
                    &&& !seq_has_id(old(self).contacts@, id)
                    &&& e.id == id
                    &&& *final(self) == *old(self)
                },
            },
    {
        match get_contact_idx(&self.contacts, id) {
            None => Err(NotFound { id }),
            Some(idx) => {
                self.contacts.remove(idx);
                proof {
                    let s = old(self).contacts@;
                    let t = self.contacts@;
                    let i = idx as int;
                    assert(t == s.remove(i));
                    assert forall|k: int| 0 <= k < t.len() implies (if k < i {
                        t[k] == s[k]
                    } else {
                        t[k] == s[k + 1]
                    }) by {}
                    assert forall|k: int| 0 <= k < t.len() implies t[k].id != id by {
                        if k < i {
                            assert(s[k].id < s[i].id);
                        } else {
                            assert(s[i].id < s[k + 1].id);
                        }
                    }
                    assert forall|p: int, q: int| 0 <= p < q < t.len() implies t[p].id
                        < t[q].id by {
                        lemma_remove_index(s, i, p);
                        lemma_remove_index(s, i, q);
                    }
                    assert forall|p: int, q: int| 0 <= p < q < t.len() implies t[p].email@
                        != t[q].email@ by {
                        lemma_remove_index(s, i, p);
                        lemma_remove_index(s, i, q);
                    }
                    assert forall|k: int| 0 <= k < t.len() implies 1 <= #[trigger] t[k].id
                        <= self.ids.last by {
                        lemma_remove_index(s, i, k);
                    }
                    assert(s[i].id == id);
                }
                Ok(())
            },
        }
    }
}

/// After removing position `i`, position `k` of the result is the element
/// that stood at `k` (before `i`) or at `k + 1` (from `i` on).
proof fn lemma_remove_index(s: Seq<Contact>, i: int, k: int)
    requires
        0 <= i < s.len(),
        0 <= k < s.len() - 1,
    ensures
        k < i ==> s.remove(i)[k] == s[k],
        i <= k ==> s.remove(i)[k] == s[k + 1],
{
}

/// Uniqueness of identity: in a well-formed directory no two live contacts
/// share an id.
pub proof fn lemma_live_ids_unique(d: Directory)
    requires
        d.wf(),
    ensures
        forall|i: int, j: int|
            0 <= i < d.contacts@.len() && 0 <= j < d.contacts@.len() && i != j
                ==> d.contacts@[i].id != d.contacts@[j].id,
{
    assert forall|i: int, j: int|
        0 <= i < d.contacts@.len() && 0 <= j < d.contacts@.len() && i != j
        implies d.contacts@[i].id != d.contacts@[j].id by {
        if i < j {
            assert(d.contacts@[i].id < d.contacts@[j].id);
        } else {
            assert(d.contacts@[j].id < d.contacts@[i].id);
        }
    }
}

/// Uniqueness of email: in a well-formed directory no two live contacts share
/// an email.
pub proof fn lemma_live_emails_unique(d: Directory)
    requires
        d.wf(),
    ensures
        forall|i: int, j: int|
            0 <= i < d.contacts@.len() && 0 <= j < d.contacts@.len() && i != j
                ==> d.contacts@[i].email@ != d.contacts@[j].email@,
{
    assert forall|i: int, j: int|
        0 <= i < d.contacts@.len() && 0 <= j < d.contacts@.len() && i != j
        implies d.contacts@[i].email@ != d.contacts@[j].email@ by {
        if i < j {
            assert(d.contacts@[i].email@ != d.contacts@[j].email@);
        } else {
            assert(d.contacts@[j].email@ != d.contacts@[i].email@);
        }
    }
}

/// Freshness of the next id: the id that the next successful `create` will
/// assign is strictly greater than every live contact's id, so it is carried
/// by no live contact — and, since every id ever issued is at most
/// `ids.last`, by no deleted contact either: ids are never reused.
pub proof fn lemma_next_id_fresh(d: Directory)
    requires
        d.wf(),
        d.ids.last < u32::MAX,
    ensures
        forall|i: int|
            0 <= i < d.contacts@.len() ==> #[trigger] d.contacts@[i].id < d.ids.last + 1,
        !seq_has_id(d.contacts@, (d.ids.last + 1) as u32),
{
}

/// Insertion-order listing: `list()` returns the live contacts in creation
/// order. Ids are issued in increasing order, so along the listing of a
/// well-formed directory ids strictly increase, however many deletions were
/// interleaved with the creations.
pub proof fn lemma_list_creation_order(d: Directory)
    requires
        d.wf(),
    ensures
        ids_increasing(d.contacts@),
{
}

} // verus!

