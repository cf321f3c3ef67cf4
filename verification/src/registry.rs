//! The registry: which notifications are active, and under which identifier.

use crate::ids::{filled_up_to, is_lowest_free, lemma_filled_len, lemma_lowest_free_is, lowest_free_id};
use crate::notification::Notification;
use std::collections::HashMap;
use vstd::prelude::*;

verus! {

broadcast use vstd::std_specs::hash::group_hash_axioms;

/// Why a request was turned down.
#[derive(Clone, Copy, Debug, PartialEq, Eq, Structural)]
pub enum RegistryError {
    /// The identifier names no active notification.
    NotFound,
}

/// The identifier under which a request with this `replaces_id` is filed: the
/// named identifier, or the lowest free one when it names none.
pub open spec fn notify_id(active: Map<u32, Notification>, replaces_id: u32) -> u32 {
    if replaces_id != 0 {
        replaces_id
    } else {
        lowest_free_id(active.dom())
    }
}

/// The active notifications after `notification` has been filed.
pub open spec fn notify_map(active: Map<u32, Notification>, notification: Notification) -> Map<
    u32,
    Notification,
> {
    active.insert(notify_id(active, notification.replaces_id), notification)
}

/// What closing `id` answers.
pub open spec fn close_result(active: Map<u32, Notification>, id: u32) -> Result<
    (),
    RegistryError,
> {
    if active.contains_key(id) {
        Ok(())
    } else {
        Err(RegistryError::NotFound)
    }
}

/// The active notifications after closing `id`. Where `id` is not active this
/// is `active` itself.
pub open spec fn close_map(active: Map<u32, Notification>, id: u32) -> Map<u32, Notification> {
    active.remove(id)
}

/// The display features that the server announces, in the order announced.
pub open spec fn capability_tags() -> Seq<Seq<char>> {
    seq!["icon-static"@, "body"@, "body-images"@, "persistence"@]
}

/// The server's name, vendor, version, and the version of the protocol it
/// speaks.
pub open spec fn server_information() -> (Seq<char>, Seq<char>, Seq<char>, Seq<char>) {
    ("lili"@, "lili"@, "0.1"@, "1.2"@)
}

/// Whether one more fresh identifier can be handed out: some 32-bit positive
/// identifier is still unused.
pub open spec fn has_room(active: Map<u32, Notification>) -> bool {
    active.dom().len() < u32::MAX
}

/// The set of active notifications, keyed by identifier.
pub struct Notifications {
    notification_map: HashMap<u32, Notification>,
}

impl View for Notifications {
    type V = Map<u32, Notification>;

    closed spec fn view(&self) -> Map<u32, Notification> {
        self.notification_map@
    }
}

impl Notifications {
    /// The registry's invariant: finitely many entries, none under `0`.
    pub open spec fn wf(&self) -> bool {
        &&& self@.dom().finite()
        &&& !self@.contains_key(0)
    }

    /// A registry with no active notification.
    pub fn new() -> (registry: Notifications)
        ensures
            registry.wf(),
            registry@ == Map::<u32, Notification>::empty(),
    {
        Notifications { notification_map: HashMap::new() }
    }

    /// Files `notification` and answers the identifier it now has.
    ///
    /// With `replaces_id == 0` that is the lowest positive identifier not in
    /// use. Otherwise it is `replaces_id`, and whatever was filed there before
    /// is gone. No other entry changes.
    pub fn notify(&mut self, notification: Notification) -> (id: u32)
        requires
            old(self).wf(),
            notification.replaces_id == 0 ==> has_room(old(self)@),
        ensures
            final(self).wf(),
            id >= 1,
            id == notify_id(old(self)@, notification.replaces_id),
            notification.replaces_id == 0 ==> is_lowest_free(old(self)@.dom(), id),
            final(self)@ == notify_map(old(self)@, notification),
    {
        if notification.replaces_id != 0 {
            let replaces_id: u32 = notification.replaces_id;
            self.notification_map.remove(&replaces_id);
            self.notification_map.insert(replaces_id, notification);
            replaces_id
        } else {
            let mut count: u32 = 1;
            while self.notification_map.contains_key(&count)
                invariant
                    count >= 1,
                    self@ == old(self)@,
                    self@.dom().finite(),
                    has_room(self@),
                    filled_up_to(self@.dom(), (count - 1) as u32),
                decreases u32::MAX - count,
            {
                proof {
                    assert(filled_up_to(self@.dom(), count));
                    lemma_filled_len(self@.dom(), count);
                }
                count += 1;
            }
            proof {
                lemma_lowest_free_is(self@.dom(), count);
            }
            self.notification_map.insert(count, notification);
            count
        }
    }

    /// Removes the notification filed under `id`, or answers `NotFound` and
    /// changes nothing where there is none.
    pub fn close_notification(&mut self, id: u32) -> (result: Result<(), RegistryError>)
        requires
            old(self).wf(),
        ensures
            final(self).wf(),
            result == close_result(old(self)@, id),
            result is Ok ==> final(self)@ == close_map(old(self)@, id),
            result is Err ==> final(self)@ == old(self)@,
            !final(self)@.contains_key(id),
    {
        if self.notification_map.contains_key(&id) {
            self.notification_map.remove(&id);
            Ok(())
        } else {
            Err(RegistryError::NotFound)
        }
    }
    /// The display features that the server supports. The answer is fixed.
    pub fn get_capabilities(&self) -> (tags: Vec<String>)
        ensures
            tags@.len() == capability_tags().len(),
            forall|i: int| 0 <= i < tags@.len() ==> tags@[i]@ == capability_tags()[i],
    {
        let mut tags: Vec<String> = Vec::new();
        tags.push("icon-static".to_owned());
        tags.push("body".to_owned());
        tags.push("body-images".to_owned());
        tags.push("persistence".to_owned());
        tags
    }

    /// Name, vendor, version and protocol version. The answer is fixed.
    pub fn get_server_information(&self) -> (info: (String, String, String, String))
        ensures
            (info.0@, info.1@, info.2@, info.3@) == server_information(),
    {
        ("lili".to_owned(), "lili".to_owned(), "0.1".to_owned(), "1.2".to_owned())
    }

    /// Accepts the report that a notification was closed. The registry does
    /// not act on it.
    pub fn notification_closed(&mut self, id: u32, reason: u32)
        ensures
            *final(self) == *old(self),
    {
    }

    /// Accepts the report that an action was invoked. The registry does not
    /// act on it.
    pub fn action_invoked(&mut self, id: u32, action_key: String)
        ensures
            *final(self) == *old(self),
    {
    }

    /// Accepts an activation token. The registry does not act on it.
    pub fn activation_token(&mut self, id: u32, activation_token: u32)
        ensures
            *final(self) == *old(self),
    {
    }

    /// The active notifications as they stand, for reading.
    pub fn snapshot(&self) -> (active: &HashMap<u32, Notification>)
        ensures
            active@ == self@,
    {
        &self.notification_map
    }

    /// How many notifications are active.
    pub fn len(&self) -> (n: usize)
        ensures
            n == self@.dom().len(),
    {
        self.notification_map.len()
    }

    /// Whether a notification is filed under `id`.
    pub fn contains(&self, id: u32) -> (present: bool)
        ensures
            present == self@.contains_key(id),
    {
        self.notification_map.contains_key(&id)
    }

    /// The notification filed under `id`, if there is one.
    pub fn get(&self, id: u32) -> (found: Option<&Notification>)
        ensures
            found == (if self@.contains_key(id) {
                Some(&self@[id])
            } else {
                None
            }),
    {
        self.notification_map.get(&id)
    }

    /// Whether a request for a fresh identifier can be served.
    pub fn has_free_id(&self) -> (free: bool)
        ensures
            free == has_room(self@),
    {
        self.notification_map.len() < u32::MAX as usize
    }
}

} // verus!
