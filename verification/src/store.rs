//! Store handle: the run-time object through which the application
//! reads and writes data after bootstrap.
//!
//! Construction runs the migration engine first; a handle exists only
//! for a fully migrated store. Every write enforces the relational
//! constraints the schema declares: unique usernames, referential
//! integrity of every foreign key, primary-key uniqueness, and the
//! denormalized group bookkeeping (`member_count` and the
//! `group_contacts` mirror) updated in the same atomic step as
//! `group_members`.

use vstd::prelude::*;
use crate::errors::Constraint;
use crate::errors::Entity;
use crate::errors::Error;
use crate::migration::SchemaState;
use crate::migration::distinct_versions;
use crate::migration::lemma_shipped_plan_succeeds;
use crate::migration::plan;
use crate::migration::plan_v;
use crate::migration::shipped_tables_v;
use crate::schema::TableDefV;
use crate::schema::distinct_table_names;

verus! {

/// Presence status of a user.
#[derive(Debug, Clone, Copy, PartialEq, Eq, Structural)]
pub enum UserStatus {
    Online,
    Offline,
    Away,
}

/// Kind of a message's content.
#[derive(Debug, Clone, Copy, PartialEq, Eq, Structural)]
pub enum MessageType {
    Text,
    Image,
}

/// Role of a group member.
#[derive(Debug, Clone, Copy, PartialEq, Eq, Structural)]
pub enum Role {
    Member,
    Admin,
    Owner,
}

/// A row of `users`.
#[derive(Debug)]
pub struct User {
    pub id: u64,
    pub username: String,
    pub avatar_url: Option<String>,
    pub status: UserStatus,
    pub created_at: i64,
}

/// A row of `messages`.
#[derive(Debug)]
pub struct Message {
    pub id: u64,
    pub sender_id: u64,
    pub receiver_id: u64,
    pub content: String,
    pub message_type: MessageType,
    pub timestamp: i64,
    pub is_read: bool,
}

/// A row of `contacts`.
#[derive(Debug)]
pub struct Contact {
    pub user_id: u64,
    pub contact_id: u64,
    pub added_at: i64,
}

/// A row of `auth_tokens`.
#[derive(Debug)]
pub struct AuthToken {
    pub id: u64,
    pub user_id: u64,
    pub access_token: String,
    pub refresh_token: Option<String>,
    pub expires_at: i64,
    pub created_at: i64,
}

/// A row of `groups`.
#[derive(Debug)]
pub struct Group {
    pub id: String,
    pub name: String,
    pub description: Option<String>,
    pub avatar_url: Option<String>,
    pub member_count: u64,
    pub created_by: u64,
    pub created_at: i64,
}

/// A row of `group_members`.
#[derive(Debug)]
pub struct GroupMember {
    pub group_id: String,
    pub user_id: u64,
    pub role: Role,
    pub joined_at: i64,
}

/// A row of `group_contacts`.
#[derive(Debug)]
pub struct GroupContact {
    pub user_id: u64,
    pub group_id: String,
    pub joined_at: i64,
}

/// A row of `group_messages`.
#[derive(Debug)]
pub struct GroupMessage {
    pub id: u64,
    pub group_id: String,
    pub sender_id: u64,
    pub content: String,
    pub message_type: MessageType,
    pub timestamp: i64,
}

/// Whether a user with id `id` exists.
pub open spec fn user_exists(users: Seq<User>, id: u64) -> bool {
    exists|i: int| 0 <= i < users.len() && (#[trigger] users[i]).id == id
}

/// Whether some user already holds `name`.
pub open spec fn username_taken(users: Seq<User>, name: Seq<char>) -> bool {
    exists|i: int| 0 <= i < users.len() && (#[trigger] users[i]).username@ == name
}

/// Whether a group with id `gid` exists.
pub open spec fn group_exists(groups: Seq<Group>, gid: Seq<char>) -> bool {
    exists|i: int| 0 <= i < groups.len() && (#[trigger] groups[i]).id@ == gid
}

/// Whether the contact pair is already recorded.
pub open spec fn contact_present(contacts: Seq<Contact>, user_id: u64, contact_id: u64) -> bool {
    exists|i: int|
        0 <= i < contacts.len() && (#[trigger] contacts[i]).user_id == user_id
            && contacts[i].contact_id == contact_id
}

/// Whether the membership pair is already recorded.
pub open spec fn member_present(members: Seq<GroupMember>, gid: Seq<char>, user_id: u64) -> bool {
    exists|i: int|
        0 <= i < members.len() && (#[trigger] members[i]).group_id@ == gid
            && members[i].user_id == user_id
}

/// How many membership rows name the group `gid`.
pub open spec fn member_count_of(members: Seq<GroupMember>, gid: Seq<char>) -> nat
    decreases members.len(),
{
    if members.len() == 0 {
        0
    } else {
        member_count_of(members.drop_last(), gid) + if members.last().group_id@ == gid {
            1nat
        } else {
            0nat
        }
    }
}

/// The messages addressed to `receiver_id`, in insertion order.
pub open spec fn messages_to(msgs: Seq<Message>, receiver_id: u64) -> Seq<Message>
    decreases msgs.len(),
{
    if msgs.len() == 0 {
        Seq::empty()
    } else {
        let rest = messages_to(msgs.drop_last(), receiver_id);
        if msgs.last().receiver_id == receiver_id {
            rest.push(msgs.last())
        } else {
            rest
        }
    }
}

/// The index of the group with id `gid` (meaningful when it exists and
/// ids are distinct).
pub open spec fn group_index_of(groups: Seq<Group>, gid: Seq<char>) -> int {
    choose|i: int| 0 <= i < groups.len() && (#[trigger] groups[i]).id@ == gid
}

/// Mathematical view of the whole store.
#[verifier::ext_equal]
pub struct StoreV {
    pub version: u64,
    pub tables: Seq<TableDefV>,
    pub users: Seq<User>,
    pub messages: Seq<Message>,
    pub contacts: Seq<Contact>,
    pub auth_tokens: Seq<AuthToken>,
    pub groups: Seq<Group>,
    pub group_members: Seq<GroupMember>,
    pub group_contacts: Seq<GroupContact>,
    pub group_messages: Seq<GroupMessage>,
}

/// The store handle.
pub struct Store {
    pub schema: SchemaState,
    pub users: Vec<User>,
    pub messages: Vec<Message>,
    pub contacts: Vec<Contact>,
    pub auth_tokens: Vec<AuthToken>,
    pub groups: Vec<Group>,
    pub group_members: Vec<GroupMember>,
    pub group_contacts: Vec<GroupContact>,
    pub group_messages: Vec<GroupMessage>,
}

impl View for Store {
    type V = StoreV;

    open spec fn view(&self) -> StoreV {
        StoreV {
            version: self.schema@.version,
            tables: self.schema@.tables,
            users: self.users@,
            messages: self.messages@,
            contacts: self.contacts@,
            auth_tokens: self.auth_tokens@,
            groups: self.groups@,
            group_members: self.group_members@,
            group_contacts: self.group_contacts@,
            group_messages: self.group_messages@,
        }
    }
}

/// Consistency of a store state: auto-assigned ids are the monotonic
/// sequence 1, 2, ..., usernames and primary keys are unique, every
/// foreign key references an existing parent row, every group's
/// `member_count` equals its number of membership rows, and
/// `group_contacts` mirrors `group_members` row for row.
pub open spec fn store_inv(s: StoreV) -> bool {
    &&& distinct_table_names(s.tables)
    &&& forall|i: int| 0 <= i < s.users.len() ==> (#[trigger] s.users[i]).id == i + 1
    &&& forall|i: int, j: int|
        0 <= i < j < s.users.len() ==> (#[trigger] s.users[i]).username@ != (
        #[trigger] s.users[j]).username@
    &&& forall|i: int| 0 <= i < s.messages.len() ==> (#[trigger] s.messages[i]).id == i + 1
    &&& forall|i: int|
        0 <= i < s.messages.len() ==> user_exists(s.users, (#[trigger] s.messages[i]).sender_id)
            && user_exists(s.users, s.messages[i].receiver_id)
    &&& forall|i: int, j: int|
        0 <= i < j < s.contacts.len() ==> !((#[trigger] s.contacts[i]).user_id == (
        #[trigger] s.contacts[j]).user_id && s.contacts[i].contact_id == s.contacts[j].contact_id)
    &&& forall|i: int|
        0 <= i < s.contacts.len() ==> user_exists(s.users, (#[trigger] s.contacts[i]).user_id)
            && user_exists(s.users, s.contacts[i].contact_id)
    &&& forall|i: int| 0 <= i < s.auth_tokens.len() ==> (#[trigger] s.auth_tokens[i]).id == i + 1
    &&& forall|i: int|
        0 <= i < s.auth_tokens.len() ==> user_exists(
            s.users,
            (#[trigger] s.auth_tokens[i]).user_id,
        )
    &&& forall|i: int, j: int|
        0 <= i < j < s.groups.len() ==> (#[trigger] s.groups[i]).id@ != (
        #[trigger] s.groups[j]).id@
    &&& forall|i: int|
        0 <= i < s.groups.len() ==> user_exists(s.users, (#[trigger] s.groups[i]).created_by)
    &&& forall|i: int|
        0 <= i < s.groups.len() ==> (#[trigger] s.groups[i]).member_count == member_count_of(
            s.group_members,
            s.groups[i].id@,
        )
    &&& forall|i: int, j: int|
        0 <= i < j < s.group_members.len() ==> !((#[trigger] s.group_members[i]).group_id@ == (
        #[trigger] s.group_members[j]).group_id@ && s.group_members[i].user_id
            == s.group_members[j].user_id)
    &&& forall|i: int|
        0 <= i < s.group_members.len() ==> group_exists(
            s.groups,
            (#[trigger] s.group_members[i]).group_id@,
        ) && user_exists(s.users, s.group_members[i].user_id)
    &&& s.group_contacts.len() == s.group_members.len()
    &&& forall|i: int|
        0 <= i < s.group_members.len() ==> (#[trigger] s.group_contacts[i]).user_id
            == s.group_members[i].user_id && s.group_contacts[i].group_id@
            == s.group_members[i].group_id@ && s.group_contacts[i].joined_at
            == s.group_members[i].joined_at
    &&& forall|i: int| 0 <= i < s.group_messages.len() ==> (#[trigger] s.group_messages[i]).id == i
        + 1
    &&& forall|i: int|
        0 <= i < s.group_messages.len() ==> group_exists(
            s.groups,
            (#[trigger] s.group_messages[i]).group_id@,
        ) && user_exists(s.users, s.group_messages[i].sender_id)
}

/// A membership count never exceeds the number of membership rows.
proof fn lemma_member_count_le_len(members: Seq<GroupMember>, gid: Seq<char>)
    ensures
        member_count_of(members, gid) <= members.len(),
    decreases members.len(),
{
    if members.len() > 0 {
        lemma_member_count_le_len(members.drop_last(), gid);
    }
}

/// Appending one membership row adjusts exactly the count of its group.
proof fn lemma_member_count_push(members: Seq<GroupMember>, m: GroupMember, gid: Seq<char>)
    ensures
        member_count_of(members.push(m), gid) == member_count_of(members, gid) + if m.group_id@
            == gid {
            1nat
        } else {
            0nat
        },
{
    assert(members.push(m).drop_last() =~= members);
    assert(members.push(m).last() == m);
}

/// A group no membership row names has count zero.
proof fn lemma_member_count_zero(members: Seq<GroupMember>, gid: Seq<char>)
    requires
        forall|i: int| 0 <= i < members.len() ==> (#[trigger] members[i]).group_id@ != gid,
    ensures
        member_count_of(members, gid) == 0,
    decreases members.len(),
{
    if members.len() > 0 {
        assert(forall|i: int|
            0 <= i < members.drop_last().len() ==> members.drop_last()[i] == members[i]);
        lemma_member_count_zero(members.drop_last(), gid);
    }
}

impl Store {
    /// Well-formedness of the handle: the invariant of its view.
    pub open spec fn wf(&self) -> bool {
        store_inv(self@)
    }

    /// An empty, unmigrated store: version marker 0, no tables, no rows.
    pub fn new() -> (s: Store)
        ensures
            s.wf(),
            s@.version == 0,
            s@.tables == Seq::<TableDefV>::empty(),
            s@.users == Seq::<User>::empty(),
            s@.messages == Seq::<Message>::empty(),
            s@.contacts == Seq::<Contact>::empty(),
            s@.auth_tokens == Seq::<AuthToken>::empty(),
            s@.groups == Seq::<Group>::empty(),
            s@.group_members == Seq::<GroupMember>::empty(),
            s@.group_contacts == Seq::<GroupContact>::empty(),
            s@.group_messages == Seq::<GroupMessage>::empty(),
    {
        let s = Store {
            schema: SchemaState::new(),
            users: Vec::new(),
            messages: Vec::new(),
            contacts: Vec::new(),
            auth_tokens: Vec::new(),
            groups: Vec::new(),
            group_members: Vec::new(),
            group_contacts: Vec::new(),
            group_messages: Vec::new(),
        };
        proof {
            assert(s@.users =~= Seq::<User>::empty());
            assert(s@.messages =~= Seq::<Message>::empty());
            assert(s@.contacts =~= Seq::<Contact>::empty());
            assert(s@.auth_tokens =~= Seq::<AuthToken>::empty());
            assert(s@.groups =~= Seq::<Group>::empty());
            assert(s@.group_members =~= Seq::<GroupMember>::empty());
            assert(s@.group_contacts =~= Seq::<GroupContact>::empty());
            assert(s@.group_messages =~= Seq::<GroupMessage>::empty());
        }
        s
    }

    /// Opens a fresh store and brings its schema to the latest shipped
    /// version before handing the handle out. If migration fails, no
    /// handle is returned and the application must not proceed.
    pub fn bootstrap() -> (r: Result<Store, Error>)
        ensures
            r is Ok,
            ({
                match r {
                    Ok(s) => {
                        &&& s.wf()
                        &&& s@.version == 2
                        &&& s@.tables == shipped_tables_v()
                        &&& s@.users == Seq::<User>::empty()
                        &&& s@.messages == Seq::<Message>::empty()
                        &&& s@.contacts == Seq::<Contact>::empty()
                        &&& s@.auth_tokens == Seq::<AuthToken>::empty()
                        &&& s@.groups == Seq::<Group>::empty()
                        &&& s@.group_members == Seq::<GroupMember>::empty()
                        &&& s@.group_contacts == Seq::<GroupContact>::empty()
                        &&& s@.group_messages == Seq::<GroupMessage>::empty()
                    },
                    Err(_) => false,
                }
            }),
    {
        let mut s = Store::new();
        let p = plan();
        proof {
            assert(distinct_versions(plan_v()));
            lemma_shipped_plan_succeeds();
        }
        let applied = s.schema.apply(&p);
        match applied {
            Ok(_) => Ok(s),
            Err(e) => {
                proof {
                    assert(false);
                }
                Err(e)
            },
        }
    }

    /// The currently applied schema version.
    pub fn version(&self) -> (v: u64)
        ensures
            v == self@.version,
    {
        self.schema.version()
    }

    /// How many tables the store currently holds.
    pub fn table_count(&self) -> (n: usize)
        ensures
            n == self@.tables.len(),
    {
        self.schema.table_count()
    }

    /// Whether a table named `name` is present.
    pub fn has_table(&self, name: &String) -> (r: bool)
        ensures
            r == crate::schema::has_table(self@.tables, name@),
    {
        self.schema.has_table(name)
    }

    /// Whether a user with id `id` exists.
    pub fn has_user(&self, id: u64) -> (r: bool)
        ensures
            r == user_exists(self@.users, id),
    {
        let mut i: usize = 0;
        while i < self.users.len()
            invariant
                i <= self.users@.len(),
                forall|j: int| 0 <= j < i ==> (#[trigger] self.users@[j]).id != id,
            decreases self.users@.len() - i,
        {
            if self.users[i].id == id {
                return true;
            }
            i += 1;
        }
        false
    }

    /// Whether some user already holds `name`.
    pub fn username_in_use(&self, name: &String) -> (r: bool)
        ensures
            r == username_taken(self@.users, name@),
    {
        let mut i: usize = 0;
        while i < self.users.len()
            invariant
                i <= self.users@.len(),
                forall|j: int| 0 <= j < i ==> (#[trigger] self.users@[j]).username@ != name@,
            decreases self.users@.len() - i,
        {
            if self.users[i].username == *name {
                return true;
            }
            i += 1;
        }
        false
    }

    /// Inserts a user. The id is auto-assigned and monotonic; an omitted
    /// status defaults to `Offline`. Fails, leaving the store unchanged,
    /// exactly when the username is already taken.
    pub fn insert_user(
        &mut self,
        username: String,
        avatar_url: Option<String>,
        status: Option<UserStatus>,
        now: i64,
    ) -> (r: Result<u64, Error>)
        requires
            old(self).wf(),
            old(self)@.users.len() < u64::MAX,
        ensures
            final(self).wf(),
            ({
                let s0 = old(self)@;
                match r {
                    Ok(id) => {
                        &&& !username_taken(s0.users, username@)
                        &&& id == s0.users.len() + 1
                        &&& final(self)@ == StoreV {
                            users: s0.users.push(
                                User {
                                    id,
                                    username,
                                    avatar_url,
                                    status: match status {
                                        Some(st) => st,
                                        None => UserStatus::Offline,
                                    },
                                    created_at: now,
                                },
                            ),
                            ..s0
                        }
                    },
                    Err(e) => {
                        &&& username_taken(s0.users, username@)
                        &&& final(self)@ == s0
                        &&& e matches Error::ConstraintViolation {
                            entity: Entity::Users,
                            constraint: Constraint::UniqueUsername,
                        }
                    },
                }
            }),
    {
        if self.username_in_use(&username) {
            return Err(
                Error::ConstraintViolation {
                    entity: Entity::Users,
                    constraint: Constraint::UniqueUsername,
                },
            );
        }
        let id: u64 = self.users.len() as u64 + 1;
        let user = User {
            id,
            username,
            avatar_url,
            status: match status {
                Some(st) => st,
                None => UserStatus::Offline,
            },
            created_at: now,
        };
        self.users.push(user);
        proof {
            let s0 = old(self)@;
            assert(self@ =~= StoreV { users: self@.users, ..s0 });
            assert forall|uid: u64| user_exists(s0.users, uid) implies user_exists(
                self@.users,
                uid,
            ) by {
                let i = choose|i: int| 0 <= i < s0.users.len() && (#[trigger] s0.users[i]).id
                    == uid;
                assert(self@.users[i] == s0.users[i]);
            }
        }
        Ok(id)
    }

    /// Inserts a direct message. The id is auto-assigned; an omitted
    /// message type defaults to `Text`; `is_read` starts `false`. Fails,
    /// leaving the store unchanged, exactly when the sender (checked
    /// first) or the receiver does not exist.
    pub fn insert_message(
        &mut self,
        sender_id: u64,
        receiver_id: u64,
        content: String,
        message_type: Option<MessageType>,
        now: i64,
    ) -> (r: Result<u64, Error>)
        requires
            old(self).wf(),
            old(self)@.messages.len() < u64::MAX,
        ensures
            final(self).wf(),
            ({
                let s0 = old(self)@;
                match r {
                    Ok(id) => {
                        &&& user_exists(s0.users, sender_id)
                        &&& user_exists(s0.users, receiver_id)
                        &&& id == s0.messages.len() + 1
                        &&& final(self)@ == StoreV {
                            messages: s0.messages.push(
                                Message {
                                    id,
                                    sender_id,
                                    receiver_id,
                                    content,
                                    message_type: match message_type {
                                        Some(t) => t,
                                        None => MessageType::Text,
                                    },
                                    timestamp: now,
                                    is_read: false,
                                },
                            ),
                            ..s0
                        }
                    },
                    Err(e) => {
                        &&& final(self)@ == s0
                        &&& if !user_exists(s0.users, sender_id) {
                            e matches Error::ConstraintViolation {
                                entity: Entity::Messages,
                                constraint: Constraint::FkSender,
                            }
                        } else {
                            !user_exists(s0.users, receiver_id)
                                && e matches Error::ConstraintViolation {
                                entity: Entity::Messages,
                                constraint: Constraint::FkReceiver,
                            }
                        }
                    },
                }
            }),
    {
        if !self.has_user(sender_id) {
            return Err(
                Error::ConstraintViolation {
                    entity: Entity::Messages,
                    constraint: Constraint::FkSender,
                },
            );
        }
        if !self.has_user(receiver_id) {
            return Err(
                Error::ConstraintViolation {
                    entity: Entity::Messages,
                    constraint: Constraint::FkReceiver,
                },
            );
        }
        let id: u64 = self.messages.len() as u64 + 1;
        let msg = Message {
            id,
            sender_id,
            receiver_id,
            content,
            message_type: match message_type {
                Some(t) => t,
                None => MessageType::Text,
            },
            timestamp: now,
            is_read: false,
        };
        self.messages.push(msg);
        proof {
            let s0 = old(self)@;
            assert(self@ =~= StoreV { messages: self@.messages, ..s0 });
        }
        Ok(id)
    }

    /// Records `contact_id` in `user_id`'s contact list. The relation is
    /// not auto-mirrored. Fails, leaving the store unchanged, exactly
    /// when `user_id` (checked first) or `contact_id` does not exist, or
    /// the pair is already recorded.
    pub fn add_contact(&mut self, user_id: u64, contact_id: u64, now: i64) -> (r: Result<
        (),
        Error,
    >)
        requires
            old(self).wf(),
        ensures
            final(self).wf(),
            ({
                let s0 = old(self)@;
                match r {
                    Ok(_) => {
                        &&& user_exists(s0.users, user_id)
                        &&& user_exists(s0.users, contact_id)
                        &&& !contact_present(s0.contacts, user_id, contact_id)
                        &&& final(self)@ == StoreV {
                            contacts: s0.contacts.push(Contact { user_id, contact_id, added_at: now }),
                            ..s0
                        }
                    },
                    Err(e) => {
                        &&& final(self)@ == s0
                        &&& if !user_exists(s0.users, user_id) {
                            e matches Error::ConstraintViolation {
                                entity: Entity::Contacts,
                                constraint: Constraint::FkUser,
                            }
                        } else if !user_exists(s0.users, contact_id) {
                            e matches Error::ConstraintViolation {
                                entity: Entity::Contacts,
                                constraint: Constraint::FkContact,
                            }
                        } else {
                            contact_present(s0.contacts, user_id, contact_id)
                                && e matches Error::ConstraintViolation {
                                entity: Entity::Contacts,
                                constraint: Constraint::PrimaryKey,
                            }
                        }
                    },
                }
            }),
    {
        if !self.has_user(user_id) {
            return Err(
                Error::ConstraintViolation {
                    entity: Entity::Contacts,
                    constraint: Constraint::FkUser,
                },
            );
        }
        if !self.has_user(contact_id) {
            return Err(
                Error::ConstraintViolation {
                    entity: Entity::Contacts,
                    constraint: Constraint::FkContact,
                },
            );
        }
        let mut i: usize = 0;
        while i < self.contacts.len()
            invariant
                self@ == old(self)@,
                self.wf(),
                user_exists(self@.users, user_id),
                user_exists(self@.users, contact_id),
                i <= self.contacts@.len(),
                forall|j: int|
                    0 <= j < i ==> !((#[trigger] self.contacts@[j]).user_id == user_id
                        && self.contacts@[j].contact_id == contact_id),
            decreases self.contacts@.len() - i,
        {
            if self.contacts[i].user_id == user_id && self.contacts[i].contact_id == contact_id {
                return Err(
                    Error::ConstraintViolation {
                        entity: Entity::Contacts,
                        constraint: Constraint::PrimaryKey,
                    },
                );
            }
            i += 1;
        }
        self.contacts.push(Contact { user_id, contact_id, added_at: now });
        proof {
            let s0 = old(self)@;
            assert(self@ =~= StoreV { contacts: self@.contacts, ..s0 });
        }
        Ok(())
    }

    /// Issues an auth token for `user_id`. The id is auto-assigned.
    /// Earlier tokens stay untouched: invalidation is a separate,
    /// explicit concern, never a side effect of insertion. Fails,
    /// leaving the store unchanged, exactly when the user does not
    /// exist.
    pub fn insert_auth_token(
        &mut self,
        user_id: u64,
        access_token: String,
        refresh_token: Option<String>,
        expires_at: i64,
        now: i64,
    ) -> (r: Result<u64, Error>)
        requires
            old(self).wf(),
            old(self)@.auth_tokens.len() < u64::MAX,
        ensures
            final(self).wf(),
            ({
                let s0 = old(self)@;
                match r {
                    Ok(id) => {
                        &&& user_exists(s0.users, user_id)
                        &&& id == s0.auth_tokens.len() + 1
                        &&& final(self)@ == StoreV {
                            auth_tokens: s0.auth_tokens.push(
                                AuthToken {
                                    id,
                                    user_id,
                                    access_token,
                                    refresh_token,
                                    expires_at,
                                    created_at: now,
                                },
                            ),
                            ..s0
                        }
                    },
                    Err(e) => {
                        &&& !user_exists(s0.users, user_id)
                        &&& final(self)@ == s0
                        &&& e matches Error::ConstraintViolation {
                            entity: Entity::AuthTokens,
                            constraint: Constraint::FkUser,
                        }
                    },
                }
            }),
    {
        if !self.has_user(user_id) {
            return Err(
                Error::ConstraintViolation {
                    entity: Entity::AuthTokens,
                    constraint: Constraint::FkUser,
                },
            );
        }
        let id: u64 = self.auth_tokens.len() as u64 + 1;
        self.auth_tokens.push(
            AuthToken { id, user_id, access_token, refresh_token, expires_at, created_at: now },
        );
        proof {
            let s0 = old(self)@;
            assert(self@ =~= StoreV { auth_tokens: self@.auth_tokens, ..s0 });
        }
        Ok(id)
    }

    /// Creates a group under a caller-supplied id, with `member_count`
    /// starting at its declared default of 0. Fails, leaving the store
    /// unchanged, exactly when the creator does not exist (checked
    /// first) or the id is already taken.
    pub fn create_group(
        &mut self,
        id: String,
        name: String,
        description: Option<String>,
        avatar_url: Option<String>,
        created_by: u64,
        now: i64,
    ) -> (r: Result<(), Error>)
        requires
            old(self).wf(),
        ensures
            final(self).wf(),
            ({
                let s0 = old(self)@;
                match r {
                    Ok(_) => {
                        &&& user_exists(s0.users, created_by)
                        &&& !group_exists(s0.groups, id@)
                        &&& final(self)@ == StoreV {
                            groups: s0.groups.push(
                                Group {
                                    id,
                                    name,
                                    description,
                                    avatar_url,
                                    member_count: 0,
                                    created_by,
                                    created_at: now,
                                },
                            ),
                            ..s0
                        }
                    },
                    Err(e) => {
                        &&& final(self)@ == s0
                        &&& if !user_exists(s0.users, created_by) {
                            e matches Error::ConstraintViolation {
                                entity: Entity::Groups,
                                constraint: Constraint::FkCreator,
                            }
                        } else {
                            group_exists(s0.groups, id@) && e matches Error::ConstraintViolation {
                                entity: Entity::Groups,
                                constraint: Constraint::PrimaryKey,
                            }
                        }
                    },
                }
            }),
    {
        if !self.has_user(created_by) {
            return Err(
                Error::ConstraintViolation {
                    entity: Entity::Groups,
                    constraint: Constraint::FkCreator,
                },
            );
        }
        match self.find_group(&id) {
            Some(_) => {
                return Err(
                    Error::ConstraintViolation {
                        entity: Entity::Groups,
                        constraint: Constraint::PrimaryKey,
                    },
                );
            },
            None => {},
        }
        let group = Group {
            id,
            name,
            description,
            avatar_url,
            member_count: 0,
            created_by,
            created_at: now,
        };
        self.groups.push(group);
        proof {
            let s0 = old(self)@;
            assert(self@ =~= StoreV { groups: self@.groups, ..s0 });
            let gid = self@.groups.last().id@;
            assert forall|i: int| 0 <= i < s0.group_members.len() implies (
            #[trigger] s0.group_members[i]).group_id@ != gid by {
                let k = choose|k: int|
                    0 <= k < s0.groups.len() && (#[trigger] s0.groups[k]).id@
                        == s0.group_members[i].group_id@;
            }
            lemma_member_count_zero(s0.group_members, gid);
            assert forall|gid2: Seq<char>| group_exists(s0.groups, gid2) implies group_exists(
                self@.groups,
                gid2,
            ) by {
                let i = choose|i: int| 0 <= i < s0.groups.len() && (#[trigger] s0.groups[i]).id@
                    == gid2;
                assert(self@.groups[i] == s0.groups[i]);
            }
        }
        Ok(())
    }

    /// Index of the group with id `gid`, if any.
    fn find_group(&self, gid: &String) -> (r: Option<usize>)
        ensures
            match r {
                Some(i) => i < self@.groups.len() && self@.groups[i as int].id@ == gid@,
                None => !group_exists(self@.groups, gid@),
            },
    {
        let mut i: usize = 0;
        while i < self.groups.len()
            invariant
                i <= self.groups@.len(),
                forall|j: int| 0 <= j < i ==> (#[trigger] self.groups@[j]).id@ != gid@,
            decreases self.groups@.len() - i,
        {
            if self.groups[i].id == *gid {
                return Some(i);
            }
            i += 1;
        }
        None
    }
}

/// Under distinct group ids, `group_index_of` picks exactly the
/// witnessing index.
proof fn lemma_group_index_at(groups: Seq<Group>, i: int)
    requires
        forall|x: int, y: int|
            0 <= x < y < groups.len() ==> (#[trigger] groups[x]).id@ != (#[trigger] groups[y]).id@,
        0 <= i < groups.len(),
    ensures
        group_index_of(groups, groups[i].id@) == i,
{
    let gid = groups[i].id@;
    assert(group_exists(groups, gid));
    let j = choose|j: int| 0 <= j < groups.len() && (#[trigger] groups[j]).id@ == gid;
    if i != j {
        if i < j {
            assert(groups[i].id@ != groups[j].id@);
        } else {
            assert(groups[j].id@ != groups[i].id@);
        }
    }
}

impl Store {
    /// Adds `user_id` to the group `group_id`: the one place that
    /// mutates group membership. Within a single atomic step it appends
    /// the `group_members` row, appends the mirroring `group_contacts`
    /// row, and bumps the group's denormalized `member_count`. An
    /// omitted role defaults to `Member`. Fails, leaving the store
    /// unchanged, exactly when the group (checked first) or the user
    /// does not exist, or the membership is already recorded.
    pub fn add_group_member(
        &mut self,
        group_id: String,
        user_id: u64,
        role: Option<Role>,
        now: i64,
    ) -> (r: Result<(), Error>)
        requires
            old(self).wf(),
            old(self)@.group_members.len() < u64::MAX,
        ensures
            final(self).wf(),
            ({
                let s0 = old(self)@;
                match r {
                    Ok(_) => {
                        &&& group_exists(s0.groups, group_id@)
                        &&& user_exists(s0.users, user_id)
                        &&& !member_present(s0.group_members, group_id@, user_id)
                        &&& ({
                            let gi = group_index_of(s0.groups, group_id@);
                            let m = GroupMember {
                                group_id,
                                user_id,
                                role: match role {
                                    Some(rl) => rl,
                                    None => Role::Member,
                                },
                                joined_at: now,
                            };
                            final(self)@ == StoreV {
                                groups: s0.groups.update(
                                    gi,
                                    Group {
                                        member_count: (s0.groups[gi].member_count + 1) as u64,
                                        ..s0.groups[gi]
                                    },
                                ),
                                group_members: s0.group_members.push(m),
                                group_contacts: s0.group_contacts.push(
                                    GroupContact { user_id, group_id, joined_at: now },
                                ),
                                ..s0
                            }
                        })
                    },
                    Err(e) => {
                        &&& final(self)@ == s0
                        &&& if !group_exists(s0.groups, group_id@) {
                            e matches Error::ConstraintViolation {
                                entity: Entity::GroupMembers,
                                constraint: Constraint::FkGroup,
                            }
                        } else if !user_exists(s0.users, user_id) {
                            e matches Error::ConstraintViolation {
                                entity: Entity::GroupMembers,
                                constraint: Constraint::FkUser,
                            }
                        } else {
                            member_present(s0.group_members, group_id@, user_id)
                                && e matches Error::ConstraintViolation {
                                entity: Entity::GroupMembers,
                                constraint: Constraint::PrimaryKey,
                            }
                        }
                    },
                }
            }),
    {
        let gi: usize = match self.find_group(&group_id) {
            Some(g) => g,
            None => {
                return Err(
                    Error::ConstraintViolation {
                        entity: Entity::GroupMembers,
                        constraint: Constraint::FkGroup,
                    },
                );
            },
        };
        if !self.has_user(user_id) {
            return Err(
                Error::ConstraintViolation {
                    entity: Entity::GroupMembers,
                    constraint: Constraint::FkUser,
                },
            );
        }
        let mut i: usize = 0;
        while i < self.group_members.len()
            invariant
                self@ == old(self)@,
                self.wf(),
                group_exists(self@.groups, group_id@),
                user_exists(self@.users, user_id),
                i <= self.group_members@.len(),
                forall|j: int|
                    0 <= j < i ==> !((#[trigger] self.group_members@[j]).group_id@ == group_id@
                        && self.group_members@[j].user_id == user_id),
            decreases self.group_members@.len() - i,
        {
            if self.group_members[i].group_id == group_id && self.group_members[i].user_id
                == user_id {
                return Err(
                    Error::ConstraintViolation {
                        entity: Entity::GroupMembers,
                        constraint: Constraint::PrimaryKey,
                    },
                );
            }
            i += 1;
        }
        proof {
            let s0 = old(self)@;
            lemma_group_index_at(s0.groups, gi as int);
            lemma_member_count_le_len(s0.group_members, group_id@);
        }
        let g = self.groups.remove(gi);
        let g2 = Group {
            id: g.id,
            name: g.name,
            description: g.description,
            avatar_url: g.avatar_url,
            member_count: g.member_count + 1,
            created_by: g.created_by,
            created_at: g.created_at,
        };
        self.groups.insert(gi, g2);
        let m = GroupMember {
            group_id: group_id.clone(),
            user_id,
            role: match role {
                Some(rl) => rl,
                None => Role::Member,
            },
            joined_at: now,
        };
        self.group_members.push(m);
        self.group_contacts.push(GroupContact { user_id, group_id, joined_at: now });
        proof {
            let s0 = old(self)@;
            let s1 = self@;
            let gid = s0.groups[gi as int].id@;
            assert(s1.groups =~= s0.groups.update(
                gi as int,
                Group { member_count: (s0.groups[gi as int].member_count + 1) as u64, ..s0.groups[gi as int] },
            ));
            assert(s1 =~= StoreV {
                groups: s1.groups,
                group_members: s1.group_members,
                group_contacts: s1.group_contacts,
                ..s0
            });
            assert(forall|k: int|
                0 <= k < s1.groups.len() ==> (#[trigger] s1.groups[k]).id@ == s0.groups[k].id@
                    && s1.groups[k].created_by == s0.groups[k].created_by);
            assert forall|gid2: Seq<char>| group_exists(s0.groups, gid2) implies group_exists(
                s1.groups,
                gid2,
            ) by {
                let k = choose|k: int| 0 <= k < s0.groups.len() && (#[trigger] s0.groups[k]).id@
                    == gid2;
                assert(s1.groups[k].id@ == gid2);
            }
            assert forall|k: int| 0 <= k < s1.groups.len() implies (
            #[trigger] s1.groups[k]).member_count == member_count_of(
                s1.group_members,
                s1.groups[k].id@,
            ) by {
                lemma_member_count_push(s0.group_members, m, s0.groups[k].id@);
                if k != gi as int {
                    if k < gi as int {
                        assert(s0.groups[k].id@ != s0.groups[gi as int].id@);
                    } else {
                        assert(s0.groups[gi as int].id@ != s0.groups[k].id@);
                    }
                }
            }
        }
        Ok(())
    }

    /// Inserts a message addressed to a whole group. The id is
    /// auto-assigned; an omitted message type defaults to `Text`. Fails,
    /// leaving the store unchanged, exactly when the group (checked
    /// first) or the sender does not exist.
    pub fn insert_group_message(
        &mut self,
        group_id: String,
        sender_id: u64,
        content: String,
        message_type: Option<MessageType>,
        now: i64,
    ) -> (r: Result<u64, Error>)
        requires
            old(self).wf(),
            old(self)@.group_messages.len() < u64::MAX,
        ensures
            final(self).wf(),
            ({
                let s0 = old(self)@;
                match r {
                    Ok(id) => {
                        &&& group_exists(s0.groups, group_id@)
                        &&& user_exists(s0.users, sender_id)
                        &&& id == s0.group_messages.len() + 1
                        &&& final(self)@ == StoreV {
                            group_messages: s0.group_messages.push(
                                GroupMessage {
                                    id,
                                    group_id,
                                    sender_id,
                                    content,
                                    message_type: match message_type {
                                        Some(t) => t,
                                        None => MessageType::Text,
                                    },
                                    timestamp: now,
                                },
                            ),
                            ..s0
                        }
                    },
                    Err(e) => {
                        &&& final(self)@ == s0
                        &&& if !group_exists(s0.groups, group_id@) {
                            e matches Error::ConstraintViolation {
                                entity: Entity::GroupMessages,
                                constraint: Constraint::FkGroup,
                            }
                        } else {
                            !user_exists(s0.users, sender_id)
                                && e matches Error::ConstraintViolation {
                                entity: Entity::GroupMessages,
                                constraint: Constraint::FkSender,
                            }
                        }
                    },
                }
            }),
    {
        match self.find_group(&group_id) {
            Some(_) => {},
            None => {
                return Err(
                    Error::ConstraintViolation {
                        entity: Entity::GroupMessages,
                        constraint: Constraint::FkGroup,
                    },
                );
            },
        }
        if !self.has_user(sender_id) {
            return Err(
                Error::ConstraintViolation {
                    entity: Entity::GroupMessages,
                    constraint: Constraint::FkSender,
                },
            );
        }
        let id: u64 = self.group_messages.len() as u64 + 1;
        self.group_messages.push(
            GroupMessage {
                id,
                group_id,
                sender_id,
                content,
                message_type: match message_type {
                    Some(t) => t,
                    None => MessageType::Text,
                },
                timestamp: now,
            },
        );
        proof {
            let s0 = old(self)@;
            assert(self@ =~= StoreV { group_messages: self@.group_messages, ..s0 });
        }
        Ok(id)
    }

    /// The messages addressed to `receiver_id`, in insertion order.
    pub fn messages_for_receiver(&self, receiver_id: u64) -> (r: Vec<Message>)
        ensures
            r@ == messages_to(self@.messages, receiver_id),
    {
        let mut out: Vec<Message> = Vec::new();
        let mut i: usize = 0;
        while i < self.messages.len()
            invariant
                i <= self.messages@.len(),
                out@ == messages_to(self.messages@.take(i as int), receiver_id),
            decreases self.messages@.len() - i,
        {
            proof {
                assert(self.messages@.take(i as int + 1).drop_last() =~= self.messages@.take(
                    i as int,
                ));
                assert(self.messages@.take(i as int + 1).last() == self.messages@[i as int]);
            }
            if self.messages[i].receiver_id == receiver_id {
                out.push(clone_message(&self.messages[i]));
            }
            i += 1;
        }
        proof {
            assert(self.messages@.take(self.messages@.len() as int) =~= self.messages@);
        }
        out
    }
}

/// Copies a message row; the copy equals the original.
fn clone_message(m: &Message) -> (r: Message)
    ensures
        r == *m,
{
    Message {
        id: m.id,
        sender_id: m.sender_id,
        receiver_id: m.receiver_id,
        content: m.content.clone(),
        message_type: m.message_type,
        timestamp: m.timestamp,
        is_read: m.is_read,
    }
}

} // verus!
