use chat_store::errors::Constraint;
use chat_store::errors::Entity;
use chat_store::errors::Error;
use chat_store::greet;
use chat_store::store::MessageType;
use chat_store::store::Role;
use chat_store::store::Store;
use chat_store::store::UserStatus;

fn ready_store() -> Store {
    Store::bootstrap().unwrap()
}

#[test]
fn greet_echoes_the_name() {
    assert_eq!(greet("World"), "Hello, World! You've been greeted from Rust!");
}

#[test]
fn bootstrap_yields_version_2_and_eight_tables() {
    let store = ready_store();
    assert_eq!(store.version(), 2);
    assert_eq!(store.table_count(), 8);
    for name in [
        "users",
        "messages",
        "contacts",
        "auth_tokens",
        "groups",
        "group_members",
        "group_contacts",
        "group_messages",
    ] {
        assert!(store.has_table(&name.to_string()));
    }
}

#[test]
fn end_to_end_two_users_one_message() {
    let mut store = ready_store();
    let alice = store.insert_user("alice".to_string(), None, None, 10).unwrap();
    let bob = store.insert_user("bob".to_string(), None, None, 11).unwrap();
    assert_eq!(alice, 1);
    assert_eq!(bob, 2);
    let msg = store
        .insert_message(alice, bob, "hi".to_string(), None, 12)
        .unwrap();
    assert_eq!(msg, 1);
    let inbox = store.messages_for_receiver(bob);
    assert_eq!(inbox.len(), 1);
    assert_eq!(inbox[0].id, 1);
    assert_eq!(inbox[0].sender_id, alice);
    assert_eq!(inbox[0].receiver_id, bob);
    assert_eq!(inbox[0].content, "hi");
    assert!(!inbox[0].is_read);
    assert!(matches!(inbox[0].message_type, MessageType::Text));
    // Nothing is addressed to alice.
    assert_eq!(store.messages_for_receiver(alice).len(), 0);
}

#[test]
fn duplicate_username_fails_the_second_insertion() {
    let mut store = ready_store();
    store.insert_user("alice".to_string(), None, None, 1).unwrap();
    match store.insert_user("alice".to_string(), None, None, 2) {
        Err(Error::ConstraintViolation { entity, constraint }) => {
            assert!(matches!(entity, Entity::Users));
            assert!(matches!(constraint, Constraint::UniqueUsername));
        }
        other => panic!("expected a uniqueness violation, got {:?}", other),
    }
    // The store is unchanged and stays usable.
    assert_eq!(store.users.len(), 1);
    assert_eq!(store.insert_user("bob".to_string(), None, None, 3).unwrap(), 2);
}

#[test]
fn message_with_unknown_sender_or_receiver_fails() {
    let mut store = ready_store();
    let alice = store.insert_user("alice".to_string(), None, None, 1).unwrap();
    match store.insert_message(99, alice, "hi".to_string(), None, 2) {
        Err(Error::ConstraintViolation { entity: Entity::Messages, constraint: Constraint::FkSender }) => {}
        other => panic!("expected a sender foreign-key violation, got {:?}", other),
    }
    match store.insert_message(alice, 99, "hi".to_string(), None, 3) {
        Err(Error::ConstraintViolation { entity: Entity::Messages, constraint: Constraint::FkReceiver }) => {}
        other => panic!("expected a receiver foreign-key violation, got {:?}", other),
    }
    assert_eq!(store.messages.len(), 0);
    let bob = store.insert_user("bob".to_string(), None, None, 4).unwrap();
    assert!(store.insert_message(alice, bob, "hi".to_string(), None, 5).is_ok());
}

#[test]
fn omitted_fields_take_their_declared_defaults() {
    let mut store = ready_store();
    store.insert_user("alice".to_string(), None, None, 1).unwrap();
    assert!(matches!(store.users[0].status, UserStatus::Offline));
    assert!(store.users[0].avatar_url.is_none());
    store
        .insert_user(
            "bob".to_string(),
            Some("avatars/bob.png".to_string()),
            Some(UserStatus::Online),
            2,
        )
        .unwrap();
    assert!(matches!(store.users[1].status, UserStatus::Online));
    assert_eq!(store.users[1].avatar_url.as_deref(), Some("avatars/bob.png"));
    store.insert_message(1, 2, "hi".to_string(), Some(MessageType::Image), 3).unwrap();
    assert!(matches!(store.messages[0].message_type, MessageType::Image));
}

#[test]
fn contacts_enforce_their_keys_and_are_not_mirrored() {
    let mut store = ready_store();
    let alice = store.insert_user("alice".to_string(), None, None, 1).unwrap();
    let bob = store.insert_user("bob".to_string(), None, None, 2).unwrap();
    match store.add_contact(99, bob, 3) {
        Err(Error::ConstraintViolation { entity: Entity::Contacts, constraint: Constraint::FkUser }) => {}
        other => panic!("expected a user foreign-key violation, got {:?}", other),
    }
    match store.add_contact(alice, 99, 3) {
        Err(Error::ConstraintViolation { entity: Entity::Contacts, constraint: Constraint::FkContact }) => {}
        other => panic!("expected a contact foreign-key violation, got {:?}", other),
    }
    store.add_contact(alice, bob, 4).unwrap();
    match store.add_contact(alice, bob, 5) {
        Err(Error::ConstraintViolation { entity: Entity::Contacts, constraint: Constraint::PrimaryKey }) => {}
        other => panic!("expected a primary-key violation, got {:?}", other),
    }
    // The relation is not auto-mirrored: the reverse pair is free.
    store.add_contact(bob, alice, 6).unwrap();
    assert_eq!(store.contacts.len(), 2);
}

#[test]
fn auth_tokens_accumulate_without_implicit_invalidation() {
    let mut store = ready_store();
    let alice = store.insert_user("alice".to_string(), None, None, 1).unwrap();
    match store.insert_auth_token(99, "token-a".to_string(), None, 100, 2) {
        Err(Error::ConstraintViolation { entity: Entity::AuthTokens, constraint: Constraint::FkUser }) => {}
        other => panic!("expected a user foreign-key violation, got {:?}", other),
    }
    let first = store
        .insert_auth_token(alice, "token-a".to_string(), Some("refresh-a".to_string()), 100, 3)
        .unwrap();
    let second = store
        .insert_auth_token(alice, "token-b".to_string(), None, 200, 4)
        .unwrap();
    assert_eq!(first, 1);
    assert_eq!(second, 2);
    assert_eq!(store.auth_tokens.len(), 2);
    assert_eq!(store.auth_tokens[0].expires_at, 100);
}

#[test]
fn group_creation_enforces_creator_and_id_uniqueness() {
    let mut store = ready_store();
    let alice = store.insert_user("alice".to_string(), None, None, 1).unwrap();
    match store.create_group("g1".to_string(), "Friends".to_string(), None, None, 99, 2) {
        Err(Error::ConstraintViolation { entity: Entity::Groups, constraint: Constraint::FkCreator }) => {}
        other => panic!("expected a creator foreign-key violation, got {:?}", other),
    }
    store
        .create_group("g1".to_string(), "Friends".to_string(), None, None, alice, 3)
        .unwrap();
    assert_eq!(store.groups[0].member_count, 0);
    match store.create_group("g1".to_string(), "Twice".to_string(), None, None, alice, 4) {
        Err(Error::ConstraintViolation { entity: Entity::Groups, constraint: Constraint::PrimaryKey }) => {}
        other => panic!("expected a primary-key violation, got {:?}", other),
    }
}

#[test]
fn group_membership_updates_count_and_mirror_atomically() {
    let mut store = ready_store();
    let alice = store.insert_user("alice".to_string(), None, None, 1).unwrap();
    let bob = store.insert_user("bob".to_string(), None, None, 2).unwrap();
    store
        .create_group("g1".to_string(), "Friends".to_string(), None, None, alice, 3)
        .unwrap();
    match store.add_group_member("nope".to_string(), alice, None, 4) {
        Err(Error::ConstraintViolation { entity: Entity::GroupMembers, constraint: Constraint::FkGroup }) => {}
        other => panic!("expected a group foreign-key violation, got {:?}", other),
    }
    match store.add_group_member("g1".to_string(), 99, None, 4) {
        Err(Error::ConstraintViolation { entity: Entity::GroupMembers, constraint: Constraint::FkUser }) => {}
        other => panic!("expected a user foreign-key violation, got {:?}", other),
    }
    store.add_group_member("g1".to_string(), alice, Some(Role::Owner), 5).unwrap();
    store.add_group_member("g1".to_string(), bob, None, 6).unwrap();
    match store.add_group_member("g1".to_string(), bob, None, 7) {
        Err(Error::ConstraintViolation { entity: Entity::GroupMembers, constraint: Constraint::PrimaryKey }) => {}
        other => panic!("expected a primary-key violation, got {:?}", other),
    }
    assert_eq!(store.groups[0].member_count, 2);
    assert_eq!(store.group_members.len(), 2);
    assert_eq!(store.group_contacts.len(), 2);
    assert!(matches!(store.group_members[0].role, Role::Owner));
    assert!(matches!(store.group_members[1].role, Role::Member));
    assert_eq!(store.group_contacts[1].user_id, bob);
    assert_eq!(store.group_contacts[1].group_id, "g1");
    assert_eq!(store.group_contacts[1].joined_at, 6);
}

#[test]
fn group_messages_enforce_group_and_sender() {
    let mut store = ready_store();
    let alice = store.insert_user("alice".to_string(), None, None, 1).unwrap();
    store
        .create_group("g1".to_string(), "Friends".to_string(), None, None, alice, 2)
        .unwrap();
    match store.insert_group_message("nope".to_string(), alice, "hi".to_string(), None, 3) {
        Err(Error::ConstraintViolation { entity: Entity::GroupMessages, constraint: Constraint::FkGroup }) => {}
        other => panic!("expected a group foreign-key violation, got {:?}", other),
    }
    match store.insert_group_message("g1".to_string(), 99, "hi".to_string(), None, 3) {
        Err(Error::ConstraintViolation { entity: Entity::GroupMessages, constraint: Constraint::FkSender }) => {}
        other => panic!("expected a sender foreign-key violation, got {:?}", other),
    }
    let id = store
        .insert_group_message("g1".to_string(), alice, "hello all".to_string(), None, 4)
        .unwrap();
    assert_eq!(id, 1);
    assert_eq!(store.group_messages.len(), 1);
    assert!(matches!(store.group_messages[0].message_type, MessageType::Text));
}
