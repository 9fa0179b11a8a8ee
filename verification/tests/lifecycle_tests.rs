use notes::addressing::derive_address;
use notes::errors::NoteError;
use notes::identity::Identity;
use notes::lifecycle::{create_note, delete_note, update_note, SLOT_DEPOSIT};
use notes::store::Store;

fn ident(b: u8) -> Identity {
    Identity::from_bytes(vec![b; 32]).unwrap()
}

#[test]
fn identity_rejects_wrong_width() {
    assert!(Identity::from_bytes(vec![1u8; 31]).is_none());
    assert!(Identity::from_bytes(vec![1u8; 33]).is_none());
    assert!(Identity::from_bytes(vec![1u8; 32]).is_some());
}

#[test]
fn derive_distinct_owners_distinct_addresses() {
    let title = b"diary".to_vec();
    let a1 = derive_address(&title, &ident(1)).unwrap();
    let a2 = derive_address(&title, &ident(2)).unwrap();
    assert_ne!(a1.bytes, a2.bytes);
}

#[test]
fn derive_distinct_titles_distinct_addresses() {
    let owner = ident(1);
    let a1 = derive_address(&b"diary".to_vec(), &owner).unwrap();
    let a2 = derive_address(&b"notes".to_vec(), &owner).unwrap();
    assert_ne!(a1.bytes, a2.bytes);
}

#[test]
fn derive_is_deterministic() {
    let title = b"diary".to_vec();
    let owner = ident(7);
    let a1 = derive_address(&title, &owner).unwrap();
    let a2 = derive_address(&title, &owner).unwrap();
    assert_eq!(a1.bytes, a2.bytes);
}

#[test]
fn derive_rejects_long_title() {
    let r = derive_address(&vec![b'x'; 51], &ident(1));
    assert!(matches!(r, Err(NoteError::FieldTooLong)));
    assert!(derive_address(&vec![b'x'; 50], &ident(1)).is_ok());
}

#[test]
fn create_then_read_back() {
    let mut store = Store::new();
    let caller = ident(3);
    let title = b"diary".to_vec();
    let r = create_note(&mut store, &title, &b"hello".to_vec(), &caller, SLOT_DEPOSIT);
    assert_eq!(r, Ok(0));
    let note = store.get_note(&title, &caller).unwrap();
    assert_eq!(note.owner.as_bytes(), &vec![3u8; 32]);
    assert_eq!(note.title, b"diary".to_vec());
    assert_eq!(note.message, b"hello".to_vec());
}

#[test]
fn create_message_bounds() {
    let mut store = Store::new();
    let caller = ident(1);
    let too_long = create_note(&mut store, &b"diary".to_vec(), &vec![b'm'; 1001], &caller, SLOT_DEPOSIT);
    assert_eq!(too_long, Err(NoteError::FieldTooLong));
    assert_eq!(store.len(), 0);
    let at_bound = create_note(&mut store, &b"diary".to_vec(), &vec![b'm'; 1000], &caller, SLOT_DEPOSIT);
    assert!(at_bound.is_ok());
    let note = store.get_note(&b"diary".to_vec(), &caller).unwrap();
    assert_eq!(note.message.len(), 1000);
    assert_eq!(note.message, vec![b'm'; 1000]);
}

#[test]
fn create_title_bounds() {
    let mut store = Store::new();
    let caller = ident(1);
    let too_long = create_note(&mut store, &vec![b't'; 51], &b"m".to_vec(), &caller, SLOT_DEPOSIT);
    assert_eq!(too_long, Err(NoteError::FieldTooLong));
    let at_bound = create_note(&mut store, &vec![b't'; 50], &b"m".to_vec(), &caller, SLOT_DEPOSIT);
    assert!(at_bound.is_ok());
}

#[test]
fn create_charges_the_deposit() {
    let mut store = Store::new();
    let caller = ident(1);
    let poor = create_note(&mut store, &b"diary".to_vec(), &b"m".to_vec(), &caller, SLOT_DEPOSIT - 1);
    assert_eq!(poor, Err(NoteError::AllocationFailed));
    assert_eq!(store.len(), 0);
    let exact = create_note(&mut store, &b"diary".to_vec(), &b"m".to_vec(), &caller, SLOT_DEPOSIT + 5);
    assert_eq!(exact, Ok(5));
}

#[test]
fn delete_absent_fails_twice_with_not_found() {
    let mut store = Store::new();
    let caller = ident(4);
    let title = b"diary".to_vec();
    let first = delete_note(&mut store, &title, &caller, &caller);
    assert!(matches!(first, Err(NoteError::NotFound)));
    let second = delete_note(&mut store, &title, &caller, &caller);
    assert!(matches!(second, Err(NoteError::NotFound)));
    assert_eq!(store.len(), 0);
    assert!(store.get_note(&title, &caller).is_none());
}

#[test]
fn update_by_non_owner_is_unauthorized() {
    let mut store = Store::new();
    let owner = ident(1);
    let intruder = ident(2);
    let title = b"diary".to_vec();
    create_note(&mut store, &title, &b"secret".to_vec(), &owner, SLOT_DEPOSIT).unwrap();
    let r = update_note(&mut store, &title, &owner, &b"overwritten".to_vec(), &intruder);
    assert_eq!(r, Err(NoteError::Unauthorized));
    let note = store.get_note(&title, &owner).unwrap();
    assert_eq!(note.message, b"secret".to_vec());
    assert_eq!(note.owner.as_bytes(), &vec![1u8; 32]);
}

#[test]
fn delete_by_non_owner_is_unauthorized() {
    let mut store = Store::new();
    let owner = ident(1);
    let intruder = ident(2);
    let title = b"diary".to_vec();
    create_note(&mut store, &title, &b"secret".to_vec(), &owner, SLOT_DEPOSIT).unwrap();
    let r = delete_note(&mut store, &title, &owner, &intruder);
    assert!(matches!(r, Err(NoteError::Unauthorized)));
    assert_eq!(store.len(), 1);
    let note = store.get_note(&title, &owner).unwrap();
    assert_eq!(note.message, b"secret".to_vec());
}

#[test]
fn update_then_read_back() {
    let mut store = Store::new();
    let owner = ident(9);
    let title = b"diary".to_vec();
    create_note(&mut store, &title, &b"A".to_vec(), &owner, SLOT_DEPOSIT).unwrap();
    let r = update_note(&mut store, &title, &owner, &b"B".to_vec(), &owner);
    assert_eq!(r, Ok(()));
    let note = store.get_note(&title, &owner).unwrap();
    assert_eq!(note.message, b"B".to_vec());
    assert_eq!(note.title, b"diary".to_vec());
}

#[test]
fn update_absent_is_not_found() {
    let mut store = Store::new();
    let owner = ident(9);
    let r = update_note(&mut store, &b"diary".to_vec(), &owner, &b"B".to_vec(), &owner);
    assert_eq!(r, Err(NoteError::NotFound));
}

#[test]
fn update_message_bound() {
    let mut store = Store::new();
    let owner = ident(9);
    let title = b"diary".to_vec();
    create_note(&mut store, &title, &b"A".to_vec(), &owner, SLOT_DEPOSIT).unwrap();
    let r = update_note(&mut store, &title, &owner, &vec![b'm'; 1001], &owner);
    assert_eq!(r, Err(NoteError::FieldTooLong));
    assert_eq!(store.get_note(&title, &owner).unwrap().message, b"A".to_vec());
}

#[test]
fn second_create_already_exists() {
    let mut store = Store::new();
    let owner = ident(1);
    let title = b"diary".to_vec();
    create_note(&mut store, &title, &b"first".to_vec(), &owner, SLOT_DEPOSIT).unwrap();
    let r = create_note(&mut store, &title, &b"second".to_vec(), &owner, SLOT_DEPOSIT);
    assert_eq!(r, Err(NoteError::AlreadyExists));
    assert_eq!(store.len(), 1);
    assert_eq!(store.get_note(&title, &owner).unwrap().message, b"first".to_vec());
}

#[test]
fn delete_refunds_the_owner_and_frees_the_pair() {
    let mut store = Store::new();
    let owner = ident(1);
    let title = b"diary".to_vec();
    create_note(&mut store, &title, &b"old".to_vec(), &owner, SLOT_DEPOSIT).unwrap();
    let refund = delete_note(&mut store, &title, &owner, &owner).unwrap();
    assert_eq!(refund.to.as_bytes(), &vec![1u8; 32]);
    assert_eq!(refund.amount, SLOT_DEPOSIT);
    assert_eq!(store.len(), 0);
    assert!(store.get_note(&title, &owner).is_none());
    let r = create_note(&mut store, &title, &b"new".to_vec(), &owner, SLOT_DEPOSIT);
    assert!(r.is_ok());
    assert_eq!(store.len(), 1);
    assert_eq!(store.get_note(&title, &owner).unwrap().message, b"new".to_vec());
}

#[test]
fn pairs_are_independent() {
    let mut store = Store::new();
    let x = ident(1);
    let y = ident(2);
    create_note(&mut store, &b"diary".to_vec(), &b"mx".to_vec(), &x, SLOT_DEPOSIT).unwrap();
    create_note(&mut store, &b"diary".to_vec(), &b"my".to_vec(), &y, SLOT_DEPOSIT).unwrap();
    create_note(&mut store, &b"todo".to_vec(), &b"tx".to_vec(), &x, SLOT_DEPOSIT).unwrap();
    assert_eq!(store.len(), 3);
    delete_note(&mut store, &b"diary".to_vec(), &x, &x).unwrap();
    assert_eq!(store.len(), 2);
    assert!(store.get_note(&b"diary".to_vec(), &x).is_none());
    assert_eq!(store.get_note(&b"diary".to_vec(), &y).unwrap().message, b"my".to_vec());
    assert_eq!(store.get_note(&b"todo".to_vec(), &x).unwrap().message, b"tx".to_vec());
}

#[test]
fn empty_title_and_message_are_allowed() {
    let mut store = Store::new();
    let owner = ident(5);
    let r = create_note(&mut store, &Vec::new(), &Vec::new(), &owner, SLOT_DEPOSIT);
    assert!(r.is_ok());
    let note = store.get_note(&Vec::new(), &owner).unwrap();
    assert_eq!(note.title.len(), 0);
    assert_eq!(note.message.len(), 0);
}
