use ait_application::identity::{native_approval_id, stable_uuid, ProtocolRequestId};
use sha2::{Digest, Sha256};

fn expected_uuid(parts: &[&str]) -> String {
    let mut digest = Sha256::new();
    for part in parts {
        digest.update((part.len() as u64).to_be_bytes());
        digest.update(part.as_bytes());
    }
    let mut bytes: [u8; 16] = digest.finalize()[..16].try_into().unwrap();
    bytes[6] = (bytes[6] & 0x0f) | 0x80;
    bytes[8] = (bytes[8] & 0x3f) | 0x80;
    uuid::Uuid::from_bytes(bytes).to_string()
}

#[test]
fn stable_uuids_depend_only_on_their_parts() {
    let parts = vec!["session".to_string(), "provider".to_string(), "thread".to_string()];
    let id = stable_uuid(&parts);
    assert_eq!(id, expected_uuid(&["session", "provider", "thread"]));
    assert_eq!(stable_uuid(&parts), id);
    assert_eq!(id.len(), 36);
    assert_eq!(&id[14..15], "8");
    let shifted = vec!["sessionp".to_string(), "rovider".to_string(), "thread".to_string()];
    assert_ne!(stable_uuid(&shifted), id);
}

#[test]
fn approval_ids_hash_the_run_and_the_json_request_id() {
    let id = native_approval_id("run", &ProtocolRequestId::Text("a".into())).unwrap();
    let mut digest = Sha256::new();
    digest.update(b"run\0\"a\"");
    assert_eq!(id, format!("native-{:x}", digest.finalize()));
    let numeric = native_approval_id("run", &ProtocolRequestId::Integer(-5)).unwrap();
    let mut digest = Sha256::new();
    digest.update(b"run\0-5");
    assert_eq!(numeric, format!("native-{:x}", digest.finalize()));
}
