use secret_vault::crypto_manager::{decrypt_api_key, encrypt_and_save_api_key, load_failure, save_failure};
use secret_vault::crypto_manager::{load_outcome, save_outcome};
use secret_vault::crypto_manager::{StoreFault, SystemVault, KEY_USERNAME, SERVICE_NAME};
use secret_vault::database::{database_url, Conversation, LlmModel};
use secret_vault::error::VaultError;
use secret_vault::llm::{ContentBlock, ImageUrl, MessageContent};

#[test]
fn missing_entry_is_not_found_on_load() {
    let e = load_failure(StoreFault { no_entry: true, text: "No matching entry found in secure storage".to_string() });
    assert!(matches!(e, VaultError::NotFound));
    assert_eq!(e.reason(), "No se encontró la API key.");
}

#[test]
fn other_store_failure_is_an_io_failure_on_load() {
    match load_failure(StoreFault { no_entry: false, text: "store is locked".to_string() }) {
        VaultError::IoFailure(why) => assert_eq!(why, "store is locked"),
        other => panic!("{:?}", other),
    }
}

#[test]
fn every_store_failure_is_an_io_failure_on_save() {
    for no_entry in [true, false] {
        match save_failure(StoreFault { no_entry, text: "store is locked".to_string() }) {
            VaultError::IoFailure(why) => assert_eq!(why, "store is locked"),
            other => panic!("{:?}", other),
        }
    }
}

#[test]
fn store_identity() {
    assert_eq!(SERVICE_NAME, "gpt-on-a-budget");
    assert_eq!(KEY_USERNAME, "openai_api_key");
}

#[test]
fn store_without_entry_reports_not_found() {
    // Built without a platform store, the credential store keeps nothing
    // between two handles on an entry: a load finds no entry.
    assert!(encrypt_and_save_api_key("sk-test-1234").is_ok());
    match decrypt_api_key() {
        Err(e) => assert!(e.is_not_found()),
        Ok(secret) => assert_eq!(secret, "sk-test-1234"),
    }
}

#[test]
fn new_conversation_has_no_messages() {
    let c = Conversation::new(7, "Title", "2024-01-01T00:00:00+00:00".to_string(), "openai");
    assert_eq!(c.id, 7);
    assert_eq!(c.title, "Title");
    assert_eq!(c.created_at, "2024-01-01T00:00:00+00:00");
    assert_eq!(c.llm_provider, "openai");
    assert!(c.messages.is_empty());
}

#[test]
fn new_message_keeps_its_fields() {
    let m = secret_vault::database::Message::new(3, 7, "user", "hello", "2024-01-01T00:00:01+00:00".to_string());
    assert_eq!((m.id, m.conversation_id), (3, 7));
    assert_eq!(m.role, "user");
    assert_eq!(m.content, "hello");
    assert_eq!(m.created_at, "2024-01-01T00:00:01+00:00");
}

#[test]
fn attach_messages_replaces_only_the_messages() {
    let mut c = Conversation::new(7, "Title", "t0".to_string(), "openai");
    let m1 = secret_vault::database::Message::new(1, 7, "user", "a", "t1".to_string());
    let m2 = secret_vault::database::Message::new(2, 7, "assistant", "b", "t2".to_string());
    c.attach_messages(vec![m1, m2]);
    assert_eq!(c.messages.len(), 2);
    assert_eq!(c.messages[1].content, "b");
    assert_eq!((c.id, c.title.as_str(), c.created_at.as_str(), c.llm_provider.as_str()), (7, "Title", "t0", "openai"));
    c.attach_messages(Vec::new());
    assert!(c.messages.is_empty());
}

#[test]
fn database_url_exact() {
    assert_eq!(database_url("/data/db.sqlite"), "sqlite:/data/db.sqlite");
    assert_eq!(database_url(""), "sqlite:");
}

#[test]
fn model_row_is_plain_data() {
    let m = LlmModel { id: 1, model_name: "gpt-4o".to_string(), provider: "openai".to_string(), is_default: true };
    let copy = m.clone();
    assert_eq!((copy.id, copy.is_default), (1, true));
    assert_eq!(copy.model_name, "gpt-4o");
    assert_eq!(copy.provider, "openai");
}

#[test]
fn reply_defaults() {
    let m = secret_vault::llm::Message::reply(None, None);
    assert_eq!(m.role, "assistant");
    assert!(matches!(&m.content, MessageContent::Text(t) if t.is_empty()));
    let m = secret_vault::llm::Message::reply(Some("system".to_string()), Some("hi".to_string()));
    assert_eq!(m.role, "system");
    assert!(matches!(&m.content, MessageContent::Text(t) if t == "hi"));
}

#[test]
fn content_blocks_are_plain_data() {
    let block = ContentBlock {
        content_type: "image_url".to_string(),
        text: None,
        image_url: Some(ImageUrl { url: "https://example.org/a.png".to_string() }),
    };
    let content = MessageContent::Blocks(vec![block]);
    match content {
        MessageContent::Blocks(blocks) => {
            assert_eq!(blocks.len(), 1);
            assert_eq!(blocks[0].content_type, "image_url");
            assert_eq!(blocks[0].image_url.as_ref().map(|u| u.url.as_str()), Some("https://example.org/a.png"));
        }
        MessageContent::Text(_) => panic!("text"),
    }
}

#[test]
fn system_vault_under_another_identity() {
    let vault = SystemVault::with_identity("some-service".to_string(), "some-account".to_string());
    assert!(vault.save_secret("value").is_ok());
    match vault.load_secret() {
        Err(e) => assert!(matches!(e, VaultError::NotFound | VaultError::IoFailure(_))),
        Ok(secret) => assert_eq!(secret, "value"),
    }
}

#[test]
fn presentation_tells_only_missing_from_the_rest() {
    assert_eq!(VaultError::NotFound.presentation(), "please enter your API key");
    for e in [
        VaultError::IoFailure("disk".to_string()),
        VaultError::MalformedRecord,
        VaultError::CryptoFailure,
        VaultError::EncodingFailure,
    ] {
        assert_eq!(e.presentation(), "could not read stored credential");
    }
}

#[test]
fn load_outcome_for_each_answer() {
    assert_eq!(load_outcome(Ok("sk-test-1234".to_string())).unwrap(), "sk-test-1234");
    assert_eq!(load_outcome(Ok(String::new())).unwrap(), "");
    let missing = StoreFault { no_entry: true, text: "No matching entry found in secure storage".to_string() };
    assert!(matches!(load_outcome(Err(missing)), Err(VaultError::NotFound)));
    let locked = StoreFault { no_entry: false, text: "store is locked".to_string() };
    match load_outcome(Err(locked)) {
        Err(VaultError::IoFailure(why)) => assert_eq!(why, "store is locked"),
        other => panic!("{:?}", other),
    }
}

#[test]
fn save_outcome_for_each_answer() {
    assert!(save_outcome(Ok(())).is_ok());
    for no_entry in [true, false] {
        match save_outcome(Err(StoreFault { no_entry, text: "store is locked".to_string() })) {
            Err(VaultError::IoFailure(why)) => assert_eq!(why, "store is locked"),
            other => panic!("{:?}", other),
        }
    }
}
