use vault_cipher::cipher::Cipher;
use vault_cipher::error::Detail;
use vault_cipher::json::Json;
use vault_cipher::stored::read_json;
use vault_cipher::validate::CipherData;

fn data(notes: Option<&str>, history: Option<&str>) -> CipherData {
    CipherData {
        notes: notes.map(|text| text.to_string()),
        password_history: history.map(|text| read_json(text).unwrap()),
    }
}

fn complaint(body: &Json, key: &str) -> Option<String> {
    match body.get("validationErrors").unwrap().get(key) {
        Some(Json::Array(messages)) => {
            assert_eq!(messages.len(), 1);
            match &messages[0] {
                Json::Text(text) => Some(text.clone()),
                other => panic!("{:?}", other),
            }
        }
        Some(other) => panic!("{:?}", other),
        None => None,
    }
}

#[test]
fn acceptable_ciphers_pass() {
    let ciphers = vec![
        data(None, None),
        data(Some("12345"), Some(r#"[{"password":"x"},{"other":null},7]"#)),
        data(Some(""), Some(r#"{"password":null}"#)),
    ];
    assert!(Cipher::validate_cipher_data(&ciphers, 5).is_ok());
    assert!(Cipher::validate_cipher_data(&[], 0).is_ok());
}

#[test]
fn long_notes_are_refused_by_their_bytes() {
    let ciphers = vec![data(Some("äöü"), None), data(Some("äö"), None), data(Some("12345"), None)];
    let error = Cipher::validate_cipher_data(&ciphers, 4).unwrap_err();
    assert_eq!(error.message, "Import validation errors");
    let body = match error.detail {
        Detail::Body(body) => body,
        other => panic!("{:?}", other),
    };
    let message = "The field Notes exceeds the maximum encrypted value length of 4 characters.";
    assert_eq!(complaint(&body, "Ciphers[0].Notes"), Some(message.to_string()));
    assert_eq!(complaint(&body, "Ciphers[1].Notes"), None);
    assert_eq!(complaint(&body, "Ciphers[2].Notes"), Some(message.to_string()));
    assert_eq!(body.text_at("message"), Some("The model state is invalid."));
    assert_eq!(body.text_at("object"), Some("error"));
}

#[test]
fn history_complaint_replaces_note_complaint() {
    let ciphers = vec![data(Some("too long"), Some(r#"[{"password":"x"},{"password":null}]"#))];
    let error = Cipher::validate_cipher_data(&ciphers, 2).unwrap_err();
    let body = match error.detail {
        Detail::Body(body) => body,
        other => panic!("{:?}", other),
    };
    assert_eq!(
        complaint(&body, "Ciphers[0].Notes"),
        Some(
            "The password history contains a `null` value. Only strings are allowed.".to_string()
        )
    );
}

#[test]
fn every_complaint_has_its_own_key() {
    let ciphers: Vec<CipherData> = (0..12).map(|_| data(Some("xx"), None)).collect();
    let error = Cipher::validate_cipher_data(&ciphers, 1).unwrap_err();
    let body = match error.detail {
        Detail::Body(body) => body,
        other => panic!("{:?}", other),
    };
    for i in 0..12 {
        assert!(complaint(&body, &format!("Ciphers[{}].Notes", i)).is_some());
    }
    assert!(complaint(&body, "Ciphers[12].Notes").is_none());
}

#[test]
fn higher_limit_accepts_what_a_lower_one_refuses() {
    let ciphers = vec![data(Some("12345"), None)];
    assert!(Cipher::validate_cipher_data(&ciphers, 4).is_err());
    assert!(Cipher::validate_cipher_data(&ciphers, 5).is_ok());
    assert!(Cipher::validate_cipher_data(&ciphers, 6).is_ok());
}
