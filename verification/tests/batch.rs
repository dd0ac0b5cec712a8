use content_hash::{batch_hash, hash_all, hash_content, BatchError, Decoded};

fn texts(items: &[&str]) -> Vec<String> {
    items.iter().map(|s| s.to_string()).collect()
}

#[test]
fn batch_hash_digests_each_document_in_order() {
    let documents = texts(&["", "abc", "Hello, World!", "abc"]);
    let digests = batch_hash(Decoded::Documents(documents.clone())).unwrap();
    assert_eq!(digests.len(), documents.len());
    for (digest, document) in digests.iter().zip(documents.iter()) {
        assert_eq!(*digest, hash_content(document));
    }
    assert_eq!(digests[0], "e3b0c44298fc1c149afbf4c8996fb92427ae41e4649b934ca495991b7852b855");
    assert_eq!(digests[1], "ba7816bf8f01cfea414140de5dae2223b00361a396177a9cb410ff61f20015ad");
    assert_eq!(digests[1], digests[3]);
    assert_ne!(digests[1], digests[2]);
}

#[test]
fn batch_hash_of_no_documents_is_empty() {
    assert_eq!(batch_hash(Decoded::Documents(Vec::new())), Ok(Vec::new()));
}

#[test]
fn batch_hash_does_not_canonicalize() {
    let digests = batch_hash(Decoded::Documents(texts(&["a", " a "]))).unwrap();
    assert_ne!(digests[0], digests[1]);
}

#[test]
fn batch_hash_of_malformed_input_is_a_decode_error() {
    let reason = "invalid type: integer `1`, expected a sequence";
    let result = batch_hash(Decoded::Malformed(reason.to_string()));
    assert_eq!(result, Err(BatchError::Decode(reason.to_string())));
    assert!(result.is_err());
    assert_eq!(result.unwrap_err().message(), reason);
}

#[test]
fn a_failed_batch_does_not_affect_the_next() {
    let failed = batch_hash(Decoded::Malformed("not a sequence".to_string()));
    assert!(matches!(failed, Err(BatchError::Decode(_))));
    let digests = batch_hash(Decoded::Documents(texts(&["abc"]))).unwrap();
    assert_eq!(digests, vec![hash_content("abc")]);
}

#[test]
fn error_messages_are_kept() {
    assert_eq!(BatchError::Decode("shape".to_string()).message(), "shape");
    assert_eq!(BatchError::Encode("too deep".to_string()).message(), "too deep");
    assert_ne!(BatchError::Decode("x".to_string()), BatchError::Encode("x".to_string()));
}

#[test]
fn hash_all_keeps_order_and_length() {
    let documents = texts(&["one", "two", "three"]);
    let digests = hash_all(&documents);
    assert_eq!(
        digests,
        vec![hash_content("one"), hash_content("two"), hash_content("three")]
    );
    assert_eq!(hash_all(&[]), Vec::<String>::new());
}
