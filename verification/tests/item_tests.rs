use scs::item::Item;
use scs::item::ItemType;
use scs::item::Status;
use scs::item::item_file::ItemFile;
use scs::item::item_message::ItemMessage;
use scs::json::encode_secrets;
use scs::save::SaveState;
use scs::save::build_response;
use scs::save::handle_request;

#[test]
fn new_message() {
    let item = ItemMessage::new("hi there".to_string());
    assert_eq!("hi there", item.msg());
}

#[test]
fn save_message() {
    let lorem_ipsum = "Lorem Ipsum is simply dummy text of the printing and typesetting industry. \
        Lorem Ipsum has been the industry's standard dummy text ever since the 1500s, \
        when an unknown printer took a galley of type and scrambled it to make a type specimen book. \
        It has survived not only five centuries";
    let item = ItemMessage::new(lorem_ipsum.to_string());
    let mut state = SaveState::new();
    Item::new(lorem_ipsum.to_string(), ItemType::Message).unwrap().save(&mut state);
    assert_eq!(state.messages, format!("{lorem_ipsum}\n"));
    assert_eq!(item.line(), format!("{lorem_ipsum}\n"));
}

#[test]
fn message_keeps_trailing_newline() {
    let item = ItemMessage::new("already terminated\n".to_string());
    assert_eq!(item.line(), "already terminated\n");
}

#[test]
fn secret_item() {
    let item = Item::new("hi, there".to_string(), ItemType::Secret);
    assert!(item.is_ok());
    let item = item.unwrap();
    assert_eq!(item.item_type(), ItemType::Secret);

    let mut state = SaveState::new();
    item.save(&mut state);
    assert!(state.messages.is_empty());
    let secrets = r#"[{"key":"hi","value":" there"}]"#;
    assert!(encode_secrets(&state.secrets).contains(secrets));
}

#[test]
fn message_item() {
    let item = Item::new("new message and another one too".to_string(), ItemType::Message);
    assert!(item.is_ok());
    let item = item.unwrap();
    assert_eq!(item.item_type(), ItemType::Message);

    let mut state = SaveState::new();
    item.save(&mut state);
    assert!(state.secrets.is_empty());
    assert!(state.messages.contains("new message and another one too"));
}

#[test]
fn file_item() {
    let body = "A test\nActual content\nMore content\nAnother test";
    let file = ItemFile::from_parts(
        "sample.txt".to_string(),
        "/tmp/sample.txt".to_string(),
        body.as_bytes().to_vec(),
        "txt".to_string(),
    );
    let item = Item::new_file(file);
    assert_eq!(item.item_type(), ItemType::File);

    let mut state = SaveState::new();
    item.save(&mut state);
    assert_eq!(state.files.len(), 1);
    assert_eq!(state.files[0].name, "sample.txt");
    assert_eq!(state.files[0].data, body.as_bytes().to_vec());
}

#[test]
fn new_file() {
    let lorem_ipsum = "Lorem Ipsum is simply dummy text of the printing and typesetting industry.";
    let file = ItemFile::from_parts(
        "foo.txt".to_string(),
        "/tmp/foo.txt".to_string(),
        lorem_ipsum.as_bytes().to_vec(),
        "txt".to_string(),
    );
    assert_eq!(file.extension(), "txt");
    assert_eq!(file.data(), &lorem_ipsum.as_bytes().to_vec());
    assert_eq!(file.name(), "foo.txt");
}

#[test]
fn save_file() {
    let lorem_ipsum = "Lorem Ipsum is simply dummy text of the printing and typesetting industry.";
    let item = Item::new_file(ItemFile::from_parts(
        "bar.txt".to_string(),
        "/tmp/bar.txt".to_string(),
        lorem_ipsum.as_bytes().to_vec(),
        "txt".to_string(),
    ));
    let mut state = SaveState::new();
    item.save(&mut state);
    assert_eq!(state.files[0].name, "bar.txt");
    assert_eq!(state.files[0].data, lorem_ipsum.as_bytes().to_vec());
}

#[test]
fn duplicate_file_name() {
    let first = Item::new_file(ItemFile::from_parts(
        "notes.txt".to_string(),
        "/tmp/notes.txt".to_string(),
        b"A".to_vec(),
        "txt".to_string(),
    ));
    let second = Item::new_file(ItemFile::from_parts(
        "notes.txt".to_string(),
        "/elsewhere/notes.txt".to_string(),
        b"B".to_vec(),
        "txt".to_string(),
    ));
    let mut state = SaveState::new();
    first.save(&mut state);
    second.save(&mut state);
    assert_eq!(state.files.len(), 1);
    assert_eq!(state.files[0].data, b"AB".to_vec());
}

#[test]
fn mixed_batch_response() {
    let batch = vec![
        Item::new("u,p".to_string(), ItemType::Secret).unwrap(),
        Item::new("hi".to_string(), ItemType::Message).unwrap(),
        Item::new_file(ItemFile::from_parts(
            "sample.txt".to_string(),
            "/tmp/sample.txt".to_string(),
            b"file body".to_vec(),
            "txt".to_string(),
        )),
    ];
    let mut state = SaveState::new();
    let response = handle_request(&batch, &mut state);
    assert_eq!(response.status, Status::Succes);
    assert_eq!(response.no_of_success, 3);
    assert_eq!(response.no_of_fails, 0);
    assert_eq!(response.no_of_success + response.no_of_fails, batch.len());
    assert!(response.err.is_none());

    assert!(state.messages.ends_with("hi\n"));
    assert_eq!(encode_secrets(&state.secrets), r#"[{"key":"u","value":"p"}]"#);
    assert_eq!(state.files[0].name, "sample.txt");
    assert_eq!(state.files[0].data, b"file body".to_vec());
}

#[test]
fn response_counts_sum_to_batch_length() {
    let outcomes = vec![true, false, true, true, false];
    let response = build_response(&outcomes);
    assert_eq!(response.status, Status::Succes);
    assert_eq!(response.no_of_success, 3);
    assert_eq!(response.no_of_fails, 2);
    assert_eq!(response.no_of_success + response.no_of_fails, outcomes.len());
}

#[test]
fn message_round_trip_exact_line() {
    let item = Item::new("hello".to_string(), ItemType::Message).unwrap();
    let mut state = SaveState::new();
    item.save(&mut state);
    assert_eq!(state.messages, "hello\n");
    item.save(&mut state);
    assert_eq!(state.messages, "hello\nhello\n");
}
