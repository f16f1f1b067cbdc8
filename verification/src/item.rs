//! The payload model: a batch item is a file, a message or a key/value
//! secret, carried as a tagged record whose payload slot matches its tag.
use vstd::prelude::*;

pub mod item_file;
pub mod item_message;
pub mod secret;

use item_file::ItemFile;
use item_message::ItemMessage;
use secret::SecretError;

verus! {

/// A key/value secret.
#[derive(Debug, Clone, PartialEq)]
pub struct Secret {
    pub key: String,
    pub value: String,
}

/// One item of a batch: a tag and exactly one payload, matching the tag.
#[derive(Clone, Debug, PartialEq)]
pub struct Item {
    item_type: ItemType,
    message: Option<ItemMessage>,
    secret: Option<Secret>,
    file: Option<ItemFile>,
}

/// The kind of payload an item carries.
#[derive(Clone, Copy, Debug, PartialEq, Eq, Structural)]
pub enum ItemType {
    File,
    Message,
    Secret,
}

/// The aggregate answer a receiver returns for one batch.
#[derive(Debug, Clone, PartialEq)]
pub struct ItemResponse {
    pub status: Status,
    pub no_of_success: usize,
    pub no_of_fails: usize,
    pub err: Option<String>,
}

/// Whole-request outcome.  `Succes` is the wire spelling and is kept.
#[derive(Debug, Clone, PartialEq, Eq, Structural)]
pub enum Status {
    Failed,
    Succes,
}

impl Item {
    /// Exactly one payload slot is filled, and it is the one the tag names.
    pub closed spec fn wf(&self) -> bool {
        match self.item_type {
            ItemType::File => self.file is Some && self.message is None && self.secret is None,
            ItemType::Message => self.message is Some && self.file is None && self.secret is None,
            ItemType::Secret => self.secret is Some && self.message is None && self.file is None,
        }
    }

    /// The tag of this item, as a spec value.
    pub closed spec fn spec_item_type(&self) -> ItemType {
        self.item_type
    }

    /// The message payload, when the item is a message.
    pub closed spec fn spec_message(&self) -> ItemMessage {
        self.message->0
    }

    /// The secret payload, when the item is a secret.
    pub closed spec fn spec_secret(&self) -> Secret {
        self.secret->0
    }

    /// The file payload, when the item is a file.
    pub closed spec fn spec_file(&self) -> ItemFile {
        self.file->0
    }

    /// Build a message or secret item from its command-line string.  A
    /// secret string must hold exactly one comma; a message is taken as
    /// it is.  File items carry bytes read from disk and are built with
    /// [`Item::new_file`] instead.
    pub fn new(param: String, item_type: ItemType) -> (r: Result<Item, SecretError>)
        requires
            item_type != ItemType::File,
        ensures
            r is Ok <==> (item_type == ItemType::Message || secret::comma_count(param@) == 1),
            r is Ok ==> r->Ok_0.wf() && r->Ok_0.spec_item_type() == item_type,
            item_type == ItemType::Message && r is Ok ==> r->Ok_0.spec_message().spec_msg()
                == param@,
            item_type == ItemType::Secret && r is Ok ==> Some(
                (r->Ok_0.spec_secret().key@, r->Ok_0.spec_secret().value@),
            ) == secret::parse_secret_spec(param@),
            item_type == ItemType::Secret && secret::comma_count(param@) == 0 ==> (r matches Err(
                SecretError::NotFound(t),
            ) && t@ == param@),
            item_type == ItemType::Secret && secret::comma_count(param@) >= 2 ==> (r matches Err(
                e,
            ) && e is Incompatible),
    {
        match item_type {
            ItemType::Secret => {
                let s = Secret::secret_from_string(param)?;
                Ok(
                    Item {
                        item_type,
                        secret: Some(s),
                        message: None,
                        file: None,
                    },
                )
            },
            _ => Ok(
                Item {
                    item_type,
                    message: Some(ItemMessage::new(param)),
                    secret: None,
                    file: None,
                },
            ),
        }
    }

    /// Build a file item from a file already read into memory.
    pub fn new_file(file: ItemFile) -> (r: Item)
        ensures
            r.wf(),
            r.spec_item_type() == ItemType::File,
            r.spec_file() == file,
    {
        Item { item_type: ItemType::File, message: None, secret: None, file: Some(file) }
    }

    /// Build a secret item from an already parsed secret.
    pub fn from_secret(secret: &Secret) -> (r: Item)
        ensures
            r.wf(),
            r.spec_item_type() == ItemType::Secret,
            r.spec_secret() == *secret,
    {
        let copy = Secret { key: secret.key.clone(), value: secret.value.clone() };
        Item { item_type: ItemType::Secret, secret: Some(copy), message: None, file: None }
    }

    /// The tag of this item.
    pub fn item_type(&self) -> (r: ItemType)
        ensures
            r == self.spec_item_type(),
    {
        self.item_type
    }

    /// The message payload, when the item is a message.
    pub fn message(&self) -> (r: &Option<ItemMessage>)
        ensures
            self.wf() && self.spec_item_type() == ItemType::Message ==> (*r matches Some(m) && m
                == self.spec_message()),
            self.wf() && self.spec_item_type() != ItemType::Message ==> *r is None,
    {
        &self.message
    }

    /// The secret payload, when the item is a secret.
    pub fn secret(&self) -> (r: &Option<Secret>)
        ensures
            self.wf() && self.spec_item_type() == ItemType::Secret ==> (*r matches Some(sc) && sc
                == self.spec_secret()),
            self.wf() && self.spec_item_type() != ItemType::Secret ==> *r is None,
    {
        &self.secret
    }

    /// The file payload, when the item is a file.
    pub fn file(&self) -> (r: &Option<ItemFile>)
        ensures
            self.wf() && self.spec_item_type() == ItemType::File ==> (*r matches Some(f) && f
                == self.spec_file()),
            self.wf() && self.spec_item_type() != ItemType::File ==> *r is None,
    {
        &self.file
    }
}

} // verus!
