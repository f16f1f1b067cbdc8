//! Assembly of the batch a sender dispatches: secrets, then messages,
//! then files, in the order they were given.
use vstd::prelude::*;
use vstd::string::*;
use crate::config::Config;
use crate::item::Item;
use crate::item::ItemType;
use crate::save::all_wf;

verus! {

/// The length of an optional list.
pub open spec fn opt_vec_len<T>(v: Option<Vec<T>>) -> nat {
    match v {
        Option::None => 0,
        Option::Some(x) => x@.len(),
    }
}

/// Why no batch could be assembled.
#[derive(Debug, Clone, PartialEq, Eq, Structural)]
pub enum BatchError {
    /// Nothing was given to send.
    Empty,
}

impl BatchError {
    /// The operator-facing description.
    pub fn message(&self) -> (r: String)
        ensures
            r@ == "Pass in a secret with the `-s` flag or a message with `-m` flag or a file path with the `f` flag"@,
    {
        "Pass in a secret with the `-s` flag or a message with `-m` flag or a file path with the `f` flag".to_owned()
    }
}

/// Assemble the batch this configuration sends: every secret, then
/// every message, then every file, in their given order.  The file
/// items arrive already read into memory, one per configured path.
/// A run that has nothing at all to send is refused before any
/// connection is opened.
#[verifier::loop_isolation(false)]
pub fn get_items_to_be_sent(config: &Config, file_items: Vec<Item>) -> (r: Result<
    Vec<Item>,
    BatchError,
>)
    requires
        all_wf(file_items@),
        forall|i: int|
            0 <= i < file_items@.len() ==> (#[trigger] file_items@[i]).spec_item_type()
                == ItemType::File,
        file_items@.len() == opt_vec_len(config.spec_file()),
    ensures
        r is Ok <==> opt_vec_len(config.spec_secret()) + opt_vec_len(config.spec_message())
            + opt_vec_len(config.spec_file()) > 0,
        r is Err ==> r->Err_0 == BatchError::Empty,
        r matches Ok(items) ==> {
            let ns = opt_vec_len(config.spec_secret());
            let nm = opt_vec_len(config.spec_message());
            &&& items@.len() == ns + nm + file_items@.len()
            &&& all_wf(items@)
            &&& forall|i: int|
                0 <= i < ns ==> (#[trigger] items@[i]).spec_item_type() == ItemType::Secret
                    && items@[i].spec_secret() == config.spec_secret()->0@[i]
            &&& forall|i: int|
                0 <= i < nm ==> (#[trigger] items@[ns + i]).spec_item_type()
                    == ItemType::Message && items@[ns + i].spec_message().spec_msg()
                    == config.spec_message()->0@[i]@
            &&& forall|i: int|
                0 <= i < file_items@.len() ==> #[trigger] items@[ns + nm + i]
                    == file_items@[i]
        },
{
    let n_secret: usize = match config.secret() {
        Option::None => 0,
        Option::Some(v) => v.len(),
    };
    let n_message: usize = match config.message() {
        Option::None => 0,
        Option::Some(v) => v.len(),
    };
    if n_secret == 0 && n_message == 0 && file_items.len() == 0 {
        return Result::Err(BatchError::Empty);
    }
    let ghost ns = opt_vec_len(config.spec_secret());
    let ghost nm = opt_vec_len(config.spec_message());
    let mut items: Vec<Item> = Vec::new();
    match config.secret() {
        Option::None => {},
        Option::Some(list) => {
            let mut i: usize = 0;
            while i < list.len()
                invariant
                    i <= list@.len(),
                    list@ == config.spec_secret()->0@,
                    items@.len() == i,
                    forall|j: int|
                        0 <= j < i ==> (#[trigger] items@[j]).wf() && items@[j].spec_item_type()
                            == ItemType::Secret && items@[j].spec_secret()
                            == config.spec_secret()->0@[j],
                decreases list@.len() - i,
            {
                items.push(Item::from_secret(&list[i]));
                i += 1;
            }
        },
    }
    proof {
        assert(items@.len() == ns);
    }
    match config.message() {
        Option::None => {},
        Option::Some(msgs) => {
            let mut i: usize = 0;
            while i < msgs.len()
                invariant
                    i <= msgs@.len(),
                    msgs@ == config.spec_message()->0@,
                    items@.len() == ns + i,
                    forall|j: int|
                        0 <= j < ns ==> (#[trigger] items@[j]).wf() && items@[j].spec_item_type()
                            == ItemType::Secret && items@[j].spec_secret()
                            == config.spec_secret()->0@[j],
                    forall|j: int|
                        0 <= j < i ==> (#[trigger] items@[ns + j]).wf() && items@[ns
                            + j].spec_item_type() == ItemType::Message && items@[ns
                            + j].spec_message().spec_msg() == config.spec_message()->0@[j]@,
                decreases msgs@.len() - i,
            {
                match Item::new(msgs[i].clone(), ItemType::Message) {
                    Result::Ok(it) => items.push(it),
                    Result::Err(_) => {
                        proof {
                            assert(false);
                        }
                    },
                }
                i += 1;
            }
        },
    }
    proof {
        assert(items@.len() == ns + nm);
    }
    let mut rest = file_items;
    while rest.len() > 0
        invariant
            rest@.len() <= file_items@.len(),
            rest@ == file_items@.skip(file_items@.len() - rest@.len()),
            items@.len() == ns + nm + (file_items@.len() - rest@.len()),
            forall|j: int|
                0 <= j < ns ==> (#[trigger] items@[j]).wf() && items@[j].spec_item_type()
                    == ItemType::Secret && items@[j].spec_secret()
                    == config.spec_secret()->0@[j],
            forall|j: int|
                0 <= j < nm ==> (#[trigger] items@[ns + j]).wf() && items@[ns
                    + j].spec_item_type() == ItemType::Message && items@[ns
                    + j].spec_message().spec_msg() == config.spec_message()->0@[j]@,
            forall|j: int|
                0 <= j < file_items@.len() - rest@.len() ==> #[trigger] items@[ns + nm + j]
                    == file_items@[j],
        decreases rest@.len(),
    {
        let ghost done = file_items@.len() - rest@.len();
        let it = rest.remove(0);
        proof {
            assert(it == file_items@[done]);
            assert(rest@ =~= file_items@.skip(done + 1));
        }
        items.push(it);
        proof {
            assert(items@[ns + nm + done] == file_items@[done]);
        }
    }
    proof {
        let nf = file_items@.len() as int;
        assert forall|i: int| 0 <= i < items@.len() implies (#[trigger] items@[i]).wf() by {
            if i < ns {
                assert(items@[i].wf());
            } else if i < ns + nm {
                assert(items@[ns + (i - ns)] == items@[i]);
                assert(items@[ns + (i - ns)].wf());
            } else {
                assert(items@[ns + nm + (i - ns - nm)] == file_items@[i - ns - nm]);
                assert(file_items@[i - ns - nm].wf());
            }
        }
    }
    Result::Ok(items)
}

} // verus!
