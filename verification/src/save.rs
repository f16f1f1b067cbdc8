//! The receiver's save semantics, as a model of the save directory.
//!
//! A [`SaveState`] holds what the directory holds: the parsed secrets
//! file, the messages file, and each received file's bytes.  Saving an
//! item transforms the state exactly as the receiver transforms the
//! directory; the code that touches the disk performs the same writes
//! and reports per-item outcomes back.
use vstd::prelude::*;
use vstd::string::*;
use crate::item::Item;
use crate::item::ItemResponse;
use crate::item::ItemType;
use crate::item::Secret;
use crate::item::Status;
use crate::item::item_message::message_line;
use crate::strutil;
use vstd::pervasive::unreached;

verus! {

/// One saved file: its name under the save directory and its bytes.
#[derive(Debug, Clone, PartialEq)]
pub struct SavedFile {
    pub name: String,
    pub data: Vec<u8>,
}

/// A saved file, as a spec value.
pub struct SavedFileView {
    pub name: Seq<char>,
    pub data: Seq<u8>,
}

impl View for SavedFile {
    type V = SavedFileView;

    open spec fn view(&self) -> SavedFileView {
        SavedFileView { name: self.name@, data: self.data@ }
    }
}

/// The save directory: secrets file, messages file, received files.
#[derive(Debug, Clone, PartialEq)]
pub struct SaveState {
    pub secrets: Vec<Secret>,
    pub messages: String,
    pub files: Vec<SavedFile>,
}

/// The save directory, as a spec value.
pub struct SaveView {
    pub secrets: Seq<Secret>,
    pub messages: Seq<char>,
    pub files: Seq<SavedFileView>,
}

impl View for SaveState {
    type V = SaveView;

    open spec fn view(&self) -> SaveView {
        SaveView {
            secrets: self.secrets@,
            messages: self.messages@,
            files: Seq::new(self.files@.len(), |i: int| self.files@[i]@),
        }
    }
}

/// The index of the first file with this name, or the length when no
/// file has it.
pub open spec fn file_index(files: Seq<SavedFileView>, name: Seq<char>) -> int
    decreases files.len(),
{
    if files.len() == 0 {
        0
    } else if files[0].name == name {
        0
    } else {
        1 + file_index(files.drop_first(), name)
    }
}

/// What saving a file does to the directory's files: append the bytes
/// to the first file of that name, or add a new file holding them.
pub open spec fn apply_file_view(
    files: Seq<SavedFileView>,
    name: Seq<char>,
    data: Seq<u8>,
) -> Seq<SavedFileView> {
    let i = file_index(files, name);
    if i < files.len() {
        files.update(i, SavedFileView { name: files[i].name, data: files[i].data + data })
    } else {
        files.push(SavedFileView { name, data })
    }
}

/// What saving one item does to the directory: a secret is appended to
/// the secrets file, a message appends its line to the messages file,
/// a file appends its bytes to the file of its name.
pub open spec fn apply_item(v: SaveView, item: Item) -> SaveView {
    match item.spec_item_type() {
        ItemType::Secret => SaveView { secrets: v.secrets.push(item.spec_secret()), ..v },
        ItemType::Message => SaveView {
            messages: v.messages + message_line(item.spec_message().spec_msg()),
            ..v
        },
        ItemType::File => SaveView {
            files: apply_file_view(v.files, item.spec_file().spec_name(), item.spec_file().spec_data()),
            ..v
        },
    }
}

/// What saving a whole batch does to the directory, item by item, in
/// batch order.
pub open spec fn apply_batch(v: SaveView, items: Seq<Item>) -> SaveView
    decreases items.len(),
{
    if items.len() == 0 {
        v
    } else {
        apply_batch(apply_item(v, items[0]), items.drop_first())
    }
}

/// Every item of the sequence is well formed.
pub open spec fn all_wf(items: Seq<Item>) -> bool {
    forall|i: int| 0 <= i < items.len() ==> (#[trigger] items[i]).wf()
}

proof fn lemma_file_index_found(files: Seq<SavedFileView>, name: Seq<char>, i: int)
    requires
        0 <= i < files.len(),
        files[i].name == name,
        forall|j: int| 0 <= j < i ==> files[j].name != name,
    ensures
        file_index(files, name) == i,
    decreases i,
{
    if i > 0 {
        lemma_file_index_found(files.drop_first(), name, i - 1);
    }
}

proof fn lemma_file_index_missing(files: Seq<SavedFileView>, name: Seq<char>)
    requires
        forall|j: int| 0 <= j < files.len() ==> files[j].name != name,
    ensures
        file_index(files, name) == files.len(),
    decreases files.len(),
{
    if files.len() > 0 {
        lemma_file_index_missing(files.drop_first(), name);
    }
}

impl SaveState {
    /// An empty save directory.
    pub fn new() -> (r: SaveState)
        ensures
            r@.secrets == Seq::<Secret>::empty(),
            r@.messages == Seq::<char>::empty(),
            r@.files == Seq::<SavedFileView>::empty(),
    {
        let r = SaveState { secrets: Vec::new(), messages: String::new(), files: Vec::new() };
        proof {
            assert(r@.files =~= Seq::<SavedFileView>::empty());
        }
        r
    }
}

fn find_file(files: &Vec<SavedFile>, name: &String) -> (i: usize)
    ensures
        i <= files@.len(),
        i < files@.len() ==> files@[i as int]@.name == name@,
        forall|j: int| 0 <= j < i ==> files@[j]@.name != name@,
{
    let n = files.len();
    let mut i: usize = 0;
    while i < n
        invariant
            i <= n,
            n == files@.len(),
            forall|j: int| 0 <= j < i ==> files@[j]@.name != name@,
        decreases n - i,
    {
        if strutil::str_eq(files[i].name.as_str(), name.as_str()) {
            return i;
        }
        i += 1;
    }
    n
}

impl Item {
    /// Save this item into the directory state: exactly the transform
    /// [`apply_item`] describes.
    #[verifier::loop_isolation(false)]
    pub fn save(&self, state: &mut SaveState)
        requires
            self.wf(),
        ensures
            final(state)@.secrets == apply_item(old(state)@, *self).secrets,
            final(state)@.messages == apply_item(old(state)@, *self).messages,
            final(state)@.files == apply_item(old(state)@, *self).files,
    {
        match self.item_type() {
            ItemType::Secret => {
                let sc = match self.secret() {
                    Option::Some(sc) => Secret { key: sc.key.clone(), value: sc.value.clone() },
                    Option::None => {
                        proof {
                            assert(false);
                        }
                        unreached()
                    },
                };
                state.secrets.push(sc);
                proof {
                    assert(state@.files =~= apply_item(old(state)@, *self).files);
                }
            },
            ItemType::Message => {
                let m = match self.message() {
                    Option::Some(m) => m,
                    Option::None => {
                        proof {
                            assert(false);
                        }
                        unreached()
                    },
                };
                let line = m.line();
                state.messages.append(line.as_str());
                proof {
                    assert(state@.files =~= apply_item(old(state)@, *self).files);
                }
            },
            ItemType::File => {
                let f = match self.file() {
                    Option::Some(f) => f,
                    Option::None => {
                        proof {
                            assert(false);
                        }
                        unreached()
                    },
                };
                let n = state.files.len();
                let i = find_file(&state.files, f.name());
                if i < n {
                    proof {
                        assert forall|j: int| 0 <= j < i implies old(state)@.files[j].name
                            != f.spec_name() by {
                            assert(old(state)@.files[j] == old(state).files@[j]@);
                        }
                        assert(old(state)@.files[i as int].name == f.spec_name());
                        lemma_file_index_found(old(state)@.files, f.spec_name(), i as int);
                    }
                    let entry = state.files.remove(i);
                    let mut data = entry.data;
                    let src = f.data();
                    let m = src.len();
                    let mut k: usize = 0;
                    while k < m
                        invariant
                            k <= m,
                            data@ == old(state)@.files[i as int].data + src@.take(k as int),
                        decreases m - k,
                    {
                        data.push(src[k]);
                        proof {
                            assert(data@ =~= old(state)@.files[i as int].data + src@.take(
                                k + 1 as int,
                            ));
                        }
                        k += 1;
                    }
                    proof {
                        assert(src@.take(m as int) =~= f.spec_data());
                    }
                    let replaced = SavedFile { name: entry.name, data };
                    state.files.insert(i, replaced);
                    proof {
                        assert(state@.files =~= apply_item(old(state)@, *self).files);
                    }
                } else {
                    proof {
                        assert forall|j: int| 0 <= j < old(state)@.files.len() implies old(
                            state,
                        )@.files[j].name != f.spec_name() by {
                            assert(old(state)@.files[j] == old(state).files@[j]@);
                        }
                        lemma_file_index_missing(old(state)@.files, f.spec_name());
                    }
                    let name = f.name().clone();
                    let data = strutil::copy_vec(f.data());
                    state.files.push(SavedFile { name, data });
                    proof {
                        assert(state@.files =~= apply_item(old(state)@, *self).files);
                    }
                }
            },
        }
    }
}

/// Law: saving a message appends exactly its newline-terminated line to
/// the messages file and touches nothing else.
pub proof fn lemma_message_append(v: SaveView, item: Item)
    requires
        item.wf(),
        item.spec_item_type() == ItemType::Message,
    ensures
        apply_item(v, item).messages == v.messages + message_line(item.spec_message().spec_msg()),
        apply_item(v, item).secrets == v.secrets,
        apply_item(v, item).files == v.files,
{
}

/// Law: saving a file appends exactly its bytes to the file of its
/// name (adding the file when absent) and touches nothing else.
pub proof fn lemma_file_append(v: SaveView, item: Item)
    requires
        item.wf(),
        item.spec_item_type() == ItemType::File,
    ensures
        apply_item(v, item).messages == v.messages,
        apply_item(v, item).secrets == v.secrets,
        file_index(v.files, item.spec_file().spec_name()) < v.files.len() ==> apply_item(
            v,
            item,
        ).files == v.files.update(
            file_index(v.files, item.spec_file().spec_name()),
            SavedFileView {
                name: v.files[file_index(v.files, item.spec_file().spec_name())].name,
                data: v.files[file_index(v.files, item.spec_file().spec_name())].data
                    + item.spec_file().spec_data(),
            },
        ),
        file_index(v.files, item.spec_file().spec_name()) == v.files.len() ==> apply_item(
            v,
            item,
        ).files == v.files.push(
            SavedFileView {
                name: item.spec_file().spec_name(),
                data: item.spec_file().spec_data(),
            },
        ),
{
}

/// How many entries of the outcome list are `true`.
pub open spec fn count_true(outcomes: Seq<bool>) -> nat
    decreases outcomes.len(),
{
    if outcomes.len() == 0 {
        0
    } else {
        count_true(outcomes.drop_last()) + if outcomes.last() {
            1nat
        } else {
            0nat
        }
    }
}

/// The aggregate response for a batch with these per-item outcomes:
/// `Succes` unconditionally, the counts of saved and failed items, and
/// no whole-request error.  The two counts always sum to the batch
/// length.
pub fn build_response(outcomes: &Vec<bool>) -> (r: ItemResponse)
    ensures
        r.status == Status::Succes,
        r.err is None,
        r.no_of_success == count_true(outcomes@),
        r.no_of_success + r.no_of_fails == outcomes@.len(),
{
    let mut ok: usize = 0;
    let mut bad: usize = 0;
    let n = outcomes.len();
    let mut i: usize = 0;
    while i < n
        invariant
            i <= n,
            n == outcomes@.len(),
            ok == count_true(outcomes@.take(i as int)),
            ok + bad == i,
        decreases n - i,
    {
        proof {
            assert(outcomes@.take(i + 1 as int).drop_last() =~= outcomes@.take(i as int));
            assert(outcomes@.take(i + 1 as int).last() == outcomes@[i as int]);
        }
        if outcomes[i] {
            ok += 1;
        } else {
            bad += 1;
        }
        i += 1;
    }
    proof {
        assert(outcomes@.take(n as int) =~= outcomes@);
    }
    ItemResponse { status: Status::Succes, no_of_success: ok, no_of_fails: bad, err: Option::None }
}

/// Save a whole batch, in order, and build the aggregate response.  In
/// this in-memory model every item saves, so the response reports the
/// batch length as successes; the counts always sum to the batch
/// length.
#[verifier::loop_isolation(false)]
pub fn handle_request(request: &Vec<Item>, state: &mut SaveState) -> (r: ItemResponse)
    requires
        all_wf(request@),
    ensures
        final(state)@.secrets == apply_batch(old(state)@, request@).secrets,
        final(state)@.messages == apply_batch(old(state)@, request@).messages,
        final(state)@.files == apply_batch(old(state)@, request@).files,
        r.status == Status::Succes,
        r.err is None,
        r.no_of_success == request@.len(),
        r.no_of_fails == 0,
        r.no_of_success + r.no_of_fails == request@.len(),
{
    let n = request.len();
    let mut i: usize = 0;
    while i < n
        invariant
            i <= n,
            state@.secrets == apply_batch(old(state)@, request@.take(i as int)).secrets,
            state@.messages == apply_batch(old(state)@, request@.take(i as int)).messages,
            state@.files == apply_batch(old(state)@, request@.take(i as int)).files,
        decreases n - i,
    {
        request[i].save(state);
        proof {
            lemma_apply_batch_snoc(old(state)@, request@, i as int);
        }
        i += 1;
    }
    proof {
        assert(request@.take(n as int) =~= request@);
    }
    ItemResponse {
        status: Status::Succes,
        no_of_success: n,
        no_of_fails: 0,
        err: Option::None,
    }
}

proof fn lemma_apply_batch_snoc(v: SaveView, items: Seq<Item>, i: int)
    requires
        0 <= i < items.len(),
    ensures
        apply_item(apply_batch(v, items.take(i)), items[i]).secrets == apply_batch(
            v,
            items.take(i + 1),
        ).secrets,
        apply_item(apply_batch(v, items.take(i)), items[i]).messages == apply_batch(
            v,
            items.take(i + 1),
        ).messages,
        apply_item(apply_batch(v, items.take(i)), items[i]).files == apply_batch(
            v,
            items.take(i + 1),
        ).files,
    decreases i,
{
    if i == 0 {
        assert(items.take(0) =~= Seq::<Item>::empty());
        assert(items.take(1).drop_first() =~= Seq::<Item>::empty());
        assert(items.take(1)[0] == items[0]);
        assert(items.take(1).len() == 1);
        assert(apply_batch(v, items.take(0)) == v);
        assert(apply_batch(v, items.take(1)) == apply_batch(
            apply_item(v, items[0]),
            items.take(1).drop_first(),
        ));
        assert(apply_batch(apply_item(v, items[0]), Seq::<Item>::empty()) == apply_item(
            v,
            items[0],
        ));
    } else {
        let v1 = apply_item(v, items[0]);
        let df = items.drop_first();
        lemma_apply_batch_snoc(v1, df, i - 1);
        assert(items.take(i).drop_first() =~= df.take(i - 1));
        assert(items.take(i + 1).drop_first() =~= df.take(i));
        assert(df[i - 1] == items[i]);
        assert(items.take(i)[0] == items[0]);
        assert(items.take(i + 1)[0] == items[0]);
        assert(apply_batch(v, items.take(i)) == apply_batch(v1, df.take(i - 1)));
        assert(apply_batch(v, items.take(i + 1)) == apply_batch(v1, df.take(i)));
    }
}

} // verus!
