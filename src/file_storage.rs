//! The metadata store: every stored artifact's record, keyed by its identifier.
use vstd::prelude::*;
use crate::text::str_eq;

verus! {

/// The durable record of a stored file.
pub struct FileMetadata {
    pub unique_id: String,
    /// Storage-backend reference sufficient to fetch the bytes again.
    pub telegram_file_id: String,
    pub file_name: String,
    pub mime_type: Option<String>,
    pub file_size: u32,
    /// Seconds since the epoch.
    pub uploaded_at: u64,
    /// Storage message coordinate, present for artifacts that the large-object proxy can serve.
    pub message_id: Option<i32>,
}

pub ghost struct FileMetadataView {
    pub unique_id: Seq<char>,
    pub telegram_file_id: Seq<char>,
    pub file_name: Seq<char>,
    pub mime_type: Option<Seq<char>>,
    pub file_size: u32,
    pub uploaded_at: u64,
    pub message_id: Option<i32>,
}

pub open spec fn opt_view(o: Option<String>) -> Option<Seq<char>> {
    match o {
        Some(s) => Some(s@),
        None => None,
    }
}

impl View for FileMetadata {
    type V = FileMetadataView;

    open spec fn view(&self) -> FileMetadataView {
        FileMetadataView {
            unique_id: self.unique_id@,
            telegram_file_id: self.telegram_file_id@,
            file_name: self.file_name@,
            mime_type: opt_view(self.mime_type),
            file_size: self.file_size,
            uploaded_at: self.uploaded_at,
            message_id: self.message_id,
        }
    }
}

pub fn copy_opt_string(o: &Option<String>) -> (r: Option<String>)
    ensures
        opt_view(r) == opt_view(*o),
{
    match o {
        Some(s) => Some(s.clone()),
        None => None,
    }
}

impl FileMetadata {
    /// A copy of the record.
    pub fn duplicate(&self) -> (r: FileMetadata)
        ensures
            r@ == self@,
    {
        FileMetadata {
            unique_id: self.unique_id.clone(),
            telegram_file_id: self.telegram_file_id.clone(),
            file_name: self.file_name.clone(),
            mime_type: copy_opt_string(&self.mime_type),
            file_size: self.file_size,
            uploaded_at: self.uploaded_at,
            message_id: self.message_id,
        }
    }
}

pub open spec fn has_id(files: Seq<FileMetadata>, k: Seq<char>) -> bool {
    exists|i: int| 0 <= i < files.len() && files[i].unique_id@ == k
}

/// What a sequence of records with distinct identifiers holds, as a map.
pub open spec fn records_map(files: Seq<FileMetadata>) -> Map<Seq<char>, FileMetadataView> {
    Map::new(
        |k: Seq<char>| has_id(files, k),
        |k: Seq<char>|
            files[choose|i: int| 0 <= i < files.len() && files[i].unique_id@ == k]@,
    )
}

pub open spec fn distinct_ids(files: Seq<FileMetadata>) -> bool {
    forall|i: int, j: int|
        0 <= i < files.len() && 0 <= j < files.len() && i != j ==> files[i].unique_id@
            != files[j].unique_id@
}

pub proof fn lemma_records_map_at(files: Seq<FileMetadata>, i: int)
    requires
        distinct_ids(files),
        0 <= i < files.len(),
    ensures
        records_map(files).contains_key(files[i].unique_id@),
        records_map(files)[files[i].unique_id@] == files[i]@,
{
    let k = files[i].unique_id@;
    assert(has_id(files, k));
    let j = choose|j: int| 0 <= j < files.len() && files[j].unique_id@ == k;
    assert(j == i);
}

/// The collection of records, each under its own identifier.
pub struct FileStore {
    files: Vec<FileMetadata>,
}

impl View for FileStore {
    type V = Map<Seq<char>, FileMetadataView>;

    closed spec fn view(&self) -> Map<Seq<char>, FileMetadataView> {
        records_map(self.files@)
    }
}

impl FileStore {
    pub closed spec fn wf(&self) -> bool {
        distinct_ids(self.files@)
    }

    /// Every record's key is its own identifier.
    pub proof fn lemma_keys_are_ids(&self)
        requires
            self.wf(),
        ensures
            forall|k: Seq<char>| #[trigger]
                self@.contains_key(k) ==> self@[k].unique_id == k,
    {
        assert forall|k: Seq<char>| #[trigger] self@.contains_key(k) implies self@[k].unique_id
            == k by {
            let i = choose|i: int|
                0 <= i < self.files@.len() && self.files@[i].unique_id@ == k;
            lemma_records_map_at(self.files@, i);
        }
    }

    /// An empty store, as on a fresh start.
    pub fn new() -> (r: FileStore)
        ensures
            r.wf(),
            r@ == Map::<Seq<char>, FileMetadataView>::empty(),
    {
        let r = FileStore { files: Vec::new() };
        assert(r@ =~= Map::<Seq<char>, FileMetadataView>::empty());
        r
    }

    fn find(&self, id: &str) -> (r: Option<usize>)
        requires
            self.wf(),
        ensures
            match r {
                Some(i) => i < self.files@.len() && self.files@[i as int].unique_id@ == id@,
                None => !has_id(self.files@, id@),
            },
    {
        let mut i: usize = 0;
        while i < self.files.len()
            invariant
                i <= self.files@.len(),
                forall|j: int| 0 <= j < i ==> self.files@[j].unique_id@ != id@,
            decreases self.files@.len() - i,
        {
            if str_eq(self.files[i].unique_id.as_str(), id) {
                return Some(i);
            }
            i = i + 1;
        }
        None
    }

    /// Whether a record is stored under `id`.
    pub fn contains(&self, id: &str) -> (r: bool)
        requires
            self.wf(),
        ensures
            r == self@.contains_key(id@),
    {
        match self.find(id) {
            Some(i) => {
                proof {
                    lemma_records_map_at(self.files@, i as int);
                }
                true
            },
            None => false,
        }
    }

    /// A second store holding the same records, to change and persist before
    /// it replaces this one.
    pub fn duplicate(&self) -> (r: FileStore)
        requires
            self.wf(),
        ensures
            r.wf(),
            r@ == self@,
    {
        FileStore::from_records(self.list())
    }

    pub fn len(&self) -> (r: usize)
        requires
            self.wf(),
        ensures
            r == self@.len(),
    {
        proof {
            self.lemma_len();
        }
        self.files.len()
    }

    proof fn lemma_len(&self)
        requires
            self.wf(),
        ensures
            self@.dom().len() == self.files@.len(),
            self@.len() == self.files@.len(),
    {
        let ids = Seq::new(self.files@.len(), |i: int| self.files@[i].unique_id@);
        assert forall|k: Seq<char>| self@.dom().contains(k) == ids.to_set().contains(k) by {
            if has_id(self.files@, k) {
                let i = choose|i: int| 0 <= i < self.files@.len() && self.files@[i].unique_id@ == k;
                assert(ids[i] == k);
            }
            if ids.contains(k) {
                let i = choose|i: int| 0 <= i < ids.len() && ids[i] == k;
                assert(self.files@[i].unique_id@ == k);
            }
        }
        assert(self@.dom() =~= ids.to_set());
        assert(ids.no_duplicates());
        ids.unique_seq_to_set();
    }

    /// Inserts the record, replacing any record with the same identifier.
    pub fn put(&mut self, metadata: FileMetadata)
        requires
            old(self).wf(),
        ensures
            final(self).wf(),
            final(self)@ == old(self)@.insert(metadata@.unique_id, metadata@),
    {
        let ghost old_files = self.files@;
        let ghost k = metadata@.unique_id;
        let found = self.find(metadata.unique_id.as_str());
        match found {
            Some(i) => {
                self.files.set(i, metadata);
            },
            None => {
                self.files.push(metadata);
            },
        }
        let ghost new_files = self.files@;
        let ghost pos: int = match found {
            Some(i) => i as int,
            None => old_files.len() as int,
        };
        assert(new_files[pos].unique_id@ == k);
        assert forall|j: int| 0 <= j < new_files.len() && j != pos implies new_files[j]
            == old_files[j] && old_files[j].unique_id@ != k by {}
        assert(distinct_ids(new_files));
        assert forall|key: Seq<char>| #[trigger]
            records_map(new_files).contains_key(key) == old(self)@.insert(k, metadata@).contains_key(
                key,
            ) by {
            if has_id(new_files, key) && key != k {
                let j = choose|j: int| 0 <= j < new_files.len() && new_files[j].unique_id@ == key;
                assert(old_files[j].unique_id@ == key);
            }
            if has_id(old_files, key) && key != k {
                let j = choose|j: int| 0 <= j < old_files.len() && old_files[j].unique_id@ == key;
                assert(new_files[j].unique_id@ == key);
            }
            if key == k {
                assert(has_id(new_files, key));
            }
        }
        assert forall|key: Seq<char>| #[trigger]
            records_map(new_files).contains_key(key) implies records_map(new_files)[key]
            == old(self)@.insert(k, metadata@)[key] by {
            let j = choose|j: int| 0 <= j < new_files.len() && new_files[j].unique_id@ == key;
            lemma_records_map_at(new_files, j);
            if key != k {
                lemma_records_map_at(old_files, j);
            }
        }
        assert(records_map(new_files) =~= old(self)@.insert(k, metadata@));
    }

    /// A copy of the record stored under `id`, if any.
    pub fn get(&self, id: &str) -> (r: Option<FileMetadata>)
        requires
            self.wf(),
        ensures
            match r {
                Some(m) => self@.contains_key(id@) && m@ == self@[id@],
                None => !self@.contains_key(id@),
            },
    {
        match self.find(id) {
            Some(i) => {
                proof {
                    lemma_records_map_at(self.files@, i as int);
                }
                Some(self.files[i].duplicate())
            },
            None => None,
        }
    }

    /// Gives the record stored under `id` a new display name; `false` when there is none.
    pub fn rename(&mut self, id: &str, new_name: String) -> (r: bool)
        requires
            old(self).wf(),
        ensures
            final(self).wf(),
            r == old(self)@.contains_key(id@),
            r ==> final(self)@ == old(self)@.insert(
                id@,
                FileMetadataView { file_name: new_name@, ..old(self)@[id@] },
            ),
            !r ==> final(self)@ == old(self)@,
    {
        proof {
            self.lemma_keys_are_ids();
        }
        match self.get(id) {
            Some(m) => {
                let mut m = m;
                m.file_name = new_name;
                assert(m@ == (FileMetadataView { file_name: new_name@, ..old(self)@[id@] }));
                self.put(m);
                true
            },
            None => false,
        }
    }

    /// Removes the record stored under `id`, if any.
    pub fn delete(&mut self, id: &str)
        requires
            old(self).wf(),
        ensures
            final(self).wf(),
            final(self)@ == old(self)@.remove(id@),
    {
        let ghost old_files = self.files@;
        match self.find(id) {
            Some(i) => {
                self.files.remove(i);
                let ghost new_files = self.files@;
                assert forall|j: int| 0 <= j < new_files.len() implies new_files[j] == old_files[
                    if j < i { j } else { j + 1 }] by {}
                assert(distinct_ids(new_files));
                assert forall|key: Seq<char>| #[trigger]
                    records_map(new_files).contains_key(key) == old(self)@.remove(
                        id@,
                    ).contains_key(key) by {
                    if has_id(new_files, key) {
                        let j = choose|j: int|
                            0 <= j < new_files.len() && new_files[j].unique_id@ == key;
                        let oj = if j < i { j } else { j + 1 };
                        assert(old_files[oj].unique_id@ == key);
                    }
                    if has_id(old_files, key) && key != id@ {
                        let j = choose|j: int|
                            0 <= j < old_files.len() && old_files[j].unique_id@ == key;
                        assert(j != i);
                        let nj = if j < i { j } else { j - 1 };
                        assert(new_files[nj].unique_id@ == key);
                    }
                }
                assert forall|key: Seq<char>| #[trigger]
                    records_map(new_files).contains_key(key) implies records_map(new_files)[key]
                    == old(self)@.remove(id@)[key] by {
                    let j = choose|j: int|
                        0 <= j < new_files.len() && new_files[j].unique_id@ == key;
                    lemma_records_map_at(new_files, j);
                    let oj = if j < i { j } else { j + 1 };
                    lemma_records_map_at(old_files, oj);
                }
                assert(records_map(new_files) =~= old(self)@.remove(id@));
            },
            None => {
                assert(self@ =~= old(self)@.remove(id@));
            },
        }
    }

    /// The store that deleting `id` gives, leaving this one as it is until the
    /// result has reached the durable mirror.
    pub fn with_deleted(&self, id: &str) -> (r: FileStore)
        requires
            self.wf(),
        ensures
            r.wf(),
            r@ == self@.remove(id@),
    {
        let mut next = self.duplicate();
        next.delete(id);
        next
    }

    /// The store that renaming `id` gives, leaving this one as it is; `None` when
    /// no record is stored under `id`.
    pub fn with_renamed(&self, id: &str, new_name: String) -> (r: Option<FileStore>)
        requires
            self.wf(),
        ensures
            r is Some == self@.contains_key(id@),
            r matches Some(next) ==> next.wf() && next@ == self@.insert(
                id@,
                FileMetadataView { file_name: new_name@, ..self@[id@] },
            ),
    {
        let mut next = self.duplicate();
        if next.rename(id, new_name) {
            Some(next)
        } else {
            None
        }
    }

    /// Every record, once each, in no particular order.
    pub fn list(&self) -> (r: Vec<FileMetadata>)
        requires
            self.wf(),
        ensures
            distinct_ids(r@),
            records_map(r@) == self@,
    {
        let mut r: Vec<FileMetadata> = Vec::new();
        let mut i: usize = 0;
        while i < self.files.len()
            invariant
                i <= self.files@.len(),
                r@.len() == i,
                forall|j: int| 0 <= j < i ==> #[trigger] r@[j]@ == self.files@[j]@,
            decreases self.files@.len() - i,
        {
            r.push(self.files[i].duplicate());
            i = i + 1;
        }
        proof {
            assert forall|j: int| 0 <= j < r@.len() implies r@[j].unique_id@
                == self.files@[j].unique_id@ by {
                assert(r@[j]@ == self.files@[j]@);
            }
            assert(distinct_ids(r@));
            assert forall|key: Seq<char>| #[trigger]
                records_map(r@).contains_key(key) == self@.contains_key(key) by {
                if has_id(r@, key) {
                    let j = choose|j: int| 0 <= j < r@.len() && r@[j].unique_id@ == key;
                    assert(r@[j]@ == self.files@[j]@);
                }
                if has_id(self.files@, key) {
                    let j = choose|j: int|
                        0 <= j < self.files@.len() && self.files@[j].unique_id@ == key;
                    assert(r@[j]@ == self.files@[j]@);
                }
            }
            assert forall|key: Seq<char>| #[trigger]
                records_map(r@).contains_key(key) implies records_map(r@)[key] == self@[key] by {
                let j = choose|j: int| 0 <= j < r@.len() && r@[j].unique_id@ == key;
                assert(r@[j]@ == self.files@[j]@);
                lemma_records_map_at(r@, j);
                lemma_records_map_at(self.files@, j);
            }
            assert(records_map(r@) =~= self@);
        }
        r
    }

    /// A store holding the given records, as installed from the durable mirror;
    /// where an identifier repeats, the later record is kept.
    pub fn from_records(records: Vec<FileMetadata>) -> (r: FileStore)
        ensures
            r.wf(),
            r@ == records_fold(records@),
            distinct_ids(records@) ==> r@ == records_map(records@),
    {
        let mut r = FileStore::new();
        let ghost all = records@;
        let n = records.len();
        let mut i: usize = 0;
        while i < n
            invariant
                n == all.len(),
                all == records@,
                i <= n,
                r.wf(),
                distinct_ids(all) ==> r@ == records_map(all.subrange(0, i as int)),
                r@ == records_fold(all.subrange(0, i as int)),
            decreases n - i,
        {
            let m = records[i].duplicate();
            proof {
                if distinct_ids(all) {
                    lemma_records_map_push(all, i as int);
                }
            }
            assert(all.subrange(0, i + 1).drop_last() =~= all.subrange(0, i as int));
            r.put(m);
            i = i + 1;
        }
        assert(all.subrange(0, n as int) =~= all);
        r
    }
}

/// The records put one after the other into an empty map: where an identifier
/// repeats, the later record is the one kept.
pub open spec fn records_fold(files: Seq<FileMetadata>) -> Map<Seq<char>, FileMetadataView>
    decreases files.len(),
{
    if files.len() == 0 {
        Map::empty()
    } else {
        records_fold(files.drop_last()).insert(files.last()@.unique_id, files.last()@)
    }
}

pub proof fn lemma_records_map_push(all: Seq<FileMetadata>, i: int)
    requires
        distinct_ids(all),
        0 <= i < all.len(),
    ensures
        records_map(all.subrange(0, i + 1)) == records_map(all.subrange(0, i)).insert(
            all[i].unique_id@,
            all[i]@,
        ),
{
    let a = all.subrange(0, i);
    let b = all.subrange(0, i + 1);
    assert(distinct_ids(a));
    assert(distinct_ids(b));
    let k = all[i].unique_id@;
    assert forall|key: Seq<char>| #[trigger]
        records_map(b).contains_key(key) == records_map(a).insert(k, all[i]@).contains_key(
            key,
        ) by {
        if has_id(b, key) && key != k {
            let j = choose|j: int| 0 <= j < b.len() && b[j].unique_id@ == key;
            assert(a[j].unique_id@ == key);
        }
        if has_id(a, key) {
            let j = choose|j: int| 0 <= j < a.len() && a[j].unique_id@ == key;
            assert(b[j].unique_id@ == key);
        }
        if key == k {
            assert(b[i].unique_id@ == key);
        }
    }
    assert forall|key: Seq<char>| #[trigger]
        records_map(b).contains_key(key) implies records_map(b)[key] == records_map(a).insert(
        k,
        all[i]@,
    )[key] by {
        let j = choose|j: int| 0 <= j < b.len() && b[j].unique_id@ == key;
        lemma_records_map_at(b, j);
        if j < i {
            lemma_records_map_at(a, j);
        }
    }
    assert(records_map(b) =~= records_map(a).insert(k, all[i]@));
}

/// After `put` of a record, the records that `list` hands out, installed again
/// by `from_records`, hold under that identifier a record equal to it.
pub proof fn lemma_put_then_reload(
    before: Map<Seq<char>, FileMetadataView>,
    metadata: FileMetadataView,
    listed: Seq<FileMetadata>,
    reloaded: Map<Seq<char>, FileMetadataView>,
)
    requires
        distinct_ids(listed),
        records_map(listed) == before.insert(metadata.unique_id, metadata),
        distinct_ids(listed) ==> reloaded == records_map(listed),
    ensures
        reloaded.contains_key(metadata.unique_id),
        reloaded[metadata.unique_id] == metadata,
{
}

} // verus!
