//! A simple in-memory file system: a fixed table of entries, each with its own 32 KiB
//! part of one data area.

use vstd::prelude::*;
use vstd::string::StringSliceAdditionalSpecFns;

verus! {

/// Maximum number of files.
pub const MAX_FILES: usize = 64;

/// Maximum file name length in bytes.
pub const MAX_FILENAME: usize = 32;

/// Maximum file size (32 KiB per file).
pub const MAX_FILE_SIZE: usize = 32768;

/// Size of the data area: one `MAX_FILE_SIZE` part for each table slot.
pub const DATA_SIZE: usize = 2097152;

/// One entry of the file table.
#[derive(Clone, Copy)]
pub struct FileEntry {
    pub name: [u8; 32],
    pub name_len: usize,
    pub size: usize,
    pub is_directory: bool,
    pub in_use: bool,
    pub data_offset: usize,
}

/// The stored name of an entry: its first `name_len` bytes.
pub open spec fn entry_name(e: FileEntry) -> Seq<u8> {
    e.name@.subrange(0, e.name_len as int)
}

/// The entry is in use and holds exactly the name `bytes`.
pub open spec fn entry_matches(e: FileEntry, bytes: Seq<u8>) -> bool {
    e.in_use && e.name_len == bytes.len() && entry_name(e) == bytes
}

/// The name `set_name` stores for `bytes`: its first `MAX_FILENAME` bytes.
pub open spec fn truncated_name(bytes: Seq<u8>) -> Seq<u8> {
    if bytes.len() <= MAX_FILENAME { bytes } else { bytes.subrange(0, MAX_FILENAME as int) }
}

impl FileEntry {
    /// The name as text; the stored bytes must be UTF-8 (a name cut at 32 bytes may not
    /// be).
    pub fn name_as_str(&self) -> (s: &str)
        requires
            self.name_len <= 32,
            vstd::utf8::valid_utf8(entry_name(*self)),
        ensures
            s.spec_bytes() == entry_name(*self),
    {
        let bytes = self.name.as_slice();
        assert(bytes@.subrange(0, self.name_len as int) == entry_name(*self));
        crate::util::utf8_str(&bytes[0..self.name_len])
    }

    /// An unused entry with an empty name.
    pub fn new() -> (e: FileEntry)
        ensures
            e.name_len == 0,
            e.size == 0,
            !e.is_directory,
            !e.in_use,
            e.data_offset == 0,
            forall|i: int| 0 <= i < 32 ==> e.name@[i] == 0u8,
    {
        FileEntry {
            name: [0u8; 32],
            name_len: 0,
            size: 0,
            is_directory: false,
            in_use: false,
            data_offset: 0,
        }
    }

    /// Store `name`, keeping its first `MAX_FILENAME` bytes. Bytes past the stored
    /// length are left as they were.
    pub fn set_name(&mut self, name: &str)
        ensures
            final(self).name_len == truncated_name(name.spec_bytes()).len(),
            entry_name(*final(self)) == truncated_name(name.spec_bytes()),
            forall|i: int| final(self).name_len <= i < 32 ==> final(self).name@[i] == old(self).name@[i],
            final(self).size == old(self).size,
            final(self).is_directory == old(self).is_directory,
            final(self).in_use == old(self).in_use,
            final(self).data_offset == old(self).data_offset,
    {
        let bytes = name.as_bytes();
        self.name_len = 0;
        let mut k: usize = 0;
        while k < bytes.len()
            invariant
                bytes@ == name.spec_bytes(),
                k <= bytes@.len(),
                self.name_len == if k <= MAX_FILENAME { k } else { MAX_FILENAME },
                forall|i: int| 0 <= i < self.name_len ==> self.name@[i] == bytes@[i],
                forall|i: int| self.name_len <= i < 32 ==> self.name@[i] == old(self).name@[i],
                self.size == old(self).size,
                self.is_directory == old(self).is_directory,
                self.in_use == old(self).in_use,
                self.data_offset == old(self).data_offset,
            decreases bytes@.len() - k,
        {
            if self.name_len < MAX_FILENAME {
                self.name[self.name_len] = bytes[k];
                self.name_len = self.name_len + 1;
            }
            k = k + 1;
        }
        assert(entry_name(*self) =~= truncated_name(name.spec_bytes()));
    }
}

/// The file system: the entry table, the number of slots handed out (the slots in use
/// lie below it), the data area and the high-water mark of data written.
pub struct SimpleFS {
    pub files: Vec<FileEntry>,
    pub file_count: usize,
    pub data: Vec<u8>,
    pub data_used: usize,
}

impl SimpleFS {
    /// The invariant: a full table and data area, counts in range, every entry's
    /// contents inside the data area with a name that fits; each slot handed out keeps
    /// its contents in its own part of the data area, and no two entries in use have the
    /// same name.
    pub open spec fn wf(&self) -> bool {
        &&& self.files@.len() == MAX_FILES
        &&& self.data@.len() == DATA_SIZE
        &&& self.file_count <= MAX_FILES
        &&& self.data_used <= DATA_SIZE
        &&& forall|i: int| 0 <= i < MAX_FILES ==> {
            &&& (#[trigger] self.files@[i]).data_offset + self.files@[i].size <= DATA_SIZE
            &&& self.files@[i].name_len <= MAX_FILENAME
        }
        &&& forall|i: int| 0 <= i < self.file_count ==> {
            &&& !(#[trigger] self.files@[i]).is_directory ==> self.files@[i].data_offset == i * MAX_FILE_SIZE
            &&& self.files@[i].size <= MAX_FILE_SIZE
        }
        &&& self.names_unique()
    }

    /// No two entries in use below `file_count` have the same name.
    pub open spec fn names_unique(&self) -> bool {
        forall|i: int, j: int|
            #![trigger self.files@[i], self.files@[j]]
            0 <= i < self.file_count && 0 <= j < self.file_count && i != j
            && self.files@[i].in_use && self.files@[j].in_use
            ==> entry_name(self.files@[i]) != entry_name(self.files@[j])
    }

    /// The slot `create_file` fills: the next one, `file_count`, while the table has
    /// room; once all 64 have been handed out, the first one not in use (64 when every
    /// slot is in use).
    pub open spec fn free_slot(&self) -> int {
        if self.file_count < MAX_FILES {
            self.file_count as int
        } else if exists|i: int| 0 <= i < self.file_count && !(#[trigger] self.files@[i]).in_use {
            choose|i: int| 0 <= i < self.file_count && !(#[trigger] self.files@[i]).in_use
                && forall|j: int| 0 <= j < i ==> (#[trigger] self.files@[j]).in_use
        } else {
            self.file_count as int
        }
    }

    /// What `read_file(idx)` returns.
    pub open spec fn contents(&self, idx: int) -> Option<Seq<u8>> {
        if idx < 0 || idx >= self.file_count || !self.files@[idx].in_use || self.files@[idx].is_directory {
            None
        } else {
            let e = self.files@[idx];
            Some(self.data@.subrange(e.data_offset as int, e.data_offset + e.size))
        }
    }

    /// The first entry below `file_count` that matches `bytes`, if any.
    pub open spec fn lookup(&self, bytes: Seq<u8>) -> Option<usize> {
        if exists|i: int| 0 <= i < self.file_count && #[trigger] entry_matches(self.files@[i], bytes) {
            let i = choose|i: int| 0 <= i < self.file_count && #[trigger] entry_matches(self.files@[i], bytes)
                && forall|j: int| 0 <= j < i ==> !#[trigger] entry_matches(self.files@[j], bytes);
            Some(i as usize)
        } else {
            None
        }
    }

    /// An empty file system: no entries handed out, all data zero.
    pub fn new() -> (fs: SimpleFS)
        ensures
            fs.wf(),
            fs.file_count == 0,
            fs.data_used == 0,
            forall|i: int| 0 <= i < MAX_FILES ==> !(#[trigger] fs.files@[i]).in_use,
    {
        let mut files: Vec<FileEntry> = Vec::new();
        let mut i: usize = 0;
        while i < MAX_FILES
            invariant
                i <= MAX_FILES,
                files@.len() == i,
                forall|j: int| 0 <= j < i ==> {
                    &&& !(#[trigger] files@[j]).in_use
                    &&& files@[j].size == 0
                    &&& files@[j].data_offset == 0
                    &&& files@[j].name_len == 0
                },
            decreases MAX_FILES - i,
        {
            files.push(FileEntry::new());
            i = i + 1;
        }
        let mut data: Vec<u8> = Vec::new();
        let mut k: usize = 0;
        while k < DATA_SIZE
            invariant
                k <= DATA_SIZE,
                data@.len() == k,
            decreases DATA_SIZE - k,
        {
            data.push(0);
            k = k + 1;
        }
        SimpleFS { files, file_count: 0, data, data_used: 0 }
    }

    /// Put the root directory "/" in entry 0; the table then holds one entry.
    pub fn init(&mut self)
        requires
            old(self).wf(),
        ensures
            final(self).wf(),
            final(self).file_count == 1,
            final(self).files@[0].in_use,
            final(self).files@[0].is_directory,
            entry_name(final(self).files@[0]) == seq![47u8],
            final(self).files@[0].size == 0,
            final(self).files@[0].data_offset == 0,
            forall|i: int| 1 <= i < MAX_FILES ==> final(self).files@[i] == old(self).files@[i],
            final(self).data@ == old(self).data@,
            final(self).data_used == old(self).data_used,
    {
        let mut root = FileEntry::new();
        root.set_name("/");
        proof {
            reveal_strlit("/");
            vstd::string::is_ascii_spec_bytes("/");
        }
        root.is_directory = true;
        root.in_use = true;
        self.files.set(0, root);
        self.file_count = 1;
    }

    /// The first entry in use whose name equals `name`.
    pub fn find_file(&self, name: &str) -> (r: Option<usize>)
        requires
            self.wf(),
        ensures
            r == self.lookup(name.spec_bytes()),
    {
        self.find_bytes(name.as_bytes())
    }

    /// The first entry in use whose name equals `bytes`.
    fn find_bytes(&self, bytes: &[u8]) -> (r: Option<usize>)
        requires
            self.wf(),
        ensures
            r == self.lookup(bytes@),
    {
        let mut i: usize = 0;
        while i < self.file_count
            invariant
                self.wf(),
                i <= self.file_count,
                forall|j: int| 0 <= j < i ==> !#[trigger] entry_matches(self.files@[j], bytes@),
            decreases self.file_count - i,
        {
            if self.files[i].in_use && name_equals(&self.files[i], bytes) {
                proof {
                    let w = choose|w: int| 0 <= w < self.file_count && #[trigger] entry_matches(self.files@[w], bytes@)
                        && forall|j: int| 0 <= j < w ==> !#[trigger] entry_matches(self.files@[j], bytes@);
                    assert(entry_matches(self.files@[i as int], bytes@));
                    if w < i {
                        assert(!entry_matches(self.files@[w], bytes@));
                    }
                    if w > i {
                        assert(!entry_matches(self.files@[i as int], bytes@));
                    }
                }
                return Some(i);
            }
            i = i + 1;
        }
        None
    }

    /// The slot that a new entry takes.
    fn find_free_slot(&self) -> (r: usize)
        requires
            self.wf(),
        ensures
            r == self.free_slot(),
    {
        if self.file_count < MAX_FILES {
            return self.file_count;
        }
        let mut i: usize = 0;
        while i < self.file_count
            invariant
                self.wf(),
                self.file_count == MAX_FILES,
                i <= self.file_count,
                forall|j: int| 0 <= j < i ==> (#[trigger] self.files@[j]).in_use,
            decreases self.file_count - i,
        {
            if !self.files[i].in_use {
                proof {
                    let w = choose|w: int| 0 <= w < self.file_count && !(#[trigger] self.files@[w]).in_use
                        && forall|j: int| 0 <= j < w ==> (#[trigger] self.files@[j]).in_use;
                    if w < i {
                        assert(self.files@[w].in_use);
                    }
                    if w > i {
                        assert(self.files@[i as int].in_use);
                    }
                }
                return i;
            }
            i = i + 1;
        }
        i
    }

    /// Shared part of `create_file` and `create_dir`.
    fn create_entry(&mut self, name: &str, is_directory: bool, exists_msg: &'static str) -> (r: Result<usize, &'static str>)
        requires
            old(self).wf(),
        ensures
            final(self).wf(),
            create_post(*old(self), *final(self), name.spec_bytes(), is_directory, exists_msg, r),
    {
        let idx = self.find_free_slot();
        if idx >= MAX_FILES {
            return Err("Maximum file limit reached");
        }
        let bytes = name.as_bytes();
        let n = if bytes.len() <= MAX_FILENAME { bytes.len() } else { MAX_FILENAME };
        let short = &bytes[0..n];
        assert(short@ == truncated_name(name.spec_bytes()));
        if self.find_bytes(short).is_some() {
            return Err(exists_msg);
        }
        let ghost pre = *self;
        let mut file = FileEntry::new();
        file.set_name(name);
        file.in_use = true;
        file.is_directory = is_directory;
        file.data_offset = if is_directory { 0 } else { idx * MAX_FILE_SIZE };
        file.size = 0;
        self.files.set(idx, file);
        if idx == self.file_count {
            self.file_count = self.file_count + 1;
        }
        proof {
            let nm = truncated_name(name.spec_bytes());
            assert(entry_name(file) == nm);
            assert forall|j: int| 0 <= j < pre.file_count && pre.files@[j].in_use
                implies #[trigger] entry_name(pre.files@[j]) != nm by {
                assert(pre.files@[j].name_len <= MAX_FILENAME);
                if entry_name(pre.files@[j]) == nm {
                    assert(entry_matches(pre.files@[j], nm));
                }
            }
            assert forall|i: int, j: int|
                #![trigger self.files@[i], self.files@[j]]
                0 <= i < self.file_count && 0 <= j < self.file_count && i != j
                && self.files@[i].in_use && self.files@[j].in_use
                implies entry_name(self.files@[i]) != entry_name(self.files@[j]) by {
                if i != idx && j != idx {
                    assert(self.files@[i] == pre.files@[i] && self.files@[j] == pre.files@[j]);
                } else if i == idx {
                    assert(self.files@[j] == pre.files@[j]);
                    assert(entry_name(pre.files@[j]) != nm);
                } else {
                    assert(self.files@[i] == pre.files@[i]);
                    assert(entry_name(pre.files@[i]) != nm);
                }
            }
        }
        Ok(idx)
    }

    /// Add a file named `name` (its first 32 bytes are stored) at the next table slot
    /// (once all 64 are handed out, the first one freed), empty, with its data in that
    /// slot's part of the data area.
    pub fn create_file(&mut self, name: &str) -> (r: Result<usize, &'static str>)
        requires
            old(self).wf(),
        ensures
            final(self).wf(),
            create_post(*old(self), *final(self), name.spec_bytes(), false, "File already exists", r),
    {
        self.create_entry(name, false, "File already exists")
    }

    /// Add a directory named `name` at the next table slot (once all 64 are handed out,
    /// the first one freed).
    pub fn create_dir(&mut self, name: &str) -> (r: Result<usize, &'static str>)
        requires
            old(self).wf(),
        ensures
            final(self).wf(),
            create_post(*old(self), *final(self), name.spec_bytes(), true, "Directory already exists", r),
    {
        self.create_entry(name, true, "Directory already exists")
    }

    /// The contents of file `idx`; `None` for an index out of range, an entry not in use
    /// or a directory.
    pub fn read_file(&self, idx: usize) -> (r: Option<&[u8]>)
        requires
            self.wf(),
        ensures
            match r {
                Some(s) => self.contents(idx as int) == Some(s@),
                None => self.contents(idx as int) is None,
            },
    {
        if idx >= self.file_count || !self.files[idx].in_use {
            return None;
        }
        let file = &self.files[idx];
        if file.is_directory {
            return None;
        }
        let start = file.data_offset;
        let end = start + file.size;
        Some(&self.data.as_slice()[start..end])
    }

    /// Replace the contents of file `idx` with `data`, written at the file's data offset.
    pub fn write_file(&mut self, idx: usize, data: &[u8]) -> (r: Result<(), &'static str>)
        requires
            old(self).wf(),
        ensures
            final(self).wf(),
            write_post(*old(self), *final(self), idx as int, data@, r),
            forall|j: int| j != idx ==> #[trigger] final(self).contents(j) == old(self).contents(j),
    {
        if idx >= self.file_count || !self.files[idx].in_use {
            return Err("Invalid file index");
        }
        let mut file = self.files[idx];
        if file.is_directory {
            return Err("Cannot write to directory");
        }
        if data.len() > MAX_FILE_SIZE {
            return Err("File too large");
        }
        let new_data_used = file.data_offset + data.len();
        if new_data_used > self.data.len() {
            return Err("Out of storage space");
        }
        let start = file.data_offset;
        let ghost pre = *self;
        let mut k: usize = 0;
        while k < data.len()
            invariant
                pre.wf(),
                self.files@ == pre.files@,
                self.file_count == pre.file_count,
                self.data_used == pre.data_used,
                self.data@.len() == DATA_SIZE,
                start + data@.len() <= DATA_SIZE,
                k <= data@.len(),
                forall|i: int| 0 <= i < start ==> self.data@[i] == pre.data@[i],
                forall|i: int| start + data@.len() <= i < DATA_SIZE ==> self.data@[i] == pre.data@[i],
                forall|i: int| start <= i < start + k ==> self.data@[i] == data@[i - start],
                forall|i: int| start + k <= i < start + data@.len() ==> self.data@[i] == pre.data@[i],
            decreases data@.len() - k,
        {
            self.data.set(start + k, data[k]);
            k = k + 1;
        }
        file.size = data.len();
        self.files.set(idx, file);
        if new_data_used > self.data_used {
            self.data_used = new_data_used;
        }
        proof {
            assert(self.data@ =~= pre.data@.subrange(0, start as int) + data@
                + pre.data@.subrange(start + data@.len(), DATA_SIZE as int));
            law_write_keeps_other_files(pre, *self, idx as int, data@);
        }
        Ok(())
    }

    /// The entries handed out so far, in use or not.
    pub fn list_files(&self) -> (r: &[FileEntry])
        requires
            self.wf(),
        ensures
            r@ == self.files@.subrange(0, self.file_count as int),
    {
        &self.files.as_slice()[0..self.file_count]
    }

    /// Mark entry `idx` unused; the root entry 0 cannot be deleted.
    pub fn delete_file(&mut self, idx: usize) -> (r: Result<(), &'static str>)
        requires
            old(self).wf(),
        ensures
            final(self).wf(),
            delete_post(*old(self), *final(self), idx as int, r),
    {
        if idx >= self.file_count || !self.files[idx].in_use || idx == 0 {
            return Err("Invalid file index or cannot delete root");
        }
        let mut e = self.files[idx];
        e.in_use = false;
        self.files.set(idx, e);
        Ok(())
    }
}

/// Whether the stored name of `e` equals `bytes`.
fn name_equals(e: &FileEntry, bytes: &[u8]) -> (b: bool)
    requires
        e.name_len <= MAX_FILENAME,
    ensures
        b == (e.name_len == bytes@.len() && entry_name(*e) == bytes@),
{
    if e.name_len != bytes.len() {
        return false;
    }
    let mut i: usize = 0;
    while i < e.name_len
        invariant
            e.name_len <= MAX_FILENAME,
            e.name_len == bytes@.len(),
            i <= e.name_len,
            forall|j: int| 0 <= j < i ==> e.name@[j] == bytes@[j],
        decreases e.name_len - i,
    {
        if e.name[i] != bytes[i] {
            assert(entry_name(*e)[i as int] != bytes@[i as int]);
            return false;
        }
        i = i + 1;
    }
    assert(entry_name(*e) =~= bytes@);
    true
}

/// What `create_file` / `create_dir` do: refuse when all 64 slots are in use or the
/// stored name is already in use; otherwise fill the slot `free_slot` names and return
/// its index.
pub open spec fn create_post(
    pre: SimpleFS,
    post: SimpleFS,
    name: Seq<u8>,
    is_directory: bool,
    exists_msg: &'static str,
    r: Result<usize, &'static str>,
) -> bool {
    let slot = pre.free_slot();
    if slot >= MAX_FILES {
        r == Err::<usize, &'static str>("Maximum file limit reached") && post == pre
    } else if pre.lookup(truncated_name(name)) is Some {
        r == Err::<usize, &'static str>(exists_msg) && post == pre
    } else {
        &&& r == Ok::<usize, &'static str>(slot as usize)
        &&& post.file_count == if slot == pre.file_count { pre.file_count + 1 } else { pre.file_count as int }
        &&& post.data@ == pre.data@
        &&& post.data_used == pre.data_used
        &&& post.files@ == pre.files@.update(slot, post.files@[slot])
        &&& entry_name(post.files@[slot]) == truncated_name(name)
        &&& post.files@[slot].in_use
        &&& post.files@[slot].is_directory == is_directory
        &&& post.files@[slot].size == 0
        &&& post.files@[slot].data_offset == if is_directory { 0 } else { slot * MAX_FILE_SIZE }
    }
}

/// What `write_file` does.
pub open spec fn write_post(pre: SimpleFS, post: SimpleFS, idx: int, data: Seq<u8>, r: Result<(), &'static str>) -> bool {
    if idx >= pre.file_count || !pre.files@[idx].in_use {
        r == Err::<(), &'static str>("Invalid file index") && post == pre
    } else if pre.files@[idx].is_directory {
        r == Err::<(), &'static str>("Cannot write to directory") && post == pre
    } else if data.len() > MAX_FILE_SIZE {
        r == Err::<(), &'static str>("File too large") && post == pre
    } else if pre.files@[idx].data_offset + data.len() > DATA_SIZE {
        r == Err::<(), &'static str>("Out of storage space") && post == pre
    } else {
        let off = pre.files@[idx].data_offset as int;
        &&& r == Ok::<(), &'static str>(())
        &&& post.data@ == pre.data@.subrange(0, off) + data + pre.data@.subrange(off + data.len(), DATA_SIZE as int)
        &&& post.files@ == pre.files@.update(idx, FileEntry { size: data.len() as usize, ..pre.files@[idx] })
        &&& post.file_count == pre.file_count
        &&& post.data_used == if off + data.len() > pre.data_used { off + data.len() } else { pre.data_used as int }
    }
}

/// What `delete_file` does.
pub open spec fn delete_post(pre: SimpleFS, post: SimpleFS, idx: int, r: Result<(), &'static str>) -> bool {
    if idx >= pre.file_count || !pre.files@[idx].in_use || idx == 0 {
        r == Err::<(), &'static str>("Invalid file index or cannot delete root") && post == pre
    } else {
        &&& r == Ok::<(), &'static str>(())
        &&& post.files@ == pre.files@.update(idx, FileEntry { in_use: false, ..pre.files@[idx] })
        &&& post.file_count == pre.file_count
        &&& post.data@ == pre.data@
        &&& post.data_used == pre.data_used
    }
}

/// A successful write is read back whole: reading the file right after gives exactly the
/// bytes written.
pub proof fn law_read_after_write(pre: SimpleFS, post: SimpleFS, idx: int, data: Seq<u8>)
    requires
        pre.wf(),
        0 <= idx,
        write_post(pre, post, idx, data, Ok(())),
    ensures
        post.contents(idx) == Some(data),
{
    let off = pre.files@[idx].data_offset as int;
    assert(post.data@.subrange(off, off + data.len()) =~= data);
}

/// A file created under a name of at most 32 bytes is found again under that name, at
/// the index `create_file` returned.
pub proof fn law_find_after_create(pre: SimpleFS, post: SimpleFS, name: Seq<u8>, is_directory: bool, msg: &'static str, idx: usize)
    requires
        pre.wf(),
        post.wf(),
        name.len() <= MAX_FILENAME,
        create_post(pre, post, name, is_directory, msg, Ok(idx)),
    ensures
        post.lookup(name) == Some(idx),
{
    assert(entry_matches(post.files@[idx as int], name));
    assert forall|j: int| 0 <= j < idx implies !#[trigger] entry_matches(post.files@[j], name) by {
        assert(post.files@[j] == pre.files@[j]);
        if entry_matches(pre.files@[j], name) {
            assert(pre.lookup(name) is Some);
        }
    }
    let w = choose|w: int| 0 <= w < post.file_count && #[trigger] entry_matches(post.files@[w], name)
        && forall|j: int| 0 <= j < w ==> !#[trigger] entry_matches(post.files@[j], name);
    if w < idx {
        assert(!entry_matches(post.files@[w], name));
    }
    if w > idx {
        assert(!entry_matches(post.files@[idx as int], name));
    }
}

/// Writing one file leaves every other file's contents as they were.
pub proof fn law_write_keeps_other_files(pre: SimpleFS, post: SimpleFS, idx: int, data: Seq<u8>)
    requires
        pre.wf(),
        0 <= idx,
        write_post(pre, post, idx, data, Ok(())),
    ensures
        forall|j: int| j != idx ==> #[trigger] post.contents(j) == pre.contents(j),
{
    let off = idx * MAX_FILE_SIZE;
    assert(pre.files@[idx].data_offset == off);
    assert forall|j: int| j != idx implies #[trigger] post.contents(j) == pre.contents(j) by {
        if 0 <= j < pre.file_count && pre.files@[j].in_use && !pre.files@[j].is_directory {
            let e = pre.files@[j];
            assert(post.files@[j] == e);
            assert(e.data_offset == j * MAX_FILE_SIZE && e.size <= MAX_FILE_SIZE);
            assert(j < idx || j > idx);
            assert(e.data_offset + e.size <= off || off + MAX_FILE_SIZE <= e.data_offset) by (nonlinear_arith)
                requires e.data_offset == j * 32768, off == idx * 32768, e.size <= 32768, j < idx || j > idx;
            assert(post.data@.subrange(e.data_offset as int, e.data_offset + e.size)
                =~= pre.data@.subrange(e.data_offset as int, e.data_offset + e.size));
        }
    }
}

/// While the table has room, a new entry goes at the end: its index is the old length,
/// the table grows by one, and the entries before it are unchanged.
pub proof fn law_create_appends(pre: SimpleFS, post: SimpleFS, name: Seq<u8>, is_directory: bool, msg: &'static str, idx: usize)
    requires
        pre.wf(),
        pre.file_count < MAX_FILES,
        create_post(pre, post, name, is_directory, msg, Ok(idx)),
    ensures
        idx == pre.file_count,
        post.file_count == pre.file_count + 1,
        post.files@.subrange(0, pre.file_count as int) == pre.files@.subrange(0, pre.file_count as int),
{
    assert(post.files@.subrange(0, pre.file_count as int) =~= pre.files@.subrange(0, pre.file_count as int));
}

/// After a delete, the deleted entry's name is no longer found.
pub proof fn law_name_gone_after_delete(pre: SimpleFS, post: SimpleFS, idx: int)
    requires
        pre.wf(),
        0 <= idx,
        delete_post(pre, post, idx, Ok(())),
    ensures
        post.lookup(entry_name(pre.files@[idx])) is None,
{
    let nm = entry_name(pre.files@[idx]);
    assert forall|i: int| 0 <= i < post.file_count implies !#[trigger] entry_matches(post.files@[i], nm) by {
        if i != idx {
            assert(post.files@[i] == pre.files@[i]);
        }
    }
}

/// The table is full exactly when all of its 64 slots are in use.
pub proof fn law_full_only_when_all_in_use(fs: SimpleFS)
    requires
        fs.wf(),
    ensures
        fs.free_slot() >= MAX_FILES <==> (fs.file_count == MAX_FILES
            && forall|i: int| 0 <= i < MAX_FILES ==> (#[trigger] fs.files@[i]).in_use),
{
    if exists|i: int| 0 <= i < fs.file_count && !(#[trigger] fs.files@[i]).in_use {
        let w = choose|i: int| 0 <= i < fs.file_count && !(#[trigger] fs.files@[i]).in_use;
        assert(!fs.files@[w].in_use);
    }
}

/// A deleted file can no longer be read.
pub proof fn law_read_after_delete(pre: SimpleFS, post: SimpleFS, idx: int)
    requires
        pre.wf(),
        0 <= idx,
        delete_post(pre, post, idx, Ok(())),
    ensures
        post.contents(idx) is None,
{
}

/// The root directory in entry 0 is never deleted.
pub proof fn law_root_survives_delete(pre: SimpleFS, post: SimpleFS, idx: int, r: Result<(), &'static str>)
    requires
        pre.wf(),
        0 <= idx,
        delete_post(pre, post, idx, r),
    ensures
        post.files@[0] == pre.files@[0],
{
}

} // verus!
