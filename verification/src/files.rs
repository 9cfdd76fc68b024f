//! The file table in memory: files with a name, a buffer of fixed capacity
//! and the number of bytes of it that are in use.

use vstd::prelude::*;

verus! {

/// One file.
#[derive(Debug)]
pub struct File {
    pub name: Vec<u8>,
    /// The file's buffer; its length is the file's capacity.
    pub data: Vec<u8>,
    /// Bytes of `data` that make up the file.
    pub size: usize,
}

/// A file's buffer after `buf` has been written to the file: `buf` lies at
/// its start, and what lay behind stays.
pub open spec fn written(data: Seq<u8>, buf: Seq<u8>) -> Seq<u8> {
    buf.add(data.subrange(buf.len() as int, data.len() as int))
}

/// What reading `n` bytes finds in a file's buffer: its first `n` bytes.
pub open spec fn read_bytes(data: Seq<u8>, n: int) -> Seq<u8> {
    data.subrange(0, n)
}

/// Reading as many bytes as were written gives back what was written,
/// provided it fitted in the file's buffer.
pub proof fn lemma_read_after_write(data: Seq<u8>, buf: Seq<u8>)
    requires
        buf.len() <= data.len(),
    ensures
        read_bytes(written(data, buf), buf.len() as int) == buf,
        written(data, buf).len() == data.len(),
{
    assert(read_bytes(written(data, buf), buf.len() as int) =~= buf);
}

/// The file table.
#[derive(Debug)]
pub struct Files {
    pub files: Vec<File>,
}

/// Whether two byte strings are equal.
pub fn bytes_eq(a: &Vec<u8>, b: &Vec<u8>) -> (r: bool)
    ensures
        r == (a@ == b@),
{
    if a.len() != b.len() {
        return false;
    }
    let mut i: usize = 0;
    while i < a.len()
        invariant
            i <= a.len(),
            a.len() == b.len(),
            forall|k: int| 0 <= k < i ==> a[k] == b[k],
        decreases a.len() - i,
    {
        if a[i] != b[i] {
            return false;
        }
        i = i + 1;
    }
    assert(a@ =~= b@);
    true
}

impl Files {
    /// Index of the first file named `name`, if there is one.
    pub open spec fn lookup(&self, name: Seq<u8>) -> Option<int> {
        if exists|i: int| 0 <= i < self.files.len() && self.files[i].name@ == name {
            Some(
                choose|i: int|
                    0 <= i < self.files.len() && self.files[i].name@ == name && forall|j: int|
                        0 <= j < i ==> self.files[j].name@ != name,
            )
        } else {
            None
        }
    }

    /// Looks a file up by its name, byte for byte.
    pub fn fs_lookup(&self, name: &Vec<u8>) -> (r: Option<usize>)
        ensures
            (match r {
                Some(i) => Some(i as int),
                None => None,
            }) == self.lookup(name@),
            r is Some ==> r->0 < self.files.len() && self.files[r->0 as int].name@ == name@,
    {
        let mut i: usize = 0;
        while i < self.files.len()
            invariant
                i <= self.files.len(),
                forall|j: int| 0 <= j < i ==> self.files[j].name@ != name@,
            decreases self.files.len() - i,
        {
            if bytes_eq(&self.files[i].name, name) {
                proof {
                    let c = self.lookup(name@)->0;
                    assert(c == i) by {
                        if c < i {
                        } else if c > i {
                        }
                    }
                }
                return Some(i);
            }
            i = i + 1;
        }
        None
    }

    /// Bytes that file `i` can hold.
    pub fn capacity(&self, i: usize) -> (r: usize)
        requires
            i < self.files.len(),
        ensures
            r == self.files[i as int].data.len(),
    {
        self.files[i].data.len()
    }

    pub open spec fn wf(&self) -> bool {
        forall|i: int|
            0 <= i < self.files.len() ==> (#[trigger] self.files[i]).size
                <= self.files[i].data.len()
    }

    /// Overwrites file `i` with `buf`, which becomes its whole content.
    pub fn write(&mut self, i: usize, buf: &Vec<u8>)
        requires
            i < old(self).files.len(),
            buf.len() <= old(self).files[i as int].data.len(),
        ensures
            final(self).files.len() == old(self).files.len(),
            final(self).files[i as int].data@ == written(old(self).files[i as int].data@, buf@),
            final(self).files[i as int].size == buf.len(),
            final(self).files[i as int].name == old(self).files[i as int].name,
            forall|j: int|
                0 <= j < old(self).files.len() && j != i ==> final(self).files[j] == old(
                    self,
                ).files[j],
            old(self).wf() ==> final(self).wf(),
    {
        let ghost before = self.files[i as int].data@;
        let mut k: usize = 0;
        while k < buf.len()
            invariant
                k <= buf.len(),
                i < self.files.len(),
                self.files.len() == old(self).files.len(),
                buf.len() <= self.files[i as int].data.len(),
                self.files[i as int].data@.len() == before.len(),
                self.files[i as int].name == old(self).files[i as int].name,
                self.files[i as int].size == old(self).files[i as int].size,
                forall|m: int| 0 <= m < k ==> self.files[i as int].data@[m] == buf@[m],
                forall|m: int|
                    k <= m < before.len() ==> self.files[i as int].data@[m] == before[m],
                forall|j: int|
                    0 <= j < self.files.len() && j != i ==> self.files[j] == old(self).files[j],
            decreases buf.len() - k,
        {
            let byte: u8 = buf[k];
            self.files[i].data[k] = byte;
            k = k + 1;
        }
        self.files[i].size = buf.len();
        assert(self.files[i as int].data@ =~= written(before, buf@));
    }

    /// Copies the first bytes of file `i` into `buf`, as many as `buf` holds.
    pub fn read(&self, i: usize, buf: &mut Vec<u8>)
        requires
            i < self.files.len(),
            old(buf).len() <= self.files[i as int].data.len(),
        ensures
            final(buf)@ == read_bytes(self.files[i as int].data@, old(buf).len() as int),
    {
        let n: usize = buf.len();
        let mut k: usize = 0;
        while k < n
            invariant
                k <= n,
                n == buf.len(),
                i < self.files.len(),
                n <= self.files[i as int].data.len(),
                forall|m: int| 0 <= m < k ==> buf@[m] == self.files[i as int].data@[m],
            decreases n - k,
        {
            let byte: u8 = self.files[i].data[k];
            buf[k] = byte;
            k = k + 1;
        }
        assert(buf@ =~= read_bytes(self.files[i as int].data@, n as int));
    }
}

} // verus!
