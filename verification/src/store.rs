use vstd::prelude::*;

verus! {

/// One document the resolver may pull in: the source path as it would
/// stand in a directive, and the document's contents.
pub struct FileEntry {
    pub name: Vec<u8>,
    pub data: Vec<u8>,
}

/// The injected file-access capability, as a value: the documents that
/// a resolution may read, keyed by the literal source path written in
/// a directive. Joining and canonicalizing paths against a real
/// filesystem is the caller's concern; here a path either is the name
/// of an entry or cannot be resolved.
pub struct FileStore {
    pub entries: Vec<FileEntry>,
}

/// Contents filed under `name`: the data of the first entry whose name
/// matches, or `None` when no entry matches.
pub open spec fn lookup(files: Seq<(Seq<u8>, Seq<u8>)>, name: Seq<u8>) -> Option<Seq<u8>>
    decreases files.len(),
{
    if files.len() == 0 {
        None
    } else if files[0].0 == name {
        Some(files[0].1)
    } else {
        lookup(files.drop_first(), name)
    }
}

impl View for FileStore {
    type V = Seq<(Seq<u8>, Seq<u8>)>;

    open spec fn view(&self) -> Seq<(Seq<u8>, Seq<u8>)> {
        self.entries@.map(|k: int, e: FileEntry| (e.name@, e.data@))
    }
}

/// The two byte vectors hold the same bytes.
fn bytes_eq(a: &Vec<u8>, b: &Vec<u8>) -> (r: bool)
    ensures
        r == (a@ == b@),
{
    if a.len() != b.len() {
        return false;
    }
    let mut i: usize = 0;
    while i < a.len()
        invariant
            a@.len() == b@.len(),
            i <= a@.len(),
            forall|t: int| 0 <= t < i ==> a@[t] == b@[t],
        decreases a@.len() - i,
    {
        if a[i] != b[i] {
            return false;
        }
        i += 1;
    }
    proof {
        assert(a@ =~= b@);
    }
    true
}

impl FileStore {
    /// An empty store: nothing can be resolved against it.
    pub fn new() -> (r: FileStore)
        ensures
            r@ == Seq::<(Seq<u8>, Seq<u8>)>::empty(),
    {
        let r = FileStore { entries: Vec::new() };
        proof {
            assert(r@ =~= Seq::<(Seq<u8>, Seq<u8>)>::empty());
        }
        r
    }

    /// Files one more document under `name`, behind all present ones.
    pub fn add(&mut self, name: Vec<u8>, data: Vec<u8>)
        ensures
            final(self)@ == old(self)@.push((name@, data@)),
    {
        let ghost n = name@;
        let ghost d = data@;
        self.entries.push(FileEntry { name, data });
        proof {
            assert(self@ =~= old(self)@.push((n, d)));
        }
    }

    /// Contents filed under `name`, or `None` when the store holds no
    /// entry of that name.
    pub fn get(&self, name: &Vec<u8>) -> (r: Option<&Vec<u8>>)
        ensures
            ({
                match lookup(self@, name@) {
                    Some(c) => r matches Some(d) && d@ == c,
                    None => r is None,
                }
            }),
    {
        proof {
            assert(self@.skip(0) =~= self@);
        }
        let mut k: usize = 0;
        while k < self.entries.len()
            invariant
                k <= self.entries@.len(),
                self@.len() == self.entries@.len(),
                lookup(self@, name@) == lookup(self@.skip(k as int), name@),
            decreases self.entries@.len() - k,
        {
            if bytes_eq(&self.entries[k].name, name) {
                proof {
                    assert(self@.skip(k as int)[0] == self@[k as int]);
                    assert(self@[k as int].0 == name@);
                }
                return Some(&self.entries[k].data);
            }
            proof {
                assert(self@.skip(k as int)[0] == self@[k as int]);
                assert(self@.skip(k as int).drop_first() =~= self@.skip(k as int + 1));
            }
            k += 1;
        }
        proof {
            assert(self@.skip(k as int) =~= Seq::<(Seq<u8>, Seq<u8>)>::empty());
        }
        None
    }
}

} // verus!
