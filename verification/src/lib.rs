use vstd::prelude::*;

verus! {

/// The byte that separates path components.
pub const PATH_SEPARATOR: u8 = 47;

/// The file name of the application database, `app.db`, as bytes.
pub open spec fn db_file_name() -> Seq<u8> {
    seq![97u8, 112u8, 112u8, 46u8, 100u8, 98u8]
}

/// What joining a file name onto a base directory yields: the name alone when
/// the base is empty, otherwise the base and the name with exactly one
/// separator between them.
pub open spec fn joined(base: Seq<u8>, name: Seq<u8>) -> Seq<u8> {
    if base.len() == 0 {
        name
    } else if base.last() == PATH_SEPARATOR {
        base + name
    } else {
        base + seq![PATH_SEPARATOR] + name
    }
}

/// A path is absolute when it starts at the root.
pub open spec fn is_absolute_path(p: Seq<u8>) -> bool {
    p.len() > 0 && p[0] == PATH_SEPARATOR
}

/// `p` ends with `suffix`.
pub open spec fn has_suffix(p: Seq<u8>, suffix: Seq<u8>) -> bool {
    p.len() >= suffix.len() && p.subrange(p.len() - suffix.len(), p.len() as int) == suffix
}

/// A file-system path held as its raw bytes, with `/` as the separator.
pub struct FsPath {
    pub bytes: Vec<u8>,
}

impl FsPath {
    pub open spec fn view(&self) -> Seq<u8> {
        self.bytes@
    }

    pub fn new(bytes: Vec<u8>) -> (r: FsPath)
        ensures
            r@ == bytes@,
    {
        FsPath { bytes }
    }

    pub fn as_bytes(&self) -> (r: &Vec<u8>)
        ensures
            r@ == self@,
    {
        &self.bytes
    }

    pub fn is_absolute(&self) -> (r: bool)
        ensures
            r == is_absolute_path(self@),
    {
        self.bytes.len() > 0 && self.bytes[0] == PATH_SEPARATOR
    }

    pub fn ends_with(&self, suffix: &[u8]) -> (r: bool)
        ensures
            r == has_suffix(self@, suffix@),
    {
        let n = self.bytes.len();
        let m = suffix.len();
        if m > n {
            return false;
        }
        let start = n - m;
        let mut i: usize = 0;
        while i < m
            invariant
                m <= n,
                n == self@.len(),
                m == suffix@.len(),
                start == n - m,
                i <= m,
                forall|k: int| 0 <= k < i ==> self@[start + k] == suffix@[k],
            decreases m - i,
        {
            if self.bytes[start + i] != suffix[i] {
                proof {
                    assert(self@.subrange(start as int, n as int)[i as int]
                        == self@[start + i]);
                }
                return false;
            }
            i += 1;
        }
        proof {
            assert(self@.subrange(start as int, n as int) =~= suffix@);
        }
        true
    }

    /// Appends one file name to this path, inserting a separator unless the
    /// path is empty or already ends with one.
    pub fn join(&self, name: &[u8]) -> (r: FsPath)
        ensures
            r@ == joined(self@, name@),
    {
        let n = self.bytes.len();
        let mut out: Vec<u8> = Vec::new();
        let mut i: usize = 0;
        while i < n
            invariant
                i <= n,
                n == self@.len(),
                out@ == self@.take(i as int),
            decreases n - i,
        {
            out.push(self.bytes[i]);
            i += 1;
        }
        proof {
            assert(out@ =~= self@);
        }
        if out.len() > 0 && out[out.len() - 1] != PATH_SEPARATOR {
            out.push(PATH_SEPARATOR);
        }
        let ghost base: Seq<u8> = out@;
        let m = name.len();
        let mut j: usize = 0;
        while j < m
            invariant
                j <= m,
                m == name@.len(),
                out@ == base + name@.take(j as int),
            decreases m - j,
        {
            proof {
                assert(base + name@.take(j + 1) =~= (base + name@.take(j as int)).push(name@[j as int]));
            }
            out.push(name[j]);
            j += 1;
        }
        proof {
            assert(out@ =~= joined(self@, name@));
        }
        FsPath { bytes: out }
    }
}

/// The bytes of the database file name, `app.db`.
pub fn db_file_bytes() -> (r: Vec<u8>)
    ensures
        r@ == db_file_name(),
{
    let mut v: Vec<u8> = Vec::new();
    v.push(97);
    v.push(112);
    v.push(112);
    v.push(46);
    v.push(100);
    v.push(98);
    proof {
        assert(v@ =~= db_file_name());
    }
    v
}

/// Get the database path for a given app data directory.
pub fn get_database_path(app_data_dir: &FsPath) -> (r: FsPath)
    ensures
        r@ == joined(app_data_dir@, db_file_name()),
{
    let name = db_file_bytes();
    app_data_dir.join(name.as_slice())
}

/// Whatever the file name, the joined path ends with that name: the database
/// path computed for any base directory ends with `app.db`.
pub proof fn lemma_joined_has_name_suffix(base: Seq<u8>, name: Seq<u8>)
    ensures
        has_suffix(joined(base, name), name),
{
    let p = joined(base, name);
    assert(p.subrange(p.len() - name.len(), p.len() as int) =~= name);
}

/// The database path is absolute whenever the base directory is absolute.
pub proof fn lemma_joined_keeps_absolute(base: Seq<u8>, name: Seq<u8>)
    requires
        is_absolute_path(base),
    ensures
        is_absolute_path(joined(base, name)),
{
    assert(joined(base, name)[0] == base[0]);
}

} // verus!

