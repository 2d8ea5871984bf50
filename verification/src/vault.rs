//! The vault as the domain sees it: files addressed by vault-relative paths.

use vstd::prelude::*;

use crate::errors::KeysightError;
use crate::text::{append, chars_of, ends_with, ends_with_exec, str_eq, string_of};

verus! {

/// The vault on disk, rooted at `vault_path`.
pub struct RealVaultFs {
    pub vault_path: String,
}

/// The absolute path of a vault-relative path: joined with `/` unless the
/// root already ends with one.
pub open spec fn spec_abs_path(root: Seq<char>, relative: Seq<char>) -> Seq<char> {
    if ends_with(root, "/"@) {
        root + relative
    } else {
        root + "/"@ + relative
    }
}

/// `relative` joined onto `root` as file-system paths join: an absolute
/// `relative` replaces the root, and a `/` is put between the two unless the
/// root is empty or already ends with one.
pub open spec fn spec_join_path(root: Seq<char>, relative: Seq<char>) -> Seq<char> {
    if relative.len() > 0 && relative[0] == '/' {
        relative
    } else if root.len() == 0 || ends_with(root, "/"@) {
        root + relative
    } else {
        root + "/"@ + relative
    }
}

/// Joins two paths as [`spec_join_path`] says.
pub fn join_path(root: &str, relative: &str) -> (r: String)
    ensures
        r@ == spec_join_path(root@, relative@),
{
    let rel = chars_of(relative);
    if rel.len() > 0 && rel[0] == '/' {
        return string_of(rel.as_slice());
    }
    let mut v = chars_of(root);
    if v.len() > 0 && !ends_with_exec(&v, &chars_of("/")) {
        append(&mut v, &chars_of("/"));
    }
    append(&mut v, &rel);
    string_of(v.as_slice())
}

impl RealVaultFs {
    /// The vault rooted at `vault_path`.
    pub fn new(vault_path: String) -> (r: Self)
        ensures
            r.vault_path == vault_path,
    {
        RealVaultFs { vault_path }
    }

    /// The absolute path of a vault-relative path.
    pub fn abs_path(&self, relative: &str) -> (r: String)
        ensures
            r@ == spec_abs_path(self.vault_path@, relative@),
    {
        let mut v = chars_of(self.vault_path.as_str());
        if !ends_with_exec(&v, &chars_of("/")) {
            append(&mut v, &chars_of("/"));
        }
        append(&mut v, &chars_of(relative));
        string_of(v.as_slice())
    }
}

/// The files an in-memory vault holds after the writes `w`, later writes
/// replacing earlier ones.
pub open spec fn files_of(w: Seq<(Seq<char>, Seq<char>)>) -> Map<Seq<char>, Seq<char>>
    decreases w.len(),
{
    if w.len() == 0 {
        Map::empty()
    } else {
        files_of(w.drop_last()).insert(w.last().0, w.last().1)
    }
}

pub open spec fn write_log_views(w: Seq<(String, String)>) -> Seq<(Seq<char>, Seq<char>)> {
    w.map_values(|e: (String, String)| (e.0@, e.1@))
}

/// A vault held in memory, for tests of code that reads and writes files.
pub struct MockVaultFs {
    writes: Vec<(String, String)>,
}

impl MockVaultFs {
    /// The files, by vault-relative path.
    pub closed spec fn files(&self) -> Map<Seq<char>, Seq<char>> {
        files_of(write_log_views(self.writes@))
    }

    /// An empty vault.
    pub fn new() -> (r: Self)
        ensures
            r.files() == Map::<Seq<char>, Seq<char>>::empty(),
    {
        let r = MockVaultFs { writes: Vec::new() };
        assert(write_log_views(r.writes@) =~= Seq::<(Seq<char>, Seq<char>)>::empty());
        r
    }

    /// This vault with the file `path` holding `content`.
    pub fn with_file(self, path: &str, content: &str) -> (r: Self)
        ensures
            r.files() == self.files().insert(path@, content@),
    {
        let mut s = self;
        s.put(path, content);
        s
    }

    fn put(&mut self, path: &str, content: &str)
        ensures
            final(self).files() == old(self).files().insert(path@, content@),
    {
        let ghost before = write_log_views(self.writes@);
        self.writes.push(
            (string_of(chars_of(path).as_slice()), string_of(chars_of(content).as_slice())),
        );
        assert(write_log_views(self.writes@) =~= before.push((path@, content@)));
        assert(write_log_views(self.writes@).drop_last() =~= before);
    }

    /// The content of file `path`, if it exists.
    pub fn get_file(&self, path: &str) -> (r: Option<String>)
        ensures
            r is Some <==> self.files().contains_key(path@),
            r matches Some(c) ==> c@ == self.files()[path@],
    {
        let ghost w = write_log_views(self.writes@);
        let mut i: usize = self.writes.len();
        while i > 0
            invariant
                i <= self.writes.len(),
                w == write_log_views(self.writes@),
                w.len() == self.writes.len(),
                forall|j: int| i <= j < w.len() ==> w[j].0 != path@,
            decreases i,
        {
            assert(w[i - 1] == (self.writes@[i - 1].0@, self.writes@[i - 1].1@));
            if str_eq(self.writes[i - 1].0.as_str(), path) {
                proof {
                    lemma_files_tail_free(w, i as int, path@);
                    assert(w.take(i as int).drop_last() =~= w.take(i - 1));
                }
                return Some(self.writes[i - 1].1.clone());
            }
            i = i - 1;
        }
        proof {
            lemma_files_tail_free(w, 0, path@);
            assert(w.take(0) =~= Seq::<(Seq<char>, Seq<char>)>::empty());
        }
        None
    }

    /// Reads file `path`; `FileError` when it does not exist.
    pub fn read_file(&self, relative_path: &str) -> (r: Result<String, KeysightError>)
        ensures
            r is Ok <==> self.files().contains_key(relative_path@),
            r matches Ok(c) ==> c@ == self.files()[relative_path@],
            r matches Err(e) ==> (e matches KeysightError::FileError(m) && m@ == "文件不存在: "@
                + relative_path@),
    {
        match self.get_file(relative_path) {
            Some(c) => Ok(c),
            None => {
                let mut m = chars_of("文件不存在: ");
                append(&mut m, &chars_of(relative_path));
                Err(KeysightError::FileError(string_of(m.as_slice())))
            },
        }
    }

    /// Writes `content` to file `path`, replacing what it held.
    pub fn write_file(&mut self, relative_path: &str, content: &str) -> (r: Result<(), KeysightError>)
        ensures
            r is Ok,
            final(self).files() == old(self).files().insert(relative_path@, content@),
    {
        self.put(relative_path, content);
        Ok(())
    }
}

/// Writes after index `i` that do not touch `path` leave its entry as the
/// first `i` writes made it.
proof fn lemma_files_tail_free(w: Seq<(Seq<char>, Seq<char>)>, i: int, path: Seq<char>)
    requires
        0 <= i <= w.len(),
        forall|j: int| i <= j < w.len() ==> w[j].0 != path,
    ensures
        files_of(w).contains_key(path) == files_of(w.take(i)).contains_key(path),
        files_of(w).contains_key(path) ==> files_of(w)[path] == files_of(w.take(i))[path],
    decreases w.len(),
{
    if w.len() > i {
        lemma_files_tail_free(w.drop_last(), i, path);
        assert(w.drop_last().take(i) =~= w.take(i));
    } else {
        assert(w.take(i) =~= w);
    }
}

/// Reading a file gives back what the last write to it wrote, and a write
/// leaves every other file as it was.
pub proof fn law_read_after_write(
    files: Map<Seq<char>, Seq<char>>,
    path: Seq<char>,
    content: Seq<char>,
    other: Seq<char>,
)
    ensures
        files.insert(path, content).contains_key(path),
        files.insert(path, content)[path] == content,
        other != path ==> (files.insert(path, content).contains_key(other) == files.contains_key(
            other,
        )),
        other != path && files.contains_key(other) ==> files.insert(path, content)[other]
            == files[other],
{
}

/// The content of the last of the writes `w` to `path`, if any.
pub open spec fn last_write(w: Seq<(Seq<char>, Seq<char>)>, path: Seq<char>) -> Option<Seq<char>>
    decreases w.len(),
{
    if w.len() == 0 {
        None
    } else if w.last().0 == path {
        Some(w.last().1)
    } else {
        last_write(w.drop_last(), path)
    }
}

/// An in-memory vault made by `new` and then the writes `w` in order (each
/// by `with_file` or `write_file`, `vaults[i + 1]` being `vaults[i]` after
/// write `i`) holds, for each path, the content of the last write to it,
/// and no file that was never written: `get_file` gives exactly that.
pub proof fn law_mock_vault_holds_last_writes(
    vaults: Seq<MockVaultFs>,
    w: Seq<(Seq<char>, Seq<char>)>,
    path: Seq<char>,
)
    requires
        vaults.len() == w.len() + 1,
        vaults[0].files() == Map::<Seq<char>, Seq<char>>::empty(),
        forall|i: int|
            0 <= i < w.len() ==> #[trigger] vaults[i + 1].files() == vaults[i].files().insert(
                w[i].0,
                w[i].1,
            ),
    ensures
        vaults.last().files() == files_of(w),
        vaults.last().files().contains_key(path) <==> last_write(w, path) is Some,
        last_write(w, path) matches Some(c) ==> vaults.last().files()[path] == c,
    decreases w.len(),
{
    if w.len() > 0 {
        let n = w.len() - 1;
        let pv = vaults.drop_last();
        let pw = w.drop_last();
        assert forall|i: int| 0 <= i < pw.len() implies #[trigger] pv[i + 1].files()
            == pv[i].files().insert(pw[i].0, pw[i].1) by {
            assert(pv[i + 1] == vaults[i + 1] && pv[i] == vaults[i] && pw[i] == w[i]);
        }
        law_mock_vault_holds_last_writes(pv, pw, path);
        assert(pv.last() == vaults[n]);
        assert(vaults.last() == vaults[n + 1]);
    }
}

} // verus!
