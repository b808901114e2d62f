//! The entry model: one credential's identity and location, and the
//! derivation of its logical name from its file path.
use vstd::prelude::*;
use vstd::string::StrSliceExecFns;
use vstd::string::StringExecFns;

verus! {

/// One credential's identity and location. The secret payload itself is
/// never stored here; `filename` points at the encrypted file on disk.
pub struct PasswordEntry {
    pub name: String,
    pub meta: String,
    pub filename: String,
}

impl Clone for PasswordEntry {
    fn clone(&self) -> (r: Self)
        ensures
            r == *self,
    {
        PasswordEntry {
            name: self.name.clone(),
            meta: self.meta.clone(),
            filename: self.filename.clone(),
        }
    }
}

/// The filename suffix that marks a file as an encrypted credential.
pub open spec fn gpg_suffix() -> Seq<char> {
    seq!['.', 'g', 'p', 'g']
}

/// `path` lies strictly beneath `base`: it is `base`, then a separator,
/// then at least nothing more.
pub open spec fn under_root(base: Seq<char>, path: Seq<char>) -> bool {
    &&& path.len() > base.len()
    &&& path.subrange(0, base.len() as int) == base
    &&& path[base.len() as int] == '/'
}

/// `path` relative to `base`: the characters after `base` and its
/// trailing separator.
pub open spec fn rel_of(base: Seq<char>, path: Seq<char>) -> Seq<char>
    recommends
        under_root(base, path),
{
    path.subrange(base.len() as int + 1, path.len() as int)
}

/// The last four characters are the encryption suffix.
pub open spec fn ends_with_gpg(s: Seq<char>) -> bool {
    s.len() >= 4 && s.subrange(s.len() - 4, s.len() as int) == gpg_suffix()
}

/// The string with every trailing repetition of the encryption suffix
/// removed.
pub open spec fn trim_gpg(s: Seq<char>) -> Seq<char>
    decreases s.len(),
{
    if ends_with_gpg(s) {
        trim_gpg(s.subrange(0, s.len() - 4))
    } else {
        s
    }
}

/// The logical name of the credential stored at `path` beneath `base`:
/// the relative path with the encryption suffix stripped.
pub open spec fn name_of(base: Seq<char>, path: Seq<char>) -> Seq<char>
    recommends
        under_root(base, path),
{
    trim_gpg(rel_of(base, path))
}

/// `e` is the entry describing the credential file `path` beneath `base`.
pub open spec fn is_entry_of(e: PasswordEntry, base: Seq<char>, path: Seq<char>) -> bool {
    &&& e.name@ == name_of(base, path)
    &&& e.filename@ == path
    &&& e.meta@ == Seq::<char>::empty()
}

/// Whether the first `end` characters of `s` end with the encryption
/// suffix.
pub(crate) fn ends_gpg_at(s: &str, end: usize) -> (r: bool)
    requires
        end <= s@.len(),
    ensures
        r == ends_with_gpg(s@.subrange(0, end as int)),
{
    proof {
        assert(gpg_suffix()[0] == '.');
        assert(gpg_suffix()[1] == 'g');
        assert(gpg_suffix()[2] == 'p');
        assert(gpg_suffix()[3] == 'g');
    }
    if end < 4 {
        return false;
    }
    let r = s.get_char(end - 4) == '.' && s.get_char(end - 3) == 'g' && s.get_char(end - 2) == 'p'
        && s.get_char(end - 1) == 'g';
    proof {
        let pre = s@.subrange(0, end as int);
        let tail = pre.subrange(end - 4, end as int);
        assert(tail.len() == 4);
        assert(tail[0] == s@[end - 4]);
        assert(tail[1] == s@[end - 3]);
        assert(tail[2] == s@[end - 2]);
        assert(tail[3] == s@[end - 1]);
        if r {
            assert(tail =~= gpg_suffix());
        }
    }
    r
}

/// Whether `path` lies strictly beneath `base`.
pub fn is_under_root(base: &str, path: &str) -> (r: bool)
    ensures
        r == under_root(base@, path@),
{
    let bl = base.unicode_len();
    let pl = path.unicode_len();
    if pl <= bl {
        return false;
    }
    let mut i: usize = 0;
    while i < bl
        invariant
            i <= bl,
            forall|j: int| 0 <= j < i ==> base@[j] == path@[j],
        decreases bl - i,
    {
        if base.get_char(i) != path.get_char(i) {
            proof {
                assert(path@.subrange(0, bl as int)[i as int] != base@[i as int]);
            }
            return false;
        }
        i += 1;
    }
    if path.get_char(bl) == '/' {
        proof {
            assert(path@.subrange(0, bl as int) =~= base@);
        }
        true
    } else {
        false
    }
}

/// Derive the logical name from a credential file's path: strip the root
/// prefix and every trailing repetition of the encryption suffix.
pub fn to_name(base: &String, path: &String) -> (r: String)
    requires
        under_root(base@, path@),
    ensures
        r@ == name_of(base@, path@),
{
    let bl = base.as_str().unicode_len();
    let pl = path.as_str().unicode_len();
    let rel = path.as_str().substring_char(bl + 1, pl);
    let mut end = rel.unicode_len();
    proof {
        assert(rel@.subrange(0, rel@.len() as int) =~= rel@);
    }
    while ends_gpg_at(rel, end)
        invariant
            end <= rel@.len(),
            trim_gpg(rel@) == trim_gpg(rel@.subrange(0, end as int)),
        decreases end,
    {
        proof {
            let cur = rel@.subrange(0, end as int);
            assert(cur.subrange(0, cur.len() - 4) =~= rel@.subrange(0, end - 4));
        }
        end = end - 4;
    }
    let trimmed = rel.substring_char(0, end);
    String::from_str(trimmed)
}

/// Build the entry for the credential file at `path` beneath `base`:
/// derived name, empty annotation, the path itself as location.
pub fn to_password(base: &String, path: String) -> (r: PasswordEntry)
    requires
        under_root(base@, path@),
    ensures
        is_entry_of(r, base@, path@),
{
    let name = to_name(base, &path);
    PasswordEntry { name, meta: String::new(), filename: path }
}

/// Law: for a location carrying a single encryption suffix, re-appending
/// the suffix to the derived name reconstructs the path relative to the
/// root.
pub proof fn lemma_name_round_trip(base: Seq<char>, path: Seq<char>)
    requires
        under_root(base, path),
        ends_with_gpg(rel_of(base, path)),
        !ends_with_gpg(rel_of(base, path).subrange(0, rel_of(base, path).len() - 4)),
    ensures
        name_of(base, path) + gpg_suffix() == rel_of(base, path),
{
    let rel = rel_of(base, path);
    let stem = rel.subrange(0, rel.len() - 4);
    assert(trim_gpg(rel) == trim_gpg(stem));
    assert(trim_gpg(stem) == stem);
    assert(stem + gpg_suffix() =~= rel);
}

} // verus!
