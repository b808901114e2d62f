//! The synchronization core, as decision and update functions: session
//! setup, the one-shot scan that seeds the index, the watcher's
//! per-event decision, and the aggregation step that is the index's sole
//! writer. The surrounding process runs the threads and channels and
//! feeds these functions plain values.
use vstd::prelude::*;
use vstd::string::StrSliceExecFns;
use vstd::string::StringExecFns;

use crate::entry::PasswordEntry;
use crate::entry::ends_with_gpg;
use crate::entry::is_entry_of;
use crate::entry::is_under_root;
use crate::entry::to_password;
use crate::entry::under_root;

verus! {

/// The change signal: the shared index changed. It carries no payload;
/// a consumer re-reads the index.
pub enum PasswordEvent {
    NewPassword,
}

/// A session setup failure, surfaced before any background work starts.
#[derive(Debug)]
pub enum WatchError {
    /// The root directory could not be found.
    MissingRoot,
}

/// A filesystem notification beneath the root, reduced to what the
/// watcher decision needs: a created path, or anything else.
pub enum FsEvent {
    Created(String),
    Other,
}

/// `ev` announces a newly created credential file beneath `base`.
pub open spec fn is_new_credential(base: Seq<char>, ev: FsEvent) -> bool {
    &&& ev is Created
    &&& under_root(base, ev->Created_0@)
    &&& ends_with_gpg(ev->Created_0@)
}

/// Session setup decision: an existing root yields a fresh, empty index;
/// a missing root is a setup error and yields nothing.
pub fn init_session(root_exists: bool) -> (r: Result<Vec<PasswordEntry>, WatchError>)
    ensures
        root_exists ==> (r matches Ok(l) && l@ == Seq::<PasswordEntry>::empty()),
        !root_exists ==> (r matches Err(e) && e == WatchError::MissingRoot),
{
    if root_exists {
        Ok(Vec::new())
    } else {
        Err(WatchError::MissingRoot)
    }
}

/// The pattern for the initial walk: every file with the encryption
/// suffix anywhere beneath the root.
pub fn scan_pattern(base: &String) -> (r: String)
    ensures
        r@ == base@ + "/**/*.gpg"@,
{
    let mut r = base.clone();
    r.append("/**/*.gpg");
    r
}

/// The scanner's outcome: exactly one entry per discovered file, in
/// discovery order. An empty list of files yields an empty result, not
/// an error.
pub fn load_entries(base: &String, paths: Vec<String>) -> (r: Vec<PasswordEntry>)
    requires
        forall|i: int| 0 <= i < paths@.len() ==> under_root(base@, #[trigger] paths@[i]@),
    ensures
        r@.len() == paths@.len(),
        forall|i: int| 0 <= i < r@.len() ==> is_entry_of(#[trigger] r@[i], base@, paths@[i]@),
{
    let mut r: Vec<PasswordEntry> = Vec::new();
    let mut rest = paths;
    let ghost all = rest@;
    let mut i: usize = 0;
    let n = rest.len();
    while i < n
        invariant
            rest@ == all,
            n == all.len(),
            i <= n,
            forall|k: int| 0 <= k < all.len() ==> under_root(base@, #[trigger] all[k]@),
            r@.len() == i,
            forall|k: int| 0 <= k < i ==> is_entry_of(#[trigger] r@[k], base@, all[k]@),
        decreases n - i,
    {
        let path = rest[i].clone();
        r.push(to_password(base, path));
        i += 1;
    }
    r
}

/// The watcher's per-event decision: a create event for a credential
/// file beneath the root yields exactly one new entry, built as the
/// scanner builds them; every other event yields none.
pub fn entry_for_event(base: &String, ev: FsEvent) -> (r: Option<PasswordEntry>)
    ensures
        is_new_credential(base@, ev) ==> (r matches Some(e) && is_entry_of(
            e,
            base@,
            ev->Created_0@,
        )),
        !is_new_credential(base@, ev) ==> r is None,
{
    match ev {
        FsEvent::Created(path) => {
            if is_under_root(base.as_str(), path.as_str()) && ends_gpg_path(path.as_str()) {
                Some(to_password(base, path))
            } else {
                None
            }
        },
        FsEvent::Other => None,
    }
}

/// Whether the whole path ends with the encryption suffix.
fn ends_gpg_path(path: &str) -> (r: bool)
    ensures
        r == ends_with_gpg(path@),
{
    let e = crate::entry::ends_gpg_at(path, path.unicode_len());
    proof {
        assert(path@.subrange(0, path@.len() as int) =~= path@);
    }
    e
}

/// The aggregation step, the index's sole write: append one received
/// entry at the end and emit one change signal. Nothing is ever removed
/// or overwritten.
pub fn apply_new_entry(l: &mut Vec<PasswordEntry>, entry: PasswordEntry) -> (ev: PasswordEvent)
    ensures
        final(l)@ == old(l)@.push(entry),
        ev == PasswordEvent::NewPassword,
{
    l.push(entry);
    PasswordEvent::NewPassword
}

/// Law: the index is append-only. An aggregation step removes or moves
/// no existing entry and adds exactly the one it received, at the end.
pub proof fn lemma_index_append_only(
    before: Seq<PasswordEntry>,
    after: Seq<PasswordEntry>,
    entry: PasswordEntry,
)
    requires
        after == before.push(entry),
    ensures
        after.len() == before.len() + 1,
        forall|i: int| 0 <= i < before.len() ==> after[i] == before[i],
        after[before.len() as int] == entry,
{
}

} // verus!
