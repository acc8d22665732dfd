//! The rules of the store file: when a read text is empty, parsed or to be
//! repaired, when a read must be repeated under the lock, and the names of
//! the temporary and backup files.
use vstd::prelude::*;
use crate::clock::{now_formatted, now_unix_timestamp_nanos};
use crate::store::creds::{auth_only, spec_entry_has_auth, CredsStore};
use crate::text::{
    chars_of, decimal, push_decimal, push_signed_decimal, push_str_chars, signed_decimal,
    string_of, trim,
};

verus! {

/// What to do with the text read from the store file.
#[derive(Debug, Clone, Copy, PartialEq, Eq, Structural)]
pub enum LoadStep {
    /// No file, or a blank one: the store is empty.
    Empty,
    /// The text parsed: that is the store.
    Parsed,
    /// The text did not parse: recover what can be recovered.
    Repair,
    /// The text did not parse and no repair was asked for: fail.
    Invalid,
}

/// The step after reading the store file (`raw` is `None` where there is
/// no file; `parsed_ok` says whether the text parsed as a store).
pub fn load_step(raw: Option<&str>, parsed_ok: bool, repair_invalid: bool) -> (r: LoadStep)
    ensures
        match raw {
            None => r == LoadStep::Empty,
            Some(t) => if trim(t@).len() == 0 {
                r == LoadStep::Empty
            } else if parsed_ok {
                r == LoadStep::Parsed
            } else if repair_invalid {
                r == LoadStep::Repair
            } else {
                r == LoadStep::Invalid
            },
        },
{
    match raw {
        None => LoadStep::Empty,
        Some(t) => if crate::text::is_blank(t) {
            LoadStep::Empty
        } else if parsed_ok {
            LoadStep::Parsed
        } else if repair_invalid {
            LoadStep::Repair
        } else {
            LoadStep::Invalid
        },
    }
}

/// A read without the lock is repeated under the lock when it failed or
/// found entries that cannot log in (the cleaned store is then written).
pub fn read_needs_lock(read_ok: bool, removed: usize) -> (b: bool)
    ensures
        b == (!read_ok || removed > 0),
{
    !read_ok || removed > 0
}

/// The name of the temporary file a store is written through:
/// `<name>.<pid>.<nanos>.tmp`, the name being `ui-creds.json` where the
/// store path has none.
pub open spec fn spec_temp_file_name(file_name: Option<Seq<char>>, pid: nat, nanos: int) -> Seq<char> {
    let name = match file_name {
        Some(n) => n,
        None => "ui-creds.json"@,
    };
    name + seq!['.'] + decimal(pid) + seq!['.'] + signed_decimal(nanos) + ".tmp"@
}

pub open spec fn opt_str_view(o: Option<&str>) -> Option<Seq<char>> {
    match o {
        Some(s) => Some(s@),
        None => None,
    }
}

/// The temporary file name for a process id and a time in nanoseconds.
pub fn temp_file_name_at(file_name: Option<&str>, pid: u32, nanos: i128) -> (r: String)
    ensures
        r@ == spec_temp_file_name(opt_str_view(file_name), pid as nat, nanos as int),
{
    let mut v = match file_name {
        Some(n) => chars_of(n),
        None => chars_of("ui-creds.json"),
    };
    v.push('.');
    push_decimal(&mut v, pid as u128);
    v.push('.');
    push_signed_decimal(&mut v, nanos);
    push_str_chars(&mut v, ".tmp");
    string_of(v.as_slice())
}

/// The temporary file name for a process id, at the current time.
pub fn temp_store_file_name(file_name: Option<&str>, pid: u32) -> (r: String)
    ensures
        exists|t: int| i128::MIN <= t <= i128::MAX && r@ == #[trigger] spec_temp_file_name(opt_str_view(file_name), pid as nat, t),
{
    let nanos = now_unix_timestamp_nanos();
    let r = temp_file_name_at(file_name, pid, nanos);
    assert(r@ == spec_temp_file_name(opt_str_view(file_name), pid as nat, nanos as int));
    r
}

/// The backup of an invalid store file: `<path>.bad.<stamp>.json`.
pub open spec fn spec_backup_path(store_path: Seq<char>, stamp: Seq<char>) -> Seq<char> {
    store_path + ".bad."@ + stamp + ".json"@
}

/// The backup path of an invalid store file for a time stamp.
pub fn backup_path_at(store_path: &str, stamp: &str) -> (r: String)
    ensures
        r@ == spec_backup_path(store_path@, stamp@),
{
    let mut v = chars_of(store_path);
    push_str_chars(&mut v, ".bad.");
    push_str_chars(&mut v, stamp);
    push_str_chars(&mut v, ".json");
    string_of(v.as_slice())
}

/// The time stamp of a backup could not be formatted.
#[derive(Debug, Clone, Copy, PartialEq, Eq, Structural)]
pub enum StampError {
    FormatFailed,
}

/// The `time` format description of a backup's stamp (`YYYYMMDDTHHMMSSZ`).
pub fn backup_stamp_format() -> (r: &'static str)
    ensures
        r@ == "[year][month][day]T[hour][minute][second]Z"@,
{
    "[year][month][day]T[hour][minute][second]Z"
}

/// The backup path of an invalid store file, stamped with the current UTC
/// time formatted by [`backup_stamp_format`]; the stamp is read from the
/// clock, so only its place in the path is stated.
pub fn backup_path(store_path: &str) -> (r: Result<String, StampError>)
    ensures
        r is Ok ==> exists|stamp: Seq<char>| r->Ok_0@ == #[trigger] spec_backup_path(store_path@, stamp),
        r is Err ==> r == Err::<String, StampError>(StampError::FormatFailed),
{
    match now_formatted(backup_stamp_format()) {
        Some(stamp) => {
            let r = backup_path_at(store_path, stamp.as_str());
            assert(r@ == spec_backup_path(store_path@, stamp@));
            Ok(r)
        },
        None => Err(StampError::FormatFailed),
    }
}

/// How an update of the store waits for the store's lock.
#[derive(Debug, Clone, Copy, PartialEq, Eq, Structural)]
pub enum LockMode {
    /// The update must happen: without the lock it fails.
    Required,
    /// The update may be left out: without the lock the store stays as it is.
    Optional,
}

/// What an update does after trying to take the store's lock.
#[derive(Debug, Clone, Copy, PartialEq, Eq, Structural)]
pub enum LockStep {
    /// The lock is held: read, update and write the store.
    Proceed,
    /// Another writer holds the lock: leave the store untouched and succeed.
    Skip,
    /// Another writer holds the lock: fail.
    Fail,
}

/// The step after trying to take the lock: with it, proceed; without it,
/// skip an optional update and fail a required one.
pub fn lock_step(mode: LockMode, acquired: bool) -> (r: LockStep)
    ensures
        acquired ==> r == LockStep::Proceed,
        !acquired && mode == LockMode::Optional ==> r == LockStep::Skip,
        !acquired && mode == LockMode::Required ==> r == LockStep::Fail,
{
    if acquired {
        LockStep::Proceed
    } else {
        match mode {
            LockMode::Optional => LockStep::Skip,
            LockMode::Required => LockStep::Fail,
        }
    }
}


/// A store after an update under the lock: the store to keep, whether the
/// update changed it, whether it must be written back, and the update's
/// value.
pub struct UpdatedStore<T> {
    pub store: CredsStore,
    pub changed: bool,
    pub write: bool,
    pub value: T,
}

/// The middle of an update of the store, once the lock is held and the
/// store loaded (`repaired`: the load had to repair the file): `update`
/// changes the store and says whether it did; then the entries that cannot
/// log in are dropped, and the store is to be written exactly when the
/// update changed it, the load repaired it, or entries were dropped. An
/// error of the update is handed back as it is, with nothing to write.
pub fn apply_update<T, E, F>(store: CredsStore, repaired: bool, update: F) -> (r: Result<UpdatedStore<T>, E>)
    where
        F: FnOnce(CredsStore) -> Result<(CredsStore, T, bool), E>,
    requires
        call_requires(update, (store,)),
    ensures
        r is Ok ==> exists|after: CredsStore|
            #![trigger call_ensures(update, (store,), Ok::<(CredsStore, T, bool), E>((after, r->Ok_0.value, r->Ok_0.changed)))]
            {
                &&& call_ensures(update, (store,), Ok::<(CredsStore, T, bool), E>((after, r->Ok_0.value, r->Ok_0.changed)))
                &&& r->Ok_0.store@ == auth_only(after@)
                &&& r->Ok_0.write == (r->Ok_0.changed || repaired || r->Ok_0.store.ordered().len() < after.ordered().len())
            },
        r is Err ==> call_ensures(update, (store,), Err::<(CredsStore, T, bool), E>(r->Err_0)),
{
    let ghost s0 = store;
    let res = update(store);
    let ghost res0 = res;
    match res {
        Err(e) => Err(e),
        Ok((after, value, changed)) => {
            let ghost a = after;
            let mut kept = after;
            let write = kept.finish_update(changed, repaired);
            let r = Ok::<UpdatedStore<T>, E>(UpdatedStore { store: kept, changed, write, value });
            assert(res0 == Ok::<(CredsStore, T, bool), E>((a, r->Ok_0.value, r->Ok_0.changed)));
            assert(call_ensures(update, (s0,), Ok::<(CredsStore, T, bool), E>((a, r->Ok_0.value, r->Ok_0.changed))));
            r
        },
    }
}

/// An update of the store under its lock (`update_creds_store`), with the
/// outside work handed in: `acquired` says whether the lock was taken,
/// `load` reads the store under it (with whether the file had to be
/// repaired), `update` changes it. Without the lock an optional update is
/// left out (`Ok(None)`, nothing loaded) and a required one fails with
/// `locked`; with it, the store is loaded, updated and cleaned as
/// [`apply_update`] says, and any error of the load or the update is handed
/// back.
pub fn update_creds_store<T, E, L, F>(
    mode: LockMode,
    acquired: bool,
    locked: E,
    load: L,
    update: F,
) -> (r: Result<Option<UpdatedStore<T>>, E>)
    where
        L: FnOnce() -> Result<(CredsStore, bool), E>,
        F: FnOnce(CredsStore) -> Result<(CredsStore, T, bool), E>,
    requires
        call_requires(load, ()),
        forall|s: CredsStore| call_requires(update, (s,)),
    ensures
        !acquired && mode == LockMode::Optional ==> r matches Ok(None),
        !acquired && mode == LockMode::Required ==> (r matches Err(e) && e == locked),
        acquired && r is Ok ==> r->Ok_0 is Some && exists|loaded: CredsStore, repaired: bool, after: CredsStore|
            #![trigger call_ensures(load, (), Ok::<(CredsStore, bool), E>((loaded, repaired))), call_ensures(update, (loaded,), Ok::<(CredsStore, T, bool), E>((after, r->Ok_0->0.value, r->Ok_0->0.changed)))]
            {
                let u = r->Ok_0->0;
                &&& call_ensures(load, (), Ok::<(CredsStore, bool), E>((loaded, repaired)))
                &&& call_ensures(update, (loaded,), Ok::<(CredsStore, T, bool), E>((after, u.value, u.changed)))
                &&& u.store@ == auth_only(after@)
                &&& u.write == (u.changed || repaired || u.store.ordered().len() < after.ordered().len())
            },
        acquired && r is Err ==> {
            ||| call_ensures(load, (), Err::<(CredsStore, bool), E>(r->Err_0))
            ||| exists|loaded: CredsStore, repaired: bool|
                #![trigger call_ensures(load, (), Ok::<(CredsStore, bool), E>((loaded, repaired)))]
                {
                    &&& call_ensures(load, (), Ok::<(CredsStore, bool), E>((loaded, repaired)))
                    &&& call_ensures(update, (loaded,), Err::<(CredsStore, T, bool), E>(r->Err_0))
                }
        },
{
    match lock_step(mode, acquired) {
        LockStep::Skip => Ok(None),
        LockStep::Fail => Err(locked),
        LockStep::Proceed => {
            let loaded = load();
            let ghost loaded0 = loaded;
            match loaded {
                Err(e) => Err(e),
                Ok((store, repaired)) => {
                    let ghost s0 = store;
                    assert(loaded0 == Ok::<(CredsStore, bool), E>((s0, repaired)));
                    match apply_update(store, repaired, update) {
                        Err(e) => Err(e),
                        Ok(u) => {
                            let r = Ok::<Option<UpdatedStore<T>>, E>(Some(u));
                            assert(r->Ok_0->0 == u);
                            r
                        },
                    }
                },
            }
        },
    }
}

} // verus!
