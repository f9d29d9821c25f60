//! The run index shared by a whole process.
//!
//! A process keeps its run index in a cell that is written once. Whoever
//! asks first settles the index; everyone after that reads what was settled.
//! The index is worked out while the cell is free, so the one who works it
//! out may use the logger while doing so. A caller who needs the working out
//! to happen once, also when first calls race, holds a lock around them.

use crate::run_index::{log_path, record, text_of, Append, Index};
use once_cell::sync::OnceCell;
use vstd::prelude::*;
use vstd::string::*;

verus! {

/// The extension of a log file where the caller names none.
pub const DEFAULT_EXTENSION: &'static str = "log";

/// The extension that a record is filed under.
pub open spec fn extension_or_default(extension: Option<Seq<char>>) -> Seq<char> {
    match extension {
        Some(e) => e,
        None => "log"@,
    }
}

/// `once_cell::sync::OnceCell`: a cell that is empty at first and, while it
/// is shared, filled at most once and never emptied again.
#[verifier::external_type_specification]
#[verifier::external_body]
#[verifier::reject_recursive_types(T)]
pub struct ExOnceCell<T>(OnceCell<T>);

/// The value of the index that `cell` holds once it is filled. A shared
/// cell is filled at most once, so this is one value for each cell.
pub uninterp spec fn settled(cell: OnceCell<Index>) -> nat;

/// `once_cell::sync::OnceCell::get`: the content of the cell, `None` while
/// the cell is empty or being filled. It never blocks. Not proved here, but
/// taken from the cell's source: what it finds is the one index that the
/// cell holds.
#[verifier::external_body]
fn get<'a>(cell: &'a OnceCell<Index>) -> (r: Option<&'a Index>)
    ensures
        r matches Some(i) ==> i@ == settled(*cell),
{
    cell.get()
}

/// `once_cell::sync::OnceCell::try_insert`: fills an empty cell with `value`
/// and leaves a filled cell as it is; either way it hands out the content of
/// the cell after the call. Not proved here, but taken from the cell's
/// source: that content is the one index that the cell holds. Whether
/// `value` went in is not handed on.
#[verifier::external_body]
fn try_insert<'a>(cell: &'a OnceCell<Index>, value: Index) -> (r: &'a Index)
    ensures
        r@ == settled(*cell),
{
    match cell.try_insert(value) {
        Ok(held) => held,
        Err((held, _)) => held,
    }
}

/// The index that `logger` holds, after settling it with `init` where it
/// holds none yet. `init` runs outside the cell, so it may itself use the
/// logger; where several first calls race, each may run its `init`, and the
/// first to finish settles the index for all.
fn settle<'a, F: FnOnce() -> Index>(logger: &'a OnceCell<Index>, init: F) -> (r: &'a Index)
    requires
        init.requires(()),
    ensures
        r@ == settled(*logger),
{
    match get(logger) {
        Some(held) => held,
        None => {
            let fresh = init();
            try_insert(logger, fresh)
        },
    }
}

/// The run index of the process that shares `logger`. A call that finds no
/// index settles one with `init`; every call returns the settled value,
/// whatever `init` it was given.
pub fn index<F: FnOnce() -> Index>(logger: &OnceCell<Index>, init: F) -> (r: usize)
    requires
        init.requires(()),
    ensures
        r == settled(*logger),
{
    settle(logger, init).index()
}

/// The record that logging `message` under `name` appends, and the file it
/// goes to, in the run of the process that shares `logger`. A call that finds
/// no run index settles one with `init`. Without an `extension` the record
/// goes to the `log` file of that name.
pub fn log<F: FnOnce() -> Index>(
    logger: &OnceCell<Index>,
    init: F,
    name: &str,
    extension: Option<&str>,
    message: &str,
) -> (r: Append)
    requires
        init.requires(()),
    ensures
        r.path@ == log_path(name@, settled(*logger), extension_or_default(text_of(extension))),
        r.bytes@ == record(message.spec_bytes()),
{
    let run = settle(logger, init);
    let extension = match extension {
        Some(e) => e,
        None => DEFAULT_EXTENSION,
    };
    run.write_log(name, extension, message.as_bytes())
}

} // verus!
