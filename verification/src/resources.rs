//! The host's resource table: wasmtime's `ResourceTable`, holding this host's devices, handles and
//! transfers.

use vstd::prelude::*;
use wasmtime::component::{Resource, ResourceTable, ResourceTableError};

use crate::transfers::UsbTransfer;
use crate::types::{UsbDevice, UsbDeviceHandle};

verus! {

/// wasmtime's table of host resources.
#[verifier::external_type_specification]
#[verifier::external_body]
pub struct ExResourceTable(wasmtime::component::ResourceTable);

/// wasmtime's reasons for refusing a table operation.
#[verifier::external_type_specification]
#[verifier::external_body]
pub struct ExResourceTableError(wasmtime::component::ResourceTableError);

/// What this host keeps in the table.
#[derive(Debug)]
pub enum HostResource {
    Device(UsbDevice),
    Handle(UsbDeviceHandle),
    Transfer(UsbTransfer),
}

/// The entries of type `HostResource` in a table, by the index under which each is kept.
pub uninterp spec fn table_entries(table: ResourceTable) -> Map<u32, HostResource>;

/// The indices of the entries that other entries were made children of.
pub uninterp spec fn table_parents(table: ResourceTable) -> Set<u32>;

/// The indices that are taken, by an entry of whatever type.
pub uninterp spec fn table_used(table: ResourceTable) -> Set<u32>;

/// `ResourceTable::new`: the table has no entries, and no index is taken.
pub assume_specification[ ResourceTable::new ]() -> (table: ResourceTable)
    ensures
        table_entries(table).dom() == Set::<u32>::empty(),
        table_parents(table) == Set::<u32>::empty(),
        table_used(table) == Set::<u32>::empty(),
;

/// `ResourceTable::push`: the entry is kept under an index that was free, without children, and
/// nothing else changes. It fails only where every index is taken, and then the table stays as it
/// was.
#[verifier::external_body]
pub(crate) fn table_push(table: &mut ResourceTable, entry: HostResource) -> (result: Result<
    u32,
    ResourceTableError,
>)
    ensures
        table_parents(*final(table)) == table_parents(*old(table)),
        match result {
            Ok(rep) => {
                &&& !table_entries(*old(table)).contains_key(rep)
                &&& !table_parents(*old(table)).contains(rep)
                &&& !table_used(*old(table)).contains(rep)
                &&& table_used(*final(table)) == table_used(*old(table)).insert(rep)
                &&& table_entries(*final(table)) == table_entries(*old(table)).insert(rep, entry)
            },
            Err(_) => {
                &&& table_entries(*final(table)) == table_entries(*old(table))
                &&& table_used(*final(table)) == table_used(*old(table))
                &&& forall|r: u32| #[trigger] table_used(*old(table)).contains(r)
            },
        },
{
    table.push(entry).map(|resource| resource.rep())
}

/// `ResourceTable::get`: the entry under this index; an error where the index is free or kept by
/// an entry of another type.
#[verifier::external_body]
pub(crate) fn table_get(table: &ResourceTable, rep: u32) -> (result: Result<
    &HostResource,
    ResourceTableError,
>)
    ensures
        match result {
            Ok(entry) => table_entries(*table).contains_key(rep) && *entry == table_entries(
                *table,
            )[rep],
            Err(_) => !table_entries(*table).contains_key(rep),
        },
{
    table.get(&Resource::new_own(rep))
}

/// `ResourceTable::get_mut`: like `get`, to change the entry in place; everything else stays.
#[verifier::external_body]
pub(crate) fn table_get_mut(table: &mut ResourceTable, rep: u32) -> (result: Result<
    &mut HostResource,
    ResourceTableError,
>)
    ensures
        table_parents(*final(table)) == table_parents(*old(table)),
        table_used(*final(table)) == table_used(*old(table)),
        match result {
            Ok(entry) => {
                &&& table_entries(*old(table)).contains_key(rep)
                &&& *entry == table_entries(*old(table))[rep]
                &&& table_entries(*final(table)) == table_entries(*old(table)).insert(
                    rep,
                    *final(entry),
                )
            },
            Err(_) => {
                &&& !table_entries(*old(table)).contains_key(rep)
                &&& table_entries(*final(table)) == table_entries(*old(table))
            },
        },
{
    table.get_mut(&Resource::new_own(rep))
}

/// `ResourceTable::delete`: takes the entry under this index out of the table. Refused where there
/// is no such entry or where it has children, and then no entry of ours goes away. (An entry of
/// another type under this index is removed all the same; no index gains children by it.) The index
/// of an entry that was taken out is free afterwards; no other index becomes free or taken.
#[verifier::external_body]
pub(crate) fn table_delete(table: &mut ResourceTable, rep: u32) -> (result: Result<
    HostResource,
    ResourceTableError,
>)
    ensures
        table_parents(*final(table)).subset_of(table_parents(*old(table))),
        table_used(*final(table)).subset_of(table_used(*old(table))),
        table_used(*old(table)).remove(rep).subset_of(table_used(*final(table))),
        result is Ok <==> table_entries(*old(table)).contains_key(rep) && !table_parents(
            *old(table),
        ).contains(rep),
        match result {
            Ok(entry) => {
                &&& entry == table_entries(*old(table))[rep]
                &&& table_entries(*final(table)) == table_entries(*old(table)).remove(rep)
                &&& !table_used(*final(table)).contains(rep)
            },
            Err(_) => table_entries(*final(table)) == table_entries(*old(table)),
        },
{
    table.delete(Resource::new_own(rep))
}

} // verus!
