//! The host's side of the `component:usb` interface: what each call of a guest does to the resource
//! table and what it asks of libusb.

use vstd::prelude::*;
use wasmtime::component::ResourceTable;

use crate::backend::{read_opened, select_devices, DeviceProbe, LibusbBackend, Listing};
#[allow(unused_imports)]
use crate::backend;
use crate::hotplug::{HotplugQueue, Notification, Queued};
#[allow(unused_imports)]
use crate::hotplug;
use crate::policy::AllowedUSBDevices;
#[allow(unused_imports)]
use crate::resources;
use crate::resources::{table_delete, table_get, table_get_mut, table_push, HostResource};
#[allow(unused_imports)]
use crate::transfers;
use crate::transfers::{conclude, plan_transfer, DropAction, TransferPlan, UsbTransfer};
#[allow(unused_imports)]
use crate::types;
use crate::types::{
    DeviceDescriptor, DeviceLocation, Event, Info, LibusbError, TransferOptions, TransferResult,
    TransferSetup, TransferType, UsbDevice, UsbDeviceHandle,
};

verus! {

/// The state of the host for one guest.
pub struct MyState {
    pub table: ResourceTable,
    pub allowed_usbdevices: AllowedUSBDevices,
    pub backend: LibusbBackend,
}

/// A buffer on its way to libusb.
#[derive(Debug)]
pub struct Submission {
    /// The address of libusb's transfer.
    pub transfer: usize,
    pub buffer: Vec<u8>,
}

/// `entries` with each device kept under the index of the same place in `reps`.
pub open spec fn with_devices(
    entries: Map<u32, HostResource>,
    reps: Seq<u32>,
    devices: Seq<UsbDevice>,
) -> Map<u32, HostResource>
    decreases reps.len(),
{
    if reps.len() == 0 {
        entries
    } else {
        with_devices(entries, reps.drop_last(), devices).insert(
            reps.last(),
            HostResource::Device(devices[reps.len() - 1]),
        )
    }
}

/// Each index is free in `entries`, and none occurs twice.
pub open spec fn fresh(entries: Map<u32, HostResource>, reps: Seq<u32>) -> bool {
    &&& reps.no_duplicates()
    &&& forall|i: int| 0 <= i < reps.len() ==> !entries.contains_key(#[trigger] reps[i])
}

impl MyState {
    /// This host's entries in the resource table.
    pub open spec fn entries(&self) -> Map<u32, HostResource> {
        resources::table_entries(self.table)
    }

    /// The indices of the resource table that are taken, by whatever entry.
    pub open spec fn used(&self) -> Set<u32> {
        resources::table_used(self.table)
    }

    /// The resource table has no index left.
    pub open spec fn is_full(&self) -> bool {
        forall|rep: u32| #[trigger] self.used().contains(rep)
    }

    /// None of this host's entries has children, every transfer is well formed, and so is the
    /// backend.
    pub open spec fn wf(&self) -> bool {
        &&& self.backend.wf()
        &&& forall|rep: u32| #[trigger]
            self.entries().contains_key(rep) ==> !resources::table_parents(self.table).contains(
                rep,
            )
        &&& forall|rep: u32| #[trigger]
            self.entries().contains_key(rep) ==> match self.entries()[rep] {
                HostResource::Transfer(transfer) => transfer.wf(),
                _ => true,
            }
    }

    /// `rep` is the index of a device.
    pub open spec fn has_device(&self, rep: u32) -> bool {
        self.entries().contains_key(rep) && self.entries()[rep] is Device
    }

    /// `rep` is the index of an open device.
    pub open spec fn has_handle(&self, rep: u32) -> bool {
        self.entries().contains_key(rep) && self.entries()[rep] is Handle
    }

    /// `rep` is the index of a transfer.
    pub open spec fn has_transfer(&self, rep: u32) -> bool {
        self.entries().contains_key(rep) && self.entries()[rep] is Transfer
    }

    /// The transfer under index `rep`.
    pub open spec fn transfer(&self, rep: u32) -> UsbTransfer {
        self.entries()[rep]->Transfer_0
    }

    /// Since `before` each device got an entry of its own, under the index of the same place in
    /// `reps`; the indices were free, and no others were taken or freed.
    pub open spec fn granted(&self, before: Self, reps: Seq<u32>, devices: Seq<UsbDevice>) -> bool {
        &&& fresh(before.entries(), reps)
        &&& forall|i: int| 0 <= i < reps.len() ==> !before.used().contains(#[trigger] reps[i])
        &&& self.entries() == with_devices(before.entries(), reps, devices)
        &&& self.used() == before.used().union(reps.to_set())
    }

    /// The rule and the backend are those of `other`.
    pub open spec fn same_settings(&self, other: Self) -> bool {
        self.allowed_usbdevices == other.allowed_usbdevices && self.backend == other.backend
    }

    /// The state of a host that has done nothing yet.
    pub fn new(allowed_usbdevices: AllowedUSBDevices) -> (state: Self)
        ensures
            state.wf(),
            state.entries().dom() == Set::<u32>::empty(),
            state.used() == Set::<u32>::empty(),
            state.allowed_usbdevices == allowed_usbdevices,
            state.backend == (LibusbBackend {
                context: None,
                event_loop: false,
                hotplug_enabled: false,
                hotplug_handle: None,
            }),
    {
        MyState { table: ResourceTable::new(), allowed_usbdevices, backend: LibusbBackend::new() }
    }

    // -----------------------------------------------------------------------
    // Looking up
    // -----------------------------------------------------------------------

    /// The device under an index.
    pub fn device(&self, rep: u32) -> (device: Option<UsbDevice>)
        ensures
            self.has_device(rep) ==> device is Some && self.entries()[rep] == HostResource::Device(
                device->0,
            ),
            !self.has_device(rep) ==> device is None,
    {
        match table_get(&self.table, rep) {
            Ok(HostResource::Device(device)) => Some(*device),
            _ => None,
        }
    }

    /// The open device under an index.
    pub fn handle(&self, rep: u32) -> (handle: Option<UsbDeviceHandle>)
        ensures
            self.has_handle(rep) ==> handle is Some && self.entries()[rep] == HostResource::Handle(
                handle->0,
            ),
            !self.has_handle(rep) ==> handle is None,
    {
        match table_get(&self.table, rep) {
            Ok(HostResource::Handle(handle)) => Some(*handle),
            _ => None,
        }
    }

    /// The transfer under an index.
    pub fn find_transfer(&self, rep: u32) -> (transfer: Option<&UsbTransfer>)
        ensures
            transfer == (if self.has_transfer(rep) {
                Some(&self.transfer(rep))
            } else {
                None
            }),
    {
        match table_get(&self.table, rep) {
            Ok(HostResource::Transfer(transfer)) => Some(transfer),
            _ => None,
        }
    }

    fn push(&mut self, entry: HostResource) -> (result: Result<u32, LibusbError>)
        requires
            old(self).wf(),
            entry matches HostResource::Transfer(transfer) ==> transfer.wf(),
        ensures
            final(self).wf(),
            final(self).same_settings(*old(self)),
            match result {
                Ok(rep) => {
                    &&& !old(self).entries().contains_key(rep)
                    &&& !old(self).used().contains(rep)
                    &&& final(self).entries() == old(self).entries().insert(rep, entry)
                    &&& final(self).used() == old(self).used().insert(rep)
                },
                Err(error) => {
                    &&& error == LibusbError::Other
                    &&& old(self).is_full()
                    &&& final(self).entries() == old(self).entries()
                    &&& final(self).used() == old(self).used()
                },
            },
    {
        match table_push(&mut self.table, entry) {
            Ok(rep) => Ok(rep),
            Err(_) => Err(LibusbError::Other),
        }
    }

    fn push_devices(&mut self, devices: &[UsbDevice]) -> (result: Result<Vec<u32>, LibusbError>)
        requires
            old(self).wf(),
        ensures
            final(self).wf(),
            final(self).same_settings(*old(self)),
            match result {
                Ok(reps) => {
                    &&& reps@.len() == devices@.len()
                    &&& final(self).granted(*old(self), reps@, devices@)
                },
                Err(error) => {
                    &&& error == LibusbError::Other
                    &&& final(self).is_full()
                    &&& exists|reps: Seq<u32>|
                        reps.len() < devices@.len() && #[trigger] final(self).granted(
                            *old(self),
                            reps,
                            devices@,
                        )
                },
            },
    {
        let mut reps: Vec<u32> = Vec::new();
        assert(self.used() =~= old(self).used().union(reps@.to_set()));
        let mut i: usize = 0;
        while i < devices.len()
            invariant
                self.wf(),
                self.same_settings(*old(self)),
                i <= devices@.len(),
                reps@.len() == i,
                self.granted(*old(self), reps@, devices@),
            decreases devices@.len() - i,
        {
            let ghost before = reps@;
            match self.push(HostResource::Device(devices[i])) {
                Err(error) => {
                    assert(self.granted(*old(self), before, devices@));
                    return Err(error);
                },
                Ok(rep) => {
                    reps.push(rep);
                    proof {
                        assert(reps@.drop_last() =~= before);
                        lemma_with_devices_keys(old(self).entries(), before, devices@);
                        assert(self.used() =~= old(self).used().union(reps@.to_set())) by {
                            lemma_pushed_set(before, rep);
                        }
                    }
                },
            }
            i += 1;
        }
        Ok(reps)
    }

    // -----------------------------------------------------------------------
    // Devices
    // -----------------------------------------------------------------------

    /// Takes libusb's answer to opening the device under index `rep`; an open device gets an entry
    /// of its own. Where the table has no index left the answer is `Other`.
    pub fn opened(&mut self, rep: u32, rc: i32, handle: usize) -> (result: Result<u32, LibusbError>)
        requires
            old(self).wf(),
            old(self).has_device(rep),
        ensures
            final(self).wf(),
            final(self).same_settings(*old(self)),
            rc < 0 ==> result == Err::<u32, LibusbError>(types::error_of(rc as int)),
            match result {
                Ok(new) => {
                    &&& !old(self).entries().contains_key(new)
                    &&& !old(self).used().contains(new)
                    &&& final(self).entries() == old(self).entries().insert(
                        new,
                        HostResource::Handle(UsbDeviceHandle { handle }),
                    )
                    &&& final(self).used() == old(self).used().insert(new)
                },
                Err(error) => {
                    &&& rc >= 0 ==> error == LibusbError::Other && old(self).is_full()
                    &&& final(self).entries() == old(self).entries()
                    &&& final(self).used() == old(self).used()
                },
            },
    {
        match read_opened(rc, handle) {
            Err(error) => Err(error),
            Ok(handle) => self.push(HostResource::Handle(handle)),
        }
    }

    /// Removes an open device and gives back what has to be closed.
    pub fn drop_handle(&mut self, rep: u32) -> (closed: UsbDeviceHandle)
        requires
            old(self).wf(),
            old(self).has_handle(rep),
        ensures
            final(self).wf(),
            final(self).same_settings(*old(self)),
            old(self).entries()[rep] == HostResource::Handle(closed),
            final(self).entries() == old(self).entries().remove(rep),
            final(self).used() == old(self).used().remove(rep),
    {
        match table_delete(&mut self.table, rep) {
            Ok(HostResource::Handle(handle)) => handle,
            _ => UsbDeviceHandle { handle: 0 },
        }
    }

    /// Lists the devices that the guest may see, each with an entry of its own.
    ///
    /// `count` and `probes` are libusb's answer. Where the table has no index left the answer is
    /// `Other`; the devices listed before that keep their entries.
    pub fn list_devices(&mut self, count: i32, probes: &[DeviceProbe]) -> (result: Result<
        Vec<(u32, DeviceDescriptor, DeviceLocation)>,
        LibusbError,
    >)
        requires
            old(self).wf(),
        ensures
            final(self).wf(),
            final(self).same_settings(*old(self)),
            ({
                let all = backend::listed(probes@, old(self).allowed_usbdevices);
                let devices = all.map_values(|l: Listing| l.0);
                match result {
                    Ok(list) => {
                        let reps = list@.map_values(
                            |l: (u32, DeviceDescriptor, DeviceLocation)| l.0,
                        );
                        &&& count >= 0
                        &&& list@.len() == all.len()
                        &&& forall|i: int|
                            0 <= i < all.len() ==> (#[trigger] list@[i]).1 == all[i].1
                                && list@[i].2 == all[i].2
                        &&& final(self).granted(*old(self), reps, devices)
                    },
                    Err(error) => if count < 0 {
                        &&& error == types::error_of(count as int)
                        &&& final(self).entries() == old(self).entries()
                        &&& final(self).used() == old(self).used()
                    } else {
                        &&& error == LibusbError::Other
                        &&& final(self).is_full()
                        &&& exists|reps: Seq<u32>|
                            reps.len() < all.len() && #[trigger] final(self).granted(
                                *old(self),
                                reps,
                                devices,
                            )
                    },
                }
            }),
    {
        let listings = match select_devices(count, probes, &self.allowed_usbdevices) {
            Err(error) => return Err(error),
            Ok(listings) => listings,
        };
        let ghost all = listings@;
        let mut devices: Vec<UsbDevice> = Vec::new();
        let mut i: usize = 0;
        while i < listings.len()
            invariant
                listings@ == all,
                i <= all.len(),
                devices@ == all.take(i as int).map_values(|l: Listing| l.0),
            decreases all.len() - i,
        {
            devices.push(listings[i].0);
            i += 1;
            assert(devices@ =~= all.take(i as int).map_values(|l: Listing| l.0));
        }
        assert(devices@ =~= all.map_values(|l: Listing| l.0));
        let reps = match self.push_devices(devices.as_slice()) {
            Err(error) => return Err(error),
            Ok(reps) => reps,
        };
        let mut list: Vec<(u32, DeviceDescriptor, DeviceLocation)> = Vec::new();
        let mut k: usize = 0;
        while k < listings.len()
            invariant
                listings@ == all,
                k <= all.len(),
                reps@.len() == all.len(),
                list@.len() == k,
                forall|j: int|
                    0 <= j < k ==> (#[trigger] list@[j]).0 == reps@[j] && list@[j].1 == all[j].1
                        && list@[j].2 == all[j].2,
            decreases all.len() - k,
        {
            let (_, descriptor, location) = listings[k];
            list.push((reps[k], descriptor, location));
            k += 1;
        }
        assert(list@.map_values(|l: (u32, DeviceDescriptor, DeviceLocation)| l.0) =~= reps@);
        Ok(list)
    }

    /// Hands the waiting hotplug events to the guest, each device with an entry of its own.
    ///
    /// Where the table has no index left the answer is `Other`. The queue is empty afterwards
    /// either way.
    pub fn poll_events(&mut self, queue: &mut HotplugQueue) -> (result: Result<
        Vec<(Event, Info, u32)>,
        LibusbError,
    >)
        requires
            old(self).wf(),
        ensures
            final(self).wf(),
            final(self).same_settings(*old(self)),
            final(queue)@ == Seq::<Queued>::empty(),
            ({
                let all = old(queue)@;
                let devices = all.map_values(|q: Queued| q.2);
                match result {
                    Ok(list) => {
                        let reps = list@.map_values(|l: (Event, Info, u32)| l.2);
                        &&& list@.len() == all.len()
                        &&& forall|i: int|
                            0 <= i < all.len() ==> (#[trigger] list@[i]).0 == all[i].0
                                && list@[i].1 == all[i].1
                        &&& final(self).granted(*old(self), reps, devices)
                    },
                    Err(error) => {
                        &&& error == LibusbError::Other
                        &&& final(self).is_full()
                        &&& exists|reps: Seq<u32>|
                            reps.len() < all.len() && #[trigger] final(self).granted(
                                *old(self),
                                reps,
                                devices,
                            )
                    },
                }
            }),
    {
        let events = queue.poll_events();
        let ghost all = events@;
        let mut devices: Vec<UsbDevice> = Vec::new();
        let mut i: usize = 0;
        while i < events.len()
            invariant
                events@ == all,
                i <= all.len(),
                devices@ == all.take(i as int).map_values(|q: Queued| q.2),
            decreases all.len() - i,
        {
            devices.push(events[i].2);
            i += 1;
            assert(devices@ =~= all.take(i as int).map_values(|q: Queued| q.2));
        }
        assert(devices@ =~= all.map_values(|q: Queued| q.2));
        let reps = match self.push_devices(devices.as_slice()) {
            Err(error) => return Err(error),
            Ok(reps) => reps,
        };
        let mut list: Vec<(Event, Info, u32)> = Vec::new();
        let mut k: usize = 0;
        while k < events.len()
            invariant
                events@ == all,
                k <= all.len(),
                reps@.len() == all.len(),
                list@.len() == k,
                forall|j: int|
                    0 <= j < k ==> (#[trigger] list@[j]).0 == all[j].0 && list@[j].1 == all[j].1
                        && list@[j].2 == reps@[j],
            decreases all.len() - k,
        {
            let (event, info, _) = events[k];
            list.push((event, info, reps[k]));
            k += 1;
        }
        assert(list@.map_values(|l: (Event, Info, u32)| l.2) =~= reps@);
        Ok(list)
    }

    // -----------------------------------------------------------------------
    // Transfers
    // -----------------------------------------------------------------------

    /// Works out a new transfer on an open device. The transfer still has to be allocated.
    pub fn new_transfer(
        &self,
        rep: u32,
        kind: TransferType,
        setup: TransferSetup,
        buf_size: u32,
        opts: TransferOptions,
    ) -> (planned: (UsbDeviceHandle, TransferPlan))
        requires
            self.has_handle(rep),
            kind == TransferType::Control ==> buf_size <= u32::MAX - 8,
        ensures
            self.entries()[rep] == HostResource::Handle(planned.0),
            planned.1.realises(kind, setup, buf_size, opts),
            planned.1.wf(),
    {
        let handle = self.handle(rep).unwrap();
        let plan = plan_transfer(kind, setup, buf_size, opts);
        (handle, plan)
    }

    /// Takes libusb's answer to allocating a planned transfer: its address, 0 where there was no
    /// memory. An allocated transfer gets an entry; where the table has no index left the answer
    /// is `Other`.
    pub fn transfer_allocated(&mut self, plan: TransferPlan, address: usize) -> (result: Result<
        u32,
        LibusbError,
    >)
        requires
            old(self).wf(),
            plan.wf(),
        ensures
            final(self).wf(),
            final(self).same_settings(*old(self)),
            address == 0 ==> result == Err::<u32, LibusbError>(LibusbError::NoMem),
            match result {
                Ok(rep) => {
                    &&& !old(self).entries().contains_key(rep)
                    &&& !old(self).used().contains(rep)
                    &&& final(self).used() == old(self).used().insert(rep)
                    &&& final(self).entries() == old(self).entries().insert(
                        rep,
                        HostResource::Transfer(
                            UsbTransfer {
                                transfer: address,
                                transfer_type: plan.transfer_type,
                                endpoint: plan.endpoint,
                                buffer: Some(plan.buffer),
                                buf_len: plan.buf_len,
                                receiver: false,
                                control_setup: Some(plan.setup),
                            },
                        ),
                    )
                },
                Err(error) => {
                    &&& address != 0 ==> error == LibusbError::Other && old(self).is_full()
                    &&& final(self).entries() == old(self).entries()
                    &&& final(self).used() == old(self).used()
                },
            },
    {
        if address == 0 {
            return Err(LibusbError::NoMem);
        }
        self.push(HostResource::Transfer(UsbTransfer::from_plan(plan, address)))
    }

    /// Checks a submission and hands over the filled buffer. `completed` is the transfer's
    /// completion flag as it stands now.
    pub fn submit_transfer(&mut self, rep: u32, completed: bool, data: &[u8]) -> (result: Result<
        Submission,
        LibusbError,
    >)
        requires
            old(self).wf(),
            old(self).has_transfer(rep),
            old(self).transfer(rep).rejection(completed, data@.len()) is None ==> old(
                self,
            ).transfer(rep).buffer is Some,
        ensures
            final(self).wf(),
            final(self).same_settings(*old(self)),
            final(self).used() == old(self).used(),
            match old(self).transfer(rep).rejection(completed, data@.len()) {
                Some(error) => {
                    &&& result == Err::<Submission, LibusbError>(error)
                    &&& final(self).entries() == old(self).entries()
                },
                None => {
                    &&& result is Ok
                    &&& result->Ok_0.transfer == old(self).transfer(rep).transfer
                    &&& result->Ok_0.buffer@ == old(self).transfer(rep).submission(data@)
                    &&& final(self).entries() == old(self).entries().insert(
                        rep,
                        HostResource::Transfer(old(self).transfer(rep).handed_over()),
                    )
                },
            },
            !completed && (if old(self).transfer(rep).transfer_type == 0 {
                old(self).transfer(rep).control_setup->0.bm_request_type >= 0x80
            } else {
                old(self).transfer(rep).endpoint >= 0x80
            }) ==> result is Ok && result->Ok_0.buffer@ == old(self).transfer(rep).buffer->0@,
    {
        let ghost start = self.entries();
        let result = match table_get_mut(&mut self.table, rep) {
            Ok(HostResource::Transfer(transfer)) => {
                let address = transfer.transfer;
                match transfer.submit(completed, data) {
                    Ok(buffer) => Ok(Submission { transfer: address, buffer }),
                    Err(error) => Err(error),
                }
            },
            _ => Err(LibusbError::NotFound),
        };
        assert(result is Err ==> self.entries() =~= start);
        result
    }

    /// Takes libusb's answer to a submission.
    pub fn transfer_submitted(&mut self, rep: u32, rc: i32) -> (result: Result<(), LibusbError>)
        requires
            old(self).wf(),
            old(self).has_transfer(rep),
        ensures
            final(self).wf(),
            final(self).same_settings(*old(self)),
            final(self).used() == old(self).used(),
            result == backend::outcome_of(rc),
            rc < 0 ==> final(self).entries() == old(self).entries(),
            rc >= 0 ==> final(self).entries() == old(self).entries().insert(
                rep,
                HostResource::Transfer(old(self).transfer(rep).with_receiver(true)),
            ),
    {
        let ghost start = self.entries();
        let result = match table_get_mut(&mut self.table, rep) {
            Ok(HostResource::Transfer(transfer)) => transfer.submitted(rc),
            _ => Err(LibusbError::NotFound),
        };
        assert(rc < 0 ==> self.entries() =~= start);
        result
    }

    /// The transfer to cancel; a transfer that has completed is left alone.
    pub fn cancel_transfer(&self, rep: u32, completed: bool) -> (cancelled: Option<usize>)
        requires
            self.has_transfer(rep),
        ensures
            cancelled == (if completed {
                None
            } else {
                Some(self.transfer(rep).transfer)
            }),
    {
        match table_get(&self.table, rep) {
            Ok(HostResource::Transfer(transfer)) => if completed {
                None
            } else {
                Some(transfer.transfer)
            },
            _ => None,
        }
    }

    /// Claims the result channel of a submitted transfer.
    pub fn begin_await(&mut self, rep: u32) -> (result: Result<(), LibusbError>)
        requires
            old(self).wf(),
            old(self).has_transfer(rep),
        ensures
            final(self).wf(),
            final(self).same_settings(*old(self)),
            final(self).used() == old(self).used(),
            result == (if old(self).transfer(rep).receiver {
                Ok::<(), LibusbError>(())
            } else {
                Err::<(), LibusbError>(LibusbError::NotFound)
            }),
            final(self).entries() == old(self).entries().insert(
                rep,
                HostResource::Transfer(old(self).transfer(rep).with_receiver(false)),
            ),
    {
        match table_get_mut(&mut self.table, rep) {
            Ok(HostResource::Transfer(transfer)) => transfer.begin_await(),
            _ => Err(LibusbError::NotFound),
        }
    }

    /// Takes what came out of the result channel (`None` where it was closed without a result) and
    /// the packet results. A transfer that delivered its data leaves the table.
    pub fn finish_await(
        &mut self,
        rep: u32,
        outcome: Option<Result<Vec<u8>, LibusbError>>,
        packets: Option<Vec<(u32, i32)>>,
    ) -> (result: Result<TransferResult, LibusbError>)
        requires
            old(self).wf(),
        ensures
            final(self).wf(),
            final(self).same_settings(*old(self)),
            transfers::concludes(outcome, packets, result),
            result is Ok ==> final(self).entries() == old(self).entries().remove(rep),
            result is Ok && old(self).has_transfer(rep) ==> final(self).used() == old(
                self,
            ).used().remove(rep),
            result is Err ==> final(self).entries() == old(self).entries() && final(self).used()
                == old(self).used(),
    {
        let result = conclude(outcome, packets);
        if result.is_ok() {
            let ghost start = self.entries();
            let _ = table_delete(&mut self.table, rep);
            assert(self.entries() =~= start.remove(rep));
        }
        result
    }

    /// Removes a transfer that the guest drops. Where there still is one, the result is its
    /// address with what has to happen to it; `completed` is its completion flag as it stands now.
    pub fn drop_transfer(&mut self, rep: u32, completed: bool) -> (result: Option<
        (usize, DropAction),
    >)
        requires
            old(self).wf(),
        ensures
            final(self).wf(),
            final(self).same_settings(*old(self)),
            final(self).entries() == old(self).entries().remove(rep),
            old(self).has_transfer(rep) ==> final(self).used() == old(self).used().remove(rep),
            result == (if old(self).has_transfer(rep) {
                Some(
                    (
                        old(self).transfer(rep).transfer,
                        transfers::drop_action_of(completed, old(self).transfer(rep).receiver),
                    ),
                )
            } else {
                None
            }),
    {
        let ghost start = self.entries();
        let result = match table_delete(&mut self.table, rep) {
            Ok(HostResource::Transfer(transfer)) => {
                Some((transfer.transfer, transfer.drop_action(completed)))
            },
            _ => None,
        };
        assert(self.entries() =~= start.remove(rep));
        result
    }
}

/// Devices that get entries are found under their own indices, each under the index of its place, and
/// whatever else was in the table is still there as it was.
pub proof fn law_each_device_under_its_index(
    entries: Map<u32, HostResource>,
    reps: Seq<u32>,
    devices: Seq<UsbDevice>,
)
    requires
        reps.no_duplicates(),
        reps.len() <= devices.len(),
    ensures
        ({
            let after = with_devices(entries, reps, devices);
            &&& forall|i: int|
                0 <= i < reps.len() ==> after.contains_key(#[trigger] reps[i]) && after[reps[i]]
                    == HostResource::Device(devices[i])
            &&& forall|rep: u32|
                !reps.contains(rep) ==> (#[trigger] after.contains_key(rep) <==> entries.contains_key(
                    rep,
                ))
            &&& forall|rep: u32|
                !reps.contains(rep) && entries.contains_key(rep) ==> #[trigger] after[rep]
                    == entries[rep]
        }),
    decreases reps.len(),
{
    lemma_with_devices_keys(entries, reps, devices);
    if reps.len() > 0 {
        let front = reps.drop_last();
        let last = reps.len() - 1;
        law_each_device_under_its_index(entries, front, devices);
        let after = with_devices(entries, reps, devices);
        assert forall|i: int| 0 <= i < reps.len() implies after.contains_key(#[trigger] reps[i])
            && after[reps[i]] == HostResource::Device(devices[i]) by {
            if i < last {
                assert(front[i] == reps[i]);
                assert(reps[i] != reps[last]);
            }
        }
        assert forall|rep: u32|
            !reps.contains(rep) && entries.contains_key(rep) implies #[trigger] after[rep]
            == entries[rep] by {
            assert(reps[last] == reps.last());
            assert(rep != reps.last());
            if front.contains(rep) {
                let i = choose|i: int| 0 <= i < front.len() && front[i] == rep;
                assert(reps[i] == rep);
            }
            assert(with_devices(entries, front, devices)[rep] == entries[rep]);
        }
    }
}

/// An index is found as one thing: what is there as a device is no open device and no transfer, and so
/// on, and what is found is what was kept under the index.
pub proof fn law_one_thing_under_an_index(
    state: MyState,
    rep: u32,
    device: Option<UsbDevice>,
    handle: Option<UsbDeviceHandle>,
    transfer: Option<&UsbTransfer>,
)
    requires
        call_ensures(MyState::device, (&state, rep), device),
        call_ensures(MyState::handle, (&state, rep), handle),
        call_ensures(MyState::find_transfer, (&state, rep), transfer),
    ensures
        device is Some ==> handle is None && transfer is None,
        handle is Some ==> device is None && transfer is None,
        transfer is Some ==> device is None && handle is None,
        device matches Some(d) ==> state.entries().contains_key(rep) && state.entries()[rep]
            == HostResource::Device(d),
        handle matches Some(h) ==> state.entries().contains_key(rep) && state.entries()[rep]
            == HostResource::Handle(h),
        transfer matches Some(t) ==> state.entries().contains_key(rep) && state.entries()[rep]
            == HostResource::Transfer(*t),
        state.entries().contains_key(rep) ==> device is Some || handle is Some || transfer is Some,
        !state.entries().contains_key(rep) ==> device is None && handle is None && transfer is None,
{
}

/// A new transfer is made on the device that was opened under the index, and is what the guest asked
/// for. Cancelling names the transfer under its index, as long as that has not completed.
pub proof fn law_transfer_goes_to_its_device(
    state: MyState,
    rep: u32,
    kind: TransferType,
    setup: TransferSetup,
    buf_size: u32,
    opts: TransferOptions,
    planned: (UsbDeviceHandle, TransferPlan),
    made: u32,
    completed: bool,
    cancelled: Option<usize>,
)
    requires
        call_ensures(MyState::new_transfer, (&state, rep, kind, setup, buf_size, opts), planned),
        call_ensures(MyState::cancel_transfer, (&state, made, completed), cancelled),
    ensures
        state.entries()[rep] == HostResource::Handle(planned.0),
        planned.1.endpoint == opts.endpoint,
        planned.1.buf_len == buf_size,
        planned.1.setup == setup,
        completed ==> cancelled is None,
        !completed ==> cancelled == Some(state.transfer(made).transfer),
{
}

/// Every device in the table is one of `permitted`.
pub open spec fn only_devices(
    entries: Map<u32, HostResource>,
    permitted: spec_fn(UsbDevice) -> bool,
) -> bool {
    forall|rep: u32| #[trigger]
        entries.contains_key(rep) ==> match entries[rep] {
            HostResource::Device(device) => permitted(device),
            _ => true,
        }
}

/// A device that the rule permits: it was read from libusb's list and its kind is permitted.
pub open spec fn is_permitted(
    probes: Seq<DeviceProbe>,
    allowed: AllowedUSBDevices,
    device: UsbDevice,
) -> bool {
    exists|j: int|
        0 <= j < probes.len() && (#[trigger] probes[j]).is_listed(allowed) && probes[j].device
            == device.device
}

/// A guest gets hold of permitted devices only. Listing devices puts none into the table but
/// devices that could be read and that the rule permits.
pub proof fn law_listing_grants_permitted_devices(
    before: Map<u32, HostResource>,
    reps: Seq<u32>,
    probes: Seq<DeviceProbe>,
    allowed: AllowedUSBDevices,
    permitted: spec_fn(UsbDevice) -> bool,
)
    requires
        only_devices(before, permitted),
        reps.len() <= backend::listed(probes, allowed).len(),
        forall|device: UsbDevice|
            is_permitted(probes, allowed, device) ==> #[trigger] permitted(device),
    ensures
        only_devices(
            with_devices(
                before,
                reps,
                backend::listed(probes, allowed).map_values(|l: Listing| l.0),
            ),
            permitted,
        ),
{
    let all = backend::listed(probes, allowed);
    let devices = all.map_values(|l: Listing| l.0);
    backend::law_only_permitted_devices(probes, allowed);
    assert forall|k: int| 0 <= k < devices.len() implies permitted(#[trigger] devices[k]) by {
        let j = choose|j: int|
            0 <= j < probes.len() && (#[trigger] probes[j]).is_listed(allowed)
                && probes[j].listing() == all[k];
        assert(probes[j].device == devices[k].device);
        assert(is_permitted(probes, allowed, devices[k]));
    }
    lemma_only_devices(before, reps, devices, permitted);
}

/// Neither do hotplug events: polling puts none into the table but devices whose notification the
/// rule let through.
pub proof fn law_polling_grants_permitted_devices(
    before: Map<u32, HostResource>,
    reps: Seq<u32>,
    notifications: Seq<Notification>,
    allowed: AllowedUSBDevices,
    permitted: spec_fn(UsbDevice) -> bool,
)
    requires
        only_devices(before, permitted),
        reps.len() <= hotplug::waiting(notifications, allowed).len(),
        forall|k: int|
            0 <= k < notifications.len() && (#[trigger] notifications[k]).accepted(allowed) is Some
                ==> permitted(UsbDevice { device: notifications[k].device }),
    ensures
        only_devices(
            with_devices(
                before,
                reps,
                hotplug::waiting(notifications, allowed).map_values(|q: Queued| q.2),
            ),
            permitted,
        ),
{
    let devices = hotplug::waiting(notifications, allowed).map_values(|q: Queued| q.2);
    lemma_waiting_devices(notifications, allowed, permitted);
    assert forall|k: int| 0 <= k < devices.len() implies permitted(#[trigger] devices[k]) by {
        assert(devices[k] == hotplug::waiting(notifications, allowed)[k].2);
    }
    lemma_only_devices(before, reps, devices, permitted);
}

/// And nothing else does: opening devices and working with transfers puts no device into the table,
/// and removing entries grants nothing.
pub proof fn law_nothing_else_grants_devices(
    before: Map<u32, HostResource>,
    rep: u32,
    entry: HostResource,
    permitted: spec_fn(UsbDevice) -> bool,
)
    requires
        only_devices(before, permitted),
        entry !is Device,
    ensures
        only_devices(before.insert(rep, entry), permitted),
        only_devices(before.remove(rep), permitted),
{
}

proof fn lemma_only_devices(
    before: Map<u32, HostResource>,
    reps: Seq<u32>,
    devices: Seq<UsbDevice>,
    permitted: spec_fn(UsbDevice) -> bool,
)
    requires
        only_devices(before, permitted),
        reps.len() <= devices.len(),
        forall|k: int| 0 <= k < devices.len() ==> permitted(#[trigger] devices[k]),
    ensures
        only_devices(with_devices(before, reps, devices), permitted),
    decreases reps.len(),
{
    if reps.len() > 0 {
        lemma_only_devices(before, reps.drop_last(), devices, permitted);
        assert(permitted(devices[reps.len() - 1]));
    }
}

proof fn lemma_waiting_devices(
    notifications: Seq<Notification>,
    allowed: AllowedUSBDevices,
    permitted: spec_fn(UsbDevice) -> bool,
)
    requires
        forall|k: int|
            0 <= k < notifications.len() && (#[trigger] notifications[k]).accepted(allowed) is Some
                ==> permitted(UsbDevice { device: notifications[k].device }),
    ensures
        forall|i: int|
            0 <= i < hotplug::waiting(notifications, allowed).len() ==> permitted(
                (#[trigger] hotplug::waiting(notifications, allowed)[i]).2,
            ),
    decreases notifications.len(),
{
    if notifications.len() > 0 {
        let front = notifications.drop_last();
        assert forall|k: int|
            0 <= k < front.len() && (#[trigger] front[k]).accepted(allowed) is Some implies permitted(
            UsbDevice { device: front[k].device },
        ) by {
            assert(front[k] == notifications[k]);
        }
        lemma_waiting_devices(front, allowed, permitted);
        let all = hotplug::waiting(notifications, allowed);
        assert forall|i: int| 0 <= i < all.len() implies permitted((#[trigger] all[i]).2) by {
            let before = hotplug::waiting(front, allowed);
            if i < before.len() {
                assert(all[i] == before[i]);
            } else {
                assert(notifications[notifications.len() - 1].accepted(allowed) is Some);
            }
        }
    }
}

/// A transfer that left the table, because its await delivered or because it was dropped, is gone:
/// no operation finds it, and dropping it again changes nothing.
pub proof fn law_gone_is_gone(before: MyState, after: MyState, rep: u32)
    requires
        after.entries() == before.entries().remove(rep),
    ensures
        !after.has_transfer(rep),
        after.entries().remove(rep) == after.entries(),
{
    assert(after.entries().remove(rep) =~= after.entries());
}

proof fn lemma_pushed_set(reps: Seq<u32>, rep: u32)
    ensures
        reps.push(rep).to_set() == reps.to_set().insert(rep),
{
    let after = reps.push(rep);
    assert(after[reps.len() as int] == rep);
    assert forall|r: u32| after.to_set().contains(r) <==> reps.to_set().insert(rep).contains(r) by {
        if reps.contains(r) {
            let i = choose|i: int| 0 <= i < reps.len() && reps[i] == r;
            assert(after[i] == r);
        }
    }
    assert(after.to_set() =~= reps.to_set().insert(rep));
}

proof fn lemma_with_devices_keys(
    entries: Map<u32, HostResource>,
    reps: Seq<u32>,
    devices: Seq<UsbDevice>,
)
    ensures
        forall|rep: u32| #[trigger]
            with_devices(entries, reps, devices).contains_key(rep) <==> entries.contains_key(rep)
                || reps.contains(rep),
    decreases reps.len(),
{
    if reps.len() > 0 {
        let front = reps.drop_last();
        lemma_with_devices_keys(entries, front, devices);
        assert forall|rep: u32| #[trigger]
            with_devices(entries, reps, devices).contains_key(rep) <==> entries.contains_key(rep)
                || reps.contains(rep) by {
            assert(with_devices(entries, front, devices).contains_key(rep)
                <==> entries.contains_key(rep) || front.contains(rep));
            assert(reps =~= front.push(reps.last()));
            assert(reps.contains(rep) <==> front.contains(rep) || rep == reps.last()) by {
                if front.contains(rep) {
                    let i = choose|i: int| 0 <= i < front.len() && front[i] == rep;
                    assert(reps[i] == rep);
                }
                if rep == reps.last() {
                    assert(reps[reps.len() - 1] == rep);
                }
                if reps.contains(rep) && rep != reps.last() {
                    let i = choose|i: int| 0 <= i < reps.len() && reps[i] == rep;
                    assert(front[i] == rep);
                }
            }
        }
    }
}

/// What a guest is told about a device that it may open is what libusb told about the device that it
/// then opens: under the index of each listed device stands the device of one entry of libusb's list,
/// and descriptor, bus, address and port are those of the same entry.
pub proof fn law_listed_index_is_that_device(
    before: MyState,
    after: MyState,
    probes: Seq<DeviceProbe>,
    list: Seq<(u32, DeviceDescriptor, DeviceLocation)>,
    k: int,
)
    requires
        ({
            let all = backend::listed(probes, before.allowed_usbdevices);
            let devices = all.map_values(|l: Listing| l.0);
            let reps = list.map_values(|l: (u32, DeviceDescriptor, DeviceLocation)| l.0);
            &&& list.len() == all.len()
            &&& forall|i: int|
                0 <= i < all.len() ==> (#[trigger] list[i]).1 == all[i].1 && list[i].2 == all[i].2
            &&& after.granted(before, reps, devices)
        }),
        0 <= k < list.len(),
    ensures
        !before.entries().contains_key(list[k].0),
        exists|j: int|
            {
                let p = #[trigger] probes[j];
                let (rep, descriptor, location) = list[k];
                &&& 0 <= j < probes.len()
                &&& after.entries().contains_key(rep)
                &&& after.entries()[rep] == HostResource::Device(UsbDevice { device: p.device })
                &&& Some(descriptor) == p.descriptor
                &&& location.bus_number == p.bus_number
                &&& location.device_address == p.device_address
                &&& location.port_number == p.port_number
                &&& location.speed == types::speed_of(p.speed)
            },
{
    let allowed = before.allowed_usbdevices;
    let all = backend::listed(probes, allowed);
    let devices = all.map_values(|l: Listing| l.0);
    let reps = list.map_values(|l: (u32, DeviceDescriptor, DeviceLocation)| l.0);
    backend::law_listed_devices_are_real(probes, allowed);
    law_each_device_under_its_index(before.entries(), reps, devices);
    assert(reps[k] == list[k].0);
    assert(devices[k] == all[k].0);
    assert(list[k].1 == all[k].1 && list[k].2 == all[k].2);
    let j = choose|j: int|
        0 <= j < probes.len() && backend::stands_for(all[k], #[trigger] probes[j]);
    assert(backend::stands_for(all[k], probes[j]));
    assert(devices[k] == UsbDevice { device: probes[j].device });
}

/// What a guest is told about a hotplug event goes with the device of that event: events come in the
/// order in which they were queued, and under the index that comes with each stands its device.
pub proof fn law_polled_index_is_that_device(
    before: MyState,
    after: MyState,
    queue: Seq<Queued>,
    list: Seq<(Event, Info, u32)>,
    k: int,
)
    requires
        list.len() == queue.len(),
        forall|i: int|
            0 <= i < queue.len() ==> (#[trigger] list[i]).0 == queue[i].0 && list[i].1
                == queue[i].1,
        after.granted(
            before,
            list.map_values(|l: (Event, Info, u32)| l.2),
            queue.map_values(|q: Queued| q.2),
        ),
        0 <= k < list.len(),
    ensures
        ({
            let (event, info, rep) = list[k];
            let (queued_event, queued_info, device) = queue[k];
            &&& event == queued_event
            &&& info == queued_info
            &&& !before.entries().contains_key(rep)
            &&& after.entries().contains_key(rep)
            &&& after.entries()[rep] == HostResource::Device(device)
        }),
{
    let devices = queue.map_values(|q: Queued| q.2);
    let reps = list.map_values(|l: (Event, Info, u32)| l.2);
    law_each_device_under_its_index(before.entries(), reps, devices);
    assert(reps[k] == list[k].2);
    assert(devices[k] == queue[k].2);
    assert(list[k].0 == queue[k].0 && list[k].1 == queue[k].1);
}

/// A device that was opened is kept by the handle that libusb gave, under an index of its own; closing
/// that index gives the handle back and leaves everything else as it was.
pub proof fn law_closing_undoes_opening(
    state: &mut MyState,
    device: u32,
    rc: i32,
    handle: usize,
    rep: u32,
    later: &mut MyState,
    closed: UsbDeviceHandle,
)
    requires
        call_ensures(MyState::opened, (state, device, rc, handle), Ok::<u32, LibusbError>(rep)),
        *old(later) == *final(state),
        call_ensures(MyState::drop_handle, (later, rep), closed),
    ensures
        rc >= 0,
        closed.handle == handle,
        final(later).entries() == old(state).entries(),
        final(later).used() == old(state).used(),
{
    assert(old(later).entries()[rep] == HostResource::Handle(UsbDeviceHandle { handle }));
    assert(final(later).entries() =~= old(state).entries());
    assert(final(later).used() =~= old(state).used());
}

/// Submitting data to a transfer that brings data in succeeds whatever the data, and hands over the
/// buffer of that transfer unchanged, for every type of transfer.
pub proof fn law_submitting_for_incoming_data(
    state: &mut MyState,
    rep: u32,
    data: &[u8],
    result: Result<Submission, LibusbError>,
)
    requires
        old(state).has_transfer(rep),
        old(state).transfer(rep).buffer is Some,
        old(state).transfer(rep).control_setup is Some,
        ({
            let transfer = old(state).transfer(rep);
            let code = transfer.transfer_type;
            ||| code == 0 && transfer.control_setup->0.bm_request_type >= 0x80
            ||| code == 1 && transfer.endpoint >= 0x80
            ||| code == 2 && transfer.endpoint >= 0x80
            ||| code == 3 && transfer.endpoint >= 0x80
        }),
        call_ensures(MyState::submit_transfer, (state, rep, false, data), result),
    ensures
        result is Ok,
        result->Ok_0.transfer == old(state).transfer(rep).transfer,
        result->Ok_0.buffer@ == old(state).transfer(rep).buffer->0@,
{
    transfers::law_incoming_transfer_takes_any_data(old(state).transfer(rep), data@);
}

/// A transfer that is allocated is kept as planned, at libusb's address, under an index of its own;
/// without memory nothing is kept.
pub proof fn law_allocated_transfer_is_kept(
    state: &mut MyState,
    plan: TransferPlan,
    address: usize,
    result: Result<u32, LibusbError>,
)
    requires
        call_ensures(MyState::transfer_allocated, (state, plan, address), result),
    ensures
        address == 0 ==> result == Err::<u32, LibusbError>(LibusbError::NoMem),
        result is Err ==> final(state).entries() == old(state).entries(),
        result matches Ok(rep) ==> {
            let made = final(state).transfer(rep);
            &&& address != 0
            &&& !old(state).entries().contains_key(rep)
            &&& final(state).has_transfer(rep)
            &&& final(state).entries().remove(rep) == old(state).entries()
            &&& made.transfer == address
            &&& made.transfer_type == plan.transfer_type
            &&& made.endpoint == plan.endpoint
            &&& made.buffer == Some(plan.buffer)
            &&& made.buf_len == plan.buf_len
            &&& made.control_setup == Some(plan.setup)
            &&& !made.receiver
        },
{
    if let Ok(rep) = result {
        assert(final(state).entries().remove(rep) =~= old(state).entries());
    }
}

/// A transfer leaves the table where its await delivered data, and stays where the await failed, so
/// that it can still be dropped. No other entry is touched.
pub proof fn law_transfer_leaves_when_it_delivered(
    state: &mut MyState,
    rep: u32,
    outcome: Option<Result<Vec<u8>, LibusbError>>,
    packets: Option<Vec<(u32, i32)>>,
    result: Result<TransferResult, LibusbError>,
    other: u32,
)
    requires
        other != rep,
        call_ensures(MyState::finish_await, (state, rep, outcome, packets), result),
    ensures
        result is Ok <==> outcome is Some && outcome->0 is Ok,
        result is Ok ==> !final(state).entries().contains_key(rep),
        result is Err ==> final(state).entries() == old(state).entries(),
        old(state).entries().contains_key(other) <==> final(state).entries().contains_key(other),
        old(state).entries().contains_key(other) ==> final(state).entries()[other] == old(
            state,
        ).entries()[other],
        result matches Ok(got) ==> outcome == Some(Ok::<Vec<u8>, LibusbError>(got.data)),
{
    transfers::law_await_hands_on_the_outcome(outcome, packets, result);
}

/// Dropping a transfer takes it out of the table and says what is left to do for it: nothing where it
/// has completed, to cancel it where a result is waited for, and else to free it. An index that holds
/// no transfer asks for nothing, and no other entry is touched.
pub proof fn law_dropped_transfer_is_seen_to(
    state: &mut MyState,
    rep: u32,
    completed: bool,
    result: Option<(usize, DropAction)>,
    other: u32,
)
    requires
        other != rep,
        call_ensures(MyState::drop_transfer, (state, rep, completed), result),
    ensures
        !final(state).entries().contains_key(rep),
        result is Some <==> old(state).has_transfer(rep),
        result matches Some((address, action)) ==> {
            let dropped = old(state).transfer(rep);
            &&& address == dropped.transfer
            &&& action == DropAction::Nothing <==> completed
            &&& action == DropAction::Cancel <==> !completed && dropped.receiver
            &&& action == DropAction::Free <==> !completed && !dropped.receiver
        },
        old(state).entries().contains_key(other) <==> final(state).entries().contains_key(other),
        old(state).entries().contains_key(other) ==> final(state).entries()[other] == old(
            state,
        ).entries()[other],
{
}

/// libusb's answer to a submission makes the result of that transfer one to be waited for, or is its
/// error; waiting takes the result once. No other entry is touched.
pub proof fn law_submitted_transfer_is_awaited_once(
    state: &mut MyState,
    rep: u32,
    rc: i32,
    submitted: Result<(), LibusbError>,
    later: &mut MyState,
    awaited: Result<(), LibusbError>,
    other: u32,
)
    requires
        other != rep,
        call_ensures(MyState::transfer_submitted, (state, rep, rc), submitted),
        call_ensures(MyState::begin_await, (later, rep), awaited),
    ensures
        submitted is Ok <==> rc >= 0,
        submitted matches Err(error) ==> error == types::error_of(rc as int),
        rc >= 0 ==> final(state).has_transfer(rep) && final(state).transfer(rep).receiver,
        rc < 0 ==> final(state).entries() == old(state).entries(),
        awaited is Ok <==> old(later).transfer(rep).receiver,
        awaited matches Err(error) ==> error == LibusbError::NotFound,
        final(later).has_transfer(rep) && !final(later).transfer(rep).receiver,
        final(state).entries().contains_key(other) <==> old(state).entries().contains_key(other),
        final(later).entries().contains_key(other) <==> old(later).entries().contains_key(other),
{
}

} // verus!
