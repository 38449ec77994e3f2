//! Hotplug events: which of libusb's notifications reach the guest, and the queue they wait in.

use std::collections::VecDeque;

use vstd::prelude::*;

use crate::backend::{HOTPLUG_ARRIVED, HOTPLUG_LEFT};
use crate::policy::{AllowedUSBDevices, USBDeviceIdentifier};
use crate::types::{Event, Info, UsbDevice};

verus! {

/// A queued event.
pub type Queued = (Event, Info, UsbDevice);

impl Event {
    /// Exactly the arrival flag.
    pub open spec fn arrival() -> Event {
        Event { arrived: true, left: false }
    }

    /// Exactly the departure flag.
    pub open spec fn departure() -> Event {
        Event { arrived: false, left: true }
    }

    /// A device was plugged in.
    pub fn new_arrived() -> (event: Self)
        ensures
            event == Self::arrival(),
    {
        Event { arrived: true, left: false }
    }

    /// A device was unplugged.
    pub fn new_left() -> (event: Self)
        ensures
            event == Self::departure(),
    {
        Event { arrived: false, left: true }
    }
}

/// One call of libusb's hotplug callback.
#[derive(Debug, Clone, Copy)]
pub struct Notification {
    /// The address of the device.
    pub device: usize,
    /// libusb's event code.
    pub event: i32,
    /// Vendor and product, where the device descriptor could be read.
    pub id: Option<USBDeviceIdentifier>,
    pub bus: u8,
    pub address: u8,
}

impl Notification {
    /// The event to queue, where this notification concerns the guest: the device could be read,
    /// the rule permits it, and it arrived or left.
    pub open spec fn accepted(self, allowed: AllowedUSBDevices) -> Option<Queued> {
        match self.id {
            None => None,
            Some(id) => if !allowed.permits(id) {
                None
            } else {
                let info = Info {
                    bus: self.bus,
                    address: self.address,
                    vendor: id.vendor_id,
                    product: id.product_id,
                };
                let device = UsbDevice { device: self.device };
                if self.event == HOTPLUG_ARRIVED {
                    Some((Event::arrival(), info, device))
                } else if self.event == HOTPLUG_LEFT {
                    Some((Event::departure(), info, device))
                } else {
                    None
                }
            },
        }
    }

    /// Decides whether this notification concerns the guest.
    pub fn accept(&self, allowed: &AllowedUSBDevices) -> (event: Option<Queued>)
        ensures
            event == self.accepted(*allowed),
    {
        match self.id {
            None => None,
            Some(id) => {
                if !allowed.is_allowed(&id) {
                    return None;
                }
                let info = Info {
                    bus: self.bus,
                    address: self.address,
                    vendor: id.vendor_id,
                    product: id.product_id,
                };
                let device = UsbDevice { device: self.device };
                if self.event == HOTPLUG_ARRIVED {
                    Some((Event::new_arrived(), info, device))
                } else if self.event == HOTPLUG_LEFT {
                    Some((Event::new_left(), info, device))
                } else {
                    None
                }
            },
        }
    }
}

/// A notification concerns the guest exactly where the device could be read, the rule permits it, and
/// libusb's number for the event is 1, an arrival, or 2, a departure. The event then says which of
/// the two it is, and names the device by libusb's address, its bus and address there, its vendor and
/// its product.
pub proof fn law_event_says_what_happened(n: Notification, allowed: AllowedUSBDevices)
    ensures
        match n.accepted(allowed) {
            None => n.id is None || !allowed.permits(n.id->0) || (n.event != 1 && n.event != 2),
            Some((event, info, device)) => {
                &&& n.id is Some
                &&& allowed.permits(n.id->0)
                &&& event.arrived == (n.event == 1)
                &&& event.left == (n.event == 2)
                &&& event.arrived != event.left
                &&& info.bus == n.bus
                &&& info.address == n.address
                &&& info.vendor == n.id->0.vendor_id
                &&& info.product == n.id->0.product_id
                &&& device.device == n.device
            },
        },
{
}

/// One notification leaves one event in the queue where it concerns the guest, and else none.
pub proof fn law_one_event_for_each_notification(n: Notification, allowed: AllowedUSBDevices)
    ensures
        ({
            let left = waiting(seq![n], allowed);
            let wanted = n.id is Some && allowed.permits(n.id->0) && (n.event == 1 || n.event == 2);
            &&& !wanted ==> left.len() == 0
            &&& wanted ==> left.len() == 1 && n.accepted(allowed) == Some(left[0])
        }),
{
    reveal_with_fuel(waiting, 2);
    assert(seq![n].drop_last() =~= Seq::<Notification>::empty());
}

/// Events that wait for the guest, oldest first.
#[derive(Debug)]
pub struct HotplugQueue {
    events: VecDeque<Queued>,
}

impl View for HotplugQueue {
    type V = Seq<Queued>;

    closed spec fn view(&self) -> Seq<Queued> {
        self.events@
    }
}

impl HotplugQueue {
    /// A queue with nothing in it.
    pub fn new() -> (queue: Self)
        ensures
            queue@ == Seq::<Queued>::empty(),
    {
        HotplugQueue { events: VecDeque::new() }
    }

    /// Takes a notification. The result says whether it was queued; a queued device has to be kept
    /// alive until the guest has it.
    pub fn notify(&mut self, notification: &Notification, allowed: &AllowedUSBDevices) -> (queued:
        bool)
        ensures
            queued == notification.accepted(*allowed) is Some,
            final(self)@ == old(self)@ + waiting(seq![*notification], *allowed),
    {
        proof {
            reveal_with_fuel(waiting, 2);
            assert(seq![*notification].drop_last() =~= Seq::<Notification>::empty());
        }
        match notification.accept(allowed) {
            Some(event) => {
                self.events.push_back(event);
                assert(self@ =~= old(self)@ + waiting(seq![*notification], *allowed));
                true
            },
            None => {
                assert(self@ =~= old(self)@ + waiting(seq![*notification], *allowed));
                false
            },
        }
    }

    /// Hands out all waiting events, oldest first, and leaves the queue empty.
    pub fn poll_events(&mut self) -> (events: Vec<Queued>)
        ensures
            events@ == old(self)@,
            final(self)@ == Seq::<Queued>::empty(),
    {
        let mut out: Vec<Queued> = Vec::new();
        let ghost all = self@;
        while self.events.len() > 0
            invariant
                out@ + self@ == all,
            decreases self@.len(),
        {
            let ghost rest = self@;
            if let Some(event) = self.events.pop_front() {
                out.push(event);
                assert(rest =~= seq![event] + self@);
                assert(out@ + self@ =~= all);
            }
        }
        assert(self@ =~= Seq::<Queued>::empty());
        assert(out@ =~= all);
        out
    }
}

/// What a run of notifications leaves in a queue.
pub open spec fn waiting(
    notifications: Seq<Notification>,
    allowed: AllowedUSBDevices,
) -> Seq<Queued>
    decreases notifications.len(),
{
    if notifications.len() == 0 {
        Seq::empty()
    } else {
        let before = waiting(notifications.drop_last(), allowed);
        match notifications.last().accepted(allowed) {
            Some(event) => before.push(event),
            None => before,
        }
    }
}

/// Notifications that come in one after the other queue up in that order: what a queue holds after
/// two runs of them is what the first run left followed by what the second run left.
pub proof fn law_events_keep_their_order(
    first: Seq<Notification>,
    second: Seq<Notification>,
    allowed: AllowedUSBDevices,
)
    ensures
        waiting(first + second, allowed) == waiting(first, allowed) + waiting(second, allowed),
    decreases second.len(),
{
    if second.len() == 0 {
        assert(first + second =~= first);
        assert(waiting(first, allowed) + waiting(second, allowed) =~= waiting(first, allowed));
    } else {
        law_events_keep_their_order(first, second.drop_last(), allowed);
        assert((first + second).drop_last() =~= first + second.drop_last());
        assert((first + second).last() == second.last());
        assert(waiting(first + second, allowed) =~= waiting(first, allowed) + waiting(
            second,
            allowed,
        ));
    }
}

/// Every queued event is about a device that the rule permits, and it is an arrival or a departure.
pub proof fn law_only_permitted_events(
    notifications: Seq<Notification>,
    allowed: AllowedUSBDevices,
    k: int,
)
    requires
        0 <= k < waiting(notifications, allowed).len(),
    ensures
        ({
            let (event, info, device) = waiting(notifications, allowed)[k];
            &&& allowed.permits(
                USBDeviceIdentifier { vendor_id: info.vendor, product_id: info.product },
            )
            &&& event == Event::arrival() || event == Event::departure()
        }),
    decreases notifications.len(),
{
    let front = notifications.drop_last();
    if k < waiting(front, allowed).len() {
        law_only_permitted_events(front, allowed, k);
    } else {
        let id = notifications.last().id->0;
        assert(id == USBDeviceIdentifier { vendor_id: id.vendor_id, product_id: id.product_id });
    }
}

/// An arrival and a departure are told apart by their flags, of which exactly one is set.
pub proof fn law_events_have_one_flag(arrived: Event, left: Event)
    requires
        call_ensures(Event::new_arrived, (), arrived),
        call_ensures(Event::new_left, (), left),
    ensures
        arrived.arrived && !arrived.left,
        left.left && !left.arrived,
{
}

/// A notification that concerns the guest goes to the end of the queue, and only such a one is kept.
pub proof fn law_notifying_appends(
    queue: &mut HotplugQueue,
    n: Notification,
    allowed: AllowedUSBDevices,
    queued: bool,
)
    requires
        call_ensures(HotplugQueue::notify, (queue, &n, &allowed), queued),
    ensures
        queued <==> n.id is Some && allowed.permits(n.id->0) && (n.event == 1 || n.event == 2),
        !queued ==> final(queue)@ == old(queue)@,
        queued ==> {
            &&& final(queue)@.len() == old(queue)@.len() + 1
            &&& final(queue)@.drop_last() == old(queue)@
            &&& n.accepted(allowed) == Some(final(queue)@.last())
        },
{
    law_event_says_what_happened(n, allowed);
    law_one_event_for_each_notification(n, allowed);
    if queued {
        assert(final(queue)@.drop_last() =~= old(queue)@);
    } else {
        assert(final(queue)@ =~= old(queue)@);
    }
}

} // verus!
