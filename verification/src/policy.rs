//! Which devices a guest may see.

use vstd::prelude::*;

use crate::text;

verus! {

/// A kind of device, by its vendor and product numbers.
#[derive(Debug, Clone, Copy, PartialEq, Eq, Structural)]
pub struct USBDeviceIdentifier {
    pub vendor_id: u16,
    pub product_id: u16,
}

/// What a text says as a device identifier: two hexadecimal numbers of at most sixteen bits with
/// one colon between them.
pub open spec fn identifier_of(s: Seq<char>) -> Result<USBDeviceIdentifier, Seq<char>> {
    let colon = text::first_at(s, ':');
    let vendor = s.take(colon);
    let product = s.skip(colon + 1);
    if colon == s.len() || product.contains(':') {
        Err("Invalid format. Expected vendor_id:product_id"@)
    } else {
        match text::unsigned_value(vendor, 16, 0xffff) {
            Err(_) => Err("Invalid vendor_id"@),
            Ok(v) => match text::unsigned_value(product, 16, 0xffff) {
                Err(_) => Err("Invalid product_id"@),
                Ok(p) => Ok(USBDeviceIdentifier { vendor_id: v as u16, product_id: p as u16 }),
            },
        }
    }
}

/// An identifier is a vendor before the colon and a product behind it, both hexadecimal, with no
/// other colon. What is wrong is told by the message: the form, the vendor or the product, in this
/// order.
pub proof fn law_vendor_comes_first(vendor: Seq<char>, product: Seq<char>)
    requires
        !vendor.contains(':'),
    ensures
        ({
            let v = text::unsigned_value(vendor, 16, 0xffff);
            let p = text::unsigned_value(product, 16, 0xffff);
            let read = identifier_of(vendor + seq![':'] + product);
            &&& read matches Ok(id) ==> {
                &&& !product.contains(':')
                &&& v == Ok::<nat, text::ParseFailure>(id.vendor_id as nat)
                &&& p == Ok::<nat, text::ParseFailure>(id.product_id as nat)
            }
            &&& read is Ok <==> !product.contains(':') && v is Ok && p is Ok
            &&& product.contains(':') ==> read == Err::<USBDeviceIdentifier, Seq<char>>(
                "Invalid format. Expected vendor_id:product_id"@,
            )
            &&& !product.contains(':') && v is Err ==> read == Err::<
                USBDeviceIdentifier,
                Seq<char>,
            >("Invalid vendor_id"@)
            &&& !product.contains(':') && v is Ok && p is Err ==> read == Err::<
                USBDeviceIdentifier,
                Seq<char>,
            >("Invalid product_id"@)
        }),
        identifier_of(vendor) == Err::<USBDeviceIdentifier, Seq<char>>(
            "Invalid format. Expected vendor_id:product_id"@,
        ),
{
    text::law_first_at_splits(vendor, ':', product);
    text::law_first_at_misses(vendor, ':');
    text::lemma_unsigned_fits(vendor, 16, 0xffff);
    text::lemma_unsigned_fits(product, 16, 0xffff);
}

impl USBDeviceIdentifier {
    /// Reads `vendor_id:product_id`.
    pub fn from_str(s: &str) -> (result: Result<Self, &'static str>)
        ensures
            match result {
                Ok(id) => identifier_of(s@) == Ok::<USBDeviceIdentifier, Seq<char>>(id),
                Err(message) => identifier_of(s@) == Err::<USBDeviceIdentifier, Seq<char>>(
                    message@,
                ),
            },
    {
        let chars = text::chars_of(s);
        let all = chars.as_slice();
        assert(all@.skip(0) =~= all@);
        let colon = text::find_char(all, ':', 0);
        if colon == all.len() {
            return Err("Invalid format. Expected vendor_id:product_id");
        }
        let ghost product = s@.skip(colon + 1);
        let second = text::find_char(all, ':', colon + 1);
        if second < all.len() {
            assert(product[second - colon - 1] == ':');
            return Err("Invalid format. Expected vendor_id:product_id");
        }
        assert(!product.contains(':')) by {
            assert forall|j: int| 0 <= j < product.len() implies product[j] != ':' by {
                assert(product[j] == all@[colon + 1 + j]);
            }
        }
        let vendor_text = vstd::slice::slice_subrange(all, 0, colon);
        let product_text = vstd::slice::slice_subrange(all, colon + 1, all.len());
        assert(vendor_text@ =~= s@.take(colon as int));
        assert(product_text@ =~= product);
        match text::parse_unsigned(vendor_text, 16, 0xffff) {
            Err(_) => Err("Invalid vendor_id"),
            Ok(vendor) => match text::parse_unsigned(product_text, 16, 0xffff) {
                Err(_) => Err("Invalid product_id"),
                Ok(product) => Ok(
                    USBDeviceIdentifier { vendor_id: vendor as u16, product_id: product as u16 },
                ),
            },
        }
    }
}

/// A guest's view of the bus: every device, only the listed ones, or all but the listed ones.
#[derive(Debug)]
pub enum AllowedUSBDevices {
    All,
    Allowed(Vec<USBDeviceIdentifier>),
    Denied(Vec<USBDeviceIdentifier>),
}

impl AllowedUSBDevices {
    /// The rule permits `device`.
    pub open spec fn permits(&self, device: USBDeviceIdentifier) -> bool {
        match self {
            AllowedUSBDevices::All => true,
            AllowedUSBDevices::Allowed(devices) => devices@.contains(device),
            AllowedUSBDevices::Denied(devices) => !devices@.contains(device),
        }
    }

    /// Two rules list the same devices under the same heading.
    pub open spec fn same_rule(&self, other: Self) -> bool {
        match (self, other) {
            (AllowedUSBDevices::All, AllowedUSBDevices::All) => true,
            (AllowedUSBDevices::Allowed(a), AllowedUSBDevices::Allowed(b)) => a@ == b@,
            (AllowedUSBDevices::Denied(a), AllowedUSBDevices::Denied(b)) => a@ == b@,
            _ => false,
        }
    }

    /// The rule that a list of devices stands for: an allow-list where one is asked for, otherwise
    /// a deny-list.
    pub fn from_list(devices: Vec<USBDeviceIdentifier>, use_allow_list: bool) -> (rule: Self)
        ensures
            rule == (if use_allow_list {
                AllowedUSBDevices::Allowed(devices)
            } else {
                AllowedUSBDevices::Denied(devices)
            }),
    {
        if use_allow_list {
            AllowedUSBDevices::Allowed(devices)
        } else {
            AllowedUSBDevices::Denied(devices)
        }
    }

    /// Whether the rule permits `device`.
    pub fn is_allowed(&self, device: &USBDeviceIdentifier) -> (yes: bool)
        ensures
            yes == self.permits(*device),
    {
        match self {
            AllowedUSBDevices::All => true,
            AllowedUSBDevices::Allowed(devices) => lists(devices.as_slice(), device),
            AllowedUSBDevices::Denied(devices) => !lists(devices.as_slice(), device),
        }
    }

    /// A second copy of the rule.
    pub fn duplicate(&self) -> (copy: Self)
        ensures
            copy.same_rule(*self),
    {
        match self {
            AllowedUSBDevices::All => AllowedUSBDevices::All,
            AllowedUSBDevices::Allowed(devices) => AllowedUSBDevices::Allowed(devices.clone()),
            AllowedUSBDevices::Denied(devices) => AllowedUSBDevices::Denied(devices.clone()),
        }
    }
}

fn lists(devices: &[USBDeviceIdentifier], device: &USBDeviceIdentifier) -> (found: bool)
    ensures
        found == devices@.contains(*device),
{
    let mut i: usize = 0;
    while i < devices.len()
        invariant
            i <= devices@.len(),
            forall|j: int| 0 <= j < i ==> devices@[j] != *device,
        decreases devices@.len() - i,
    {
        if devices[i] == *device {
            return true;
        }
        i += 1;
    }
    false
}

/// The same list read as an allow-list and as a deny-list splits all devices: each is permitted by
/// exactly one of the two.
pub proof fn law_allow_and_deny_split(
    devices: Vec<USBDeviceIdentifier>,
    device: USBDeviceIdentifier,
)
    ensures
        AllowedUSBDevices::Allowed(devices).permits(device) != AllowedUSBDevices::Denied(
            devices,
        ).permits(device),
{
}

/// A rule goes by vendor and product, both of them: an allow-list permits a device exactly where it
/// holds an entry with the same two numbers, a deny-list exactly where it holds none. Without a list
/// every device is permitted.
pub proof fn law_rule_goes_by_vendor_and_product(
    devices: Vec<USBDeviceIdentifier>,
    device: USBDeviceIdentifier,
)
    ensures
        ({
            let held = exists|i: int|
                0 <= i < devices@.len() && (#[trigger] devices@[i]).vendor_id == device.vendor_id
                    && devices@[i].product_id == device.product_id;
            &&& AllowedUSBDevices::Allowed(devices).permits(device) <==> held
            &&& AllowedUSBDevices::Denied(devices).permits(device) <==> !held
            &&& AllowedUSBDevices::All.permits(device)
        }),
{
    if devices@.contains(device) {
        let i = choose|i: int| 0 <= i < devices@.len() && devices@[i] == device;
        assert(devices@[i].vendor_id == device.vendor_id);
    }
    if exists|i: int|
        0 <= i < devices@.len() && (#[trigger] devices@[i]).vendor_id == device.vendor_id
            && devices@[i].product_id == device.product_id {
        let i = choose|i: int|
            0 <= i < devices@.len() && (#[trigger] devices@[i]).vendor_id == device.vendor_id
                && devices@[i].product_id == device.product_id;
        assert(devices@[i] == device);
    }
}

/// An empty allow-list permits nothing, an empty deny-list everything.
pub proof fn law_empty_lists(devices: Vec<USBDeviceIdentifier>, device: USBDeviceIdentifier)
    requires
        devices@.len() == 0,
    ensures
        !AllowedUSBDevices::Allowed(devices).permits(device),
        AllowedUSBDevices::Denied(devices).permits(device),
{
}

/// Two rules that list the same devices permit the same devices.
pub proof fn law_same_rule_permits_same(
    a: AllowedUSBDevices,
    b: AllowedUSBDevices,
    device: USBDeviceIdentifier,
)
    requires
        a.same_rule(b),
    ensures
        a.permits(device) == b.permits(device),
{
}

/// A list read as an allow-list permits exactly its devices, and as a deny-list all others.
pub proof fn law_lists_are_rules(
    devices: Vec<USBDeviceIdentifier>,
    use_allow_list: bool,
    rule: AllowedUSBDevices,
    device: USBDeviceIdentifier,
)
    requires
        call_ensures(AllowedUSBDevices::from_list, (devices, use_allow_list), rule),
    ensures
        rule.permits(device) <==> devices@.contains(device) == use_allow_list,
{
}

} // verus!
