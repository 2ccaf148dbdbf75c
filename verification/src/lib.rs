//! Kori: monitoring and control of an NZXT Kraken, verified.
//!
//! The vocabulary a daemon and its window share (what a device can do, what a
//! reading is worth, what a profile contains, what may travel over the local
//! socket) and the decisions the window makes on top of it. Nothing here
//! touches hardware, reads a file, or draws.
//!
//! Values that a sensor reports as a fraction are held as whole thousandths,
//! and what is computed from them as a significand over a power of two; see
//! [`measure::Measured`].

use vstd::prelude::*;

pub mod capability;
pub mod client;
pub mod diagnostics;
pub mod display;
pub mod geometry;
pub mod ipc;
pub mod lighting;
pub mod lists;
pub mod measure;
pub mod paths;
pub mod profile;
pub mod shell;
pub mod startup;
pub mod telemetry;
pub mod text;
pub mod theme;
pub mod window_chrome;

verus! {

/// The product's own name, on the panel and in the window.
pub const PRODUCT_NAME: &'static str = "Kori";

/// Vendor and product identifiers of a USB device.
#[derive(Debug, Clone, Copy, PartialEq, Eq, PartialOrd, Ord, Hash, Structural)]
pub struct DeviceId {
    pub vendor: u16,
    pub product: u16,
}

impl DeviceId {
    pub fn new(vendor: u16, product: u16) -> (id: Self)
        ensures
            id == (Self { vendor, product }),
    {
        Self { vendor, product }
    }

    /// Lowercase hexadecimal `vvvv:pppp`, as `lsusb` prints it.
    pub open spec fn text(self) -> Seq<char> {
        crate::text::hex(self.vendor as nat, 4) + ":"@ + crate::text::hex(self.product as nat, 4)
    }

    /// Lowercase hexadecimal `vvvv:pppp`, as `lsusb` prints it.
    pub fn to_text(self) -> (text: String)
        ensures
            text@ == self.text(),
    {
        let mut text: String = String::new();
        text::push_hex(&mut text, self.vendor, 4);
        text.append(":");
        text::push_hex(&mut text, self.product, 4);
        assert(text@ =~= self.text());
        text
    }
}

/// The Kraken this version is allowed to touch.
pub open spec fn spec_kraken_base() -> DeviceId {
    DeviceId { vendor: 0x1e71, product: 0x300e }
}

/// The RGB controller this version is allowed to touch.
pub open spec fn spec_rgb_controller() -> DeviceId {
    DeviceId { vendor: 0x1e71, product: 0x2021 }
}

/// The Kraken this version is allowed to touch.
#[verifier::when_used_as_spec(spec_kraken_base)]
pub fn kraken_base() -> (id: DeviceId)
    ensures
        id == kraken_base(),
        id.vendor == 0x1e71 && id.product == 0x300e,
{
    DeviceId::new(0x1e71, 0x300e)
}

/// The RGB controller this version is allowed to touch.
#[verifier::when_used_as_spec(spec_rgb_controller)]
pub fn rgb_controller() -> (id: DeviceId)
    ensures
        id == rgb_controller(),
        id.vendor == 0x1e71 && id.product == 0x2021,
{
    DeviceId::new(0x1e71, 0x2021)
}

/// Every device id the product accepts, in probe order.
pub fn allowlist() -> (ids: [DeviceId; 2])
    ensures
        ids@ == seq![kraken_base(), rgb_controller()],
{
    let ids: [DeviceId; 2] = [kraken_base(), rgb_controller()];
    assert(ids@ =~= seq![kraken_base(), rgb_controller()]);
    ids
}

/// Whether a discovered device may be opened at all.
pub fn is_allowlisted(id: DeviceId) -> (allowed: bool)
    ensures
        allowed == seq![kraken_base(), rgb_controller()].contains(id),
        allowed <==> id.vendor == 0x1e71 && (id.product == 0x300e || id.product == 0x2021),
{
    let ids: [DeviceId; 2] = allowlist();
    assert(ids@[0] == kraken_base() && ids@[1] == rgb_controller());
    let allowed: bool = ids[0] == id || ids[1] == id;
    proof {
        let listed = seq![kraken_base(), rgb_controller()];
        if allowed {
            assert(listed[0] == id || listed[1] == id);
        }
    }
    allowed
}

/// The identifiers of two devices are written alike only when they are the
/// same device.
pub proof fn device_text_is_unique(a: DeviceId, b: DeviceId)
    requires
        a.text() == b.text(),
    ensures
        a == b,
{
    let left = a.text();
    let right = b.text();
    text::hex_is_read_back(a.vendor as nat, 4);
    text::hex_is_read_back(a.product as nat, 4);
    text::hex_is_read_back(b.vendor as nat, 4);
    text::hex_is_read_back(b.product as nat, 4);
    reveal_strlit(":");
    assert(left.take(4) =~= text::hex(a.vendor as nat, 4));
    assert(right.take(4) =~= text::hex(b.vendor as nat, 4));
    assert(left.skip(5) =~= text::hex(a.product as nat, 4));
    assert(right.skip(5) =~= text::hex(b.product as nat, 4));
}

/// Two devices are accepted and no other: both are NZXT's, one is the Kraken and
/// one the RGB controller.
pub proof fn two_devices_are_accepted(id: DeviceId)
    ensures
        seq![kraken_base(), rgb_controller()].contains(id) <==> id.vendor == 0x1e71 && (id.product
            == 0x300e || id.product == 0x2021),
{
    let listed = seq![kraken_base(), rgb_controller()];
    if id.vendor == 0x1e71 && id.product == 0x300e {
        assert(listed[0] == id);
    }
    if id.vendor == 0x1e71 && id.product == 0x2021 {
        assert(listed[1] == id);
    }
}

} // verus!
