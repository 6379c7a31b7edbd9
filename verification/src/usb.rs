//! Decision logic of the USB-serial adapter bring-up.
//!
//! The adapter itself is driven over USB control and bulk transfers, which
//! an embedder performs; this module holds what the driver decides: whether
//! a device descriptor matches the adapter, which bulk endpoints to claim,
//! and the fixed sequence of vendor control transfers that initializes the
//! chip and programs its line settings.

use vstd::prelude::*;

verus! {

/// Vendor requests of the adapter's control protocol.
#[derive(Clone, Copy, Debug, PartialEq, Eq, Structural)]
#[allow(non_camel_case_types)]
pub enum Ch341Req {
    CH341_CMD_R,
    CH341_CMD_W,
    CH341_CMD_C1,
    CH341_CMD_C2,
    CH341_CMD_C3,
}

/// The request byte of a vendor request.
pub open spec fn spec_req_code(r: Ch341Req) -> u8 {
    match r {
        Ch341Req::CH341_CMD_R => 0x95,
        Ch341Req::CH341_CMD_W => 0x9A,
        Ch341Req::CH341_CMD_C1 => 0xA1,
        Ch341Req::CH341_CMD_C2 => 0xA4,
        Ch341Req::CH341_CMD_C3 => 0x5F,
    }
}

impl Ch341Req {
    /// The request byte sent in the control setup packet.
    pub fn code(&self) -> (r: u8)
        ensures
            r == spec_req_code(*self),
    {
        match self {
            Ch341Req::CH341_CMD_R => 0x95,
            Ch341Req::CH341_CMD_W => 0x9A,
            Ch341Req::CH341_CMD_C1 => 0xA1,
            Ch341Req::CH341_CMD_C2 => 0xA4,
            Ch341Req::CH341_CMD_C3 => 0x5F,
        }
    }
}

/// Whether a device descriptor matches the adapter: the expected vendor and
/// product identifiers on a communication-class device.
pub fn matches_adapter(vendor_id: u16, product_id: u16, comm_class: bool) -> (r: bool)
    ensures
        r == (vendor_id == 0x1A86 && product_id == 0x7523 && comm_class),
{
    vendor_id == 0x1A86 && product_id == 0x7523 && comm_class
}

/// One step of the initialization sequence: a vendor control transfer.
#[derive(Clone, Copy, Debug, PartialEq, Eq, Structural)]
pub struct CtrlStep {
    /// The vendor request to issue.
    pub req: Ch341Req,
    /// The setup packet's value field.
    pub value: u16,
    /// The setup packet's index field.
    pub index: u16,
    /// Whether the transfer reads from the device (two bytes) rather than
    /// writing an empty payload.
    pub read: bool,
}

/// The fixed vendor-control sequence that initializes the adapter and
/// programs its line settings.
pub open spec fn init_sequence_spec() -> Seq<CtrlStep> {
    seq![
        CtrlStep { req: Ch341Req::CH341_CMD_C3, value: 0, index: 0, read: true },
        CtrlStep { req: Ch341Req::CH341_CMD_C1, value: 0, index: 0, read: false },
        CtrlStep { req: Ch341Req::CH341_CMD_W, value: 0x1312, index: 0xD982, read: false },
        CtrlStep { req: Ch341Req::CH341_CMD_W, value: 0x0F2C, index: 0x0007, read: false },
        CtrlStep { req: Ch341Req::CH341_CMD_R, value: 0x2518, index: 0, read: true },
        CtrlStep { req: Ch341Req::CH341_CMD_R, value: 0, index: 0x0706, read: true },
        CtrlStep { req: Ch341Req::CH341_CMD_W, value: 0x2727, index: 0, read: false },
        CtrlStep { req: Ch341Req::CH341_CMD_C1, value: 0xC39C, index: 0xB282, read: false },
        CtrlStep { req: Ch341Req::CH341_CMD_W, value: 0x0F2C, index: 0x0008, read: false },
        CtrlStep { req: Ch341Req::CH341_CMD_W, value: 0x2727, index: 0x0000, read: false },
        CtrlStep { req: Ch341Req::CH341_CMD_C1, value: 0x2727, index: 0xB282, read: false },
        CtrlStep { req: Ch341Req::CH341_CMD_W, value: 0x0F2C, index: 0x8, read: false },
        CtrlStep { req: Ch341Req::CH341_CMD_W, value: 0x2727, index: 0, read: false },
        CtrlStep { req: Ch341Req::CH341_CMD_C1, value: 0xC39C, index: 0xCC83, read: false },
        CtrlStep { req: Ch341Req::CH341_CMD_W, value: 0x0F2C, index: 7, read: false },
        CtrlStep { req: Ch341Req::CH341_CMD_C2, value: 0x00DF, index: 0, read: false },
        CtrlStep { req: Ch341Req::CH341_CMD_W, value: 0x2727, index: 0, read: false },
        CtrlStep { req: Ch341Req::CH341_CMD_C2, value: 0x009F, index: 0, read: false },
    ]
}

/// Builds the initialization sequence for an embedder to replay as control
/// transfers, in order.
pub fn init_sequence() -> (r: Vec<CtrlStep>)
    ensures
        r@ == init_sequence_spec(),
{
    let mut v: Vec<CtrlStep> = Vec::new();
    v.push(CtrlStep { req: Ch341Req::CH341_CMD_C3, value: 0, index: 0, read: true });
    v.push(CtrlStep { req: Ch341Req::CH341_CMD_C1, value: 0, index: 0, read: false });
    v.push(CtrlStep { req: Ch341Req::CH341_CMD_W, value: 0x1312, index: 0xD982, read: false });
    v.push(CtrlStep { req: Ch341Req::CH341_CMD_W, value: 0x0F2C, index: 0x0007, read: false });
    v.push(CtrlStep { req: Ch341Req::CH341_CMD_R, value: 0x2518, index: 0, read: true });
    v.push(CtrlStep { req: Ch341Req::CH341_CMD_R, value: 0, index: 0x0706, read: true });
    v.push(CtrlStep { req: Ch341Req::CH341_CMD_W, value: 0x2727, index: 0, read: false });
    v.push(CtrlStep { req: Ch341Req::CH341_CMD_C1, value: 0xC39C, index: 0xB282, read: false });
    v.push(CtrlStep { req: Ch341Req::CH341_CMD_W, value: 0x0F2C, index: 0x0008, read: false });
    v.push(CtrlStep { req: Ch341Req::CH341_CMD_W, value: 0x2727, index: 0x0000, read: false });
    v.push(CtrlStep { req: Ch341Req::CH341_CMD_C1, value: 0x2727, index: 0xB282, read: false });
    v.push(CtrlStep { req: Ch341Req::CH341_CMD_W, value: 0x0F2C, index: 0x8, read: false });
    v.push(CtrlStep { req: Ch341Req::CH341_CMD_W, value: 0x2727, index: 0, read: false });
    v.push(CtrlStep { req: Ch341Req::CH341_CMD_C1, value: 0xC39C, index: 0xCC83, read: false });
    v.push(CtrlStep { req: Ch341Req::CH341_CMD_W, value: 0x0F2C, index: 7, read: false });
    v.push(CtrlStep { req: Ch341Req::CH341_CMD_C2, value: 0x00DF, index: 0, read: false });
    v.push(CtrlStep { req: Ch341Req::CH341_CMD_W, value: 0x2727, index: 0, read: false });
    v.push(CtrlStep { req: Ch341Req::CH341_CMD_C2, value: 0x009F, index: 0, read: false });
    proof {
        assert(v@ =~= init_sequence_spec());
    }
    v
}

/// Transfer kind of a USB endpoint, as far as the adapter cares.
#[derive(Clone, Copy, Debug, PartialEq, Eq, Structural)]
pub enum EpKind {
    Bulk,
    Other,
}

/// Direction of a USB endpoint.
#[derive(Clone, Copy, Debug, PartialEq, Eq, Structural)]
pub enum EpDir {
    In,
    Out,
}

/// What the endpoint scan needs of an endpoint descriptor.
#[derive(Clone, Copy, Debug, PartialEq, Eq, Structural)]
pub struct EndpointInfo {
    pub kind: EpKind,
    pub dir: EpDir,
    pub address: u8,
    pub max_packet_size: u16,
}

/// The bulk-in endpoint the scan settles on: the last bulk-in entry, with
/// its maximum packet size.
pub open spec fn last_bulk_in(eps: Seq<EndpointInfo>) -> Option<(u8, u16)>
    decreases eps.len(),
{
    if eps.len() == 0 {
        None
    } else if eps.last().kind == EpKind::Bulk && eps.last().dir == EpDir::In {
        Some((eps.last().address, eps.last().max_packet_size))
    } else {
        last_bulk_in(eps.drop_last())
    }
}

/// The bulk-out endpoint the scan settles on: the last bulk-out entry.
pub open spec fn last_bulk_out(eps: Seq<EndpointInfo>) -> Option<u8>
    decreases eps.len(),
{
    if eps.len() == 0 {
        None
    } else if eps.last().kind == EpKind::Bulk && eps.last().dir == EpDir::Out {
        Some(eps.last().address)
    } else {
        last_bulk_out(eps.drop_last())
    }
}

/// Scans an interface's endpoints for the bulk-in and bulk-out endpoints
/// to claim, keeping the last of each as the adapter bring-up does.
/// Returns the bulk-in address and maximum packet size, and the bulk-out
/// address.
pub fn select_bulk_endpoints(eps: &Vec<EndpointInfo>) -> (r: (Option<(u8, u16)>, Option<u8>))
    ensures
        r.0 == last_bulk_in(eps@),
        r.1 == last_bulk_out(eps@),
{
    let mut in_ep: Option<(u8, u16)> = None;
    let mut out_ep: Option<u8> = None;
    let mut i: usize = 0;
    while i < eps.len()
        invariant
            i <= eps@.len(),
            in_ep == last_bulk_in(eps@.take(i as int)),
            out_ep == last_bulk_out(eps@.take(i as int)),
        decreases eps@.len() - i,
    {
        let ep: EndpointInfo = eps[i];
        proof {
            assert(eps@.take(i as int + 1).drop_last() =~= eps@.take(i as int));
            assert(eps@.take(i as int + 1).last() == eps@[i as int]);
        }
        if ep.kind == EpKind::Bulk && ep.dir == EpDir::In {
            in_ep = Some((ep.address, ep.max_packet_size));
        } else if ep.kind == EpKind::Bulk && ep.dir == EpDir::Out {
            out_ep = Some(ep.address);
        }
        i = i + 1;
    }
    proof {
        assert(eps@.take(eps@.len() as int) =~= eps@);
    }
    (in_ep, out_ep)
}

} // verus!
