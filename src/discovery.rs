//! Picking the power supply among the serial ports of the machine.
//!
//! The caller lists the ports; for each it hands over the USB vendor id, if
//! the port is a USB port, and gets back which ports belong to a supply.
use vstd::prelude::*;
use crate::error::PsuError;

verus! {

/// USB vendor id of the supplies' serial bridge.
pub const VENDOR_ID: u16 = 0x0416;

/// A port whose USB vendor id is the supplies'.
pub open spec fn is_supply(vendor_id: Option<u16>) -> bool {
    vendor_id == Some(VENDOR_ID)
}

/// The positions in `ids` of the ports that belong to a supply, in order.
pub open spec fn supply_indices(ids: Seq<Option<u16>>) -> Seq<usize>
    decreases ids.len(),
{
    if ids.len() == 0 {
        Seq::empty()
    } else if is_supply(ids.last()) {
        supply_indices(ids.drop_last()).push((ids.len() - 1) as usize)
    } else {
        supply_indices(ids.drop_last())
    }
}

/// The positions of the ports that belong to a supply, given each port's USB
/// vendor id (`None` for a port that is not on USB), in order.
pub fn supply_ports(vendor_ids: &[Option<u16>]) -> (r: Vec<usize>)
    ensures
        r@ == supply_indices(vendor_ids@),
{
    let mut r: Vec<usize> = Vec::new();
    let mut i: usize = 0;
    while i < vendor_ids.len()
        invariant
            0 <= i <= vendor_ids@.len(),
            r@ == supply_indices(vendor_ids@.take(i as int)),
        decreases vendor_ids@.len() - i,
    {
        proof {
            assert(vendor_ids@.take(i as int + 1).drop_last() =~= vendor_ids@.take(i as int));
        }
        if vendor_ids[i] == Some(VENDOR_ID) {
            r.push(i);
        }
        i = i + 1;
    }
    assert(vendor_ids@.take(vendor_ids@.len() as int) =~= vendor_ids@);
    r
}

/// The position of the one port that belongs to a supply. Where none does,
/// or more than one does, there is no telling which unit is meant, and the
/// choice fails.
pub fn select_supply(vendor_ids: &[Option<u16>]) -> (r: Result<usize, PsuError>)
    ensures
        supply_indices(vendor_ids@).len() == 0 ==> r == Err::<usize, PsuError>(
            PsuError::NoDevice,
        ),
        supply_indices(vendor_ids@).len() == 1 ==> r == Ok::<usize, PsuError>(
            supply_indices(vendor_ids@)[0],
        ),
        supply_indices(vendor_ids@).len() > 1 ==> r == Err::<usize, PsuError>(
            PsuError::MultipleDevices,
        ),
{
    let found = supply_ports(vendor_ids);
    if found.len() == 0 {
        Err(PsuError::NoDevice)
    } else if found.len() == 1 {
        Ok(found[0])
    } else {
        Err(PsuError::MultipleDevices)
    }
}

} // verus!
