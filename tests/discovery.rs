use ka3005p::discovery::{select_supply, supply_ports, VENDOR_ID};
use ka3005p::PsuError;

#[test]
fn vendor_id_is_1046() {
    assert_eq!(VENDOR_ID, 1046);
}

#[test]
fn supply_ports_filters_by_vendor() {
    let ids = [None, Some(0x0416), Some(0x1234), Some(0x0416)];
    assert_eq!(supply_ports(&ids), vec![1, 3]);
    assert_eq!(supply_ports(&[]), Vec::<usize>::new());
}

#[test]
fn select_supply_policies() {
    assert_eq!(select_supply(&[]), Err(PsuError::NoDevice));
    assert_eq!(select_supply(&[None, Some(1)]), Err(PsuError::NoDevice));
    assert_eq!(select_supply(&[None, Some(1046)]), Ok(1));
    assert_eq!(
        select_supply(&[Some(1046), None, Some(1046)]),
        Err(PsuError::MultipleDevices)
    );
}
