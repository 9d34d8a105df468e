use bm_client::message::getdata::GetdataMessage;
use bm_client::message::InventoryVector;
use rand::{Rng, SeedableRng, XorShiftRng};

#[test]
fn test_getdata_message_payload() {
    let mut rng: XorShiftRng = SeedableRng::from_seed([0, 0, 0, 1]);
    let hash1: Vec<u8> = rng.gen_iter::<u8>().take(32).collect();
    let hash2: Vec<u8> = rng.gen_iter::<u8>().take(32).collect();
    let inv_vect1 = InventoryVector::new(&hash1);
    let inv_vect2 = InventoryVector::new(&hash2);

    let inventory: Vec<InventoryVector> = vec![inv_vect1, inv_vect2];
    let message = GetdataMessage::new(inventory);
    let payload = message.payload();

    assert_eq!("getdata".to_string(), message.command());

    let mut expected = vec![2];
    expected.extend(hash1);
    expected.extend(hash2);

    assert_eq!(expected, payload);

    let roundtrip = GetdataMessage::read(payload).unwrap();

    assert_eq!("getdata".to_string(), roundtrip.command());
    assert_eq!(&vec![inv_vect1, inv_vect2], roundtrip.inventory());
}
