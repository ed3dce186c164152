use hc_rtc_demo::id::Id;
use hc_rtc_demo::id::PeerId;
use hc_rtc_demo::msg::DemoMsg;

fn mixed(seed: u8) -> Id {
    let mut bytes = [0u8; 32];
    for (i, b) in bytes.iter_mut().enumerate() {
        *b = seed.wrapping_mul(31).wrapping_add(i as u8);
    }
    Id { bytes }
}

#[test]
fn id_from_slice_takes_thirty_two_bytes() {
    let bytes: Vec<u8> = (0..32u8).collect();
    let id = Id::from_slice(&bytes).unwrap();
    assert_eq!(id.bytes.to_vec(), bytes);
    assert_eq!(Id::from_slice(&bytes[0..31]), None);
    assert_eq!(Id::from_slice(&[0u8; 33]), None);
    assert_eq!(Id::from_slice(&[]), None);
    assert_eq!(Id::from_slice(&[0u8; 32]), Some(Id::zero()));
}

#[test]
fn ids_compare_by_value() {
    let a = mixed(1);
    let mut b = mixed(1);
    assert!(a == b);
    b.bytes[31] ^= 1;
    assert!(a != b);
    let p = PeerId { rem_id: a, rem_pk: a };
    let q = PeerId { rem_id: a, rem_pk: b };
    assert!(p != q);
    assert!(p == PeerId { rem_id: mixed(1), rem_pk: mixed(1) });
}

#[test]
fn parse_refuses_what_is_no_record() {
    assert!(DemoMsg::parse(&[]).is_none());
    assert!(DemoMsg::parse(&[0u8; 63]).is_none());
    assert!(DemoMsg::parse(&[0u8; 65]).is_none());
    assert!(DemoMsg::parse(&[0u8; 127]).is_none());
    assert!(DemoMsg::parse(&[0u8; 129]).is_none());
    assert!(DemoMsg::parse(&[0u8; 64]).is_some());
    assert!(DemoMsg::parse(&[0u8; 128]).is_some());
}

#[test]
fn parse_reads_fields_in_place() {
    let bytes: Vec<u8> = (0..192u32).map(|i| i as u8).collect();
    let msg = DemoMsg::parse(&bytes).unwrap();
    assert_eq!(msg.friendly_name, bytes[0..32].to_vec());
    assert_eq!(msg.shoutout, bytes[32..64].to_vec());
    assert_eq!(msg.peers.len(), 2);
    assert_eq!(msg.peers[0].rem_id.bytes.to_vec(), bytes[64..96].to_vec());
    assert_eq!(msg.peers[0].rem_pk.bytes.to_vec(), bytes[96..128].to_vec());
    assert_eq!(msg.peers[1].rem_id.bytes.to_vec(), bytes[128..160].to_vec());
    assert_eq!(msg.peers[1].rem_pk.bytes.to_vec(), bytes[160..192].to_vec());
}
