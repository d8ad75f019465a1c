use sipguard::addr::Ipv4Address;
use sipguard::frame::decode_frame;

fn frame_with_link(src: [u8; 4], payload: &[u8]) -> Vec<u8> {
    let mut f = vec![0u8; 14];
    f[12] = 0x08;
    f[13] = 0x00;
    let mut ip = vec![0u8; 20];
    ip[0] = 0x45;
    ip[12] = src[0];
    ip[13] = src[1];
    ip[14] = src[2];
    ip[15] = src[3];
    f.extend_from_slice(&ip);
    f.extend_from_slice(&[0u8; 8]);
    f.extend_from_slice(payload);
    f
}

fn frame_bare(src: [u8; 4], payload: &[u8]) -> Vec<u8> {
    let mut ip = vec![0u8; 20];
    ip[0] = 0x45;
    ip[12] = src[0];
    ip[13] = src[1];
    ip[14] = src[2];
    ip[15] = src[3];
    ip.extend_from_slice(&[0u8; 8]);
    ip.extend_from_slice(payload);
    ip
}

#[test]
fn short_frames_are_discarded() {
    assert!(decode_frame(&[]).is_none());
    assert!(decode_frame(&[0x45]).is_none());
    assert!(decode_frame(&vec![0x45u8; 19]).is_none());
}

#[test]
fn link_layer_frame_decodes_source_and_payload() {
    let src = [192u8, 168, 1, 100];
    let payload = b"hello sip";
    let f = frame_with_link(src, payload);
    let (ip, data) = decode_frame(&f).expect("frame should decode");
    assert_eq!(ip, Ipv4Address::new(src));
    assert_eq!(data, payload.to_vec());
}

#[test]
fn bare_network_frame_decodes_identically() {
    let src = [10u8, 0, 0, 7];
    let payload = b"hello sip";
    let with_link = decode_frame(&frame_with_link(src, payload)).expect("link frame");
    let bare = decode_frame(&frame_bare(src, payload)).expect("bare frame");
    assert_eq!(with_link.0, bare.0);
    assert_eq!(with_link.1, bare.1);
}

#[test]
fn non_ip_frame_is_discarded() {
    let f = vec![0xFFu8; 60];
    assert!(decode_frame(&f).is_none());
}

#[test]
fn frame_ending_at_the_transport_header_has_an_empty_payload() {
    let src = [10u8, 0, 0, 7];
    let f = frame_bare(src, b"");
    let (ip, data) = decode_frame(&f).expect("frame should decode");
    assert_eq!(ip, Ipv4Address::new(src));
    assert!(data.is_empty());
}

#[test]
fn frame_shorter_than_the_transport_header_is_discarded() {
    let src = [10u8, 0, 0, 7];
    let mut f = frame_bare(src, b"");
    f.pop();
    assert!(decode_frame(&f).is_none());
}

#[test]
fn larger_header_length_shifts_the_payload() {
    let src = [172u8, 16, 5, 9];
    // header length 6 words: one 4-byte options block before the
    // transport header
    let mut ip = vec![0u8; 24];
    ip[0] = 0x46;
    ip[12] = src[0];
    ip[13] = src[1];
    ip[14] = src[2];
    ip[15] = src[3];
    ip.extend_from_slice(&[0u8; 8]);
    ip.extend_from_slice(b"xyz");
    let (addr, data) = decode_frame(&ip).expect("frame should decode");
    assert_eq!(addr, Ipv4Address::new(src));
    assert_eq!(data, b"xyz".to_vec());
}
