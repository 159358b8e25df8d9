use rkvm::io_error::ErrorKind;
use rkvm::message::{message_length, prepare_buffer, seal_frame, start_frame};

#[test]
fn a_header_comes_before_the_message() {
    let mut buffer = vec![9, 9, 9];
    start_frame(&mut buffer);
    assert_eq!(buffer, vec![0, 0]);
    buffer.extend_from_slice(&[7; 300]);
    seal_frame(&mut buffer).unwrap();
    assert_eq!(&buffer[..2], &300u16.to_be_bytes());
    assert_eq!(message_length(buffer[0], buffer[1]), 300);
    assert_eq!(&buffer[2..], &[7; 300]);
}

#[test]
fn an_empty_message_has_a_header_too() {
    let mut buffer = Vec::new();
    start_frame(&mut buffer);
    seal_frame(&mut buffer).unwrap();
    assert_eq!(buffer, vec![0, 0]);
}

#[test]
fn a_message_of_the_greatest_length_fits() {
    let mut buffer = vec![0; 2 + 65535];
    seal_frame(&mut buffer).unwrap();
    assert_eq!(&buffer[..2], &[255, 255]);
    assert_eq!(message_length(255, 255), 65535);
}

#[test]
fn a_message_that_is_too_long_is_refused() {
    let mut buffer = vec![1; 2 + 65536];
    let err = seal_frame(&mut buffer).unwrap_err();
    assert_eq!(err.kind, ErrorKind::InvalidInput);
    assert_eq!(err.message, "Data too large");
    assert_eq!(buffer, vec![1; 2 + 65536]);
}

#[test]
fn buffers_are_made_to_fit() {
    let mut buffer = vec![1, 2, 3];
    prepare_buffer(&mut buffer, 5);
    assert_eq!(buffer, vec![1, 2, 3, 0, 0]);
    prepare_buffer(&mut buffer, 2);
    assert_eq!(buffer, vec![1, 2]);
}
