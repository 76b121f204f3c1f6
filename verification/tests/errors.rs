//! Tests of the crate's top-level error type.

use remux::Error;

#[test]
fn io_error_carries_the_underlying_error() {
    let io = std::io::Error::new(std::io::ErrorKind::UnexpectedEof, "transport cut off");
    let err = Error::Io(io);
    match err {
        Error::Io(inner) => {
            assert_eq!(inner.kind(), std::io::ErrorKind::UnexpectedEof);
        },
    }
}
