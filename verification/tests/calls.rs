use enclave_usercalls::error::ErrorKind;
use enclave_usercalls::memory::{alloc_request, alloc_result, free_request};
use enclave_usercalls::misc::{async_queues, insecure_time, resume_address, Greg};
use enclave_usercalls::net::{address_or_error, parse_address, Connected};
use enclave_usercalls::state::EnclaveState;
use enclave_usercalls::stdio::{read_alloc_end, Direction, READ_ALLOC_LEN};

type Enclave = EnclaveState<(), &'static str, &'static str>;

fn enclave() -> Enclave {
    EnclaveState::library(vec![], "in", "out", "err")
}

fn text(s: &str) -> String {
    s.to_string()
}

#[test]
fn addresses_are_strings() {
    assert_eq!(parse_address(b"example.com:123"), Ok("example.com:123"));
    assert_eq!(parse_address(b""), Ok(""));
    assert_eq!(parse_address("\u{e9}\u{20ac}".as_bytes()), Ok("\u{e9}\u{20ac}"));
    assert_eq!(parse_address(&[0xff]), Err(ErrorKind::ConnectionRefused));
    assert_eq!(parse_address(&[b'a', 0xc3]), Err(ErrorKind::ConnectionRefused));
    assert_eq!(parse_address(&[0xed, 0xa0, 0x80]), Err(ErrorKind::ConnectionRefused));
}

#[test]
fn told_addresses_parse() {
    let mut enclave = enclave();
    let told = enclave.accept_stream_end("s", Some(text("[2001:db8::1]:123")), None);
    assert_eq!(parse_address(&told.local_addr.unwrap()), Ok("[2001:db8::1]:123"));
}

#[test]
fn unknown_addresses() {
    let known: Result<String, ()> = Ok(text("a:1"));
    assert_eq!(address_or_error(known), "a:1");
    let unknown: Result<String, ()> = Err(());
    assert_eq!(address_or_error(unknown), "error");
}

#[test]
fn bound_sockets_listen() {
    let mut enclave = enclave();
    let bound: Result<Connected, u8> = enclave.bind_stream_end("l", Some(Ok(text("0.0.0.0:80"))));
    assert_eq!(
        bound,
        Ok(Connected { fd: 3, local_addr: Some(b"0.0.0.0:80".to_vec()), peer_addr: None })
    );
    assert_eq!(enclave.lookup_listener(3), Ok(&"l"));
    let bound: Result<Connected, u8> = enclave.bind_stream_end("m", Some(Err(7)));
    assert_eq!(bound, Err(7));
    assert_eq!(enclave.lookup_fd(4).is_err(), true);
    let bound: Result<Connected, u8> = enclave.bind_stream_end("n", None);
    assert_eq!(bound, Ok(Connected { fd: 4, local_addr: None, peer_addr: None }));
    assert_eq!(enclave.lookup_listener(4), Ok(&"n"));
}

#[test]
fn accepted_connections_are_streams() {
    let mut enclave = enclave();
    let accepted = enclave.accept_stream_end("s", None, Some(text("peer:2")));
    assert_eq!(
        accepted,
        Connected { fd: 3, local_addr: None, peer_addr: Some(b"peer:2".to_vec()) }
    );
    assert_eq!(enclave.lookup_stream(3), Ok(&"s"));
}

#[test]
fn made_connections_are_streams() {
    let mut enclave = enclave();
    let local: Option<Result<String, u8>> = Some(Err(1));
    let made = enclave.connect_stream_end("s", local, Some(Ok(text("peer:2"))));
    assert_eq!(
        made,
        Connected {
            fd: 3,
            local_addr: Some(b"error".to_vec()),
            peer_addr: Some(b"peer:2".to_vec()),
        }
    );
    let local: Option<Result<String, u8>> = None;
    let made = enclave.connect_stream_end("t", local, None);
    assert_eq!(made, Connected { fd: 4, local_addr: None, peer_addr: None });
    assert_eq!(enclave.lookup_stream(4), Ok(&"t"));
}

#[test]
fn memory_requests() {
    assert_eq!(alloc_request(10, 8), Ok(()));
    assert_eq!(alloc_request(1, 1), Ok(()));
    assert_eq!(alloc_request(0, 8), Err(ErrorKind::InvalidInput));
    assert_eq!(alloc_request(10, 0), Err(ErrorKind::InvalidInput));
    assert_eq!(alloc_request(10, 3), Err(ErrorKind::InvalidInput));
    assert_eq!(alloc_request(isize::MAX as usize, 1), Ok(()));
    assert_eq!(alloc_request(isize::MAX as usize, 2), Err(ErrorKind::InvalidInput));
    assert_eq!(alloc_request(isize::MAX as usize - 1, 2), Ok(()));
    assert_eq!(alloc_request(usize::MAX, 1), Err(ErrorKind::InvalidInput));
    assert_eq!(alloc_request(1, isize::MAX as usize + 1), Err(ErrorKind::InvalidInput));
}

#[test]
fn memory_results() {
    assert_eq!(alloc_result(0), Err(ErrorKind::Other));
    assert_eq!(alloc_result(0x7000), Ok(0x7000));
}

#[test]
fn free_requests() {
    assert_eq!(free_request(10, 8), Ok(true));
    assert_eq!(free_request(0, 8), Ok(false));
    assert_eq!(free_request(0, isize::MAX as usize + 1), Ok(false));
    assert_eq!(free_request(0, 3), Err(ErrorKind::InvalidInput));
    assert_eq!(free_request(10, 0), Err(ErrorKind::InvalidInput));
}

#[test]
fn alloc_and_free_agree() {
    for size in [0, 1, 7, 4096, isize::MAX as usize, usize::MAX] {
        for alignment in [0, 1, 2, 3, 16, 4096, isize::MAX as usize + 1] {
            assert_eq!(
                alloc_request(size, alignment).is_ok(),
                free_request(size, alignment) == Ok(true)
            );
        }
    }
}

#[test]
fn time_in_nanoseconds() {
    assert_eq!(insecure_time(0, 0), 0);
    assert_eq!(insecure_time(1, 5), 1_000_000_005);
    assert_eq!(insecure_time(1_700_000_000, 123_456_789), 1_700_000_000_123_456_789);
    assert_eq!(insecure_time(18_446_744_073, 709_551_615), u64::MAX);
    assert!(insecure_time(1, 999_999_999) < insecure_time(2, 0));
}

#[test]
fn no_async_queues() {
    assert_eq!(async_queues(), Err(ErrorKind::Other));
}

#[test]
fn traps_are_skipped() {
    assert_eq!(resume_address(0x4000, 0xcc), 0x4001);
    assert_eq!(resume_address(0x4000, 0x90), 0x4000);
    assert_eq!(resume_address(i64::MAX, 0x90), i64::MAX);
}

#[test]
fn registers_have_their_place() {
    assert_eq!(Greg::R8.index(), 0);
    assert_eq!(Greg::RIP.index(), libc::REG_RIP as usize);
    assert_eq!(Greg::RBX.index(), libc::REG_RBX as usize);
    assert_eq!(Greg::CR2.index(), libc::REG_CR2 as usize);
}

#[test]
fn standard_streams_go_one_way() {
    assert_eq!(Direction::ReadOnly.check_read(), Ok(()));
    assert_eq!(Direction::ReadOnly.check_write(), Err(ErrorKind::BrokenPipe));
    assert_eq!(Direction::WriteOnly.check_read(), Err(ErrorKind::BrokenPipe));
    assert_eq!(Direction::WriteOnly.check_write(), Ok(()));
}

#[test]
fn read_data_is_cut_to_length() {
    assert_eq!(READ_ALLOC_LEN, 8192);
    assert_eq!(read_alloc_end(b"hello world", 5), b"hello".to_vec());
    assert_eq!(read_alloc_end(b"hello", 5), b"hello".to_vec());
    assert_eq!(read_alloc_end(b"", 0), Vec::<u8>::new());
}
