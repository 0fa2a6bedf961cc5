//! The console side of the machine: every call that touches the host's
//! terminal lives here, each one a small trusted wrapper around one outside
//! operation. Nothing is assumed of the values they carry beyond their types;
//! the interpreter states what holds of every outcome.
use std::io::Write;
use vstd::prelude::*;

verus! {

/// Relies on mio's `Poll` over the standard-input descriptor with a zero
/// timeout: reports whether a key is available right now, without blocking.
#[verifier::external_body]
pub(crate) fn check_key() -> (r: bool) {
    let stdin_fd: i32 = 0;
    let mut poll = mio::Poll::new().unwrap();
    let mut events = mio::Events::with_capacity(8);
    let mut source = mio::unix::SourceFd(&stdin_fd);
    poll.registry().register(&mut source, mio::Token(0), mio::Interest::READABLE).unwrap();
    poll.poll(&mut events, Some(std::time::Duration::from_secs(0))).unwrap();
    !events.is_empty()
}

/// Relies on `std::io::Read::read_exact` on standard input: blocks until one
/// byte arrives and hands it back. A host read failure is fatal, as the
/// machine has no degraded mode without its console.
#[verifier::external_body]
pub(crate) fn read_byte() -> (r: u8) {
    let mut buffer = [0u8; 1];
    std::io::Read::read_exact(&mut std::io::stdin(), &mut buffer).unwrap();
    buffer[0]
}

/// Relies on `std::io::Stdin::read_line`: reads one line and hands back the
/// code of its first character, if the line has one.
#[verifier::external_body]
pub(crate) fn read_line_first_char() -> (r: Option<u32>) {
    let mut input = String::new();
    std::io::stdin().read_line(&mut input).unwrap();
    input.chars().next().map(|c| c as u32)
}

/// Relies on `std::io::Write` on standard output: prints the character whose
/// code is the given byte and flushes. A write failure is fatal, as the
/// machine has no degraded mode without its console.
#[verifier::external_body]
pub(crate) fn put_byte(b: u8) {
    let mut out = std::io::stdout();
    write!(out, "{}", b as char).unwrap();
    std::io::Write::flush(&mut out).unwrap();
}

/// Relies on `std::io::Write` on standard output: prints the character with
/// the given code, if there is one, and flushes. A write failure is fatal.
#[verifier::external_body]
pub(crate) fn put_char_code(code: u32) {
    if let Some(c) = char::from_u32(code) {
        let mut out = std::io::stdout();
        write!(out, "{}", c).unwrap();
        std::io::Write::flush(&mut out).unwrap();
    }
}

/// Relies on `std::io::Write` on standard output: prints the text and
/// flushes. A write failure is fatal.
#[verifier::external_body]
pub(crate) fn put_text(s: &str) {
    let mut out = std::io::stdout();
    write!(out, "{}", s).unwrap();
    std::io::Write::flush(&mut out).unwrap();
}

} // verus!
