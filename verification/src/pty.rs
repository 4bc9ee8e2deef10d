//! Trusted boundary to the OS pseudo-terminal facility.
//!
//! The registry consumes the pty capability through the `portable_pty`
//! crate. The handle types below are opaque to verification, and the wrapper
//! bodies are not read by the verifier: each wrapper's contract states what
//! the relied-on call is documented to do, and the registry is proved
//! against those contracts alone.

use vstd::prelude::*;

use std::io::Read;
use std::io::Write;

verus! {

/// Exclusive writer bound to a pty master side: bytes written to it are
/// delivered to the shell's standard input. Opaque to verification.
#[verifier::external_body]
pub(crate) struct PtyWriter {
    inner: Box<dyn Write + Send>,
}

/// Reader bound to a pty master side: yields the bytes the shell produces on
/// its standard output and standard error. Opaque to verification.
#[verifier::external_body]
pub(crate) struct PtyReader {
    inner: Box<dyn Read + Send>,
}

/// The master end of a pty pair; the registry keeps it only for geometry
/// control, never for data transfer. Opaque to verification.
#[verifier::external_body]
pub(crate) struct PtyMaster {
    inner: Box<dyn portable_pty::MasterPty + Send>,
}

/// The slave end of a pty pair. Held for a session's whole lifetime so the
/// shell keeps its controlling terminal; dropping it on close lets the OS
/// hang the shell up. Opaque to verification.
#[verifier::external_body]
pub(crate) struct PtySlave {
    inner: Box<dyn portable_pty::SlavePty + Send>,
}

/// Relies on `portable_pty::native_pty_system` and `PtySystem::openpty`:
/// allocates one OS pty pair at the given character-cell and pixel size, or
/// reports why the OS refused. Nothing can be promised of the opaque handles
/// a success carries.
#[verifier::external_body]
pub(crate) fn open_pty(
    rows: u16,
    cols: u16,
    pixel_width: u16,
    pixel_height: u16,
) -> Result<(PtyMaster, PtySlave), String> {
    let system = portable_pty::native_pty_system();
    let size = portable_pty::PtySize { rows, cols, pixel_width, pixel_height };
    match system.openpty(size) {
        Ok(pair) => Ok((PtyMaster { inner: pair.master }, PtySlave { inner: pair.slave })),
        Err(e) => Err(e.to_string()),
    }
}

/// Relies on `MasterPty::take_writer`: on success the result is the single
/// writable handle whose bytes are sent to the slave side.
#[verifier::external_body]
pub(crate) fn take_writer(master: &PtyMaster) -> Result<PtyWriter, String> {
    match master.inner.take_writer() {
        Ok(w) => Ok(PtyWriter { inner: w }),
        Err(e) => Err(e.to_string()),
    }
}

/// Relies on `MasterPty::try_clone_reader`: on success the result is a
/// readable handle over the slave side's output, independent of the writer
/// so reads and writes never contend on one handle.
#[verifier::external_body]
pub(crate) fn clone_reader(master: &PtyMaster) -> Result<PtyReader, String> {
    match master.inner.try_clone_reader() {
        Ok(r) => Ok(PtyReader { inner: r }),
        Err(e) => Err(e.to_string()),
    }
}

/// Relies on `CommandBuilder::new`, `CommandBuilder::env` and
/// `SlavePty::spawn_command`: launches `program` attached to the slave side
/// with `env_key` set to `env_value` in its environment. The child runs
/// fire-and-forget: its handle is released here and the process is never
/// reaped.
#[verifier::external_body]
pub(crate) fn spawn_shell(
    slave: &PtySlave,
    program: &str,
    env_key: &str,
    env_value: &str,
) -> Result<(), String> {
    let mut command = portable_pty::CommandBuilder::new(program);
    command.env(env_key, env_value);
    match slave.inner.spawn_command(command) {
        Ok(_child) => Ok(()),
        Err(e) => Err(e.to_string()),
    }
}

/// Relies on `std::io::Write::write_all` on the pty writer: on success every
/// byte of `data` was accepted by the OS stream (short writes are retried
/// internally); on failure a prefix of `data` may already have been
/// accepted.
#[verifier::external_body]
pub(crate) fn write_all(writer: &mut PtyWriter, data: &str) -> Result<(), String> {
    match writer.inner.write_all(data.as_bytes()) {
        Ok(()) => Ok(()),
        Err(e) => Err(e.to_string()),
    }
}

/// Relies on `std::io::Write::flush` on the pty writer: on success every
/// byte accepted so far has been pushed past userspace buffering.
#[verifier::external_body]
pub(crate) fn flush(writer: &mut PtyWriter) -> Result<(), String> {
    match writer.inner.flush() {
        Ok(()) => Ok(()),
        Err(e) => Err(e.to_string()),
    }
}

/// Relies on `std::io::Read::read` into a fixed 4096-byte buffer: exactly
/// one bounded read attempt, which returns at most that many bytes. No bytes
/// means no data was currently available, not end of session; on failure the
/// I/O error's message is returned.
#[verifier::external_body]
pub(crate) fn read_chunk(reader: &mut PtyReader) -> (r: Result<Vec<u8>, String>)
    ensures
        r matches Ok(bytes) ==> bytes@.len() <= 4096,
{
    let mut buffer = [0u8; 4096];
    match reader.inner.read(&mut buffer) {
        Ok(n) => Ok(buffer[..n].to_vec()),
        Err(e) => Err(e.to_string()),
    }
}

/// The character sequence that lossy UTF-8 decoding yields for `bytes`: a
/// function of the bytes alone, named here rather than spelled out.
pub uninterp spec fn utf8_lossy_decode(bytes: Seq<u8>) -> Seq<char>;

/// Relies on `String::from_utf8_lossy`: decodes `bytes` as UTF-8, replacing
/// invalid sequences rather than rejecting them, so a multi-byte sequence
/// split across reads never makes the transport fail. The result depends on
/// the bytes alone, and decoding no bytes yields the empty string.
#[verifier::external_body]
pub(crate) fn utf8_lossy(bytes: &Vec<u8>) -> (r: String)
    ensures
        r@ == utf8_lossy_decode(bytes@),
        bytes@.len() == 0 ==> r@.len() == 0,
{
    String::from_utf8_lossy(bytes.as_slice()).to_string()
}

/// Relies on `MasterPty::resize`: asks the kernel to change the pty's
/// character-cell geometry (and advisory pixel size) and signal the child to
/// take notice.
#[verifier::external_body]
pub(crate) fn resize_handle(
    master: &PtyMaster,
    rows: u16,
    cols: u16,
    pixel_width: u16,
    pixel_height: u16,
) -> Result<(), String> {
    let size = portable_pty::PtySize { rows, cols, pixel_width, pixel_height };
    match master.inner.resize(size) {
        Ok(()) => Ok(()),
        Err(e) => Err(e.to_string()),
    }
}

} // verus!
