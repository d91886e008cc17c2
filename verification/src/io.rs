//! The I/O operation layer: uniform read, write, flush and seek over
//! files, the standard streams and in-memory byte buffers, plus file-open
//! mode resolution and the filesystem delegations.
//!
//! All decisions — mode tables, offset validation, buffer bookkeeping —
//! are verified here; only the individual system calls stand behind
//! trusted wrappers over `rustix` and `std::io`.

use vstd::prelude::*;
use vstd::slice::slice_to_vec;
use vstd::utf8::encode_utf8;

verus! {

/// A runtime value crossing the I/O layer.
#[derive(Debug, PartialEq)]
pub enum IoValue {
    Str(String),
    Bytes(Vec<u8>),
    Int(i64),
    Bool(bool),
    Nil,
}

/// A runtime failure: a recoverable I/O error carrying the OS error
/// code, or a panic that is fatal to the current process.
#[derive(Debug, PartialEq)]
pub enum RtError {
    Io(i32),
    Panic(String),
}

/// The prototype a freshly opened file is tagged with, so built-in
/// dispatch can restrict operations to the open mode.
#[derive(Copy, Clone, PartialEq, Eq, Structural, Debug)]
pub enum FileProto {
    ReadOnly,
    WriteOnly,
    ReadWrite,
}

/// The resolved options of one of the closed set of open modes.
#[derive(Copy, Clone, PartialEq, Eq, Structural, Debug)]
pub struct OpenOpts {
    pub read: bool,
    pub write: bool,
    pub append: bool,
    pub truncate: bool,
    pub create: bool,
}

/// A seek offset as user code hands it over: a machine integer, or a big
/// integer reduced to its sign and magnitude.
#[derive(Debug)]
pub enum SeekOffset {
    Int(i64),
    Big { negative: bool, magnitude: u128 },
}

/// An open file: the descriptor behind a trusted boundary, and the
/// prototype tag for its open mode.
pub struct RtFile {
    pub handle: FileFd,
    pub proto: FileProto,
}

/// An in-memory byte stream: reads take from `data` at `rpos`, writes
/// append to `data`.
pub struct BufferStream {
    pub data: Vec<u8>,
    pub rpos: usize,
}

/// A stream capability: a file, a standard stream, or a byte buffer.
pub enum Stream {
    File(RtFile),
    Stdin,
    Stdout,
    Stderr,
    Buffer(BufferStream),
}

/// Holds an open file descriptor. The descriptor type cannot be spoken
/// of here, so the whole holder stands behind the trusted boundary.
#[verifier::external_body]
pub struct FileFd {
    fd: rustix::fd::OwnedFd,
}

/// The bytes a value writes: a string writes its UTF-8 encoding, a byte
/// array writes itself, anything else is not writable.
pub open spec fn written_bytes(v: IoValue) -> Option<Seq<u8>> {
    match v {
        IoValue::Str(s) => Some(encode_utf8(s@)),
        IoValue::Bytes(b) => Some(b@),
        _ => None,
    }
}

/// Ten to the `n`th.
pub open spec fn pow10(n: nat) -> int
    decreases n,
{
    if n == 0 {
        1
    } else {
        10 * pow10((n - 1) as nat)
    }
}

/// The value of a digit sequence with the least significant digit first.
pub open spec fn digits_val(ds: Seq<u128>) -> int
    decreases ds.len(),
{
    if ds.len() == 0 {
        0
    } else {
        ds[0] + 10 * digits_val(ds.subrange(1, ds.len() as int))
    }
}

/// Appending a more significant digit adds it at its place value.
proof fn lemma_digits_val_push(ds: Seq<u128>, d: u128)
    ensures
        digits_val(ds.push(d)) == digits_val(ds) + d * pow10(ds.len()),
    decreases ds.len(),
{
    if ds.len() == 0 {
        assert(ds.push(d).subrange(1, 1) =~= Seq::<u128>::empty());
        assert(digits_val(Seq::<u128>::empty()) == 0);
        assert(digits_val(ds.push(d)) == d);
    } else {
        let rest = ds.subrange(1, ds.len() as int);
        lemma_digits_val_push(rest, d);
        assert(ds.push(d).subrange(1, ds.len() as int + 1) =~= rest.push(d));
        assert(digits_val(ds.push(d)) == ds[0] + 10 * digits_val(rest.push(d)));
        assert(digits_val(ds) == ds[0] + 10 * digits_val(rest));
        assert(10 * (digits_val(rest) + d * pow10(rest.len())) == 10 * digits_val(rest) + d * (
        10 * pow10(rest.len()))) by (nonlinear_arith);
        assert(pow10(ds.len()) == 10 * pow10(rest.len()));
        assert(digits_val(rest.push(d)) == digits_val(rest) + d * pow10(rest.len()));
        assert(digits_val(ds.push(d)) == ds[0] + 10 * (digits_val(rest) + d * pow10(
            rest.len(),
        )));
        assert(digits_val(ds.push(d)) == digits_val(ds) + d * (10 * pow10(rest.len())));
        assert(d * pow10(ds.len()) == d * (10 * pow10(rest.len())));
    }
}

/// The text of a single decimal digit.
fn digit_text(d: u128) -> (r: &'static str)
    requires
        d < 10,
    ensures
        r@.len() == 1,
        r@[0] as int == 48 + d,
{
    match d {
        0 => {
            proof {
                reveal_strlit("0");
            }
            "0"
        },
        1 => {
            proof {
                reveal_strlit("1");
            }
            "1"
        },
        2 => {
            proof {
                reveal_strlit("2");
            }
            "2"
        },
        3 => {
            proof {
                reveal_strlit("3");
            }
            "3"
        },
        4 => {
            proof {
                reveal_strlit("4");
            }
            "4"
        },
        5 => {
            proof {
                reveal_strlit("5");
            }
            "5"
        },
        6 => {
            proof {
                reveal_strlit("6");
            }
            "6"
        },
        7 => {
            proof {
                reveal_strlit("7");
            }
            "7"
        },
        8 => {
            proof {
                reveal_strlit("8");
            }
            "8"
        },
        _ => {
            proof {
                reveal_strlit("9");
            }
            "9"
        },
    }
}

/// The decimal text of an unsigned value, as failure messages print it:
/// decimal digits denoting exactly the value, without a leading zero.
pub fn decimal_digits(value: u128) -> (r: String)
    ensures
        crate::parser::all_digits(r@),
        crate::parser::dec_val(r@) == value,
        value > 0 ==> r@[0] as int != 48,
{
    let mut digits: Vec<u128> = Vec::new();
    let mut v = value;
    if v == 0 {
        let zero = String::from_str("0");
        proof {
            reveal_strlit("0");
            assert(zero@.len() == 1 && zero@.last() == '0');
            assert(zero@.drop_last() =~= Seq::<char>::empty());
            assert(crate::parser::dec_val(zero@.drop_last()) == 0);
            assert(crate::parser::dec_val(zero@) == 0);
        }
        return zero;
    }
    while v > 0
        invariant
            v <= value,
            digits_val(digits@) + v * pow10(digits@.len()) == value,
            forall|j: int| 0 <= j < digits@.len() ==> #[trigger] digits@[j] < 10,
            digits@.len() > 0 ==> (v > 0 || digits@.last() > 0),
        decreases v,
    {
        let ghost pre = digits@;
        let d = v % 10;
        digits.push(d);
        proof {
            lemma_digits_val_push(pre, d);
            assert(v / 10 < v) by (nonlinear_arith)
                requires
                    v >= 1,
            ;
            assert((v % 10) * pow10(pre.len()) + (v / 10) * (10 * pow10(pre.len())) == v * pow10(
                pre.len(),
            )) by (nonlinear_arith)
                requires
                    v >= 1,
            ;
            assert(pow10(pre.len() + 1) == 10 * pow10(pre.len()));
        }
        v = v / 10;
    }
    let mut out = String::new();
    let n = digits.len();
    let mut i = n;
    while i > 0
        invariant
            i <= n,
            n == digits@.len(),
            n > 0,
            digits@.last() > 0,
            forall|j: int| 0 <= j < digits@.len() ==> #[trigger] digits@[j] < 10,
            out@.len() == n - i,
            crate::parser::dec_val(out@) == digits_val(digits@.subrange(i as int, n as int)),
            forall|j: int| 0 <= j < out@.len() ==> 48 <= #[trigger] out@[j] as int <= 57,
            i < n ==> out@[0] as int == 48 + digits@[n - 1],
        decreases i,
    {
        i = i - 1;
        let ghost opre = out@;
        out.append(digit_text(digits[i]));
        proof {
            assert(out@.drop_last() =~= opre);
            assert(digits@.subrange(i as int, n as int).subrange(1, (n - i) as int)
                =~= digits@.subrange(i + 1, n as int));
        }
    }
    proof {
        assert(digits@.subrange(0, n as int) =~= digits@);
    }
    out
}

/// The decimal text of a signed value, as failure messages print it: a
/// minus sign for a negative value, then the digits of its magnitude.
pub fn decimal_i64(value: i64) -> (r: String)
    ensures
        value >= 0 ==> (crate::parser::all_digits(r@) && crate::parser::dec_val(r@) == value),
        value < 0 ==> (r@.len() >= 2 && r@[0] == '-' && crate::parser::all_digits(
            r@.subrange(1, r@.len() as int),
        ) && crate::parser::dec_val(r@.subrange(1, r@.len() as int)) == -(value as int)),
{
    if value < 0 {
        let magnitude = ((-(value + 1)) as u128) + 1;
        let mut out = String::from_str("-");
        let digits = decimal_digits(magnitude);
        proof {
            reveal_strlit("-");
        }
        out.append(digits.as_str());
        proof {
            assert(out@.subrange(1, out@.len() as int) =~= digits@);
        }
        out
    } else {
        decimal_digits(value as u128)
    }
}

/// The open options of each mode: `0` read, `1` write (truncate and
/// create), `2` append (create), `3` read and write (create), `4` read
/// and append (create).
pub open spec fn opts_of_mode(mode: i64) -> OpenOpts {
    if mode == 0 {
        OpenOpts { read: true, write: false, append: false, truncate: false, create: false }
    } else if mode == 1 {
        OpenOpts { read: false, write: true, append: false, truncate: true, create: true }
    } else if mode == 2 {
        OpenOpts { read: false, write: false, append: true, truncate: false, create: true }
    } else if mode == 3 {
        OpenOpts { read: true, write: true, append: false, truncate: false, create: true }
    } else {
        OpenOpts { read: true, write: false, append: true, truncate: false, create: true }
    }
}

/// The prototype of each open mode.
pub open spec fn proto_of_mode(mode: i64) -> FileProto {
    if mode == 0 {
        FileProto::ReadOnly
    } else if mode == 1 || mode == 2 {
        FileProto::WriteOnly
    } else {
        FileProto::ReadWrite
    }
}

/// Resolves an open mode to its options; any mode outside the closed set
/// is rejected.
pub fn options_for_integer(mode: i64) -> (r: Result<OpenOpts, RtError>)
    ensures
        0 <= mode <= 4 ==> r == Ok::<OpenOpts, RtError>(opts_of_mode(mode)),
        !(0 <= mode <= 4) ==> (r matches Err(e) && e is Panic),
{
    match mode {
        0 => Ok(OpenOpts { read: true, write: false, append: false, truncate: false, create: false }),
        1 => Ok(OpenOpts { read: false, write: true, append: false, truncate: true, create: true }),
        2 => Ok(OpenOpts { read: false, write: false, append: true, truncate: false, create: true }),
        3 => Ok(OpenOpts { read: true, write: true, append: false, truncate: false, create: true }),
        4 => Ok(OpenOpts { read: true, write: false, append: true, truncate: false, create: true }),
        _ => {
            let mut msg = String::from_str("Invalid file open mode: ");
            let val = decimal_i64(mode);
            msg.append(val.as_str());
            Err(RtError::Panic(msg))
        },
    }
}

/// Resolves an open mode to the prototype its file is tagged with; any
/// mode outside the closed set is rejected.
pub fn prototype_for_open_mode(mode: i64) -> (r: Result<FileProto, RtError>)
    ensures
        0 <= mode <= 4 ==> r == Ok::<FileProto, RtError>(proto_of_mode(mode)),
        !(0 <= mode <= 4) ==> (r matches Err(e) && e is Panic),
{
    match mode {
        0 => Ok(FileProto::ReadOnly),
        1 | 2 => Ok(FileProto::WriteOnly),
        3 | 4 => Ok(FileProto::ReadWrite),
        _ => {
            let mut msg = String::from_str("Invalid file open mode: ");
            let val = decimal_i64(mode);
            msg.append(val.as_str());
            Err(RtError::Panic(msg))
        },
    }
}

/// Relies on `rustix::fs::open` with `O_RDONLY`: opens for reading.
#[verifier::external_body]
fn fd_open_read(path: &String) -> (r: Result<FileFd, i32>) {
    rustix::fs::open(path.as_str(), rustix::fs::OFlags::RDONLY, rustix::fs::Mode::empty())
        .map(|fd| FileFd { fd })
        .map_err(|e| e.raw_os_error())
}

/// Relies on `rustix::fs::open` with `O_WRONLY | O_CREAT | O_TRUNC`:
/// opens for writing, truncating and creating.
#[verifier::external_body]
fn fd_open_write(path: &String) -> (r: Result<FileFd, i32>) {
    rustix::fs::open(
        path.as_str(),
        rustix::fs::OFlags::WRONLY.union(rustix::fs::OFlags::CREATE).union(
            rustix::fs::OFlags::TRUNC,
        ),
        rustix::fs::Mode::from_raw_mode(0o666),
    ).map(|fd| FileFd { fd }).map_err(|e| e.raw_os_error())
}

/// Relies on `rustix::fs::open` with `O_WRONLY | O_CREAT | O_APPEND`:
/// opens for appending, creating.
#[verifier::external_body]
fn fd_open_append(path: &String) -> (r: Result<FileFd, i32>) {
    rustix::fs::open(
        path.as_str(),
        rustix::fs::OFlags::WRONLY.union(rustix::fs::OFlags::CREATE).union(
            rustix::fs::OFlags::APPEND,
        ),
        rustix::fs::Mode::from_raw_mode(0o666),
    ).map(|fd| FileFd { fd }).map_err(|e| e.raw_os_error())
}

/// Relies on `rustix::fs::open` with `O_RDWR | O_CREAT`: opens for
/// reading and writing, creating.
#[verifier::external_body]
fn fd_open_read_write(path: &String) -> (r: Result<FileFd, i32>) {
    rustix::fs::open(
        path.as_str(),
        rustix::fs::OFlags::RDWR.union(rustix::fs::OFlags::CREATE),
        rustix::fs::Mode::from_raw_mode(0o666),
    ).map(|fd| FileFd { fd }).map_err(|e| e.raw_os_error())
}

/// Relies on `rustix::fs::open` with `O_RDWR | O_CREAT | O_APPEND`:
/// opens for reading and appending, creating.
#[verifier::external_body]
fn fd_open_read_append(path: &String) -> (r: Result<FileFd, i32>) {
    rustix::fs::open(
        path.as_str(),
        rustix::fs::OFlags::RDWR.union(rustix::fs::OFlags::CREATE).union(
            rustix::fs::OFlags::APPEND,
        ),
        rustix::fs::Mode::from_raw_mode(0o666),
    ).map(|fd| FileFd { fd }).map_err(|e| e.raw_os_error())
}

/// Opens a file under one of the closed set of modes and tags it with
/// the prototype of that mode; any other mode is rejected before the
/// filesystem is touched, so no file is created for it.
pub fn open_file(path: &String, mode: i64) -> (r: Result<Stream, RtError>)
    ensures
        !(0 <= mode <= 4) ==> (r matches Err(e) && e is Panic),
        0 <= mode <= 4 ==> match r {
            Ok(s) => s matches Stream::File(f) && f.proto == proto_of_mode(mode),
            Err(e) => e is Io,
        },
{
    let opts = options_for_integer(mode)?;
    let proto = prototype_for_open_mode(mode)?;
    let opened = if mode == 0 {
        fd_open_read(path)
    } else if mode == 1 {
        fd_open_write(path)
    } else if mode == 2 {
        fd_open_append(path)
    } else if mode == 3 {
        fd_open_read_write(path)
    } else {
        fd_open_read_append(path)
    };
    match opened {
        Ok(handle) => Ok(Stream::File(RtFile { handle, proto })),
        Err(code) => Err(RtError::Io(code)),
    }
}

/// Relies on `rustix::fs::seek` with `SeekFrom::Start`: `lseek` to an
/// absolute offset returns the resulting offset, which is the one asked
/// for.
#[verifier::external_body]
fn fd_seek(f: &FileFd, offset: u64) -> (r: Result<u64, i32>)
    ensures
        r matches Ok(p) ==> p == offset,
{
    rustix::fs::seek(&f.fd, rustix::fs::SeekFrom::Start(offset)).map_err(|e| e.raw_os_error())
}

/// The validated absolute offset of a seek request: a negative integer
/// and a big integer beyond the unsigned 64-bit range are rejected.
pub open spec fn seek_offset_value(offset: SeekOffset) -> Option<u64> {
    match offset {
        SeekOffset::Int(v) => if v < 0 {
            None
        } else {
            Some(v as u64)
        },
        SeekOffset::Big { negative, magnitude } => if negative || magnitude > u64::MAX {
            None
        } else {
            Some(magnitude as u64)
        },
    }
}

/// Seeks a file to an absolute offset. A negative offset and one beyond
/// the unsigned 64-bit range are panics; a valid offset that the
/// filesystem accepts returns the new cursor position, which equals the
/// requested offset.
pub fn seek_file(file: &mut Stream, offset: SeekOffset) -> (r: Result<u64, RtError>)
    requires
        *old(file) is File,
    ensures
        *final(file) == *old(file),
        seek_offset_value(offset) is None ==> (r matches Err(e) && e is Panic),
        seek_offset_value(offset) matches Some(off) ==> match r {
            Ok(p) => p == off,
            Err(e) => e is Io,
        },
{
    let off: u64 = match offset {
        SeekOffset::Int(v) => {
            if v < 0 {
                let mut msg = decimal_i64(v);
                msg.append(" is not a valid seek offset");
                return Err(RtError::Panic(msg));
            }
            v as u64
        },
        SeekOffset::Big { negative, magnitude } => {
            if negative || magnitude > u64::MAX as u128 {
                let mut msg = if negative {
                    String::from_str("-")
                } else {
                    String::new()
                };
                let digits = decimal_digits(magnitude);
                msg.append(digits.as_str());
                msg.append(" is not a valid seek offset");
                return Err(RtError::Panic(msg));
            }
            magnitude as u64
        },
    };
    match file {
        Stream::File(f) => {
            match fd_seek(&f.handle, off) {
                Ok(p) => Ok(p),
                Err(code) => Err(RtError::Io(code)),
            }
        },
        _ => vstd::pervasive::unreached(),
    }
}

/// Whether a boolean-like value means "not recursive" for the directory
/// operations: exactly the false value; anything else means recursive.
pub fn is_false_value(value: &IoValue) -> (r: bool)
    ensures
        r == (value matches IoValue::Bool(b) && b == false),
{
    matches!(value, IoValue::Bool(false))
}

/// The bytes to write for a value: a string hands over its UTF-8 bytes,
/// a byte array itself; anything else is rejected.
pub fn buffer_to_write(buffer: &IoValue) -> (r: Result<Vec<u8>, RtError>)
    ensures
        match written_bytes(*buffer) {
            Some(bs) => r matches Ok(b) && b@ == bs,
            None => r matches Err(e) && e is Panic,
        },
{
    match buffer {
        IoValue::Str(s) => {
            let b = slice_to_vec(s.as_str().as_bytes());
            Ok(b)
        },
        IoValue::Bytes(b) => {
            let mut out: Vec<u8> = Vec::new();
            let n = b.len();
            let mut i: usize = 0;
            while i < n
                invariant
                    i <= n,
                    n == b@.len(),
                    out@ =~= b@.take(i as int),
                decreases n - i,
            {
                out.push(b[i]);
                proof {
                    assert(out@ =~= b@.take(i + 1));
                }
                i = i + 1;
            }
            proof {
                assert(b@.take(n as int) =~= b@);
            }
            Ok(out)
        },
        _ => Err(RtError::Panic(String::from_str("expected a string or a byte array"))),
    }
}

} // verus!

verus! {

/// Relies on `rustix::io::write`: a single `write` of the bytes from
/// `from` on; returns how many bytes the kernel took, at most that many.
#[verifier::external_body]
fn fd_write(f: &FileFd, buf: &Vec<u8>, from: usize) -> (r: Result<usize, i32>)
    requires
        from <= buf@.len(),
    ensures
        r matches Ok(n) ==> n <= buf@.len() - from,
{
    rustix::io::write(&f.fd, &buf[from..]).map_err(|e| e.raw_os_error())
}

/// Relies on `std::io::Write::write` on standard output: returns how
/// many bytes were taken, at most those handed over.
#[verifier::external_body]
fn stdout_write_chunk(buf: &Vec<u8>, from: usize) -> (r: Result<usize, i32>)
    requires
        from <= buf@.len(),
    ensures
        r matches Ok(n) ==> n <= buf@.len() - from,
{
    std::io::Write::write(&mut std::io::stdout().lock(), &buf[from..])
        .map_err(|e| e.raw_os_error().unwrap_or(0))
}

/// Relies on `std::io::Write::write` on standard error: returns how
/// many bytes were taken, at most those handed over.
#[verifier::external_body]
fn stderr_write_chunk(buf: &Vec<u8>, from: usize) -> (r: Result<usize, i32>)
    requires
        from <= buf@.len(),
    ensures
        r matches Ok(n) ==> n <= buf@.len() - from,
{
    std::io::Write::write(&mut std::io::stderr().lock(), &buf[from..])
        .map_err(|e| e.raw_os_error().unwrap_or(0))
}

/// Relies on `std::io::Write::flush` on standard output.
#[verifier::external_body]
fn stdout_flush_now() -> (r: Result<(), i32>) {
    std::io::Write::flush(&mut std::io::stdout().lock()).map_err(|e| e.raw_os_error().unwrap_or(0))
}

/// Relies on `std::io::Write::flush` on standard error.
#[verifier::external_body]
fn stderr_flush_now() -> (r: Result<(), i32>) {
    std::io::Write::flush(&mut std::io::stderr().lock()).map_err(|e| e.raw_os_error().unwrap_or(0))
}

/// Relies on `rustix::io::read`: one read of up to `want` bytes; an
/// empty result means the end of the stream was reached.
#[verifier::external_body]
fn fd_read_chunk(f: &FileFd, want: usize) -> (r: Result<Vec<u8>, i32>)
    ensures
        r matches Ok(v) ==> v@.len() <= want,
{
    let mut buf = vec![0u8; want];
    match rustix::io::read(&f.fd, buf.as_mut_slice()) {
        Ok(n) => {
            buf.truncate(n);
            Ok(buf)
        },
        Err(e) => Err(e.raw_os_error()),
    }
}

/// Relies on `std::io::Read::read` on standard input: one read of up to
/// `want` bytes; an empty result means the end of the stream.
#[verifier::external_body]
fn stdin_read_chunk(want: usize) -> (r: Result<Vec<u8>, i32>)
    ensures
        r matches Ok(v) ==> v@.len() <= want,
{
    let mut buf = vec![0u8; want];
    match std::io::Read::read(&mut std::io::stdin().lock(), buf.as_mut_slice()) {
        Ok(n) => {
            buf.truncate(n);
            Ok(buf)
        },
        Err(e) => Err(e.raw_os_error().unwrap_or(0)),
    }
}

/// Relies on `Vec::shrink_to_fit`: gives allocation back, keeps the
/// contents.
#[verifier::external_body]
fn shrink_buffer(v: &mut Vec<u8>)
    ensures
        final(v)@ == old(v)@,
{
    v.shrink_to_fit()
}

/// Writes the whole buffer to a file, chunk by chunk; a write that takes
/// nothing is reported as a failure rather than looping.
fn write_all_file(f: &FileFd, buf: &Vec<u8>) -> (r: Result<(), RtError>)
{
    let mut from: usize = 0;
    while from < buf.len()
        invariant
            from <= buf@.len(),
        decreases buf@.len() - from,
    {
        match fd_write(f, buf, from) {
            Ok(n) => {
                if n == 0 {
                    return Err(RtError::Panic(String::from_str("failed to write the whole buffer")));
                }
                from = from + n;
            },
            Err(code) => {
                return Err(RtError::Io(code));
            },
        }
    }
    Ok(())
}

/// Writes the whole buffer to standard output, chunk by chunk.
fn write_all_stdout(buf: &Vec<u8>) -> (r: Result<(), RtError>)
{
    let mut from: usize = 0;
    while from < buf.len()
        invariant
            from <= buf@.len(),
        decreases buf@.len() - from,
    {
        match stdout_write_chunk(buf, from) {
            Ok(n) => {
                if n == 0 {
                    return Err(RtError::Panic(String::from_str("failed to write the whole buffer")));
                }
                from = from + n;
            },
            Err(code) => {
                return Err(RtError::Io(code));
            },
        }
    }
    Ok(())
}

/// Writes the whole buffer to standard error, chunk by chunk.
fn write_all_stderr(buf: &Vec<u8>) -> (r: Result<(), RtError>)
{
    let mut from: usize = 0;
    while from < buf.len()
        invariant
            from <= buf@.len(),
        decreases buf@.len() - from,
    {
        match stderr_write_chunk(buf, from) {
            Ok(n) => {
                if n == 0 {
                    return Err(RtError::Panic(String::from_str("failed to write the whole buffer")));
                }
                from = from + n;
            },
            Err(code) => {
                return Err(RtError::Io(code));
            },
        }
    }
    Ok(())
}

/// Writes a value to a stream: a string as its UTF-8 bytes, a byte
/// array verbatim. On success the returned count is the full byte
/// length of the value. A buffer stream takes the bytes by appending
/// and always succeeds; the other streams keep their state here.
pub fn io_write(stream: &mut Stream, to_write: &IoValue) -> (r: Result<usize, RtError>)
    ensures
        written_bytes(*to_write) is None ==> (r matches Err(e) && e is Panic) && *final(stream)
            == *old(stream),
        written_bytes(*to_write) matches Some(bs) ==> {
            &&& (r matches Ok(n) ==> n == bs.len())
            &&& (*old(stream) matches Stream::Buffer(b) ==> r is Ok && ((*final(stream)) matches
                Stream::Buffer(b2) && b2.data@ == b.data@ + bs && b2.rpos == b.rpos))
            &&& (!(*old(stream) is Buffer) ==> *final(stream) == *old(stream))
        },
        *old(stream) is Stdin ==> (r matches Err(e) && e is Panic),
{
    let bytes = buffer_to_write(to_write)?;
    match &mut *stream {
        Stream::Buffer(b) => {
            let n = bytes.len();
            let ghost base = b.data@;
            let ghost rpos0 = b.rpos;
            let mut i: usize = 0;
            while i < n
                invariant
                    i <= n,
                    n == bytes@.len(),
                    b.data@ =~= base + bytes@.take(i as int),
                    b.rpos == rpos0,
                decreases n - i,
            {
                b.data.push(bytes[i]);
                proof {
                    assert(b.data@ =~= base + bytes@.take(i + 1));
                }
                i = i + 1;
            }
            proof {
                assert(base + bytes@.take(n as int) =~= base + bytes@);
            }
            Ok(n)
        },
        Stream::File(f) => {
            write_all_file(&f.handle, &bytes)?;
            Ok(bytes.len())
        },
        Stream::Stdout => {
            write_all_stdout(&bytes)?;
            Ok(bytes.len())
        },
        Stream::Stderr => {
            write_all_stderr(&bytes)?;
            Ok(bytes.len())
        },
        Stream::Stdin => Err(RtError::Panic(String::from_str("the stream is not writable"))),
    }
}

/// Flushes a stream and returns the nil value. Files and buffers hold
/// no library-side write buffer, so their flush always succeeds.
pub fn io_flush(stream: &mut Stream) -> (r: Result<IoValue, RtError>)
    ensures
        *final(stream) == *old(stream),
        r matches Ok(v) ==> v == IoValue::Nil,
        (*old(stream) is File || *old(stream) is Buffer) ==> r == Ok::<IoValue, RtError>(
            IoValue::Nil,
        ),
        *old(stream) is Stdin ==> (r matches Err(e) && e is Panic),
{
    match &*stream {
        Stream::File(_) => Ok(IoValue::Nil),
        Stream::Buffer(_) => Ok(IoValue::Nil),
        Stream::Stdout => {
            match stdout_flush_now() {
                Ok(_) => Ok(IoValue::Nil),
                Err(code) => Err(RtError::Io(code)),
            }
        },
        Stream::Stderr => {
            match stderr_flush_now() {
                Ok(_) => Ok(IoValue::Nil),
                Err(code) => Err(RtError::Io(code)),
            }
        },
        Stream::Stdin => Err(RtError::Panic(String::from_str("the stream cannot be flushed"))),
    }
}

/// Reads from a stream into `buffer`: up to `amount` bytes when an
/// amount is given, else to the end of the stream. The buffer grows by
/// exactly the returned count and is shrunk to fit afterwards. Reading
/// a buffer stream takes bytes from its read position and always
/// succeeds.
pub fn io_read(stream: &mut Stream, buffer: &mut Vec<u8>, amount: Option<usize>) -> (r: Result<
    usize,
    RtError,
>)
    ensures
        r matches Ok(n) ==> {
            &&& final(buffer)@.len() == old(buffer)@.len() + n
            &&& final(buffer)@.take(old(buffer)@.len() as int) == old(buffer)@
            &&& (amount matches Some(a) ==> n <= a)
        },
        final(buffer)@.take(old(buffer)@.len() as int) == old(buffer)@,
        *old(stream) matches Stream::Buffer(b) ==> {
            &&& r is Ok
            &&& (*final(stream)) matches Stream::Buffer(b2) && b2.data@ == b.data@ && b2.rpos
                == spec_buffer_from(b) + spec_buffer_take(b, amount)
            &&& (r matches Ok(n) ==> n == spec_buffer_take(b, amount))
            &&& final(buffer)@.skip(old(buffer)@.len() as int) == b.data@.subrange(
                spec_buffer_from(b),
                spec_buffer_from(b) + spec_buffer_take(b, amount),
            )
        },
        !(*old(stream) is Buffer) ==> *final(stream) == *old(stream),
        (*old(stream) is Stdout || *old(stream) is Stderr) ==> (r matches Err(e) && e is Panic),
{
    match &mut *stream {
        Stream::Buffer(b) => {
            let have = b.data.len();
            let from = if b.rpos > have {
                have
            } else {
                b.rpos
            };
            let avail = have - from;
            let take = match amount {
                Some(a) => if a < avail {
                    a
                } else {
                    avail
                },
                None => avail,
            };
            let ghost base = buffer@;
            let mut i: usize = 0;
            while i < take
                invariant
                    i <= take,
                    from + take <= b.data@.len(),
                    from + take <= usize::MAX,
                    buffer@ =~= base + b.data@.subrange(from as int, from + i),
                decreases take - i,
            {
                buffer.push(b.data[from + i]);
                proof {
                    assert(buffer@ =~= base + b.data@.subrange(from as int, from + i + 1));
                }
                i = i + 1;
            }
            b.rpos = from + take;
            shrink_buffer(buffer);
            proof {
                assert(buffer@.take(base.len() as int) =~= base);
            }
            Ok(take)
        },
        Stream::File(f) => {
            let n = read_into(Some(&*f), buffer, amount)?;
            shrink_buffer(buffer);
            Ok(n)
        },
        Stream::Stdin => {
            let n = read_into(None, buffer, amount)?;
            shrink_buffer(buffer);
            Ok(n)
        },
        _ => Err(RtError::Panic(String::from_str("the stream is not readable"))),
    }
}

/// Where a read of a buffer stream starts: its read position, capped by
/// the data length.
pub open spec fn spec_buffer_from(b: BufferStream) -> int {
    if b.rpos > b.data@.len() {
        b.data@.len() as int
    } else {
        b.rpos as int
    }
}

/// How many bytes a read takes from a buffer stream: what is available
/// past the read position, capped by the requested amount.
pub open spec fn spec_buffer_take(b: BufferStream, amount: Option<usize>) -> int {
    let avail = b.data@.len() - spec_buffer_from(b);
    match amount {
        Some(a) => if a < avail {
            a as int
        } else {
            avail
        },
        None => avail,
    }
}

/// Reads one chunk of up to `want` bytes: from the file when one is
/// given, else from standard input.
fn read_chunk(f: Option<&RtFile>, want: usize) -> (r: Result<Vec<u8>, i32>)
    ensures
        r matches Ok(v) ==> v@.len() <= want,
{
    match f {
        Some(file) => fd_read_chunk(&file.handle, want),
        None => stdin_read_chunk(want),
    }
}

/// Reads from a file, or from standard input when no file is given,
/// into the buffer: chunked up to `amount`, or to the end of the stream
/// when no amount is given.
fn read_into(f: Option<&RtFile>, buffer: &mut Vec<u8>, amount: Option<usize>) -> (r: Result<
    usize,
    RtError,
>)
    ensures
        r matches Ok(n) ==> {
            &&& final(buffer)@.len() == old(buffer)@.len() + n
            &&& final(buffer)@.take(old(buffer)@.len() as int) == old(buffer)@
            &&& (amount matches Some(a) ==> n <= a)
        },
        final(buffer)@.take(old(buffer)@.len() as int) == old(buffer)@,
{
    let mut got: usize = 0;
    match amount {
        Some(a) => {
            while got < a
                invariant
                    got <= a,
                    buffer@.len() == old(buffer)@.len() + got,
                    buffer@.take(old(buffer)@.len() as int) == old(buffer)@,
                decreases a - got,
            {
                let chunk = match read_chunk(f, a - got) {
                    Ok(c) => c,
                    Err(code) => {
                        return Err(RtError::Io(code));
                    },
                };
                if chunk.len() == 0 {
                    break;
                }
                let ghost pre = buffer@;
                let mut j: usize = 0;
                while j < chunk.len()
                    invariant
                        j <= chunk@.len(),
                        buffer@ =~= pre + chunk@.take(j as int),
                    decreases chunk@.len() - j,
                {
                    buffer.push(chunk[j]);
                    proof {
                        assert(buffer@ =~= pre + chunk@.take(j + 1));
                    }
                    j = j + 1;
                }
                got = got + chunk.len();
                proof {
                    assert(buffer@.take(old(buffer)@.len() as int) =~= old(buffer)@);
                }
            }
            Ok(got)
        },
        None => {
            loop
                invariant
                    buffer@.len() == old(buffer)@.len() + got,
                    buffer@.take(old(buffer)@.len() as int) == old(buffer)@,
                ensures
                    buffer@.len() == old(buffer)@.len() + got,
                    buffer@.take(old(buffer)@.len() as int) == old(buffer)@,
                decreases usize::MAX - got,
            {
                if usize::MAX - got < 8192 {
                    break;
                }
                let chunk = match read_chunk(f, 8192) {
                    Ok(c) => c,
                    Err(code) => {
                        return Err(RtError::Io(code));
                    },
                };
                if chunk.len() == 0 {
                    break;
                }
                let ghost pre = buffer@;
                let mut j: usize = 0;
                while j < chunk.len()
                    invariant
                        j <= chunk@.len(),
                        buffer@ =~= pre + chunk@.take(j as int),
                    decreases chunk@.len() - j,
                {
                    buffer.push(chunk[j]);
                    proof {
                        assert(buffer@ =~= pre + chunk@.take(j + 1));
                    }
                    j = j + 1;
                }
                got = got + chunk.len();
                proof {
                    assert(buffer@.take(old(buffer)@.len() as int) =~= old(buffer)@);
                }
            }
            Ok(got)
        },
    }
}

} // verus!

verus! {

/// Writes a value to an open file.
pub fn write_file(file: &mut Stream, to_write: &IoValue) -> (r: Result<usize, RtError>)
    requires
        *old(file) is File,
    ensures
        *final(file) == *old(file),
        written_bytes(*to_write) is None ==> (r matches Err(e) && e is Panic),
        written_bytes(*to_write) matches Some(bs) ==> (r matches Ok(n) ==> n == bs.len()),
{
    io_write(file, to_write)
}

/// Flushes an open file; files carry no library-side buffer, so this
/// returns the nil value.
pub fn flush_file(file: &mut Stream) -> (r: Result<IoValue, RtError>)
    requires
        *old(file) is File,
    ensures
        *final(file) == *old(file),
        r == Ok::<IoValue, RtError>(IoValue::Nil),
{
    io_flush(file)
}

/// Reads from an open file into a byte buffer; see [`io_read`].
pub fn read_file(file: &mut Stream, buffer: &mut Vec<u8>, amount: Option<usize>) -> (r: Result<
    usize,
    RtError,
>)
    requires
        *old(file) is File,
    ensures
        *final(file) == *old(file),
        r matches Ok(n) ==> {
            &&& final(buffer)@.len() == old(buffer)@.len() + n
            &&& final(buffer)@.take(old(buffer)@.len() as int) == old(buffer)@
            &&& (amount matches Some(a) ==> n <= a)
        },
        final(buffer)@.take(old(buffer)@.len() as int) == old(buffer)@,
{
    io_read(file, buffer, amount)
}

/// Writes a value to standard output.
pub fn stdout_write(to_write: &IoValue) -> (r: Result<usize, RtError>)
    ensures
        written_bytes(*to_write) is None ==> (r matches Err(e) && e is Panic),
        written_bytes(*to_write) matches Some(bs) ==> (r matches Ok(n) ==> n == bs.len()),
{
    let mut s = Stream::Stdout;
    io_write(&mut s, to_write)
}

/// Flushes standard output.
pub fn stdout_flush() -> (r: Result<IoValue, RtError>)
    ensures
        r matches Ok(v) ==> v == IoValue::Nil,
{
    let mut s = Stream::Stdout;
    io_flush(&mut s)
}

/// Writes a value to standard error.
pub fn stderr_write(to_write: &IoValue) -> (r: Result<usize, RtError>)
    ensures
        written_bytes(*to_write) is None ==> (r matches Err(e) && e is Panic),
        written_bytes(*to_write) matches Some(bs) ==> (r matches Ok(n) ==> n == bs.len()),
{
    let mut s = Stream::Stderr;
    io_write(&mut s, to_write)
}

/// Flushes standard error.
pub fn stderr_flush() -> (r: Result<IoValue, RtError>)
    ensures
        r matches Ok(v) ==> v == IoValue::Nil,
{
    let mut s = Stream::Stderr;
    io_flush(&mut s)
}

/// Reads from standard input into a byte buffer; see [`io_read`].
pub fn stdin_read(buffer: &mut Vec<u8>, amount: Option<usize>) -> (r: Result<usize, RtError>)
    ensures
        r matches Ok(n) ==> {
            &&& final(buffer)@.len() == old(buffer)@.len() + n
            &&& final(buffer)@.take(old(buffer)@.len() as int) == old(buffer)@
            &&& (amount matches Some(a) ==> n <= a)
        },
        final(buffer)@.take(old(buffer)@.len() as int) == old(buffer)@,
{
    let mut s = Stream::Stdin;
    io_read(&mut s, buffer, amount)
}

/// Relies on `rustix::fs::stat`: the file's mode bits, size in bytes,
/// and access, modification and status-change times in seconds.
#[verifier::external_body]
fn fd_stat(path: &String) -> (r: Result<(u32, u64, i64, i64, i64), i32>) {
    rustix::fs::stat(path.as_str()).map(
        |st| (st.st_mode as u32, st.st_size as u64, st.st_atime as i64, st.st_mtime as i64, st.st_ctime as i64),
    ).map_err(|e| e.raw_os_error())
}

/// Relies on `rustix::fs::unlink`: removes the file at the path.
#[verifier::external_body]
fn fd_unlink(path: &String) -> (r: Result<(), i32>) {
    rustix::fs::unlink(path.as_str()).map_err(|e| e.raw_os_error())
}

/// Relies on `rustix::fs::open` with `O_DIRECTORY` and
/// `rustix::fs::Dir::read_from`: the names of all entries of the
/// directory, the `.` and `..` entries included, in filesystem order.
#[verifier::external_body]
fn read_dir_entries(path: &String) -> (r: Result<Vec<String>, i32>) {
    let fd = rustix::fs::open(
        path.as_str(),
        rustix::fs::OFlags::RDONLY.union(rustix::fs::OFlags::DIRECTORY),
        rustix::fs::Mode::empty(),
    ).map_err(|e| e.raw_os_error())?;
    let dir = rustix::fs::Dir::read_from(&fd).map_err(|e| e.raw_os_error())?;
    let mut names = Vec::new();
    for entry in dir {
        let entry = entry.map_err(|e| e.raw_os_error())?;
        names.push(entry.file_name().to_string_lossy().into_owned());
    }
    Ok(names)
}

/// The file-kind tag of a raw `st_mode`: `1` for a regular file, `2`
/// for a directory, `0` for anything else.
pub open spec fn kind_of_mode_spec(mode: u32) -> i64 {
    if mode & 0o170000 == 0o100000 {
        1
    } else if mode & 0o170000 == 0o040000 {
        2
    } else {
        0
    }
}

/// Reads the file-kind tag out of raw mode bits.
pub fn kind_of_mode(mode: u32) -> (r: i64)
    ensures
        r == kind_of_mode_spec(mode),
{
    let fmt = mode & 0o170000;
    if fmt == 0o100000 {
        1
    } else if fmt == 0o040000 {
        2
    } else {
        0
    }
}

/// The kind of the path: `1` for a regular file, `2` for a directory,
/// `0` for anything else or a path that cannot be inspected.
pub fn file_type(path: &String) -> (r: i64)
    ensures
        r == 0 || r == 1 || r == 2,
{
    match fd_stat(path) {
        Ok(st) => kind_of_mode(st.0),
        Err(_) => 0,
    }
}

/// The size of the file at the path, in bytes. A failure is always a
/// recoverable I/O error, never a panic.
pub fn file_size(path: &String) -> (r: Result<u64, RtError>)
    ensures
        r matches Err(e) ==> e is Io,
{
    match fd_stat(path) {
        Ok(st) => Ok(st.1),
        Err(code) => Err(RtError::Io(code)),
    }
}

/// The timestamp a time kind selects from a file's three stat times:
/// kind `0` is the status-change time, `1` the modification time, `2`
/// the access time; any other kind is rejected.
pub open spec fn time_of_kind(atime: i64, mtime: i64, ctime: i64, kind: i64) -> i64 {
    if kind == 0 {
        ctime
    } else if kind == 1 {
        mtime
    } else {
        atime
    }
}

/// Selects one of a file's three stat times by its kind.
pub fn select_file_time(atime: i64, mtime: i64, ctime: i64, kind: i64) -> (r: Result<i64, RtError>)
    ensures
        0 <= kind <= 2 ==> r == Ok::<i64, RtError>(time_of_kind(atime, mtime, ctime, kind)),
        !(0 <= kind <= 2) ==> (r matches Err(e) && e is Panic),
{
    if kind < 0 || kind > 2 {
        let mut msg = String::from_str("an invalid time kind: ");
        let val = decimal_i64(kind);
        msg.append(val.as_str());
        return Err(RtError::Panic(msg));
    }
    if kind == 0 {
        Ok(ctime)
    } else if kind == 1 {
        Ok(mtime)
    } else {
        Ok(atime)
    }
}

/// A timestamp of the file at the path, in seconds since the epoch,
/// selected from the stat times by [`select_file_time`].
pub fn file_time(path: &String, kind: i64) -> (r: Result<i64, RtError>)
    ensures
        !(0 <= kind <= 2) ==> (r matches Err(e) && e is Panic),
        0 <= kind <= 2 ==> (r matches Err(e) ==> e is Io),
{
    if kind < 0 || kind > 2 {
        let mut msg = String::from_str("an invalid time kind: ");
        let val = decimal_i64(kind);
        msg.append(val.as_str());
        return Err(RtError::Panic(msg));
    }
    match fd_stat(path) {
        Ok(st) => select_file_time(st.2, st.3, st.4, kind),
        Err(code) => Err(RtError::Io(code)),
    }
}

/// Removes the file at the path and returns the nil value.
pub fn remove_file(path: &String) -> (r: Result<IoValue, RtError>)
    ensures
        r matches Ok(v) ==> v == IoValue::Nil,
        r matches Err(e) ==> e is Io,
{
    match fd_unlink(path) {
        Ok(_) => Ok(IoValue::Nil),
        Err(code) => Err(RtError::Io(code)),
    }
}

/// Whether a directory entry name is one a listing shows: everything
/// but the `.` and `..` entries.
pub open spec fn visible_entry(name: Seq<char>) -> bool {
    name != seq!['.'] && name != seq!['.', '.']
}

/// The visible entries of a name sequence, in order.
pub open spec fn visible_of(names: Seq<String>) -> Seq<String>
    decreases names.len(),
{
    if names.len() == 0 {
        Seq::empty()
    } else if visible_entry(names.last()@) {
        visible_of(names.drop_last()).push(names.last())
    } else {
        visible_of(names.drop_last())
    }
}

/// Keeps the visible entries of a name list, dropping `.` and `..`.
pub fn visible_entries(names: &Vec<String>) -> (r: Vec<String>)
    ensures
        r@ == visible_of(names@),
{
    let mut out: Vec<String> = Vec::new();
    let n = names.len();
    let mut i: usize = 0;
    while i < n
        invariant
            i <= n,
            n == names@.len(),
            out@ =~= visible_of(names@.take(i as int)),
        decreases n - i,
    {
        let name = &names[i];
        let dot = String::from_str(".");
        let dotdot = String::from_str("..");
        proof {
            reveal_strlit(".");
            reveal_strlit("..");
            assert(dot@ =~= seq!['.']);
            assert(dotdot@ =~= seq!['.', '.']);
            assert(names@.take(i + 1).drop_last() =~= names@.take(i as int));
            assert(names@.take(i + 1).last() == names@[i as int]);
        }
        if !name.eq(&dot) && !name.eq(&dotdot) {
            out.push(name.clone());
        }
        i = i + 1;
    }
    proof {
        assert(names@.take(n as int) =~= names@);
    }
    out
}

/// Lists the entries of the directory at the path: every name the
/// filesystem handed over except the `.` and `..` entries, as
/// [`visible_entries`] keeps them.
pub fn list_directory(path: &String) -> (r: Result<Vec<String>, RtError>)
    ensures
        r matches Ok(v) ==> forall|j: int|
            0 <= j < v@.len() ==> visible_entry(#[trigger] v@[j]@),
        r matches Err(e) ==> e is Io,
{
    let names = match read_dir_entries(path) {
        Ok(n) => n,
        Err(code) => {
            return Err(RtError::Io(code));
        },
    };
    let out = visible_entries(&names);
    proof {
        lemma_visible_of_visible(names@);
    }
    Ok(out)
}

/// Everything [`visible_of`] keeps is a visible entry.
pub proof fn lemma_visible_of_visible(names: Seq<String>)
    ensures
        forall|j: int|
            0 <= j < visible_of(names).len() ==> visible_entry(
                #[trigger] visible_of(names)[j]@,
            ),
    decreases names.len(),
{
    if names.len() > 0 {
        lemma_visible_of_visible(names.drop_last());
        let prev = visible_of(names.drop_last());
        assert forall|j: int| 0 <= j < visible_of(names).len() implies visible_entry(
            visible_of(names)[j]@,
        ) by {
            if visible_entry(names.last()@) {
                assert(visible_of(names) == prev.push(names.last()));
                if j < prev.len() {
                    assert(visible_of(names)[j] == prev[j]);
                } else {
                    assert(visible_of(names)[j] == names.last());
                }
            } else {
                assert(visible_of(names) == prev);
            }
        }
    }
}

} // verus!
