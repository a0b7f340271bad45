//! NUL-terminated message buffers that the host application and this crate
//! hand to each other, modelled as byte vectors (`None` for a null buffer
//! pointer, `Some(bytes)` for a buffer of `bytes.len()` bytes).
use vstd::prelude::*;
use vstd::string::StringSliceAdditionalSpecFns;
use vstd::slice::slice_subrange;
use vstd::utf8::{decode_utf8, encode_utf8, encode_scalar, valid_utf8};

verus! {

/// Size of the buffer handed to the host's unsupported-operation callback.
pub const CALLBACK_MESSAGE_CAPACITY: usize = 4096;

/// Size of the output buffer handed to a typed platform callback.
pub const CALLBACK_OUTPUT_CAPACITY: usize = 65536;

/// Size of the error buffer handed to the process-spawn callback.
pub const SPAWN_ERROR_CAPACITY: usize = 4096;

/// The number of bytes before the first NUL byte of `b` (all of `b` when it
/// holds none).
pub open spec fn nul_index(b: Seq<u8>) -> nat
    decreases b.len(),
{
    if b.len() == 0 || b[0] == 0 {
        0
    } else {
        1 + nul_index(b.drop_first())
    }
}

/// The bytes of `b` before its first NUL byte: what C reads as a string there.
pub open spec fn c_string_bytes(b: Seq<u8>) -> Seq<u8> {
    b.take(nul_index(b) as int)
}

/// `k` is the first NUL position of `b` (or its length when there is none).
pub proof fn lemma_nul_index(b: Seq<u8>, k: int)
    requires
        0 <= k <= b.len(),
        k == b.len() || b[k] == 0,
        forall|j: int| 0 <= j < k ==> b[j] != 0,
    ensures
        nul_index(b) == k,
    decreases k,
{
    if k > 0 {
        let t = b.drop_first();
        assert forall|j: int| 0 <= j < k - 1 implies t[j] != 0 by {
            assert(t[j] == b[j + 1]);
        }
        lemma_nul_index(t, k - 1);
    }
}

/// What `String::from_utf8_lossy` makes of `bytes`.
pub uninterp spec fn utf8_lossy(bytes: Seq<u8>) -> Seq<char>;

/// `String::from_utf8_lossy`, owned: decodes `bytes`, replacing invalid
/// sequences. The contract names the result and adds the documented fact that
/// valid UTF-8 is decoded unchanged.
#[verifier::external_body]
fn from_utf8_lossy(bytes: &[u8]) -> (s: String)
    ensures
        s@ == utf8_lossy(bytes@),
        valid_utf8(bytes@) ==> s@ == decode_utf8(bytes@),
{
    String::from_utf8_lossy(bytes).into_owned()
}

/// What `FromUtf8Error`'s `Display` shows for the invalid `bytes`.
pub uninterp spec fn utf8_error_text(bytes: Seq<u8>) -> Seq<char>;

/// `String::from_utf8`, its `FromUtf8Error` converted to its `Display` text:
/// `Ok` exactly for valid UTF-8, with the decoded characters; the error text
/// is named, not stated.
#[verifier::external_body]
pub(crate) fn string_from_utf8(bytes: Vec<u8>) -> (r: Result<String, String>)
    ensures
        r is Ok <==> valid_utf8(bytes@),
        r matches Ok(s) ==> s@ == decode_utf8(bytes@),
        r matches Err(m) ==> m@ == utf8_error_text(bytes@),
{
    match String::from_utf8(bytes) {
        Ok(text) => Ok(text),
        Err(error) => Err(error.to_string()),
    }
}

/// The text before the first NUL byte of `buffer`, decoded lossily (and
/// exactly, where those bytes are valid UTF-8).
pub fn read_buffer(buffer: &[u8]) -> (text: String)
    ensures
        text@ == utf8_lossy(c_string_bytes(buffer@)),
        valid_utf8(c_string_bytes(buffer@)) ==> text@ == decode_utf8(c_string_bytes(buffer@)),
{
    let n = buffer.len();
    let mut len: usize = 0;
    while len < n && buffer[len] != 0
        invariant
            n == buffer@.len(),
            len <= n,
            forall|j: int| 0 <= j < len ==> buffer@[j] != 0,
        decreases n - len,
    {
        len = len + 1;
    }
    proof {
        lemma_nul_index(buffer@, len as int);
    }
    let prefix = slice_subrange(buffer, 0, len);
    assert(prefix@ =~= c_string_bytes(buffer@));
    from_utf8_lossy(prefix)
}

/// Whether `s` can be handed to the host as a C string: it holds no NUL byte.
pub fn c_string_compatible(s: &str) -> (ok: bool)
    ensures
        ok == !s.spec_bytes().contains(0u8),
{
    let bytes = s.as_bytes();
    let n = bytes.len();
    for i in 0..n
        invariant
            n == bytes@.len(),
            bytes@ == s.spec_bytes(),
            forall|j: int| 0 <= j < i ==> bytes@[j] != 0,
    {
        if bytes[i] == 0 {
            assert(s.spec_bytes()[i as int] == 0u8);
            return false;
        }
    }
    true
}

/// `output` with a NUL byte at `terminator`, as it is read after the host's
/// unsupported-operation callback reported writing `written` bytes.
pub open spec fn terminated_output(output: Seq<u8>, written: nat) -> Seq<u8> {
    let terminator = if written < output.len() { written } else { (output.len() - 1) as nat };
    output.update(terminator as int, 0u8)
}

/// The message the host's unsupported-operation callback left in `output`
/// after reporting `written` bytes: none when it wrote nothing; otherwise the
/// text up to the first NUL, the buffer cut at `written` (or at its last
/// byte), decoded lossily.
pub fn host_message_from_output(output: Vec<u8>, written: usize) -> (message: Option<String>)
    requires
        output@.len() > 0,
    ensures
        written == 0 ==> message is None,
        written > 0 ==> (message matches Some(m) && m@ == utf8_lossy(
            c_string_bytes(terminated_output(output@, written as nat)),
        )),
{
    if written == 0 {
        return None;
    }
    let ghost received = output@;
    let mut output = output;
    let last = output.len() - 1;
    let terminator = if written < last { written } else { last };
    output.set(terminator, 0);
    assert(output@ =~= terminated_output(received, written as nat));
    Some(read_buffer(output.as_slice()))
}

/// What `nul_index` gives: a position no later than the end, holding a NUL
/// unless it is the end, with no NUL before it.
proof fn lemma_nul_index_bounds(b: Seq<u8>)
    ensures
        nul_index(b) <= b.len(),
        nul_index(b) < b.len() ==> b[nul_index(b) as int] == 0,
        forall|j: int| 0 <= j < nul_index(b) ==> b[j] != 0,
    decreases b.len(),
{
    if b.len() > 0 && b[0] != 0 {
        let t = b.drop_first();
        lemma_nul_index_bounds(t);
        assert forall|j: int| 0 <= j < nul_index(b) implies b[j] != 0 by {
            if j > 0 {
                assert(b[j] == t[j - 1]);
            }
        }
    }
}

/// Law: the message read back after the host's unsupported-operation
/// callback reported writing `written > 0` bytes into `output` is what C reads
/// as a string from the first `min(written, output.len() - 1)` bytes: the
/// whole of what the host reported writing when that is shorter than the
/// buffer, and the buffer but its last byte otherwise, cut at an earlier NUL.
/// In particular a report of `written < output.len()` bytes holding no NUL
/// gives exactly those bytes.
pub proof fn law_host_message_is_reported_bytes(output: Seq<u8>, written: nat)
    requires
        output.len() > 0,
        written > 0,
    ensures
        c_string_bytes(terminated_output(output, written)) == c_string_bytes(
            output.take(if written < output.len() { written as int } else { output.len() - 1 }),
        ),
        (written < output.len() && forall|j: int| 0 <= j < written ==> output[j] != 0)
            ==> c_string_bytes(terminated_output(output, written)) == output.take(written as int),
        written >= output.len() && (forall|j: int| 0 <= j < output.len() - 1 ==> output[j] != 0)
            ==> c_string_bytes(terminated_output(output, written)) == output.take(output.len() - 1),
{
    let k: int = if written < output.len() { written as int } else { output.len() - 1 };
    let t = terminated_output(output, written);
    let prefix = output.take(k);
    lemma_nul_index_bounds(prefix);
    let m = nul_index(prefix) as int;
    assert(t.len() == output.len());
    assert forall|j: int| 0 <= j < m implies t[j] != 0 by {
        assert(t[j] == output[j]);
        assert(prefix[j] == output[j]);
    }
    if m < k {
        assert(prefix[m] == 0);
        assert(t[m] == output[m]);
    } else {
        assert(t[k] == 0);
    }
    lemma_nul_index(t, m);
    assert(t.take(m) =~= prefix.take(m));
    if forall|j: int| 0 <= j < k ==> output[j] != 0 {
        assert forall|j: int| 0 <= j < k implies prefix[j] != 0 by {
            assert(prefix[j] == output[j]);
        }
        lemma_nul_index(prefix, k);
        assert(prefix.take(k) =~= prefix);
    }
}

/// `bytes` with `data.take(n)` written at the start and a NUL byte after it.
pub open spec fn with_c_string(bytes: Seq<u8>, data: Seq<u8>, n: int) -> Seq<u8> {
    data.take(n) + seq![0u8] + bytes.skip(n + 1)
}

/// How many bytes of `data` a truncating write puts in a buffer of
/// `capacity > 0` bytes: as many as fit before the terminating NUL.
pub open spec fn truncated_len(data: Seq<u8>, capacity: nat) -> nat {
    if data.len() < capacity {
        data.len()
    } else {
        (capacity - 1) as nat
    }
}

fn copy_c_string(buffer: &mut Vec<u8>, data: &[u8], n: usize)
    requires
        n <= data@.len(),
        n < old(buffer)@.len(),
    ensures
        final(buffer)@ == with_c_string(old(buffer)@, data@, n as int),
{
    let ghost start = buffer@;
    for i in 0..n
        invariant
            n <= data@.len(),
            n < start.len(),
            buffer@.len() == start.len(),
            forall|j: int| 0 <= j < i ==> buffer@[j] == data@[j],
            forall|j: int| i <= j < start.len() ==> buffer@[j] == start[j],
    {
        buffer.set(i, data[i]);
    }
    buffer.set(n, 0);
    assert(buffer@ =~= with_c_string(start, data@, n as int));
}

/// Writes as much of `message` as fits, and a terminating NUL, into
/// `buffer`; returns the number of message bytes written. A null or empty
/// buffer is left alone.
pub fn write_buffer(buffer: &mut Option<Vec<u8>>, message: &str) -> (written: usize)
    ensures
        match *old(buffer) {
            Some(b) if b@.len() > 0 => {
                &&& written == truncated_len(message.spec_bytes(), b@.len())
                &&& *final(buffer) matches Some(f)
                &&& f@ == with_c_string(b@, message.spec_bytes(), written as int)
            },
            _ => written == 0 && *final(buffer) == *old(buffer),
        },
{
    let bytes = message.as_bytes();
    match buffer {
        None => 0,
        Some(b) => {
            let capacity = b.len();
            if capacity == 0 {
                return 0;
            }
            let n = if bytes.len() < capacity {
                bytes.len()
            } else {
                capacity - 1
            };
            copy_c_string(b, bytes, n);
            n
        },
    }
}

/// Writes all of `text` and a terminating NUL into `buffer` when they fit;
/// otherwise, or for a null or empty buffer, writes nothing and returns
/// `false`.
pub fn write_ffi_buffer(buffer: &mut Option<Vec<u8>>, text: &str) -> (ok: bool)
    ensures
        ok == (*old(buffer) matches Some(b) && text.spec_bytes().len() < b@.len()),
        ok ==> (*final(buffer) matches Some(f) && *old(buffer) matches Some(b) && f@
            == with_c_string(b@, text.spec_bytes(), text.spec_bytes().len() as int)),
        !ok ==> *final(buffer) == *old(buffer),
{
    let bytes = text.as_bytes();
    match buffer {
        None => false,
        Some(b) => {
            if b.len() == 0 || bytes.len() >= b.len() {
                return false;
            }
            copy_c_string(b, bytes, bytes.len());
            true
        },
    }
}

proof fn lemma_scalar_bytes_nonzero(c: char)
    requires
        c != '\0',
    ensures
        forall|i: int| 0 <= i < encode_scalar(c as u32).len() ==> #[trigger] encode_scalar(c as u32)[i] != 0,
{
    let u = c as u32;
    assert(u != 0);
    assert(u != 0 && u <= 0x7f ==> (u & 0x7f) as u8 != 0) by (bit_vector);
    assert((0xC0u8 | ((u >> 6) & 0x1F) as u8) != 0) by (bit_vector);
    assert((0xE0u8 | ((u >> 12) & 0x0F) as u8) != 0) by (bit_vector);
    assert((0xF0u8 | ((u >> 18) & 0x7) as u8) != 0) by (bit_vector);
    assert((0x80u8 | (u & 0x3F) as u8) != 0) by (bit_vector);
    assert((0x80u8 | ((u >> 6) & 0x3F) as u8) != 0) by (bit_vector);
    assert((0x80u8 | ((u >> 12) & 0x3F) as u8) != 0) by (bit_vector);
}

/// The UTF-8 encoding of characters other than NUL holds no NUL byte.
pub proof fn lemma_encoding_has_no_nul(chars: Seq<char>)
    requires
        !chars.contains('\0'),
    ensures
        forall|i: int| 0 <= i < encode_utf8(chars).len() ==> encode_utf8(chars)[i] != 0,
    decreases chars.len(),
{
    if chars.len() > 0 {
        let rest = chars.drop_first();
        assert(!rest.contains('\0')) by {
            if rest.contains('\0') {
                let k = choose|k: int| 0 <= k < rest.len() && rest[k] == '\0';
                assert(chars[k + 1] == '\0');
            }
        }
        assert(chars[0] != '\0') by {
            assert(chars.contains(chars[0]));
        }
        lemma_scalar_bytes_nonzero(chars[0]);
        lemma_encoding_has_no_nul(rest);
        let head = encode_scalar(chars[0] as u32);
        assert(encode_utf8(chars) == head + encode_utf8(rest));
        assert forall|i: int| 0 <= i < encode_utf8(chars).len() implies encode_utf8(chars)[i] != 0 by {
            if i < head.len() {
                assert(encode_utf8(chars)[i] == head[i]);
            } else {
                assert(encode_utf8(chars)[i] == encode_utf8(rest)[i - head.len()]);
            }
        }
    }
}

/// A C string written into a buffer is what a C read of the buffer yields,
/// when the written bytes hold no NUL.
pub proof fn lemma_c_string_read_back(bytes: Seq<u8>, data: Seq<u8>, n: int)
    requires
        0 <= n <= data.len(),
        n < bytes.len(),
        forall|i: int| 0 <= i < n ==> data[i] != 0,
    ensures
        c_string_bytes(with_c_string(bytes, data, n)) == data.take(n),
{
    let after = with_c_string(bytes, data, n);
    assert(after[n] == 0);
    assert forall|j: int| 0 <= j < n implies after[j] != 0 by {
        assert(after[j] == data[j]);
    }
    lemma_nul_index(after, n);
    assert(after.take(n) =~= data.take(n));
}

/// Law: after `write_buffer` puts a message without NUL characters into a
/// non-empty buffer, a read of the buffer yields the bytes written: the
/// message's UTF-8 encoding cut to what fits, and, when all of it fits,
/// exactly the message.
pub proof fn law_write_then_read(bytes: Seq<u8>, message: Seq<char>)
    requires
        bytes.len() > 0,
        !message.contains('\0'),
    ensures
        ({
            let data = encode_utf8(message);
            let n = truncated_len(data, bytes.len());
            &&& c_string_bytes(with_c_string(bytes, data, n as int)) == data.take(n as int)
            &&& n == data.len() ==> {
                &&& valid_utf8(c_string_bytes(with_c_string(bytes, data, n as int)))
                &&& decode_utf8(c_string_bytes(with_c_string(bytes, data, n as int))) == message
            }
        }),
{
    let data = encode_utf8(message);
    let n = truncated_len(data, bytes.len());
    lemma_encoding_has_no_nul(message);
    lemma_c_string_read_back(bytes, data, n as int);
    if n == data.len() {
        assert(data.take(n as int) =~= data);
        vstd::utf8::encode_utf8_valid_utf8(message);
        vstd::utf8::encode_utf8_decode_utf8(message);
    }
}

/// Law: `write_ffi_buffer` succeeds exactly when the text and its NUL fit,
/// and then a read of the buffer yields exactly the text (for text without
/// NUL characters).
pub proof fn law_ffi_write_then_read(bytes: Seq<u8>, text: Seq<char>)
    requires
        encode_utf8(text).len() < bytes.len(),
        !text.contains('\0'),
    ensures
        ({
            let data = encode_utf8(text);
            let after = with_c_string(bytes, data, data.len() as int);
            &&& valid_utf8(c_string_bytes(after))
            &&& decode_utf8(c_string_bytes(after)) == text
        }),
{
    let data = encode_utf8(text);
    lemma_encoding_has_no_nul(text);
    lemma_c_string_read_back(bytes, data, data.len() as int);
    assert(data.take(data.len() as int) =~= data);
    vstd::utf8::encode_utf8_valid_utf8(text);
    vstd::utf8::encode_utf8_decode_utf8(text);
}

} // verus!
