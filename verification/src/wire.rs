//! The byte layout of message arguments.
//!
//! Every argument but a file descriptor occupies a whole number of 32-bit
//! words in the payload, least significant byte first. Strings and arrays
//! are a length word followed by their content, padded with zero bytes to
//! the next word boundary; a string's content ends with a zero byte that
//! its length counts. File descriptors take no room in the payload: they
//! travel in a list of their own, in argument order.

use crate::interface::ArgKind;
use vstd::prelude::*;

verus! {

/// The four bytes of a word, least significant first.
pub open spec fn word_bytes(w: u32) -> Seq<u8> {
    seq![
        (w % 256) as u8,
        (w / 256 % 256) as u8,
        (w / 65536 % 256) as u8,
        (w / 16777216) as u8,
    ]
}

/// The word whose bytes are the four of `b` from place `at` on.
pub open spec fn word_at(b: Seq<u8>, at: int) -> u32 {
    (b[at] + 256 * b[at + 1] + 65536 * b[at + 2] + 16777216 * b[at + 3]) as u32
}

/// The word that carries a signed value (two's complement).
pub open spec fn word_of_signed(x: i32) -> u32 {
    if x >= 0 {
        x as u32
    } else {
        (x + 0x1_0000_0000) as u32
    }
}

/// The signed value that a word carries (two's complement).
pub open spec fn signed_of_word(w: u32) -> i32 {
    if w < 0x8000_0000 {
        w as i32
    } else {
        (w - 0x1_0000_0000) as i32
    }
}

/// Reading back the bytes of a word gives the word.
pub proof fn lemma_word_roundtrip(w: u32)
    ensures
        word_bytes(w).len() == 4,
        word_at(word_bytes(w), 0) == w,
{
}

/// A signed value survives the trip through its word.
pub proof fn lemma_signed_roundtrip(x: i32)
    ensures
        signed_of_word(word_of_signed(x)) == x,
{
}

/// Appends the four bytes of `w` to `out`.
pub(crate) fn push_word(out: &mut Vec<u8>, w: u32)
    ensures
        final(out)@ == old(out)@ + word_bytes(w),
{
    out.push((w % 256) as u8);
    out.push((w / 256 % 256) as u8);
    out.push((w / 65536 % 256) as u8);
    out.push((w / 16777216) as u8);
}

/// Reads the word that starts at byte `at` of `bytes`.
fn read_word(bytes: &Vec<u8>, at: usize) -> (w: u32)
    requires
        at + 4 <= bytes.len(),
    ensures
        w == word_at(bytes@, at as int),
{
    let b0: u32 = bytes[at] as u32;
    let b1: u32 = bytes[at + 1] as u32;
    let b2: u32 = bytes[at + 2] as u32;
    let b3: u32 = bytes[at + 3] as u32;
    b0 + 256 * b1 + 65536 * b2 + 16777216 * b3
}

/// The word that carries `x`.
pub fn signed_to_word(x: i32) -> (w: u32)
    ensures
        w == word_of_signed(x),
{
    if x >= 0 {
        x as u32
    } else {
        ((x as i64) + 0x1_0000_0000i64) as u32
    }
}

/// The signed value that `w` carries.
pub fn word_to_signed(w: u32) -> (x: i32)
    ensures
        x == signed_of_word(w),
{
    if w < 0x8000_0000 {
        w as i32
    } else {
        ((w as i64) - 0x1_0000_0000i64) as i32
    }
}

/// The value of one message argument.
#[derive(Debug, PartialEq, Eq)]
pub enum Argument {
    /// A signed 32-bit integer.
    Int(i32),
    /// An unsigned 32-bit integer.
    Uint(u32),
    /// A signed 24.8 fixed-point number, as its raw 32 bits.
    Fixed(i32),
    /// A byte string, without its terminating zero byte.
    Str(Vec<u8>),
    /// The id of a protocol object.
    Object(u32),
    /// An opaque byte array.
    Array(Vec<u8>),
    /// A file descriptor.
    Fd(i32),
}

/// An argument as a mathematical value.
pub enum ArgValue {
    Int(i32),
    Uint(u32),
    Fixed(i32),
    Str(Seq<u8>),
    Object(u32),
    Array(Seq<u8>),
    Fd(i32),
}

impl View for Argument {
    type V = ArgValue;

    open spec fn view(&self) -> ArgValue {
        match *self {
            Argument::Int(x) => ArgValue::Int(x),
            Argument::Uint(x) => ArgValue::Uint(x),
            Argument::Fixed(x) => ArgValue::Fixed(x),
            Argument::Str(s) => ArgValue::Str(s@),
            Argument::Object(o) => ArgValue::Object(o),
            Argument::Array(a) => ArgValue::Array(a@),
            Argument::Fd(h) => ArgValue::Fd(h),
        }
    }
}

impl Clone for Argument {
    fn clone(&self) -> (copy: Argument)
        ensures
            copy@ == self@,
    {
        match self {
            Argument::Int(x) => Argument::Int(*x),
            Argument::Uint(x) => Argument::Uint(*x),
            Argument::Fixed(x) => Argument::Fixed(*x),
            Argument::Str(s) => Argument::Str(s.clone()),
            Argument::Object(o) => Argument::Object(*o),
            Argument::Array(a) => Argument::Array(a.clone()),
            Argument::Fd(h) => Argument::Fd(*h),
        }
    }
}

/// The values of a list of arguments.
pub open spec fn values(args: Seq<Argument>) -> Seq<ArgValue> {
    args.map_values(|a: Argument| a@)
}

/// The number of zero bytes that pad `n` bytes of content to a word boundary.
pub open spec fn padding(n: nat) -> nat {
    ((4 - n % 4) % 4) as nat
}

/// `n` zero bytes.
pub open spec fn zeros(n: nat) -> Seq<u8> {
    Seq::new(n, |i: int| 0u8)
}

/// The layout of variable-length content: its length as a word, the
/// content, and the padding.
pub open spec fn blob(content: Seq<u8>) -> Seq<u8> {
    word_bytes(content.len() as u32) + content + zeros(padding(content.len()))
}

impl ArgValue {
    /// The kind that a signature must name for this value.
    pub open spec fn kind(self) -> ArgKind {
        match self {
            ArgValue::Int(_) => ArgKind::Int,
            ArgValue::Uint(_) => ArgKind::Uint,
            ArgValue::Fixed(_) => ArgKind::Fixed,
            ArgValue::Str(_) => ArgKind::Str,
            ArgValue::Object(_) => ArgKind::Object,
            ArgValue::Array(_) => ArgKind::Array,
            ArgValue::Fd(_) => ArgKind::Fd,
        }
    }

    /// Whether the value has a layout: the length of a string with its
    /// terminator, or of an array, must fit in a word.
    pub open spec fn encodable(self) -> bool {
        match self {
            ArgValue::Str(s) => s.len() < u32::MAX,
            ArgValue::Array(a) => a.len() <= u32::MAX,
            _ => true,
        }
    }

    /// The bytes that the value contributes to the payload.
    pub open spec fn payload(self) -> Seq<u8> {
        match self {
            ArgValue::Int(x) => word_bytes(word_of_signed(x)),
            ArgValue::Uint(x) => word_bytes(x),
            ArgValue::Fixed(x) => word_bytes(word_of_signed(x)),
            ArgValue::Str(s) => blob(s.push(0u8)),
            ArgValue::Object(o) => word_bytes(o),
            ArgValue::Array(a) => blob(a),
            ArgValue::Fd(_) => Seq::empty(),
        }
    }

    /// The file descriptors that the value contributes.
    pub open spec fn fds(self) -> Seq<i32> {
        match self {
            ArgValue::Fd(h) => seq![h],
            _ => Seq::empty(),
        }
    }
}

/// Whether `args` can be sent under the signature `kinds`: one encodable
/// value of the right kind for each position.
pub open spec fn conforms(args: Seq<ArgValue>, kinds: Seq<ArgKind>) -> bool {
    &&& args.len() == kinds.len()
    &&& forall|i: int|
        0 <= i < args.len() ==> (#[trigger] args[i]).kind() == kinds[i] && args[i].encodable()
}

/// The payload of a list of arguments: the bytes of each, in order.
pub open spec fn payload_of(args: Seq<ArgValue>) -> Seq<u8>
    decreases args.len(),
{
    if args.len() == 0 {
        Seq::empty()
    } else {
        args[0].payload() + payload_of(args.skip(1))
    }
}

/// The file descriptors of a list of arguments, in order.
pub open spec fn fds_of(args: Seq<ArgValue>) -> Seq<i32>
    decreases args.len(),
{
    if args.len() == 0 {
        Seq::empty()
    } else {
        args[0].fds() + fds_of(args.skip(1))
    }
}

/// Variable-length content at the start of `bytes`: the content and the
/// number of bytes that its layout takes, or `None` where `bytes` is too
/// short for it.
pub open spec fn blob_at(bytes: Seq<u8>) -> Option<(Seq<u8>, nat)> {
    if bytes.len() < 4 {
        None
    } else {
        let n = word_at(bytes, 0) as nat;
        let total = 4 + n + padding(n);
        if total > bytes.len() {
            None
        } else {
            Some((bytes.subrange(4, 4 + n as int), total))
        }
    }
}

/// One argument of kind `kind` at the start of `bytes` and `fds`: its
/// value, the bytes and the file descriptors that it takes; or `None`
/// where they do not hold one.
pub open spec fn read_arg(kind: ArgKind, bytes: Seq<u8>, fds: Seq<i32>) -> Option<
    (ArgValue, nat, nat),
> {
    match kind {
        ArgKind::Int => if bytes.len() < 4 {
            None
        } else {
            Some((ArgValue::Int(signed_of_word(word_at(bytes, 0))), 4, 0))
        },
        ArgKind::Uint => if bytes.len() < 4 {
            None
        } else {
            Some((ArgValue::Uint(word_at(bytes, 0)), 4, 0))
        },
        ArgKind::Fixed => if bytes.len() < 4 {
            None
        } else {
            Some((ArgValue::Fixed(signed_of_word(word_at(bytes, 0))), 4, 0))
        },
        ArgKind::Object => if bytes.len() < 4 {
            None
        } else {
            Some((ArgValue::Object(word_at(bytes, 0)), 4, 0))
        },
        ArgKind::Str => match blob_at(bytes) {
            None => None,
            Some((content, total)) => if content.len() == 0 || content.last() != 0 {
                None
            } else {
                Some((ArgValue::Str(content.drop_last()), total, 0))
            },
        },
        ArgKind::Array => match blob_at(bytes) {
            None => None,
            Some((content, total)) => Some((ArgValue::Array(content), total, 0)),
        },
        ArgKind::Fd => if fds.len() == 0 {
            None
        } else {
            Some((ArgValue::Fd(fds[0]), 0, 1))
        },
    }
}

/// The arguments that `bytes` and `fds` hold under the signature `kinds`,
/// or `None` where they do not hold exactly one argument for each kind:
/// too little for some argument, a string without its terminator, or
/// bytes or file descriptors left over.
pub open spec fn decode(kinds: Seq<ArgKind>, bytes: Seq<u8>, fds: Seq<i32>) -> Option<
    Seq<ArgValue>,
>
    decreases kinds.len(),
{
    if kinds.len() == 0 {
        if bytes.len() == 0 && fds.len() == 0 {
            Some(Seq::empty())
        } else {
            None
        }
    } else {
        match read_arg(kinds[0], bytes, fds) {
            None => None,
            Some((v, n, m)) => match decode(kinds.skip(1), bytes.skip(n as int), fds.skip(m as int)) {
                None => None,
                Some(rest) => Some(seq![v] + rest),
            },
        }
    }
}

/// `prefix` in front of a decoded rest, where there is one.
pub open spec fn prepend(prefix: Seq<ArgValue>, rest: Option<Seq<ArgValue>>) -> Option<
    Seq<ArgValue>,
> {
    match rest {
        None => None,
        Some(r) => Some(prefix + r),
    }
}

/// The kind of an argument.
pub fn kind_of(a: &Argument) -> (k: ArgKind)
    ensures
        k == a@.kind(),
{
    match a {
        Argument::Int(_) => ArgKind::Int,
        Argument::Uint(_) => ArgKind::Uint,
        Argument::Fixed(_) => ArgKind::Fixed,
        Argument::Str(_) => ArgKind::Str,
        Argument::Object(_) => ArgKind::Object,
        Argument::Array(_) => ArgKind::Array,
        Argument::Fd(_) => ArgKind::Fd,
    }
}

/// Whether an argument has a layout.
pub fn is_encodable(a: &Argument) -> (b: bool)
    ensures
        b == a@.encodable(),
{
    match a {
        Argument::Str(s) => (s.len() as u64) < (u32::MAX as u64),
        Argument::Array(c) => (c.len() as u64) <= (u32::MAX as u64),
        _ => true,
    }
}

/// The bytes of `bytes` from `from` up to `to`.
fn copy_range(bytes: &Vec<u8>, from: usize, to: usize) -> (out: Vec<u8>)
    requires
        from <= to <= bytes@.len(),
    ensures
        out@ == bytes@.subrange(from as int, to as int),
{
    let mut out: Vec<u8> = Vec::new();
    let mut i: usize = from;
    while i < to
        invariant
            from <= i <= to <= bytes@.len(),
            out@ == bytes@.subrange(from as int, i as int),
        decreases to - i,
    {
        out.push(bytes[i]);
        i = i + 1;
    }
    out
}

/// Appends `content`, then a zero byte if `terminated`, laid out as
/// variable-length content.
fn push_blob(out: &mut Vec<u8>, content: &Vec<u8>, terminated: bool)
    requires
        content@.len() + (if terminated { 1int } else { 0int }) <= u32::MAX,
    ensures
        final(out)@ == old(out)@ + blob(
            if terminated {
                content@.push(0u8)
            } else {
                content@
            },
        ),
{
    let ghost whole = if terminated {
        content@.push(0u8)
    } else {
        content@
    };
    let n: usize = content.len();
    let len: u32 = if terminated {
        (n + 1) as u32
    } else {
        n as u32
    };
    push_word(out, len);
    let mut i: usize = 0;
    while i < n
        invariant
            i <= n == content@.len(),
            out@ == old(out)@ + word_bytes(len) + content@.take(i as int),
        decreases n - i,
    {
        out.push(content[i]);
        i = i + 1;
    }
    if terminated {
        out.push(0u8);
    }
    let pad: u32 = (4 - len % 4) % 4;
    let mut k: u32 = 0;
    while k < pad
        invariant
            k <= pad,
            out@ == old(out)@ + word_bytes(len) + whole + zeros(k as nat),
        decreases pad - k,
    {
        out.push(0u8);
        k = k + 1;
    }
}

/// Appends the layout of one argument to the payload `out` and its file
/// descriptor, if it is one, to `fds`.
fn encode_arg(out: &mut Vec<u8>, fds: &mut Vec<i32>, a: &Argument)
    requires
        a@.encodable(),
    ensures
        final(out)@ == old(out)@ + a@.payload(),
        final(fds)@ == old(fds)@ + a@.fds(),
{
    match a {
        Argument::Int(x) => {
            push_word(out, signed_to_word(*x));
        },
        Argument::Uint(x) => {
            push_word(out, *x);
        },
        Argument::Fixed(x) => {
            push_word(out, signed_to_word(*x));
        },
        Argument::Str(s) => {
            push_blob(out, s, true);
        },
        Argument::Object(o) => {
            push_word(out, *o);
        },
        Argument::Array(c) => {
            push_blob(out, c, false);
        },
        Argument::Fd(h) => {
            fds.push(*h);
        },
    }
}

/// Encodes `args` under the signature `kinds`: the payload and the file
/// descriptors, or `None` where the arguments do not conform to the
/// signature.
pub fn encode_args(kinds: &Vec<ArgKind>, args: &Vec<Argument>) -> (r: Option<(Vec<u8>, Vec<i32>)>)
    ensures
        r is Some <==> conforms(values(args@), kinds@),
        r matches Some((bytes, fds)) ==> bytes@ == payload_of(values(args@)) && fds@ == fds_of(
            values(args@),
        ),
{
    let ghost vals = values(args@);
    if args.len() != kinds.len() {
        return None;
    }
    let mut bytes: Vec<u8> = Vec::new();
    let mut fds: Vec<i32> = Vec::new();
    let mut i: usize = 0;
    assert(vals.skip(0) =~= vals);
    while i < args.len()
        invariant
            i <= args@.len() == kinds@.len(),
            vals == values(args@),
            forall|j: int| 0 <= j < i ==> (#[trigger] vals[j]).kind() == kinds@[j] && vals[j].encodable(),
            bytes@ + payload_of(vals.skip(i as int)) == payload_of(vals),
            fds@ + fds_of(vals.skip(i as int)) == fds_of(vals),
        decreases args@.len() - i,
    {
        let a = &args[i];
        if kind_of(a) != kinds[i] || !is_encodable(a) {
            return None;
        }
        let ghost tail = vals.skip(i as int);
        assert(tail.skip(1) =~= vals.skip(i + 1));
        encode_arg(&mut bytes, &mut fds, a);
        i = i + 1;
    }
    Some((bytes, fds))
}

/// Reads one argument of kind `kind` at byte `pos` of `bytes` and at
/// place `fpos` of `fds`: the argument, and how many bytes and file
/// descriptors its layout takes.
fn read_one(kind: ArgKind, bytes: &Vec<u8>, pos: usize, fds: &Vec<i32>, fpos: usize) -> (r:
    Option<(Argument, usize, usize)>)
    requires
        pos <= bytes.len(),
        fpos <= fds.len(),
    ensures
        match r {
            Some((a, n, m)) => read_arg(kind, bytes@.skip(pos as int), fds@.skip(fpos as int))
                == Some((a@, n as nat, m as nat)) && pos + n <= bytes.len() && fpos + m
                <= fds.len(),
            None => read_arg(kind, bytes@.skip(pos as int), fds@.skip(fpos as int)) is None,
        },
{
    let ghost rest = bytes@.skip(pos as int);
    let len: usize = bytes.len();
    match kind {
        ArgKind::Fd => {
            if fpos < fds.len() {
                Some((Argument::Fd(fds[fpos]), 0, 1))
            } else {
                None
            }
        },
        _ => {
            if len - pos < 4 {
                return None;
            }
            let w: u32 = read_word(bytes, pos);
            match kind {
                ArgKind::Int => Some((Argument::Int(word_to_signed(w)), 4, 0)),
                ArgKind::Uint => Some((Argument::Uint(w), 4, 0)),
                ArgKind::Fixed => Some((Argument::Fixed(word_to_signed(w)), 4, 0)),
                ArgKind::Object => Some((Argument::Object(w), 4, 0)),
                _ => {
                    let pad: u32 = (4 - w % 4) % 4;
                    let total: u64 = 4 + (w as u64) + (pad as u64);
                    if total > (len - pos) as u64 {
                        return None;
                    }
                    let start: usize = pos + 4;
                    let end: usize = start + (w as usize);
                    assert(rest.subrange(4, 4 + w as int) =~= bytes@.subrange(
                        start as int,
                        end as int,
                    ));
                    match kind {
                        ArgKind::Str => {
                            if w == 0 || bytes[end - 1] != 0 {
                                return None;
                            }
                            let content = copy_range(bytes, start, end - 1);
                            assert(content@ =~= bytes@.subrange(
                                start as int,
                                end as int,
                            ).drop_last());
                            Some((Argument::Str(content), total as usize, 0))
                        },
                        _ => {
                            let content = copy_range(bytes, start, end);
                            Some((Argument::Array(content), total as usize, 0))
                        },
                    }
                },
            }
        },
    }
}

/// Decodes the arguments that `bytes` and `fds` hold under the signature
/// `kinds`, or `None` where they are malformed for it.
pub fn decode_args(kinds: &Vec<ArgKind>, bytes: &Vec<u8>, fds: &Vec<i32>) -> (r: Option<
    Vec<Argument>,
>)
    ensures
        match r {
            Some(args) => decode(kinds@, bytes@, fds@) == Some(values(args@)),
            None => decode(kinds@, bytes@, fds@) is None,
        },
{
    let mut done: Vec<Argument> = Vec::new();
    let mut pos: usize = 0;
    let mut fpos: usize = 0;
    let mut i: usize = 0;
    assert(bytes@.skip(0) =~= bytes@ && fds@.skip(0) =~= fds@ && kinds@.skip(0) =~= kinds@);
    while i < kinds.len()
        invariant
            i <= kinds@.len(),
            pos <= bytes.len(),
            fpos <= fds.len(),
            decode(kinds@, bytes@, fds@) == prepend(
                values(done@),
                decode(kinds@.skip(i as int), bytes@.skip(pos as int), fds@.skip(fpos as int)),
            ),
        decreases kinds@.len() - i,
    {
        let ghost ks = kinds@.skip(i as int);
        let ghost bs = bytes@.skip(pos as int);
        let ghost fs = fds@.skip(fpos as int);
        match read_one(kinds[i], bytes, pos, fds, fpos) {
            None => {
                return None;
            },
            Some((a, n, m)) => {
                assert(ks.skip(1) =~= kinds@.skip(i + 1));
                assert(bs.skip(n as int) =~= bytes@.skip(pos + n));
                assert(fs.skip(m as int) =~= fds@.skip(fpos + m));
                done.push(a);
                pos = pos + n;
                fpos = fpos + m;
                i = i + 1;
            },
        }
    }
    if pos == bytes.len() && fpos == fds.len() {
        Some(done)
    } else {
        None
    }
}

/// An argument is read back from the start of anything that begins with
/// its layout.
pub proof fn lemma_read_arg_reads_payload(a: ArgValue, bytes: Seq<u8>, fds: Seq<i32>)
    requires
        a.encodable(),
    ensures
        read_arg(a.kind(), a.payload() + bytes, a.fds() + fds) == Some(
            (a, a.payload().len(), a.fds().len()),
        ),
{
    let all = a.payload() + bytes;
    match a {
        ArgValue::Int(x) => {
            lemma_word_roundtrip(word_of_signed(x));
            lemma_signed_roundtrip(x);
        },
        ArgValue::Uint(x) => {
            lemma_word_roundtrip(x);
        },
        ArgValue::Fixed(x) => {
            lemma_word_roundtrip(word_of_signed(x));
            lemma_signed_roundtrip(x);
        },
        ArgValue::Object(o) => {
            lemma_word_roundtrip(o);
        },
        ArgValue::Str(s) => {
            let content = s.push(0u8);
            lemma_word_roundtrip(content.len() as u32);
            assert(all.subrange(4, 4 + content.len() as int) =~= content);
            assert(content.drop_last() =~= s);
        },
        ArgValue::Array(c) => {
            lemma_word_roundtrip(c.len() as u32);
            assert(all.subrange(4, 4 + c.len() as int) =~= c);
        },
        ArgValue::Fd(_) => {},
    }
}

/// Decoding what was encoded gives the arguments back: for every list of
/// arguments that conforms to a signature, the payload and the file
/// descriptors of the list decode, under that signature, to the list.
pub proof fn lemma_decode_inverts_encode(kinds: Seq<ArgKind>, args: Seq<ArgValue>)
    requires
        conforms(args, kinds),
    ensures
        decode(kinds, payload_of(args), fds_of(args)) == Some(args),
    decreases args.len(),
{
    if args.len() > 0 {
        let a = args[0];
        let rest = args.skip(1);
        let bytes = payload_of(rest);
        let fds = fds_of(rest);
        lemma_read_arg_reads_payload(a, bytes, fds);
        lemma_decode_inverts_encode(kinds.skip(1), rest);
        assert((a.payload() + bytes).skip(a.payload().len() as int) =~= bytes);
        assert((a.fds() + fds).skip(a.fds().len() as int) =~= fds);
    }
}

} // verus!
