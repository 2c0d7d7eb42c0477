use std::string::FromUtf8Error;
use vstd::prelude::*;
use vstd::utf8::*;

verus! {

/// Why a source was refused as the contents of a string.
#[derive(Clone, Copy, Debug, PartialEq, Eq, Structural)]
pub enum EncodingError {
    /// The source is not well-formed UTF-8.
    InvalidText,
    /// The source holds a terminator byte, which may only end the text.
    EmbeddedTerminator,
}

/// The byte that ends a text string.
pub const NUL: u8 = 0;

/// The two bytes that fill a text string allocated without a source.
pub const FILL_EVEN: u8 = 78;

pub const FILL_ODD: u8 = 67;

/// A string that a foreign caller holds without ever touching its buffer's
/// allocator. It is allocated by `malloc`, inspected through `get` and
/// `get_len`, and given up by `free`, once. A terminator after the contents
/// is optional (see [`TerminatedNString`]).
pub trait NString<T>: Sized {
    /// What the string holds, any terminator left out, while it owns its
    /// buffer; `None` once it was freed.
    spec fn contents(&self) -> Option<Seq<T>>;

    /// What the buffer holds behind the contents.
    spec fn tail() -> Seq<T>;

    /// The contents of a string of the given length allocated without a
    /// source.
    spec fn filler(len: nat) -> Seq<T>;

    /// Why the given items cannot be the contents of a string, if they
    /// cannot.
    spec fn refusal(items: Seq<T>) -> Option<EncodingError>;

    /// Allocates a string. With a source, the string holds a copy of its
    /// first `len` items, unless they are refused; without one, it holds
    /// `len` items of filler.
    fn malloc(src: Option<&[T]>, len: usize) -> (r: Result<Self, EncodingError>)
        requires
            len + Self::tail().len() <= usize::MAX,
            src matches Some(s) ==> len <= s@.len(),
        ensures
            src matches Some(s) ==> (match Self::refusal(s@.take(len as int)) {
                Some(e) => r matches Err(x) && x == e,
                None => r matches Ok(h) && h.contents() == Some(s@.take(len as int)),
            }),
            src is None ==> (r matches Ok(h) && h.contents() == Some(Self::filler(len as nat))),
    ;

    /// Gives up the buffer. The string stays inspectable, and shows nothing.
    fn free(&mut self)
        requires
            old(self).contents() is Some,
        ensures
            final(self).contents() is None,
    ;

    /// Borrows the buffer from its first item on, any terminator included;
    /// `None` once the string was freed. What a string holds is never
    /// something that `malloc` refuses.
    fn get(&self) -> (r: Option<&[T]>)
        ensures
            shown(r) == exposed(self.contents(), Self::tail()),
            self.contents() matches Some(items) ==> Self::refusal(items) is None,
    ;

    /// The length of the contents, not counting any terminator.
    fn get_len(&self) -> (n: usize)
        ensures
            n == length(self.contents()),
    ;
}

/// An [`NString`] whose buffer, while it is owned, ends in exactly one
/// terminator that occurs nowhere in the contents.
pub trait TerminatedNString<T>: NString<T> {
    /// The item that ends the buffer.
    spec fn terminator() -> T;

    /// The tail is the terminator alone, and contents that hold the
    /// terminator are refused.
    proof fn terminated()
        ensures
            Self::tail() == seq![Self::terminator()],
            forall|items: Seq<T>| #[trigger]
                Self::refusal(items) is None ==> !items.contains(Self::terminator()),
    ;
}

/// What a string with the given contents and tail exposes of its buffer.
pub open spec fn exposed<T>(contents: Option<Seq<T>>, tail: Seq<T>) -> Option<Seq<T>> {
    match contents {
        Some(items) => Some(items + tail),
        None => None,
    }
}

/// The length that a string with the given contents reports.
pub open spec fn length<T>(contents: Option<Seq<T>>) -> nat {
    match contents {
        Some(items) => items.len(),
        None => 0,
    }
}

/// The items of a borrowed buffer, if one was handed out.
pub open spec fn shown<T>(r: Option<&[T]>) -> Option<Seq<T>> {
    match r {
        Some(b) => Some(b@),
        None => None,
    }
}

/// A text string: well-formed UTF-8 that a terminator follows and that holds
/// none itself, so that what `get` borrows reads as a C string.
#[derive(Debug, PartialEq, Eq, Hash)]
pub struct NCString {
    text: Option<String>,
}

impl NCString {
    #[verifier::type_invariant]
    spec fn well_formed(self) -> bool {
        self.text matches Some(s) ==> {
            let bytes = encode_utf8(s@);
            &&& 0 < bytes.len() <= usize::MAX
            &&& bytes.last() == NUL
            &&& !bytes.drop_last().contains(NUL)
        }
    }
}

impl NString<u8> for NCString {
    closed spec fn contents(&self) -> Option<Seq<u8>> {
        match self.text {
            Some(s) => Some(encode_utf8(s@).drop_last()),
            None => None,
        }
    }

    open spec fn tail() -> Seq<u8> {
        seq![NUL]
    }

    open spec fn filler(len: nat) -> Seq<u8> {
        Seq::new(len, |i: int| if i % 2 == 0 { FILL_EVEN } else { FILL_ODD })
    }

    open spec fn refusal(items: Seq<u8>) -> Option<EncodingError> {
        if items.contains(NUL) {
            Some(EncodingError::EmbeddedTerminator)
        } else if !valid_utf8(items) {
            Some(EncodingError::InvalidText)
        } else {
            None
        }
    }

    fn malloc(src: Option<&[u8]>, len: usize) -> (r: Result<Self, EncodingError>) {
        let mut chars: Vec<u8> = Vec::with_capacity(len + 1);
        match src {
            Some(s) => {
                let mut i: usize = 0;
                while i < len
                    invariant
                        src == Some(s),
                        i <= len <= s@.len(),
                        chars@ == s@.take(i as int),
                        !chars@.contains(NUL),
                    decreases len - i,
                {
                    let byte: u8 = s[i];
                    if byte == NUL {
                        assert(s@.take(len as int)[i as int] == NUL);
                        return Err(EncodingError::EmbeddedTerminator);
                    }
                    chars.push(byte);
                    assert(chars@ == s@.take(i + 1)) by {
                        assert(s@.take(i + 1) == s@.take(i as int).push(s@[i as int]));
                    }
                    assert(!chars@.contains(NUL)) by {
                        if chars@.contains(NUL) {
                            let j = choose|j: int| 0 <= j < chars@.len() && chars@[j] == NUL;
                            assert(j < i ==> s@.take(i as int)[j] == NUL);
                        }
                    }
                    i += 1;
                }
            },
            None => {
                let mut i: usize = 0;
                while i < len
                    invariant
                        i <= len,
                        chars@ == Self::filler(i as nat),
                    decreases len - i,
                {
                    chars.push(if i % 2 == 0 { FILL_EVEN } else { FILL_ODD });
                    assert(chars@ == Self::filler((i + 1) as nat));
                    i += 1;
                }
                proof {
                    lemma_filler_accepted(len as nat);
                }
            },
        }
        let ghost items = chars@;
        chars.push(NUL);
        proof {
            lemma_terminated_validity(items);
            assert(chars@.drop_last() == items);
        }
        match String::from_utf8(chars) {
            Ok(text) => Ok(NCString { text: Some(text) }),
            Err(_) => Err(EncodingError::InvalidText),
        }
    }

    fn free(&mut self) {
        self.text = None;
    }

    fn get(&self) -> (r: Option<&[u8]>) {
        proof {
            use_type_invariant(self);
        }
        match &self.text {
            Some(s) => {
                let buffer = s.as_str().as_bytes();
                proof {
                    encode_utf8_valid_utf8(s@);
                    lemma_terminated_validity(buffer@.drop_last());
                    assert(buffer@ == buffer@.drop_last().push(NUL));
                    assert(buffer@ == buffer@.drop_last() + seq![NUL]);
                }
                Some(buffer)
            },
            None => None,
        }
    }

    fn get_len(&self) -> (n: usize) {
        proof {
            use_type_invariant(self);
        }
        match &self.text {
            Some(s) => s.as_str().as_bytes().len() - 1,
            None => 0,
        }
    }
}

impl TerminatedNString<u8> for NCString {
    open spec fn terminator() -> u8 {
        NUL
    }

    proof fn terminated() {
    }
}

/// Bytes below 128 are well-formed UTF-8, each a character of its own.
pub proof fn lemma_ascii_valid(bytes: Seq<u8>)
    requires
        forall|i: int| 0 <= i < bytes.len() ==> bytes[i] < 128,
    ensures
        valid_utf8(bytes),
{
    assert(bytes.subrange(0, 0).len() == 0);
    assert(partial_valid_utf8(bytes, 0));
    assert forall|i: int| 0 <= i < bytes.len() implies #[trigger] is_leading_byte_width_1(
        bytes[i],
    ) by {}
    partial_valid_utf8_extend_ascii_block(bytes, 0, bytes.len() as int);
    assert(bytes.subrange(0, bytes.len() as int) == bytes);
}

/// A terminator behind a text decides nothing on whether it is well formed.
proof fn lemma_terminated_validity(items: Seq<u8>)
    ensures
        valid_utf8(items.push(NUL)) <==> valid_utf8(items),
{
    let bytes = items.push(NUL);
    let end = items.len() as int;
    if valid_utf8(items) {
        lemma_ascii_valid(seq![NUL]);
        valid_utf8_concat(items, seq![NUL]);
        assert(items + seq![NUL] == bytes);
    }
    if valid_utf8(bytes) {
        assert(!is_continuation_byte(bytes[end]));
        is_char_boundary_iff_not_is_continuation_byte(bytes, end);
        valid_utf8_split(bytes, end);
        assert(bytes.subrange(0, end) == items);
    }
}

/// The filler of a text string is never refused.
pub proof fn lemma_filler_accepted(len: nat)
    ensures
        NCString::refusal(NCString::filler(len)) is None,
{
    lemma_ascii_valid(NCString::filler(len));
}

/// A byte string: it holds whatever bytes it was given, and no terminator.
#[derive(Debug, PartialEq, Eq, Hash)]
pub struct NBString {
    bytes: Option<Vec<u8>>,
}

impl NString<u8> for NBString {
    closed spec fn contents(&self) -> Option<Seq<u8>> {
        match self.bytes {
            Some(v) => Some(v@),
            None => None,
        }
    }

    open spec fn tail() -> Seq<u8> {
        Seq::empty()
    }

    open spec fn filler(len: nat) -> Seq<u8> {
        Seq::new(len, |i: int| 0u8)
    }

    open spec fn refusal(items: Seq<u8>) -> Option<EncodingError> {
        None
    }

    fn malloc(src: Option<&[u8]>, len: usize) -> (r: Result<Self, EncodingError>) {
        let bytes: Vec<u8> = match src {
            Some(s) => {
                let mut bytes: Vec<u8> = Vec::with_capacity(len);
                let mut i: usize = 0;
                while i < len
                    invariant
                        i <= len <= s@.len(),
                        bytes@ == s@.take(i as int),
                    decreases len - i,
                {
                    bytes.push(s[i]);
                    assert(bytes@ == s@.take(i + 1)) by {
                        assert(s@.take(i + 1) == s@.take(i as int).push(s@[i as int]));
                    }
                    i += 1;
                }
                bytes
            },
            None => {
                let bytes: Vec<u8> = vec![0u8; len];
                assert(bytes@ == Self::filler(len as nat));
                bytes
            },
        };
        Ok(NBString { bytes: Some(bytes) })
    }

    fn free(&mut self) {
        self.bytes = None;
    }

    fn get(&self) -> (r: Option<&[u8]>) {
        match &self.bytes {
            Some(v) => {
                let buffer = v.as_slice();
                assert(buffer@ == buffer@ + Seq::<u8>::empty());
                Some(buffer)
            },
            None => None,
        }
    }

    fn get_len(&self) -> (n: usize) {
        match &self.bytes {
            Some(v) => v.len(),
            None => 0,
        }
    }
}

impl From<Vec<u8>> for NBString {
    /// Takes the bytes over as the contents of a byte string.
    fn from(value: Vec<u8>) -> (r: Self)
        ensures
            r.contents() == Some(value@),
    {
        NBString { bytes: Some(value) }
    }
}

impl vstd::std_specs::convert::FromSpecImpl<Vec<u8>> for NBString {
    open spec fn obeys_from_spec() -> bool {
        true
    }

    closed spec fn from_spec(v: Vec<u8>) -> Self {
        NBString { bytes: Some(v) }
    }
}

/// Round trip: where `malloc` is given a source whose first `len` items are
/// not refused, it returns a string of which `get_len` reports `len` and
/// `get` exposes a buffer that starts with exactly those items.
pub proof fn lemma_round_trip<T, S: NString<T>>(
    src: &[T],
    len: usize,
    r: Result<S, EncodingError>,
    buffer: Option<&[T]>,
    n: usize,
)
    requires
        len <= src@.len(),
        S::refusal(src@.take(len as int)) is None,
        call_ensures(S::malloc, (Some(src), len), r),
        r matches Ok(h) ==> call_ensures(S::get, (&h,), buffer) && call_ensures(
            S::get_len,
            (&h,),
            n,
        ),
    ensures
        r is Ok,
        n == len,
        buffer matches Some(b) && b@.take(n as int) == src@.take(len as int),
{
}

/// A text string is never allocated from a source that holds a terminator
/// among its first `len` bytes.
pub proof fn lemma_embedded_terminator_refused(
    src: &[u8],
    len: usize,
    r: Result<NCString, EncodingError>,
)
    requires
        len <= src@.len(),
        src@.take(len as int).contains(NUL),
        call_ensures(NCString::malloc, (Some(src), len), r),
    ensures
        r matches Err(e) && e == EncodingError::EmbeddedTerminator,
{
}

/// A text is refused exactly when it holds a terminator or is not
/// well-formed UTF-8 with a terminator behind it.
pub proof fn lemma_text_refused(items: Seq<u8>)
    ensures
        NCString::refusal(items) is None <==> !items.contains(NUL) && valid_utf8(items.push(NUL)),
{
    lemma_terminated_validity(items);
}

/// Once a string was freed, and so holds the contents that `free` leaves,
/// `get` hands out no buffer and `get_len` reports zero.
pub proof fn lemma_freed_shows_nothing<T, S: NString<T>>(h: S, buffer: Option<&[T]>, n: usize)
    requires
        h.contents() is None,
        call_ensures(S::get, (&h,), buffer),
        call_ensures(S::get_len, (&h,), n),
    ensures
        buffer is None,
        n == 0,
{
}

/// The error of `String::from_utf8`. Nothing is read from it.
#[verifier::external_type_specification]
#[verifier::external_body]
pub struct ExFromUtf8Error(FromUtf8Error);

/// `String::from_utf8` takes the bytes over as a string exactly when they are
/// well-formed UTF-8; the string's bytes are then the bytes given.
pub assume_specification[ String::from_utf8 ](vec: Vec<u8>) -> (r: Result<String, FromUtf8Error>)
    ensures
        r is Ok <==> valid_utf8(vec@),
        r matches Ok(s) ==> encode_utf8(s@) == vec@,
;

} // verus!
