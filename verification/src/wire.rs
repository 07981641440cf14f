//! Frame primitives of the wire protocol: big-endian `u32` fields and
//! length-prefixed UTF-8 strings, read from and appended to byte buffers.

use crate::types::{records, Content};
use vstd::prelude::*;
use vstd::utf8::*;

verus! {

/// The four bytes of `value`, most significant first.
pub open spec fn u32_be(value: u32) -> Seq<u8> {
    seq![
        (value / 0x100_0000) as u8,
        ((value / 0x1_0000) % 0x100) as u8,
        ((value / 0x100) % 0x100) as u8,
        (value % 0x100) as u8,
    ]
}

/// The number whose big-endian bytes are `b0 b1 b2 b3`.
pub open spec fn be_u32(b0: u8, b1: u8, b2: u8, b3: u8) -> u32 {
    (b0 * 0x100_0000 + b1 * 0x1_0000 + b2 * 0x100 + b3) as u32
}

/// What a length looks like in a 32-bit length prefix: its low 32 bits.
pub open spec fn len_prefix(len: nat) -> u32 {
    (len % 0x1_0000_0000) as u32
}

/// The characters that a string field's bytes stand for. Well-formed UTF-8 decodes
/// to its characters; anything else decodes to `utf8_lossy` of the bytes.
pub open spec fn text_of(bytes: Seq<u8>) -> Seq<char> {
    if valid_utf8(bytes) {
        decode_utf8(bytes)
    } else {
        utf8_lossy(bytes)
    }
}

/// The frame of a string: the byte length of its UTF-8 encoding, then the encoding.
pub open spec fn string_frame(text: Seq<char>) -> Seq<u8> {
    u32_be(len_prefix(encode_utf8(text).len())) + encode_utf8(text)
}

/// The frames of `texts`, one after the other.
pub open spec fn string_frames(texts: Seq<Seq<char>>) -> Seq<u8>
    decreases texts.len(),
{
    if texts.len() == 0 {
        Seq::empty()
    } else {
        string_frame(texts[0]) + string_frames(texts.drop_first())
    }
}

/// The character sequences of `strings`.
pub open spec fn texts(strings: Seq<String>) -> Seq<Seq<char>> {
    strings.map_values(|s: String| s@)
}

/// Framing a list with one more string at its end appends that string's frame.
pub proof fn lemma_string_frames_push(list: Seq<Seq<char>>, last: Seq<char>)
    ensures
        string_frames(list.push(last)) == string_frames(list) + string_frame(last),
    decreases list.len(),
{
    if list.len() == 0 {
        assert(list.push(last).drop_first() =~= Seq::<Seq<char>>::empty());
        assert(string_frames(Seq::<Seq<char>>::empty()) =~= Seq::<u8>::empty());
    } else {
        lemma_string_frames_push(list.drop_first(), last);
        assert(list.push(last).drop_first() =~= list.drop_first().push(last));
    }
}

/// The byte at `at` and the position after it.
pub open spec fn take_u8(bytes: Seq<u8>, at: int) -> Option<(u8, int)> {
    if 0 <= at < bytes.len() {
        Some((bytes[at], at + 1))
    } else {
        None
    }
}

/// The big-endian `u32` at `at` and the position after it.
pub open spec fn take_u32(bytes: Seq<u8>, at: int) -> Option<(u32, int)> {
    if 0 <= at && at + 4 <= bytes.len() {
        Some((be_u32(bytes[at], bytes[at + 1], bytes[at + 2], bytes[at + 3]), at + 4))
    } else {
        None
    }
}

/// The string framed at `at` and the position after it.
pub open spec fn take_string(bytes: Seq<u8>, at: int) -> Option<(Seq<char>, int)> {
    match take_u32(bytes, at) {
        Some((len, start)) => {
            if start + len <= bytes.len() {
                Some((text_of(bytes.subrange(start, start + len)), start + len))
            } else {
                None
            }
        },
        None => None,
    }
}

/// The `count` strings framed one after the other from `at`, and the position after
/// the last of them.
pub open spec fn take_strings(bytes: Seq<u8>, at: int, count: nat) -> Option<
    (Seq<Seq<char>>, int),
>
    decreases count,
{
    if count == 0 {
        Some((Seq::empty(), at))
    } else {
        match take_string(bytes, at) {
            Some((first, next)) => match take_strings(bytes, next, (count - 1) as nat) {
                Some((rest, end)) => Some((seq![first] + rest, end)),
                None => None,
            },
            None => None,
        }
    }
}

/// What `String::from_utf8_lossy` makes of `bytes`.
pub uninterp spec fn utf8_lossy(bytes: Seq<u8>) -> Seq<char>;

/// Calls `String::from_utf8_lossy`, which never fails: the result is a function of
/// the bytes alone, and for well-formed UTF-8 it is the string that the bytes encode.
/// Ill-formed sequences come back as U+FFFD, which is not spelled out here.
#[verifier::external_body]
pub(crate) fn decode_lossy(bytes: &[u8]) -> (text: String)
    ensures
        text@ == utf8_lossy(bytes@),
        valid_utf8(bytes@) ==> text@ == decode_utf8(bytes@),
{
    String::from_utf8_lossy(bytes).into_owned()
}

/// Appends the big-endian bytes of `value`.
pub fn write_u32(content: &mut Vec<u8>, value: u32)
    ensures
        final(content)@ == old(content)@ + u32_be(value),
{
    content.push((value / 0x100_0000) as u8);
    content.push(((value / 0x1_0000) % 0x100) as u8);
    content.push(((value / 0x100) % 0x100) as u8);
    content.push((value % 0x100) as u8);
}

/// Appends the frame of `value`.
pub fn write_string(content: &mut Vec<u8>, value: &String)
    ensures
        final(content)@ == old(content)@ + string_frame(value@),
{
    let bytes = value.as_str().as_bytes();
    let len: u64 = bytes.len() as u64;
    write_u32(content, (len % 0x1_0000_0000) as u32);
    let ghost framed = content@;
    let mut i: usize = 0;
    while i < bytes.len()
        invariant
            i <= bytes.len(),
            content@ == framed + bytes@.subrange(0, i as int),
        decreases bytes.len() - i,
    {
        content.push(bytes[i]);
        i += 1;
    }
}

/// Appends the frames of `values`, in order.
pub fn write_strings(content: &mut Vec<u8>, values: &Vec<String>)
    ensures
        final(content)@ == old(content)@ + string_frames(texts(values@)),
{
    let mut i: usize = 0;
    while i < values.len()
        invariant
            i <= values.len(),
            content@ == old(content)@ + string_frames(texts(values@).subrange(0, i as int)),
        decreases values.len() - i,
    {
        write_string(content, &values[i]);
        proof {
            let done = texts(values@).subrange(0, i as int);
            lemma_string_frames_push(done, values[i as int]@);
            assert(done.push(values[i as int]@) =~= texts(values@).subrange(0, i + 1));
        }
        i += 1;
    }
    assert(texts(values@).subrange(0, i as int) =~= texts(values@));
}

/// Appends the frames of the values of `contents`, in order.
pub fn write_contents(content: &mut Vec<u8>, contents: &Vec<Content>)
    ensures
        final(content)@ == old(content)@ + string_frames(records(contents@)),
{
    let mut i: usize = 0;
    while i < contents.len()
        invariant
            i <= contents.len(),
            content@ == old(content)@ + string_frames(records(contents@).subrange(0, i as int)),
        decreases contents.len() - i,
    {
        write_string(content, &contents[i].value);
        proof {
            let done = records(contents@).subrange(0, i as int);
            lemma_string_frames_push(done, contents[i as int]@);
            assert(done.push(contents[i as int]@) =~= records(contents@).subrange(0, i + 1));
        }
        i += 1;
    }
    assert(records(contents@).subrange(0, i as int) =~= records(contents@));
}

/// A cursor over a byte buffer.
pub struct Buffer<'a> {
    position: usize,
    buffer: &'a [u8],
}

impl<'a> Buffer<'a> {
    /// The cursor is inside the buffer or at its end.
    #[verifier::type_invariant]
    spec fn inside(&self) -> bool {
        self.position <= self.buffer@.len()
    }

    /// The bytes under the cursor.
    pub closed spec fn bytes(&self) -> Seq<u8> {
        self.buffer@
    }

    /// Where the cursor stands.
    pub closed spec fn at(&self) -> int {
        self.position as int
    }

    /// A cursor at the start of `buffer`.
    pub fn new(buffer: &'a [u8]) -> (reader: Buffer<'a>)
        ensures
            reader.bytes() == buffer@,
            reader.at() == 0,
    {
        Buffer { position: 0, buffer }
    }

    /// Reads one byte, or nothing at the end of the buffer.
    pub fn read_u8(&mut self) -> (data: Option<u8>)
        ensures
            final(self).bytes() == old(self).bytes(),
            match take_u8(old(self).bytes(), old(self).at()) {
                Some((value, next)) => data == Some(value) && final(self).at() == next,
                None => data is None,
            },
    {
        proof {
            use_type_invariant(&*self);
        }
        if self.position < self.buffer.len() {
            let data: u8 = self.buffer[self.position];
            self.position += 1;
            Some(data)
        } else {
            None
        }
    }

    /// Reads a big-endian `u32`, or nothing where fewer than four bytes are left.
    pub fn read_u32(&mut self) -> (data: Option<u32>)
        ensures
            final(self).bytes() == old(self).bytes(),
            match take_u32(old(self).bytes(), old(self).at()) {
                Some((value, next)) => data == Some(value) && final(self).at() == next,
                None => data is None,
            },
    {
        proof {
            use_type_invariant(&*self);
        }
        if self.buffer.len() - self.position < 4 {
            return None;
        }
        let b0: u32 = self.buffer[self.position] as u32;
        let b1: u32 = self.buffer[self.position + 1] as u32;
        let b2: u32 = self.buffer[self.position + 2] as u32;
        let b3: u32 = self.buffer[self.position + 3] as u32;
        self.position += 4;
        Some(b0 * 0x100_0000 + b1 * 0x1_0000 + b2 * 0x100 + b3)
    }

    /// Reads a framed string, or nothing where the frame runs past the buffer.
    pub fn read_string(&mut self) -> (data: Option<String>)
        ensures
            final(self).bytes() == old(self).bytes(),
            match take_string(old(self).bytes(), old(self).at()) {
                Some((text, next)) => data is Some && data->0@ == text
                    && final(self).at() == next,
                None => data is None,
            },
    {
        let string_size: usize = match self.read_u32() {
            Some(size) => size as usize,
            None => {
                return None;
            },
        };
        proof {
            use_type_invariant(&*self);
        }
        if self.buffer.len() - self.position < string_size {
            return None;
        }
        let data = decode_lossy(&self.buffer[self.position..self.position + string_size]);
        self.position += string_size;
        Some(data)
    }

    /// Reads `count` framed strings, or nothing where one of them runs past the buffer.
    pub fn read_strings(&mut self, count: u32) -> (data: Option<Vec<String>>)
        ensures
            final(self).bytes() == old(self).bytes(),
            match take_strings(old(self).bytes(), old(self).at(), count as nat) {
                Some((list, next)) => data is Some && texts(data->0@) == list
                    && final(self).at() == next,
                None => data is None,
            },
    {
        let mut list: Vec<String> = Vec::new();
        let mut i: u32 = 0;
        while i < count
            invariant
                self.bytes() == old(self).bytes(),
                i <= count,
                take_strings(old(self).bytes(), old(self).at(), count as nat) == (match take_strings(
                    self.bytes(),
                    self.at(),
                    (count - i) as nat,
                ) {
                    Some((rest, end)) => Some((texts(list@) + rest, end)),
                    None => None,
                }),
            decreases count - i,
        {
            match self.read_string() {
                Some(value) => {
                    list.push(value);
                },
                None => {
                    return None;
                },
            }
            i += 1;
        }
        Some(list)
    }

    /// Reads `count` framed record payloads, or nothing where one of them runs past
    /// the buffer.
    pub fn read_contents(&mut self, count: u32) -> (data: Option<Vec<Content>>)
        ensures
            final(self).bytes() == old(self).bytes(),
            match take_strings(old(self).bytes(), old(self).at(), count as nat) {
                Some((list, next)) => data is Some && records(data->0@) == list
                    && final(self).at() == next,
                None => data is None,
            },
    {
        let mut list: Vec<Content> = Vec::new();
        let mut i: u32 = 0;
        while i < count
            invariant
                self.bytes() == old(self).bytes(),
                i <= count,
                take_strings(old(self).bytes(), old(self).at(), count as nat) == (match take_strings(
                    self.bytes(),
                    self.at(),
                    (count - i) as nat,
                ) {
                    Some((rest, end)) => Some((records(list@) + rest, end)),
                    None => None,
                }),
            decreases count - i,
        {
            match self.read_string() {
                Some(value) => {
                    list.push(Content::new(value));
                },
                None => {
                    return None;
                },
            }
            i += 1;
        }
        Some(list)
    }

    /// Whether the cursor has reached the end of the buffer.
    pub fn finished_read(&self) -> (finished: bool)
        ensures
            finished == (self.at() >= self.bytes().len()),
    {
        self.position >= self.buffer.len()
    }
}

} // verus!
