//! The 32-byte record through which a frame's parameters reach the kernel.
//!
//! The record is eight 32-bit words in the byte order of the machine:
//! display width and height, elapsed time, camera position x, y, z, yaw
//! and pitch. Width and height are plain unsigned numbers; the other six
//! are single-precision bit patterns, carried through bit for bit.

use vstd::prelude::*;
use vstd::endian::endianness;
use vstd::endian::Endian;
use crate::camera::CameraState;
use crate::camera::Pose;

verus! {

/// Size of the record in bytes.
pub const CONFIG_SIZE: usize = 32;

/// Number of words in the record.
pub const CONFIG_WORDS: usize = 8;

/// Byte `k` of a word, counted from the least significant.
pub open spec fn byte_of_word(word: u32, k: int) -> u8
    recommends
        0 <= k < 4,
{
    if k == 0 {
        (word % 0x100) as u8
    } else if k == 1 {
        (word / 0x100 % 0x100) as u8
    } else if k == 2 {
        (word / 0x1_0000 % 0x100) as u8
    } else {
        (word / 0x100_0000 % 0x100) as u8
    }
}

/// The word whose bytes, from the least significant, are `b0` to `b3`.
pub open spec fn word_of_bytes(b0: u8, b1: u8, b2: u8, b3: u8) -> u32 {
    (b0 + 0x100 * b1 + 0x1_0000 * b2 + 0x100_0000 * b3) as u32
}

/// The four bytes of a word in the given byte order.
pub open spec fn word_bytes(word: u32, order: Endian) -> Seq<u8> {
    match order {
        Endian::Little => seq![
            byte_of_word(word, 0),
            byte_of_word(word, 1),
            byte_of_word(word, 2),
            byte_of_word(word, 3),
        ],
        Endian::Big => seq![
            byte_of_word(word, 3),
            byte_of_word(word, 2),
            byte_of_word(word, 1),
            byte_of_word(word, 0),
        ],
    }
}

/// The word that four bytes spell in the given byte order.
pub open spec fn bytes_word(bytes: Seq<u8>, order: Endian) -> u32
    recommends
        bytes.len() == 4,
{
    match order {
        Endian::Little => word_of_bytes(bytes[0], bytes[1], bytes[2], bytes[3]),
        Endian::Big => word_of_bytes(bytes[3], bytes[2], bytes[1], bytes[0]),
    }
}

/// The bytes of a sequence of words, word after word.
pub open spec fn words_bytes(words: Seq<u32>, order: Endian) -> Seq<u8> {
    Seq::new(4 * words.len(), |i: int| word_bytes(words[i / 4], order)[i % 4])
}

/// The words that a sequence of bytes spells, four bytes to a word; bytes
/// after the last whole word are left out.
pub open spec fn bytes_words(bytes: Seq<u8>, order: Endian) -> Seq<u32> {
    Seq::new(bytes.len() / 4, |i: int| bytes_word(bytes.subrange(4 * i, 4 * i + 4), order))
}

/// A word comes back from its bytes, in either byte order.
pub proof fn lemma_word_roundtrip(word: u32, order: Endian)
    ensures
        word_bytes(word, order).len() == 4,
        bytes_word(word_bytes(word, order), order) == word,
{
}

/// Each byte comes back from the word that four bytes make.
proof fn lemma_byte_of_word_of_bytes(b0: u8, b1: u8, b2: u8, b3: u8)
    ensures
        byte_of_word(word_of_bytes(b0, b1, b2, b3), 0) == b0,
        byte_of_word(word_of_bytes(b0, b1, b2, b3), 1) == b1,
        byte_of_word(word_of_bytes(b0, b1, b2, b3), 2) == b2,
        byte_of_word(word_of_bytes(b0, b1, b2, b3), 3) == b3,
{
    let word: int = b0 + 0x100 * b1 + 0x1_0000 * b2 + 0x100_0000 * b3;
    assert(word == word_of_bytes(b0, b1, b2, b3));
    assert(word % 0x100 == b0);
    assert(word / 0x100 == b1 + 0x100 * b2 + 0x1_0000 * b3);
    assert(word / 0x1_0000 == b2 + 0x100 * b3);
    assert(word / 0x100_0000 == b3);
}

/// Four bytes come back from the word they spell, in either byte order.
pub proof fn lemma_bytes_roundtrip(bytes: Seq<u8>, order: Endian)
    requires
        bytes.len() == 4,
    ensures
        word_bytes(bytes_word(bytes, order), order) == bytes,
{
    match order {
        Endian::Little => lemma_byte_of_word_of_bytes(bytes[0], bytes[1], bytes[2], bytes[3]),
        Endian::Big => lemma_byte_of_word_of_bytes(bytes[3], bytes[2], bytes[1], bytes[0]),
    }
    assert(word_bytes(bytes_word(bytes, order), order) =~= bytes);
}

/// Word `i` of a sequence of words stands at byte offset `4 * i` of its
/// bytes.
pub proof fn lemma_word_at_offset(words: Seq<u32>, order: Endian, i: int)
    requires
        0 <= i < words.len(),
    ensures
        words_bytes(words, order).subrange(4 * i, 4 * i + 4) == word_bytes(words[i], order),
{
    let bytes = words_bytes(words, order);
    let four = bytes.subrange(4 * i, 4 * i + 4);
    let word = word_bytes(words[i], order);
    assert forall|k: int| 0 <= k < 4 implies four[k] == word[k] by {
        assert(four[k] == bytes[4 * i + k]);
        assert((4 * i + k) / 4 == i);
        assert((4 * i + k) % 4 == k);
    }
    assert(four =~= word);
}

/// Words come back from their bytes, in either byte order.
pub proof fn lemma_words_roundtrip(words: Seq<u32>, order: Endian)
    ensures
        words_bytes(words, order).len() == 4 * words.len(),
        bytes_words(words_bytes(words, order), order) == words,
{
    let bytes = words_bytes(words, order);
    let back = bytes_words(bytes, order);
    assert(back.len() == words.len());
    assert forall|i: int| 0 <= i < words.len() implies back[i] == words[i] by {
        lemma_word_at_offset(words, order, i);
        lemma_word_roundtrip(words[i], order);
    }
    assert(back =~= words);
}

/// Bytes, a whole number of words of them, come back from the words they
/// spell, in either byte order.
pub proof fn lemma_record_roundtrip(bytes: Seq<u8>, order: Endian)
    requires
        bytes.len() % 4 == 0,
    ensures
        words_bytes(bytes_words(bytes, order), order) == bytes,
{
    let words = bytes_words(bytes, order);
    let back = words_bytes(words, order);
    assert(back.len() == bytes.len());
    assert forall|j: int| 0 <= j < bytes.len() implies back[j] == bytes[j] by {
        let i = j / 4;
        let four = bytes.subrange(4 * i, 4 * i + 4);
        lemma_bytes_roundtrip(four, order);
        assert(words[i] == bytes_word(four, order));
        assert(four[j % 4] == bytes[4 * i + j % 4]);
    }
    assert(back =~= bytes);
}

/// The parameters of one frame, as the kernel reads them.
#[derive(Clone, Copy, Debug, PartialEq, Eq, Structural)]
pub struct FrameConfig {
    /// Display width in pixels.
    pub width: u32,
    /// Display height in pixels.
    pub height: u32,
    /// Elapsed time in seconds, a single-precision bit pattern.
    pub time: u32,
    /// Camera position, three single-precision bit patterns.
    pub x: u32,
    pub y: u32,
    pub z: u32,
    /// Camera heading, a single-precision bit pattern.
    pub yaw: u32,
    /// Camera elevation, a single-precision bit pattern.
    pub pitch: u32,
}

/// Why bytes could not be read as a record.
#[derive(Clone, Copy, Debug, PartialEq, Eq, Structural)]
pub enum DecodeError {
    /// The bytes are not `CONFIG_SIZE` bytes long.
    SizeMismatch { found: usize },
}

/// `bytemuck::PodCastError`, the error of bytemuck's checked casts. It is
/// carried from the read to `decode`, which looks no further into it.
#[verifier::external_type_specification]
#[verifier::external_body]
pub struct ExPodCastError(bytemuck::PodCastError);

impl FrameConfig {
    /// The eight words of the record in the order in which they are laid
    /// out: word `i` stands at byte offset `4 * i`.
    pub open spec fn words(self) -> Seq<u32> {
        seq![self.width, self.height, self.time, self.x, self.y, self.z, self.yaw, self.pitch]
    }

    /// The record that eight words make.
    pub open spec fn of_words(words: Seq<u32>) -> FrameConfig
        recommends
            words.len() == CONFIG_WORDS,
    {
        FrameConfig {
            width: words[0],
            height: words[1],
            time: words[2],
            x: words[3],
            y: words[4],
            z: words[5],
            yaw: words[6],
            pitch: words[7],
        }
    }

    /// The record for a display of `width` x `height` pixels at `time`,
    /// seen from `pose`.
    pub open spec fn of_pose(width: u32, height: u32, time: u32, pose: Pose) -> FrameConfig {
        FrameConfig {
            width,
            height,
            time,
            x: pose.x,
            y: pose.y,
            z: pose.z,
            yaw: pose.yaw,
            pitch: pose.pitch,
        }
    }

    /// The bytes of the record in the given byte order.
    pub open spec fn bytes(self, order: Endian) -> Seq<u8> {
        words_bytes(self.words(), order)
    }

    /// The bytes of the record on this machine.
    pub open spec fn encoding(self) -> Seq<u8> {
        self.bytes(endianness())
    }

    /// The record that `bytes` hold on this machine, if they are
    /// `CONFIG_SIZE` bytes.
    pub open spec fn decoding(bytes: Seq<u8>) -> Result<FrameConfig, DecodeError> {
        if bytes.len() == CONFIG_SIZE {
            Ok(FrameConfig::of_words(bytes_words(bytes, endianness())))
        } else {
            Err(DecodeError::SizeMismatch { found: bytes.len() as usize })
        }
    }

    /// The record for a display of `width` x `height` pixels at `time`,
    /// seen from where `camera` stands now.
    pub fn new(width: u32, height: u32, time: u32, camera: &CameraState) -> (config: FrameConfig)
        ensures
            config == FrameConfig::of_pose(width, height, time, camera@.pose),
    {
        let pose = camera.pose();
        FrameConfig {
            width,
            height,
            time,
            x: pose.x,
            y: pose.y,
            z: pose.z,
            yaw: pose.yaw,
            pitch: pose.pitch,
        }
    }

    /// The eight words of the record, in layout order.
    pub fn to_words(&self) -> (words: [u32; 8])
        ensures
            words@ == self.words(),
    {
        let words: [u32; 8] = [
            self.width,
            self.height,
            self.time,
            self.x,
            self.y,
            self.z,
            self.yaw,
            self.pitch,
        ];
        assert(words@ =~= self.words());
        words
    }

    /// The record that eight words make.
    pub fn from_words(words: &[u32; 8]) -> (config: FrameConfig)
        ensures
            config == FrameConfig::of_words(words@),
            config.words() == words@,
    {
        let config = FrameConfig {
            width: words[0],
            height: words[1],
            time: words[2],
            x: words[3],
            y: words[4],
            z: words[5],
            yaw: words[6],
            pitch: words[7],
        };
        assert(config.words() =~= words@);
        config
    }

    /// Lays the record out as the `CONFIG_SIZE` bytes that the kernel
    /// reads: word `i` at offset `4 * i`, in this machine's byte order.
    /// Decoding these bytes gives the record back, bit for bit.
    pub fn encode(&self) -> (bytes: Vec<u8>)
        ensures
            bytes@ == self.encoding(),
            bytes@.len() == CONFIG_SIZE,
            FrameConfig::decoding(bytes@) == Ok::<FrameConfig, DecodeError>(*self),
            forall|i: int|
                0 <= i < CONFIG_WORDS ==> #[trigger] bytes@.subrange(4 * i, 4 * i + 4)
                    == word_bytes(self.words()[i], endianness()),
    {
        let words = self.to_words();
        let bytes = native_bytes(&words);
        proof {
            lemma_decode_encode(*self);
            assert forall|i: int| 0 <= i < CONFIG_WORDS implies #[trigger] bytes@.subrange(
                4 * i,
                4 * i + 4,
            ) == word_bytes(self.words()[i], endianness()) by {
                lemma_word_at_offset(self.words(), endianness(), i);
            }
        }
        bytes
    }

    /// Reads a record back from its bytes. Fails exactly when there are
    /// not `CONFIG_SIZE` of them.
    pub fn decode(bytes: &[u8]) -> (out: Result<FrameConfig, DecodeError>)
        ensures
            out == FrameConfig::decoding(bytes@),
            out.is_ok() <==> bytes@.len() == CONFIG_SIZE,
    {
        match native_words(bytes) {
            Ok(words) => Ok(FrameConfig::from_words(&words)),
            Err(_) => Err(DecodeError::SizeMismatch { found: bytes.len() }),
        }
    }
}

/// `bytemuck::bytes_of` on eight words: the memory of the array, read as
/// bytes. The contract claims that these are the words' bytes, word after
/// word, each in this machine's byte order, which is what vstd names
/// `endianness()`.
#[verifier::external_body]
fn native_bytes(words: &[u32; 8]) -> (bytes: Vec<u8>)
    ensures
        bytes@ == words_bytes(words@, endianness()),
{
    bytemuck::bytes_of(words).to_vec()
}

/// `bytemuck::try_pod_read_unaligned` for eight words. The contract claims
/// that it fails exactly when there are not 32 bytes, and that otherwise
/// word `i` is spelt by the four bytes from offset `4 * i`, in this
/// machine's byte order, which is what vstd names `endianness()`.
#[verifier::external_body]
fn native_words(bytes: &[u8]) -> (out: Result<[u32; 8], bytemuck::PodCastError>)
    ensures
        out.is_ok() <==> bytes@.len() == CONFIG_SIZE,
        out matches Ok(words) ==> words@ == bytes_words(bytes@, endianness()),
{
    bytemuck::try_pod_read_unaligned::<[u32; 8]>(bytes)
}

/// The fields of a record come back from its words.
pub proof fn lemma_config_words_roundtrip(config: FrameConfig)
    ensures
        config.words().len() == CONFIG_WORDS,
        FrameConfig::of_words(config.words()) == config,
{
}

/// Decoding the encoding of a record gives the record back: every field,
/// bit for bit.
pub proof fn lemma_decode_encode(config: FrameConfig)
    ensures
        config.encoding().len() == CONFIG_SIZE,
        FrameConfig::decoding(config.encoding()) == Ok::<FrameConfig, DecodeError>(config),
{
    lemma_words_roundtrip(config.words(), endianness());
    lemma_config_words_roundtrip(config);
}

/// Encoding what `CONFIG_SIZE` bytes decode to gives the bytes back.
pub proof fn lemma_encode_decode(bytes: Seq<u8>)
    requires
        bytes.len() == CONFIG_SIZE,
    ensures
        FrameConfig::decoding(bytes) matches Ok(config) && config.encoding() == bytes,
{
    let words = bytes_words(bytes, endianness());
    let config = FrameConfig::of_words(words);
    assert(config.words() =~= words);
    lemma_record_roundtrip(bytes, endianness());
}

/// In either byte order, a record comes back from its bytes.
pub proof fn lemma_bytes_determine_config(config: FrameConfig, order: Endian)
    ensures
        FrameConfig::of_words(bytes_words(config.bytes(order), order)) == config,
{
    lemma_words_roundtrip(config.words(), order);
    lemma_config_words_roundtrip(config);
}

} // verus!
