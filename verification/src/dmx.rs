//! Reader for the binary scene-description format in which extracted map
//! geometry is stored: a string table, element headers, then the typed
//! attributes of each element.
//!
//! The reader never fails on short input: a value that runs past the end
//! reads as its default and leaves the reader at the end, as a buffered
//! file reader does. Inputs on which the format's tables are inconsistent
//! (a string index out of range, a negative table or byte count) have no
//! reading; [`parse_dmx_checked`] reports them.
use vstd::prelude::*;
use vstd::utf8::{decode_utf8, valid_utf8};

use crate::pod::{native_i32, native_u32, native_u64, pod_i32, pod_u32, pod_u64};

verus! {

/// The `k` bytes at `pos`, when there are that many.
pub open spec fn fixed_chunk(data: Seq<u8>, pos: nat, k: nat) -> Option<Seq<u8>> {
    if pos + k <= data.len() {
        Some(data.subrange(pos as int, (pos + k) as int))
    } else {
        None
    }
}

/// Where reading `k` bytes at `pos` leaves the reader: after them, or at the
/// end of the data when they run past it.
pub open spec fn advance(data: Seq<u8>, pos: nat, k: nat) -> nat {
    if pos + k <= data.len() {
        (pos + k) as nat
    } else {
        data.len()
    }
}

/// A read position in a byte buffer.
pub struct ByteCursor<'a> {
    pub data: &'a [u8],
    pub pos: usize,
}

impl<'a> ByteCursor<'a> {
    /// The position lies within the data or at its end.
    pub open spec fn wf(&self) -> bool {
        self.pos <= self.data@.len()
    }

    /// A cursor at the start of `data`.
    pub fn new(data: &'a [u8]) -> (cursor: Self)
        ensures
            cursor.data == data,
            cursor.pos == 0,
            cursor.wf(),
    {
        ByteCursor { data, pos: 0 }
    }

    /// Takes the next `k` bytes; when fewer remain, takes nothing and moves
    /// to the end.
    pub fn take(&mut self, k: usize) -> (chunk: Option<&'a [u8]>)
        requires
            old(self).wf(),
        ensures
            final(self).wf(),
            final(self).data == old(self).data,
            final(self).pos as nat == advance(old(self).data@, old(self).pos as nat, k as nat),
            match chunk {
                Some(c) => fixed_chunk(old(self).data@, old(self).pos as nat, k as nat) == Some(c@),
                None => fixed_chunk(old(self).data@, old(self).pos as nat, k as nat) is None,
            },
    {
        let len = self.data.len();
        if k <= len - self.pos {
            let start = self.pos;
            self.pos = start + k;
            Some(&self.data[start..start + k])
        } else {
            self.pos = len;
            None
        }
    }
}

/// A value stored in the format as a fixed number of bytes.
pub trait WireValue: Sized + Copy {
    /// Number of bytes of one value.
    spec fn width() -> nat;

    /// The value that `width()` bytes denote.
    spec fn decode(bytes: Seq<u8>) -> Self;

    /// The value read when the data ends first.
    spec fn fallback() -> Self;

    /// Reads one value at the cursor.
    fn read(cursor: &mut ByteCursor) -> (value: Self)
        requires
            old(cursor).wf(),
        ensures
            final(cursor).wf(),
            final(cursor).data == old(cursor).data,
            match fixed_chunk(old(cursor).data@, old(cursor).pos as nat, Self::width()) {
                Some(bytes) => value == Self::decode(bytes) && final(cursor).pos == old(cursor).pos
                    + Self::width(),
                None => value == Self::fallback() && final(cursor).pos == old(cursor).data@.len(),
            },
    ;
}

/// One value read at `pos`, and the position after it.
pub open spec fn wire_read<T: WireValue>(data: Seq<u8>, pos: nat) -> (T, nat) {
    match fixed_chunk(data, pos, T::width()) {
        Some(bytes) => (T::decode(bytes), (pos + T::width()) as nat),
        None => (T::fallback(), data.len()),
    }
}

/// `n` values read one after another from `pos`, and the position after them.
pub open spec fn wire_many<T: WireValue>(data: Seq<u8>, pos: nat, n: nat) -> (Seq<T>, nat)
    decreases n,
{
    if n == 0 {
        (Seq::empty(), pos)
    } else {
        let (front, mid) = wire_many::<T>(data, pos, (n - 1) as nat);
        let (last, end) = wire_read::<T>(data, mid);
        (front.push(last), end)
    }
}

/// How many items a count field announces: a count below one announces none.
pub open spec fn item_count(count: i32) -> nat {
    if count > 0 {
        count as nat
    } else {
        0
    }
}

impl WireValue for i32 {
    open spec fn width() -> nat {
        4
    }

    open spec fn decode(bytes: Seq<u8>) -> i32 {
        native_i32(bytes)
    }

    open spec fn fallback() -> i32 {
        0
    }

    fn read(cursor: &mut ByteCursor) -> (value: i32) {
        match cursor.take(4) {
            Some(bytes) => pod_i32(bytes),
            None => 0,
        }
    }
}

impl WireValue for u32 {
    open spec fn width() -> nat {
        4
    }

    open spec fn decode(bytes: Seq<u8>) -> u32 {
        native_u32(bytes)
    }

    open spec fn fallback() -> u32 {
        0
    }

    fn read(cursor: &mut ByteCursor) -> (value: u32) {
        match cursor.take(4) {
            Some(bytes) => pod_u32(bytes),
            None => 0,
        }
    }
}

impl WireValue for u64 {
    open spec fn width() -> nat {
        8
    }

    open spec fn decode(bytes: Seq<u8>) -> u64 {
        native_u64(bytes)
    }

    open spec fn fallback() -> u64 {
        0
    }

    fn read(cursor: &mut ByteCursor) -> (value: u64) {
        match cursor.take(8) {
            Some(bytes) => pod_u64(bytes),
            None => 0,
        }
    }
}

impl WireValue for u8 {
    open spec fn width() -> nat {
        1
    }

    open spec fn decode(bytes: Seq<u8>) -> u8 {
        bytes[0]
    }

    open spec fn fallback() -> u8 {
        0
    }

    fn read(cursor: &mut ByteCursor) -> (value: u8) {
        match cursor.take(1) {
            Some(bytes) => bytes[0],
            None => 0,
        }
    }
}

impl WireValue for bool {
    open spec fn width() -> nat {
        1
    }

    open spec fn decode(bytes: Seq<u8>) -> bool {
        bytes[0] != 0
    }

    open spec fn fallback() -> bool {
        false
    }

    fn read(cursor: &mut ByteCursor) -> (value: bool) {
        match cursor.take(1) {
            Some(bytes) => bytes[0] != 0,
            None => false,
        }
    }
}

/// Reads `count` values (none when `count` is below one).
pub fn read_many<T: WireValue>(cursor: &mut ByteCursor, count: i32) -> (values: Vec<T>)
    requires
        old(cursor).wf(),
    ensures
        final(cursor).wf(),
        final(cursor).data == old(cursor).data,
        (values@, final(cursor).pos as nat) == wire_many::<T>(
            old(cursor).data@,
            old(cursor).pos as nat,
            item_count(count),
        ),
{
    let ghost data = cursor.data@;
    let ghost start = cursor.pos as nat;
    let mut values: Vec<T> = Vec::new();
    let mut i: i32 = 0;
    while i < count
        invariant
            0 <= i,
            i as nat <= item_count(count),
            cursor.wf(),
            cursor.data@ == data,
            (values@, cursor.pos as nat) == wire_many::<T>(data, start, i as nat),
        decreases count - i,
    {
        let value = T::read(cursor);
        values.push(value);
        i = i + 1;
    }
    values
}


/// A two-component vector of 32-bit floats, kept as their bit patterns.
#[derive(Debug, Clone, Copy, PartialEq, Eq, Structural)]
pub struct Vec2Bits {
    pub x: u32,
    pub y: u32,
}

/// A three-component vector of 32-bit floats, kept as their bit patterns.
#[derive(Debug, Clone, Copy, PartialEq, Eq, Structural)]
pub struct Vec3Bits {
    pub x: u32,
    pub y: u32,
    pub z: u32,
}

/// A four-component vector of 32-bit floats, kept as their bit patterns.
#[derive(Debug, Clone, Copy, PartialEq, Eq, Structural)]
pub struct Vec4Bits {
    pub x: u32,
    pub y: u32,
    pub z: u32,
    pub w: u32,
}

/// A rotation quaternion of 32-bit floats, kept as their bit patterns.
#[derive(Debug, Clone, Copy, PartialEq, Eq, Structural)]
pub struct QuatBits {
    pub x: u32,
    pub y: u32,
    pub z: u32,
    pub w: u32,
}

/// A 4x4 matrix of 32-bit floats in column order, kept as bit patterns.
#[derive(Debug, Clone, Copy, PartialEq, Eq, Structural)]
pub struct Mat4Bits {
    pub x_axis: Vec4Bits,
    pub y_axis: Vec4Bits,
    pub z_axis: Vec4Bits,
    pub w_axis: Vec4Bits,
}

/// Bit pattern of the float 1.0.
pub const ONE_BITS: u32 = 0x3f80_0000;

/// The 32-bit word at byte offset `at` of `bytes`.
pub open spec fn word(bytes: Seq<u8>, at: int) -> u32 {
    native_u32(bytes.subrange(at, at + 4))
}

/// The four-component vector that sixteen bytes denote.
pub open spec fn vec4_of(bytes: Seq<u8>) -> Vec4Bits {
    Vec4Bits { x: word(bytes, 0), y: word(bytes, 4), z: word(bytes, 8), w: word(bytes, 12) }
}

/// Reads the word at byte offset `at` of `bytes`.
fn word_at(bytes: &[u8], at: usize) -> (value: u32)
    requires
        at + 4 <= bytes@.len() <= 16,
    ensures
        value == word(bytes@, at as int),
{
    pod_u32(&bytes[at..at + 4])
}

/// Reads a four-component vector from sixteen bytes.
fn vec4_from(bytes: &[u8]) -> (value: Vec4Bits)
    requires
        bytes@.len() == 16,
    ensures
        value == vec4_of(bytes@),
{
    Vec4Bits {
        x: word_at(bytes, 0),
        y: word_at(bytes, 4),
        z: word_at(bytes, 8),
        w: word_at(bytes, 12),
    }
}

impl WireValue for Vec2Bits {
    open spec fn width() -> nat {
        8
    }

    open spec fn decode(bytes: Seq<u8>) -> Vec2Bits {
        Vec2Bits { x: word(bytes, 0), y: word(bytes, 4) }
    }

    open spec fn fallback() -> Vec2Bits {
        Vec2Bits { x: 0, y: 0 }
    }

    fn read(cursor: &mut ByteCursor) -> (value: Vec2Bits) {
        match cursor.take(8) {
            Some(bytes) => Vec2Bits { x: word_at(bytes, 0), y: word_at(bytes, 4) },
            None => Vec2Bits { x: 0, y: 0 },
        }
    }
}

impl WireValue for Vec3Bits {
    open spec fn width() -> nat {
        12
    }

    open spec fn decode(bytes: Seq<u8>) -> Vec3Bits {
        Vec3Bits { x: word(bytes, 0), y: word(bytes, 4), z: word(bytes, 8) }
    }

    open spec fn fallback() -> Vec3Bits {
        Vec3Bits { x: 0, y: 0, z: 0 }
    }

    fn read(cursor: &mut ByteCursor) -> (value: Vec3Bits) {
        match cursor.take(12) {
            Some(bytes) => Vec3Bits {
                x: word_at(bytes, 0),
                y: word_at(bytes, 4),
                z: word_at(bytes, 8),
            },
            None => Vec3Bits { x: 0, y: 0, z: 0 },
        }
    }
}

impl WireValue for Vec4Bits {
    open spec fn width() -> nat {
        16
    }

    open spec fn decode(bytes: Seq<u8>) -> Vec4Bits {
        vec4_of(bytes)
    }

    open spec fn fallback() -> Vec4Bits {
        Vec4Bits { x: 0, y: 0, z: 0, w: 0 }
    }

    fn read(cursor: &mut ByteCursor) -> (value: Vec4Bits) {
        match cursor.take(16) {
            Some(bytes) => vec4_from(bytes),
            None => Vec4Bits { x: 0, y: 0, z: 0, w: 0 },
        }
    }
}

impl WireValue for QuatBits {
    open spec fn width() -> nat {
        16
    }

    open spec fn decode(bytes: Seq<u8>) -> QuatBits {
        QuatBits { x: word(bytes, 0), y: word(bytes, 4), z: word(bytes, 8), w: word(bytes, 12) }
    }

    /// The identity rotation, which the vector library gives by default.
    open spec fn fallback() -> QuatBits {
        QuatBits { x: 0, y: 0, z: 0, w: ONE_BITS }
    }

    fn read(cursor: &mut ByteCursor) -> (value: QuatBits) {
        match cursor.take(16) {
            Some(bytes) => QuatBits {
                x: word_at(bytes, 0),
                y: word_at(bytes, 4),
                z: word_at(bytes, 8),
                w: word_at(bytes, 12),
            },
            None => QuatBits { x: 0, y: 0, z: 0, w: ONE_BITS },
        }
    }
}

/// The identity matrix, which the vector library gives by default.
pub open spec fn identity_matrix() -> Mat4Bits {
    Mat4Bits {
        x_axis: Vec4Bits { x: ONE_BITS, y: 0, z: 0, w: 0 },
        y_axis: Vec4Bits { x: 0, y: ONE_BITS, z: 0, w: 0 },
        z_axis: Vec4Bits { x: 0, y: 0, z: ONE_BITS, w: 0 },
        w_axis: Vec4Bits { x: 0, y: 0, z: 0, w: ONE_BITS },
    }
}

impl WireValue for Mat4Bits {
    open spec fn width() -> nat {
        64
    }

    open spec fn decode(bytes: Seq<u8>) -> Mat4Bits {
        Mat4Bits {
            x_axis: vec4_of(bytes.subrange(0, 16)),
            y_axis: vec4_of(bytes.subrange(16, 32)),
            z_axis: vec4_of(bytes.subrange(32, 48)),
            w_axis: vec4_of(bytes.subrange(48, 64)),
        }
    }

    open spec fn fallback() -> Mat4Bits {
        identity_matrix()
    }

    fn read(cursor: &mut ByteCursor) -> (value: Mat4Bits) {
        match cursor.take(64) {
            Some(bytes) => Mat4Bits {
                x_axis: vec4_from(&bytes[0..16]),
                y_axis: vec4_from(&bytes[16..32]),
                z_axis: vec4_from(&bytes[32..48]),
                w_axis: vec4_from(&bytes[48..64]),
            },
            None => Mat4Bits {
                x_axis: Vec4Bits { x: ONE_BITS, y: 0, z: 0, w: 0 },
                y_axis: Vec4Bits { x: 0, y: ONE_BITS, z: 0, w: 0 },
                z_axis: Vec4Bits { x: 0, y: 0, z: ONE_BITS, w: 0 },
                w_axis: Vec4Bits { x: 0, y: 0, z: 0, w: ONE_BITS },
            },
        }
    }
}

/// Index of the first zero byte at or after `pos`, or the end of the data.
pub open spec fn nul_position(data: Seq<u8>, pos: nat) -> nat
    decreases data.len() - pos,
{
    if pos >= data.len() {
        data.len()
    } else if data[pos as int] == 0 {
        pos
    } else {
        nul_position(data, pos + 1)
    }
}

/// The bytes of the zero-terminated string at `pos` (the terminator, or the
/// end of the data, closes it).
pub open spec fn string_bytes(data: Seq<u8>, pos: nat) -> Seq<u8> {
    data.subrange(pos as int, nul_position(data, pos) as int)
}

/// The position after the string at `pos` and its terminator.
pub open spec fn after_string(data: Seq<u8>, pos: nat) -> nat {
    if nul_position(data, pos) < data.len() {
        nul_position(data, pos) + 1
    } else {
        data.len()
    }
}

/// The text that string bytes stand for: their UTF-8 decoding, or the empty
/// text when they are not valid UTF-8.
pub open spec fn text_of(bytes: Seq<u8>) -> Seq<char> {
    if valid_utf8(bytes) {
        decode_utf8(bytes)
    } else {
        Seq::empty()
    }
}

/// `String::from_utf8`: the bytes become the string when they are valid
/// UTF-8, and an error otherwise (mapped to `None` here).
#[verifier::external_body]
fn string_from_utf8(bytes: Vec<u8>) -> (text: Option<String>)
    ensures
        text is Some <==> valid_utf8(bytes@),
        text matches Some(t) ==> t@ == decode_utf8(bytes@),
{
    String::from_utf8(bytes).ok()
}

/// Reads a zero-terminated string; bytes that are not UTF-8 read as the
/// empty string.
pub fn read_string(cursor: &mut ByteCursor) -> (text: String)
    requires
        old(cursor).wf(),
    ensures
        final(cursor).wf(),
        final(cursor).data == old(cursor).data,
        final(cursor).pos as nat == after_string(old(cursor).data@, old(cursor).pos as nat),
        text@ == text_of(string_bytes(old(cursor).data@, old(cursor).pos as nat)),
{
    let ghost data = cursor.data@;
    let ghost start = cursor.pos as nat;
    let len = cursor.data.len();
    let mut buffer: Vec<u8> = Vec::new();
    while cursor.pos < len && cursor.data[cursor.pos] != 0
        invariant
            cursor.wf(),
            cursor.data@ == data,
            len == data.len(),
            start <= cursor.pos,
            nul_position(data, start) == nul_position(data, cursor.pos as nat),
            buffer@ == data.subrange(start as int, cursor.pos as int),
        decreases len - cursor.pos,
    {
        buffer.push(cursor.data[cursor.pos]);
        cursor.pos = cursor.pos + 1;
    }
    if cursor.pos < len {
        cursor.pos = cursor.pos + 1;
    }
    match string_from_utf8(buffer) {
        Some(text) => text,
        None => String::new(),
    }
}

proof fn lemma_nul_after(data: Seq<u8>, pos: nat, end: nat)
    requires
        pos <= end < data.len(),
        data[end as int] == 0,
        forall|i: int| pos <= i < end ==> data[i] != 0,
    ensures
        nul_position(data, pos) == end,
    decreases end - pos,
{
    if pos < end {
        lemma_nul_after(data, pos + 1, end);
    }
}

/// A string stored as its bytes (none of them zero) and a zero byte reads
/// as the UTF-8 text of those bytes, and the reader moves past the zero;
/// bytes that are not UTF-8 read as the empty text.
pub proof fn law_zero_terminated_string(before: Seq<u8>, bytes: Seq<u8>, after: Seq<u8>)
    requires
        forall|i: int| 0 <= i < bytes.len() ==> bytes[i] != 0,
    ensures
        ({
            let data = before + bytes + seq![0u8] + after;
            &&& string_bytes(data, before.len()) == bytes
            &&& after_string(data, before.len()) == before.len() + bytes.len() + 1
            &&& valid_utf8(bytes) ==> text_of(string_bytes(data, before.len())) == decode_utf8(bytes)
            &&& !valid_utf8(bytes) ==> text_of(string_bytes(data, before.len())) == Seq::<char>::empty()
        }),
{
    let data = before + bytes + seq![0u8] + after;
    let end = before.len() + bytes.len();
    assert forall|i: int| before.len() <= i < end implies data[i] != 0 by {
        assert(data[i] == bytes[i - before.len()]);
    }
    lemma_nul_after(data, before.len(), end);
    assert(data.subrange(before.len() as int, end as int) =~= bytes);
}

/// The `count` bytes at `pos`; where the data ends first, the bytes that
/// remain followed by zeros up to `count`.
pub open spec fn padded_bytes(data: Seq<u8>, pos: nat, count: nat) -> Seq<u8> {
    Seq::new(count, |i: int| if pos + i < data.len() { data[pos + i] } else { 0u8 })
}

/// Reads `count` bytes; where the data ends first, the rest are zeros and
/// the cursor stops at the end.
pub fn read_bytes(cursor: &mut ByteCursor, count: usize) -> (bytes: Vec<u8>)
    requires
        old(cursor).wf(),
    ensures
        final(cursor).wf(),
        final(cursor).data == old(cursor).data,
        final(cursor).pos as nat == advance(old(cursor).data@, old(cursor).pos as nat, count as nat),
        bytes@ == padded_bytes(old(cursor).data@, old(cursor).pos as nat, count as nat),
{
    let ghost data = cursor.data@;
    let ghost start = cursor.pos as nat;
    let len = cursor.data.len();
    let mut bytes: Vec<u8> = Vec::new();
    let mut i: usize = 0;
    while i < count
        invariant
            cursor.wf(),
            cursor.data@ == data,
            len == data.len(),
            i <= count,
            cursor.pos as nat == if start + i <= len { (start + i) as nat } else { len as nat },
            bytes@ == padded_bytes(data, start, i as nat),
        decreases count - i,
    {
        if cursor.pos < len {
            bytes.push(cursor.data[cursor.pos]);
            cursor.pos = cursor.pos + 1;
        } else {
            bytes.push(0);
        }
        i = i + 1;
        assert(bytes@ =~= padded_bytes(data, start, i as nat));
    }
    bytes
}


/// A typed attribute value. Floats are kept as their bit patterns.
#[derive(Debug, Clone)]
pub enum Attribute {
    /// Index of another element, if any.
    Element(Option<i32>),
    Integer(i32),
    Float(u32),
    Bool(bool),
    String(String),
    ByteArray(Vec<u8>),
    TimeSpan(i32),
    Color(u32),
    Vec2(Vec2Bits),
    Vec3(Vec3Bits),
    Vec4(Vec4Bits),
    Angle(Vec3Bits),
    Quaternion(QuatBits),
    Matrix(Mat4Bits),
    U64(u64),
    Byte(u8),
    ElementArray(Vec<Option<i32>>),
    IntegerArray(Vec<i32>),
    FloatArray(Vec<u32>),
    BoolArray(Vec<bool>),
    StringArray(Vec<String>),
    TimeSpanArray(Vec<i32>),
    ColorArray(Vec<u32>),
    Vec2Array(Vec<Vec2Bits>),
    Vec3Array(Vec<Vec3Bits>),
    Vec4Array(Vec<Vec4Bits>),
    AngleArray(Vec<Vec3Bits>),
    QuaternionArray(Vec<QuatBits>),
    MatrixArray(Vec<Mat4Bits>),
    U64Array(Vec<u64>),
}

/// Mathematical model of an [`Attribute`]: sequences in place of vectors
/// and strings.
pub enum AttributeModel {
    Element(Option<i32>),
    Integer(i32),
    Float(u32),
    Bool(bool),
    String(Seq<char>),
    ByteArray(Seq<u8>),
    TimeSpan(i32),
    Color(u32),
    Vec2(Vec2Bits),
    Vec3(Vec3Bits),
    Vec4(Vec4Bits),
    Angle(Vec3Bits),
    Quaternion(QuatBits),
    Matrix(Mat4Bits),
    U64(u64),
    Byte(u8),
    ElementArray(Seq<Option<i32>>),
    IntegerArray(Seq<i32>),
    FloatArray(Seq<u32>),
    BoolArray(Seq<bool>),
    StringArray(Seq<Seq<char>>),
    TimeSpanArray(Seq<i32>),
    ColorArray(Seq<u32>),
    Vec2Array(Seq<Vec2Bits>),
    Vec3Array(Seq<Vec3Bits>),
    Vec4Array(Seq<Vec4Bits>),
    AngleArray(Seq<Vec3Bits>),
    QuaternionArray(Seq<QuatBits>),
    MatrixArray(Seq<Mat4Bits>),
    U64Array(Seq<u64>),
}

/// The texts of a list of strings.
pub open spec fn texts(strings: Seq<String>) -> Seq<Seq<char>> {
    strings.map_values(|s: String| s@)
}

impl View for Attribute {
    type V = AttributeModel;

    open spec fn view(&self) -> AttributeModel {
        match self {
            Attribute::Element(v) => AttributeModel::Element(*v),
            Attribute::Integer(v) => AttributeModel::Integer(*v),
            Attribute::Float(v) => AttributeModel::Float(*v),
            Attribute::Bool(v) => AttributeModel::Bool(*v),
            Attribute::String(v) => AttributeModel::String(v@),
            Attribute::ByteArray(v) => AttributeModel::ByteArray(v@),
            Attribute::TimeSpan(v) => AttributeModel::TimeSpan(*v),
            Attribute::Color(v) => AttributeModel::Color(*v),
            Attribute::Vec2(v) => AttributeModel::Vec2(*v),
            Attribute::Vec3(v) => AttributeModel::Vec3(*v),
            Attribute::Vec4(v) => AttributeModel::Vec4(*v),
            Attribute::Angle(v) => AttributeModel::Angle(*v),
            Attribute::Quaternion(v) => AttributeModel::Quaternion(*v),
            Attribute::Matrix(v) => AttributeModel::Matrix(*v),
            Attribute::U64(v) => AttributeModel::U64(*v),
            Attribute::Byte(v) => AttributeModel::Byte(*v),
            Attribute::ElementArray(v) => AttributeModel::ElementArray(v@),
            Attribute::IntegerArray(v) => AttributeModel::IntegerArray(v@),
            Attribute::FloatArray(v) => AttributeModel::FloatArray(v@),
            Attribute::BoolArray(v) => AttributeModel::BoolArray(v@),
            Attribute::StringArray(v) => AttributeModel::StringArray(texts(v@)),
            Attribute::TimeSpanArray(v) => AttributeModel::TimeSpanArray(v@),
            Attribute::ColorArray(v) => AttributeModel::ColorArray(v@),
            Attribute::Vec2Array(v) => AttributeModel::Vec2Array(v@),
            Attribute::Vec3Array(v) => AttributeModel::Vec3Array(v@),
            Attribute::Vec4Array(v) => AttributeModel::Vec4Array(v@),
            Attribute::AngleArray(v) => AttributeModel::AngleArray(v@),
            Attribute::QuaternionArray(v) => AttributeModel::QuaternionArray(v@),
            Attribute::MatrixArray(v) => AttributeModel::MatrixArray(v@),
            Attribute::U64Array(v) => AttributeModel::U64Array(v@),
        }
    }
}

/// An element reference inside an element array: the two markers -1 and -2
/// mean "none".
pub open spec fn array_element_ref(index: i32) -> Option<i32> {
    if index == -1 || index == -2 {
        None
    } else {
        Some(index)
    }
}

/// `n` zero-terminated strings read one after another from `pos`.
pub open spec fn text_many(data: Seq<u8>, pos: nat, n: nat) -> (Seq<Seq<char>>, nat)
    decreases n,
{
    if n == 0 {
        (Seq::empty(), pos)
    } else {
        let (front, mid) = text_many(data, pos, (n - 1) as nat);
        (front.push(text_of(string_bytes(data, mid))), after_string(data, mid))
    }
}

/// A count-prefixed list of fixed-size values at `pos`.
pub open spec fn counted<T: WireValue>(data: Seq<u8>, pos: nat) -> (Seq<T>, nat) {
    let (count, p) = wire_read::<i32>(data, pos);
    wire_many::<T>(data, p, item_count(count))
}

/// The value of an attribute of type code `kind` stored at `pos`, and the
/// position after it; `None` where the value refers to a string the table
/// lacks or announces a negative number of bytes.
pub open spec fn attribute_value(data: Seq<u8>, pos: nat, kind: u8, strings: Seq<Seq<char>>) -> Option<
    (AttributeModel, nat),
> {
    if kind == 1 {
        let (v, p) = wire_read::<i32>(data, pos);
        Some((AttributeModel::Element(if v < 0 { None } else { Some(v) }), p))
    } else if kind == 2 {
        let (v, p) = wire_read::<i32>(data, pos);
        Some((AttributeModel::Integer(v), p))
    } else if kind == 3 {
        let (v, p) = wire_read::<u32>(data, pos);
        Some((AttributeModel::Float(v), p))
    } else if kind == 4 {
        let (v, p) = wire_read::<bool>(data, pos);
        Some((AttributeModel::Bool(v), p))
    } else if kind == 5 {
        let (index, p) = wire_read::<i32>(data, pos);
        if 0 <= index < strings.len() {
            Some((AttributeModel::String(strings[index as int]), p))
        } else {
            None
        }
    } else if kind == 6 || kind == 47 {
        let (count, p) = wire_read::<i32>(data, pos);
        if count < 0 {
            None
        } else {
            Some(
                (
                    AttributeModel::ByteArray(padded_bytes(data, p, count as nat)),
                    advance(data, p, count as nat),
                ),
            )
        }
    } else if kind == 7 {
        let (v, p) = wire_read::<i32>(data, pos);
        Some((AttributeModel::TimeSpan(v), p))
    } else if kind == 8 {
        let (v, p) = wire_read::<u32>(data, pos);
        Some((AttributeModel::Color(v), p))
    } else if kind == 9 {
        let (v, p) = wire_read::<Vec2Bits>(data, pos);
        Some((AttributeModel::Vec2(v), p))
    } else if kind == 10 {
        let (v, p) = wire_read::<Vec3Bits>(data, pos);
        Some((AttributeModel::Vec3(v), p))
    } else if kind == 11 {
        let (v, p) = wire_read::<Vec3Bits>(data, pos);
        Some((AttributeModel::Angle(v), p))
    } else if kind == 12 {
        let (v, p) = wire_read::<Vec4Bits>(data, pos);
        Some((AttributeModel::Vec4(v), p))
    } else if kind == 13 {
        let (v, p) = wire_read::<QuatBits>(data, pos);
        Some((AttributeModel::Quaternion(v), p))
    } else if kind == 14 {
        let (v, p) = wire_read::<Mat4Bits>(data, pos);
        Some((AttributeModel::Matrix(v), p))
    } else if kind == 15 {
        let (v, p) = wire_read::<u8>(data, pos);
        Some((AttributeModel::Byte(v), p))
    } else if kind == 16 {
        let (v, p) = wire_read::<u64>(data, pos);
        Some((AttributeModel::U64(v), p))
    } else if kind == 33 {
        let (raw, p) = counted::<i32>(data, pos);
        Some((AttributeModel::ElementArray(raw.map_values(|x: i32| array_element_ref(x))), p))
    } else if kind == 34 {
        let (v, p) = counted::<i32>(data, pos);
        Some((AttributeModel::IntegerArray(v), p))
    } else if kind == 35 {
        let (v, p) = counted::<u32>(data, pos);
        Some((AttributeModel::FloatArray(v), p))
    } else if kind == 36 {
        let (v, p) = counted::<bool>(data, pos);
        Some((AttributeModel::BoolArray(v), p))
    } else if kind == 37 {
        let (count, p) = wire_read::<i32>(data, pos);
        let (v, q) = text_many(data, p, item_count(count));
        Some((AttributeModel::StringArray(v), q))
    } else if kind == 39 {
        let (v, p) = counted::<i32>(data, pos);
        Some((AttributeModel::TimeSpanArray(v), p))
    } else if kind == 40 {
        let (v, p) = counted::<u32>(data, pos);
        Some((AttributeModel::ColorArray(v), p))
    } else if kind == 41 {
        let (v, p) = counted::<Vec2Bits>(data, pos);
        Some((AttributeModel::Vec2Array(v), p))
    } else if kind == 42 {
        let (v, p) = counted::<Vec3Bits>(data, pos);
        Some((AttributeModel::Vec3Array(v), p))
    } else if kind == 43 {
        let (v, p) = counted::<Vec3Bits>(data, pos);
        Some((AttributeModel::AngleArray(v), p))
    } else if kind == 44 {
        let (v, p) = counted::<Vec4Bits>(data, pos);
        Some((AttributeModel::Vec4Array(v), p))
    } else if kind == 45 {
        let (v, p) = counted::<QuatBits>(data, pos);
        Some((AttributeModel::QuaternionArray(v), p))
    } else if kind == 46 {
        let (v, p) = counted::<Mat4Bits>(data, pos);
        Some((AttributeModel::MatrixArray(v), p))
    } else if kind == 48 {
        let (v, p) = counted::<u64>(data, pos);
        Some((AttributeModel::U64Array(v), p))
    } else {
        // Type code 38 and unknown codes carry no data.
        Some((AttributeModel::ByteArray(Seq::empty()), pos))
    }
}

/// Each type code reads as the variant the format gives it; only a string
/// (5) or a byte block (6, 47) can fail to have a reading, and unknown codes
/// read as an empty byte block without moving.
pub proof fn law_attribute_variants(data: Seq<u8>, pos: nat, kind: u8, strings: Seq<Seq<char>>)
    ensures
        attribute_value(data, pos, kind, strings) is None ==> kind == 5 || kind == 6 || kind == 47,
        match attribute_value(data, pos, kind, strings) {
            Some((v, p)) => {
                &&& kind == 1 ==> v is Element
                &&& kind == 2 ==> v is Integer
                &&& kind == 3 ==> v is Float
                &&& kind == 4 ==> v is Bool
                &&& kind == 5 ==> v is String
                &&& (kind == 6 || kind == 47) ==> v is ByteArray
                &&& kind == 7 ==> v is TimeSpan
                &&& kind == 8 ==> v is Color
                &&& kind == 9 ==> v is Vec2
                &&& kind == 10 ==> v is Vec3
                &&& kind == 11 ==> v is Angle
                &&& kind == 12 ==> v is Vec4
                &&& kind == 13 ==> v is Quaternion
                &&& kind == 14 ==> v is Matrix
                &&& kind == 15 ==> v is Byte
                &&& kind == 16 ==> v is U64
                &&& kind == 33 ==> v is ElementArray
                &&& kind == 34 ==> v is IntegerArray
                &&& kind == 35 ==> v is FloatArray
                &&& kind == 36 ==> v is BoolArray
                &&& kind == 37 ==> v is StringArray
                &&& kind == 39 ==> v is TimeSpanArray
                &&& kind == 40 ==> v is ColorArray
                &&& kind == 41 ==> v is Vec2Array
                &&& kind == 42 ==> v is Vec3Array
                &&& kind == 43 ==> v is AngleArray
                &&& kind == 44 ==> v is Vec4Array
                &&& kind == 45 ==> v is QuaternionArray
                &&& kind == 46 ==> v is MatrixArray
                &&& kind == 48 ==> v is U64Array
                &&& !(1 <= kind <= 16 || 33 <= kind <= 37 || 39 <= kind <= 48) ==> (v
                    == AttributeModel::ByteArray(Seq::empty()) && p == pos)
            },
            None => true,
        },
{
}

/// A position (10) or an angle (11) is the next twelve bytes read as three
/// 32-bit words in order, and the reader moves past them.
pub proof fn law_vector_attribute(data: Seq<u8>, pos: nat, strings: Seq<Seq<char>>)
    requires
        pos + 12 <= data.len(),
    ensures
        ({
            let three = Vec3Bits {
                x: native_u32(data.subrange(pos as int, pos as int + 4)),
                y: native_u32(data.subrange(pos as int + 4, pos as int + 8)),
                z: native_u32(data.subrange(pos as int + 8, pos as int + 12)),
            };
            &&& attribute_value(data, pos, 10, strings) == Some((AttributeModel::Vec3(three), pos + 12))
            &&& attribute_value(data, pos, 11, strings) == Some((AttributeModel::Angle(three), pos + 12))
        }),
{
    let bytes = data.subrange(pos as int, pos as int + 12);
    assert(bytes.subrange(0, 4) =~= data.subrange(pos as int, pos as int + 4));
    assert(bytes.subrange(4, 8) =~= data.subrange(pos as int + 4, pos as int + 8));
    assert(bytes.subrange(8, 12) =~= data.subrange(pos as int + 8, pos as int + 12));
}

/// The fixed-size attributes are the bytes at the position read in the
/// machine's byte order, components in file order, and the reader moves
/// past exactly those bytes; an element index below zero refers to nothing.
pub proof fn law_fixed_size_attributes(data: Seq<u8>, pos: nat, strings: Seq<Seq<char>>)
    ensures
        pos + 1 <= data.len() ==> {
            &&& attribute_value(data, pos, 4, strings) == Some(
                (AttributeModel::Bool(data[pos as int] != 0), pos + 1),
            )
            &&& attribute_value(data, pos, 15, strings) == Some(
                (AttributeModel::Byte(data[pos as int]), pos + 1),
            )
        },
        pos + 4 <= data.len() ==> {
            let word0 = data.subrange(pos as int, pos as int + 4);
            &&& attribute_value(data, pos, 1, strings) == Some(
                (
                    AttributeModel::Element(
                        if native_i32(word0) < 0 {
                            None
                        } else {
                            Some(native_i32(word0))
                        },
                    ),
                    pos + 4,
                ),
            )
            &&& attribute_value(data, pos, 2, strings) == Some(
                (AttributeModel::Integer(native_i32(word0)), pos + 4),
            )
            &&& attribute_value(data, pos, 3, strings) == Some(
                (AttributeModel::Float(native_u32(word0)), pos + 4),
            )
            &&& attribute_value(data, pos, 7, strings) == Some(
                (AttributeModel::TimeSpan(native_i32(word0)), pos + 4),
            )
            &&& attribute_value(data, pos, 8, strings) == Some(
                (AttributeModel::Color(native_u32(word0)), pos + 4),
            )
        },
        pos + 8 <= data.len() ==> {
            &&& attribute_value(data, pos, 16, strings) == Some(
                (AttributeModel::U64(native_u64(data.subrange(pos as int, pos as int + 8))), pos + 8),
            )
            &&& attribute_value(data, pos, 9, strings) == Some(
                (
                    AttributeModel::Vec2(
                        Vec2Bits {
                            x: native_u32(data.subrange(pos as int, pos as int + 4)),
                            y: native_u32(data.subrange(pos as int + 4, pos as int + 8)),
                        },
                    ),
                    pos + 8,
                ),
            )
        },
        pos + 16 <= data.len() ==> attribute_value(data, pos, 12, strings) == Some(
            (
                AttributeModel::Vec4(
                    Vec4Bits {
                        x: native_u32(data.subrange(pos as int, pos as int + 4)),
                        y: native_u32(data.subrange(pos as int + 4, pos as int + 8)),
                        z: native_u32(data.subrange(pos as int + 8, pos as int + 12)),
                        w: native_u32(data.subrange(pos as int + 12, pos as int + 16)),
                    },
                ),
                pos + 16,
            ),
        ),
{
    if pos + 8 <= data.len() {
        let bytes = data.subrange(pos as int, pos as int + 8);
        assert(bytes.subrange(0, 4) =~= data.subrange(pos as int, pos as int + 4));
        assert(bytes.subrange(4, 8) =~= data.subrange(pos as int + 4, pos as int + 8));
    }
    if pos + 16 <= data.len() {
        let bytes = data.subrange(pos as int, pos as int + 16);
        assert(bytes.subrange(0, 4) =~= data.subrange(pos as int, pos as int + 4));
        assert(bytes.subrange(4, 8) =~= data.subrange(pos as int + 4, pos as int + 8));
        assert(bytes.subrange(8, 12) =~= data.subrange(pos as int + 8, pos as int + 12));
        assert(bytes.subrange(12, 16) =~= data.subrange(pos as int + 12, pos as int + 16));
    }
    if pos + 1 <= data.len() {
        assert(data.subrange(pos as int, pos as int + 1)[0] == data[pos as int]);
    }
}

/// In an element array, the markers -1 and -2 refer to nothing and every
/// other index refers to that element.
pub proof fn law_element_array_markers(index: i32)
    ensures
        array_element_ref(index) is None <==> (index == -1 || index == -2),
        array_element_ref(index) matches Some(i) ==> i == index,
{
}

/// Reads a count and then that many fixed-size values.
fn read_counted<T: WireValue>(cursor: &mut ByteCursor) -> (values: Vec<T>)
    requires
        old(cursor).wf(),
    ensures
        final(cursor).wf(),
        final(cursor).data == old(cursor).data,
        (values@, final(cursor).pos as nat) == counted::<T>(old(cursor).data@, old(cursor).pos as nat),
{
    let count: i32 = i32::read(cursor);
    read_many::<T>(cursor, count)
}

/// Reads a count and then that many zero-terminated strings.
fn read_strings(cursor: &mut ByteCursor, count: i32) -> (strings: Vec<String>)
    requires
        old(cursor).wf(),
    ensures
        final(cursor).wf(),
        final(cursor).data == old(cursor).data,
        (texts(strings@), final(cursor).pos as nat) == text_many(
            old(cursor).data@,
            old(cursor).pos as nat,
            item_count(count),
        ),
{
    let ghost data = cursor.data@;
    let ghost start = cursor.pos as nat;
    let mut strings: Vec<String> = Vec::new();
    let mut i: i32 = 0;
    while i < count
        invariant
            0 <= i,
            i as nat <= item_count(count),
            cursor.wf(),
            cursor.data@ == data,
            (texts(strings@), cursor.pos as nat) == text_many(data, start, i as nat),
        decreases count - i,
    {
        let ghost before = strings@;
        let text = read_string(cursor);
        strings.push(text);
        assert(texts(strings@) =~= texts(before).push(text@));
        i = i + 1;
    }
    strings
}

/// Reads an element array: a count, then indices in which -1 and -2 mean none.
fn read_element_refs(cursor: &mut ByteCursor) -> (refs: Vec<Option<i32>>)
    requires
        old(cursor).wf(),
    ensures
        final(cursor).wf(),
        final(cursor).data == old(cursor).data,
        ({
            let (raw, p) = counted::<i32>(old(cursor).data@, old(cursor).pos as nat);
            &&& refs@ == raw.map_values(|x: i32| array_element_ref(x))
            &&& final(cursor).pos as nat == p
        }),
{
    let raw: Vec<i32> = read_counted::<i32>(cursor);
    let mut refs: Vec<Option<i32>> = Vec::new();
    let mut i: usize = 0;
    while i < raw.len()
        invariant
            i <= raw@.len(),
            refs@ == raw@.subrange(0, i as int).map_values(|x: i32| array_element_ref(x)),
        decreases raw.len() - i,
    {
        let index = raw[i];
        let reference = if index == -1 || index == -2 {
            None
        } else {
            Some(index)
        };
        refs.push(reference);
        i = i + 1;
        assert(refs@ =~= raw@.subrange(0, i as int).map_values(|x: i32| array_element_ref(x)));
    }
    assert(raw@.subrange(0, raw@.len() as int) =~= raw@);
    refs
}

/// Reads the value of an attribute of type code `kind`; `None` where the
/// value refers to a string missing from `strings` or announces a negative
/// number of bytes.
pub fn read_attribute(cursor: &mut ByteCursor, kind: u8, strings: &Vec<String>) -> (value: Option<
    Attribute,
>)
    requires
        old(cursor).wf(),
    ensures
        final(cursor).wf(),
        final(cursor).data == old(cursor).data,
        match value {
            Some(v) => attribute_value(old(cursor).data@, old(cursor).pos as nat, kind, texts(strings@))
                == Some((v@, final(cursor).pos as nat)),
            None => attribute_value(
                old(cursor).data@,
                old(cursor).pos as nat,
                kind,
                texts(strings@),
            ) is None,
        },
{
    if kind == 1 {
        let index: i32 = i32::read(cursor);
        Some(Attribute::Element(if index < 0 { None } else { Some(index) }))
    } else if kind == 2 {
        Some(Attribute::Integer(i32::read(cursor)))
    } else if kind == 3 {
        Some(Attribute::Float(u32::read(cursor)))
    } else if kind == 4 {
        Some(Attribute::Bool(bool::read(cursor)))
    } else if kind == 5 {
        let index: i32 = i32::read(cursor);
        if 0 <= index && (index as usize) < strings.len() {
            Some(Attribute::String(strings[index as usize].clone()))
        } else {
            None
        }
    } else if kind == 6 || kind == 47 {
        let count: i32 = i32::read(cursor);
        if count < 0 {
            None
        } else {
            Some(Attribute::ByteArray(read_bytes(cursor, count as usize)))
        }
    } else if kind == 7 {
        Some(Attribute::TimeSpan(i32::read(cursor)))
    } else if kind == 8 {
        Some(Attribute::Color(u32::read(cursor)))
    } else if kind == 9 {
        Some(Attribute::Vec2(Vec2Bits::read(cursor)))
    } else if kind == 10 {
        Some(Attribute::Vec3(Vec3Bits::read(cursor)))
    } else if kind == 11 {
        Some(Attribute::Angle(Vec3Bits::read(cursor)))
    } else if kind == 12 {
        Some(Attribute::Vec4(Vec4Bits::read(cursor)))
    } else if kind == 13 {
        Some(Attribute::Quaternion(QuatBits::read(cursor)))
    } else if kind == 14 {
        Some(Attribute::Matrix(Mat4Bits::read(cursor)))
    } else if kind == 15 {
        Some(Attribute::Byte(u8::read(cursor)))
    } else if kind == 16 {
        Some(Attribute::U64(u64::read(cursor)))
    } else if kind == 33 {
        Some(Attribute::ElementArray(read_element_refs(cursor)))
    } else if kind == 34 {
        Some(Attribute::IntegerArray(read_counted::<i32>(cursor)))
    } else if kind == 35 {
        Some(Attribute::FloatArray(read_counted::<u32>(cursor)))
    } else if kind == 36 {
        Some(Attribute::BoolArray(read_counted::<bool>(cursor)))
    } else if kind == 37 {
        let count: i32 = i32::read(cursor);
        Some(Attribute::StringArray(read_strings(cursor, count)))
    } else if kind == 39 {
        Some(Attribute::TimeSpanArray(read_counted::<i32>(cursor)))
    } else if kind == 40 {
        Some(Attribute::ColorArray(read_counted::<u32>(cursor)))
    } else if kind == 41 {
        Some(Attribute::Vec2Array(read_counted::<Vec2Bits>(cursor)))
    } else if kind == 42 {
        Some(Attribute::Vec3Array(read_counted::<Vec3Bits>(cursor)))
    } else if kind == 43 {
        Some(Attribute::AngleArray(read_counted::<Vec3Bits>(cursor)))
    } else if kind == 44 {
        Some(Attribute::Vec4Array(read_counted::<Vec4Bits>(cursor)))
    } else if kind == 45 {
        Some(Attribute::QuaternionArray(read_counted::<QuatBits>(cursor)))
    } else if kind == 46 {
        Some(Attribute::MatrixArray(read_counted::<Mat4Bits>(cursor)))
    } else if kind == 48 {
        Some(Attribute::U64Array(read_counted::<u64>(cursor)))
    } else {
        Some(Attribute::ByteArray(Vec::new()))
    }
}


/// A named, typed node of the document with its attributes in file order.
#[derive(Debug, Clone)]
pub struct Element {
    pub kind: String,
    pub name: String,
    pub attributes: Vec<(String, Attribute)>,
}

/// Mathematical model of an [`Element`].
pub struct ElementModel {
    pub kind: Seq<char>,
    pub name: Seq<char>,
    pub attributes: Seq<(Seq<char>, AttributeModel)>,
}

/// The models of named attributes.
pub open spec fn attribute_entries(entries: Seq<(String, Attribute)>) -> Seq<(Seq<char>, AttributeModel)> {
    entries.map_values(|entry: (String, Attribute)| (entry.0@, entry.1@))
}

impl View for Element {
    type V = ElementModel;

    open spec fn view(&self) -> ElementModel {
        ElementModel {
            kind: self.kind@,
            name: self.name@,
            attributes: attribute_entries(self.attributes@),
        }
    }
}

/// The models of a list of elements.
pub open spec fn element_models(elements: Seq<Element>) -> Seq<ElementModel> {
    elements.map_values(|e: Element| e@)
}

/// The last attribute called `name`: a later attribute of the same name
/// replaces an earlier one.
pub open spec fn last_attribute(entries: Seq<(Seq<char>, AttributeModel)>, name: Seq<char>) -> Option<
    AttributeModel,
>
    decreases entries.len(),
{
    if entries.len() == 0 {
        None
    } else if entries.last().0 == name {
        Some(entries.last().1)
    } else {
        last_attribute(entries.drop_last(), name)
    }
}

/// After adding an attribute, looking up its name gives it, and looking up
/// any other name gives what it gave before.
pub proof fn law_added_attribute_wins(
    entries: Seq<(Seq<char>, AttributeModel)>,
    name: Seq<char>,
    value: AttributeModel,
    other: Seq<char>,
)
    requires
        other != name,
    ensures
        last_attribute(entries.push((name, value)), name) == Some(value),
        last_attribute(entries.push((name, value)), other) == last_attribute(entries, other),
{
    assert(entries.push((name, value)).drop_last() =~= entries);
}

/// An element read later under the same key hides an earlier one; other
/// keys are looked up as before.
pub proof fn law_later_element_wins(elements: Seq<ElementModel>, element: ElementModel, other: Seq<char>)
    requires
        other != element_key(element),
    ensures
        last_element(elements.push(element), element_key(element)) == Some(element),
        last_element(elements.push(element), other) == last_element(elements, other),
{
    assert(elements.push(element).drop_last() =~= elements);
}

impl Element {
    /// An element without attributes.
    pub fn new(kind: String, name: String) -> (element: Self)
        ensures
            element@ == (ElementModel { kind: kind@, name: name@, attributes: Seq::empty() }),
    {
        let element = Element { kind, name, attributes: Vec::new() };
        assert(attribute_entries(element.attributes@) =~= Seq::empty());
        element
    }

    /// Adds an attribute; it replaces any earlier one of the same name.
    pub fn add(&mut self, name: String, attribute: Attribute)
        ensures
            final(self)@ == (ElementModel {
                attributes: old(self)@.attributes.push((name@, attribute@)),
                ..old(self)@
            }),
    {
        let ghost before = self.attributes@;
        self.attributes.push((name, attribute));
        assert(attribute_entries(self.attributes@) =~= attribute_entries(before).push(
            (name@, attribute@),
        ));
    }

    /// The attribute called `name`, if any (the last one added wins).
    pub fn attribute(&self, name: &str) -> (found: Option<&Attribute>)
        ensures
            match found {
                Some(a) => last_attribute(self@.attributes, name@) == Some(a@),
                None => last_attribute(self@.attributes, name@) is None,
            },
    {
        let wanted = name.to_owned();
        let mut i = self.attributes.len();
        assert(self@.attributes.subrange(0, i as int) =~= self@.attributes);
        while i > 0
            invariant
                i <= self.attributes@.len(),
                wanted@ == name@,
                last_attribute(self@.attributes, name@) == last_attribute(
                    self@.attributes.subrange(0, i as int),
                    name@,
                ),
            decreases i,
        {
            let entry = &self.attributes[i - 1];
            let ghost prefix = self@.attributes.subrange(0, i as int);
            assert(prefix.last() == (entry.0@, entry.1@));
            assert(prefix.drop_last() =~= self@.attributes.subrange(0, i - 1));
            if entry.0 == wanted {
                return Some(&entry.1);
            }
            i = i - 1;
        }
        None
    }
}

/// The key of an element: its kind, an underscore, its name.
fn joined_key(kind: &str, name: &str) -> (key: String)
    ensures
        key@ == kind@ + seq!['_'] + name@,
{
    let mut key = kind.to_owned();
    let separator = "_";
    proof {
        reveal_strlit("_");
    }
    key.append(separator);
    key.append(name);
    key
}

/// The key under which an element is looked up: kind, underscore, name.
pub open spec fn element_key(element: ElementModel) -> Seq<char> {
    element.kind + seq!['_'] + element.name
}

/// The last element whose key is `key`: a later element with the same key
/// replaces an earlier one.
pub open spec fn last_element(elements: Seq<ElementModel>, key: Seq<char>) -> Option<ElementModel>
    decreases elements.len(),
{
    if elements.len() == 0 {
        None
    } else if element_key(elements.last()) == key {
        Some(elements.last())
    } else {
        last_element(elements.drop_last(), key)
    }
}

/// The element stored under `key` (kind, underscore, name); the last one
/// read wins.
pub fn find_element<'a>(elements: &'a Vec<Element>, key: &str) -> (found: Option<&'a Element>)
    ensures
        match found {
            Some(e) => last_element(element_models(elements@), key@) == Some(e@),
            None => last_element(element_models(elements@), key@) is None,
        },
{
    let wanted = key.to_owned();
    let mut i = elements.len();
    assert(element_models(elements@).subrange(0, i as int) =~= element_models(elements@));
    while i > 0
        invariant
            i <= elements@.len(),
            wanted@ == key@,
            last_element(element_models(elements@), key@) == last_element(
                element_models(elements@).subrange(0, i as int),
                key@,
            ),
        decreases i,
    {
        let element = &elements[i - 1];
        let ghost prefix = element_models(elements@).subrange(0, i as int);
        assert(prefix.last() == element@);
        assert(prefix.drop_last() =~= element_models(elements@).subrange(0, i - 1));
        let candidate = joined_key(element.kind.as_str(), element.name.as_str());
        if candidate == wanted {
            return Some(element);
        }
        i = i - 1;
    }
    None
}


/// The kind and name texts of `m` element headers read from `pos`, and the
/// position after them; `None` where a header refers to a string the table
/// lacks. Each header is two string indices and a 16-byte identifier.
pub open spec fn element_headers(data: Seq<u8>, pos: nat, m: nat, strings: Seq<Seq<char>>) -> Option<
    (Seq<(Seq<char>, Seq<char>)>, nat),
>
    decreases m,
{
    if m == 0 {
        Some((Seq::empty(), pos))
    } else {
        match element_headers(data, pos, (m - 1) as nat, strings) {
            None => None,
            Some((front, p)) => {
                let (kind, p1) = wire_read::<i32>(data, p);
                let (name, p2) = wire_read::<i32>(data, p1);
                if 0 <= kind < strings.len() && 0 <= name < strings.len() {
                    Some((front.push((strings[kind as int], strings[name as int])), advance(data, p2, 16)))
                } else {
                    None
                }
            },
        }
    }
}

/// `n` named attributes read from `pos`: each is a string index for the
/// name, a one-byte type code and the value.
pub open spec fn attribute_list(data: Seq<u8>, pos: nat, n: nat, strings: Seq<Seq<char>>) -> Option<
    (Seq<(Seq<char>, AttributeModel)>, nat),
>
    decreases n,
{
    if n == 0 {
        Some((Seq::empty(), pos))
    } else {
        match attribute_list(data, pos, (n - 1) as nat, strings) {
            None => None,
            Some((front, p)) => {
                let (name, p1) = wire_read::<i32>(data, p);
                let (kind, p2) = wire_read::<u8>(data, p1);
                if 0 <= name < strings.len() {
                    match attribute_value(data, p2, kind, strings) {
                        None => None,
                        Some((value, p3)) => Some((front.push((strings[name as int], value)), p3)),
                    }
                } else {
                    None
                }
            },
        }
    }
}

/// The attributes of `m` elements, each a count followed by that many
/// named attributes.
pub open spec fn attribute_blocks(data: Seq<u8>, pos: nat, m: nat, strings: Seq<Seq<char>>) -> Option<
    (Seq<Seq<(Seq<char>, AttributeModel)>>, nat),
>
    decreases m,
{
    if m == 0 {
        Some((Seq::empty(), pos))
    } else {
        match attribute_blocks(data, pos, (m - 1) as nat, strings) {
            None => None,
            Some((front, p)) => {
                let (count, p1) = wire_read::<i32>(data, p);
                match attribute_list(data, p1, item_count(count), strings) {
                    None => None,
                    Some((block, p2)) => Some((front.push(block), p2)),
                }
            },
        }
    }
}

/// The elements of a document: a header string, a prefix count, the string
/// table (a count, then zero-terminated strings), the element count, the
/// element headers, then each element's attributes. `None` where the string
/// or element count is negative or an index misses the string table.
pub open spec fn document(data: Seq<u8>) -> Option<Seq<ElementModel>> {
    let p0 = after_string(data, 0);
    let (_prefix, p1) = wire_read::<i32>(data, p0);
    let (string_count, p2) = wire_read::<i32>(data, p1);
    if string_count < 0 {
        None
    } else {
        let (strings, p3) = text_many(data, p2, string_count as nat);
        let (element_count, p4) = wire_read::<i32>(data, p3);
        if element_count < 0 {
            None
        } else {
            match element_headers(data, p4, element_count as nat, strings) {
                None => None,
                Some((headers, p5)) => match attribute_blocks(
                    data,
                    p5,
                    element_count as nat,
                    strings,
                ) {
                    None => None,
                    Some((blocks, _)) => Some(
                        Seq::new(
                            element_count as nat,
                            |i: int|
                                ElementModel {
                                    kind: headers[i].0,
                                    name: headers[i].1,
                                    attributes: blocks[i],
                                },
                        ),
                    ),
                },
            }
        }
    }
}

/// Whether the reader accepts `data`: its counts and string indices are
/// consistent.
pub open spec fn readable(data: Seq<u8>) -> bool {
    document(data) is Some
}

proof fn lemma_headers_len(data: Seq<u8>, pos: nat, m: nat, strings: Seq<Seq<char>>)
    ensures
        element_headers(data, pos, m, strings) matches Some((h, _)) ==> h.len() == m,
    decreases m,
{
    if m > 0 {
        lemma_headers_len(data, pos, (m - 1) as nat, strings);
    }
}

proof fn lemma_blocks_len(data: Seq<u8>, pos: nat, m: nat, strings: Seq<Seq<char>>)
    ensures
        attribute_blocks(data, pos, m, strings) matches Some((b, _)) ==> b.len() == m,
    decreases m,
{
    if m > 0 {
        lemma_blocks_len(data, pos, (m - 1) as nat, strings);
    }
}

/// The texts of kind and name pairs.
pub open spec fn header_texts(headers: Seq<(String, String)>) -> Seq<(Seq<char>, Seq<char>)> {
    headers.map_values(|h: (String, String)| (h.0@, h.1@))
}

/// Reads `count` element headers.
fn read_headers(cursor: &mut ByteCursor, count: i32, strings: &Vec<String>) -> (headers: Option<
    Vec<(String, String)>,
>)
    requires
        old(cursor).wf(),
        count >= 0,
    ensures
        final(cursor).wf(),
        final(cursor).data == old(cursor).data,
        match headers {
            Some(h) => element_headers(
                old(cursor).data@,
                old(cursor).pos as nat,
                count as nat,
                texts(strings@),
            ) == Some((header_texts(h@), final(cursor).pos as nat)),
            None => element_headers(
                old(cursor).data@,
                old(cursor).pos as nat,
                count as nat,
                texts(strings@),
            ) is None,
        },
{
    let ghost data = cursor.data@;
    let ghost start = cursor.pos as nat;
    let ghost table = texts(strings@);
    let ghost source = cursor.data;
    let mut headers: Vec<(String, String)> = Vec::new();
    let mut consistent = true;
    let mut i: i32 = 0;
    while consistent && i < count
        invariant
            0 <= i <= count,
            cursor.wf(),
            cursor.data == source,
            source@ == data,
            table == texts(strings@),
            consistent ==> element_headers(data, start, i as nat, table) == Some(
                (header_texts(headers@), cursor.pos as nat),
            ),
            !consistent ==> element_headers(data, start, count as nat, table) is None,
        decreases (count - i) as int + if consistent { 1int } else { 0int },
    {
        let ghost before = headers@;
        let kind: i32 = i32::read(cursor);
        let name: i32 = i32::read(cursor);
        if 0 <= kind && (kind as usize) < strings.len() && 0 <= name && (name as usize)
            < strings.len() {
            let _identifier = read_bytes(cursor, 16);
            headers.push((strings[kind as usize].clone(), strings[name as usize].clone()));
            assert(header_texts(headers@) =~= header_texts(before).push(
                (table[kind as int], table[name as int]),
            ));
            i = i + 1;
        } else {
            proof {
                lemma_headers_none_propagates(data, start, (i + 1) as nat, count as nat, table);
            }
            consistent = false;
        }
    }
    if consistent {
        Some(headers)
    } else {
        None
    }
}

proof fn lemma_headers_none_propagates(
    data: Seq<u8>,
    pos: nat,
    m: nat,
    n: nat,
    strings: Seq<Seq<char>>,
)
    requires
        m <= n,
        element_headers(data, pos, m, strings) is None,
    ensures
        element_headers(data, pos, n, strings) is None,
    decreases n - m,
{
    if m < n {
        lemma_headers_none_propagates(data, pos, m + 1, n, strings);
    }
}

proof fn lemma_list_none_propagates(
    data: Seq<u8>,
    pos: nat,
    m: nat,
    n: nat,
    strings: Seq<Seq<char>>,
)
    requires
        m <= n,
        attribute_list(data, pos, m, strings) is None,
    ensures
        attribute_list(data, pos, n, strings) is None,
    decreases n - m,
{
    if m < n {
        lemma_list_none_propagates(data, pos, m + 1, n, strings);
    }
}

proof fn lemma_blocks_none_propagates(
    data: Seq<u8>,
    pos: nat,
    m: nat,
    n: nat,
    strings: Seq<Seq<char>>,
)
    requires
        m <= n,
        attribute_blocks(data, pos, m, strings) is None,
    ensures
        attribute_blocks(data, pos, n, strings) is None,
    decreases n - m,
{
    if m < n {
        lemma_blocks_none_propagates(data, pos, m + 1, n, strings);
    }
}

/// Reads one element's attribute count and attributes.
fn read_attribute_block(cursor: &mut ByteCursor, strings: &Vec<String>) -> (block: Option<
    Vec<(String, Attribute)>,
>)
    requires
        old(cursor).wf(),
    ensures
        final(cursor).wf(),
        final(cursor).data == old(cursor).data,
        ({
            let (count, p) = wire_read::<i32>(old(cursor).data@, old(cursor).pos as nat);
            match block {
                Some(b) => attribute_list(old(cursor).data@, p, item_count(count), texts(strings@))
                    == Some((attribute_entries(b@), final(cursor).pos as nat)),
                None => attribute_list(
                    old(cursor).data@,
                    p,
                    item_count(count),
                    texts(strings@),
                ) is None,
            }
        }),
{
    let ghost data = cursor.data@;
    let ghost table = texts(strings@);
    let ghost source = cursor.data;
    let count: i32 = i32::read(cursor);
    let ghost start = cursor.pos as nat;
    let mut block: Vec<(String, Attribute)> = Vec::new();
    let mut consistent = true;
    let mut i: i32 = 0;
    while consistent && i < count
        invariant
            0 <= i,
            i as nat <= item_count(count),
            cursor.wf(),
            cursor.data == source,
            source@ == data,
            table == texts(strings@),
            consistent ==> attribute_list(data, start, i as nat, table) == Some(
                (attribute_entries(block@), cursor.pos as nat),
            ),
            !consistent ==> attribute_list(data, start, item_count(count), table) is None,
        decreases (count - i) as int + if consistent { 1int } else { 0int },
    {
        let ghost before = block@;
        let name: i32 = i32::read(cursor);
        let kind: u8 = u8::read(cursor);
        if 0 <= name && (name as usize) < strings.len() {
            match read_attribute(cursor, kind, strings) {
                None => {
                    proof {
                        lemma_list_none_propagates(
                            data,
                            start,
                            (i + 1) as nat,
                            item_count(count),
                            table,
                        );
                    }
                    consistent = false;
                },
                Some(value) => {
                    let ghost value_model = value@;
                    block.push((strings[name as usize].clone(), value));
                    assert(attribute_entries(block@) =~= attribute_entries(before).push(
                        (table[name as int], value_model),
                    ));
                    i = i + 1;
                },
            }
        } else {
            proof {
                lemma_list_none_propagates(data, start, (i + 1) as nat, item_count(count), table);
            }
            consistent = false;
        }
    }
    if consistent {
        Some(block)
    } else {
        None
    }
}

/// Reads a whole document. `None` exactly where the document has no reading:
/// a negative string or element count, or an index outside the string table.
pub fn parse_dmx_checked(data: &[u8]) -> (elements: Option<Vec<Element>>)
    ensures
        match elements {
            Some(e) => document(data@) == Some(element_models(e@)),
            None => document(data@) is None,
        },
{
    let mut cursor = ByteCursor::new(data);
    let _header = read_string(&mut cursor);
    let _prefix: i32 = i32::read(&mut cursor);
    let string_count: i32 = i32::read(&mut cursor);
    if string_count < 0 {
        return None;
    }
    let strings = read_strings(&mut cursor, string_count);
    let ghost table = texts(strings@);
    let element_count: i32 = i32::read(&mut cursor);
    if element_count < 0 {
        return None;
    }
    let ghost p4 = cursor.pos as nat;
    let headers = match read_headers(&mut cursor, element_count, &strings) {
        Some(h) => h,
        None => return None,
    };
    proof {
        lemma_headers_len(data@, p4, element_count as nat, table);
    }
    let ghost p5 = cursor.pos as nat;
    let ghost header_models = header_texts(headers@);
    let mut elements: Vec<Element> = Vec::new();
    let mut consistent = true;
    let mut i: i32 = 0;
    while consistent && i < element_count
        invariant
            0 <= i <= element_count,
            cursor.wf(),
            cursor.data@ == data@,
            headers@.len() == element_count,
            header_models == header_texts(headers@),
            table == texts(strings@),
            elements@.len() == i,
            !consistent ==> attribute_blocks(data@, p5, element_count as nat, table) is None,
            consistent ==> ({
                match attribute_blocks(data@, p5, i as nat, table) {
                    Some((blocks, p)) => {
                        &&& p == cursor.pos as nat
                        &&& blocks.len() == i
                        &&& forall|j: int|
                            0 <= j < i ==> #[trigger] elements@[j]@ == (ElementModel {
                                kind: header_models[j].0,
                                name: header_models[j].1,
                                attributes: blocks[j],
                            })
                    },
                    None => false,
                }
            }),
        decreases (element_count - i) as int + if consistent { 1int } else { 0int },
    {
        proof {
            lemma_blocks_len(data@, p5, i as nat, table);
        }
        match read_attribute_block(&mut cursor, &strings) {
            Some(block) => {
                let header = &headers[i as usize];
                let element = Element {
                    kind: header.0.clone(),
                    name: header.1.clone(),
                    attributes: block,
                };
                elements.push(element);
                i = i + 1;
            },
            None => {
                proof {
                    lemma_blocks_none_propagates(
                        data@,
                        p5,
                        (i + 1) as nat,
                        element_count as nat,
                        table,
                    );
                }
                consistent = false;
            },
        }
    }
    if !consistent {
        return None;
    }
    proof {
        lemma_blocks_len(data@, p5, element_count as nat, table);
        assert(element_models(elements@) =~= document(data@).unwrap());
    }
    Some(elements)
}


/// Reads a whole document whose counts and string indices are consistent.
pub fn parse_dmx(data: &[u8]) -> (elements: Vec<Element>)
    requires
        readable(data@),
    ensures
        document(data@) == Some(element_models(elements@)),
{
    match parse_dmx_checked(data) {
        Some(elements) => elements,
        None => Vec::new(),
    }
}

} // verus!
