//! The persistence codec: the byte format under the single storage key.
//!
//! `TemplateApp::save` lays the persisted fields out as bytes and
//! `TemplateApp::new` restores them, falling back to the default literal on a
//! missing or corrupt blob.  The format is fully specified by `spec_encode`;
//! decoding succeeds exactly on its image, and `lemma_encode_injective` makes
//! the restore unambiguous, which together give the round-trip law.
//!
//! Layout: a version byte, then the label (eight length bytes and UTF-8
//! text), three flag bytes, the choice byte, the biased scalar (eight bytes),
//! the free-text string (eight length bytes and UTF-8 text), four color bytes
//! and the animation flag byte.  All multi-byte numbers are little-endian.
use vstd::prelude::*;

use vstd::utf8::decode_utf8;
use vstd::utf8::decode_utf8_encode_utf8;
use vstd::utf8::encode_utf8;
use vstd::utf8::encode_utf8_decode_utf8;
use vstd::utf8::encode_utf8_valid_utf8;
use vstd::utf8::valid_utf8;

use crate::state::AppModel;
use crate::state::Choice;
use crate::state::Color;
use crate::state::DEFAULT_VALUE_TENTHS;
use crate::state::TemplateApp;
use crate::state::default_model;

verus! {

/// The fields that survive a restart, in mathematical form.  The transient
/// counter and the date are deliberately absent.
#[verifier::ext_equal]
pub ghost struct PersistedFields {
    pub label: Seq<char>,
    pub enabled: bool,
    pub visible: bool,
    pub boolean: bool,
    pub radio: Choice,
    pub scalar_tenths: i64,
    pub string: Seq<char>,
    pub color: Color,
    pub animate_progress_bar: bool,
}

impl PersistedFields {
    /// The encoding holds each text length in eight bytes; every real string
    /// fits, so only bounded models can be images of real states.
    pub open spec fn bounded(self) -> bool {
        encode_utf8(self.label).len() < 0x1_0000_0000_0000_0000
            && encode_utf8(self.string).len() < 0x1_0000_0000_0000_0000
    }
}

impl AppModel {
    /// What `save` keeps of a state.
    pub open spec fn persisted(self) -> PersistedFields {
        PersistedFields {
            label: self.label,
            enabled: self.enabled,
            visible: self.visible,
            boolean: self.boolean,
            radio: self.radio,
            scalar_tenths: self.scalar_tenths,
            string: self.string,
            color: self.color,
            animate_progress_bar: self.animate_progress_bar,
        }
    }
}

/// The state a restored blob yields: the persisted fields, with every
/// transient field at its default.
pub open spec fn restored_model(p: PersistedFields) -> AppModel {
    AppModel {
        label: p.label,
        enabled: p.enabled,
        visible: p.visible,
        boolean: p.boolean,
        radio: p.radio,
        scalar_tenths: p.scalar_tenths,
        string: p.string,
        color: p.color,
        animate_progress_bar: p.animate_progress_bar,
        date: None,
        value_tenths: DEFAULT_VALUE_TENTHS,
    }
}

/// The version byte every blob of this format starts with.
pub const FORMAT_VERSION: u8 = 1;

/// A boolean as one byte.
pub open spec fn bool_byte(b: bool) -> u8 {
    if b {
        1
    } else {
        0
    }
}

/// The choice as one byte.
pub open spec fn choice_byte(c: Choice) -> u8 {
    match c {
        Choice::First => 0,
        Choice::Second => 1,
        Choice::Third => 2,
    }
}

/// A 64-bit number as eight little-endian bytes.
pub open spec fn u64_le(x: u64) -> Seq<u8> {
    seq![
        (x & 0xff) as u8,
        ((x >> 8) & 0xff) as u8,
        ((x >> 16) & 0xff) as u8,
        ((x >> 24) & 0xff) as u8,
        ((x >> 32) & 0xff) as u8,
        ((x >> 40) & 0xff) as u8,
        ((x >> 48) & 0xff) as u8,
        ((x >> 56) & 0xff) as u8,
    ]
}

/// A signed number shifted into unsigned range, order kept.
pub open spec fn biased(x: i64) -> u64 {
    (x + 0x8000_0000_0000_0000) as u64
}

/// The byte layout of the persisted fields.
pub open spec fn spec_encode(p: PersistedFields) -> Seq<u8> {
    let lab = encode_utf8(p.label);
    let st = encode_utf8(p.string);
    seq![FORMAT_VERSION] + u64_le(lab.len() as u64) + lab + seq![
        bool_byte(p.enabled),
        bool_byte(p.visible),
        bool_byte(p.boolean),
        choice_byte(p.radio),
    ] + u64_le(biased(p.scalar_tenths)) + u64_le(st.len() as u64) + st + seq![
        p.color.r,
        p.color.g,
        p.color.b,
        p.color.a,
        bool_byte(p.animate_progress_bar),
    ]
}

/// Where each part of the layout sits.
pub proof fn lemma_encode_parts(p: PersistedFields)
    ensures
        ({
            let lab = encode_utf8(p.label);
            let st = encode_utf8(p.string);
            let e = spec_encode(p);
            let l1 = lab.len() as int;
            let l2 = st.len() as int;
            &&& e.len() == 34 + l1 + l2
            &&& e[0] == FORMAT_VERSION
            &&& e.subrange(1, 9) == u64_le(lab.len() as u64)
            &&& e.subrange(9, 9 + l1) == lab
            &&& e[9 + l1] == bool_byte(p.enabled)
            &&& e[10 + l1] == bool_byte(p.visible)
            &&& e[11 + l1] == bool_byte(p.boolean)
            &&& e[12 + l1] == choice_byte(p.radio)
            &&& e.subrange(13 + l1, 21 + l1) == u64_le(biased(p.scalar_tenths))
            &&& e.subrange(21 + l1, 29 + l1) == u64_le(st.len() as u64)
            &&& e.subrange(29 + l1, 29 + l1 + l2) == st
            &&& e[29 + l1 + l2] == p.color.r
            &&& e[30 + l1 + l2] == p.color.g
            &&& e[31 + l1 + l2] == p.color.b
            &&& e[32 + l1 + l2] == p.color.a
            &&& e[33 + l1 + l2] == bool_byte(p.animate_progress_bar)
        }),
{
    let lab = encode_utf8(p.label);
    let st = encode_utf8(p.string);
    let e = spec_encode(p);
    let l1 = lab.len() as int;
    let l2 = st.len() as int;
    assert(e.subrange(1, 9) =~= u64_le(lab.len() as u64));
    assert(e.subrange(9, 9 + l1) =~= lab);
    assert(e.subrange(13 + l1, 21 + l1) =~= u64_le(biased(p.scalar_tenths)));
    assert(e.subrange(21 + l1, 29 + l1) =~= u64_le(st.len() as u64));
    assert(e.subrange(29 + l1, 29 + l1 + l2) =~= st);
}

/// The little-endian bytes of the number built from eight bytes are those
/// eight bytes again.
proof fn lemma_u64_le_build(b0: u8, b1: u8, b2: u8, b3: u8, b4: u8, b5: u8, b6: u8, b7: u8)
    ensures
        u64_le(
            (b0 as u64) | ((b1 as u64) << 8) | ((b2 as u64) << 16) | ((b3 as u64) << 24) | (
            (b4 as u64) << 32) | ((b5 as u64) << 40) | ((b6 as u64) << 48) | ((b7 as u64) << 56),
        ) == seq![b0, b1, b2, b3, b4, b5, b6, b7],
{
    let x = (b0 as u64) | ((b1 as u64) << 8) | ((b2 as u64) << 16) | ((b3 as u64) << 24) | ((
    b4 as u64) << 32) | ((b5 as u64) << 40) | ((b6 as u64) << 48) | ((b7 as u64) << 56);
    assert(x & 0xff == b0 as u64 && (x >> 8) & 0xff == b1 as u64 && (x >> 16) & 0xff == b2 as u64
        && (x >> 24) & 0xff == b3 as u64 && (x >> 32) & 0xff == b4 as u64 && (x >> 40) & 0xff
        == b5 as u64 && (x >> 48) & 0xff == b6 as u64 && (x >> 56) & 0xff == b7 as u64)
        by (bit_vector)
        requires
            x == (b0 as u64) | ((b1 as u64) << 8) | ((b2 as u64) << 16) | ((b3 as u64) << 24) | (
            (b4 as u64) << 32) | ((b5 as u64) << 40) | ((b6 as u64) << 48) | ((b7 as u64) << 56),
    ;
    assert(u64_le(x) =~= seq![b0, b1, b2, b3, b4, b5, b6, b7]);
}

/// Two numbers with the same little-endian bytes are the same number.
pub proof fn lemma_u64_le_injective(x: u64, y: u64)
    requires
        u64_le(x) == u64_le(y),
    ensures
        x == y,
{
    assert(x & 0xff < 256 && (x >> 8) & 0xff < 256 && (x >> 16) & 0xff < 256 && (x >> 24) & 0xff
        < 256 && (x >> 32) & 0xff < 256 && (x >> 40) & 0xff < 256 && (x >> 48) & 0xff < 256 && (
    x >> 56) & 0xff < 256) by (bit_vector);
    assert(y & 0xff < 256 && (y >> 8) & 0xff < 256 && (y >> 16) & 0xff < 256 && (y >> 24) & 0xff
        < 256 && (y >> 32) & 0xff < 256 && (y >> 40) & 0xff < 256 && (y >> 48) & 0xff < 256 && (
    y >> 56) & 0xff < 256) by (bit_vector);
    assert(u64_le(x)[0] == u64_le(y)[0] && u64_le(x)[1] == u64_le(y)[1] && u64_le(x)[2] == u64_le(
        y,
    )[2] && u64_le(x)[3] == u64_le(y)[3] && u64_le(x)[4] == u64_le(y)[4] && u64_le(x)[5]
        == u64_le(y)[5] && u64_le(x)[6] == u64_le(y)[6] && u64_le(x)[7] == u64_le(y)[7]);
    assert(x == y) by (bit_vector)
        requires
            x & 0xff == y & 0xff,
            (x >> 8) & 0xff == (y >> 8) & 0xff,
            (x >> 16) & 0xff == (y >> 16) & 0xff,
            (x >> 24) & 0xff == (y >> 24) & 0xff,
            (x >> 32) & 0xff == (y >> 32) & 0xff,
            (x >> 40) & 0xff == (y >> 40) & 0xff,
            (x >> 48) & 0xff == (y >> 48) & 0xff,
            (x >> 56) & 0xff == (y >> 56) & 0xff,
    ;
}

/// Appends the eight little-endian bytes of `x`.
fn push_u64(out: &mut Vec<u8>, x: u64)
    ensures
        final(out)@ == old(out)@ + u64_le(x),
{
    proof {
        assert(x & 0xff < 256 && (x >> 8) & 0xff < 256 && (x >> 16) & 0xff < 256 && (x >> 24)
            & 0xff < 256 && (x >> 32) & 0xff < 256 && (x >> 40) & 0xff < 256 && (x >> 48) & 0xff
            < 256 && (x >> 56) & 0xff < 256) by (bit_vector);
    }
    out.push((x & 0xff) as u8);
    out.push(((x >> 8) & 0xff) as u8);
    out.push(((x >> 16) & 0xff) as u8);
    out.push(((x >> 24) & 0xff) as u8);
    out.push(((x >> 32) & 0xff) as u8);
    out.push(((x >> 40) & 0xff) as u8);
    out.push(((x >> 48) & 0xff) as u8);
    out.push(((x >> 56) & 0xff) as u8);
    proof {
        assert(out@ =~= old(out)@ + u64_le(x));
    }
}

/// Reads the eight little-endian bytes at `pos` back into a number.
fn read_u64(blob: &Vec<u8>, pos: usize) -> (x: u64)
    requires
        pos + 8 <= blob@.len(),
    ensures
        blob@.subrange(pos as int, pos as int + 8) == u64_le(x),
{
    let n = blob.len();
    proof {
        assert(pos + 8 <= n);
    }
    let x = (blob[pos] as u64) | ((blob[pos + 1] as u64) << 8) | ((blob[pos + 2] as u64) << 16)
        | ((blob[pos + 3] as u64) << 24) | ((blob[pos + 4] as u64) << 32) | ((blob[pos
        + 5] as u64) << 40) | ((blob[pos + 6] as u64) << 48) | ((blob[pos + 7] as u64) << 56);
    proof {
        lemma_u64_le_build(
            blob@[pos as int],
            blob@[pos as int + 1],
            blob@[pos as int + 2],
            blob@[pos as int + 3],
            blob@[pos as int + 4],
            blob@[pos as int + 5],
            blob@[pos as int + 6],
            blob@[pos as int + 7],
        );
        assert(blob@.subrange(pos as int, pos as int + 8) =~= u64_le(x));
    }
    x
}

/// Shifts a signed number into unsigned range.
fn bias_i64(x: i64) -> (r: u64)
    ensures
        r == biased(x),
{
    if x >= 0 {
        (x as u64) + 0x8000_0000_0000_0000u64
    } else {
        ((x + 0x4000_0000_0000_0000i64) + 0x4000_0000_0000_0000i64) as u64
    }
}

/// Undoes `bias_i64`; every eight-byte value names exactly one number.
fn unbias_u64(r: u64) -> (x: i64)
    ensures
        biased(x) == r,
{
    if r >= 0x8000_0000_0000_0000u64 {
        (r - 0x8000_0000_0000_0000u64) as i64
    } else {
        ((r as i64) - 0x4000_0000_0000_0000i64) - 0x4000_0000_0000_0000i64
    }
}

/// Appends a boolean as one byte.
fn push_bool(out: &mut Vec<u8>, b: bool)
    ensures
        final(out)@ == old(out)@ + seq![bool_byte(b)],
{
    if b {
        out.push(1u8);
    } else {
        out.push(0u8);
    }
    proof {
        assert(out@ =~= old(out)@ + seq![bool_byte(b)]);
    }
}

/// The choice as its byte.
fn choice_to_byte(c: Choice) -> (r: u8)
    ensures
        r == choice_byte(c),
{
    match c {
        Choice::First => 0,
        Choice::Second => 1,
        Choice::Third => 2,
    }
}

/// A byte back to a boolean; only the two canonical bytes are accepted.
fn byte_to_bool(b: u8) -> (r: Option<bool>)
    ensures
        match r {
            Some(v) => b == bool_byte(v),
            None => b != 0 && b != 1,
        },
{
    if b == 0 {
        Some(false)
    } else if b == 1 {
        Some(true)
    } else {
        None
    }
}

/// A byte back to a choice; only the three canonical bytes are accepted.
fn byte_to_choice(b: u8) -> (r: Option<Choice>)
    ensures
        match r {
            Some(c) => b == choice_byte(c),
            None => forall|c: Choice| b != choice_byte(c),
        },
{
    if b == 0 {
        Some(Choice::First)
    } else if b == 1 {
        Some(Choice::Second)
    } else if b == 2 {
        Some(Choice::Third)
    } else {
        None
    }
}

/// Copies `len` bytes starting at `start` into a vector of their own.
fn copy_range(blob: &Vec<u8>, start: usize, len: usize) -> (r: Vec<u8>)
    requires
        start + len <= blob@.len(),
    ensures
        r@ == blob@.subrange(start as int, start as int + len as int),
{
    let total = blob.len();
    proof {
        assert(start + len <= total);
    }
    let mut r: Vec<u8> = Vec::new();
    let mut i: usize = 0;
    proof {
        assert(r@ =~= blob@.subrange(start as int, start as int));
    }
    while i < len
        invariant
            i <= len,
            start + len <= total,
            total == blob@.len(),
            r@ == blob@.subrange(start as int, start as int + i as int),
        decreases len - i,
    {
        r.push(blob[start + i]);
        proof {
            assert(blob@.subrange(start as int, start as int + i + 1) =~= blob@.subrange(
                start as int,
                start as int + i,
            ).push(blob@[start as int + i]));
        }
        i = i + 1;
    }
    r
}

/// Relies on `String::from_utf8`: it returns the string read from the given
/// bytes exactly when they are valid UTF-8, and the error value otherwise.
#[verifier::external_body]
fn string_from_utf8(v: Vec<u8>) -> (r: Option<String>)
    ensures
        r is Some <==> valid_utf8(v@),
        r is Some ==> r.unwrap()@ == decode_utf8(v@),
{
    match String::from_utf8(v) {
        Ok(s) => Some(s),
        Err(_) => None,
    }
}

/// No two distinct persisted records share a blob: the format is unambiguous,
/// which makes the restore of a saved blob exact.
pub proof fn lemma_encode_injective(p1: PersistedFields, p2: PersistedFields)
    requires
        p1.bounded(),
        p2.bounded(),
        spec_encode(p1) == spec_encode(p2),
    ensures
        p1 == p2,
{
    let lab1 = encode_utf8(p1.label);
    let lab2 = encode_utf8(p2.label);
    let st1 = encode_utf8(p1.string);
    let st2 = encode_utf8(p2.string);
    lemma_encode_parts(p1);
    lemma_encode_parts(p2);
    lemma_u64_le_injective(lab1.len() as u64, lab2.len() as u64);
    assert(lab1.len() == lab2.len());
    let l1 = lab1.len() as int;
    assert(lab1 == lab2);
    assert(p1.label == p2.label) by {
        encode_utf8_decode_utf8(p1.label);
        encode_utf8_decode_utf8(p2.label);
    }
    assert(st1.len() == st2.len()) by {
        lemma_u64_le_injective(st1.len() as u64, st2.len() as u64);
    }
    let l2 = st1.len() as int;
    assert(st1 =~= st2);
    assert(p1.string == p2.string) by {
        encode_utf8_decode_utf8(p1.string);
        encode_utf8_decode_utf8(p2.string);
    }
    assert(biased(p1.scalar_tenths) == biased(p2.scalar_tenths)) by {
        lemma_u64_le_injective(biased(p1.scalar_tenths), biased(p2.scalar_tenths));
    }
    assert(p1.scalar_tenths == p2.scalar_tenths);
    assert(bool_byte(p1.enabled) == bool_byte(p2.enabled));
    assert(bool_byte(p1.visible) == bool_byte(p2.visible));
    assert(bool_byte(p1.boolean) == bool_byte(p2.boolean));
    assert(choice_byte(p1.radio) == choice_byte(p2.radio));
    assert(bool_byte(p1.animate_progress_bar) == bool_byte(p2.animate_progress_bar));
    assert(p1.color == p2.color) by {
        assert(p1.color.r == p2.color.r && p1.color.g == p2.color.g && p1.color.b == p2.color.b
            && p1.color.a == p2.color.a);
    }
    assert(p1 =~= p2);
}

/// The round-trip law.  `save` writes `spec_encode` of the state's persisted
/// fields; `new` restores a blob only to `restored_model` of a record that
/// encodes to that same blob.  So whatever record the restore names, the
/// restored state carries exactly the saved persisted fields, and its
/// transient fields sit at their defaults.
pub proof fn lemma_save_restore_round_trip(m: AppModel, p: PersistedFields)
    requires
        m.persisted().bounded(),
        p.bounded(),
        spec_encode(p) == spec_encode(m.persisted()),
    ensures
        restored_model(p).persisted() == m.persisted(),
        restored_model(p).date is None,
        restored_model(p).value_tenths == DEFAULT_VALUE_TENTHS,
{
    lemma_encode_injective(p, m.persisted());
    assert(restored_model(p).persisted() =~= m.persisted());
}

/// A blob shorter than the fixed part of the layout encodes nothing.
proof fn lemma_no_encoding_short(b: Seq<u8>)
    requires
        b.len() < 34,
    ensures
        forall|p: PersistedFields| p.bounded() ==> b != spec_encode(p),
{
    assert forall|p: PersistedFields| p.bounded() implies b != spec_encode(p) by {
        lemma_encode_parts(p);
    }
}

/// A blob with the wrong version byte encodes nothing.
proof fn lemma_no_encoding_version(b: Seq<u8>)
    requires
        b.len() >= 34,
        b[0] != FORMAT_VERSION,
    ensures
        forall|p: PersistedFields| p.bounded() ==> b != spec_encode(p),
{
    assert forall|p: PersistedFields| p.bounded() implies b != spec_encode(p) by {
        lemma_encode_parts(p);
    }
}

/// A blob whose label length field exceeds what the blob can hold encodes
/// nothing.
proof fn lemma_no_encoding_label_long(b: Seq<u8>, l1u: u64)
    requires
        b.len() >= 34,
        b.subrange(1, 9) == u64_le(l1u),
        l1u as int > b.len() - 34,
    ensures
        forall|p: PersistedFields| p.bounded() ==> b != spec_encode(p),
{
    assert forall|p: PersistedFields| p.bounded() implies b != spec_encode(p) by {
        if b == spec_encode(p) {
            lemma_encode_parts(p);
            lemma_u64_le_injective(encode_utf8(p.label).len() as u64, l1u);
        }
    }
}

/// A blob whose label bytes are not UTF-8 encodes nothing.
proof fn lemma_no_encoding_label_utf8(b: Seq<u8>, l1u: u64)
    requires
        b.len() >= 34,
        b.subrange(1, 9) == u64_le(l1u),
        l1u as int <= b.len() - 34,
        !valid_utf8(b.subrange(9, 9 + l1u as int)),
    ensures
        forall|p: PersistedFields| p.bounded() ==> b != spec_encode(p),
{
    assert forall|p: PersistedFields| p.bounded() implies b != spec_encode(p) by {
        if b == spec_encode(p) {
            lemma_encode_parts(p);
            lemma_u64_le_injective(encode_utf8(p.label).len() as u64, l1u);
            encode_utf8_valid_utf8(p.label);
        }
    }
}

/// A blob with a non-canonical byte in one of the three flag slots behind the
/// label encodes nothing.
proof fn lemma_no_encoding_flag(b: Seq<u8>, l1u: u64, k: int)
    requires
        b.len() >= 34,
        b.subrange(1, 9) == u64_le(l1u),
        l1u as int <= b.len() - 34,
        0 <= k < 3,
        b[9 + l1u as int + k] != 0,
        b[9 + l1u as int + k] != 1,
    ensures
        forall|p: PersistedFields| p.bounded() ==> b != spec_encode(p),
{
    assert forall|p: PersistedFields| p.bounded() implies b != spec_encode(p) by {
        if b == spec_encode(p) {
            lemma_encode_parts(p);
            lemma_u64_le_injective(encode_utf8(p.label).len() as u64, l1u);
        }
    }
}

/// A blob with a byte other than the three canonical ones in the choice slot
/// encodes nothing.
proof fn lemma_no_encoding_choice(b: Seq<u8>, l1u: u64)
    requires
        b.len() >= 34,
        b.subrange(1, 9) == u64_le(l1u),
        l1u as int <= b.len() - 34,
        forall|c: Choice| b[12 + l1u as int] != choice_byte(c),
    ensures
        forall|p: PersistedFields| p.bounded() ==> b != spec_encode(p),
{
    assert forall|p: PersistedFields| p.bounded() implies b != spec_encode(p) by {
        if b == spec_encode(p) {
            lemma_encode_parts(p);
            lemma_u64_le_injective(encode_utf8(p.label).len() as u64, l1u);
        }
    }
}

/// A blob whose string length field does not account for exactly the rest of
/// the blob encodes nothing.
proof fn lemma_no_encoding_string_len(b: Seq<u8>, l1u: u64, l2u: u64)
    requires
        b.len() >= 34,
        b.subrange(1, 9) == u64_le(l1u),
        l1u as int <= b.len() - 34,
        b.subrange(21 + l1u as int, 29 + l1u as int) == u64_le(l2u),
        b.len() - 34 - l1u as int != l2u as int,
    ensures
        forall|p: PersistedFields| p.bounded() ==> b != spec_encode(p),
{
    assert forall|p: PersistedFields| p.bounded() implies b != spec_encode(p) by {
        if b == spec_encode(p) {
            lemma_encode_parts(p);
            lemma_u64_le_injective(encode_utf8(p.label).len() as u64, l1u);
            lemma_u64_le_injective(encode_utf8(p.string).len() as u64, l2u);
        }
    }
}

/// A blob whose string bytes are not UTF-8 encodes nothing.
proof fn lemma_no_encoding_string_utf8(b: Seq<u8>, l1u: u64, l2u: u64)
    requires
        b.len() >= 34,
        b.subrange(1, 9) == u64_le(l1u),
        l1u as int <= b.len() - 34,
        b.subrange(21 + l1u as int, 29 + l1u as int) == u64_le(l2u),
        b.len() - 34 - l1u as int == l2u as int,
        !valid_utf8(b.subrange(29 + l1u as int, 29 + l1u as int + l2u as int)),
    ensures
        forall|p: PersistedFields| p.bounded() ==> b != spec_encode(p),
{
    assert forall|p: PersistedFields| p.bounded() implies b != spec_encode(p) by {
        if b == spec_encode(p) {
            lemma_encode_parts(p);
            lemma_u64_le_injective(encode_utf8(p.label).len() as u64, l1u);
            lemma_u64_le_injective(encode_utf8(p.string).len() as u64, l2u);
            encode_utf8_valid_utf8(p.string);
        }
    }
}

/// A blob whose last byte is not a canonical flag byte encodes nothing.
proof fn lemma_no_encoding_last_flag(b: Seq<u8>)
    requires
        b.len() >= 34,
        b[b.len() - 1] != 0,
        b[b.len() - 1] != 1,
    ensures
        forall|p: PersistedFields| p.bounded() ==> b != spec_encode(p),
{
    assert forall|p: PersistedFields| p.bounded() implies b != spec_encode(p) by {
        lemma_encode_parts(p);
    }
}

/// A blob that carries every part of the layout for the record `q` is exactly
/// the encoding of `q`.
proof fn lemma_parts_are_encoding(b: Seq<u8>, q: PersistedFields)
    requires
        ({
            let lab = encode_utf8(q.label);
            let st = encode_utf8(q.string);
            let l1 = lab.len() as int;
            let l2 = st.len() as int;
            &&& q.bounded()
            &&& b.len() == 34 + l1 + l2
            &&& b[0] == FORMAT_VERSION
            &&& b.subrange(1, 9) == u64_le(lab.len() as u64)
            &&& b.subrange(9, 9 + l1) == lab
            &&& b[9 + l1] == bool_byte(q.enabled)
            &&& b[10 + l1] == bool_byte(q.visible)
            &&& b[11 + l1] == bool_byte(q.boolean)
            &&& b[12 + l1] == choice_byte(q.radio)
            &&& b.subrange(13 + l1, 21 + l1) == u64_le(biased(q.scalar_tenths))
            &&& b.subrange(21 + l1, 29 + l1) == u64_le(st.len() as u64)
            &&& b.subrange(29 + l1, 29 + l1 + l2) == st
            &&& b[29 + l1 + l2] == q.color.r
            &&& b[30 + l1 + l2] == q.color.g
            &&& b[31 + l1 + l2] == q.color.b
            &&& b[32 + l1 + l2] == q.color.a
            &&& b[33 + l1 + l2] == bool_byte(q.animate_progress_bar)
        }),
    ensures
        b == spec_encode(q),
{
    let lab = encode_utf8(q.label);
    let st = encode_utf8(q.string);
    let l1 = lab.len() as int;
    let l2 = st.len() as int;
    let e = spec_encode(q);
    lemma_encode_parts(q);
    assert forall|i: int| 0 <= i < b.len() implies b[i] == e[i] by {
        if i == 0 {
        } else if i < 9 {
            assert(b.subrange(1, 9)[i - 1] == b[i]);
            assert(e.subrange(1, 9)[i - 1] == e[i]);
        } else if i < 9 + l1 {
            assert(b.subrange(9, 9 + l1)[i - 9] == b[i]);
            assert(e.subrange(9, 9 + l1)[i - 9] == e[i]);
        } else if i < 13 + l1 {
        } else if i < 21 + l1 {
            assert(b.subrange(13 + l1, 21 + l1)[i - 13 - l1] == b[i]);
            assert(e.subrange(13 + l1, 21 + l1)[i - 13 - l1] == e[i]);
        } else if i < 29 + l1 {
            assert(b.subrange(21 + l1, 29 + l1)[i - 21 - l1] == b[i]);
            assert(e.subrange(21 + l1, 29 + l1)[i - 21 - l1] == e[i]);
        } else if i < 29 + l1 + l2 {
            assert(b.subrange(29 + l1, 29 + l1 + l2)[i - 29 - l1] == b[i]);
            assert(e.subrange(29 + l1, 29 + l1 + l2)[i - 29 - l1] == e[i]);
        } else {
        }
    }
    assert(b =~= e);
}

impl TemplateApp {
    /// Serializes the persisted fields into the blob kept under the storage
    /// key; the transient counter and the date are left out.
    pub fn save(&self) -> (blob: Vec<u8>)
        ensures
            self@.persisted().bounded(),
            blob@ == spec_encode(self@.persisted()),
    {
        let mut out: Vec<u8> = Vec::new();
        out.push(FORMAT_VERSION);
        let lab: &[u8] = self.label.as_str().as_bytes();
        push_u64(&mut out, lab.len() as u64);
        out.extend_from_slice(lab);
        push_bool(&mut out, self.enabled);
        push_bool(&mut out, self.visible);
        push_bool(&mut out, self.boolean);
        out.push(choice_to_byte(self.radio));
        push_u64(&mut out, bias_i64(self.scalar_tenths));
        let st: &[u8] = self.string.as_str().as_bytes();
        push_u64(&mut out, st.len() as u64);
        out.extend_from_slice(st);
        out.push(self.color.r);
        out.push(self.color.g);
        out.push(self.color.b);
        out.push(self.color.a);
        push_bool(&mut out, self.animate_progress_bar);
        proof {
            assert(out@ =~= spec_encode(self@.persisted()));
        }
        out
    }

    /// Reads a blob back.  Succeeds exactly on the blobs the format can
    /// produce; everything the blob holds is returned, and the transient
    /// fields start over at their defaults.
    #[verifier::rlimit(50)]
    fn decode(blob: &Vec<u8>) -> (r: Option<TemplateApp>)
        ensures
            match r {
                Some(s) => s@.persisted().bounded() && blob@ == spec_encode(s@.persisted())
                    && s@.date is None && s@.value_tenths == DEFAULT_VALUE_TENTHS,
                None => forall|p: PersistedFields| p.bounded() ==> blob@ != spec_encode(p),
            },
    {
        let n = blob.len();
        if n < 34 {
            proof {
                lemma_no_encoding_short(blob@);
            }
            return None;
        }
        if blob[0] != FORMAT_VERSION {
            proof {
                lemma_no_encoding_version(blob@);
            }
            return None;
        }
        let l1u = read_u64(blob, 1);
        if l1u > (n - 34) as u64 {
            proof {
                lemma_no_encoding_label_long(blob@, l1u);
            }
            return None;
        }
        let l1 = l1u as usize;
        let lab_bytes = copy_range(blob, 9, l1);
        let lab_s = match string_from_utf8(lab_bytes) {
            Some(s) => s,
            None => {
                proof {
                    lemma_no_encoding_label_utf8(blob@, l1u);
                }
                return None;
            },
        };
        let p1 = 9 + l1;
        let enabled = match byte_to_bool(blob[p1]) {
            Some(v) => v,
            None => {
                proof {
                    lemma_no_encoding_flag(blob@, l1u, 0);
                }
                return None;
            },
        };
        let visible = match byte_to_bool(blob[p1 + 1]) {
            Some(v) => v,
            None => {
                proof {
                    lemma_no_encoding_flag(blob@, l1u, 1);
                }
                return None;
            },
        };
        let boolean = match byte_to_bool(blob[p1 + 2]) {
            Some(v) => v,
            None => {
                proof {
                    lemma_no_encoding_flag(blob@, l1u, 2);
                }
                return None;
            },
        };
        let radio = match byte_to_choice(blob[p1 + 3]) {
            Some(v) => v,
            None => {
                proof {
                    lemma_no_encoding_choice(blob@, l1u);
                }
                return None;
            },
        };
        let scalar_tenths = unbias_u64(read_u64(blob, p1 + 4));
        let l2u = read_u64(blob, p1 + 12);
        if ((n - 34 - l1) as u64) != l2u {
            proof {
                lemma_no_encoding_string_len(blob@, l1u, l2u);
            }
            return None;
        }
        let l2 = (n - 34) - l1;
        let st_bytes = copy_range(blob, p1 + 20, l2);
        let st_s = match string_from_utf8(st_bytes) {
            Some(s) => s,
            None => {
                proof {
                    lemma_no_encoding_string_utf8(blob@, l1u, l2u);
                }
                return None;
            },
        };
        let pc = p1 + 20 + l2;
        let animate_progress_bar = match byte_to_bool(blob[pc + 4]) {
            Some(v) => v,
            None => {
                proof {
                    lemma_no_encoding_last_flag(blob@);
                }
                return None;
            },
        };
        let s = TemplateApp {
            label: lab_s,
            enabled,
            visible,
            boolean,
            radio,
            scalar_tenths,
            string: st_s,
            color: Color { r: blob[pc], g: blob[pc + 1], b: blob[pc + 2], a: blob[pc + 3] },
            animate_progress_bar,
            date: None,
            value_tenths: DEFAULT_VALUE_TENTHS,
        };
        proof {
            let q = s@.persisted();
            let li = l1 as int;
            let si = l2 as int;
            decode_utf8_encode_utf8(blob@.subrange(9, 9 + li));
            decode_utf8_encode_utf8(blob@.subrange(29 + li, 29 + li + si));
            assert(encode_utf8(q.label) == blob@.subrange(9, 9 + li));
            assert(encode_utf8(q.string) == blob@.subrange(29 + li, 29 + li + si));
            lemma_parts_are_encoding(blob@, q);
        }
        Some(s)
    }

    /// Builds the state for a new run: restores a stored blob when it is one
    /// the format can produce, and falls back to the documented default
    /// literal when no blob was stored or the blob is corrupt.  A restored
    /// state carries exactly the blob's persisted fields; the transient
    /// fields always start at their defaults.
    pub fn new(stored: Option<Vec<u8>>) -> (s: Self)
        ensures
            match stored {
                None => s@ == default_model(),
                Some(b) => {
                    &&& (forall|p: PersistedFields| p.bounded() ==> b@ != spec_encode(p)) ==> s@
                        == default_model()
                    &&& forall|p: PersistedFields|
                        p.bounded() && b@ == spec_encode(p) ==> s@ == restored_model(p)
                },
            },
    {
        match stored {
            None => TemplateApp::default(),
            Some(b) => {
                match Self::decode(&b) {
                    Some(s) => {
                        proof {
                            assert forall|p: PersistedFields|
                                p.bounded() && b@ == spec_encode(p) implies s@ == restored_model(
                                p,
                            ) by {
                                lemma_encode_injective(p, s@.persisted());
                                assert(s@ =~= restored_model(p));
                            }
                        }
                        s
                    },
                    None => TemplateApp::default(),
                }
            },
        }
    }
}

} // verus!
