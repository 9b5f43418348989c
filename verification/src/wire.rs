//! The world-update batches that the server sends to its clients: 96
//! fixed-size records, compressed with zstd and framed with their length.
use crate::bytes::{
    le_u16, le_u32, lemma_u16_roundtrip, lemma_u32_roundtrip, push_u16_le, push_u32_le, read_u16_le, read_u32_le, u16_le, u32_le,
};
use crate::message::PAYLOAD_LEN;
use vstd::prelude::*;

verus! {

/// Number of world updates in one batch.
pub const NUM_UPDATES_PER_MSG: u32 = 96;

/// Bytes of one encoded world update.
pub const UPDATE_LEN: usize = 28;

/// Bytes of one encoded batch of world updates before compression.
pub const BATCH_LEN: usize = 2688;

/// The zstd compression level of the batches.
pub const ZSTD_LEVEL: i32 = 3;

/// What `zstd::encode_all` produces from `data` at `level`, or `None` when it
/// fails.
pub uninterp spec fn zstd_encode_all(data: Seq<u8>, level: i32) -> Option<Seq<u8>>;

/// What `zstd::decode_all` produces from `data`, or `None` when it fails.
pub uninterp spec fn zstd_decode_all(data: Seq<u8>) -> Option<Seq<u8>>;

/// Calls `zstd::encode_all`, which compresses `data` into one zstd frame; the
/// frame is a function of the data and the level. Its bytes are left unsaid.
#[verifier::external_body]
fn zstd_encode(data: &[u8], level: i32) -> (res: Option<Vec<u8>>)
    ensures
        match res {
            Some(v) => zstd_encode_all(data@, level) == Some(v@),
            None => zstd_encode_all(data@, level) is None,
        },
{
    zstd::encode_all(data, level).ok()
}

/// Calls `zstd::decode_all`, which decompresses a zstd frame. Compression is
/// lossless: a frame that `zstd::encode_all` produced from some data decodes
/// to that data.
#[verifier::external_body]
fn zstd_decode(data: &[u8]) -> (res: Option<Vec<u8>>)
    ensures
        match res {
            Some(v) => zstd_decode_all(data@) == Some(v@),
            None => zstd_decode_all(data@) is None,
        },
        res is None ==> forall|x: Seq<u8>, level: i32| #[trigger] zstd_encode_all(x, level) != Some(data@),
        res matches Some(v) ==> forall|x: Seq<u8>, level: i32|
            #[trigger] zstd_encode_all(x, level) == Some(data@) ==> v@ == x,
{
    zstd::decode_all(data).ok()
}

/// What an entity is on the wire: its kind tag, its facet index and its
/// physical index.
#[derive(Debug, Default, Copy, Clone, PartialEq, Eq, Structural)]
pub struct WireThing {
    pub tag: u8,
    pub _pad: u8,
    pub facet: u16,
    pub phys: u32,
}

impl WireThing {
    /// A wire entity with the given tag, facet index and physical index.
    pub fn new(tag: u8, facet: u16, phys: u32) -> (w: Self)
        ensures
            w.tag == tag,
            w.facet == facet,
            w.phys == phys,
            w.pad() == 0,
    {
        Self { tag, _pad: 0, facet, phys }
    }

    pub closed spec fn pad(self) -> u8 {
        self._pad
    }
}

/// A position on the wire: the IEEE-754 bit patterns of its three `f32`
/// coordinates.
#[derive(Debug, Default, Copy, Clone, PartialEq, Eq, Structural)]
pub struct WirePosition(pub u32, pub u32, pub u32);

/// The update of one entity: its index, what it is, where it is, and the
/// IEEE-754 bit pattern of its rotation about the y axis.
#[derive(Debug, Default, Copy, Clone, PartialEq, Eq, Structural)]
pub struct WorldUpdate {
    pub id: u32,
    pub thing: WireThing,
    pub position: WirePosition,
    pub y_rotation: u32,
}

/// Errors of packing and unpacking batches.
#[derive(Debug, PartialEq, Eq)]
pub enum WireError {
    /// The decompressed batch does not have the length of 96 updates; holds
    /// its length.
    FromBytes(usize),
    /// zstd failed to compress.
    UpdateCompression,
    /// zstd failed to decompress.
    UpdateDecompression,
    /// A controller payload announces more bytes than it holds; holds the
    /// announced length and the payload length.
    InvalidPayloadLength(u16, usize),
}

/// The 28 bytes of one update: every field little-endian, in declaration order.
pub open spec fn update_bytes(u: WorldUpdate) -> Seq<u8> {
    u32_le(u.id) + seq![u.thing.tag, u.thing.pad()] + u16_le(u.thing.facet) + u32_le(u.thing.phys)
        + u32_le(u.position.0) + u32_le(u.position.1) + u32_le(u.position.2) + u32_le(u.y_rotation)
}

/// The update laid out in 28 bytes.
pub open spec fn decode_update(b: Seq<u8>) -> WorldUpdate {
    WorldUpdate {
        id: le_u32(b.subrange(0, 4)),
        thing: WireThing {
            tag: b[4],
            _pad: b[5],
            facet: le_u16(b.subrange(6, 8)),
            phys: le_u32(b.subrange(8, 12)),
        },
        position: WirePosition(
            le_u32(b.subrange(12, 16)),
            le_u32(b.subrange(16, 20)),
            le_u32(b.subrange(20, 24)),
        ),
        y_rotation: le_u32(b.subrange(24, 28)),
    }
}

/// The bytes of a sequence of updates, one record after the other.
pub open spec fn updates_bytes(us: Seq<WorldUpdate>) -> Seq<u8>
    decreases us.len(),
{
    if us.len() == 0 {
        Seq::empty()
    } else {
        updates_bytes(us.drop_last()) + update_bytes(us.last())
    }
}

/// The updates laid out in a batch of 96 records.
pub open spec fn decode_updates(b: Seq<u8>) -> Seq<WorldUpdate> {
    Seq::new(
        NUM_UPDATES_PER_MSG as nat,
        |i: int| decode_update(b.subrange(UPDATE_LEN * i, UPDATE_LEN * i + UPDATE_LEN)),
    )
}

/// A compressed batch: the length of the zstd frame, capped at `PAYLOAD_LEN`,
/// as a little-endian `u16`, then the frame.
pub open spec fn spec_compress(us: Seq<WorldUpdate>) -> Option<Seq<u8>> {
    match zstd_encode_all(updates_bytes(us), ZSTD_LEVEL) {
        Some(frame) => Some(
            u16_le(if frame.len() < PAYLOAD_LEN { frame.len() as u16 } else { PAYLOAD_LEN as u16 })
                + frame,
        ),
        None => None,
    }
}

/// The frame that a compressed batch announces: the bytes after the length,
/// as many as the length says (capped at `PAYLOAD_LEN`) or as there are.
pub open spec fn announced_frame(c: Seq<u8>) -> Seq<u8> {
    let len = if le_u16(c.subrange(0, 2)) < PAYLOAD_LEN {
        le_u16(c.subrange(0, 2)) as int
    } else {
        PAYLOAD_LEN as int
    };
    c.subrange(2, if 2 + len < c.len() { 2 + len } else { c.len() as int })
}

/// The updates in a compressed batch, or why there are none.
pub open spec fn spec_decompress(c: Seq<u8>) -> Result<Seq<WorldUpdate>, WireError> {
    match zstd_decode_all(announced_frame(c)) {
        None => Err(WireError::UpdateDecompression),
        Some(d) => if d.len() == BATCH_LEN {
            Ok(decode_updates(d))
        } else {
            Err(WireError::FromBytes(d.len() as usize))
        },
    }
}

/// Append the 28 bytes of one update.
fn push_update(out: &mut Vec<u8>, u: &WorldUpdate)
    ensures
        final(out)@ == old(out)@ + update_bytes(*u),
{
    push_u32_le(out, u.id);
    out.push(u.thing.tag);
    out.push(u.thing._pad);
    push_u16_le(out, u.thing.facet);
    push_u32_le(out, u.thing.phys);
    push_u32_le(out, u.position.0);
    push_u32_le(out, u.position.1);
    push_u32_le(out, u.position.2);
    push_u32_le(out, u.y_rotation);
    assert(out@ =~= old(out)@ + update_bytes(*u));
}

/// Read the update whose record starts at `at`.
fn read_update(b: &[u8], at: usize) -> (u: WorldUpdate)
    requires
        at + UPDATE_LEN <= b@.len(),
    ensures
        u == decode_update(b@.subrange(at as int, at + UPDATE_LEN)),
{
    let ghost r = b@.subrange(at as int, at + UPDATE_LEN);
    let n = b.len();
    assert(at + UPDATE_LEN <= n);
    let id = read_u32_le(b, at);
    let facet = read_u16_le(b, at + 6);
    let phys = read_u32_le(b, at + 8);
    let p0 = read_u32_le(b, at + 12);
    let p1 = read_u32_le(b, at + 16);
    let p2 = read_u32_le(b, at + 20);
    let rot = read_u32_le(b, at + 24);
    assert(b@.subrange(at as int, at + 4) =~= r.subrange(0, 4));
    assert(b@.subrange(at + 6, at + 8) =~= r.subrange(6, 8));
    assert(b@.subrange(at + 8, at + 12) =~= r.subrange(8, 12));
    assert(b@.subrange(at + 12, at + 16) =~= r.subrange(12, 16));
    assert(b@.subrange(at + 16, at + 20) =~= r.subrange(16, 20));
    assert(b@.subrange(at + 20, at + 24) =~= r.subrange(20, 24));
    assert(b@.subrange(at + 24, at + 28) =~= r.subrange(24, 28));
    WorldUpdate {
        id,
        thing: WireThing { tag: b[at + 4], _pad: b[at + 5], facet, phys },
        position: WirePosition(p0, p1, p2),
        y_rotation: rot,
    }
}

/// The bytes of a batch of updates.
pub fn encode_updates(values: &[WorldUpdate]) -> (out: Vec<u8>)
    ensures
        out@ == updates_bytes(values@),
{
    let mut out: Vec<u8> = Vec::new();
    let mut i: usize = 0;
    while i < values.len()
        invariant
            0 <= i <= values@.len(),
            out@ == updates_bytes(values@.take(i as int)),
        decreases values@.len() - i,
    {
        push_update(&mut out, &values[i]);
        assert(values@.take(i + 1).drop_last() =~= values@.take(i as int));
        i = i + 1;
    }
    assert(values@.take(values@.len() as int) =~= values@);
    out
}

/// The 96 updates of an uncompressed batch.
pub fn decode_batch(b: &[u8]) -> (us: Vec<WorldUpdate>)
    requires
        b@.len() == BATCH_LEN,
    ensures
        us@ == decode_updates(b@),
{
    let mut us: Vec<WorldUpdate> = Vec::new();
    let mut i: usize = 0;
    while i < NUM_UPDATES_PER_MSG as usize
        invariant
            0 <= i <= NUM_UPDATES_PER_MSG,
            b@.len() == BATCH_LEN,
            us@ =~= Seq::new(
                i as nat,
                |j: int| decode_update(b@.subrange(UPDATE_LEN * j, UPDATE_LEN * j + UPDATE_LEN)),
            ),
        decreases NUM_UPDATES_PER_MSG - i,
    {
        let u = read_update(b, UPDATE_LEN * i);
        us.push(u);
        i = i + 1;
    }
    us
}

/// Compress a batch of 96 updates with zstd and frame it with the frame's
/// length, capped at `PAYLOAD_LEN`.
pub fn compress_world_updates(values: &[WorldUpdate]) -> (res: Result<Vec<u8>, WireError>)
    requires
        values@.len() == NUM_UPDATES_PER_MSG,
    ensures
        match spec_compress(values@) {
            Some(c) => res matches Ok(v) && v@ == c,
            None => res == Err::<Vec<u8>, WireError>(WireError::UpdateCompression),
        },
{
    let read_bytes = encode_updates(values);
    let encoded = match zstd_encode(read_bytes.as_slice(), ZSTD_LEVEL) {
        Some(e) => e,
        None => return Err(WireError::UpdateCompression),
    };
    let len = if encoded.len() < PAYLOAD_LEN {
        encoded.len() as u16
    } else {
        PAYLOAD_LEN as u16
    };
    let mut compressed_bytes: Vec<u8> = Vec::new();
    push_u16_le(&mut compressed_bytes, len);
    let ghost head = compressed_bytes@;
    let mut i: usize = 0;
    while i < encoded.len()
        invariant
            0 <= i <= encoded@.len(),
            compressed_bytes@ == head + encoded@.take(i as int),
        decreases encoded@.len() - i,
    {
        compressed_bytes.push(encoded[i]);
        i = i + 1;
        assert(compressed_bytes@ =~= head + encoded@.take(i as int));
    }
    assert(encoded@.take(encoded@.len() as int) =~= encoded@);
    Ok(compressed_bytes)
}

/// Unpack a compressed batch: read the announced frame length, decompress that
/// many bytes, and read 96 updates from the result.
pub fn decompress_world_updates(compressed: &[u8]) -> (res: Result<Vec<WorldUpdate>, WireError>)
    requires
        compressed@.len() >= 2,
    ensures
        match spec_decompress(compressed@) {
            Ok(us) => res matches Ok(v) && v@ == us,
            Err(e) => res == Err::<Vec<WorldUpdate>, WireError>(e),
        },
        forall|us: Seq<WorldUpdate>|
            us.len() == NUM_UPDATES_PER_MSG && #[trigger] spec_compress(us) == Some(compressed@)
                && compressed@.len() <= 2 + PAYLOAD_LEN ==> (res matches Ok(v) && v@ == us),
{
    let len = read_u16_le(compressed, 0);
    let len = if (len as usize) < PAYLOAD_LEN { len as usize } else { PAYLOAD_LEN };
    let end = if 2 + len < compressed.len() { 2 + len } else { compressed.len() };
    let mut frame: Vec<u8> = Vec::new();
    let mut i: usize = 2;
    while i < end
        invariant
            2 <= i <= end <= compressed@.len(),
            frame@ == compressed@.subrange(2, i as int),
        decreases end - i,
    {
        frame.push(compressed[i]);
        i = i + 1;
        assert(frame@ =~= compressed@.subrange(2, i as int));
    }
    assert(frame@ == announced_frame(compressed@));
    proof {
        lemma_compressed_frame(compressed@);
    }
    let decoded = match zstd_decode(frame.as_slice()) {
        Some(d) => d,
        None => return Err(WireError::UpdateDecompression),
    };
    proof {
        assert forall|vs: Seq<WorldUpdate>|
            vs.len() == NUM_UPDATES_PER_MSG && #[trigger] spec_compress(vs) == Some(compressed@)
                && compressed@.len() <= 2 + PAYLOAD_LEN implies decoded@ == updates_bytes(vs)
            && decoded@.len() == BATCH_LEN by {
            assert(zstd_encode_all(updates_bytes(vs), ZSTD_LEVEL) == Some(frame@));
            lemma_batch_roundtrip(vs);
        }
    }
    if decoded.len() != BATCH_LEN {
        return Err(WireError::FromBytes(decoded.len()));
    }
    let us = decode_batch(decoded.as_slice());
    proof {
        assert forall|vs: Seq<WorldUpdate>|
            vs.len() == NUM_UPDATES_PER_MSG && #[trigger] spec_compress(vs) == Some(compressed@)
                && compressed@.len() <= 2 + PAYLOAD_LEN implies us@ == vs by {
            assert(zstd_encode_all(updates_bytes(vs), ZSTD_LEVEL) == Some(frame@));
            lemma_batch_roundtrip(vs);
        }
    }
    Ok(us)
}

/// The frame that a compressed batch announces is the zstd frame it was made
/// from, when that frame fits in a payload.
proof fn lemma_compressed_frame(c: Seq<u8>)
    ensures
        forall|us: Seq<WorldUpdate>|
            us.len() == NUM_UPDATES_PER_MSG && #[trigger] spec_compress(us) == Some(c) && c.len()
                <= 2 + PAYLOAD_LEN ==> zstd_encode_all(updates_bytes(us), ZSTD_LEVEL) == Some(
                announced_frame(c),
            ),
{
    assert forall|us: Seq<WorldUpdate>|
        us.len() == NUM_UPDATES_PER_MSG && #[trigger] spec_compress(us) == Some(c) && c.len() <= 2
            + PAYLOAD_LEN implies zstd_encode_all(updates_bytes(us), ZSTD_LEVEL) == Some(
        announced_frame(c),
    ) by {
        let f = zstd_encode_all(updates_bytes(us), ZSTD_LEVEL).unwrap();
        let hdr: u16 = if f.len() < PAYLOAD_LEN { f.len() as u16 } else { PAYLOAD_LEN as u16 };
        lemma_u16_roundtrip(hdr);
        assert(c.subrange(0, 2) =~= u16_le(hdr));
        assert(c.subrange(2, c.len() as int) =~= f);
    }
}

/// Reading back the bytes of one update gives the same update.
pub proof fn lemma_update_roundtrip(u: WorldUpdate)
    ensures
        decode_update(update_bytes(u)) == u,
        update_bytes(u).len() == UPDATE_LEN,
{
    let b = update_bytes(u);
    lemma_u32_roundtrip(u.id);
    lemma_u16_roundtrip(u.thing.facet);
    lemma_u32_roundtrip(u.thing.phys);
    lemma_u32_roundtrip(u.position.0);
    lemma_u32_roundtrip(u.position.1);
    lemma_u32_roundtrip(u.position.2);
    lemma_u32_roundtrip(u.y_rotation);
    assert(b.subrange(0, 4) =~= u32_le(u.id));
    assert(b.subrange(6, 8) =~= u16_le(u.thing.facet));
    assert(b.subrange(8, 12) =~= u32_le(u.thing.phys));
    assert(b.subrange(12, 16) =~= u32_le(u.position.0));
    assert(b.subrange(16, 20) =~= u32_le(u.position.1));
    assert(b.subrange(20, 24) =~= u32_le(u.position.2));
    assert(b.subrange(24, 28) =~= u32_le(u.y_rotation));
}

/// The record of update `i` sits at `28 * i` in the bytes of a sequence.
proof fn lemma_updates_bytes_layout(us: Seq<WorldUpdate>)
    ensures
        updates_bytes(us).len() == UPDATE_LEN * us.len(),
        forall|i: int|
            0 <= i < us.len() ==> #[trigger] updates_bytes(us).subrange(
                UPDATE_LEN * i,
                UPDATE_LEN * i + UPDATE_LEN,
            ) == update_bytes(us[i]),
    decreases us.len(),
{
    if us.len() > 0 {
        let init = us.drop_last();
        lemma_updates_bytes_layout(init);
        lemma_update_roundtrip(us.last());
        let b = updates_bytes(us);
        assert forall|i: int| 0 <= i < us.len() implies #[trigger] b.subrange(
            UPDATE_LEN * i,
            UPDATE_LEN * i + UPDATE_LEN,
        ) == update_bytes(us[i]) by {
            if i < us.len() - 1 {
                assert(b.subrange(UPDATE_LEN * i, UPDATE_LEN * i + UPDATE_LEN) =~= updates_bytes(
                    init,
                ).subrange(UPDATE_LEN * i, UPDATE_LEN * i + UPDATE_LEN));
                assert(init[i] == us[i]);
            } else {
                assert(b.subrange(UPDATE_LEN * i, UPDATE_LEN * i + UPDATE_LEN) =~= update_bytes(
                    us.last(),
                ));
            }
        }
    }
}

/// Reading back the bytes of a batch of 96 updates gives the same updates.
pub proof fn lemma_batch_roundtrip(us: Seq<WorldUpdate>)
    requires
        us.len() == NUM_UPDATES_PER_MSG,
    ensures
        updates_bytes(us).len() == BATCH_LEN,
        decode_updates(updates_bytes(us)) == us,
{
    lemma_updates_bytes_layout(us);
    assert forall|i: int| 0 <= i < us.len() implies #[trigger] decode_updates(updates_bytes(us))[i]
        == us[i] by {
        lemma_update_roundtrip(us[i]);
        assert(updates_bytes(us).subrange(UPDATE_LEN * i, UPDATE_LEN * i + UPDATE_LEN)
            == update_bytes(us[i]));
    }
    assert(decode_updates(updates_bytes(us)) =~= us);
}

// ---------------------------------------------------------------------------
// Entities

/// What an entity of the world is, with its indices: a camera or a graphics
/// object, each with the index of its physical facet.
#[derive(Debug, Copy, Clone, PartialEq, Eq, Structural)]
pub enum ThingKind {
    Camera { phys: u32, camera: u16 },
    GraphicsObject { phys: u32, model: u16 },
}

/// The wire form of an entity: tag 0 for a camera, 1 for a graphics object.
pub open spec fn spec_wire_thing(k: ThingKind) -> WireThing {
    match k {
        ThingKind::Camera { phys, camera } => WireThing { tag: 0, _pad: 0, facet: camera, phys },
        ThingKind::GraphicsObject { phys, model } => WireThing { tag: 1, _pad: 0, facet: model, phys },
    }
}

/// The entity that a wire form with tag 0 or 1 describes.
pub open spec fn spec_thing_of(w: WireThing) -> ThingKind {
    if w.tag == 0 {
        ThingKind::Camera { phys: w.phys, camera: w.facet }
    } else {
        ThingKind::GraphicsObject { phys: w.phys, model: w.facet }
    }
}

impl ThingKind {
    /// The wire form of the entity.
    pub fn to_wire(&self) -> (w: WireThing)
        ensures
            w == spec_wire_thing(*self),
    {
        match *self {
            ThingKind::Camera { phys, camera } => WireThing { tag: 0, _pad: 0, facet: camera, phys },
            ThingKind::GraphicsObject { phys, model } => WireThing { tag: 1, _pad: 0, facet: model, phys },
        }
    }

    /// The entity that a wire form describes; only tags 0 and 1 occur.
    pub fn from_wire(w: WireThing) -> (k: ThingKind)
        requires
            w.tag <= 1,
        ensures
            k == spec_thing_of(w),
    {
        if w.tag == 0 {
            ThingKind::Camera { phys: w.phys, camera: w.facet }
        } else {
            ThingKind::GraphicsObject { phys: w.phys, model: w.facet }
        }
    }
}

/// An entity read back from its wire form is the entity; a wire form with
/// tag 0 or 1 and no padding is the wire form of what it describes.
pub proof fn lemma_thing_wire_roundtrip(k: ThingKind, w: WireThing)
    ensures
        spec_wire_thing(k).tag <= 1,
        spec_thing_of(spec_wire_thing(k)) == k,
        w.tag <= 1 && w._pad == 0 ==> spec_wire_thing(spec_thing_of(w)) == w,
{
}

// ---------------------------------------------------------------------------
// Controller payloads

/// Bytes of the two controller states that a client sends.
pub const CONTROLLERS_LEN: u16 = 20;

/// The payload that a client sends: the length of the controller bytes,
/// little-endian, then the bytes of both controller states.
pub open spec fn spec_controller_payload(a: crate::input::ControllerView, b: crate::input::ControllerView) -> Seq<u8> {
    u16_le(CONTROLLERS_LEN) + crate::input::controller_bytes(a) + crate::input::controller_bytes(b)
}

/// Where an entity's physical body is: the bit patterns of its position and
/// of its rotation about the y axis.
#[derive(Debug, Default, Copy, Clone, PartialEq, Eq, Structural)]
pub struct Placement {
    pub position: WirePosition,
    pub y_rotation: u32,
}

/// The entities after the updates `us`, in order: each update whose index
/// names an entity replaces it by the entity it describes; other updates are
/// passed over.
pub open spec fn applied_things(things: Seq<ThingKind>, us: Seq<WorldUpdate>) -> Seq<ThingKind>
    decreases us.len(),
{
    if us.len() == 0 {
        things
    } else {
        let before = applied_things(things, us.drop_last());
        let u = us.last();
        if u.id < before.len() {
            before.update(u.id as int, spec_thing_of(u.thing))
        } else {
            before
        }
    }
}

/// The placements after the updates `us`, in order: each update whose index
/// names a placement moves it to the update's position and rotation; other
/// updates are passed over.
pub open spec fn applied_placements(places: Seq<Placement>, us: Seq<WorldUpdate>) -> Seq<Placement>
    decreases us.len(),
{
    if us.len() == 0 {
        places
    } else {
        let before = applied_placements(places, us.drop_last());
        let u = us.last();
        if u.id < before.len() {
            before.update(u.id as int, Placement { position: u.position, y_rotation: u.y_rotation })
        } else {
            before
        }
    }
}

/// Updates keep the number of entities.
pub proof fn lemma_applied_things_len(things: Seq<ThingKind>, us: Seq<WorldUpdate>)
    ensures
        applied_things(things, us).len() == things.len(),
    decreases us.len(),
{
    if us.len() > 0 {
        lemma_applied_things_len(things, us.drop_last());
    }
}

/// Updates keep the number of placements.
pub proof fn lemma_applied_placements_len(places: Seq<Placement>, us: Seq<WorldUpdate>)
    ensures
        applied_placements(places, us).len() == places.len(),
    decreases us.len(),
{
    if us.len() > 0 {
        lemma_applied_placements_len(places, us.drop_last());
    }
}

/// Apply received updates to the entities and their placements, by index;
/// an update whose index names no entity, or no placement, leaves that
/// collection alone.
pub fn apply_world_updates(
    things: &mut Vec<ThingKind>,
    places: &mut Vec<Placement>,
    updates: &[WorldUpdate],
)
    requires
        forall|k: int| 0 <= k < updates@.len() ==> (#[trigger] updates@[k]).thing.tag <= 1,
    ensures
        final(things)@ == applied_things(old(things)@, updates@),
        final(places)@ == applied_placements(old(places)@, updates@),
{
    let mut k: usize = 0;
    while k < updates.len()
        invariant
            k <= updates@.len(),
            forall|m: int| 0 <= m < updates@.len() ==> (#[trigger] updates@[m]).thing.tag <= 1,
            things@ == applied_things(old(things)@, updates@.take(k as int)),
            places@ == applied_placements(old(places)@, updates@.take(k as int)),
        decreases updates@.len() - k,
    {
        proof {
            let next = updates@.take(k as int + 1);
            assert(updates@.take(k as int) =~= next.drop_last());
            assert(next.last() == updates@[k as int]);
        }
        let u = updates[k];
        let thing = ThingKind::from_wire(u.thing);
        let id = u.id as usize;
        if id < things.len() {
            things.set(id, thing);
        }
        if id < places.len() {
            places.set(id, Placement { position: u.position, y_rotation: u.y_rotation });
        }
        k = k + 1;
    }
    assert(updates@.take(updates@.len() as int) =~= updates@);
}

/// The payload that carries the two controller states.
pub fn controller_payload(controllers: &[crate::input::ControllerState; 2]) -> (out: Vec<u8>)
    ensures
        out@ == spec_controller_payload(controllers[0]@, controllers[1]@),
{
    let mut out: Vec<u8> = Vec::new();
    push_u16_le(&mut out, CONTROLLERS_LEN);
    let a = controllers[0].to_bytes();
    let b = controllers[1].to_bytes();
    let mut i: usize = 0;
    while i < a.len()
        invariant
            0 <= i <= a@.len(),
            out@ == u16_le(CONTROLLERS_LEN) + a@.take(i as int),
        decreases a@.len() - i,
    {
        out.push(a[i]);
        i = i + 1;
        assert(out@ =~= u16_le(CONTROLLERS_LEN) + a@.take(i as int));
    }
    assert(a@.take(a@.len() as int) =~= a@);
    let ghost head = out@;
    let mut j: usize = 0;
    while j < b.len()
        invariant
            0 <= j <= b@.len(),
            out@ == head + b@.take(j as int),
        decreases b@.len() - j,
    {
        out.push(b[j]);
        j = j + 1;
        assert(out@ =~= head + b@.take(j as int));
    }
    assert(b@.take(b@.len() as int) =~= b@);
    out
}

/// What a server reads from a payload: the announced length must fit in the
/// payload after the two length bytes, and must be that of two controller
/// states.
pub open spec fn spec_read_controllers(p: Seq<u8>) -> Result<
    (crate::input::ControllerView, crate::input::ControllerView),
    WireError,
> {
    let len = le_u16(p.subrange(0, 2));
    if len + 2 > p.len() {
        Err(WireError::InvalidPayloadLength(len, p.len() as usize))
    } else if len != CONTROLLERS_LEN {
        Err(WireError::FromBytes(p.len() as usize))
    } else {
        Ok(
            (
                crate::input::decode_controller(p.subrange(2, 12)),
                crate::input::decode_controller(p.subrange(12, 22)),
            ),
        )
    }
}

/// Read the two controller states of a message payload.
pub fn read_controller_payload(payload: &[u8; 1024]) -> (r: Result<[crate::input::ControllerState; 2], WireError>)
    requires
        le_u16(payload@.subrange(0, 2)) + 2 <= u16::MAX,
    ensures
        match spec_read_controllers(payload@) {
            Ok((a, b)) => r matches Ok(cs) && cs[0]@ == a && cs[1]@ == b,
            Err(e) => r == Err::<[crate::input::ControllerState; 2], WireError>(e),
        },
{
    let p = payload.as_slice();
    let len = read_u16_le(p, 0);
    if len + 2 > PAYLOAD_LEN as u16 {
        return Err(WireError::InvalidPayloadLength(len, PAYLOAD_LEN));
    }
    if len != CONTROLLERS_LEN {
        return Err(WireError::FromBytes(PAYLOAD_LEN));
    }
    let a = crate::input::ControllerState::from_bytes(&p[2..12]);
    let b = crate::input::ControllerState::from_bytes(&p[12..22]);
    Ok([a, b])
}

/// The server reads back the controller states that a client framed.
pub proof fn lemma_controller_payload_roundtrip(a: crate::input::ControllerView, b: crate::input::ControllerView, p: Seq<u8>)
    requires
        a.axes.len() == 7,
        b.axes.len() == 7,
        p.len() == PAYLOAD_LEN,
        p.subrange(0, 22) == spec_controller_payload(a, b),
    ensures
        spec_read_controllers(p) == Ok::<_, WireError>((a, b)),
{
    let f = spec_controller_payload(a, b);
    crate::input::lemma_controller_bytes_roundtrip(a);
    crate::input::lemma_controller_bytes_roundtrip(b);
    assert(p.subrange(0, 2) =~= f.subrange(0, 2));
    assert(f.subrange(0, 2) =~= u16_le(CONTROLLERS_LEN));
    lemma_u16_roundtrip(CONTROLLERS_LEN);
    let ca = crate::input::controller_bytes(a);
    let cb = crate::input::controller_bytes(b);
    assert(u16_le(CONTROLLERS_LEN).len() == 2);
    assert forall|k: int| 0 <= k < 10 implies p.subrange(2, 12)[k] == ca[k] by {
        assert(p.subrange(0, 22)[2 + k] == f[2 + k]);
    }
    assert forall|k: int| 0 <= k < 10 implies p.subrange(12, 22)[k] == cb[k] by {
        assert(p.subrange(0, 22)[12 + k] == f[12 + k]);
    }
    assert(p.subrange(2, 12) =~= ca);
    assert(p.subrange(12, 22) =~= cb);
}

} // verus!
