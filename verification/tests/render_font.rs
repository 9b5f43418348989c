use nshell::executor::CoreFuture;
use nshell::font::{glyph_placements, FontRenderer};
use nshell::render::{find_memorytype_index, Frame, RenderStateError, TextureId};
use nshell::wire::{
    controller_payload, read_controller_payload, ThingKind, WireError, WireThing,
};
use nshell::input::{Button, ControllerState, InputEvent};

#[test]
fn first_allowed_memory_type_with_all_flags() {
    let flags = [0b001, 0b110, 0b111, 0b110];
    assert_eq!(find_memorytype_index(0b1111, &flags, 0b110), Some(1));
    assert_eq!(find_memorytype_index(0b1100, &flags, 0b110), Some(2));
    assert_eq!(find_memorytype_index(0b0001, &flags, 0b110), None);
    assert_eq!(find_memorytype_index(0b1111, &[], 0), None);
}

#[test]
fn glyphs_skip_unprintable_bytes_but_keep_their_place() {
    let rects = glyph_placements(10, 20, b"A B", 8, 16);
    assert_eq!(rects.len(), 2);
    assert_eq!(rects[0], ((32 * 8, 0, 8, 16), (10, 20, 8, 16)));
    assert_eq!(rects[1], ((33 * 8, 0, 8, 16), (10 + 2 * 8, 20, 8, 16)));
}

#[test]
fn font_renderer_keeps_its_directory() {
    let f = FontRenderer::new(std::path::PathBuf::from("assets/fonts")).unwrap();
    assert_eq!(f.fonts_path(), &std::path::PathBuf::from("assets/fonts"));
}

#[test]
fn texture_ids_and_errors() {
    assert_eq!(TextureId::new(7).get(), 7);
    assert_eq!(Frame {}, Frame::default());
    assert_ne!(RenderStateError::ModelUpload, RenderStateError::NoVulkanBase);
}

#[test]
fn core_future_keeps_its_core() {
    let f = CoreFuture::new(3, 42u32);
    assert_eq!(f.core_id(), 3);
    assert_eq!(f.into_inner(), 42);
}

#[test]
fn things_roundtrip_through_the_wire() {
    let cam = ThingKind::Camera { phys: 4, camera: 2 };
    let w = cam.to_wire();
    assert_eq!(w, WireThing::new(0, 2, 4));
    assert_eq!(ThingKind::from_wire(w), cam);
    let obj = ThingKind::GraphicsObject { phys: 9, model: 1 };
    assert_eq!(ThingKind::from_wire(obj.to_wire()), obj);
}

#[test]
fn controller_payload_roundtrip() {
    let mut a = ControllerState::new(0);
    a.update_with_event(&InputEvent::ButtonPressed(0, Button::Left));
    let b = ControllerState::new(1);
    let frame = controller_payload(&[a, b]);
    assert_eq!(frame.len(), 22);
    assert_eq!(&frame[0..2], &[20, 0]);
    let mut payload = [0u8; 1024];
    payload[..22].copy_from_slice(&frame);
    let [ra, rb] = read_controller_payload(&payload).unwrap();
    assert_eq!(ra.id(), 0);
    assert!(ra.button_state(Button::Left));
    assert_eq!(rb.id(), 1);
}

#[test]
fn controller_payload_length_is_checked() {
    let mut payload = [0u8; 1024];
    payload[0] = 0xff;
    payload[1] = 0x03;
    assert_eq!(
        read_controller_payload(&payload).err(),
        Some(WireError::InvalidPayloadLength(1023, 1024))
    );
    payload[0] = 10;
    payload[1] = 0;
    assert_eq!(
        read_controller_payload(&payload).err(),
        Some(WireError::FromBytes(1024))
    );
}
