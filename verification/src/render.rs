//! Identifiers and errors shared by the renderer plugins.
use vstd::prelude::*;

verus! {

/// The index of an uploaded texture.
#[derive(Debug, Copy, Clone, PartialEq, Eq, Structural)]
pub struct TextureId(u32);

impl TextureId {
    pub closed spec fn value(self) -> u32 {
        self.0
    }

    /// The texture id with the given index.
    pub fn new(value: u32) -> (t: Self)
        ensures
            t.value() == value,
    {
        Self(value)
    }

    /// The index of the texture.
    pub fn get(&self) -> (v: u32)
        ensures
            v == self.value(),
    {
        self.0
    }
}

/// Errors of the texture upload queue.
#[derive(Debug, PartialEq, Eq, Clone, Copy, Structural)]
pub enum TextureUploaderError {
    QueueSend,
    QueueRecv,
}

/// Errors of the render state.
#[derive(Debug, PartialEq, Eq, Clone)]
pub enum RenderStateError {
    /// A plugin failed; holds the plugin's error message.
    PluginError(String),
    ModelUpload,
    NoVulkanBase,
}

/// The resources that one frame in flight needs.
#[derive(Debug, Default, Clone, Copy, PartialEq, Eq)]
pub struct Frame {}

/// Whether memory type `i`, with property flags `type_flags`, is allowed by
/// the type bits of a resource and has all the wanted `flags`.
pub open spec fn memory_type_fits(memory_type_bits: u32, type_flags: u32, flags: u32, i: int) -> bool {
    &&& (1u32 << (i as u32)) & memory_type_bits != 0
    &&& type_flags & flags == flags
}

/// The first memory type that the type bits allow and that has all the wanted
/// flags, among the device's memory types given by their property flags.
pub fn find_memorytype_index(memory_type_bits: u32, type_flags: &[u32], flags: u32) -> (r: Option<u32>)
    requires
        type_flags@.len() <= 32,
    ensures
        match r {
            Some(i) => i < type_flags@.len() && memory_type_fits(
                memory_type_bits,
                type_flags@[i as int],
                flags,
                i as int,
            ) && forall|j: int|
                0 <= j < i ==> !memory_type_fits(memory_type_bits, #[trigger] type_flags@[j], flags, j),
            None => forall|j: int|
                0 <= j < type_flags@.len() ==> !memory_type_fits(
                    memory_type_bits,
                    #[trigger] type_flags@[j],
                    flags,
                    j,
                ),
        },
{
    let mut index: usize = 0;
    while index < type_flags.len()
        invariant
            0 <= index <= type_flags@.len() <= 32,
            forall|j: int|
                0 <= j < index ==> !memory_type_fits(memory_type_bits, #[trigger] type_flags@[j], flags, j),
        decreases type_flags@.len() - index,
    {
        if (1u32 << (index as u32)) & memory_type_bits != 0 && type_flags[index] & flags == flags {
            return Some(index as u32);
        }
        index = index + 1;
    }
    None
}

} // verus!
