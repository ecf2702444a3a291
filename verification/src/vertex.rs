//! Vertex component containers and their byte packing.
//!
//! Vertices destined for device-visible buffers are serialized component
//! by component, either appended to a growing byte vector or written into
//! a caller-provided byte buffer at a given offset.

use vstd::prelude::*;

verus! {

/// A value that can serialize itself into device-buffer bytes.
pub trait Vulkanic {
    /// The exact bytes the value serializes to.
    spec fn byte_view(&self) -> Seq<u8>;

    /// Append the value's bytes to `buffer`.
    fn copy_into_vk_vec(&self, buffer: &mut Vec<u8>)
        ensures
            final(buffer)@ == old(buffer)@ + self.byte_view(),
    ;

    /// Write the value's bytes into `buffer` at `start`, leaving every
    /// other byte as it was, and return how many bytes were written.
    fn copy_into_vk_buffer(&self, buffer: &mut [u8], start: usize) -> (written: usize)
        requires
            start + self.byte_view().len() <= old(buffer)@.len(),
        ensures
            written == self.byte_view().len(),
            final(buffer)@.len() == old(buffer)@.len(),
            forall|i: int|
                0 <= i < self.byte_view().len() ==> final(buffer)@[start + i]
                    == self.byte_view()[i],
            forall|i: int|
                0 <= i < old(buffer)@.len() && !(start <= i < start + self.byte_view().len())
                    ==> final(buffer)@[i] == old(buffer)@[i],
    ;
}

/// Two unsigned byte components.
pub struct U8Vertex2 {
    vertex: [u8; 2],
}

impl U8Vertex2 {
    /// The two components.
    pub closed spec fn components(&self) -> Seq<u8> {
        self.vertex@
    }

    /// A vertex holding the given components.
    pub fn new(vertex: [u8; 2]) -> (r: U8Vertex2)
        ensures
            r.components() == vertex@,
    {
        U8Vertex2 { vertex }
    }
}

impl Vulkanic for U8Vertex2 {
    open spec fn byte_view(&self) -> Seq<u8> {
        self.components()
    }

    fn copy_into_vk_vec(&self, buffer: &mut Vec<u8>) {
        buffer.push(self.vertex[0]);
        buffer.push(self.vertex[1]);
        proof {
            assert(buffer@ =~= old(buffer)@ + self.byte_view());
        }
    }

    fn copy_into_vk_buffer(&self, buffer: &mut [u8], start: usize) -> (written: usize) {
        buffer[start] = self.vertex[0];
        buffer[start + 1] = self.vertex[1];
        2
    }
}

/// Three unsigned byte components.
pub struct U8Vertex3 {
    vertex: [u8; 3],
}

impl U8Vertex3 {
    /// The three components.
    pub closed spec fn components(&self) -> Seq<u8> {
        self.vertex@
    }

    /// A vertex holding the given components.
    pub fn new(vertex: [u8; 3]) -> (r: U8Vertex3)
        ensures
            r.components() == vertex@,
    {
        U8Vertex3 { vertex }
    }
}

impl Vulkanic for U8Vertex3 {
    open spec fn byte_view(&self) -> Seq<u8> {
        self.components()
    }

    fn copy_into_vk_vec(&self, buffer: &mut Vec<u8>) {
        buffer.push(self.vertex[0]);
        buffer.push(self.vertex[1]);
        buffer.push(self.vertex[2]);
        proof {
            assert(buffer@ =~= old(buffer)@ + self.byte_view());
        }
    }

    fn copy_into_vk_buffer(&self, buffer: &mut [u8], start: usize) -> (written: usize) {
        buffer[start] = self.vertex[0];
        buffer[start + 1] = self.vertex[1];
        buffer[start + 2] = self.vertex[2];
        3
    }
}

/// Four unsigned byte components.
pub struct U8Vertex4 {
    vertex: [u8; 4],
}

impl U8Vertex4 {
    /// The four components.
    pub closed spec fn components(&self) -> Seq<u8> {
        self.vertex@
    }

    /// A vertex holding the given components.
    pub fn new(vertex: [u8; 4]) -> (r: U8Vertex4)
        ensures
            r.components() == vertex@,
    {
        U8Vertex4 { vertex }
    }
}

impl Vulkanic for U8Vertex4 {
    open spec fn byte_view(&self) -> Seq<u8> {
        self.components()
    }

    fn copy_into_vk_vec(&self, buffer: &mut Vec<u8>) {
        buffer.push(self.vertex[0]);
        buffer.push(self.vertex[1]);
        buffer.push(self.vertex[2]);
        buffer.push(self.vertex[3]);
        proof {
            assert(buffer@ =~= old(buffer)@ + self.byte_view());
        }
    }

    fn copy_into_vk_buffer(&self, buffer: &mut [u8], start: usize) -> (written: usize) {
        buffer[start] = self.vertex[0];
        buffer[start + 1] = self.vertex[1];
        buffer[start + 2] = self.vertex[2];
        buffer[start + 3] = self.vertex[3];
        4
    }
}

} // verus!
