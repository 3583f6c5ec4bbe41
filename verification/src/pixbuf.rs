use vstd::prelude::*;
use std::sync::Arc;
use std::sync::atomic::{AtomicBool, Ordering};
use crate::objects::{object, new_id};
use crate::wire::Fd;
use crate::{wl_buffer, wl_shm, wl_shm_pool};

verus! {

/// A buffer of `width` x `height` 32-bit pixels shared with the compositor,
/// with the flag that says whether the client may write it now.
#[derive(Debug)]
pub struct ShmPixelBuffer {
    pub wl: object<wl_buffer::wl_buffer>,
    pub locked: Arc<AtomicBool>,
    pub width: usize,
    pub height: usize,
}

/// Write access to a locked pixel buffer.
pub struct ShmMut<'b>(pub &'b mut ShmPixelBuffer);

impl ShmPixelBuffer {
    /// Takes the buffer for writing if nobody holds it: sets the lock flag
    /// when it was clear. Whether it was clear is up to the other holders of
    /// the flag, so either outcome can come back.
    pub fn lock(&mut self) -> (r: Option<ShmMut<'_>>)
        ensures
            r matches Some(m) ==> m.0.width == old(self).width && m.0.height == old(self).height
                && m.0.wl == old(self).wl,
            r is None ==> *final(self) == *old(self),
    {
        if self.locked.compare_exchange(false, true, Ordering::SeqCst, Ordering::SeqCst).is_err() {
            return None;
        }
        Some(ShmMut(self))
    }

    /// Bytes of pixel memory that `width` x `height` ARGB8888 pixels take.
    pub fn mem_size(width: usize, height: usize) -> (r: usize)
        requires
            4 * width <= usize::MAX,
            4 * width * height <= usize::MAX,
        ensures
            r == 4 * width * height,
    {
        4 * width * height
    }

    /// The request that makes the pool `id` of `size` bytes over the memory behind `fd`.
    pub fn pool_request(id: new_id<wl_shm_pool::wl_shm_pool>, fd: Fd, size: usize) -> (r: wl_shm::request::create_pool)
        requires
            size <= i32::MAX,
        ensures
            r.id == id,
            r.fd == fd,
            r.size == size,
    {
        wl_shm::request::create_pool { id, fd, size: size as i32 }
    }

    /// The request that makes the buffer `id` of `width` x `height` ARGB8888
    /// pixels, rows one after the other from the start of the pool.
    pub fn buffer_request(id: new_id<wl_buffer::wl_buffer>, width: usize, height: usize) -> (r: wl_shm_pool::request::create_buffer)
        requires
            width <= i32::MAX,
            height <= i32::MAX,
            4 * width <= i32::MAX,
        ensures
            r.id == id,
            r.offset == 0,
            r.width == width,
            r.height == height,
            r.stride == 4 * width,
            r.format == wl_shm::format::argb8888,
    {
        wl_shm_pool::request::create_buffer {
            id,
            offset: 0,
            width: width as i32,
            height: height as i32,
            stride: (4 * width) as i32,
            format: wl_shm::format::argb8888,
        }
    }

    /// Offset of the pixel at column `x` and row `y` in the pixel memory.
    pub fn pixel_index(&self, x: usize, y: usize) -> (r: usize)
        requires
            x < self.width,
            y < self.height,
            x + y * self.width <= usize::MAX,
        ensures
            r == x + y * self.width,
            r < self.width * self.height,
    {
        proof {
            assert(y * self.width + self.width <= self.height * self.width) by (nonlinear_arith)
                requires
                    y < self.height,
            ;
            assert(self.height * self.width == self.width * self.height) by (nonlinear_arith);
        }
        x + y * self.width
    }
}

impl<'b> ShmMut<'b> {
    /// Gives the buffer back: clears the lock flag if it is set, and says
    /// whether it was. Whether it was is up to the other holders of the flag,
    /// so either outcome can come back; the buffer itself is kept.
    pub fn release(&mut self) -> (r: bool)
        ensures
            *final(self).0 == *old(self).0,
    {
        self.0.locked.compare_exchange(true, false, Ordering::SeqCst, Ordering::SeqCst).is_ok()
    }
}

} // verus!
