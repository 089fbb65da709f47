//! A scalar record kept on the host together with the bytes that the GPU
//! holds of it.

use vstd::prelude::*;
use crate::layout::{encode, lemma_words_bytes, lemma_words_bytes_injective, record_bytes, word_at, Plain};

verus! {

/// What kind of buffer a binding exposes.
#[derive(Clone, Copy, Debug, PartialEq, Eq, Structural)]
pub enum BufferBindingType {
    Uniform,
    Storage { read_only: bool },
}

/// How a buffer is bound to a shader stage.
#[derive(Clone, Copy, Debug, PartialEq, Eq)]
pub struct BindingType {
    pub ty: BufferBindingType,
    pub has_dynamic_offset: bool,
    pub min_binding_size: Option<u64>,
}

/// A record on the host and the bytes last pushed to its GPU buffer.
///
/// The host value is free to change; the GPU bytes follow only on `write`.
pub struct UniformBuffer<T> {
    mirror: Vec<u8>,
    value: T,
}

impl<T: Plain + Copy> UniformBuffer<T> {
    /// The bytes that the GPU holds.
    pub closed spec fn device(&self) -> Seq<u8> {
        self.mirror@
    }

    /// The record that the host holds.
    pub closed spec fn host(&self) -> T {
        self.value
    }

    /// Whether the GPU holds the bytes of the present host value.
    pub open spec fn current(&self) -> bool {
        self.device() == record_bytes(&self.host())
    }

    /// Whether `next` is this buffer after one `write`: the host value is
    /// kept and the GPU holds its bytes.
    pub open spec fn written(&self, next: &Self) -> bool {
        &&& next.host() == self.host()
        &&& next.device() == record_bytes(&self.host())
    }

    /// A buffer whose GPU bytes are those of `data`.
    pub fn new(data: T) -> (buf: Self)
        ensures
            buf.host() == data,
            buf.device() == record_bytes(&data),
            buf.current(),
    {
        let mirror = encode(&data);
        UniformBuffer { mirror, value: data }
    }

    /// Pushes the host value to the GPU bytes.
    pub fn write(&mut self)
        ensures
            old(self).written(final(self)),
            final(self).current(),
    {
        self.mirror = encode(&self.value);
    }

    /// The record that the host holds.
    pub fn get(&self) -> (data: &T)
        ensures
            *data == self.host(),
    {
        &self.value
    }

    /// Replaces the record that the host holds; the GPU bytes stay as they
    /// are until the next `write`.
    pub fn set(&mut self, data: T)
        ensures
            final(self).host() == data,
            final(self).device() == old(self).device(),
    {
        self.value = data;
    }

    /// The bytes that the GPU holds: those of the host value as it was at the
    /// last `write`, or at construction if there was none.
    pub fn buffer(&self) -> (bytes: &Vec<u8>)
        ensures
            bytes@ == self.device(),
    {
        &self.mirror
    }

    /// The binding of the buffer: a uniform of exactly the record's size.
    pub fn binding_ty(&self) -> (binding: BindingType)
        ensures
            binding.ty == BufferBindingType::Uniform,
            !binding.has_dynamic_offset,
            binding.min_binding_size == Some(T::size() as u64),
            0 < T::size() <= u64::MAX,
    {
        proof {
            self.value.lemma_size();
        }
        BindingType {
            ty: BufferBindingType::Uniform,
            has_dynamic_offset: false,
            min_binding_size: Some(T::byte_len()),
        }
    }

    /// A second `write` with the host value unchanged leaves the GPU bytes as
    /// the first one left them.
    pub proof fn law_write_idempotent(a: &Self, b: &Self, c: &Self)
        requires
            a.written(b),
            b.written(c),
        ensures
            c.device() == b.device(),
            c.host() == b.host(),
    {
    }

    /// After a `write` the GPU holds every word of the host value, each at
    /// its place in the layout, and nothing else.
    pub proof fn law_write_round_trip(a: &Self, b: &Self)
        requires
            a.written(b),
        ensures
            b.device().len() == T::size(),
            forall|i: int|
                0 <= i < a.host().words().len() ==> #[trigger] word_at(b.device(), 4 * i)
                    == a.host().words()[i],
    {
        a.host().lemma_size();
        lemma_words_bytes(a.host().words());
    }

    /// A buffer whose host value has changed since the last `write` is not
    /// current: the GPU still holds the words of the earlier value.
    pub proof fn law_stale_until_written(a: &Self, b: &Self)
        requires
            a.current(),
            b.device() == a.device(),
            b.host().words() != a.host().words(),
        ensures
            !b.current(),
    {
        if b.current() {
            lemma_words_bytes_injective(a.host().words(), b.host().words());
        }
    }
}

} // verus!
